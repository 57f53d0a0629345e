use vstd::prelude::*;

use crate::riichi::progress::Seat;
use crate::riichi::tile::{Tile, TileId, TileKind};

verus! {

#[derive(Clone, Copy, Debug, PartialEq, Eq, Structural, Hash, PartialOrd, Ord)]
pub struct MeldId(u8);

impl View for MeldId {
    type V = u8;

    closed spec fn view(&self) -> u8 {
        self.0
    }
}

impl MeldId {
    #[must_use]
    pub fn new(value: u8) -> (r: MeldId)
        ensures
            r@ == value,
    {
        MeldId(value)
    }

    #[must_use]
    pub fn value(self) -> (r: u8)
        ensures
            r == self@,
    {
        self.0
    }
}

#[derive(Clone, Copy, Debug, PartialEq, Eq, Structural, Hash)]
pub enum MeldKind {
    Chi,
    Pon,
    OpenKan,
    ConcealedKan,
    AddedKan,
}

/// A declared group: its tiles, and where the called tile came from.
#[derive(Clone, Debug, PartialEq, Eq)]
pub struct Meld {
    pub(crate) id: MeldId,
    pub(crate) kind: MeldKind,
    pub(crate) tiles: Vec<Tile>,
    pub(crate) called_from: Option<Seat>,
    pub(crate) called_tile: Option<TileId>,
}

impl Meld {
    pub closed spec fn spec_id(&self) -> MeldId {
        self.id
    }

    pub closed spec fn spec_kind(&self) -> MeldKind {
        self.kind
    }

    pub closed spec fn spec_tiles(&self) -> Seq<Tile> {
        self.tiles@
    }

    pub closed spec fn spec_called_from(&self) -> Option<Seat> {
        self.called_from
    }

    pub closed spec fn spec_called_tile(&self) -> Option<TileId> {
        self.called_tile
    }

    pub fn new(
        id: MeldId,
        kind: MeldKind,
        tiles: Vec<Tile>,
        called_from: Option<Seat>,
        called_tile: Option<TileId>,
    ) -> (r: Meld)
        ensures
            r.spec_id() == id,
            r.spec_kind() == kind,
            r.spec_tiles() == tiles@,
            r.spec_called_from() == called_from,
            r.spec_called_tile() == called_tile,
    {
        Meld { id, kind, tiles, called_from, called_tile }
    }

    #[must_use]
    pub fn id(&self) -> (r: MeldId)
        ensures
            r == self.spec_id(),
    {
        self.id
    }

    #[must_use]
    pub fn kind(&self) -> (r: MeldKind)
        ensures
            r == self.spec_kind(),
    {
        self.kind
    }

    #[must_use]
    pub fn tiles(&self) -> (r: &[Tile])
        ensures
            r@ == self.spec_tiles(),
    {
        self.tiles.as_slice()
    }

    #[must_use]
    pub fn called_from(&self) -> (r: Option<Seat>)
        ensures
            r == self.spec_called_from(),
    {
        self.called_from
    }

    #[must_use]
    pub fn called_tile(&self) -> (r: Option<TileId>)
        ensures
            r == self.spec_called_tile(),
    {
        self.called_tile
    }

    /// The kind of the meld's first tile.
    #[must_use]
    pub fn tile_kind(&self) -> (r: TileKind)
        requires
            self.spec_tiles().len() > 0,
        ensures
            r == self.spec_tiles()[0].spec_kind(),
    {
        self.tiles[0].kind()
    }
}

/// A tile in a player's discard pond.
#[derive(Clone, Copy, Debug, PartialEq, Eq, Structural)]
pub struct Discard {
    pub(crate) tile: Tile,
    pub(crate) tsumogiri: bool,
    pub(crate) riichi_declared: bool,
    pub(crate) claimed_by: Option<Seat>,
}

impl Discard {
    pub closed spec fn spec_tile(&self) -> Tile {
        self.tile
    }

    pub closed spec fn spec_tsumogiri(&self) -> bool {
        self.tsumogiri
    }

    pub closed spec fn spec_riichi_declared(&self) -> bool {
        self.riichi_declared
    }

    pub closed spec fn spec_claimed_by(&self) -> Option<Seat> {
        self.claimed_by
    }

    pub(crate) fn new(tile: Tile, tsumogiri: bool) -> (r: Discard)
        ensures
            r.spec_tile() == tile,
            r.spec_tsumogiri() == tsumogiri,
            !r.spec_riichi_declared(),
            r.spec_claimed_by() is None,
    {
        Discard { tile, tsumogiri, riichi_declared: false, claimed_by: None }
    }

    /// A discard that is laid sideways when `riichi_declared` holds.
    pub(crate) fn laid(tile: Tile, tsumogiri: bool, riichi_declared: bool) -> (r: Discard)
        ensures
            r.spec_tile() == tile,
            r.spec_tsumogiri() == tsumogiri,
            r.spec_riichi_declared() == riichi_declared,
            r.spec_claimed_by() is None,
    {
        Discard { tile, tsumogiri, riichi_declared, claimed_by: None }
    }

    #[must_use]
    pub fn tile(&self) -> (r: Tile)
        ensures
            r == self.spec_tile(),
    {
        self.tile
    }

    #[must_use]
    pub fn is_tsumogiri(&self) -> (r: bool)
        ensures
            r == self.spec_tsumogiri(),
    {
        self.tsumogiri
    }

    #[must_use]
    pub fn is_riichi_declaration(&self) -> (r: bool)
        ensures
            r == self.spec_riichi_declared(),
    {
        self.riichi_declared
    }

    #[must_use]
    pub fn claimed_by(&self) -> (r: Option<Seat>)
        ensures
            r == self.spec_claimed_by(),
    {
        self.claimed_by
    }

    pub(crate) fn mark_claimed(&mut self, seat: Seat)
        ensures
            final(self).spec_claimed_by() == Some(seat),
            final(self).spec_tile() == old(self).spec_tile(),
            final(self).spec_tsumogiri() == old(self).spec_tsumogiri(),
            final(self).spec_riichi_declared() == old(self).spec_riichi_declared(),
    {
        self.claimed_by = Some(seat);
    }
}

#[derive(Clone, Copy, Debug, PartialEq, Eq, Structural)]
pub enum RiichiStatus {
    NotDeclared,
    Pending,
    Established,
}

impl Default for RiichiStatus {
    fn default() -> (r: RiichiStatus)
        ensures
            r == RiichiStatus::NotDeclared,
    {
        RiichiStatus::NotDeclared
    }
}

/// A player's answer to another player's discard or kan.
#[derive(Clone, Copy, Debug, PartialEq, Eq)]
pub enum Reaction {
    Pass,
    Ron,
    Chi { hand_tiles: [TileId; 2] },
    Pon { hand_tiles: [TileId; 2] },
    OpenKan { hand_tiles: [TileId; 3] },
}

/// One player's state within a hand.
#[derive(Clone, Debug, PartialEq, Eq)]
pub struct PlayerHand {
    pub(crate) points: i32,
    pub(crate) concealed: Vec<Tile>,
    pub(crate) drawn_tile: Option<TileId>,
    pub(crate) melds: Vec<Meld>,
    pub(crate) discards: Vec<Discard>,
    pub(crate) riichi: RiichiStatus,
    pub(crate) double_riichi: bool,
    pub(crate) temporary_furiten: bool,
    pub(crate) riichi_furiten: bool,
    pub(crate) ippatsu_eligible: bool,
}

impl PlayerHand {
    pub closed spec fn spec_points(&self) -> i32 {
        self.points
    }

    pub closed spec fn spec_concealed(&self) -> Seq<Tile> {
        self.concealed@
    }

    pub closed spec fn spec_drawn_tile(&self) -> Option<TileId> {
        self.drawn_tile
    }

    pub closed spec fn spec_melds(&self) -> Seq<Meld> {
        self.melds@
    }

    pub closed spec fn spec_discards(&self) -> Seq<Discard> {
        self.discards@
    }

    pub closed spec fn spec_riichi(&self) -> RiichiStatus {
        self.riichi
    }

    pub closed spec fn spec_double_riichi(&self) -> bool {
        self.double_riichi
    }

    pub closed spec fn spec_temporary_furiten(&self) -> bool {
        self.temporary_furiten
    }

    pub closed spec fn spec_riichi_furiten(&self) -> bool {
        self.riichi_furiten
    }

    pub closed spec fn spec_ippatsu(&self) -> bool {
        self.ippatsu_eligible
    }

    pub(crate) fn new(points: i32) -> (r: PlayerHand)
        ensures
            r.spec_points() == points,
            r.spec_concealed().len() == 0,
            r.spec_drawn_tile() is None,
            r.spec_melds().len() == 0,
            r.spec_discards().len() == 0,
            r.spec_riichi() == RiichiStatus::NotDeclared,
            !r.spec_double_riichi(),
            !r.spec_temporary_furiten(),
            !r.spec_riichi_furiten(),
            !r.spec_ippatsu(),
    {
        PlayerHand {
            points,
            concealed: Vec::with_capacity(14),
            drawn_tile: None,
            melds: Vec::with_capacity(4),
            discards: Vec::with_capacity(24),
            riichi: RiichiStatus::NotDeclared,
            double_riichi: false,
            temporary_furiten: false,
            riichi_furiten: false,
            ippatsu_eligible: false,
        }
    }

    /// A closed hand of the given tiles, for evaluating wins outside a running hand.
    pub fn scoring_fixture(concealed: Vec<Tile>) -> (r: PlayerHand)
        ensures
            r.spec_points() == 0,
            r.spec_concealed() == concealed@,
            r.spec_drawn_tile() is None,
            r.spec_melds().len() == 0,
            r.spec_discards().len() == 0,
            r.spec_riichi() == RiichiStatus::NotDeclared,
            !r.spec_double_riichi(),
            !r.spec_temporary_furiten(),
            !r.spec_riichi_furiten(),
            !r.spec_ippatsu(),
    {
        let mut player = PlayerHand::new(0);
        player.concealed = concealed;
        player
    }

    /// Adds a tile to the discard pond of a scoring fixture.
    pub fn add_scoring_fixture_discard(&mut self, tile: Tile)
        ensures
            final(self).spec_discards().len() == old(self).spec_discards().len() + 1,
            final(self).spec_discards().last().spec_tile() == tile,
            final(self).spec_discards().drop_last() == old(self).spec_discards(),
            final(self).spec_concealed() == old(self).spec_concealed(),
            final(self).spec_melds() == old(self).spec_melds(),
            final(self).spec_riichi() == old(self).spec_riichi(),
    {
        self.discards.push(Discard::new(tile, false));
        proof {
            assert(self.discards@.drop_last() =~= old(self).discards@);
        }
    }

    /// The parts of a player's state that taking turns leaves alone.
    pub open spec fn keeps_record_of(self, other: PlayerHand) -> bool {
        &&& self.spec_points() == other.spec_points()
        &&& self.spec_melds() == other.spec_melds()
        &&& self.spec_riichi() == other.spec_riichi()
        &&& self.spec_double_riichi() == other.spec_double_riichi()
    }

    /// A copy of the concealed tiles.
    pub(crate) fn concealed_tiles(&self) -> (r: Vec<Tile>)
        ensures
            r@ == self.spec_concealed(),
    {
        let mut tiles: Vec<Tile> = Vec::new();
        let mut index: usize = 0;
        while index < self.concealed.len()
            invariant
                index <= self.concealed@.len(),
                tiles@ == self.concealed@.take(index as int),
            decreases self.concealed@.len() - index,
        {
            tiles.push(self.concealed[index]);
            index = index + 1;
            proof {
                assert(tiles@ =~= self.concealed@.take(index as int));
            }
        }
        proof {
            assert(tiles@ =~= self.concealed@);
        }
        tiles
    }

    /// Adds a dealt tile to the concealed hand.
    pub(crate) fn receive(&mut self, tile: Tile)
        ensures
            final(self).keeps_record_of(*old(self)),
            final(self).spec_concealed() == old(self).spec_concealed().push(tile),
            final(self).spec_drawn_tile() == old(self).spec_drawn_tile(),
            final(self).spec_discards() == old(self).spec_discards(),
            final(self).spec_temporary_furiten() == old(self).spec_temporary_furiten(),
            final(self).spec_riichi_furiten() == old(self).spec_riichi_furiten(),
            final(self).spec_ippatsu() == old(self).spec_ippatsu(),
    {
        self.concealed.push(tile);
    }

    /// Marks the tile with `id` as the one just drawn.
    pub(crate) fn mark_drawn(&mut self, id: TileId)
        ensures
            final(self).keeps_record_of(*old(self)),
            final(self).spec_concealed() == old(self).spec_concealed(),
            final(self).spec_drawn_tile() == Some(id),
            final(self).spec_discards() == old(self).spec_discards(),
            final(self).spec_temporary_furiten() == old(self).spec_temporary_furiten(),
            final(self).spec_riichi_furiten() == old(self).spec_riichi_furiten(),
            final(self).spec_ippatsu() == old(self).spec_ippatsu(),
    {
        self.drawn_tile = Some(id);
    }

    /// Draws `tile` into the hand, which ends a temporary furiten; tells whether one ended.
    pub(crate) fn draw(&mut self, tile: Tile) -> (cleared: bool)
        ensures
            cleared == old(self).spec_temporary_furiten(),
            final(self).keeps_record_of(*old(self)),
            final(self).spec_concealed() == old(self).spec_concealed().push(tile),
            final(self).spec_drawn_tile() == Some(tile.spec_id()),
            final(self).spec_discards() == old(self).spec_discards(),
            !final(self).spec_temporary_furiten(),
            final(self).spec_riichi_furiten() == old(self).spec_riichi_furiten(),
            final(self).spec_ippatsu() == old(self).spec_ippatsu(),
    {
        let cleared = self.temporary_furiten;
        self.concealed.push(tile);
        self.drawn_tile = Some(tile.id());
        self.temporary_furiten = false;
        cleared
    }

    /// Takes the concealed tile at `index` out of the hand to discard it: the last concealed
    /// tile moves into its place, no tile counts as just drawn and ippatsu ends.
    pub(crate) fn take_for_discard(&mut self, index: usize) -> (tile: Tile)
        requires
            index < old(self).spec_concealed().len(),
        ensures
            tile == old(self).spec_concealed()[index as int],
            final(self).keeps_record_of(*old(self)),
            final(self).spec_concealed() == old(self).spec_concealed().update(
                index as int,
                old(self).spec_concealed().last(),
            ).drop_last(),
            final(self).spec_drawn_tile() is None,
            final(self).spec_discards() == old(self).spec_discards(),
            final(self).spec_temporary_furiten() == old(self).spec_temporary_furiten(),
            final(self).spec_riichi_furiten() == old(self).spec_riichi_furiten(),
            !final(self).spec_ippatsu(),
    {
        let tile = self.concealed.swap_remove(index);
        self.drawn_tile = None;
        self.ippatsu_eligible = false;
        proof {
            assert(self.concealed@ =~= old(self).concealed@.update(
                index as int,
                old(self).concealed@.last(),
            ).drop_last());
        }
        tile
    }

    /// Lays `discard` at the end of the pond.
    pub(crate) fn lay_discard(&mut self, discard: Discard)
        ensures
            final(self).keeps_record_of(*old(self)),
            final(self).spec_concealed() == old(self).spec_concealed(),
            final(self).spec_drawn_tile() == old(self).spec_drawn_tile(),
            final(self).spec_discards() == old(self).spec_discards().push(discard),
            final(self).spec_temporary_furiten() == old(self).spec_temporary_furiten(),
            final(self).spec_riichi_furiten() == old(self).spec_riichi_furiten(),
            final(self).spec_ippatsu() == old(self).spec_ippatsu(),
    {
        self.discards.push(discard);
    }

    /// Replaces the concealed tile at `index`.
    pub(crate) fn set_concealed_at(&mut self, index: usize, tile: Tile)
        requires
            index < old(self).spec_concealed().len(),
        ensures
            final(self).keeps_record_of(*old(self)),
            final(self).spec_concealed() == old(self).spec_concealed().update(index as int, tile),
            final(self).spec_drawn_tile() == old(self).spec_drawn_tile(),
            final(self).spec_discards() == old(self).spec_discards(),
            final(self).spec_temporary_furiten() == old(self).spec_temporary_furiten(),
            final(self).spec_riichi_furiten() == old(self).spec_riichi_furiten(),
            final(self).spec_ippatsu() == old(self).spec_ippatsu(),
    {
        self.concealed.set(index, tile);
    }

    /// Takes the concealed tile at `index` out of the hand; the last concealed tile moves into
    /// its place.
    pub(crate) fn remove_concealed_at(&mut self, index: usize) -> (tile: Tile)
        requires
            index < old(self).spec_concealed().len(),
        ensures
            tile == old(self).spec_concealed()[index as int],
            final(self).keeps_record_of(*old(self)),
            final(self).spec_concealed() == old(self).spec_concealed().update(
                index as int,
                old(self).spec_concealed().last(),
            ).drop_last(),
            final(self).spec_drawn_tile() == old(self).spec_drawn_tile(),
            final(self).spec_discards() == old(self).spec_discards(),
            final(self).spec_temporary_furiten() == old(self).spec_temporary_furiten(),
            final(self).spec_riichi_furiten() == old(self).spec_riichi_furiten(),
            final(self).spec_ippatsu() == old(self).spec_ippatsu(),
    {
        let tile = self.concealed.swap_remove(index);
        proof {
            assert(self.concealed@ =~= old(self).concealed@.update(
                index as int,
                old(self).concealed@.last(),
            ).drop_last());
        }
        tile
    }

    /// Adds a called meld: the tile just drawn, if any, no longer counts as drawn.
    pub(crate) fn add_meld(&mut self, meld: Meld)
        ensures
            final(self).spec_points() == old(self).spec_points(),
            final(self).spec_melds() == old(self).spec_melds().push(meld),
            final(self).spec_riichi() == old(self).spec_riichi(),
            final(self).spec_double_riichi() == old(self).spec_double_riichi(),
            final(self).spec_concealed() == old(self).spec_concealed(),
            final(self).spec_drawn_tile() is None,
            final(self).spec_discards() == old(self).spec_discards(),
            final(self).spec_temporary_furiten() == old(self).spec_temporary_furiten(),
            final(self).spec_riichi_furiten() == old(self).spec_riichi_furiten(),
            final(self).spec_ippatsu() == old(self).spec_ippatsu(),
    {
        self.melds.push(meld);
        self.drawn_tile = None;
    }

    /// Marks the discard at `index` as claimed by `seat`.
    pub(crate) fn mark_discard_claimed(&mut self, index: usize, seat: Seat)
        requires
            index < old(self).spec_discards().len(),
        ensures
            final(self).keeps_record_of(*old(self)),
            final(self).spec_concealed() == old(self).spec_concealed(),
            final(self).spec_drawn_tile() == old(self).spec_drawn_tile(),
            final(self).spec_discards().len() == old(self).spec_discards().len(),
            forall|j: int|
                0 <= j < old(self).spec_discards().len() && j != index ==> #[trigger] final(self).spec_discards()[j]
                    == old(self).spec_discards()[j],
            final(self).spec_discards()[index as int].spec_tile() == old(self).spec_discards()[index as int].spec_tile(),
            final(self).spec_discards()[index as int].spec_tsumogiri() == old(self).spec_discards()[index as int].spec_tsumogiri(),
            final(self).spec_discards()[index as int].spec_riichi_declared() == old(self).spec_discards()[index as int].spec_riichi_declared(),
            final(self).spec_discards()[index as int].spec_claimed_by() == Some(seat),
            final(self).spec_temporary_furiten() == old(self).spec_temporary_furiten(),
            final(self).spec_riichi_furiten() == old(self).spec_riichi_furiten(),
            final(self).spec_ippatsu() == old(self).spec_ippatsu(),
    {
        let mut discard = self.discards[index];
        discard.mark_claimed(seat);
        self.discards.set(index, discard);
    }

    /// Ends the player's ippatsu chance; tells whether there was one.
    pub(crate) fn end_ippatsu(&mut self) -> (had: bool)
        ensures
            had == old(self).spec_ippatsu(),
            final(self).keeps_record_of(*old(self)),
            final(self).spec_concealed() == old(self).spec_concealed(),
            final(self).spec_drawn_tile() == old(self).spec_drawn_tile(),
            final(self).spec_discards() == old(self).spec_discards(),
            final(self).spec_temporary_furiten() == old(self).spec_temporary_furiten(),
            final(self).spec_riichi_furiten() == old(self).spec_riichi_furiten(),
            !final(self).spec_ippatsu(),
    {
        let had = self.ippatsu_eligible;
        self.ippatsu_eligible = false;
        had
    }

    /// Declares riichi: the stick is paid once the declaration tile passes.
    pub(crate) fn declare_riichi(&mut self)
        ensures
            final(self).spec_points() == old(self).spec_points(),
            final(self).spec_melds() == old(self).spec_melds(),
            final(self).spec_riichi() == RiichiStatus::Pending,
            final(self).spec_double_riichi() == old(self).spec_double_riichi(),
            final(self).spec_concealed() == old(self).spec_concealed(),
            final(self).spec_drawn_tile() == old(self).spec_drawn_tile(),
            final(self).spec_discards() == old(self).spec_discards(),
            final(self).spec_temporary_furiten() == old(self).spec_temporary_furiten(),
            final(self).spec_riichi_furiten() == old(self).spec_riichi_furiten(),
            final(self).spec_ippatsu() == old(self).spec_ippatsu(),
    {
        self.riichi = RiichiStatus::Pending;
    }

    /// Establishes a pending riichi: the player pays the thousand-point stick and, where the
    /// rules count it, becomes eligible for ippatsu.
    pub(crate) fn establish_riichi(&mut self, ippatsu: bool)
        requires
            old(self).spec_points() >= 1000,
        ensures
            final(self).spec_points() == old(self).spec_points() - 1000,
            final(self).spec_melds() == old(self).spec_melds(),
            final(self).spec_riichi() == RiichiStatus::Established,
            final(self).spec_double_riichi() == old(self).spec_double_riichi(),
            final(self).spec_concealed() == old(self).spec_concealed(),
            final(self).spec_drawn_tile() == old(self).spec_drawn_tile(),
            final(self).spec_discards() == old(self).spec_discards(),
            final(self).spec_temporary_furiten() == old(self).spec_temporary_furiten(),
            final(self).spec_riichi_furiten() == old(self).spec_riichi_furiten(),
            final(self).spec_ippatsu() == ippatsu,
    {
        self.points = self.points - 1000;
        self.riichi = RiichiStatus::Established;
        self.ippatsu_eligible = ippatsu;
    }

    /// Withdraws a riichi whose declaration tile was won on.
    pub(crate) fn cancel_riichi(&mut self)
        ensures
            final(self).spec_points() == old(self).spec_points(),
            final(self).spec_melds() == old(self).spec_melds(),
            final(self).spec_riichi() == RiichiStatus::NotDeclared,
            !final(self).spec_double_riichi(),
            final(self).spec_concealed() == old(self).spec_concealed(),
            final(self).spec_drawn_tile() == old(self).spec_drawn_tile(),
            final(self).spec_discards() == old(self).spec_discards(),
            final(self).spec_temporary_furiten() == old(self).spec_temporary_furiten(),
            final(self).spec_riichi_furiten() == old(self).spec_riichi_furiten(),
            final(self).spec_ippatsu() == old(self).spec_ippatsu(),
    {
        self.riichi = RiichiStatus::NotDeclared;
        self.double_riichi = false;
    }

    /// Records a declined ron: an established riichi hand becomes furiten for the rest of the
    /// hand, any other hand until its next draw.
    pub(crate) fn decline_ron(&mut self)
        ensures
            final(self).keeps_record_of(*old(self)),
            final(self).spec_concealed() == old(self).spec_concealed(),
            final(self).spec_drawn_tile() == old(self).spec_drawn_tile(),
            final(self).spec_discards() == old(self).spec_discards(),
            final(self).spec_ippatsu() == old(self).spec_ippatsu(),
            old(self).spec_riichi() == RiichiStatus::Established ==> {
                &&& final(self).spec_riichi_furiten()
                &&& final(self).spec_temporary_furiten() == old(self).spec_temporary_furiten()
            },
            old(self).spec_riichi() != RiichiStatus::Established ==> {
                &&& final(self).spec_temporary_furiten()
                &&& final(self).spec_riichi_furiten() == old(self).spec_riichi_furiten()
            },
    {
        if matches!(self.riichi, RiichiStatus::Established) {
            self.riichi_furiten = true;
        } else {
            self.temporary_furiten = true;
        }
    }

    #[must_use]
    pub fn points(&self) -> (r: i32)
        ensures
            r == self.spec_points(),
    {
        self.points
    }

    #[must_use]
    pub fn concealed(&self) -> (r: &[Tile])
        ensures
            r@ == self.spec_concealed(),
    {
        self.concealed.as_slice()
    }

    #[must_use]
    pub fn drawn_tile_id(&self) -> (r: Option<TileId>)
        ensures
            r == self.spec_drawn_tile(),
    {
        self.drawn_tile
    }

    #[must_use]
    pub fn melds(&self) -> (r: &[Meld])
        ensures
            r@ == self.spec_melds(),
    {
        self.melds.as_slice()
    }

    #[must_use]
    pub fn discards(&self) -> (r: &[Discard])
        ensures
            r@ == self.spec_discards(),
    {
        self.discards.as_slice()
    }

    #[must_use]
    pub fn riichi_status(&self) -> (r: RiichiStatus)
        ensures
            r == self.spec_riichi(),
    {
        self.riichi
    }

    /// Whether the riichi was declared on the player's first uninterrupted turn.
    #[must_use]
    pub fn is_double_riichi(&self) -> (r: bool)
        ensures
            r == self.spec_double_riichi(),
    {
        self.double_riichi
    }

    #[must_use]
    pub fn is_temporary_furiten(&self) -> (r: bool)
        ensures
            r == self.spec_temporary_furiten(),
    {
        self.temporary_furiten
    }

    #[must_use]
    pub fn is_riichi_furiten(&self) -> (r: bool)
        ensures
            r == self.spec_riichi_furiten(),
    {
        self.riichi_furiten
    }

    #[must_use]
    pub fn is_ippatsu_eligible(&self) -> (r: bool)
        ensures
            r == self.spec_ippatsu(),
    {
        self.ippatsu_eligible
    }
}

#[derive(Clone, Copy, Debug, PartialEq, Eq, Structural)]
pub enum EndReason {
    ExhaustiveDraw,
    NineTerminals,
    FourWinds,
    FourKans,
    FourRiichi,
    Tsumo,
    Ron,
}

#[derive(Clone, Copy, Debug, PartialEq, Eq, Structural)]
pub enum HandPhase {
    AwaitingTurnAction { seat: Seat },
    AwaitingDiscard { seat: Seat },
    AwaitingResponses { trigger_seat: Seat },
    Ended { reason: EndReason },
}

} // verus!
