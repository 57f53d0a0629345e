//! One player's tiles in a Sichuan hand, and the records of kans and wins.

use vstd::prelude::*;

use super::super::progress::Seat;
use super::super::scoring::evaluate::{MeldSummary, WinEvaluation};
use super::super::tile::{Tile, TileId, TileKind};
use super::model::{Discard, HandError, Meld, MeldKind};

verus! {

/// How many of `tiles` are of kind `kind`.
pub open spec fn tiles_of_kind(tiles: Seq<Tile>, kind: TileKind) -> int
    decreases tiles.len(),
{
    if tiles.len() == 0 {
        0
    } else {
        tiles_of_kind(tiles.drop_last(), kind) + if tiles.last().spec_kind() == kind {
            1int
        } else {
            0int
        }
    }
}

/// Removing one tile of the kind lowers the count by one; any other leaves it.
proof fn lemma_tiles_of_kind_remove(tiles: Seq<Tile>, p: int, kind: TileKind)
    requires
        0 <= p < tiles.len(),
    ensures
        tiles_of_kind(tiles.remove(p), kind) == tiles_of_kind(tiles, kind) - if tiles[p].spec_kind() == kind {
            1int
        } else {
            0int
        },
    decreases tiles.len(),
{
    let rest = tiles.remove(p);
    if p == tiles.len() - 1 {
        assert(rest == tiles.drop_last());
    } else {
        assert(rest.drop_last() == tiles.drop_last().remove(p));
        assert(rest.last() == tiles.last());
        lemma_tiles_of_kind_remove(tiles.drop_last(), p, kind);
    }
}

/// The count is no less than none and no more than all.
pub(crate) proof fn lemma_tiles_of_kind_bounds(tiles: Seq<Tile>, kind: TileKind)
    ensures
        0 <= tiles_of_kind(tiles, kind) <= tiles.len(),
    decreases tiles.len(),
{
    if tiles.len() > 0 {
        lemma_tiles_of_kind_bounds(tiles.drop_last(), kind);
    }
}

/// A tile of the kind is counted.
pub(crate) proof fn lemma_tiles_of_kind_positive(tiles: Seq<Tile>, kind: TileKind, i: int)
    requires
        0 <= i < tiles.len(),
        tiles[i].spec_kind() == kind,
    ensures
        tiles_of_kind(tiles, kind) > 0,
    decreases tiles.len(),
{
    lemma_tiles_of_kind_bounds(tiles.drop_last(), kind);
    if i < tiles.len() - 1 {
        assert(tiles.drop_last()[i] == tiles[i]);
        lemma_tiles_of_kind_positive(tiles.drop_last(), kind, i);
    }
}

/// A kind with a tile counted has a tile of that kind somewhere.
pub(crate) proof fn lemma_tiles_of_kind_witness(tiles: Seq<Tile>, kind: TileKind)
    requires
        tiles_of_kind(tiles, kind) > 0,
    ensures
        exists|i: int| 0 <= i < tiles.len() && (#[trigger] tiles[i]).spec_kind() == kind,
    decreases tiles.len(),
{
    if tiles.last().spec_kind() == kind {
        assert(tiles[tiles.len() - 1].spec_kind() == kind);
    } else {
        lemma_tiles_of_kind_witness(tiles.drop_last(), kind);
        let i = choose|i: int| 0 <= i < tiles.drop_last().len() && (#[trigger] tiles.drop_last()[i]).spec_kind() == kind;
        assert(tiles[i] == tiles.drop_last()[i]);
    }
}

/// A player's concealed tiles (kept sorted by kind, then identity), the tile just drawn,
/// melds, discards and kans.
#[derive(Clone, Debug, PartialEq, Eq)]
pub struct PlayerHand {
    pub(crate) concealed: Vec<Tile>,
    pub(crate) drawn: Option<TileId>,
    pub(crate) melds: Vec<Meld>,
    pub(crate) discards: Vec<Discard>,
    pub(crate) kan_count: u8,
}

/// `a` sorts no later than `b`: by kind, then by identity.
pub open spec fn sorts_before(a: Tile, b: Tile) -> bool {
    a.spec_kind()@ < b.spec_kind()@ || (a.spec_kind()@ == b.spec_kind()@ && a.spec_id()@ <= b.spec_id()@)
}

fn sorts_before_exec(a: Tile, b: Tile) -> (r: bool)
    ensures
        r == sorts_before(a, b),
{
    let ka = a.kind().index();
    let kb = b.kind().index();
    ka < kb || (ka == kb && a.id().value() <= b.id().value())
}

/// `after` is `before` with `tile` put in front of the first tile that does not sort
/// before it.
pub open spec fn inserted(before: Seq<Tile>, tile: Tile, after: Seq<Tile>) -> bool {
    exists|p: int|
        0 <= p <= before.len() && after == before.insert(p, tile) && (forall|j: int|
            0 <= j < p ==> sorts_before(#[trigger] before[j], tile)) && (p < before.len() ==> !sorts_before(
            before[p],
            tile,
        ))
}

impl PlayerHand {
    pub closed spec fn spec_concealed(&self) -> Seq<Tile> {
        self.concealed@
    }

    pub closed spec fn spec_drawn(&self) -> Option<TileId> {
        self.drawn
    }

    pub closed spec fn spec_melds(&self) -> Seq<Meld> {
        self.melds@
    }

    pub closed spec fn spec_discards(&self) -> Seq<Discard> {
        self.discards@
    }

    pub closed spec fn spec_kan_count(&self) -> u8 {
        self.kan_count
    }

    pub(crate) fn empty() -> (r: PlayerHand)
        ensures
            r.concealed@.len() == 0,
            r.drawn is None,
            r.melds@.len() == 0,
            r.discards@.len() == 0,
            r.kan_count == 0,
    {
        PlayerHand { concealed: Vec::new(), drawn: None, melds: Vec::new(), discards: Vec::new(), kan_count: 0 }
    }

    #[must_use]
    pub fn concealed(&self) -> (r: &[Tile])
        ensures
            r@ == self.spec_concealed(),
    {
        self.concealed.as_slice()
    }

    #[must_use]
    pub fn drawn(&self) -> (r: Option<TileId>)
        ensures
            r == self.spec_drawn(),
    {
        self.drawn
    }

    #[must_use]
    pub fn melds(&self) -> (r: &[Meld])
        ensures
            r@ == self.spec_melds(),
    {
        self.melds.as_slice()
    }

    #[must_use]
    pub fn discards(&self) -> (r: &[Discard])
        ensures
            r@ == self.spec_discards(),
    {
        self.discards.as_slice()
    }

    #[must_use]
    pub fn kan_count(&self) -> (r: u8)
        ensures
            r == self.spec_kan_count(),
    {
        self.kan_count
    }

    /// Puts a tile among the concealed tiles, before the first tile that sorts after it.
    pub(crate) fn insert(&mut self, tile: Tile)
        ensures
            exists|p: int| 0 <= p <= old(self).concealed@.len() && final(self).concealed@ == old(self).concealed@.insert(p, tile),
            inserted(old(self).concealed@, tile, final(self).concealed@),
            final(self).drawn == old(self).drawn,
            final(self).melds@ == old(self).melds@,
            final(self).discards@ == old(self).discards@,
            final(self).kan_count == old(self).kan_count,
    {
        let mut position: usize = 0;
        while position < self.concealed.len() && sorts_before_exec(self.concealed[position], tile)
            invariant
                position <= self.concealed@.len(),
                *self == *old(self),
                forall|j: int| 0 <= j < position ==> sorts_before(#[trigger] self.concealed@[j], tile),
            decreases self.concealed@.len() - position,
        {
            position = position + 1;
        }
        self.concealed.insert(position, tile);
        proof {
            assert(self.concealed@ == old(self).concealed@.insert(position as int, tile));
        }
    }

    /// Concealed tiles of a kind.
    pub(crate) fn count_of(&self, kind: TileKind) -> (r: usize)
        ensures
            r == tiles_of_kind(self.concealed@, kind),
    {
        let mut found: usize = 0;
        let mut i: usize = 0;
        while i < self.concealed.len()
            invariant
                i <= self.concealed@.len(),
                found == tiles_of_kind(self.concealed@.take(i as int), kind),
                found <= i,
            decreases self.concealed@.len() - i,
        {
            assert(self.concealed@.take(i + 1).drop_last() == self.concealed@.take(i as int));
            if self.concealed[i].kind() == kind {
                found = found + 1;
            }
            i = i + 1;
        }
        assert(self.concealed@.take(i as int) == self.concealed@);
        found
    }

    /// Takes the concealed tile with the given identity out of the hand.
    pub(crate) fn remove_id(&mut self, tile: TileId) -> (r: Result<Tile, HandError>)
        ensures
            r is Err <==> forall|i: int| 0 <= i < old(self).concealed@.len() ==> (#[trigger] old(self).concealed@[i]).spec_id() != tile,
            r is Err ==> r == Err::<Tile, HandError>(HandError::TileNotHeld { tile }) && *final(self) == *old(self),
            r matches Ok(t) ==> exists|p: int|
                0 <= p < old(self).concealed@.len() && old(self).concealed@[p] == t && final(self).concealed@ == old(
                    self,
                ).concealed@.remove(p),
            r matches Ok(t) ==> t.spec_id() == tile,
            final(self).drawn == old(self).drawn,
            final(self).melds@ == old(self).melds@,
            final(self).discards@ == old(self).discards@,
            final(self).kan_count == old(self).kan_count,
    {
        let mut i: usize = 0;
        while i < self.concealed.len()
            invariant
                i <= self.concealed@.len(),
                *self == *old(self),
                forall|j: int| 0 <= j < i ==> (#[trigger] self.concealed@[j]).spec_id() != tile,
            decreases self.concealed@.len() - i,
        {
            if self.concealed[i].id() == tile {
                let taken = self.concealed.remove(i);
                return Ok(taken);
            }
            i = i + 1;
        }
        Err(HandError::TileNotHeld { tile })
    }

    /// Takes `count` concealed tiles of a kind out of the hand, or refuses when it holds fewer.
    pub(crate) fn remove_kind(&mut self, kind: TileKind, count: usize) -> (r: Result<Vec<Tile>, HandError>)
        ensures
            tiles_of_kind(old(self).concealed@, kind) < count ==> r == Err::<Vec<Tile>, HandError>(
                HandError::MeldNotAvailable,
            ) && *final(self) == *old(self),
            tiles_of_kind(old(self).concealed@, kind) >= count ==> r is Ok,
            r matches Ok(taken) ==> taken@.len() == count && (forall|i: int|
                0 <= i < taken@.len() ==> (#[trigger] taken@[i]).spec_kind() == kind) && final(self).concealed@.len()
                == old(self).concealed@.len() - count && tiles_of_kind(final(self).concealed@, kind) == tiles_of_kind(
                old(self).concealed@,
                kind,
            ) - count,
            r matches Ok(taken) ==> final(self).concealed@.to_multiset().add(taken@.to_multiset()) == old(
                self,
            ).concealed@.to_multiset(),
            final(self).drawn == old(self).drawn,
            final(self).melds@ == old(self).melds@,
            final(self).discards@ == old(self).discards@,
            final(self).kan_count == old(self).kan_count,
    {
        if self.count_of(kind) < count {
            return Err(HandError::MeldNotAvailable);
        }
        let mut taken: Vec<Tile> = Vec::new();
        proof {
            broadcast use vstd::seq_lib::group_to_multiset_ensures, vstd::multiset::group_multiset_axioms;

            assert(taken@.to_multiset() =~= vstd::multiset::Multiset::empty());
            assert(self.concealed@.to_multiset().add(taken@.to_multiset()) =~= self.concealed@.to_multiset());
        }
        while taken.len() < count
            invariant
                taken@.len() <= count,
                tiles_of_kind(old(self).concealed@, kind) >= count,
                tiles_of_kind(self.concealed@, kind) == tiles_of_kind(old(self).concealed@, kind) - taken@.len(),
                self.concealed@.len() == old(self).concealed@.len() - taken@.len(),
                forall|i: int| 0 <= i < taken@.len() ==> (#[trigger] taken@[i]).spec_kind() == kind,
                self.concealed@.to_multiset().add(taken@.to_multiset()) == old(self).concealed@.to_multiset(),
                self.drawn == old(self).drawn,
                self.melds@ == old(self).melds@,
                self.discards@ == old(self).discards@,
                self.kan_count == old(self).kan_count,
            decreases count - taken@.len(),
        {
            proof {
                lemma_tiles_of_kind_witness(self.concealed@, kind);
            }
            let mut position: usize = 0;
            while position < self.concealed.len() && self.concealed[position].kind() != kind
                invariant
                    position <= self.concealed@.len(),
                    forall|j: int| 0 <= j < position ==> (#[trigger] self.concealed@[j]).spec_kind() != kind,
                decreases self.concealed@.len() - position,
            {
                position = position + 1;
            }
            if position == self.concealed.len() {
                assert(false);
                return Err(HandError::MeldNotAvailable);
            }
            proof {
                lemma_tiles_of_kind_remove(self.concealed@, position as int, kind);
            }
            let ghost before = self.concealed@;
            let ghost taken_before = taken@;
            let tile = self.concealed.remove(position);
            taken.push(tile);
            proof {
                broadcast use vstd::seq_lib::group_to_multiset_ensures, vstd::multiset::group_multiset_axioms;

                assert(before[position as int] == tile);
                assert(before.to_multiset().count(tile) > 0);
                assert(self.concealed@.to_multiset() == before.to_multiset().remove(tile));
                assert(taken@.to_multiset() == taken_before.to_multiset().insert(tile));
                assert(self.concealed@.to_multiset().add(taken@.to_multiset()) =~= before.to_multiset().add(
                    taken_before.to_multiset(),
                ));
            }
        }
        Ok(taken)
    }

    /// The melds as scoring sees them: kind and tile kinds.
    pub(crate) fn meld_summaries(&self) -> (r: Vec<MeldSummary>)
        ensures
            r@.len() == self.melds@.len(),
            forall|i: int|
                0 <= i < r@.len() ==> (#[trigger] r@[i]).spec_kind() == self.melds@[i].spec_kind() && r@[i].spec_tiles()
                    == self.melds@[i].spec_tiles().map_values(|t: Tile| t.spec_kind()),
    {
        let mut summaries: Vec<MeldSummary> = Vec::new();
        let mut m: usize = 0;
        while m < self.melds.len()
            invariant
                m <= self.melds@.len(),
                summaries@.len() == m,
                forall|i: int|
                    0 <= i < m ==> (#[trigger] summaries@[i]).spec_kind() == self.melds@[i].spec_kind()
                        && summaries@[i].spec_tiles() == self.melds@[i].spec_tiles().map_values(|t: Tile| t.spec_kind()),
            decreases self.melds@.len() - m,
        {
            let tiles = self.melds[m].tiles();
            let mut kinds: Vec<TileKind> = Vec::new();
            let mut t: usize = 0;
            while t < tiles.len()
                invariant
                    t <= tiles@.len(),
                    kinds@ == tiles@.take(t as int).map_values(|x: Tile| x.spec_kind()),
                decreases tiles@.len() - t,
            {
                kinds.push(tiles[t].kind());
                t = t + 1;
                assert(kinds@ == tiles@.take(t as int).map_values(|x: Tile| x.spec_kind()));
            }
            assert(tiles@.take(t as int) == tiles@);
            summaries.push(MeldSummary::new(self.melds[m].kind(), kinds));
            m = m + 1;
        }
        summaries
    }

    /// The kinds of the concealed tiles, in order.
    pub(crate) fn concealed_kinds(&self) -> (r: Vec<TileKind>)
        ensures
            r@ == self.concealed@.map_values(|t: Tile| t.spec_kind()),
    {
        let mut kinds: Vec<TileKind> = Vec::new();
        let mut i: usize = 0;
        while i < self.concealed.len()
            invariant
                i <= self.concealed@.len(),
                kinds@ == self.concealed@.take(i as int).map_values(|t: Tile| t.spec_kind()),
            decreases self.concealed@.len() - i,
        {
            kinds.push(self.concealed[i].kind());
            i = i + 1;
            assert(kinds@ == self.concealed@.take(i as int).map_values(|t: Tile| t.spec_kind()));
        }
        assert(self.concealed@.take(i as int) == self.concealed@);
        kinds
    }
}

/// One win and what it moved: the winner's evaluation, how it was won, who paid, and the
/// points it moved (kans not included).
#[derive(Clone, Debug, PartialEq, Eq)]
pub struct WinnerRecord {
    pub(crate) seat: Seat,
    pub(crate) evaluation: WinEvaluation,
    pub(crate) is_tsumo: bool,
    pub(crate) payer: Option<Seat>,
    pub(crate) chankan: bool,
    pub(crate) deltas: Vec<i32>,
}

impl WinnerRecord {
    pub closed spec fn spec_seat(&self) -> Seat {
        self.seat
    }

    pub closed spec fn spec_deltas(&self) -> Seq<i32> {
        self.deltas@
    }

    pub closed spec fn spec_is_tsumo(&self) -> bool {
        self.is_tsumo
    }

    pub closed spec fn spec_payer(&self) -> Option<Seat> {
        self.payer
    }

    pub closed spec fn spec_evaluation(&self) -> WinEvaluation {
        self.evaluation
    }

    pub closed spec fn spec_chankan(&self) -> bool {
        self.chankan
    }

    #[must_use]
    pub fn seat(&self) -> (r: Seat)
        ensures
            r == self.spec_seat(),
    {
        self.seat
    }

    #[must_use]
    pub fn evaluation(&self) -> (r: &WinEvaluation)
        ensures
            *r == self.spec_evaluation(),
    {
        &self.evaluation
    }

    #[must_use]
    pub fn is_tsumo(&self) -> (r: bool)
        ensures
            r == self.spec_is_tsumo(),
    {
        self.is_tsumo
    }

    #[must_use]
    pub fn payer(&self) -> (r: Option<Seat>)
        ensures
            r == self.spec_payer(),
    {
        self.payer
    }

    #[must_use]
    pub fn is_chankan(&self) -> (r: bool)
        ensures
            r == self.spec_chankan(),
    {
        self.chankan
    }

    #[must_use]
    pub fn deltas(&self) -> (r: &[i32])
        ensures
            r@ == self.spec_deltas(),
    {
        self.deltas.as_slice()
    }
}

/// One kan and the points it moved.
#[derive(Clone, Debug, PartialEq, Eq)]
pub struct KanEvent {
    pub(crate) seat: Seat,
    pub(crate) kind: MeldKind,
    pub(crate) deltas: Vec<i32>,
}

impl KanEvent {
    pub closed spec fn spec_deltas(&self) -> Seq<i32> {
        self.deltas@
    }

    pub closed spec fn spec_seat(&self) -> Seat {
        self.seat
    }

    pub closed spec fn spec_kind(&self) -> MeldKind {
        self.kind
    }

    #[must_use]
    pub fn seat(&self) -> (r: Seat)
        ensures
            r == self.spec_seat(),
    {
        self.seat
    }

    #[must_use]
    pub fn kind(&self) -> (r: MeldKind)
        ensures
            r == self.spec_kind(),
    {
        self.kind
    }

    #[must_use]
    pub fn deltas(&self) -> (r: &[i32])
        ensures
            r@ == self.spec_deltas(),
    {
        self.deltas.as_slice()
    }
}

} // verus!
