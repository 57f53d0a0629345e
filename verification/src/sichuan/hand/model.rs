//! Values of a Sichuan hand: melds, discards, phases and reactions.

use vstd::prelude::*;

use crate::text::with_number;

use super::super::progress::Seat;
use super::super::tile::{Tile, TileId, TileKind};

verus! {

#[derive(Clone, Copy, Debug, PartialEq, Eq, Structural, Hash, PartialOrd, Ord)]
pub struct MeldId(u16);

impl View for MeldId {
    type V = u16;

    closed spec fn view(&self) -> u16 {
        self.0
    }
}

impl MeldId {
    #[must_use]
    pub fn new(value: u16) -> (r: MeldId)
        ensures
            r@ == value,
    {
        MeldId(value)
    }

    #[must_use]
    pub fn value(self) -> (r: u16)
        ensures
            r == self@,
    {
        self.0
    }
}

/// A called or declared group. Sichuan has no chi: only pon and the three kans.
#[derive(Clone, Copy, Debug, PartialEq, Eq, Structural, Hash, PartialOrd, Ord)]
pub enum MeldKind {
    Pon,
    OpenKan,
    ConcealedKan,
    AddedKan,
}

/// Every kind of kan counts as a kan; a pon does not.
pub open spec fn meld_is_kan(kind: MeldKind) -> bool {
    kind != MeldKind::Pon
}

impl MeldKind {
    /// A kan earns a gen and draws a replacement tile.
    #[must_use]
    pub fn is_kan(self) -> (r: bool)
        ensures
            r == meld_is_kan(self),
    {
        !matches!(self, MeldKind::Pon)
    }

    /// Tiles the meld holds: four for a kan, three for a pon.
    #[must_use]
    pub fn tile_count(self) -> (r: u8)
        ensures
            r == (if meld_is_kan(self) { 4u8 } else { 3u8 }),
    {
        if self.is_kan() {
            4
        } else {
            3
        }
    }

    /// A concealed kan settles as concealed.
    #[must_use]
    pub fn is_concealed(self) -> (r: bool)
        ensures
            r == (self == MeldKind::ConcealedKan),
    {
        matches!(self, MeldKind::ConcealedKan)
    }

    #[must_use]
    pub fn as_str(self) -> (r: &'static str)
        ensures
            self == MeldKind::Pon ==> r@ == "pon"@,
            self == MeldKind::OpenKan ==> r@ == "open_kan"@,
            self == MeldKind::ConcealedKan ==> r@ == "concealed_kan"@,
            self == MeldKind::AddedKan ==> r@ == "added_kan"@,
    {
        match self {
            MeldKind::Pon => "pon",
            MeldKind::OpenKan => "open_kan",
            MeldKind::ConcealedKan => "concealed_kan",
            MeldKind::AddedKan => "added_kan",
        }
    }
}

/// A meld: its kind, the kind of tile it is made of, its tiles, and who it was called from.
#[derive(Clone, Debug, PartialEq, Eq)]
pub struct Meld {
    id: MeldId,
    kind: MeldKind,
    tile: TileKind,
    tiles: Vec<Tile>,
    called_from: Option<Seat>,
    called_tile: Option<TileId>,
}

impl Meld {
    pub closed spec fn spec_id(&self) -> MeldId {
        self.id
    }

    pub closed spec fn spec_kind(&self) -> MeldKind {
        self.kind
    }

    pub closed spec fn spec_tile(&self) -> TileKind {
        self.tile
    }

    pub closed spec fn spec_tiles(&self) -> Seq<Tile> {
        self.tiles@
    }

    pub closed spec fn spec_called_from(&self) -> Option<Seat> {
        self.called_from
    }

    pub closed spec fn spec_called_tile(&self) -> Option<TileId> {
        self.called_tile
    }

    /// A meld of three (pon) or four (kan) tiles of one kind.
    #[must_use]
    pub fn new(
        id: MeldId,
        kind: MeldKind,
        tile: TileKind,
        tiles: Vec<Tile>,
        called_from: Option<Seat>,
        called_tile: Option<TileId>,
    ) -> (r: Meld)
        requires
            tiles@.len() == (if meld_is_kan(kind) { 4int } else { 3int }),
            forall|i: int| 0 <= i < tiles@.len() ==> (#[trigger] tiles@[i]).spec_kind() == tile,
        ensures
            r.spec_id() == id,
            r.spec_kind() == kind,
            r.spec_tile() == tile,
            r.spec_tiles() == tiles@,
            r.spec_called_from() == called_from,
            r.spec_called_tile() == called_tile,
    {
        Meld { id, kind, tile, tiles, called_from, called_tile }
    }

    #[must_use]
    pub fn id(&self) -> (r: MeldId)
        ensures
            r == self.spec_id(),
    {
        self.id
    }

    #[must_use]
    pub fn kind(&self) -> (r: MeldKind)
        ensures
            r == self.spec_kind(),
    {
        self.kind
    }

    #[must_use]
    pub fn tile(&self) -> (r: TileKind)
        ensures
            r == self.spec_tile(),
    {
        self.tile
    }

    #[must_use]
    pub fn tiles(&self) -> (r: &[Tile])
        ensures
            r@ == self.spec_tiles(),
    {
        self.tiles.as_slice()
    }

    #[must_use]
    pub fn called_from(&self) -> (r: Option<Seat>)
        ensures
            r == self.spec_called_from(),
    {
        self.called_from
    }

    #[must_use]
    pub fn called_tile(&self) -> (r: Option<TileId>)
        ensures
            r == self.spec_called_tile(),
    {
        self.called_tile
    }

    /// Turns a pon into an added kan with its fourth tile.
    pub fn upgrade_to_added_kan(&mut self, tile: Tile)
        requires
            old(self).spec_kind() == MeldKind::Pon,
            tile.spec_kind() == old(self).spec_tile(),
        ensures
            final(self).spec_kind() == MeldKind::AddedKan,
            final(self).spec_tiles() == old(self).spec_tiles().push(tile),
            final(self).spec_id() == old(self).spec_id(),
            final(self).spec_tile() == old(self).spec_tile(),
            final(self).spec_called_from() == old(self).spec_called_from(),
            final(self).spec_called_tile() == old(self).spec_called_tile(),
    {
        self.kind = MeldKind::AddedKan;
        self.tiles.push(tile);
    }
}

/// A discarded tile, and whether another player called it.
#[derive(Clone, Copy, Debug, PartialEq, Eq, Structural)]
pub struct Discard {
    tile: Tile,
    called: bool,
}

impl Discard {
    pub closed spec fn spec_tile(self) -> Tile {
        self.tile
    }

    pub closed spec fn spec_called(self) -> bool {
        self.called
    }

    #[must_use]
    pub fn new(tile: Tile) -> (r: Discard)
        ensures
            r.spec_tile() == tile,
            !r.spec_called(),
    {
        Discard { tile, called: false }
    }

    #[must_use]
    pub fn tile(self) -> (r: Tile)
        ensures
            r == self.spec_tile(),
    {
        self.tile
    }

    #[must_use]
    pub fn called(self) -> (r: bool)
        ensures
            r == self.spec_called(),
    {
        self.called
    }

    /// Records that another player called this discard.
    pub fn mark_called(&mut self)
        ensures
            final(self).spec_called(),
            final(self).spec_tile() == old(self).spec_tile(),
    {
        self.called = true;
    }
}

/// Where a drawn tile came from.
#[derive(Clone, Copy, Debug, PartialEq, Eq, Structural)]
pub enum DrawSource {
    Wall,
    Replacement,
}

/// Why a hand ended.
#[derive(Clone, Copy, Debug, PartialEq, Eq, Structural)]
pub enum EndReason {
    /// Three players have won.
    ThreeWinners,
    /// The wall ran out first.
    ExhaustiveDraw,
}

impl EndReason {
    #[must_use]
    pub fn as_str(self) -> (r: &'static str)
        ensures
            self == EndReason::ThreeWinners ==> r@ == "three_winners"@,
            self == EndReason::ExhaustiveDraw ==> r@ == "exhaustive_draw"@,
    {
        match self {
            EndReason::ThreeWinners => "three_winners",
            EndReason::ExhaustiveDraw => "exhaustive_draw",
        }
    }
}

/// The phase of a hand.
#[derive(Clone, Copy, Debug, PartialEq, Eq, Structural)]
pub enum HandPhase {
    AwaitingExchange,
    AwaitingExchangeAnimation,
    AwaitingDingQue,
    AwaitingTurnAction { seat: Seat },
    AwaitingDiscard { seat: Seat },
    AwaitingResponses { discarder: Seat },
    AwaitingKanAnimation { seat: Seat },
    AwaitingWinAnimation { seat: Seat },
    Ended { reason: EndReason },
}

/// The one seat that must act in a phase, where there is one.
pub open spec fn phase_actor(phase: HandPhase) -> Option<Seat> {
    match phase {
        HandPhase::AwaitingTurnAction { seat } => Some(seat),
        HandPhase::AwaitingDiscard { seat } => Some(seat),
        _ => None,
    }
}

impl HandPhase {
    #[must_use]
    pub fn actor(self) -> (r: Option<Seat>)
        ensures
            r == phase_actor(self),
    {
        match self {
            HandPhase::AwaitingTurnAction { seat } => Some(seat),
            HandPhase::AwaitingDiscard { seat } => Some(seat),
            _ => None,
        }
    }

    #[must_use]
    pub fn is_ended(self) -> (r: bool)
        ensures
            r == (self is Ended),
    {
        matches!(self, HandPhase::Ended { .. })
    }
}

/// What a player may answer to another player's discard.
#[derive(Clone, Copy, Debug, PartialEq, Eq, Structural)]
pub enum ReactionKind {
    Ron,
    Pon,
    OpenKan,
    Pass,
}

#[derive(Clone, Copy, Debug, PartialEq, Eq, Structural)]
pub struct Reaction {
    seat: Seat,
    kind: ReactionKind,
}

impl Reaction {
    pub closed spec fn spec_seat(self) -> Seat {
        self.seat
    }

    pub closed spec fn spec_kind(self) -> ReactionKind {
        self.kind
    }

    #[must_use]
    pub fn new(seat: Seat, kind: ReactionKind) -> (r: Reaction)
        ensures
            r.spec_seat() == seat,
            r.spec_kind() == kind,
    {
        Reaction { seat, kind }
    }

    #[must_use]
    pub fn seat(self) -> (r: Seat)
        ensures
            r == self.spec_seat(),
    {
        self.seat
    }

    #[must_use]
    pub fn kind(self) -> (r: ReactionKind)
        ensures
            r == self.spec_kind(),
    {
        self.kind
    }
}

/// Why an action was refused.
#[derive(Clone, Debug, PartialEq, Eq)]
pub enum HandError {
    OutOfTurn { seat: Seat },
    UnexpectedAction,
    TileNotHeld { tile: TileId },
    MeldNotAvailable,
    MeldNotFound { meld: MeldId },
    NotAWinningHand,
    WallExhausted,
    HandAlreadyEnded,
    ExchangeWrongCount { actual: usize },
    ExchangeTilesNotSameSuit,
    ExchangeTileNotHeld { tile: TileId },
    ExchangeDuplicateTile,
    QueTilesRemaining,
    InvalidTileCode(String),
    WrongConcealedTileCount { expected: usize, actual: usize },
}

impl HandError {
    /// A one-line explanation of the refusal.
    #[must_use]
    pub fn message(&self) -> (r: String)
        ensures
            self is UnexpectedAction ==> r@ == "action is not legal in this phase"@,
            self is NotAWinningHand ==> r@ == "the hand is not complete"@,
            self is QueTilesRemaining ==> r@ == "discard the que suit first"@,
            self matches HandError::OutOfTurn { seat } ==> r@ == "seat "@ + crate::text::decimal_chars(seat@ as nat)
                + " cannot act right now"@,
            self matches HandError::TileNotHeld { tile } ==> r@ == "tile "@ + crate::text::decimal_chars(tile@ as nat)
                + " is not in hand"@,
    {
        match self {
            HandError::OutOfTurn { seat } => {
                let mut text = with_number("seat ", seat.index() as u64);
                text.append(" cannot act right now");
                text
            },
            HandError::UnexpectedAction => String::from_str("action is not legal in this phase"),
            HandError::TileNotHeld { tile } => {
                let mut text = with_number("tile ", tile.value() as u64);
                text.append(" is not in hand");
                text
            },
            HandError::MeldNotAvailable => String::from_str("the hand cannot form that meld"),
            HandError::MeldNotFound { meld } => {
                let mut text = with_number("meld ", meld.value() as u64);
                text.append(" does not exist");
                text
            },
            HandError::NotAWinningHand => String::from_str("the hand is not complete"),
            HandError::WallExhausted => String::from_str("the wall has no drawable tiles left"),
            HandError::HandAlreadyEnded => String::from_str("the hand has already ended"),
            HandError::ExchangeWrongCount { actual } => with_number("exchange needs 3 tiles, got ", *actual as u64),
            HandError::ExchangeTilesNotSameSuit => String::from_str("the three exchange tiles must share a suit"),
            HandError::ExchangeTileNotHeld { tile } => {
                let mut text = with_number("exchange tile ", tile.value() as u64);
                text.append(" is not in hand");
                text
            },
            HandError::ExchangeDuplicateTile => String::from_str("the three exchange tiles must be distinct"),
            HandError::QueTilesRemaining => String::from_str("discard the que suit first"),
            HandError::InvalidTileCode(code) => {
                let mut text = String::from_str("invalid tile code ");
                text.append(code.as_str());
                text
            },
            HandError::WrongConcealedTileCount { expected, actual } => {
                let mut text = with_number("expected ", *expected as u64);
                text.append(" concealed tiles, got ");
                let count = crate::text::decimal_string(*actual as u64);
                text.append(count.as_str());
                text
            },
        }
    }
}

} // verus!
