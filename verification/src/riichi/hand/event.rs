use vstd::prelude::*;

use crate::riichi::progress::{Seat, TableProgress};
use crate::riichi::tile::{Tile, TileKind};

use super::judge::WinSource;
use super::model::{EndReason, Meld, MeldKind};

verus! {

#[derive(Clone, Copy, Debug, PartialEq, Eq, Structural)]
pub enum DrawSource {
    LiveWall,
    Rinshan,
}

#[derive(Clone, Copy, Debug, PartialEq, Eq, Structural)]
pub enum ReactionKind {
    Pass,
    Ron,
    Chi,
    Pon,
    OpenKan,
}

/// Something that happened in a hand, in the order it happened.
#[derive(Clone, Debug, PartialEq, Eq)]
pub enum HandEvent {
    HandStarted { progress: TableProgress, dora_indicator: Tile, remaining_live_draws: usize },
    InitialHandDealt { seat: Seat, tiles: Vec<Tile> },
    TileDrawn { seat: Seat, tile: Tile, source: DrawSource, remaining_live_draws: usize },
    TileDiscarded { seat: Seat, tile: Tile, tsumogiri: bool, riichi_declared: bool },
    ReactionSubmitted { seat: Seat, reaction: ReactionKind },
    MeldDeclared { seat: Seat, meld: Meld },
    KanProposed { seat: Seat, kind: MeldKind, tile_kind: TileKind },
    KanCompleted { seat: Seat, meld: Meld },
    NorthExtracted { seat: Seat, tile: Tile },
    DoraIndicatorRevealed { tile: Tile, revealed_count: u8 },
    RiichiEstablished { seat: Seat, points_after: i32, riichi_sticks: u32 },
    IppatsuExpired { seat: Seat },
    IppatsuCancelled { seats: Vec<Seat> },
    FuritenChanged { seat: Seat, temporary: bool, riichi: bool },
    TsumoDeclared { winner: Seat, tile: Tile, source: DrawSource },
    RonDeclared { winners: Vec<Seat>, from: Seat, tile: Tile, source: WinSource },
    AbortiveDrawDeclared { reason: EndReason, declarer: Option<Seat> },
    ExhaustiveDrawDeclared { reason: EndReason, tenpai: Vec<Seat> },
}

/// The events one command produced.
#[derive(Clone, Debug, PartialEq, Eq)]
pub struct HandTransition {
    pub(crate) events: Vec<HandEvent>,
}

impl HandTransition {
    pub closed spec fn spec_events(&self) -> Seq<HandEvent> {
        self.events@
    }

    pub(crate) fn new(events: Vec<HandEvent>) -> (r: HandTransition)
        ensures
            r.spec_events() == events@,
    {
        HandTransition { events }
    }

    /// A transition with no events.
    pub fn empty() -> (r: HandTransition)
        ensures
            r.spec_events() == Seq::<HandEvent>::empty(),
    {
        HandTransition { events: Vec::new() }
    }

    pub(crate) fn append(&mut self, other: HandTransition)
        ensures
            final(self).spec_events() == old(self).spec_events() + other.spec_events(),
    {
        let mut other = other;
        self.events.append(&mut other.events);
    }

    #[must_use]
    pub fn events(&self) -> (r: &[HandEvent])
        ensures
            r@ == self.spec_events(),
    {
        self.events.as_slice()
    }

    #[must_use]
    pub fn into_events(self) -> (r: Vec<HandEvent>)
        ensures
            r@ == self.spec_events(),
    {
        self.events
    }
}

impl Default for HandTransition {
    fn default() -> (r: HandTransition)
        ensures
            r.spec_events() == Seq::<HandEvent>::empty(),
    {
        HandTransition::empty()
    }
}

} // verus!
