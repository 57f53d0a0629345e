use vstd::prelude::*;

use crate::riichi::config::RiichiRules;
use crate::riichi::progress::{Seat, TableProgress};
use crate::riichi::tile::{Tile, TileId};
use crate::riichi::wall::Wall;

use super::event::DrawSource;
use super::model::{MeldId, PlayerHand};

verus! {

/// Where a winning tile came from.
#[derive(Clone, Copy, Debug, PartialEq, Eq, Structural)]
pub enum WinSource {
    Tsumo(DrawSource),
    Discard { from: Seat },
    AddedKan { from: Seat, meld_id: MeldId },
    ConcealedKan { from: Seat },
    Nuki { from: Seat },
}

/// Everything a judge needs to decide whether a player may win on a tile.
#[derive(Clone, Copy, Debug)]
pub struct WinQuery<'a> {
    rules: &'a RiichiRules,
    progress: TableProgress,
    seat: Seat,
    player: &'a PlayerHand,
    winning_tile: Tile,
    source: WinSource,
    wall: &'a Wall,
    calls_occurred: bool,
}

impl<'a> WinQuery<'a> {
    pub closed spec fn spec_rules(self) -> RiichiRules {
        *self.rules
    }

    pub closed spec fn spec_progress(self) -> TableProgress {
        self.progress
    }

    pub closed spec fn spec_seat(self) -> Seat {
        self.seat
    }

    pub closed spec fn spec_player(self) -> PlayerHand {
        *self.player
    }

    pub closed spec fn spec_winning_tile(self) -> Tile {
        self.winning_tile
    }

    pub closed spec fn spec_source(self) -> WinSource {
        self.source
    }

    pub closed spec fn spec_wall(self) -> Wall {
        *self.wall
    }

    pub closed spec fn spec_calls_occurred(self) -> bool {
        self.calls_occurred
    }

    #[allow(clippy::too_many_arguments)]
    pub fn new(
        rules: &'a RiichiRules,
        progress: TableProgress,
        seat: Seat,
        player: &'a PlayerHand,
        winning_tile: Tile,
        source: WinSource,
        wall: &'a Wall,
        calls_occurred: bool,
    ) -> (r: WinQuery<'a>)
        ensures
            r.spec_rules() == *rules,
            r.spec_progress() == progress,
            r.spec_seat() == seat,
            r.spec_player() == *player,
            r.spec_winning_tile() == winning_tile,
            r.spec_source() == source,
            r.spec_wall() == *wall,
            r.spec_calls_occurred() == calls_occurred,
    {
        WinQuery { rules, progress, seat, player, winning_tile, source, wall, calls_occurred }
    }

    #[must_use]
    pub fn rules(self) -> (r: &'a RiichiRules)
        ensures
            *r == self.spec_rules(),
    {
        self.rules
    }

    #[must_use]
    pub fn progress(self) -> (r: TableProgress)
        ensures
            r == self.spec_progress(),
    {
        self.progress
    }

    #[must_use]
    pub fn seat(self) -> (r: Seat)
        ensures
            r == self.spec_seat(),
    {
        self.seat
    }

    #[must_use]
    pub fn player(self) -> (r: &'a PlayerHand)
        ensures
            *r == self.spec_player(),
    {
        self.player
    }

    #[must_use]
    pub fn winning_tile(self) -> (r: Tile)
        ensures
            r == self.spec_winning_tile(),
    {
        self.winning_tile
    }

    #[must_use]
    pub fn source(self) -> (r: WinSource)
        ensures
            r == self.spec_source(),
    {
        self.source
    }

    /// The wall as it stands when the win is declared.
    #[must_use]
    pub fn wall(self) -> (r: &'a Wall)
        ensures
            *r == self.spec_wall(),
    {
        self.wall
    }

    /// Whether any call has interrupted the hand so far.
    #[must_use]
    pub fn calls_occurred(self) -> (r: bool)
        ensures
            r == self.spec_calls_occurred(),
    {
        self.calls_occurred
    }
}

/// Everything a judge needs to decide whether a player may declare riichi.
#[derive(Clone, Copy, Debug)]
pub struct RiichiQuery<'a> {
    rules: &'a RiichiRules,
    progress: TableProgress,
    seat: Seat,
    player: &'a PlayerHand,
    discard_tile: Tile,
}

impl<'a> RiichiQuery<'a> {
    pub closed spec fn spec_rules(self) -> RiichiRules {
        *self.rules
    }

    pub closed spec fn spec_progress(self) -> TableProgress {
        self.progress
    }

    pub closed spec fn spec_seat(self) -> Seat {
        self.seat
    }

    pub closed spec fn spec_player(self) -> PlayerHand {
        *self.player
    }

    pub closed spec fn spec_discard_tile(self) -> Tile {
        self.discard_tile
    }

    pub fn new(
        rules: &'a RiichiRules,
        progress: TableProgress,
        seat: Seat,
        player: &'a PlayerHand,
        discard_tile: Tile,
    ) -> (r: RiichiQuery<'a>)
        ensures
            r.spec_rules() == *rules,
            r.spec_progress() == progress,
            r.spec_seat() == seat,
            r.spec_player() == *player,
            r.spec_discard_tile() == discard_tile,
    {
        RiichiQuery { rules, progress, seat, player, discard_tile }
    }

    #[must_use]
    pub fn rules(self) -> (r: &'a RiichiRules)
        ensures
            *r == self.spec_rules(),
    {
        self.rules
    }

    #[must_use]
    pub fn progress(self) -> (r: TableProgress)
        ensures
            r == self.spec_progress(),
    {
        self.progress
    }

    #[must_use]
    pub fn seat(self) -> (r: Seat)
        ensures
            r == self.spec_seat(),
    {
        self.seat
    }

    #[must_use]
    pub fn player(self) -> (r: &'a PlayerHand)
        ensures
            *r == self.spec_player(),
    {
        self.player
    }

    #[must_use]
    pub fn discard_tile(self) -> (r: Tile)
        ensures
            r == self.spec_discard_tile(),
    {
        self.discard_tile
    }
}

/// Everything a judge needs to decide whether a riichi player may declare a concealed kan.
#[derive(Clone, Copy, Debug)]
pub struct KanQuery<'a> {
    rules: &'a RiichiRules,
    progress: TableProgress,
    seat: Seat,
    player: &'a PlayerHand,
    tile_ids: [TileId; 4],
}

impl<'a> KanQuery<'a> {
    pub closed spec fn spec_rules(self) -> RiichiRules {
        *self.rules
    }

    pub closed spec fn spec_progress(self) -> TableProgress {
        self.progress
    }

    pub closed spec fn spec_seat(self) -> Seat {
        self.seat
    }

    pub closed spec fn spec_player(self) -> PlayerHand {
        *self.player
    }

    pub closed spec fn spec_tile_ids(self) -> Seq<TileId> {
        self.tile_ids@
    }

    pub fn new(
        rules: &'a RiichiRules,
        progress: TableProgress,
        seat: Seat,
        player: &'a PlayerHand,
        tile_ids: [TileId; 4],
    ) -> (r: KanQuery<'a>)
        ensures
            r.spec_rules() == *rules,
            r.spec_progress() == progress,
            r.spec_seat() == seat,
            r.spec_player() == *player,
            r.spec_tile_ids() == tile_ids@,
    {
        KanQuery { rules, progress, seat, player, tile_ids }
    }

    #[must_use]
    pub fn rules(self) -> (r: &'a RiichiRules)
        ensures
            *r == self.spec_rules(),
    {
        self.rules
    }

    #[must_use]
    pub fn progress(self) -> (r: TableProgress)
        ensures
            r == self.spec_progress(),
    {
        self.progress
    }

    #[must_use]
    pub fn seat(self) -> (r: Seat)
        ensures
            r == self.spec_seat(),
    {
        self.seat
    }

    #[must_use]
    pub fn player(self) -> (r: &'a PlayerHand)
        ensures
            *r == self.spec_player(),
    {
        self.player
    }

    #[must_use]
    pub fn tile_ids(self) -> (r: [TileId; 4])
        ensures
            r@ == self.spec_tile_ids(),
    {
        self.tile_ids
    }
}

/// Decides the questions of hand judgement: wins, riichi, kan after riichi and tenpai.
/// Every question is answered "no" unless a judge says otherwise.
pub trait HandJudge {
    fn can_win(&self, query: WinQuery<'_>) -> bool {
        false
    }

    fn can_riichi(&self, query: RiichiQuery<'_>) -> bool {
        false
    }

    fn can_concealed_kan_after_riichi(&self, query: KanQuery<'_>) -> bool {
        false
    }

    fn is_tenpai(&self, rules: &RiichiRules, player: &PlayerHand, seat: Seat) -> bool {
        false
    }
}

/// A judge that rejects every win, riichi and kan, and calls nobody tenpai.
#[derive(Clone, Copy, Debug, Default, PartialEq, Eq)]
pub struct RejectAllHandJudge;

impl HandJudge for RejectAllHandJudge {}

} // verus!
