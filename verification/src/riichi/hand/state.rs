use vstd::prelude::*;

use crate::riichi::config::{KuikaeRule, RiichiRules, RonResolution};
use crate::riichi::progress::{Seat, TableProgress};
use crate::riichi::tile::{parse_face_bytes, kind_is_honor, kind_is_terminal, Honor, Suit, Tile, TileError, TileFace, TileId, TileKind};
use crate::riichi::tile_set::{seat_count_of, tile_count_of, RiichiVariant, TileSet, TileSetError};
use crate::riichi::validation::{rule_violations, violation_keys, ValidationErrors};
use crate::random::shuffled;
use crate::riichi::tile_set::is_canonical_set;
use crate::riichi::wall::{dora_offset, rinshan_offset, Wall, WallSeed};
use crate::text::{decimal_chars, with_number};
use vstd::utf8::encode_utf8;

use crate::riichi::scoring::scorer::{
    furiten, is_best_evaluation, kan_robbery_allowed, lists_waits, no_scoring_reading, player_furiten, scorable,
    scorable_query, waiting_and_furiten, RiichiScorer,
};
use crate::riichi::scoring::WinEvaluation;
use super::event::{DrawSource, HandEvent, HandTransition, ReactionKind};
use super::judge::{HandJudge, RiichiQuery, WinQuery, WinSource};
use super::checkpoint::{RiichiHandCheckpoint, HandInvariantError, HAND_CHECKPOINT_SCHEMA_VERSION};
use super::model::{Discard, EndReason, HandPhase, Meld, MeldId, MeldKind, PlayerHand, Reaction, RiichiStatus};

verus! {

/// Tiles dealt to every player before the dealer's first draw.
const INITIAL_CONCEALED_TILES: u8 = 13;

/// The seat index `offset` places after `seat` in turn order.
pub open spec fn seat_after(variant: RiichiVariant, seat: int, offset: int) -> int {
    (seat + offset) % (seat_count_of(variant) as int)
}

/// How many places after `dealer` the seat `seat` sits.
pub open spec fn offset_from(variant: RiichiVariant, dealer: int, seat: int) -> int {
    (seat - dealer + seat_count_of(variant) as int) % (seat_count_of(variant) as int)
}

/// Where in the wall the `round`-th tile dealt to the seat `offset` places after the dealer
/// lies: the deal hands out one tile per seat per round, dealer first.
pub open spec fn deal_position(seat_count: int, round: int, offset: int) -> int {
    round * seat_count + offset
}

/// The deal never hands out one wall position twice: a position determines the round and the
/// seat it was dealt to, and every dealt position lies before the dealer's first draw.
pub proof fn deal_positions_are_distinct(seat_count: int, round: int, offset: int, other_round: int, other_offset: int)
    requires
        seat_count == 3 || seat_count == 4,
        0 <= round < 13,
        0 <= other_round < 13,
        0 <= offset < seat_count,
        0 <= other_offset < seat_count,
    ensures
        0 <= deal_position(seat_count, round, offset) < 13 * seat_count,
        deal_position(seat_count, round, offset) == deal_position(seat_count, other_round, other_offset)
            ==> round == other_round && offset == other_offset,
{
    assert(0 <= round * seat_count + offset < 13 * seat_count) by (nonlinear_arith)
        requires
            0 <= round < 13,
            0 <= offset < seat_count,
            seat_count > 0,
    ;
    if deal_position(seat_count, round, offset) == deal_position(seat_count, other_round, other_offset) {
        assert(round == other_round && offset == other_offset) by (nonlinear_arith)
            requires
                round * seat_count + offset == other_round * seat_count + other_offset,
                0 <= offset < seat_count,
                0 <= other_offset < seat_count,
                0 <= round,
                0 <= other_round,
        ;
    }
}

/// `index` is the first position of `tiles` holding the tile with `id`.
pub open spec fn first_match(tiles: Seq<Tile>, id: TileId, index: int) -> bool {
    &&& 0 <= index < tiles.len()
    &&& tiles[index].spec_id() == id
    &&& forall|j: int| 0 <= j < index ==> #[trigger] tiles[j].spec_id() != id
}

/// `tiles` with the element at `index` replaced by the last one, and the last one dropped.
pub open spec fn swap_removed(tiles: Seq<Tile>, index: int) -> Seq<Tile> {
    tiles.update(index, tiles.last()).drop_last()
}

/// The indices, in order, of the seats the flags mark.
pub open spec fn marked_seats(flags: Seq<bool>) -> Seq<int>
    decreases flags.len(),
{
    if flags.len() == 0 {
        Seq::empty()
    } else {
        marked_seats(flags.drop_last()) + (if flags.last() {
            seq![flags.len() - 1]
        } else {
            Seq::empty()
        })
    }
}

/// What parsing `code` as a tile face gives.
pub open spec fn parsed_face(code: Seq<char>) -> Result<TileFace, TileError> {
    parse_face_bytes(encode_utf8(code))
}

/// The kinds East, South, West and North.
pub open spec fn is_wind_kind(kind: TileKind) -> bool {
    27 <= kind@ < 31
}

/// The public phase a hand's internal phase shows.
pub open spec fn phase_view(phase: Phase) -> HandPhase {
    match phase {
        Phase::TurnAction { seat, .. } => HandPhase::AwaitingTurnAction { seat },
        Phase::Responses(pending) => HandPhase::AwaitingResponses { trigger_seat: pending.discarder },
        Phase::DiscardAfterCall { seat, .. } => HandPhase::AwaitingDiscard { seat },
        Phase::Ended(reason) => HandPhase::Ended { reason },
    }
}

/// The seat `offset` places after `seat`.
pub(crate) fn seat_at_offset(variant: RiichiVariant, seat: Seat, offset: u8) -> (r: Seat)
    ensures
        r@ == seat_after(variant, seat@ as int, offset as int),
{
    let count = variant.seat_count().value();
    let index = ((seat.index() as u16 + offset as u16) % (count as u16)) as u8;
    match Seat::new(variant, index) {
        Ok(found) => found,
        Err(_) => seat,
    }
}

proof fn lemma_offset_roundtrip(variant: RiichiVariant, dealer: int, offset: int)
    requires
        0 <= dealer < seat_count_of(variant),
        0 <= offset < seat_count_of(variant),
    ensures
        0 <= seat_after(variant, dealer, offset) < seat_count_of(variant),
        offset_from(variant, dealer, seat_after(variant, dealer, offset)) == offset,
{
    if variant == RiichiVariant::Yonma {
        assert(seat_count_of(variant) == 4);
    } else {
        assert(seat_count_of(variant) == 3);
    }
}

proof fn lemma_offset_bound(variant: RiichiVariant, dealer: int, seat: int)
    requires
        0 <= dealer < seat_count_of(variant),
        0 <= seat < seat_count_of(variant),
    ensures
        0 <= offset_from(variant, dealer, seat) < seat_count_of(variant),
        seat_after(variant, dealer, offset_from(variant, dealer, seat)) == seat,
        (offset_from(variant, dealer, seat) == 0) == (seat == dealer),
{
    if variant == RiichiVariant::Yonma {
        assert(seat_count_of(variant) == 4);
    } else {
        assert(seat_count_of(variant) == 3);
    }
}

/// The answers gathered so far to a discard.
#[derive(Clone, Debug, PartialEq, Eq)]
pub struct PendingDiscard {
    pub discarder: Seat,
    pub discard_index: usize,
    pub responses: Vec<Option<Reaction>>,
}

/// Where a running hand stands.
#[derive(Clone, Debug, PartialEq, Eq)]
pub enum Phase {
    TurnAction { seat: Seat, draw_source: DrawSource },
    Responses(PendingDiscard),
    DiscardAfterCall { seat: Seat, forbidden_discards: Vec<TileKind> },
    Ended(EndReason),
}

/// One hand of riichi mahjong: the wall, the players' hands and whose move it is.
#[derive(Clone, Debug, PartialEq, Eq)]
pub struct RiichiHand {
    rules: RiichiRules,
    progress: TableProgress,
    wall: Wall,
    players: Vec<PlayerHand>,
    phase: Phase,
    kan_counts: Vec<u8>,
    calls_occurred: bool,
}

/// Why a command on a hand was refused.
#[derive(Clone, Debug, PartialEq, Eq)]
pub enum HandError {
    InvalidRuleConfiguration(ValidationErrors),
    VariantMismatch { rules: RiichiVariant, progress: RiichiVariant },
    PointCount { expected: usize, actual: usize },
    TileSet(TileSetError),
    InvalidSeat { index: u8, seat_count: u8 },
    WrongPhase,
    NotActiveSeat { expected: Seat, actual: Seat },
    TileNotInHand { tile_id: TileId },
    ForbiddenDiscardAfterCall { kind: TileKind },
    RiichiMustTsumogiri,
    RiichiNotAllowed { reason: &'static str },
    WinNotAllowed,
    AbortiveDrawNotAllowed { reason: &'static str },
    NukiNotAllowed { reason: &'static str },
    DuplicateTileSelection,
    InvalidReaction { reason: &'static str },
    CannotCallOnLastDiscard,
    CannotCallWhileRiichi,
    KanNotAllowedOnLastDraw,
    KanLimitReached,
    MeldNotFound { meld_id: crate::riichi::hand::model::MeldId },
    MeldCannotBeAddedKan { meld_id: crate::riichi::hand::model::MeldId },
    DiscarderCannotReact,
    DeclarerCannotReact,
    AlreadyResponded { seat: Seat },
    InvalidTileCode(String),
    WrongConcealedTileCount { expected: usize, actual: usize },
}

impl RiichiHand {
    pub closed spec fn spec_rules(&self) -> RiichiRules {
        self.rules
    }

    pub closed spec fn spec_progress(&self) -> TableProgress {
        self.progress
    }

    pub closed spec fn spec_wall(&self) -> Wall {
        self.wall
    }

    pub closed spec fn spec_players(&self) -> Seq<PlayerHand> {
        self.players@
    }

    pub closed spec fn spec_phase(&self) -> Phase {
        self.phase
    }

    pub closed spec fn spec_calls_occurred(&self) -> bool {
        self.calls_occurred
    }

    /// How many kans each seat has completed.
    pub closed spec fn spec_kan_counts(&self) -> Seq<u8> {
        self.kan_counts@
    }

    /// The number of seats at the table.
    pub open spec fn seat_count(&self) -> int {
        seat_count_of(self.spec_rules().variant) as int
    }

    /// The hand's structural invariant.
    pub closed spec fn wf(&self) -> bool {
        let n = seat_count_of(self.rules.variant) as int;
        &&& self.progress.spec_variant() == self.rules.variant
        &&& self.players@.len() == n
        &&& self.kan_counts@.len() == n
        &&& match self.phase {
            Phase::TurnAction { seat, .. } => {
                &&& seat@ < n
                &&& self.players@[seat@ as int].spec_drawn_tile() matches Some(id)
                &&& exists|i: int|
                    0 <= i < self.players@[seat@ as int].spec_concealed().len()
                        && #[trigger] self.players@[seat@ as int].spec_concealed()[i].spec_id() == id
            },
            Phase::Responses(pending) => {
                &&& pending.discarder@ < n
                &&& pending.responses@.len() == n
                &&& pending.discard_index < self.players@[pending.discarder@ as int].spec_discards().len()
                &&& pending.responses@[pending.discarder@ as int] is Some
                &&& forall|k: int|
                    0 <= k < n ==> #[trigger] claim_held(
                        pending.responses@[k],
                        self.players@[k].spec_concealed(),
                        self.players@[pending.discarder@ as int].spec_discards()[pending.discard_index as int].spec_tile().spec_kind(),
                        kan_room(self.wall),
                    )
            },
            Phase::DiscardAfterCall { seat, .. } => seat@ < n,
            Phase::Ended(_) => true,
        }
        &&& forall|k: int|
            #![trigger self.players@[k]]
            0 <= k < n && self.players@[k].spec_riichi() == RiichiStatus::Pending ==> {
                &&& self.phase matches Phase::Responses(pending)
                &&& pending.discarder@ == k
                &&& self.players@[k].spec_points() >= 1000
                &&& self.progress.spec_riichi_sticks()@ < u32::MAX
            }
    }

    /// Every seat, dealer first, has been dealt its thirteen tiles from the front of the wall
    /// and the dealer has drawn the next one; nothing else has happened yet.
    pub open spec fn freshly_dealt(&self, rules: RiichiRules, progress: TableProgress, points: Seq<i32>) -> bool {
        let n = seat_count_of(rules.variant) as int;
        let dealer = progress.spec_dealer();
        let tiles = self.spec_wall().spec_tiles();
        &&& self.wf()
        &&& self.spec_rules() == rules
        &&& self.spec_progress() == progress
        &&& self.spec_phase() == (Phase::TurnAction { seat: dealer, draw_source: DrawSource::LiveWall })
        &&& !self.spec_calls_occurred()
        &&& self.spec_wall().spec_tiles().len() == tile_count_of(rules.variant)
        &&& self.spec_wall().spec_live_draws() == 13 * n + 1
        &&& self.spec_wall().spec_rinshan_draws() == 0
        &&& self.spec_wall().spec_revealed_dora() == 1
        &&& forall|i: int| #![trigger self.spec_players()[i]] 0 <= i < n ==> {
            let player = self.spec_players()[i];
            &&& player.spec_points() == points[i]
            &&& player.spec_concealed().len() == (if i == dealer@ { 14int } else { 13int })
            &&& player.spec_drawn_tile() == (if i == dealer@ {
                Some(tiles[13 * n].spec_id())
            } else {
                None
            })
            &&& player.spec_melds().len() == 0
            &&& player.spec_discards().len() == 0
            &&& player.spec_riichi() == RiichiStatus::NotDeclared
            &&& !player.spec_double_riichi()
            &&& !player.spec_temporary_furiten()
            &&& !player.spec_riichi_furiten()
            &&& !player.spec_ippatsu()
        }
        &&& forall|i: int, j: int|
            0 <= i < n && 0 <= j < 13 ==> #[trigger] self.spec_players()[i].spec_concealed()[j]
                == tiles[deal_position(n, j, offset_from(rules.variant, dealer@ as int, i))]
        &&& self.spec_players()[dealer@ as int].spec_concealed()[13] == tiles[13 * n]
    }

    /// Deals a new hand: validates the rules and the table, shuffles the wall from `seed`,
    /// deals thirteen tiles to every seat, dealer first, one round at a time, and lets the
    /// dealer draw.
    pub fn start(rules: RiichiRules, progress: TableProgress, points: Vec<i32>, seed: &WallSeed) -> (r:
        Result<(RiichiHand, HandTransition), HandError>)
        ensures
            rule_violations(rules).len() != 0 ==> (r matches Err(HandError::InvalidRuleConfiguration(errors))
                && violation_keys(errors.spec_violations()) == rule_violations(rules)),
            rule_violations(rules).len() == 0 && rules.variant != progress.spec_variant() ==> r == Err::<
                (RiichiHand, HandTransition),
                HandError,
            >(HandError::VariantMismatch { rules: rules.variant, progress: progress.spec_variant() }),
            rule_violations(rules).len() == 0 && rules.variant == progress.spec_variant() && points@.len()
                != seat_count_of(rules.variant) ==> r == Err::<(RiichiHand, HandTransition), HandError>(
                HandError::PointCount {
                    expected: seat_count_of(rules.variant) as usize,
                    actual: points@.len() as usize,
                },
            ),
            rule_violations(rules).len() == 0 && rules.variant == progress.spec_variant() && points@.len()
                == seat_count_of(rules.variant) && rules.variant == RiichiVariant::Sanma
                && rules.bonuses.red_fives.man() != 0 ==> r == Err::<(RiichiHand, HandTransition), HandError>(
                HandError::TileSet(TileSetError::SanmaCannotContainRedManFive),
            ),
            rule_violations(rules).len() == 0 && rules.variant == progress.spec_variant() && points@.len()
                == seat_count_of(rules.variant) && !(rules.variant == RiichiVariant::Sanma
                && rules.bonuses.red_fives.man() != 0) ==> (r matches Ok((hand, transition)) && {
                let n = seat_count_of(rules.variant) as int;
                let dealer = progress.spec_dealer();
                let tiles = hand.spec_wall().spec_tiles();
                let events = transition.spec_events();
                &&& hand.freshly_dealt(rules, progress, points@)
                &&& exists|set: Seq<Tile>|
                    #![trigger shuffled(set, seed@, 0, set.len() - 1)]
                    is_canonical_set(rules.variant, rules.bonuses.red_fives, set) && tiles == shuffled(
                        set,
                        seed@,
                        0,
                        set.len() - 1,
                    ).0
                &&& events.len() == n + 2
                &&& events[0] == HandEvent::HandStarted {
                    progress,
                    dora_indicator: hand.spec_wall().spec_dead_tile(dora_offset(0)),
                    remaining_live_draws: (tile_count_of(rules.variant) - 14 - 13 * n) as usize,
                }
                &&& forall|o: int|
                    0 <= o < n ==> (#[trigger] events[o + 1] matches HandEvent::InitialHandDealt {
                        seat,
                        tiles: dealt,
                    } && seat@ == seat_after(rules.variant, dealer@ as int, o) && dealt@
                        == hand.spec_players()[seat@ as int].spec_concealed().take(13))
                &&& events[n + 1] == HandEvent::TileDrawn {
                    seat: dealer,
                    tile: tiles[13 * n],
                    source: DrawSource::LiveWall,
                    remaining_live_draws: (tile_count_of(rules.variant) - 14 - 13 * n - 1) as usize,
                }
            }),
    {
        match rules.validate() {
            Ok(()) => {},
            Err(errors) => return Err(HandError::InvalidRuleConfiguration(errors)),
        }
        let variant = rules.variant;
        if variant != progress.variant() {
            return Err(HandError::VariantMismatch { rules: variant, progress: progress.variant() });
        }
        let count = variant.seat_count().value();
        if points.len() != count as usize {
            return Err(HandError::PointCount { expected: count as usize, actual: points.len() });
        }
        let tile_set = match TileSet::new(variant, rules.bonuses.red_fives) {
            Ok(set) => set,
            Err(error) => return Err(HandError::TileSet(error)),
        };
        let ghost set_tiles = tile_set.spec_tiles();
        let mut wall = Wall::new(tile_set, seed);
        let ghost tiles = wall.spec_tiles();
        let ghost n = count as int;
        let dealer = progress.dealer();
        let mut players: Vec<PlayerHand> = Vec::new();
        let mut index: usize = 0;
        while index < points.len()
            invariant
                index <= points@.len(),
                players@.len() == index,
                forall|i: int| #![trigger players@[i]] 0 <= i < index ==> {
                    let player = players@[i];
                    &&& player.spec_points() == points@[i]
                    &&& player.spec_concealed().len() == 0
                    &&& player.spec_drawn_tile() is None
                    &&& player.spec_melds().len() == 0
                    &&& player.spec_discards().len() == 0
                    &&& player.spec_riichi() == RiichiStatus::NotDeclared
                    &&& !player.spec_double_riichi()
                    &&& !player.spec_temporary_furiten()
                    &&& !player.spec_riichi_furiten()
                    &&& !player.spec_ippatsu()
                },
            decreases points@.len() - index,
        {
            players.push(PlayerHand::new(points[index]));
            index = index + 1;
        }
        let mut round: u8 = 0;
        while round < INITIAL_CONCEALED_TILES
            invariant
                round <= 13,
                n == count,
                n == seat_count_of(variant),
                n == 3 || n == 4,
                dealer@ < n,
                players@.len() == n,
                wall.wf(),
                wall.spec_variant() == variant,
                wall.spec_tiles() == tiles,
                tiles.len() == tile_count_of(variant),
                wall.spec_live_end() + 14 == tiles.len(),
                wall.spec_live_draws() == round * n,
                wall.spec_rinshan_draws() == 0,
                wall.spec_revealed_dora() == 1,
                forall|i: int| #![trigger players@[i]] 0 <= i < n ==> {
                    let player = players@[i];
                    &&& player.spec_points() == points@[i]
                    &&& player.spec_concealed().len() == round
                    &&& player.spec_drawn_tile() is None
                    &&& player.spec_melds().len() == 0
                    &&& player.spec_discards().len() == 0
                    &&& player.spec_riichi() == RiichiStatus::NotDeclared
                    &&& !player.spec_double_riichi()
                    &&& !player.spec_temporary_furiten()
                    &&& !player.spec_riichi_furiten()
                    &&& !player.spec_ippatsu()
                },
                forall|i: int, j: int|
                    0 <= i < n && 0 <= j < round ==> #[trigger] players@[i].spec_concealed()[j]
                        == tiles[deal_position(n, j, offset_from(variant, dealer@ as int, i))],
            decreases 13 - round,
        {
            let mut offset: u8 = 0;
            while offset < count
                invariant
                    round < 13,
                    offset <= n,
                    n == count,
                    n == seat_count_of(variant),
                    n == 3 || n == 4,
                    dealer@ < n,
                    players@.len() == n,
                    wall.wf(),
                    wall.spec_variant() == variant,
                    wall.spec_tiles() == tiles,
                    tiles.len() == tile_count_of(variant),
                    wall.spec_live_end() + 14 == tiles.len(),
                    wall.spec_live_draws() == round * n + offset,
                    wall.spec_rinshan_draws() == 0,
                    wall.spec_revealed_dora() == 1,
                    forall|i: int| #![trigger players@[i]] 0 <= i < n ==> {
                        let player = players@[i];
                        &&& player.spec_points() == points@[i]
                        &&& player.spec_concealed().len() == round + (if offset_from(
                            variant,
                            dealer@ as int,
                            i,
                        ) < offset {
                            1int
                        } else {
                            0int
                        })
                        &&& player.spec_drawn_tile() is None
                        &&& player.spec_melds().len() == 0
                        &&& player.spec_discards().len() == 0
                        &&& player.spec_riichi() == RiichiStatus::NotDeclared
                        &&& !player.spec_double_riichi()
                        &&& !player.spec_temporary_furiten()
                        &&& !player.spec_riichi_furiten()
                        &&& !player.spec_ippatsu()
                    },
                    forall|i: int, j: int|
                        0 <= i < n && 0 <= j < players@[i].spec_concealed().len() ==> #[trigger] players@[i].spec_concealed()[j]
                            == tiles[deal_position(n, j, offset_from(variant, dealer@ as int, i))],
                decreases n - offset,
            {
                let seat = seat_at_offset(variant, dealer, offset);
                proof {
                    lemma_offset_roundtrip(variant, dealer@ as int, offset as int);
                    assert(round * n <= 12 * 4) by (nonlinear_arith)
                        requires
                            round <= 12,
                            n <= 4,
                    ;
                }
                let tile = match wall.draw_live() {
                    Some(tile) => tile,
                    None => {
                        proof {
                            assert(false);
                        }
                        return Err(HandError::WrongPhase);
                    },
                };
                let s = seat.index() as usize;
                let ghost before = players@;
                players[s].receive(tile);
                proof {
                    assert forall|i: int| 0 <= i < n && i != s implies players@[i] == before[i] by {}
                    assert forall|i: int| 0 <= i < n implies offset_from(variant, dealer@ as int, i) == offset
                        <==> i == s by {
                        lemma_offset_bound(variant, dealer@ as int, i);
                    }
                    assert(offset_from(variant, dealer@ as int, s as int) == offset);
                    assert(players@[s as int].spec_concealed().len() == round + 1);
                    assert(deal_position(n, round as int, offset as int) == round * n + offset);
                }
                offset = offset + 1;
            }
            proof {
                assert forall|i: int| 0 <= i < n implies offset_from(variant, dealer@ as int, i) < n by {
                    lemma_offset_bound(variant, dealer@ as int, i);
                }
                assert(round * n + n == (round + 1) * n) by (nonlinear_arith);
            }
            round = round + 1;
        }
        proof {
            assert(13 * n <= 52);
        }
        let dora = wall.current_dora_indicators();
        let dora_indicator = dora[0];
        let remaining = wall.remaining_live_draws();
        let mut events: Vec<HandEvent> = Vec::new();
        events.push(HandEvent::HandStarted { progress, dora_indicator, remaining_live_draws: remaining });
        let mut offset: u8 = 0;
        while offset < count
            invariant
                offset <= n,
                n == count,
                n == seat_count_of(variant),
                n == 3 || n == 4,
                dealer@ < n,
                players@.len() == n,
                events@.len() == offset + 1,
                events@[0] == (HandEvent::HandStarted {
                    progress,
                    dora_indicator,
                    remaining_live_draws: remaining,
                }),
                forall|i: int| #![trigger players@[i]] 0 <= i < n ==> players@[i].spec_concealed().len() == 13,
                forall|o: int|
                    0 <= o < offset ==> (#[trigger] events@[o + 1] matches HandEvent::InitialHandDealt {
                        seat,
                        tiles: dealt,
                    } && seat@ == seat_after(variant, dealer@ as int, o) && dealt@
                        == players@[seat@ as int].spec_concealed().take(13)),
            decreases n - offset,
        {
            let seat = seat_at_offset(variant, dealer, offset);
            proof {
                lemma_offset_roundtrip(variant, dealer@ as int, offset as int);
            }
            let dealt = players[seat.index() as usize].concealed_tiles();
            proof {
                assert(dealt@ == players@[seat@ as int].spec_concealed().take(13));
            }
            events.push(HandEvent::InitialHandDealt { seat, tiles: dealt });
            offset = offset + 1;
        }
        let dealer_draw = match wall.draw_live() {
            Some(tile) => tile,
            None => {
                proof {
                    assert(false);
                }
                return Err(HandError::WrongPhase);
            },
        };
        let d = dealer.index() as usize;
        let ghost before = players@;
        players[d].receive(dealer_draw);
        players[d].mark_drawn(dealer_draw.id());
        events.push(
            HandEvent::TileDrawn {
                seat: dealer,
                tile: dealer_draw,
                source: DrawSource::LiveWall,
                remaining_live_draws: wall.remaining_live_draws(),
            },
        );
        let mut kan_counts: Vec<u8> = Vec::new();
        let mut k: u8 = 0;
        while k < count
            invariant
                k <= count,
                kan_counts@.len() == k,
            decreases count - k,
        {
            kan_counts.push(0);
            k = k + 1;
        }
        let hand = RiichiHand {
            rules,
            progress,
            wall,
            players,
            phase: Phase::TurnAction { seat: dealer, draw_source: DrawSource::LiveWall },
            kan_counts,
            calls_occurred: false,
        };
        proof {
            assert forall|i: int| 0 <= i < n && i != d implies hand.players@[i] == before[i] by {}
            assert(hand.players@[d as int].spec_concealed().take(13) =~= before[d as int].spec_concealed());
            assert forall|i: int| 0 <= i < n implies #[trigger] hand.players@[i].spec_concealed().take(13)
                == before[i].spec_concealed().take(13) by {
                if i == d {
                    assert(before[i].spec_concealed().take(13) =~= before[i].spec_concealed());
                }
            }
            assert forall|i: int, j: int|
                0 <= i < n && 0 <= j < 13 implies #[trigger] hand.players@[i].spec_concealed()[j]
                    == tiles[deal_position(n, j, offset_from(variant, dealer@ as int, i))] by {
                if i == d {
                    assert(hand.players@[i].spec_concealed()[j] == before[i].spec_concealed()[j]);
                }
            }
            lemma_offset_bound(variant, dealer@ as int, dealer@ as int);
            assert(hand.players@[d as int].spec_concealed()[13].spec_id() == dealer_draw.spec_id());
        }
        Ok((hand, HandTransition::new(events)))
    }

    #[must_use]
    pub fn rules(&self) -> (r: &RiichiRules)
        ensures
            *r == self.spec_rules(),
    {
        &self.rules
    }

    #[must_use]
    pub fn progress(&self) -> (r: TableProgress)
        ensures
            r == self.spec_progress(),
    {
        self.progress
    }

    #[must_use]
    pub fn remaining_live_draws(&self) -> (r: usize)
        ensures
            r == self.spec_wall().spec_remaining(),
    {
        self.wall.remaining_live_draws()
    }

    #[must_use]
    pub fn completed_rinshan_draws(&self) -> (r: u8)
        ensures
            r == self.spec_wall().spec_rinshan_draws(),
    {
        self.wall.rinshan_draw_count()
    }

    /// The full shuffled order of the wall and where the dead wall starts.
    #[must_use]
    pub fn wall_order(&self) -> (r: (&[Tile], usize))
        ensures
            r.0@ == self.spec_wall().spec_tiles(),
            r.1 == self.spec_wall().spec_live_end(),
    {
        (self.wall.ordered_tiles(), self.wall.live_end())
    }

    #[must_use]
    pub fn current_dora_indicators(&self) -> (r: Vec<Tile>)
        ensures
            r@.len() == self.spec_wall().spec_revealed_dora(),
            forall|k: int|
                0 <= k < r@.len() ==> #[trigger] r@[k] == self.spec_wall().spec_dead_tile(dora_offset(k)),
    {
        self.wall.current_dora_indicators()
    }

    #[must_use]
    pub fn matching_ura_dora_indicators(&self) -> (r: Vec<Tile>)
        ensures
            r@.len() == self.spec_wall().spec_revealed_dora(),
            forall|k: int|
                0 <= k < r@.len() ==> #[trigger] r@[k] == self.spec_wall().spec_dead_tile(
                    crate::riichi::wall::ura_dora_offset(k),
                ),
    {
        self.wall.matching_ura_dora_indicators()
    }

    #[must_use]
    pub fn phase(&self) -> (r: HandPhase)
        ensures
            r == phase_view(self.spec_phase()),
    {
        match &self.phase {
            Phase::TurnAction { seat, .. } => HandPhase::AwaitingTurnAction { seat: *seat },
            Phase::Responses(pending) => HandPhase::AwaitingResponses { trigger_seat: pending.discarder },
            Phase::DiscardAfterCall { seat, .. } => HandPhase::AwaitingDiscard { seat: *seat },
            Phase::Ended(reason) => HandPhase::Ended { reason: *reason },
        }
    }

    /// The error for a seat outside the table, if `seat` is one.
    pub open spec fn seat_refusal(self, seat: Seat) -> Option<HandError> {
        if seat@ >= seat_count_of(self.spec_rules().variant) {
            Some(HandError::InvalidSeat { index: seat@, seat_count: seat_count_of(self.spec_rules().variant) })
        } else {
            None
        }
    }

    fn validate_seat(&self, seat: Seat) -> (r: Result<(), HandError>)
        ensures
            self.seat_refusal(seat) matches Some(e) ==> r == Err::<(), HandError>(e),
            self.seat_refusal(seat) is None ==> r is Ok,
    {
        let seat_count = self.rules.variant.seat_count().value();
        if seat.index() < seat_count {
            Ok(())
        } else {
            Err(HandError::InvalidSeat { index: seat.index(), seat_count })
        }
    }

    /// Checks the hand's structural invariant at run time: the table and the rules agree on the
    /// variant, there is one player and one kan counter per seat, the phase names seats that
    /// exist, the acting player's drawn tile is in hand, a pending discard exists and every
    /// chi, pon or open kan answer picks held tiles (an open kan only while the wall has room
    /// for one), and a pending riichi belongs to the discarder.
    pub fn validate_invariants(&self) -> (r: Result<(), HandInvariantError>)
        ensures
            r is Ok <==> self.wf(),
    {
        let count = self.rules.variant.seat_count().value();
        if self.progress.variant() != self.rules.variant {
            return Err(HandInvariantError::new("variant.mismatch"));
        }
        if self.players.len() != count as usize || self.kan_counts.len() != count as usize {
            return Err(HandInvariantError::new("players.count"));
        }
        match &self.phase {
            Phase::TurnAction { seat, .. } => {
                if seat.index() >= count {
                    return Err(HandInvariantError::new("phase.invalid_seat"));
                }
                let player = &self.players[seat.index() as usize];
                match player.drawn_tile_id() {
                    Some(id) => {
                        if !holds_tile(player.concealed(), id) {
                            return Err(HandInvariantError::new("drawn_tile.not_concealed"));
                        }
                    },
                    None => {
                        return Err(HandInvariantError::new("phase.drawn_tile_owner"));
                    },
                }
            },
            Phase::Responses(pending) => {
                if pending.discarder.index() >= count {
                    return Err(HandInvariantError::new("phase.invalid_seat"));
                }
                if pending.responses.len() != count as usize {
                    return Err(HandInvariantError::new("phase.response_count"));
                }
                let discards = self.players[pending.discarder.index() as usize].discards();
                if pending.discard_index >= discards.len() {
                    return Err(HandInvariantError::new("phase.discard_missing"));
                }
                if pending.responses[pending.discarder.index() as usize].is_none() {
                    return Err(HandInvariantError::new("phase.discard_response_owner"));
                }
                let called = discards[pending.discard_index].tile().kind();
                let room = self.wall.remaining_live_draws() > 0 && self.wall.rinshan_draw_count() < 4;
                let mut k: usize = 0;
                while k < count as usize
                    invariant
                        k <= count,
                        count == seat_count_of(self.rules.variant),
                        self.players@.len() == count,
                        self.phase == Phase::Responses(*pending),
                        pending.responses@.len() == count,
                        pending.discarder@ < count,
                        pending.discard_index < self.players@[pending.discarder@ as int].spec_discards().len(),
                        called == self.players@[pending.discarder@ as int].spec_discards()[pending.discard_index as int].spec_tile().spec_kind(),
                        room == kan_room(self.wall),
                        forall|j: int|
                            0 <= j < k ==> #[trigger] claim_held(
                                pending.responses@[j],
                                self.players@[j].spec_concealed(),
                                called,
                                room,
                            ),
                    decreases count - k,
                {
                    if !answer_holds(pending.responses[k], self.players[k].concealed(), called, room) {
                        return Err(HandInvariantError::new("phase.response_tiles"));
                    }
                    k = k + 1;
                }
            },
            Phase::DiscardAfterCall { seat, .. } => {
                if seat.index() >= count {
                    return Err(HandInvariantError::new("phase.invalid_seat"));
                }
            },
            Phase::Ended(_) => {},
        }
        let mut k: usize = 0;
        while k < count as usize
            invariant
                k <= count,
                count == seat_count_of(self.rules.variant),
                self.players@.len() == count,
                forall|j: int|
                    #![trigger self.players@[j]]
                    0 <= j < k && self.players@[j].spec_riichi() == RiichiStatus::Pending ==> {
                        &&& self.phase matches Phase::Responses(pending)
                        &&& pending.discarder@ == j
                        &&& self.players@[j].spec_points() >= 1000
                        &&& self.progress.spec_riichi_sticks()@ < u32::MAX
                    },
            decreases count - k,
        {
            let player = &self.players[k];
            if player.riichi_status() == RiichiStatus::Pending {
                let owned = match &self.phase {
                    Phase::Responses(pending) => pending.discarder.index() as usize == k,
                    _ => false,
                };
                if !owned || player.points() < 1000 || self.progress.riichi_sticks().value() == u32::MAX {
                    return Err(HandInvariantError::new("phase.pending_riichi"));
                }
            }
            k = k + 1;
        }
        Ok(())
    }

    /// A checkpoint of this hand with `last_event_sequence`, if the hand keeps its structural
    /// invariant. The checkpoint holds a clone of the hand, of which nothing is stated:
    /// restoring it checks the invariant again.
    pub fn checkpoint(&self, last_event_sequence: u64) -> (r: Result<RiichiHandCheckpoint, HandInvariantError>)
        ensures
            r is Ok <==> self.wf(),
            r matches Ok(checkpoint) ==> checkpoint.spec_schema_version() == HAND_CHECKPOINT_SCHEMA_VERSION
                && checkpoint.spec_last_event_sequence() == last_event_sequence,
    {
        match self.validate_invariants() {
            Ok(()) => Ok(RiichiHandCheckpoint::new(self.clone(), last_event_sequence)),
            Err(error) => Err(error),
        }
    }

    /// The state of the player at `seat`.
    pub fn player(&self, seat: Seat) -> (r: Result<&PlayerHand, HandError>)
        requires
            self.wf(),
        ensures
            self.seat_refusal(seat) matches Some(e) ==> r == Err::<&PlayerHand, HandError>(e),
            self.seat_refusal(seat) is None ==> (r matches Ok(player) && *player
                == self.spec_players()[seat@ as int]),
    {
        match self.validate_seat(seat) {
            Ok(()) => Ok(&self.players[seat.index() as usize]),
            Err(error) => Err(error),
        }
    }

    /// Whether the player at `seat` waits on some kind and is furiten.
    pub fn is_furiten(&self, seat: Seat) -> (r: Result<bool, HandError>)
        requires
            self.wf(),
        ensures
            self.seat_refusal(seat) matches Some(e) ==> r == Err::<bool, HandError>(e),
            self.seat_refusal(seat) is None ==> r == Ok::<bool, HandError>(
                waiting_and_furiten(self.spec_players()[seat@ as int]),
            ),
    {
        match self.player(seat) {
            Ok(player) => Ok(player_furiten(player)),
            Err(error) => Err(error),
        }
    }

    /// Why `actor` may not discard the tile with `tile_id` now, if it may not.
    pub open spec fn discard_refusal(self, actor: Seat, tile_id: TileId) -> Option<HandError> {
        if actor@ >= seat_count_of(self.spec_rules().variant) {
            self.seat_refusal(actor)
        } else {
            match self.spec_phase() {
                Phase::TurnAction { seat, .. } => {
                    let player = self.spec_players()[actor@ as int];
                    if actor != seat {
                        Some(HandError::NotActiveSeat { expected: seat, actual: actor })
                    } else if !(exists|i: int|
                        0 <= i < player.spec_concealed().len()
                            && #[trigger] player.spec_concealed()[i].spec_id() == tile_id) {
                        Some(HandError::TileNotInHand { tile_id })
                    } else if player.spec_riichi() == RiichiStatus::Established && player.spec_drawn_tile()
                        != Some(tile_id) {
                        Some(HandError::RiichiMustTsumogiri)
                    } else {
                        None
                    }
                },
                Phase::DiscardAfterCall { seat, forbidden_discards } => {
                    let player = self.spec_players()[actor@ as int];
                    if actor != seat {
                        Some(HandError::NotActiveSeat { expected: seat, actual: actor })
                    } else if !(exists|i: int|
                        0 <= i < player.spec_concealed().len()
                            && #[trigger] player.spec_concealed()[i].spec_id() == tile_id) {
                        Some(HandError::TileNotInHand { tile_id })
                    } else if player.spec_riichi() == RiichiStatus::Established && player.spec_drawn_tile()
                        != Some(tile_id) {
                        Some(HandError::RiichiMustTsumogiri)
                    } else if forbidden_discards@.contains(held_kind(player.spec_concealed(), tile_id)) {
                        Some(HandError::ForbiddenDiscardAfterCall { kind: held_kind(player.spec_concealed(), tile_id) })
                    } else {
                        None
                    }
                },
                _ => Some(HandError::WrongPhase),
            }
        }
    }

    /// `after` is this hand once `actor` discarded the tile with `tile_id`, which produced
    /// `events`: the tile leaves the concealed hand (the last concealed tile takes its place),
    /// joins the pond, and every other seat may now answer.
    pub open spec fn discarded(
        self,
        after: RiichiHand,
        actor: Seat,
        tile_id: TileId,
        declare: bool,
        events: Seq<HandEvent>,
    ) -> bool {
        let a = actor@ as int;
        let n = self.seat_count();
        let before = self.spec_players()[a];
        let player = after.spec_players()[a];
        let tsumogiri = before.spec_drawn_tile() == Some(tile_id);
        &&& exists|i: int| #[trigger]
            first_match(before.spec_concealed(), tile_id, i) && {
                let tile = before.spec_concealed()[i];
                let laid = player.spec_discards().last();
                &&& player.spec_points() == before.spec_points()
                &&& player.spec_melds() == before.spec_melds()
                &&& player.spec_double_riichi() == before.spec_double_riichi()
                &&& player.spec_riichi() == (if declare {
                    RiichiStatus::Pending
                } else {
                    before.spec_riichi()
                })
                &&& player.spec_concealed() == swap_removed(before.spec_concealed(), i)
                &&& player.spec_drawn_tile() is None
                &&& !player.spec_ippatsu()
                &&& player.spec_temporary_furiten() == before.spec_temporary_furiten()
                &&& player.spec_riichi_furiten() == before.spec_riichi_furiten()
                &&& player.spec_discards().drop_last() == before.spec_discards()
                &&& player.spec_discards().len() == before.spec_discards().len() + 1
                &&& laid.spec_tile() == tile
                &&& laid.spec_tsumogiri() == tsumogiri
                &&& laid.spec_riichi_declared() == (declare || (before.spec_riichi() == RiichiStatus::Pending
                    && !tsumogiri))
                &&& laid.spec_claimed_by() is None
                &&& events == (if before.spec_riichi() == RiichiStatus::Established
                    && before.spec_ippatsu() {
                    seq![
                        HandEvent::TileDiscarded { seat: actor, tile, tsumogiri, riichi_declared: declare },
                        HandEvent::IppatsuExpired { seat: actor },
                    ]
                } else {
                    seq![HandEvent::TileDiscarded { seat: actor, tile, tsumogiri, riichi_declared: declare }]
                })
            }
        &&& after.spec_players().len() == n
        &&& forall|k: int|
            0 <= k < n && k != a ==> #[trigger] after.spec_players()[k] == self.spec_players()[k]
        &&& after.spec_phase() matches Phase::Responses(pending) && {
            &&& pending.discarder == actor
            &&& pending.discard_index == before.spec_discards().len()
            &&& pending.responses@.len() == n
            &&& forall|k: int|
                0 <= k < n ==> #[trigger] pending.responses@[k] == (if k == a {
                    Some(Reaction::Pass)
                } else {
                    None
                })
        }
        &&& after.spec_rules() == self.spec_rules()
        &&& after.spec_progress() == self.spec_progress()
        &&& after.spec_wall() == self.spec_wall()
        &&& after.spec_calls_occurred() == self.spec_calls_occurred()
    }

    /// Discards the tile with `tile_id` from the hand of `actor`, whose turn it is, and opens
    /// the window in which the other seats answer.
    pub fn discard(&mut self, actor: Seat, tile_id: TileId) -> (r: Result<HandTransition, HandError>)
        requires
            old(self).wf(),
        ensures
            final(self).wf(),
            old(self).discard_refusal(actor, tile_id) matches Some(e) ==> r == Err::<HandTransition, HandError>(e)
                && *final(self) == *old(self),
            old(self).discard_refusal(actor, tile_id) is None ==> (r matches Ok(transition)
                && old(self).discarded(*final(self), actor, tile_id, false, transition.spec_events())),
    {
        self.discard_internal(actor, tile_id, false)
    }

    fn discard_internal(&mut self, actor: Seat, tile_id: TileId, declare: bool) -> (r: Result<HandTransition, HandError>)
        requires
            old(self).wf(),
            declare ==> old(self).discard_refusal(actor, tile_id) is None && old(self).spec_players()[actor@ as int].spec_riichi()
                == RiichiStatus::NotDeclared && old(self).spec_players()[actor@ as int].spec_points() >= 1000
                && old(self).spec_progress().spec_riichi_sticks()@ < u32::MAX,
        ensures
            final(self).wf(),
            old(self).discard_refusal(actor, tile_id) matches Some(e) ==> r == Err::<HandTransition, HandError>(e)
                && *final(self) == *old(self),
            old(self).discard_refusal(actor, tile_id) is None ==> (r matches Ok(transition)
                && old(self).discarded(*final(self), actor, tile_id, declare, transition.spec_events())),
    {
        let count = self.rules.variant.seat_count().value();
        if actor.index() >= count {
            return Err(HandError::InvalidSeat { index: actor.index(), seat_count: count });
        }
        let (active, forbidden) = match &self.phase {
            Phase::TurnAction { seat, .. } => (*seat, None),
            Phase::DiscardAfterCall { seat, forbidden_discards } => (*seat, Some(forbidden_discards)),
            _ => return Err(HandError::WrongPhase),
        };
        if actor != active {
            return Err(HandError::NotActiveSeat { expected: active, actual: actor });
        }
        let a = actor.index() as usize;
        let index = match position_of_id(self.players[a].concealed(), tile_id) {
            Some(index) => index,
            None => return Err(HandError::TileNotInHand { tile_id }),
        };
        let tsumogiri = match self.players[a].drawn_tile_id() {
            Some(drawn) => drawn == tile_id,
            None => false,
        };
        let riichi = self.players[a].riichi_status();
        if riichi == RiichiStatus::Established && !tsumogiri {
            return Err(HandError::RiichiMustTsumogiri);
        }
        let kind = self.players[a].concealed()[index].kind();
        proof {
            assert(first_match(self.players@[a as int].spec_concealed(), tile_id, index as int));
            lemma_held_kind(self.players@[a as int].spec_concealed(), tile_id, index as int);
        }
        match forbidden {
            Some(kinds) => {
                if contains_kind(kinds, kind) {
                    return Err(HandError::ForbiddenDiscardAfterCall { kind });
                }
            },
            None => {},
        }
        let ippatsu_expired = riichi == RiichiStatus::Established && self.players[a].is_ippatsu_eligible();
        let ghost before = self.players@;
        let tile = self.players[a].take_for_discard(index);
        if declare {
            self.players[a].declare_riichi();
        }
        let forced_sideways = riichi == RiichiStatus::Pending && !declare && !tsumogiri;
        let discard_index = self.players[a].discards().len();
        self.players[a].lay_discard(Discard::laid(tile, tsumogiri, declare || forced_sideways));
        let mut responses: Vec<Option<Reaction>> = Vec::new();
        let mut k: u8 = 0;
        while k < count
            invariant
                k <= count,
                a < count,
                responses@.len() == k,
                forall|j: int|
                    0 <= j < k ==> #[trigger] responses@[j] == (if j == a as int {
                        Some(Reaction::Pass)
                    } else {
                        None
                    }),
            decreases count - k,
        {
            if k as usize == a {
                responses.push(Some(Reaction::Pass));
            } else {
                responses.push(None);
            }
            k = k + 1;
        }
        self.phase = Phase::Responses(PendingDiscard { discarder: actor, discard_index, responses });
        let mut events: Vec<HandEvent> = Vec::new();
        events.push(HandEvent::TileDiscarded { seat: actor, tile, tsumogiri, riichi_declared: declare });
        if ippatsu_expired {
            events.push(HandEvent::IppatsuExpired { seat: actor });
        }
        proof {
            let i = index as int;
            let prior = before[a as int];
            assert(first_match(prior.spec_concealed(), tile_id, i));
            assert forall|j: int| 0 <= j < count && j != a implies #[trigger] self.players@[j] == before[j] by {}
            assert(self.players@[a as int].spec_discards().drop_last() =~= prior.spec_discards());
            assert(tile == prior.spec_concealed()[i]);
            assert(tsumogiri == (prior.spec_drawn_tile() == Some(tile_id)));
            assert(ippatsu_expired == (prior.spec_riichi() == RiichiStatus::Established && prior.spec_ippatsu()));
            if ippatsu_expired {
                assert(events@ =~= seq![
                    HandEvent::TileDiscarded { seat: actor, tile, tsumogiri, riichi_declared: declare },
                    HandEvent::IppatsuExpired { seat: actor },
                ]);
            } else {
                assert(events@ =~= seq![HandEvent::TileDiscarded { seat: actor, tile, tsumogiri, riichi_declared: declare }]);
            }
            assert(forall|k: int| 0 <= k < count && k != a ==> before[k].spec_riichi() != RiichiStatus::Pending);
        }
        Ok(HandTransition::new(events))
    }

    /// Why `actor` may not pass now, if it may not.
    pub open spec fn pass_refusal(self, actor: Seat) -> Option<HandError> {
        if actor@ >= seat_count_of(self.spec_rules().variant) {
            self.seat_refusal(actor)
        } else {
            match self.spec_phase() {
                Phase::Responses(pending) => {
                    if actor == pending.discarder {
                        Some(HandError::DiscarderCannotReact)
                    } else if pending.responses@[actor@ as int] is Some {
                        Some(HandError::AlreadyResponded { seat: actor })
                    } else {
                        None
                    }
                },
                _ => Some(HandError::WrongPhase),
            }
        }
    }

    /// A pass by `actor` turns down a ron when the judge would allow one; a furiten player is
    /// never offered ron.
    pub open spec fn declines_ron(self, actor: Seat, judge_allows_ron: bool) -> bool {
        let player = self.spec_players()[actor@ as int];
        judge_allows_ron && !player.spec_temporary_furiten() && !player.spec_riichi_furiten()
    }

    /// `after` is this hand once `actor`'s pass was recorded, which produced `events`;
    /// `complete` tells whether every seat has now answered.
    pub open spec fn pass_recorded(
        self,
        after: RiichiHand,
        actor: Seat,
        judge_allows_ron: bool,
        events: Seq<HandEvent>,
        complete: bool,
    ) -> bool {
        let a = actor@ as int;
        let n = self.seat_count();
        let declined = self.declines_ron(actor, judge_allows_ron);
        let before = self.spec_players()[a];
        let player = after.spec_players()[a];
        &&& after.spec_rules() == self.spec_rules()
        &&& after.spec_progress() == self.spec_progress()
        &&& after.spec_wall() == self.spec_wall()
        &&& after.spec_calls_occurred() == self.spec_calls_occurred()
        &&& after.spec_players().len() == n
        &&& forall|k: int|
            0 <= k < n && k != a ==> #[trigger] after.spec_players()[k] == self.spec_players()[k]
        &&& !declined ==> player == before
        &&& declined ==> {
            &&& player.keeps_record_of(before)
            &&& player.spec_concealed() == before.spec_concealed()
            &&& player.spec_drawn_tile() == before.spec_drawn_tile()
            &&& player.spec_discards() == before.spec_discards()
            &&& player.spec_ippatsu() == before.spec_ippatsu()
            &&& before.spec_riichi() == RiichiStatus::Established ==> player.spec_riichi_furiten()
                && player.spec_temporary_furiten() == before.spec_temporary_furiten()
            &&& before.spec_riichi() != RiichiStatus::Established ==> player.spec_temporary_furiten()
                && player.spec_riichi_furiten() == before.spec_riichi_furiten()
        }
        &&& self.spec_phase() matches Phase::Responses(pending)
        &&& after.spec_phase() matches Phase::Responses(answered)
        &&& answered.discarder == pending.discarder
        &&& answered.discard_index == pending.discard_index
        &&& answered.responses@ == pending.responses@.update(a, Some(Reaction::Pass))
        &&& complete == (forall|k: int| 0 <= k < n ==> (#[trigger] answered.responses@[k]) is Some)
        &&& events == seq![HandEvent::ReactionSubmitted { seat: actor, reaction: ReactionKind::Pass }] + (
        if declined {
            seq![
                HandEvent::FuritenChanged {
                    seat: actor,
                    temporary: player.spec_temporary_furiten(),
                    riichi: player.spec_riichi_furiten(),
                },
            ]
        } else {
            Seq::empty()
        })
    }

    /// Records that `actor` passes on the pending discard, given whether the judge would have
    /// let `actor` win on it; tells whether every seat has now answered.
    pub fn record_pass(&mut self, actor: Seat, judge_allows_ron: bool) -> (r: Result<(HandTransition, bool), HandError>)
        requires
            old(self).wf(),
        ensures
            final(self).wf(),
            old(self).pass_refusal(actor) matches Some(e) ==> r == Err::<(HandTransition, bool), HandError>(e)
                && *final(self) == *old(self),
            old(self).pass_refusal(actor) is None ==> (r matches Ok((transition, complete))
                && old(self).pass_recorded(*final(self), actor, judge_allows_ron, transition.spec_events(), complete)),
    {
        let count = self.rules.variant.seat_count().value();
        if actor.index() >= count {
            return Err(HandError::InvalidSeat { index: actor.index(), seat_count: count });
        }
        let a = actor.index() as usize;
        match &self.phase {
            Phase::Responses(pending) => {
                if actor == pending.discarder {
                    return Err(HandError::DiscarderCannotReact);
                }
                if pending.responses[a].is_some() {
                    return Err(HandError::AlreadyResponded { seat: actor });
                }
            },
            _ => return Err(HandError::WrongPhase),
        }
        let declined = judge_allows_ron && !self.players[a].is_temporary_furiten()
            && !self.players[a].is_riichi_furiten();
        let ghost before = self.players@;
        let mut events: Vec<HandEvent> = Vec::new();
        events.push(HandEvent::ReactionSubmitted { seat: actor, reaction: ReactionKind::Pass });
        if declined {
            self.players[a].decline_ron();
            events.push(
                HandEvent::FuritenChanged {
                    seat: actor,
                    temporary: self.players[a].is_temporary_furiten(),
                    riichi: self.players[a].is_riichi_furiten(),
                },
            );
        }
        let ghost old_phase = self.phase;
        let complete = match &mut self.phase {
            Phase::Responses(pending) => {
                pending.responses.set(a, Some(Reaction::Pass));
                all_answered(&pending.responses)
            },
            _ => false,
        };
        proof {
            assert forall|j: int| 0 <= j < count && j != a implies #[trigger] self.players@[j] == before[j] by {}
            assert(events@ =~= seq![HandEvent::ReactionSubmitted { seat: actor, reaction: ReactionKind::Pass }] + (
            if declined {
                seq![
                    HandEvent::FuritenChanged {
                        seat: actor,
                        temporary: self.players@[a as int].spec_temporary_furiten(),
                        riichi: self.players@[a as int].spec_riichi_furiten(),
                    },
                ]
            } else {
                Seq::empty()
            }));
        }
        Ok((HandTransition::new(events), complete))
    }

    /// Four-winds abortive draw: with the rule on, in four-player riichi and with no call made,
    /// every player's only discard is the same wind.
    pub open spec fn four_winds(self) -> bool {
        let players = self.spec_players();
        let first = players[0].spec_discards()[0].spec_tile().spec_kind();
        &&& self.spec_rules().abortive_draws.four_winds
        &&& self.spec_rules().variant == RiichiVariant::Yonma
        &&& !self.spec_calls_occurred()
        &&& forall|k: int| 0 <= k < players.len() ==> #[trigger] players[k].spec_discards().len() == 1
        &&& is_wind_kind(first)
        &&& forall|k: int|
            0 <= k < players.len() ==> #[trigger] players[k].spec_discards()[0].spec_tile().spec_kind() == first
    }

    /// Four-riichi abortive draw: with the rule on, in four-player riichi, every player has an
    /// established riichi.
    pub open spec fn four_riichi(self) -> bool {
        &&& self.spec_rules().abortive_draws.four_riichi
        &&& self.spec_rules().variant == RiichiVariant::Yonma
        &&& forall|k: int|
            0 <= k < self.spec_players().len() ==> #[trigger] self.spec_players()[k].spec_riichi()
                == RiichiStatus::Established
    }

    fn is_four_winds(&self) -> (r: bool)
        requires
            self.wf(),
        ensures
            r == self.four_winds(),
    {
        if !self.rules.abortive_draws.four_winds || self.rules.variant != RiichiVariant::Yonma
            || self.calls_occurred {
            return false;
        }
        let mut k: usize = 0;
        while k < self.players.len()
            invariant
                k <= self.players@.len(),
                forall|j: int| 0 <= j < k ==> #[trigger] self.players@[j].spec_discards().len() == 1,
            decreases self.players@.len() - k,
        {
            if self.players[k].discards().len() != 1 {
                return false;
            }
            k = k + 1;
        }
        let first = self.players[0].discards()[0].tile().kind();
        match first.honor_value() {
            Some(honor) => {
                if !matches!(honor, Honor::East | Honor::South | Honor::West | Honor::North) {
                    return false;
                }
            },
            None => return false,
        }
        proof {
            assert(is_wind_kind(first));
        }
        let mut k: usize = 0;
        while k < self.players.len()
            invariant
                k <= self.players@.len(),
                forall|j: int| 0 <= j < self.players@.len() ==> #[trigger] self.players@[j].spec_discards().len() == 1,
                first == self.players@[0].spec_discards()[0].spec_tile().spec_kind(),
                forall|j: int|
                    0 <= j < k ==> #[trigger] self.players@[j].spec_discards()[0].spec_tile().spec_kind() == first,
            decreases self.players@.len() - k,
        {
            if self.players[k].discards()[0].tile().kind() != first {
                return false;
            }
            k = k + 1;
        }
        true
    }

    fn is_four_riichi(&self) -> (r: bool)
        ensures
            r == self.four_riichi(),
    {
        if !self.rules.abortive_draws.four_riichi || self.rules.variant != RiichiVariant::Yonma {
            return false;
        }
        let mut k: usize = 0;
        while k < self.players.len()
            invariant
                k <= self.players@.len(),
                forall|j: int| 0 <= j < k ==> #[trigger] self.players@[j].spec_riichi() == RiichiStatus::Established,
            decreases self.players@.len() - k,
        {
            if self.players[k].riichi_status() != RiichiStatus::Established {
                return false;
            }
            k = k + 1;
        }
        true
    }

    /// The hand is waiting on answers to a discard and every seat has answered.
    pub open spec fn window_complete(self) -> bool {
        self.spec_phase() matches Phase::Responses(pending) && forall|k: int|
            0 <= k < pending.responses@.len() ==> (#[trigger] pending.responses@[k]) is Some
    }

    /// Passing on every answer to the last discard of a hand with an empty live wall ends the
    /// hand in an exhaustive draw.
    pub open spec fn ends_exhausted(self) -> bool {
        !self.four_winds() && !self.four_riichi() && self.spec_wall().spec_remaining() == 0
    }

    /// `after` is this hand once its discard window closed with nobody claiming the tile,
    /// which produced `events`; `tenpai` holds the judge's tenpai verdict per seat.
    pub open spec fn unclaimed_resolved(self, after: RiichiHand, tenpai: Seq<bool>, events: Seq<HandEvent>) -> bool {
        let n = self.seat_count();
        let keeps_table = after.spec_rules() == self.spec_rules() && after.spec_progress()
            == self.spec_progress() && after.spec_calls_occurred() == self.spec_calls_occurred();
        let keeps_tiles = after.spec_wall() == self.spec_wall() && after.spec_players()
            == self.spec_players();
        &&& keeps_table
        &&& if self.four_winds() {
            &&& keeps_tiles
            &&& after.spec_phase() == Phase::Ended(EndReason::FourWinds)
            &&& events == seq![HandEvent::AbortiveDrawDeclared { reason: EndReason::FourWinds, declarer: None }]
        } else if self.four_riichi() {
            &&& keeps_tiles
            &&& after.spec_phase() == Phase::Ended(EndReason::FourRiichi)
            &&& events == seq![HandEvent::AbortiveDrawDeclared { reason: EndReason::FourRiichi, declarer: None }]
        } else if self.spec_wall().spec_remaining() == 0 {
            &&& keeps_tiles
            &&& after.spec_phase() == Phase::Ended(EndReason::ExhaustiveDraw)
            &&& events.len() == 1
            &&& events[0] matches HandEvent::ExhaustiveDrawDeclared { reason, tenpai: seats }
            &&& reason == EndReason::ExhaustiveDraw
            &&& seats@.map_values(|seat: Seat| seat@ as int) == marked_seats(tenpai)
        } else {
            let pending = self.spec_phase()->Responses_0;
            let next = seat_after(self.spec_rules().variant, pending.discarder@ as int, 1);
            let wall = self.spec_wall();
            let tile = wall.spec_tiles()[wall.spec_live_draws() as int];
            let before = self.spec_players()[next];
            let player = after.spec_players()[next];
            &&& after.spec_wall().spec_variant() == wall.spec_variant()
            &&& after.spec_wall().spec_tiles() == wall.spec_tiles()
            &&& after.spec_wall().spec_live_draws() == wall.spec_live_draws() + 1
            &&& after.spec_wall().spec_live_end() == wall.spec_live_end()
            &&& after.spec_wall().spec_rinshan_draws() == wall.spec_rinshan_draws()
            &&& after.spec_wall().spec_revealed_dora() == wall.spec_revealed_dora()
            &&& after.spec_players().len() == n
            &&& forall|k: int|
                0 <= k < n && k != next ==> #[trigger] after.spec_players()[k] == self.spec_players()[k]
            &&& player.keeps_record_of(before)
            &&& player.spec_concealed() == before.spec_concealed().push(tile)
            &&& player.spec_drawn_tile() == Some(tile.spec_id())
            &&& player.spec_discards() == before.spec_discards()
            &&& !player.spec_temporary_furiten()
            &&& player.spec_riichi_furiten() == before.spec_riichi_furiten()
            &&& player.spec_ippatsu() == before.spec_ippatsu()
            &&& after.spec_phase() matches Phase::TurnAction { seat, draw_source }
            &&& seat@ == next
            &&& draw_source == DrawSource::LiveWall
            &&& events == (if before.spec_temporary_furiten() {
                seq![HandEvent::FuritenChanged { seat, temporary: false, riichi: before.spec_riichi_furiten() }]
            } else {
                Seq::empty()
            }) + seq![
                HandEvent::TileDrawn {
                    seat,
                    tile,
                    source: DrawSource::LiveWall,
                    remaining_live_draws: (wall.spec_remaining() - 1) as usize,
                },
            ]
        }
    }

    /// The seats that answered ron, nearest to the discarder first, among the first `count`
    /// seats after the discarder.
    pub open spec fn ron_answers(responses: Seq<Option<Reaction>>, variant: RiichiVariant, discarder: int, count: int) -> Seq<int>
        decreases count,
    {
        if count <= 0 {
            Seq::empty()
        } else {
            let seat = seat_after(variant, discarder, count);
            Self::ron_answers(responses, variant, discarder, count - 1) + (if responses[seat] == Some(Reaction::Ron) {
                seq![seat]
            } else {
                Seq::empty()
            })
        }
    }

    /// Some seat answered the pending discard with ron.
    pub open spec fn has_ron(self) -> bool {
        self.spec_phase() matches Phase::Responses(pending) && exists|k: int|
            0 <= k < pending.responses@.len() && #[trigger] pending.responses@[k] == Some(Reaction::Ron)
    }

    /// The seats that win on the pending discard: every ron answer, nearest to the discarder
    /// first, or only the nearest under head bump.
    pub open spec fn ron_winners(self) -> Seq<int> {
        let pending = self.spec_phase()->Responses_0;
        let all = Self::ron_answers(
            pending.responses@,
            self.spec_rules().variant,
            pending.discarder@ as int,
            self.seat_count() - 1,
        );
        if self.spec_rules().settlement.ron_resolution == RonResolution::HeadBump && all.len() > 1 {
            all.take(1)
        } else {
            all
        }
    }

    /// `after` is this hand once the discard was won on, which produced `events`: a riichi
    /// declared with that tile is withdrawn and the hand ends.
    pub open spec fn ron_resolved(self, after: RiichiHand, events: Seq<HandEvent>) -> bool {
        let pending = self.spec_phase()->Responses_0;
        let d = pending.discarder@ as int;
        let before = self.spec_players()[d];
        let player = after.spec_players()[d];
        &&& after.spec_rules() == self.spec_rules()
        &&& after.spec_progress() == self.spec_progress()
        &&& after.spec_wall() == self.spec_wall()
        &&& after.spec_calls_occurred() == self.spec_calls_occurred()
        &&& after.spec_players().len() == self.spec_players().len()
        &&& forall|k: int|
            0 <= k < self.seat_count() && k != d ==> #[trigger] after.spec_players()[k] == self.spec_players()[k]
        &&& before.spec_riichi() != RiichiStatus::Pending ==> player == before
        &&& before.spec_riichi() == RiichiStatus::Pending ==> {
            &&& player.spec_riichi() == RiichiStatus::NotDeclared
            &&& !player.spec_double_riichi()
            &&& player.spec_points() == before.spec_points()
            &&& player.spec_melds() == before.spec_melds()
            &&& player.spec_concealed() == before.spec_concealed()
            &&& player.spec_drawn_tile() == before.spec_drawn_tile()
            &&& player.spec_discards() == before.spec_discards()
            &&& player.spec_temporary_furiten() == before.spec_temporary_furiten()
            &&& player.spec_riichi_furiten() == before.spec_riichi_furiten()
            &&& player.spec_ippatsu() == before.spec_ippatsu()
        }
        &&& after.spec_phase() == Phase::Ended(EndReason::Ron)
        &&& events.len() == 1
        &&& events[0] matches HandEvent::RonDeclared { winners, from, tile, source }
        &&& winners@.map_values(|seat: Seat| seat@ as int) == self.ron_winners()
        &&& from == pending.discarder
        &&& tile == before.spec_discards()[pending.discard_index as int].spec_tile()
        &&& source == (WinSource::Discard { from: pending.discarder })
    }

    /// `mid` is this hand once a riichi declared with the unclaimed discard took effect, which
    /// produced `events`: the declarer pays the stick, which goes on the table.
    pub open spec fn riichi_settled(self, mid: RiichiHand, events: Seq<HandEvent>) -> bool {
        let pending = self.spec_phase()->Responses_0;
        let d = pending.discarder@ as int;
        let before = self.spec_players()[d];
        let player = mid.spec_players()[d];
        if before.spec_riichi() == RiichiStatus::Pending {
            &&& mid.spec_rules() == self.spec_rules()
            &&& mid.spec_progress() == self.spec_progress().spec_deposited()
            &&& mid.spec_wall() == self.spec_wall()
            &&& mid.spec_calls_occurred() == self.spec_calls_occurred()
            &&& mid.spec_phase() == self.spec_phase()
            &&& mid.spec_players().len() == self.spec_players().len()
            &&& forall|k: int|
                0 <= k < self.seat_count() && k != d ==> #[trigger] mid.spec_players()[k] == self.spec_players()[k]
            &&& player.spec_points() == before.spec_points() - 1000
            &&& player.spec_riichi() == RiichiStatus::Established
            &&& player.spec_ippatsu() == self.spec_rules().bonuses.ippatsu
            &&& player.spec_melds() == before.spec_melds()
            &&& player.spec_double_riichi() == before.spec_double_riichi()
            &&& player.spec_concealed() == before.spec_concealed()
            &&& player.spec_drawn_tile() == before.spec_drawn_tile()
            &&& player.spec_discards() == before.spec_discards()
            &&& player.spec_temporary_furiten() == before.spec_temporary_furiten()
            &&& player.spec_riichi_furiten() == before.spec_riichi_furiten()
            &&& events == seq![
                HandEvent::RiichiEstablished {
                    seat: pending.discarder,
                    points_after: player.spec_points(),
                    riichi_sticks: mid.spec_progress().spec_riichi_sticks()@,
                },
            ]
        } else {
            mid == self && events == Seq::<HandEvent>::empty()
        }
    }

    /// `after` is this hand once its answered discard window closed, which produced `events`:
    /// a ron ends the hand; otherwise a pending riichi takes effect and the unclaimed discard
    /// is resolved, `tenpai` giving the judge's verdict per seat.
    pub open spec fn window_resolved(self, after: RiichiHand, tenpai: Seq<bool>, events: Seq<HandEvent>) -> bool {
        if self.has_ron() {
            self.ron_resolved(after, events)
        } else {
            exists|mid: RiichiHand, settled: Seq<HandEvent>, rest: Seq<HandEvent>|
                #![trigger self.riichi_settled(mid, settled), mid.claim_or_unclaimed(after, tenpai, rest)]
                self.riichi_settled(mid, settled) && mid.claim_or_unclaimed(after, tenpai, rest)
                    && events == settled + rest
        }
    }

    /// A claimed discard goes to the claimant; an unclaimed one is resolved as
    /// `unclaimed_resolved` says.
    pub open spec fn claim_or_unclaimed(self, after: RiichiHand, tenpai: Seq<bool>, events: Seq<HandEvent>) -> bool {
        if self.claimant() is Some {
            self.call_applied(after, events)
        } else {
            self.unclaimed_resolved(after, tenpai, events)
        }
    }

    fn any_ron(&self) -> (r: bool)
        requires
            self.spec_phase() is Responses,
        ensures
            r == self.has_ron(),
    {
        match &self.phase {
            Phase::Responses(pending) => {
                let mut k: usize = 0;
                while k < pending.responses.len()
                    invariant
                        k <= pending.responses@.len(),
                        self.spec_phase() is Responses,
                        self.spec_phase()->Responses_0 == *pending,
                        forall|j: int| 0 <= j < k ==> #[trigger] pending.responses@[j] != Some(Reaction::Ron),
                    decreases pending.responses@.len() - k,
                {
                    if matches!(pending.responses[k], Some(Reaction::Ron)) {
                        proof {
                            assert(pending.responses@[k as int] == Some(Reaction::Ron));
                            assert(self.spec_phase()->Responses_0.responses@[k as int] == Some(Reaction::Ron));
                        }
                        return true;
                    }
                    k = k + 1;
                }
                false
            },
            _ => false,
        }
    }

    fn ron_winner_list(&self) -> (r: Vec<Seat>)
        requires
            self.wf(),
            self.spec_phase() is Responses,
        ensures
            r@.map_values(|seat: Seat| seat@ as int) == self.ron_winners(),
    {
        let count = self.rules.variant.seat_count().value();
        let ghost variant = self.rules.variant;
        let (discarder, responses) = match &self.phase {
            Phase::Responses(pending) => (pending.discarder, &pending.responses),
            _ => {
                proof {
                    assert(false);
                }
                return Vec::new();
            },
        };
        let mut winners: Vec<Seat> = Vec::new();
        let mut offset: u8 = 1;
        while offset < count
            invariant
                1 <= offset <= count,
                variant == self.rules.variant,
                count == seat_count_of(variant),
                discarder@ < count,
                responses@.len() == count,
                winners@.map_values(|seat: Seat| seat@ as int) == Self::ron_answers(
                    responses@,
                    variant,
                    discarder@ as int,
                    offset - 1,
                ),
            decreases count - offset,
        {
            let seat = seat_at_offset(self.rules.variant, discarder, offset);
            proof {
                lemma_offset_roundtrip(variant, discarder@ as int, offset as int);
            }
            let ghost before = winners@;
            if matches!(responses[seat.index() as usize], Some(Reaction::Ron)) {
                winners.push(seat);
                proof {
                    assert(responses@[seat@ as int] == Some(Reaction::Ron));
                }
            } else {
                proof {
                    assert(responses@[seat@ as int] != Some(Reaction::Ron));
                }
            }
            proof {
                assert(winners@.map_values(|seat: Seat| seat@ as int) =~= Self::ron_answers(
                    responses@,
                    variant,
                    discarder@ as int,
                    offset as int,
                ));
            }
            offset = offset + 1;
        }
        if self.rules.settlement.ron_resolution == RonResolution::HeadBump && winners.len() > 1 {
            let first = winners[0];
            let mut kept: Vec<Seat> = Vec::new();
            kept.push(first);
            proof {
                assert(kept@.map_values(|seat: Seat| seat@ as int) =~= winners@.map_values(|seat: Seat| seat@ as int).take(1));
            }
            return kept;
        }
        winners
    }

    fn finish_ron_window(&mut self) -> (r: HandTransition)
        requires
            old(self).wf(),
            old(self).has_ron(),
        ensures
            final(self).wf(),
            old(self).ron_resolved(*final(self), r.spec_events()),
    {
        let winners = self.ron_winner_list();
        let (discarder, discard_index) = match &self.phase {
            Phase::Responses(pending) => (pending.discarder, pending.discard_index),
            _ => {
                proof {
                    assert(false);
                }
                return HandTransition::empty();
            },
        };
        let d = discarder.index() as usize;
        let tile = self.players[d].discards()[discard_index].tile();
        let ghost before = self.players@;
        if self.players[d].riichi_status() == RiichiStatus::Pending {
            self.players[d].cancel_riichi();
        }
        self.phase = Phase::Ended(EndReason::Ron);
        let mut events: Vec<HandEvent> = Vec::new();
        events.push(
            HandEvent::RonDeclared { winners, from: discarder, tile, source: WinSource::Discard { from: discarder } },
        );
        proof {
            assert forall|j: int| 0 <= j < self.players@.len() && j != d implies #[trigger] self.players@[j] == before[j] by {}
            if before[d as int].spec_riichi() != RiichiStatus::Pending {
                assert(self.players@ =~= before);
            }
        }
        HandTransition::new(events)
    }

    fn settle_pending_riichi(&mut self) -> (r: HandTransition)
        requires
            old(self).wf(),
            old(self).spec_phase() is Responses,
        ensures
            final(self).wf(),
            old(self).riichi_settled(*final(self), r.spec_events()),
            final(self).spec_phase() is Responses,
            forall|k: int|
                0 <= k < final(self).seat_count() ==> #[trigger] final(self).spec_players()[k].spec_riichi()
                    != RiichiStatus::Pending,
    {
        let discarder = match &self.phase {
            Phase::Responses(pending) => pending.discarder,
            _ => return HandTransition::empty(),
        };
        let d = discarder.index() as usize;
        if self.players[d].riichi_status() != RiichiStatus::Pending {
            return HandTransition::empty();
        }
        let progress = match self.progress.deposit_riichi_stick() {
            Ok(progress) => progress,
            Err(_) => return HandTransition::empty(),
        };
        let ghost before = self.players@;
        self.progress = progress;
        let ippatsu = self.rules.bonuses.ippatsu;
        self.players[d].establish_riichi(ippatsu);
        let mut events: Vec<HandEvent> = Vec::new();
        events.push(
            HandEvent::RiichiEstablished {
                seat: discarder,
                points_after: self.players[d].points(),
                riichi_sticks: self.progress.riichi_sticks().value(),
            },
        );
        proof {
            assert forall|j: int| 0 <= j < self.players@.len() && j != d implies #[trigger] self.players@[j] == before[j] by {}
            assert(events@ =~= seq![
                HandEvent::RiichiEstablished {
                    seat: discarder,
                    points_after: self.players@[d as int].spec_points(),
                    riichi_sticks: self.progress.spec_riichi_sticks()@,
                },
            ]);
        }
        HandTransition::new(events)
    }

    /// Closes an answered discard window: a ron ends the hand; otherwise a riichi declared
    /// with the discard takes effect and the unclaimed discard is resolved (`tenpai` gives the
    /// judge's verdict per seat, used when the live wall is empty).
    pub fn resolve_discard_window(&mut self, tenpai: &[bool]) -> (r: HandTransition)
        requires
            old(self).wf(),
            old(self).window_complete(),
            tenpai@.len() == old(self).seat_count(),
        ensures
            final(self).wf(),
            old(self).window_resolved(*final(self), tenpai@, r.spec_events()),
    {
        if self.any_ron() {
            return self.finish_ron_window();
        }
        let ghost start = *self;
        let mut transition = self.settle_pending_riichi();
        let ghost mid = *self;
        let ghost settled = transition.spec_events();
        let rest = match self.claimant_seat() {
            Some(_) => self.apply_claim(),
            None => self.close_unclaimed_window(tenpai),
        };
        proof {
            assert(start.riichi_settled(mid, settled));
            assert(mid.claim_or_unclaimed(*self, tenpai@, rest.spec_events()));
        }
        transition.append(rest);
        transition
    }

    /// Closes a discard window in which nobody claimed the tile: an abortive draw when four
    /// winds or four riichi apply, an exhaustive draw when the live wall is empty (`tenpai`
    /// gives the judge's verdict per seat), otherwise the next seat draws.
    fn close_unclaimed_window(&mut self, tenpai: &[bool]) -> (r: HandTransition)
        requires
            old(self).wf(),
            old(self).spec_phase() is Responses,
            tenpai@.len() == old(self).seat_count(),
            forall|k: int|
                0 <= k < old(self).seat_count() ==> #[trigger] old(self).spec_players()[k].spec_riichi()
                    != RiichiStatus::Pending,
        ensures
            final(self).wf(),
            old(self).unclaimed_resolved(*final(self), tenpai@, r.spec_events()),
    {
        if self.is_four_winds() {
            return self.finish_abortive_draw(EndReason::FourWinds);
        }
        if self.is_four_riichi() {
            return self.finish_abortive_draw(EndReason::FourRiichi);
        }
        let count = self.rules.variant.seat_count().value();
        if self.wall.remaining_live_draws() == 0 {
            let seats = marked_seat_list(self.rules.variant, tenpai);
            self.phase = Phase::Ended(EndReason::ExhaustiveDraw);
            let mut events: Vec<HandEvent> = Vec::new();
            events.push(HandEvent::ExhaustiveDrawDeclared { reason: EndReason::ExhaustiveDraw, tenpai: seats });
            return HandTransition::new(events);
        }
        let discarder = match &self.phase {
            Phase::Responses(pending) => pending.discarder,
            _ => return HandTransition::empty(),
        };
        let next = seat_at_offset(self.rules.variant, discarder, 1);
        proof {
            lemma_offset_roundtrip(self.rules.variant, discarder@ as int, 1);
        }
        let tile = match self.wall.draw_live() {
            Some(tile) => tile,
            None => return HandTransition::empty(),
        };
        let s = next.index() as usize;
        let ghost before = self.players@;
        let cleared = self.players[s].draw(tile);
        self.phase = Phase::TurnAction { seat: next, draw_source: DrawSource::LiveWall };
        let mut events: Vec<HandEvent> = Vec::new();
        if cleared {
            events.push(
                HandEvent::FuritenChanged {
                    seat: next,
                    temporary: false,
                    riichi: self.players[s].is_riichi_furiten(),
                },
            );
        }
        events.push(
            HandEvent::TileDrawn {
                seat: next,
                tile,
                source: DrawSource::LiveWall,
                remaining_live_draws: self.wall.remaining_live_draws(),
            },
        );
        proof {
            assert forall|j: int| 0 <= j < count && j != s implies #[trigger] self.players@[j] == before[j] by {}
            let last = self.players@[s as int].spec_concealed().len() - 1;
            assert(self.players@[s as int].spec_concealed()[last].spec_id() == tile.spec_id());
            let expected = (if before[s as int].spec_temporary_furiten() {
                seq![HandEvent::FuritenChanged { seat: next, temporary: false, riichi: before[s as int].spec_riichi_furiten() }]
            } else {
                Seq::empty()
            }) + seq![
                HandEvent::TileDrawn {
                    seat: next,
                    tile,
                    source: DrawSource::LiveWall,
                    remaining_live_draws: (old(self).spec_wall().spec_remaining() - 1) as usize,
                },
            ];
            assert(events@ =~= expected);
        }
        HandTransition::new(events)
    }

    fn finish_abortive_draw(&mut self, reason: EndReason) -> (r: HandTransition)
        requires
            old(self).wf(),
            forall|k: int|
                0 <= k < old(self).seat_count() ==> #[trigger] old(self).spec_players()[k].spec_riichi()
                    != RiichiStatus::Pending,
        ensures
            final(self).wf(),
            final(self).spec_rules() == old(self).spec_rules(),
            final(self).spec_progress() == old(self).spec_progress(),
            final(self).spec_calls_occurred() == old(self).spec_calls_occurred(),
            final(self).spec_wall() == old(self).spec_wall(),
            final(self).spec_players() == old(self).spec_players(),
            final(self).spec_phase() == Phase::Ended(reason),
            r.spec_events() == seq![HandEvent::AbortiveDrawDeclared { reason, declarer: None }],
    {
        self.phase = Phase::Ended(reason);
        proof {
            assert forall|k: int| 0 <= k < self.players@.len() implies #[trigger] self.players@[k].spec_riichi()
                != RiichiStatus::Pending by {
                assert(old(self).spec_players()[k].spec_riichi() != RiichiStatus::Pending);
            }
        }
        let mut events: Vec<HandEvent> = Vec::new();
        events.push(HandEvent::AbortiveDrawDeclared { reason, declarer: None });
        proof {
            assert(events@ =~= seq![HandEvent::AbortiveDrawDeclared { reason, declarer: None }]);
        }
        HandTransition::new(events)
    }

    /// What follows a recorded pass: when it completed the window, the window closed on some
    /// tenpai verdicts and added its events; otherwise nothing more happened.
    pub open spec fn pass_followed(
        self,
        answered: RiichiHand,
        complete: bool,
        after: RiichiHand,
        recorded: Seq<HandEvent>,
        events: Seq<HandEvent>,
    ) -> bool {
        if complete {
            exists|tenpai: Seq<bool>, rest: Seq<HandEvent>|
                #[trigger] answered.window_resolved(after, tenpai, rest) && tenpai.len() == self.seat_count()
                    && events == recorded + rest
        } else {
            after == answered && events == recorded
        }
    }

    /// The answer kinds a list of reactions holds, with the tiles each picks, in order.
    pub open spec fn reactions_view(list: Seq<Reaction>) -> Seq<(ReactionKind, Seq<TileId>)> {
        list.map_values(|r: Reaction| match r {
            Reaction::Pass => (ReactionKind::Pass, Seq::<TileId>::empty()),
            Reaction::Ron => (ReactionKind::Ron, Seq::<TileId>::empty()),
            Reaction::Chi { hand_tiles } => (ReactionKind::Chi, hand_tiles@),
            Reaction::Pon { hand_tiles } => (ReactionKind::Pon, hand_tiles@),
            Reaction::OpenKan { hand_tiles } => (ReactionKind::OpenKan, hand_tiles@),
        })
    }

    /// `actor` may call the pending discard as `kind` (a chi or a pon) with the tiles `a` and
    /// `b` of its hand.
    pub open spec fn may_call(self, actor: Seat, kind: ReactionKind, a: TileId, b: TileId) -> bool {
        if kind == ReactionKind::Chi {
            self.claim_refusal(actor, Reaction::Chi { hand_tiles: [a, b] }) is None
        } else {
            self.claim_refusal(actor, Reaction::Pon { hand_tiles: [a, b] }) is None
        }
    }

    /// The calls of `kind` open to `actor` with pairs of its tiles `ids`: the first tile from
    /// among the first `l` and the second after it, in order.
    pub open spec fn calls_upto(self, actor: Seat, kind: ReactionKind, ids: Seq<TileId>, l: int) -> Seq<
        (ReactionKind, Seq<TileId>),
    >
        decreases l,
    {
        if l <= 0 {
            Seq::empty()
        } else {
            self.calls_upto(actor, kind, ids, l - 1) + self.calls_row(actor, kind, ids, l - 1, ids.len() as int)
        }
    }

    /// The calls of `kind` open to `actor` pairing its tile at `l` with one after it before
    /// `r`, in order.
    pub open spec fn calls_row(self, actor: Seat, kind: ReactionKind, ids: Seq<TileId>, l: int, r: int) -> Seq<
        (ReactionKind, Seq<TileId>),
    >
        decreases r - l,
    {
        if r <= l + 1 {
            Seq::empty()
        } else {
            let prev = self.calls_row(actor, kind, ids, l, r - 1);
            if self.may_call(actor, kind, ids[l], ids[r - 1]) {
                prev.push((kind, seq![ids[l], ids[r - 1]]))
            } else {
                prev
            }
        }
    }

    /// `actor` may call the pending discard as an open kan with the tiles `a`, `b` and `c` of its
    /// hand.
    pub open spec fn may_kan(self, actor: Seat, a: TileId, b: TileId, c: TileId) -> bool {
        self.claim_refusal(actor, Reaction::OpenKan { hand_tiles: [a, b, c] }) is None
    }

    /// The open kans open to `actor` with triples of its tiles `ids` whose first tile is among
    /// the first `l`, in order.
    pub open spec fn kans_upto(self, actor: Seat, ids: Seq<TileId>, l: int) -> Seq<(ReactionKind, Seq<TileId>)>
        decreases l,
    {
        if l <= 0 {
            Seq::empty()
        } else {
            self.kans_upto(actor, ids, l - 1) + self.kans_from(actor, ids, l - 1, ids.len() as int)
        }
    }

    /// The open kans open to `actor` whose first tile is at `a` and whose second is after it and
    /// before `m`, in order.
    pub open spec fn kans_from(self, actor: Seat, ids: Seq<TileId>, a: int, m: int) -> Seq<(ReactionKind, Seq<TileId>)>
        decreases m - a,
    {
        if m <= a + 1 {
            Seq::empty()
        } else {
            self.kans_from(actor, ids, a, m - 1) + self.kans_row(actor, ids, a, m - 1, ids.len() as int)
        }
    }

    /// The open kans open to `actor` with its tiles at `a` and `b` and a third after `b` and
    /// before `r`, in order.
    pub open spec fn kans_row(self, actor: Seat, ids: Seq<TileId>, a: int, b: int, r: int) -> Seq<(ReactionKind, Seq<TileId>)>
        decreases r - b,
    {
        if r <= b + 1 {
            Seq::empty()
        } else {
            let prev = self.kans_row(actor, ids, a, b, r - 1);
            if self.may_kan(actor, ids[a], ids[b], ids[r - 1]) {
                prev.push((ReactionKind::OpenKan, seq![ids[a], ids[b], ids[r - 1]]))
            } else {
                prev
            }
        }
    }

    /// The answers open to `actor` on the pending discard, the judge having said `allows` of
    /// a win: ron, then every pon, then every open kan, then (for the next seat in four-player
    /// mahjong) every chi, each with the held tiles it picks in hand order.
    pub open spec fn answers_open(self, actor: Seat, allows: bool) -> Seq<(ReactionKind, Seq<TileId>)> {
        let ids = self.spec_players()[actor@ as int].spec_concealed().map_values(|t: Tile| t.spec_id());
        let pending = self.spec_phase()->Responses_0;
        let ron = if allows {
            seq![(ReactionKind::Ron, Seq::<TileId>::empty())]
        } else {
            Seq::empty()
        };
        let chis = if self.spec_rules().variant == RiichiVariant::Yonma && actor@ == seat_after(
            self.spec_rules().variant,
            pending.discarder@ as int,
            1,
        ) {
            self.calls_upto(actor, ReactionKind::Chi, ids, ids.len() as int)
        } else {
            Seq::empty()
        };
        ron + self.calls_upto(actor, ReactionKind::Pon, ids, ids.len() as int) + self.kans_upto(actor, ids, ids.len() as int)
            + chis
    }

    /// The pairs of `ids` open to `actor` as calls of `kind`, in order.
    fn push_calls<J: HandJudge>(&self, actor: Seat, kind: ReactionKind, ids: &Vec<TileId>, options: &mut Vec<Reaction>)
        requires
            self.wf(),
            self.pass_refusal(actor) is None,
            kind == ReactionKind::Chi || kind == ReactionKind::Pon,
        ensures
            Self::reactions_view(final(options)@) == Self::reactions_view(old(options)@) + self.calls_upto(
                actor,
                kind,
                ids@,
                ids@.len() as int,
            ),
    {
        let ghost base = Self::reactions_view(options@);
        let mut l: usize = 0;
        while l < ids.len()
            invariant
                l <= ids@.len(),
                self.wf(),
                self.pass_refusal(actor) is None,
                kind == ReactionKind::Chi || kind == ReactionKind::Pon,
                Self::reactions_view(options@) == base + self.calls_upto(actor, kind, ids@, l as int),
            decreases ids@.len() - l,
        {
            let mut r: usize = l + 1;
            while r < ids.len()
                invariant
                    l < ids@.len(),
                    l + 1 <= r <= ids@.len(),
                    self.wf(),
                    self.pass_refusal(actor) is None,
                    kind == ReactionKind::Chi || kind == ReactionKind::Pon,
                    Self::reactions_view(options@) == base + self.calls_upto(actor, kind, ids@, l as int)
                        + self.calls_row(actor, kind, ids@, l as int, r as int),
                decreases ids@.len() - r,
            {
                let reaction = if kind == ReactionKind::Chi {
                    Reaction::Chi { hand_tiles: [ids[l], ids[r]] }
                } else {
                    Reaction::Pon { hand_tiles: [ids[l], ids[r]] }
                };
                let ghost before = options@;
                if self.check_claim(actor, &reaction).is_ok() {
                    options.push(reaction);
                    proof {
                        assert(reaction matches Reaction::Chi { hand_tiles } ==> hand_tiles@ =~= seq![ids@[l as int], ids@[r as int]]);
                        assert(reaction matches Reaction::Pon { hand_tiles } ==> hand_tiles@ =~= seq![ids@[l as int], ids@[r as int]]);
                        assert(Self::reactions_view(options@) =~= Self::reactions_view(before).push(
                            (kind, seq![ids@[l as int], ids@[r as int]]),
                        ));
                    }
                }
                r = r + 1;
            }
            l = l + 1;
        }
    }

    /// The triples of `ids` open to `actor` as open kans, in order.
    fn push_kans(&self, actor: Seat, ids: &Vec<TileId>, options: &mut Vec<Reaction>)
        requires
            self.wf(),
            self.pass_refusal(actor) is None,
        ensures
            Self::reactions_view(final(options)@) == Self::reactions_view(old(options)@) + self.kans_upto(
                actor,
                ids@,
                ids@.len() as int,
            ),
    {
        let ghost base = Self::reactions_view(options@);
        let mut a: usize = 0;
        while a < ids.len()
            invariant
                a <= ids@.len(),
                self.wf(),
                self.pass_refusal(actor) is None,
                Self::reactions_view(options@) == base + self.kans_upto(actor, ids@, a as int),
            decreases ids@.len() - a,
        {
            let mut b: usize = a + 1;
            while b < ids.len()
                invariant
                    a < ids@.len(),
                    a + 1 <= b <= ids@.len(),
                    self.wf(),
                    self.pass_refusal(actor) is None,
                    Self::reactions_view(options@) == base + self.kans_upto(actor, ids@, a as int) + self.kans_from(
                        actor,
                        ids@,
                        a as int,
                        b as int,
                    ),
                decreases ids@.len() - b,
            {
                let mut c: usize = b + 1;
                while c < ids.len()
                    invariant
                        a < b < ids@.len(),
                        b + 1 <= c <= ids@.len(),
                        self.wf(),
                        self.pass_refusal(actor) is None,
                        Self::reactions_view(options@) == base + self.kans_upto(actor, ids@, a as int) + self.kans_from(
                            actor,
                            ids@,
                            a as int,
                            b as int,
                        ) + self.kans_row(actor, ids@, a as int, b as int, c as int),
                    decreases ids@.len() - c,
                {
                    let reaction = Reaction::OpenKan { hand_tiles: [ids[a], ids[b], ids[c]] };
                    let ghost before = options@;
                    if self.check_claim(actor, &reaction).is_ok() {
                        options.push(reaction);
                        proof {
                            assert(Self::reactions_view(options@) =~= Self::reactions_view(before).push(
                                (ReactionKind::OpenKan, seq![ids@[a as int], ids@[b as int], ids@[c as int]]),
                            )) by {
                                assert(reaction->OpenKan_hand_tiles@ =~= seq![ids@[a as int], ids@[b as int], ids@[c as int]]);
                            }
                        }
                    }
                    c = c + 1;
                }
                b = b + 1;
            }
            a = a + 1;
        }
    }

    /// What `actor` may answer now: nothing outside a discard window, for the discarder or
    /// for a seat that has answered; otherwise ron when the judge allows it, then its pons, its
    /// open kans and (for the next seat in four-player mahjong) its chis.
    pub fn available_reactions<J: HandJudge>(&self, actor: Seat, judge: &J) -> (r: Result<Vec<Reaction>, HandError>)
        requires
            self.wf(),
        ensures
            self.seat_refusal(actor) matches Some(e) ==> r == Err::<Vec<Reaction>, HandError>(e),
            self.seat_refusal(actor) is None && self.pass_refusal(actor) is Some ==> (r matches Ok(list) && list@.len()
                == 0),
            self.pass_refusal(actor) is None ==> (r matches Ok(list) && exists|allows: bool|
                (allows ==> !self.spec_players()[actor@ as int].spec_temporary_furiten()
                    && !self.spec_players()[actor@ as int].spec_riichi_furiten()) && Self::reactions_view(list@)
                    == #[trigger] self.answers_open(actor, allows)),
    {
        match self.validate_seat(actor) {
            Ok(()) => {},
            Err(e) => {
                return Err(e);
            },
        }
        let discarder = match &self.phase {
            Phase::Responses(pending) => {
                if actor == pending.discarder || pending.responses[actor.index() as usize].is_some() {
                    return Ok(Vec::new());
                }
                pending.discarder
            },
            _ => {
                return Ok(Vec::new());
            },
        };
        let allows = self.ron_allowed_by(actor, judge);
        let mut options: Vec<Reaction> = Vec::new();
        if allows {
            options.push(Reaction::Ron);
        }
        proof {
            assert(Self::reactions_view(options@) =~= (if allows {
                seq![(ReactionKind::Ron, Seq::<TileId>::empty())]
            } else {
                Seq::empty()
            }));
        }
        let concealed = self.players[actor.index() as usize].concealed();
        let mut ids: Vec<TileId> = Vec::new();
        let mut i: usize = 0;
        while i < concealed.len()
            invariant
                i <= concealed@.len(),
                ids@ == concealed@.take(i as int).map_values(|t: Tile| t.spec_id()),
            decreases concealed@.len() - i,
        {
            ids.push(concealed[i].id());
            i = i + 1;
            proof {
                assert(ids@ =~= concealed@.take(i as int).map_values(|t: Tile| t.spec_id()));
            }
        }
        proof {
            assert(concealed@.take(i as int) =~= concealed@);
        }
        self.push_calls::<J>(actor, ReactionKind::Pon, &ids, &mut options);
        self.push_kans(actor, &ids, &mut options);
        let next = seat_at_offset(self.rules.variant, discarder, 1);
        proof {
            Seat::lemma_view_injective(actor, next);
        }
        let ghost with_pons = Self::reactions_view(options@);
        if self.rules.variant == RiichiVariant::Yonma && actor == next {
            self.push_calls::<J>(actor, ReactionKind::Chi, &ids, &mut options);
        }
        proof {
            let chis = if self.spec_rules().variant == RiichiVariant::Yonma && actor@ == seat_after(
                self.spec_rules().variant,
                discarder@ as int,
                1,
            ) {
                self.calls_upto(actor, ReactionKind::Chi, ids@, ids@.len() as int)
            } else {
                Seq::empty()
            };
            assert(Self::reactions_view(options@) =~= with_pons + chis);
            assert(Self::reactions_view(options@) =~= self.answers_open(actor, allows));
        }
        Ok(options)
    }

    /// How strongly an answer claims the tile: ron over pon and open kan over chi over pass.
    pub open spec fn answer_priority(kind: ReactionKind) -> int {
        match kind {
            ReactionKind::Ron => 3,
            ReactionKind::Pon => 2,
            ReactionKind::OpenKan => 2,
            ReactionKind::Chi => 1,
            ReactionKind::Pass => 0,
        }
    }

    /// The strongest answer among the first `k` on record (0 with none but passes).
    pub open spec fn best_answer(responses: Seq<Option<Reaction>>, k: int) -> int
        decreases k,
    {
        if k <= 0 {
            0
        } else {
            let prev = Self::best_answer(responses, k - 1);
            let here = match responses[k - 1] {
                Some(r) => Self::answer_priority(Self::reaction_kind_of(r)),
                None => 0,
            };
            if here > prev {
                here
            } else {
                prev
            }
        }
    }

    /// The answers on record once every seat that has not answered and has nothing open
    /// passes.
    pub open spec fn auto_passed(responses: Seq<Option<Reaction>>, open: Seq<Seq<(ReactionKind, Seq<TileId>)>>) -> Seq<
        Option<Reaction>,
    > {
        Seq::new(
            responses.len(),
            |k: int|
                if responses[k] is None && open[k].len() == 0 {
                    Some(Reaction::Pass)
                } else {
                    responses[k]
                },
        )
    }

    /// Some answer among `options` is at least as strong as `best`.
    pub open spec fn strong_in(options: Seq<(ReactionKind, Seq<TileId>)>, best: int) -> bool {
        exists|y: int| 0 <= y < options.len() && Self::answer_priority(#[trigger] options[y].0) >= best
    }

    /// The window can be closed before everyone answered: some answer on record beats
    /// passing, some seat has not answered, and nothing open to a seat that has not
    /// answered is as strong.
    pub open spec fn closes_early(responses: Seq<Option<Reaction>>, open: Seq<Seq<(ReactionKind, Seq<TileId>)>>) -> bool {
        let best = Self::best_answer(responses, responses.len() as int);
        &&& exists|k: int| 0 <= k < responses.len() && #[trigger] responses[k] is None
        &&& best > 0
        &&& forall|k: int, j: int|
            0 <= k < responses.len() && responses[k] is None && 0 <= j < open[k].len() ==> Self::answer_priority(
                #[trigger] open[k][j].0,
            ) < best
    }

    /// `after` is this hand once the automatic answers were given, with `open` what each seat
    /// may answer: seats with nothing open pass; once every seat has answered, or the window
    /// closes early (the others then pass too), the window is resolved, producing `events`.
    pub open spec fn auto_answered(
        self,
        after: RiichiHand,
        events: Seq<HandEvent>,
        open: Seq<Seq<(ReactionKind, Seq<TileId>)>>,
    ) -> bool {
        let pending = self.spec_phase()->Responses_0;
        let marked = Self::auto_passed(pending.responses@, open);
        let complete = forall|k: int| 0 <= k < marked.len() ==> (#[trigger] marked[k]) is Some;
        let early = Self::closes_early(pending.responses@, open);
        let given = if complete || !early {
            marked
        } else {
            Seq::new(marked.len(), |k: int| if marked[k] is None { Some(Reaction::Pass) } else { marked[k] })
        };
        exists|answered: RiichiHand|
            #![trigger answered.spec_phase()]
            {
                &&& answered.spec_phase() matches Phase::Responses(q)
                &&& q.discarder == pending.discarder
                &&& q.discard_index == pending.discard_index
                &&& q.responses@ == given
                &&& answered.spec_rules() == self.spec_rules()
                &&& answered.spec_progress() == self.spec_progress()
                &&& answered.spec_wall() == self.spec_wall()
                &&& answered.spec_players() == self.spec_players()
                &&& answered.spec_calls_occurred() == self.spec_calls_occurred()
                &&& if complete || early {
                    exists|tenpai: Seq<bool>|
                        #[trigger] answered.window_resolved(after, tenpai, events) && tenpai.len() == self.seat_count()
                } else {
                    after == answered && events.len() == 0
                }
            }
    }

    /// `open` lists, for every seat that has not answered the pending discard, what it may
    /// answer, the judge having allowed a win only to a seat that is not furiten.
    pub open spec fn open_fits(self, open: Seq<Seq<(ReactionKind, Seq<TileId>)>>) -> bool {
        &&& open.len() == self.seat_count()
        &&& forall|k: int|
            0 <= k < open.len() && self.spec_phase()->Responses_0.responses@[k] is None ==> #[trigger] self.seat_answers(
                k,
                open[k],
            )
    }

    /// `options` is what seat `k` may answer on the pending discard, the judge having allowed
    /// a win only if that seat is not furiten.
    pub open spec fn seat_answers(self, k: int, options: Seq<(ReactionKind, Seq<TileId>)>) -> bool {
        exists|seat: Seat, allows: bool|
            seat@ == k && (allows ==> !self.spec_players()[k].spec_temporary_furiten()
                && !self.spec_players()[k].spec_riichi_furiten()) && options == #[trigger] self.answers_open(
                seat,
                allows,
            )
    }

    /// Gives the answers that need no player: every seat with nothing open to it passes; once
    /// every seat has answered, or no answer still possible could beat the strongest one on
    /// record (the others then pass), the window is resolved. Outside a discard window
    /// nothing happens.
    pub fn advance_automatic_reactions<J: HandJudge>(&mut self, judge: &J) -> (r: Result<HandTransition, HandError>)
        requires
            old(self).wf(),
        ensures
            final(self).wf(),
            !(old(self).spec_phase() is Responses) ==> (r matches Ok(t) && t.spec_events().len() == 0) && *final(self)
                == *old(self),
            old(self).spec_phase() is Responses ==> (r matches Ok(t) && exists|open: Seq<Seq<(ReactionKind, Seq<TileId>)>>|
                #[trigger] old(self).open_fits(open) && old(self).auto_answered(*final(self), t.spec_events(), open)),
    {
        let is_window = match &self.phase {
            Phase::Responses(_) => true,
            _ => false,
        };
        if !is_window {
            return Ok(HandTransition::empty());
        }
        let ghost start = *self;
        let ghost responses0 = start.spec_phase()->Responses_0.responses@;
        let count = self.rules.variant.seat_count().value();
        let mut lists: Vec<Vec<Reaction>> = Vec::new();
        let mut k: u8 = 0;
        while k < count
            invariant
                k <= count,
                count == seat_count_of(self.rules.variant),
                *self == start,
                self.wf(),
                self.spec_phase() is Responses,
                responses0 == self.spec_phase()->Responses_0.responses@,
                responses0.len() == count,
                lists@.len() == k,
                forall|j: int| 0 <= j < k && responses0[j] is Some ==> (#[trigger] lists@[j])@.len() == 0,
                forall|j: int|
                    0 <= j < k && responses0[j] is None ==> start.seat_answers(j, Self::reactions_view(#[trigger] lists@[j]@)),
            decreases count - k,
        {
            let unanswered = match &self.phase {
                Phase::Responses(pending) => pending.responses[k as usize].is_none(),
                _ => false,
            };
            if unanswered {
                let seat = match Seat::new(self.rules.variant, k) {
                    Ok(seat) => seat,
                    Err(_) => {
                        proof {
                            assert(false);
                        }
                        return Ok(HandTransition::empty());
                    },
                };
                proof {
                    assert(self.pass_refusal(seat) is None);
                }
                let list = match self.available_reactions(seat, judge) {
                    Ok(list) => list,
                    Err(error) => {
                        proof {
                            assert(false);
                        }
                        return Err(error);
                    },
                };
                let ghost before = lists@;
                let ghost allows = choose|allows: bool|
                    (allows ==> !self.spec_players()[seat@ as int].spec_temporary_furiten()
                        && !self.spec_players()[seat@ as int].spec_riichi_furiten()) && Self::reactions_view(list@)
                        == #[trigger] self.answers_open(seat, allows);
                proof {
                    assert((allows ==> !self.spec_players()[seat@ as int].spec_temporary_furiten()
                        && !self.spec_players()[seat@ as int].spec_riichi_furiten()) && Self::reactions_view(list@)
                        == self.answers_open(seat, allows));
                }
                lists.push(list);
                proof {
                    assert(lists@[k as int] == list);
                    assert(Self::reactions_view(lists@[k as int]@) == start.answers_open(seat, allows));
                    assert(start.seat_answers(k as int, Self::reactions_view(lists@[k as int]@)));
                    assert forall|j: int| 0 <= j < k ==> lists@[j] == before[j] by {}
                }
            } else {
                let ghost before = lists@;
                lists.push(Vec::new());
                proof {
                    assert forall|j: int| 0 <= j < k ==> lists@[j] == before[j] by {}
                }
            }
            k = k + 1;
        }
        let ghost open = Seq::new(count as nat, |j: int| Self::reactions_view(lists@[j]@));
        proof {
            assert forall|j: int| 0 <= j < open.len() && responses0[j] is None implies #[trigger] start.seat_answers(
                j,
                open[j],
            ) by {
                assert(open[j] == Self::reactions_view(lists@[j]@));
            }
            assert(start.open_fits(open));
        }
        // The strongest answer on record, and whether some seat has not answered.
        let mut best: u8 = 0;
        let mut unanswered_left = false;
        let mut i: usize = 0;
        while i < count as usize
            invariant
                i <= count,
                count == seat_count_of(self.rules.variant),
                *self == start,
                self.spec_phase() is Responses,
                responses0 == self.spec_phase()->Responses_0.responses@,
                responses0.len() == count,
                best == Self::best_answer(responses0, i as int),
                best <= 3,
                start.open_fits(open),
                unanswered_left == exists|j: int| 0 <= j < i && #[trigger] responses0[j] is None,
            decreases count - i,
        {
            let (here, none) = match &self.phase {
                Phase::Responses(pending) => match &pending.responses[i] {
                    Some(reaction) => (Self::priority_of(reaction), false),
                    None => (0u8, true),
                },
                _ => (0u8, false),
            };
            if here > best {
                best = here;
            }
            unanswered_left = unanswered_left || none;
            i = i + 1;
        }
        // Whether something open to a seat that has not answered is as strong.
        let mut contested = false;
        let mut a: usize = 0;
        while a < lists.len()
            invariant
                a <= lists@.len(),
                lists@.len() == count,
                responses0.len() == count,
                start.open_fits(open),
                open.len() == count,
                forall|j: int| 0 <= j < count ==> #[trigger] open[j] == Self::reactions_view(lists@[j]@),
                forall|j: int| 0 <= j < count && responses0[j] is Some ==> (#[trigger] lists@[j])@.len() == 0,
                contested == exists|x: int|
                    0 <= x < a && responses0[x] is None && #[trigger] Self::strong_in(open[x], best as int),
            decreases lists@.len() - a,
        {
            let list = &lists[a];
            let mut b: usize = 0;
            let ghost was = contested;
            while b < list.len()
                invariant
                    a < lists@.len(),
                    list == lists@[a as int],
                    b <= list@.len(),
                    lists@.len() == count,
                    open.len() == count,
                    open[a as int] == Self::reactions_view(list@),
                    contested == (was || exists|y: int|
                        0 <= y < b && Self::answer_priority(#[trigger] open[a as int][y].0) >= best),
                decreases list@.len() - b,
            {
                let strong = Self::priority_of(&list[b]) >= best;
                if strong {
                    contested = true;
                }
                proof {
                    assert(open[a as int][b as int].0 == Self::reaction_kind_of(list@[b as int]));
                    if strong {
                        assert(Self::answer_priority(open[a as int][b as int].0) >= best);
                    }
                    if exists|y: int| 0 <= y < b + 1 && Self::answer_priority(#[trigger] open[a as int][y].0) >= best {
                        let y = choose|y: int| 0 <= y < b + 1 && Self::answer_priority(#[trigger] open[a as int][y].0) >= best;
                        if y < b {
                        } else {
                            assert(strong);
                        }
                    }
                }
                b = b + 1;
            }
            proof {
                assert(open[a as int] == Self::reactions_view(lists@[a as int]@));
                assert(open[a as int].len() == list@.len());
                let inner = Self::strong_in(open[a as int], best as int);
                assert(inner == exists|y: int|
                    0 <= y < list@.len() && Self::answer_priority(#[trigger] open[a as int][y].0) >= best);
                if inner {
                    assert(list@.len() > 0);
                    assert(responses0[a as int] is None);
                }
                let lhs = exists|x: int|
                    0 <= x < a + 1 && responses0[x] is None && #[trigger] Self::strong_in(open[x], best as int);
                if lhs {
                    let x = choose|x: int|
                        0 <= x < a + 1 && responses0[x] is None && #[trigger] Self::strong_in(open[x], best as int);
                    if x < a {
                        assert(was);
                    } else {
                        assert(inner);
                    }
                }
                if was {
                    let x = choose|x: int|
                        0 <= x < a && responses0[x] is None && #[trigger] Self::strong_in(open[x], best as int);
                    assert(lhs);
                }
                if inner {
                    assert(lhs);
                }
            }
            a = a + 1;
        }
        proof {
            if !contested {
                assert forall|x: int, y: int|
                    0 <= x < responses0.len() && responses0[x] is None && 0 <= y < open[x].len() implies Self::answer_priority(
                    #[trigger] open[x][y].0,
                ) < best by {
                    if Self::answer_priority(open[x][y].0) >= best {
                        assert(Self::strong_in(open[x], best as int));
                    }
                }
            } else {
                let x = choose|x: int|
                    0 <= x < count && responses0[x] is None && #[trigger] Self::strong_in(open[x], best as int);
                let y = choose|y: int| 0 <= y < open[x].len() && Self::answer_priority(#[trigger] open[x][y].0) >= best;
                assert(!(Self::answer_priority(open[x][y].0) < best));
            }
        }
        let early = unanswered_left && best > 0 && !contested;
        // Seats with nothing open pass.
        let mut m: usize = 0;
        while m < count as usize
            invariant
                m <= count,
                count == seat_count_of(self.rules.variant),
                self.wf(),
                responses0.len() == count,
                start.open_fits(open),
                lists@.len() == count,
                open.len() == count,
                forall|j: int| 0 <= j < count ==> #[trigger] open[j] == Self::reactions_view(lists@[j]@),
                self.spec_phase() matches Phase::Responses(q) && q.discarder == start.spec_phase()->Responses_0.discarder
                    && q.discard_index == start.spec_phase()->Responses_0.discard_index && q.responses@.len() == count
                    && (forall|j: int| 0 <= j < m ==> #[trigger] q.responses@[j] == Self::auto_passed(responses0, open)[j])
                    && (forall|j: int| m <= j < count ==> #[trigger] q.responses@[j] == responses0[j]),
                *self == (RiichiHand { phase: self.phase, ..start }),
            decreases count - m,
        {
            let ghost before = self.spec_phase()->Responses_0.responses@;
            proof {
                assert(open[m as int].len() == lists@[m as int]@.len());
                assert(Self::auto_passed(responses0, open)[m as int] == (if responses0[m as int] is None && open[m as int].len() == 0 {
                    Some(Reaction::Pass)
                } else {
                    responses0[m as int]
                }));
            }
            if lists[m].len() == 0 {
                match &mut self.phase {
                    Phase::Responses(pending) => {
                        if pending.responses[m].is_none() {
                            pending.responses.set(m, Some(Reaction::Pass));
                        }
                    },
                    _ => {},
                }
            }
            proof {
                let q = self.spec_phase()->Responses_0;
                assert forall|j: int| 0 <= j < count && j != m implies q.responses@[j] == before[j] by {}
            }
            m = m + 1;
        }
        let complete = match &self.phase {
            Phase::Responses(pending) => all_answered(&pending.responses),
            _ => false,
        };
        proof {
            let q = self.spec_phase()->Responses_0;
            assert(q.responses@ =~= Self::auto_passed(responses0, open));
        }
        if !complete && !early {
            proof {
                assert(Self::closes_early(responses0, open) == early);
                assert(start.auto_answered(*self, Seq::<HandEvent>::empty(), open));
            }
            let none = HandTransition::empty();
            proof {
                assert(none.spec_events() =~= Seq::<HandEvent>::empty());
                assert(start.open_fits(open));
                assert(start == *old(self));
                assert(start.auto_answered(*self, none.spec_events(), open));
            }
            return Ok(none);
        }
        if !complete {
            let mut z: usize = 0;
            while z < count as usize
                invariant
                    z <= count,
                    count == seat_count_of(self.rules.variant),
                    self.wf(),
                    responses0.len() == count,
                    start.open_fits(open),
                    self.spec_phase() matches Phase::Responses(q) && q.discarder == start.spec_phase()->Responses_0.discarder
                        && q.discard_index == start.spec_phase()->Responses_0.discard_index && q.responses@.len() == count
                        && (forall|j: int| 0 <= j < z ==> #[trigger] q.responses@[j] == (if Self::auto_passed(responses0, open)[j] is None {
                            Some(Reaction::Pass)
                        } else {
                            Self::auto_passed(responses0, open)[j]
                        })) && (forall|j: int| z <= j < count ==> #[trigger] q.responses@[j] == Self::auto_passed(responses0, open)[j]),
                    *self == (RiichiHand { phase: self.phase, ..start }),
                decreases count - z,
            {
                match &mut self.phase {
                    Phase::Responses(pending) => {
                        if pending.responses[z].is_none() {
                            pending.responses.set(z, Some(Reaction::Pass));
                        }
                    },
                    _ => {},
                }
                z = z + 1;
            }
        }
        let ghost answered = *self;
        proof {
            let marked = Self::auto_passed(responses0, open);
            let q = answered.spec_phase()->Responses_0;
            assert(Self::closes_early(responses0, open) == early);
            if complete {
                assert(q.responses@ =~= marked);
            } else {
                assert(q.responses@ =~= Seq::new(
                    marked.len(),
                    |k: int|
                        if marked[k] is None {
                            Some(Reaction::Pass)
                        } else {
                            marked[k]
                        },
                ));
            }
        }
        let tenpai = self.tenpai_verdicts(judge);
        let resolution = self.resolve_discard_window(&tenpai);
        proof {
            assert(answered.window_resolved(*self, tenpai@, resolution.spec_events()));
            assert(Self::closes_early(responses0, open) == early);
            assert(start.auto_answered(*self, resolution.spec_events(), open));
            assert(start.open_fits(open));
            assert(start == *old(self));
        }
        Ok(resolution)
    }

    /// How strongly an answer claims the tile.
    fn priority_of(reaction: &Reaction) -> (r: u8)
        ensures
            r == Self::answer_priority(Self::reaction_kind_of(*reaction)),
    {
        match reaction {
            Reaction::Ron => 3,
            Reaction::Pon { .. } => 2,
            Reaction::OpenKan { .. } => 2,
            Reaction::Chi { .. } => 1,
            Reaction::Pass => 0,
        }
    }

    /// Whether the judge lets `actor` win on the pending discard; a furiten player is not asked.
    fn ron_allowed_by<J: HandJudge>(&self, actor: Seat, judge: &J) -> (r: bool)
        requires
            self.wf(),
            actor@ < self.seat_count(),
        ensures
            r ==> self.spec_phase() is Responses,
            r ==> !self.spec_players()[actor@ as int].spec_temporary_furiten(),
            r ==> !self.spec_players()[actor@ as int].spec_riichi_furiten(),
    {
        let player = &self.players[actor.index() as usize];
        if player.is_temporary_furiten() || player.is_riichi_furiten() {
            return false;
        }
        match &self.phase {
            Phase::Responses(pending) => {
                let discarder = &self.players[pending.discarder.index() as usize];
                let tile = discarder.discards()[pending.discard_index].tile();
                let query = WinQuery::new(
                    &self.rules,
                    self.progress,
                    actor,
                    player,
                    tile,
                    WinSource::Discard { from: pending.discarder },
                    &self.wall,
                    self.calls_occurred,
                );
                judge.can_win(query)
            },
            _ => false,
        }
    }

    /// `q` is the query a ron by `actor` on the pending discard is judged on.
    pub open spec fn is_ron_query(self, actor: Seat, q: WinQuery) -> bool {
        &&& q.spec_rules() == self.spec_rules()
        &&& q.spec_progress() == self.spec_progress()
        &&& q.spec_seat() == actor
        &&& q.spec_player() == self.spec_players()[actor@ as int]
        &&& q.spec_winning_tile() == self.pending_tile()
        &&& q.spec_source() == (WinSource::Discard { from: self.spec_phase()->Responses_0.discarder })
        &&& q.spec_wall() == self.spec_wall()
        &&& q.spec_calls_occurred() == self.spec_calls_occurred()
    }

    /// The scorer's evaluation of a ron by `actor` on the pending discard: refused outside a
    /// discard window, when the player is furiten, or when the scorer finds no win.
    pub fn evaluate_pending_ron(&self, actor: Seat) -> (r: Result<WinEvaluation, HandError>)
        requires
            self.wf(),
        ensures
            self.seat_refusal(actor) matches Some(e) ==> r == Err::<WinEvaluation, HandError>(e),
            self.seat_refusal(actor) is None && !(self.spec_phase() is Responses) ==> r == Err::<WinEvaluation, HandError>(
                HandError::WinNotAllowed,
            ),
            self.seat_refusal(actor) is None && self.spec_phase() is Responses ==> exists|q: WinQuery|
                #[trigger] self.is_ron_query(actor, q) && {
                    let player = self.spec_players()[actor@ as int];
                    let allowed = !player.spec_temporary_furiten() && !player.spec_riichi_furiten() && scorable(q)
                        && !no_scoring_reading(q) && kan_robbery_allowed(q) && !furiten(player);
                    &&& (r is Ok) == allowed
                    &&& !allowed ==> r == Err::<WinEvaluation, HandError>(HandError::WinNotAllowed)
                    &&& r matches Ok(e) ==> is_best_evaluation(e, q)
                },
    {
        match self.validate_seat(actor) {
            Ok(()) => {},
            Err(error) => return Err(error),
        }
        let pending = match &self.phase {
            Phase::Responses(pending) => pending,
            _ => return Err(HandError::WinNotAllowed),
        };
        let player = &self.players[actor.index() as usize];
        let tile = self.players[pending.discarder.index() as usize].discards()[pending.discard_index].tile();
        let query = WinQuery::new(
            &self.rules,
            self.progress,
            actor,
            player,
            tile,
            WinSource::Discard { from: pending.discarder },
            &self.wall,
            self.calls_occurred,
        );
        proof {
            assert(self.is_ron_query(actor, query));
        }
        if player.is_temporary_furiten() || player.is_riichi_furiten() {
            return Err(HandError::WinNotAllowed);
        }
        if !RiichiScorer.can_win(query) {
            return Err(HandError::WinNotAllowed);
        }
        match RiichiScorer.evaluate(query) {
            Some(evaluation) => Ok(evaluation),
            None => Err(HandError::WinNotAllowed),
        }
    }

    /// `q` asks whether `seat` could win on a stand-in tile of `kind` (identity `60000 + index`,
    /// not red) discarded by the next seat.
    pub open spec fn is_hint_query(self, seat: Seat, kind: TileKind, index: int, q: WinQuery) -> bool {
        &&& q.spec_rules() == self.spec_rules()
        &&& q.spec_progress() == self.spec_progress()
        &&& q.spec_seat() == seat
        &&& q.spec_player() == self.spec_players()[seat@ as int]
        &&& q.spec_winning_tile().spec_id()@ == 60000 + index
        &&& q.spec_winning_tile().spec_kind() == kind
        &&& !q.spec_winning_tile().spec_red()
        &&& q.spec_source() matches WinSource::Discard { from }
        &&& from@ == seat_after(self.spec_rules().variant, seat@ as int, 1)
        &&& q.spec_wall() == self.spec_wall()
        &&& q.spec_calls_occurred() == self.spec_calls_occurred()
    }

    /// `scores` tells whether a win by `seat` on the stand-in tile of `kind` at `index` would
    /// score.
    pub open spec fn hint_holds(self, seat: Seat, kind: TileKind, index: int, scores: bool) -> bool {
        exists|q: WinQuery| #[trigger] self.is_hint_query(seat, kind, index, q) && scores == (scorable(q) && !no_scoring_reading(q))
    }

    /// The kinds `seat` waits on, in kind order, each with whether a win on it, discarded by
    /// the next seat, would score.
    pub fn waiting_tile_hints(&self, seat: Seat) -> (r: Result<Vec<(TileKind, bool)>, HandError>)
        requires
            self.wf(),
        ensures
            self.seat_refusal(seat) matches Some(e) ==> r == Err::<Vec<(TileKind, bool)>, HandError>(e),
            self.seat_refusal(seat) is None ==> (r matches Ok(hints) && exists|kinds: Seq<TileKind>|
                {
                    &&& #[trigger] lists_waits(
                        kinds,
                        self.spec_players()[seat@ as int].spec_concealed(),
                        self.spec_players()[seat@ as int].spec_melds().len() as int,
                    )
                    &&& hints@.len() == kinds.len()
                    &&& forall|i: int|
                        0 <= i < kinds.len() ==> (#[trigger] hints@[i]).0 == kinds[i] && self.hint_holds(
                            seat,
                            kinds[i],
                            i,
                            hints@[i].1,
                        )
                }),
    {
        match self.validate_seat(seat) {
            Ok(()) => {},
            Err(error) => return Err(error),
        }
        let player = &self.players[seat.index() as usize];
        let waits = RiichiScorer.waiting_tiles(player);
        proof {
            assert(lists_waits(waits.spec_kinds(), player.spec_concealed(), player.spec_melds().len() as int));
        }
        let kinds = waits.kinds();
        proof {
            lemma_at_most_34_kinds(kinds@);
        }
        let from = seat_at_offset(self.rules.variant, seat, 1);
        let mut hints: Vec<(TileKind, bool)> = Vec::new();
        let mut i: usize = 0;
        while i < kinds.len()
            invariant
                i <= kinds@.len(),
                kinds@.len() <= 34,
                seat@ < self.seat_count(),
                self.wf(),
                *player == self.spec_players()[seat@ as int],
                from@ == seat_after(self.rules.variant, seat@ as int, 1),
                hints@.len() == i,
                forall|j: int|
                    0 <= j < i ==> (#[trigger] hints@[j]).0 == kinds@[j] && self.hint_holds(seat, kinds@[j], j, hints@[j].1),
            decreases kinds@.len() - i,
        {
            let kind = kinds[i];
            let tile = match Tile::new(TileId::new(60000 + i as u16), kind, false) {
                Ok(tile) => tile,
                Err(_) => {
                    proof {
                        assert(false);
                    }
                    return Err(HandError::WinNotAllowed);
                },
            };
            let query = WinQuery::new(
                &self.rules,
                self.progress,
                seat,
                player,
                tile,
                WinSource::Discard { from },
                &self.wall,
                self.calls_occurred,
            );
            proof {
                assert(self.is_hint_query(seat, kind, i as int, query));
            }
            let scores = if scorable_query(query) {
                RiichiScorer.evaluate(query).is_some()
            } else {
                false
            };
            let ghost before = hints@;
            hints.push((kind, scores));
            proof {
                assert(scores == (scorable(query) && !no_scoring_reading(query)));
                assert forall|j: int|
                    0 <= j < i + 1 implies (#[trigger] hints@[j]).0 == kinds@[j] && self.hint_holds(seat, kinds@[j], j, hints@[j].1) by {
                    if j < i {
                        assert(hints@[j] == before[j]);
                    } else {
                        assert(hints@[j] == (kind, scores));
                        assert(self.is_hint_query(seat, kinds@[j], j, query));
                    }
                }
            }
            i = i + 1;
        }
        proof {
            assert(lists_waits(
                kinds@,
                self.spec_players()[seat@ as int].spec_concealed(),
                self.spec_players()[seat@ as int].spec_melds().len() as int,
            ));
            assert(hints@.len() == kinds@.len());
        }
        Ok(hints)
    }

    /// The judge's tenpai verdict for every seat, asked only when the window closes in an
    /// exhaustive draw.
    fn tenpai_verdicts<J: HandJudge>(&self, judge: &J) -> (r: Vec<bool>)
        requires
            self.wf(),
        ensures
            r@.len() == self.seat_count(),
    {
        let count = self.rules.variant.seat_count().value();
        let asked = self.is_four_winds() || self.is_four_riichi() || self.wall.remaining_live_draws() != 0;
        let mut verdicts: Vec<bool> = Vec::new();
        let mut index: u8 = 0;
        while index < count
            invariant
                index <= count,
                count == seat_count_of(self.rules.variant),
                self.players@.len() == count,
                verdicts@.len() == index,
            decreases count - index,
        {
            let verdict = if asked {
                false
            } else {
                match Seat::new(self.rules.variant, index) {
                    Ok(seat) => judge.is_tenpai(&self.rules, &self.players[index as usize], seat),
                    Err(_) => false,
                }
            };
            verdicts.push(verdict);
            index = index + 1;
        }
        verdicts
    }

    /// `actor` passes on the pending discard. The judge is asked whether `actor` could have won
    /// on it (declining a win makes the player furiten) and, when the pass closes the window
    /// with an empty live wall, which seats are tenpai.
    pub fn pass<J: HandJudge>(&mut self, actor: Seat, judge: &J) -> (r: Result<HandTransition, HandError>)
        requires
            old(self).wf(),
        ensures
            final(self).wf(),
            old(self).pass_refusal(actor) matches Some(e) ==> r == Err::<HandTransition, HandError>(e)
                && *final(self) == *old(self),
            old(self).pass_refusal(actor) is None ==> (r matches Ok(transition) && exists|
                allows: bool,
                answered: RiichiHand,
                recorded: Seq<HandEvent>,
                complete: bool,
            |
                #[trigger] old(self).pass_recorded(answered, actor, allows, recorded, complete)
                    && old(self).pass_followed(answered, complete, *final(self), recorded, transition.spec_events())),
    {
        let count = self.rules.variant.seat_count().value();
        let allows = if actor.index() < count {
            self.ron_allowed_by(actor, judge)
        } else {
            false
        };
        let (mut transition, complete) = match self.record_pass(actor, allows) {
            Ok(recorded) => recorded,
            Err(error) => return Err(error),
        };
        let ghost answered = *self;
        let ghost recorded = transition.spec_events();
        if complete {
            let tenpai = self.tenpai_verdicts(judge);
            let resolution = self.resolve_discard_window(&tenpai);
            proof {
                assert(answered.window_resolved(*self, tenpai@, resolution.spec_events()));
            }
            transition.append(resolution);
        }
        proof {
            assert(old(self).pass_recorded(answered, actor, allows, recorded, complete));
        }
        Ok(transition)
    }

    /// `after` is this hand once `actor`'s ron answer was recorded, which produced `events`;
    /// `complete` tells whether every seat has now answered.
    pub open spec fn ron_recorded(self, after: RiichiHand, actor: Seat, events: Seq<HandEvent>, complete: bool) -> bool {
        let n = self.seat_count();
        &&& after.spec_rules() == self.spec_rules()
        &&& after.spec_progress() == self.spec_progress()
        &&& after.spec_wall() == self.spec_wall()
        &&& after.spec_calls_occurred() == self.spec_calls_occurred()
        &&& after.spec_players() == self.spec_players()
        &&& self.spec_phase() matches Phase::Responses(pending)
        &&& after.spec_phase() matches Phase::Responses(answered)
        &&& answered.discarder == pending.discarder
        &&& answered.discard_index == pending.discard_index
        &&& answered.responses@ == pending.responses@.update(actor@ as int, Some(Reaction::Ron))
        &&& complete == (forall|k: int| 0 <= k < n ==> (#[trigger] answered.responses@[k]) is Some)
        &&& events == seq![HandEvent::ReactionSubmitted { seat: actor, reaction: ReactionKind::Ron }]
    }

    /// Records `actor`'s ron answer to the pending discard, which the judge allowed; tells
    /// whether every seat has now answered.
    pub fn record_ron(&mut self, actor: Seat) -> (r: (HandTransition, bool))
        requires
            old(self).wf(),
            old(self).pass_refusal(actor) is None,
        ensures
            final(self).wf(),
            old(self).ron_recorded(*final(self), actor, r.0.spec_events(), r.1),
    {
        let a = actor.index() as usize;
        let complete = match &mut self.phase {
            Phase::Responses(pending) => {
                pending.responses.set(a, Some(Reaction::Ron));
                all_answered(&pending.responses)
            },
            _ => false,
        };
        let mut events: Vec<HandEvent> = Vec::new();
        events.push(HandEvent::ReactionSubmitted { seat: actor, reaction: ReactionKind::Ron });
        proof {
            assert(events@ =~= seq![HandEvent::ReactionSubmitted { seat: actor, reaction: ReactionKind::Ron }]);
        }
        (HandTransition::new(events), complete)
    }

    /// `actor` answers the pending discard. A pass asks the judge as `pass` does; ron needs
    /// the judge's approval and a player who is not furiten; chi and pon must pick held tiles
    /// that fit the discard. Open kan is refused.
    pub fn respond<J: HandJudge>(&mut self, actor: Seat, reaction: Reaction, judge: &J) -> (r: Result<HandTransition, HandError>)
        requires
            old(self).wf(),
        ensures
            final(self).wf(),
            old(self).pass_refusal(actor) matches Some(e) ==> r == Err::<HandTransition, HandError>(e)
                && *final(self) == *old(self),
            old(self).pass_refusal(actor) is None && reaction is Pass ==> (r matches Ok(transition) && exists|
                allows: bool,
                answered: RiichiHand,
                recorded: Seq<HandEvent>,
                complete: bool,
            |
                #[trigger] old(self).pass_recorded(answered, actor, allows, recorded, complete)
                    && old(self).pass_followed(answered, complete, *final(self), recorded, transition.spec_events())),
            old(self).pass_refusal(actor) is None && reaction is Ron ==> (r == Err::<HandTransition, HandError>(
                HandError::WinNotAllowed,
            ) && *final(self) == *old(self)) || (r matches Ok(transition) && exists|
                answered: RiichiHand,
                recorded: Seq<HandEvent>,
                complete: bool,
            |
                #[trigger] old(self).ron_recorded(answered, actor, recorded, complete)
                    && old(self).pass_followed(answered, complete, *final(self), recorded, transition.spec_events())),
            old(self).pass_refusal(actor) is None && !(reaction is Pass) && !(reaction is Ron) ==> {
                &&& old(self).claim_refusal(actor, reaction) matches Some(e) ==> r == Err::<HandTransition, HandError>(e)
                    && *final(self) == *old(self)
                &&& old(self).claim_refusal(actor, reaction) is None ==> (r matches Ok(transition) && exists|
                    answered: RiichiHand,
                    recorded: Seq<HandEvent>,
                    complete: bool,
                |
                    #[trigger] old(self).claim_recorded(answered, actor, reaction, recorded, complete)
                        && old(self).pass_followed(answered, complete, *final(self), recorded, transition.spec_events()))
            },
    {
        match reaction {
            Reaction::Pass => return self.pass(actor, judge),
            Reaction::Ron => {},
            _ => {
                let count = self.rules.variant.seat_count().value();
                if actor.index() >= count {
                    return Err(HandError::InvalidSeat { index: actor.index(), seat_count: count });
                }
                match &self.phase {
                    Phase::Responses(pending) => {
                        if actor == pending.discarder {
                            return Err(HandError::DiscarderCannotReact);
                        }
                        if pending.responses[actor.index() as usize].is_some() {
                            return Err(HandError::AlreadyResponded { seat: actor });
                        }
                    },
                    _ => return Err(HandError::WrongPhase),
                }
                match self.check_claim(actor, &reaction) {
                    Ok(()) => {},
                    Err(error) => return Err(error),
                }
                let (mut transition, complete) = self.record_claim(actor, reaction);
                let ghost answered = *self;
                let ghost recorded = transition.spec_events();
                if complete {
                    let tenpai = self.tenpai_verdicts(judge);
                    let resolution = self.resolve_discard_window(&tenpai);
                    proof {
                        assert(answered.window_resolved(*self, tenpai@, resolution.spec_events()));
                    }
                    transition.append(resolution);
                }
                proof {
                    assert(old(self).claim_recorded(answered, actor, reaction, recorded, complete));
                }
                return Ok(transition);
            },
        }
        let count = self.rules.variant.seat_count().value();
        if actor.index() >= count {
            return Err(HandError::InvalidSeat { index: actor.index(), seat_count: count });
        }
        match &self.phase {
            Phase::Responses(pending) => {
                if actor == pending.discarder {
                    return Err(HandError::DiscarderCannotReact);
                }
                if pending.responses[actor.index() as usize].is_some() {
                    return Err(HandError::AlreadyResponded { seat: actor });
                }
            },
            _ => return Err(HandError::WrongPhase),
        }
        if !self.ron_allowed_by(actor, judge) {
            return Err(HandError::WinNotAllowed);
        }
        let (mut transition, complete) = self.record_ron(actor);
        let ghost answered = *self;
        let ghost recorded = transition.spec_events();
        if complete {
            let tenpai = self.tenpai_verdicts(judge);
            let resolution = self.resolve_discard_window(&tenpai);
            proof {
                assert(answered.window_resolved(*self, tenpai@, resolution.spec_events()));
            }
            transition.append(resolution);
        }
        proof {
            assert(old(self).ron_recorded(answered, actor, recorded, complete));
        }
        Ok(transition)
    }

    /// Why `actor` may not declare tsumo now, if it may not.
    pub open spec fn tsumo_refusal(self, actor: Seat) -> Option<HandError> {
        if actor@ >= seat_count_of(self.spec_rules().variant) {
            self.seat_refusal(actor)
        } else {
            match self.spec_phase() {
                Phase::TurnAction { seat, .. } => if actor != seat {
                    Some(HandError::NotActiveSeat { expected: seat, actual: actor })
                } else {
                    None
                },
                _ => Some(HandError::WrongPhase),
            }
        }
    }

    /// `after` is this hand once `actor` won on the tile just drawn, which produced `events`.
    pub open spec fn tsumo_declared(self, after: RiichiHand, actor: Seat, events: Seq<HandEvent>) -> bool {
        let player = self.spec_players()[actor@ as int];
        let drawn = player.spec_drawn_tile()->Some_0;
        &&& after.spec_rules() == self.spec_rules()
        &&& after.spec_progress() == self.spec_progress()
        &&& after.spec_wall() == self.spec_wall()
        &&& after.spec_calls_occurred() == self.spec_calls_occurred()
        &&& after.spec_players() == self.spec_players()
        &&& after.spec_phase() == Phase::Ended(EndReason::Tsumo)
        &&& self.spec_phase() matches Phase::TurnAction { draw_source, .. }
        &&& exists|i: int| #[trigger]
            first_match(player.spec_concealed(), drawn, i) && events == seq![
                HandEvent::TsumoDeclared {
                    winner: actor,
                    tile: player.spec_concealed()[i],
                    source: draw_source,
                },
            ]
    }

    /// The tile `actor` just drew, with where it was drawn from.
    fn drawn_tile_of(&self, actor: Seat) -> (r: (Tile, DrawSource))
        requires
            self.wf(),
            self.tsumo_refusal(actor) is None,
        ensures
            self.spec_phase() matches Phase::TurnAction { draw_source, .. } && r.1 == draw_source,
            exists|i: int| #[trigger]
                first_match(
                    self.spec_players()[actor@ as int].spec_concealed(),
                    self.spec_players()[actor@ as int].spec_drawn_tile()->Some_0,
                    i,
                ) && r.0 == self.spec_players()[actor@ as int].spec_concealed()[i],
    {
        let source = match &self.phase {
            Phase::TurnAction { draw_source, .. } => *draw_source,
            _ => {
                proof {
                    assert(false);
                }
                DrawSource::LiveWall
            },
        };
        let player = &self.players[actor.index() as usize];
        let drawn = match player.drawn_tile_id() {
            Some(id) => id,
            None => {
                proof {
                    assert(false);
                }
                TileId::new(0)
            },
        };
        match position_of_id(player.concealed(), drawn) {
            Some(index) => (player.concealed()[index], source),
            None => {
                proof {
                    assert(false);
                }
                (player.concealed()[0], source)
            },
        }
    }

    /// `actor` declares a win on the tile just drawn, given whether the judge accepts it.
    pub fn declare_tsumo_with_verdict(&mut self, actor: Seat, judge_allows: bool) -> (r: Result<HandTransition, HandError>)
        requires
            old(self).wf(),
        ensures
            final(self).wf(),
            old(self).tsumo_refusal(actor) matches Some(e) ==> r == Err::<HandTransition, HandError>(e)
                && *final(self) == *old(self),
            old(self).tsumo_refusal(actor) is None && !judge_allows ==> r == Err::<HandTransition, HandError>(
                HandError::WinNotAllowed,
            ) && *final(self) == *old(self),
            old(self).tsumo_refusal(actor) is None && judge_allows ==> (r matches Ok(transition)
                && old(self).tsumo_declared(*final(self), actor, transition.spec_events())),
    {
        let count = self.rules.variant.seat_count().value();
        if actor.index() >= count {
            return Err(HandError::InvalidSeat { index: actor.index(), seat_count: count });
        }
        match &self.phase {
            Phase::TurnAction { seat, .. } => {
                if actor != *seat {
                    return Err(HandError::NotActiveSeat { expected: *seat, actual: actor });
                }
            },
            _ => return Err(HandError::WrongPhase),
        }
        if !judge_allows {
            return Err(HandError::WinNotAllowed);
        }
        let (tile, source) = self.drawn_tile_of(actor);
        self.phase = Phase::Ended(EndReason::Tsumo);
        let mut events: Vec<HandEvent> = Vec::new();
        events.push(HandEvent::TsumoDeclared { winner: actor, tile, source });
        proof {
            assert(events@ =~= seq![HandEvent::TsumoDeclared { winner: actor, tile, source }]);
        }
        Ok(HandTransition::new(events))
    }

    /// `actor` declares a win on the tile just drawn; the judge decides whether it stands.
    pub fn declare_tsumo<J: HandJudge>(&mut self, actor: Seat, judge: &J) -> (r: Result<HandTransition, HandError>)
        requires
            old(self).wf(),
        ensures
            final(self).wf(),
            old(self).tsumo_refusal(actor) matches Some(e) ==> r == Err::<HandTransition, HandError>(e)
                && *final(self) == *old(self),
            old(self).tsumo_refusal(actor) is None ==> (r == Err::<HandTransition, HandError>(HandError::WinNotAllowed)
                && *final(self) == *old(self)) || (r matches Ok(transition) && old(self).tsumo_declared(
                *final(self),
                actor,
                transition.spec_events(),
            )),
    {
        let count = self.rules.variant.seat_count().value();
        let allows = if actor.index() < count && matches!(&self.phase, Phase::TurnAction { seat, .. } if *seat == actor) {
            let (tile, source) = self.drawn_tile_of(actor);
            let query = WinQuery::new(
                &self.rules,
                self.progress,
                actor,
                &self.players[actor.index() as usize],
                tile,
                WinSource::Tsumo(source),
                &self.wall,
                self.calls_occurred,
            );
            judge.can_win(query)
        } else {
            false
        };
        self.declare_tsumo_with_verdict(actor, allows)
    }

    /// Why `actor` may not declare riichi by discarding the tile with `tile_id`, if it may not.
    pub open spec fn riichi_refusal(self, actor: Seat, tile_id: TileId) -> Option<HandError> {
        let player = self.spec_players()[actor@ as int];
        if actor@ >= seat_count_of(self.spec_rules().variant) {
            self.seat_refusal(actor)
        } else if !(self.spec_phase() is TurnAction) {
            Some(HandError::WrongPhase)
        } else if actor != self.spec_phase()->TurnAction_seat {
            Some(HandError::NotActiveSeat { expected: self.spec_phase()->TurnAction_seat, actual: actor })
        } else if player.spec_riichi() != RiichiStatus::NotDeclared {
            Some(HandError::RiichiNotAllowed { reason: "riichi was already declared" })
        } else if exists|k: int|
            0 <= k < player.spec_melds().len() && #[trigger] player.spec_melds()[k].spec_kind()
                != MeldKind::ConcealedKan {
            Some(HandError::RiichiNotAllowed { reason: "riichi requires a closed hand" })
        } else if player.spec_points() < 1000 {
            Some(HandError::RiichiNotAllowed { reason: "riichi requires at least 1000 points" })
        } else if self.spec_wall().spec_remaining() == 0 {
            Some(HandError::RiichiNotAllowed { reason: "riichi is unavailable after the last live-wall draw" })
        } else if self.spec_progress().spec_riichi_sticks()@ == u32::MAX {
            Some(HandError::RiichiNotAllowed { reason: "riichi-stick counter cannot be incremented" })
        } else if !(exists|i: int|
            0 <= i < player.spec_concealed().len() && #[trigger] player.spec_concealed()[i].spec_id() == tile_id) {
            Some(HandError::TileNotInHand { tile_id })
        } else {
            None
        }
    }

    fn check_riichi(&self, actor: Seat, tile_id: TileId) -> (r: Result<Tile, HandError>)
        requires
            self.wf(),
        ensures
            self.riichi_refusal(actor, tile_id) matches Some(e) ==> r == Err::<Tile, HandError>(e),
            self.riichi_refusal(actor, tile_id) is None ==> (r matches Ok(tile) && exists|i: int|
                #[trigger] first_match(self.spec_players()[actor@ as int].spec_concealed(), tile_id, i) && tile
                    == self.spec_players()[actor@ as int].spec_concealed()[i]),
    {
        let count = self.rules.variant.seat_count().value();
        if actor.index() >= count {
            return Err(HandError::InvalidSeat { index: actor.index(), seat_count: count });
        }
        match &self.phase {
            Phase::TurnAction { seat, .. } => {
                if actor != *seat {
                    return Err(HandError::NotActiveSeat { expected: *seat, actual: actor });
                }
            },
            _ => return Err(HandError::WrongPhase),
        }
        let player = &self.players[actor.index() as usize];
        if player.riichi_status() != RiichiStatus::NotDeclared {
            return Err(HandError::RiichiNotAllowed { reason: "riichi was already declared" });
        }
        let melds = player.melds();
        let mut k: usize = 0;
        while k < melds.len()
            invariant
                k <= melds@.len(),
                actor@ < self.seat_count(),
                self.players@.len() == self.seat_count(),
                melds@ == self.spec_players()[actor@ as int].spec_melds(),
                self.spec_phase() is TurnAction,
                actor == self.spec_phase()->TurnAction_seat,
                self.spec_players()[actor@ as int].spec_riichi() == RiichiStatus::NotDeclared,
                forall|j: int| 0 <= j < k ==> #[trigger] melds@[j].spec_kind() == MeldKind::ConcealedKan,
            decreases melds@.len() - k,
        {
            if melds[k].kind() != MeldKind::ConcealedKan {
                proof {
                    assert(self.spec_players()[actor@ as int].spec_melds()[k as int].spec_kind() != MeldKind::ConcealedKan);
                }
                return Err(HandError::RiichiNotAllowed { reason: "riichi requires a closed hand" });
            }
            k = k + 1;
        }
        if player.points() < 1000 {
            return Err(HandError::RiichiNotAllowed { reason: "riichi requires at least 1000 points" });
        }
        if self.wall.remaining_live_draws() == 0 {
            return Err(HandError::RiichiNotAllowed { reason: "riichi is unavailable after the last live-wall draw" });
        }
        if self.progress.riichi_sticks().checked_deposit().is_err() {
            return Err(HandError::RiichiNotAllowed { reason: "riichi-stick counter cannot be incremented" });
        }
        match position_of_id(player.concealed(), tile_id) {
            Some(index) => Ok(player.concealed()[index]),
            None => Err(HandError::TileNotInHand { tile_id }),
        }
    }

    /// `actor` declares riichi by discarding the tile with `tile_id`, given whether the judge
    /// accepts the declaration.
    pub fn declare_riichi_with_verdict(&mut self, actor: Seat, tile_id: TileId, judge_allows: bool) -> (r: Result<HandTransition, HandError>)
        requires
            old(self).wf(),
        ensures
            final(self).wf(),
            old(self).riichi_refusal(actor, tile_id) matches Some(e) ==> r == Err::<HandTransition, HandError>(e)
                && *final(self) == *old(self),
            old(self).riichi_refusal(actor, tile_id) is None && !judge_allows ==> r == Err::<HandTransition, HandError>(
                HandError::RiichiNotAllowed { reason: "the hand judge rejected the riichi declaration" },
            ) && *final(self) == *old(self),
            old(self).riichi_refusal(actor, tile_id) is None && judge_allows ==> (r matches Ok(transition)
                && old(self).discarded(*final(self), actor, tile_id, true, transition.spec_events())),
    {
        match self.check_riichi(actor, tile_id) {
            Ok(_) => {},
            Err(error) => return Err(error),
        }
        if !judge_allows {
            return Err(HandError::RiichiNotAllowed { reason: "the hand judge rejected the riichi declaration" });
        }
        self.discard_internal(actor, tile_id, true)
    }

    /// `actor` declares riichi by discarding the tile with `tile_id`; the judge decides whether
    /// the declaration stands.
    pub fn declare_riichi_and_discard<J: HandJudge>(&mut self, actor: Seat, tile_id: TileId, judge: &J) -> (r: Result<HandTransition, HandError>)
        requires
            old(self).wf(),
        ensures
            final(self).wf(),
            old(self).riichi_refusal(actor, tile_id) matches Some(e) ==> r == Err::<HandTransition, HandError>(e)
                && *final(self) == *old(self),
            old(self).riichi_refusal(actor, tile_id) is None ==> (r == Err::<HandTransition, HandError>(
                HandError::RiichiNotAllowed { reason: "the hand judge rejected the riichi declaration" },
            ) && *final(self) == *old(self)) || (r matches Ok(transition) && old(self).discarded(
                *final(self),
                actor,
                tile_id,
                true,
                transition.spec_events(),
            )),
    {
        let allows = match self.check_riichi(actor, tile_id) {
            Ok(tile) => {
                let query = RiichiQuery::new(
                    &self.rules,
                    self.progress,
                    actor,
                    &self.players[actor.index() as usize],
                    tile,
                );
                judge.can_riichi(query)
            },
            Err(_) => false,
        };
        self.declare_riichi_with_verdict(actor, tile_id, allows)
    }

    /// Replaces the faces of the concealed tiles of `seat` by the given codes, one per tile,
    /// keeping every tile's identity (the tile just drawn stays the tile just drawn). Meant for
    /// trying out hand shapes by hand: the tile counts of the table are not checked.
    pub fn set_concealed_tiles(&mut self, seat: Seat, codes: &[String]) -> (r: Result<(), HandError>)
        requires
            old(self).wf(),
        ensures
            final(self).wf(),
            r is Err ==> *final(self) == *old(self),
            old(self).seat_refusal(seat) matches Some(e) ==> r == Err::<(), HandError>(e),
            old(self).seat_refusal(seat) is None && codes@.len() != old(self).spec_players()[seat@ as int].spec_concealed().len()
                ==> r == Err::<(), HandError>(
                HandError::WrongConcealedTileCount {
                    expected: old(self).spec_players()[seat@ as int].spec_concealed().len() as usize,
                    actual: codes@.len() as usize,
                },
            ),
            old(self).seat_refusal(seat) is None && codes@.len() == old(self).spec_players()[seat@ as int].spec_concealed().len()
                ==> {
                let before = old(self).spec_players()[seat@ as int];
                &&& (exists|i: int| 0 <= i < codes@.len() && #[trigger] parsed_face(codes@[i]@) is Err) ==> (r matches Err(
                    HandError::InvalidTileCode(code),
                ) && exists|i: int|
                    0 <= i < codes@.len() && #[trigger] parsed_face(codes@[i]@) is Err && code@ == codes@[i]@ && forall|j: int|
                        0 <= j < i ==> #[trigger] parsed_face(codes@[j]@) is Ok)
                &&& (forall|i: int| 0 <= i < codes@.len() ==> #[trigger] parsed_face(codes@[i]@) is Ok) ==> {
                    let player = final(self).spec_players()[seat@ as int];
                    &&& r is Ok
                    &&& final(self).spec_rules() == old(self).spec_rules()
                    &&& final(self).spec_progress() == old(self).spec_progress()
                    &&& final(self).spec_wall() == old(self).spec_wall()
                    &&& final(self).spec_phase() == old(self).spec_phase()
                    &&& final(self).spec_calls_occurred() == old(self).spec_calls_occurred()
                    &&& final(self).spec_players().len() == old(self).spec_players().len()
                    &&& forall|k: int|
                        0 <= k < old(self).seat_count() && k != seat@ ==> #[trigger] final(self).spec_players()[k]
                            == old(self).spec_players()[k]
                    &&& player.keeps_record_of(before)
                    &&& player.spec_drawn_tile() == before.spec_drawn_tile()
                    &&& player.spec_discards() == before.spec_discards()
                    &&& player.spec_temporary_furiten() == before.spec_temporary_furiten()
                    &&& player.spec_riichi_furiten() == before.spec_riichi_furiten()
                    &&& player.spec_ippatsu() == before.spec_ippatsu()
                    &&& player.spec_concealed().len() == before.spec_concealed().len()
                    &&& forall|i: int|
                        0 <= i < codes@.len() ==> {
                            &&& #[trigger] player.spec_concealed()[i].spec_id() == before.spec_concealed()[i].spec_id()
                            &&& player.spec_concealed()[i].spec_face() == parsed_face(codes@[i]@)->Ok_0
                        }
                }
            },
    {
        match self.validate_seat(seat) {
            Ok(()) => {},
            Err(error) => return Err(error),
        }
        let s = seat.index() as usize;
        let count = self.players[s].concealed().len();
        if codes.len() != count {
            return Err(HandError::WrongConcealedTileCount { expected: count, actual: codes.len() });
        }
        let mut faces: Vec<TileFace> = Vec::new();
        let mut i: usize = 0;
        while i < codes.len()
            invariant
                i <= codes@.len(),
                faces@.len() == i,
                *self == *old(self),
                old(self).wf(),
                old(self).seat_refusal(seat) is None,
                s == seat@,
                codes@.len() == old(self).spec_players()[seat@ as int].spec_concealed().len(),
                forall|j: int| 0 <= j < i ==> #[trigger] parsed_face(codes@[j]@) == Ok::<TileFace, TileError>(faces@[j]),
            decreases codes@.len() - i,
        {
            match TileFace::parse_code(codes[i].as_str()) {
                Ok(face) => faces.push(face),
                Err(_) => {
                    let code = codes[i].clone();
                    proof {
                        assert(parsed_face(codes@[i as int]@) is Err);
                    }
                    return Err(HandError::InvalidTileCode(code));
                },
            }
            i = i + 1;
        }
        let ghost before = self.players@;
        let mut i: usize = 0;
        while i < faces.len()
            invariant
                i <= faces@.len(),
                faces@.len() == count,
                s < self.players@.len(),
                old(self).wf(),
                before == old(self).players@,
                self.rules == old(self).rules,
                self.progress == old(self).progress,
                self.wall == old(self).wall,
                self.phase == old(self).phase,
                self.kan_counts == old(self).kan_counts,
                self.calls_occurred == old(self).calls_occurred,
                self.players@.len() == before.len(),
                count == before[s as int].spec_concealed().len(),
                forall|k: int| 0 <= k < before.len() && k != s ==> #[trigger] self.players@[k] == before[k],
                self.players@[s as int].keeps_record_of(before[s as int]),
                self.players@[s as int].spec_drawn_tile() == before[s as int].spec_drawn_tile(),
                self.players@[s as int].spec_discards() == before[s as int].spec_discards(),
                self.players@[s as int].spec_temporary_furiten() == before[s as int].spec_temporary_furiten(),
                self.players@[s as int].spec_riichi_furiten() == before[s as int].spec_riichi_furiten(),
                self.players@[s as int].spec_ippatsu() == before[s as int].spec_ippatsu(),
                self.players@[s as int].spec_concealed().len() == count,
                forall|j: int| 0 <= j < count ==> #[trigger] self.players@[s as int].spec_concealed()[j].spec_id() == before[s as int].spec_concealed()[j].spec_id(),
                forall|j: int| 0 <= j < i ==> #[trigger] self.players@[s as int].spec_concealed()[j].spec_face() == faces@[j],
            decreases faces@.len() - i,
        {
            let face = faces[i];
            let id = self.players[s].concealed()[i].id();
            let tile = Tile::with_face(id, face);
            self.players[s].set_concealed_at(i, tile);
            i = i + 1;
        }
        proof {
            assert forall|k: int|
                #![trigger self.players@[k]]
                0 <= k < self.players@.len() && self.players@[k].spec_riichi() == RiichiStatus::Pending implies {
                &&& self.phase matches Phase::Responses(pending)
                &&& pending.discarder@ == k
                &&& self.players@[k].spec_points() >= 1000
                &&& self.progress.spec_riichi_sticks()@ < u32::MAX
            } by {
                assert(before[k].spec_riichi() == RiichiStatus::Pending);
            }
            match self.spec_phase() {
                Phase::TurnAction { seat: active, .. } => {
                    let a = active@ as int;
                    let id = before[a].spec_drawn_tile()->Some_0;
                    let w = choose|w: int| 0 <= w < before[a].spec_concealed().len() && #[trigger] before[a].spec_concealed()[w].spec_id() == id;
                    assert(self.players@[a].spec_concealed()[w].spec_id() == id);
                },
                Phase::Responses(pending) => {
                    let called = before[pending.discarder@ as int].spec_discards()[pending.discard_index as int].spec_tile().spec_kind();
                    assert forall|k: int| 0 <= k < self.players@.len() implies #[trigger] claim_held(
                        pending.responses@[k],
                        self.players@[k].spec_concealed(),
                        called,
                        kan_room(self.wall),
                    ) by {
                        assert(claim_held(pending.responses@[k], before[k].spec_concealed(), called, kan_room(self.wall)));
                        if k == s {
                            assert forall|id: TileId| holds_id(before[k].spec_concealed(), id) implies holds_id(
                                self.players@[k].spec_concealed(),
                                id,
                            ) by {
                                let w = choose|w: int| 0 <= w < before[k].spec_concealed().len() && #[trigger] before[k].spec_concealed()[w].spec_id() == id;
                                assert(self.players@[k].spec_concealed()[w].spec_id() == id);
                            }
                        }
                    }
                },
                _ => {},
            }
        }
        Ok(())
    }

    /// The number of distinct terminal and honor kinds among `tiles`, counting the kinds
    /// below `bound`.
    pub open spec fn orphan_kinds_below(tiles: Seq<Tile>, bound: int) -> nat
        decreases bound,
    {
        if bound <= 0 {
            0
        } else {
            let kind = bound - 1;
            Self::orphan_kinds_below(tiles, kind) + (if (kind_is_honor(kind) || kind_is_terminal(kind)) && exists|i: int|
                0 <= i < tiles.len() && #[trigger] tiles[i].spec_kind()@ == kind {
                1nat
            } else {
                0nat
            })
        }
    }

    /// Why `actor` may not end the hand with nine terminals now, if it may not.
    pub open spec fn nine_terminals_refusal(self, actor: Seat) -> Option<HandError> {
        let player = self.spec_players()[actor@ as int];
        if actor@ >= seat_count_of(self.spec_rules().variant) {
            self.seat_refusal(actor)
        } else if !(self.spec_phase() is TurnAction) {
            Some(HandError::WrongPhase)
        } else if actor != self.spec_phase()->TurnAction_seat {
            Some(HandError::NotActiveSeat { expected: self.spec_phase()->TurnAction_seat, actual: actor })
        } else if !self.spec_rules().abortive_draws.nine_terminals {
            Some(HandError::AbortiveDrawNotAllowed { reason: "nine terminals is disabled by the active rules" })
        } else if self.spec_calls_occurred() || player.spec_discards().len() != 0 || player.spec_melds().len() != 0 {
            Some(
                HandError::AbortiveDrawNotAllowed {
                    reason: "nine terminals is only available on the player's uninterrupted first turn",
                },
            )
        } else if Self::orphan_kinds_below(player.spec_concealed(), 34) < 9 {
            Some(
                HandError::AbortiveDrawNotAllowed {
                    reason: "the hand contains fewer than nine distinct terminal or honor kinds",
                },
            )
        } else {
            None
        }
    }

    fn distinct_orphan_kinds(tiles: &[Tile]) -> (r: usize)
        ensures
            r == Self::orphan_kinds_below(tiles@, 34),
    {
        let mut seen: Vec<bool> = Vec::new();
        let mut k: usize = 0;
        while k < 34
            invariant
                k <= 34,
                seen@.len() == k,
                forall|j: int| 0 <= j < k ==> !#[trigger] seen@[j],
            decreases 34 - k,
        {
            seen.push(false);
            k = k + 1;
        }
        let mut t: usize = 0;
        while t < tiles.len()
            invariant
                t <= tiles@.len(),
                seen@.len() == 34,
                forall|j: int|
                    0 <= j < 34 ==> #[trigger] seen@[j] == ((kind_is_honor(j) || kind_is_terminal(j)) && exists|i: int|
                        0 <= i < t && #[trigger] tiles@[i].spec_kind()@ == j),
            decreases tiles@.len() - t,
        {
            let kind = tiles[t].kind();
            if kind.is_terminal_or_honor() {
                let index = kind.index();
                seen.set(index, true);
            }
            proof {
                assert forall|j: int| 0 <= j < 34 implies #[trigger] seen@[j] == ((kind_is_honor(j) || kind_is_terminal(j))
                    && exists|i: int| 0 <= i < t + 1 && #[trigger] tiles@[i].spec_kind()@ == j) by {
                    if tiles@[t as int].spec_kind()@ == j {
                        assert(tiles@[t as int].spec_kind()@ == j);
                    }
                }
            }
            t = t + 1;
        }
        let mut count: usize = 0;
        let mut k: usize = 0;
        while k < 34
            invariant
                k <= 34,
                seen@.len() == 34,
                count <= k,
                count == Self::orphan_kinds_below(tiles@, k as int),
                forall|j: int|
                    0 <= j < 34 ==> #[trigger] seen@[j] == ((kind_is_honor(j) || kind_is_terminal(j)) && exists|i: int|
                        0 <= i < tiles@.len() && #[trigger] tiles@[i].spec_kind()@ == j),
            decreases 34 - k,
        {
            if seen[k] {
                count = count + 1;
            }
            k = k + 1;
        }
        count
    }

    /// `actor`, on an uninterrupted first turn, ends the hand as an abortive draw by showing
    /// at least nine distinct terminal and honor kinds.
    pub fn declare_nine_terminals(&mut self, actor: Seat) -> (r: Result<HandTransition, HandError>)
        requires
            old(self).wf(),
        ensures
            final(self).wf(),
            old(self).nine_terminals_refusal(actor) matches Some(e) ==> r == Err::<HandTransition, HandError>(e)
                && *final(self) == *old(self),
            old(self).nine_terminals_refusal(actor) is None ==> (r matches Ok(transition) && {
                &&& final(self).spec_rules() == old(self).spec_rules()
                &&& final(self).spec_progress() == old(self).spec_progress()
                &&& final(self).spec_wall() == old(self).spec_wall()
                &&& final(self).spec_players() == old(self).spec_players()
                &&& final(self).spec_calls_occurred() == old(self).spec_calls_occurred()
                &&& final(self).spec_phase() == Phase::Ended(EndReason::NineTerminals)
                &&& transition.spec_events() == seq![
                    HandEvent::AbortiveDrawDeclared { reason: EndReason::NineTerminals, declarer: Some(actor) },
                ]
            }),
    {
        let count = self.rules.variant.seat_count().value();
        if actor.index() >= count {
            return Err(HandError::InvalidSeat { index: actor.index(), seat_count: count });
        }
        match &self.phase {
            Phase::TurnAction { seat, .. } => {
                if actor != *seat {
                    return Err(HandError::NotActiveSeat { expected: *seat, actual: actor });
                }
            },
            _ => return Err(HandError::WrongPhase),
        }
        if !self.rules.abortive_draws.nine_terminals {
            return Err(HandError::AbortiveDrawNotAllowed { reason: "nine terminals is disabled by the active rules" });
        }
        let player = &self.players[actor.index() as usize];
        if self.calls_occurred || player.discards().len() != 0 || player.melds().len() != 0 {
            return Err(
                HandError::AbortiveDrawNotAllowed {
                    reason: "nine terminals is only available on the player's uninterrupted first turn",
                },
            );
        }
        if Self::distinct_orphan_kinds(player.concealed()) < 9 {
            return Err(
                HandError::AbortiveDrawNotAllowed {
                    reason: "the hand contains fewer than nine distinct terminal or honor kinds",
                },
            );
        }
        self.phase = Phase::Ended(EndReason::NineTerminals);
        let mut events: Vec<HandEvent> = Vec::new();
        events.push(HandEvent::AbortiveDrawDeclared { reason: EndReason::NineTerminals, declarer: Some(actor) });
        proof {
            assert forall|k: int|
                #![trigger self.players@[k]]
                0 <= k < self.players@.len() && self.players@[k].spec_riichi() == RiichiStatus::Pending implies false by {
                assert(old(self).spec_players()[k].spec_riichi() == RiichiStatus::Pending);
            }
            assert(events@ =~= seq![
                HandEvent::AbortiveDrawDeclared { reason: EndReason::NineTerminals, declarer: Some(actor) },
            ]);
        }
        Ok(HandTransition::new(events))
    }

    /// The discard the pending window is about.
    pub open spec fn pending_tile(self) -> Tile {
        let pending = self.spec_phase()->Responses_0;
        self.spec_players()[pending.discarder@ as int].spec_discards()[pending.discard_index as int].spec_tile()
    }

    /// Why `actor` may not claim the pending discard with `reaction` (a chi, pon or open kan),
    /// if it may not; the answer window itself is open to `actor`.
    pub open spec fn claim_refusal(self, actor: Seat, reaction: Reaction) -> Option<HandError> {
        let pending = self.spec_phase()->Responses_0;
        let player = self.spec_players()[actor@ as int];
        let called = self.pending_tile();
        if self.spec_wall().spec_remaining() == 0 {
            Some(HandError::CannotCallOnLastDiscard)
        } else if player.spec_riichi() != RiichiStatus::NotDeclared {
            Some(HandError::CannotCallWhileRiichi)
        } else {
            match reaction {
                Reaction::Pon { hand_tiles } => pon_refusal(player.spec_concealed(), hand_tiles@, called),
                Reaction::Chi { hand_tiles } => if self.spec_rules().variant == RiichiVariant::Sanma {
                    Some(HandError::InvalidReaction { reason: "chi is unavailable in sanma" })
                } else if actor@ != seat_after(self.spec_rules().variant, pending.discarder@ as int, 1) {
                    Some(HandError::InvalidReaction { reason: "only the next seat can chi" })
                } else {
                    chi_refusal(player.spec_concealed(), hand_tiles@, called)
                },
                Reaction::OpenKan { hand_tiles } => if self.spec_wall().spec_rinshan_draws() >= 4 {
                    Some(HandError::KanLimitReached)
                } else {
                    kan_refusal(player.spec_concealed(), hand_tiles@, called)
                },
                _ => None,
            }
        }
    }

    fn check_selection(tiles: &[Tile], ids: [TileId; 2]) -> (r: Result<(), HandError>)
        ensures
            selection_refusal(tiles@, ids@) matches Some(e) ==> r == Err::<(), HandError>(e),
            selection_refusal(tiles@, ids@) is None ==> r is Ok,
    {
        if ids[0] == ids[1] {
            proof {
                assert(ids@[0] == ids@[1]);
            }
            return Err(HandError::DuplicateTileSelection);
        }
        proof {
            assert forall|i: int, j: int| 0 <= i < j < ids@.len() implies #[trigger] ids@[i] != #[trigger] ids@[j] by {
                assert(i == 0 && j == 1);
            }
        }
        if position_of_id(tiles, ids[0]).is_none() {
            return Err(HandError::TileNotInHand { tile_id: ids[0] });
        }
        if position_of_id(tiles, ids[1]).is_none() {
            return Err(HandError::TileNotInHand { tile_id: ids[1] });
        }
        Ok(())
    }

    fn held_kind_of(tiles: &[Tile], id: TileId) -> (r: TileKind)
        requires
            holds_id(tiles@, id),
        ensures
            r == held_kind(tiles@, id),
    {
        match position_of_id(tiles, id) {
            Some(index) => {
                proof {
                    lemma_held_kind(tiles@, id, index as int);
                }
                tiles[index].kind()
            },
            None => {
                proof {
                    assert(false);
                }
                tiles[0].kind()
            },
        }
    }

    fn check_claim(&self, actor: Seat, reaction: &Reaction) -> (r: Result<(), HandError>)
        requires
            self.wf(),
            self.pass_refusal(actor) is None,
        ensures
            self.claim_refusal(actor, *reaction) matches Some(e) ==> r == Err::<(), HandError>(e),
            self.claim_refusal(actor, *reaction) is None ==> r is Ok,
    {
        let (discarder, discard_index) = match &self.phase {
            Phase::Responses(pending) => (pending.discarder, pending.discard_index),
            _ => {
                proof {
                    assert(false);
                }
                return Ok(());
            },
        };
        if self.wall.remaining_live_draws() == 0 {
            return Err(HandError::CannotCallOnLastDiscard);
        }
        let player = &self.players[actor.index() as usize];
        if player.riichi_status() != RiichiStatus::NotDeclared {
            return Err(HandError::CannotCallWhileRiichi);
        }
        let called = self.players[discarder.index() as usize].discards()[discard_index].tile();
        let concealed = player.concealed();
        match reaction {
            Reaction::Pon { hand_tiles } => {
                match Self::check_selection(concealed, *hand_tiles) {
                    Ok(()) => {},
                    Err(error) => return Err(error),
                }
                let first = Self::held_kind_of(concealed, hand_tiles[0]);
                let second = Self::held_kind_of(concealed, hand_tiles[1]);
                if first != called.kind() || second != called.kind() {
                    return Err(HandError::InvalidReaction { reason: "selected tiles must match the called tile kind" });
                }
                Ok(())
            },
            Reaction::Chi { hand_tiles } => {
                if self.rules.variant == RiichiVariant::Sanma {
                    return Err(HandError::InvalidReaction { reason: "chi is unavailable in sanma" });
                }
                let next = seat_at_offset(self.rules.variant, discarder, 1);
                proof {
                    Seat::lemma_view_injective(actor, next);
                }
                if actor != next {
                    return Err(HandError::InvalidReaction { reason: "only the next seat can chi" });
                }
                validate_chi(concealed, hand_tiles, called)
            },
            Reaction::OpenKan { hand_tiles } => {
                if self.wall.rinshan_draw_count() >= 4 {
                    return Err(HandError::KanLimitReached);
                }
                validate_kan_call(concealed, hand_tiles, called)
            },
            _ => Ok(()),
        }
    }

    /// The reaction kind an answer is announced as.
    pub open spec fn reaction_kind_of(reaction: Reaction) -> ReactionKind {
        match reaction {
            Reaction::Pass => ReactionKind::Pass,
            Reaction::Ron => ReactionKind::Ron,
            Reaction::Chi { .. } => ReactionKind::Chi,
            Reaction::Pon { .. } => ReactionKind::Pon,
            Reaction::OpenKan { .. } => ReactionKind::OpenKan,
        }
    }

    /// `after` is this hand once `actor`'s claim `reaction` was recorded, which produced
    /// `events`; `complete` tells whether every seat has now answered.
    pub open spec fn claim_recorded(
        self,
        after: RiichiHand,
        actor: Seat,
        reaction: Reaction,
        events: Seq<HandEvent>,
        complete: bool,
    ) -> bool {
        let n = self.seat_count();
        &&& after.spec_rules() == self.spec_rules()
        &&& after.spec_progress() == self.spec_progress()
        &&& after.spec_wall() == self.spec_wall()
        &&& after.spec_calls_occurred() == self.spec_calls_occurred()
        &&& after.spec_players() == self.spec_players()
        &&& self.spec_phase() matches Phase::Responses(pending)
        &&& after.spec_phase() matches Phase::Responses(answered)
        &&& answered.discarder == pending.discarder
        &&& answered.discard_index == pending.discard_index
        &&& answered.responses@ == pending.responses@.update(actor@ as int, Some(reaction))
        &&& complete == (forall|k: int| 0 <= k < n ==> (#[trigger] answered.responses@[k]) is Some)
        &&& events == seq![HandEvent::ReactionSubmitted { seat: actor, reaction: Self::reaction_kind_of(reaction) }]
    }

    fn record_claim(&mut self, actor: Seat, reaction: Reaction) -> (r: (HandTransition, bool))
        requires
            old(self).wf(),
            old(self).pass_refusal(actor) is None,
            old(self).claim_refusal(actor, reaction) is None,
            !(reaction is Pass),
            !(reaction is Ron),
        ensures
            final(self).wf(),
            old(self).claim_recorded(*final(self), actor, reaction, r.0.spec_events(), r.1),
    {
        let kind = match &reaction {
            Reaction::Chi { .. } => ReactionKind::Chi,
            Reaction::Pon { .. } => ReactionKind::Pon,
            _ => ReactionKind::OpenKan,
        };
        let a = actor.index() as usize;
        let _remaining = self.wall.remaining_live_draws();
        let ghost answer = reaction;
        let complete = match &mut self.phase {
            Phase::Responses(pending) => {
                pending.responses.set(a, Some(reaction));
                all_answered(&pending.responses)
            },
            _ => false,
        };
        proof {
            assert(self.wall == old(self).wall);
            if answer is OpenKan {
                assert(old(self).spec_wall().spec_remaining() != 0);
                assert(old(self).spec_wall().spec_rinshan_draws() < 4);
                assert(kan_room(self.wall));
            }
            assert(claim_held(Some(answer), self.players@[a as int].spec_concealed(), old(self).pending_tile().spec_kind(), kan_room(self.wall)));
        }
        let mut events: Vec<HandEvent> = Vec::new();
        events.push(HandEvent::ReactionSubmitted { seat: actor, reaction: kind });
        proof {
            assert(events@ =~= seq![HandEvent::ReactionSubmitted { seat: actor, reaction: Self::reaction_kind_of(answer) }]);
        }
        (HandTransition::new(events), complete)
    }

    /// The nearest seat, from `offset` places after the discarder on, that answered with pon
    /// or open kan.
    pub open spec fn pon_from(responses: Seq<Option<Reaction>>, variant: RiichiVariant, discarder: int, offset: int) -> Option<int>
        decreases seat_count_of(variant) - offset,
    {
        if offset <= 0 || offset >= seat_count_of(variant) {
            None
        } else {
            let seat = seat_after(variant, discarder, offset);
            if responses[seat] matches Some(Reaction::Pon { .. }) || responses[seat] matches Some(
                Reaction::OpenKan { .. },
            ) {
                Some(seat)
            } else {
                Self::pon_from(responses, variant, discarder, offset + 1)
            }
        }
    }

    /// The seat whose call takes the pending discard: the nearest pon, else a chi by the
    /// next seat.
    pub open spec fn claimant(self) -> Option<int> {
        let pending = self.spec_phase()->Responses_0;
        let variant = self.spec_rules().variant;
        let d = pending.discarder@ as int;
        match Self::pon_from(pending.responses@, variant, d, 1) {
            Some(seat) => Some(seat),
            None => {
                let next = seat_after(variant, d, 1);
                if pending.responses@[next] matches Some(Reaction::Chi { .. }) {
                    Some(next)
                } else {
                    None
                }
            },
        }
    }

    /// The two hand tiles a chi or pon answer picks.
    pub open spec fn picked_ids(answer: Reaction) -> Seq<TileId> {
        match answer {
            Reaction::Chi { hand_tiles } => hand_tiles@,
            Reaction::Pon { hand_tiles } => hand_tiles@,
            _ => Seq::empty(),
        }
    }

    /// `after` is this hand once the claimant took the pending discard, which produced
    /// `events`: by an open kan or by a chi or pon, as the claimant answered.
    pub open spec fn call_applied(self, after: RiichiHand, events: Seq<HandEvent>) -> bool {
        let pending = self.spec_phase()->Responses_0;
        let answer = pending.responses@[self.claimant()->Some_0]->Some_0;
        if answer is OpenKan {
            self.open_kan_applied(after, events)
        } else {
            self.pair_call_applied(after, events)
        }
    }

    /// `meld` is `expected`: same id, kind, tiles and call reference.
    pub open spec fn same_meld(meld: Meld, expected: Meld) -> bool {
        &&& meld.spec_id() == expected.spec_id()
        &&& meld.spec_kind() == expected.spec_kind()
        &&& meld.spec_tiles() == expected.spec_tiles()
        &&& meld.spec_called_from() == expected.spec_called_from()
        &&& meld.spec_called_tile() == expected.spec_called_tile()
    }

    /// The kan counters once `seat` completed one more kan (a counter stops at 255).
    pub open spec fn counted_kan(counts: Seq<u8>, seat: int) -> Seq<u8> {
        counts.update(seat, if counts[seat] < 255 { (counts[seat] + 1) as u8 } else { 255u8 })
    }

    /// `after` is this hand once the claimant took the pending discard with an open kan, which
    /// produced `events`: the three picked tiles and the discard form the kan in meld order,
    /// the discard is marked as claimed and every ippatsu chance ends; the kan is completed
    /// and counted. With the fourth kan of the table by two or more seats (when that rule is
    /// on) the hand ends in an abortive draw; otherwise the next dora indicator is revealed
    /// (when kan dora is on and one is left), the caller draws the next rinshan tile, which
    /// clears temporary furiten, and must act.
    pub open spec fn open_kan_applied(self, after: RiichiHand, events: Seq<HandEvent>) -> bool {
        let pending = self.spec_phase()->Responses_0;
        let n = self.seat_count();
        let d = pending.discarder@ as int;
        let c = self.claimant()->Some_0;
        let ids = pending.responses@[c]->Some_0->OpenKan_hand_tiles@;
        let called = self.pending_tile();
        let before = self.spec_players()[c];
        let c0 = before.spec_concealed();
        let i0 = index_of_id(c0, ids[0]);
        let c1 = swap_removed(c0, i0);
        let i1 = index_of_id(c1, ids[1]);
        let c2 = swap_removed(c1, i1);
        let i2 = index_of_id(c2, ids[2]);
        let c3 = swap_removed(c2, i2);
        let tiles = sorted4(c0[i0], c1[i1], c2[i2], called);
        let caller = after.spec_players()[c];
        let meld = caller.spec_melds().last();
        let counts = Self::counted_kan(self.spec_kan_counts(), c);
        let aborted = self.spec_rules().abortive_draws.four_kans && kan_total(counts) == 4 && kan_declarers(counts)
            >= 2;
        let wall = self.spec_wall();
        let dora = self.spec_rules().bonuses.kan_dora && wall.spec_revealed_dora() < 5;
        let rinshan = wall.spec_dead_tile(rinshan_offset(wall.spec_rinshan_draws() as int));
        let any_ippatsu = exists|k: int| 0 <= k < n && #[trigger] self.spec_players()[k].spec_ippatsu();
        let m = if any_ippatsu { 1int } else { 0int };
        let r = if dora { 1int } else { 0int };
        let f = if before.spec_temporary_furiten() { 1int } else { 0int };
        let cs = after.spec_players()[d].spec_discards()[pending.discard_index as int].spec_claimed_by()->Some_0;
        &&& after.spec_rules() == self.spec_rules()
        &&& after.spec_progress() == self.spec_progress()
        &&& after.spec_calls_occurred()
        &&& after.spec_kan_counts() == counts
        &&& after.spec_players().len() == n
        &&& forall|k: int|
            #![trigger after.spec_players()[k]]
            0 <= k < n ==> {
                let b = self.spec_players()[k];
                let a = after.spec_players()[k];
                &&& a.spec_points() == b.spec_points()
                &&& a.spec_riichi() == b.spec_riichi()
                &&& a.spec_double_riichi() == b.spec_double_riichi()
                &&& a.spec_riichi_furiten() == b.spec_riichi_furiten()
                &&& !a.spec_ippatsu()
                &&& k != c ==> a.spec_concealed() == b.spec_concealed() && a.spec_drawn_tile() == b.spec_drawn_tile()
                    && a.spec_melds() == b.spec_melds() && a.spec_temporary_furiten() == b.spec_temporary_furiten()
                &&& k != d ==> a.spec_discards() == b.spec_discards()
            }
        &&& caller.spec_melds().drop_last() == before.spec_melds()
        &&& caller.spec_melds().len() == before.spec_melds().len() + 1
        &&& meld.spec_id()@ == (if before.spec_melds().len() < 255 { before.spec_melds().len() as int } else { 255 })
        &&& meld.spec_kind() == MeldKind::OpenKan
        &&& meld.spec_tiles() == tiles
        &&& meld.spec_called_from() == Some(pending.discarder)
        &&& meld.spec_called_tile() == Some(called.spec_id())
        &&& after.spec_players()[d].spec_discards().len() == self.spec_players()[d].spec_discards().len()
        &&& forall|j: int|
            0 <= j < self.spec_players()[d].spec_discards().len() && j != pending.discard_index ==> #[trigger] after.spec_players()[d].spec_discards()[j]
                == self.spec_players()[d].spec_discards()[j]
        &&& after.spec_players()[d].spec_discards()[pending.discard_index as int].spec_tile() == called
        &&& after.spec_players()[d].spec_discards()[pending.discard_index as int].spec_claimed_by() is Some
        &&& cs@ == c
        &&& events.len() >= m + 2
        &&& events[0] matches HandEvent::MeldDeclared { seat: declared_by, meld: declared }
        &&& declared_by@ == c
        &&& Self::same_meld(declared, meld)
        &&& any_ippatsu ==> (events[1] matches HandEvent::IppatsuCancelled { seats } && seats@.map_values(
            |s: Seat| s@ as int,
        ) == marked_seats(Seq::new(n as nat, |k: int| self.spec_players()[k].spec_ippatsu())))
        &&& events[m + 1] matches HandEvent::KanCompleted { seat: completed_by, meld: completed }
        &&& completed_by@ == c
        &&& Self::same_meld(completed, meld)
        &&& if aborted {
            &&& after.spec_wall() == wall
            &&& caller.spec_concealed() == c3
            &&& caller.spec_drawn_tile() is None
            &&& caller.spec_temporary_furiten() == before.spec_temporary_furiten()
            &&& after.spec_phase() == Phase::Ended(EndReason::FourKans)
            &&& events.len() == m + 3
            &&& events[m + 2] == HandEvent::AbortiveDrawDeclared { reason: EndReason::FourKans, declarer: None }
        } else {
            &&& after.spec_wall().spec_variant() == wall.spec_variant()
            &&& after.spec_wall().spec_tiles() == wall.spec_tiles()
            &&& after.spec_wall().spec_live_draws() == wall.spec_live_draws()
            &&& after.spec_wall().spec_live_end() == wall.spec_live_end()
            &&& after.spec_wall().spec_rinshan_draws() == wall.spec_rinshan_draws() + 1
            &&& after.spec_wall().spec_revealed_dora() == wall.spec_revealed_dora() + r
            &&& caller.spec_concealed() == c3.push(rinshan)
            &&& caller.spec_drawn_tile() == Some(rinshan.spec_id())
            &&& !caller.spec_temporary_furiten()
            &&& after.spec_phase() == Phase::TurnAction { seat: cs, draw_source: DrawSource::Rinshan }
            &&& events.len() == m + 2 + r + f + 1
            &&& dora ==> events[m + 2] == HandEvent::DoraIndicatorRevealed {
                tile: wall.spec_dead_tile(dora_offset(wall.spec_revealed_dora() as int)),
                revealed_count: (wall.spec_revealed_dora() + 1) as u8,
            }
            &&& before.spec_temporary_furiten() ==> events[m + 2 + r] == HandEvent::FuritenChanged {
                seat: cs,
                temporary: false,
                riichi: before.spec_riichi_furiten(),
            }
            &&& events[m + 2 + r + f] == HandEvent::TileDrawn {
                seat: cs,
                tile: rinshan,
                source: DrawSource::Rinshan,
                remaining_live_draws: (wall.spec_remaining() - 1) as usize,
            }
        }
    }

    /// `after` is this hand once the claimant took the pending discard with a chi or pon, which
    /// produced `events`: the two picked tiles and the discard form a meld in kind order, the
    /// discard is marked as claimed, every ippatsu chance ends, and the caller must discard
    /// next, with the kinds kuikae forbids.
    pub open spec fn pair_call_applied(self, after: RiichiHand, events: Seq<HandEvent>) -> bool {
        let pending = self.spec_phase()->Responses_0;
        let n = self.seat_count();
        let d = pending.discarder@ as int;
        let c = self.claimant()->Some_0;
        let answer = pending.responses@[c]->Some_0;
        let ids = Self::picked_ids(answer);
        let chi = answer is Chi;
        let called = self.pending_tile();
        let before = self.spec_players()[c];
        let c0 = before.spec_concealed();
        let i0 = index_of_id(c0, ids[0]);
        let c1 = swap_removed(c0, i0);
        let i1 = index_of_id(c1, ids[1]);
        let tiles = sorted3(c0[i0], c1[i1], called);
        let caller = after.spec_players()[c];
        let meld = caller.spec_melds().last();
        &&& after.spec_rules() == self.spec_rules()
        &&& after.spec_progress() == self.spec_progress()
        &&& after.spec_wall() == self.spec_wall()
        &&& after.spec_calls_occurred()
        &&& after.spec_players().len() == n
        &&& forall|k: int|
            #![trigger after.spec_players()[k]]
            0 <= k < n ==> {
                let b = self.spec_players()[k];
                let a = after.spec_players()[k];
                &&& a.spec_points() == b.spec_points()
                &&& a.spec_riichi() == b.spec_riichi()
                &&& a.spec_double_riichi() == b.spec_double_riichi()
                &&& a.spec_temporary_furiten() == b.spec_temporary_furiten()
                &&& a.spec_riichi_furiten() == b.spec_riichi_furiten()
                &&& !a.spec_ippatsu()
                &&& k != c ==> a.spec_concealed() == b.spec_concealed() && a.spec_drawn_tile() == b.spec_drawn_tile()
                    && a.spec_melds() == b.spec_melds()
                &&& k != d ==> a.spec_discards() == b.spec_discards()
            }
        &&& caller.spec_concealed() == swap_removed(c1, i1)
        &&& caller.spec_drawn_tile() is None
        &&& caller.spec_melds().drop_last() == before.spec_melds()
        &&& caller.spec_melds().len() == before.spec_melds().len() + 1
        &&& meld.spec_id()@ == (if before.spec_melds().len() < 255 { before.spec_melds().len() as int } else { 255 })
        &&& meld.spec_kind() == (if chi { MeldKind::Chi } else { MeldKind::Pon })
        &&& meld.spec_tiles() == tiles
        &&& meld.spec_called_from() == Some(pending.discarder)
        &&& meld.spec_called_tile() == Some(called.spec_id())
        &&& after.spec_phase() matches Phase::DiscardAfterCall { seat, forbidden_discards }
        &&& seat@ == c
        &&& forbidden_discards@.map_values(|kind: TileKind| kind@ as int) == forbidden_indices(
            self.spec_rules().calls.kuikae,
            chi,
            called.spec_kind()@ as int,
            tiles[0].spec_kind()@ as int,
            tiles[2].spec_kind()@ as int,
        )
        &&& after.spec_players()[d].spec_discards().len() == self.spec_players()[d].spec_discards().len()
        &&& forall|j: int|
            0 <= j < self.spec_players()[d].spec_discards().len() && j != pending.discard_index ==> #[trigger] after.spec_players()[d].spec_discards()[j]
                == self.spec_players()[d].spec_discards()[j]
        &&& after.spec_players()[d].spec_discards()[pending.discard_index as int].spec_tile() == called
        &&& after.spec_players()[d].spec_discards()[pending.discard_index as int].spec_claimed_by() == Some(seat)
        &&& events.len() >= 1
        &&& events[0] matches HandEvent::MeldDeclared { seat: declared_by, meld: declared }
        &&& declared_by == seat
        &&& declared.spec_id() == meld.spec_id()
        &&& declared.spec_kind() == meld.spec_kind()
        &&& declared.spec_tiles() == meld.spec_tiles()
        &&& declared.spec_called_from() == meld.spec_called_from()
        &&& declared.spec_called_tile() == meld.spec_called_tile()
        &&& (exists|k: int| 0 <= k < n && #[trigger] self.spec_players()[k].spec_ippatsu()) ==> {
            &&& events.len() == 2
            &&& events[1] matches HandEvent::IppatsuCancelled { seats }
            &&& seats@.map_values(|s: Seat| s@ as int) == marked_seats(
                Seq::new(n as nat, |k: int| self.spec_players()[k].spec_ippatsu()),
            )
        }
        &&& !(exists|k: int| 0 <= k < n && #[trigger] self.spec_players()[k].spec_ippatsu()) ==> events.len() == 1
    }

    fn claimant_seat(&self) -> (r: Option<Seat>)
        requires
            self.wf(),
            self.spec_phase() is Responses,
        ensures
            r is None == self.claimant() is None,
            r matches Some(seat) ==> self.claimant() == Some(seat@ as int) && seat@ < self.seat_count(),
    {
        let count = self.rules.variant.seat_count().value();
        let ghost variant = self.rules.variant;
        let (discarder, responses) = match &self.phase {
            Phase::Responses(pending) => (pending.discarder, &pending.responses),
            _ => {
                proof {
                    assert(false);
                }
                return None;
            },
        };
        let mut offset: u8 = 1;
        while offset < count
            invariant
                1 <= offset <= count,
                variant == self.rules.variant,
                count == seat_count_of(variant),
                discarder@ < count,
                responses@.len() == count,
                self.spec_phase() is Responses,
                self.spec_phase()->Responses_0.responses@ == responses@,
                self.spec_phase()->Responses_0.discarder == discarder,
                Self::pon_from(responses@, variant, discarder@ as int, 1) == Self::pon_from(
                    responses@,
                    variant,
                    discarder@ as int,
                    offset as int,
                ),
            decreases count - offset,
        {
            let seat = seat_at_offset(self.rules.variant, discarder, offset);
            proof {
                lemma_offset_roundtrip(variant, discarder@ as int, offset as int);
            }
            match &responses[seat.index() as usize] {
                Some(Reaction::Pon { .. }) => return Some(seat),
                Some(Reaction::OpenKan { .. }) => return Some(seat),
                _ => {},
            }
            offset = offset + 1;
        }
        let next = seat_at_offset(self.rules.variant, discarder, 1);
        proof {
            lemma_offset_roundtrip(variant, discarder@ as int, 1);
        }
        match &responses[next.index() as usize] {
            Some(Reaction::Chi { .. }) => Some(next),
            _ => None,
        }
    }

    fn meld_order(a: Tile, b: Tile, c: Tile) -> (r: Vec<Tile>)
        ensures
            r@ == sorted3(a, b, c),
    {
        let before = |x: Tile, y: Tile| -> (r: bool)
            ensures
                r == tile_before(x, y),
            { x.kind().index() < y.kind().index() || (x.kind().index() == y.kind().index() && x.id().value() <= y.id().value()) };
        let mut tiles: Vec<Tile> = Vec::new();
        if before(a, b) {
            if before(b, c) {
                tiles.push(a);
                tiles.push(b);
                tiles.push(c);
            } else if before(a, c) {
                tiles.push(a);
                tiles.push(c);
                tiles.push(b);
            } else {
                tiles.push(c);
                tiles.push(a);
                tiles.push(b);
            }
        } else {
            if before(a, c) {
                tiles.push(b);
                tiles.push(a);
                tiles.push(c);
            } else if before(b, c) {
                tiles.push(b);
                tiles.push(c);
                tiles.push(a);
            } else {
                tiles.push(c);
                tiles.push(b);
                tiles.push(a);
            }
        }
        proof {
            assert(tiles@ =~= sorted3(a, b, c));
        }
        tiles
    }

    fn forbidden_after_call(kuikae: KuikaeRule, chi: bool, called: TileKind, low: TileKind, high: TileKind) -> (r: Vec<TileKind>)
        requires
            chi ==> called@ < 27,
        ensures
            r@.map_values(|kind: TileKind| kind@ as int) == forbidden_indices(kuikae, chi, called@ as int, low@ as int, high@ as int),
    {
        let c = called.index();
        let mut kinds: Vec<TileKind> = Vec::new();
        if kuikae == KuikaeRule::Allowed {
            proof {
                assert(kinds@.map_values(|kind: TileKind| kind@ as int) =~= forbidden_indices(kuikae, chi, c as int, low@ as int, high@ as int));
            }
            return kinds;
        }
        if kuikae == KuikaeRule::Forbidden && chi && c == low.index() && c % 9 <= 5 {
            match TileKind::from_index((c + 3) as u8) {
                Ok(replacement) => {
                    kinds.push(called);
                    kinds.push(replacement);
                },
                Err(_) => kinds.push(called),
            }
        } else if kuikae == KuikaeRule::Forbidden && chi && c == high.index() && c % 9 >= 3 && c != low.index() {
            match TileKind::from_index((c - 3) as u8) {
                Ok(replacement) => {
                    kinds.push(replacement);
                    kinds.push(called);
                },
                Err(_) => kinds.push(called),
            }
        } else {
            kinds.push(called);
        }
        proof {
            assert(kinds@.map_values(|kind: TileKind| kind@ as int) =~= forbidden_indices(kuikae, chi, c as int, low@ as int, high@ as int));
        }
        kinds
    }

    proof fn lemma_pon_from(responses: Seq<Option<Reaction>>, variant: RiichiVariant, discarder: int, offset: int)
        requires
            0 <= discarder < seat_count_of(variant),
        ensures
            Self::pon_from(responses, variant, discarder, offset) matches Some(seat) ==> {
                &&& (responses[seat] matches Some(Reaction::Pon { .. })) || (responses[seat] matches Some(
                    Reaction::OpenKan { .. },
                ))
                &&& 0 <= seat < seat_count_of(variant)
                &&& seat != discarder
            },
        decreases seat_count_of(variant) - offset,
    {
        if offset <= 0 || offset >= seat_count_of(variant) {
        } else {
            lemma_offset_roundtrip(variant, discarder, offset);
            lemma_offset_bound(variant, discarder, discarder);
            Self::lemma_pon_from(responses, variant, discarder, offset + 1);
        }
    }

    /// The claimant answered with a call, and is not the discarder.
    proof fn lemma_claimant(self)
        requires
            self.wf(),
            self.spec_phase() is Responses,
        ensures
            self.claimant() matches Some(seat) ==> {
                let answer = self.spec_phase()->Responses_0.responses@[seat];
                &&& (answer matches Some(Reaction::Pon { .. })) || (answer matches Some(Reaction::OpenKan { .. }))
                    || (answer matches Some(Reaction::Chi { .. }))
                &&& 0 <= seat < self.seat_count()
                &&& seat != self.spec_phase()->Responses_0.discarder@
            },
    {
        let pending = self.spec_phase()->Responses_0;
        let variant = self.spec_rules().variant;
        let d = pending.discarder@ as int;
        Self::lemma_pon_from(pending.responses@, variant, d, 1);
        lemma_offset_roundtrip(variant, d, 1);
        lemma_offset_bound(variant, d, d);
    }

    fn order_pair(a: Tile, b: Tile) -> (r: (Tile, Tile))
        ensures
            r == order2(a, b),
    {
        if a.kind().index() < b.kind().index() || (a.kind().index() == b.kind().index() && a.id().value() <= b.id().value()) {
            (a, b)
        } else {
            (b, a)
        }
    }

    fn meld_order4(a: Tile, b: Tile, c: Tile, d: Tile) -> (r: Vec<Tile>)
        ensures
            r@ == sorted4(a, b, c, d),
    {
        let (p0, p1) = Self::order_pair(a, b);
        let (q0, q1) = Self::order_pair(c, d);
        let (l0, l1) = Self::order_pair(p0, q0);
        let (h0, h1) = Self::order_pair(p1, q1);
        let (m0, m1) = Self::order_pair(l1, h0);
        let mut tiles: Vec<Tile> = Vec::new();
        tiles.push(l0);
        tiles.push(m0);
        tiles.push(m1);
        tiles.push(h1);
        proof {
            assert(tiles@ =~= sorted4(a, b, c, d));
        }
        tiles
    }

    /// Ends every player's ippatsu chance; gives the seats that had one, in seat order.
    fn end_every_ippatsu(&mut self) -> (r: Vec<Seat>)
        requires
            old(self).players@.len() == seat_count_of(old(self).rules.variant),
        ensures
            final(self).rules == old(self).rules,
            final(self).progress == old(self).progress,
            final(self).wall == old(self).wall,
            final(self).phase == old(self).phase,
            final(self).kan_counts == old(self).kan_counts,
            final(self).calls_occurred == old(self).calls_occurred,
            final(self).players@.len() == old(self).players@.len(),
            forall|j: int|
                #![trigger final(self).players@[j]]
                0 <= j < old(self).players@.len() ==> {
                    &&& final(self).players@[j].keeps_record_of(old(self).players@[j])
                    &&& final(self).players@[j].spec_concealed() == old(self).players@[j].spec_concealed()
                    &&& final(self).players@[j].spec_drawn_tile() == old(self).players@[j].spec_drawn_tile()
                    &&& final(self).players@[j].spec_discards() == old(self).players@[j].spec_discards()
                    &&& final(self).players@[j].spec_temporary_furiten() == old(self).players@[j].spec_temporary_furiten()
                    &&& final(self).players@[j].spec_riichi_furiten() == old(self).players@[j].spec_riichi_furiten()
                    &&& !final(self).players@[j].spec_ippatsu()
                },
            r@.map_values(|s: Seat| s@ as int) == marked_seats(
                Seq::new(old(self).players@.len(), |k: int| old(self).players@[k].spec_ippatsu()),
            ),
    {
        let count = self.rules.variant.seat_count().value();
        let ghost mid = self.players@;
        let ghost before_loop = *self;
        let ghost flags = Seq::new(count as nat, |k: int| mid[k].spec_ippatsu());
        let mut cancelled: Vec<Seat> = Vec::new();
        let mut k: u8 = 0;
        while k < count
            invariant
                k <= count,
                count == seat_count_of(self.rules.variant),
                self.rules == before_loop.rules,
                self.progress == before_loop.progress,
                self.wall == before_loop.wall,
                self.phase == before_loop.phase,
                self.kan_counts == before_loop.kan_counts,
                self.calls_occurred == before_loop.calls_occurred,
                self.players@.len() == count,
                mid.len() == count,
                flags.len() == count,
                forall|j: int| 0 <= j < count ==> #[trigger] flags[j] == mid[j].spec_ippatsu(),
                forall|j: int| #![trigger self.players@[j]] 0 <= j < k ==> {
                    &&& self.players@[j].keeps_record_of(mid[j])
                    &&& self.players@[j].spec_concealed() == mid[j].spec_concealed()
                    &&& self.players@[j].spec_drawn_tile() == mid[j].spec_drawn_tile()
                    &&& self.players@[j].spec_discards() == mid[j].spec_discards()
                    &&& self.players@[j].spec_temporary_furiten() == mid[j].spec_temporary_furiten()
                    &&& self.players@[j].spec_riichi_furiten() == mid[j].spec_riichi_furiten()
                    &&& !self.players@[j].spec_ippatsu()
                },
                forall|j: int| k <= j < count ==> #[trigger] self.players@[j] == mid[j],
                cancelled@.map_values(|s: Seat| s@ as int) == marked_seats(flags.take(k as int)),
            decreases count - k,
        {
            let had = self.players[k as usize].end_ippatsu();
            proof {
                assert(flags.take(k as int + 1).drop_last() =~= flags.take(k as int));
            }
            if had {
                match Seat::new(self.rules.variant, k) {
                    Ok(seat) => cancelled.push(seat),
                    Err(_) => {},
                }
            }
            proof {
                assert(cancelled@.map_values(|s: Seat| s@ as int) =~= marked_seats(flags.take(k as int + 1)));
            }
            k = k + 1;
        }
        proof {
            assert(flags.take(count as int) =~= flags);
        }
        cancelled
    }

    /// The claimant `caller` takes the pending discard with an open kan on the three tiles
    /// `ids`, completes the kan and draws a rinshan tile (or the hand ends on a fourth kan).
    #[verifier::spinoff_prover]
    #[verifier::rlimit(100)]
    fn apply_open_kan(&mut self, caller: Seat, discarder: Seat, discard_index: usize, ids: [TileId; 3]) -> (r: HandTransition)
        requires
            old(self).wf(),
            old(self).spec_phase() matches Phase::Responses(pending) && pending.discarder == discarder
                && pending.discard_index == discard_index && pending.responses@[caller@ as int] == Some(
                Reaction::OpenKan { hand_tiles: ids },
            ),
            old(self).claimant() == Some(caller@ as int),
            caller@ < old(self).seat_count(),
            forall|k: int|
                0 <= k < old(self).seat_count() ==> #[trigger] old(self).spec_players()[k].spec_riichi()
                    != RiichiStatus::Pending,
        ensures
            final(self).wf(),
            old(self).open_kan_applied(*final(self), r.spec_events()),
    {
        let ghost start = *self;
        let count = self.rules.variant.seat_count().value();
        let c = caller.index() as usize;
        let d = discarder.index() as usize;
        let called = self.players[d].discards()[discard_index].tile();
        let ghost c0 = self.players@[c as int].spec_concealed();
        proof {
            assert(claim_held(Some(Reaction::OpenKan { hand_tiles: ids }), c0, called.spec_kind(), kan_room(start.wall)));
            assert(ids@[0] == ids[0] && ids@[1] == ids[1] && ids@[2] == ids[2]);
        }
        let i0 = match position_of_id(self.players[c].concealed(), ids[0]) {
            Some(index) => index,
            None => {
                proof {
                    assert(false);
                }
                return HandTransition::empty();
            },
        };
        proof {
            lemma_index_of_id(c0, ids@[0], i0 as int);
            lemma_still_held(c0, i0 as int, ids@[0], ids@[1]);
            lemma_still_held(c0, i0 as int, ids@[0], ids@[2]);
        }
        let first = self.players[c].remove_concealed_at(i0);
        let ghost c1 = self.players@[c as int].spec_concealed();
        let i1 = match position_of_id(self.players[c].concealed(), ids[1]) {
            Some(index) => index,
            None => {
                proof {
                    assert(false);
                }
                return HandTransition::empty();
            },
        };
        proof {
            lemma_index_of_id(c1, ids@[1], i1 as int);
            lemma_still_held(c1, i1 as int, ids@[1], ids@[2]);
        }
        let second = self.players[c].remove_concealed_at(i1);
        let ghost c2 = self.players@[c as int].spec_concealed();
        let i2 = match position_of_id(self.players[c].concealed(), ids[2]) {
            Some(index) => index,
            None => {
                proof {
                    assert(false);
                }
                return HandTransition::empty();
            },
        };
        proof {
            lemma_index_of_id(c2, ids@[2], i2 as int);
        }
        let third = self.players[c].remove_concealed_at(i2);
        let held = self.players[c].melds().len();
        let id = MeldId::new(if held < 255 { held as u8 } else { 255 });
        let declared = Meld::new(id, MeldKind::OpenKan, Self::meld_order4(first, second, third, called), Some(discarder), Some(called.id()));
        let completed = Meld::new(id, MeldKind::OpenKan, Self::meld_order4(first, second, third, called), Some(discarder), Some(called.id()));
        self.players[c].add_meld(Meld::new(id, MeldKind::OpenKan, Self::meld_order4(first, second, third, called), Some(discarder), Some(called.id())));
        self.players[d].mark_discard_claimed(discard_index, caller);
        self.calls_occurred = true;
        let ghost marked = self.players@;
        let cancelled = self.end_every_ippatsu();
        let any_cancelled = cancelled.len() > 0;
        let mut events: Vec<HandEvent> = Vec::new();
        events.push(HandEvent::MeldDeclared { seat: caller, meld: declared });
        if any_cancelled {
            events.push(HandEvent::IppatsuCancelled { seats: cancelled });
        }
        events.push(HandEvent::KanCompleted { seat: caller, meld: completed });
        let ghost flags = Seq::new(count as nat, |k: int| start.spec_players()[k].spec_ippatsu());
        proof {
            assert(Seq::new(marked.len(), |k: int| marked[k].spec_ippatsu()) =~= flags);
            if exists|j: int| 0 <= j < count && #[trigger] start.spec_players()[j].spec_ippatsu() {
                let j = choose|j: int| 0 <= j < count && #[trigger] start.spec_players()[j].spec_ippatsu();
                assert(flags[j]);
                lemma_marked_nonempty(flags, j);
            } else {
                assert forall|j: int| 0 <= j < count implies !#[trigger] flags[j] by {
                    assert(!start.spec_players()[j].spec_ippatsu());
                }
                lemma_marked_empty(flags);
            }
        }
        let _remaining = self.wall.remaining_live_draws();
        let previous = self.kan_counts[c];
        let next_count: u8 = if previous < 255 { previous + 1 } else { 255 };
        self.kan_counts.set(c, next_count);
        proof {
            assert(self.kan_counts@ =~= Self::counted_kan(start.kan_counts@, c as int));
        }
        let total = kan_total_of(&self.kan_counts);
        let declarers = kan_declarers_of(&self.kan_counts);
        if self.rules.abortive_draws.four_kans && total == 4 && declarers >= 2 {
            self.phase = Phase::Ended(EndReason::FourKans);
            events.push(HandEvent::AbortiveDrawDeclared { reason: EndReason::FourKans, declarer: None });
            proof {
            let after = *self;
            let pending = start.spec_phase()->Responses_0;
            assert(start.claimant()->Some_0 == c);
            assert(pending.responses@[c as int]->Some_0->OpenKan_hand_tiles@ == ids@);
            assert(index_of_id(c0, ids@[0]) == i0);
            assert(index_of_id(c1, ids@[1]) == i1);
            assert(index_of_id(c2, ids@[2]) == i2);
            let caller_after = after.spec_players()[c as int];
            assert(caller_after.spec_melds().last().spec_tiles() == sorted4(first, second, third, called));
            assert(after.spec_kan_counts() == Self::counted_kan(start.spec_kan_counts(), c as int));
            assert(after.spec_players()[d as int].spec_discards()[discard_index as int].spec_claimed_by() == Some(caller));
            let n = start.seat_count();
            assert(after.spec_players().len() == n);
            assert forall|k: int| 0 <= k < n implies {
                let b = start.spec_players()[k];
                let a = #[trigger] after.spec_players()[k];
                &&& a.spec_points() == b.spec_points()
                &&& a.spec_riichi() == b.spec_riichi()
                &&& a.spec_double_riichi() == b.spec_double_riichi()
                &&& a.spec_riichi_furiten() == b.spec_riichi_furiten()
                &&& !a.spec_ippatsu()
                &&& k != c ==> a.spec_concealed() == b.spec_concealed() && a.spec_drawn_tile() == b.spec_drawn_tile()
                    && a.spec_melds() == b.spec_melds() && a.spec_temporary_furiten() == b.spec_temporary_furiten()
                &&& k != d ==> a.spec_discards() == b.spec_discards()
            } by {}
            assert(caller_after.spec_melds().drop_last() == start.spec_players()[c as int].spec_melds());
            let any_ippatsu = exists|k: int| 0 <= k < n && #[trigger] start.spec_players()[k].spec_ippatsu();
            let m = if any_ippatsu { 1int } else { 0int };
            assert(events@.len() >= m + 2);
            assert(events@[0] matches HandEvent::MeldDeclared { seat: declared_by, meld: declared } && declared_by@ == c
                && Self::same_meld(declared, caller_after.spec_melds().last()));
            assert(events@[m + 1] matches HandEvent::KanCompleted { seat: declared_by, meld: declared } && declared_by@ == c
                && Self::same_meld(declared, caller_after.spec_melds().last()));
            }
            return HandTransition::new(events);
        }
        if self.rules.bonuses.kan_dora {
            match self.wall.reveal_next_dora() {
                Ok(indicator) => {
                    events.push(
                        HandEvent::DoraIndicatorRevealed { tile: indicator, revealed_count: self.wall.revealed_dora_count() },
                    );
                },
                Err(_) => {},
            }
        }
        let tile = match self.wall.draw_rinshan() {
            Ok(tile) => tile,
            Err(_) => {
                proof {
                    assert(false);
                }
                return HandTransition::new(events);
            },
        };
        let ghost drawn_from = self.players@;
        let cleared = self.players[c].draw(tile);
        self.phase = Phase::TurnAction { seat: caller, draw_source: DrawSource::Rinshan };
        if cleared {
            events.push(
                HandEvent::FuritenChanged { seat: caller, temporary: false, riichi: self.players[c].is_riichi_furiten() },
            );
        }
        events.push(
            HandEvent::TileDrawn {
                seat: caller,
                tile,
                source: DrawSource::Rinshan,
                remaining_live_draws: self.wall.remaining_live_draws(),
            },
        );
        proof {
            assert forall|j: int| 0 <= j < count && j != c implies #[trigger] self.players@[j] == drawn_from[j] by {}
            let last = self.players@[c as int].spec_concealed().len() - 1;
            assert(self.players@[c as int].spec_concealed()[last].spec_id() == tile.spec_id());
            let after = *self;
            let pending = start.spec_phase()->Responses_0;
            assert(start.claimant()->Some_0 == c);
            assert(pending.responses@[c as int]->Some_0->OpenKan_hand_tiles@ == ids@);
            assert(index_of_id(c0, ids@[0]) == i0);
            assert(index_of_id(c1, ids@[1]) == i1);
            assert(index_of_id(c2, ids@[2]) == i2);
            let caller_after = after.spec_players()[c as int];
            assert(caller_after.spec_melds().last().spec_tiles() == sorted4(first, second, third, called));
            assert(after.spec_kan_counts() == Self::counted_kan(start.spec_kan_counts(), c as int));
            assert(after.spec_players()[d as int].spec_discards()[discard_index as int].spec_claimed_by() == Some(caller));
            assert(after.spec_phase() == Phase::TurnAction { seat: caller, draw_source: DrawSource::Rinshan });
            assert(caller_after.spec_concealed() == self.players@[c as int].spec_concealed());
            let n = start.seat_count();
            assert(after.spec_players().len() == n);
            assert forall|k: int| 0 <= k < n implies {
                let b = start.spec_players()[k];
                let a = #[trigger] after.spec_players()[k];
                &&& a.spec_points() == b.spec_points()
                &&& a.spec_riichi() == b.spec_riichi()
                &&& a.spec_double_riichi() == b.spec_double_riichi()
                &&& a.spec_riichi_furiten() == b.spec_riichi_furiten()
                &&& !a.spec_ippatsu()
                &&& k != c ==> a.spec_concealed() == b.spec_concealed() && a.spec_drawn_tile() == b.spec_drawn_tile()
                    && a.spec_melds() == b.spec_melds() && a.spec_temporary_furiten() == b.spec_temporary_furiten()
                &&& k != d ==> a.spec_discards() == b.spec_discards()
            } by {}
            assert(caller_after.spec_melds().drop_last() == start.spec_players()[c as int].spec_melds());
            let any_ippatsu = exists|k: int| 0 <= k < n && #[trigger] start.spec_players()[k].spec_ippatsu();
            let m = if any_ippatsu { 1int } else { 0int };
            assert(events@.len() >= m + 2);
            assert(events@[0] matches HandEvent::MeldDeclared { seat: declared_by, meld: declared } && declared_by@ == c
                && Self::same_meld(declared, caller_after.spec_melds().last()));
            assert(events@[m + 1] matches HandEvent::KanCompleted { seat: declared_by, meld: declared } && declared_by@ == c
                && Self::same_meld(declared, caller_after.spec_melds().last()));
        }
        HandTransition::new(events)
    }

    fn apply_claim(&mut self) -> (r: HandTransition)
        requires
            old(self).wf(),
            old(self).spec_phase() is Responses,
            old(self).claimant() is Some,
            forall|k: int|
                0 <= k < old(self).seat_count() ==> #[trigger] old(self).spec_players()[k].spec_riichi()
                    != RiichiStatus::Pending,
        ensures
            final(self).wf(),
            old(self).call_applied(*final(self), r.spec_events()),
    {
        let count = self.rules.variant.seat_count().value();
        let caller = match self.claimant_seat() {
            Some(seat) => seat,
            None => {
                proof {
                    assert(false);
                }
                return HandTransition::empty();
            },
        };
        let (discarder, discard_index, answer) = match &self.phase {
            Phase::Responses(pending) => (pending.discarder, pending.discard_index, pending.responses[caller.index() as usize]),
            _ => {
                proof {
                    assert(false);
                }
                return HandTransition::empty();
            },
        };
        proof {
            self.lemma_claimant();
        }
        match answer {
            Some(Reaction::OpenKan { hand_tiles }) => {
                return self.apply_open_kan(caller, discarder, discard_index, hand_tiles);
            },
            _ => {},
        }
        let ghost start = *self;
        let ghost c0 = self.players@[caller@ as int].spec_concealed();
        proof {
            start.lemma_claimant();
        }
        proof {
            assert(claim_held(answer, c0, start.pending_tile().spec_kind(), kan_room(start.wall)));
        }
        let (ids, chi) = match answer {
            Some(Reaction::Chi { hand_tiles }) => (hand_tiles, true),
            Some(Reaction::Pon { hand_tiles }) => (hand_tiles, false),
            _ => {
                proof {
                    assert(false);
                }
                return HandTransition::empty();
            },
        };
        let d = discarder.index() as usize;
        let c = caller.index() as usize;
        let called = self.players[d].discards()[discard_index].tile();
        let i0 = match position_of_id(self.players[c].concealed(), ids[0]) {
            Some(index) => index,
            None => {
                proof {
                    assert(false);
                }
                return HandTransition::empty();
            },
        };
        proof {
            lemma_index_of_id(c0, ids@[0], i0 as int);
            lemma_still_held(c0, i0 as int, ids@[0], ids@[1]);
        }
        let first = self.players[c].remove_concealed_at(i0);
        let ghost c1 = self.players@[c as int].spec_concealed();
        let i1 = match position_of_id(self.players[c].concealed(), ids[1]) {
            Some(index) => index,
            None => {
                proof {
                    assert(false);
                }
                return HandTransition::empty();
            },
        };
        proof {
            lemma_index_of_id(c1, ids@[1], i1 as int);
        }
        let second = self.players[c].remove_concealed_at(i1);
        let tiles = Self::meld_order(first, second, called);
        let low = tiles[0].kind();
        let high = tiles[2].kind();
        let held = self.players[c].melds().len();
        let id = MeldId::new(if held < 255 { held as u8 } else { 255 });
        let kind = if chi { MeldKind::Chi } else { MeldKind::Pon };
        let declared = Meld::new(id, kind, Self::meld_order(first, second, called), Some(discarder), Some(called.id()));
        self.players[c].add_meld(Meld::new(id, kind, tiles, Some(discarder), Some(called.id())));
        self.players[d].mark_discard_claimed(discard_index, caller);
        self.calls_occurred = true;
        let ghost mid = self.players@;
        let ghost before_loop = *self;
        let ghost flags = Seq::new(count as nat, |k: int| start.spec_players()[k].spec_ippatsu());
        let mut cancelled: Vec<Seat> = Vec::new();
        let mut k: u8 = 0;
        while k < count
            invariant
                k <= count,
                count == seat_count_of(self.rules.variant),
                self.rules == before_loop.rules,
                self.progress == before_loop.progress,
                self.wall == before_loop.wall,
                self.phase == before_loop.phase,
                self.kan_counts == before_loop.kan_counts,
                self.calls_occurred == before_loop.calls_occurred,
                self.players@.len() == count,
                mid.len() == count,
                flags.len() == count,
                forall|j: int| 0 <= j < count ==> #[trigger] flags[j] == mid[j].spec_ippatsu(),
                forall|j: int| #![trigger self.players@[j]] 0 <= j < k ==> {
                    &&& self.players@[j].keeps_record_of(mid[j])
                    &&& self.players@[j].spec_concealed() == mid[j].spec_concealed()
                    &&& self.players@[j].spec_drawn_tile() == mid[j].spec_drawn_tile()
                    &&& self.players@[j].spec_discards() == mid[j].spec_discards()
                    &&& self.players@[j].spec_temporary_furiten() == mid[j].spec_temporary_furiten()
                    &&& self.players@[j].spec_riichi_furiten() == mid[j].spec_riichi_furiten()
                    &&& !self.players@[j].spec_ippatsu()
                },
                forall|j: int| k <= j < count ==> #[trigger] self.players@[j] == mid[j],
                cancelled@.map_values(|s: Seat| s@ as int) == marked_seats(flags.take(k as int)),
            decreases count - k,
        {
            let had = self.players[k as usize].end_ippatsu();
            proof {
                assert(flags.take(k as int + 1).drop_last() =~= flags.take(k as int));
            }
            if had {
                match Seat::new(self.rules.variant, k) {
                    Ok(seat) => cancelled.push(seat),
                    Err(_) => {},
                }
            }
            proof {
                assert(cancelled@.map_values(|s: Seat| s@ as int) =~= marked_seats(flags.take(k as int + 1)));
            }
            k = k + 1;
        }
        proof {
            assert(flags.take(count as int) =~= flags);
        }
        let forbidden = Self::forbidden_after_call(self.rules.calls.kuikae, chi, called.kind(), low, high);
        self.phase = Phase::DiscardAfterCall { seat: caller, forbidden_discards: forbidden };
        let any_cancelled = cancelled.len() > 0;
        let mut events: Vec<HandEvent> = Vec::new();
        events.push(HandEvent::MeldDeclared { seat: caller, meld: declared });
        if any_cancelled {
            events.push(HandEvent::IppatsuCancelled { seats: cancelled });
        }
        proof {
            assert(self.players@[c as int].spec_melds().drop_last() =~= start.spec_players()[c as int].spec_melds());
            assert(start.claimant() == Some(c as int));
            if exists|j: int| 0 <= j < count && #[trigger] start.spec_players()[j].spec_ippatsu() {
                let j = choose|j: int| 0 <= j < count && #[trigger] start.spec_players()[j].spec_ippatsu();
                assert(flags[j]);
                lemma_marked_nonempty(flags, j);
            } else {
                assert forall|j: int| 0 <= j < count implies !#[trigger] flags[j] by {
                    assert(!start.spec_players()[j].spec_ippatsu());
                }
                lemma_marked_empty(flags);
            }
        }
        HandTransition::new(events)
    }
}

impl HandError {
    /// A one-line explanation of the refusal.
    #[must_use]
    pub fn message(&self) -> (r: String)
        ensures
            *self == HandError::WrongPhase ==> r@ == "command is not legal in the current phase"@,
            *self == HandError::RiichiMustTsumogiri ==> r@ == "an established riichi hand must discard its drawn tile"@,
            *self == HandError::WinNotAllowed ==> r@ == "the hand judge rejected the win declaration"@,
            *self == HandError::DiscarderCannotReact ==> r@ == "the discarder cannot react to their own tile"@,
            self matches HandError::InvalidSeat { index, seat_count } ==> r@ == "seat index "@ + decimal_chars(
                index as nat,
            ) + " is outside a "@ + decimal_chars(seat_count as nat) + "-player hand"@,
            self matches HandError::TileNotInHand { tile_id } ==> r@ == "tile "@ + decimal_chars(tile_id@ as nat)
                + " is not in the actor's hand"@,
            self matches HandError::AlreadyResponded { seat } ==> r@ == "seat "@ + decimal_chars(seat@ as nat)
                + " already responded"@,
            self matches HandError::RiichiNotAllowed { reason } ==> r@ == reason@,
            self matches HandError::AbortiveDrawNotAllowed { reason } ==> r@ == reason@,
            self matches HandError::InvalidReaction { reason } ==> r@ == reason@,
    {
        match self {
            HandError::InvalidRuleConfiguration(errors) => errors.summary(),
            HandError::VariantMismatch { rules, progress } => {
                let mut text = String::from_str("rule variant ");
                text.append(variant_name(*rules));
                text.append(" does not match progress variant ");
                text.append(variant_name(*progress));
                text
            },
            HandError::PointCount { expected, actual } => {
                let mut text = with_number("expected ", *expected as u64);
                let tail = with_number(" point entries, got ", *actual as u64);
                text.append(tail.as_str());
                text
            },
            HandError::TileSet(error) => match error {
                TileSetError::TooManyRedFives { suit, count } => {
                    let mut text = String::from_str("red-five count for ");
                    text.append(suit_name(*suit));
                    let tail = with_number(" must be at most 4, got ", *count as u64);
                    text.append(tail.as_str());
                    text
                },
                TileSetError::SanmaCannotContainRedManFive => String::from_str(
                    "sanma removes five-man and cannot contain a red five-man",
                ),
            },
            HandError::InvalidSeat { index, seat_count } => {
                let mut text = with_number("seat index ", *index as u64);
                let middle = with_number(" is outside a ", *seat_count as u64);
                text.append(middle.as_str());
                text.append("-player hand");
                text
            },
            HandError::WrongPhase => String::from_str("command is not legal in the current phase"),
            HandError::NotActiveSeat { expected, actual } => {
                let mut text = with_number("seat ", actual.index() as u64);
                let tail = with_number(" cannot act; current seat is ", expected.index() as u64);
                text.append(tail.as_str());
                text
            },
            HandError::TileNotInHand { tile_id } => {
                let mut text = with_number("tile ", tile_id.value() as u64);
                text.append(" is not in the actor's hand");
                text
            },
            HandError::ForbiddenDiscardAfterCall { kind } => {
                let mut text = String::from_str("tile kind ");
                let code = kind.to_string();
                text.append(code.as_str());
                text.append(" is forbidden by call replacement rules");
                text
            },
            HandError::RiichiMustTsumogiri => String::from_str("an established riichi hand must discard its drawn tile"),
            HandError::RiichiNotAllowed { reason } => String::from_str(reason),
            HandError::WinNotAllowed => String::from_str("the hand judge rejected the win declaration"),
            HandError::AbortiveDrawNotAllowed { reason } => String::from_str(reason),
            HandError::NukiNotAllowed { reason } => String::from_str(reason),
            HandError::DuplicateTileSelection => String::from_str(
                "the same physical tile was selected more than once",
            ),
            HandError::InvalidReaction { reason } => String::from_str(reason),
            HandError::CannotCallOnLastDiscard => String::from_str(
                "chi, pon, and kan are unavailable on the last discard",
            ),
            HandError::CannotCallWhileRiichi => String::from_str(
                "an established riichi hand cannot call another player's tile",
            ),
            HandError::KanNotAllowedOnLastDraw => String::from_str(
                "kan is unavailable when the live wall cannot supply a draw",
            ),
            HandError::KanLimitReached => String::from_str("a hand cannot contain more than four kans"),
            HandError::MeldNotFound { meld_id } => {
                let mut text = with_number("meld ", meld_id.value() as u64);
                text.append(" does not exist");
                text
            },
            HandError::MeldCannotBeAddedKan { meld_id } => {
                let mut text = with_number("meld ", meld_id.value() as u64);
                text.append(" is not an open pon");
                text
            },
            HandError::DiscarderCannotReact => String::from_str("the discarder cannot react to their own tile"),
            HandError::DeclarerCannotReact => String::from_str("the kan declarer cannot react to their own kan"),
            HandError::AlreadyResponded { seat } => {
                let mut text = with_number("seat ", seat.index() as u64);
                text.append(" already responded");
                text
            },
            HandError::InvalidTileCode(code) => {
                let mut text = String::from_str("invalid tile code ");
                text.append(code.as_str());
                text
            },
            HandError::WrongConcealedTileCount { expected, actual } => {
                let mut text = with_number("expected ", *expected as u64);
                let tail = with_number(" concealed tiles, got ", *actual as u64);
                text.append(tail.as_str());
                text
            },
        }
    }
}

/// The name a variant is printed with.
fn variant_name(variant: RiichiVariant) -> (r: &'static str)
    ensures
        variant == RiichiVariant::Yonma ==> r@ == "Yonma"@,
        variant == RiichiVariant::Sanma ==> r@ == "Sanma"@,
{
    match variant {
        RiichiVariant::Yonma => "Yonma",
        RiichiVariant::Sanma => "Sanma",
    }
}

/// The name a suit is printed with.
fn suit_name(suit: Suit) -> (r: &'static str)
    ensures
        suit == Suit::Man ==> r@ == "Man"@,
        suit == Suit::Pin ==> r@ == "Pin"@,
        suit == Suit::Sou ==> r@ == "Sou"@,
{
    match suit {
        Suit::Man => "Man",
        Suit::Pin => "Pin",
        Suit::Sou => "Sou",
    }
}

/// The seats the flags mark, in seat order.
fn marked_seat_list(variant: RiichiVariant, flags: &[bool]) -> (r: Vec<Seat>)
    requires
        flags@.len() <= seat_count_of(variant),
    ensures
        r@.map_values(|seat: Seat| seat@ as int) == marked_seats(flags@),
{
    let mut seats: Vec<Seat> = Vec::new();
    let mut index: usize = 0;
    while index < flags.len()
        invariant
            index <= flags@.len(),
            flags@.len() <= seat_count_of(variant),
            seats@.map_values(|seat: Seat| seat@ as int) == marked_seats(flags@.take(index as int)),
        decreases flags@.len() - index,
    {
        proof {
            assert(flags@.take(index as int + 1).drop_last() =~= flags@.take(index as int));
        }
        if flags[index] {
            match Seat::new(variant, index as u8) {
                Ok(seat) => seats.push(seat),
                Err(_) => {},
            }
        }
        index = index + 1;
        proof {
            assert(seats@.map_values(|seat: Seat| seat@ as int) =~= marked_seats(flags@.take(index as int)));
        }
    }
    proof {
        assert(flags@.take(index as int) =~= flags@);
    }
    seats
}

/// A recorded chi, pon or open kan answer picks distinct tiles that `concealed` holds (a chi
/// on a suited tile, an open kan only while the wall has `room` for one).
pub open spec fn claim_held(answer: Option<Reaction>, concealed: Seq<Tile>, called: TileKind, room: bool) -> bool {
    match answer {
        Some(Reaction::Chi { hand_tiles }) => hand_tiles@[0] != hand_tiles@[1] && holds_id(concealed, hand_tiles@[0])
            && holds_id(concealed, hand_tiles@[1]) && called@ < 27,
        Some(Reaction::Pon { hand_tiles }) => hand_tiles@[0] != hand_tiles@[1] && holds_id(concealed, hand_tiles@[0])
            && holds_id(concealed, hand_tiles@[1]),
        Some(Reaction::OpenKan { hand_tiles }) => room && distinct3(hand_tiles@) && holds_id(concealed, hand_tiles@[0])
            && holds_id(concealed, hand_tiles@[1]) && holds_id(concealed, hand_tiles@[2]),
        _ => true,
    }
}

/// Three ids, no two of them the same.
pub open spec fn distinct3(ids: Seq<TileId>) -> bool {
    ids[0] != ids[1] && ids[0] != ids[2] && ids[1] != ids[2]
}

/// A kan still fits in the wall: a live draw is left and fewer than four rinshan tiles were
/// drawn.
pub open spec fn kan_room(wall: Wall) -> bool {
    wall.spec_remaining() > 0 && wall.spec_rinshan_draws() < 4
}

/// Why the three tiles picked from `tiles` for an open kan on `called` are refused, if they
/// are: an id picked twice, an id not in hand, or a kind other than the called tile's.
pub open spec fn kan_refusal(tiles: Seq<Tile>, ids: Seq<TileId>, called: Tile) -> Option<HandError> {
    if !distinct3(ids) {
        Some(HandError::DuplicateTileSelection)
    } else if !holds_id(tiles, ids[0]) {
        Some(HandError::TileNotInHand { tile_id: ids[0] })
    } else if !holds_id(tiles, ids[1]) {
        Some(HandError::TileNotInHand { tile_id: ids[1] })
    } else if !holds_id(tiles, ids[2]) {
        Some(HandError::TileNotInHand { tile_id: ids[2] })
    } else if held_kind(tiles, ids[0]) != called.spec_kind() || held_kind(tiles, ids[1]) != called.spec_kind()
        || held_kind(tiles, ids[2]) != called.spec_kind() {
        Some(HandError::InvalidReaction { reason: "selected tiles must match the called tile kind" })
    } else {
        None
    }
}

/// Two tiles in meld order.
pub open spec fn order2(a: Tile, b: Tile) -> (Tile, Tile) {
    if tile_before(a, b) {
        (a, b)
    } else {
        (b, a)
    }
}

/// Four tiles in meld order, sorted by a fixed network of pairwise exchanges.
pub open spec fn sorted4(a: Tile, b: Tile, c: Tile, d: Tile) -> Seq<Tile> {
    let p = order2(a, b);
    let q = order2(c, d);
    let low = order2(p.0, q.0);
    let high = order2(p.1, q.1);
    let mid = order2(low.1, high.0);
    seq![low.0, mid.0, mid.1, high.1]
}

/// The kans completed at the table.
pub open spec fn kan_total(counts: Seq<u8>) -> int
    decreases counts.len(),
{
    if counts.len() == 0 {
        0
    } else {
        kan_total(counts.drop_last()) + counts.last()
    }
}

/// How many seats completed a kan.
pub open spec fn kan_declarers(counts: Seq<u8>) -> int
    decreases counts.len(),
{
    if counts.len() == 0 {
        0
    } else {
        kan_declarers(counts.drop_last()) + if counts.last() > 0 {
            1int
        } else {
            0int
        }
    }
}

/// Some tile of `tiles` has `id`.
pub open spec fn holds_id(tiles: Seq<Tile>, id: TileId) -> bool {
    exists|i: int| 0 <= i < tiles.len() && #[trigger] tiles[i].spec_id() == id
}

/// The position of the first tile of `tiles` with `id`.
pub open spec fn index_of_id(tiles: Seq<Tile>, id: TileId) -> int {
    choose|i: int| first_match(tiles, id, i)
}

/// Why the tiles picked from `tiles` for a call are refused, if they are: an id picked twice,
/// or the first id not in hand.
pub open spec fn selection_refusal(tiles: Seq<Tile>, ids: Seq<TileId>) -> Option<HandError> {
    if exists|i: int, j: int| 0 <= i < j < ids.len() && #[trigger] ids[i] == #[trigger] ids[j] {
        Some(HandError::DuplicateTileSelection)
    } else if !holds_id(tiles, ids[0]) {
        Some(HandError::TileNotInHand { tile_id: ids[0] })
    } else if !holds_id(tiles, ids[1]) {
        Some(HandError::TileNotInHand { tile_id: ids[1] })
    } else {
        None
    }
}

/// Why a pon of `called` with the tiles `ids` of `tiles` is refused, if it is.
pub open spec fn pon_refusal(tiles: Seq<Tile>, ids: Seq<TileId>, called: Tile) -> Option<HandError> {
    if selection_refusal(tiles, ids) is Some {
        selection_refusal(tiles, ids)
    } else if held_kind(tiles, ids[0]) != called.spec_kind() || held_kind(tiles, ids[1]) != called.spec_kind() {
        Some(HandError::InvalidReaction { reason: "selected tiles must match the called tile kind" })
    } else {
        None
    }
}

/// Three distinct kind indices that span exactly three consecutive kinds.
pub open spec fn consecutive3(a: int, b: int, c: int) -> bool {
    let low = if a <= b && a <= c { a } else if b <= c { b } else { c };
    let high = if a >= b && a >= c { a } else if b >= c { b } else { c };
    a != b && b != c && a != c && high - low == 2
}

/// Why a chi of `called` with the tiles `ids` of `tiles` is refused, if it is.
pub open spec fn chi_refusal(tiles: Seq<Tile>, ids: Seq<TileId>, called: Tile) -> Option<HandError> {
    let c = called.spec_kind()@ as int;
    let a = held_kind(tiles, ids[0])@ as int;
    let b = held_kind(tiles, ids[1])@ as int;
    if c >= 27 {
        Some(HandError::InvalidReaction { reason: "honor tiles cannot be used in chi" })
    } else if selection_refusal(tiles, ids) is Some {
        selection_refusal(tiles, ids)
    } else if !(a < 27 && a / 9 == c / 9) || !(b < 27 && b / 9 == c / 9) {
        Some(HandError::InvalidReaction { reason: "chi tiles must have the same suit" })
    } else if !consecutive3(a, b, c) {
        Some(HandError::InvalidReaction { reason: "chi tiles must form a consecutive sequence" })
    } else {
        None
    }
}

/// Meld tiles are ordered by kind, then by id.
pub open spec fn tile_before(a: Tile, b: Tile) -> bool {
    a.spec_kind()@ < b.spec_kind()@ || (a.spec_kind()@ == b.spec_kind()@ && a.spec_id()@ <= b.spec_id()@)
}

/// Three tiles in meld order.
pub open spec fn sorted3(a: Tile, b: Tile, c: Tile) -> Seq<Tile> {
    if tile_before(a, b) {
        if tile_before(b, c) {
            seq![a, b, c]
        } else if tile_before(a, c) {
            seq![a, c, b]
        } else {
            seq![c, a, b]
        }
    } else {
        if tile_before(a, c) {
            seq![b, a, c]
        } else if tile_before(b, c) {
            seq![b, c, a]
        } else {
            seq![c, b, a]
        }
    }
}

/// The lowest and highest kind indices among the first three tiles.
pub open spec fn span_of(tiles: Seq<Tile>) -> (int, int) {
    let a = tiles[0].spec_kind()@ as int;
    let b = tiles[1].spec_kind()@ as int;
    let c = tiles[2].spec_kind()@ as int;
    (
        if a <= b && a <= c { a } else if b <= c { b } else { c },
        if a >= b && a >= c { a } else if b >= c { b } else { c },
    )
}

/// The kinds that may not be discarded after calling `called` into `meld` (a chi, pon or
/// kan of that kind): `forbidden_indices` for the meld's span.
pub fn forbidden_after_call(kuikae: KuikaeRule, kind: MeldKind, called: Tile, meld: &Meld) -> (r: Vec<TileKind>)
    requires
        kind == MeldKind::Chi ==> called.spec_kind()@ < 27 && meld.spec_tiles().len() == 3,
    ensures
        r@.map_values(|k: TileKind| k@ as int) == forbidden_indices(
            kuikae,
            kind == MeldKind::Chi,
            called.spec_kind()@ as int,
            if kind == MeldKind::Chi { span_of(meld.spec_tiles()).0 } else { called.spec_kind()@ as int },
            if kind == MeldKind::Chi { span_of(meld.spec_tiles()).1 } else { called.spec_kind()@ as int },
        ),
{
    let chi = kind == MeldKind::Chi;
    if chi {
        let tiles = meld.tiles();
        let a = tiles[0].kind();
        let b = tiles[1].kind();
        let c = tiles[2].kind();
        let low = if a.index() <= b.index() && a.index() <= c.index() {
            a
        } else if b.index() <= c.index() {
            b
        } else {
            c
        };
        let high = if a.index() >= b.index() && a.index() >= c.index() {
            a
        } else if b.index() >= c.index() {
            b
        } else {
            c
        };
        RiichiHand::forbidden_after_call(kuikae, true, called.kind(), low, high)
    } else {
        RiichiHand::forbidden_after_call(kuikae, false, called.kind(), called.kind(), called.kind())
    }
}

/// The kind indices a caller may not discard right after calling `called` into a meld whose
/// lowest and highest kind indices are `low` and `high`: none when kuikae is allowed; the
/// called kind; and, under strict kuikae after a chi that extends a sequence end, the kind
/// three ranks away, in kind order.
pub open spec fn forbidden_indices(kuikae: KuikaeRule, chi: bool, called: int, low: int, high: int) -> Seq<int> {
    if kuikae == KuikaeRule::Allowed {
        Seq::empty()
    } else if kuikae == KuikaeRule::Forbidden && chi && called == low && called % 9 <= 5 {
        seq![called, called + 3]
    } else if kuikae == KuikaeRule::Forbidden && chi && called == high && called % 9 >= 3 && called != low {
        seq![called - 3, called]
    } else {
        seq![called]
    }
}

/// The kind of the first tile of `tiles` with `id`.
pub open spec fn held_kind(tiles: Seq<Tile>, id: TileId) -> TileKind {
    tiles[choose|i: int| first_match(tiles, id, i)].spec_kind()
}

proof fn lemma_held_kind(tiles: Seq<Tile>, id: TileId, index: int)
    requires
        first_match(tiles, id, index),
    ensures
        held_kind(tiles, id) == tiles[index].spec_kind(),
{
    let chosen = choose|i: int| first_match(tiles, id, i);
    assert(first_match(tiles, id, chosen));
    if chosen < index {
        assert(tiles[chosen].spec_id() != id);
    } else if chosen > index {
        assert(tiles[index].spec_id() != id);
    }
}

proof fn lemma_index_of_id(tiles: Seq<Tile>, id: TileId, index: int)
    requires
        first_match(tiles, id, index),
    ensures
        index_of_id(tiles, id) == index,
{
    let chosen = index_of_id(tiles, id);
    assert(first_match(tiles, id, chosen));
    if chosen < index {
        assert(tiles[chosen].spec_id() != id);
    } else if chosen > index {
        assert(tiles[index].spec_id() != id);
    }
}

proof fn lemma_still_held(tiles: Seq<Tile>, index: int, id: TileId, other: TileId)
    requires
        first_match(tiles, id, index),
        holds_id(tiles, other),
        other != id,
    ensures
        holds_id(swap_removed(tiles, index), other),
{
    let w = choose|w: int| 0 <= w < tiles.len() && #[trigger] tiles[w].spec_id() == other;
    let rest = swap_removed(tiles, index);
    if w == tiles.len() - 1 {
        assert(rest[index].spec_id() == other);
    } else {
        assert(rest[w].spec_id() == other);
    }
}

proof fn lemma_marked_nonempty(flags: Seq<bool>, index: int)
    requires
        0 <= index < flags.len(),
        flags[index],
    ensures
        marked_seats(flags).len() > 0,
    decreases flags.len(),
{
    if index < flags.len() - 1 {
        lemma_marked_nonempty(flags.drop_last(), index);
    }
}

proof fn lemma_marked_empty(flags: Seq<bool>)
    requires
        forall|j: int| 0 <= j < flags.len() ==> !#[trigger] flags[j],
    ensures
        marked_seats(flags).len() == 0,
    decreases flags.len(),
{
    if flags.len() > 0 {
        lemma_marked_empty(flags.drop_last());
    }
}

/// Whether `kinds` holds `kind`.
fn contains_kind(kinds: &Vec<TileKind>, kind: TileKind) -> (r: bool)
    ensures
        r == kinds@.contains(kind),
{
    let mut i: usize = 0;
    while i < kinds.len()
        invariant
            i <= kinds@.len(),
            forall|j: int| 0 <= j < i ==> kinds@[j] != kind,
        decreases kinds@.len() - i,
    {
        if kinds[i] == kind {
            proof {
                assert(kinds@[i as int] == kind);
            }
            return true;
        }
        i = i + 1;
    }
    false
}

/// The first position of `tiles` holding the tile with `id`.
fn position_of_id(tiles: &[Tile], id: TileId) -> (r: Option<usize>)
    ensures
        r matches Some(index) ==> first_match(tiles@, id, index as int),
        r is None ==> forall|j: int| 0 <= j < tiles@.len() ==> #[trigger] tiles@[j].spec_id() != id,
{
    let mut index: usize = 0;
    while index < tiles.len()
        invariant
            index <= tiles@.len(),
            forall|j: int| 0 <= j < index ==> #[trigger] tiles@[j].spec_id() != id,
        decreases tiles@.len() - index,
    {
        if tiles[index].id() == id {
            return Some(index);
        }
        index = index + 1;
    }
    None
}

/// Whether every seat has answered.
fn all_answered(responses: &Vec<Option<Reaction>>) -> (r: bool)
    ensures
        r == (forall|k: int| 0 <= k < responses@.len() ==> (#[trigger] responses@[k]) is Some),
{
    let mut index: usize = 0;
    while index < responses.len()
        invariant
            index <= responses@.len(),
            forall|k: int| 0 <= k < index ==> (#[trigger] responses@[k]) is Some,
        decreases responses@.len() - index,
    {
        if responses[index].is_none() {
            return false;
        }
        index = index + 1;
    }
    true
}

/// Whether some tile of `tiles` has `id`.
fn holds_tile(tiles: &[Tile], id: TileId) -> (r: bool)
    ensures
        r == holds_id(tiles@, id),
{
    match position_of_id(tiles, id) {
        Some(index) => {
            proof {
                assert(tiles@[index as int].spec_id() == id);
            }
            true
        },
        None => false,
    }
}

/// Whether a recorded call picks distinct held tiles (a chi on a suited tile, an open kan only
/// while the wall has room for one).
fn answer_holds(answer: Option<Reaction>, concealed: &[Tile], called: TileKind, room: bool) -> (r: bool)
    ensures
        r == claim_held(answer, concealed@, called, room),
{
    match answer {
        Some(Reaction::Chi { hand_tiles }) => {
            hand_tiles[0] != hand_tiles[1] && holds_tile(concealed, hand_tiles[0]) && holds_tile(concealed, hand_tiles[1])
                && called.index() < 27
        },
        Some(Reaction::Pon { hand_tiles }) => {
            hand_tiles[0] != hand_tiles[1] && holds_tile(concealed, hand_tiles[0]) && holds_tile(concealed, hand_tiles[1])
        },
        Some(Reaction::OpenKan { hand_tiles }) => {
            room && hand_tiles[0] != hand_tiles[1] && hand_tiles[0] != hand_tiles[2] && hand_tiles[1] != hand_tiles[2]
                && holds_tile(concealed, hand_tiles[0]) && holds_tile(concealed, hand_tiles[1]) && holds_tile(
                concealed,
                hand_tiles[2],
            )
        },
        _ => true,
    }
}

/// Whether `hand_tiles`, picked from `concealed`, and `called_tile` form a chi: the called tile
/// is suited, the picks are two distinct held tiles of its suit, and the three are consecutive.
pub fn validate_chi(concealed: &[Tile], hand_tiles: &[TileId; 2], called_tile: Tile) -> (r: Result<(), HandError>)
    ensures
        chi_refusal(concealed@, hand_tiles@, called_tile) matches Some(e) ==> r == Err::<(), HandError>(e),
        chi_refusal(concealed@, hand_tiles@, called_tile) is None ==> r is Ok,
{
    let called = called_tile;
    let c = called.kind().index();
    if c >= 27 {
        return Err(HandError::InvalidReaction { reason: "honor tiles cannot be used in chi" });
    }
    match RiichiHand::check_selection(concealed, *hand_tiles) {
        Ok(()) => {},
        Err(error) => return Err(error),
    }
    let a = RiichiHand::held_kind_of(concealed, hand_tiles[0]).index();
    let b = RiichiHand::held_kind_of(concealed, hand_tiles[1]).index();
    if !(a < 27 && a / 9 == c / 9) || !(b < 27 && b / 9 == c / 9) {
        return Err(HandError::InvalidReaction { reason: "chi tiles must have the same suit" });
    }
    let low = if a <= b && a <= c { a } else if b <= c { b } else { c };
    let high = if a >= b && a >= c { a } else if b >= c { b } else { c };
    if !(a != b && b != c && a != c && high - low == 2) {
        return Err(HandError::InvalidReaction { reason: "chi tiles must form a consecutive sequence" });
    }
    Ok(())
}

/// Whether the three tiles `hand_tiles`, picked from `concealed`, can join `called_tile` in an
/// open kan: three distinct held tiles, each of the called tile's kind.
fn validate_kan_call(concealed: &[Tile], hand_tiles: &[TileId; 3], called_tile: Tile) -> (r: Result<(), HandError>)
    ensures
        kan_refusal(concealed@, hand_tiles@, called_tile) matches Some(e) ==> r == Err::<(), HandError>(e),
        kan_refusal(concealed@, hand_tiles@, called_tile) is None ==> r is Ok,
{
    if hand_tiles[0] == hand_tiles[1] || hand_tiles[0] == hand_tiles[2] || hand_tiles[1] == hand_tiles[2] {
        return Err(HandError::DuplicateTileSelection);
    }
    let mut i: usize = 0;
    while i < 3
        invariant
            i <= 3,
            distinct3(hand_tiles@),
            forall|j: int| 0 <= j < i ==> holds_id(concealed@, #[trigger] hand_tiles@[j]),
        decreases 3 - i,
    {
        if !holds_tile(concealed, hand_tiles[i]) {
            return Err(HandError::TileNotInHand { tile_id: hand_tiles[i] });
        }
        i = i + 1;
    }
    let kind = called_tile.kind();
    let first = RiichiHand::held_kind_of(concealed, hand_tiles[0]);
    let second = RiichiHand::held_kind_of(concealed, hand_tiles[1]);
    let third = RiichiHand::held_kind_of(concealed, hand_tiles[2]);
    if first != kind || second != kind || third != kind {
        return Err(HandError::InvalidReaction { reason: "selected tiles must match the called tile kind" });
    }
    Ok(())
}

/// The kans completed at the table, counted from `counts`.
fn kan_total_of(counts: &Vec<u8>) -> (r: u32)
    requires
        counts@.len() <= 4,
    ensures
        r == kan_total(counts@),
{
    let mut total: u32 = 0;
    let mut i: usize = 0;
    while i < counts.len()
        invariant
            i <= counts@.len(),
            counts@.len() <= 4,
            total == kan_total(counts@.take(i as int)),
            total <= 255 * i,
        decreases counts@.len() - i,
    {
        proof {
            assert(counts@.take(i as int + 1).drop_last() =~= counts@.take(i as int));
        }
        total = total + counts[i] as u32;
        i = i + 1;
    }
    proof {
        assert(counts@.take(counts@.len() as int) =~= counts@);
    }
    total
}

/// How many seats of `counts` completed a kan.
fn kan_declarers_of(counts: &Vec<u8>) -> (r: u32)
    requires
        counts@.len() <= 4,
    ensures
        r == kan_declarers(counts@),
{
    let mut declarers: u32 = 0;
    let mut i: usize = 0;
    while i < counts.len()
        invariant
            i <= counts@.len(),
            counts@.len() <= 4,
            declarers == kan_declarers(counts@.take(i as int)),
            declarers <= i,
        decreases counts@.len() - i,
    {
        proof {
            assert(counts@.take(i as int + 1).drop_last() =~= counts@.take(i as int));
        }
        if counts[i] > 0 {
            declarers = declarers + 1;
        }
        i = i + 1;
    }
    proof {
        assert(counts@.take(counts@.len() as int) =~= counts@);
    }
    declarers
}

/// In a list of kinds in strictly increasing order, the kind at `i` has index at least `i`.
proof fn lemma_kind_at_least(kinds: Seq<TileKind>, i: int)
    requires
        0 <= i < kinds.len(),
        forall|a: int, b: int| 0 <= a < b < kinds.len() ==> #[trigger] kinds[a]@ < #[trigger] kinds[b]@,
    ensures
        kinds[i]@ >= i,
    decreases i,
{
    if i > 0 {
        lemma_kind_at_least(kinds, i - 1);
        assert(kinds[i - 1]@ < kinds[i]@);
    }
}

/// A strictly increasing list of kinds has at most one entry per kind.
proof fn lemma_at_most_34_kinds(kinds: Seq<TileKind>)
    requires
        forall|i: int| 0 <= i < kinds.len() ==> #[trigger] kinds[i]@ < 34,
        forall|a: int, b: int| 0 <= a < b < kinds.len() ==> #[trigger] kinds[a]@ < #[trigger] kinds[b]@,
    ensures
        kinds.len() <= 34,
{
    if kinds.len() > 34 {
        lemma_kind_at_least(kinds, 34);
        assert(kinds[34]@ < 34);
    }
}

} // verus!
