//! The Sichuan hand as a state machine: deal, three-tile exchange, que choice, then play.
//! There is no chi and no furiten; a winner lays down its hand and leaves while the others
//! play on, until three have won or the wall runs out. Kans and wins settle at once, and
//! only among the players still in the hand.

use vstd::prelude::*;

use super::super::config::SichuanRules;
use super::super::progress::Seat;
use super::super::scoring::evaluate::{
    evaluate, meld_info, win_outcome, wins_with, MeldSummary, WinContext, WinEvaluation,
};
use super::super::tile::{Suit, Tile, TileId, TileKind};
use super::super::wall::{seeded_layout, Dice, ExchangeDirection, Wall, WallSeed};
use super::model::{Discard, DrawSource, EndReason, HandError, HandPhase, Meld, MeldId, MeldKind, ReactionKind};
use super::player::{inserted, tiles_of_kind, KanEvent, PlayerHand, WinnerRecord};

verus! {

/// A concealed kan: every other player still in the hand pays this.
const CONCEALED_KAN_POINTS: i32 = 2000;

/// An open kan: the discarder pays this.
const OPEN_KAN_POINTS: i32 = 2000;

/// An added kan: every other player still in the hand pays this.
const ADDED_KAN_POINTS: i32 = 1000;

/// A blessing hand: the dealer's first draw or the first non-dealer's first draw.
const BLESSING_MAX_TURNS: u32 = 2;

/// What the player whose turn it is may do.
#[derive(Clone, Copy, Debug, PartialEq, Eq, Structural)]
pub enum TurnAction {
    Discard { tile: TileId },
    Tsumo,
    ConcealedKan { tile: TileKind },
    AddedKan { meld: MeldId },
}

/// The choices open on a turn, and which discards leave the hand waiting on what.
#[derive(Clone, Debug, PartialEq, Eq)]
pub struct TurnActions {
    pub can_tsumo: bool,
    pub concealed_kans: Vec<TileKind>,
    pub added_kans: Vec<MeldId>,
    pub tenpai_discard_hints: Vec<(TileId, Vec<TileKind>)>,
}

impl TurnActions {
    fn nothing() -> (r: TurnActions)
        ensures
            !r.can_tsumo,
            r.concealed_kans@.len() == 0,
            r.added_kans@.len() == 0,
            r.tenpai_discard_hints@.len() == 0,
    {
        TurnActions {
            can_tsumo: false,
            concealed_kans: Vec::new(),
            added_kans: Vec::new(),
            tenpai_discard_hints: Vec::new(),
        }
    }

    /// No tsumo and no kan (the hints do not count).
    #[must_use]
    pub fn is_empty(&self) -> (r: bool)
        ensures
            r == (!self.can_tsumo && self.concealed_kans@.len() == 0 && self.added_kans@.len() == 0),
    {
        !self.can_tsumo && self.concealed_kans.len() == 0 && self.added_kans.len() == 0
    }
}

impl Default for TurnActions {
    fn default() -> (r: TurnActions)
        ensures
            !r.can_tsumo,
            r.concealed_kans@.len() == 0,
            r.added_kans@.len() == 0,
            r.tenpai_discard_hints@.len() == 0,
    {
        TurnActions::nothing()
    }
}

/// What a player may answer to another player's discard.
#[derive(Clone, Copy, Debug, PartialEq, Eq, Structural)]
pub struct ReactionOptions {
    pub can_ron: bool,
    pub can_pon: bool,
    pub can_open_kan: bool,
}

impl ReactionOptions {
    fn nothing() -> (r: ReactionOptions)
        ensures
            !r.can_ron && !r.can_pon && !r.can_open_kan,
    {
        ReactionOptions { can_ron: false, can_pon: false, can_open_kan: false }
    }

    #[must_use]
    pub fn is_empty(&self) -> (r: bool)
        ensures
            r == (!self.can_ron && !self.can_pon && !self.can_open_kan),
    {
        !self.can_ron && !self.can_pon && !self.can_open_kan
    }
}

impl Default for ReactionOptions {
    fn default() -> (r: ReactionOptions)
        ensures
            !r.can_ron && !r.can_pon && !r.can_open_kan,
    {
        ReactionOptions::nothing()
    }
}

#[derive(Clone, Copy, Debug, PartialEq, Eq, Structural)]
struct PendingAddedKan {
    declarer: Seat,
    meld_id: MeldId,
    tile: Tile,
}

/// The kinds of the tiles, in order.
pub open spec fn kinds_of(tiles: Seq<Tile>) -> Seq<TileKind> {
    tiles.map_values(|t: Tile| t.spec_kind())
}

/// What scoring reads of the melds: each meld's kind and the kinds of its tiles.
pub open spec fn melds_info(melds: Seq<Meld>) -> Seq<(MeldKind, Seq<TileKind>)> {
    melds.map_values(|m: Meld| (m.spec_kind(), kinds_of(m.spec_tiles())))
}

/// Some kind of the list belongs to the que suit.
pub open spec fn has_que_kind(kinds: Seq<TileKind>, que: Option<Suit>) -> bool {
    exists|i: int| 0 <= i < kinds.len() && crate::riichi::tile::kind_suit(#[trigger] kinds[i]@ as int) == que
}

/// `r` is what scoring these parts gives: nothing for a hand too large to count, otherwise
/// the scoring of the win.
pub open spec fn scored(
    concealed: Seq<TileKind>,
    info: Seq<(MeldKind, Seq<TileKind>)>,
    flags: (bool, bool, bool, bool, bool, bool),
    r: Option<WinEvaluation>,
) -> bool {
    if info.len() <= 4 && concealed.len() > 255 {
        r is None
    } else {
        win_outcome(concealed, info, flags, r)
    }
}

/// Scoring these parts gives a win.
pub open spec fn scores(concealed: Seq<TileKind>, info: Seq<(MeldKind, Seq<TileKind>)>) -> bool {
    !(info.len() <= 4 && concealed.len() > 255) && wins_with(concealed, info)
}

/// No option open.
pub open spec fn no_options() -> ReactionOptions {
    ReactionOptions { can_ron: false, can_pon: false, can_open_kan: false }
}

/// The kinds among the first `n` (by index) outside the que suit that, added to the
/// kinds, leave no que tile and make a winning hand with the melds.
pub open spec fn waits_for(
    kinds: Seq<TileKind>,
    info: Seq<(MeldKind, Seq<TileKind>)>,
    que: Option<Suit>,
    n: int,
) -> Seq<TileKind>
    decreases n,
{
    if n <= 0 {
        Seq::empty()
    } else {
        let prev = waits_for(kinds, info, que, n - 1);
        let c = TileKind::spec_at(n - 1);
        if crate::riichi::tile::kind_suit(n - 1) != que && !has_que_kind(kinds.push(c), que) && scores(
            kinds.push(c),
            info,
        ) {
            prev.push(c)
        } else {
            prev
        }
    }
}

/// The hints as plain values.
pub open spec fn hints_view(hints: Seq<(TileId, Vec<TileKind>)>) -> Seq<(TileId, Seq<TileKind>)> {
    hints.map_values(|h: (TileId, Vec<TileKind>)| (h.0, h.1@))
}

/// A copy of the kinds.
fn copy_kinds(kinds: &Vec<TileKind>) -> (r: Vec<TileKind>)
    ensures
        r@ == kinds@,
{
    let mut out: Vec<TileKind> = Vec::new();
    let mut i: usize = 0;
    while i < kinds.len()
        invariant
            i <= kinds@.len(),
            out@ == kinds@.take(i as int),
        decreases kinds@.len() - i,
    {
        out.push(kinds[i]);
        i = i + 1;
        proof {
            assert(out@ =~= kinds@.take(i as int));
        }
    }
    proof {
        assert(kinds@.take(i as int) =~= kinds@);
    }
    out
}

/// The list with one more kind at the end.
fn with_kind(kinds: &Vec<TileKind>, extra: TileKind) -> (r: Vec<TileKind>)
    ensures
        r@ == kinds@.push(extra),
{
    let mut out: Vec<TileKind> = Vec::new();
    let mut i: usize = 0;
    while i < kinds.len()
        invariant
            i <= kinds@.len(),
            out@ == kinds@.take(i as int),
        decreases kinds@.len() - i,
    {
        out.push(kinds[i]);
        i = i + 1;
        proof {
            assert(out@ =~= kinds@.take(i as int));
        }
    }
    out.push(extra);
    proof {
        assert(kinds@.take(i as int) =~= kinds@);
    }
    out
}

/// The sum of four per-seat changes.
pub open spec fn sum4(d: Seq<i32>) -> int {
    d[0] as int + d[1] as int + d[2] as int + d[3] as int
}

/// Every per-seat change lies within `bound` either way.
pub open spec fn within(d: Seq<i32>, bound: int) -> bool {
    forall|i: int| 0 <= i < 4 ==> -bound <= #[trigger] d[i] <= bound
}

/// One hand of Sichuan mahjong.
#[derive(Debug)]
pub struct SichuanHand {
    rules: SichuanRules,
    wall: Wall,
    dealer: Seat,
    players: Vec<PlayerHand>,
    phase: HandPhase,
    que_suits: Vec<Option<Suit>>,
    exchange_answers: Vec<Option<[TileId; 3]>>,
    last_discard: Option<(Seat, Tile)>,
    last_discard_was_replacement: bool,
    pending_added_kan: Option<PendingAddedKan>,
    reaction_eligible: Vec<bool>,
    reaction_answers: Vec<Option<ReactionKind>>,
    next_meld_id: u16,
    won: Vec<bool>,
    point_deltas: Vec<i32>,
    winners: Vec<WinnerRecord>,
    kan_events: Vec<KanEvent>,
    turns_taken: u32,
    interrupted: bool,
    last_draw_was_final: bool,
    last_draw_was_replacement: bool,
}

impl SichuanHand {
    /// How far any seat's running total can have moved: 8000 per kan and 128000 per win.
    pub closed spec fn delta_bound(&self) -> int {
        (8000 * self.kan_events@.len() + 128000 * self.winners@.len()) as int
    }

    /// The hand's standing facts: a slot for each seat, points moved only between seats
    /// (they sum to zero) and within the bound, at most three winners, and the counters
    /// bounded by the wall.
    pub closed spec fn well_formed(&self) -> bool {
        &&& self.players@.len() == 4
        &&& self.que_suits@.len() == 4
        &&& self.exchange_answers@.len() == 4
        &&& self.reaction_eligible@.len() == 4
        &&& self.reaction_answers@.len() == 4
        &&& self.won@.len() == 4
        &&& self.point_deltas@.len() == 4
        &&& sum4(self.point_deltas@) == 0
        &&& within(self.point_deltas@, self.delta_bound())
        &&& self.winners@.len() <= 3
        &&& (!(self.phase is Ended) && !(self.phase is AwaitingWinAnimation) ==> self.winners@.len() < 3)
        &&& self.wall.spec_front() <= self.wall.spec_back() <= 108
        &&& self.kan_events@.len() + self.wall.spec_back() <= 109
        &&& (!(self.phase is Ended) && !(self.phase is AwaitingKanAnimation) ==> self.kan_events@.len()
            + self.wall.spec_back() <= 108)
        &&& self.turns_taken <= self.wall.spec_front()
        &&& forall|i: int| 0 <= i < 4 ==> (#[trigger] self.players@[i]).kan_count <= self.kan_events@.len()
    }

    /// The facts the settling steps rely on and keep.
    pub closed spec fn points_ok(&self) -> bool {
        &&& self.point_deltas@.len() == 4
        &&& self.won@.len() == 4
        &&& sum4(self.point_deltas@) == 0
        &&& within(self.point_deltas@, self.delta_bound())
        &&& self.winners@.len() <= 3
        &&& self.kan_events@.len() <= 109
    }

    /// A win now would be a blessing hand: no call or kan yet and at most the second draw.
    pub closed spec fn blessing_now(&self) -> bool {
        !self.interrupted && self.turns_taken <= BLESSING_MAX_TURNS
    }

    /// `r` is the scoring of a self-drawn win by the seat: nothing without a drawn tile in
    /// hand or while a tile of its que suit remains; otherwise its hand scored as a self-draw.
    pub closed spec fn tsumo_scored(&self, seat: Seat, r: Option<WinEvaluation>) -> bool {
        let p = self.players@[seat@ as int];
        let kinds = kinds_of(p.concealed@);
        if p.drawn is None || !(exists|i: int|
            0 <= i < p.concealed@.len() && (#[trigger] p.concealed@[i]).spec_id() == p.drawn->Some_0) || has_que_kind(
            kinds,
            self.que_suits@[seat@ as int],
        ) {
            r is None
        } else {
            scored(
                kinds,
                melds_info(p.melds@),
                (true, self.last_draw_was_replacement, false, false, self.last_draw_was_final, self.blessing_now()),
                r,
            )
        }
    }

    /// `r` is the scoring of a win by the seat on a tile of kind `winning`: nothing while a
    /// tile of its que suit would remain; otherwise its hand with the tile, scored.
    pub closed spec fn ron_scored(&self, seat: Seat, winning: TileKind, chankan: bool, gang_pao: bool, r: Option<WinEvaluation>) -> bool {
        let p = self.players@[seat@ as int];
        let kinds = kinds_of(p.concealed@).push(winning);
        if has_que_kind(kinds, self.que_suits@[seat@ as int]) {
            r is None
        } else {
            scored(kinds, melds_info(p.melds@), (false, false, gang_pao, chankan, false, false), r)
        }
    }

    /// The seat would win on a tile of kind `winning`.
    pub closed spec fn ron_scores(&self, seat: Seat, winning: TileKind) -> bool {
        let p = self.players@[seat@ as int];
        let kinds = kinds_of(p.concealed@).push(winning);
        !has_que_kind(kinds, self.que_suits@[seat@ as int]) && scores(kinds, melds_info(p.melds@))
    }

    /// What the seat may answer to `tile`: a win when it would score; a pon or an open kan only
    /// on a discard (not on a robbed kan), while the wall still has tiles, outside its que
    /// suit, with two or three tiles of the kind in hand.
    pub closed spec fn options_for(&self, seat: Seat, tile: Tile, chankan: bool) -> ReactionOptions {
        let p = self.players@[seat@ as int];
        let kind = tile.spec_kind();
        let callable = !chankan && self.wall.spec_back() - self.wall.spec_front() > 0
            && crate::riichi::tile::kind_suit(kind@ as int) != self.que_suits@[seat@ as int];
        ReactionOptions {
            can_ron: self.ron_scores(seat, kind),
            can_pon: callable && tiles_of_kind(p.concealed@, kind) >= 2,
            can_open_kan: callable && tiles_of_kind(p.concealed@, kind) >= 3,
        }
    }

    /// What the seat may answer now: nothing outside an answer window, for the discarder, a
    /// seat that answered or won; otherwise its options on the tile waiting for answers.
    pub closed spec fn spec_reaction_options(&self, seat: Seat) -> ReactionOptions {
        match self.phase {
            HandPhase::AwaitingResponses { discarder } => {
                if seat == discarder || self.reaction_answers@[seat@ as int] is Some || self.won@[seat@ as int] {
                    no_options()
                } else {
                    match self.pending_added_kan {
                        Some(pending) => self.options_for(seat, pending.tile, true),
                        None => match self.last_discard {
                            Some((_, tile)) => self.options_for(seat, tile, false),
                            None => no_options(),
                        },
                    }
                }
            },
            _ => no_options(),
        }
    }

    /// A suited kind outside the seat's que suit that would complete its hand.
    pub closed spec fn tenpai_kind(&self, seat: Seat, c: TileKind) -> bool {
        let p = self.players@[seat@ as int];
        &&& c@ < 27
        &&& crate::riichi::tile::kind_suit(c@ as int) != self.que_suits@[seat@ as int]
        &&& scores(kinds_of(p.concealed@).push(c), melds_info(p.melds@))
    }

    /// Tenpai: no que tile left, and some suited kind outside the que suit completes the hand.
    pub closed spec fn spec_is_tenpai(&self, seat: Seat) -> bool {
        !self.holds_que(seat) && exists|c: TileKind| #[trigger] self.tenpai_kind(seat, c)
    }

    /// The seat's concealed tiles.
    pub closed spec fn concealed_of(&self, seat: Seat) -> Seq<Tile> {
        self.players@[seat@ as int].concealed@
    }

    pub closed spec fn spec_rules(&self) -> SichuanRules {
        self.rules
    }

    pub closed spec fn spec_wall(&self) -> Wall {
        self.wall
    }

    pub closed spec fn spec_last_discard(&self) -> Option<(Seat, Tile)> {
        self.last_discard
    }

    pub closed spec fn spec_kan_events(&self) -> Seq<KanEvent> {
        self.kan_events@
    }

    pub closed spec fn spec_phase(&self) -> HandPhase {
        self.phase
    }

    pub closed spec fn spec_dealer(&self) -> Seat {
        self.dealer
    }

    pub closed spec fn spec_player(&self, seat: Seat) -> PlayerHand {
        self.players@[seat@ as int]
    }

    pub closed spec fn spec_point_deltas(&self) -> Seq<i32> {
        self.point_deltas@
    }

    pub closed spec fn spec_winners(&self) -> Seq<WinnerRecord> {
        self.winners@
    }

    pub closed spec fn spec_won(&self, seat: Seat) -> bool {
        self.won@[seat@ as int]
    }

    pub closed spec fn spec_que_suit(&self, seat: Seat) -> Option<Suit> {
        self.que_suits@[seat@ as int]
    }

    /// The running totals of a well-formed hand sum to zero.
    pub proof fn lemma_points_balance(&self)
        requires
            self.well_formed(),
        ensures
            self.spec_point_deltas().len() == 4,
            sum4(self.spec_point_deltas()) == 0,
            within(self.spec_point_deltas(), 2000000),
    {
        assert(self.delta_bound() <= 2000000);
    }

    /// Deals: thirteen tiles to every seat from the dealer on, then the dealer's fourteenth,
    /// and waits for the exchange.
    #[must_use]
    pub fn new(rules: SichuanRules, dealer: Seat, seed: &WallSeed) -> (r: SichuanHand)
        ensures
            r.well_formed(),
            r.spec_phase() == HandPhase::AwaitingExchange,
            r.spec_dealer() == dealer,
            r.spec_wall().spec_front() == 53,
            forall|i: int| 0 <= i < 4 ==> (#[trigger] r.spec_point_deltas()[i]) == 0,
            r.spec_winners().len() == 0,
            seeded_layout(r.spec_wall().spec_tiles(), r.spec_wall().spec_dice(), seed@),
    {
        let mut wall = Wall::new(dealer, seed);
        let ghost w0 = wall;
        let mut players: Vec<PlayerHand> = Vec::new();
        let mut k: usize = 0;
        while k < 4
            invariant
                k <= 4,
                players@.len() == k,
                forall|i: int| 0 <= i < k ==> (#[trigger] players@[i]).kan_count == 0,
            decreases 4 - k,
        {
            players.push(PlayerHand::empty());
            k = k + 1;
        }
        let mut round: u8 = 0;
        while round < 13
            invariant
                round <= 13,
                players@.len() == 4,
                wall.spec_front() == 4 * round,
                wall.spec_back() == 108,
                wall.spec_tiles() == w0.spec_tiles(),
                wall.spec_dice() == w0.spec_dice(),
                forall|i: int| 0 <= i < 4 ==> (#[trigger] players@[i]).kan_count == 0,
            decreases 13 - round,
        {
            let mut offset: u8 = 0;
            while offset < 4
                invariant
                    round < 13,
                    offset <= 4,
                    players@.len() == 4,
                    wall.spec_front() == 4 * round + offset,
                    wall.spec_back() == 108,
                    wall.spec_tiles() == w0.spec_tiles(),
                    wall.spec_dice() == w0.spec_dice(),
                    forall|i: int| 0 <= i < 4 ==> (#[trigger] players@[i]).kan_count == 0,
                decreases 4 - offset,
            {
                let seat = dealer.offset_by(offset);
                let s = seat.index() as usize;
                match wall.draw() {
                    Some(tile) => {
                        players[s].insert(tile);
                    },
                    None => {},
                }
                offset = offset + 1;
            }
            round = round + 1;
        }
        let d = dealer.index() as usize;
        match wall.draw() {
            Some(tile) => {
                players[d].insert(tile);
            },
            None => {},
        }
        let mut point_deltas: Vec<i32> = Vec::new();
        let mut que_suits: Vec<Option<Suit>> = Vec::new();
        let mut exchange_answers: Vec<Option<[TileId; 3]>> = Vec::new();
        let mut reaction_eligible: Vec<bool> = Vec::new();
        let mut reaction_answers: Vec<Option<ReactionKind>> = Vec::new();
        let mut won: Vec<bool> = Vec::new();
        let mut j: usize = 0;
        while j < 4
            invariant
                j <= 4,
                point_deltas@.len() == j,
                que_suits@.len() == j,
                exchange_answers@.len() == j,
                reaction_eligible@.len() == j,
                reaction_answers@.len() == j,
                won@.len() == j,
                forall|i: int| 0 <= i < j ==> (#[trigger] point_deltas@[i]) == 0,
            decreases 4 - j,
        {
            point_deltas.push(0);
            que_suits.push(None);
            exchange_answers.push(None);
            reaction_eligible.push(false);
            reaction_answers.push(None);
            won.push(false);
            j = j + 1;
        }
        SichuanHand {
            rules,
            wall,
            dealer,
            players,
            phase: HandPhase::AwaitingExchange,
            que_suits,
            exchange_answers,
            last_discard: None,
            last_discard_was_replacement: false,
            pending_added_kan: None,
            reaction_eligible,
            reaction_answers,
            next_meld_id: 0,
            won,
            point_deltas,
            winners: Vec::new(),
            kan_events: Vec::new(),
            turns_taken: 1,
            interrupted: false,
            last_draw_was_final: false,
            last_draw_was_replacement: false,
        }
    }

    #[must_use]
    pub fn rules(&self) -> (r: &SichuanRules)
        ensures
            *r == self.spec_rules(),
    {
        &self.rules
    }

    #[must_use]
    pub fn dealer(&self) -> (r: Seat)
        ensures
            r == self.spec_dealer(),
    {
        self.dealer
    }

    #[must_use]
    pub fn phase(&self) -> (r: HandPhase)
        ensures
            r == self.spec_phase(),
    {
        self.phase
    }

    #[must_use]
    pub fn player(&self, seat: Seat) -> (r: &PlayerHand)
        requires
            self.well_formed(),
        ensures
            *r == self.spec_player(seat),
    {
        &self.players[seat.index() as usize]
    }

    #[must_use]
    pub fn que_suit(&self, seat: Seat) -> (r: Option<Suit>)
        requires
            self.well_formed(),
        ensures
            r == self.spec_que_suit(seat),
    {
        self.que_suits[seat.index() as usize]
    }

    #[must_use]
    pub fn won(&self, seat: Seat) -> (r: bool)
        requires
            self.well_formed(),
        ensures
            r == self.spec_won(seat),
    {
        self.won[seat.index() as usize]
    }

    #[must_use]
    pub fn winners(&self) -> (r: &[WinnerRecord])
        ensures
            r@ == self.spec_winners(),
    {
        self.winners.as_slice()
    }

    #[must_use]
    pub fn kan_events(&self) -> (r: &[KanEvent])
        ensures
            r@ == self.spec_kan_events(),
    {
        self.kan_events.as_slice()
    }

    #[must_use]
    pub fn point_deltas(&self) -> (r: &[i32])
        ensures
            r@ == self.spec_point_deltas(),
    {
        self.point_deltas.as_slice()
    }

    #[must_use]
    pub fn remaining_draws(&self) -> (r: usize)
        ensures
            r == self.spec_wall().spec_back() - self.spec_wall().spec_front(),
    {
        self.wall.remaining_draws()
    }

    #[must_use]
    pub fn completed_rinshan_draws(&self) -> (r: usize)
        ensures
            r == 108 - self.spec_wall().spec_back(),
    {
        self.wall.completed_rinshan_draws()
    }

    #[must_use]
    pub fn exchange_direction(&self) -> (r: ExchangeDirection)
        ensures
            r == super::super::wall::direction_for(
                (self.spec_wall().spec_dice().spec_first() + self.spec_wall().spec_dice().spec_second()) as u8,
            ),
    {
        self.wall.exchange_direction()
    }

    #[must_use]
    pub fn dice(&self) -> (r: Dice)
        ensures
            r == self.spec_wall().spec_dice(),
    {
        self.wall.dice()
    }

    #[must_use]
    pub fn break_seat(&self) -> (r: Seat)
        ensures
            r == self.spec_wall().spec_break_seat(),
    {
        self.wall.break_seat()
    }

    #[must_use]
    pub fn last_discard(&self) -> (r: Option<(Seat, Tile)>)
        ensures
            r == self.spec_last_discard(),
    {
        self.last_discard
    }

    /// Why the hand ended, once it has.
    #[must_use]
    pub fn reason(&self) -> (r: Option<EndReason>)
        ensures
            self.spec_phase() matches HandPhase::Ended { reason } ==> r == Some(reason),
            !(self.spec_phase() is Ended) ==> r is None,
    {
        match self.phase {
            HandPhase::Ended { reason } => Some(reason),
            _ => None,
        }
    }

    /// The seats in `r` are those whose flag is set, in seat order.
    pub open spec fn lists_seats(r: Seq<Seat>, flags: Seq<bool>) -> bool {
        &&& forall|i: int| 0 <= i < r.len() ==> flags[(#[trigger] r[i])@ as int]
        &&& forall|i: int, j: int| 0 <= i < j < r.len() ==> (#[trigger] r[i])@ < (#[trigger] r[j])@
        &&& forall|k: int| 0 <= k < 4 && #[trigger] flags[k] ==> exists|i: int| 0 <= i < r.len() && (#[trigger] r[i])@ == k
    }

    /// Which seats have not handed over their exchange tiles.
    pub closed spec fn exchange_flags(&self) -> Seq<bool> {
        Seq::new(4, |k: int| self.exchange_answers@[k] is None)
    }

    /// Which seats have not chosen their que suit.
    pub closed spec fn dingque_flags(&self) -> Seq<bool> {
        Seq::new(4, |k: int| self.que_suits@[k] is None)
    }

    pub closed spec fn exchange_pending(&self, k: int) -> bool {
        self.exchange_answers@[k] is None
    }

    pub closed spec fn dingque_pending(&self, k: int) -> bool {
        self.que_suits@[k] is None
    }

    fn seats_where(flags: &Vec<bool>) -> (r: Vec<Seat>)
        requires
            flags@.len() == 4,
        ensures
            Self::lists_seats(r@, flags@),
    {
        let mut seats: Vec<Seat> = Vec::new();
        let mut k: u8 = 0;
        while k < 4
            invariant
                k <= 4,
                flags@.len() == 4,
                forall|i: int| 0 <= i < seats@.len() ==> flags@[(#[trigger] seats@[i])@ as int],
                forall|i: int| 0 <= i < seats@.len() ==> (#[trigger] seats@[i])@ < k,
                forall|i: int, j: int| 0 <= i < j < seats@.len() ==> (#[trigger] seats@[i])@ < (#[trigger] seats@[j])@,
                forall|m: int| 0 <= m < k && flags@[m] ==> exists|i: int| 0 <= i < seats@.len() && (#[trigger] seats@[i])@ == m,
            decreases 4 - k,
        {
            let ghost before = seats@;
            if flags[k as usize] {
                let seat = Seat::at(k);
                seats.push(seat);
                assert(seats@[seats@.len() - 1]@ == k);
            }
            proof {
                assert forall|m: int| 0 <= m < k + 1 && flags@[m] implies exists|i: int|
                    0 <= i < seats@.len() && (#[trigger] seats@[i])@ == m by {
                    if m < k {
                        let i = choose|i: int| 0 <= i < before.len() && (#[trigger] before[i])@ == m;
                        assert(seats@[i] == before[i]);
                    } else {
                        assert(seats@[seats@.len() - 1]@ == m);
                    }
                }
            }
            k = k + 1;
        }
        seats
    }

    /// The seats that have not yet handed over their three tiles, in seat order.
    #[must_use]
    pub fn pending_exchange(&self) -> (r: Vec<Seat>)
        requires
            self.well_formed(),
        ensures
            Self::lists_seats(r@, self.exchange_flags()),
    {
        let mut flags: Vec<bool> = Vec::new();
        let mut k: usize = 0;
        while k < 4
            invariant
                k <= 4,
                self.exchange_answers@.len() == 4,
                flags@.len() == k,
                forall|i: int| 0 <= i < k ==> #[trigger] flags@[i] == (self.exchange_answers@[i] is None),
            decreases 4 - k,
        {
            flags.push(self.exchange_answers[k].is_none());
            k = k + 1;
        }
        assert forall|i: int| 0 <= i < 4 implies flags@[i] == self.exchange_flags()[i] by {}
        assert(flags@ =~= self.exchange_flags());
        Self::seats_where(&flags)
    }

    /// The seats that have not yet chosen their que suit, in seat order.
    #[must_use]
    pub fn pending_dingque(&self) -> (r: Vec<Seat>)
        requires
            self.well_formed(),
        ensures
            Self::lists_seats(r@, self.dingque_flags()),
    {
        let mut flags: Vec<bool> = Vec::new();
        let mut k: usize = 0;
        while k < 4
            invariant
                k <= 4,
                self.que_suits@.len() == 4,
                flags@.len() == k,
                forall|i: int| 0 <= i < k ==> #[trigger] flags@[i] == (self.que_suits@[i] is None),
            decreases 4 - k,
        {
            flags.push(self.que_suits[k].is_none());
            k = k + 1;
        }
        assert forall|i: int| 0 <= i < 4 implies flags@[i] == self.dingque_flags()[i] by {}
        assert(flags@ =~= self.dingque_flags());
        Self::seats_where(&flags)
    }

    /// The refusal for an action the phase does not take.
    pub open spec fn phase_refusal(phase: HandPhase) -> HandError {
        if phase is Ended {
            HandError::HandAlreadyEnded
        } else {
            HandError::UnexpectedAction
        }
    }

    fn phase_error(&self) -> (r: Result<(), HandError>)
        ensures
            r == Err::<(), HandError>(Self::phase_refusal(self.phase)),
    {
        if self.phase.is_ended() {
            Err(HandError::HandAlreadyEnded)
        } else {
            Err(HandError::UnexpectedAction)
        }
    }

    /// Whether the seat holds a concealed tile with the identity.
    pub closed spec fn holds(&self, seat: Seat, id: TileId) -> bool {
        exists|i: int|
            0 <= i < self.players@[seat@ as int].concealed@.len() && (#[trigger] self.players@[seat@ as int].concealed@[i]).spec_id() == id
    }

    /// `i` is the first of the tiles with the identity.
    pub open spec fn first_held(tiles: Seq<Tile>, id: TileId, i: int) -> bool {
        &&& 0 <= i < tiles.len()
        &&& tiles[i].spec_id() == id
        &&& forall|j: int| 0 <= j < i ==> (#[trigger] tiles[j]).spec_id() != id
    }

    fn find_held(player: &PlayerHand, id: TileId) -> (r: Option<Tile>)
        ensures
            r is None <==> forall|i: int| 0 <= i < player.concealed@.len() ==> (#[trigger] player.concealed@[i]).spec_id() != id,
            r matches Some(t) ==> t.spec_id() == id && exists|i: int| 0 <= i < player.concealed@.len() && player.concealed@[i] == t,
            r matches Some(t) ==> exists|i: int| Self::first_held(player.concealed@, id, i) && player.concealed@[i] == t,
    {
        let mut i: usize = 0;
        while i < player.concealed.len()
            invariant
                i <= player.concealed@.len(),
                forall|j: int| 0 <= j < i ==> (#[trigger] player.concealed@[j]).spec_id() != id,
            decreases player.concealed@.len() - i,
        {
            let tile = player.concealed[i];
            if tile.id() == id {
                assert(player.concealed@[i as int] == tile);
                return Some(tile);
            }
            i = i + 1;
        }
        None
    }

    /// Hands over three tiles of one suit for the exchange; once all four seats have, the
    /// tiles pass in the dice's direction and the hand waits for the exchange to be shown.
    pub fn submit_exchange(&mut self, seat: Seat, ids: [TileId; 3]) -> (r: Result<(), HandError>)
        requires
            old(self).well_formed(),
        ensures
            final(self).well_formed(),
            old(self).spec_phase() != HandPhase::AwaitingExchange ==> r == Err::<(), HandError>(
                Self::phase_refusal(old(self).spec_phase()),
            ),
            old(self).spec_phase() == HandPhase::AwaitingExchange && !old(self).exchange_pending(seat@ as int) ==> r
                == Err::<(), HandError>(HandError::UnexpectedAction),
            old(self).spec_phase() == HandPhase::AwaitingExchange && old(self).exchange_pending(seat@ as int) && (ids[0]
                == ids[1] || ids[0] == ids[2] || ids[1] == ids[2]) ==> r == Err::<(), HandError>(
                HandError::ExchangeDuplicateTile,
            ),
            r is Err ==> *final(self) == *old(self),
            r is Ok ==> old(self).spec_phase() == HandPhase::AwaitingExchange && old(self).exchange_pending(seat@ as int)
                && old(self).holds(seat, ids[0]) && old(self).holds(seat, ids[1]) && old(self).holds(seat, ids[2])
                && (final(self).spec_phase() == HandPhase::AwaitingExchangeAnimation || !final(self).exchange_pending(
                seat@ as int,
            )),
            r is Ok && (final(self).spec_phase() == HandPhase::AwaitingExchange) ==> forall|k: int|
                0 <= k < 4 && k != seat@ ==> final(self).exchange_pending(k) == old(self).exchange_pending(k),
            r is Ok ==> final(self).spec_phase() == HandPhase::AwaitingExchange || final(self).spec_phase()
                == HandPhase::AwaitingExchangeAnimation,
    {
        if self.phase != HandPhase::AwaitingExchange {
            return self.phase_error();
        }
        let s = seat.index() as usize;
        if self.exchange_answers[s].is_some() {
            return Err(HandError::UnexpectedAction);
        }
        if ids[0] == ids[1] || ids[0] == ids[2] || ids[1] == ids[2] {
            return Err(HandError::ExchangeDuplicateTile);
        }
        let first = match Self::find_held(&self.players[s], ids[0]) {
            Some(tile) => tile,
            None => {
                return Err(HandError::ExchangeTileNotHeld { tile: ids[0] });
            },
        };
        let second = match Self::find_held(&self.players[s], ids[1]) {
            Some(tile) => tile,
            None => {
                return Err(HandError::ExchangeTileNotHeld { tile: ids[1] });
            },
        };
        let third = match Self::find_held(&self.players[s], ids[2]) {
            Some(tile) => tile,
            None => {
                return Err(HandError::ExchangeTileNotHeld { tile: ids[2] });
            },
        };
        proof {
            let hand = old(self).players@[seat@ as int];
            let ti = choose|i: int| 0 <= i < hand.concealed@.len() && hand.concealed@[i] == first;
            assert(hand.concealed@[ti].spec_id() == ids[0]);
            let tj = choose|i: int| 0 <= i < hand.concealed@.len() && hand.concealed@[i] == second;
            assert(hand.concealed@[tj].spec_id() == ids[1]);
            let tk = choose|i: int| 0 <= i < hand.concealed@.len() && hand.concealed@[i] == third;
            assert(hand.concealed@[tk].spec_id() == ids[2]);
        }
        let suit = first.kind().suit();
        if suit.is_none() || second.kind().suit() != suit || third.kind().suit() != suit {
            return Err(HandError::ExchangeTilesNotSameSuit);
        }
        self.exchange_answers.set(s, Some(ids));
        if self.exchange_answers[0].is_some() && self.exchange_answers[1].is_some() && self.exchange_answers[2].is_some()
            && self.exchange_answers[3].is_some() {
            self.complete_exchange();
        }
        Ok(())
    }

    /// Passes every seat's three tiles to its recipient in the dice's direction.
    fn complete_exchange(&mut self)
        requires
            old(self).well_formed(),
            old(self).spec_phase() == HandPhase::AwaitingExchange,
        ensures
            final(self).well_formed(),
            final(self).spec_phase() == HandPhase::AwaitingExchangeAnimation,
            forall|k: int| 0 <= k < 4 ==> final(self).exchange_pending(k),
    {
        let direction = self.wall.exchange_direction();
        let mut selected: Vec<Vec<Tile>> = Vec::new();
        let mut k: u8 = 0;
        while k < 4
            invariant
                k <= 4,
                selected@.len() == k,
                self.well_formed(),
                self.phase == HandPhase::AwaitingExchange,
                self.kan_events@ == old(self).kan_events@,
            decreases 4 - k,
        {
            let mut taken: Vec<Tile> = Vec::new();
            match self.exchange_answers[k as usize] {
                Some(ids) => {
                    let mut i: usize = 0;
                    while i < 3
                        invariant
                            i <= 3,
                            k < 4,
                            self.well_formed(),
                            self.phase == HandPhase::AwaitingExchange,
                            self.kan_events@ == old(self).kan_events@,
                        decreases 3 - i,
                    {
                        match self.players[k as usize].remove_id(ids[i]) {
                            Ok(tile) => {
                                taken.push(tile);
                            },
                            Err(_) => {},
                        }
                        i = i + 1;
                    }
                },
                None => {},
            }
            selected.push(taken);
            k = k + 1;
        }
        let mut source: u8 = 0;
        while source < 4
            invariant
                source <= 4,
                selected@.len() == 4,
                self.well_formed(),
                self.phase == HandPhase::AwaitingExchange,
                self.kan_events@ == old(self).kan_events@,
            decreases 4 - source,
        {
            let recipient = direction.recipient_of(Seat::at(source));
            let r = recipient.index() as usize;
            let tiles = &selected[source as usize];
            let mut t: usize = 0;
            while t < tiles.len()
                invariant
                    t <= tiles@.len(),
                    r < 4,
                    self.well_formed(),
                    self.phase == HandPhase::AwaitingExchange,
                    self.kan_events@ == old(self).kan_events@,
                decreases tiles@.len() - t,
            {
                self.players[r].insert(tiles[t]);
                t = t + 1;
            }
            source = source + 1;
        }
        let mut j: usize = 0;
        while j < 4
            invariant
                j <= 4,
                self.well_formed(),
                self.phase == HandPhase::AwaitingExchange,
                self.exchange_answers@.len() == 4,
                forall|m: int| 0 <= m < j ==> (#[trigger] self.exchange_answers@[m]) is None,
            decreases 4 - j,
        {
            self.exchange_answers.set(j, None);
            assert(self.exchange_answers@[j as int] is None);
            j = j + 1;
        }
        self.interrupted = true;
        self.phase = HandPhase::AwaitingExchangeAnimation;
    }

    /// Once every client has shown the exchange, the que choice opens.
    pub fn advance_from_exchange_animation(&mut self) -> (r: Result<(), HandError>)
        requires
            old(self).well_formed(),
        ensures
            final(self).well_formed(),
            old(self).spec_phase() != HandPhase::AwaitingExchangeAnimation ==> r == Err::<(), HandError>(
                HandError::UnexpectedAction,
            ) && *final(self) == *old(self),
            old(self).spec_phase() == HandPhase::AwaitingExchangeAnimation ==> r is Ok && final(self).spec_phase()
                == HandPhase::AwaitingDingQue,
    {
        if self.phase != HandPhase::AwaitingExchangeAnimation {
            return Err(HandError::UnexpectedAction);
        }
        self.phase = HandPhase::AwaitingDingQue;
        Ok(())
    }

    /// Chooses the seat's que suit; once all four have chosen, the dealer's turn opens with
    /// the fourteenth tile as the drawn tile.
    pub fn submit_dingque(&mut self, seat: Seat, suit: Suit) -> (r: Result<(), HandError>)
        requires
            old(self).well_formed(),
        ensures
            final(self).well_formed(),
            old(self).spec_phase() != HandPhase::AwaitingDingQue ==> r == Err::<(), HandError>(
                Self::phase_refusal(old(self).spec_phase()),
            ) && *final(self) == *old(self),
            old(self).spec_phase() == HandPhase::AwaitingDingQue && !old(self).dingque_pending(seat@ as int) ==> r
                == Err::<(), HandError>(HandError::UnexpectedAction) && *final(self) == *old(self),
            old(self).spec_phase() == HandPhase::AwaitingDingQue && old(self).dingque_pending(seat@ as int) ==> r is Ok
                && final(self).spec_que_suit(seat) == Some(suit),
            r is Ok ==> final(self).spec_phase() == HandPhase::AwaitingDingQue || final(self).spec_phase() == (
            HandPhase::AwaitingTurnAction { seat: old(self).spec_dealer() }),
    {
        if self.phase != HandPhase::AwaitingDingQue {
            return self.phase_error();
        }
        let s = seat.index() as usize;
        if self.que_suits[s].is_some() {
            return Err(HandError::UnexpectedAction);
        }
        self.que_suits.set(s, Some(suit));
        if self.que_suits[0].is_some() && self.que_suits[1].is_some() && self.que_suits[2].is_some()
            && self.que_suits[3].is_some() {
            self.start_play();
        }
        Ok(())
    }

    /// Opens the dealer's turn; the last of the dealer's tiles counts as drawn.
    fn start_play(&mut self)
        requires
            old(self).well_formed(),
            !(old(self).spec_phase() is Ended),
            !(old(self).spec_phase() is AwaitingKanAnimation),
            !(old(self).spec_phase() is AwaitingWinAnimation),
        ensures
            final(self).well_formed(),
            final(self).spec_phase() == (HandPhase::AwaitingTurnAction { seat: old(self).spec_dealer() }),
            *final(self) == (SichuanHand { players: final(self).players, phase: final(self).phase, ..*old(self) }),
    {
        let d = self.dealer.index() as usize;
        let count = self.players[d].concealed.len();
        let drawn = if count > 0 {
            Some(self.players[d].concealed[count - 1].id())
        } else {
            None
        };
        self.players[d].drawn = drawn;
        self.phase = HandPhase::AwaitingTurnAction { seat: self.dealer };
    }

    /// The kind belongs to the que suit (no que suit chosen matches only a kind without a suit).
    fn of_suit(kind: TileKind, que: Option<Suit>) -> (r: bool)
        ensures
            r == (crate::riichi::tile::kind_suit(kind@ as int) == que),
    {
        match (kind.suit(), que) {
            (Some(a), Some(b)) => a == b,
            (None, None) => true,
            _ => false,
        }
    }

    /// Some kind of the list belongs to the que suit.
    fn any_of_suit(kinds: &Vec<TileKind>, que: Option<Suit>) -> (r: bool)
        ensures
            r == exists|i: int| 0 <= i < kinds@.len() && crate::riichi::tile::kind_suit(#[trigger] kinds@[i]@ as int) == que,
    {
        let mut i: usize = 0;
        while i < kinds.len()
            invariant
                i <= kinds@.len(),
                forall|j: int| 0 <= j < i ==> crate::riichi::tile::kind_suit(#[trigger] kinds@[j]@ as int) != que,
            decreases kinds@.len() - i,
        {
            if Self::of_suit(kinds[i], que) {
                return true;
            }
            i = i + 1;
        }
        false
    }

    fn score_win(concealed: &Vec<TileKind>, melds: &Vec<MeldSummary>, context_flags: (bool, bool, bool, bool, bool, bool)) -> (r: Option<WinEvaluation>)
        ensures
            r matches Some(e) ==> e.spec_score() <= 32000,
            scored(concealed@, meld_info(melds@), context_flags, r),
    {
        if melds.len() <= 4 && concealed.len() > 255 {
            return None;
        }
        let (is_tsumo, rinshan, gang_pao, chankan, is_last_tile, blessing) = context_flags;
        let context = WinContext {
            concealed: concealed.as_slice(),
            melds: melds.as_slice(),
            is_tsumo,
            rinshan,
            gang_pao,
            chankan,
            is_last_tile,
            blessing,
        };
        evaluate(&context)
    }

    /// The evaluation of a self-drawn win by the seat, if its hand (drawn tile included) wins
    /// with no tile of its que suit.
    fn tsumo_evaluation(&self, seat: Seat) -> (r: Option<WinEvaluation>)
        requires
            self.well_formed(),
        ensures
            r matches Some(e) ==> e.spec_score() <= 32000,
            r is Some ==> self.players@[seat@ as int].drawn is Some,
            self.tsumo_scored(seat, r),
    {
        let s = seat.index() as usize;
        let player = &self.players[s];
        let drawn = match player.drawn {
            Some(id) => id,
            None => {
                return None;
            },
        };
        let winning = match Self::find_held(player, drawn) {
            Some(tile) => tile.kind(),
            None => {
                return None;
            },
        };
        let que = self.que_suits[s];
        let concealed = player.concealed_kinds();
        if Self::of_suit(winning, que) {
            proof {
                let i = choose|i: int| 0 <= i < player.concealed@.len() && player.concealed@[i].spec_id() == drawn && player.concealed@[i].spec_kind() == winning;
                assert(concealed@[i] == winning);
            }
            return None;
        }
        if Self::any_of_suit(&concealed, que) {
            return None;
        }
        let melds = player.meld_summaries();
        proof {
            assert(meld_info(melds@) =~= melds_info(player.melds@));
        }
        let blessing = !self.interrupted && self.turns_taken <= BLESSING_MAX_TURNS;
        Self::score_win(
            &concealed,
            &melds,
            (true, self.last_draw_was_replacement, false, false, self.last_draw_was_final, blessing),
        )
    }

    /// The evaluation of a win by the seat on another player's tile, if it wins with no tile of
    /// its que suit.
    fn ron_evaluation(&self, seat: Seat, winning: TileKind, chankan: bool, gang_pao: bool) -> (r: Option<
        WinEvaluation,
    >)
        requires
            self.well_formed(),
        ensures
            r matches Some(e) ==> e.spec_score() <= 32000,
            self.ron_scored(seat, winning, chankan, gang_pao, r),
            r is Some <==> self.ron_scores(seat, winning),
    {
        let s = seat.index() as usize;
        let player = &self.players[s];
        let que = self.que_suits[s];
        let mut concealed = player.concealed_kinds();
        concealed.push(winning);
        if Self::of_suit(winning, que) {
            proof {
                assert(concealed@[concealed@.len() - 1] == winning);
            }
            return None;
        }
        if Self::any_of_suit(&concealed, que) {
            return None;
        }
        let melds = player.meld_summaries();
        proof {
            assert(meld_info(melds@) =~= melds_info(player.melds@));
            assert(concealed@ =~= kinds_of(player.concealed@).push(winning));
        }
        Self::score_win(&concealed, &melds, (false, false, gang_pao, chankan, false, false))
    }

    /// What the seat may answer to a tile: a win always if it scores; a pon or an open kan
    /// only on a discard (not on an added kan), while the wall still has tiles, outside the
    /// seat's que suit, with two or three matching tiles in hand.
    fn reaction_options_for(&self, seat: Seat, tile: Tile, chankan: bool) -> (r: ReactionOptions)
        requires
            self.well_formed(),
        ensures
            r == self.options_for(seat, tile, chankan),
            chankan ==> !r.can_pon && !r.can_open_kan,
            r.can_pon ==> tiles_of_kind(self.players@[seat@ as int].concealed@, tile.spec_kind()) >= 2,
            r.can_open_kan ==> tiles_of_kind(self.players@[seat@ as int].concealed@, tile.spec_kind()) >= 3,
    {
        let kind = tile.kind();
        let s = seat.index() as usize;
        let que = self.que_suits[s];
        let gang_pao = !chankan && self.last_discard_was_replacement;
        let can_ron = self.ron_evaluation(seat, kind, chankan, gang_pao).is_some();
        if chankan {
            return ReactionOptions { can_ron, can_pon: false, can_open_kan: false };
        }
        let callable = self.wall.remaining_draws() > 0 && !Self::of_suit(kind, que);
        let held = self.players[s].count_of(kind);
        ReactionOptions { can_ron, can_pon: callable && held >= 2, can_open_kan: callable && held >= 3 }
    }

    /// Adds a settled change to the running totals.
    fn add_to_points(&mut self, deltas: &Vec<i32>, bound: i32)
        requires
            old(self).points_ok(),
            deltas@.len() == 4,
            within(deltas@, bound as int),
            0 <= bound <= 128000,
            sum4(deltas@) == 0,
        ensures
            final(self).point_deltas@.len() == 4,
            forall|i: int| 0 <= i < 4 ==> #[trigger] final(self).point_deltas@[i] == old(self).point_deltas@[i] + deltas@[i],
            sum4(final(self).point_deltas@) == 0,
            within(final(self).point_deltas@, old(self).delta_bound() + bound as int),
            *final(self) == (SichuanHand { point_deltas: final(self).point_deltas, ..*old(self) }),
    {
        proof {
            assert(old(self).delta_bound() <= 8000 * 109 + 128000 * 3);
        }
        let mut i: usize = 0;
        while i < 4
            invariant
                i <= 4,
                deltas@.len() == 4,
                self.point_deltas@.len() == 4,
                within(deltas@, bound as int),
                0 <= bound <= 128000,
                within(old(self).point_deltas@, old(self).delta_bound()),
                old(self).delta_bound() <= 8000 * 109 + 128000 * 3,
                old(self).point_deltas@.len() == 4,
                forall|j: int| 0 <= j < i ==> #[trigger] self.point_deltas@[j] == old(self).point_deltas@[j] + deltas@[j],
                forall|j: int| i <= j < 4 ==> #[trigger] self.point_deltas@[j] == old(self).point_deltas@[j],
                *self == (SichuanHand { point_deltas: self.point_deltas, ..*old(self) }),
            decreases 4 - i,
        {
            let value = self.point_deltas[i] + deltas[i];
            self.point_deltas.set(i, value);
            i = i + 1;
        }
    }

    /// The change when every other seat still in the hand pays `amount` to `receiver`.
    fn everyone_pays(&self, receiver: Seat, amount: i32) -> (r: Vec<i32>)
        requires
            self.won@.len() == 4,
            0 <= amount <= 32000,
        ensures
            r@.len() == 4,
            sum4(r@) == 0,
            within(r@, 4 * amount),
            forall|i: int| 0 <= i < 4 && i != receiver@ ==> #[trigger] r@[i] == (if self.won@[i] {
                0
            } else {
                -amount
            }),
    {
        let w = receiver.index() as usize;
        let mut deltas: Vec<i32> = vec![0, 0, 0, 0];
        let mut other: usize = 0;
        while other < 4
            invariant
                other <= 4,
                w < 4,
                0 <= amount <= 32000,
                self.won@.len() == 4,
                deltas@.len() == 4,
                sum4(deltas@) == 0,
                0 <= deltas@[w as int] <= amount * other,
                forall|i: int| 0 <= i < 4 && i != w ==> -amount <= #[trigger] deltas@[i] <= 0,
                forall|i: int| 0 <= i < other && i != w ==> #[trigger] deltas@[i] == (if self.won@[i] {
                    0
                } else {
                    -amount
                }),
                forall|i: int| other <= i < 4 && i != w ==> #[trigger] deltas@[i] == 0,
            decreases 4 - other,
        {
            if other != w && !self.won[other] {
                let gained = deltas[w] + amount;
                deltas.set(w, gained);
                deltas.set(other, -amount);
            }
            proof {
                assert(amount * other + amount == amount * (other + 1)) by (nonlinear_arith);
            }
            other = other + 1;
        }
        proof {
            assert(amount * 4 == 4 * amount) by (nonlinear_arith);
        }
        deltas
    }

    /// `d` settles a win of `score` for the winner: on a self-draw every other seat still in
    /// the hand pays it, otherwise the payer alone (nothing moves when the payer is the winner).
    pub closed spec fn settles_win(&self, d: Seq<i32>, winner: Seat, score: int, is_tsumo: bool, payer: Seat) -> bool {
        &&& d.len() == 4
        &&& sum4(d) == 0
        &&& forall|i: int|
            0 <= i < 4 && i != winner@ ==> #[trigger] d[i] == if is_tsumo {
                if self.won@[i] {
                    0
                } else {
                    -score
                }
            } else if i == payer@ {
                -score
            } else {
                0
            }
    }

    /// `after` is this hand once the win is on record and settled, waiting to be shown.
    pub closed spec fn won_by(
        &self,
        after: SichuanHand,
        winner: Seat,
        evaluation: WinEvaluation,
        is_tsumo: bool,
        payer: Seat,
        chankan: bool,
    ) -> bool {
        let record = after.winners@.last();
        &&& after.winners@.len() == self.winners@.len() + 1
        &&& after.winners@.drop_last() == self.winners@
        &&& record.seat == winner
        &&& record.evaluation == evaluation
        &&& record.is_tsumo == is_tsumo
        &&& record.payer == if is_tsumo {
            None
        } else {
            Some(payer)
        }
        &&& record.chankan == chankan
        &&& self.settles_win(record.deltas@, winner, evaluation.spec_score() as int, is_tsumo, payer)
        &&& after.point_deltas@.len() == 4
        &&& forall|i: int| 0 <= i < 4 ==> #[trigger] after.point_deltas@[i] == self.point_deltas@[i] + record.deltas@[i]
        &&& after.won@ == self.won@.update(winner@ as int, true)
        &&& after == (SichuanHand {
            point_deltas: after.point_deltas,
            winners: after.winners,
            won: after.won,
            phase: HandPhase::AwaitingWinAnimation { seat: winner },
            ..*self
        })
    }

    /// Records a win, settles it among the seats still in the hand, and waits for the win
    /// to be shown.
    fn record_win(&mut self, winner: Seat, evaluation: WinEvaluation, is_tsumo: bool, payer: Seat, chankan: bool)
        requires
            old(self).well_formed(),
            old(self).winners@.len() < 3,
            !(old(self).phase is Ended),
            !(old(self).phase is AwaitingKanAnimation),
            evaluation.spec_score() <= 32000,
        ensures
            final(self).well_formed(),
            final(self).spec_phase() == (HandPhase::AwaitingWinAnimation { seat: winner }),
            final(self).winners@.len() == old(self).winners@.len() + 1,
            final(self).winners@.last().seat == winner,
            final(self).spec_won(winner),
            old(self).won_by(*final(self), winner, evaluation, is_tsumo, payer, chankan),
    {
        let score = evaluation.score() as i32;
        let deltas = if is_tsumo {
            self.everyone_pays(winner, score)
        } else {
            let mut pair: Vec<i32> = vec![0, 0, 0, 0];
            let w = winner.index() as usize;
            let p = payer.index() as usize;
            if w != p {
                pair.set(w, score);
                pair.set(p, -score);
            }
            pair
        };
        proof {
            assert(old(self).settles_win(deltas@, winner, evaluation.spec_score() as int, is_tsumo, payer));
        }
        self.add_to_points(&deltas, 4 * score);
        let ghost bound_before = self.delta_bound();
        let record = WinnerRecord {
            seat: winner,
            evaluation,
            is_tsumo,
            payer: if is_tsumo {
                None
            } else {
                Some(payer)
            },
            chankan,
            deltas,
        };
        self.winners.push(record);
        self.won.set(winner.index() as usize, true);
        self.phase = HandPhase::AwaitingWinAnimation { seat: winner };
        proof {
            assert(self.delta_bound() == bound_before + 128000);
            assert forall|i: int| 0 <= i < 4 implies -self.delta_bound() <= #[trigger] self.point_deltas@[i] <= self.delta_bound() by {}
            assert(self.winners@.drop_last() =~= old(self).winners@);
        }
    }

    /// `after` is this hand once the seat has laid down the meld (the next identity, the given
    /// kind, kind of tile, tiles and source): its drawn tile is cleared and a kan counts
    /// toward its gen; the identity counter moves on unless at its limit.
    pub closed spec fn melded(
        &self,
        after: SichuanHand,
        seat: Seat,
        kind: MeldKind,
        tile: TileKind,
        tiles: Seq<Tile>,
        called_from: Option<Seat>,
        called_tile: Option<TileId>,
    ) -> bool {
        let s = seat@ as int;
        let p = self.players@[s];
        let q = after.players@[s];
        let m = q.melds@.last();
        &&& after.next_meld_id == if self.next_meld_id < u16::MAX {
            (self.next_meld_id + 1) as u16
        } else {
            self.next_meld_id
        }
        &&& q.concealed@ == p.concealed@
        &&& q.discards@ == p.discards@
        &&& q.drawn is None
        &&& q.kan_count == p.kan_count + if super::model::meld_is_kan(kind) { 1int } else { 0int }
        &&& q.melds@.len() == p.melds@.len() + 1
        &&& q.melds@.drop_last() == p.melds@
        &&& m.spec_id()@ == self.next_meld_id
        &&& m.spec_kind() == kind
        &&& m.spec_tile() == tile
        &&& m.spec_tiles() == tiles
        &&& m.spec_called_from() == called_from
        &&& m.spec_called_tile() == called_tile
        &&& after.players@.len() == 4
        &&& forall|i: int| 0 <= i < 4 && i != s ==> after.players@[i] == #[trigger] self.players@[i]
        &&& after == (SichuanHand { players: after.players, next_meld_id: after.next_meld_id, ..*self })
    }

    /// Adds a meld to the seat; a kan also counts toward the seat's gen. Meld identities are
    /// handed out in order (a hand never holds anywhere near the counter's limit).
    fn push_meld(&mut self, seat: Seat, kind: MeldKind, tile: TileKind, tiles: Vec<Tile>, called_from: Option<Seat>, called_tile: Option<TileId>)
        requires
            old(self).players@.len() == 4,
            tiles@.len() == (if super::model::meld_is_kan(kind) { 4int } else { 3int }),
            forall|i: int| 0 <= i < tiles@.len() ==> (#[trigger] tiles@[i]).spec_kind() == tile,
            forall|i: int| 0 <= i < 4 ==> (#[trigger] old(self).players@[i]).kan_count <= old(self).kan_events@.len(),
            old(self).kan_events@.len() <= 109,
            super::model::meld_is_kan(kind) ==> old(self).players@[seat@ as int].kan_count < old(self).kan_events@.len(),
        ensures
            final(self).players@.len() == 4,
            forall|i: int| 0 <= i < 4 ==> (#[trigger] final(self).players@[i]).kan_count <= final(self).kan_events@.len(),
            *final(self) == (SichuanHand { players: final(self).players, next_meld_id: final(self).next_meld_id, ..*old(self) }),
            old(self).melded(*final(self), seat, kind, tile, tiles@, called_from, called_tile),
    {
        let ghost tiles_in = tiles@;
        let id = MeldId::new(self.next_meld_id);
        if self.next_meld_id < u16::MAX {
            self.next_meld_id = self.next_meld_id + 1;
        }
        let s = seat.index() as usize;
        self.players[s].drawn = None;
        if kind.is_kan() {
            self.players[s].kan_count = self.players[s].kan_count + 1;
        }
        self.players[s].melds.push(Meld::new(id, kind, tile, tiles, called_from, called_tile));
        proof {
            assert(self.players@[s as int].melds@.drop_last() =~= old(self).players@[s as int].melds@);
            assert(old(self).melded(*self, seat, kind, tile, tiles_in, called_from, called_tile));
        }
    }

    /// `after` is this hand with the kan of the seat settled by `d` and on record.
    pub closed spec fn kan_settled(&self, after: SichuanHand, seat: Seat, kind: MeldKind, d: Seq<i32>) -> bool {
        &&& after.point_deltas@.len() == 4
        &&& forall|i: int| 0 <= i < 4 ==> #[trigger] after.point_deltas@[i] == self.point_deltas@[i] + d[i]
        &&& after.kan_events@.drop_last() == self.kan_events@
        &&& after.kan_events@.len() == self.kan_events@.len() + 1
        &&& after.kan_events@.last().seat == seat
        &&& after.kan_events@.last().kind == kind
        &&& after.kan_events@.last().deltas@ == d
    }

    /// Settles a kan among the seats and records it.
    fn apply_kan_event(&mut self, seat: Seat, kind: MeldKind, deltas: Vec<i32>)
        requires
            old(self).points_ok(),
            old(self).kan_events@.len() < 109,
            deltas@.len() == 4,
            within(deltas@, 8000),
            sum4(deltas@) == 0,
        ensures
            final(self).points_ok(),
            final(self).kan_events@.len() == old(self).kan_events@.len() + 1,
            *final(self) == (SichuanHand { point_deltas: final(self).point_deltas, kan_events: final(self).kan_events, ..*old(self) }),
            old(self).kan_settled(*final(self), seat, kind, deltas@),
    {
        let ghost d = deltas@;
        self.add_to_points(&deltas, 8000);
        let ghost bound_before = self.delta_bound();
        self.kan_events.push(KanEvent { seat, kind, deltas });
        proof {
            assert(self.kan_events@.drop_last() =~= old(self).kan_events@);
            assert(self.delta_bound() == bound_before + 8000);
            assert forall|i: int| 0 <= i < 4 implies -self.delta_bound() <= #[trigger] self.point_deltas@[i] <= self.delta_bound() by {}
        }
    }

    /// `after` is this hand once the seat has won by self-draw: the win is scored, on record
    /// and settled by every other seat still in the hand.
    pub closed spec fn self_drawn(&self, after: SichuanHand, seat: Seat) -> bool {
        exists|e: WinEvaluation|
            #![trigger self.won_by(after, seat, e, true, seat, false)]
            self.tsumo_scored(seat, Some(e)) && self.won_by(after, seat, e, true, seat, false)
    }

    /// What taking the action does to this hand, for the seat whose turn it is: the result
    /// `r` (each refusal exactly when it applies) and, on success, `after`.
    pub closed spec fn turn_taken(&self, after: SichuanHand, seat: Seat, action: TurnAction, r: Result<(), HandError>) -> bool {
        &&& r is Err ==> after == *self
        &&& match action {
            TurnAction::Discard { tile } => {
                &&& r == match self.discard_refusal(seat, tile) {
                    Some(e) => Err::<(), HandError>(e),
                    None => Ok(()),
                }
                &&& r is Ok ==> self.discarded(after, seat, tile)
            },
            TurnAction::Tsumo => {
                &&& r is Ok <==> self.self_draw_wins(seat)
                &&& r is Err ==> r == Err::<(), HandError>(HandError::NotAWinningHand)
                &&& r is Ok ==> self.self_drawn(after, seat)
            },
            TurnAction::ConcealedKan { tile } => {
                &&& self.wall.spec_front() == self.wall.spec_back() ==> r == Err::<(), HandError>(
                    HandError::WallExhausted,
                )
                &&& self.wall.spec_front() != self.wall.spec_back() && tiles_of_kind(
                    self.players@[seat@ as int].concealed@,
                    tile,
                ) < 4 ==> r == Err::<(), HandError>(HandError::MeldNotAvailable)
                &&& self.wall.spec_front() != self.wall.spec_back() && tiles_of_kind(
                    self.players@[seat@ as int].concealed@,
                    tile,
                ) >= 4 ==> r is Ok
                &&& r is Ok ==> self.kan_declared(after, seat, tile)
            },
            TurnAction::AddedKan { meld } => {
                &&& r == match self.added_kan_refusal(seat, meld) {
                    Some(e) => Err::<(), HandError>(e),
                    None => Ok(()),
                }
                &&& r is Ok ==> self.added_kan_declared(after, seat, meld)
            },
        }
    }

    /// Applies the action of the seat whose turn it is; after a call only a discard is taken.
    pub fn apply_turn_action(&mut self, seat: Seat, action: TurnAction) -> (r: Result<(), HandError>)
        requires
            old(self).well_formed(),
        ensures
            final(self).well_formed(),
            old(self).spec_phase() is Ended ==> r == Err::<(), HandError>(HandError::HandAlreadyEnded),
            old(self).spec_phase() == (HandPhase::AwaitingDiscard { seat }) && !(action is Discard) ==> r
                == Err::<(), HandError>(HandError::UnexpectedAction),
            !(old(self).spec_phase() is Ended) && old(self).spec_phase() != (HandPhase::AwaitingTurnAction { seat })
                && old(self).spec_phase() != (HandPhase::AwaitingDiscard { seat }) ==> r == Err::<(), HandError>(
                HandError::OutOfTurn { seat },
            ),
            r is Err ==> old(self).spec_point_deltas() == final(self).spec_point_deltas(),
            r is Err ==> *final(self) == *old(self),
            Self::acting(old(self).spec_phase(), seat) && !(old(self).spec_phase() == (HandPhase::AwaitingDiscard { seat })
                && !(action is Discard)) ==> old(self).turn_taken(*final(self), seat, action, r),
    {
        match self.phase {
            HandPhase::Ended { .. } => {
                return Err(HandError::HandAlreadyEnded);
            },
            HandPhase::AwaitingTurnAction { seat: current } => {
                if current != seat {
                    return Err(HandError::OutOfTurn { seat });
                }
            },
            HandPhase::AwaitingDiscard { seat: current } => {
                if current != seat {
                    return Err(HandError::OutOfTurn { seat });
                }
                if !matches!(action, TurnAction::Discard { .. }) {
                    return Err(HandError::UnexpectedAction);
                }
            },
            _ => {
                return Err(HandError::OutOfTurn { seat });
            },
        }
        match action {
            TurnAction::Discard { tile } => {
                let r = self.discard(seat, tile);
                proof {
                    if r is Ok {
                        assert(old(self).discarded(*self, seat, tile));
                    }
                    assert(r == match old(self).discard_refusal(seat, tile) {
                        Some(e) => Err::<(), HandError>(e),
                        None => Ok(()),
                    });
                    assert(old(self).turn_taken(*self, seat, action, r));
                }
                r
            },
            TurnAction::Tsumo => {
                let r = self.tsumo(seat);
                proof {
                    assert(old(self).turn_taken(*self, seat, action, r));
                }
                r
            },
            TurnAction::ConcealedKan { tile } => {
                let r = self.concealed_kan(seat, tile);
                proof {
                    assert(old(self).turn_taken(*self, seat, action, r));
                }
                r
            },
            TurnAction::AddedKan { meld } => {
                let r = self.added_kan(seat, meld);
                proof {
                    assert(old(self).turn_taken(*self, seat, action, r));
                }
                r
            },
        }
    }

    /// The phase lets the seat act: its turn, or its discard after a call.
    pub open spec fn acting(phase: HandPhase, seat: Seat) -> bool {
        phase == (HandPhase::AwaitingTurnAction { seat }) || phase == (HandPhase::AwaitingDiscard { seat })
    }

    /// Why the seat may not discard the tile, if it may not: it does not hold it, or it still
    /// holds a tile of its que suit and this one (the first held with the identity) is not.
    pub closed spec fn discard_refusal(&self, seat: Seat, tile: TileId) -> Option<HandError> {
        let p = self.players@[seat@ as int];
        let que = self.que_suits@[seat@ as int];
        if forall|j: int| 0 <= j < p.concealed@.len() ==> (#[trigger] p.concealed@[j]).spec_id() != tile {
            Some(HandError::TileNotHeld { tile })
        } else {
            let i = choose|i: int| Self::first_held(p.concealed@, tile, i);
            if has_que_kind(kinds_of(p.concealed@), que) && crate::riichi::tile::kind_suit(p.concealed@[i].spec_kind()@ as int)
                != que {
                Some(HandError::QueTilesRemaining)
            } else {
                None
            }
        }
    }

    /// `after` is this hand once the seat has discarded its tile with the identity: the tile
    /// leaves its hand onto its discards, its drawn tile is cleared, the discard remembers
    /// whether the seat's draw was a kan replacement, and the window for answers is opened.
    pub closed spec fn discarded(&self, after: SichuanHand, seat: Seat, tile: TileId) -> bool {
        let s = seat@ as int;
        let p = self.players@[s];
        exists|pos: int, mid: SichuanHand|
            #![trigger mid.reactions_opened(after, seat), p.concealed@[pos]]
            {
                let removed = p.concealed@[pos];
                let q = mid.players@[s];
                &&& 0 <= pos < p.concealed@.len()
                &&& removed.spec_id() == tile
                &&& q.concealed@ == p.concealed@.remove(pos)
                &&& q.drawn is None
                &&& q.melds@ == p.melds@
                &&& q.kan_count == p.kan_count
                &&& q.discards@.len() == p.discards@.len() + 1
                &&& q.discards@.drop_last() == p.discards@
                &&& q.discards@.last().spec_tile() == removed
                &&& !q.discards@.last().spec_called()
                &&& mid.players@.len() == 4
                &&& forall|i: int| 0 <= i < 4 && i != s ==> mid.players@[i] == #[trigger] self.players@[i]
                &&& mid == (SichuanHand {
                    players: mid.players,
                    last_draw_was_replacement: false,
                    last_draw_was_final: false,
                    last_discard_was_replacement: self.last_draw_was_replacement,
                    last_discard: Some((seat, removed)),
                    ..*self
                })
                &&& mid.reactions_opened(after, seat)
            }
    }

    fn discard(&mut self, seat: Seat, tile: TileId) -> (r: Result<(), HandError>)
        requires
            old(self).well_formed(),
            Self::acting(old(self).phase, seat),
        ensures
            final(self).well_formed(),
            r is Err ==> final(self).point_deltas@ == old(self).point_deltas@,
            r == match old(self).discard_refusal(seat, tile) {
                Some(e) => Err::<(), HandError>(e),
                None => Ok(()),
            },
            r is Err ==> *final(self) == *old(self),
            r is Ok ==> old(self).discarded(*final(self), seat, tile),
    {
        let s = seat.index() as usize;
        let que = self.que_suits[s];
        let kind = match Self::find_held(&self.players[s], tile) {
            Some(held) => held.kind(),
            None => {
                return Err(HandError::TileNotHeld { tile });
            },
        };
        let kinds = self.players[s].concealed_kinds();
        proof {
            let p = old(self).players@[s as int];
            let i = choose|i: int| Self::first_held(p.concealed@, tile, i);
            assert(kinds@ =~= kinds_of(p.concealed@));
            assert(Self::first_held(p.concealed@, tile, i));
            assert forall|i2: int| Self::first_held(p.concealed@, tile, i2) implies i2 == i by {
                if i2 < i {
                    assert(p.concealed@[i2].spec_id() != tile);
                } else if i < i2 {
                    assert(p.concealed@[i].spec_id() != tile);
                }
            }
        }
        if Self::any_of_suit(&kinds, que) && !Self::of_suit(kind, que) {
            return Err(HandError::QueTilesRemaining);
        }
        let was_replacement = self.last_draw_was_replacement;
        let removed = match self.players[s].remove_id(tile) {
            Ok(removed) => removed,
            Err(e) => {
                return Err(e);
            },
        };
        let ghost c0 = old(self).players@[s as int].concealed@;
        let ghost pos = choose|pos: int|
            0 <= pos < c0.len() && c0[pos] == removed && self.players@[s as int].concealed@ == c0.remove(pos);
        self.players[s].drawn = None;
        self.players[s].discards.push(Discard::new(removed));
        self.last_draw_was_replacement = false;
        self.last_draw_was_final = false;
        self.last_discard_was_replacement = was_replacement;
        self.last_discard = Some((seat, removed));
        let ghost mid = *self;
        proof {
            assert(mid.players@[s as int].discards@.drop_last() =~= old(self).players@[s as int].discards@);
        }
        self.open_reactions(seat);
        proof {
            assert(mid.reactions_opened(*self, seat));
            assert(old(self).players@[s as int].concealed@[pos] == removed);
        }
        Ok(())
    }

    fn tsumo(&mut self, seat: Seat) -> (r: Result<(), HandError>)
        requires
            old(self).well_formed(),
            Self::acting(old(self).phase, seat),
        ensures
            final(self).well_formed(),
            r is Err ==> r == Err::<(), HandError>(HandError::NotAWinningHand) && *final(self) == *old(self),
            r is Ok ==> final(self).spec_phase() == (HandPhase::AwaitingWinAnimation { seat }) && final(self).spec_won(seat),
            r is Ok <==> old(self).self_draw_wins(seat),
            r is Ok ==> old(self).self_drawn(*final(self), seat),
    {
        let evaluation = match self.tsumo_evaluation(seat) {
            Some(evaluation) => evaluation,
            None => {
                return Err(HandError::NotAWinningHand);
            },
        };
        self.record_win(seat, evaluation, true, seat, false);
        proof {
            assert(old(self).won_by(*self, seat, evaluation, true, seat, false));
        }
        Ok(())
    }

    /// `after` is this hand once the seat has declared a concealed kan of the kind: four of
    /// its tiles of the kind leave its hand into the kan, every other seat still in the hand
    /// pays it, and the kan waits to be shown.
    pub closed spec fn kan_declared(&self, after: SichuanHand, seat: Seat, kind: TileKind) -> bool {
        let s = seat@ as int;
        let p = self.players@[s];
        exists|mid: SichuanHand, taken: Seq<Tile>, d: Seq<i32>, laid: SichuanHand|
            #![trigger mid.melded(laid, seat, MeldKind::ConcealedKan, kind, taken, None, None), self.kan_settled(mid, seat, MeldKind::ConcealedKan, d)]
            {
                &&& mid.players@.len() == 4
                &&& Self::took_kind(p, mid.players@[s], kind, 4, taken)
                &&& mid.players@[s].discards@ == p.discards@
                &&& forall|i: int| 0 <= i < 4 && i != s ==> mid.players@[i] == #[trigger] self.players@[i]
                &&& self.settles_win(d, seat, CONCEALED_KAN_POINTS as int, true, seat)
                &&& self.kan_settled(mid, seat, MeldKind::ConcealedKan, d)
                &&& mid == (SichuanHand {
                    players: mid.players,
                    point_deltas: mid.point_deltas,
                    kan_events: mid.kan_events,
                    ..*self
                })
                &&& mid.melded(laid, seat, MeldKind::ConcealedKan, kind, taken, None, None)
                &&& after == (SichuanHand {
                    interrupted: true,
                    phase: HandPhase::AwaitingKanAnimation { seat },
                    ..laid
                })
            }
    }

    fn concealed_kan(&mut self, seat: Seat, kind: TileKind) -> (r: Result<(), HandError>)
        requires
            old(self).well_formed(),
            Self::acting(old(self).phase, seat),
        ensures
            final(self).well_formed(),
            r is Err ==> final(self).point_deltas@ == old(self).point_deltas@,
            r is Ok ==> final(self).spec_phase() == (HandPhase::AwaitingKanAnimation { seat }),
            old(self).wall.spec_front() == old(self).wall.spec_back() ==> r == Err::<(), HandError>(HandError::WallExhausted),
            old(self).wall.spec_front() < old(self).wall.spec_back() && tiles_of_kind(old(self).concealed_of(seat), kind)
                < 4 ==> r == Err::<(), HandError>(HandError::MeldNotAvailable),
            old(self).wall.spec_front() < old(self).wall.spec_back() && tiles_of_kind(old(self).concealed_of(seat), kind)
                >= 4 ==> r is Ok,
            r is Err ==> *final(self) == *old(self),
            r is Ok ==> old(self).kan_declared(*final(self), seat, kind),
    {
        if self.wall.remaining_draws() == 0 {
            return Err(HandError::WallExhausted);
        }
        let s = seat.index() as usize;
        if self.players[s].count_of(kind) < 4 {
            return Err(HandError::MeldNotAvailable);
        }
        let tiles = match self.players[s].remove_kind(kind, 4) {
            Ok(tiles) => tiles,
            Err(e) => {
                return Err(e);
            },
        };
        let ghost taken = tiles@;
        let deltas = self.everyone_pays(seat, CONCEALED_KAN_POINTS);
        let ghost d = deltas@;
        proof {
            assert(old(self).settles_win(d, seat, CONCEALED_KAN_POINTS as int, true, seat));
        }
        self.apply_kan_event(seat, MeldKind::ConcealedKan, deltas);
        let ghost mid = *self;
        proof {
            assert(old(self).kan_settled(mid, seat, MeldKind::ConcealedKan, d));
        }
        self.push_meld(seat, MeldKind::ConcealedKan, kind, tiles, None, None);
        let ghost laid = *self;
        self.interrupted = true;
        self.phase = HandPhase::AwaitingKanAnimation { seat };
        proof {
            assert(mid.melded(laid, seat, MeldKind::ConcealedKan, kind, taken, None, None));
        }
        Ok(())
    }

    /// Why the seat may not add to the meld, if it may not: the wall can give no replacement,
    /// it has no meld with the identity, the first such is no pon, or it holds no tile of the
    /// pon's kind.
    pub closed spec fn added_kan_refusal(&self, seat: Seat, meld_id: MeldId) -> Option<HandError> {
        let p = self.players@[seat@ as int];
        if self.wall.spec_front() == self.wall.spec_back() {
            Some(HandError::WallExhausted)
        } else if forall|m: int| 0 <= m < p.melds@.len() ==> (#[trigger] p.melds@[m]).spec_id() != meld_id {
            Some(HandError::MeldNotFound { meld: meld_id })
        } else {
            let m = choose|m: int| Self::first_meld(p.melds@, meld_id, m);
            if p.melds@[m].spec_kind() != MeldKind::Pon || tiles_of_kind(p.concealed@, p.melds@[m].spec_tile()) == 0 {
                Some(HandError::MeldNotAvailable)
            } else {
                None
            }
        }
    }

    /// This hand with the added kan of the seat onto its meld, with the tile, pending.
    pub closed spec fn with_pending(&self, seat: Seat, meld_id: MeldId, tile: Tile) -> SichuanHand {
        SichuanHand { pending_added_kan: Some(PendingAddedKan { declarer: seat, meld_id, tile }), ..*self }
    }

    /// `after` is this hand once the seat has declared an added kan onto its pon with the
    /// identity, with its first tile of the pon's kind: the others may rob it with a win;
    /// when none can, the kan is made.
    pub closed spec fn added_kan_declared(&self, after: SichuanHand, seat: Seat, meld_id: MeldId) -> bool {
        let p = self.players@[seat@ as int];
        exists|i: int, opened: SichuanHand|
            #![trigger self.with_pending(seat, meld_id, p.concealed@[i]).window_opened(opened, seat, p.concealed@[i], true)]
            {
                let tile = p.concealed@[i];
                let m = choose|m: int| Self::first_meld(p.melds@, meld_id, m);
                &&& 0 <= i < p.concealed@.len()
                &&& tile.spec_kind() == p.melds@[m].spec_tile()
                &&& forall|j: int| 0 <= j < i ==> (#[trigger] p.concealed@[j]).spec_kind() != p.melds@[m].spec_tile()
                &&& self.with_pending(seat, meld_id, tile).window_opened(opened, seat, tile, true)
                &&& if opened.any_answer() {
                    after == opened
                } else {
                    opened.kan_completed(after)
                }
            }
    }

    fn added_kan(&mut self, seat: Seat, meld_id: MeldId) -> (r: Result<(), HandError>)
        requires
            old(self).well_formed(),
            Self::acting(old(self).phase, seat),
        ensures
            final(self).well_formed(),
            r is Err ==> final(self).point_deltas@ == old(self).point_deltas@,
            r == match old(self).added_kan_refusal(seat, meld_id) {
                Some(e) => Err::<(), HandError>(e),
                None => Ok(()),
            },
            r is Err ==> *final(self) == *old(self),
            r is Ok ==> old(self).added_kan_declared(*final(self), seat, meld_id),
    {
        if self.wall.remaining_draws() == 0 {
            return Err(HandError::WallExhausted);
        }
        let s = seat.index() as usize;
        let melds = &self.players[s].melds;
        let mut m: usize = 0;
        while m < melds.len() && melds[m].id() != meld_id
            invariant
                m <= melds@.len(),
                forall|j: int| 0 <= j < m ==> (#[trigger] melds@[j]).spec_id() != meld_id,
            decreases melds@.len() - m,
        {
            m = m + 1;
        }
        let ghost p = old(self).players@[s as int];
        if m == melds.len() {
            return Err(HandError::MeldNotFound { meld: meld_id });
        }
        proof {
            assert(Self::first_meld(p.melds@, meld_id, m as int));
            let m2 = choose|m2: int| Self::first_meld(p.melds@, meld_id, m2);
            assert(Self::first_meld(p.melds@, meld_id, m2));
            if m2 < m {
                assert(p.melds@[m2].spec_id() != meld_id);
            } else if m < m2 {
                assert(p.melds@[m as int].spec_id() != meld_id);
            }
            assert(m2 == m);
        }
        if melds[m].kind() != MeldKind::Pon {
            return Err(HandError::MeldNotAvailable);
        }
        let kind = melds[m].tile();
        let concealed = &self.players[s].concealed;
        let mut i: usize = 0;
        while i < concealed.len() && concealed[i].kind() != kind
            invariant
                i <= concealed@.len(),
                forall|j: int| 0 <= j < i ==> (#[trigger] concealed@[j]).spec_kind() != kind,
            decreases concealed@.len() - i,
        {
            i = i + 1;
        }
        proof {
            assert(concealed@ == p.concealed@);
            assert(kind == p.melds@[m as int].spec_tile());
        }
        if i == concealed.len() {
            proof {
                if tiles_of_kind(p.concealed@, kind) > 0 {
                    crate::sichuan::hand::player::lemma_tiles_of_kind_witness(p.concealed@, kind);
                    let w = choose|w: int| 0 <= w < p.concealed@.len() && (#[trigger] p.concealed@[w]).spec_kind() == kind;
                    assert(concealed@[w].spec_kind() != kind);
                }
                crate::sichuan::hand::player::lemma_tiles_of_kind_bounds(p.concealed@, kind);
            }
            return Err(HandError::MeldNotAvailable);
        }
        proof {
            crate::sichuan::hand::player::lemma_tiles_of_kind_positive(p.concealed@, kind, i as int);
        }
        let tile = concealed[i];
        self.pending_added_kan = Some(PendingAddedKan { declarer: seat, meld_id, tile });
        proof {
            assert(*self == old(self).with_pending(seat, meld_id, tile));
        }
        self.open_chankan_reactions(seat, tile);
        let ghost opened = *self;
        proof {
            assert(old(self).with_pending(seat, meld_id, p.concealed@[i as int]).window_opened(opened, seat, p.concealed@[i as int], true));
        }
        if matches!(self.phase, HandPhase::AwaitingResponses { .. }) {
            return Ok(());
        }
        self.complete_added_kan();
        Ok(())
    }

    /// The seat may answer the tile: on an added kan only with a win, on a discard with any
    /// answer it has.
    pub closed spec fn may_answer(&self, seat: Seat, tile: Tile, chankan: bool) -> bool {
        let o = self.options_for(seat, tile, chankan);
        if chankan {
            o.can_ron
        } else {
            o.can_ron || o.can_pon || o.can_open_kan
        }
    }

    /// `after` has no answer on record and, for each seat, whether it may answer the tile of
    /// `from`: not `from` itself, nor a seat that has won.
    pub closed spec fn answers_opened(&self, after: SichuanHand, from: Seat, tile: Tile, chankan: bool) -> bool {
        &&& after.reaction_answers@ == seq![None::<ReactionKind>, None, None, None]
        &&& after.reaction_eligible@.len() == 4
        &&& forall|seat: Seat|
            seat@ < 4 ==> #[trigger] after.reaction_eligible@[seat@ as int] == (seat@ != from@ && !self.won@[seat@ as int]
                && self.may_answer(seat, tile, chankan))
    }

    /// Some seat may answer.
    pub closed spec fn any_answer(&self) -> bool {
        exists|k: int| 0 <= k < 4 && self.reaction_eligible@[k]
    }

    /// `after` is this hand once the window for answers to the tile of `from` is opened: when
    /// some seat may answer, the hand waits for the answers; otherwise it stays as it was.
    pub closed spec fn window_opened(&self, after: SichuanHand, from: Seat, tile: Tile, chankan: bool) -> bool {
        &&& self.answers_opened(after, from, tile, chankan)
        &&& after == (SichuanHand {
            reaction_eligible: after.reaction_eligible,
            reaction_answers: after.reaction_answers,
            phase: if after.any_answer() {
                HandPhase::AwaitingResponses { discarder: from }
            } else {
                self.phase
            },
            ..*self
        })
    }

    /// Opens the window in which the others may rob the added kan with a win.
    fn open_chankan_reactions(&mut self, declarer: Seat, tile: Tile)
        requires
            old(self).well_formed(),
            !(old(self).phase is Ended),
            !(old(self).phase is AwaitingKanAnimation),
            !(old(self).phase is AwaitingWinAnimation),
        ensures
            final(self).well_formed(),
            final(self).phase == old(self).phase || final(self).phase == (HandPhase::AwaitingResponses { discarder: declarer }),
            final(self).pending_added_kan == old(self).pending_added_kan,
            old(self).window_opened(*final(self), declarer, tile, true),
    {
        self.reaction_answers = vec![None, None, None, None];
        self.reaction_eligible = vec![false, false, false, false];
        let ghost cleared = *self;
        let mut any = false;
        let mut k: u8 = 0;
        while k < 4
            invariant
                k <= 4,
                self.well_formed(),
                *self == (SichuanHand { reaction_eligible: self.reaction_eligible, ..cleared }),
                cleared == (SichuanHand {
                    reaction_eligible: cleared.reaction_eligible,
                    reaction_answers: cleared.reaction_answers,
                    ..*old(self)
                }),
                cleared.reaction_answers@ == seq![None::<ReactionKind>, None, None, None],
                forall|j: int| k <= j < 4 ==> !self.reaction_eligible@[j],
                forall|seat: Seat|
                    seat@ < k ==> #[trigger] self.reaction_eligible@[seat@ as int] == (seat@ != declarer@
                        && !old(self).won@[seat@ as int] && old(self).may_answer(seat, tile, true)),
                any == self.any_answer(),
            decreases 4 - k,
        {
            let seat = Seat::at(k);
            let ghost e0 = self.reaction_eligible@;
            if k != declarer.index() && !self.won[k as usize] {
                let eligible = self.reaction_options_for(seat, tile, true).can_ron;
                self.reaction_eligible.set(k as usize, eligible);
                any = any || eligible;
                proof {
                    if eligible {
                        assert(self.reaction_eligible@[k as int]);
                    } else {
                        assert(self.reaction_eligible@ =~= e0);
                    }
                }
            }
            k = k + 1;
        }
        let ghost opened = *self;
        if any {
            self.phase = HandPhase::AwaitingResponses { discarder: declarer };
        }
        proof {
            assert(self.reaction_eligible == opened.reaction_eligible);
            assert(any == opened.any_answer());
            assert(any == self.any_answer());
        }
    }

    /// `m` is the first of the melds with the identity.
    pub open spec fn first_meld(melds: Seq<Meld>, id: MeldId, m: int) -> bool {
        &&& 0 <= m < melds.len()
        &&& melds[m].spec_id() == id
        &&& forall|j: int| 0 <= j < m ==> (#[trigger] melds[j]).spec_id() != id
    }

    /// `after` is this hand once the pending added kan is made: the tile leaves the
    /// declarer's hand into its pon (found first by identity), the kan is settled (every other
    /// seat still in the hand pays) and waits to be shown. When the pon or a tile of its kind
    /// with that identity is missing, the declarer keeps the turn to discard, its hand as it
    /// was up to the order of its tiles. With nothing pending, nothing changes.
    pub closed spec fn kan_completed(&self, after: SichuanHand) -> bool {
        match self.pending_added_kan {
            None => after == *self,
            Some(pk) => {
                let seat = pk.declarer;
                let s = seat@ as int;
                let p = self.players@[s];
                let q = after.players@[s];
                let has_pon = exists|m: int|
                    Self::first_meld(p.melds@, pk.meld_id, m) && (#[trigger] p.melds@[m]).spec_kind() == MeldKind::Pon;
                &&& after.players@.len() == 4
                &&& forall|i: int| 0 <= i < 4 && i != s ==> after.players@[i] == #[trigger] self.players@[i]
                &&& after.pending_added_kan is None
                &&& (after.phase == (HandPhase::AwaitingKanAnimation { seat }) || after.phase == (HandPhase::AwaitingDiscard { seat }))
                &&& (!has_pon || forall|j: int| 0 <= j < p.concealed@.len() ==> (#[trigger] p.concealed@[j]).spec_id() != pk.tile.spec_id())
                    ==> after.phase == (HandPhase::AwaitingDiscard { seat })
                &&& after.phase == (HandPhase::AwaitingKanAnimation { seat }) ==> exists|m: int, j: int|
                    #![trigger p.melds@[m], p.concealed@[j]]
                    Self::first_meld(p.melds@, pk.meld_id, m) && p.melds@[m].spec_kind() == MeldKind::Pon && 0 <= j
                        < p.concealed@.len() && p.concealed@[j].spec_id() == pk.tile.spec_id() && p.concealed@[j].spec_kind()
                        == p.melds@[m].spec_tile() && q.concealed@ == p.concealed@.remove(j) && q.melds@.len() == p.melds@.len()
                        && (forall|i: int| 0 <= i < p.melds@.len() && i != m ==> q.melds@[i] == #[trigger] p.melds@[i])
                        && q.melds@[m].spec_kind() == MeldKind::AddedKan && q.melds@[m].spec_tiles() == p.melds@[m].spec_tiles().push(
                        p.concealed@[j],
                    ) && q.melds@[m].spec_id() == p.melds@[m].spec_id() && q.melds@[m].spec_tile() == p.melds@[m].spec_tile()
                        && q.melds@[m].spec_called_from() == p.melds@[m].spec_called_from() && q.melds@[m].spec_called_tile()
                        == p.melds@[m].spec_called_tile()
                &&& after.phase == (HandPhase::AwaitingKanAnimation { seat }) ==> {
                    &&& q.kan_count == p.kan_count + 1
                    &&& q.drawn is None
                    &&& q.discards@ == p.discards@
                    &&& after.interrupted
                    &&& exists|d: Seq<i32>| #[trigger] self.kan_settled(after, seat, MeldKind::AddedKan, d)
                        && self.settles_win(d, seat, ADDED_KAN_POINTS as int, true, seat)
                    &&& after == (SichuanHand {
                        players: after.players,
                        point_deltas: after.point_deltas,
                        kan_events: after.kan_events,
                        pending_added_kan: None,
                        interrupted: true,
                        phase: HandPhase::AwaitingKanAnimation { seat },
                        ..*self
                    })
                }
                &&& after.phase == (HandPhase::AwaitingDiscard { seat }) ==> {
                    &&& q.concealed@.to_multiset() == p.concealed@.to_multiset()
                    &&& q.melds@ == p.melds@
                    &&& q.drawn == p.drawn
                    &&& q.discards@ == p.discards@
                    &&& q.kan_count == p.kan_count
                    &&& after == (SichuanHand {
                        players: after.players,
                        pending_added_kan: None,
                        phase: HandPhase::AwaitingDiscard { seat },
                        ..*self
                    })
                }
            },
        }
    }

    /// Turns the pending pon into an added kan, settles it, and waits for the kan to be shown.
    fn complete_added_kan(&mut self)
        requires
            old(self).well_formed(),
            !(old(self).phase is Ended),
            !(old(self).phase is AwaitingKanAnimation),
            !(old(self).phase is AwaitingWinAnimation),
        ensures
            final(self).well_formed(),
            old(self).kan_completed(*final(self)),
    {
        let pending = match self.pending_added_kan {
            Some(pending) => pending,
            None => {
                return;
            },
        };
        self.pending_added_kan = None;
        let seat = pending.declarer;
        let s = seat.index() as usize;
        let ghost st = *self;
        let mut m: usize = 0;
        while m < self.players[s].melds.len() && self.players[s].melds[m].id() != pending.meld_id
            invariant
                m <= self.players@[s as int].melds@.len(),
                s < 4,
                self.players@.len() == 4,
                *self == st,
                forall|j: int| 0 <= j < m ==> (#[trigger] self.players@[s as int].melds@[j]).spec_id() != pending.meld_id,
            decreases self.players@[s as int].melds@.len() - m,
        {
            m = m + 1;
        }
        let ghost c0 = self.players@[s as int].concealed@;
        let ghost p0 = self.players@[s as int];
        // The pon and the tile were found when the kan was declared and nothing has moved
        // them since; without them the declarer simply keeps the turn.
        if m == self.players[s].melds.len() || self.players[s].melds[m].kind() != MeldKind::Pon {
            self.phase = HandPhase::AwaitingDiscard { seat };
            return;
        }
        let meld_tile = self.players[s].melds[m].tile();
        let tile = match self.players[s].remove_id(pending.tile.id()) {
            Ok(tile) => tile,
            Err(_) => {
                self.phase = HandPhase::AwaitingDiscard { seat };
                return;
            },
        };
        let ghost pos = choose|pos: int|
            0 <= pos < c0.len() && c0[pos] == tile && self.players@[s as int].concealed@ == c0.remove(pos);
        if tile.kind() != meld_tile {
            let ghost c1 = self.players@[s as int].concealed@;
            self.players[s].insert(tile);
            self.phase = HandPhase::AwaitingDiscard { seat };
            proof {
                broadcast use vstd::seq_lib::group_to_multiset_ensures, vstd::multiset::group_multiset_axioms;

                let c2 = self.players@[s as int].concealed@;
                let p2 = choose|p2: int| 0 <= p2 <= c1.len() && c2 == c1.insert(p2, tile);
                assert(c2.to_multiset() == c1.to_multiset().insert(tile));
                assert(c1.to_multiset() == c0.to_multiset().remove(tile));
                assert(c0.to_multiset().count(tile) > 0);
                assert(c2.to_multiset() =~= c0.to_multiset());
            }
            return;
        }
        let ghost before_pay = *self;
        let deltas = self.everyone_pays(seat, ADDED_KAN_POINTS);
        proof {
            assert(within(deltas@, 4000));
            assert(before_pay.settles_win(deltas@, seat, ADDED_KAN_POINTS as int, true, seat));
        }
        let ghost d = deltas@;
        self.apply_kan_event(seat, MeldKind::AddedKan, deltas);
        let ghost after_kan = *self;
        self.players[s].melds[m].upgrade_to_added_kan(tile);
        self.players[s].kan_count = self.players[s].kan_count + 1;
        self.players[s].drawn = None;
        self.interrupted = true;
        self.phase = HandPhase::AwaitingKanAnimation { seat };
        proof {
            assert(before_pay.kan_settled(after_kan, seat, MeldKind::AddedKan, d));
            assert(old(self).kan_settled(*self, seat, MeldKind::AddedKan, d));
            assert(p0.melds@[m as int] == old(self).players@[s as int].melds@[m as int]);
            assert(Self::first_meld(p0.melds@, pending.meld_id, m as int));
        }
    }

    fn reset_reactions(&mut self)
        requires
            old(self).well_formed(),
        ensures
            final(self).well_formed(),
            *final(self) == (SichuanHand {
                last_discard: None,
                reaction_eligible: final(self).reaction_eligible,
                reaction_answers: final(self).reaction_answers,
                ..*old(self)
            }),
            final(self).reactions_cleared(),
    {
        self.last_discard = None;
        self.reaction_eligible = vec![false, false, false, false];
        self.reaction_answers = vec![None, None, None, None];
    }

    /// No seat may answer and no answer is on record.
    pub closed spec fn reactions_cleared(&self) -> bool {
        &&& self.reaction_eligible@ == seq![false, false, false, false]
        &&& self.reaction_answers@ == seq![None::<ReactionKind>, None, None, None]
    }

    /// `after` is this hand ended for the reason: no discard or added kan waits and no
    /// answer stands; all else is kept.
    pub closed spec fn finished(&self, after: SichuanHand, reason: EndReason) -> bool {
        &&& after.reactions_cleared()
        &&& after == (SichuanHand {
            last_discard: None,
            pending_added_kan: None,
            reaction_eligible: after.reaction_eligible,
            reaction_answers: after.reaction_answers,
            phase: HandPhase::Ended { reason },
            ..*self
        })
    }

    /// The first of the seats after `seat` (from `step` places on, counter-clockwise, up to
    /// the seat itself) that has not won; the next seat when all of them have.
    pub open spec fn first_unwon(won: Seq<bool>, seat: int, step: int) -> int
        decreases 5 - step,
    {
        if step >= 5 {
            (seat + 1) % 4
        } else if !won[(seat + step) % 4] {
            (seat + step) % 4
        } else {
            Self::first_unwon(won, seat, step + 1)
        }
    }

    /// `after` is this hand once the seat has drawn from the source and its turn is open;
    /// with the wall unable to give a tile, the hand ended as an exhaustive draw.
    pub closed spec fn drew(&self, after: SichuanHand, seat: Seat, source: DrawSource) -> bool {
        if self.wall.spec_front() == self.wall.spec_back() {
            self.finished(after, EndReason::ExhaustiveDraw)
        } else {
            exists|t: Tile| #[trigger] self.drew_tile(after, seat, source, t)
        }
    }

    /// `after` is this hand once the seat has drawn the tile `t` from the source.
    pub closed spec fn drew_tile(&self, after: SichuanHand, seat: Seat, source: DrawSource, t: Tile) -> bool {
        let s = seat@ as int;
        let p = self.players@[s];
        let q = after.players@[s];
        let front = self.wall.spec_front();
        let back = self.wall.spec_back();
        &&& source == DrawSource::Wall ==> t == self.wall.spec_tiles()[self.wall.spec_order()[front as int] as int]
            && after.wall.spec_front() == front + 1 && after.wall.spec_back() == back && after.wall.spec_order()
            == self.wall.spec_order()
        &&& after.wall.spec_tiles() == self.wall.spec_tiles()
        &&& after.wall.spec_dice() == self.wall.spec_dice()
        &&& source == DrawSource::Replacement ==> after.wall.spec_front() == front && after.wall.spec_back() == back
            - 1 && t == self.wall.spec_tiles()[after.wall.spec_order()[back - 1] as int]
        &&& inserted(p.concealed@, t, q.concealed@)
        &&& q.drawn == Some(t.spec_id())
        &&& q.melds@ == p.melds@
        &&& q.discards@ == p.discards@
        &&& q.kan_count == p.kan_count
        &&& after.players@.len() == 4
        &&& forall|i: int| 0 <= i < 4 && i != s ==> after.players@[i] == #[trigger] self.players@[i]
        &&& after == (SichuanHand {
            wall: after.wall,
            players: after.players,
            turns_taken: if source == DrawSource::Wall {
                (self.turns_taken + 1) as u32
            } else {
                self.turns_taken
            },
            last_draw_was_replacement: source == DrawSource::Replacement,
            last_draw_was_final: source == DrawSource::Wall && after.wall.spec_front() == after.wall.spec_back(),
            phase: HandPhase::AwaitingTurnAction { seat },
            ..*self
        })
    }

    /// `after` is this hand once play has moved on from `from`: the answers cleared, the next
    /// seat still in the hand has drawn from the wall.
    pub closed spec fn advanced(&self, after: SichuanHand, from: Seat) -> bool {
        exists|mid: SichuanHand, next: Seat|
            #![trigger mid.drew(after, next, DrawSource::Wall)]
            next@ == Self::first_unwon(self.won@, from@ as int, 1) && mid.reactions_cleared() && mid == (SichuanHand {
                last_discard: None,
                reaction_eligible: mid.reaction_eligible,
                reaction_answers: mid.reaction_answers,
                ..*self
            }) && mid.drew(after, next, DrawSource::Wall)
    }

    /// Ends the hand.
    fn finish(&mut self, reason: EndReason)
        requires
            old(self).well_formed(),
        ensures
            final(self).well_formed(),
            final(self).spec_phase() == (HandPhase::Ended { reason }),
            final(self).spec_point_deltas() == old(self).spec_point_deltas(),
            final(self).spec_winners() == old(self).spec_winners(),
            old(self).finished(*final(self), reason),
    {
        self.last_discard = None;
        self.pending_added_kan = None;
        self.reaction_eligible = vec![false, false, false, false];
        self.reaction_answers = vec![None, None, None, None];
        self.phase = HandPhase::Ended { reason };
    }

    /// The first seat after `seat`, counter-clockwise, that has not won (the next seat when
    /// every seat has won, which a running hand never sees).
    fn next_active(&self, seat: Seat) -> (r: Seat)
        requires
            self.well_formed(),
        ensures
            !self.won@[r@ as int] || forall|k: int| 0 <= k < 4 ==> self.won@[k],
            r@ == Self::first_unwon(self.won@, seat@ as int, 1),
    {
        let start: u8 = seat.index();
        let mut next = seat.next();
        let mut steps: u8 = 0;
        while steps < 4 && self.won[next.index() as usize]
            invariant
                steps <= 4,
                self.won@.len() == 4,
                start == seat@,
                start < 4,
                next@ == (seat@ + steps + 1) % 4,
                Self::first_unwon(self.won@, seat@ as int, 1) == Self::first_unwon(self.won@, seat@ as int, steps + 1),
                forall|j: int| 1 <= j <= steps ==> self.won@[#[trigger] ((seat@ + j) % 4)],
            decreases 4 - steps,
        {
            next = next.next();
            steps = steps + 1;
        }
        if self.won[next.index() as usize] {
            proof {
                assert forall|k: int| 0 <= k < 4 implies self.won@[k] by {
                    let j = if k > seat@ { k - seat@ } else { k + 4 - seat@ };
                    assert((seat@ + j) % 4 == k);
                }
            }
            let mut k: usize = 0;
            while k < 4
                invariant
                    k <= 4,
                    self.won@.len() == 4,
                    forall|j: int| 0 <= j < 4 ==> self.won@[j],
                decreases 4 - k,
            {
                if !self.won[k] {
                    return Seat::at(k as u8);
                }
                k = k + 1;
            }
            proof {
                assert(steps == 4);
                assert(next@ == (seat@ + 1) % 4);
            }
        }
        next
    }

    /// Draws for the seat (from the front, or a kan replacement from the back) and opens its
    /// turn; when the wall cannot give a tile the hand ends as an exhaustive draw.
    fn draw_and_open_turn(&mut self, seat: Seat, source: DrawSource)
        requires
            old(self).well_formed(),
            old(self).winners@.len() < 3,
            source == DrawSource::Wall ==> old(self).kan_events@.len() + old(self).wall.spec_back() <= 108,
        ensures
            final(self).well_formed(),
            final(self).spec_point_deltas() == old(self).spec_point_deltas(),
            old(self).drew(*final(self), seat, source),
    {
        let drawn = match source {
            DrawSource::Wall => self.wall.draw(),
            DrawSource::Replacement => match self.wall.draw_from_back() {
                Ok(tile) => Some(tile),
                Err(_) => None,
            },
        };
        let tile = match drawn {
            Some(tile) => tile,
            None => {
                self.finish(EndReason::ExhaustiveDraw);
                return;
            },
        };
        if matches!(source, DrawSource::Wall) {
            self.turns_taken = self.turns_taken + 1;
        }
        self.last_draw_was_replacement = matches!(source, DrawSource::Replacement);
        self.last_draw_was_final = matches!(source, DrawSource::Wall) && self.wall.remaining_draws() == 0;
        let s = seat.index() as usize;
        self.players[s].insert(tile);
        self.players[s].drawn = Some(tile.id());
        self.phase = HandPhase::AwaitingTurnAction { seat };
        proof {
            assert(old(self).drew_tile(*self, seat, source, tile));
        }
    }

    /// Play moves on from a discard nobody took: the next seat still in the hand draws.
    fn advance_turn(&mut self, from: Seat)
        requires
            old(self).well_formed(),
            !(old(self).phase is Ended),
            !(old(self).phase is AwaitingKanAnimation),
            !(old(self).phase is AwaitingWinAnimation),
        ensures
            final(self).well_formed(),
            final(self).spec_point_deltas() == old(self).spec_point_deltas(),
            old(self).advanced(*final(self), from),
    {
        self.reset_reactions();
        let ghost mid = *self;
        let next = self.next_active(from);
        self.draw_and_open_turn(next, DrawSource::Wall);
        proof {
            assert(mid.drew(*self, next, DrawSource::Wall));
        }
    }

    /// `after` is this hand once the window for answers to the discard is opened: the hand
    /// waits for the answers when some seat may answer; otherwise play moves on.
    pub closed spec fn reactions_opened(&self, after: SichuanHand, discarder: Seat) -> bool {
        match self.last_discard {
            None => exists|mid: SichuanHand|
                #![trigger mid.advanced(after, discarder)]
                mid.reactions_cleared() && mid == (SichuanHand {
                    reaction_eligible: mid.reaction_eligible,
                    reaction_answers: mid.reaction_answers,
                    ..*self
                }) && mid.advanced(after, discarder),
            Some((_, tile)) => exists|opened: SichuanHand|
                #[trigger] self.window_opened(opened, discarder, tile, false) && if opened.any_answer() {
                    after == opened
                } else {
                    opened.advanced(after, discarder)
                },
        }
    }

    /// Opens the window in which the others may answer the discard; with nobody able to
    /// answer, play moves on.
    fn open_reactions(&mut self, discarder: Seat)
        requires
            old(self).well_formed(),
            !(old(self).phase is Ended),
            !(old(self).phase is AwaitingKanAnimation),
            !(old(self).phase is AwaitingWinAnimation),
        ensures
            final(self).well_formed(),
            final(self).spec_point_deltas() == old(self).spec_point_deltas(),
            old(self).reactions_opened(*final(self), discarder),
    {
        self.reaction_answers = vec![None, None, None, None];
        self.reaction_eligible = vec![false, false, false, false];
        let ghost cleared = *self;
        let tile = match self.last_discard {
            Some((_, tile)) => tile,
            None => {
                self.advance_turn(discarder);
                proof {
                    assert(cleared.advanced(*self, discarder));
                }
                return;
            },
        };
        let mut any = false;
        let mut k: u8 = 0;
        while k < 4
            invariant
                k <= 4,
                self.well_formed(),
                self.phase == old(self).phase,
                self.point_deltas@ == old(self).point_deltas@,
                *self == (SichuanHand { reaction_eligible: self.reaction_eligible, ..cleared }),
                cleared == (SichuanHand {
                    reaction_eligible: cleared.reaction_eligible,
                    reaction_answers: cleared.reaction_answers,
                    ..*old(self)
                }),
                cleared.reaction_answers@ == seq![None::<ReactionKind>, None, None, None],
                forall|j: int| k <= j < 4 ==> !self.reaction_eligible@[j],
                forall|seat: Seat|
                    seat@ < k ==> #[trigger] self.reaction_eligible@[seat@ as int] == (seat@ != discarder@
                        && !old(self).won@[seat@ as int] && old(self).may_answer(seat, tile, false)),
                any == self.any_answer(),
            decreases 4 - k,
        {
            let seat = Seat::at(k);
            let ghost e0 = self.reaction_eligible@;
            if k != discarder.index() && !self.won[k as usize] {
                let eligible = !self.reaction_options_for(seat, tile, false).is_empty();
                self.reaction_eligible.set(k as usize, eligible);
                any = any || eligible;
                proof {
                    if eligible {
                        assert(self.reaction_eligible@[k as int]);
                    } else {
                        assert(self.reaction_eligible@ =~= e0);
                    }
                }
            }
            k = k + 1;
        }
        let ghost opened = *self;
        if any {
            self.phase = HandPhase::AwaitingResponses { discarder };
            proof {
                assert(self.reaction_eligible == opened.reaction_eligible);
                assert(any == opened.any_answer());
                assert(old(self).window_opened(*self, discarder, tile, false));
            }
        } else {
            proof {
                assert(old(self).window_opened(opened, discarder, tile, false));
            }
            self.advance_turn(discarder);
        }
    }

    /// What the seat may answer to the tile now waiting for answers.
    #[must_use]
    pub fn reaction_options(&self, seat: Seat) -> (r: ReactionOptions)
        requires
            self.well_formed(),
        ensures
            !(self.spec_phase() is AwaitingResponses) ==> !r.can_ron && !r.can_pon && !r.can_open_kan,
            self.spec_phase() matches HandPhase::AwaitingResponses { discarder } && discarder == seat ==> !r.can_ron
                && !r.can_pon && !r.can_open_kan,
            self.spec_won(seat) ==> !r.can_ron && !r.can_pon && !r.can_open_kan,
            r == self.spec_reaction_options(seat),
    {
        let discarder = match self.phase {
            HandPhase::AwaitingResponses { discarder } => discarder,
            _ => {
                return ReactionOptions::nothing();
            },
        };
        let s = seat.index() as usize;
        if seat == discarder || self.reaction_answers[s].is_some() || self.won[s] {
            return ReactionOptions::nothing();
        }
        match self.pending_added_kan {
            Some(pending) => self.reaction_options_for(seat, pending.tile, true),
            None => match self.last_discard {
                Some((_, tile)) => self.reaction_options_for(seat, tile, false),
                None => ReactionOptions::nothing(),
            },
        }
    }

    pub closed spec fn may_react(&self, k: int) -> bool {
        self.reaction_eligible@[k]
    }

    pub closed spec fn has_reacted(&self, k: int) -> bool {
        self.reaction_answers@[k] is Some
    }

    /// Which seats may still answer.
    pub closed spec fn reaction_flags(&self) -> Seq<bool> {
        Seq::new(4, |k: int| self.reaction_eligible@[k] && self.reaction_answers@[k] is None)
    }

    /// The seats that may answer and have not yet, in seat order.
    #[must_use]
    pub fn pending_reactions(&self) -> (r: Vec<Seat>)
        requires
            self.well_formed(),
        ensures
            Self::lists_seats(r@, self.reaction_flags()),
    {
        let mut flags: Vec<bool> = Vec::new();
        let mut k: usize = 0;
        while k < 4
            invariant
                k <= 4,
                self.reaction_eligible@.len() == 4,
                self.reaction_answers@.len() == 4,
                flags@.len() == k,
                forall|i: int| 0 <= i < k ==> #[trigger] flags@[i] == (self.reaction_eligible@[i] && self.reaction_answers@[i] is None),
            decreases 4 - k,
        {
            flags.push(self.reaction_eligible[k] && self.reaction_answers[k].is_none());
            k = k + 1;
        }
        assert forall|i: int| 0 <= i < 4 implies flags@[i] == self.reaction_flags()[i] by {}
        assert(flags@ =~= self.reaction_flags());
        Self::seats_where(&flags)
    }

    /// The answer is refused for the seat's options on the tile: a win it cannot make, or a
    /// pon or kan it cannot call.
    pub open spec fn answer_refusal(o: ReactionOptions, kind: ReactionKind) -> Option<HandError> {
        match kind {
            ReactionKind::Ron => if o.can_ron {
                None
            } else {
                Some(HandError::NotAWinningHand)
            },
            ReactionKind::Pon => if o.can_pon {
                None
            } else {
                Some(HandError::MeldNotAvailable)
            },
            ReactionKind::OpenKan => if o.can_open_kan {
                None
            } else {
                Some(HandError::MeldNotAvailable)
            },
            ReactionKind::Pass => None,
        }
    }

    /// What the seat's answer does to this hand, in a window for answers where the seat may
    /// answer and has not: refused (the hand unchanged) without a waiting tile or when its
    /// options forbid the answer; otherwise the answer is on record and, once nobody else
    /// may still answer, the answers are resolved.
    pub closed spec fn reaction_taken(
        &self,
        after: SichuanHand,
        seat: Seat,
        kind: ReactionKind,
        discarder: Seat,
        r: Result<(), HandError>,
    ) -> bool {
        &&& r is Err ==> after == *self
        &&& match self.answered_tile() {
            None => r == Err::<(), HandError>(HandError::UnexpectedAction),
            Some(tile) => {
                let refusal = Self::answer_refusal(
                    self.options_for(seat, tile, self.pending_added_kan is Some),
                    kind,
                );
                &&& refusal is Some ==> r == Err::<(), HandError>(refusal->0)
                &&& refusal is None ==> r is Ok
                &&& r is Ok ==> exists|mid: SichuanHand|
                    #![trigger mid.reaction_flags()]
                    mid.reaction_answers@ == self.reaction_answers@.update(seat@ as int, Some(kind)) && mid == (
                    SichuanHand { reaction_answers: mid.reaction_answers, ..*self }) && if exists|k: int|
                        0 <= k < 4 && #[trigger] mid.reaction_flags()[k] {
                        after == mid
                    } else {
                        mid.resolved(after, discarder)
                    }
            },
        }
    }

    /// Answers the tile waiting for answers; once every eligible seat has answered, the
    /// answers are resolved: a win first (nearest to the discarder's right), then a kan, then
    /// a pon, else play moves on.
    pub fn apply_reaction(&mut self, seat: Seat, kind: ReactionKind) -> (r: Result<(), HandError>)
        requires
            old(self).well_formed(),
        ensures
            final(self).well_formed(),
            !(old(self).spec_phase() is AwaitingResponses) ==> r == Err::<(), HandError>(
                Self::phase_refusal(old(self).spec_phase()),
            ),
            old(self).spec_phase() is AwaitingResponses && !old(self).may_react(seat@ as int) ==> r
                == Err::<(), HandError>(HandError::OutOfTurn { seat }),
            old(self).spec_phase() is AwaitingResponses && old(self).may_react(seat@ as int) && old(self).has_reacted(
                seat@ as int,
            ) ==> r == Err::<(), HandError>(
                HandError::UnexpectedAction,
            ),
            r is Err ==> *final(self) == *old(self),
            old(self).spec_phase() is AwaitingResponses && old(self).may_react(seat@ as int) && !old(self).has_reacted(
                seat@ as int,
            ) ==> old(self).reaction_taken(*final(self), seat, kind, old(self).spec_phase()->discarder, r),
    {
        let discarder = match self.phase {
            HandPhase::AwaitingResponses { discarder } => discarder,
            _ => {
                if self.phase.is_ended() {
                    return Err(HandError::HandAlreadyEnded);
                }
                return Err(HandError::UnexpectedAction);
            },
        };
        let s = seat.index() as usize;
        if !self.reaction_eligible[s] {
            return Err(HandError::OutOfTurn { seat });
        }
        if self.reaction_answers[s].is_some() {
            return Err(HandError::UnexpectedAction);
        }
        let (tile, chankan) = match self.pending_added_kan {
            Some(pending) => (pending.tile, true),
            None => match self.last_discard {
                Some((_, tile)) => (tile, false),
                None => {
                    return Err(HandError::UnexpectedAction);
                },
            },
        };
        let options = self.reaction_options_for(seat, tile, chankan);
        match kind {
            ReactionKind::Ron => {
                if !options.can_ron {
                    return Err(HandError::NotAWinningHand);
                }
            },
            ReactionKind::Pon => {
                if !options.can_pon {
                    return Err(HandError::MeldNotAvailable);
                }
            },
            ReactionKind::OpenKan => {
                if !options.can_open_kan {
                    return Err(HandError::MeldNotAvailable);
                }
            },
            ReactionKind::Pass => {},
        }
        self.reaction_answers.set(s, Some(kind));
        let ghost mid = *self;
        let pending = self.pending_reactions();
        proof {
            if exists|k: int| 0 <= k < 4 && #[trigger] mid.reaction_flags()[k] {
                let k = choose|k: int| 0 <= k < 4 && #[trigger] mid.reaction_flags()[k];
                assert(pending@.len() > 0);
            }
        }
        if pending.len() == 0 {
            self.resolve_reactions(discarder);
            proof {
                assert(mid.resolved(*self, discarder));
            }
        } else {
            let first: u8 = pending[0].index();
            proof {
                assert(mid.reaction_flags()[first as int]);
            }
        }
        proof {
            assert(mid.reaction_answers@ == old(self).reaction_answers@.update(seat@ as int, Some(kind)));
        }
        Ok(())
    }

    /// The answer that takes the tile, looking at the seats from `off` places after the
    /// discarder `d` on, counter-clockwise: the first win; otherwise the first kan or pon, where
    /// `acc` is one found before.
    pub open spec fn taking_answer(
        answers: Seq<Option<ReactionKind>>,
        d: int,
        off: int,
        acc: Option<(int, ReactionKind)>,
    ) -> Option<(int, ReactionKind)>
        decreases 4 - off,
    {
        if off >= 4 {
            acc
        } else {
            let seat = (d + off) % 4;
            match answers[seat] {
                Some(ReactionKind::Ron) => Some((seat, ReactionKind::Ron)),
                Some(ReactionKind::OpenKan) => Self::taking_answer(
                    answers,
                    d,
                    off + 1,
                    if acc is None {
                        Some((seat, ReactionKind::OpenKan))
                    } else {
                        acc
                    },
                ),
                Some(ReactionKind::Pon) => Self::taking_answer(
                    answers,
                    d,
                    off + 1,
                    if acc is None {
                        Some((seat, ReactionKind::Pon))
                    } else {
                        acc
                    },
                ),
                _ => Self::taking_answer(answers, d, off + 1, acc),
            }
        }
    }

    /// An answer with its seat taken by number.
    pub open spec fn seat_answer(chosen: Option<(Seat, ReactionKind)>) -> Option<(int, ReactionKind)> {
        match chosen {
            Some((seat, kind)) => Some((seat@ as int, kind)),
            None => None,
        }
    }

    /// `after` is this hand once the answers are resolved: the taking answer's win or call;
    /// with none, the pending added kan is made, or else play moves on from the discarder.
    pub closed spec fn resolved(&self, after: SichuanHand, discarder: Seat) -> bool {
        match Self::taking_answer(self.reaction_answers@, discarder@ as int, 1, None) {
            None => if self.pending_added_kan is Some {
                self.kan_completed(after)
            } else {
                self.advanced(after, discarder)
            },
            Some((k, ReactionKind::Ron)) => exists|w: Seat|
                w@ == k && #[trigger] self.ron_taken(after, w, discarder, self.pending_added_kan is Some),
            Some((k, kind)) => exists|c: Seat| c@ == k && #[trigger] self.called(after, discarder, c, kind),
        }
    }

    /// The answer that takes the tile: the first win counting from the discarder's right,
    /// otherwise the first kan or pon in that order.
    fn resolve_reactions(&mut self, discarder: Seat)
        requires
            old(self).well_formed(),
            old(self).phase is AwaitingResponses,
        ensures
            final(self).well_formed(),
            old(self).resolved(*final(self), discarder),
    {
        let start: u8 = discarder.index();
        let mut chosen: Option<(Seat, ReactionKind)> = None;
        let mut offset: u8 = 1;
        while offset < 4
            invariant_except_break
                1 <= offset <= 4,
                Self::taking_answer(self.reaction_answers@, discarder@ as int, 1, None) == Self::taking_answer(
                    self.reaction_answers@,
                    discarder@ as int,
                    offset as int,
                    Self::seat_answer(chosen),
                ),
            invariant
                self.reaction_answers@.len() == 4,
                *self == *old(self),
                start == discarder@,
                start < 4,
                chosen matches Some((c, k)) ==> c@ != discarder@,
            ensures
                Self::taking_answer(self.reaction_answers@, discarder@ as int, 1, None) == Self::seat_answer(chosen),
            decreases 4 - offset,
        {
            let seat = discarder.offset_by(offset);
            match self.reaction_answers[seat.index() as usize] {
                Some(ReactionKind::Ron) => {
                    chosen = Some((seat, ReactionKind::Ron));
                    break;
                },
                Some(ReactionKind::OpenKan) => {
                    if chosen.is_none() {
                        chosen = Some((seat, ReactionKind::OpenKan));
                    }
                },
                Some(ReactionKind::Pon) => {
                    if chosen.is_none() {
                        chosen = Some((seat, ReactionKind::Pon));
                    }
                },
                _ => {},
            }
            offset = offset + 1;
        }
        match chosen {
            None => {
                if self.pending_added_kan.is_some() {
                    self.complete_added_kan();
                } else {
                    self.advance_turn(discarder);
                }
            },
            Some((seat, ReactionKind::Ron)) => {
                let chankan = self.pending_added_kan.is_some();
                self.ron(seat, discarder, chankan);
            },
            Some((seat, kind)) => {
                self.execute_call(discarder, seat, kind);
            },
        }
    }

    /// The tile waiting for answers: the added-kan tile, else the discard.
    pub closed spec fn answered_tile(&self) -> Option<Tile> {
        match self.pending_added_kan {
            Some(pending) => Some(pending.tile),
            None => match self.last_discard {
                Some((_, tile)) => Some(tile),
                None => None,
            },
        }
    }

    /// `after` is this hand once the winner has taken the waiting tile from the payer: the
    /// win on record when the hand scores with it (a kan-replacement discard counts), else
    /// play moves on from the payer.
    pub closed spec fn ron_taken(&self, after: SichuanHand, winner: Seat, payer: Seat, chankan: bool) -> bool {
        match self.answered_tile() {
            None => self.advanced(after, payer),
            Some(tile) => {
                let gang_pao = !chankan && self.last_discard_was_replacement;
                if self.ron_scores(winner, tile.spec_kind()) {
                    exists|e: WinEvaluation|
                        #![trigger self.won_by(after, winner, e, false, payer, chankan)]
                        self.ron_scored(winner, tile.spec_kind(), chankan, gang_pao, Some(e)) && self.won_by(
                            after,
                            winner,
                            e,
                            false,
                            payer,
                            chankan,
                        )
                } else {
                    self.advanced(after, payer)
                }
            },
        }
    }

    /// The winner takes the tile from the payer: the added-kan tile when robbing a kan,
    /// otherwise the discard.
    fn ron(&mut self, winner: Seat, payer: Seat, chankan: bool)
        requires
            old(self).well_formed(),
            old(self).phase is AwaitingResponses,
        ensures
            final(self).well_formed(),
            old(self).ron_taken(*final(self), winner, payer, chankan),
    {
        let tile = match self.pending_added_kan {
            Some(pending) => pending.tile,
            None => match self.last_discard {
                Some((_, tile)) => tile,
                None => {
                    self.advance_turn(payer);
                    return;
                },
            },
        };
        let gang_pao = !chankan && self.last_discard_was_replacement;
        // The answer was accepted only when this evaluation existed, and nothing has changed
        // since; without it play simply moves on.
        match self.ron_evaluation(winner, tile.kind(), chankan, gang_pao) {
            Some(evaluation) => {
                let ghost before = *self;
                self.record_win(winner, evaluation, false, payer, chankan);
                proof {
                    assert(before.won_by(*self, winner, evaluation, false, payer, chankan));
                }
            },
            None => {
                self.advance_turn(payer);
            },
        }
    }

    /// `q` is the hand `p` with `n` concealed tiles of the kind, `taken`, taken out.
    pub closed spec fn took_kind(p: PlayerHand, q: PlayerHand, kind: TileKind, n: int, taken: Seq<Tile>) -> bool {
        &&& taken.len() == n
        &&& forall|i: int| 0 <= i < n ==> (#[trigger] taken[i]).spec_kind() == kind
        &&& q.concealed@.len() == p.concealed@.len() - n
        &&& tiles_of_kind(q.concealed@, kind) == tiles_of_kind(p.concealed@, kind) - n
        &&& q.concealed@.to_multiset().add(taken.to_multiset()) == p.concealed@.to_multiset()
        &&& q.drawn == p.drawn
        &&& q.melds@ == p.melds@
        &&& q.kan_count == p.kan_count
    }

    /// `q` is the hand `p` with its last discard marked as called.
    pub closed spec fn marked_called(p: PlayerHand, q: PlayerHand) -> bool {
        &&& q.concealed@ == p.concealed@
        &&& q.drawn == p.drawn
        &&& q.melds@ == p.melds@
        &&& q.kan_count == p.kan_count
        &&& q.discards@.len() == p.discards@.len()
        &&& p.discards@.len() > 0 ==> q.discards@.drop_last() == p.discards@.drop_last() && q.discards@.last().spec_called()
            && q.discards@.last().spec_tile() == p.discards@.last().spec_tile()
        &&& p.discards@.len() == 0 ==> q.discards@ == p.discards@
    }

    /// `mid` is this hand once the caller has taken `taken` (`n` tiles of the kind) from its
    /// hand, the discard is marked called and, for an open kan, the discarder has paid it.
    pub closed spec fn call_taken(
        &self,
        mid: SichuanHand,
        discarder: Seat,
        caller: Seat,
        kind: TileKind,
        open_kan: bool,
        taken: Seq<Tile>,
    ) -> bool {
        let c = caller@ as int;
        let d = discarder@ as int;
        let n: int = if open_kan { 3 } else { 2 };
        &&& mid.players@.len() == 4
        &&& Self::took_kind(self.players@[c], mid.players@[c], kind, n, taken)
        &&& mid.players@[c].discards@ == self.players@[c].discards@
        &&& Self::marked_called(self.players@[d], mid.players@[d])
        &&& forall|i: int| 0 <= i < 4 && i != c && i != d ==> mid.players@[i] == #[trigger] self.players@[i]
        &&& open_kan ==> self.kan_settled(
            mid,
            caller,
            MeldKind::OpenKan,
            seq![0i32, 0, 0, 0].update(c, OPEN_KAN_POINTS).update(d, (-OPEN_KAN_POINTS) as i32),
        )
        &&& !open_kan ==> mid.point_deltas == self.point_deltas && mid.kan_events == self.kan_events
        &&& mid == (SichuanHand {
            players: mid.players,
            point_deltas: mid.point_deltas,
            kan_events: mid.kan_events,
            ..*self
        })
    }

    /// The meld a call makes: an open kan for a kan call, otherwise a pon.
    pub open spec fn call_meld_kind(kind: ReactionKind) -> MeldKind {
        if kind == ReactionKind::OpenKan {
            MeldKind::OpenKan
        } else {
            MeldKind::Pon
        }
    }

    /// `after` is this hand once the caller has taken the discard into a pon or an open kan
    /// (paid by the discarder), leaving no answer standing, and must discard or show the kan;
    /// without the discard or the tiles in hand, play moves on from the discarder.
    pub closed spec fn called(&self, after: SichuanHand, discarder: Seat, caller: Seat, kind: ReactionKind) -> bool {
        match self.last_discard {
            None => self.advanced(after, discarder),
            Some((_, t)) => {
                let k = t.spec_kind();
                let open_kan = kind == ReactionKind::OpenKan;
                let n: int = if open_kan { 3 } else { 2 };
                if tiles_of_kind(self.players@[caller@ as int].concealed@, k) < n {
                    self.advanced(after, discarder)
                } else {
                    exists|mid: SichuanHand, taken: Seq<Tile>, laid: SichuanHand|
                        #![trigger self.call_taken(mid, discarder, caller, k, open_kan, taken), mid.melded(laid, caller, Self::call_meld_kind(kind), k, taken.push(t), Some(discarder), Some(t.spec_id()))]
                        self.call_taken(mid, discarder, caller, k, open_kan, taken) && mid.melded(
                            laid,
                            caller,
                            Self::call_meld_kind(kind),
                            k,
                            taken.push(t),
                            Some(discarder),
                            Some(t.spec_id()),
                        ) && after.reactions_cleared() && after == (SichuanHand {
                            last_discard: None,
                            reaction_eligible: after.reaction_eligible,
                            reaction_answers: after.reaction_answers,
                            interrupted: true,
                            phase: if open_kan {
                                HandPhase::AwaitingKanAnimation { seat: caller }
                            } else {
                                HandPhase::AwaitingDiscard { seat: caller }
                            },
                            ..laid
                        })
                }
            },
        }
    }

    /// The caller takes the discard into a pon or an open kan; an open kan is paid by the
    /// discarder.
    fn execute_call(&mut self, discarder: Seat, caller: Seat, kind: ReactionKind)
        requires
            old(self).well_formed(),
            old(self).phase is AwaitingResponses,
            caller@ != discarder@,
        ensures
            final(self).well_formed(),
            old(self).called(*final(self), discarder, caller, kind),
    {
        let called_tile = match self.last_discard {
            Some((_, tile)) => tile,
            None => {
                self.advance_turn(discarder);
                return;
            },
        };
        let tile_kind = called_tile.kind();
        let open_kan = matches!(kind, ReactionKind::OpenKan);
        let from_hand: usize = if open_kan {
            3
        } else {
            2
        };
        let c = caller.index() as usize;
        // The answer was accepted only with these tiles in hand, and the hand has not changed
        // since; without them play simply moves on.
        if self.players[c].count_of(tile_kind) < from_hand {
            self.advance_turn(discarder);
            return;
        }
        let mut tiles = match self.players[c].remove_kind(tile_kind, from_hand) {
            Ok(tiles) => tiles,
            Err(_) => {
                self.advance_turn(discarder);
                return;
            },
        };
        let ghost taken = tiles@;
        let d = discarder.index() as usize;
        let count = self.players[d].discards.len();
        if count > 0 {
            self.players[d].discards[count - 1].mark_called();
            proof {
                assert(self.players@[d as int].discards@.drop_last() =~= old(self).players@[d as int].discards@.drop_last());
            }
        }
        tiles.push(called_tile);
        let meld_kind = if open_kan {
            MeldKind::OpenKan
        } else {
            MeldKind::Pon
        };
        if open_kan {
            let mut deltas: Vec<i32> = vec![0, 0, 0, 0];
            if c != d {
                deltas.set(c, OPEN_KAN_POINTS);
                deltas.set(d, -OPEN_KAN_POINTS);
            }
            proof {
                assert(deltas@ =~= seq![0i32, 0, 0, 0].update(c as int, OPEN_KAN_POINTS).update(d as int, (-OPEN_KAN_POINTS) as i32));
            }
            self.apply_kan_event(caller, MeldKind::OpenKan, deltas);
        }
        let ghost mid = *self;
        proof {
            assert(old(self).call_taken(mid, discarder, caller, tile_kind, open_kan, taken));
            assert(tiles@ == taken.push(called_tile));
        }
        self.push_meld(caller, meld_kind, tile_kind, tiles, Some(discarder), Some(called_tile.id()));
        let ghost laid = *self;
        self.last_discard = None;
        self.reaction_eligible = vec![false, false, false, false];
        self.reaction_answers = vec![None, None, None, None];
        self.interrupted = true;
        if open_kan {
            self.phase = HandPhase::AwaitingKanAnimation { seat: caller };
        } else {
            self.phase = HandPhase::AwaitingDiscard { seat: caller };
        }
        proof {
            assert(mid.melded(laid, caller, meld_kind, tile_kind, taken.push(called_tile), Some(discarder), Some(called_tile.spec_id())));
        }
    }

    /// Once every client has shown the kan, the declarer draws its replacement tile.
    pub fn advance_from_kan_animation(&mut self, seat: Seat) -> (r: Result<(), HandError>)
        requires
            old(self).well_formed(),
        ensures
            final(self).well_formed(),
            old(self).spec_phase() != (HandPhase::AwaitingKanAnimation { seat }) ==> r == Err::<(), HandError>(
                HandError::UnexpectedAction,
            ) && *final(self) == *old(self),
            old(self).spec_phase() == (HandPhase::AwaitingKanAnimation { seat }) ==> r is Ok,
    {
        if self.phase != (HandPhase::AwaitingKanAnimation { seat }) {
            return Err(HandError::UnexpectedAction);
        }
        self.draw_and_open_turn(seat, DrawSource::Replacement);
        Ok(())
    }

    /// Once every client has shown the win: with three winners the hand ends; after a robbed
    /// kan the declarer discards; otherwise the next seat still in the hand draws.
    pub fn advance_from_win_animation(&mut self, seat: Seat) -> (r: Result<(), HandError>)
        requires
            old(self).well_formed(),
        ensures
            final(self).well_formed(),
            old(self).spec_phase() != (HandPhase::AwaitingWinAnimation { seat }) ==> r == Err::<(), HandError>(
                HandError::UnexpectedAction,
            ) && *final(self) == *old(self),
            old(self).spec_phase() == (HandPhase::AwaitingWinAnimation { seat }) ==> r is Ok,
            old(self).spec_phase() == (HandPhase::AwaitingWinAnimation { seat }) && old(self).spec_winners().len() >= 3
                ==> final(self).spec_phase() == (HandPhase::Ended { reason: EndReason::ThreeWinners }),
            final(self).spec_point_deltas() == old(self).spec_point_deltas(),
    {
        if self.phase != (HandPhase::AwaitingWinAnimation { seat }) {
            return Err(HandError::UnexpectedAction);
        }
        if self.winners.len() >= 3 {
            self.finish(EndReason::ThreeWinners);
            return Ok(());
        }
        let declarer = match self.pending_added_kan {
            Some(pending) => Some(pending.declarer),
            None => None,
        };
        self.pending_added_kan = None;
        self.reset_reactions();
        match declarer {
            Some(declarer) => {
                self.phase = HandPhase::AwaitingDiscard { seat: declarer };
            },
            None => {
                let next = self.next_active(seat);
                self.draw_and_open_turn(next, DrawSource::Wall);
            },
        }
        Ok(())
    }

    /// The que suit is still among the seat's concealed tiles.
    pub closed spec fn holds_que(&self, seat: Seat) -> bool {
        exists|i: int|
            0 <= i < self.players@[seat@ as int].concealed@.len() && crate::riichi::tile::kind_suit(
                (#[trigger] self.players@[seat@ as int].concealed@[i]).spec_kind()@ as int,
            ) == self.que_suits@[seat@ as int]
    }

    #[must_use]
    pub fn has_que_tiles(&self, seat: Seat) -> (r: bool)
        requires
            self.well_formed(),
        ensures
            r == self.holds_que(seat),
    {
        let s = seat.index() as usize;
        let que = self.que_suits[s];
        let tiles = &self.players[s].concealed;
        let mut i: usize = 0;
        while i < tiles.len()
            invariant
                i <= tiles@.len(),
                s == seat@,
                s < 4,
                self.players@.len() == 4,
                self.que_suits@.len() == 4,
                *tiles == self.players@[s as int].concealed,
                que == self.que_suits@[s as int],
                forall|j: int| 0 <= j < i ==> crate::riichi::tile::kind_suit((#[trigger] tiles@[j]).spec_kind()@ as int) != que,
            decreases tiles@.len() - i,
        {
            if Self::of_suit(tiles[i].kind(), que) {
                assert(crate::riichi::tile::kind_suit(tiles@[i as int].spec_kind()@ as int) == que);
                return true;
            }
            i = i + 1;
        }
        false
    }

    /// The seat's concealed tiles hold a tile of the suit.
    pub closed spec fn holds_suit(&self, seat: Seat, suit: Suit) -> bool {
        exists|i: int|
            0 <= i < self.players@[seat@ as int].concealed@.len() && crate::riichi::tile::kind_suit(
                (#[trigger] self.players@[seat@ as int].concealed@[i]).spec_kind()@ as int,
            ) == Some(suit)
    }

    /// A flower pig: the concealed tiles still hold all three suits.
    #[must_use]
    pub fn is_flower_pig(&self, seat: Seat) -> (r: bool)
        requires
            self.well_formed(),
        ensures
            r == (self.holds_suit(seat, Suit::Man) && self.holds_suit(seat, Suit::Pin) && self.holds_suit(seat, Suit::Sou)),
    {
        let s = seat.index() as usize;
        let tiles = &self.players[s].concealed;
        let mut man = false;
        let mut pin = false;
        let mut sou = false;
        let mut i: usize = 0;
        while i < tiles.len()
            invariant
                i <= tiles@.len(),
                *tiles == self.players@[s as int].concealed,
                man == exists|j: int| 0 <= j < i && crate::riichi::tile::kind_suit((#[trigger] tiles@[j]).spec_kind()@ as int) == Some(Suit::Man),
                pin == exists|j: int| 0 <= j < i && crate::riichi::tile::kind_suit((#[trigger] tiles@[j]).spec_kind()@ as int) == Some(Suit::Pin),
                sou == exists|j: int| 0 <= j < i && crate::riichi::tile::kind_suit((#[trigger] tiles@[j]).spec_kind()@ as int) == Some(Suit::Sou),
            decreases tiles@.len() - i,
        {
            match tiles[i].kind().suit() {
                Some(Suit::Man) => {
                    man = true;
                },
                Some(Suit::Pin) => {
                    pin = true;
                },
                Some(Suit::Sou) => {
                    sou = true;
                },
                None => {},
            }
            i = i + 1;
        }
        man && pin && sou
    }

    /// Tenpai at an exhaustive draw: no que tile left, and some suited kind outside the que
    /// suit would complete a winning hand.
    #[must_use]
    pub fn is_tenpai(&self, seat: Seat) -> (r: bool)
        requires
            self.well_formed(),
        ensures
            r ==> !self.holds_que(seat),
            r == self.spec_is_tenpai(seat),
    {
        if self.has_que_tiles(seat) {
            return false;
        }
        let s = seat.index() as usize;
        let que = self.que_suits[s];
        let melds = self.players[s].meld_summaries();
        let concealed = self.players[s].concealed_kinds();
        proof {
            assert(meld_info(melds@) =~= melds_info(self.players@[s as int].melds@));
        }
        let mut index: u8 = 0;
        while index < 27
            invariant
                index <= 27,
                !self.holds_que(seat),
                s == seat@,
                s < 4,
                self.players@.len() == 4,
                self.que_suits@.len() == 4,
                que == self.que_suits@[s as int],
                concealed@ == kinds_of(self.players@[s as int].concealed@),
                meld_info(melds@) == melds_info(self.players@[s as int].melds@),
                forall|c: TileKind| c@ < index ==> !#[trigger] self.tenpai_kind(seat, c),
            decreases 27 - index,
        {
            match TileKind::from_index(index) {
                Ok(candidate) => {
                    if !Self::of_suit(candidate, que) {
                        let test = with_kind(&concealed, candidate);
                        if Self::score_win(&test, &melds, (false, false, false, false, false, false)).is_some() {
                            proof {
                                assert(self.tenpai_kind(seat, candidate));
                            }
                            return true;
                        }
                    }
                    proof {
                        assert forall|c: TileKind| c@ < index + 1 implies !#[trigger] self.tenpai_kind(seat, c) by {
                            if c@ == index {
                                TileKind::lemma_view_injective(c, candidate);
                            }
                        }
                    }
                },
                Err(_) => {},
            }
            index = index + 1;
        }
        false
    }

    /// The hints from the first `t` concealed tiles of the seat: for each kind met for the
    /// first time there, that the seat may discard (of its que suit while it holds any), the
    /// first tile's identity and the kinds that would then complete its hand, where any do.
    pub closed spec fn hints_upto(&self, seat: Seat, t: int) -> Seq<(TileId, Seq<TileKind>)>
        decreases t,
    {
        let p = self.players@[seat@ as int];
        let c = p.concealed@;
        let kinds = kinds_of(c);
        let que = self.que_suits@[seat@ as int];
        if t <= 0 {
            Seq::empty()
        } else {
            let prev = self.hints_upto(seat, t - 1);
            let tile = c[t - 1];
            let k = tile.spec_kind();
            if (exists|j: int| 0 <= j < t - 1 && (#[trigger] c[j]).spec_kind() == k) || (has_que_kind(kinds, que)
                && crate::riichi::tile::kind_suit(k@ as int) != que) {
                prev
            } else {
                let w = waits_for(kinds.remove(t - 1), melds_info(p.melds@), que, 27);
                if w.len() > 0 {
                    prev.push((tile.spec_id(), w))
                } else {
                    prev
                }
            }
        }
    }

    /// The discard hints of the seat: none without a drawn tile.
    pub closed spec fn discard_hints(&self, seat: Seat) -> Seq<(TileId, Seq<TileKind>)> {
        let p = self.players@[seat@ as int];
        if p.drawn is None {
            Seq::empty()
        } else {
            self.hints_upto(seat, p.concealed@.len() as int)
        }
    }

    /// For each kind the seat may discard (its que suit first while it holds any), the kinds
    /// that would then complete a winning hand, where there are any.
    fn tenpai_discard_hints(&self, seat: Seat) -> (r: Vec<(TileId, Vec<TileKind>)>)
        requires
            self.well_formed(),
        ensures
            hints_view(r@) == self.discard_hints(seat),
    {
        let s = seat.index() as usize;
        let player = &self.players[s];
        let mut hints: Vec<(TileId, Vec<TileKind>)> = Vec::new();
        if player.drawn.is_none() {
            return hints;
        }
        let que = self.que_suits[s];
        let melds = player.meld_summaries();
        let all_kinds = player.concealed_kinds();
        let has_que = Self::any_of_suit(&all_kinds, que);
        let ghost c = player.concealed@;
        let ghost info = melds_info(player.melds@);
        proof {
            assert(meld_info(melds@) =~= info);
            assert(all_kinds@ =~= kinds_of(c));
        }
        let mut seen: Vec<TileKind> = Vec::new();
        let mut t: usize = 0;
        while t < player.concealed.len()
            invariant
                t <= player.concealed@.len(),
                c == player.concealed@,
                player == self.players@[seat@ as int],
                s == seat@,
                que == self.que_suits@[seat@ as int],
                all_kinds@ == kinds_of(c),
                meld_info(melds@) == info,
                info == melds_info(player.melds@),
                has_que == has_que_kind(kinds_of(c), que),
                forall|kd: TileKind| seen@.contains(kd) <==> exists|j: int| 0 <= j < t && (#[trigger] c[j]).spec_kind() == kd,
                hints_view(hints@) == self.hints_upto(seat, t as int),
            decreases player.concealed@.len() - t,
        {
            let tile = player.concealed[t];
            let discard_kind = tile.kind();
            let mut already = false;
            let mut k: usize = 0;
            while k < seen.len()
                invariant
                    k <= seen@.len(),
                    already <==> exists|j: int| 0 <= j < k && seen@[j] == discard_kind,
                decreases seen@.len() - k,
            {
                if seen[k] == discard_kind {
                    already = true;
                }
                k = k + 1;
            }
            let ghost before = hints@;
            let ghost seen0 = seen@;
            proof {
                assert(already <==> seen@.contains(discard_kind));
                assert(self.hints_upto(seat, t + 1) == {
                    let prev = self.hints_upto(seat, t as int);
                    if (exists|j: int| 0 <= j < t && (#[trigger] c[j]).spec_kind() == discard_kind) || (has_que
                        && crate::riichi::tile::kind_suit(discard_kind@ as int) != que) {
                        prev
                    } else {
                        let w = waits_for(kinds_of(c).remove(t as int), info, que, 27);
                        if w.len() > 0 {
                            prev.push((tile.spec_id(), w))
                        } else {
                            prev
                        }
                    }
                });
            }
            if !already {
                seen.push(discard_kind);
                if !has_que || Self::of_suit(discard_kind, que) {
                    let mut remaining = copy_kinds(&all_kinds);
                    let mut position: usize = 0;
                    while position < remaining.len() && remaining[position] != discard_kind
                        invariant
                            position <= remaining@.len(),
                            remaining@ == kinds_of(c),
                            t < c.len(),
                            forall|j: int| 0 <= j < position ==> remaining@[j] != discard_kind,
                        decreases remaining@.len() - position,
                    {
                        position = position + 1;
                    }
                    proof {
                        assert(remaining@[t as int] == discard_kind);
                        if position < t {
                            assert(c[position as int].spec_kind() == discard_kind);
                            assert(seen@.contains(discard_kind));
                        }
                        assert(position == t);
                    }
                    if position < remaining.len() {
                        remaining.remove(position);
                    }
                    let mut waiting: Vec<TileKind> = Vec::new();
                    let mut index: u8 = 0;
                    while index < 27
                        invariant
                            index <= 27,
                            remaining@ == kinds_of(c).remove(t as int),
                            meld_info(melds@) == info,
                            waiting@ == waits_for(remaining@, info, que, index as int),
                        decreases 27 - index,
                    {
                        match TileKind::from_index(index) {
                            Ok(candidate) => {
                                proof {
                                    TileKind::lemma_spec_at(index as int);
                                    TileKind::lemma_view_injective(candidate, TileKind::spec_at(index as int));
                                }
                                if !Self::of_suit(candidate, que) {
                                    let test = with_kind(&remaining, candidate);
                                    if !Self::any_of_suit(&test, que) && Self::score_win(
                                        &test,
                                        &melds,
                                        (false, false, false, false, false, false),
                                    ).is_some() {
                                        waiting.push(candidate);
                                    }
                                }
                            },
                            Err(_) => {},
                        }
                        index = index + 1;
                    }
                    if waiting.len() > 0 {
                        hints.push((tile.id(), waiting));
                        proof {
                            assert(hints_view(hints@) =~= hints_view(before).push((tile.spec_id(), waiting@)));
                        }
                    }
                }
            }
            proof {
                assert forall|kd: TileKind| seen@.contains(kd) <==> (seen0.contains(kd) || kd == discard_kind) by {
                    if !already {
                        assert(seen@ == seen0.push(discard_kind));
                        if kd == discard_kind {
                            assert(seen@[seen0.len() as int] == kd);
                        }
                        if seen0.contains(kd) {
                            let i = choose|i: int| 0 <= i < seen0.len() && seen0[i] == kd;
                            assert(seen@[i] == kd);
                        }
                        if seen@.contains(kd) {
                            let i = choose|i: int| 0 <= i < seen@.len() && seen@[i] == kd;
                            if i < seen0.len() {
                                assert(seen0[i] == kd);
                            }
                        }
                    }
                }
                assert(c[t as int].spec_kind() == discard_kind);
            }
            t = t + 1;
            proof {
                assert forall|kd: TileKind| seen@.contains(kd) <==> exists|j: int| 0 <= j < t && (#[trigger] c[j]).spec_kind() == kd by {
                    assert(seen0.contains(kd) <==> exists|j: int| 0 <= j < t - 1 && (#[trigger] c[j]).spec_kind() == kd);
                    if seen0.contains(kd) {
                        let j = choose|j: int| 0 <= j < t - 1 && (#[trigger] c[j]).spec_kind() == kd;
                        assert(0 <= j < t && c[j].spec_kind() == kd);
                    }
                    if kd == discard_kind {
                        assert(c[t - 1].spec_kind() == kd);
                    }
                    if exists|j: int| 0 <= j < t && (#[trigger] c[j]).spec_kind() == kd {
                        let j = choose|j: int| 0 <= j < t && (#[trigger] c[j]).spec_kind() == kd;
                        if j < t - 1 {
                            assert(exists|j2: int| 0 <= j2 < t - 1 && (#[trigger] c[j2]).spec_kind() == kd);
                        }
                    }
                }
            }
        }
        hints
    }

    /// The kinds held four times among the first `n` tiles, in the order they first appear.
    pub open spec fn quad_kinds(c: Seq<Tile>, n: int) -> Seq<TileKind>
        decreases n,
    {
        if n <= 0 {
            Seq::empty()
        } else {
            let prev = Self::quad_kinds(c, n - 1);
            let k = c[n - 1].spec_kind();
            if tiles_of_kind(c, k) == 4 && !prev.contains(k) {
                prev.push(k)
            } else {
                prev
            }
        }
    }

    /// The identities of the pons among the first `n` melds whose kind is still held.
    pub open spec fn pon_ids(melds: Seq<Meld>, c: Seq<Tile>, n: int) -> Seq<MeldId>
        decreases n,
    {
        if n <= 0 {
            Seq::empty()
        } else {
            let prev = Self::pon_ids(melds, c, n - 1);
            let m = melds[n - 1];
            if m.spec_kind() == MeldKind::Pon && tiles_of_kind(c, m.spec_tile()) > 0 {
                prev.push(m.spec_id())
            } else {
                prev
            }
        }
    }

    /// The seat wins by self-draw now: its drawn tile is in hand, no que tile is left, and
    /// the hand scores.
    pub closed spec fn self_draw_wins(&self, seat: Seat) -> bool {
        let p = self.players@[seat@ as int];
        let kinds = kinds_of(p.concealed@);
        &&& p.drawn is Some
        &&& exists|i: int| 0 <= i < p.concealed@.len() && (#[trigger] p.concealed@[i]).spec_id() == p.drawn->Some_0
        &&& !has_que_kind(kinds, self.que_suits@[seat@ as int])
        &&& scores(kinds, melds_info(p.melds@))
    }

    /// What the seat may do on its turn: win by self-draw; the kinds it holds four of and the
    /// pons it holds the fourth tile of, while the wall can give a replacement; and its
    /// discard hints.
    pub closed spec fn turn_choices(&self, seat: Seat) -> (bool, Seq<TileKind>, Seq<MeldId>, Seq<(TileId, Seq<TileKind>)>) {
        let p = self.players@[seat@ as int];
        let open = self.wall.spec_front() < self.wall.spec_back();
        (
            self.self_draw_wins(seat),
            if open {
                Self::quad_kinds(p.concealed@, p.concealed@.len() as int)
            } else {
                Seq::empty()
            },
            if open {
                Self::pon_ids(p.melds@, p.concealed@, p.melds@.len() as int)
            } else {
                Seq::empty()
            },
            self.discard_hints(seat),
        )
    }

    /// The choices open to the seat on its turn: a self-drawn win, concealed kans of four
    /// held tiles, added kans onto its pons, while the wall can still give replacements.
    #[must_use]
    pub fn turn_actions(&self, seat: Seat) -> (r: TurnActions)
        requires
            self.well_formed(),
        ensures
            self.spec_phase() != (HandPhase::AwaitingTurnAction { seat }) ==> !r.can_tsumo && r.concealed_kans@.len() == 0
                && r.added_kans@.len() == 0 && r.tenpai_discard_hints@.len() == 0,
            forall|i: int| 0 <= i < r.concealed_kans@.len() ==> tiles_of_kind(
                self.concealed_of(seat),
                #[trigger] r.concealed_kans@[i],
            ) == 4,
            self.spec_phase() == (HandPhase::AwaitingTurnAction { seat }) ==> (
            r.can_tsumo,
            r.concealed_kans@,
            r.added_kans@,
            hints_view(r.tenpai_discard_hints@),
            ) == self.turn_choices(seat),
    {
        if self.phase != (HandPhase::AwaitingTurnAction { seat }) {
            return TurnActions::nothing();
        }
        let s = seat.index() as usize;
        let player = &self.players[s];
        let has_replacement = self.wall.remaining_draws() > 0;
        let mut concealed_kans: Vec<TileKind> = Vec::new();
        let mut added_kans: Vec<MeldId> = Vec::new();
        if has_replacement {
            let mut t: usize = 0;
            while t < player.concealed.len()
                invariant
                    t <= player.concealed@.len(),
                    forall|i: int| 0 <= i < concealed_kans@.len() ==> tiles_of_kind(
                        player.concealed@,
                        #[trigger] concealed_kans@[i],
                    ) == 4,
                    concealed_kans@ == Self::quad_kinds(player.concealed@, t as int),
                decreases player.concealed@.len() - t,
            {
                let kind = player.concealed[t].kind();
                if player.count_of(kind) == 4 {
                    let mut listed = false;
                    let mut k: usize = 0;
                    while k < concealed_kans.len()
                        invariant
                            k <= concealed_kans@.len(),
                            listed <==> exists|j: int| 0 <= j < k && concealed_kans@[j] == kind,
                        decreases concealed_kans@.len() - k,
                    {
                        if concealed_kans[k] == kind {
                            listed = true;
                        }
                        k = k + 1;
                    }
                    proof {
                        assert(listed <==> concealed_kans@.contains(kind));
                    }
                    if !listed {
                        concealed_kans.push(kind);
                    }
                }
                t = t + 1;
            }
            let mut m: usize = 0;
            while m < player.melds.len()
                invariant
                    m <= player.melds@.len(),
                    added_kans@ == Self::pon_ids(player.melds@, player.concealed@, m as int),
                decreases player.melds@.len() - m,
            {
                let meld = &player.melds[m];
                if matches!(meld.kind(), MeldKind::Pon) && player.count_of(meld.tile()) > 0 {
                    added_kans.push(meld.id());
                }
                m = m + 1;
            }
        }
        let can_tsumo = self.tsumo_evaluation(seat).is_some();
        let tenpai_discard_hints = self.tenpai_discard_hints(seat);
        TurnActions { can_tsumo, concealed_kans, added_kans, tenpai_discard_hints }
    }

    /// Replaces the kinds of the seat's concealed tiles by the given codes, keeping the tile
    /// identities and re-sorting, to set up a position.
    pub fn set_concealed_tiles(&mut self, seat: Seat, codes: &[String]) -> (r: Result<(), HandError>)
        requires
            old(self).well_formed(),
        ensures
            final(self).well_formed(),
            codes@.len() != old(self).concealed_of(seat).len() ==> r == Err::<(), HandError>(
                HandError::WrongConcealedTileCount {
                    expected: old(self).concealed_of(seat).len() as usize,
                    actual: codes@.len() as usize,
                },
            ),
            r is Err ==> *final(self) == *old(self),
            r is Ok ==> final(self).concealed_of(seat).len() == old(self).concealed_of(seat).len(),
    {
        let s = seat.index() as usize;
        let count = self.players[s].concealed.len();
        if codes.len() != count {
            return Err(HandError::WrongConcealedTileCount { expected: count, actual: codes.len() });
        }
        let mut kinds: Vec<TileKind> = Vec::new();
        let mut i: usize = 0;
        while i < codes.len()
            invariant
                i <= codes@.len(),
                kinds@.len() == i,
                *self == *old(self),
                old(self).well_formed(),
                codes@.len() == count,
                count == old(self).players@[seat@ as int].concealed@.len(),
            decreases codes@.len() - i,
        {
            match TileKind::parse_code(codes[i].as_str()) {
                Ok(kind) => {
                    kinds.push(kind);
                },
                Err(_) => {
                    return Err(HandError::InvalidTileCode(codes[i].clone()));
                },
            }
            i = i + 1;
        }
        let mut fresh = PlayerHand::empty();
        let mut j: usize = 0;
        while j < count
            invariant
                j <= count,
                s < 4,
                self.players@.len() == 4,
                count == self.players@[s as int].concealed@.len(),
                kinds@.len() == count,
                fresh.concealed@.len() == j,
            decreases count - j,
        {
            let id = self.players[s].concealed[j].id();
            fresh.insert(Tile::new(id, kinds[j]));
            j = j + 1;
        }
        self.players[s].concealed = fresh.concealed;
        Ok(())
    }

    /// Skips the exchange and the que choice from the deal: the que suits are set, the
    /// dealer's last tile counts as drawn, and the draw count is past the blessing draws.
    pub fn force_start_play(&mut self, que_suits: [Suit; 4])
        requires
            old(self).well_formed(),
            old(self).spec_phase() == HandPhase::AwaitingExchange,
            old(self).spec_wall().spec_front() >= 3,
        ensures
            final(self).well_formed(),
            final(self).spec_phase() == (HandPhase::AwaitingTurnAction { seat: old(self).spec_dealer() }),
            forall|seat: Seat| seat@ < 4 ==> #[trigger] final(self).spec_que_suit(seat) == Some(que_suits@[seat@ as int]),
    {
        self.que_suits = vec![Some(que_suits[0]), Some(que_suits[1]), Some(que_suits[2]), Some(que_suits[3])];
        self.start_play();
        self.turns_taken = BLESSING_MAX_TURNS + 1;
    }

    /// Ends the hand at once with the given reason.
    pub fn force_end(&mut self, reason: EndReason)
        requires
            old(self).well_formed(),
        ensures
            final(self).well_formed(),
            final(self).spec_phase() == (HandPhase::Ended { reason }),
            final(self).spec_point_deltas() == old(self).spec_point_deltas(),
            final(self).spec_winners() == old(self).spec_winners(),
    {
        self.finish(reason);
    }
}

} // verus!
