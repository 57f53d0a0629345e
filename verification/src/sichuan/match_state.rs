//! The points of a Sichuan match of four hands. Every seat starts at zero; kans and wins
//! settle at once during a hand, and an exhaustive draw adds the flower-pig and tenpai payments.
//! The first hand is dealt by East, each later one by the first winner of the hand before.

use vstd::prelude::*;

use super::config::{SichuanRules, HAND_COUNT, INITIAL_POINTS};
use super::hand::model::{EndReason, HandPhase};
use super::hand::player::WinnerRecord;
use super::hand::state::{sum4, within, SichuanHand};
use super::progress::{ProgressError, Seat, TableProgress};
use super::tile::Suit;
use super::wall::WallSeed;

verus! {

/// A flower pig (concealed tiles still of three suits) pays this to every other seat still in
/// the hand.
pub const FLOWER_PIG_POINTS: i32 = 8000;

/// A seat that is not tenpai pays this to every tenpai seat.
pub const NOTEN_POINTS: i32 = 1000;

/// The settlement of an exhaustive draw: who is a flower pig, who is tenpai, who is not, and
/// what they pay.
#[derive(Clone, Debug, PartialEq, Eq)]
pub struct QueSettlement {
    flower_pigs: Vec<Seat>,
    tenpai: Vec<Seat>,
    noten: Vec<Seat>,
    deltas: Vec<i32>,
}

impl QueSettlement {
    pub closed spec fn spec_deltas(&self) -> Seq<i32> {
        self.deltas@
    }

    pub closed spec fn spec_flower_pigs(&self) -> Seq<Seat> {
        self.flower_pigs@
    }

    pub closed spec fn spec_tenpai(&self) -> Seq<Seat> {
        self.tenpai@
    }

    pub closed spec fn spec_noten(&self) -> Seq<Seat> {
        self.noten@
    }

    #[must_use]
    pub fn flower_pigs(&self) -> (r: &[Seat])
        ensures
            r@ == self.spec_flower_pigs(),
    {
        self.flower_pigs.as_slice()
    }

    #[must_use]
    pub fn tenpai(&self) -> (r: &[Seat])
        ensures
            r@ == self.spec_tenpai(),
    {
        self.tenpai.as_slice()
    }

    /// The seats not tenpai, flower pigs included.
    #[must_use]
    pub fn noten(&self) -> (r: &[Seat])
        ensures
            r@ == self.spec_noten(),
    {
        self.noten.as_slice()
    }

    #[must_use]
    pub fn deltas(&self) -> (r: &[i32])
        ensures
            r@ == self.spec_deltas(),
    {
        self.deltas.as_slice()
    }
}

/// The account of a settled hand.
#[derive(Clone, Debug, PartialEq, Eq)]
pub struct HandSettlement {
    reason: EndReason,
    winners: Vec<WinnerRecord>,
    que: Option<QueSettlement>,
    point_deltas: Vec<i32>,
    points_after: Vec<i32>,
    match_over: bool,
}

impl HandSettlement {
    pub closed spec fn spec_reason(&self) -> EndReason {
        self.reason
    }

    pub closed spec fn spec_point_deltas(&self) -> Seq<i32> {
        self.point_deltas@
    }

    pub closed spec fn spec_points_after(&self) -> Seq<i32> {
        self.points_after@
    }

    pub closed spec fn spec_que(&self) -> Option<QueSettlement> {
        self.que
    }

    pub closed spec fn spec_match_over(&self) -> bool {
        self.match_over
    }

    pub closed spec fn spec_winners(&self) -> Seq<WinnerRecord> {
        self.winners@
    }

    #[must_use]
    pub fn reason(&self) -> (r: EndReason)
        ensures
            r == self.spec_reason(),
    {
        self.reason
    }

    /// Every winner of the hand, in the order they won.
    #[must_use]
    pub fn winners(&self) -> (r: &[WinnerRecord])
        ensures
            r@ == self.spec_winners(),
    {
        self.winners.as_slice()
    }

    /// The exhaustive-draw settlement; none when the hand ended with three winners.
    #[must_use]
    pub fn que(&self) -> (r: Option<&QueSettlement>)
        ensures
            r matches Some(q) ==> self.spec_que() == Some(*q),
            r is None <==> self.spec_que() is None,
    {
        match &self.que {
            Some(q) => Some(q),
            None => None,
        }
    }

    /// Everything the hand moved: kans, wins and the exhaustive-draw settlement.
    #[must_use]
    pub fn point_deltas(&self) -> (r: &[i32])
        ensures
            r@ == self.spec_point_deltas(),
    {
        self.point_deltas.as_slice()
    }

    #[must_use]
    pub fn points_after(&self) -> (r: &[i32])
        ensures
            r@ == self.spec_points_after(),
    {
        self.points_after.as_slice()
    }

    /// The match ended with this hand.
    #[must_use]
    pub fn match_over(&self) -> (r: bool)
        ensures
            r == self.spec_match_over(),
    {
        self.match_over
    }
}

/// A seat's standing at the end of the match.
#[derive(Clone, Copy, Debug, PartialEq, Eq, Structural)]
pub struct PlayerResult {
    pub seat: Seat,
    pub points: i32,
    /// The change against the starting points.
    pub point_delta: i32,
}

/// Why a match refused a step.
#[derive(Clone, Copy, Debug, PartialEq, Eq)]
pub enum MatchError {
    HandInProgress,
    NoHandInProgress,
    HandNotFinished,
    MatchFinished,
    Progress(ProgressError),
}

impl MatchError {
    /// A one-line explanation.
    #[must_use]
    pub fn message(&self) -> (r: String)
        ensures
            self is HandInProgress ==> r@ == "the previous hand is not settled yet"@,
            self is NoHandInProgress ==> r@ == "no hand is in progress"@,
            self is HandNotFinished ==> r@ == "the hand is still running"@,
            self is MatchFinished ==> r@ == "the match is already over"@,
    {
        match self {
            MatchError::HandInProgress => String::from_str("the previous hand is not settled yet"),
            MatchError::NoHandInProgress => String::from_str("no hand is in progress"),
            MatchError::HandNotFinished => String::from_str("the hand is still running"),
            MatchError::MatchFinished => String::from_str("the match is already over"),
            MatchError::Progress(error) => error.message(),
        }
    }
}

/// A match of four hands.
#[derive(Debug)]
pub struct SichuanMatch {
    rules: SichuanRules,
    progress: TableProgress,
    points: Vec<i32>,
    hand: Option<SichuanHand>,
    finished: bool,
    settled: bool,
}

/// How far any seat's points can have moved after `hands` settled hands.
pub open spec fn points_bound(hands: int) -> int {
    2200000 * hands
}

/// The seat at index `i` is a flower pig: its concealed tiles still hold all three suits.
pub open spec fn is_flower_pig_at(hand: SichuanHand, i: int) -> bool {
    let seat = Seat::spec_at(i);
    hand.holds_suit(seat, Suit::Man) && hand.holds_suit(seat, Suit::Pin) && hand.holds_suit(seat, Suit::Sou)
}

/// Where the seat at index `i` stands at an exhaustive draw: 0 when it has already won, 1 for
/// a flower pig, 2 when tenpai, 3 when not tenpai.
pub open spec fn que_class(hand: SichuanHand, i: int) -> int {
    let seat = Seat::spec_at(i);
    if hand.spec_won(seat) {
        0
    } else if is_flower_pig_at(hand, i) {
        1
    } else if hand.spec_is_tenpai(seat) {
        2
    } else {
        3
    }
}

/// How many of the first `n` seats stand in class `v`.
pub open spec fn class_count(hand: SichuanHand, v: int, n: int) -> int
    decreases n,
{
    if n <= 0 {
        0
    } else {
        class_count(hand, v, n - 1) + if que_class(hand, n - 1) == v {
            1int
        } else {
            0int
        }
    }
}

/// The exhaustive-draw delta of the seat at index `i`: a flower pig pays 8000 to every other
/// seat still in the hand (and receives 8000 from every other flower pig), every seat not
/// tenpai (flower pigs included) pays 1000 to every tenpai seat, a seat that has won neither
/// pays nor receives.
pub open spec fn que_delta(hand: SichuanHand, i: int) -> int {
    let pigs = class_count(hand, 1, 4);
    let tenpai = class_count(hand, 2, 4);
    let noten = pigs + class_count(hand, 3, 4);
    let active = 4 - class_count(hand, 0, 4);
    let c = que_class(hand, i);
    if c == 0 {
        0
    } else if c == 1 {
        -8000 * (active - 1) + 8000 * (pigs - 1) - 1000 * tenpai
    } else if c == 2 {
        8000 * pigs + 1000 * noten
    } else {
        8000 * pigs - 1000 * tenpai
    }
}

/// How often the seat of index `i` occurs among the first `n` seats of `list`.
pub open spec fn occurrences(list: Seq<Seat>, i: int, n: int) -> int
    decreases n,
{
    if n <= 0 {
        0
    } else {
        occurrences(list, i, n - 1) + if list[n - 1]@ == i {
            1int
        } else {
            0int
        }
    }
}

/// What the first `n` flower pigs moved to the seat of index `i`: each pays 8000 to every
/// other seat in `active` and each other seat in `active` receives it.
pub open spec fn pig_moves(pigs: Seq<Seat>, active: Seq<Seat>, i: int, n: int) -> int
    decreases n,
{
    if n <= 0 {
        0
    } else {
        pig_moves(pigs, active, i, n - 1) + if pigs[n - 1]@ == i {
            -8000 * (active.len() - occurrences(active, i, active.len() as int))
        } else {
            8000 * occurrences(active, i, active.len() as int)
        }
    }
}

/// What the first `n` seats of `noten` paying 1000 to each seat of `tenpai` moved to the seat
/// of index `i`.
pub open spec fn noten_moves(noten: Seq<Seat>, tenpai: Seq<Seat>, i: int, n: int) -> int
    decreases n,
{
    if n <= 0 {
        0
    } else {
        noten_moves(noten, tenpai, i, n - 1) + (if noten[n - 1]@ == i {
            -1000 * tenpai.len()
        } else {
            0
        }) + 1000 * occurrences(tenpai, i, tenpai.len() as int)
    }
}

proof fn lemma_occurrences_push(list: Seq<Seat>, s: Seat, i: int)
    ensures
        occurrences(list.push(s), i, (list.len() + 1) as int) == occurrences(list, i, list.len() as int) + if s@ == i {
            1int
        } else {
            0int
        },
{
    lemma_occurrences_prefix(list, s, i, list.len() as int);
}

proof fn lemma_occurrences_prefix(list: Seq<Seat>, s: Seat, i: int, n: int)
    requires
        0 <= n <= list.len(),
    ensures
        occurrences(list.push(s), i, n) == occurrences(list, i, n),
    decreases n,
{
    if n > 0 {
        lemma_occurrences_prefix(list, s, i, n - 1);
    }
}

proof fn lemma_pig_moves(pigs: Seq<Seat>, active: Seq<Seat>, i: int, n: int)
    requires
        0 <= n,
        0 <= occurrences(active, i, active.len() as int) <= 1,
    ensures
        pig_moves(pigs, active, i, n) == -8000 * (active.len() - occurrences(active, i, active.len() as int))
            * occurrences(pigs, i, n) + 8000 * occurrences(active, i, active.len() as int) * (n - occurrences(
            pigs,
            i,
            n,
        )),
    decreases n,
{
    if n > 0 {
        lemma_pig_moves(pigs, active, i, n - 1);
        let a = active.len() - occurrences(active, i, active.len() as int);
        let o = occurrences(active, i, active.len() as int);
        let p = occurrences(pigs, i, n - 1);
        assert(-8000 * a * (p + 1) == -8000 * a * p + -8000 * a) by (nonlinear_arith);
        assert(8000 * o * (n - p) == 8000 * o * (n - 1 - p) + 8000 * o) by (nonlinear_arith);
        assert(8000 * o * (n - (p + 1)) == 8000 * o * (n - 1 - p)) by (nonlinear_arith);
    }
}

proof fn lemma_noten_moves(noten: Seq<Seat>, tenpai: Seq<Seat>, i: int, n: int)
    requires
        0 <= n,
    ensures
        noten_moves(noten, tenpai, i, n) == -1000 * tenpai.len() * occurrences(noten, i, n) + 1000
            * occurrences(tenpai, i, tenpai.len() as int) * n,
    decreases n,
{
    if n > 0 {
        lemma_noten_moves(noten, tenpai, i, n - 1);
        let t = tenpai.len() as int;
        let o = occurrences(tenpai, i, tenpai.len() as int);
        let q = occurrences(noten, i, n - 1);
        assert(-1000 * t * (q + 1) == -1000 * t * q + -1000 * t) by (nonlinear_arith);
        assert(1000 * o * n == 1000 * o * (n - 1) + 1000 * o) by (nonlinear_arith);
        assert(noten_moves(noten, tenpai, i, n - 1) == -1000 * t * q + 1000 * o * (n - 1));
        if noten[n - 1]@ == i {
            assert(occurrences(noten, i, n) == q + 1);
            assert(noten_moves(noten, tenpai, i, n) == noten_moves(noten, tenpai, i, n - 1) - 1000 * t + 1000 * o);
        } else {
            assert(occurrences(noten, i, n) == q);
            assert(noten_moves(noten, tenpai, i, n) == noten_moves(noten, tenpai, i, n - 1) + 1000 * o);
        }
    } else {
        let t = tenpai.len() as int;
        let o = occurrences(tenpai, i, tenpai.len() as int);
        assert(-1000 * t * 0 + 1000 * o * 0 == 0) by (nonlinear_arith);
    }
}

/// Whether `v` is 1, as an integer.
spec fn indicator(v: bool) -> int {
    if v {
        1
    } else {
        0
    }
}

/// The seat lists of an exhaustive draw, read against the classes of the first `k` seats:
/// every seat of index below `k` that has not won is active, flower pigs and seats not tenpai
/// are listed as such, tenpai seats too, each once.
spec fn lists_classified(
    hand: SichuanHand,
    pigs: Seq<Seat>,
    tenpai: Seq<Seat>,
    noten: Seq<Seat>,
    active: Seq<Seat>,
    k: int,
) -> bool {
    &&& forall|i: int|
        0 <= i < 4 ==> #[trigger] occurrences(active, i, active.len() as int) == indicator(
            i < k && que_class(hand, i) != 0,
        )
    &&& forall|i: int|
        0 <= i < 4 ==> #[trigger] occurrences(pigs, i, pigs.len() as int) == indicator(
            i < k && que_class(hand, i) == 1,
        )
    &&& forall|i: int|
        0 <= i < 4 ==> #[trigger] occurrences(tenpai, i, tenpai.len() as int) == indicator(
            i < k && que_class(hand, i) == 2,
        )
    &&& forall|i: int|
        0 <= i < 4 ==> #[trigger] occurrences(noten, i, noten.len() as int) == indicator(
            i < k && (que_class(hand, i) == 1 || que_class(hand, i) == 3),
        )
    &&& active.len() == k - class_count(hand, 0, k)
    &&& pigs.len() == class_count(hand, 1, k)
    &&& tenpai.len() == class_count(hand, 2, k)
    &&& noten.len() == class_count(hand, 1, k) + class_count(hand, 3, k)
}

proof fn lemma_occurrences_push_all(list: Seq<Seat>, s: Seat)
    ensures
        forall|i: int|
            #[trigger] occurrences(list.push(s), i, (list.len() + 1) as int) == occurrences(
                list,
                i,
                list.len() as int,
            ) + indicator(s@ == i),
{
    assert forall|i: int|
        #[trigger] occurrences(list.push(s), i, (list.len() + 1) as int) == occurrences(
            list,
            i,
            list.len() as int,
        ) + indicator(s@ == i) by {
        lemma_occurrences_push(list, s, i);
    }
}

/// Once all four seats are classified, the flower-pig and noten payments give each seat its
/// exhaustive-draw delta.
proof fn lemma_moves_give_que_delta(
    hand: SichuanHand,
    pigs: Seq<Seat>,
    tenpai: Seq<Seat>,
    noten: Seq<Seat>,
    active: Seq<Seat>,
    i: int,
)
    requires
        lists_classified(hand, pigs, tenpai, noten, active, 4),
        0 <= i < 4,
    ensures
        pig_moves(pigs, active, i, pigs.len() as int) + noten_moves(noten, tenpai, i, noten.len() as int)
            == que_delta(hand, i),
{
    let oa = occurrences(active, i, active.len() as int);
    let op = occurrences(pigs, i, pigs.len() as int);
    let ot = occurrences(tenpai, i, tenpai.len() as int);
    let on = occurrences(noten, i, noten.len() as int);
    lemma_pig_moves(pigs, active, i, pigs.len() as int);
    lemma_noten_moves(noten, tenpai, i, noten.len() as int);
    let a = active.len() as int;
    let np = pigs.len() as int;
    let nt = tenpai.len() as int;
    let nn = noten.len() as int;
    let c = que_class(hand, i);
    if c == 0 {
        assert(oa == 0 && op == 0 && ot == 0 && on == 0);
        assert(-8000 * (a - 0) * 0 + 8000 * 0 * (np - 0) == 0) by (nonlinear_arith);
        assert(-1000 * nt * 0 + 1000 * 0 * nn == 0) by (nonlinear_arith);
    } else if c == 1 {
        assert(oa == 1 && op == 1 && ot == 0 && on == 1);
        assert(-8000 * (a - 1) * 1 + 8000 * 1 * (np - 1) == -8000 * (a - 1) + 8000 * (np - 1))
            by (nonlinear_arith);
        assert(-1000 * nt * 1 + 1000 * 0 * nn == -1000 * nt) by (nonlinear_arith);
    } else if c == 2 {
        assert(oa == 1 && op == 0 && ot == 1 && on == 0);
        assert(-8000 * (a - 1) * 0 + 8000 * 1 * (np - 0) == 8000 * np) by (nonlinear_arith);
        assert(-1000 * nt * 0 + 1000 * 1 * nn == 1000 * nn) by (nonlinear_arith);
    } else {
        assert(oa == 1 && op == 0 && ot == 0 && on == 1);
        assert(-8000 * (a - 1) * 0 + 8000 * 1 * (np - 0) == 8000 * np) by (nonlinear_arith);
        assert(-1000 * nt * 1 + 1000 * 0 * nn == -1000 * nt) by (nonlinear_arith);
    }
}

/// At an exhaustive draw a tenpai seat receives 1000 from every seat not tenpai and 8000 from
/// every flower pig, so it never loses points; a seat not tenpai that is no flower pig pays
/// 1000 to every tenpai seat and receives 8000 from every flower pig; a flower pig pays 8000 to
/// every other seat still in the hand (less what other flower pigs pay it) and 1000 to every
/// tenpai seat; a seat that has won is left out. The deltas balance.
pub proof fn law_exhaustive_draw_payments(hand: SichuanHand, i: int)
    requires
        0 <= i < 4,
    ensures
        que_class(hand, i) == 2 ==> que_delta(hand, i) == 1000 * (class_count(hand, 1, 4) + class_count(hand, 3, 4))
            + 8000 * class_count(hand, 1, 4) && que_delta(hand, i) >= 0,
        que_class(hand, i) == 3 ==> que_delta(hand, i) == -1000 * class_count(hand, 2, 4) + 8000 * class_count(hand, 1, 4),
        que_class(hand, i) == 1 ==> que_delta(hand, i) == -8000 * (3 - class_count(hand, 0, 4)) + 8000 * (
        class_count(hand, 1, 4) - 1) - 1000 * class_count(hand, 2, 4),
        que_class(hand, i) == 0 ==> que_delta(hand, i) == 0,
        que_delta(hand, 0) + que_delta(hand, 1) + que_delta(hand, 2) + que_delta(hand, 3) == 0,
{
    lemma_class_counts(hand);
    reveal_with_fuel(class_count, 5);
}

proof fn lemma_class_counts(hand: SichuanHand)
    ensures
        class_count(hand, 0, 4) + class_count(hand, 1, 4) + class_count(hand, 2, 4) + class_count(hand, 3, 4) == 4,
        0 <= class_count(hand, 1, 4) && 0 <= class_count(hand, 3, 4) && 0 <= class_count(hand, 2, 4),
{
    reveal_with_fuel(class_count, 5);
}

/// A wider bound holds wherever a narrower one does.
proof fn lemma_within_grows(d: Seq<i32>, a: int, b: int)
    requires
        within(d, a),
        a <= b,
    ensures
        within(d, b),
{
    assert forall|i: int| 0 <= i < 4 implies -b <= #[trigger] d[i] <= b by {
        assert(-a <= d[i] <= a);
    }
}

impl SichuanMatch {
    /// The match's standing facts: four seats whose points sum to zero and stay within what
    /// the settled hands can have moved, a well-formed current hand, and the match over
    /// exactly when four hands have been played.
    pub closed spec fn well_formed(&self) -> bool {
        &&& self.points@.len() == 4
        &&& sum4(self.points@) == 0
        &&& within(self.points@, points_bound(self.progress.spec_hand_index() as int))
        &&& (self.hand matches Some(h) ==> h.well_formed())
        &&& self.finished == (self.progress.spec_hand_index() >= HAND_COUNT)
        &&& self.hand is None ==> self.settled
        &&& !self.settled ==> self.progress.spec_hand_index() < HAND_COUNT
    }

    /// The current hand has been settled (trivially so before the first hand).
    pub closed spec fn spec_settled(&self) -> bool {
        self.settled
    }

    pub closed spec fn spec_rules(&self) -> SichuanRules {
        self.rules
    }

    pub closed spec fn spec_points(&self) -> Seq<i32> {
        self.points@
    }

    pub closed spec fn spec_progress(&self) -> TableProgress {
        self.progress
    }

    pub closed spec fn spec_finished(&self) -> bool {
        self.finished
    }

    pub closed spec fn spec_hand(&self) -> Option<SichuanHand> {
        self.hand
    }

    /// Opens the table: every seat at zero, East to deal, no hand yet.
    #[must_use]
    pub fn new(rules: SichuanRules) -> (r: SichuanMatch)
        ensures
            r.well_formed(),
            forall|i: int| 0 <= i < 4 ==> #[trigger] r.spec_points()[i] == INITIAL_POINTS,
            r.spec_points().len() == 4,
            r.spec_progress().spec_hand_index() == 0,
            r.spec_progress().spec_dealer()@ == 0,
            r.spec_hand() is None,
            !r.spec_finished(),
            r.spec_settled(),
    {
        SichuanMatch {
            rules,
            progress: TableProgress::opening(),
            points: vec![INITIAL_POINTS, INITIAL_POINTS, INITIAL_POINTS, INITIAL_POINTS],
            hand: None,
            finished: false,
            settled: true,
        }
    }

    #[must_use]
    pub fn rules(&self) -> (r: &SichuanRules)
        ensures
            *r == self.spec_rules(),
    {
        &self.rules
    }

    #[must_use]
    pub fn progress(&self) -> (r: TableProgress)
        ensures
            r == self.spec_progress(),
    {
        self.progress
    }

    #[must_use]
    pub fn points(&self) -> (r: &[i32])
        ensures
            r@ == self.spec_points(),
    {
        self.points.as_slice()
    }

    #[must_use]
    pub fn hand(&self) -> (r: Option<&SichuanHand>)
        ensures
            r matches Some(h) ==> self.spec_hand() == Some(*h),
            r is None <==> self.spec_hand() is None,
    {
        match &self.hand {
            Some(h) => Some(h),
            None => None,
        }
    }

    /// The current hand, to play it.
    pub fn hand_mut(&mut self) -> (r: Option<&mut SichuanHand>)
        ensures
            old(self).spec_hand() is None ==> r is None && final(self).spec_hand() is None,
            old(self).spec_hand() matches Some(h) ==> (r matches Some(m) && *m == h && final(self).spec_hand() == Some(
                *final(m),
            )),
            final(self).spec_points() == old(self).spec_points(),
            final(self).spec_progress() == old(self).spec_progress(),
            final(self).spec_finished() == old(self).spec_finished(),
            final(self).spec_settled() == old(self).spec_settled(),
    {
        self.hand.as_mut()
    }

    #[must_use]
    pub fn is_finished(&self) -> (r: bool)
        ensures
            r == self.spec_finished(),
    {
        self.finished
    }

    /// Every seat's points and their change against the start.
    #[must_use]
    pub fn results(&self) -> (r: [PlayerResult; 4])
        requires
            self.well_formed(),
        ensures
            forall|i: int|
                0 <= i < 4 ==> (#[trigger] r@[i]).seat@ == i && r@[i].points == self.spec_points()[i]
                    && r@[i].point_delta == self.spec_points()[i] - INITIAL_POINTS,
    {
        proof {
            assert(points_bound(self.progress.spec_hand_index() as int) <= 2200000 * 255);
        }
        let result = [
            PlayerResult { seat: Seat::at(0), points: self.points[0], point_delta: self.points[0] - INITIAL_POINTS },
            PlayerResult { seat: Seat::at(1), points: self.points[1], point_delta: self.points[1] - INITIAL_POINTS },
            PlayerResult { seat: Seat::at(2), points: self.points[2], point_delta: self.points[2] - INITIAL_POINTS },
            PlayerResult { seat: Seat::at(3), points: self.points[3], point_delta: self.points[3] - INITIAL_POINTS },
        ];
        result
    }

    /// Sets the points directly, to set up a position.
    pub fn set_points(&mut self, points: [i32; 4])
        requires
            old(self).well_formed(),
            sum4(points@) == 0,
            within(points@, points_bound(old(self).spec_progress().spec_hand_index() as int)),
        ensures
            final(self).well_formed(),
            final(self).spec_points() == points@,
    {
        self.points = vec![points[0], points[1], points[2], points[3]];
        assert(self.points@ =~= points@);
    }

    /// Deals the next hand; refused when the match is over or the last hand is unsettled.
    pub fn start_hand(&mut self, seed: &WallSeed) -> (r: Result<(), MatchError>)
        requires
            old(self).well_formed(),
        ensures
            final(self).well_formed(),
            old(self).spec_finished() ==> r == Err::<(), MatchError>(MatchError::MatchFinished),
            !old(self).spec_finished() && !old(self).spec_settled() ==> r == Err::<(), MatchError>(
                MatchError::HandInProgress,
            ),
            r is Ok <==> !old(self).spec_finished() && old(self).spec_settled(),
            r is Err ==> *final(self) == *old(self),
            r is Ok ==> (final(self).spec_hand() matches Some(h) && h.spec_phase() == HandPhase::AwaitingExchange
                && h.spec_dealer() == old(self).spec_progress().spec_dealer()) && !final(self).spec_settled(),
            final(self).spec_points() == old(self).spec_points(),
            final(self).spec_progress() == old(self).spec_progress(),
    {
        if self.finished {
            return Err(MatchError::MatchFinished);
        }
        if !self.settled {
            return Err(MatchError::HandInProgress);
        }
        self.hand = Some(SichuanHand::new(self.rules, self.progress.dealer(), seed));
        self.settled = false;
        Ok(())
    }

    /// The exhaustive-draw settlement among the seats still in the hand: a flower pig pays
    /// every other such seat, and every seat not tenpai pays every tenpai seat.
    fn compute_que_settlement(hand: &SichuanHand) -> (r: QueSettlement)
        requires
            hand.well_formed(),
        ensures
            r.spec_deltas().len() == 4,
            sum4(r.spec_deltas()) == 0,
            within(r.spec_deltas(), 150000),
            forall|i: int| 0 <= i < 4 ==> r.spec_deltas()[i] == que_delta(*hand, i),
    {
        let mut flower_pigs: Vec<Seat> = Vec::new();
        let mut tenpai: Vec<Seat> = Vec::new();
        let mut noten: Vec<Seat> = Vec::new();
        let mut active: Vec<Seat> = Vec::new();
        let mut k: u8 = 0;
        while k < 4
            invariant
                k <= 4,
                hand.well_formed(),
                active@.len() <= k,
                flower_pigs@.len() <= k,
                tenpai@.len() <= k,
                noten@.len() <= k,
                lists_classified(*hand, flower_pigs@, tenpai@, noten@, active@, k as int),
            decreases 4 - k,
        {
            let seat = Seat::at(k);
            let ghost pigs0 = flower_pigs@;
            let ghost tenpai0 = tenpai@;
            let ghost noten0 = noten@;
            let ghost active0 = active@;
            proof {
                Seat::lemma_spec_at(k as int);
                lemma_occurrences_push_all(pigs0, seat);
                lemma_occurrences_push_all(tenpai0, seat);
                lemma_occurrences_push_all(noten0, seat);
                lemma_occurrences_push_all(active0, seat);
            }
            if !hand.won(seat) {
                active.push(seat);
                if hand.is_flower_pig(seat) {
                    flower_pigs.push(seat);
                    noten.push(seat);
                } else if hand.is_tenpai(seat) {
                    tenpai.push(seat);
                } else {
                    noten.push(seat);
                }
            }
            k = k + 1;
            proof {
                assert forall|i: int| 0 <= i < 4 implies #[trigger] occurrences(
                    active@,
                    i,
                    active@.len() as int,
                ) == indicator(i < k && que_class(*hand, i) != 0) by {
                    if i < k - 1 {
                        assert(occurrences(active0, i, active0.len() as int) == indicator(
                            i < k - 1 && que_class(*hand, i) != 0,
                        ));
                    }
                    if i >= k {
                        assert(occurrences(active0, i, active0.len() as int) == indicator(
                            i < k - 1 && que_class(*hand, i) != 0,
                        ));
                    }
                }
                assert forall|i: int| 0 <= i < 4 implies #[trigger] occurrences(
                    flower_pigs@,
                    i,
                    flower_pigs@.len() as int,
                ) == indicator(i < k && que_class(*hand, i) == 1) by {
                    assert(occurrences(pigs0, i, pigs0.len() as int) == indicator(
                        i < k - 1 && que_class(*hand, i) == 1,
                    ));
                }
                assert forall|i: int| 0 <= i < 4 implies #[trigger] occurrences(
                    tenpai@,
                    i,
                    tenpai@.len() as int,
                ) == indicator(i < k && que_class(*hand, i) == 2) by {
                    assert(occurrences(tenpai0, i, tenpai0.len() as int) == indicator(
                        i < k - 1 && que_class(*hand, i) == 2,
                    ));
                }
                assert forall|i: int| 0 <= i < 4 implies #[trigger] occurrences(
                    noten@,
                    i,
                    noten@.len() as int,
                ) == indicator(i < k && (que_class(*hand, i) == 1 || que_class(*hand, i) == 3)) by {
                    assert(occurrences(noten0, i, noten0.len() as int) == indicator(
                        i < k - 1 && (que_class(*hand, i) == 1 || que_class(*hand, i) == 3),
                    ));
                }
            }
        }
        let mut deltas: Vec<i32> = vec![0, 0, 0, 0];
        let mut p: usize = 0;
        while p < flower_pigs.len()
            invariant
                p <= flower_pigs@.len() <= 4,
                active@.len() <= 4,
                deltas@.len() == 4,
                sum4(deltas@) == 0,
                within(deltas@, 32000 * p),
                forall|i: int|
                    0 <= i < 4 ==> #[trigger] deltas@[i] == pig_moves(flower_pigs@, active@, i, p as int),
            decreases flower_pigs@.len() - p,
        {
            let pig = flower_pigs[p].index() as usize;
            let mut o: usize = 0;
            while o < active.len()
                invariant
                    o <= active@.len() <= 4,
                    p < flower_pigs@.len() <= 4,
                    pig < 4,
                    pig == flower_pigs@[p as int]@,
                    deltas@.len() == 4,
                    sum4(deltas@) == 0,
                    within(deltas@, 32000 * p + 8000 * o),
                    forall|i: int|
                        0 <= i < 4 ==> #[trigger] deltas@[i] == pig_moves(flower_pigs@, active@, i, p as int) + if i
                            == pig {
                            -8000 * (o - occurrences(active@, i, o as int))
                        } else {
                            8000 * occurrences(active@, i, o as int)
                        },
                decreases active@.len() - o,
            {
                let other = active[o].index() as usize;
                let ghost before = deltas@;
                let ghost bound = 32000 * p + 8000 * o;
                if other != pig {
                    assert(-bound <= before[pig as int] && before[other as int] <= bound);
                    let paid = deltas[pig] - FLOWER_PIG_POINTS;
                    deltas.set(pig, paid);
                    let got = deltas[other] + FLOWER_PIG_POINTS;
                    deltas.set(other, got);
                }
                proof {
                    assert forall|i: int| 0 <= i < 4 implies -(bound + 8000) <= #[trigger] deltas@[i] <= bound + 8000 by {
                        assert(-bound <= before[i] <= bound);
                    }
                    assert forall|i: int| 0 <= i < 4 implies #[trigger] deltas@[i] == pig_moves(
                        flower_pigs@,
                        active@,
                        i,
                        p as int,
                    ) + if i == pig {
                        -8000 * ((o + 1) - occurrences(active@, i, (o + 1) as int))
                    } else {
                        8000 * occurrences(active@, i, (o + 1) as int)
                    } by {
                        assert(before[i] == pig_moves(flower_pigs@, active@, i, p as int) + if i == pig {
                            -8000 * (o - occurrences(active@, i, o as int))
                        } else {
                            8000 * occurrences(active@, i, o as int)
                        });
                    }
                }
                o = o + 1;
            }
            proof {
                lemma_within_grows(deltas@, 32000 * p + 8000 * o, 32000 * (p + 1));
            }
            p = p + 1;
        }
        proof {
            lemma_within_grows(deltas@, 32000 * p, 128000);
        }
        let mut l: usize = 0;
        while l < noten.len()
            invariant
                l <= noten@.len() <= 4,
                tenpai@.len() <= 4,
                deltas@.len() == 4,
                sum4(deltas@) == 0,
                within(deltas@, 128000 + 4000 * l),
                forall|i: int|
                    0 <= i < 4 ==> #[trigger] deltas@[i] == pig_moves(
                        flower_pigs@,
                        active@,
                        i,
                        flower_pigs@.len() as int,
                    ) + noten_moves(noten@, tenpai@, i, l as int),
            decreases noten@.len() - l,
        {
            let loser = noten[l].index() as usize;
            let mut w: usize = 0;
            while w < tenpai.len()
                invariant
                    w <= tenpai@.len() <= 4,
                    l < noten@.len() <= 4,
                    loser < 4,
                    loser == noten@[l as int]@,
                    deltas@.len() == 4,
                    sum4(deltas@) == 0,
                    within(deltas@, 128000 + 4000 * l + 1000 * w),
                    forall|i: int|
                        0 <= i < 4 ==> #[trigger] deltas@[i] == pig_moves(
                            flower_pigs@,
                            active@,
                            i,
                            flower_pigs@.len() as int,
                        ) + noten_moves(noten@, tenpai@, i, l as int) + (if i == loser {
                            -1000 * w
                        } else {
                            0
                        }) + 1000 * occurrences(tenpai@, i, w as int),
                decreases tenpai@.len() - w,
            {
                let winner = tenpai[w].index() as usize;
                let ghost before = deltas@;
                let ghost bound = 128000 + 4000 * l + 1000 * w;
                assert(-bound <= before[loser as int] && before[winner as int] <= bound);
                let paid = deltas[loser] - NOTEN_POINTS;
                deltas.set(loser, paid);
                proof {
                    assert(deltas@[winner as int] <= bound + 1000);
                }
                let got = deltas[winner] + NOTEN_POINTS;
                deltas.set(winner, got);
                proof {
                    assert forall|i: int| 0 <= i < 4 implies -(bound + 1000) <= #[trigger] deltas@[i] <= bound + 1000 by {
                        assert(-bound <= before[i] <= bound);
                    }
                    assert forall|i: int| 0 <= i < 4 implies #[trigger] deltas@[i] == pig_moves(
                        flower_pigs@,
                        active@,
                        i,
                        flower_pigs@.len() as int,
                    ) + noten_moves(noten@, tenpai@, i, l as int) + (if i == loser {
                        -1000 * (w + 1)
                    } else {
                        0
                    }) + 1000 * occurrences(tenpai@, i, (w + 1) as int) by {
                        assert(before[i] == pig_moves(
                            flower_pigs@,
                            active@,
                            i,
                            flower_pigs@.len() as int,
                        ) + noten_moves(noten@, tenpai@, i, l as int) + (if i == loser {
                            -1000 * w
                        } else {
                            0
                        }) + 1000 * occurrences(tenpai@, i, w as int));
                    }
                }
                w = w + 1;
            }
            proof {
                lemma_within_grows(deltas@, 128000 + 4000 * l + 1000 * w, 128000 + 4000 * (l + 1));
                assert forall|i: int| 0 <= i < 4 implies #[trigger] deltas@[i] == pig_moves(
                    flower_pigs@,
                    active@,
                    i,
                    flower_pigs@.len() as int,
                ) + noten_moves(noten@, tenpai@, i, (l + 1) as int) by {
                    assert(noten_moves(noten@, tenpai@, i, (l + 1) as int) == noten_moves(
                        noten@,
                        tenpai@,
                        i,
                        l as int,
                    ) + (if noten@[l as int]@ == i {
                        -1000 * tenpai@.len()
                    } else {
                        0
                    }) + 1000 * occurrences(tenpai@, i, tenpai@.len() as int));
                }
            }
            l = l + 1;
        }
        proof {
            lemma_within_grows(deltas@, 128000 + 4000 * l, 150000);
            assert forall|i: int| 0 <= i < 4 implies deltas@[i] == que_delta(*hand, i) by {
                lemma_moves_give_que_delta(*hand, flower_pigs@, tenpai@, noten@, active@, i);
            }
        }
        QueSettlement { flower_pigs, tenpai, noten, deltas }
    }

    /// Settles the finished hand: adds what it moved (and the exhaustive-draw settlement) to the
    /// points, passes the deal to its first winner (the dealer stays when nobody won), and
    /// ends the match after the fourth hand.
    pub fn settle_hand(&mut self) -> (r: Result<HandSettlement, MatchError>)
        requires
            old(self).well_formed(),
        ensures
            final(self).well_formed(),
            old(self).spec_hand() is None || old(self).spec_settled() ==> r == Err::<HandSettlement, MatchError>(
                MatchError::NoHandInProgress,
            ),
            old(self).spec_hand() matches Some(h) && !old(self).spec_settled() && !(h.spec_phase() is Ended) ==> r
                == Err::<HandSettlement, MatchError>(MatchError::HandNotFinished),
            old(self).spec_hand() matches Some(h) && !old(self).spec_settled() && h.spec_phase() is Ended ==> r is Ok,
            r is Err ==> *final(self) == *old(self),
            r is Ok ==> final(self).spec_settled() && final(self).spec_hand() == old(self).spec_hand(),
            r matches Ok(settlement) ==> {
                &&& old(self).spec_hand() matches Some(h)
                &&& h.spec_phase() == (HandPhase::Ended { reason: settlement.spec_reason() })
                &&& settlement.spec_point_deltas().len() == 4
                &&& sum4(settlement.spec_point_deltas()) == 0
                &&& forall|i: int|
                    0 <= i < 4 ==> #[trigger] final(self).spec_points()[i] == old(self).spec_points()[i]
                        + settlement.spec_point_deltas()[i]
                &&& settlement.spec_points_after() == final(self).spec_points()
                &&& (settlement.spec_que() is Some <==> settlement.spec_reason() == EndReason::ExhaustiveDraw)
                &&& forall|i: int|
                    0 <= i < 4 ==> #[trigger] settlement.spec_point_deltas()[i] == h.spec_point_deltas()[i] + match settlement.spec_que() {
                        Some(q) => q.spec_deltas()[i] as int,
                        None => 0int,
                    }
                &&& (settlement.spec_que() matches Some(q) ==> forall|i: int|
                    0 <= i < 4 ==> #[trigger] q.spec_deltas()[i] == que_delta(h, i))
                &&& settlement.spec_match_over() == final(self).spec_finished()
                &&& final(self).spec_progress().spec_hand_index() == old(self).spec_progress().spec_hand_index() + 1
                &&& final(self).spec_progress().spec_dealer() == (if h.spec_winners().len() > 0 {
                    h.spec_winners()[0].spec_seat()
                } else {
                    old(self).spec_progress().spec_dealer()
                })
            },
    {
        if self.settled {
            return Err(MatchError::NoHandInProgress);
        }
        let hand = match &self.hand {
            Some(hand) => hand,
            None => {
                return Err(MatchError::NoHandInProgress);
            },
        };
        let reason = match hand.reason() {
            Some(reason) => reason,
            None => {
                return Err(MatchError::HandNotFinished);
            },
        };
        proof {
            hand.lemma_points_balance();
        }
        let hand_deltas = hand.point_deltas();
        let mut point_deltas: Vec<i32> = vec![hand_deltas[0], hand_deltas[1], hand_deltas[2], hand_deltas[3]];
        let que = if matches!(reason, EndReason::ExhaustiveDraw) {
            let settlement = Self::compute_que_settlement(hand);
            let mut i: usize = 0;
            while i < 4
                invariant
                    i <= 4,
                    point_deltas@.len() == 4,
                    settlement.spec_deltas().len() == 4,
                    within(settlement.spec_deltas(), 150000),
                    hand_deltas@.len() == 4,
                    within(hand_deltas@, 2000000),
                    forall|j: int| 0 <= j < i ==> #[trigger] point_deltas@[j] == hand_deltas@[j] + settlement.spec_deltas()[j],
                    forall|j: int| i <= j < 4 ==> #[trigger] point_deltas@[j] == hand_deltas@[j],
                    forall|j: int| 0 <= j < 4 ==> #[trigger] settlement.spec_deltas()[j] == que_delta(*hand, j),
                decreases 4 - i,
            {
                let value = point_deltas[i] + settlement.deltas()[i];
                point_deltas.set(i, value);
                i = i + 1;
            }
            Some(settlement)
        } else {
            None
        };
        let winners_view = hand.winners();
        let first_winner = if winners_view.len() > 0 {
            Some(winners_view[0].seat())
        } else {
            None
        };
        let mut winners: Vec<WinnerRecord> = Vec::new();
        let mut w: usize = 0;
        while w < winners_view.len()
            invariant
                w <= winners_view@.len(),
                winners@.len() == w,
            decreases winners_view@.len() - w,
        {
            winners.push(winners_view[w].clone());
            w = w + 1;
        }
        let mut progress = self.progress;
        match progress.advance(first_winner) {
            Ok(()) => {},
            Err(error) => {
                return Err(MatchError::Progress(error));
            },
        }
        let mut j: usize = 0;
        while j < 4
            invariant
                j <= 4,
                self.points@.len() == 4,
                point_deltas@.len() == 4,
                within(old(self).points@, points_bound(old(self).progress.spec_hand_index() as int)),
                within(point_deltas@, 2150000),
                old(self).progress.spec_hand_index() < 255,
                old(self).points@.len() == 4,
                forall|k: int| 0 <= k < j ==> #[trigger] self.points@[k] == old(self).points@[k] + point_deltas@[k],
                forall|k: int| j <= k < 4 ==> #[trigger] self.points@[k] == old(self).points@[k],
                self.progress == old(self).progress,
                self.hand == old(self).hand,
                self.finished == old(self).finished,
                self.rules == old(self).rules,
                self.settled == old(self).settled,
            decreases 4 - j,
        {
            let value = self.points[j] + point_deltas[j];
            self.points.set(j, value);
            j = j + 1;
        }
        self.progress = progress;
        self.finished = self.progress.hand_index() >= HAND_COUNT;
        self.settled = true;
        let points_after = self.points.clone();
        assert(points_after@ == self.points@);
        Ok(HandSettlement { reason, winners, que, point_deltas, points_after, match_over: self.finished })
    }
}

/// Points only ever move between seats: in every match reached through this type's
/// operations the four seats' points sum to zero.
pub proof fn match_points_balance(m: &SichuanMatch)
    requires
        m.well_formed(),
    ensures
        m.spec_points().len() == 4,
        sum4(m.spec_points()) == 0,
{
}

} // verus!
