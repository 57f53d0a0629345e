use vstd::prelude::*;

use crate::riichi::config::{DealerContinuation, RiichiRules};
use crate::riichi::hand::EndReason;
use crate::riichi::progress::{
    Honba, ProgressError, RiichiSticks, RoundNumber, Seat, TableProgress, Wind, spec_next_wind,
};
use crate::riichi::tile_set::{RiichiVariant, seat_count_of};

use super::result::{Payment, WinEvaluation};

verus! {

broadcast use crate::riichi::progress::Seat::lemma_view_injective;

/// A winner of a hand with the evaluation of their hand.
#[derive(Clone, Debug, PartialEq, Eq)]
pub struct ScoredWinner {
    pub(crate) seat: Seat,
    pub(crate) evaluation: WinEvaluation,
}

impl ScoredWinner {
    pub closed spec fn spec_seat(&self) -> Seat {
        self.seat
    }

    pub closed spec fn spec_payment(&self) -> Payment {
        self.evaluation.spec_payment()
    }

    #[must_use]
    pub fn new(seat: Seat, evaluation: WinEvaluation) -> (r: ScoredWinner)
        ensures
            r.spec_seat() == seat,
            r.spec_payment() == evaluation.spec_payment(),
    {
        ScoredWinner { seat, evaluation }
    }

    #[must_use]
    pub fn seat(&self) -> (r: Seat)
        ensures
            r == self.spec_seat(),
    {
        self.seat
    }

    #[must_use]
    pub fn evaluation(&self) -> (r: &WinEvaluation)
        ensures
            r.spec_payment() == self.spec_payment(),
    {
        &self.evaluation
    }
}

/// How a hand ended, as the settlement needs it.
#[derive(Clone, Debug, PartialEq, Eq)]
pub enum HandOutcome {
    Tsumo { winner: ScoredWinner },
    Ron { from: Seat, winners: Vec<ScoredWinner> },
    ExhaustiveDraw { tenpai: Vec<Seat>, nagashi_winners: Vec<Seat> },
    AbortiveDraw { reason: EndReason },
}

/// The settled result of a hand: points before and after, who won, and the next hand.
#[derive(Clone, Debug, PartialEq, Eq)]
pub struct HandResult {
    pub(crate) reason: EndReason,
    pub(crate) progress: TableProgress,
    pub(crate) points_before: Vec<i32>,
    pub(crate) point_deltas: Vec<i32>,
    pub(crate) points_after: Vec<i32>,
    pub(crate) winners: Vec<ScoredWinner>,
    pub(crate) from: Option<Seat>,
    pub(crate) tenpai: Vec<Seat>,
    pub(crate) nagashi_winners: Vec<Seat>,
    pub(crate) awarded_riichi_sticks: u32,
    pub(crate) dealer_continues: bool,
    pub(crate) next_progress: TableProgress,
}

#[derive(Clone, Copy, Debug, PartialEq, Eq)]
pub enum SettlementError {
    VariantMismatch,
    PointCount { expected: usize, actual: usize },
    InvalidSeat,
    InvalidWinnerSet,
    PaymentKindMismatch,
    IncompatibleDrawResults,
    NagashiManganDisabled,
    InvalidAbortiveReason,
    IndivisibleNotenPayment,
    PointOverflow,
    Progress(ProgressError),
}

impl SettlementError {
    /// A sentence that describes the error.
    pub fn message(&self) -> (r: &'static str)
        ensures
            self is VariantMismatch ==> r@ == "rules and table progress variants do not match"@,
            self is PointCount ==> r@ == "the point entries do not match the seat count"@,
            self is InvalidSeat ==> r@ == "outcome contains an invalid seat"@,
            self is InvalidWinnerSet ==> r@ == "outcome contains invalid winners"@,
            self is PaymentKindMismatch ==> r@ == "win evaluation payment does not match outcome"@,
            self is IncompatibleDrawResults ==> r@ == "nagashi mangan and noten settlement cannot be combined"@,
            self is NagashiManganDisabled ==> r@ == "nagashi mangan is disabled by active rules"@,
            self is InvalidAbortiveReason ==> r@ == "abortive outcome requires an abortive end reason"@,
            self is IndivisibleNotenPayment ==> r@ == "noten payment cannot be divided evenly"@,
            self is PointOverflow ==> r@ == "point calculation overflow"@,
            self is Progress ==> r@ == "the table progress could not advance"@,
    {
        match self {
            SettlementError::VariantMismatch => "rules and table progress variants do not match",
            SettlementError::PointCount { .. } => "the point entries do not match the seat count",
            SettlementError::InvalidSeat => "outcome contains an invalid seat",
            SettlementError::InvalidWinnerSet => "outcome contains invalid winners",
            SettlementError::PaymentKindMismatch => "win evaluation payment does not match outcome",
            SettlementError::IncompatibleDrawResults => "nagashi mangan and noten settlement cannot be combined",
            SettlementError::NagashiManganDisabled => "nagashi mangan is disabled by active rules",
            SettlementError::InvalidAbortiveReason => "abortive outcome requires an abortive end reason",
            SettlementError::IndivisibleNotenPayment => "noten payment cannot be divided evenly",
            SettlementError::PointOverflow => "point calculation overflow",
            SettlementError::Progress(_) => "the table progress could not advance",
        }
    }
}

/// The settlement of one hand.
#[derive(Clone, Copy, Debug, Default, PartialEq, Eq)]
pub struct HandSettlement;

pub open spec fn seat_ok(variant: RiichiVariant, seat: Seat) -> bool {
    seat@ < seat_count_of(variant)
}

/// Every seat is at the table and none occurs twice.
pub open spec fn distinct_seats(variant: RiichiVariant, seats: Seq<Seat>) -> bool {
    &&& forall|i: int| 0 <= i < seats.len() ==> seat_ok(variant, #[trigger] seats[i])
    &&& forall|i: int, j: int| 0 <= i < j < seats.len() ==> #[trigger] seats[i] != #[trigger] seats[j]
}

pub open spec fn is_abortive(reason: EndReason) -> bool {
    reason == EndReason::NineTerminals || reason == EndReason::FourWinds || reason == EndReason::FourKans
        || reason == EndReason::FourRiichi
}

/// The first problem among the first `k` ron winners, in order: a seat that is not at the
/// table, the discarder or a repeat; then a payment that is not a ron payment.
pub open spec fn ron_problem(variant: RiichiVariant, from: Seat, winners: Seq<ScoredWinner>, k: int) -> Option<SettlementError>
    decreases k,
{
    if k <= 0 {
        None
    } else {
        match ron_problem(variant, from, winners, k - 1) {
            Some(e) => Some(e),
            None => {
                let w = winners[k - 1];
                if !seat_ok(variant, w.spec_seat()) || w.spec_seat() == from || exists|j: int|
                    0 <= j < k - 1 && #[trigger] winners[j].spec_seat() == w.spec_seat() {
                    Some(SettlementError::InvalidWinnerSet)
                } else if !(w.spec_payment() is Ron) {
                    Some(SettlementError::PaymentKindMismatch)
                } else {
                    None
                }
            },
        }
    }
}

/// Once a problem is found among the first winners, it is the problem of every longer prefix.
proof fn lemma_ron_problem_stable(variant: RiichiVariant, from: Seat, winners: Seq<ScoredWinner>, k: int, m: int)
    requires
        0 <= k <= m,
        ron_problem(variant, from, winners, k) is Some,
    ensures
        ron_problem(variant, from, winners, m) == ron_problem(variant, from, winners, k),
    decreases m - k,
{
    if m > k {
        lemma_ron_problem_stable(variant, from, winners, k, m - 1);
    }
}

/// What is wrong with an outcome under the rules, checked in order.
pub open spec fn outcome_problem(rules: RiichiRules, outcome: HandOutcome) -> Option<SettlementError> {
    let variant = rules.variant;
    match outcome {
        HandOutcome::Tsumo { winner } => if !seat_ok(variant, winner.spec_seat()) {
            Some(SettlementError::InvalidSeat)
        } else if !(winner.spec_payment() is Tsumo) {
            Some(SettlementError::PaymentKindMismatch)
        } else {
            None
        },
        HandOutcome::Ron { from, winners } => if !seat_ok(variant, from) || winners@.len() == 0 {
            Some(SettlementError::InvalidWinnerSet)
        } else {
            ron_problem(variant, from, winners@, winners@.len() as int)
        },
        HandOutcome::ExhaustiveDraw { tenpai, nagashi_winners } => if !distinct_seats(variant, tenpai@)
            || !distinct_seats(variant, nagashi_winners@) {
            Some(SettlementError::InvalidWinnerSet)
        } else if nagashi_winners@.len() > 0 && tenpai@.len() > 0 {
            Some(SettlementError::IncompatibleDrawResults)
        } else if nagashi_winners@.len() > 0 && !rules.scoring.nagashi_mangan {
            Some(SettlementError::NagashiManganDisabled)
        } else {
            None
        },
        HandOutcome::AbortiveDraw { reason } => if is_abortive(reason) {
            None
        } else {
            Some(SettlementError::InvalidAbortiveReason)
        },
    }
}

/// A payment of `(from, to, amount)` between seats.
pub open spec fn apply_transfers(start: Seq<int>, ts: Seq<(int, int, int)>) -> Seq<int>
    decreases ts.len(),
{
    if ts.len() == 0 {
        start
    } else {
        let d = apply_transfers(start, ts.drop_last());
        let t = ts.last();
        d.update(t.0, d[t.0] - t.2).update(t.1, d[t.1] + t.2)
    }
}

/// Every payment, made in order, fits the 32-bit point counters.
pub open spec fn transfers_fit(start: Seq<int>, ts: Seq<(int, int, int)>) -> bool
    decreases ts.len(),
{
    if ts.len() == 0 {
        true
    } else {
        let d = apply_transfers(start, ts.drop_last());
        let t = ts.last();
        &&& transfers_fit(start, ts.drop_last())
        &&& t.2 <= i32::MAX
        &&& d[t.0] - t.2 >= i32::MIN
        &&& d[t.1] + t.2 <= i32::MAX
    }
}

pub open spec fn zeros(n: int) -> Seq<int> {
    Seq::new(n as nat, |i: int| 0int)
}

/// The payments of the other seats to a tsumo winner, seat by seat: the dealer's share from
/// the dealer, the others' share from the others, each with 100 per honba.
pub open spec fn tsumo_transfers(progress: TableProgress, winner: Seat, payment: Payment, k: int) -> Seq<(int, int, int)>
    decreases k,
{
    if k <= 0 {
        Seq::empty()
    } else {
        let prev = tsumo_transfers(progress, winner, payment, k - 1);
        let from = k - 1;
        if from == winner@ {
            prev
        } else {
            let share = match payment {
                Payment::Tsumo { dealer_payment, other_payment } => if from == progress.spec_dealer()@ {
                    dealer_payment as int
                } else {
                    other_payment as int
                },
                Payment::Ron { points } => 0,
            };
            prev.push((from, winner@ as int, share + progress.spec_honba()@ * 100))
        }
    }
}

pub open spec fn ron_points(payment: Payment) -> int {
    match payment {
        Payment::Ron { points } => points as int,
        _ => 0,
    }
}

/// The discarder pays each ron winner, in order, with 300 per honba.
pub open spec fn ron_transfers(progress: TableProgress, from: Seat, winners: Seq<ScoredWinner>, k: int) -> Seq<(int, int, int)>
    decreases k,
{
    if k <= 0 {
        Seq::empty()
    } else {
        ron_transfers(progress, from, winners, k - 1).push(
            (
                from@ as int,
                winners[k - 1].spec_seat()@ as int,
                ron_points(winners[k - 1].spec_payment()) + progress.spec_honba()@ * 300,
            ),
        )
    }
}

/// What the first `k` seats pay a nagashi mangan winner: 4000 each to a dealer and from the
/// dealer, 2000 otherwise, with 100 per honba.
pub open spec fn nagashi_payers(progress: TableProgress, winner: Seat, k: int) -> Seq<(int, int, int)>
    decreases k,
{
    if k <= 0 {
        Seq::empty()
    } else {
        let prev = nagashi_payers(progress, winner, k - 1);
        let from = k - 1;
        if from == winner@ {
            prev
        } else {
            let base = if winner == progress.spec_dealer() || from == progress.spec_dealer()@ {
                4000int
            } else {
                2000int
            };
            prev.push((from, winner@ as int, base + progress.spec_honba()@ * 100))
        }
    }
}

pub open spec fn nagashi_transfers(progress: TableProgress, winners: Seq<Seat>, n: int, k: int) -> Seq<(int, int, int)>
    decreases k,
{
    if k <= 0 {
        Seq::empty()
    } else {
        nagashi_transfers(progress, winners, n, k - 1) + nagashi_payers(progress, winners[k - 1], n)
    }
}

pub open spec fn seat_count(variant: RiichiVariant) -> int {
    seat_count_of(variant) as int
}

/// The payments of an outcome, in the order the settlement makes them.
pub open spec fn outcome_transfers(progress: TableProgress, outcome: HandOutcome) -> Seq<(int, int, int)> {
    let n = seat_count(progress.spec_variant());
    match outcome {
        HandOutcome::Tsumo { winner } => tsumo_transfers(progress, winner.spec_seat(), winner.spec_payment(), n),
        HandOutcome::Ron { from, winners } => ron_transfers(progress, from, winners@, winners@.len() as int),
        HandOutcome::ExhaustiveDraw { tenpai, nagashi_winners } => nagashi_transfers(
            progress,
            nagashi_winners@,
            n,
            nagashi_winners@.len() as int,
        ),
        HandOutcome::AbortiveDraw { .. } => Seq::empty(),
    }
}

/// The seat that collects the riichi sticks on the table, if any does.
pub open spec fn stick_recipient(outcome: HandOutcome) -> Option<Seat> {
    match outcome {
        HandOutcome::Tsumo { winner } => Some(winner.spec_seat()),
        HandOutcome::Ron { winners, .. } => Some(winners@[0].spec_seat()),
        HandOutcome::ExhaustiveDraw { nagashi_winners, .. } => if nagashi_winners@.len() > 0 {
            Some(nagashi_winners@[0])
        } else {
            None
        },
        HandOutcome::AbortiveDraw { .. } => None,
    }
}

pub open spec fn awarded_sticks(progress: TableProgress, outcome: HandOutcome) -> int {
    if stick_recipient(outcome) is Some {
        progress.spec_riichi_sticks()@ as int
    } else {
        0
    }
}

/// The noten payments of an exhaustive draw without nagashi: the tenpai seats share the
/// payment that the noten seats pay, unless all or none are tenpai.
pub open spec fn noten_applies(rules: RiichiRules, tenpai: Seq<Seat>) -> bool {
    let n = seat_count(rules.variant);
    tenpai.len() > 0 && tenpai.len() != n && rules.settlement.noten_payment != 0
}

pub open spec fn noten_divisible(rules: RiichiRules, tenpai: Seq<Seat>) -> bool {
    let n = seat_count(rules.variant);
    let total = rules.settlement.noten_payment as int;
    total % (tenpai.len() as int) == 0 && total % (n - tenpai.len()) == 0
}

pub open spec fn noten_deltas(rules: RiichiRules, tenpai: Seq<Seat>) -> Seq<int> {
    let n = seat_count(rules.variant);
    let total = rules.settlement.noten_payment as int;
    Seq::new(
        n as nat,
        |i: int|
            if exists|j: int| 0 <= j < tenpai.len() && #[trigger] tenpai[j]@ == i {
                total / (tenpai.len() as int)
            } else {
                -(total / (n - tenpai.len()))
            },
    )
}

pub open spec fn is_noten_draw(outcome: HandOutcome) -> bool {
    outcome matches HandOutcome::ExhaustiveDraw { nagashi_winners, .. } && nagashi_winners@.len() == 0
}

pub open spec fn draw_tenpai(outcome: HandOutcome) -> Seq<Seat> {
    match outcome {
        HandOutcome::ExhaustiveDraw { tenpai, .. } => tenpai@,
        _ => Seq::empty(),
    }
}

/// The point changes of the hand before the riichi sticks are added.
pub open spec fn base_deltas(rules: RiichiRules, progress: TableProgress, outcome: HandOutcome) -> Seq<int> {
    let n = seat_count(rules.variant);
    if is_noten_draw(outcome) {
        if noten_applies(rules, draw_tenpai(outcome)) {
            noten_deltas(rules, draw_tenpai(outcome))
        } else {
            zeros(n)
        }
    } else {
        apply_transfers(zeros(n), outcome_transfers(progress, outcome))
    }
}

/// The point changes of the hand.
pub open spec fn hand_deltas(rules: RiichiRules, progress: TableProgress, outcome: HandOutcome) -> Seq<int> {
    let base = base_deltas(rules, progress, outcome);
    match stick_recipient(outcome) {
        Some(seat) => if awarded_sticks(progress, outcome) > 0 {
            base.update(seat@ as int, base[seat@ as int] + awarded_sticks(progress, outcome) * 1000)
        } else {
            base
        },
        None => base,
    }
}

/// Every amount of the settlement fits the 32-bit point counters along the way.
pub open spec fn deltas_fit(rules: RiichiRules, progress: TableProgress, outcome: HandOutcome) -> bool {
    let n = seat_count(rules.variant);
    let total = rules.settlement.noten_payment as int;
    let base = base_deltas(rules, progress, outcome);
    let sticks = awarded_sticks(progress, outcome);
    &&& is_noten_draw(outcome) ==> (noten_applies(rules, draw_tenpai(outcome)) ==> total / (
    draw_tenpai(outcome).len() as int) <= i32::MAX && total / (n - draw_tenpai(outcome).len()) <= i32::MAX)
    &&& !is_noten_draw(outcome) ==> transfers_fit(zeros(n), outcome_transfers(progress, outcome))
    &&& sticks > 0 ==> sticks * 1000 <= i32::MAX && base[stick_recipient(outcome)->0@ as int] + sticks * 1000
        <= i32::MAX
}

pub open spec fn hand_reason(outcome: HandOutcome) -> EndReason {
    match outcome {
        HandOutcome::Tsumo { .. } => EndReason::Tsumo,
        HandOutcome::Ron { .. } => EndReason::Ron,
        HandOutcome::ExhaustiveDraw { .. } => EndReason::ExhaustiveDraw,
        HandOutcome::AbortiveDraw { reason } => reason,
    }
}

/// The dealer keeps the seat after a dealer win, a dealer nagashi, a tenpai dealer in a draw
/// where the rules continue on tenpai, and any abortive draw.
pub open spec fn dealer_stays(rules: RiichiRules, progress: TableProgress, outcome: HandOutcome) -> bool {
    let dealer = progress.spec_dealer();
    match outcome {
        HandOutcome::Tsumo { winner } => winner.spec_seat() == dealer,
        HandOutcome::Ron { winners, .. } => exists|i: int| 0 <= i < winners@.len() && #[trigger] winners@[i].spec_seat() == dealer,
        HandOutcome::ExhaustiveDraw { tenpai, nagashi_winners } => if nagashi_winners@.len() == 0 {
            rules.match_rules.dealer_continuation == DealerContinuation::WinOrTenpai && tenpai@.contains(dealer)
        } else {
            nagashi_winners@.contains(dealer)
        },
        HandOutcome::AbortiveDraw { .. } => true,
    }
}

/// Whether the honba counter would overflow on the way to the next hand.
pub open spec fn honba_overflows(progress: TableProgress, stays: bool, win: bool) -> bool {
    (stays || !win) && progress.spec_honba()@ == u32::MAX
}

pub open spec fn sum_of(s: Seq<int>) -> int
    decreases s.len(),
{
    if s.len() == 0 {
        0
    } else {
        sum_of(s.drop_last()) + s.last()
    }
}

pub open spec fn as_ints(s: Seq<i32>) -> Seq<int> {
    Seq::new(s.len(), |i: int| s[i] as int)
}

impl HandResult {
    /// What every settled hand satisfies: as many points after as before, and a next table
    /// of the same variant.
    pub open spec fn well_formed(&self) -> bool {
        &&& self.spec_points_after().len() == self.spec_points_before().len()
        &&& self.spec_next_progress().spec_variant() == self.spec_progress().spec_variant()
    }

    pub closed spec fn spec_reason(&self) -> EndReason {
        self.reason
    }

    pub closed spec fn spec_progress(&self) -> TableProgress {
        self.progress
    }

    pub closed spec fn spec_points_before(&self) -> Seq<i32> {
        self.points_before@
    }

    pub closed spec fn spec_point_deltas(&self) -> Seq<i32> {
        self.point_deltas@
    }

    pub closed spec fn spec_points_after(&self) -> Seq<i32> {
        self.points_after@
    }

    pub closed spec fn spec_winners(&self) -> Seq<ScoredWinner> {
        self.winners@
    }

    pub closed spec fn spec_from(&self) -> Option<Seat> {
        self.from
    }

    pub closed spec fn spec_tenpai(&self) -> Seq<Seat> {
        self.tenpai@
    }

    pub closed spec fn spec_nagashi_winners(&self) -> Seq<Seat> {
        self.nagashi_winners@
    }

    pub closed spec fn spec_awarded_riichi_sticks(&self) -> u32 {
        self.awarded_riichi_sticks
    }

    pub closed spec fn spec_dealer_continues(&self) -> bool {
        self.dealer_continues
    }

    pub closed spec fn spec_next_progress(&self) -> TableProgress {
        self.next_progress
    }

    #[must_use]
    pub fn reason(&self) -> (r: EndReason)
        ensures
            r == self.spec_reason(),
    {
        self.reason
    }

    #[must_use]
    pub fn progress(&self) -> (r: TableProgress)
        ensures
            r == self.spec_progress(),
    {
        self.progress
    }

    #[must_use]
    pub fn points_before(&self) -> (r: &[i32])
        ensures
            r@ == self.spec_points_before(),
    {
        self.points_before.as_slice()
    }

    #[must_use]
    pub fn point_deltas(&self) -> (r: &[i32])
        ensures
            r@ == self.spec_point_deltas(),
    {
        self.point_deltas.as_slice()
    }

    #[must_use]
    pub fn points_after(&self) -> (r: &[i32])
        ensures
            r@ == self.spec_points_after(),
    {
        self.points_after.as_slice()
    }

    #[must_use]
    pub fn winners(&self) -> (r: &[ScoredWinner])
        ensures
            r@ == self.spec_winners(),
    {
        self.winners.as_slice()
    }

    #[must_use]
    pub fn from(&self) -> (r: Option<Seat>)
        ensures
            r == self.spec_from(),
    {
        self.from
    }

    #[must_use]
    pub fn tenpai(&self) -> (r: &[Seat])
        ensures
            r@ == self.spec_tenpai(),
    {
        self.tenpai.as_slice()
    }

    #[must_use]
    pub fn nagashi_winners(&self) -> (r: &[Seat])
        ensures
            r@ == self.spec_nagashi_winners(),
    {
        self.nagashi_winners.as_slice()
    }

    #[must_use]
    pub fn awarded_riichi_sticks(&self) -> (r: u32)
        ensures
            r == self.spec_awarded_riichi_sticks(),
    {
        self.awarded_riichi_sticks
    }

    #[must_use]
    pub fn dealer_continues(&self) -> (r: bool)
        ensures
            r == self.spec_dealer_continues(),
    {
        self.dealer_continues
    }

    #[must_use]
    pub fn next_progress(&self) -> (r: TableProgress)
        ensures
            r == self.spec_next_progress(),
    {
        self.next_progress
    }
}

fn seat_at(variant: RiichiVariant, index: u8) -> (r: Seat)
    requires
        index < seat_count_of(variant),
    ensures
        r@ == index,
{
    match Seat::new(variant, index) {
        Ok(seat) => seat,
        Err(_) => vstd::pervasive::unreached(),
    }
}

fn seat_is_valid(variant: RiichiVariant, seat: Seat) -> (r: bool)
    ensures
        r == seat_ok(variant, seat),
{
    seat.index() < variant.seat_count().value()
}

fn distinct_seats_exec(variant: RiichiVariant, seats: &Vec<Seat>) -> (r: bool)
    ensures
        r == distinct_seats(variant, seats@),
{
    let mut i: usize = 0;
    while i < seats.len()
        invariant
            i <= seats@.len(),
            forall|a: int| 0 <= a < i ==> seat_ok(variant, #[trigger] seats@[a]),
            forall|a: int, b: int| 0 <= a < b < i ==> #[trigger] seats@[a] != #[trigger] seats@[b],
        decreases seats@.len() - i,
    {
        if !seat_is_valid(variant, seats[i]) {
            return false;
        }
        let mut j: usize = 0;
        while j < i
            invariant
                j <= i,
                i < seats@.len(),
                forall|a: int| 0 <= a < j ==> #[trigger] seats@[a] != seats@[i as int],
            decreases i - j,
        {
            if seats[j].index() == seats[i].index() {
                assert(seats@[j as int] == seats@[i as int]);
                return false;
            }
            j = j + 1;
        }
        i = i + 1;
    }
    true
}

fn validate_outcome(rules: &RiichiRules, outcome: &HandOutcome) -> (r: Result<(), SettlementError>)
    ensures
        r is Ok <==> outcome_problem(*rules, *outcome) is None,
        r matches Err(e) ==> outcome_problem(*rules, *outcome) == Some(e),
{
    let variant = rules.variant;
    match outcome {
        HandOutcome::Tsumo { winner } => {
            if !seat_is_valid(variant, winner.seat) {
                return Err(SettlementError::InvalidSeat);
            }
            if !matches!(winner.evaluation.payment(), Payment::Tsumo { .. }) {
                return Err(SettlementError::PaymentKindMismatch);
            }
            Ok(())
        },
        HandOutcome::Ron { from, winners } => {
            if !seat_is_valid(variant, *from) || winners.len() == 0 {
                return Err(SettlementError::InvalidWinnerSet);
            }
            let mut k: usize = 0;
            while k < winners.len()
                invariant
                    k <= winners@.len(),
                    variant == rules.variant,
                    *outcome == (HandOutcome::Ron { from: *from, winners: *winners }),
                    seat_ok(variant, *from),
                    winners@.len() > 0,
                    ron_problem(variant, *from, winners@, k as int) is None,
                decreases winners@.len() - k,
            {
                let seat = winners[k].seat;
                let mut repeated = false;
                let mut j: usize = 0;
                while j < k
                    invariant
                        j <= k,
                        k < winners@.len(),
                        repeated == (exists|x: int| 0 <= x < j && #[trigger] winners@[x].spec_seat() == seat),
                    decreases k - j,
                {
                    if winners[j].seat.index() == seat.index() {
                        assert(winners@[j as int].spec_seat() == seat);
                        repeated = true;
                    }
                    j = j + 1;
                }
                assert(seat == winners@[k as int].spec_seat());
                if !seat_is_valid(variant, seat) || seat.index() == from.index() || repeated {
                    proof {
                        lemma_ron_problem_stable(variant, *from, winners@, k + 1, winners@.len() as int);
                    }
                    return Err(SettlementError::InvalidWinnerSet);
                }
                assert(seat != *from);
                if !matches!(winners[k].evaluation.payment(), Payment::Ron { .. }) {
                    proof {
                        lemma_ron_problem_stable(variant, *from, winners@, k + 1, winners@.len() as int);
                    }
                    return Err(SettlementError::PaymentKindMismatch);
                }
                k = k + 1;
            }
            Ok(())
        },
        HandOutcome::ExhaustiveDraw { tenpai, nagashi_winners } => {
            if !distinct_seats_exec(variant, tenpai) || !distinct_seats_exec(variant, nagashi_winners) {
                return Err(SettlementError::InvalidWinnerSet);
            }
            if nagashi_winners.len() > 0 && tenpai.len() > 0 {
                return Err(SettlementError::IncompatibleDrawResults);
            }
            if nagashi_winners.len() > 0 && !rules.scoring.nagashi_mangan {
                return Err(SettlementError::NagashiManganDisabled);
            }
            Ok(())
        },
        HandOutcome::AbortiveDraw { reason } => {
            match reason {
                EndReason::NineTerminals | EndReason::FourWinds | EndReason::FourKans
                | EndReason::FourRiichi => Ok(()),
                _ => Err(SettlementError::InvalidAbortiveReason),
            }
        },
    }
}

/// Moves `amount` points from one seat to another, failing when a counter would overflow.
fn transfer(deltas: &mut Vec<i32>, from: usize, to: usize, amount: u64, Ghost(start): Ghost<Seq<int>>, Ghost(ts): Ghost<Seq<(int, int, int)>>) -> (r: Result<(), SettlementError>)
    requires
        from < old(deltas)@.len(),
        to < old(deltas)@.len(),
        as_ints(old(deltas)@) == apply_transfers(start, ts),
        transfers_fit(start, ts),
    ensures
        final(deltas)@.len() == old(deltas)@.len(),
        r is Ok <==> transfers_fit(start, ts.push((from as int, to as int, amount as int))),
        r is Ok ==> as_ints(final(deltas)@) == apply_transfers(start, ts.push((from as int, to as int, amount as int))),
        r matches Err(e) ==> e == SettlementError::PointOverflow,
{
    let ghost next = ts.push((from as int, to as int, amount as int));
    assert(next.drop_last() =~= ts);
    if amount > i32::MAX as u64 {
        return Err(SettlementError::PointOverflow);
    }
    let points = amount as i32;
    let from_value = deltas[from];
    let to_value = deltas[to];
    assert(from_value as int == apply_transfers(start, ts)[from as int]);
    if (from_value as i64) - (points as i64) < i32::MIN as i64 {
        return Err(SettlementError::PointOverflow);
    }
    if (to_value as i64) + (points as i64) > i32::MAX as i64 {
        return Err(SettlementError::PointOverflow);
    }
    deltas.set(from, from_value - points);
    deltas.set(to, to_value + points);
    proof {
        let d = apply_transfers(start, ts);
        assert(as_ints(deltas@) =~= d.update(from as int, d[from as int] - amount).update(to as int, d[to as int] + amount));
    }
    Ok(())
}

pub open spec fn as_transfers(ts: Seq<(usize, usize, u64)>) -> Seq<(int, int, int)> {
    ts.map_values(|t: (usize, usize, u64)| (t.0 as int, t.1 as int, t.2 as int))
}

/// A payment sequence that fits fits in every prefix.
proof fn lemma_fit_prefix(start: Seq<int>, ts: Seq<(int, int, int)>, k: int)
    requires
        transfers_fit(start, ts),
        0 <= k <= ts.len(),
    ensures
        transfers_fit(start, ts.take(k)),
    decreases ts.len(),
{
    if k < ts.len() {
        lemma_fit_prefix(start, ts.drop_last(), k);
        assert(ts.drop_last().take(k) =~= ts.take(k));
    } else {
        assert(ts.take(k) =~= ts);
    }
}

/// Makes the payments in order; fails, with nothing promised of the counters, as soon as one
/// would overflow.
fn apply_all(
    deltas: &mut Vec<i32>,
    ts: &Vec<(usize, usize, u64)>,
    Ghost(start): Ghost<Seq<int>>,
) -> (r: Result<(), SettlementError>)
    requires
        as_ints(old(deltas)@) == start,
        forall|i: int| 0 <= i < ts@.len() ==> (#[trigger] ts@[i]).0 < old(deltas)@.len() && ts@[i].1 < old(deltas)@.len(),
    ensures
        final(deltas)@.len() == old(deltas)@.len(),
        r is Ok <==> transfers_fit(start, as_transfers(ts@)),
        r is Ok ==> as_ints(final(deltas)@) == apply_transfers(start, as_transfers(ts@)),
        r matches Err(e) ==> e == SettlementError::PointOverflow,
{
    let ghost all = as_transfers(ts@);
    let mut i: usize = 0;
    while i < ts.len()
        invariant
            i <= ts@.len(),
            all == as_transfers(ts@),
            deltas@.len() == old(deltas)@.len(),
            forall|j: int| 0 <= j < ts@.len() ==> (#[trigger] ts@[j]).0 < deltas@.len() && ts@[j].1 < deltas@.len(),
            as_ints(deltas@) == apply_transfers(start, all.take(i as int)),
            transfers_fit(start, all.take(i as int)),
        decreases ts@.len() - i,
    {
        let (from, to, amount) = ts[i];
        assert(all.take(i + 1) =~= all.take(i as int).push((from as int, to as int, amount as int)));
        match transfer(deltas, from, to, amount, Ghost(start), Ghost(all.take(i as int))) {
            Ok(()) => {},
            Err(e) => {
                proof {
                    if transfers_fit(start, all) {
                        lemma_fit_prefix(start, all, i + 1);
                    }
                }
                return Err(e);
            },
        }
        i = i + 1;
    }
    assert(all.take(i as int) =~= all);
    Ok(())
}

fn tsumo_list(progress: TableProgress, winner: Seat, payment: Payment, n: u8) -> (r: Vec<(usize, usize, u64)>)
    requires
        n == seat_count(progress.spec_variant()),
        seat_ok(progress.spec_variant(), winner),
    ensures
        as_transfers(r@) == tsumo_transfers(progress, winner, payment, n as int),
        forall|i: int| 0 <= i < r@.len() ==> (#[trigger] r@[i]).0 < n && r@[i].1 < n,
{
    let (dealer_payment, other_payment): (u32, u32) = match payment {
        Payment::Tsumo { dealer_payment, other_payment } => (dealer_payment, other_payment),
        Payment::Ron { .. } => (0, 0),
    };
    let honba = progress.honba().value() as u64 * 100;
    let dealer = progress.dealer().index();
    let target = winner.index();
    let mut list: Vec<(usize, usize, u64)> = Vec::new();
    let mut index: u8 = 0;
    while index < n
        invariant
            index <= n,
            n == seat_count(progress.spec_variant()),
            target == winner@,
            target < n,
            dealer == progress.spec_dealer()@,
            honba == progress.spec_honba()@ * 100,
            payment is Tsumo ==> payment == (Payment::Tsumo { dealer_payment, other_payment }),
            payment is Ron ==> dealer_payment == 0 && other_payment == 0,
            as_transfers(list@) == tsumo_transfers(progress, winner, payment, index as int),
            forall|i: int| 0 <= i < list@.len() ==> (#[trigger] list@[i]).0 < n && list@[i].1 < n,
        decreases n - index,
    {
        if index != target {
            let share = if index == dealer {
                dealer_payment
            } else {
                other_payment
            };
            list.push((index as usize, target as usize, share as u64 + honba));
        }
        index = index + 1;
        assert(as_transfers(list@) =~= tsumo_transfers(progress, winner, payment, index as int));
    }
    list
}

fn ron_list(progress: TableProgress, from: Seat, winners: &Vec<ScoredWinner>) -> (r: Vec<(usize, usize, u64)>)
    ensures
        as_transfers(r@) == ron_transfers(progress, from, winners@, winners@.len() as int),
        forall|i: int| 0 <= i < r@.len() ==> (#[trigger] r@[i]).0 == from@ && exists|j: int| 0 <= j < winners@.len() && r@[i].1 == winners@[j].spec_seat()@,
{
    let honba = progress.honba().value() as u64 * 300;
    let mut list: Vec<(usize, usize, u64)> = Vec::new();
    let mut k: usize = 0;
    while k < winners.len()
        invariant
            k <= winners@.len(),
            honba == progress.spec_honba()@ * 300,
            list@.len() == k,
            as_transfers(list@) == ron_transfers(progress, from, winners@, k as int),
            forall|i: int| 0 <= i < list@.len() ==> (#[trigger] list@[i]).0 == from@ && exists|j: int| 0 <= j < winners@.len() && list@[i].1 == winners@[j].spec_seat()@,
        decreases winners@.len() - k,
    {
        let points: u32 = match winners[k].evaluation.payment() {
            Payment::Ron { points } => points,
            Payment::Tsumo { .. } => 0,
        };
        list.push((from.index() as usize, winners[k].seat.index() as usize, points as u64 + honba));
        proof {
            assert(list@[k as int].1 == winners@[k as int].spec_seat()@);
        }
        k = k + 1;
        assert(as_transfers(list@) =~= ron_transfers(progress, from, winners@, k as int));
    }
    list
}

fn nagashi_list(progress: TableProgress, winners: &Vec<Seat>, n: u8) -> (r: Vec<(usize, usize, u64)>)
    requires
        n == seat_count(progress.spec_variant()),
        forall|i: int| 0 <= i < winners@.len() ==> seat_ok(progress.spec_variant(), #[trigger] winners@[i]),
    ensures
        as_transfers(r@) == nagashi_transfers(progress, winners@, n as int, winners@.len() as int),
        forall|i: int| 0 <= i < r@.len() ==> (#[trigger] r@[i]).0 < n && r@[i].1 < n,
{
    let honba = progress.honba().value() as u64 * 100;
    let dealer = progress.dealer().index();
    let mut list: Vec<(usize, usize, u64)> = Vec::new();
    let mut k: usize = 0;
    while k < winners.len()
        invariant
            k <= winners@.len(),
            n == seat_count(progress.spec_variant()),
            forall|i: int| 0 <= i < winners@.len() ==> seat_ok(progress.spec_variant(), #[trigger] winners@[i]),
            honba == progress.spec_honba()@ * 100,
            dealer == progress.spec_dealer()@,
            as_transfers(list@) == nagashi_transfers(progress, winners@, n as int, k as int),
            forall|i: int| 0 <= i < list@.len() ==> (#[trigger] list@[i]).0 < n && list@[i].1 < n,
        decreases winners@.len() - k,
    {
        let winner = winners[k];
        let target = winner.index();
        let ghost head = as_transfers(list@);
        assert(seat_ok(progress.spec_variant(), winners@[k as int]));
        proof {
            crate::riichi::progress::Seat::lemma_view_injective(winner, progress.spec_dealer());
        }
        let winner_is_dealer = target == dealer;
        assert(winner_is_dealer == (winner == progress.spec_dealer()));
        let mut index: u8 = 0;
        while index < n
            invariant
                index <= n,
                n == seat_count(progress.spec_variant()),
                target == winner@,
                target < n,
                dealer == progress.spec_dealer()@,
                winner_is_dealer == (winner == progress.spec_dealer()),
                honba == progress.spec_honba()@ * 100,
                as_transfers(list@) == head + nagashi_payers(progress, winner, index as int),
                forall|i: int| 0 <= i < list@.len() ==> (#[trigger] list@[i]).0 < n && list@[i].1 < n,
            decreases n - index,
        {
            let ghost before = list@;
            let ghost payers = nagashi_payers(progress, winner, index as int);
            if index != target {
                let base: u64 = if winner_is_dealer || index == dealer {
                    4000
                } else {
                    2000
                };
                list.push((index as usize, target as usize, base + honba));
                proof {
                    let t = (index as int, target as int, base + honba);
                    assert(as_transfers(list@) =~= as_transfers(before).push(t));
                    assert(nagashi_payers(progress, winner, index + 1) == payers.push(t));
                    assert(head + payers.push(t) =~= (head + payers).push(t));
                }
            } else {
                assert(nagashi_payers(progress, winner, index + 1) == payers);
            }
            index = index + 1;
        }
        k = k + 1;
    }
    list
}

fn apply_noten(rules: &RiichiRules, deltas: &mut Vec<i32>, tenpai: &Vec<Seat>) -> (r: Result<(), SettlementError>)
    requires
        old(deltas)@.len() == seat_count(rules.variant),
        as_ints(old(deltas)@) == zeros(seat_count(rules.variant)),
        distinct_seats(rules.variant, tenpai@),
    ensures
        final(deltas)@.len() == old(deltas)@.len(),
        !noten_applies(*rules, tenpai@) ==> r is Ok && final(deltas)@ == old(deltas)@,
        noten_applies(*rules, tenpai@) && !noten_divisible(*rules, tenpai@) ==> r == Err::<(), SettlementError>(SettlementError::IndivisibleNotenPayment),
        noten_applies(*rules, tenpai@) && noten_divisible(*rules, tenpai@) ==> (r is Ok <==> (
            rules.settlement.noten_payment as int / (tenpai@.len() as int) <= i32::MAX
                && rules.settlement.noten_payment as int / (seat_count(rules.variant) - tenpai@.len()) <= i32::MAX)),
        noten_applies(*rules, tenpai@) && r is Ok ==> as_ints(final(deltas)@) == noten_deltas(*rules, tenpai@),
        r matches Err(e) ==> e == SettlementError::IndivisibleNotenPayment || e == SettlementError::PointOverflow,
        !(noten_applies(*rules, tenpai@) && !noten_divisible(*rules, tenpai@)) ==> (r matches Err(e) ==> e == SettlementError::PointOverflow),
{
    let n = deltas.len();
    if tenpai.len() == 0 || tenpai.len() == n || rules.settlement.noten_payment == 0 {
        return Ok(());
    }
    proof {
        assert(tenpai@.len() <= n) by {
            lemma_distinct_len(rules.variant, tenpai@);
        }
    }
    let total = rules.settlement.noten_payment;
    let tenpai_count = tenpai.len() as u32;
    let noten_count = (n - tenpai.len()) as u32;
    if total % tenpai_count != 0 || total % noten_count != 0 {
        return Err(SettlementError::IndivisibleNotenPayment);
    }
    let gain = total / tenpai_count;
    let loss = total / noten_count;
    if gain > i32::MAX as u32 || loss > i32::MAX as u32 {
        return Err(SettlementError::PointOverflow);
    }
    let mut index: usize = 0;
    while index < n
        invariant
            index <= n,
            n == deltas@.len(),
            n == seat_count(rules.variant),
            n < 256,
            gain == total / tenpai_count,
            loss == total / noten_count,
            gain <= i32::MAX,
            loss <= i32::MAX,
            total == rules.settlement.noten_payment,
            tenpai_count == tenpai@.len(),
            noten_count == n - tenpai@.len(),
            forall|i: int| 0 <= i < index ==> (#[trigger] deltas@[i]) as int == noten_deltas(*rules, tenpai@)[i],
        decreases n - index,
    {
        let mut listed = false;
        let mut j: usize = 0;
        while j < tenpai.len()
            invariant
                j <= tenpai@.len(),
                index < 256,
                listed == (exists|x: int| 0 <= x < j && #[trigger] tenpai@[x]@ == index),
            decreases tenpai@.len() - j,
        {
            if tenpai[j].index() as usize == index {
                listed = true;
            }
            j = j + 1;
        }
        if listed {
            deltas.set(index, gain as i32);
        } else {
            deltas.set(index, -(loss as i32));
        }
        index = index + 1;
    }
    assert(as_ints(deltas@) =~= noten_deltas(*rules, tenpai@));
    Ok(())
}

/// Distinct seats at a table are no more than its seats.
proof fn lemma_distinct_len(variant: RiichiVariant, seats: Seq<Seat>)
    requires
        distinct_seats(variant, seats),
    ensures
        seats.len() <= seat_count(variant),
{
    let n = seat_count(variant);
    let views = seats.map_values(|s: Seat| s@ as int);
    assert forall|i: int, j: int| 0 <= i < j < views.len() implies views[i] != views[j] by {
        assert(seats[i] != seats[j]);
    }
    let set = views.to_set();
    assert(views.no_duplicates());
    views.unique_seq_to_set();
    assert forall|x: int| set.contains(x) implies vstd::set_lib::set_int_range(0, n).contains(x) by {
        let i = choose|i: int| 0 <= i < views.len() && views[i] == x;
        assert(seat_ok(variant, seats[i]));
    }
    vstd::set_lib::lemma_int_range(0, n);
    vstd::set_lib::lemma_len_subset(set, vstd::set_lib::set_int_range(0, n));
}

fn award_sticks(deltas: &mut Vec<i32>, progress: TableProgress, recipient: Seat) -> (r: Result<u32, SettlementError>)
    requires
        recipient@ < old(deltas)@.len(),
    ensures
        final(deltas)@.len() == old(deltas)@.len(),
        progress.spec_riichi_sticks()@ == 0 ==> r == Ok::<u32, SettlementError>(0) && final(deltas)@ == old(deltas)@,
        progress.spec_riichi_sticks()@ > 0 ==> (r is Ok <==> (progress.spec_riichi_sticks()@ * 1000 <= i32::MAX
            && old(deltas)@[recipient@ as int] + progress.spec_riichi_sticks()@ * 1000 <= i32::MAX)),
        progress.spec_riichi_sticks()@ > 0 && r is Ok ==> as_ints(final(deltas)@) == as_ints(old(deltas)@).update(
            recipient@ as int,
            old(deltas)@[recipient@ as int] + progress.spec_riichi_sticks()@ * 1000,
        ),
        r matches Ok(v) ==> v == progress.spec_riichi_sticks()@,
        r matches Err(e) ==> e == SettlementError::PointOverflow,
{
    let sticks = progress.riichi_sticks().value();
    if sticks == 0 {
        return Ok(0);
    }
    let amount = sticks as u64 * 1000;
    if amount > i32::MAX as u64 {
        return Err(SettlementError::PointOverflow);
    }
    let index = recipient.index() as usize;
    let current = deltas[index];
    if current as i64 + amount as i64 > i32::MAX as i64 {
        return Err(SettlementError::PointOverflow);
    }
    let ghost before = deltas@;
    deltas.set(index, current + amount as i32);
    assert(as_ints(deltas@) =~= as_ints(before).update(index as int, before[index as int] + amount));
    Ok(sticks)
}

pub open spec fn next_dealer_index(progress: TableProgress, stays: bool) -> int {
    let n = seat_count(progress.spec_variant());
    if stays {
        progress.spec_dealer()@ as int
    } else {
        (progress.spec_dealer()@ + 1) % n
    }
}

pub open spec fn next_round_number(progress: TableProgress, stays: bool) -> int {
    let n = seat_count(progress.spec_variant());
    if stays {
        progress.spec_round_number()@ as int
    } else if progress.spec_round_number()@ < n {
        progress.spec_round_number()@ + 1
    } else {
        1
    }
}

pub open spec fn next_round_wind(progress: TableProgress, stays: bool) -> Wind {
    let n = seat_count(progress.spec_variant());
    if stays || progress.spec_round_number()@ < n {
        progress.spec_round_wind()
    } else {
        spec_next_wind(progress.spec_round_wind())
    }
}

pub open spec fn next_honba(progress: TableProgress, stays: bool, win: bool) -> int {
    if !stays && win {
        0
    } else {
        progress.spec_honba()@ + 1
    }
}

/// The table after the hand: the same dealer with one more honba, or the next dealer, the
/// next round (and wind after the last round), honba reset after a win.
fn next_progress(progress: TableProgress, stays: bool, win: bool, sticks: RiichiSticks) -> (r: Result<TableProgress, SettlementError>)
    ensures
        r is Err <==> honba_overflows(progress, stays, win),
        r matches Err(e) ==> (e matches SettlementError::Progress(ProgressError::CounterOverflow { counter }) && counter@ == "honba"@),
        r matches Ok(next) ==> {
            &&& next.spec_variant() == progress.spec_variant()
            &&& next.spec_round_wind() == next_round_wind(progress, stays)
            &&& next.spec_round_number()@ == next_round_number(progress, stays)
            &&& next.spec_dealer()@ == next_dealer_index(progress, stays)
            &&& next.spec_honba()@ == next_honba(progress, stays, win)
            &&& next.spec_riichi_sticks() == sticks
        },
{
    progress.lemma_wf();
    let variant = progress.variant();
    let n = variant.seat_count().value();
    if stays {
        let honba = match progress.honba().checked_increment() {
            Ok(honba) => honba,
            Err(e) => {
                return Err(SettlementError::Progress(e));
            },
        };
        return match TableProgress::new(variant, progress.round_wind(), progress.round_number(), progress.dealer(), honba, sticks) {
            Ok(next) => Ok(next),
            Err(_) => vstd::pervasive::unreached(),
        };
    }
    let dealer = seat_at(variant, (progress.dealer().index() + 1) % n);
    let number = progress.round_number().value();
    let (round_wind, round_number) = if number < n {
        let round = match RoundNumber::new(variant, number + 1) {
            Ok(round) => round,
            Err(_) => vstd::pervasive::unreached(),
        };
        (progress.round_wind(), round)
    } else {
        let round = match RoundNumber::new(variant, 1) {
            Ok(round) => round,
            Err(_) => vstd::pervasive::unreached(),
        };
        (progress.round_wind().next(), round)
    };
    let honba = if win {
        Honba::zero()
    } else {
        match progress.honba().checked_increment() {
            Ok(honba) => honba,
            Err(e) => {
                return Err(SettlementError::Progress(e));
            },
        }
    };
    match TableProgress::new(variant, round_wind, round_number, dealer, honba, sticks) {
        Ok(next) => Ok(next),
        Err(_) => vstd::pervasive::unreached(),
    }
}

/// Points after the hand fit the 32-bit counters.
pub open spec fn points_after_fit(points: Seq<i32>, deltas: Seq<int>) -> bool {
    forall|i: int| 0 <= i < points.len() ==> i32::MIN <= #[trigger] points[i] + deltas[i] <= i32::MAX
}

pub open spec fn outcome_winners(outcome: HandOutcome) -> Seq<ScoredWinner> {
    match outcome {
        HandOutcome::Tsumo { winner } => seq![winner],
        HandOutcome::Ron { winners, .. } => winners@,
        _ => Seq::empty(),
    }
}

pub open spec fn outcome_from(outcome: HandOutcome) -> Option<Seat> {
    match outcome {
        HandOutcome::Ron { from, .. } => Some(from),
        _ => None,
    }
}

pub open spec fn outcome_nagashi(outcome: HandOutcome) -> Seq<Seat> {
    match outcome {
        HandOutcome::ExhaustiveDraw { nagashi_winners, .. } => nagashi_winners@,
        _ => Seq::empty(),
    }
}

pub open spec fn is_win(outcome: HandOutcome) -> bool {
    outcome is Tsumo || outcome is Ron
}

/// The noten payment of a draw cannot be split evenly.
pub open spec fn noten_split_fails(rules: RiichiRules, outcome: HandOutcome) -> bool {
    is_noten_draw(outcome) && noten_applies(rules, draw_tenpai(outcome)) && !noten_divisible(rules, draw_tenpai(outcome))
}

/// Everything before the next table is fine.
pub open spec fn points_settle(rules: RiichiRules, progress: TableProgress, points: Seq<i32>, outcome: HandOutcome) -> bool {
    &&& rules.variant == progress.spec_variant()
    &&& points.len() == seat_count(rules.variant)
    &&& outcome_problem(rules, outcome) is None
    &&& !noten_split_fails(rules, outcome)
    &&& deltas_fit(rules, progress, outcome)
    &&& points_after_fit(points, hand_deltas(rules, progress, outcome))
}

impl HandSettlement {
    /// Settles a hand: holds the outcome against the rules, moves the points, awards the
    /// riichi sticks and computes the next table.
    #[verifier::rlimit(80)]
    pub fn settle(
        self,
        rules: &RiichiRules,
        progress: TableProgress,
        points: Vec<i32>,
        outcome: HandOutcome,
    ) -> (r: Result<HandResult, SettlementError>)
        ensures
            rules.variant != progress.spec_variant() ==> r == Err::<HandResult, SettlementError>(SettlementError::VariantMismatch),
            rules.variant == progress.spec_variant() && points@.len() != seat_count(rules.variant) ==> r
                == Err::<HandResult, SettlementError>(
                SettlementError::PointCount { expected: seat_count(rules.variant) as usize, actual: points@.len() as usize },
            ),
            rules.variant == progress.spec_variant() && points@.len() == seat_count(rules.variant)
                && outcome_problem(*rules, outcome) is Some ==> r == Err::<HandResult, SettlementError>(
                outcome_problem(*rules, outcome)->0,
            ),
            rules.variant == progress.spec_variant() && points@.len() == seat_count(rules.variant)
                && outcome_problem(*rules, outcome) is None && noten_split_fails(*rules, outcome) ==> r
                == Err::<HandResult, SettlementError>(SettlementError::IndivisibleNotenPayment),
            rules.variant == progress.spec_variant() && points@.len() == seat_count(rules.variant)
                && outcome_problem(*rules, outcome) is None && !noten_split_fails(*rules, outcome) && !(
            deltas_fit(*rules, progress, outcome) && points_after_fit(points@, hand_deltas(*rules, progress, outcome)))
                ==> r == Err::<HandResult, SettlementError>(SettlementError::PointOverflow),
            points_settle(*rules, progress, points@, outcome) ==> (r is Err <==> honba_overflows(
                progress,
                dealer_stays(*rules, progress, outcome),
                is_win(outcome),
            )),
            r matches Err(e) ==> (e is Progress ==> (e matches SettlementError::Progress(ProgressError::CounterOverflow { counter }) && counter@ == "honba"@)),
            r matches Ok(res) ==> res.well_formed(),
            r matches Ok(res) ==> {
                let deltas = hand_deltas(*rules, progress, outcome);
                let stays = dealer_stays(*rules, progress, outcome);
                let next = res.spec_next_progress();
                &&& points_settle(*rules, progress, points@, outcome)
                &&& res.spec_reason() == hand_reason(outcome)
                &&& res.spec_progress() == progress
                &&& res.spec_points_before() == points@
                &&& as_ints(res.spec_point_deltas()) == deltas
                &&& res.spec_points_after().len() == points@.len()
                &&& res.spec_point_deltas().len() == points@.len()
                &&& forall|i: int| 0 <= i < points@.len() ==> #[trigger] res.spec_points_after()[i] == points@[i] + deltas[i]
                &&& forall|i: int|
                    0 <= i < points@.len() ==> #[trigger] res.spec_points_after()[i] == points@[i] + res.spec_point_deltas()[i]
                &&& res.spec_winners() == outcome_winners(outcome)
                &&& res.spec_from() == outcome_from(outcome)
                &&& res.spec_tenpai() == draw_tenpai(outcome)
                &&& res.spec_nagashi_winners() == outcome_nagashi(outcome)
                &&& res.spec_awarded_riichi_sticks() == awarded_sticks(progress, outcome)
                &&& res.spec_dealer_continues() == stays
                &&& next.spec_variant() == progress.spec_variant()
                &&& next.spec_round_wind() == next_round_wind(progress, stays)
                &&& next.spec_round_number()@ == next_round_number(progress, stays)
                &&& next.spec_dealer()@ == next_dealer_index(progress, stays)
                &&& next.spec_honba()@ == next_honba(progress, stays, is_win(outcome))
                &&& next.spec_riichi_sticks()@ == (if awarded_sticks(progress, outcome) > 0 {
                    0
                } else {
                    progress.spec_riichi_sticks()@ as int
                })
            },
    {
        if rules.variant != progress.variant() {
            return Err(SettlementError::VariantMismatch);
        }
        let n = rules.variant.seat_count().value();
        if points.len() != n as usize {
            return Err(SettlementError::PointCount { expected: n as usize, actual: points.len() });
        }
        match validate_outcome(rules, &outcome) {
            Ok(()) => {},
            Err(e) => {
                proof {
                    lemma_problem_kind(*rules, outcome);
                }
                return Err(e);
            },
        }
        let mut deltas: Vec<i32> = Vec::new();
        let mut z: u8 = 0;
        while z < n
            invariant
                z <= n,
                deltas@.len() == z,
                forall|i: int| 0 <= i < z ==> #[trigger] deltas@[i] == 0,
            decreases n - z,
        {
            deltas.push(0);
            z = z + 1;
        }
        assert(as_ints(deltas@) =~= zeros(n as int));
        let dealer = progress.dealer();
        let resolved = self.resolve(rules, progress, &mut deltas, &outcome);
        let (awarded, stays) = match resolved {
            Ok(pair) => pair,
            Err(e) => {
                return Err(e);
            },
        };
        let mut points_after: Vec<i32> = Vec::new();
        let mut i: usize = 0;
        while i < points.len()
            invariant
                rules.variant == progress.spec_variant(),
                points@.len() == seat_count(rules.variant),
                outcome_problem(*rules, outcome) is None,
                !noten_split_fails(*rules, outcome),
                deltas_fit(*rules, progress, outcome),
                as_ints(deltas@) == hand_deltas(*rules, progress, outcome),
                i <= points@.len(),
                points@.len() == deltas@.len(),
                points_after@.len() == i,
                forall|j: int| 0 <= j < i ==> #[trigger] points_after@[j] == points@[j] + deltas@[j],
                forall|j: int| 0 <= j < i ==> i32::MIN <= #[trigger] points@[j] + deltas@[j] <= i32::MAX,
            decreases points@.len() - i,
        {
            let sum = points[i] as i64 + deltas[i] as i64;
            if sum < i32::MIN as i64 || sum > i32::MAX as i64 {
                proof {
                    assert(as_ints(deltas@)[i as int] == deltas@[i as int]);
                    assert(!points_after_fit(points@, hand_deltas(*rules, progress, outcome)));
                }
                return Err(SettlementError::PointOverflow);
            }
            points_after.push(sum as i32);
            i = i + 1;
        }
        let sticks = if awarded > 0 {
            RiichiSticks::zero()
        } else {
            progress.riichi_sticks()
        };
        let win = matches!(outcome, HandOutcome::Tsumo { .. }) || matches!(outcome, HandOutcome::Ron { .. });
        let next = match next_progress(progress, stays, win, sticks) {
            Ok(next) => next,
            Err(e) => {
                return Err(e);
            },
        };
        let reason = match &outcome {
            HandOutcome::Tsumo { .. } => EndReason::Tsumo,
            HandOutcome::Ron { .. } => EndReason::Ron,
            HandOutcome::ExhaustiveDraw { .. } => EndReason::ExhaustiveDraw,
            HandOutcome::AbortiveDraw { reason } => *reason,
        };
        let (winners, from, tenpai, nagashi_winners) = match outcome {
            HandOutcome::Tsumo { winner } => (vec![winner], None, Vec::new(), Vec::new()),
            HandOutcome::Ron { from, winners } => (winners, Some(from), Vec::new(), Vec::new()),
            HandOutcome::ExhaustiveDraw { tenpai, nagashi_winners } => (Vec::new(), None, tenpai, nagashi_winners),
            HandOutcome::AbortiveDraw { .. } => (Vec::new(), None, Vec::new(), Vec::new()),
        };
        assert(winners@ =~= outcome_winners(outcome));
        assert(tenpai@ =~= draw_tenpai(outcome));
        assert(nagashi_winners@ =~= outcome_nagashi(outcome));
        Ok(
            HandResult {
                reason,
                progress,
                points_before: points,
                point_deltas: deltas,
                points_after,
                winners,
                from,
                tenpai,
                nagashi_winners,
                awarded_riichi_sticks: awarded,
                dealer_continues: stays,
                next_progress: next,
            },
        )
    }

    /// Moves the points of a valid outcome and awards the riichi sticks; gives the sticks
    /// awarded and whether the dealer stays.
    fn resolve(
        self,
        rules: &RiichiRules,
        progress: TableProgress,
        deltas: &mut Vec<i32>,
        outcome: &HandOutcome,
    ) -> (r: Result<(u32, bool), SettlementError>)
        requires
            rules.variant == progress.spec_variant(),
            old(deltas)@.len() == seat_count(rules.variant),
            as_ints(old(deltas)@) == zeros(seat_count(rules.variant)),
            outcome_problem(*rules, *outcome) is None,
        ensures
            final(deltas)@.len() == old(deltas)@.len(),
            noten_split_fails(*rules, *outcome) ==> r == Err::<(u32, bool), SettlementError>(SettlementError::IndivisibleNotenPayment),
            !noten_split_fails(*rules, *outcome) ==> (r is Ok <==> deltas_fit(*rules, progress, *outcome)),
            !noten_split_fails(*rules, *outcome) && r is Err ==> r == Err::<(u32, bool), SettlementError>(SettlementError::PointOverflow),
            r matches Ok(pair) ==> as_ints(final(deltas)@) == hand_deltas(*rules, progress, *outcome)
                && pair.0 == awarded_sticks(progress, *outcome) && pair.1 == dealer_stays(*rules, progress, *outcome),
    {
        let n = rules.variant.seat_count().value();
        let dealer = progress.dealer();
        let ghost z = zeros(n as int);
        match outcome {
            HandOutcome::Tsumo { winner } => {
                let list = tsumo_list(progress, winner.seat, winner.evaluation.payment(), n);
                match apply_all(deltas, &list, Ghost(z)) {
                    Ok(()) => {},
                    Err(e) => {
                        return Err(e);
                    },
                }
                let awarded = match award_sticks(deltas, progress, winner.seat) {
                    Ok(v) => v,
                    Err(e) => {
                        return Err(e);
                    },
                };
                Ok((awarded, winner.seat.index() == dealer.index()))
            },
            HandOutcome::Ron { from, winners } => {
                let list = ron_list(progress, *from, winners);
                proof {
                    assert forall|i: int| 0 <= i < list@.len() implies (#[trigger] list@[i]).0 < deltas@.len() && list@[i].1 < deltas@.len() by {
                        let j = choose|j: int| 0 <= j < winners@.len() && list@[i].1 == winners@[j].spec_seat()@;
                        lemma_ron_winner_ok(rules.variant, *from, winners@, j);
                    }
                }
                match apply_all(deltas, &list, Ghost(z)) {
                    Ok(()) => {},
                    Err(e) => {
                        return Err(e);
                    },
                }
                proof {
                    lemma_ron_winner_ok(rules.variant, *from, winners@, 0);
                }
                let awarded = match award_sticks(deltas, progress, winners[0].seat) {
                    Ok(v) => v,
                    Err(e) => {
                        return Err(e);
                    },
                };
                let mut stays = false;
                let mut k: usize = 0;
                while k < winners.len()
                    invariant
                        k <= winners@.len(),
                        dealer == progress.spec_dealer(),
                        stays == (exists|i: int| 0 <= i < k && #[trigger] winners@[i].spec_seat() == dealer),
                    decreases winners@.len() - k,
                {
                    if winners[k].seat.index() == dealer.index() {
                        assert(winners@[k as int].spec_seat() == dealer);
                        stays = true;
                    }
                    k = k + 1;
                }
                Ok((awarded, stays))
            },
            HandOutcome::ExhaustiveDraw { tenpai, nagashi_winners } => {
                if nagashi_winners.len() == 0 {
                    match apply_noten(rules, deltas, tenpai) {
                        Ok(()) => {},
                        Err(e) => {
                            return Err(e);
                        },
                    }
                    let mut dealer_tenpai = false;
                    let mut k: usize = 0;
                    while k < tenpai.len()
                        invariant
                            k <= tenpai@.len(),
                            dealer == progress.spec_dealer(),
                            dealer_tenpai == (exists|i: int| 0 <= i < k && #[trigger] tenpai@[i] == dealer),
                        decreases tenpai@.len() - k,
                    {
                        if tenpai[k].index() == dealer.index() {
                            assert(tenpai@[k as int] == dealer);
                            dealer_tenpai = true;
                        }
                        k = k + 1;
                    }
                    let continues = matches!(rules.match_rules.dealer_continuation, DealerContinuation::WinOrTenpai)
                        && dealer_tenpai;
                    proof {
                        if dealer_tenpai {
                            assert(tenpai@.contains(dealer));
                        }
                        if tenpai@.contains(dealer) {
                            let i = choose|i: int| 0 <= i < tenpai@.len() && tenpai@[i] == dealer;
                        }
                    }
                    Ok((0, continues))
                } else {
                    let list = nagashi_list(progress, nagashi_winners, n);
                    match apply_all(deltas, &list, Ghost(z)) {
                        Ok(()) => {},
                        Err(e) => {
                            return Err(e);
                        },
                    }
                    let awarded = match award_sticks(deltas, progress, nagashi_winners[0]) {
                        Ok(v) => v,
                        Err(e) => {
                            return Err(e);
                        },
                    };
                    let mut stays = false;
                    let mut k: usize = 0;
                    while k < nagashi_winners.len()
                        invariant
                            k <= nagashi_winners@.len(),
                            dealer == progress.spec_dealer(),
                            stays == (exists|i: int| 0 <= i < k && #[trigger] nagashi_winners@[i] == dealer),
                        decreases nagashi_winners@.len() - k,
                    {
                        if nagashi_winners[k].index() == dealer.index() {
                            assert(nagashi_winners@[k as int] == dealer);
                            stays = true;
                        }
                        k = k + 1;
                    }
                    proof {
                        if stays {
                            assert(nagashi_winners@.contains(dealer));
                        }
                        if nagashi_winners@.contains(dealer) {
                            let i = choose|i: int| 0 <= i < nagashi_winners@.len() && nagashi_winners@[i] == dealer;
                        }
                    }
                    Ok((awarded, stays))
                }
            },
            HandOutcome::AbortiveDraw { .. } => Ok((0, true)),
        }
    }
}

/// The problems of an outcome are never table-progress errors.
proof fn lemma_problem_kind(rules: RiichiRules, outcome: HandOutcome)
    ensures
        outcome_problem(rules, outcome) matches Some(e) ==> !(e is Progress),
{
    if let HandOutcome::Ron { from, winners } = outcome {
        lemma_ron_problem_kind(rules.variant, from, winners@, winners@.len() as int);
    }
}

proof fn lemma_ron_problem_kind(variant: RiichiVariant, from: Seat, winners: Seq<ScoredWinner>, k: int)
    ensures
        ron_problem(variant, from, winners, k) matches Some(e) ==> !(e is Progress),
    decreases k,
{
    if k > 0 {
        lemma_ron_problem_kind(variant, from, winners, k - 1);
    }
}

/// Each winner of a valid ron outcome is a seat at the table other than the discarder.
proof fn lemma_ron_winner_ok(variant: RiichiVariant, from: Seat, winners: Seq<ScoredWinner>, j: int)
    requires
        ron_problem(variant, from, winners, winners.len() as int) is None,
        0 <= j < winners.len(),
    ensures
        seat_ok(variant, winners[j].spec_seat()),
        winners[j].spec_seat() != from,
{
    lemma_ron_problem_prefix(variant, from, winners, j + 1, winners.len() as int);
}

/// A prefix of a winner list without problem has none.
proof fn lemma_ron_problem_prefix(variant: RiichiVariant, from: Seat, winners: Seq<ScoredWinner>, k: int, m: int)
    requires
        0 <= k <= m,
        ron_problem(variant, from, winners, m) is None,
    ensures
        ron_problem(variant, from, winners, k) is None,
    decreases m - k,
{
    if k < m {
        if ron_problem(variant, from, winners, m - 1) is Some {
            lemma_ron_problem_stable(variant, from, winners, m - 1, m);
        }
        lemma_ron_problem_prefix(variant, from, winners, k, m - 1);
    }
}

proof fn lemma_sum_update(s: Seq<int>, i: int, v: int)
    requires
        0 <= i < s.len(),
    ensures
        sum_of(s.update(i, v)) == sum_of(s) - s[i] + v,
    decreases s.len(),
{
    if i < s.len() - 1 {
        lemma_sum_update(s.drop_last(), i, v);
        assert(s.update(i, v).drop_last() =~= s.drop_last().update(i, v));
    } else {
        assert(s.update(i, v).drop_last() =~= s.drop_last());
    }
}

proof fn lemma_zeros_sum(n: int)
    requires
        n >= 0,
    ensures
        sum_of(zeros(n)) == 0,
    decreases n,
{
    if n > 0 {
        lemma_zeros_sum(n - 1);
        assert(zeros(n).drop_last() =~= zeros(n - 1));
    }
}

/// Payments between two different seats of the table.
pub open spec fn proper_transfers(ts: Seq<(int, int, int)>, n: int) -> bool {
    forall|i: int| 0 <= i < ts.len() ==> #[trigger] ts[i].0 != ts[i].1 && 0 <= ts[i].0 < n && 0 <= ts[i].1 < n
}

proof fn lemma_transfers_sum(start: Seq<int>, ts: Seq<(int, int, int)>)
    requires
        proper_transfers(ts, start.len() as int),
    ensures
        sum_of(apply_transfers(start, ts)) == sum_of(start),
        apply_transfers(start, ts).len() == start.len(),
    decreases ts.len(),
{
    if ts.len() > 0 {
        assert(proper_transfers(ts.drop_last(), start.len() as int)) by {
            assert forall|i: int| 0 <= i < ts.drop_last().len() implies #[trigger] ts.drop_last()[i].0 != ts.drop_last()[i].1
                && 0 <= ts.drop_last()[i].0 < start.len() && 0 <= ts.drop_last()[i].1 < start.len() by {
                assert(ts.drop_last()[i] == ts[i]);
            }
        }
        lemma_transfers_sum(start, ts.drop_last());
        let d = apply_transfers(start, ts.drop_last());
        let t = ts.last();
        assert(ts[ts.len() - 1] == t);
        lemma_sum_update(d, t.0, d[t.0] - t.2);
        lemma_sum_update(d.update(t.0, d[t.0] - t.2), t.1, d[t.1] + t.2);
    }
}

proof fn lemma_tsumo_proper(progress: TableProgress, winner: Seat, payment: Payment, k: int, n: int)
    requires
        k <= n,
        winner@ < n,
    ensures
        proper_transfers(tsumo_transfers(progress, winner, payment, k), n),
    decreases k,
{
    if k > 0 {
        lemma_tsumo_proper(progress, winner, payment, k - 1, n);
        let prev = tsumo_transfers(progress, winner, payment, k - 1);
        if k - 1 != winner@ {
            assert forall|i: int| 0 <= i < prev.len() + 1 implies #[trigger] tsumo_transfers(progress, winner, payment, k)[i].0
                != tsumo_transfers(progress, winner, payment, k)[i].1 && 0 <= tsumo_transfers(progress, winner, payment, k)[i].0 < n
                && 0 <= tsumo_transfers(progress, winner, payment, k)[i].1 < n by {
                if i < prev.len() {
                    assert(tsumo_transfers(progress, winner, payment, k)[i] == prev[i]);
                }
            }
        }
    }
}

proof fn lemma_ron_proper(progress: TableProgress, rules: RiichiRules, from: Seat, winners: Seq<ScoredWinner>, k: int)
    requires
        0 <= k <= winners.len(),
        seat_ok(rules.variant, from),
        ron_problem(rules.variant, from, winners, winners.len() as int) is None,
    ensures
        proper_transfers(ron_transfers(progress, from, winners, k), seat_count(rules.variant)),
    decreases k,
{
    if k > 0 {
        lemma_ron_proper(progress, rules, from, winners, k - 1);
        lemma_ron_winner_ok(rules.variant, from, winners, k - 1);
        let prev = ron_transfers(progress, from, winners, k - 1);
        assert forall|i: int| 0 <= i < prev.len() + 1 implies #[trigger] ron_transfers(progress, from, winners, k)[i].0
            != ron_transfers(progress, from, winners, k)[i].1 by {
            if i < prev.len() {
                assert(ron_transfers(progress, from, winners, k)[i] == prev[i]);
            }
        }
    }
}

proof fn lemma_payers_proper(progress: TableProgress, winner: Seat, k: int, n: int)
    requires
        k <= n,
        winner@ < n,
    ensures
        proper_transfers(nagashi_payers(progress, winner, k), n),
    decreases k,
{
    if k > 0 {
        lemma_payers_proper(progress, winner, k - 1, n);
        let prev = nagashi_payers(progress, winner, k - 1);
        if k - 1 != winner@ {
            assert forall|i: int| 0 <= i < prev.len() + 1 implies #[trigger] nagashi_payers(progress, winner, k)[i].0
                != nagashi_payers(progress, winner, k)[i].1 by {
                if i < prev.len() {
                    assert(nagashi_payers(progress, winner, k)[i] == prev[i]);
                }
            }
        }
    }
}

proof fn lemma_nagashi_proper(progress: TableProgress, variant: RiichiVariant, winners: Seq<Seat>, k: int)
    requires
        0 <= k <= winners.len(),
        forall|i: int| 0 <= i < winners.len() ==> seat_ok(variant, #[trigger] winners[i]),
    ensures
        proper_transfers(nagashi_transfers(progress, winners, seat_count(variant), k), seat_count(variant)),
    decreases k,
{
    if k > 0 {
        let n = seat_count(variant);
        lemma_nagashi_proper(progress, variant, winners, k - 1);
        assert(seat_ok(variant, winners[k - 1]));
        lemma_payers_proper(progress, winners[k - 1], n, n);
        let a = nagashi_transfers(progress, winners, n, k - 1);
        let b = nagashi_payers(progress, winners[k - 1], n);
        assert forall|i: int| 0 <= i < (a + b).len() implies #[trigger] (a + b)[i].0 != (a + b)[i].1 && 0 <= (a + b)[i].0 < n
            && 0 <= (a + b)[i].1 < n by {
            if i < a.len() {
                assert((a + b)[i] == a[i]);
            } else {
                assert((a + b)[i] == b[i - a.len()]);
            }
        }
    }
}

pub open spec fn is_listed(tenpai: Seq<Seat>, i: int) -> bool {
    exists|j: int| 0 <= j < tenpai.len() && #[trigger] tenpai[j]@ == i
}

pub open spec fn listed_count(tenpai: Seq<Seat>, m: int) -> int
    decreases m,
{
    if m <= 0 {
        0
    } else {
        listed_count(tenpai, m - 1) + if is_listed(tenpai, m - 1) {
            1int
        } else {
            0int
        }
    }
}

proof fn lemma_listed_step(tenpai: Seq<Seat>, m: int)
    requires
        tenpai.len() > 0,
        m >= 0,
        forall|a: int, b: int| 0 <= a < b < tenpai.len() ==> #[trigger] tenpai[a] != #[trigger] tenpai[b],
    ensures
        listed_count(tenpai, m) == listed_count(tenpai.drop_last(), m) + if tenpai.last()@ < m {
            1int
        } else {
            0int
        },
    decreases m,
{
    if m > 0 {
        lemma_listed_step(tenpai, m - 1);
        let rest = tenpai.drop_last();
        let x = tenpai.last();
        assert(is_listed(tenpai, m - 1) == (is_listed(rest, m - 1) || x@ == m - 1)) by {
            if is_listed(tenpai, m - 1) {
                let j = choose|j: int| 0 <= j < tenpai.len() && #[trigger] tenpai[j]@ == m - 1;
                if j < rest.len() {
                    assert(rest[j] == tenpai[j]);
                }
            }
            if is_listed(rest, m - 1) {
                let j = choose|j: int| 0 <= j < rest.len() && #[trigger] rest[j]@ == m - 1;
                assert(tenpai[j] == rest[j]);
            }
            if x@ == m - 1 {
                assert(tenpai[tenpai.len() - 1]@ == m - 1);
            }
        }
        if x@ == m - 1 && is_listed(rest, m - 1) {
            let j = choose|j: int| 0 <= j < rest.len() && #[trigger] rest[j]@ == m - 1;
            assert(tenpai[j] != tenpai[tenpai.len() - 1]);
            crate::riichi::progress::Seat::lemma_view_injective(tenpai[j], x);
        }
    }
}

proof fn lemma_listed_total(variant: RiichiVariant, tenpai: Seq<Seat>)
    requires
        distinct_seats(variant, tenpai),
    ensures
        listed_count(tenpai, seat_count(variant)) == tenpai.len(),
    decreases tenpai.len(),
{
    let n = seat_count(variant);
    if tenpai.len() == 0 {
        lemma_listed_none(tenpai, n);
    } else {
        let rest = tenpai.drop_last();
        assert(distinct_seats(variant, rest)) by {
            assert forall|i: int| 0 <= i < rest.len() implies seat_ok(variant, #[trigger] rest[i]) by {
                assert(rest[i] == tenpai[i]);
            }
            assert forall|a: int, b: int| 0 <= a < b < rest.len() implies #[trigger] rest[a] != #[trigger] rest[b] by {
                assert(rest[a] == tenpai[a]);
                assert(rest[b] == tenpai[b]);
            }
        }
        lemma_listed_total(variant, rest);
        lemma_listed_step(tenpai, n);
        assert(seat_ok(variant, tenpai[tenpai.len() - 1]));
    }
}

proof fn lemma_listed_none(tenpai: Seq<Seat>, m: int)
    requires
        tenpai.len() == 0,
    ensures
        listed_count(tenpai, m) == 0,
    decreases m,
{
    if m > 0 {
        lemma_listed_none(tenpai, m - 1);
    }
}

proof fn lemma_noten_prefix_sum(rules: RiichiRules, tenpai: Seq<Seat>, m: int)
    requires
        0 <= m <= seat_count(rules.variant),
    ensures
        ({
            let n = seat_count(rules.variant);
            let total = rules.settlement.noten_payment as int;
            let gain = total / (tenpai.len() as int);
            let loss = total / (n - tenpai.len());
            sum_of(noten_deltas(rules, tenpai).take(m)) == gain * listed_count(tenpai, m) - loss * (m - listed_count(tenpai, m))
        }),
    decreases m,
{
    let n = seat_count(rules.variant);
    let total = rules.settlement.noten_payment as int;
    let gain = total / (tenpai.len() as int);
    let loss = total / (n - tenpai.len());
    let d = noten_deltas(rules, tenpai);
    if m == 0 {
        assert(d.take(0) =~= Seq::<int>::empty());
    } else {
        lemma_noten_prefix_sum(rules, tenpai, m - 1);
        assert(d.take(m).drop_last() =~= d.take(m - 1));
        let c = listed_count(tenpai, m - 1);
        assert(d[m - 1] == (if is_listed(tenpai, m - 1) {
            gain
        } else {
            -loss
        }));
        if is_listed(tenpai, m - 1) {
            assert(gain * (c + 1) - loss * (m - (c + 1)) == gain * c - loss * (m - 1 - c) + gain) by (nonlinear_arith);
        } else {
            assert(gain * c - loss * (m - c) == gain * c - loss * (m - 1 - c) - loss) by (nonlinear_arith);
        }
    }
}

/// The points a hand moves cancel out, but for the riichi sticks that a winner collects
/// from the table: the point changes of a settled hand add up to a thousand per stick
/// awarded.
pub proof fn settlement_conserves_points(rules: RiichiRules, progress: TableProgress, outcome: HandOutcome)
    requires
        rules.variant == progress.spec_variant(),
        outcome_problem(rules, outcome) is None,
        !noten_split_fails(rules, outcome),
    ensures
        sum_of(hand_deltas(rules, progress, outcome)) == awarded_sticks(progress, outcome) * 1000,
{
    let n = seat_count(rules.variant);
    let z = zeros(n);
    lemma_zeros_sum(n);
    let base = base_deltas(rules, progress, outcome);
    if is_noten_draw(outcome) {
        let tenpai = draw_tenpai(outcome);
        if noten_applies(rules, tenpai) {
            let total = rules.settlement.noten_payment as int;
            let t = tenpai.len() as int;
            lemma_listed_total(rules.variant, tenpai);
            lemma_noten_prefix_sum(rules, tenpai, n);
            assert(noten_deltas(rules, tenpai).take(n) =~= noten_deltas(rules, tenpai));
            lemma_distinct_len(rules.variant, tenpai);
            vstd::arithmetic::div_mod::lemma_fundamental_div_mod(total, t);
            vstd::arithmetic::div_mod::lemma_fundamental_div_mod(total, n - t);
            assert((total / t) * t == total) by (nonlinear_arith)
                requires
                    total == t * (total / t) + total % t,
                    total % t == 0,
            ;
            assert((total / (n - t)) * (n - t) == total) by (nonlinear_arith)
                requires
                    total == (n - t) * (total / (n - t)) + total % (n - t),
                    total % (n - t) == 0,
            ;
            assert(sum_of(base) == 0);
        } else {
            assert(base == z);
        }
    } else {
        match outcome {
            HandOutcome::Tsumo { winner } => {
                lemma_tsumo_proper(progress, winner.spec_seat(), winner.spec_payment(), n, n);
            },
            HandOutcome::Ron { from, winners } => {
                lemma_ron_proper(progress, rules, from, winners@, winners@.len() as int);
            },
            HandOutcome::ExhaustiveDraw { tenpai, nagashi_winners } => {
                lemma_nagashi_proper(progress, rules.variant, nagashi_winners@, nagashi_winners@.len() as int);
            },
            HandOutcome::AbortiveDraw { .. } => {},
        }
        lemma_transfers_sum(z, outcome_transfers(progress, outcome));
    }
    if let Some(seat) = stick_recipient(outcome) {
        if awarded_sticks(progress, outcome) > 0 {
            match outcome {
                HandOutcome::Ron { from, winners } => {
                    lemma_ron_winner_ok(rules.variant, from, winners@, 0);
                },
                HandOutcome::ExhaustiveDraw { nagashi_winners, .. } => {
                    assert(seat_ok(rules.variant, nagashi_winners@[0]));
                },
                _ => {},
            }
            assert(base.len() == n) by {
                if !is_noten_draw(outcome) {
                    match outcome {
                        HandOutcome::Tsumo { winner } => {
                            lemma_tsumo_proper(progress, winner.spec_seat(), winner.spec_payment(), n, n);
                        },
                        HandOutcome::Ron { from, winners } => {
                            lemma_ron_proper(progress, rules, from, winners@, winners@.len() as int);
                        },
                        HandOutcome::ExhaustiveDraw { tenpai, nagashi_winners } => {
                            lemma_nagashi_proper(progress, rules.variant, nagashi_winners@, nagashi_winners@.len() as int);
                        },
                        HandOutcome::AbortiveDraw { .. } => {},
                    }
                    lemma_transfers_sum(z, outcome_transfers(progress, outcome));
                }
            }
            lemma_sum_update(base, seat@ as int, base[seat@ as int] + awarded_sticks(progress, outcome) * 1000);
        }
    }
}

} // verus!
