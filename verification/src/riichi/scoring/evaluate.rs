use vstd::prelude::*;

use crate::riichi::hand::{Meld, WinQuery};
use crate::riichi::tile_set::seat_count_of;

use super::analysis::{
    Interpretation, hand_counts, hand_tiles, interpretations, is_reading, meld_tiles, melds_nonempty,
    same_reading, standard_reading,
};
use super::fu::{calculate_fu, fu_of};
use super::points::{base_points, base_points_of, payment, payment_of};
use super::result::{BonusHan, Payment, WinEvaluation, payment_total};
use super::yaku::{
    bonus_han, bonus_of, physical_tiles, regular_list, regular_yaku, sum_values, winner_is_dealer,
    yakuman, yakuman_list,
};

verus! {

/// A hand the scorer can read: every meld holds one to four tiles, at most fourteen tiles are
/// concealed, and no kind occurs more than four times among the concealed tiles, the winning
/// tile and the melds.
pub(crate) open spec fn hand_ok(q: WinQuery) -> bool {
    let melds = q.spec_player().spec_melds();
    &&& melds_nonempty(melds)
    &&& forall|i: int| 0 <= i < melds.len() ==> #[trigger] melds[i].spec_tiles().len() <= 4
    &&& q.spec_player().spec_concealed().len() <= 14
    &&& physical_tiles(hand_tiles(q) + meld_tiles(melds))
}

/// A reading that earns at least one pattern.
#[verifier::opaque]
pub(crate) open spec fn scores(q: WinQuery, it: Interpretation) -> bool {
    yakuman_list(q, it).len() > 0 || regular_list(q, it).len() > 0
}

pub(crate) open spec fn is_yakuman_hand(q: WinQuery, it: Interpretation) -> bool {
    yakuman_list(q, it).len() > 0
}

pub(crate) open spec fn eval_bonus(q: WinQuery, it: Interpretation) -> BonusHan {
    if is_yakuman_hand(q, it) {
        BonusHan { dora: 0, ura_dora: 0, red_dora: 0 }
    } else {
        bonus_of(q, it)
    }
}

pub(crate) open spec fn eval_han(q: WinQuery, it: Interpretation) -> int {
    let b = eval_bonus(q, it);
    if is_yakuman_hand(q, it) {
        0
    } else {
        sum_values(regular_list(q, it)) + b.dora + b.ura_dora + b.red_dora
    }
}

pub(crate) open spec fn eval_fu(q: WinQuery, it: Interpretation) -> int {
    if is_yakuman_hand(q, it) {
        0
    } else {
        fu_of(q, it, regular_list(q, it))
    }
}

pub(crate) open spec fn eval_multiplier(q: WinQuery, it: Interpretation) -> int {
    if is_yakuman_hand(q, it) {
        sum_values(yakuman_list(q, it))
    } else {
        0
    }
}

pub(crate) open spec fn eval_base(q: WinQuery, it: Interpretation) -> (int, crate::riichi::scoring::result::Limit) {
    base_points_of(
        q.spec_rules().scoring.kazoe_yakuman,
        q.spec_rules().scoring.kiriage_mangan,
        eval_han(q, it),
        eval_fu(q, it),
        eval_multiplier(q, it),
    )
}

pub(crate) open spec fn eval_payment(q: WinQuery, it: Interpretation) -> Payment {
    payment_of(eval_base(q, it).0, winner_is_dealer(q), q.spec_source())
}

pub(crate) open spec fn player_count(q: WinQuery) -> int {
    seat_count_of(q.spec_rules().variant) as int
}

/// What a reading is ranked by: the points received, then the yakuman multiple, then han,
/// then fu.
#[verifier::opaque]
pub(crate) open spec fn eval_key(q: WinQuery, it: Interpretation) -> (int, int, int, int) {
    (
        payment_total(eval_payment(q, it), player_count(q), winner_is_dealer(q)),
        eval_multiplier(q, it),
        eval_han(q, it),
        eval_fu(q, it),
    )
}

pub(crate) open spec fn evaluation_key(e: WinEvaluation, q: WinQuery) -> (int, int, int, int) {
    (
        payment_total(e.payment, player_count(q), winner_is_dealer(q)),
        e.yakuman_multiplier as int,
        e.han as int,
        e.fu as int,
    )
}

pub(crate) open spec fn key_less(a: (int, int, int, int), b: (int, int, int, int)) -> bool {
    ||| a.0 < b.0
    ||| a.0 == b.0 && a.1 < b.1
    ||| a.0 == b.0 && a.1 == b.1 && a.2 < b.2
    ||| a.0 == b.0 && a.1 == b.1 && a.2 == b.2 && a.3 < b.3
}

/// `e` is the scored evaluation of the reading `it`.
#[verifier::opaque]
pub(crate) open spec fn evaluation_of(e: WinEvaluation, q: WinQuery, it: Interpretation) -> bool {
    &&& e.shape == it.shape
    &&& e.wait == it.wait
    &&& e.yaku@ == (if is_yakuman_hand(q, it) {
        yakuman_list(q, it)
    } else {
        regular_list(q, it)
    })
    &&& e.bonuses == eval_bonus(q, it)
    &&& e.han == eval_han(q, it)
    &&& e.fu == eval_fu(q, it)
    &&& e.yakuman_multiplier == eval_multiplier(q, it)
    &&& e.base_points == eval_base(q, it).0
    &&& e.limit == eval_base(q, it).1
    &&& e.payment == eval_payment(q, it)
}

/// `e` is the evaluation of a scoring reading that no other scoring reading outranks.
pub(crate) open spec fn best_evaluation(e: WinEvaluation, q: WinQuery) -> bool {
    &&& exists|it: Interpretation| #[trigger] is_reading(it, q) && scores(q, it) && evaluation_of(e, q, it)
    &&& forall|it: Interpretation|
        #[trigger] is_reading(it, q) && scores(q, it) ==> !key_less(evaluation_key(e, q), eval_key(q, it))
}

proof fn lemma_sum_prefix(v: Seq<super::result::YakuValue>, i: int)
    requires
        0 <= i <= v.len(),
    ensures
        sum_values(v.take(i)) <= sum_values(v),
        sum_values(v.take(i)) >= 0,
    decreases v.len(),
{
    if v.len() > 0 {
        if i == v.len() {
            assert(v.take(i) =~= v);
            lemma_sum_prefix(v.drop_last(), i - 1);
            assert(v.drop_last().take(i - 1) =~= v.take(i - 1));
            assert(v.drop_last().take(i - 1) == v.drop_last());
            lemma_sum_nonneg(v.drop_last());
        } else {
            lemma_sum_prefix(v.drop_last(), i);
            assert(v.drop_last().take(i) =~= v.take(i));
        }
    }
}

proof fn lemma_sum_nonneg(v: Seq<super::result::YakuValue>)
    ensures
        sum_values(v) >= 0,
    decreases v.len(),
{
    if v.len() > 0 {
        lemma_sum_nonneg(v.drop_last());
    }
}

fn sum_values_exec(v: &Vec<super::result::YakuValue>) -> (r: u8)
    requires
        sum_values(v@) <= 255,
    ensures
        r == sum_values(v@),
{
    let mut total: u8 = 0;
    let mut i: usize = 0;
    while i < v.len()
        invariant
            i <= v@.len(),
            sum_values(v@) <= 255,
            total == sum_values(v@.take(i as int)),
        decreases v@.len() - i,
    {
        assert(v@.take(i + 1).drop_last() =~= v@.take(i as int));
        proof {
            lemma_sum_prefix(v@, i + 1);
        }
        total = total + v[i].value;
        i = i + 1;
    }
    assert(v@.take(i as int) =~= v@);
    total
}

proof fn lemma_meld_tiles_len(melds: Seq<Meld>)
    requires
        forall|i: int| 0 <= i < melds.len() ==> #[trigger] melds[i].spec_tiles().len() <= 4,
    ensures
        meld_tiles(melds).len() <= 4 * melds.len(),
    decreases melds.len(),
{
    if melds.len() > 0 {
        assert(melds.last() == melds[melds.len() - 1]);
        lemma_meld_tiles_len(melds.drop_last());
    }
}

/// What a reading of a well-formed hand guarantees to the scoring functions.
proof fn lemma_reading_bounds(it: Interpretation, q: WinQuery)
    requires
        is_reading(it, q),
        hand_ok(q),
    ensures
        it.groups@.len() <= 8,
        it.all_tiles@.len() <= 40,
        physical_tiles(it.all_tiles@),
        it.concealed_counts.wf(),
        it.pre_win_counts.wf(),
{
    let melds = q.spec_player().spec_melds();
    if it.shape == super::result::HandShape::Standard {
        let (gs, pos) = choose|gs: Seq<super::shape::Group>, pos: int| standard_reading(it, q, gs, pos);
        let p = it.pair->0;
        super::shape::lemma_decomposes_total(
            hand_counts(q).update(p@ as int, (hand_counts(q)[p@ as int] - 2) as u8),
            super::shape::concealed_groups(melds.len() as int),
            gs,
        );
    }
    lemma_meld_tiles_len(melds);
}

/// Two readings that agree on what the scoring looks at score alike.
proof fn lemma_same_reading_scores(a: Interpretation, b: Interpretation, q: WinQuery)
    requires
        same_reading(a, b),
    ensures
        yakuman_list(q, a) == yakuman_list(q, b),
        regular_list(q, a) == regular_list(q, b),
        bonus_of(q, a) == bonus_of(q, b),
        fu_of(q, a, regular_list(q, a)) == fu_of(q, b, regular_list(q, b)),
{
    assert(super::yaku::nine_gates(a, super::analysis::winning_kind(q)@ as int) == super::yaku::nine_gates(
        b,
        super::analysis::winning_kind(q)@ as int,
    ));
    assert(super::yaku::wheel_yaku(a) == super::yaku::wheel_yaku(b));
    assert(super::yaku::outside_hand(a) == super::yaku::outside_hand(b));
    assert(super::yaku::early_list(q, a, super::yaku::closed_hand(q)) == super::yaku::early_list(
        q,
        b,
        super::yaku::closed_hand(q),
    ));
    assert(super::yaku::middle_list(a) == super::yaku::middle_list(b));
    assert(super::yaku::late_list(a, super::yaku::closed_hand(q)) == super::yaku::late_list(
        b,
        super::yaku::closed_hand(q),
    ));
}

proof fn lemma_eval_key(e: WinEvaluation, q: WinQuery, it: Interpretation)
    requires
        evaluation_of(e, q, it),
    ensures
        evaluation_key(e, q) == eval_key(q, it),
{
    reveal(evaluation_of);
    reveal(eval_key);
}

proof fn lemma_same_reading_eval(a: Interpretation, b: Interpretation, q: WinQuery)
    requires
        same_reading(a, b),
    ensures
        scores(q, a) == scores(q, b),
        eval_key(q, a) == eval_key(q, b),
{
    reveal(scores);
    reveal(eval_key);
    lemma_same_reading_scores(a, b, q);
}

fn key_greater(a: (u32, u8, u8, u16), b: (u32, u8, u8, u16)) -> (r: bool)
    ensures
        r == key_less(
            (b.0 as int, b.1 as int, b.2 as int, b.3 as int),
            (a.0 as int, a.1 as int, a.2 as int, a.3 as int),
        ),
{
    if a.0 != b.0 {
        return a.0 > b.0;
    }
    if a.1 != b.1 {
        return a.1 > b.1;
    }
    if a.2 != b.2 {
        return a.2 > b.2;
    }
    a.3 > b.3
}

/// The evaluation of one reading, if it earns any pattern.
#[verifier::rlimit(60)]
fn evaluate_reading(q: WinQuery, it: &Interpretation) -> (r: Option<WinEvaluation>)
    requires
        is_reading(*it, q),
        hand_ok(q),
    ensures
        r is None <==> !scores(q, *it),
        r matches Some(e) ==> evaluation_of(e, q, *it),
        r matches Some(e) ==> (match e.payment {
            Payment::Ron { points } => points <= 2_000_000,
            Payment::Tsumo { dealer_payment, other_payment } => dealer_payment <= 1_000_000
                && other_payment <= 1_000_000,
        }),
{
    reveal(scores);
    reveal(evaluation_of);
    proof {
        lemma_reading_bounds(*it, q);
    }
    let dealer = q.seat().index() == q.progress().dealer().index();
    proof {
        crate::riichi::progress::Seat::lemma_view_injective(q.spec_seat(), q.spec_progress().spec_dealer());
    }
    let values = yakuman(q, it);
    if values.len() == 0 {
        let regular = regular_yaku(q, it);
        if regular.len() == 0 {
            return None;
        }
        let bonuses = bonus_han(q, it);
        let yaku_han = sum_values_exec(&regular);
        let han = yaku_han + bonuses.dora + bonuses.ura_dora + bonuses.red_dora;
        let fu = calculate_fu(q, it, &regular);
        let (base, limit) = base_points(q.rules(), han, fu, 0);
        let paid = payment(base, dealer, q.source());
        Some(
            WinEvaluation {
                shape: it.shape,
                wait: it.wait,
                yaku: regular,
                bonuses,
                han,
                fu,
                yakuman_multiplier: 0,
                base_points: base,
                limit,
                payment: paid,
            },
        )
    } else {
        let multiplier = sum_values_exec(&values);
        let (base, limit) = base_points(q.rules(), 0, 0, multiplier);
        let paid = payment(base, dealer, q.source());
        Some(
            WinEvaluation {
                shape: it.shape,
                wait: it.wait,
                yaku: values,
                bonuses: BonusHan::new(0, 0, 0),
                han: 0,
                fu: 0,
                yakuman_multiplier: multiplier,
                base_points: base,
                limit,
                payment: paid,
            },
        )
    }
}

/// The best scoring reading of a win, or `None` when no reading earns a pattern.
#[verifier::rlimit(60)]
pub(crate) fn evaluate(q: WinQuery) -> (r: Option<WinEvaluation>)
    requires
        hand_ok(q),
    ensures
        (r is None) == (forall|it: Interpretation| #[trigger] is_reading(it, q) ==> !scores(q, it)),
        r matches Some(e) ==> best_evaluation(e, q),
{
    let readings = interpretations(q);
    let count = q.rules().variant.seat_count().value();
    let dealer = q.seat().index() == q.progress().dealer().index();
    proof {
        crate::riichi::progress::Seat::lemma_view_injective(q.spec_seat(), q.spec_progress().spec_dealer());
    }
    let mut best: Option<WinEvaluation> = None;
    let mut best_key: (u32, u8, u8, u16) = (0, 0, 0, 0);
    let mut i: usize = 0;
    while i < readings.len()
        invariant
            i <= readings@.len(),
            hand_ok(q),
            count == player_count(q),
            dealer == winner_is_dealer(q),
            forall|j: int| 0 <= j < readings@.len() ==> is_reading(#[trigger] readings@[j], q),
            (best is None) == (forall|j: int| 0 <= j < i ==> !scores(q, #[trigger] readings@[j])),
            best matches Some(e) ==> (exists|j: int| 0 <= j < i && scores(q, #[trigger] readings@[j]) && evaluation_of(e, q, readings@[j])),
            best matches Some(e) ==> (best_key.0 as int, best_key.1 as int, best_key.2 as int, best_key.3 as int) == evaluation_key(e, q),
            best matches Some(e) ==> forall|j: int|
                0 <= j < i && scores(q, #[trigger] readings@[j]) ==> !key_less(evaluation_key(e, q), eval_key(q, readings@[j])),
        decreases readings@.len() - i,
    {
        let it = &readings[i];
        let ghost old_best = best;
        match evaluate_reading(q, it) {
            Some(candidate) => {
                assert(count == 3 || count == 4);
                let total = candidate.payment.total_received(count, dealer);
                let key = (total, candidate.yakuman_multiplier, candidate.han, candidate.fu);
                proof {
                    lemma_eval_key(candidate, q, readings@[i as int]);
                }
                let replace = match &best {
                    None => true,
                    Some(_) => key_greater(key, best_key),
                };
                if replace {
                    best = Some(candidate);
                    best_key = key;
                }
            },
            None => {},
        }
        i = i + 1;
    }
    proof {
        lemma_best_is_best(q, readings@, best);
    }
    best
}

/// The best of the listed readings is the best of all readings, since every reading has a
/// listed counterpart that scores alike.
proof fn lemma_best_is_best(q: WinQuery, readings: Seq<Interpretation>, best: Option<WinEvaluation>)
    requires
        forall|j: int| 0 <= j < readings.len() ==> is_reading(#[trigger] readings[j], q),
        forall|it: Interpretation| #[trigger] is_reading(it, q) ==> exists|i: int|
            0 <= i < readings.len() && same_reading(#[trigger] readings[i], it),
        (best is None) == (forall|j: int| 0 <= j < readings.len() ==> !scores(q, #[trigger] readings[j])),
        best matches Some(e) ==> (exists|j: int| 0 <= j < readings.len() && scores(q, #[trigger] readings[j]) && evaluation_of(e, q, readings[j])),
        best matches Some(e) ==> forall|j: int|
            0 <= j < readings.len() && scores(q, #[trigger] readings[j]) ==> !key_less(evaluation_key(e, q), eval_key(q, readings[j])),
    ensures
        (best is None) == (forall|it: Interpretation| #[trigger] is_reading(it, q) ==> !scores(q, it)),
        best matches Some(e) ==> best_evaluation(e, q),
{
    if best is None {
        assert forall|it: Interpretation| #[trigger] is_reading(it, q) implies !scores(q, it) by {
            let j = choose|j: int| 0 <= j < readings.len() && same_reading(#[trigger] readings[j], it);
            lemma_same_reading_eval(readings[j], it, q);
        }
    } else {
        let e = best->0;
        let j = choose|j: int| 0 <= j < readings.len() && scores(q, #[trigger] readings[j]) && evaluation_of(e, q, readings[j]);
        assert(is_reading(readings[j], q));
        assert forall|it: Interpretation| #[trigger] is_reading(it, q) && scores(q, it) implies !key_less(evaluation_key(e, q), eval_key(q, it)) by {
            let k = choose|k: int| 0 <= k < readings.len() && same_reading(#[trigger] readings[k], it);
            lemma_same_reading_eval(readings[k], it, q);
        }
        if forall|it: Interpretation| #[trigger] is_reading(it, q) ==> !scores(q, it) {
            assert(!scores(q, readings[j]));
        }
    }
}

} // verus!
