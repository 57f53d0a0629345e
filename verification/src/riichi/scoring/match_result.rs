use vstd::prelude::*;

use crate::riichi::config::{MatchLength, PlacementUma, RiichiRules};
use crate::riichi::hand::EndReason;
use crate::riichi::progress::{Seat, TableProgress, Wind};
use crate::riichi::tile_set::{RiichiVariant, seat_count_of};
use crate::riichi::validation::{ValidationErrors, rule_violations, uma_violations};
use crate::riichi::hand::EndReason as HandEnd;

use super::settlement::{HandResult, ScoredWinner};

verus! {

broadcast use crate::riichi::progress::Seat::lemma_view_injective;

#[derive(Clone, Copy, Debug, PartialEq, Eq, Structural)]
pub enum MatchEndReason {
    ScheduledEnd,
    Tobi,
    AgariYame,
}

/// One seat's standing at the end of a match; scores are in tenths of a thousand points.
#[derive(Clone, Copy, Debug, PartialEq, Eq, Structural)]
pub struct MatchPlacement {
    pub(crate) seat: Seat,
    pub(crate) rank: u8,
    pub(crate) points: i32,
    pub(crate) uma_tenths: i32,
    pub(crate) oka_tenths: i32,
    pub(crate) score_tenths: i32,
}

impl MatchPlacement {
    pub closed spec fn spec_seat(&self) -> Seat {
        self.seat
    }

    pub closed spec fn spec_rank(&self) -> u8 {
        self.rank
    }

    pub closed spec fn spec_points(&self) -> i32 {
        self.points
    }

    pub closed spec fn spec_uma_tenths(&self) -> i32 {
        self.uma_tenths
    }

    pub closed spec fn spec_oka_tenths(&self) -> i32 {
        self.oka_tenths
    }

    pub closed spec fn spec_score_tenths(&self) -> i32 {
        self.score_tenths
    }


    #[must_use]
    pub fn seat(&self) -> (r: Seat)
        ensures
            r == self.spec_seat(),
    {
        self.seat
    }

    #[must_use]
    pub fn rank(&self) -> (r: u8)
        ensures
            r == self.spec_rank(),
    {
        self.rank
    }

    #[must_use]
    pub fn points(&self) -> (r: i32)
        ensures
            r == self.spec_points(),
    {
        self.points
    }

    #[must_use]
    pub fn uma_tenths(&self) -> (r: i32)
        ensures
            r == self.spec_uma_tenths(),
    {
        self.uma_tenths
    }

    #[must_use]
    pub fn oka_tenths(&self) -> (r: i32)
        ensures
            r == self.spec_oka_tenths(),
    {
        self.oka_tenths
    }

    #[must_use]
    pub fn score_tenths(&self) -> (r: i32)
        ensures
            r == self.spec_score_tenths(),
    {
        self.score_tenths
    }
}

/// The final standings of a finished match.
#[derive(Clone, Debug, PartialEq, Eq)]
pub struct MatchResult {
    pub(crate) end_reason: MatchEndReason,
    pub(crate) starting_dealer: Seat,
    pub(crate) hand_count: u32,
    pub(crate) final_points: Vec<i32>,
    pub(crate) placements: Vec<MatchPlacement>,
    pub(crate) unclaimed_riichi_sticks_awarded: u32,
}

impl MatchResult {
    pub closed spec fn spec_end_reason(&self) -> MatchEndReason {
        self.end_reason
    }

    pub closed spec fn spec_starting_dealer(&self) -> Seat {
        self.starting_dealer
    }

    pub closed spec fn spec_hand_count(&self) -> u32 {
        self.hand_count
    }

    pub closed spec fn spec_final_points(&self) -> Seq<i32> {
        self.final_points@
    }

    pub closed spec fn spec_placements(&self) -> Seq<MatchPlacement> {
        self.placements@
    }

    pub closed spec fn spec_unclaimed_riichi_sticks_awarded(&self) -> u32 {
        self.unclaimed_riichi_sticks_awarded
    }


    #[must_use]
    pub fn end_reason(&self) -> (r: MatchEndReason)
        ensures
            r == self.spec_end_reason(),
    {
        self.end_reason
    }

    #[must_use]
    pub fn starting_dealer(&self) -> (r: Seat)
        ensures
            r == self.spec_starting_dealer(),
    {
        self.starting_dealer
    }

    #[must_use]
    pub fn hand_count(&self) -> (r: u32)
        ensures
            r == self.spec_hand_count(),
    {
        self.hand_count
    }

    #[must_use]
    pub fn final_points(&self) -> (r: &[i32])
        ensures
            r@ == self.spec_final_points(),
    {
        self.final_points.as_slice()
    }

    #[must_use]
    pub fn placements(&self) -> (r: &[MatchPlacement])
        ensures
            r@ == self.spec_placements(),
    {
        self.placements.as_slice()
    }

    #[must_use]
    pub fn unclaimed_riichi_sticks_awarded(&self) -> (r: u32)
        ensures
            r == self.spec_unclaimed_riichi_sticks_awarded(),
    {
        self.unclaimed_riichi_sticks_awarded
    }

    /// Both results hold the same values.
    pub open spec fn same_as(self, other: MatchResult) -> bool {
        &&& self.spec_end_reason() == other.spec_end_reason()
        &&& self.spec_starting_dealer() == other.spec_starting_dealer()
        &&& self.spec_hand_count() == other.spec_hand_count()
        &&& self.spec_final_points() == other.spec_final_points()
        &&& self.spec_placements() == other.spec_placements()
        &&& self.spec_unclaimed_riichi_sticks_awarded() == other.spec_unclaimed_riichi_sticks_awarded()
    }

    /// A copy of the result.
    pub fn duplicate(&self) -> (r: MatchResult)
        ensures
            r.same_as(*self),
    {
        let final_points = self.final_points.clone();
        let placements = self.placements.clone();
        assert(final_points@ =~= self.final_points@);
        assert(placements@ =~= self.placements@);
        MatchResult {
            end_reason: self.end_reason,
            starting_dealer: self.starting_dealer,
            hand_count: self.hand_count,
            final_points,
            placements,
            unclaimed_riichi_sticks_awarded: self.unclaimed_riichi_sticks_awarded,
        }
    }
}

#[derive(Debug)]
pub enum MatchError {
    InvalidRules(ValidationErrors),
    InvalidStartingDealer,
    AlreadyFinished,
    ProgressMismatch,
    PointsMismatch,
    HandCountOverflow,
    ScoreOverflow,
    InvalidJpmlAState,
}

impl MatchError {
    /// A sentence that describes the error.
    pub fn message(&self) -> (r: &'static str)
        ensures
            self is InvalidRules ==> r@ == "the rules are invalid"@,
            self is InvalidStartingDealer ==> r@ == "starting dealer is invalid"@,
            self is AlreadyFinished ==> r@ == "match is already finished"@,
            self is ProgressMismatch ==> r@ == "hand progress does not match active match"@,
            self is PointsMismatch ==> r@ == "hand points do not match active match"@,
            self is HandCountOverflow ==> r@ == "hand count overflow"@,
            self is ScoreOverflow ==> r@ == "match score calculation overflow"@,
            self is InvalidJpmlAState ==> r@ == "invalid JPML A floating-score state"@,
    {
        match self {
            MatchError::InvalidRules(_) => "the rules are invalid",
            MatchError::InvalidStartingDealer => "starting dealer is invalid",
            MatchError::AlreadyFinished => "match is already finished",
            MatchError::ProgressMismatch => "hand progress does not match active match",
            MatchError::PointsMismatch => "hand points do not match active match",
            MatchError::HandCountOverflow => "hand count overflow",
            MatchError::ScoreOverflow => "match score calculation overflow",
            MatchError::InvalidJpmlAState => "invalid JPML A floating-score state",
        }
    }
}

/// How far counter-clockwise `seat` sits from `start`.
pub open spec fn distance(start: int, seat: int, n: int) -> int {
    (seat + n - start) % n
}

/// Seat `a` ranks above seat `b`: more points, or as many and nearer the starting dealer.
pub open spec fn ranks_above(points: Seq<i32>, start: int, n: int, a: int, b: int) -> bool {
    points[a] > points[b] || (points[a] == points[b] && distance(start, a, n) < distance(start, b, n))
}

/// `order` lists every seat of the table once, best first.
pub open spec fn is_ranking(order: Seq<Seat>, points: Seq<i32>, start: int, n: int) -> bool {
    &&& order.len() == n
    &&& forall|i: int| 0 <= i < order.len() ==> (#[trigger] order[i])@ < n
    &&& forall|i: int, j: int| 0 <= i < j < order.len() ==> #[trigger] order[i] != #[trigger] order[j]
    &&& forall|i: int, j: int|
        0 <= i < j < order.len() ==> ranks_above(points, start, n, #[trigger] order[i]@ as int, #[trigger] order[j]@ as int)
}

/// The seat that ranks above every other.
pub open spec fn is_leader(points: Seq<i32>, start: int, n: int, leader: int) -> bool {
    &&& 0 <= leader < n
    &&& forall|s: int| 0 <= s < n && s != leader ==> #[trigger] ranks_above(points, start, n, leader, s)
}

fn distance_exec(start: u8, seat: u8, n: u8) -> (r: u8)
    requires
        0 < n <= 4,
        start < n,
        seat < n,
    ensures
        r == distance(start as int, seat as int, n as int),
        r < n,
{
    (seat + n - start) % n
}

fn ranks_above_exec(points: &[i32], start: u8, n: u8, a: u8, b: u8) -> (r: bool)
    requires
        0 < n <= 4,
        start < n,
        a < n,
        b < n,
        points@.len() == n,
    ensures
        r == ranks_above(points@, start as int, n as int, a as int, b as int),
{
    let pa = points[a as usize];
    let pb = points[b as usize];
    pa > pb || (pa == pb && distance_exec(start, a, n) < distance_exec(start, b, n))
}

/// The seats, best first by points, ties broken by nearness to the starting dealer.
pub fn ranking_order(points: &[i32], starting_dealer: Seat, variant: RiichiVariant) -> (r: Vec<Seat>)
    requires
        points@.len() == seat_count_of(variant),
        starting_dealer@ < seat_count_of(variant),
    ensures
        is_ranking(r@, points@, starting_dealer@ as int, seat_count_of(variant) as int),
{
    let n = variant.seat_count().value();
    let start = starting_dealer.index();
    let mut order: Vec<Seat> = Vec::new();
    let mut i: u8 = 0;
    while i < n
        invariant
            i <= n,
            n == seat_count_of(variant),
            3 <= n <= 4,
            start == starting_dealer@,
            start < n,
            points@.len() == n,
            order@.len() == i,
            forall|x: int| 0 <= x < order@.len() ==> (#[trigger] order@[x])@ < i,
            forall|x: int, y: int| 0 <= x < y < order@.len() ==> #[trigger] order@[x] != #[trigger] order@[y],
            forall|x: int, y: int|
                0 <= x < y < order@.len() ==> ranks_above(points@, start as int, n as int, #[trigger] order@[x]@ as int, #[trigger] order@[y]@ as int),
        decreases n - i,
    {
        let seat = match Seat::new(variant, i) {
            Ok(seat) => seat,
            Err(_) => vstd::pervasive::unreached(),
        };
        let mut position: usize = 0;
        while position < order.len() && ranks_above_exec(points, start, n, order[position].index(), i)
            invariant
                position <= order@.len(),
                0 < n <= 4,
                start < n,
                i < n,
                points@.len() == n,
                forall|x: int| 0 <= x < order@.len() ==> (#[trigger] order@[x])@ < i,
                forall|x: int| 0 <= x < position ==> ranks_above(points@, start as int, n as int, #[trigger] order@[x]@ as int, i as int),
            decreases order@.len() - position,
        {
            position = position + 1;
        }
        proof {
            assert forall|x: int| position <= x < order@.len() implies ranks_above(points@, start as int, n as int, i as int, #[trigger] order@[x]@ as int) by {
                let p = order@[position as int]@ as int;
                assert(!ranks_above(points@, start as int, n as int, p, i as int));
                assert(p != i);
                if x > position {
                    assert(ranks_above(points@, start as int, n as int, p, order@[x]@ as int));
                }
                assert(distance(start as int, p, n as int) != distance(start as int, i as int, n as int)) by {
                    assert(0 <= p < n);
                }
            }
        }
        let ghost before = order@;
        order.insert(position, seat);
        proof {
            assert forall|x: int| 0 <= x < order@.len() implies (#[trigger] order@[x])@ < i + 1 by {
                if x < position {
                    assert(order@[x] == before[x]);
                } else if x > position {
                    assert(order@[x] == before[x - 1]);
                }
            }
            assert forall|x: int, y: int| 0 <= x < y < order@.len() implies #[trigger] order@[x] != #[trigger] order@[y]
                && ranks_above(points@, start as int, n as int, order@[x]@ as int, order@[y]@ as int) by {
                let x0 = if x < position { x } else { x - 1 };
                let y0 = if y < position { y } else { y - 1 };
                if x == position {
                    assert(order@[y] == before[y0]);
                } else if y == position {
                    assert(order@[x] == before[x0]);
                } else {
                    assert(order@[x] == before[x0]);
                    assert(order@[y] == before[y0]);
                }
            }
        }
        i = i + 1;
    }
    order
}

/// The uma of the JPML A rule by the number of players above the return points.
pub open spec fn jpml_uma(floating: int) -> Seq<i32> {
    if floating == 0 {
        seq![0i32, 0, 0, 0]
    } else if floating == 1 {
        seq![12i32, -1i32, -3i32, -8i32]
    } else if floating == 2 {
        seq![8i32, 4i32, -4i32, -8i32]
    } else {
        seq![8i32, 3i32, 1i32, -12i32]
    }
}

/// How many of the first `k` ranked seats hold more than `limit` points.
pub open spec fn floating_count(order: Seq<Seat>, points: Seq<i32>, limit: int, k: int) -> int
    decreases k,
{
    if k <= 0 {
        0
    } else {
        floating_count(order, points, limit, k - 1) + if points[order[k - 1]@ as int] > limit {
            1int
        } else {
            0int
        }
    }
}

pub open spec fn fixed_uma(values: Seq<i16>) -> Seq<i32> {
    values.map_values(|v: i16| v as i32)
}

/// The uma by rank: the fixed values of the rules, or the JPML A table by how many players
/// end above the return points.
pub fn placement_uma(rules: &RiichiRules, points: &[i32], order: &[Seat]) -> (r: Result<Vec<i32>, MatchError>)
    requires
        forall|i: int| 0 <= i < order@.len() ==> (#[trigger] order@[i])@ < points@.len(),
    ensures
        rules.settlement.uma matches PlacementUma::Fixed { values } ==> (r matches Ok(uma) && uma@ == fixed_uma(values@)),
        rules.settlement.uma is JpmlA ==> {
            let floating = floating_count(order@, points@, rules.match_rules.return_points as int, order@.len() as int);
            &&& rules.match_rules.return_points > i32::MAX ==> (r matches Err(MatchError::ScoreOverflow))
            &&& rules.match_rules.return_points <= i32::MAX && floating >= 4 ==> (r matches Err(MatchError::InvalidJpmlAState))
            &&& rules.match_rules.return_points <= i32::MAX && floating < 4 ==> (r matches Ok(uma) && uma@ == jpml_uma(floating))
        },
{
    match &rules.settlement.uma {
        PlacementUma::Fixed { values } => {
            let mut uma: Vec<i32> = Vec::new();
            let mut i: usize = 0;
            while i < values.len()
                invariant
                    i <= values@.len(),
                    uma@ == fixed_uma(values@).take(i as int),
                decreases values@.len() - i,
            {
                uma.push(values[i] as i32);
                i = i + 1;
                assert(uma@ =~= fixed_uma(values@).take(i as int));
            }
            assert(fixed_uma(values@).take(i as int) =~= fixed_uma(values@));
            Ok(uma)
        },
        PlacementUma::JpmlA => {
            if rules.match_rules.return_points > i32::MAX as u32 {
                return Err(MatchError::ScoreOverflow);
            }
            let limit = rules.match_rules.return_points as i32;
            let mut floating: usize = 0;
            let mut i: usize = 0;
            while i < order.len()
                invariant
                    i <= order@.len(),
                    floating <= i,
                    limit == rules.match_rules.return_points,
                    forall|x: int| 0 <= x < order@.len() ==> (#[trigger] order@[x])@ < points@.len(),
                    floating == floating_count(order@, points@, limit as int, i as int),
                decreases order@.len() - i,
            {
                if points[order[i].index() as usize] > limit {
                    floating = floating + 1;
                }
                i = i + 1;
            }
            if floating == 0 {
                Ok(vec![0, 0, 0, 0])
            } else if floating == 1 {
                Ok(vec![12, -1, -3, -8])
            } else if floating == 2 {
                Ok(vec![8, 4, -4, -8])
            } else if floating == 3 {
                Ok(vec![8, 3, 1, -12])
            } else {
                Err(MatchError::InvalidJpmlAState)
            }
        },
    }
}

/// Rust's division of `x` by `d`, which rounds toward zero.
pub open spec fn trunc_div(x: int, d: int) -> int {
    if x >= 0 {
        x / d
    } else {
        -((-x) / d)
    }
}

/// The points after the unclaimed riichi sticks went to the leader.
pub open spec fn with_sticks(points: Seq<i32>, start: int, n: int, sticks: int) -> Seq<int> {
    let base = Seq::new(points.len(), |i: int| points[i] as int);
    if sticks > 0 {
        let leader = choose|l: int| is_leader(points, start, n, l);
        base.update(leader, base[leader] + sticks * 1000)
    } else {
        base
    }
}

pub open spec fn sticks_fit(points: Seq<i32>, start: int, n: int, sticks: int) -> bool {
    sticks > 0 ==> {
        let leader = choose|l: int| is_leader(points, start, n, l);
        sticks * 1000 <= i32::MAX && points[leader] + sticks * 1000 <= i32::MAX
    }
}

pub open spec fn as_i32s(s: Seq<int>) -> Seq<i32> {
    Seq::new(s.len(), |i: int| s[i] as i32)
}

/// The oka, in tenths of a thousand points: what every seat paid in beyond its starting
/// points to reach the score that placements are measured against (the points first place
/// is required to hold), all of it going to first place.
pub open spec fn oka_tenths_of(rules: RiichiRules) -> int {
    trunc_div(
        (rules.match_rules.first_place_required_points - rules.match_rules.initial_points) * seat_count_of(rules.variant),
        100,
    )
}

/// The uma a valid rule set gives for a ranking.
pub open spec fn uma_for(rules: RiichiRules, order: Seq<Seat>, points: Seq<i32>) -> Seq<i32> {
    match rules.settlement.uma {
        PlacementUma::Fixed { values } => fixed_uma(values@),
        PlacementUma::JpmlA => jpml_uma(
            floating_count(order, points, rules.match_rules.return_points as int, order.len() as int),
        ),
    }
}

pub open spec fn jpml_fails(rules: RiichiRules, order: Seq<Seat>, points: Seq<i32>) -> bool {
    rules.settlement.uma is JpmlA && rules.match_rules.return_points <= i32::MAX && floating_count(
        order,
        points,
        rules.match_rules.return_points as int,
        order.len() as int,
    ) >= 4
}

/// The scores of the placement at `rank_index` fit.
pub open spec fn placement_fits(rules: RiichiRules, order: Seq<Seat>, points: Seq<i32>, uma: Seq<i32>, i: int) -> bool {
    let p = points[order[i]@ as int] as int;
    let ret = rules.match_rules.first_place_required_points as int;
    let pt = trunc_div(p - ret, 100);
    let oka = if i == 0 {
        oka_tenths_of(rules)
    } else {
        0
    };
    &&& i32::MIN <= p - ret <= i32::MAX
    &&& i32::MIN <= uma[i] * 10 <= i32::MAX
    &&& i32::MIN <= pt + uma[i] * 10 <= i32::MAX
    &&& i32::MIN <= pt + uma[i] * 10 + oka <= i32::MAX
}

pub open spec fn scores_fit(rules: RiichiRules, order: Seq<Seat>, points: Seq<i32>, uma: Seq<i32>) -> bool {
    &&& i32::MIN <= oka_tenths_of(rules) <= i32::MAX
    &&& rules.match_rules.first_place_required_points <= i32::MAX
    &&& forall|i: int| 0 <= i < order.len() ==> #[trigger] placement_fits(rules, order, points, uma, i)
}

/// `p` is the placement at rank `i + 1` of the ranking.
pub open spec fn placement_of(rules: RiichiRules, order: Seq<Seat>, points: Seq<i32>, uma: Seq<i32>, i: int, p: MatchPlacement) -> bool {
    let pts = points[order[i]@ as int];
    let pt = trunc_div(pts - rules.match_rules.first_place_required_points, 100);
    let oka = if i == 0 {
        oka_tenths_of(rules)
    } else {
        0
    };
    &&& p.spec_seat() == order[i]
    &&& p.spec_rank() == i + 1
    &&& p.spec_points() == pts
    &&& p.spec_uma_tenths() == uma[i] * 10
    &&& p.spec_oka_tenths() == oka
    &&& p.spec_score_tenths() == pt + uma[i] * 10 + oka
}

/// The uma of a valid rule set has one value per seat.
pub open spec fn uma_shape_ok(rules: RiichiRules) -> bool {
    match rules.settlement.uma {
        PlacementUma::Fixed { values } => values@.len() == seat_count_of(rules.variant),
        PlacementUma::JpmlA => seat_count_of(rules.variant) == 4,
    }
}

proof fn lemma_valid_uma(rules: RiichiRules)
    requires
        rule_violations(rules).len() == 0,
    ensures
        uma_shape_ok(rules),
{
    assert(uma_violations(rules).len() == 0);
}

/// Leaders are unique.
proof fn lemma_leader_unique(points: Seq<i32>, start: int, n: int, a: int, b: int)
    requires
        is_leader(points, start, n, a),
        is_leader(points, start, n, b),
    ensures
        a == b,
{
    if a != b {
        assert(ranks_above(points, start, n, a, b));
        assert(ranks_above(points, start, n, b, a));
    }
}

/// The first seat of a ranking is the leader.
proof fn lemma_ranking_leader(order: Seq<Seat>, points: Seq<i32>, start: int, n: int)
    requires
        is_ranking(order, points, start, n),
        n > 0,
    ensures
        is_leader(points, start, n, order[0]@ as int),
{
    assert forall|s: int| 0 <= s < n && s != order[0]@ implies #[trigger] ranks_above(points, start, n, order[0]@ as int, s) by {
        lemma_ranking_covers(order, n, s);
        let j = choose|j: int| 0 <= j < order.len() && order[j]@ == s;
        assert(j != 0);
        assert(ranks_above(points, start, n, order[0]@ as int, order[j]@ as int));
    }
}

/// A ranking lists every seat.
proof fn lemma_ranking_covers(order: Seq<Seat>, n: int, s: int)
    requires
        order.len() == n,
        forall|i: int| 0 <= i < order.len() ==> (#[trigger] order[i])@ < n,
        forall|i: int, j: int| 0 <= i < j < order.len() ==> #[trigger] order[i] != #[trigger] order[j],
        0 <= s < n,
    ensures
        exists|j: int| 0 <= j < order.len() && order[j]@ == s,
{
    let views = order.map_values(|x: Seat| x@ as int);
    assert forall|i: int, j: int| 0 <= i < j < views.len() implies views[i] != views[j] by {
        assert(order[i] != order[j]);
    }
    assert(views.no_duplicates());
    views.unique_seq_to_set();
    if !(exists|j: int| 0 <= j < order.len() && order[j]@ == s) {
        assert forall|x: int| views.to_set().contains(x) implies vstd::set_lib::set_int_range(0, n).remove(s).contains(x) by {
            let i = choose|i: int| 0 <= i < views.len() && views[i] == x;
            assert(order[i]@ < n);
        }
        vstd::set_lib::lemma_int_range(0, n);
        vstd::set_lib::lemma_len_subset(views.to_set(), vstd::set_lib::set_int_range(0, n).remove(s));
    }
}

fn trunc_div_exec(x: i64, d: i64) -> (r: i64)
    requires
        d == 100,
        x > i64::MIN,
    ensures
        r == trunc_div(x as int, d as int),
{
    if x >= 0 {
        x / d
    } else {
        -((-x) / d)
    }
}

/// The standings of a finished match can be built: the unclaimed riichi sticks fit on the
/// leader's points, and for the ranking of the points then, the uma is defined and every
/// score fits.
pub open spec fn builds(rules: RiichiRules, points: Seq<i32>, start: int, n: int, sticks: int) -> bool {
    let after = as_i32s(with_sticks(points, start, n, sticks));
    &&& sticks_fit(points, start, n, sticks)
    &&& !(rules.settlement.uma is JpmlA && rules.match_rules.return_points > i32::MAX)
    &&& exists|order: Seq<Seat>|
        #[trigger] is_ranking(order, after, start, n) && !jpml_fails(rules, order, after) && scores_fit(
            rules,
            order,
            after,
            uma_for(rules, order, after),
        )
}

/// The JPML-A uma is undefined for the standings: the unclaimed riichi sticks fit on the
/// leader's points, and the ranking of the points then has too many seats floating.
pub open spec fn jpml_refuses(rules: RiichiRules, points: Seq<i32>, start: int, n: int, sticks: int) -> bool {
    let after = as_i32s(with_sticks(points, start, n, sticks));
    &&& sticks_fit(points, start, n, sticks)
    &&& forall|order: Seq<Seat>| #[trigger] is_ranking(order, after, start, n) ==> jpml_fails(rules, order, after)
}

/// The standings of a finished match: the unclaimed riichi sticks go to the leader, then
/// each seat gets its points over the return points in tenths, its uma by rank, and the
/// leader the oka.
#[verifier::rlimit(60)]
fn build_match_result(
    rules: &RiichiRules,
    starting_dealer: Seat,
    end_reason: MatchEndReason,
    hand_count: u32,
    points: &[i32],
    unclaimed_riichi_sticks: u32,
) -> (r: Result<MatchResult, MatchError>)
    requires
        uma_shape_ok(*rules),
        points@.len() == seat_count_of(rules.variant),
        starting_dealer@ < seat_count_of(rules.variant),
    ensures
        ({
            let n = seat_count_of(rules.variant) as int;
            let start = starting_dealer@ as int;
            let sticks = unclaimed_riichi_sticks as int;
            let after = with_sticks(points@, start, n, sticks);
            &&& !sticks_fit(points@, start, n, sticks) ==> (r matches Err(MatchError::ScoreOverflow))
            &&& r matches Ok(res) ==> {
                let order = res.spec_placements().map_values(|p: MatchPlacement| p.spec_seat());
                let uma = uma_for(*rules, order, as_i32s(after));
                &&& sticks_fit(points@, start, n, sticks)
                &&& res.spec_final_points() == as_i32s(after)
                &&& is_ranking(order, as_i32s(after), start, n)
                &&& !jpml_fails(*rules, order, as_i32s(after))
                &&& scores_fit(*rules, order, as_i32s(after), uma)
                &&& res.spec_placements().len() == n
                &&& forall|i: int| 0 <= i < n ==> #[trigger] placement_of(*rules, order, as_i32s(after), uma, i, res.spec_placements()[i])
                &&& res.spec_end_reason() == end_reason
                &&& res.spec_starting_dealer() == starting_dealer
                &&& res.spec_hand_count() == hand_count
                &&& res.spec_unclaimed_riichi_sticks_awarded() == unclaimed_riichi_sticks
            }
            &&& r matches Err(MatchError::InvalidJpmlAState) ==> sticks_fit(points@, start, n, sticks) && forall|order: Seq<Seat>|
                is_ranking(order, as_i32s(after), start, n) ==> jpml_fails(*rules, order, as_i32s(after))
            &&& r matches Err(e) ==> (e is ScoreOverflow || e is InvalidJpmlAState)
            &&& (r is Ok <==> builds(*rules, points@, start, n, sticks))
            &&& jpml_refuses(*rules, points@, start, n, sticks) ==> (r matches Err(MatchError::InvalidJpmlAState))
        }),
{
    let n = rules.variant.seat_count().value();
    let start = starting_dealer.index();
    let ghost nn = n as int;
    let ghost sticks = unclaimed_riichi_sticks as int;
    let mut final_points: Vec<i32> = Vec::new();
    let mut i: usize = 0;
    while i < points.len()
        invariant
            i <= points@.len(),
            final_points@ == points@.take(i as int),
        decreases points@.len() - i,
    {
        final_points.push(points[i]);
        i = i + 1;
        assert(final_points@ =~= points@.take(i as int));
    }
    assert(points@.take(i as int) =~= points@);
    if unclaimed_riichi_sticks > 0 {
        let order = ranking_order(points, starting_dealer, rules.variant);
        proof {
            lemma_ranking_leader(order@, points@, start as int, nn);
            let l = choose|l: int| is_leader(points@, start as int, nn, l);
            lemma_leader_unique(points@, start as int, nn, l, order@[0]@ as int);
        }
        let leader = order[0].index() as usize;
        let award = unclaimed_riichi_sticks as u64 * 1000;
        if award > i32::MAX as u64 {
            return Err(MatchError::ScoreOverflow);
        }
        let current = final_points[leader];
        if current as i64 + award as i64 > i32::MAX as i64 {
            proof {
                let l = choose|l: int| is_leader(points@, start as int, nn, l);
                lemma_leader_unique(points@, start as int, nn, l, order@[0]@ as int);
            }
            return Err(MatchError::ScoreOverflow);
        }
        final_points.set(leader, current + award as i32);
    }
    let ghost after = with_sticks(points@, start as int, nn, sticks);
    assert(final_points@ =~= as_i32s(after));
    let order = ranking_order(final_points.as_slice(), starting_dealer, rules.variant);
    let uma = match placement_uma(rules, final_points.as_slice(), order.as_slice()) {
        Ok(uma) => uma,
        Err(e) => {
            proof {
                if e is InvalidJpmlAState {
                    assert forall|o: Seq<Seat>| is_ranking(o, as_i32s(after), start as int, nn) implies jpml_fails(*rules, o, as_i32s(after)) by {
                        lemma_ranking_unique(o, order@, as_i32s(after), start as int, nn);
                    }
                }
                if builds(*rules, points@, start as int, nn, sticks) {
                    lemma_builds_order(*rules, points@, start as int, nn, sticks, order@);
                }
            }
            return Err(e);
        },
    };
    let ghost uma_spec = uma_for(*rules, order@, final_points@);
    assert(uma@ == uma_spec);
    assert(uma@.len() == nn);
    proof {
        if builds(*rules, points@, start as int, nn, sticks) {
            lemma_builds_order(*rules, points@, start as int, nn, sticks, order@);
        }
        if jpml_refuses(*rules, points@, start as int, nn, sticks) {
            assert(is_ranking(order@, as_i32s(after), start as int, nn));
        }
    }
    let oka_diff: i64 = rules.match_rules.first_place_required_points as i64 - rules.match_rules.initial_points as i64;
    let seats = n as i64;
    assert(-17179869184 <= oka_diff * seats <= 17179869184) by (nonlinear_arith)
        requires
            -4294967296 <= oka_diff <= 4294967296,
            0 <= seats <= 4,
    ;
    let oka_total: i64 = oka_diff * seats;
    let oka_quotient: i64 = if oka_total >= 0 {
        oka_total / 100
    } else {
        -((-oka_total) / 100)
    };
    if oka_quotient < i32::MIN as i64 || oka_quotient > i32::MAX as i64 {
        return Err(MatchError::ScoreOverflow);
    }
    let oka_tenths = oka_quotient as i32;
    if rules.match_rules.first_place_required_points > i32::MAX as u32 {
        return Err(MatchError::ScoreOverflow);
    }
    let target_points = rules.match_rules.first_place_required_points as i32;
    let mut placements: Vec<MatchPlacement> = Vec::new();
    let mut rank_index: usize = 0;
    while rank_index < order.len()
        invariant
            rank_index <= order@.len(),
            order@.len() == nn,
            nn == seat_count_of(rules.variant),
            uma@.len() == nn,
            uma@ == uma_spec,
            uma_spec == uma_for(*rules, order@, final_points@),
            final_points@.len() == nn,
            forall|x: int| 0 <= x < order@.len() ==> (#[trigger] order@[x])@ < nn,
            oka_tenths == oka_tenths_of(*rules),
            target_points == rules.match_rules.first_place_required_points,
            placements@.len() == rank_index,
            forall|x: int| 0 <= x < rank_index ==> #[trigger] placement_of(*rules, order@, final_points@, uma_spec, x, placements@[x]),
            forall|x: int| 0 <= x < rank_index ==> #[trigger] placement_fits(*rules, order@, final_points@, uma_spec, x),
            builds(*rules, points@, start as int, nn, sticks) ==> scores_fit(*rules, order@, final_points@, uma_spec),
            start == starting_dealer@,
            sticks == unclaimed_riichi_sticks as int,
            !jpml_refuses(*rules, points@, start as int, nn, sticks),
        decreases order@.len() - rank_index,
    {
        let seat = order[rank_index];
        let seat_points = final_points[seat.index() as usize];
        let diff = seat_points as i64 - target_points as i64;
        if diff < i32::MIN as i64 || diff > i32::MAX as i64 {
            proof {
                assert(!placement_fits(*rules, order@, final_points@, uma_spec, rank_index as int));
                if builds(*rules, points@, start as int, nn, sticks) {
                    assert(scores_fit(*rules, order@, final_points@, uma_spec));
                    assert(placement_fits(*rules, order@, final_points@, uma_spec, rank_index as int));
                }
                assert(!builds(*rules, points@, start as int, nn, sticks));
            }
            return Err(MatchError::ScoreOverflow);
        }
        let point_tenths = trunc_div_exec(diff, 100);
        let uma_wide = uma[rank_index] as i64 * 10;
        if uma_wide < i32::MIN as i64 || uma_wide > i32::MAX as i64 {
            proof {
                assert(!placement_fits(*rules, order@, final_points@, uma_spec, rank_index as int));
            }
            return Err(MatchError::ScoreOverflow);
        }
        let uma_tenths = uma_wide as i32;
        let seat_oka: i32 = if rank_index == 0 {
            oka_tenths
        } else {
            0
        };
        let partial = point_tenths as i64 + uma_tenths as i64;
        let score = partial + seat_oka as i64;
        if partial < i32::MIN as i64 || partial > i32::MAX as i64 || score < i32::MIN as i64 || score > i32::MAX as i64 {
            proof {
                assert(!placement_fits(*rules, order@, final_points@, uma_spec, rank_index as int));
            }
            return Err(MatchError::ScoreOverflow);
        }
        let placement = MatchPlacement {
            seat,
            rank: (rank_index + 1) as u8,
            points: seat_points,
            uma_tenths,
            oka_tenths: seat_oka,
            score_tenths: score as i32,
        };
        proof {
            assert(placement_fits(*rules, order@, final_points@, uma_spec, rank_index as int));
        }
        placements.push(placement);
        rank_index = rank_index + 1;
    }
    let ghost fp = final_points@;
    let ghost pl = placements@;
    let result = MatchResult {
        end_reason,
        starting_dealer,
        hand_count,
        final_points,
        placements,
        unclaimed_riichi_sticks_awarded: unclaimed_riichi_sticks,
    };
    proof {
        let o = result.spec_placements().map_values(|p: MatchPlacement| p.spec_seat());
        assert forall|i: int| 0 <= i < order@.len() implies o[i] == order@[i] by {
            assert(placement_of(*rules, order@, fp, uma_spec, i, pl[i]));
        }
        assert(o =~= order@);
        assert(is_ranking(order@, as_i32s(after), start as int, nn));
    }
    Ok(result)
}

/// When the standings can be built, the ranking at hand has a defined uma and every score
/// fits.
proof fn lemma_builds_order(rules: RiichiRules, points: Seq<i32>, start: int, n: int, sticks: int, order: Seq<Seat>)
    requires
        builds(rules, points, start, n, sticks),
        is_ranking(order, as_i32s(with_sticks(points, start, n, sticks)), start, n),
    ensures
        !jpml_fails(rules, order, as_i32s(with_sticks(points, start, n, sticks))),
        scores_fit(
            rules,
            order,
            as_i32s(with_sticks(points, start, n, sticks)),
            uma_for(rules, order, as_i32s(with_sticks(points, start, n, sticks))),
        ),
{
    let after = as_i32s(with_sticks(points, start, n, sticks));
    let o = choose|o: Seq<Seat>|
        #[trigger] is_ranking(o, after, start, n) && !jpml_fails(rules, o, after) && scores_fit(
            rules,
            o,
            after,
            uma_for(rules, o, after),
        );
    lemma_ranking_unique(o, order, after, start, n);
}

/// A ranking is unique.
proof fn lemma_ranking_unique(a: Seq<Seat>, b: Seq<Seat>, points: Seq<i32>, start: int, n: int)
    requires
        is_ranking(a, points, start, n),
        is_ranking(b, points, start, n),
    ensures
        a == b,
    decreases n,
{
    assert forall|i: int| 0 <= i < n implies a[i] == b[i] by {
        lemma_rank_position(a, b, points, start, n, i);
    }
    assert(a =~= b);
}

/// The seat at each position of a ranking is fixed by how many seats rank above it.
proof fn lemma_rank_position(a: Seq<Seat>, b: Seq<Seat>, points: Seq<i32>, start: int, n: int, i: int)
    requires
        is_ranking(a, points, start, n),
        is_ranking(b, points, start, n),
        0 <= i < n,
    ensures
        a[i] == b[i],
{
    let s = a[i]@ as int;
    lemma_ranking_covers(b, n, s);
    let j = choose|j: int| 0 <= j < b.len() && b[j]@ == s;
    lemma_ranking_count(a, b, points, start, n, i, j);
}

/// In two rankings, the seat at position `i` of one sits at the same position of the other:
/// the seats above it are the same set.
proof fn lemma_ranking_count(a: Seq<Seat>, b: Seq<Seat>, points: Seq<i32>, start: int, n: int, i: int, j: int)
    requires
        is_ranking(a, points, start, n),
        is_ranking(b, points, start, n),
        0 <= i < n,
        0 <= j < n,
        b[j]@ == a[i]@,
    ensures
        i == j,
{
    let s = a[i]@ as int;
    let above_a = Set::new(|x: int| exists|m: int| 0 <= m < i && a[m]@ == x);
    let above_b = Set::new(|x: int| exists|m: int| 0 <= m < j && b[m]@ == x);
    assert(above_a =~= above_b) by {
        assert forall|x: int| above_a.contains(x) implies above_b.contains(x) by {
            let m = choose|m: int| 0 <= m < i && a[m]@ == x;
            assert(ranks_above(points, start, n, x, s));
            lemma_ranking_covers(b, n, x);
            let m2 = choose|m2: int| 0 <= m2 < b.len() && b[m2]@ == x;
            if m2 >= j {
                if m2 > j {
                    assert(ranks_above(points, start, n, s, x));
                }
                assert(m2 != j) by {
                    assert(a[m] != a[i]);
                }
            }
        }
        assert forall|x: int| above_b.contains(x) implies above_a.contains(x) by {
            let m = choose|m: int| 0 <= m < j && b[m]@ == x;
            assert(ranks_above(points, start, n, x, s));
            lemma_ranking_covers(a, n, x);
            let m2 = choose|m2: int| 0 <= m2 < a.len() && a[m2]@ == x;
            if m2 >= i {
                if m2 > i {
                    assert(ranks_above(points, start, n, s, x));
                }
                assert(m2 != i) by {
                    assert(b[m] != b[j]);
                }
            }
        }
    }
    lemma_prefix_set_len(a, i, n);
    lemma_prefix_set_len(b, j, n);
}

/// The seats of the first `i` positions of a ranking are `i` different seats.
proof fn lemma_prefix_set_len(a: Seq<Seat>, i: int, n: int)
    requires
        0 <= i <= a.len(),
        forall|x: int, y: int| 0 <= x < y < a.len() ==> #[trigger] a[x] != #[trigger] a[y],
    ensures
        Set::new(|x: int| exists|m: int| 0 <= m < i && a[m]@ == x).len() == i,
        Set::new(|x: int| exists|m: int| 0 <= m < i && a[m]@ == x).finite(),
{
    let views = a.take(i).map_values(|s: Seat| s@ as int);
    assert forall|x: int, y: int| 0 <= x < y < views.len() implies views[x] != views[y] by {
        assert(a[x] != a[y]);
    }
    assert(views.no_duplicates());
    views.unique_seq_to_set();
    assert(views.to_set() =~= Set::new(|x: int| exists|m: int| 0 <= m < i && a[m]@ == x)) by {
        assert forall|x: int| Set::new(|x: int| exists|m: int| 0 <= m < i && a[m]@ == x).contains(x) implies views.to_set().contains(x) by {
            let m = choose|m: int| 0 <= m < i && a[m]@ == x;
            assert(views[m] == x);
        }
    }
}

/// A match of riichi hands from the first deal to its end.
#[derive(Clone, Debug, PartialEq, Eq)]
pub struct RiichiMatch {
    pub(crate) rules: RiichiRules,
    pub(crate) starting_dealer: Seat,
    pub(crate) progress: TableProgress,
    pub(crate) points: Vec<i32>,
    pub(crate) hands: Vec<HandResult>,
    pub(crate) result: Option<MatchResult>,
}

/// The standings `res` of a match that ended for `reason` after `count` hands with `points`
/// and `sticks` riichi sticks left on the table.
pub open spec fn standings(
    rules: RiichiRules,
    starting_dealer: Seat,
    reason: MatchEndReason,
    count: int,
    points: Seq<i32>,
    sticks: int,
    res: MatchResult,
) -> bool {
    let n = seat_count_of(rules.variant) as int;
    let start = starting_dealer@ as int;
    let after = with_sticks(points, start, n, sticks);
    let order = res.spec_placements().map_values(|p: MatchPlacement| p.spec_seat());
    let uma = uma_for(rules, order, as_i32s(after));
    &&& sticks_fit(points, start, n, sticks)
    &&& res.spec_final_points() == as_i32s(after)
    &&& is_ranking(order, as_i32s(after), start, n)
    &&& !jpml_fails(rules, order, as_i32s(after))
    &&& scores_fit(rules, order, as_i32s(after), uma)
    &&& res.spec_placements().len() == n
    &&& forall|i: int| 0 <= i < n ==> #[trigger] placement_of(rules, order, as_i32s(after), uma, i, res.spec_placements()[i])
    &&& res.spec_end_reason() == reason
    &&& res.spec_starting_dealer() == starting_dealer
    &&& res.spec_hand_count() == count
    &&& res.spec_unclaimed_riichi_sticks_awarded() == sticks
}

/// The table is at the last hand that the match length schedules.
pub open spec fn is_last_scheduled(rules: RiichiRules, progress: TableProgress) -> bool {
    let final_wind = match rules.match_rules.length {
        MatchLength::EastOnly => Wind::East,
        MatchLength::Hanchan => Wind::South,
    };
    progress.spec_round_wind() == final_wind && progress.spec_round_number()@ == seat_count_of(rules.variant)
}

/// Why the match ends after `hand`, if it does: a player below zero with tobi, the last
/// dealer winning in the lead with agari-yame, or the last scheduled hand passing the deal.
pub open spec fn match_end(rules: RiichiRules, start: Seat, progress: TableProgress, hand: HandResult) -> Option<MatchEndReason> {
    let after = hand.spec_points_after();
    let n = seat_count_of(rules.variant) as int;
    if rules.match_rules.tobi && exists|i: int| 0 <= i < after.len() && #[trigger] after[i] < 0 {
        Some(MatchEndReason::Tobi)
    } else if !is_last_scheduled(rules, progress) {
        None
    } else if rules.match_rules.agari_yame && hand.spec_dealer_continues() && (hand.spec_reason() == HandEnd::Tsumo
        || hand.spec_reason() == HandEnd::Ron) && (exists|i: int|
        0 <= i < hand.spec_winners().len() && #[trigger] hand.spec_winners()[i].spec_seat() == progress.spec_dealer())
        && is_leader(after, start@ as int, n, progress.spec_dealer()@ as int) {
        Some(MatchEndReason::AgariYame)
    } else if !hand.spec_dealer_continues() {
        Some(MatchEndReason::ScheduledEnd)
    } else {
        None
    }
}

impl RiichiMatch {
    pub closed spec fn spec_rules(&self) -> RiichiRules {
        self.rules
    }

    pub closed spec fn spec_starting_dealer(&self) -> Seat {
        self.starting_dealer
    }

    pub closed spec fn spec_progress(&self) -> TableProgress {
        self.progress
    }

    pub closed spec fn spec_points(&self) -> Seq<i32> {
        self.points@
    }

    pub closed spec fn spec_hands(&self) -> Seq<HandResult> {
        self.hands@
    }

    pub closed spec fn spec_result(&self) -> Option<MatchResult> {
        self.result
    }

    /// What every match satisfies: valid rules, a starting dealer and a table of their
    /// variant, one score per seat.
    pub closed spec fn well_formed(&self) -> bool {
        &&& rule_violations(self.rules).len() == 0
        &&& self.starting_dealer@ < seat_count_of(self.rules.variant)
        &&& self.progress.spec_variant() == self.rules.variant
        &&& self.points@.len() == seat_count_of(self.rules.variant)
    }

    /// Starts a match at East 1 with every seat at the initial points.
    pub fn start(rules: RiichiRules, starting_dealer: Seat) -> (r: Result<RiichiMatch, MatchError>)
        ensures
            rule_violations(rules).len() > 0 ==> (r matches Err(MatchError::InvalidRules(_))),
            rule_violations(rules).len() == 0 && starting_dealer@ >= seat_count_of(rules.variant) ==> (r matches Err(
                MatchError::InvalidStartingDealer,
            )),
            rule_violations(rules).len() == 0 && starting_dealer@ < seat_count_of(rules.variant)
                && rules.match_rules.initial_points > i32::MAX ==> (r matches Err(MatchError::ScoreOverflow)),
            r is Ok <==> (rule_violations(rules).len() == 0 && starting_dealer@ < seat_count_of(rules.variant)
                && rules.match_rules.initial_points <= i32::MAX),
            r matches Ok(m) ==> {
                &&& m.well_formed()
                &&& m.spec_rules() == rules
                &&& m.spec_starting_dealer() == starting_dealer
                &&& m.spec_progress().spec_variant() == rules.variant
                &&& m.spec_progress().spec_round_wind() == Wind::East
                &&& m.spec_progress().spec_round_number()@ == 1
                &&& m.spec_progress().spec_dealer() == starting_dealer
                &&& m.spec_progress().spec_honba()@ == 0
                &&& m.spec_progress().spec_riichi_sticks()@ == 0
                &&& m.spec_points().len() == seat_count_of(rules.variant)
                &&& forall|i: int| 0 <= i < m.spec_points().len() ==> #[trigger] m.spec_points()[i] == rules.match_rules.initial_points
                &&& m.spec_hands().len() == 0
                &&& m.spec_result() is None
            },
    {
        match rules.validate() {
            Ok(()) => {},
            Err(errors) => {
                return Err(MatchError::InvalidRules(errors));
            },
        }
        let n = rules.variant.seat_count().value();
        if starting_dealer.index() >= n {
            return Err(MatchError::InvalidStartingDealer);
        }
        if rules.match_rules.initial_points > i32::MAX as u32 {
            return Err(MatchError::ScoreOverflow);
        }
        let initial = rules.match_rules.initial_points as i32;
        let progress = match TableProgress::east_one(rules.variant, starting_dealer) {
            Ok(progress) => progress,
            Err(_) => {
                return Err(MatchError::InvalidStartingDealer);
            },
        };
        let mut points: Vec<i32> = Vec::new();
        let mut i: u8 = 0;
        while i < n
            invariant
                i <= n,
                points@.len() == i,
                forall|j: int| 0 <= j < i ==> #[trigger] points@[j] == initial,
            decreases n - i,
        {
            points.push(initial);
            i = i + 1;
        }
        Ok(RiichiMatch { rules, starting_dealer, progress, points, hands: Vec::new(), result: None })
    }

    #[must_use]
    pub fn rules(&self) -> (r: &RiichiRules)
        ensures
            *r == self.spec_rules(),
    {
        &self.rules
    }

    #[must_use]
    pub fn progress(&self) -> (r: TableProgress)
        ensures
            r == self.spec_progress(),
    {
        self.progress
    }

    #[must_use]
    pub fn points(&self) -> (r: &[i32])
        ensures
            r@ == self.spec_points(),
    {
        self.points.as_slice()
    }

    #[must_use]
    pub fn hands(&self) -> (r: &[HandResult])
        ensures
            r@ == self.spec_hands(),
    {
        self.hands.as_slice()
    }

    #[must_use]
    pub fn result(&self) -> (r: Option<&MatchResult>)
        ensures
            r matches Some(res) ==> self.spec_result() == Some(*res),
            r is None <==> self.spec_result() is None,
    {
        match &self.result {
            Some(res) => Some(res),
            None => None,
        }
    }

    /// Continues the match from the given table and scores, as when a recorded match is
    /// replayed from its middle; refuses a table of another variant or a wrong number of
    /// scores.
    pub fn resume_at(&mut self, progress: TableProgress, points: Vec<i32>) -> (r: Result<(), MatchError>)
        requires
            old(self).well_formed(),
        ensures
            final(self).well_formed(),
            progress.spec_variant() != old(self).spec_rules().variant ==> (r matches Err(MatchError::ProgressMismatch)),
            progress.spec_variant() == old(self).spec_rules().variant && points@.len() != seat_count_of(
                old(self).spec_rules().variant,
            ) ==> (r matches Err(MatchError::PointsMismatch)),
            r is Err ==> *final(self) == *old(self),
            r is Ok ==> final(self).spec_progress() == progress && final(self).spec_points() == points@
                && final(self).spec_rules() == old(self).spec_rules() && final(self).spec_starting_dealer()
                == old(self).spec_starting_dealer() && final(self).spec_hands() == old(self).spec_hands()
                && final(self).spec_result() == old(self).spec_result(),
    {
        if progress.variant() != self.rules.variant {
            return Err(MatchError::ProgressMismatch);
        }
        if points.len() != self.rules.variant.seat_count().value() as usize {
            return Err(MatchError::PointsMismatch);
        }
        self.progress = progress;
        self.points = points;
        Ok(())
    }

    fn end_reason_after(&self, hand: &HandResult) -> (r: Option<MatchEndReason>)
        requires
            self.well_formed(),
            hand.spec_points_after().len() == seat_count_of(self.rules.variant),
        ensures
            r == match_end(self.rules, self.starting_dealer, self.progress, *hand),
    {
        let after = hand.points_after();
        if self.rules.match_rules.tobi {
            let mut i: usize = 0;
            while i < after.len()
                invariant
                    i <= after@.len(),
                    after@ == hand.spec_points_after(),
                    self.rules.match_rules.tobi,
                    forall|j: int| 0 <= j < i ==> #[trigger] after@[j] >= 0,
                decreases after@.len() - i,
            {
                if after[i] < 0 {
                    assert(after@[i as int] < 0);
                    return Some(MatchEndReason::Tobi);
                }
                i = i + 1;
            }
        }
        let n = self.rules.variant.seat_count().value();
        let final_wind = match self.rules.match_rules.length {
            MatchLength::EastOnly => Wind::East,
            MatchLength::Hanchan => Wind::South,
        };
        if !(self.progress.round_wind() == final_wind && self.progress.round_number().value() == n) {
            return None;
        }
        let dealer = self.progress.dealer();
        let reason = hand.reason();
        let won = match reason {
            HandEnd::Tsumo | HandEnd::Ron => true,
            _ => false,
        };
        if self.rules.match_rules.agari_yame && hand.dealer_continues() && won {
            let winners = hand.winners();
            let mut dealer_won = false;
            let mut k: usize = 0;
            while k < winners.len()
                invariant
                    k <= winners@.len(),
                    dealer_won == (exists|i: int| 0 <= i < k && #[trigger] winners@[i].spec_seat() == dealer),
                decreases winners@.len() - k,
            {
                if winners[k].seat().index() == dealer.index() {
                    assert(winners@[k as int].spec_seat() == dealer);
                    dealer_won = true;
                }
                k = k + 1;
            }
            if dealer_won {
                let order = ranking_order(after, self.starting_dealer, self.rules.variant);
                proof {
                    lemma_ranking_leader(order@, after@, self.starting_dealer@ as int, n as int);
                    if is_leader(after@, self.starting_dealer@ as int, n as int, dealer@ as int) {
                        lemma_leader_unique(after@, self.starting_dealer@ as int, n as int, dealer@ as int, order@[0]@ as int);
                    }
                }
                if order[0].index() == dealer.index() {
                    return Some(MatchEndReason::AgariYame);
                }
            }
        }
        if !hand.dealer_continues() {
            Some(MatchEndReason::ScheduledEnd)
        } else {
            None
        }
    }

    /// Records a settled hand: it must be the hand of the current table and scores; ends the
    /// match when the hand does, with the final standings.
    pub fn apply_hand(&mut self, hand: HandResult) -> (r: Result<Option<MatchResult>, MatchError>)
        requires
            old(self).well_formed(),
            hand.well_formed(),
        ensures
            final(self).well_formed(),
            r is Err ==> *final(self) == *old(self),
            old(self).spec_result() is Some ==> (r matches Err(MatchError::AlreadyFinished)),
            old(self).spec_result() is None && hand.spec_progress() != old(self).spec_progress() ==> (r matches Err(
                MatchError::ProgressMismatch,
            )),
            old(self).spec_result() is None && hand.spec_progress() == old(self).spec_progress()
                && hand.spec_points_before() != old(self).spec_points() ==> (r matches Err(MatchError::PointsMismatch)),
            old(self).spec_result() is None && hand.spec_progress() == old(self).spec_progress()
                && hand.spec_points_before() == old(self).spec_points() && old(self).spec_hands().len() + 1 > u32::MAX
                ==> (r matches Err(MatchError::HandCountOverflow)),
            old(self).spec_result() is None && hand.spec_progress() == old(self).spec_progress()
                && hand.spec_points_before() == old(self).spec_points() && old(self).spec_hands().len() + 1 <= u32::MAX
                ==> {
                let end = match_end(old(self).spec_rules(), old(self).spec_starting_dealer(), old(self).spec_progress(), hand);
                &&& (r is Ok <==> (end is None || builds(
                    old(self).spec_rules(),
                    hand.spec_points_after(),
                    old(self).spec_starting_dealer()@ as int,
                    seat_count_of(old(self).spec_rules().variant) as int,
                    hand.spec_next_progress().spec_riichi_sticks()@ as int,
                )))
                &&& r matches Err(e) ==> (e is ScoreOverflow || e is InvalidJpmlAState)
                &&& (r matches Err(MatchError::InvalidJpmlAState)) <==> (end is Some && jpml_refuses(
                    old(self).spec_rules(),
                    hand.spec_points_after(),
                    old(self).spec_starting_dealer()@ as int,
                    seat_count_of(old(self).spec_rules().variant) as int,
                    hand.spec_next_progress().spec_riichi_sticks()@ as int,
                ))
            },
            r matches Ok(res) ==> {
                let end = match_end(old(self).spec_rules(), old(self).spec_starting_dealer(), old(self).spec_progress(), hand);
                &&& old(self).spec_result() is None
                &&& hand.spec_progress() == old(self).spec_progress()
                &&& hand.spec_points_before() == old(self).spec_points()
                &&& final(self).spec_points() == hand.spec_points_after()
                &&& final(self).spec_progress() == hand.spec_next_progress()
                &&& final(self).spec_hands() == old(self).spec_hands().push(hand)
                &&& final(self).spec_rules() == old(self).spec_rules()
                &&& final(self).spec_starting_dealer() == old(self).spec_starting_dealer()
                &&& (res is Some <==> end is Some)
                &&& (final(self).spec_result() is Some <==> end is Some)
                &&& res matches Some(standing) ==> final(self).spec_result() matches Some(kept) && kept.same_as(standing)
                    && standings(
                    old(self).spec_rules(),
                    old(self).spec_starting_dealer(),
                    end->0,
                    (old(self).spec_hands().len() + 1) as int,
                    hand.spec_points_after(),
                    hand.spec_next_progress().spec_riichi_sticks()@ as int,
                    standing,
                )
            },
    {
        if self.result.is_some() {
            return Err(MatchError::AlreadyFinished);
        }
        if hand.progress() != self.progress {
            return Err(MatchError::ProgressMismatch);
        }
        let before = hand.points_before();
        if before.len() != self.points.len() {
            return Err(MatchError::PointsMismatch);
        }
        let mut i: usize = 0;
        while i < before.len()
            invariant
                i <= before@.len(),
                before@.len() == self.points@.len(),
                before@ == hand.spec_points_before(),
                self.well_formed(),
                self.result is None,
                hand.spec_progress() == self.progress,
                forall|j: int| 0 <= j < i ==> before@[j] == self.points@[j],
            decreases before@.len() - i,
        {
            if before[i] != self.points[i] {
                return Err(MatchError::PointsMismatch);
            }
            i = i + 1;
        }
        assert(before@ =~= self.points@);
        let end_reason = self.end_reason_after(&hand);
        if self.hands.len() >= u32::MAX as usize {
            return Err(MatchError::HandCountOverflow);
        }
        let hand_count = (self.hands.len() + 1) as u32;
        proof {
            lemma_valid_uma(self.rules);
        }
        let final_result = match end_reason {
            Some(reason) => {
                match build_match_result(
                    &self.rules,
                    self.starting_dealer,
                    reason,
                    hand_count,
                    hand.points_after(),
                    hand.next_progress().riichi_sticks().value(),
                ) {
                    Ok(res) => Some(res),
                    Err(e) => {
                        return Err(e);
                    },
                }
            },
            None => None,
        };
        let after = hand.points_after();
        let mut points: Vec<i32> = Vec::new();
        let mut j: usize = 0;
        while j < after.len()
            invariant
                j <= after@.len(),
                points@ == after@.take(j as int),
            decreases after@.len() - j,
        {
            points.push(after[j]);
            j = j + 1;
            assert(points@ =~= after@.take(j as int));
        }
        assert(after@.take(j as int) =~= after@);
        self.points = points;
        self.progress = hand.next_progress();
        self.hands.push(hand);
        let answer = match &final_result {
            Some(res) => Some(res.duplicate()),
            None => None,
        };
        self.result = final_result;
        Ok(answer)
    }
}

} // verus!
