use vstd::prelude::*;

use crate::text::{decimal_chars, with_number};

use super::config::{PlacementUma, RiichiRules};
use super::tile::Suit;
use super::tile_set::{seat_count_of, RiichiVariant};

verus! {

/// One broken rule: a stable code, the offending field and an explanation.
#[derive(Clone, Debug, PartialEq, Eq)]
pub struct RuleViolation {
    code: &'static str,
    field: &'static str,
    message: String,
}

/// What a violation says: its code, field and message.
pub type ViolationKey = (Seq<char>, Seq<char>, Seq<char>);

impl RuleViolation {
    pub closed spec fn key(self) -> ViolationKey {
        (self.code@, self.field@, self.message@)
    }

    pub(crate) fn new(code: &'static str, field: &'static str, message: String) -> (r: RuleViolation)
        ensures
            r.key() == (code@, field@, message@),
    {
        RuleViolation { code, field, message }
    }

    #[must_use]
    pub fn code(&self) -> (r: &'static str)
        ensures
            r@ == self.key().0,
    {
        self.code
    }

    #[must_use]
    pub fn field(&self) -> (r: &'static str)
        ensures
            r@ == self.key().1,
    {
        self.field
    }

    #[must_use]
    pub fn message(&self) -> (r: &str)
        ensures
            r@ == self.key().2,
    {
        self.message.as_str()
    }
}

/// A non-empty list of rule violations.
#[derive(Clone, Debug, PartialEq, Eq)]
pub struct ValidationErrors {
    violations: Vec<RuleViolation>,
}

/// What each violation in the list says.
pub open spec fn violation_keys(violations: Seq<RuleViolation>) -> Seq<ViolationKey> {
    violations.map_values(|v: RuleViolation| v.key())
}

impl ValidationErrors {
    pub closed spec fn spec_violations(&self) -> Seq<RuleViolation> {
        self.violations@
    }

    pub(crate) fn new(violations: Vec<RuleViolation>) -> (r: ValidationErrors)
        ensures
            r.spec_violations() == violations@,
    {
        ValidationErrors { violations }
    }

    #[must_use]
    pub fn violations(&self) -> (r: &[RuleViolation])
        ensures
            r@ == self.spec_violations(),
    {
        self.violations.as_slice()
    }

    #[must_use]
    pub fn len(&self) -> (r: usize)
        ensures
            r == self.spec_violations().len(),
    {
        self.violations.len()
    }

    #[must_use]
    pub fn is_empty(&self) -> (r: bool)
        ensures
            r == (self.spec_violations().len() == 0),
    {
        self.violations.len() == 0
    }

    /// A one-line summary: how many violations the configuration contains.
    #[must_use]
    pub fn summary(&self) -> (r: String)
        ensures
            r@ == "rule configuration contains "@ + decimal_chars(self.spec_violations().len())
                + " violation(s)"@,
    {
        let mut text = with_number("rule configuration contains ", self.violations.len() as u64);
        text.append(" violation(s)");
        text
    }
}

/// A violation key made of literal parts.
pub open spec fn key_of(code: &str, field: &str, message: Seq<char>) -> ViolationKey {
    (code@, field@, message)
}

/// The violations of a configured point value.
pub open spec fn points_violations(points: u32, field: &str) -> Seq<ViolationKey> {
    (if !(1000 <= points <= 1_000_000) {
        seq![
            key_of(
                "rules.points.out_of_range",
                field,
                "must be between 1000 and 1000000, got "@ + decimal_chars(points as nat),
            ),
        ]
    } else {
        seq![]
    }) + (if points % 1000 != 0 {
        seq![
            key_of(
                "rules.points.not_thousand_aligned",
                field,
                "must be a multiple of 1000, got "@ + decimal_chars(points as nat),
            ),
        ]
    } else {
        seq![]
    })
}

/// The violations of the thinking-time setting.
pub open spec fn thinking_time_violations(rules: RiichiRules) -> Seq<ViolationKey> {
    let base = rules.match_rules.thinking_time.base_seconds;
    let reserve = rules.match_rules.thinking_time.reserve_seconds;
    if (base == 5 && (reserve == 0 || reserve == 20 || reserve == 60)) || (base == 15 && reserve
        == 60) {
        seq![]
    } else {
        seq![
            key_of(
                "rules.thinking_time.unsupported",
                "match_rules.thinking_time",
                "must be one of 5+0, 5+20, 5+60, or 15+60"@,
            ),
        ]
    }
}

/// Whether a noten payment cannot be split evenly for some number of tenpai players.
pub open spec fn noten_indivisible(points: u32, seat_count: u8) -> bool {
    exists|count: int|
        1 <= count < seat_count && (#[trigger] (points as int % count) != 0 || points as int % (
        seat_count - count) != 0)
}

/// The violations of the noten payment.
pub open spec fn noten_violations(points: u32, variant: RiichiVariant) -> Seq<ViolationKey> {
    let field = "settlement.noten_payment";
    (if points > 100_000 {
        seq![
            key_of(
                "rules.noten_payment.out_of_range",
                field,
                "must be at most 100000, got "@ + decimal_chars(points as nat),
            ),
        ]
    } else {
        seq![]
    }) + (if points % 1000 != 0 {
        seq![
            key_of(
                "rules.points.not_thousand_aligned",
                field,
                "must be a multiple of 1000, got "@ + decimal_chars(points as nat),
            ),
        ]
    } else {
        seq![]
    }) + (if points > 0 && noten_indivisible(points, seat_count_of(variant)) {
        seq![
            key_of(
                "rules.noten_payment.indivisible",
                field,
                "must divide evenly for every possible tenpai/noten split"@,
            ),
        ]
    } else {
        seq![]
    })
}

/// The violation of one suit's red-five count.
pub open spec fn red_violation(count: u8, field: &str) -> Seq<ViolationKey> {
    if count > 4 {
        seq![
            key_of(
                "rules.red_fives.too_many",
                field,
                "must be at most 4, got "@ + decimal_chars(count as nat),
            ),
        ]
    } else {
        seq![]
    }
}

/// The violations of the red-five counts.
pub open spec fn red_five_violations(rules: RiichiRules) -> Seq<ViolationKey> {
    red_violation(rules.bonuses.red_fives.man(), "bonuses.red_fives.man") + red_violation(
        rules.bonuses.red_fives.pin(),
        "bonuses.red_fives.pin",
    ) + red_violation(rules.bonuses.red_fives.sou(), "bonuses.red_fives.sou")
}

/// The violations of options that three players cannot use.
pub open spec fn variant_violations(rules: RiichiRules) -> Seq<ViolationKey> {
    if rules.variant != RiichiVariant::Sanma {
        seq![]
    } else {
        (if rules.bonuses.red_fives.man() != 0 {
            seq![
                key_of(
                    "rules.sanma.red_man_five",
                    "bonuses.red_fives.man",
                    "sanma removes five-man, so its red count must be zero"@,
                ),
            ]
        } else {
            seq![]
        }) + (if rules.abortive_draws.four_winds {
            seq![
                key_of(
                    "rules.sanma.four_winds",
                    "abortive_draws.four_winds",
                    "four-winds abortive draw is unavailable with three players"@,
                ),
            ]
        } else {
            seq![]
        }) + (if rules.abortive_draws.four_riichi {
            seq![
                key_of(
                    "rules.sanma.four_riichi",
                    "abortive_draws.four_riichi",
                    "four-riichi abortive draw is unavailable with three players"@,
                ),
            ]
        } else {
            seq![]
        })
    }
}

/// The sum of the first `n` placement values.
pub open spec fn uma_sum(values: Seq<i16>, n: int) -> int
    decreases n,
{
    if n <= 0 {
        0
    } else {
        uma_sum(values, n - 1) + values[n - 1]
    }
}

/// The violations of the placement points.
pub open spec fn uma_violations(rules: RiichiRules) -> Seq<ViolationKey> {
    match rules.settlement.uma {
        PlacementUma::Fixed { values } => (if values@.len() != seat_count_of(rules.variant) {
            seq![
                key_of(
                    "rules.uma.player_count",
                    "settlement.uma.values",
                    "must contain "@ + decimal_chars(seat_count_of(rules.variant) as nat)
                        + " entries, got "@ + decimal_chars(values@.len()),
                ),
            ]
        } else {
            seq![]
        }) + (if uma_sum(values@, values@.len() as int) != 0 {
            seq![
                key_of(
                    "rules.uma.not_zero_sum",
                    "settlement.uma.values",
                    "fixed placement points must sum to zero"@,
                ),
            ]
        } else {
            seq![]
        }),
        PlacementUma::JpmlA => if rules.variant == RiichiVariant::Sanma {
            seq![
                key_of(
                    "rules.uma.unsupported_variant",
                    "settlement.uma",
                    "JPML A placement points are only defined for yonma"@,
                ),
            ]
        } else {
            seq![]
        },
    }
}

/// Every violation of a configuration, in the order they are reported.
pub open spec fn rule_violations(rules: RiichiRules) -> Seq<ViolationKey> {
    points_violations(rules.match_rules.initial_points, "match_rules.initial_points")
        + points_violations(rules.match_rules.return_points, "match_rules.return_points")
        + points_violations(
        rules.match_rules.first_place_required_points,
        "match_rules.first_place_required_points",
    ) + thinking_time_violations(rules) + noten_violations(
        rules.settlement.noten_payment,
        rules.variant,
    ) + red_five_violations(rules) + variant_violations(rules) + uma_violations(rules)
}

/// Pushes one violation.
fn push_violation(
    violations: &mut Vec<RuleViolation>,
    code: &'static str,
    field: &'static str,
    message: String,
)
    ensures
        violation_keys(final(violations)@) == violation_keys(old(violations)@) + seq![
            (code@, field@, message@),
        ],
{
    let violation = RuleViolation::new(code, field, message);
    violations.push(violation);
    proof {
        assert(violation_keys(violations@) =~= violation_keys(old(violations)@) + seq![
            (code@, field@, message@),
        ]);
    }
}

impl RiichiRules {
    /// Checks every rule of the configuration and reports all violations at once.
    pub fn validate(&self) -> (r: Result<(), ValidationErrors>)
        ensures
            (r is Ok) == (rule_violations(*self).len() == 0),
            r matches Err(errors) ==> violation_keys(errors.spec_violations()) == rule_violations(
                *self,
            ),
    {
        let mut violations: Vec<RuleViolation> = Vec::new();
        validate_configured_points(
            self.match_rules.initial_points,
            "match_rules.initial_points",
            &mut violations,
        );
        validate_configured_points(
            self.match_rules.return_points,
            "match_rules.return_points",
            &mut violations,
        );
        validate_configured_points(
            self.match_rules.first_place_required_points,
            "match_rules.first_place_required_points",
            &mut violations,
        );
        validate_thinking_time(self, &mut violations);
        validate_noten_payment(self.settlement.noten_payment, self.variant, &mut violations);
        validate_red_fives(self, &mut violations);
        validate_variant_options(self, &mut violations);
        validate_uma(self, &mut violations);
        proof {
            assert(violation_keys(violations@) =~= rule_violations(*self));
        }
        if violations.len() == 0 {
            Ok(())
        } else {
            Err(ValidationErrors::new(violations))
        }
    }
}

fn validate_thinking_time(rules: &RiichiRules, violations: &mut Vec<RuleViolation>)
    ensures
        violation_keys(final(violations)@) == violation_keys(old(violations)@)
            + thinking_time_violations(*rules),
{
    let time = rules.match_rules.thinking_time;
    let base = time.base_seconds;
    let reserve = time.reserve_seconds;
    if !((base == 5 && (reserve == 0 || reserve == 20 || reserve == 60)) || (base == 15 && reserve
        == 60)) {
        push_violation(
            violations,
            "rules.thinking_time.unsupported",
            "match_rules.thinking_time",
            String::from_str("must be one of 5+0, 5+20, 5+60, or 15+60"),
        );
    } else {
        assert(violation_keys(violations@) =~= violation_keys(violations@) + seq![]);
    }
}

fn validate_configured_points(points: u32, field: &'static str, violations: &mut Vec<RuleViolation>)
    ensures
        violation_keys(final(violations)@) == violation_keys(old(violations)@) + points_violations(
            points,
            field,
        ),
{
    let ghost start = violation_keys(violations@);
    if !(1_000 <= points && points <= 1_000_000) {
        push_violation(
            violations,
            "rules.points.out_of_range",
            field,
            with_number("must be between 1000 and 1000000, got ", points as u64),
        );
    }
    let ghost middle = violation_keys(violations@);
    if !is_thousand_aligned(points) {
        push_violation(
            violations,
            "rules.points.not_thousand_aligned",
            field,
            with_number("must be a multiple of 1000, got ", points as u64),
        );
    }
    proof {
        assert(violation_keys(violations@) =~= start + points_violations(points, field));
    }
}

fn validate_noten_payment(points: u32, variant: RiichiVariant, violations: &mut Vec<RuleViolation>)
    ensures
        violation_keys(final(violations)@) == violation_keys(old(violations)@) + noten_violations(
            points,
            variant,
        ),
{
    let ghost start = violation_keys(violations@);
    if points > 100_000 {
        push_violation(
            violations,
            "rules.noten_payment.out_of_range",
            "settlement.noten_payment",
            with_number("must be at most 100000, got ", points as u64),
        );
    }
    if !is_thousand_aligned(points) {
        push_violation(
            violations,
            "rules.points.not_thousand_aligned",
            "settlement.noten_payment",
            with_number("must be a multiple of 1000, got ", points as u64),
        );
    }
    let seat_count = variant.seat_count().value();
    let mut indivisible = false;
    let mut count: u8 = 1;
    while count < seat_count
        invariant
            1 <= count <= seat_count,
            seat_count == seat_count_of(variant),
            indivisible == exists|c: int|
                1 <= c < count && (#[trigger] (points as int % c) != 0 || points as int % (
                seat_count - c) != 0),
        decreases seat_count - count,
    {
        if !is_evenly_divisible(points, count as u32) || !is_evenly_divisible(
            points,
            (seat_count - count) as u32,
        ) {
            indivisible = true;
        }
        count = count + 1;
    }
    if points > 0 && indivisible {
        push_violation(
            violations,
            "rules.noten_payment.indivisible",
            "settlement.noten_payment",
            String::from_str("must divide evenly for every possible tenpai/noten split"),
        );
    }
    proof {
        assert(violation_keys(violations@) =~= start + noten_violations(points, variant));
    }
}

fn is_thousand_aligned(points: u32) -> (r: bool)
    ensures
        r == (points % 1000 == 0),
{
    points % 1000 == 0
}

fn is_evenly_divisible(points: u32, divisor: u32) -> (r: bool)
    requires
        divisor > 0,
    ensures
        r == (points % divisor == 0),
{
    points % divisor == 0
}

fn validate_red_fives(rules: &RiichiRules, violations: &mut Vec<RuleViolation>)
    ensures
        violation_keys(final(violations)@) == violation_keys(old(violations)@)
            + red_five_violations(*rules),
{
    let ghost start = violation_keys(violations@);
    validate_red_count(rules.bonuses.red_fives.for_suit(Suit::Man), "bonuses.red_fives.man", violations);
    validate_red_count(rules.bonuses.red_fives.for_suit(Suit::Pin), "bonuses.red_fives.pin", violations);
    validate_red_count(rules.bonuses.red_fives.for_suit(Suit::Sou), "bonuses.red_fives.sou", violations);
    proof {
        assert(violation_keys(violations@) =~= start + red_five_violations(*rules));
    }
}

fn validate_red_count(count: u8, field: &'static str, violations: &mut Vec<RuleViolation>)
    ensures
        violation_keys(final(violations)@) == violation_keys(old(violations)@) + red_violation(
            count,
            field,
        ),
{
    if count > 4 {
        push_violation(
            violations,
            "rules.red_fives.too_many",
            field,
            with_number("must be at most 4, got ", count as u64),
        );
    } else {
        assert(violation_keys(violations@) =~= violation_keys(violations@) + seq![]);
    }
}

fn validate_variant_options(rules: &RiichiRules, violations: &mut Vec<RuleViolation>)
    ensures
        violation_keys(final(violations)@) == violation_keys(old(violations)@) + variant_violations(
            *rules,
        ),
{
    let ghost start = violation_keys(violations@);
    if rules.variant != RiichiVariant::Sanma {
        assert(violation_keys(violations@) =~= start + variant_violations(*rules));
        return;
    }
    if rules.bonuses.red_fives.for_suit(Suit::Man) != 0 {
        push_violation(
            violations,
            "rules.sanma.red_man_five",
            "bonuses.red_fives.man",
            String::from_str("sanma removes five-man, so its red count must be zero"),
        );
    }
    if rules.abortive_draws.four_winds {
        push_violation(
            violations,
            "rules.sanma.four_winds",
            "abortive_draws.four_winds",
            String::from_str("four-winds abortive draw is unavailable with three players"),
        );
    }
    if rules.abortive_draws.four_riichi {
        push_violation(
            violations,
            "rules.sanma.four_riichi",
            "abortive_draws.four_riichi",
            String::from_str("four-riichi abortive draw is unavailable with three players"),
        );
    }
    proof {
        assert(violation_keys(violations@) =~= start + variant_violations(*rules));
    }
}

fn validate_uma(rules: &RiichiRules, violations: &mut Vec<RuleViolation>)
    ensures
        violation_keys(final(violations)@) == violation_keys(old(violations)@) + uma_violations(
            *rules,
        ),
{
    let ghost start = violation_keys(violations@);
    match &rules.settlement.uma {
        PlacementUma::Fixed { values } => {
            let seat_count = rules.variant.seat_count().value();
            if values.len() != seat_count as usize {
                let mut message = with_number("must contain ", seat_count as u64);
                let got = with_number(" entries, got ", values.len() as u64);
                message.append(got.as_str());
                assert(message@ =~= "must contain "@ + decimal_chars(seat_count as nat)
                    + " entries, got "@ + decimal_chars(values@.len()));
                push_violation(violations, "rules.uma.player_count", "settlement.uma.values", message);
            }
            let mut sum: i128 = 0;
            let mut i: usize = 0;
            while i < values.len()
                invariant
                    i <= values@.len(),
                    sum == uma_sum(values@, i as int),
                    -32768 * i <= sum <= 32767 * i,
                decreases values@.len() - i,
            {
                sum = sum + values[i] as i128;
                i = i + 1;
            }
            let ghost middle = violation_keys(violations@);
            if sum != 0 {
                push_violation(
                    violations,
                    "rules.uma.not_zero_sum",
                    "settlement.uma.values",
                    String::from_str("fixed placement points must sum to zero"),
                );
            }
        },
        PlacementUma::JpmlA => {
            if rules.variant == RiichiVariant::Sanma {
                push_violation(
                    violations,
                    "rules.uma.unsupported_variant",
                    "settlement.uma",
                    String::from_str("JPML A placement points are only defined for yonma"),
                );
            }
        },
    }
    proof {
        assert(violation_keys(violations@) =~= start + uma_violations(*rules));
    }
}

} // verus!
