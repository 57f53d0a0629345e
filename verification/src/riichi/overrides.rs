//! Room rule overrides: optional values laid over a rule set, field by field.

use vstd::prelude::*;

use super::config::{
    AbortiveDrawRules, BonusRules, CallRules, DealerContinuation, KuikaeRule, MatchLength, MatchRules, PlacementUma,
    RiichiRules, RonResolution, SanmaNorthRule, ScoringRules, SettlementRules, ThinkingTimeRules, YakumanValue,
};
use super::tile::Suit;
use super::tile_set::RedFives;

verus! {

#[derive(Clone, Debug, Default, PartialEq, Eq)]
pub struct MatchRuleOverrides {
    pub length: Option<MatchLength>,
    pub initial_points: Option<u32>,
    pub return_points: Option<u32>,
    pub first_place_required_points: Option<u32>,
    pub thinking_time: Option<ThinkingTimeRules>,
    pub tobi: Option<bool>,
    pub dealer_continuation: Option<DealerContinuation>,
    pub agari_yame: Option<bool>,
    pub north: Option<SanmaNorthRule>,
}

#[derive(Clone, Debug, Default, PartialEq, Eq)]
pub struct ScoringRuleOverrides {
    pub kiriage_mangan: Option<bool>,
    pub old_yaku: Option<bool>,
    pub yakuman_value: Option<YakumanValue>,
    pub nagashi_mangan: Option<bool>,
    pub kazoe_yakuman: Option<bool>,
    pub kokushi_ankan_chankan: Option<bool>,
}

#[derive(Clone, Copy, Debug, Default, PartialEq, Eq)]
pub struct CallRuleOverrides {
    pub kuitan: Option<bool>,
    pub kuikae: Option<KuikaeRule>,
}

#[derive(Clone, Copy, Debug, Default, PartialEq, Eq)]
pub struct RedFiveOverrides {
    pub man: Option<u8>,
    pub pin: Option<u8>,
    pub sou: Option<u8>,
}

#[derive(Clone, Debug, Default, PartialEq, Eq)]
pub struct BonusRuleOverrides {
    pub red_fives: Option<RedFiveOverrides>,
    pub ippatsu: Option<bool>,
    pub ura_dora: Option<bool>,
    pub kan_dora: Option<bool>,
}

#[derive(Clone, Debug, Default, PartialEq, Eq)]
pub struct AbortiveDrawRuleOverrides {
    pub four_winds: Option<bool>,
    pub four_kans: Option<bool>,
    pub nine_terminals: Option<bool>,
    pub four_riichi: Option<bool>,
}

#[derive(Clone, Debug, Default, PartialEq, Eq)]
pub struct SettlementRuleOverrides {
    pub uma: Option<PlacementUma>,
    pub noten_payment: Option<u32>,
    pub ron_resolution: Option<RonResolution>,
}

/// Overrides of a rule set; every value left out keeps the rule set's own.
#[derive(Clone, Debug, Default, PartialEq, Eq)]
pub struct RiichiRuleOverrides {
    pub match_rules: Option<MatchRuleOverrides>,
    pub scoring: Option<ScoringRuleOverrides>,
    pub calls: Option<CallRuleOverrides>,
    pub bonuses: Option<BonusRuleOverrides>,
    pub abortive_draws: Option<AbortiveDrawRuleOverrides>,
    pub settlement: Option<SettlementRuleOverrides>,
}

/// The value given, or else the one kept.
pub open spec fn or_keep<T>(value: Option<T>, kept: T) -> T {
    match value {
        Some(v) => v,
        None => kept,
    }
}

pub open spec fn match_overridden(m: MatchRules, o: Option<MatchRuleOverrides>) -> MatchRules {
    match o {
        Some(x) => MatchRules {
            length: or_keep(x.length, m.length),
            initial_points: or_keep(x.initial_points, m.initial_points),
            return_points: or_keep(x.return_points, m.return_points),
            first_place_required_points: or_keep(x.first_place_required_points, m.first_place_required_points),
            thinking_time: or_keep(x.thinking_time, m.thinking_time),
            tobi: or_keep(x.tobi, m.tobi),
            dealer_continuation: or_keep(x.dealer_continuation, m.dealer_continuation),
            agari_yame: or_keep(x.agari_yame, m.agari_yame),
            north: or_keep(x.north, m.north),
        },
        None => m,
    }
}

pub open spec fn scoring_overridden(s: ScoringRules, o: Option<ScoringRuleOverrides>) -> ScoringRules {
    match o {
        Some(x) => ScoringRules {
            kiriage_mangan: or_keep(x.kiriage_mangan, s.kiriage_mangan),
            old_yaku: or_keep(x.old_yaku, s.old_yaku),
            yakuman_value: or_keep(x.yakuman_value, s.yakuman_value),
            nagashi_mangan: or_keep(x.nagashi_mangan, s.nagashi_mangan),
            kazoe_yakuman: or_keep(x.kazoe_yakuman, s.kazoe_yakuman),
            kokushi_ankan_chankan: or_keep(x.kokushi_ankan_chankan, s.kokushi_ankan_chankan),
        },
        None => s,
    }
}

pub open spec fn calls_overridden(c: CallRules, o: Option<CallRuleOverrides>) -> CallRules {
    match o {
        Some(x) => CallRules { kuitan: or_keep(x.kuitan, c.kuitan), kuikae: or_keep(x.kuikae, c.kuikae) },
        None => c,
    }
}

/// The bonus rules with the flags given put in their place (the red-five counts are kept:
/// `red_five_counts` says what they become).
pub open spec fn bonuses_overridden(b: BonusRules, o: Option<BonusRuleOverrides>) -> BonusRules {
    match o {
        Some(x) => BonusRules {
            red_fives: b.red_fives,
            ippatsu: or_keep(x.ippatsu, b.ippatsu),
            ura_dora: or_keep(x.ura_dora, b.ura_dora),
            kan_dora: or_keep(x.kan_dora, b.kan_dora),
        },
        None => b,
    }
}

pub open spec fn draws_overridden(a: AbortiveDrawRules, o: Option<AbortiveDrawRuleOverrides>) -> AbortiveDrawRules {
    match o {
        Some(x) => AbortiveDrawRules {
            four_winds: or_keep(x.four_winds, a.four_winds),
            four_kans: or_keep(x.four_kans, a.four_kans),
            nine_terminals: or_keep(x.nine_terminals, a.nine_terminals),
            four_riichi: or_keep(x.four_riichi, a.four_riichi),
        },
        None => a,
    }
}

pub open spec fn settlement_overridden(t: SettlementRules, o: Option<SettlementRuleOverrides>) -> SettlementRules {
    match o {
        Some(x) => SettlementRules {
            uma: or_keep(x.uma, t.uma),
            noten_payment: or_keep(x.noten_payment, t.noten_payment),
            ron_resolution: or_keep(x.ron_resolution, t.ron_resolution),
        },
        None => t,
    }
}

/// The rule set with every value the overrides give put in its place; the red-five counts
/// are kept here (`red_five_counts` says what they become).
pub open spec fn overridden(rules: RiichiRules, o: RiichiRuleOverrides) -> RiichiRules {
    RiichiRules {
        match_rules: match_overridden(rules.match_rules, o.match_rules),
        scoring: scoring_overridden(rules.scoring, o.scoring),
        calls: calls_overridden(rules.calls, o.calls),
        bonuses: bonuses_overridden(rules.bonuses, o.bonuses),
        abortive_draws: draws_overridden(rules.abortive_draws, o.abortive_draws),
        settlement: settlement_overridden(rules.settlement, o.settlement),
        ..rules
    }
}

fn apply_match(m: &mut MatchRules, o: Option<MatchRuleOverrides>)
    ensures
        *final(m) == match_overridden(*old(m), o),
{
    if let Some(o) = o {
        put(&mut m.length, o.length);
        put(&mut m.initial_points, o.initial_points);
        put(&mut m.return_points, o.return_points);
        put(&mut m.first_place_required_points, o.first_place_required_points);
        put(&mut m.thinking_time, o.thinking_time);
        put(&mut m.tobi, o.tobi);
        put(&mut m.dealer_continuation, o.dealer_continuation);
        put(&mut m.agari_yame, o.agari_yame);
        put(&mut m.north, o.north);
    }
}

fn apply_scoring(s: &mut ScoringRules, o: Option<ScoringRuleOverrides>)
    ensures
        *final(s) == scoring_overridden(*old(s), o),
{
    if let Some(o) = o {
        put(&mut s.kiriage_mangan, o.kiriage_mangan);
        put(&mut s.old_yaku, o.old_yaku);
        put(&mut s.yakuman_value, o.yakuman_value);
        put(&mut s.nagashi_mangan, o.nagashi_mangan);
        put(&mut s.kazoe_yakuman, o.kazoe_yakuman);
        put(&mut s.kokushi_ankan_chankan, o.kokushi_ankan_chankan);
    }
}

fn apply_calls(c: &mut CallRules, o: Option<CallRuleOverrides>)
    ensures
        *final(c) == calls_overridden(*old(c), o),
{
    if let Some(o) = o {
        put(&mut c.kuitan, o.kuitan);
        put(&mut c.kuikae, o.kuikae);
    }
}

fn apply_bonuses(b: &mut BonusRules, o: Option<BonusRuleOverrides>)
    ensures
        *final(b) == bonuses_overridden(*old(b), o),
{
    if let Some(o) = o {
        put(&mut b.ippatsu, o.ippatsu);
        put(&mut b.ura_dora, o.ura_dora);
        put(&mut b.kan_dora, o.kan_dora);
    }
}

fn apply_draws(a: &mut AbortiveDrawRules, o: Option<AbortiveDrawRuleOverrides>)
    ensures
        *final(a) == draws_overridden(*old(a), o),
{
    if let Some(o) = o {
        put(&mut a.four_winds, o.four_winds);
        put(&mut a.four_kans, o.four_kans);
        put(&mut a.nine_terminals, o.nine_terminals);
        put(&mut a.four_riichi, o.four_riichi);
    }
}

fn apply_settlement(t: &mut SettlementRules, o: Option<SettlementRuleOverrides>)
    ensures
        *final(t) == settlement_overridden(*old(t), o),
{
    if let Some(o) = o {
        put(&mut t.uma, o.uma);
        put(&mut t.noten_payment, o.noten_payment);
        put(&mut t.ron_resolution, o.ron_resolution);
    }
}

/// The red-five counts (man, pin, sou) after the overrides: each given count, else the
/// current one.
pub open spec fn red_five_counts(current: RedFives, o: RiichiRuleOverrides) -> (int, int, int) {
    match o.bonuses {
        Some(b) => match b.red_fives {
            Some(r) => (
                or_keep(r.man, current.man()) as int,
                or_keep(r.pin, current.pin()) as int,
                or_keep(r.sou, current.sou()) as int,
            ),
            None => (current.man() as int, current.pin() as int, current.sou() as int),
        },
        None => (current.man() as int, current.pin() as int, current.sou() as int),
    }
}

fn put<T>(target: &mut T, value: Option<T>)
    ensures
        *final(target) == or_keep(value, *old(target)),
{
    if let Some(value) = value {
        *target = value;
    }
}

impl RiichiRuleOverrides {
    /// Lays the overrides over the rules: every given value replaces the rule's, every value
    /// left out keeps it. Nothing is checked here; a red-five count above four is reported by
    /// rule validation.
    pub fn apply_to(self, rules: &mut RiichiRules)
        ensures
            ({
                let (man, pin, sou) = red_five_counts(old(rules).bonuses.red_fives, self);
                let o = overridden(*old(rules), self);
                &&& *final(rules) == (RiichiRules {
                    bonuses: BonusRules { red_fives: final(rules).bonuses.red_fives, ..o.bonuses },
                    ..o
                })
                &&& final(rules).bonuses.red_fives.man() == man
                &&& final(rules).bonuses.red_fives.pin() == pin
                &&& final(rules).bonuses.red_fives.sou() == sou
            }),
    {
        let current = rules.bonuses.red_fives;
        let (man_given, pin_given, sou_given) = match &self.bonuses {
            Some(b) => match b.red_fives {
                Some(o) => (o.man, o.pin, o.sou),
                None => (None, None, None),
            },
            None => (None, None, None),
        };
        let man = match man_given {
            Some(v) => v,
            None => current.for_suit(Suit::Man),
        };
        let pin = match pin_given {
            Some(v) => v,
            None => current.for_suit(Suit::Pin),
        };
        let sou = match sou_given {
            Some(v) => v,
            None => current.for_suit(Suit::Sou),
        };
        let red = RedFives::new_unchecked(man, pin, sou);
        apply_match(&mut rules.match_rules, self.match_rules);
        apply_scoring(&mut rules.scoring, self.scoring);
        apply_calls(&mut rules.calls, self.calls);
        rules.bonuses.red_fives = red;
        apply_bonuses(&mut rules.bonuses, self.bonuses);
        apply_draws(&mut rules.abortive_draws, self.abortive_draws);
        apply_settlement(&mut rules.settlement, self.settlement);
    }
}

} // verus!
