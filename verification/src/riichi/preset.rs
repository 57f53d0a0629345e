use vstd::prelude::*;
use vstd::string::StringSliceAdditionalSpecFns;

use super::config::{
    AbortiveDrawRules, BonusRules, CallRules, DealerContinuation, KuikaeRule, MatchLength,
    MatchRules, PlacementUma, RiichiRules, RonResolution, SanmaNorthRule, ScoringRules,
    SettlementRules, ThinkingTimeRules, YakumanValue, default_first_place_required_points,
};
use super::tile_set::{RedFives, RiichiVariant};
use super::validation::{rule_violations, noten_indivisible, uma_sum};

verus! {

/// The official competition rule presets.
#[derive(Clone, Copy, Debug, PartialEq, Eq, Structural, Hash)]
pub enum RiichiPreset {
    JpmlA,
    Saikouisen,
    MLeague,
}

/// The stable identifier of a preset.
pub open spec fn preset_id(preset: RiichiPreset) -> Seq<char> {
    match preset {
        RiichiPreset::JpmlA => "jpml-a"@,
        RiichiPreset::Saikouisen => "saikouisen"@,
        RiichiPreset::MLeague => "m-league"@,
    }
}

impl RiichiPreset {
    /// Every preset, in catalog order.
    #[must_use]
    pub fn all() -> (r: [RiichiPreset; 3])
        ensures
            r@ == seq![RiichiPreset::JpmlA, RiichiPreset::Saikouisen, RiichiPreset::MLeague],
    {
        let all = [RiichiPreset::JpmlA, RiichiPreset::Saikouisen, RiichiPreset::MLeague];
        assert(all@ =~= seq![RiichiPreset::JpmlA, RiichiPreset::Saikouisen, RiichiPreset::MLeague]);
        all
    }

    #[must_use]
    pub fn id(self) -> (r: &'static str)
        ensures
            r@ == preset_id(self),
    {
        match self {
            RiichiPreset::JpmlA => "jpml-a",
            RiichiPreset::Saikouisen => "saikouisen",
            RiichiPreset::MLeague => "m-league",
        }
    }

    #[must_use]
    pub fn display_name(self) -> (r: &'static str)
        ensures
            self == RiichiPreset::JpmlA ==> r@ == "日本职业麻将联盟 A 规则"@,
            self == RiichiPreset::Saikouisen ==> r@ == "最高位战规则"@,
            self == RiichiPreset::MLeague ==> r@ == "M League 规则"@,
    {
        match self {
            RiichiPreset::JpmlA => "日本职业麻将联盟 A 规则",
            RiichiPreset::Saikouisen => "最高位战规则",
            RiichiPreset::MLeague => "M League 规则",
        }
    }

    /// The revision of the preset's rules; every preset is at its first revision.
    #[must_use]
    pub fn revision(self) -> (r: u32)
        ensures
            r == 1,
    {
        1
    }

    /// The preset with the given identifier, if any.
    #[must_use]
    pub fn find(id: &str) -> (r: Option<RiichiPreset>)
        ensures
            r matches Some(preset) ==> preset_id(preset) == id@,
            r is None ==> id@ != preset_id(RiichiPreset::JpmlA) && id@ != preset_id(
                RiichiPreset::Saikouisen,
            ) && id@ != preset_id(RiichiPreset::MLeague),
    {
        let all = Self::all();
        let mut i: usize = 0;
        while i < 3
            invariant
                i <= 3,
                all@ == seq![RiichiPreset::JpmlA, RiichiPreset::Saikouisen, RiichiPreset::MLeague],
                forall|j: int| 0 <= j < i ==> preset_id(#[trigger] all@[j]) != id@,
            decreases 3 - i,
        {
            let preset = all[i];
            if str_eq(preset.id(), id) {
                return Some(preset);
            }
            i = i + 1;
        }
        assert(preset_id(all@[0]) != id@);
        assert(preset_id(all@[1]) != id@);
        assert(preset_id(all@[2]) != id@);
        None
    }

    /// The complete rules of the preset.
    #[must_use]
    pub fn rules(self) -> (r: RiichiRules)
        ensures
            preset_rules(self, r),
            rule_violations(r).len() == 0,
    {
        let mut rules = competition_base();
        match self {
            RiichiPreset::JpmlA => {
                rules.scoring.kiriage_mangan = false;
                rules.bonuses.ippatsu = false;
                rules.bonuses.ura_dora = false;
                rules.bonuses.kan_dora = false;
                rules.settlement.uma = PlacementUma::JpmlA;
            },
            RiichiPreset::Saikouisen => {
                rules.bonuses.ippatsu = true;
                rules.bonuses.ura_dora = true;
                rules.bonuses.kan_dora = true;
                rules.settlement.uma = PlacementUma::Fixed { values: vec![30, 10, -10, -30] };
            },
            RiichiPreset::MLeague => {
                rules.match_rules.initial_points = 25_000;
                rules.match_rules.return_points = 30_000;
                rules.bonuses.red_fives = match RedFives::new(1, 1, 1) {
                    Ok(red) => red,
                    Err(_) => vstd::pervasive::unreached(),
                };
                rules.bonuses.ippatsu = true;
                rules.bonuses.ura_dora = true;
                rules.bonuses.kan_dora = true;
                rules.settlement.uma = PlacementUma::Fixed { values: vec![30, 10, -10, -30] };
            },
        }
        proof {
            lemma_competition_noten_divisible();
            lemma_fixed_uma_sums_to_zero();
            assert(rule_violations(rules) =~= seq![]);
        }
        rules
    }
}

/// Whether two strings are equal, compared byte by byte.
fn str_eq(left: &str, right: &str) -> (r: bool)
    ensures
        r == (left@ == right@),
{
    let a = left.as_bytes();
    let b = right.as_bytes();
    proof {
        vstd::utf8::encode_utf8_decode_utf8(left@);
        vstd::utf8::encode_utf8_decode_utf8(right@);
    }
    if a.len() != b.len() {
        return false;
    }
    let mut i: usize = 0;
    while i < a.len()
        invariant
            a@.len() == b@.len(),
            a@ == left.spec_bytes(),
            b@ == right.spec_bytes(),
            i <= a@.len(),
            forall|j: int| 0 <= j < i ==> a@[j] == b@[j],
        decreases a@.len() - i,
    {
        if a[i] != b[i] {
            return false;
        }
        i = i + 1;
    }
    assert(a@ =~= b@);
    true
}

/// The settings every competition preset shares, with the preset-specific ones of `preset`.
pub open spec fn preset_rules(preset: RiichiPreset, rules: RiichiRules) -> bool {
    let m_league = preset == RiichiPreset::MLeague;
    &&& rules.variant == RiichiVariant::Yonma
    &&& rules.match_rules.length == MatchLength::Hanchan
    &&& rules.match_rules.initial_points == (if m_league {
        25_000u32
    } else {
        30_000u32
    })
    &&& rules.match_rules.return_points == 30_000
    &&& rules.match_rules.first_place_required_points == 30_000
    &&& rules.match_rules.thinking_time.base_seconds == 5
    &&& rules.match_rules.thinking_time.reserve_seconds == 20
    &&& !rules.match_rules.tobi
    &&& rules.match_rules.dealer_continuation == DealerContinuation::WinOrTenpai
    &&& !rules.match_rules.agari_yame
    &&& rules.match_rules.north == SanmaNorthRule::NukiDora
    &&& rules.scoring.kiriage_mangan == (preset != RiichiPreset::JpmlA)
    &&& !rules.scoring.old_yaku
    &&& rules.scoring.yakuman_value == YakumanValue::StackedOnly
    &&& !rules.scoring.nagashi_mangan
    &&& !rules.scoring.kazoe_yakuman
    &&& !rules.scoring.kokushi_ankan_chankan
    &&& rules.calls.kuitan
    &&& rules.calls.kuikae == KuikaeRule::Forbidden
    &&& rules.bonuses.red_fives.man() == (if m_league {
        1u8
    } else {
        0u8
    })
    &&& rules.bonuses.red_fives.pin() == rules.bonuses.red_fives.man()
    &&& rules.bonuses.red_fives.sou() == rules.bonuses.red_fives.man()
    &&& rules.bonuses.ippatsu == (preset != RiichiPreset::JpmlA)
    &&& rules.bonuses.ura_dora == (preset != RiichiPreset::JpmlA)
    &&& rules.bonuses.kan_dora == (preset != RiichiPreset::JpmlA)
    &&& !rules.abortive_draws.four_winds
    &&& !rules.abortive_draws.four_kans
    &&& !rules.abortive_draws.nine_terminals
    &&& !rules.abortive_draws.four_riichi
    &&& (if preset == RiichiPreset::JpmlA {
        rules.settlement.uma == PlacementUma::JpmlA
    } else {
        rules.settlement.uma matches PlacementUma::Fixed { values } && values@ == seq![
            30i16,
            10i16,
            -10i16,
            -30i16,
        ]
    })
    &&& rules.settlement.noten_payment == 3_000
    &&& rules.settlement.ron_resolution == RonResolution::HeadBump
}

/// A 3000-point noten payment splits evenly between any number of tenpai players in yonma.
proof fn lemma_competition_noten_divisible()
    ensures
        !noten_indivisible(3000, 4),
{
    assert forall|count: int| 1 <= count < 4 implies !(#[trigger] (3000int % count) != 0
        || 3000int % (4 - count) != 0) by {
        if count == 1 {
        } else if count == 2 {
        } else {
        }
    }
}

/// The fixed placement points sum to zero.
proof fn lemma_fixed_uma_sums_to_zero()
    ensures
        uma_sum(seq![30i16, 10i16, -10i16, -30i16], 4) == 0,
{
    reveal_with_fuel(uma_sum, 5);
}

fn competition_base() -> (r: RiichiRules)
    ensures
        r.variant == RiichiVariant::Yonma,
        r.match_rules.length == MatchLength::Hanchan,
        r.match_rules.initial_points == 30_000,
        r.match_rules.return_points == 30_000,
        r.match_rules.first_place_required_points == 30_000,
        r.match_rules.thinking_time.base_seconds == 5,
        r.match_rules.thinking_time.reserve_seconds == 20,
        !r.match_rules.tobi,
        r.match_rules.dealer_continuation == DealerContinuation::WinOrTenpai,
        !r.match_rules.agari_yame,
        r.match_rules.north == SanmaNorthRule::NukiDora,
        r.scoring.kiriage_mangan,
        !r.scoring.old_yaku,
        r.scoring.yakuman_value == YakumanValue::StackedOnly,
        !r.scoring.nagashi_mangan,
        !r.scoring.kazoe_yakuman,
        !r.scoring.kokushi_ankan_chankan,
        r.calls.kuitan,
        r.calls.kuikae == KuikaeRule::Forbidden,
        r.bonuses.red_fives.man() == 0,
        r.bonuses.red_fives.pin() == 0,
        r.bonuses.red_fives.sou() == 0,
        !r.bonuses.ippatsu,
        !r.bonuses.ura_dora,
        !r.bonuses.kan_dora,
        !r.abortive_draws.four_winds,
        !r.abortive_draws.four_kans,
        !r.abortive_draws.nine_terminals,
        !r.abortive_draws.four_riichi,
        r.settlement.uma matches PlacementUma::Fixed { values } && values@ == seq![
            30i16,
            10i16,
            -10i16,
            -30i16,
        ],
        r.settlement.noten_payment == 3_000,
        r.settlement.ron_resolution == RonResolution::HeadBump,
{
    let red_fives = match RedFives::new(0, 0, 0) {
        Ok(red) => red,
        Err(_) => vstd::pervasive::unreached(),
    };
    let values: Vec<i16> = vec![30, 10, -10, -30];
    assert(values@ =~= seq![30i16, 10i16, -10i16, -30i16]);
    RiichiRules {
        variant: RiichiVariant::Yonma,
        match_rules: MatchRules {
            length: MatchLength::Hanchan,
            initial_points: 30_000,
            return_points: 30_000,
            first_place_required_points: default_first_place_required_points(),
            thinking_time: ThinkingTimeRules::default(),
            tobi: false,
            dealer_continuation: DealerContinuation::WinOrTenpai,
            agari_yame: false,
            north: SanmaNorthRule::NukiDora,
        },
        scoring: ScoringRules {
            kiriage_mangan: true,
            old_yaku: false,
            yakuman_value: YakumanValue::StackedOnly,
            nagashi_mangan: false,
            kazoe_yakuman: false,
            kokushi_ankan_chankan: false,
        },
        calls: CallRules { kuitan: true, kuikae: KuikaeRule::Forbidden },
        bonuses: BonusRules { red_fives, ippatsu: false, ura_dora: false, kan_dora: false },
        abortive_draws: AbortiveDrawRules {
            four_winds: false,
            four_kans: false,
            nine_terminals: false,
            four_riichi: false,
        },
        settlement: SettlementRules {
            uma: PlacementUma::Fixed { values },
            noten_payment: 3_000,
            ron_resolution: RonResolution::HeadBump,
        },
    }
}

} // verus!
