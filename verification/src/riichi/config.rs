use vstd::prelude::*;

use super::tile_set::{RedFives, RiichiVariant};

verus! {

#[derive(Clone, Copy, Debug, PartialEq, Eq, Structural, Hash)]
pub enum MatchLength {
    EastOnly,
    Hanchan,
}

#[derive(Clone, Copy, Debug, PartialEq, Eq, Structural, Hash)]
pub enum DealerContinuation {
    WinOnly,
    WinOrTenpai,
}

/// How the north tiles behave in three-player riichi mahjong.
#[derive(Clone, Copy, Debug, PartialEq, Eq, Structural, Hash)]
pub enum SanmaNorthRule {
    /// A north tile may be extracted for one bonus han and a rinshan draw.
    NukiDora,
    /// North is an unconditional value tile and cannot be extracted.
    Yakuhai,
}

impl SanmaNorthRule {
    pub(crate) fn is_nuki_dora(value: &SanmaNorthRule) -> (r: bool)
        ensures
            r == (*value == SanmaNorthRule::NukiDora),
    {
        matches!(value, SanmaNorthRule::NukiDora)
    }
}

impl Default for SanmaNorthRule {
    fn default() -> (r: SanmaNorthRule)
        ensures
            r == SanmaNorthRule::NukiDora,
    {
        SanmaNorthRule::NukiDora
    }
}

#[derive(Clone, Copy, Debug, PartialEq, Eq, Structural, Hash)]
pub enum YakumanValue {
    StackedOnly,
    DoubleVariantsAndStacked,
}

/// Restriction on discarding right after a chi or pon.
#[derive(Clone, Copy, Debug, PartialEq, Eq, Structural, Hash)]
pub enum KuikaeRule {
    /// The called tile kind and, for chi, the suji tile are both forbidden.
    Forbidden,
    /// Only the called tile kind is forbidden.
    SameTileOnly,
    /// No restriction.
    Allowed,
}

#[derive(Clone, Copy, Debug, PartialEq, Eq, Structural, Hash)]
pub enum RonResolution {
    HeadBump,
    Multiple,
}

/// Placement points added to final scores, by rank.
#[derive(Clone, Debug, PartialEq, Eq)]
pub enum PlacementUma {
    Fixed { values: Vec<i16> },
    JpmlA,
}

#[derive(Clone, Copy, Debug, PartialEq, Eq, Structural)]
pub struct ThinkingTimeRules {
    pub base_seconds: u16,
    pub reserve_seconds: u16,
}

impl ThinkingTimeRules {
    #[must_use]
    pub fn base_ms(self) -> (r: u64)
        ensures
            r == self.base_seconds * 1000,
    {
        self.base_seconds as u64 * 1_000
    }

    #[must_use]
    pub fn reserve_ms(self) -> (r: u32)
        ensures
            r == self.reserve_seconds * 1000,
    {
        self.reserve_seconds as u32 * 1_000
    }
}

impl Default for ThinkingTimeRules {
    fn default() -> (r: ThinkingTimeRules)
        ensures
            r.base_seconds == 5,
            r.reserve_seconds == 20,
    {
        ThinkingTimeRules { base_seconds: 5, reserve_seconds: 20 }
    }
}

/// The points that first place must reach when a rule file does not say.
pub(crate) fn default_first_place_required_points() -> (r: u32)
    ensures
        r == 30_000,
{
    30_000
}

#[derive(Clone, Debug, PartialEq, Eq)]
pub struct MatchRules {
    pub length: MatchLength,
    pub initial_points: u32,
    pub return_points: u32,
    pub first_place_required_points: u32,
    pub thinking_time: ThinkingTimeRules,
    pub tobi: bool,
    pub dealer_continuation: DealerContinuation,
    pub agari_yame: bool,
    pub north: SanmaNorthRule,
}

#[derive(Clone, Debug, PartialEq, Eq)]
pub struct ScoringRules {
    pub kiriage_mangan: bool,
    pub old_yaku: bool,
    pub yakuman_value: YakumanValue,
    pub nagashi_mangan: bool,
    pub kazoe_yakuman: bool,
    pub kokushi_ankan_chankan: bool,
}

/// Rules that only take effect once a hand is opened by a call.
#[derive(Clone, Debug, PartialEq, Eq)]
pub struct CallRules {
    pub kuitan: bool,
    pub kuikae: KuikaeRule,
}

#[derive(Clone, Debug, PartialEq, Eq)]
pub struct BonusRules {
    pub red_fives: RedFives,
    pub ippatsu: bool,
    pub ura_dora: bool,
    pub kan_dora: bool,
}

#[derive(Clone, Debug, PartialEq, Eq)]
pub struct AbortiveDrawRules {
    pub four_winds: bool,
    pub four_kans: bool,
    pub nine_terminals: bool,
    pub four_riichi: bool,
}

#[derive(Clone, Debug, PartialEq, Eq)]
pub struct SettlementRules {
    pub uma: PlacementUma,
    pub noten_payment: u32,
    pub ron_resolution: RonResolution,
}

/// A complete riichi rule configuration.
#[derive(Clone, Debug, PartialEq, Eq)]
pub struct RiichiRules {
    pub variant: RiichiVariant,
    pub match_rules: MatchRules,
    pub scoring: ScoringRules,
    pub calls: CallRules,
    pub bonuses: BonusRules,
    pub abortive_draws: AbortiveDrawRules,
    pub settlement: SettlementRules,
}

impl RiichiRules {
    /// Whether `rules` is the standard configuration of `variant`.
    pub open spec fn is_standard(rules: RiichiRules, variant: RiichiVariant) -> bool {
        let yonma = variant == RiichiVariant::Yonma;
        &&& rules.variant == variant
        &&& rules.match_rules.length == MatchLength::Hanchan
        &&& rules.match_rules.initial_points == 25_000
        &&& rules.match_rules.return_points == 25_000
        &&& rules.match_rules.first_place_required_points == 30_000
        &&& rules.match_rules.thinking_time.base_seconds == 5
        &&& rules.match_rules.thinking_time.reserve_seconds == 20
        &&& rules.match_rules.tobi
        &&& rules.match_rules.dealer_continuation == DealerContinuation::WinOrTenpai
        &&& rules.match_rules.agari_yame
        &&& rules.match_rules.north == SanmaNorthRule::NukiDora
        &&& !rules.scoring.kiriage_mangan
        &&& !rules.scoring.old_yaku
        &&& rules.scoring.yakuman_value == YakumanValue::DoubleVariantsAndStacked
        &&& rules.scoring.nagashi_mangan
        &&& rules.scoring.kazoe_yakuman
        &&& rules.scoring.kokushi_ankan_chankan
        &&& rules.calls.kuitan
        &&& rules.calls.kuikae == KuikaeRule::Forbidden
        &&& rules.bonuses.red_fives.man() == (if yonma {
            1u8
        } else {
            0u8
        })
        &&& rules.bonuses.red_fives.pin() == 1
        &&& rules.bonuses.red_fives.sou() == 1
        &&& rules.bonuses.ippatsu
        &&& rules.bonuses.ura_dora
        &&& rules.bonuses.kan_dora
        &&& !rules.abortive_draws.four_winds
        &&& !rules.abortive_draws.four_kans
        &&& rules.abortive_draws.nine_terminals
        &&& !rules.abortive_draws.four_riichi
        &&& (rules.settlement.uma matches PlacementUma::Fixed { values } && values@ == (if yonma {
            seq![30i16, 10i16, -10i16, -30i16]
        } else {
            seq![30i16, 0i16, -30i16]
        }))
        &&& rules.settlement.noten_payment == (if yonma {
            3_000u32
        } else {
            2_000u32
        })
        &&& rules.settlement.ron_resolution == RonResolution::Multiple
    }

    #[must_use]
    pub fn standard(variant: RiichiVariant) -> (r: RiichiRules)
        ensures
            Self::is_standard(r, variant),
    {
        let (abortive_draws, uma, noten_payment) = match variant {
            RiichiVariant::Yonma => (
                AbortiveDrawRules {
                    four_winds: false,
                    four_kans: false,
                    nine_terminals: true,
                    four_riichi: false,
                },
                PlacementUma::Fixed { values: vec![30, 10, -10, -30] },
                3_000,
            ),
            RiichiVariant::Sanma => (
                AbortiveDrawRules {
                    four_winds: false,
                    four_kans: false,
                    nine_terminals: true,
                    four_riichi: false,
                },
                PlacementUma::Fixed { values: vec![30, 0, -30] },
                2_000,
            ),
        };
        RiichiRules {
            variant,
            match_rules: MatchRules {
                length: MatchLength::Hanchan,
                initial_points: 25_000,
                return_points: 25_000,
                first_place_required_points: default_first_place_required_points(),
                thinking_time: ThinkingTimeRules::default(),
                tobi: true,
                dealer_continuation: DealerContinuation::WinOrTenpai,
                agari_yame: true,
                north: SanmaNorthRule::NukiDora,
            },
            scoring: ScoringRules {
                kiriage_mangan: false,
                old_yaku: false,
                yakuman_value: YakumanValue::DoubleVariantsAndStacked,
                nagashi_mangan: true,
                kazoe_yakuman: true,
                kokushi_ankan_chankan: true,
            },
            calls: CallRules { kuitan: true, kuikae: KuikaeRule::Forbidden },
            bonuses: BonusRules {
                red_fives: variant.default_red_fives(),
                ippatsu: true,
                ura_dora: true,
                kan_dora: true,
            },
            abortive_draws,
            settlement: SettlementRules {
                uma,
                noten_payment,
                ron_resolution: RonResolution::Multiple,
            },
        }
    }
}

impl Default for RiichiRules {
    fn default() -> (r: RiichiRules)
        ensures
            RiichiRules::is_standard(r, RiichiVariant::Yonma),
    {
        RiichiRules::standard(RiichiVariant::Yonma)
    }
}

} // verus!
