//! Sichuan rules: only the thinking time can be chosen; everything else is fixed.

use vstd::prelude::*;

verus! {

/// Every seat starts at zero points.
pub const INITIAL_POINTS: i32 = 0;

/// Four players, always.
pub const SEAT_COUNT: u8 = 4;

/// A match is four hands.
pub const HAND_COUNT: u8 = 4;

#[derive(Clone, Copy, Debug, PartialEq, Eq, Structural)]
pub struct ThinkingTimeRules {
    pub base_seconds: u16,
    pub reserve_seconds: u16,
}

impl ThinkingTimeRules {
    #[must_use]
    pub fn base_ms(self) -> (r: u64)
        ensures
            r == self.base_seconds * 1000,
    {
        self.base_seconds as u64 * 1000
    }

    #[must_use]
    pub fn reserve_ms(self) -> (r: u32)
        ensures
            r == self.reserve_seconds * 1000,
    {
        self.reserve_seconds as u32 * 1000
    }
}

impl Default for ThinkingTimeRules {
    /// Five seconds per turn and twenty in reserve.
    fn default() -> (r: ThinkingTimeRules)
        ensures
            r.base_seconds == 5 && r.reserve_seconds == 20,
    {
        ThinkingTimeRules { base_seconds: 5, reserve_seconds: 20 }
    }
}

/// Match settings: the thinking time alone.
#[derive(Clone, Copy, Debug, PartialEq, Eq, Structural)]
pub struct MatchRules {
    pub thinking_time: ThinkingTimeRules,
}

impl Default for MatchRules {
    fn default() -> (r: MatchRules)
        ensures
            r.thinking_time.base_seconds == 5 && r.thinking_time.reserve_seconds == 20,
    {
        MatchRules { thinking_time: ThinkingTimeRules::default() }
    }
}

#[derive(Clone, Copy, Debug, PartialEq, Eq, Structural)]
pub struct SichuanRules {
    pub match_rules: MatchRules,
}

impl Default for SichuanRules {
    fn default() -> (r: SichuanRules)
        ensures
            r.match_rules.thinking_time.base_seconds == 5,
            r.match_rules.thinking_time.reserve_seconds == 20,
    {
        SichuanRules { match_rules: MatchRules::default() }
    }
}

impl SichuanRules {
    /// The standard configuration: five seconds plus twenty in reserve.
    #[must_use]
    pub fn standard() -> (r: SichuanRules)
        ensures
            r.match_rules.thinking_time.base_seconds == 5,
            r.match_rules.thinking_time.reserve_seconds == 20,
    {
        SichuanRules::default()
    }
}

} // verus!
