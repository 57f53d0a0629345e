//! Checks a Sichuan configuration against the presets a room may offer.

use vstd::prelude::*;

pub use crate::riichi::validation::{RuleViolation, ValidationErrors};

use super::config::SichuanRules;

verus! {

/// The thinking times a room may choose: 5+0, 5+20, 5+60 and 15+60.
pub open spec fn supported_thinking_time(base: u16, reserve: u16) -> bool {
    ||| base == 5 && reserve == 0
    ||| base == 5 && reserve == 20
    ||| base == 5 && reserve == 60
    ||| base == 15 && reserve == 60
}

impl SichuanRules {
    /// Accepts the configuration, or lists its one possible violation: a thinking time that
    /// is not a room preset.
    pub fn validate(&self) -> (r: Result<(), ValidationErrors>)
        ensures
            r is Ok <==> supported_thinking_time(
                self.match_rules.thinking_time.base_seconds,
                self.match_rules.thinking_time.reserve_seconds,
            ),
            r matches Err(errors) ==> errors.spec_violations().len() == 1 && errors.spec_violations()[0].key() == (
                "rules.thinking_time.unsupported"@,
                "match_rules.thinking_time"@,
                "must be one of 5+0, 5+20, 5+60, or 15+60"@,
            ),
    {
        let time = self.match_rules.thinking_time;
        let supported = (time.base_seconds == 5 && (time.reserve_seconds == 0 || time.reserve_seconds == 20
            || time.reserve_seconds == 60)) || (time.base_seconds == 15 && time.reserve_seconds == 60);
        if supported {
            Ok(())
        } else {
            let mut violations: Vec<RuleViolation> = Vec::new();
            violations.push(
                RuleViolation::new(
                    "rules.thinking_time.unsupported",
                    "match_rules.thinking_time",
                    String::from_str("must be one of 5+0, 5+20, 5+60, or 15+60"),
                ),
            );
            Err(ValidationErrors::new(violations))
        }
    }
}

} // verus!
