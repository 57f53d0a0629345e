//! Sichuan scoring: winning shapes, patterns and fan.

pub mod shape;
pub mod yaku;
pub use yaku::{Yaku, YakuValue};
pub mod evaluate;
pub use evaluate::{evaluate, score_for, HandShapes, MeldSummary, WinContext, WinEvaluation, MAX_FAN};
