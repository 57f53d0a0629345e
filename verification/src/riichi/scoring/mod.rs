pub mod counts;
pub mod shape;
pub(crate) mod result;
pub(crate) mod analysis;

pub use shape::WaitingTiles;
pub use result::{BonusHan, HandShape, Limit, Payment, WaitKind, WinEvaluation, Yaku, YakuValue};
pub(crate) mod yaku;
pub mod fu;
pub mod points;
pub(crate) mod evaluate;
pub mod scorer;
pub use scorer::RiichiScorer;
pub(crate) mod settlement;
pub use settlement::{HandOutcome, HandResult, HandSettlement, ScoredWinner, SettlementError};
pub mod match_result;
pub use match_result::{MatchEndReason, MatchError, MatchPlacement, MatchResult};
pub use match_result::RiichiMatch;
