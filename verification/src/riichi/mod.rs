//! Riichi mahjong domain model and rules.

pub mod tile;

pub use tile::{Honor, Rank, Suit, Tile, TileError, TileFace, TileId, TileKind, TileKindIndexError};
pub mod tile_set;
pub use tile_set::{RedFives, RiichiVariant, SeatCount, TileSet, TileSetError};
pub mod wall;
pub use wall::{SeedGenerationError, Wall, WallError, WallSeed};
pub mod progress;
pub use progress::{Honba, ProgressError, RiichiSticks, RoundNumber, Seat, TableProgress, Wind};
pub mod config;
pub use config::{
    AbortiveDrawRules, BonusRules, CallRules, DealerContinuation, KuikaeRule, MatchLength,
    MatchRules, PlacementUma, RiichiRules, RonResolution, SanmaNorthRule, ScoringRules,
    SettlementRules, ThinkingTimeRules, YakumanValue,
};
pub mod validation;
pub use validation::{RuleViolation, ValidationErrors};
pub mod preset;
pub mod overrides;
pub use overrides::{
    AbortiveDrawRuleOverrides, BonusRuleOverrides, CallRuleOverrides, MatchRuleOverrides, RedFiveOverrides,
    RiichiRuleOverrides, ScoringRuleOverrides, SettlementRuleOverrides,
};
pub use preset::RiichiPreset;
pub mod hand;
pub use hand::{
    Discard, DrawSource, EndReason, HandEvent, HandJudge, HandPhase, HandTransition, KanQuery,
    Meld, MeldId, MeldKind, PlayerHand, Reaction, ReactionKind, RejectAllHandJudge, RiichiQuery,
    RiichiStatus, WinQuery, WinSource, HandError, RiichiHand, HandCheckpointError, HandInvariantError,
    RiichiHandCheckpoint, HAND_CHECKPOINT_SCHEMA_VERSION,
};
pub mod scoring;
