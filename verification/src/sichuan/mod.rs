//! Sichuan mahjong ("blood battle to the end"): three suits, every seat starts at zero,
//! kans and wins settle at once, a winner leaves the hand while the others play on, and
//! the hand ends when three have won or the wall runs out.

pub mod tile;
pub use tile::{full_tile_set, Honor, Rank, Suit, Tile, TileError, TileId, TileKind};
pub mod config;
pub use config::{MatchRules, SichuanRules, ThinkingTimeRules, HAND_COUNT, INITIAL_POINTS, SEAT_COUNT};
pub mod validation;
pub use validation::{RuleViolation, ValidationErrors};
pub mod progress;
pub use progress::{ProgressError, Seat, TableProgress};
pub mod wall;
pub use wall::{
    Dice, ExchangeDirection, SeedGenerationError, Wall, WallError, WallSeed, STACKS_BY_SEAT, TOTAL_STACKS,
    WALL_TILE_COUNT,
};
pub mod hand;
pub use hand::{
    Discard, DrawSource, EndReason, HandError, HandPhase, Meld, MeldId, MeldKind, Reaction, ReactionKind,
};
pub mod scoring;
pub use scoring::{evaluate, score_for, HandShapes, MeldSummary, WinContext, WinEvaluation, Yaku, YakuValue, MAX_FAN};
pub mod match_state;
pub use match_state::{
    HandSettlement, MatchError, PlayerResult, QueSettlement, SichuanMatch, FLOWER_PIG_POINTS, NOTEN_POINTS,
};
pub use hand::{KanEvent, PlayerHand, ReactionOptions, SichuanHand, TurnAction, TurnActions, WinnerRecord};
