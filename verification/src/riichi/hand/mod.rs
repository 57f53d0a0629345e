pub mod checkpoint;
pub mod event;
pub mod judge;
pub mod model;
pub mod state;

pub use checkpoint::{HandCheckpointError, HandInvariantError, RiichiHandCheckpoint, HAND_CHECKPOINT_SCHEMA_VERSION};
pub use event::{DrawSource, HandEvent, HandTransition, ReactionKind};
pub use judge::{HandJudge, KanQuery, RejectAllHandJudge, RiichiQuery, WinQuery, WinSource};
pub use model::{
    Discard, EndReason, HandPhase, Meld, MeldId, MeldKind, PlayerHand, Reaction, RiichiStatus,
};
pub use state::{HandError, RiichiHand};
