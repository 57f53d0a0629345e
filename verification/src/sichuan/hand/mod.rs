//! One Sichuan hand: its values.

pub mod model;
pub use model::{
    Discard, DrawSource, EndReason, HandError, HandPhase, Meld, MeldId, MeldKind, Reaction, ReactionKind,
};
pub mod player;
pub use player::{KanEvent, PlayerHand, WinnerRecord};
pub mod state;
pub use state::{ReactionOptions, SichuanHand, TurnAction, TurnActions};
