//! Riichi and Sichuan mahjong domain models and rule engines.

mod random;
mod text;
pub mod riichi;
pub mod sichuan;
