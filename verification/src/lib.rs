//! Client-side state reconciliation and selection for a real-time
//! unit-based multiplayer game.
//!
//! An authoritative server emits discrete world snapshots ("frames");
//! this library keeps the two most recent frames, blends them into a
//! smooth display state between snapshots, and maps an on-screen drag
//! rectangle through the camera projection back into a set of selected
//! unit identifiers.

pub mod blend;
pub mod collections;
pub mod frame;
pub mod game_state;
pub mod selection;
pub mod utils;

pub use utils::Id;
pub use utils::IdValue;
