//! An in-memory roster of game-character records.
//!
//! The roster is read from a JSON document, edited in place, and flattened
//! into zero-terminated byte buffers for a host that can only take numbers
//! and bytes.

pub mod character;
pub mod json;
pub mod roster;

pub use character::{Character, CharacterView, DecodeError};
pub use roster::CharacterList;
