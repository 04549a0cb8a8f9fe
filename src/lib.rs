//! The state-tracking core of a bot for a turn-based grid game played over a
//! line-oriented text protocol: it decodes each line of the engine into an
//! event, applies the event to the match state, and writes the reply that the
//! event calls for.
pub mod bot;
pub mod error;
pub mod field;
pub mod handler;
pub mod message;
pub mod number;
pub mod player;
pub mod simple_matrix;
pub mod text;
