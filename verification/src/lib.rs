//! A line-oriented broadcast relay and the small programs around it.
//!
//! The heart of the crate is the publish/subscribe hub (`hub`), the
//! newline codec (`codec`) and the per-connection state machine (`conn`)
//! that together make up a chat relay: every line a client sends is
//! fanned out to every connected client.  The remaining modules hold the
//! single-purpose logic of the surrounding programs: triangle geometry,
//! a turn-based resource game, two adventure-game engines and password
//! export converters.

pub mod adventure;
pub mod codec;
pub mod conn;
pub mod converters;
pub mod game;
pub mod hub;
pub mod story;
pub mod text;
pub mod triangle;
