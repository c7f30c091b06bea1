//! Verified core of a best-of-three tic-tac-toe match service.
//!
//! The crate models the match session engine: the 3x3 board and its
//! win/draw/turn derivations, the per-series round tally, the concurrent
//! session registry (live games plus the matchmaking queue), the turn-taking
//! state machine, the timeout auto-play decision, and disconnect handling.
//! Transport and persistence are collaborators: the engine consumes plain
//! values and returns the messages to deliver and the record to persist.

pub mod board;
pub mod engine;
pub mod events;
pub mod paths;
pub mod record;
pub mod registry;
pub mod rounds;
pub mod scheduler;
pub mod schemas;
pub mod validate;
