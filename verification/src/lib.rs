//! Verified building blocks behind a collection of small console programs:
//! integer arithmetic helpers, overflow-safe addition policies, string
//! helpers, a user-record builder, and the state machine of a number
//! guessing game.

pub mod functions;
pub mod game;
pub mod numbers;
pub mod shadowing;
pub mod strings;
pub mod user;
