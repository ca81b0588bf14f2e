//! Dispatch-and-session orchestration for an interactive assistant.
//!
//! Every incoming line of text is routed either to a registered structured
//! command or to a fallback inference call; conversation turns accumulate in a
//! per-session message log with a durable byte encoding; generated responses
//! are memoized in a parameter-keyed cache so identical requests are never
//! recomputed.

pub mod cache;
pub mod cli;
pub mod message;
pub mod orchestrator;
pub mod registry;
pub mod session;
pub mod text;
