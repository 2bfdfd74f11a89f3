//! A chat-channel counting assistant.
//!
//! Users register a literal text pattern per channel; later messages in that
//! channel containing the pattern are tallied per author, with a celebration
//! reply at a fixed milestone. The crate holds the pattern-registration and
//! counting engine: command recognition over free-form text, matching of
//! messages against per-channel patterns, extraction of numeric amounts, and
//! the per-(pattern, user) counters with their overwrite and delete semantics.
//! Chat transport, durable storage and template loading live outside, around
//! this library.

pub mod engine;
pub mod errors;
pub mod laws;
pub mod matcher;
pub mod praise;
pub mod record;
pub mod reply;
pub mod store;
pub mod text;

pub use record::{CountModel, CountRecord, PatternModel, PatternRecord};
