//! What holds of the operations together.

pub mod compact;
pub mod documents;
pub mod doors;
pub mod eviction;
pub mod filed;
pub mod finding;
pub mod gates;
pub mod handles;
pub mod journaled;
pub mod kept;
pub mod keys;
pub mod leaving;
pub mod listed;
pub mod memes;
pub mod memory;
pub mod outcomes;
pub mod pages;
pub mod personas;
pub mod platform;
pub mod queued;
pub mod reading;
pub mod recovered;
pub mod redo;
pub mod redone;
pub mod salvaged;
pub mod scopes;
pub mod sessions;
pub mod secrets;
pub mod summaries;
pub mod takeover;
pub mod texts;
pub mod told;
pub mod turn_keys;
pub mod turns;
pub mod web;
