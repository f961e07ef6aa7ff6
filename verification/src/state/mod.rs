//! The conversation store.

pub mod access;
pub mod assets;
pub mod cascade;
pub mod checkpoint;
pub mod compact;
pub mod db;
pub mod edits;
pub mod error;
pub mod footprint;
pub mod journal;
pub mod keys;
pub mod legacy;
pub mod platform;
pub mod plugin;
pub mod queue;
pub mod recovery;
pub mod redo;
pub mod replay;
pub mod reset;
pub mod rows;
pub mod salvage;
pub mod sessions;
pub mod size;
pub mod store;
pub mod turns;
pub mod types;
