//! Conversation state, web session rules and memory storage of the GQY assistant.

pub mod ambient;
pub mod digest;
pub mod facts;
pub mod json;
pub mod language;
pub mod laws;
pub mod paths;
pub mod state;
pub mod table;
pub mod text;
pub mod textset;
pub mod tools;
pub mod web;
pub mod words;
