//! The rules of the web interface: who may do what, what a request may hold,
//! and what is shown.

pub mod actor;
pub mod admin;
pub mod answers;
pub mod auth;
pub mod config;
pub mod error;
pub mod events;
pub mod handlers;
pub mod manager;
pub mod mapper;
pub mod media;
pub mod models;
pub mod payload;
pub mod prompts;
pub mod requests;
pub mod run;
pub mod scopes;
pub mod sessions;
pub mod types;
pub mod util;
