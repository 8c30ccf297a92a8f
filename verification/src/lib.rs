//! Local cache of the activities of remote coding sessions, with the types
//! of the session service that the cache and its callers work on.

pub mod activity_cache;
pub mod client;
pub mod commands;
pub mod config;
pub mod display;
pub mod extended_commands;
pub mod filter_activities;
pub mod patterns;
pub mod text;
pub mod types;
pub mod unicode;
