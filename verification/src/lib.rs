//! Managing and switching between the accounts that Codex signs in with.

pub mod account_laws;
pub mod auth;
pub mod auth_laws;
pub mod chatgpt_api;
pub mod cli;
pub mod clock;
pub mod commands;
pub mod display;
pub mod display_laws;
pub mod encoding;
pub mod file_laws;
pub mod files;
pub mod import;
pub mod json;
pub mod laws;
pub mod model;
pub mod paths;
pub mod registry;
pub mod schema;
pub mod sessions;
pub mod sync;
pub mod text;
pub mod text_laws;
pub mod usage_laws;
