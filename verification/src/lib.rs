pub mod text;
pub mod json;
pub mod time;
pub mod config;
pub mod auth;
pub mod keychain;
pub mod output;
pub mod search;
pub mod lifecycle;
pub mod laws;
