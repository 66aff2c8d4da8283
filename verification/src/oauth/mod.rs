//! The OAuth authorization server: clients, authorization sessions and tokens.

pub mod admin_token;
pub mod clients;
pub mod sessions;
pub mod tokens;
