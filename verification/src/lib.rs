//! The rules, parsers and state machines of the GOSH agent.

pub mod agent;
pub mod auth;
pub mod chance;
pub mod client;
pub mod codec;
pub mod courier;
pub mod crypto;
pub mod join;
pub mod json;
pub mod keychain;
pub mod llm;
pub mod names;
pub mod oauth;
pub mod paths;
pub mod plugin;
pub mod sandbox;
pub mod serve;
pub mod strmap;
pub mod text;
