//! Language models: what they are asked and what they answer.

pub mod anthropic;
pub mod chat;
pub mod local_cli;
pub mod multi;
