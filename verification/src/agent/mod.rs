//! The agent: how it finds, executes, reviews and records a task.

pub mod budget;
pub mod cli;
pub mod config;
pub mod config_loader;
pub mod execution;
pub mod extract;
pub mod facts;
pub mod files;
pub mod lifecycle;
pub mod persist;
pub mod plan;
pub mod pricing;
pub mod prompts;
pub mod resolve;
pub mod results;
pub mod review;
pub mod run;
pub mod sanitize;
pub mod task;
pub mod verdict;
