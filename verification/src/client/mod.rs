//! The memory service: what it is asked, and how its answers are read.

pub mod mcp;
pub mod memory;
pub mod memory_inject;
pub mod secrets;
pub mod transport;
