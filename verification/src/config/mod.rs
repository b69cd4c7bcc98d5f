//! The flow control configuration: its parts, their validation, and the
//! history of its changes.

pub mod names;
pub mod limiter;
pub mod rule;
pub mod global;
pub mod flow;
pub mod history;
pub mod loader;
pub mod builder;
