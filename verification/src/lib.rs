//! A rate limiting and flow control toolkit: limiter algorithms, a circuit
//! breaker, decision chains, configuration validation and request matchers.

pub mod circuit_breaker;
pub mod cli;
pub mod code_review;
pub mod clock;
pub mod config;
pub mod config_security;
pub mod config_watcher;
pub mod custom_limiter;
pub mod custom_matcher;
pub mod db_storage;
pub mod dbnexus_entities;
pub mod decision_chain;
pub mod device_matcher;
pub mod error;
pub mod id_set;
pub mod json;
pub mod net;
pub mod text;
pub mod time;
pub mod version;
