//! A proxy pool: parses upstream proxy credentials from a flat text
//! catalog, caches them under a time-based refresh policy, and hands out
//! a randomly selected entry, together with a classifier that turns HTTP
//! outcomes into a structured error taxonomy.

pub mod error;
pub mod gateway;
pub mod proxy;
pub mod text;
