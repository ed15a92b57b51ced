//! A small leveled logger: a registry of named severity levels with an
//! active threshold, and a logger that keeps the messages that pass it.

pub mod level;
pub mod levels;
pub mod timestamp;
pub mod logger;
