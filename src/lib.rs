//! A regular file held in memory: a resizable byte buffer and two timestamps.

pub mod content;
pub mod node;
