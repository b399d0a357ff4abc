//! The records of the engine.

pub mod config;
pub mod contest;
pub mod credit;
pub mod entry;
pub mod metadata;
