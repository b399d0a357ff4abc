//! A contest engine: participants spread a fixed budget of credits over a few
//! assets, and once the window of a contest has closed the best entries by
//! weighted return share the pool of entry fees.
//!
//! The engine is a state machine over plain records. Every operation takes the
//! records it works on, the time, and what the price oracle says; it decides,
//! changes the records, and hands back the transfer that it asks of the
//! value-transfer rail. It reads no clock, moves no value and stores nothing:
//! its caller does, and stores the changed records only once the transfer has
//! been carried out. A refused operation changes nothing.
//!
//! Returns on investment are double-precision numbers. The engine does not
//! compute them: it carries their bit patterns, and ranks by them.

pub mod allocation;
pub mod errors;
pub mod instructions;
pub mod lifecycle;
pub mod oracle;
pub mod pubkey;
pub mod rail;
pub mod ranking;
pub mod roi;
pub mod settlement;
pub mod state;
