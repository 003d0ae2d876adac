//! A poll and voting module: polls with a bounded list of options, one
//! standing ballot per voter and poll, and read-only queries over both.

pub mod contract;
pub mod error;
pub mod events;
pub mod laws;
pub mod lookup;
pub mod msg;
pub mod order;
pub mod poll;
pub mod state;
