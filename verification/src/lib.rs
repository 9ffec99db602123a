//! A small append/update ledger for a voting process: eligible voters,
//! registered proposals, per-proposal tallies, and each voter's voting
//! history, together with the queries over that state.

pub mod table;
pub mod types;
pub mod state;
pub mod service;
pub mod laws;
