//! Keiko: reputation for a peer-to-peer learning network.

pub mod reputation;
pub mod runtime;
pub mod schema;
