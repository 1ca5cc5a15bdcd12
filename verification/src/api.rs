//! What the request handlers decide, on plain values.

pub mod crypto;
pub mod dashboard;
pub mod locations;
pub mod squads;
