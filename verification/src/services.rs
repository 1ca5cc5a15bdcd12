//! The three stores, and the check of credentials in front of them.

pub mod auth;
pub mod location_store;
pub mod session;
pub mod squad_manager;
