//! State management for live location sharing between small groups.
//!
//! Three independent stores hold all mutable state: the squad registry
//! ([`services::squad_manager`]), the session store ([`services::session`])
//! and the location cache ([`services::location_store`]). What the request
//! handlers decide on top of them stands in [`api`], on plain values; the
//! transport itself is not part of this library.

pub mod api;
pub mod cipher;
pub mod config;
pub mod encoding;
pub mod entropy;
pub mod http;
pub mod models;
pub mod services;
pub mod sweep;
pub mod text;
pub mod time;
