//! Handlers that call out to services.

pub mod remote_model;
