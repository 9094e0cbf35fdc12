//! Verified core of a delivery-note ("remito") backend: money and number
//! formatting, the printable note, session tokens and cookies, and the
//! rules by which a delivery note is built from its requested items.
pub mod text;
pub mod models;
pub mod pdf;
pub mod error;
pub mod remito;
pub mod auth;
pub mod bindings;
pub mod server;
pub mod api;
