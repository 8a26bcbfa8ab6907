//! Drivers for Lutron Caseta dimmers, over both of the bridge's ports.
//!
//! - [`integration`]: the plaintext integration port of the Smart Bridge PRO.
//! - [`leap`]: the live connection over LEAP, the TLS port of every Smart Bridge.
//! - [`setup`]: pairing a bridge over LEAP and listing what is behind it.
//!
//! A driver takes plain values in and hands plain values out ([`host`]); sockets, timers and
//! forms are the host's.  [`dimmer`] holds what both drivers do with a level, [`json`] and
//! [`serde`] the documents they exchange, [`csr`] the keys, [`text`] the rest.  [`laws`] and
//! [`pairing_laws`] state what holds over several calls.

pub mod csr;
pub mod dimmer;
pub mod host;
pub mod integration;
pub mod json;
pub mod laws;
pub mod leap;
pub mod pairing_laws;
pub mod serde;
pub mod setup;
pub mod text;
