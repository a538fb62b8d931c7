//! Authenticated metadata store of a key discovery service: records bound to an
//! address, checked against the key that owns it, and evicted once their time to
//! live has run out.

pub mod authentication;
pub mod model;
pub mod settings;
pub mod tx_stream;
pub mod wire;
pub mod crypto;
pub mod db;
pub mod errors;
