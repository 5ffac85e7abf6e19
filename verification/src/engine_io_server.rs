//! Server-side engine.io scaffolding: the transport interface and the
//! per-socket state it would drive.

pub mod socket;
pub mod transport;
