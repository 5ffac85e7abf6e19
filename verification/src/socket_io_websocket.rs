//! The per-connection machinery: the outbound message shape and the
//! connection lifecycle state machine.

pub mod connection_lifecycle;
pub mod socket_message;
