//! Errors of the engine.io byte framing.

use vstd::prelude::*;

verus! {

/// Why a byte frame was rejected.
#[derive(Debug, PartialEq, Eq, Structural)]
pub enum ParserError {
    /// The leading byte encodes no packet type; carries that byte.
    InvalidPacketType(u8),
    /// The frame was empty.
    EmptyPacket,
}

} // verus!
