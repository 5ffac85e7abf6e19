//! The engine.io packet framing: one byte for the packet type, then the
//! payload bytes, unchanged.

use vstd::prelude::*;

pub mod engine_io_parser_impl;
pub mod errors;
pub mod packet;

use crate::engine_io_parser::errors::ParserError;
use crate::engine_io_parser::packet::{type_code, type_of_code, Packet};

verus! {

/// A codec for the engine.io byte framing.
pub trait EngineIoParser {
    /// Encodes a packet: the type byte, then the payload bytes.
    fn encode_packet(packet: Packet) -> (r: Vec<u8>)
        ensures
            r@ == seq![type_code(packet.packet_type)] + packet.data@,
    ;

    /// Decodes a packet: `Err(EmptyPacket)` on empty input,
    /// `Err(InvalidPacketType(b))` when the leading byte `b` encodes no
    /// type, and otherwise the packet whose payload is the remaining bytes.
    fn decode_packet(data: &[u8]) -> (r: Result<Packet, ParserError>)
        ensures
            data@.len() == 0 ==> r == Err::<Packet, ParserError>(ParserError::EmptyPacket),
            data@.len() > 0 ==> match type_of_code(data@[0]) {
                Some(t) => (r matches Ok(p) && p.packet_type == t && p.data@ == data@.subrange(
                    1,
                    data@.len() as int,
                )),
                None => r == Err::<Packet, ParserError>(ParserError::InvalidPacketType(data@[0])),
            },
    ;
}

} // verus!
