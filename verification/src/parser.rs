//! The byte-framing codec draft working on the `data` module's packet.

use vstd::prelude::*;

pub mod parser_impl;

use crate::data::errors::ParserError;
use crate::data::{type_code, type_of_code, Packet};

verus! {

/// A codec for the byte framing, over the `data` module's packet.
pub trait SocketIoParser {
    /// Encodes a packet: the type byte, then the payload bytes.
    fn encode_packet(packet: Packet) -> (r: Vec<u8>)
        ensures
            r@ == seq![type_code(packet.packet_type)] + packet.data@,
    ;

    /// Decodes a packet: `Err(EmptyPacket)` on empty input,
    /// `Err(InvalidPacketType(b))` when the leading byte `b` encodes no
    /// type, and otherwise the packet whose payload is the remaining bytes.
    fn decode_packet(data: &[u8]) -> (r: Result<Packet, ParserError>)
        ensures
            data@.len() == 0 ==> r == Err::<Packet, ParserError>(ParserError::EmptyPacket),
            data@.len() > 0 ==> match type_of_code(data@[0]) {
                Some(t) => (r matches Ok(p) && p.packet_type == t && p.data@ == data@.subrange(
                    1,
                    data@.len() as int,
                )),
                None => r == Err::<Packet, ParserError>(ParserError::InvalidPacketType(data@[0])),
            },
    ;
}

} // verus!
