//! The byte-framing codec draft implementation.

use vstd::prelude::*;
use vstd::slice::slice_index_get;

use crate::data::errors::ParserError;
use crate::data::{Packet, PacketType};
use crate::parser::SocketIoParser;

verus! {

pub struct SocketIOParserImpl {}

impl SocketIoParser for SocketIOParserImpl {
    fn encode_packet(packet: Packet) -> (r: Vec<u8>)
    {
        let mut buffer: Vec<u8> = Vec::new();
        buffer.push(packet.packet_type.into());
        let mut ii: usize = 0;
        while ii < packet.data.len()
            invariant
                0 <= ii <= packet.data.len(),
                buffer@ == seq![crate::data::type_code(packet.packet_type)]
                    + packet.data@.subrange(0, ii as int),
            decreases packet.data.len() - ii,
        {
            buffer.push(packet.data[ii]);
            proof {
                assert(packet.data@.subrange(0, ii + 1) =~= packet.data@.subrange(0, ii as int)
                    + seq![packet.data@[ii as int]]);
            }
            ii += 1;
        }
        proof {
            assert(packet.data@.subrange(0, packet.data@.len() as int) =~= packet.data@);
        }
        buffer
    }

    fn decode_packet(data: &[u8]) -> (r: Result<Packet, ParserError>)
    {
        if data.len() == 0 {
            return Err(ParserError::EmptyPacket);
        }
        let packet_type = match PacketType::try_from(*slice_index_get(data, 0)) {
            Ok(t) => t,
            Err(e) => {
                return Err(e);
            },
        };
        let packet_data_len = data.len() - 1;
        let mut packet_data: Vec<u8> = Vec::new();
        let mut ii: usize = 0;
        while ii < packet_data_len
            invariant
                0 <= ii <= packet_data_len,
                packet_data_len == data@.len() - 1,
                packet_data@ == data@.subrange(1, 1 + ii as int),
            decreases packet_data_len - ii,
        {
            packet_data.push(*slice_index_get(data, ii + 1));
            proof {
                assert(data@.subrange(1, 1 + (ii + 1)) =~= data@.subrange(1, 1 + ii as int)
                    + seq![data@[1 + ii as int]]);
            }
            ii += 1;
        }
        Ok(Packet::new(packet_type, packet_data))
    }
}

} // verus!
