//! Encoder and decoder of the earlier codec cut, sharing the default
//! codec's wire grammar.

use vstd::prelude::*;

use crate::socket_io_packet_codec::default_packet_codec::{
    spec_decode, spec_encode, DefaultPacketCodec,
};
use crate::socket_io_packet_codec::packet_type as codec_type;
use crate::socket_io_packet_codec::socket_io_packet as codec_packet;
use crate::socket_io_packet_codec::socket_io_packet::{packet_wf, PacketV};
use crate::socket_io_parser::socket_io_packet::SocketIoPacket;
use crate::socket_io_parser::socket_io_packet_type::{
    as_codec_type, of_codec_type, SocketIoPacketType,
};

verus! {

pub struct SocketIoParserImpl;

fn to_draft_type(t: codec_type::SocketIoPacketType) -> (r: SocketIoPacketType)
    ensures
        r == of_codec_type(t),
        as_codec_type(r) == t,
{
    match t {
        codec_type::SocketIoPacketType::Connect => SocketIoPacketType::Connect,
        codec_type::SocketIoPacketType::Disconnect => SocketIoPacketType::Disconnect,
        codec_type::SocketIoPacketType::Event => SocketIoPacketType::Event,
        codec_type::SocketIoPacketType::Ack => SocketIoPacketType::Ack,
        codec_type::SocketIoPacketType::Error => SocketIoPacketType::Error,
        codec_type::SocketIoPacketType::BinaryEvent => SocketIoPacketType::BinaryEvent,
        codec_type::SocketIoPacketType::BinaryAck => SocketIoPacketType::BinaryAck,
    }
}

fn to_codec_type_exec(t: SocketIoPacketType) -> (r: codec_type::SocketIoPacketType)
    ensures
        r == as_codec_type(t),
{
    match t {
        SocketIoPacketType::Connect => codec_type::SocketIoPacketType::Connect,
        SocketIoPacketType::Disconnect => codec_type::SocketIoPacketType::Disconnect,
        SocketIoPacketType::Event => codec_type::SocketIoPacketType::Event,
        SocketIoPacketType::Ack => codec_type::SocketIoPacketType::Ack,
        SocketIoPacketType::Error => codec_type::SocketIoPacketType::Error,
        SocketIoPacketType::BinaryEvent => codec_type::SocketIoPacketType::BinaryEvent,
        SocketIoPacketType::BinaryAck => codec_type::SocketIoPacketType::BinaryAck,
    }
}

impl SocketIoParserImpl {
    /// Renders a packet to its wire text; decoding the result gives the
    /// packet back whenever it meets the data model's invariant.
    pub fn encode(packet: SocketIoPacket) -> (r: String)
        ensures
            r@ == spec_encode(packet@),
            packet_wf(packet@) ==> (spec_decode(r@) matches Ok(pv) && pv == packet@),
    {
        let ghost pv = packet@;
        let conv = codec_packet::SocketIoPacket {
            packet_type: to_codec_type_exec(packet.packet_type),
            nsp: packet.nsp,
            id: packet.id,
            data: packet.data,
        };
        assert(conv@ == pv);
        DefaultPacketCodec.encode(&conv)
    }

    /// Decodes a wire text; `Err` exactly when the grammar rejects it, with
    /// the reason erased.
    pub fn decode(data: String) -> (r: Result<SocketIoPacket, ()>)
        ensures
            ({
                let sd = spec_decode(data@);
                match r {
                    Ok(p) => sd matches Ok(pv) && p@ == pv,
                    Err(()) => sd is Err,
                }
            }),
    {
        match DefaultPacketCodec.decode(data.as_str()) {
            Ok(p) => Ok(
                SocketIoPacket {
                    packet_type: to_draft_type(p.packet_type),
                    nsp: p.nsp,
                    id: p.id,
                    data: p.data,
                },
            ),
            Err(_) => Err(()),
        }
    }
}

} // verus!
