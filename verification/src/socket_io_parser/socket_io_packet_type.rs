//! The packet-type enumeration of the earlier codec cut, with its mapping
//! onto the default codec's enumeration.

use vstd::prelude::*;

use crate::socket_io_parser::number_util::convert_char_to_number;
use crate::socket_io_packet_codec::packet_type as codec_type;

verus! {

/// The seven Socket.IO packet types, wire digits '0' through '6'.
#[derive(Debug, PartialEq, Eq, Structural, Copy, Clone)]
pub enum SocketIoPacketType {
    Connect,
    Disconnect,
    Event,
    Ack,
    Error,
    BinaryEvent,
    BinaryAck,
}

/// The same packet type in the default codec's enumeration.
pub open spec fn as_codec_type(t: SocketIoPacketType) -> codec_type::SocketIoPacketType {
    match t {
        SocketIoPacketType::Connect => codec_type::SocketIoPacketType::Connect,
        SocketIoPacketType::Disconnect => codec_type::SocketIoPacketType::Disconnect,
        SocketIoPacketType::Event => codec_type::SocketIoPacketType::Event,
        SocketIoPacketType::Ack => codec_type::SocketIoPacketType::Ack,
        SocketIoPacketType::Error => codec_type::SocketIoPacketType::Error,
        SocketIoPacketType::BinaryEvent => codec_type::SocketIoPacketType::BinaryEvent,
        SocketIoPacketType::BinaryAck => codec_type::SocketIoPacketType::BinaryAck,
    }
}

/// The inverse of `as_codec_type`.
pub open spec fn of_codec_type(t: codec_type::SocketIoPacketType) -> SocketIoPacketType {
    match t {
        codec_type::SocketIoPacketType::Connect => SocketIoPacketType::Connect,
        codec_type::SocketIoPacketType::Disconnect => SocketIoPacketType::Disconnect,
        codec_type::SocketIoPacketType::Event => SocketIoPacketType::Event,
        codec_type::SocketIoPacketType::Ack => SocketIoPacketType::Ack,
        codec_type::SocketIoPacketType::Error => SocketIoPacketType::Error,
        codec_type::SocketIoPacketType::BinaryEvent => SocketIoPacketType::BinaryEvent,
        codec_type::SocketIoPacketType::BinaryAck => SocketIoPacketType::BinaryAck,
    }
}

impl SocketIoPacketType {
    /// The numeric code of this packet type.
    pub fn into(self) -> (r: u8)
        ensures
            r == codec_type::type_code(as_codec_type(self)),
    {
        match self {
            SocketIoPacketType::Connect => 0,
            SocketIoPacketType::Disconnect => 1,
            SocketIoPacketType::Event => 2,
            SocketIoPacketType::Ack => 3,
            SocketIoPacketType::Error => 4,
            SocketIoPacketType::BinaryEvent => 5,
            SocketIoPacketType::BinaryAck => 6,
        }
    }

    /// The packet type encoded by `value`; `Err` exactly when `value` is
    /// not a valid code.
    pub fn try_from(value: u8) -> (r: Result<Self, ()>)
        ensures
            r matches Ok(t) ==> codec_type::type_of_code(value) == Some(as_codec_type(t)),
            r is Err <==> codec_type::type_of_code(value) is None,
    {
        match value {
            0 => Ok(SocketIoPacketType::Connect),
            1 => Ok(SocketIoPacketType::Disconnect),
            2 => Ok(SocketIoPacketType::Event),
            3 => Ok(SocketIoPacketType::Ack),
            4 => Ok(SocketIoPacketType::Error),
            5 => Ok(SocketIoPacketType::BinaryEvent),
            6 => Ok(SocketIoPacketType::BinaryAck),
            _ => Err(()),
        }
    }

    /// The packet type whose wire digit is `c`; `Err` exactly when `c` is
    /// not one of '0' through '6'.
    pub fn convert_from_char(c: char) -> (r: Result<Self, ()>)
        ensures
            r matches Ok(t) ==> crate::spec_char_to_number(c) matches Some(v)
                && codec_type::type_of_code(v) == Some(as_codec_type(t)),
            r is Err <==> (crate::spec_char_to_number(c) is None || (
            crate::spec_char_to_number(c) matches Some(v) && codec_type::type_of_code(v) is None)),
    {
        match convert_char_to_number(c) {
            Some(n) => SocketIoPacketType::try_from(n),
            None => Err(()),
        }
    }
}

} // verus!
