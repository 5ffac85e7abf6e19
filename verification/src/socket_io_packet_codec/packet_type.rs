//! The closed set of Socket.IO packet types and its digit encoding.

use vstd::prelude::*;

use crate::socket_io_packet_codec::number_util::convert_char_to_number;

verus! {

/// The seven Socket.IO packet types, encoded on the wire as the single
/// digits '0' through '6' in this order.
#[derive(Debug, PartialEq, Eq, Structural, Copy, Clone)]
pub enum SocketIoPacketType {
    Connect,
    Disconnect,
    Event,
    Ack,
    Error,
    BinaryEvent,
    BinaryAck,
}

/// The numeric code of a packet type.
pub open spec fn type_code(t: SocketIoPacketType) -> u8 {
    match t {
        SocketIoPacketType::Connect => 0,
        SocketIoPacketType::Disconnect => 1,
        SocketIoPacketType::Event => 2,
        SocketIoPacketType::Ack => 3,
        SocketIoPacketType::Error => 4,
        SocketIoPacketType::BinaryEvent => 5,
        SocketIoPacketType::BinaryAck => 6,
    }
}

/// The packet type with the given numeric code, if any: the inverse of
/// `type_code`.
pub open spec fn type_of_code(v: u8) -> Option<SocketIoPacketType> {
    match v {
        0 => Some(SocketIoPacketType::Connect),
        1 => Some(SocketIoPacketType::Disconnect),
        2 => Some(SocketIoPacketType::Event),
        3 => Some(SocketIoPacketType::Ack),
        4 => Some(SocketIoPacketType::Error),
        5 => Some(SocketIoPacketType::BinaryEvent),
        6 => Some(SocketIoPacketType::BinaryAck),
        _ => None,
    }
}

/// The wire digit of a packet type, as a character.
pub open spec fn type_digit_char(t: SocketIoPacketType) -> char {
    match t {
        SocketIoPacketType::Connect => '0',
        SocketIoPacketType::Disconnect => '1',
        SocketIoPacketType::Event => '2',
        SocketIoPacketType::Ack => '3',
        SocketIoPacketType::Error => '4',
        SocketIoPacketType::BinaryEvent => '5',
        SocketIoPacketType::BinaryAck => '6',
    }
}

impl SocketIoPacketType {
    /// The numeric code of this packet type.
    pub fn into(self) -> (r: u8)
        ensures
            r == type_code(self),
    {
        match self {
            SocketIoPacketType::Connect => 0,
            SocketIoPacketType::Disconnect => 1,
            SocketIoPacketType::Event => 2,
            SocketIoPacketType::Ack => 3,
            SocketIoPacketType::Error => 4,
            SocketIoPacketType::BinaryEvent => 5,
            SocketIoPacketType::BinaryAck => 6,
        }
    }

    /// The packet type encoded by `value`; `Err` exactly when `value` is not
    /// a valid code.
    pub fn try_from(value: u8) -> (r: Result<Self, ()>)
        ensures
            r matches Ok(t) ==> type_of_code(value) == Some(t),
            r is Err <==> type_of_code(value) is None,
    {
        match value {
            0 => Ok(SocketIoPacketType::Connect),
            1 => Ok(SocketIoPacketType::Disconnect),
            2 => Ok(SocketIoPacketType::Event),
            3 => Ok(SocketIoPacketType::Ack),
            4 => Ok(SocketIoPacketType::Error),
            5 => Ok(SocketIoPacketType::BinaryEvent),
            6 => Ok(SocketIoPacketType::BinaryAck),
            _ => Err(()),
        }
    }

    /// The packet type whose wire digit is `c`; `Err` exactly when `c` is
    /// not one of '0' through '6'.
    pub fn convert_from_char(c: char) -> (r: Result<Self, ()>)
        ensures
            r matches Ok(t) ==> crate::spec_char_to_number(c) matches Some(v) && type_of_code(v)
                == Some(t),
            r is Err <==> (crate::spec_char_to_number(c) is None || (
            crate::spec_char_to_number(c) matches Some(v) && type_of_code(v) is None)),
    {
        match convert_char_to_number(c) {
            Some(n) => SocketIoPacketType::try_from(n),
            None => Err(()),
        }
    }
}

} // verus!
