//! Packet data types of the byte-framing draft that predates
//! `engine_io_parser`.

use vstd::prelude::*;

pub mod errors;

use crate::data::errors::ParserError;

verus! {

/// The seven engine.io packet types, encoded as the bytes 0 through 6.
#[derive(Debug, PartialEq, Eq, Structural, Copy, Clone)]
pub enum PacketType {
    Open,
    Close,
    Ping,
    Pong,
    Message,
    Upgrade,
    Noop,
}

/// The byte encoding a packet type.
pub open spec fn type_code(t: PacketType) -> u8 {
    match t {
        PacketType::Open => 0,
        PacketType::Close => 1,
        PacketType::Ping => 2,
        PacketType::Pong => 3,
        PacketType::Message => 4,
        PacketType::Upgrade => 5,
        PacketType::Noop => 6,
    }
}

/// The packet type a byte encodes, if any: the inverse of `type_code`.
pub open spec fn type_of_code(v: u8) -> Option<PacketType> {
    match v {
        0 => Some(PacketType::Open),
        1 => Some(PacketType::Close),
        2 => Some(PacketType::Ping),
        3 => Some(PacketType::Pong),
        4 => Some(PacketType::Message),
        5 => Some(PacketType::Upgrade),
        6 => Some(PacketType::Noop),
        _ => None,
    }
}

impl PacketType {
    /// The byte encoding this packet type.
    pub fn into(self) -> (r: u8)
        ensures
            r == type_code(self),
    {
        match self {
            PacketType::Open => 0,
            PacketType::Close => 1,
            PacketType::Ping => 2,
            PacketType::Pong => 3,
            PacketType::Message => 4,
            PacketType::Upgrade => 5,
            PacketType::Noop => 6,
        }
    }

    /// The packet type `value` encodes; `Err(InvalidPacketType(value))`
    /// exactly when there is none.
    pub fn try_from(value: u8) -> (r: Result<Self, ParserError>)
        ensures
            r matches Ok(t) ==> type_of_code(value) == Some(t),
            r matches Err(e) ==> type_of_code(value) is None && e
                == ParserError::InvalidPacketType(value),
    {
        match value {
            0 => Ok(PacketType::Open),
            1 => Ok(PacketType::Close),
            2 => Ok(PacketType::Ping),
            3 => Ok(PacketType::Pong),
            4 => Ok(PacketType::Message),
            5 => Ok(PacketType::Upgrade),
            6 => Ok(PacketType::Noop),
            _ => Err(ParserError::InvalidPacketType(value)),
        }
    }
}

/// A packet: a type byte and the payload bytes.
#[derive(Debug)]
pub struct Packet {
    pub packet_type: PacketType,
    pub data: Vec<u8>,
}

impl Packet {
    pub fn new(packet_type: PacketType, data: Vec<u8>) -> (r: Self)
        ensures
            r.packet_type == packet_type,
            r.data@ == data@,
    {
        Packet { packet_type, data }
    }
}

impl PartialEq for Packet {
    fn eq(&self, other: &Packet) -> (r: bool) {
        let dr = self.data == other.data;
        proof {
            if dr {
                assert(self.data@ =~= other.data@);
            }
        }
        self.packet_type == other.packet_type && dr
    }
}

impl vstd::std_specs::cmp::PartialEqSpecImpl for Packet {
    open spec fn obeys_eq_spec() -> bool {
        true
    }

    open spec fn eq_spec(&self, other: &Packet) -> bool {
        self.packet_type == other.packet_type && self.data@ == other.data@
    }
}

} // verus!
