//! The structured form of a Socket.IO packet.

use vstd::prelude::*;

use crate::json_text::JsonText;
use crate::socket_io_packet_codec::packet_type::SocketIoPacketType;

verus! {

/// A structured Socket.IO packet: a type, a namespace path (always starting
/// with '/', "/" by default), an optional numeric ack id and an optional
/// JSON payload.
#[derive(Debug)]
pub struct SocketIoPacket {
    pub packet_type: SocketIoPacketType,
    pub nsp: String,
    pub id: Option<u32>,
    pub data: Option<JsonText>,
}

/// The mathematical shape of a packet: the namespace and payload as
/// character sequences.
pub ghost struct PacketV {
    pub packet_type: SocketIoPacketType,
    pub nsp: Seq<char>,
    pub id: Option<u32>,
    pub data: Option<Seq<char>>,
}

impl View for SocketIoPacket {
    type V = PacketV;

    open spec fn view(&self) -> PacketV {
        PacketV {
            packet_type: self.packet_type,
            nsp: self.nsp@,
            id: self.id,
            data: match self.data {
                Some(j) => Some(j@),
                None => None,
            },
        }
    }
}

/// The packet invariant of the data model: the namespace is non-empty,
/// starts with '/' and contains no comma; the type is not one of the binary
/// types (whose payloads the codec does not support); and a payload does not
/// begin with a decimal digit (the wire form cannot distinguish such a
/// payload from an ack id; see the codec).
pub open spec fn packet_wf(p: PacketV) -> bool {
    &&& p.nsp.len() >= 1
    &&& p.nsp[0] == '/'
    &&& forall|k: int| 0 <= k < p.nsp.len() ==> p.nsp[k] != ','
    &&& !(p.packet_type is BinaryEvent)
    &&& !(p.packet_type is BinaryAck)
    &&& (p.data matches Some(t) ==> crate::spec_char_to_number(t[0]) is None)
}

impl PartialEq for SocketIoPacket {
    fn eq(&self, other: &SocketIoPacket) -> (r: bool) {
        self.packet_type == other.packet_type && self.nsp == other.nsp && (match (self.id,
        other.id) {
            (Some(a), Some(b)) => a == b,
            (None, None) => true,
            _ => false,
        }) && (match (&self.data, &other.data) {
            (Some(a), Some(b)) => a == b,
            (None, None) => true,
            _ => false,
        })
    }
}

impl vstd::std_specs::cmp::PartialEqSpecImpl for SocketIoPacket {
    open spec fn obeys_eq_spec() -> bool {
        true
    }

    open spec fn eq_spec(&self, other: &SocketIoPacket) -> bool {
        self@ == other@
    }
}

} // verus!
