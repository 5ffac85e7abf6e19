//! The packet of the earlier codec cut. Its mathematical view is the same
//! `PacketV` the default codec speaks of.

use vstd::prelude::*;

use crate::json_text::JsonText;
use crate::socket_io_packet_codec::socket_io_packet::PacketV;
use crate::socket_io_parser::socket_io_packet_type::{as_codec_type, SocketIoPacketType};

verus! {

/// A structured Socket.IO packet: type, namespace path, optional ack id,
/// optional JSON payload.
#[derive(Debug)]
pub struct SocketIoPacket {
    pub packet_type: SocketIoPacketType,
    pub nsp: String,
    pub id: Option<u32>,
    pub data: Option<JsonText>,
}

impl View for SocketIoPacket {
    type V = PacketV;

    open spec fn view(&self) -> PacketV {
        PacketV {
            packet_type: as_codec_type(self.packet_type),
            nsp: self.nsp@,
            id: self.id,
            data: match self.data {
                Some(j) => Some(j@),
                None => None,
            },
        }
    }
}

impl PartialEq for SocketIoPacket {
    fn eq(&self, other: &SocketIoPacket) -> (r: bool) {
        self.packet_type == other.packet_type && self.nsp == other.nsp && (match (self.id,
        other.id) {
            (Some(a), Some(b)) => a == b,
            (None, None) => true,
            _ => false,
        }) && (match (&self.data, &other.data) {
            (Some(a), Some(b)) => a == b,
            (None, None) => true,
            _ => false,
        })
    }
}

impl vstd::std_specs::cmp::PartialEqSpecImpl for SocketIoPacket {
    open spec fn obeys_eq_spec() -> bool {
        true
    }

    open spec fn eq_spec(&self, other: &SocketIoPacket) -> bool {
        self@ == other@ && self.packet_type == other.packet_type
    }
}

} // verus!
