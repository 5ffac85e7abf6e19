//! The Socket.IO packet codec: structured packet to wire text and back.
//!
//! The wire form is `<type-digit>[<namespace>','][<ack-id-digits>][<json-payload>]`,
//! with no delimiter between the ack id and the payload: the ack id is always
//! the maximal run of decimal digits right after the namespace segment.

use vstd::prelude::*;

pub mod default_packet_codec;
pub mod number_util;
pub mod packet_type;
pub mod socket_io_packet;

verus! {

/// Why a wire text was rejected by `decode`. Every failure path of the codec
/// returns one of these; the codec never panics.
#[derive(Debug)]
pub enum PacketCodecError {
    /// The input text was empty.
    EmptyInput,
    /// The first character is not the digit of any packet type.
    UnknownPacketType,
    /// The packet type is BinaryEvent or BinaryAck, whose payloads this codec
    /// does not support.
    UnsupportedBinaryPacket,
    /// The ack-id digit run does not fit an unsigned 32-bit integer.
    InvalidAckId,
    /// The trailing text is not the text of a JSON value; carries that text.
    InvalidPayload(String),
}

/// The mathematical shape of a `PacketCodecError`.
pub ghost enum CodecErrorV {
    EmptyInput,
    UnknownPacketType,
    UnsupportedBinaryPacket,
    InvalidAckId,
    InvalidPayload(Seq<char>),
}

impl View for PacketCodecError {
    type V = CodecErrorV;

    open spec fn view(&self) -> CodecErrorV {
        match self {
            PacketCodecError::EmptyInput => CodecErrorV::EmptyInput,
            PacketCodecError::UnknownPacketType => CodecErrorV::UnknownPacketType,
            PacketCodecError::UnsupportedBinaryPacket => CodecErrorV::UnsupportedBinaryPacket,
            PacketCodecError::InvalidAckId => CodecErrorV::InvalidAckId,
            PacketCodecError::InvalidPayload(s) => CodecErrorV::InvalidPayload(s@),
        }
    }
}

} // verus!
