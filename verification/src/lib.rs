//! A server-side engine for the Socket.IO wire protocol: a packet codec for
//! the text packet grammar, a namespace/room registry resolving room
//! membership for broadcast, and a per-connection lifecycle state machine
//! driving heartbeat, teardown and inbound frame handling.

use vstd::prelude::*;

pub mod data;
pub mod engine_io_parser;
pub mod engine_io_server;
pub mod json_text;
pub mod parser;
pub mod random_id_generator;
pub mod socket_io_adaptor;
pub mod socket_io_packet_codec;
pub mod socket_io_parser;
pub mod socket_io_websocket;

verus! {

/// Maps a decimal digit character to its numeric value.
pub open spec fn spec_char_to_number(c: char) -> Option<u8> {
    match c {
        '0' => Some(0u8),
        '1' => Some(1u8),
        '2' => Some(2u8),
        '3' => Some(3u8),
        '4' => Some(4u8),
        '5' => Some(5u8),
        '6' => Some(6u8),
        '7' => Some(7u8),
        '8' => Some(8u8),
        '9' => Some(9u8),
        _ => None,
    }
}

} // verus!
