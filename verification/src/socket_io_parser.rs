//! An earlier cut of the Socket.IO text codec, kept alongside the default
//! codec. Its packet carries the same wire meaning; encoding and decoding
//! share the default codec's grammar.

pub mod number_util;
pub mod socket_io_packet;
pub mod socket_io_packet_type;
pub mod socket_io_parser_impl;
