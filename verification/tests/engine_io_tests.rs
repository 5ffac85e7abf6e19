use socket_io_rust::engine_io_parser::engine_io_parser_impl::EngineIOParserImpl;
use socket_io_rust::engine_io_parser::packet::{Packet, PacketType};
use socket_io_rust::engine_io_parser::errors::ParserError;
use socket_io_rust::engine_io_parser::EngineIoParser;

use socket_io_rust::data::{Packet as DataPacket, PacketType as DataPacketType};
use socket_io_rust::parser::parser_impl::SocketIOParserImpl;
use socket_io_rust::parser::SocketIoParser;

#[test]
fn engine_io_parser_impl_encode_packet_test() {
    let data: Vec<u8> = vec![1, 2, 3];
    let packet = Packet::new(PacketType::Open, data);
    let res = EngineIOParserImpl::encode_packet(packet);
    let expected: Vec<u8> = vec![0, 1, 2, 3];
    assert_eq!(expected, res)
}

#[test]
fn engine_io_parser_impl_decode_packet_test() {
    let data: Vec<u8> = vec![0, 1, 2, 3];
    let packet = EngineIOParserImpl::decode_packet(&data).unwrap();
    let expected = Packet::new(PacketType::Open, vec![1, 2, 3]);
    assert_eq!(expected, packet);
}

#[test]
fn parser_impl_encode_packet_test() {
    let data: Vec<u8> = vec![1, 2, 3];
    let packet = DataPacket::new(DataPacketType::Open, data);
    let res = SocketIOParserImpl::encode_packet(packet);
    let expected: Vec<u8> = vec![0, 1, 2, 3];
    assert_eq!(expected, res)
}

#[test]
fn parser_impl_decode_packet_test() {
    let data: Vec<u8> = vec![0, 1, 2, 3];
    let packet = SocketIOParserImpl::decode_packet(&data).unwrap();
    let expected = DataPacket::new(DataPacketType::Open, vec![1, 2, 3]);
    assert_eq!(expected, packet);
}

#[test]
fn engine_io_message_round_trip() {
    let packet = Packet::new(PacketType::Message, vec![4, 5, 6]);
    let encoded = EngineIOParserImpl::encode_packet(packet);
    assert_eq!(encoded, vec![4, 4, 5, 6]);
    let decoded = EngineIOParserImpl::decode_packet(&encoded).unwrap();
    assert_eq!(decoded, Packet::new(PacketType::Message, vec![4, 5, 6]));
}

#[test]
fn engine_io_decode_empty_and_invalid() {
    assert_eq!(
        EngineIOParserImpl::decode_packet(&[]).unwrap_err(),
        ParserError::EmptyPacket
    );
    assert_eq!(
        EngineIOParserImpl::decode_packet(&[9, 1]).unwrap_err(),
        ParserError::InvalidPacketType(9)
    );
}
