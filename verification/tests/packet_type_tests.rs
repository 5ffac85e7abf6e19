use socket_io_rust::socket_io_packet_codec::number_util::convert_char_to_number;
use socket_io_rust::socket_io_packet_codec::packet_type::SocketIoPacketType;
use socket_io_rust::socket_io_packet_codec::packet_type::SocketIoPacketType::{Ack, BinaryAck, BinaryEvent, Connect, Disconnect, Error, Event};

use socket_io_rust::socket_io_parser::number_util::convert_char_to_number as parser_convert_char_to_number;
use socket_io_rust::socket_io_parser::socket_io_packet_type::SocketIoPacketType as ParserPacketType;

#[test]
fn number_util_convert_char_to_number_test() {
    let num_chars = vec!['0', '1', '2', '3', '4', '5', '6', '7', '8', '9'];
    for (ii, &c) in num_chars.iter().enumerate() {
        assert_eq!(ii as u8, convert_char_to_number(c).unwrap());
        assert_eq!(ii as u8, parser_convert_char_to_number(c).unwrap());
    }
}

#[test]
fn convert_char_to_number_test_none() {
    assert!(convert_char_to_number('a').is_none());
    assert!(convert_char_to_number('b').is_none());
    assert!(convert_char_to_number('å').is_none());
    assert!(parser_convert_char_to_number('a').is_none());
    assert!(parser_convert_char_to_number('b').is_none());
    assert!(parser_convert_char_to_number('å').is_none());
}

#[test]
fn convert_from_char_test() {
    let chars = vec!['0', '1', '2', '3', '4', '5', '6'];
    let types = vec![
        Connect,
        Disconnect,
        Event,
        Ack,
        Error,
        BinaryEvent,
        BinaryAck,
    ];

    for (&left, right) in chars.iter().zip(types) {
        assert_eq!(right, SocketIoPacketType::convert_from_char(left).unwrap());
    }
}

#[test]
fn convert_from_char_test_error() {
    assert!(SocketIoPacketType::convert_from_char('7').is_err());
    assert!(SocketIoPacketType::convert_from_char('a').is_err());
}

#[test]
fn convert_packet_type_to_u8_test() {
    let types = vec![
        Connect,
        Disconnect,
        Event,
        Ack,
        Error,
        BinaryEvent,
        BinaryAck,
    ];
    for (ii, &item) in types.iter().enumerate() {
        assert_eq!(ii as u8, item.into())
    }
}

#[test]
fn convert_from_u8_to_packet_type_test() {
    let types = vec![
        Connect,
        Disconnect,
        Event,
        Ack,
        Error,
        BinaryEvent,
        BinaryAck,
    ];
    for (ii, &item) in types.iter().enumerate() {
        assert_eq!(item, SocketIoPacketType::try_from(ii as u8).unwrap());
    }
}

#[test]
fn convert_from_u8_to_packet_type_test_null() {
    assert!(SocketIoPacketType::try_from(9).is_err());
    assert!(SocketIoPacketType::try_from(111).is_err());
}

#[test]
fn parser_packet_type_digits() {
    let chars = vec!['0', '1', '2', '3', '4', '5', '6'];
    let types = vec![
        ParserPacketType::Connect,
        ParserPacketType::Disconnect,
        ParserPacketType::Event,
        ParserPacketType::Ack,
        ParserPacketType::Error,
        ParserPacketType::BinaryEvent,
        ParserPacketType::BinaryAck,
    ];
    for (ii, (&c, &t)) in chars.iter().zip(types.iter()).enumerate() {
        assert_eq!(t, ParserPacketType::convert_from_char(c).unwrap());
        assert_eq!(ii as u8, t.into());
        assert_eq!(t, ParserPacketType::try_from(ii as u8).unwrap());
    }
    assert!(ParserPacketType::convert_from_char('7').is_err());
    assert!(ParserPacketType::try_from(7).is_err());
}
