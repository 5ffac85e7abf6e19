use socket_io_rust::json_text::JsonText;
use socket_io_rust::socket_io_parser::socket_io_packet::SocketIoPacket;
use socket_io_rust::socket_io_parser::socket_io_packet_type::SocketIoPacketType;
use socket_io_rust::socket_io_parser::socket_io_parser_impl::SocketIoParserImpl;

fn convert_type_to_string(packet: SocketIoPacketType) -> String {
    format!("{}", packet.into())
}

fn sample_json_text() -> String {
    String::from(
        "{\"age\":43,\"name\":\"John Doe\",\"phones\":[\"+44 1234567\",\"+44 2345678\"]}",
    )
}

#[test]
fn socket_io_parser_impl_encode_test_1() {
    let packet_type = SocketIoPacketType::Connect;
    let packet_type_string = convert_type_to_string(packet_type);
    let nsp = "/hello";
    let id = 100;
    let data_string = sample_json_text();
    let data = JsonText::parse(&data_string).unwrap();

    let packet = SocketIoPacket {
        packet_type,
        nsp: nsp.to_string(),
        id: Some(id),
        data: Some(data),
    };

    let encoded_string = SocketIoParserImpl::encode(packet);
    let expected = format!("{}{},{}{}", packet_type_string, nsp, id, data_string);
    assert_eq!(encoded_string, expected)
}

#[test]
fn socket_io_parser_impl_encode_test_2() {
    let packet_type = SocketIoPacketType::Ack;
    let packet_type_string = convert_type_to_string(packet_type);
    let data_string = sample_json_text();
    let data = JsonText::parse(&data_string).unwrap();

    let packet = SocketIoPacket {
        packet_type,
        nsp: "/".to_string(),
        id: None,
        data: Some(data),
    };

    let encoded_string = SocketIoParserImpl::encode(packet);
    let expected = format!("{}{}", packet_type_string, data_string);
    assert_eq!(encoded_string, expected)
}

#[test]
fn socket_io_parser_impl_encode_test_3() {
    let packet_type = SocketIoPacketType::Event;
    let packet_type_string = convert_type_to_string(packet_type);

    let packet = SocketIoPacket {
        packet_type,
        nsp: "/".to_string(),
        id: None,
        data: None,
    };

    let encoded_string = SocketIoParserImpl::encode(packet);
    let expected = packet_type_string;
    assert_eq!(encoded_string, expected)
}

#[test]
fn socket_io_parser_impl_decode_test_1() {
    let packet_type = SocketIoPacketType::Connect;
    let packet_type_string = convert_type_to_string(packet_type);
    let nsp = "/hello";
    let id = 100;
    let data_string = sample_json_text();
    let data = JsonText::parse(&data_string).unwrap();

    let packet = SocketIoPacket {
        packet_type,
        nsp: nsp.to_string(),
        id: Some(id),
        data: Some(data),
    };

    let input = format!("{}{},{}{}", packet_type_string, nsp, id, data_string);
    let decoded = SocketIoParserImpl::decode(input).unwrap();
    assert_eq!(packet, decoded);
}

#[test]
fn socket_io_parser_impl_decode_test_2() {
    let packet_type = SocketIoPacketType::Connect;
    let packet_type_string = convert_type_to_string(packet_type);
    let nsp = "/hello";
    let data_string = sample_json_text();
    let data = JsonText::parse(&data_string).unwrap();

    let packet = SocketIoPacket {
        packet_type,
        nsp: nsp.to_string(),
        id: None,
        data: Some(data),
    };

    let input = format!("{}{},{}", packet_type_string, nsp, data_string);
    let decoded = SocketIoParserImpl::decode(input).unwrap();
    assert_eq!(packet, decoded);
}

#[test]
fn socket_io_parser_impl_decode_test_3() {
    let packet_type = SocketIoPacketType::Connect;
    let packet_type_string = convert_type_to_string(packet_type);
    let nsp = "/hello";

    let packet = SocketIoPacket {
        packet_type,
        nsp: nsp.to_string(),
        id: None,
        data: None,
    };

    let input = format!("{}{},", packet_type_string, nsp);
    let decoded = SocketIoParserImpl::decode(input).unwrap();
    assert_eq!(packet, decoded);
}

#[test]
fn socket_io_parser_impl_decode_test_4() {
    let packet_type = SocketIoPacketType::Connect;
    let packet_type_string = convert_type_to_string(packet_type);
    let nsp = "/hello";

    let packet = SocketIoPacket {
        packet_type,
        nsp: nsp.to_string(),
        id: None,
        data: None,
    };

    let input = format!("{}{}", packet_type_string, nsp);
    let decoded = SocketIoParserImpl::decode(input).unwrap();
    assert_eq!(packet, decoded);
}

#[test]
fn socket_io_parser_impl_decode_test_5() {
    let packet_type = SocketIoPacketType::Connect;
    let packet_type_string = convert_type_to_string(packet_type);

    let packet = SocketIoPacket {
        packet_type,
        nsp: "/".to_string(),
        id: None,
        data: None,
    };

    let input = packet_type_string;
    let decoded = SocketIoParserImpl::decode(input).unwrap();
    assert_eq!(packet, decoded);
}

#[test]
fn socket_io_parser_impl_decode_test_6() {
    let packet_type = SocketIoPacketType::Connect;
    let packet_type_string = convert_type_to_string(packet_type);
    let id = 100;
    let packet = SocketIoPacket {
        packet_type,
        nsp: "/".to_string(),
        id: Some(id),
        data: None,
    };

    let input = format!("{}{}", packet_type_string, id);
    let decoded = SocketIoParserImpl::decode(input).unwrap();
    assert_eq!(packet, decoded);
}

#[test]
fn socket_io_parser_impl_decode_test_7() {
    let packet_type = SocketIoPacketType::Connect;
    let packet_type_string = convert_type_to_string(packet_type);
    let id = 0;
    let packet = SocketIoPacket {
        packet_type,
        nsp: "/".to_string(),
        id: Some(id),
        data: None,
    };

    let input = format!("{}{}", packet_type_string, id);
    let decoded = SocketIoParserImpl::decode(input).unwrap();
    assert_eq!(packet, decoded);
}

#[test]
fn socket_io_parser_impl_decode_rejects_bad_input() {
    assert!(SocketIoParserImpl::decode(String::new()).is_err());
    assert!(SocketIoParserImpl::decode(String::from("7")).is_err());
    assert!(SocketIoParserImpl::decode(String::from("5x")).is_err());
}
