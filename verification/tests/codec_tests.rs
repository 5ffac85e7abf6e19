use socket_io_rust::json_text::JsonText;
use socket_io_rust::socket_io_packet_codec::default_packet_codec::DefaultPacketCodec;
use socket_io_rust::socket_io_packet_codec::packet_type::SocketIoPacketType;
use socket_io_rust::socket_io_packet_codec::socket_io_packet::SocketIoPacket;
use socket_io_rust::socket_io_packet_codec::PacketCodecError;

fn convert_type_to_string(packet: SocketIoPacketType) -> String {
    format!("{}", packet.into())
}

fn sample_json_text() -> String {
    String::from(
        "{\"age\":43,\"name\":\"John Doe\",\"phones\":[\"+44 1234567\",\"+44 2345678\"]}",
    )
}

#[test]
fn default_packet_codec_encode_test_1() {
    let packet_type = SocketIoPacketType::Connect;
    let packet_type_string = convert_type_to_string(packet_type);
    let nsp = "/hello";
    let id = 100;
    let data_string = sample_json_text();
    let data = JsonText::parse(&data_string).unwrap();

    let packet = SocketIoPacket {
        packet_type,
        nsp: nsp.to_string(),
        id: Some(id),
        data: Some(data),
    };

    let encoded_string = DefaultPacketCodec.encode(&packet);
    let expected = format!("{}{},{}{}", packet_type_string, nsp, id, data_string);
    assert_eq!(encoded_string, expected)
}

#[test]
fn default_packet_codec_encode_test_2() {
    let packet_type = SocketIoPacketType::Ack;
    let packet_type_string = convert_type_to_string(packet_type);
    let data_string = sample_json_text();
    let data = JsonText::parse(&data_string).unwrap();

    let packet = SocketIoPacket {
        packet_type,
        nsp: "/".to_string(),
        id: None,
        data: Some(data),
    };

    let encoded_string = DefaultPacketCodec.encode(&packet);
    let expected = format!("{}{}", packet_type_string, data_string);
    assert_eq!(encoded_string, expected)
}

#[test]
fn default_packet_codec_encode_test_3() {
    let packet_type = SocketIoPacketType::Event;
    let packet_type_string = convert_type_to_string(packet_type);

    let packet = SocketIoPacket {
        packet_type,
        nsp: "/".to_string(),
        id: None,
        data: None,
    };

    let encoded_string = DefaultPacketCodec.encode(&packet);
    let expected = packet_type_string;
    assert_eq!(encoded_string, expected)
}

#[test]
fn default_packet_codec_decode_test_1() {
    let packet_type = SocketIoPacketType::Connect;
    let packet_type_string = convert_type_to_string(packet_type);
    let nsp = "/hello";
    let id = 100;
    let data_string = sample_json_text();
    let data = JsonText::parse(&data_string).unwrap();

    let packet = SocketIoPacket {
        packet_type,
        nsp: nsp.to_string(),
        id: Some(id),
        data: Some(data),
    };

    let input = format!("{}{},{}{}", packet_type_string, nsp, id, data_string);
    let decoded = DefaultPacketCodec.decode(&input).unwrap();
    assert_eq!(packet, decoded);
}

#[test]
fn default_packet_codec_decode_test_2() {
    let packet_type = SocketIoPacketType::Connect;
    let packet_type_string = convert_type_to_string(packet_type);
    let nsp = "/hello";
    let data_string = sample_json_text();
    let data = JsonText::parse(&data_string).unwrap();

    let packet = SocketIoPacket {
        packet_type,
        nsp: nsp.to_string(),
        id: None,
        data: Some(data),
    };

    let input = format!("{}{},{}", packet_type_string, nsp, data_string);
    let decoded = DefaultPacketCodec.decode(&input).unwrap();
    assert_eq!(packet, decoded);
}

#[test]
fn default_packet_codec_decode_test_3() {
    let packet_type = SocketIoPacketType::Connect;
    let packet_type_string = convert_type_to_string(packet_type);
    let nsp = "/hello";

    let packet = SocketIoPacket {
        packet_type,
        nsp: nsp.to_string(),
        id: None,
        data: None,
    };

    let input = format!("{}{},", packet_type_string, nsp);
    let decoded = DefaultPacketCodec.decode(&input).unwrap();
    assert_eq!(packet, decoded);
}

#[test]
fn default_packet_codec_decode_test_4() {
    let packet_type = SocketIoPacketType::Connect;
    let packet_type_string = convert_type_to_string(packet_type);
    let nsp = "/hello";

    let packet = SocketIoPacket {
        packet_type,
        nsp: nsp.to_string(),
        id: None,
        data: None,
    };

    let input = format!("{}{}", packet_type_string, nsp);
    let decoded = DefaultPacketCodec.decode(&input).unwrap();
    assert_eq!(packet, decoded);
}

#[test]
fn default_packet_codec_decode_test_5() {
    let packet_type = SocketIoPacketType::Connect;
    let packet_type_string = convert_type_to_string(packet_type);

    let packet = SocketIoPacket {
        packet_type,
        nsp: "/".to_string(),
        id: None,
        data: None,
    };

    let input = packet_type_string;
    let decoded = DefaultPacketCodec.decode(&input).unwrap();
    assert_eq!(packet, decoded);
}

#[test]
fn default_packet_codec_decode_test_6() {
    let packet_type = SocketIoPacketType::Connect;
    let packet_type_string = convert_type_to_string(packet_type);
    let id = 100;
    let packet = SocketIoPacket {
        packet_type,
        nsp: "/".to_string(),
        id: Some(id),
        data: None,
    };

    let input = format!("{}{}", packet_type_string, id);
    let decoded = DefaultPacketCodec.decode(&input).unwrap();
    assert_eq!(packet, decoded);
}

#[test]
fn default_packet_codec_decode_test_7() {
    let packet_type = SocketIoPacketType::Connect;
    let packet_type_string = convert_type_to_string(packet_type);
    let id = 0;
    let packet = SocketIoPacket {
        packet_type,
        nsp: "/".to_string(),
        id: Some(id),
        data: None,
    };

    let input = format!("{}{}", packet_type_string, id);
    let decoded = DefaultPacketCodec.decode(&input).unwrap();
    assert_eq!(packet, decoded);
}

#[test]
fn decode_empty_input_fails() {
    let err = DefaultPacketCodec.decode("").unwrap_err();
    assert!(matches!(err, PacketCodecError::EmptyInput));
}

#[test]
fn decode_unknown_packet_type_fails() {
    let err = DefaultPacketCodec.decode("9{\"a\":1}").unwrap_err();
    assert!(matches!(err, PacketCodecError::UnknownPacketType));
    let err = DefaultPacketCodec.decode("x").unwrap_err();
    assert!(matches!(err, PacketCodecError::UnknownPacketType));
}

#[test]
fn decode_binary_types_fail() {
    let err = DefaultPacketCodec.decode("5{\"a\":1}").unwrap_err();
    assert!(matches!(err, PacketCodecError::UnsupportedBinaryPacket));
    let err = DefaultPacketCodec.decode("6{\"a\":1}").unwrap_err();
    assert!(matches!(err, PacketCodecError::UnsupportedBinaryPacket));
}

#[test]
fn decode_oversized_ack_id_fails() {
    // Eleven digits: larger than any unsigned 32-bit value.
    let err = DefaultPacketCodec.decode("099999999999").unwrap_err();
    assert!(matches!(err, PacketCodecError::InvalidAckId));
    // The largest representable ack id still decodes.
    let ok = DefaultPacketCodec.decode("04294967295").unwrap();
    assert_eq!(ok.id, Some(4294967295));
}

#[test]
fn decode_invalid_payload_fails() {
    let err = DefaultPacketCodec.decode("2{broken").unwrap_err();
    match err {
        PacketCodecError::InvalidPayload(detail) => assert_eq!(detail, "{broken"),
        _ => panic!("expected an invalid-payload rejection"),
    }
}

#[test]
fn encode_decode_connect_chat_scenario() {
    let payload = JsonText::parse("{\"ok\":true}").unwrap();
    let packet = SocketIoPacket {
        packet_type: SocketIoPacketType::Connect,
        nsp: "/chat".to_string(),
        id: Some(5),
        data: Some(payload),
    };
    let encoded = DefaultPacketCodec.encode(&packet);
    assert_eq!(encoded, "0/chat,5{\"ok\":true}");
    let decoded = DefaultPacketCodec.decode(&encoded).unwrap();
    assert_eq!(packet, decoded);
}

#[test]
fn round_trip_combinations() {
    let cases: Vec<(SocketIoPacketType, &str, Option<u32>, Option<&str>)> = vec![
        (SocketIoPacketType::Event, "/", None, None),
        (SocketIoPacketType::Event, "/", None, Some("{\"a\":1}")),
        (SocketIoPacketType::Event, "/", Some(7), Some("[1,2,3]")),
        (SocketIoPacketType::Ack, "/room one", Some(0), Some("\"text\"")),
        (SocketIoPacketType::Error, "/x", None, Some("null")),
        (SocketIoPacketType::Disconnect, "/y", Some(42), None),
    ];
    for (packet_type, nsp, id, data) in cases {
        let packet = SocketIoPacket {
            packet_type,
            nsp: nsp.to_string(),
            id,
            data: data.map(|d| JsonText::parse(d).unwrap()),
        };
        let encoded = DefaultPacketCodec.encode(&packet);
        let decoded = DefaultPacketCodec.decode(&encoded).unwrap();
        assert_eq!(packet, decoded);
    }
}

#[test]
fn json_text_validation() {
    assert!(JsonText::parse("{\"a\":1}").is_some());
    assert!(JsonText::parse("not json").is_none());
    assert!(JsonText::parse("").is_none());
    let j = JsonText::parse("[true,false]").unwrap();
    assert_eq!(j.as_str(), "[true,false]");
}
