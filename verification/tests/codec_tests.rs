use fost_protocol::codec::{Codeable, Length};
use fost_protocol::custom::{BattleTeam, CaptchaLocation, LayoutState, MoveCommand, Vector3};
use fost_protocol::error::ProtocolError;
use fost_protocol::reader::Reader;
use fost_protocol::registry::CodecRegistry;

fn encode_ok<T: Codeable>(value: &T) -> Vec<u8> {
    let mut buffer: Vec<u8> = Vec::new();
    value.encode(&mut buffer).unwrap();
    buffer
}

fn decode_ok<T: Codeable>(bytes: &[u8]) -> T {
    let mut reader = Reader::new(bytes);
    T::decode(&mut reader).unwrap()
}

#[test]
fn basic_test() {
    let mut codecs = CodecRegistry::new();
    codecs.register_primatives();

    let mut buffer = Vec::with_capacity(16);
    codecs.encode(&mut buffer, &"Hello World!".to_owned()).unwrap();
    let decoded: String = {
        let mut reader = Reader::new(buffer.as_slice());
        codecs.decode(&mut reader).unwrap()
    };

    assert_eq!(decoded, "Hello World!");
}

#[test]
fn registry_refuses_before_primitives_are_registered() {
    let codecs = CodecRegistry::new();
    let mut buffer: Vec<u8> = Vec::new();
    let r = codecs.encode(&mut buffer, &true);
    assert!(matches!(r, Err(ProtocolError::GenericError)));
}

#[test]
fn integer_codecs_round_trip_big_endian() {
    assert_eq!(encode_ok(&0x1234u16), vec![0x12, 0x34]);
    assert_eq!(encode_ok(&0x12345678u32), vec![0x12, 0x34, 0x56, 0x78]);
    assert_eq!(
        encode_ok(&0x123456789abcdef0u64),
        vec![0x12, 0x34, 0x56, 0x78, 0x9a, 0xbc, 0xde, 0xf0]
    );
    assert_eq!(encode_ok(&(-2i8)), vec![0xfe]);
    assert_eq!(decode_ok::<i16>(&[0xff, 0xfe]), -2);
    assert_eq!(decode_ok::<i32>(&encode_ok(&-123456789i32)), -123456789);
    assert_eq!(decode_ok::<i64>(&encode_ok(&-1234567890123i64)), -1234567890123);
    assert_eq!(decode_ok::<u8>(&encode_ok(&0xa5u8)), 0xa5);
}

#[test]
fn bool_codec_accepts_any_nonzero_byte() {
    assert_eq!(encode_ok(&true), vec![1]);
    assert_eq!(encode_ok(&false), vec![0]);
    assert!(decode_ok::<bool>(&[7]));
    assert!(!decode_ok::<bool>(&[0]));
}

#[test]
fn varint_encodes_boundary_lengths_to_documented_widths() {
    let cases: [(usize, usize); 6] =
        [(0, 1), (127, 1), (128, 2), (16383, 2), (16384, 3), (4194303, 3)];
    for (value, width) in cases {
        let bytes = encode_ok(&Length(value));
        assert_eq!(bytes.len(), width, "width for {}", value);
        let back: Length = decode_ok(&bytes);
        assert_eq!(back.0, value, "round trip for {}", value);
    }
}

#[test]
fn varint_encodes_documented_examples() {
    assert_eq!(encode_ok(&Length(300)), vec![0x81, 0x2c]);
    assert_eq!(encode_ok(&Length(5)), vec![0x05]);
    assert_eq!(encode_ok(&Length(20000)), vec![0xc0, 0x4e, 0x20]);
}

#[test]
fn varint_rejects_values_beyond_three_bytes() {
    let mut buffer: Vec<u8> = Vec::new();
    let r = Length(4194304).encode(&mut buffer);
    assert!(matches!(r, Err(ProtocolError::CodecVarIntTooLarge)));
}

#[test]
fn string_codec_round_trips_documented_examples() {
    assert_eq!(encode_ok(&String::new()), vec![0x01]);
    assert_eq!(decode_ok::<String>(&[0x01]), "");
    assert_eq!(
        encode_ok(&"abc".to_owned()),
        vec![0x00, 0x00, 0x00, 0x00, 0x03, 0x61, 0x62, 0x63]
    );
    assert_eq!(
        decode_ok::<String>(&[0x00, 0x00, 0x00, 0x00, 0x03, 0x61, 0x62, 0x63]),
        "abc"
    );
    let text = "grüße".to_owned();
    assert_eq!(decode_ok::<String>(&encode_ok(&text)), text);
}

#[test]
fn string_codec_rejects_invalid_utf8() {
    let bytes = [0x00, 0x00, 0x00, 0x00, 0x01, 0xff];
    let mut reader = Reader::new(&bytes);
    let r = String::decode(&mut reader);
    assert!(matches!(r, Err(ProtocolError::CodecUtf8DecodeError)));
}

#[test]
fn truncated_stream_fails_with_io_error() {
    let mut reader = Reader::new(&[0x00, 0x01]);
    let r = u32::decode(&mut reader);
    assert!(matches!(r, Err(ProtocolError::IOError)));
}

#[test]
fn sequence_codec_round_trips_and_counts() {
    let value: Vec<u8> = vec![9, 8, 7];
    let bytes = encode_ok(&value);
    assert_eq!(bytes, vec![0x00, 0x00, 0x00, 0x03, 9, 8, 7]);
    assert_eq!(decode_ok::<Vec<u8>>(&bytes), value);

    let strings: Vec<String> = vec!["a".to_owned(), String::new()];
    assert_eq!(decode_ok::<Vec<String>>(&encode_ok(&strings)), strings);
}

#[test]
fn optional_codec_writes_empty_flag() {
    let none: Option<u16> = None;
    assert_eq!(encode_ok(&none), vec![0x01]);
    let some: Option<u16> = Some(0x0102);
    assert_eq!(encode_ok(&some), vec![0x00, 0x01, 0x02]);
    assert_eq!(decode_ok::<Option<u16>>(&[0x00, 0x01, 0x02]), Some(0x0102));
    assert_eq!(decode_ok::<Option<u16>>(&[0x01]), None);
}

#[test]
fn optional_vector_matches_documented_layout() {
    let none: Option<Vector3> = None;
    assert_eq!(encode_ok(&none), vec![0x01]);

    let some = Some(Vector3::new(1.0f32.to_bits(), 2.0f32.to_bits(), 3.0f32.to_bits()));
    let bytes = encode_ok(&some);
    assert_eq!(bytes.len(), 13);
    assert_eq!(bytes[0], 0x00);
    assert_eq!(&bytes[1..5], &1.0f32.to_bits().to_be_bytes());
    assert_eq!(&bytes[5..9], &2.0f32.to_bits().to_be_bytes());
    assert_eq!(&bytes[9..13], &3.0f32.to_bits().to_be_bytes());
    assert_eq!(decode_ok::<Option<Vector3>>(&bytes), some);
}

#[test]
fn enum_codecs_use_ordinals_and_reject_unknown() {
    assert_eq!(encode_ok(&CaptchaLocation::ClientStartup), vec![0, 0, 0, 2]);
    assert_eq!(
        decode_ok::<CaptchaLocation>(&[0, 0, 0, 5]),
        CaptchaLocation::AccountSettingsForm
    );
    assert_eq!(encode_ok(&LayoutState::Battle), vec![0, 0, 0, 3]);
    assert_eq!(encode_ok(&BattleTeam::NoTeam), vec![0, 0, 0, 2]);

    let mut buffer: Vec<u8> = Vec::new();
    let r = CaptchaLocation::Unknown.encode(&mut buffer);
    assert!(matches!(r, Err(ProtocolError::EnumUnknown)));

    let mut reader = Reader::new(&[0, 0, 0, 99]);
    let r = CaptchaLocation::decode(&mut reader);
    assert!(matches!(r, Err(ProtocolError::EnumInvalidOrdinal(99, _))));
}

#[test]
fn move_command_round_trips_in_wire_order() {
    let command = MoveCommand {
        control: 5,
        position: Some(Vector3::new(1, 2, 3)),
        orientation: None,
        velocity: Some(Vector3::new(4, 5, 6)),
        angular_velocity: None,
    };
    let bytes = encode_ok(&command);
    // angular velocity (empty), control, velocity, orientation (empty), position
    assert_eq!(bytes[0], 0x01);
    assert_eq!(bytes[1], 5);
    assert_eq!(bytes[2], 0x00);
    let back: MoveCommand = decode_ok(&bytes);
    assert_eq!(back, command);
}

#[test]
fn decoding_leaves_trailing_bytes_unread() {
    let bytes = [0x00, 0x2a, 0xff, 0xff];
    let mut reader = Reader::new(&bytes);
    let value = u16::decode(&mut reader).unwrap();
    assert_eq!(value, 0x002a);
    assert_eq!(reader.remaining_len(), 2);
}
