use fost_protocol::connection::{Connection, FrameStep, ModelPacketDebugFilter,
    SimplePacketDebugFilter, PACKET_SIZE_CAP};
use fost_protocol::crypto::{CipherMode, PlainCipher, XOrCipher};
use fost_protocol::error::ProtocolError;
use fost_protocol::custom::CaptchaLocation;
use fost_protocol::packets::{
    register_all_packets, CaptchaParameters, Packet, PacketDirection, PacketRegistry,
    PingMeasurePing, PingMeasurePong, ResourceLoaderEncryptionInitialized,
    ResourceLoaderInitializeEncryption, SettingsOpen, MODEL_PING_MEASURE, MODEL_SETTINGS,
};

fn frame(id: u32, payload: &[u8]) -> Vec<u8> {
    let mut bytes = Vec::new();
    bytes.extend_from_slice(&((payload.len() as u32 + 8).to_be_bytes()));
    bytes.extend_from_slice(&id.to_be_bytes());
    bytes.extend_from_slice(payload);
    bytes
}

#[test]
fn cipher_round_trips_across_chunk_boundaries() {
    let seed = [0x01u8, 0x02, 0x03, 0x04];
    let mut server = XOrCipher::new(CipherMode::Server, &seed);
    let mut client = XOrCipher::new(CipherMode::Client, &seed);

    let plain: Vec<u8> = (0u16..64).map(|v| (v * 7 % 256) as u8).collect();
    // Encrypt in uneven chunks, decrypt in different uneven chunks.
    let mut ciphered: Vec<u8> = Vec::new();
    for chunk in plain.chunks(5) {
        let mut buffer = chunk.to_vec();
        server.encrypt(&mut buffer).unwrap();
        ciphered.extend_from_slice(&buffer);
    }
    let mut recovered: Vec<u8> = Vec::new();
    for chunk in ciphered.chunks(11) {
        let mut buffer = chunk.to_vec();
        client.decrypt(&mut buffer).unwrap();
        recovered.extend_from_slice(&buffer);
    }
    assert_eq!(recovered, plain);
}

#[test]
fn cipher_lanes_are_independent_per_direction() {
    let seed = [9u8, 9, 9, 9];
    let mut server = XOrCipher::new(CipherMode::Server, &seed);
    let mut client = XOrCipher::new(CipherMode::Client, &seed);

    let mut s2c = vec![1u8, 2, 3, 4];
    server.encrypt(&mut s2c).unwrap();
    let mut c2s = vec![5u8, 6, 7, 8];
    client.encrypt(&mut c2s).unwrap();

    client.decrypt(&mut s2c).unwrap();
    server.decrypt(&mut c2s).unwrap();
    assert_eq!(s2c, vec![1, 2, 3, 4]);
    assert_eq!(c2s, vec![5, 6, 7, 8]);
}

#[test]
fn plain_cipher_leaves_bytes_alone() {
    let mut cipher = PlainCipher::new(CipherMode::Client);
    let mut buffer = vec![1u8, 2, 3];
    cipher.encrypt(&mut buffer).unwrap();
    cipher.decrypt(&mut buffer).unwrap();
    assert_eq!(buffer, vec![1, 2, 3]);
    assert_eq!(cipher.mode(), CipherMode::Client);
}

#[test]
fn generated_keys_have_four_bytes() {
    assert_eq!(XOrCipher::generate_key().len(), 4);
}

#[test]
fn handshake_round_trips_the_documented_scenario() {
    // Server side: send the seed in the clear, then install the cipher.
    let mut server = Connection::new(true);
    let seed = vec![0x01u8, 0x02, 0x03, 0x04];
    server
        .send_packet(&Packet::ResourceLoaderInitializeEncryption(
            ResourceLoaderInitializeEncryption { protection_data: seed.clone() },
        ))
        .unwrap();
    server.install_cipher(CipherMode::Server, &seed);
    let wire: Vec<u8> = server.outgoing().to_vec();
    let sent = wire.len();
    server.consume_sent(sent);

    // Client side: read the seed, install the cipher with roles swapped.
    let mut client = Connection::new(false);
    client.push_received(&wire);
    let first = match client.try_parse_read_buffer().unwrap() {
        FrameStep::Decoded(p) => p,
        FrameStep::Pending => panic!("handshake frame not parsed"),
    };
    let seed_bytes = match &first {
        Packet::ResourceLoaderInitializeEncryption(p) => p.protection_data.clone(),
        other => panic!("unexpected first packet {:?}", other),
    };
    client.install_cipher(CipherMode::Client, &seed_bytes);

    // Client answers with its language code, ciphered under the derived key.
    client
        .send_packet(&Packet::ResourceLoaderEncryptionInitialized(
            ResourceLoaderEncryptionInitialized { lang: "en".to_owned() },
        ))
        .unwrap();
    let answer: Vec<u8> = client.outgoing().to_vec();

    // The payload on the wire is ciphered: it is not the clear encoding.
    assert_eq!(&answer[..4], &15u32.to_be_bytes());
    assert_ne!(&answer[8..], &[0x00, 0x00, 0x00, 0x00, 0x02, 0x65, 0x6e][..]);

    // The server decrypts it back to the literal payload.
    let mut server_reader = server;
    server_reader.push_received(&answer);
    let decoded = match server_reader.try_parse_read_buffer().unwrap() {
        FrameStep::Decoded(p) => p,
        FrameStep::Pending => panic!("answer frame not parsed"),
    };
    match decoded {
        Packet::ResourceLoaderEncryptionInitialized(p) => assert_eq!(p.lang, "en"),
        other => panic!("unexpected answer {:?}", other),
    }
}

#[test]
fn short_length_field_disconnects_with_packet_too_small() {
    let mut connection = Connection::new(false);
    let mut bytes = Vec::new();
    bytes.extend_from_slice(&7u32.to_be_bytes());
    bytes.extend_from_slice(&999u32.to_be_bytes());
    connection.push_received(&bytes);
    let r = connection.try_parse_read_buffer();
    assert!(matches!(r, Err(ProtocolError::PacketTooSmall(7))));
    assert!(connection.is_disconnected());
}

#[test]
fn oversized_length_field_disconnects_with_packet_too_large() {
    let mut connection = Connection::new(false);
    let declared = (PACKET_SIZE_CAP + 1) as u32;
    let mut bytes = Vec::new();
    bytes.extend_from_slice(&declared.to_be_bytes());
    bytes.extend_from_slice(&1u32.to_be_bytes());
    connection.push_received(&bytes);
    let r = connection.try_parse_read_buffer();
    assert!(matches!(r, Err(ProtocolError::PacketTooLarge(n)) if n == PACKET_SIZE_CAP + 1));
    assert!(connection.is_disconnected());
}

#[test]
fn unknown_id_disconnects_unless_permissive() {
    let payload = [0xde, 0xad, 0xbe, 0xef];
    let bytes = frame(999, &payload);
    assert_eq!(bytes[..4], 12u32.to_be_bytes());

    let mut strict = Connection::new(false);
    strict.push_received(&bytes);
    let r = strict.try_parse_read_buffer();
    assert!(matches!(r, Err(ProtocolError::PacketUnknownId(999))));
    assert!(strict.is_disconnected());

    let mut permissive = Connection::new(false);
    permissive.allow_unknown_packets();
    permissive.push_received(&bytes);
    match permissive.try_parse_read_buffer().unwrap() {
        FrameStep::Decoded(Packet::Unknown(u)) => {
            assert_eq!(u.payload(), &payload);
        },
        other => panic!("expected an opaque packet, got {:?}", matches!(other, FrameStep::Pending)),
    }
    assert!(!permissive.is_disconnected());
}

#[test]
fn frames_assemble_across_partial_reads() {
    let mut connection = Connection::new(true);
    let bytes = frame(7, &[]);  // PingMeasurePong, client to server
    connection.push_received(&bytes[..3]);
    assert!(matches!(connection.try_parse_read_buffer().unwrap(), FrameStep::Pending));
    connection.push_received(&bytes[3..]);
    match connection.try_parse_read_buffer().unwrap() {
        FrameStep::Decoded(Packet::PingMeasurePong(_)) => {},
        _ => panic!("expected the pong"),
    }
}

#[test]
fn framer_advances_by_declared_length_despite_trailing_bytes() {
    // A bool payload of 3 bytes: the decoder reads 1, the framer must skip 3.
    let mut connection = Connection::new(false);
    let first = frame(18, &[0x01, 0xaa, 0xbb]);  // SettingsOpen with junk tail
    let second = frame(6, &[]);  // PingMeasurePing
    connection.push_received(&first);
    connection.push_received(&second);
    match connection.try_parse_read_buffer().unwrap() {
        FrameStep::Decoded(Packet::SettingsOpen(p)) => assert!(p.notification_enabled),
        _ => panic!("expected settings open"),
    }
    match connection.try_parse_read_buffer().unwrap() {
        FrameStep::Decoded(Packet::PingMeasurePing(_)) => {},
        _ => panic!("expected the ping after the junk tail"),
    }
}

#[test]
fn sends_are_silently_dropped_once_disconnected() {
    let mut connection = Connection::new(false);
    connection.disconnect();
    connection
        .send_packet(&Packet::PingMeasurePing(PingMeasurePing {}))
        .unwrap();
    assert_eq!(connection.outgoing().len(), 0);
}

#[test]
fn directions_keep_their_own_catalogs() {
    // SettingsOpen travels server to client; a server must not decode it.
    let mut server = Connection::new(true);
    server.push_received(&frame(18, &[0x01]));
    assert!(matches!(
        server.try_parse_read_buffer(),
        Err(ProtocolError::PacketUnknownId(18))
    ));
}

#[test]
fn debug_filters_answer_by_model_id() {
    let ping = Packet::PingMeasurePing(PingMeasurePing {});
    let settings = Packet::SettingsOpen(SettingsOpen { notification_enabled: false });

    let all = SimplePacketDebugFilter::logging_enabled();
    let none = SimplePacketDebugFilter::logging_disabled();
    assert!(all.should_log(true, &ping));
    assert!(!none.should_log(false, &ping));

    let allow = ModelPacketDebugFilter::whitelist(vec![MODEL_PING_MEASURE]);
    assert!(allow.should_log(false, &ping));
    assert!(!allow.should_log(false, &settings));

    let deny = ModelPacketDebugFilter::blacklist(vec![MODEL_SETTINGS]);
    assert!(deny.should_log(false, &ping));
    assert!(!deny.should_log(false, &settings));
}

#[test]
fn ciphered_catalog_messages_round_trip_end_to_end() {
    let seed = [0x10u8, 0x20, 0x30, 0x40];
    let mut server = Connection::new(true);
    server.install_cipher(CipherMode::Server, &seed);
    let mut client = Connection::new(false);
    client.install_cipher(CipherMode::Client, &seed);

    let sent = CaptchaParameters {
        init_params: vec![CaptchaLocation::RegisterForm, CaptchaLocation::ClientStartup],
    };
    server.send_packet(&Packet::CaptchaParameters(sent.clone())).unwrap();
    let wire = server.outgoing().to_vec();
    client.push_received(&wire);
    match client.try_parse_read_buffer().unwrap() {
        FrameStep::Decoded(Packet::CaptchaParameters(received)) => {
            assert_eq!(received, sent);
        },
        _ => panic!("expected the captcha parameters back"),
    }
}

#[test]
fn codec_error_inside_a_frame_disconnects() {
    // A captcha validation with an ordinal no variant carries.
    let mut connection = Connection::new(false);
    connection.push_received(&frame(13, &[0, 0, 0, 99]));
    let r = connection.try_parse_read_buffer();
    assert!(matches!(r, Err(ProtocolError::EnumInvalidOrdinal(99, _))));
    assert!(connection.is_disconnected());
}

#[test]
fn unregistered_ids_cannot_be_encoded_through_the_registry() {
    let mut registry = PacketRegistry::new();
    register_all_packets(&mut registry, PacketDirection::C2S);
    let mut buffer: Vec<u8> = Vec::new();
    let s2c_only = Packet::PingMeasurePing(PingMeasurePing {});
    let r = registry.encode(&mut buffer, &s2c_only);
    assert!(matches!(r, Err(ProtocolError::GenericError)));

    let pong = Packet::PingMeasurePong(PingMeasurePong {});
    registry.encode(&mut buffer, &pong).unwrap();
    assert!(buffer.is_empty());
}
