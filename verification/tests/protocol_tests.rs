use vectordb::protocol::{
    command_carry_payload, decode_command, decode_handshake_reply, decode_handshake_request,
    decode_response, decode_sized, encode_command, encode_handshake_reply,
    encode_handshake_request, encode_response, Decoded, ResponseFrame, VDBCommand,
    VDBCommandKind, VDBOpResultCode,
};
use vectordb::wire::{copy_range, push_bytes, push_u16_be, push_u32_be, read_u16_be, read_u32_be};

#[test]
fn command_kind_bytes() {
    assert_eq!(VDBCommandKind::UNKNOWN.to_u8(), 0);
    assert_eq!(VDBCommandKind::INSERT.to_u8(), 1);
    assert_eq!(VDBCommandKind::UPDATE.to_u8(), 2);
    assert_eq!(VDBCommandKind::DELETE.to_u8(), 3);
    assert_eq!(VDBCommandKind::PING.to_u8(), 5);
    assert_eq!(VDBCommandKind::DISCONNECT.to_u8(), 6);
    assert_eq!(VDBCommandKind::from_u8(5), Some(VDBCommandKind::PING));
    assert_eq!(VDBCommandKind::from_u8(0), Some(VDBCommandKind::UNKNOWN));
    assert_eq!(VDBCommandKind::from_u8(3), Some(VDBCommandKind::DELETE));
    assert_eq!(VDBCommandKind::from_u8(4), None);
    assert_eq!(VDBCommandKind::from_u8(255), None);
}

#[test]
fn command_kind_from_unknown_byte_reads_unknown() {
    assert_eq!(VDBCommandKind::from_byte(7), VDBCommandKind::UNKNOWN);
    assert_eq!(VDBCommandKind::from_byte(1), VDBCommandKind::INSERT);
    assert_eq!(VDBCommandKind::from_byte(6), VDBCommandKind::DISCONNECT);
}

#[test]
fn command_kind_roundtrip_on_every_kind() {
    for k in [
        VDBCommandKind::UNKNOWN,
        VDBCommandKind::INSERT,
        VDBCommandKind::UPDATE,
        VDBCommandKind::DELETE,
        VDBCommandKind::PING,
        VDBCommandKind::DISCONNECT,
    ] {
        assert_eq!(VDBCommandKind::from_u8(k.to_u8()), Some(k));
    }
}

#[test]
fn result_code_numbers() {
    assert_eq!(VDBOpResultCode::OK.to_u16(), 0);
    assert_eq!(VDBOpResultCode::InvalidPayload.to_u16(), 1);
    assert_eq!(VDBOpResultCode::CommandNotImplemented.to_u16(), 2);
    assert_eq!(VDBOpResultCode::UnknownCommand.to_u16(), 3);
    assert_eq!(VDBOpResultCode::from_u16(3), Some(VDBOpResultCode::UnknownCommand));
    assert_eq!(VDBOpResultCode::from_u16(4), None);
    for c in [
        VDBOpResultCode::OK,
        VDBOpResultCode::InvalidPayload,
        VDBOpResultCode::CommandNotImplemented,
        VDBOpResultCode::UnknownCommand,
    ] {
        assert_eq!(VDBOpResultCode::from_u16(c.to_u16()), Some(c));
    }
}

#[test]
fn only_ping_and_disconnect_carry_no_payload() {
    assert!(!command_carry_payload(5));
    assert!(!command_carry_payload(6));
    assert!(command_carry_payload(0));
    assert!(command_carry_payload(1));
    assert!(command_carry_payload(2));
    assert!(command_carry_payload(3));
    assert!(command_carry_payload(7));
}

#[test]
fn big_endian_integers() {
    let mut v = vec![9u8];
    push_u16_be(&mut v, 0x0102);
    push_u32_be(&mut v, 0x0A0B0C0D);
    assert_eq!(v, vec![9, 1, 2, 0x0A, 0x0B, 0x0C, 0x0D]);
    assert_eq!(read_u16_be(&v, 1), 0x0102);
    assert_eq!(read_u32_be(&v, 3), 0x0A0B0C0D);
    assert_eq!(u32::from_be_bytes([0x0A, 0x0B, 0x0C, 0x0D]), read_u32_be(&v, 3));
    push_bytes(&mut v, &[7, 8]);
    assert_eq!(copy_range(&v, 6, 9), vec![0x0D, 7, 8]);
}

#[test]
fn encode_insert_command() {
    let cmd = VDBCommand { kind: VDBCommandKind::INSERT, payload: vec![1, 2, 3] };
    assert_eq!(encode_command(&cmd), vec![1, 0, 0, 0, 3, 1, 2, 3]);
}

#[test]
fn encode_ping_drops_payload() {
    let cmd = VDBCommand { kind: VDBCommandKind::PING, payload: vec![1, 2, 3] };
    assert_eq!(encode_command(&cmd), vec![5]);
    let cmd = VDBCommand { kind: VDBCommandKind::DISCONNECT, payload: vec![] };
    assert_eq!(encode_command(&cmd), vec![6]);
}

#[test]
fn decode_command_asks_for_each_piece() {
    let bytes = vec![1u8, 0, 0, 0, 3, 1, 2, 3];
    assert_eq!(decode_command(&bytes[..0]), Decoded::NeedMore(1));
    assert_eq!(decode_command(&bytes[..1]), Decoded::NeedMore(4));
    assert_eq!(decode_command(&bytes[..3]), Decoded::NeedMore(2));
    assert_eq!(decode_command(&bytes[..5]), Decoded::NeedMore(3));
    assert_eq!(decode_command(&bytes[..7]), Decoded::NeedMore(1));
    assert_eq!(
        decode_command(&bytes),
        Decoded::Complete(8, VDBCommand { kind: VDBCommandKind::INSERT, payload: vec![1, 2, 3] })
    );
}

#[test]
fn decode_command_leaves_following_bytes() {
    let bytes = vec![5u8, 1, 0, 0, 0, 0];
    assert_eq!(
        decode_command(&bytes),
        Decoded::Complete(1, VDBCommand { kind: VDBCommandKind::PING, payload: vec![] })
    );
    assert_eq!(
        decode_command(&bytes[1..]),
        Decoded::Complete(5, VDBCommand { kind: VDBCommandKind::INSERT, payload: vec![] })
    );
}

#[test]
fn decode_unknown_kind_reads_a_payload() {
    let bytes = vec![9u8, 0, 0, 0, 1, 42];
    assert_eq!(
        decode_command(&bytes),
        Decoded::Complete(6, VDBCommand { kind: VDBCommandKind::UNKNOWN, payload: vec![42] })
    );
}

#[test]
fn command_roundtrip_on_every_kind() {
    for k in [
        VDBCommandKind::UNKNOWN,
        VDBCommandKind::INSERT,
        VDBCommandKind::UPDATE,
        VDBCommandKind::DELETE,
        VDBCommandKind::PING,
        VDBCommandKind::DISCONNECT,
    ] {
        let cmd = VDBCommand { kind: k, payload: vec![4, 5] };
        let mut bytes = encode_command(&cmd);
        let n = bytes.len();
        bytes.push(99);
        let expected_payload = if command_carry_payload(k.to_u8()) { vec![4, 5] } else { vec![] };
        assert_eq!(
            decode_command(&bytes),
            Decoded::Complete(n, VDBCommand { kind: k, payload: expected_payload })
        );
        for cut in 0..n {
            match decode_command(&bytes[..cut]) {
                Decoded::NeedMore(k) => assert!(k > 0 && cut + k <= n),
                Decoded::Complete(_, _) => panic!("a partial command decoded"),
            }
        }
    }
}

#[test]
fn response_frame_bytes() {
    let bytes = encode_response(VDBOpResultCode::UnknownCommand, b"no");
    assert_eq!(bytes, vec![0, 3, 0, 0, 0, 2, b'n', b'o']);
    assert_eq!(decode_response(&bytes[..0]), Decoded::NeedMore(2));
    assert_eq!(decode_response(&bytes[..1]), Decoded::NeedMore(1));
    assert_eq!(decode_response(&bytes[..2]), Decoded::NeedMore(4));
    assert_eq!(decode_response(&bytes[..6]), Decoded::NeedMore(2));
    assert_eq!(
        decode_response(&bytes),
        Decoded::Complete(8, ResponseFrame { code: 3, payload: b"no".to_vec() })
    );
}

#[test]
fn decode_response_keeps_unlisted_code() {
    let bytes = vec![0x12u8, 0x34, 0, 0, 0, 0];
    assert_eq!(
        decode_response(&bytes),
        Decoded::Complete(6, ResponseFrame { code: 0x1234, payload: vec![] })
    );
}

#[test]
fn handshake_request_roundtrip() {
    let bytes = encode_handshake_request(&[0x92, 0xa1, 0x31]);
    assert_eq!(bytes, vec![b'V', b'D', b'B', 0, 0, 0, 3, 0x92, 0xa1, 0x31]);
    assert_eq!(decode_handshake_request(&bytes[..0]), Ok(Decoded::NeedMore(3)));
    assert_eq!(decode_handshake_request(&bytes[..2]), Ok(Decoded::NeedMore(1)));
    assert_eq!(decode_handshake_request(&bytes[..3]), Ok(Decoded::NeedMore(4)));
    assert_eq!(decode_handshake_request(&bytes[..7]), Ok(Decoded::NeedMore(3)));
    assert_eq!(
        decode_handshake_request(&bytes),
        Ok(Decoded::Complete(10, vec![0x92, 0xa1, 0x31]))
    );
}

#[test]
fn handshake_request_with_wrong_magic() {
    assert_eq!(
        decode_handshake_request(b"XYZ\0\0\0\0"),
        Err("Unknown protocol, expected VDB got XYZ".to_string())
    );
    assert_eq!(
        decode_handshake_request(b"VDC"),
        Err("Unknown protocol, expected VDB got VDC".to_string())
    );
}

#[test]
fn handshake_request_with_invalid_utf8_magic() {
    assert_eq!(
        decode_handshake_request(&[0xff, b'D', b'B', 0]),
        Err("Unknown protocol, expected VDB got \u{FFFD}DB".to_string())
    );
}

#[test]
fn handshake_reply_roundtrip() {
    let bytes = encode_handshake_reply(b"info");
    assert_eq!(bytes, vec![0, 0, 0, 4, b'i', b'n', b'f', b'o']);
    assert_eq!(decode_handshake_reply(&bytes[..2]), Decoded::NeedMore(2));
    assert_eq!(decode_handshake_reply(&bytes[..5]), Decoded::NeedMore(3));
    assert_eq!(decode_handshake_reply(&bytes), Decoded::Complete(8, b"info".to_vec()));
    assert_eq!(decode_sized(&bytes, 0), Decoded::Complete(8, b"info".to_vec()));
}

#[test]
fn sized_frame_with_large_length_asks_for_the_rest() {
    let bytes = vec![0xffu8, 0xff, 0xff, 0xff, 1, 2];
    assert_eq!(decode_handshake_reply(&bytes), Decoded::NeedMore(0xffff_fffd));
}

#[test]
fn peer_info_travels_as_an_array_of_two_strings() {
    let info = vectordb::protocol::VDBPeerInfo {
        version: "2024.9.1".to_string(),
        app_name: "VectorDB".to_string(),
    };
    let bytes = vectordb::protocol::encode_peer_info(&info).unwrap();
    let mut expected = vec![0x92u8, 0xa8];
    expected.extend_from_slice(b"2024.9.1");
    expected.push(0xa8);
    expected.extend_from_slice(b"VectorDB");
    assert_eq!(bytes, expected);
    assert_eq!(bytes, rmp_serde::to_vec(&("2024.9.1", "VectorDB")).unwrap());
}

#[test]
fn long_texts_use_wider_headers() {
    let long = "x".repeat(40);
    let info = vectordb::protocol::VDBPeerInfo { version: long.clone(), app_name: "é".to_string() };
    let bytes = vectordb::protocol::encode_peer_info(&info).unwrap();
    let mut expected = vec![0x92u8, 0xd9, 40];
    expected.extend_from_slice(long.as_bytes());
    expected.extend_from_slice(&[0xa2, 0xc3, 0xa9]);
    assert_eq!(bytes, expected);
    let longer = "y".repeat(300);
    let info = vectordb::protocol::VDBPeerInfo { version: longer.clone(), app_name: String::new() };
    let bytes = vectordb::protocol::encode_peer_info(&info).unwrap();
    assert_eq!(&bytes[..4], &[0x92, 0xda, 0x01, 0x2c]);
    assert_eq!(bytes[bytes.len() - 1], 0xa0);
}
