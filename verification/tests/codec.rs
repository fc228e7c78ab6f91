use nrelay::codec::{
    check_frame_len, decode_frame_body, frame_len, read_control_message, write_control_message,
    MAX_MESSAGE_SIZE,
};
use nrelay::encoding::{decode_i32, encode_i32};
use nrelay::error::{DecodeError, NRelayError};
use nrelay::proto::{
    AuthMode, AuthResult, ClientAuth, ControlMessage, OpenTunnelRequest, Payload, TunnelOk,
};
use nrelay::wire::{read_fields, read_varint, write_varint, Field, FieldValue};

fn all_kinds() -> Vec<ControlMessage> {
    vec![
        ControlMessage::client_auth(AuthMode::AuthControl, "t-abc".to_string()),
        ControlMessage::client_auth(AuthMode::AuthTunnel, "t-abc".to_string()),
        ControlMessage::auth_result(true, "Control authenticated".to_string(), "id-1".to_string()),
        ControlMessage::auth_result(false, "nope".to_string(), String::new()),
        ControlMessage::open_tunnel_request("tunnel".to_string(), "conn".to_string()),
        ControlMessage::tunnel_ok("c0ffee".to_string()),
        ControlMessage::tunnel_ok(String::new()),
        ControlMessage::client_auth(AuthMode::AuthControl, String::new()),
        ControlMessage {
            payload: Some(Payload::Auth(ClientAuth { mode: -7, tunnel_token: "ünï".to_string() })),
        },
    ]
}

#[test]
fn every_message_survives_encode_then_decode() {
    for msg in all_kinds() {
        let bytes = msg.encode();
        assert_eq!(ControlMessage::decode(&bytes), Ok(msg));
    }
}

#[test]
fn message_without_payload_is_no_bytes() {
    let msg = ControlMessage { payload: None };
    assert_eq!(msg.encode(), Vec::<u8>::new());
    assert_eq!(ControlMessage::decode(&[]), Ok(msg));
}

#[test]
fn client_auth_has_the_expected_bytes() {
    let msg = ControlMessage::client_auth(AuthMode::AuthTunnel, "ab".to_string());
    // field 1, length-delimited, 6 bytes: mode = 1, token = "ab"
    assert_eq!(msg.encode(), vec![0x0A, 0x06, 0x08, 0x01, 0x12, 0x02, b'a', b'b']);
}

#[test]
fn default_fields_are_left_out() {
    let msg = ControlMessage::client_auth(AuthMode::AuthControl, String::new());
    assert_eq!(msg.encode(), vec![0x0A, 0x00]);
    let ok = ControlMessage::auth_result(false, String::new(), "x".to_string());
    assert_eq!(ok.encode(), vec![0x12, 0x03, 0x1A, 0x01, b'x']);
}

#[test]
fn bytes_agree_with_prost_primitives() {
    let token = "t-abc".to_string();
    let mut inner: Vec<u8> = Vec::new();
    prost::encoding::int32::encode(1, &1, &mut inner);
    prost::encoding::string::encode(2, &token, &mut inner);
    let mut expected: Vec<u8> = Vec::new();
    prost::encoding::encode_key(1, prost::encoding::WireType::LengthDelimited, &mut expected);
    prost::encoding::encode_varint(inner.len() as u64, &mut expected);
    expected.extend_from_slice(&inner);
    let msg = ControlMessage::client_auth(AuthMode::AuthTunnel, token);
    assert_eq!(msg.encode(), expected);

    let mut inner: Vec<u8> = Vec::new();
    prost::encoding::bool::encode(1, &true, &mut inner);
    prost::encoding::string::encode(2, &"Control authenticated".to_string(), &mut inner);
    prost::encoding::string::encode(3, &"id".to_string(), &mut inner);
    let mut expected: Vec<u8> = Vec::new();
    prost::encoding::encode_key(2, prost::encoding::WireType::LengthDelimited, &mut expected);
    prost::encoding::encode_varint(inner.len() as u64, &mut expected);
    expected.extend_from_slice(&inner);
    let msg = ControlMessage::auth_result(true, "Control authenticated".to_string(), "id".to_string());
    assert_eq!(msg.encode(), expected);
}

#[test]
fn negative_mode_takes_ten_bytes_like_prost() {
    let mut expected: Vec<u8> = Vec::new();
    prost::encoding::int32::encode(1, &-7, &mut expected);
    let auth = ClientAuth { mode: -7, tunnel_token: String::new() };
    assert_eq!(auth.encode(), expected);
    assert_eq!(ClientAuth::decode(&expected), Ok(auth));
}

#[test]
fn varint_agrees_with_prost() {
    for v in [0u64, 1, 127, 128, 300, 16383, 16384, u32::MAX as u64, u64::MAX] {
        let mut ours: Vec<u8> = Vec::new();
        write_varint(&mut ours, v);
        let mut theirs: Vec<u8> = Vec::new();
        prost::encoding::encode_varint(v, &mut theirs);
        assert_eq!(ours, theirs);
        assert_eq!(read_varint(&ours, 0), Ok((v, ours.len())));
    }
}

#[test]
fn varint_of_300_is_ac_02() {
    let mut out = vec![9u8];
    write_varint(&mut out, 300);
    assert_eq!(out, vec![9, 0xAC, 0x02]);
    assert_eq!(read_varint(&out, 1), Ok((300, 3)));
}

#[test]
fn varint_that_ends_early_or_runs_long_is_invalid() {
    assert_eq!(read_varint(&[], 0), Err(DecodeError::InvalidVarint));
    assert_eq!(read_varint(&[0x80], 0), Err(DecodeError::InvalidVarint));
    assert_eq!(read_varint(&[0xFF; 10], 0), Err(DecodeError::InvalidVarint));
    let mut eleven = vec![0x80u8; 10];
    eleven.push(0x01);
    assert_eq!(read_varint(&eleven, 0), Err(DecodeError::InvalidVarint));
    // ten digits whose value does not fit 64 bits
    let mut too_big = vec![0xFFu8; 9];
    too_big.push(0x02);
    assert_eq!(read_varint(&too_big, 0), Err(DecodeError::InvalidVarint));
    let mut max = vec![0xFFu8; 9];
    max.push(0x01);
    assert_eq!(read_varint(&max, 0), Ok((u64::MAX, 10)));
}

#[test]
fn i32_on_the_wire() {
    assert_eq!(encode_i32(0), 0);
    assert_eq!(encode_i32(1), 1);
    assert_eq!(encode_i32(-1), u64::MAX);
    assert_eq!(encode_i32(i32::MIN), 0xFFFF_FFFF_8000_0000);
    assert_eq!(decode_i32(u64::MAX), -1);
    assert_eq!(decode_i32(0x1_0000_0005), 5);
    assert_eq!(decode_i32(0x8000_0000), i32::MIN);
    for m in [0, 1, -1, 42, i32::MAX, i32::MIN] {
        assert_eq!(decode_i32(encode_i32(m)), m);
    }
}

#[test]
fn unknown_fields_are_passed_over() {
    // field 9 varint 5, then field 4 (TunnelOk) with connection id "x", then a fixed32 field 10
    let bytes = vec![0x48, 0x05, 0x22, 0x03, 0x0A, 0x01, b'x', 0x55, 1, 2, 3, 4];
    assert_eq!(ControlMessage::decode(&bytes), Ok(ControlMessage::tunnel_ok("x".to_string())));
}

#[test]
fn last_payload_wins() {
    let mut bytes = ControlMessage::tunnel_ok("a".to_string()).encode();
    bytes.extend_from_slice(&ControlMessage::open_tunnel_request("t".to_string(), "c".to_string()).encode());
    assert_eq!(
        ControlMessage::decode(&bytes),
        Ok(ControlMessage::open_tunnel_request("t".to_string(), "c".to_string()))
    );
}

#[test]
fn decode_errors_by_kind() {
    // key with field number 0
    assert_eq!(ControlMessage::decode(&[0x02, 0x00]), Err(DecodeError::InvalidKey));
    // wire type 3 (group) is not in use
    assert_eq!(ControlMessage::decode(&[0x0B]), Err(DecodeError::InvalidKey));
    // length runs past the end
    assert_eq!(ControlMessage::decode(&[0x0A, 0x05, 0x00]), Err(DecodeError::UnexpectedEnd));
    // fixed64 field cut short
    assert_eq!(ControlMessage::decode(&[0x49, 1, 2, 3]), Err(DecodeError::UnexpectedEnd));
    // payload field as varint
    assert_eq!(ControlMessage::decode(&[0x08, 0x01]), Err(DecodeError::WrongWireType));
    // token that is not UTF-8
    assert_eq!(
        ControlMessage::decode(&[0x0A, 0x03, 0x12, 0x01, 0xFF]),
        Err(DecodeError::InvalidUtf8)
    );
    // key cut short
    assert_eq!(ControlMessage::decode(&[0x80]), Err(DecodeError::InvalidVarint));
}

#[test]
fn read_fields_lists_what_stands_there() {
    let bytes = vec![0x08, 0x96, 0x01, 0x12, 0x02, b'h', b'i', 0x1D, 0, 0, 0, 0];
    assert_eq!(
        read_fields(&bytes),
        Ok(vec![
            Field { number: 1, value: FieldValue::Varint(150) },
            Field { number: 2, value: FieldValue::Bytes(vec![b'h', b'i']) },
            Field { number: 3, value: FieldValue::Fixed },
        ])
    );
}

#[test]
fn frame_is_length_then_message() {
    let msg = ControlMessage::tunnel_ok("abc".to_string());
    let mut out = vec![0xEEu8];
    assert_eq!(write_control_message(&mut out, &msg), Ok(()));
    let body = msg.encode();
    assert_eq!(body.len(), 7);
    let mut expected = vec![0xEEu8, 0, 0, 0, 7];
    expected.extend_from_slice(&body);
    assert_eq!(out, expected);
}

#[test]
fn frame_round_trip_with_more_behind_it() {
    for msg in all_kinds() {
        let mut stream: Vec<u8> = Vec::new();
        write_control_message(&mut stream, &msg).unwrap();
        let frame_len = stream.len();
        stream.extend_from_slice(&[1, 2, 3]);
        assert_eq!(read_control_message(&stream), Ok((msg, frame_len)));
    }
}

#[test]
fn two_frames_are_read_one_after_the_other() {
    let first = ControlMessage::client_auth(AuthMode::AuthControl, "t-abc".to_string());
    let second = ControlMessage::open_tunnel_request("t".to_string(), "c".to_string());
    let mut stream: Vec<u8> = Vec::new();
    write_control_message(&mut stream, &first).unwrap();
    write_control_message(&mut stream, &second).unwrap();
    let (got, used) = read_control_message(&stream).unwrap();
    assert_eq!(got, first);
    let (got, used2) = read_control_message(&stream[used..]).unwrap();
    assert_eq!(got, second);
    assert_eq!(used + used2, stream.len());
}

#[test]
fn oversize_frame_is_refused_before_its_body() {
    // length 100_000, and not one byte of body
    let header = 100_000u32.to_be_bytes();
    assert_eq!(
        read_control_message(&header),
        Err(NRelayError::Protocol("Message too large".to_string()))
    );
    assert_eq!(
        check_frame_len(100_000),
        Err(NRelayError::Protocol("Message too large".to_string()))
    );
}

#[test]
fn frame_lengths_at_the_edges() {
    assert_eq!(check_frame_len(0), Err(NRelayError::Protocol("Message size is zero".to_string())));
    assert_eq!(check_frame_len(1), Ok(1));
    assert_eq!(check_frame_len(65536), Ok(65536));
    assert_eq!(MAX_MESSAGE_SIZE, 65536);
    assert_eq!(
        check_frame_len(65537),
        Err(NRelayError::Protocol("Message too large".to_string()))
    );
    assert_eq!(
        check_frame_len(u32::MAX),
        Err(NRelayError::Protocol("Message too large".to_string()))
    );
}

#[test]
fn zero_length_frame_is_a_protocol_error() {
    assert_eq!(
        read_control_message(&[0, 0, 0, 0, 0x22]),
        Err(NRelayError::Protocol("Message size is zero".to_string()))
    );
    // what writing a message without payload gives
    let mut out: Vec<u8> = Vec::new();
    write_control_message(&mut out, &ControlMessage { payload: None }).unwrap();
    assert_eq!(out, vec![0, 0, 0, 0]);
    assert_eq!(
        read_control_message(&out),
        Err(NRelayError::Protocol("Message size is zero".to_string()))
    );
}

#[test]
fn stream_that_ends_inside_a_frame_is_closed() {
    assert_eq!(read_control_message(&[]), Err(NRelayError::ConnectionClosed));
    assert_eq!(read_control_message(&[0, 0, 0]), Err(NRelayError::ConnectionClosed));
    assert_eq!(read_control_message(&[0, 0, 0, 5, 1, 2]), Err(NRelayError::ConnectionClosed));
}

#[test]
fn malformed_body_gives_the_decoder_error() {
    assert_eq!(
        read_control_message(&[0, 0, 0, 2, 0x08, 0x01]),
        Err(NRelayError::Decode(DecodeError::WrongWireType))
    );
    assert_eq!(
        decode_frame_body(&[0x0B]),
        Err(NRelayError::Decode(DecodeError::InvalidKey))
    );
}

#[test]
fn frame_len_is_big_endian() {
    assert_eq!(frame_len(&[0, 0, 1, 2]), 258);
    assert_eq!(frame_len(&[1, 0, 0, 0]), 16_777_216);
    assert_eq!(frame_len(&[0xFF, 0xFF, 0xFF, 0xFF]), u32::MAX);
    assert_eq!(frame_len(&100_000u32.to_be_bytes()), 100_000);
    assert_eq!(frame_len(&[0, 0, 0, 0]), 0);
}

#[test]
fn big_message_is_written_and_then_refused_by_the_reader() {
    let msg = ControlMessage::tunnel_ok("x".repeat(70_000));
    let mut out: Vec<u8> = Vec::new();
    assert_eq!(write_control_message(&mut out, &msg), Ok(()));
    assert_eq!(
        read_control_message(&out),
        Err(NRelayError::Protocol("Message too large".to_string()))
    );
}

#[test]
fn largest_accepted_frame_is_read() {
    // TunnelOk with a connection id such that the message is exactly 65536 bytes:
    // outer key 1 + outer length 3 + inner key 1 + inner length 3 + text
    let text = "y".repeat(65536 - 8);
    let msg = ControlMessage::tunnel_ok(text);
    assert_eq!(msg.encode().len(), 65536);
    let mut out: Vec<u8> = Vec::new();
    write_control_message(&mut out, &msg).unwrap();
    assert_eq!(read_control_message(&out), Ok((msg, 65540)));
}

#[test]
fn error_messages_by_variant() {
    assert_eq!(NRelayError::Protocol("x".to_string()).message(), "Protocol error: x");
    assert_eq!(NRelayError::Auth("Invalid token".to_string()).message(), "Authentication failed: Invalid token");
    assert_eq!(NRelayError::Io("eof".to_string()).message(), "IO error: eof");
    assert_eq!(NRelayError::TunnelNotFound("t".to_string()).message(), "Tunnel not found: t");
    assert_eq!(NRelayError::Config("c".to_string()).message(), "Invalid configuration: c");
    assert_eq!(NRelayError::ConnectionClosed.message(), "Connection closed");
    assert_eq!(NRelayError::Encode("e".to_string()).message(), "Encode error: e");
    assert_eq!(
        NRelayError::Decode(DecodeError::InvalidVarint).message(),
        "Decode error: invalid varint"
    );
    assert_eq!(DecodeError::UnexpectedEnd.describe(), "unexpected end of message");
}

#[test]
fn auth_mode_numbers() {
    assert_eq!(AuthMode::AuthControl.to_i32(), 0);
    assert_eq!(AuthMode::AuthTunnel.to_i32(), 1);
    assert_eq!(AuthMode::from_i32(1), AuthMode::AuthTunnel);
    assert_eq!(AuthMode::from_i32(0), AuthMode::AuthControl);
    assert_eq!(AuthMode::from_i32(17), AuthMode::AuthControl);
    let auth = ClientAuth { mode: 1, tunnel_token: String::new() };
    assert_eq!(auth.mode(), AuthMode::AuthTunnel);
}

#[test]
fn inner_messages_round_trip_on_their_own() {
    let a = AuthResult { success: true, message: "m".to_string(), tunnel_id: "t".to_string() };
    assert_eq!(AuthResult::decode(&a.encode()), Ok(a));
    let o = OpenTunnelRequest { tunnel_id: "t".to_string(), connection_id: String::new() };
    assert_eq!(OpenTunnelRequest::decode(&o.encode()), Ok(o));
    let k = TunnelOk { connection_id: "k".to_string() };
    assert_eq!(TunnelOk::decode(&k.encode()), Ok(k));
}
