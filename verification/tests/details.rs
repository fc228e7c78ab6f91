use nrelay::admin::needs_random_port;
use nrelay::cli::dial_address;
use nrelay::error::DecodeError;
use nrelay::proto::{AuthResult, ClientAuth, OpenTunnelRequest, Payload, TunnelOk};
use nrelay::relay::next_read_size;
use nrelay::types::{copy_opt_string, TunnelConfig, TunnelKind};
use nrelay::varint::read_base128;
use nrelay::wire::{read_field, write_bytes_field, write_varint_field, Field, FieldValue};

#[test]
fn a_port_is_drawn_only_when_none_is_named() {
    let mut config =
        TunnelConfig { kind: TunnelKind::TcpRaw, local_port: 1, fixed_public_port: None, hostname: None };
    assert!(needs_random_port(&config));
    config.kind = TunnelKind::Ssh;
    assert!(needs_random_port(&config));
    config.kind = TunnelKind::UdpRaw;
    assert!(needs_random_port(&config));
    config.fixed_public_port = Some(4000);
    assert!(!needs_random_port(&config));
    config.fixed_public_port = None;
    for kind in [TunnelKind::Http, TunnelKind::Https, TunnelKind::TlsSni, TunnelKind::Minecraft] {
        config.kind = kind;
        assert!(!needs_random_port(&config));
    }
}

#[test]
fn the_origin_overrides_the_relay_address() {
    assert_eq!(
        dial_address(Some("tcp.example.net:9000"), Some("relay"), Some(7000), "http://admin:7001"),
        "tcp.example.net:9000"
    );
    assert_eq!(
        dial_address(Some("https://tcp.example.net/"), None, None, "http://admin:7001"),
        "tcp.example.net:7000"
    );
    assert_eq!(dial_address(None, Some("relay"), Some(7100), "http://admin:7001"), "relay:7100");
    assert_eq!(dial_address(None, None, Some(7100), "http://admin:7001"), "admin:7100");
    assert_eq!(dial_address(None, None, None, "http://admin:7001"), "admin:7001");
}

#[test]
fn payload_field_numbers() {
    let auth = Payload::Auth(ClientAuth { mode: 0, tunnel_token: String::new() });
    let result = Payload::AuthResult(AuthResult {
        success: false,
        message: String::new(),
        tunnel_id: String::new(),
    });
    let open = Payload::OpenTunnelRequest(OpenTunnelRequest {
        tunnel_id: String::new(),
        connection_id: String::new(),
    });
    let ok = Payload::TunnelOk(TunnelOk { connection_id: "c".to_string() });
    assert_eq!(auth.field_number(), 1);
    assert_eq!(result.field_number(), 2);
    assert_eq!(open.field_number(), 3);
    assert_eq!(ok.field_number(), 4);
    assert_eq!(auth.encode(), Vec::<u8>::new());
    assert_eq!(ok.encode(), vec![0x0A, 0x01, b'c']);
    assert_eq!(Payload::decode(4, &[0x0A, 0x01, b'c']), Ok(ok));
    assert_eq!(Payload::decode(1, &[]), Ok(auth));
    assert_eq!(Payload::decode(2, &[]), Ok(result));
    assert_eq!(Payload::decode(3, &[]), Ok(open));
    assert_eq!(Payload::decode(3, &[0x0A]), Err(DecodeError::InvalidVarint));
}

#[test]
fn reads_are_cut_to_the_sniffing_limit() {
    assert_eq!(next_read_size(0), 4096);
    assert_eq!(next_read_size(1), 4096);
    assert_eq!(next_read_size(4096), 4096);
    assert_eq!(next_read_size(4097), 4095);
    assert_eq!(next_read_size(8191), 1);
    assert_eq!(next_read_size(8192), 0);
    assert_eq!(next_read_size(usize::MAX), 0);
}

#[test]
fn optional_strings_are_copied() {
    assert_eq!(copy_opt_string(&None), None);
    assert_eq!(copy_opt_string(&Some("x".to_string())), Some("x".to_string()));
}

#[test]
fn base128_numbers_up_to_the_limit_of_digits() {
    assert_eq!(read_base128(&[0x05], 0, 1), Some((5, 1)));
    assert_eq!(read_base128(&[0x85, 0x01], 0, 1), None);
    assert_eq!(read_base128(&[0x85, 0x01], 0, 2), Some((133, 2)));
    assert_eq!(read_base128(&[0x85, 0x01], 0, 0), None);
    assert_eq!(read_base128(&[0x85, 0x01], 1, 10), Some((1, 2)));
    assert_eq!(read_base128(&[0x85, 0x01], 2, 10), None);
    let mut ten = vec![0xFFu8; 9];
    ten.push(0x7F);
    assert_eq!(read_base128(&ten, 0, 10), Some(((1u128 << 70) - 1, 10)));
    assert_eq!(read_base128(&ten, 0, 9), None);
}

#[test]
fn fields_one_by_one() {
    let mut out: Vec<u8> = Vec::new();
    write_varint_field(&mut out, 1, 150);
    assert_eq!(out, vec![0x08, 0x96, 0x01]);
    write_bytes_field(&mut out, 2, b"hi");
    assert_eq!(out, vec![0x08, 0x96, 0x01, 0x12, 0x02, b'h', b'i']);
    write_bytes_field(&mut out, 16, &[]);
    assert_eq!(&out[7..], &[0x82, 0x01, 0x00]);
    assert_eq!(read_field(&out, 0), Ok((Field { number: 1, value: FieldValue::Varint(150) }, 3)));
    assert_eq!(
        read_field(&out, 3),
        Ok((Field { number: 2, value: FieldValue::Bytes(vec![b'h', b'i']) }, 7))
    );
    assert_eq!(
        read_field(&out, 7),
        Ok((Field { number: 16, value: FieldValue::Bytes(Vec::new()) }, 10))
    );
    assert_eq!(read_field(&out, 10), Err(DecodeError::InvalidVarint));
    assert_eq!(read_field(&[0x0D, 1, 2, 3, 4], 0), Ok((Field { number: 1, value: FieldValue::Fixed }, 5)));
    assert_eq!(read_field(&[0x0D, 1, 2, 3], 0), Err(DecodeError::UnexpectedEnd));
    assert_eq!(read_field(&[0x0E], 0), Err(DecodeError::InvalidKey));
    // field number above the largest
    assert_eq!(read_field(&[0x80, 0x80, 0x80, 0x80, 0x10, 0x00], 0), Err(DecodeError::InvalidKey));
    // the largest field number
    assert_eq!(
        read_field(&[0xF8, 0xFF, 0xFF, 0xFF, 0x0F, 0x01], 0),
        Ok((Field { number: 0x1FFF_FFFF, value: FieldValue::Varint(1) }, 6))
    );
}
