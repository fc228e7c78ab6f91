use nrelay::http::{host_of_headers, HeaderField, HttpSniffer};
use nrelay::minecraft::{read_varint, read_varint_u64, MinecraftSniffer};
use nrelay::sni::TlsSniSniffer;
use nrelay::text::decode_text;

fn server_name_extension(host: &[u8]) -> Vec<u8> {
    let mut ext = vec![0x00, 0x00];
    let list_len = host.len() + 3;
    let ext_len = list_len + 2;
    ext.extend_from_slice(&(ext_len as u16).to_be_bytes());
    ext.extend_from_slice(&(list_len as u16).to_be_bytes());
    ext.push(0x00);
    ext.extend_from_slice(&(host.len() as u16).to_be_bytes());
    ext.extend_from_slice(host);
    ext
}

fn client_hello(session_id: &[u8], extensions: &[u8]) -> Vec<u8> {
    let mut hello = vec![0x16, 0x03, 0x01, 0x00, 0x00];
    hello.extend_from_slice(&[0x01, 0x00, 0x00, 0x00]);
    hello.extend_from_slice(&[0x03, 0x03]);
    hello.extend_from_slice(&[0xAB; 32]);
    assert_eq!(hello.len(), 43);
    hello.push(session_id.len() as u8);
    hello.extend_from_slice(session_id);
    hello.extend_from_slice(&[0x00, 0x04, 0x13, 0x01, 0x13, 0x02]);
    hello.extend_from_slice(&[0x01, 0x00]);
    hello.extend_from_slice(&(extensions.len() as u16).to_be_bytes());
    hello.extend_from_slice(extensions);
    hello
}

#[test]
fn sni_is_read_from_a_client_hello() {
    let hello = client_hello(&[7; 32], &server_name_extension(b"a.example.com"));
    let mut sniffer = TlsSniSniffer::new();
    sniffer.feed(&hello);
    assert_eq!(sniffer.extract_sni(), Some("a.example.com".to_string()));
    assert_eq!(sniffer.consumed_bytes(), &hello[..]);
}

#[test]
fn sni_behind_other_extensions() {
    let mut extensions = vec![0x00, 0x0A, 0x00, 0x04, 0x00, 0x02, 0x00, 0x17];
    extensions.extend_from_slice(&[0x00, 0x23, 0x00, 0x00]);
    extensions.extend_from_slice(&server_name_extension(b"b.example.com"));
    extensions.extend_from_slice(&[0x00, 0x0D, 0x00, 0x02, 0x04, 0x03]);
    let hello = client_hello(&[], &extensions);
    let mut sniffer = TlsSniSniffer::new();
    sniffer.feed(&hello);
    assert_eq!(sniffer.extract_sni(), Some("b.example.com".to_string()));
}

#[test]
fn sni_at_the_last_parseable_offset() {
    let hello = client_hello(&[1, 2, 3], &server_name_extension(b"edge.example.com"));
    // the name is the last thing in the buffer
    assert!(hello.ends_with(b"edge.example.com"));
    let mut sniffer = TlsSniSniffer::new();
    sniffer.feed(&hello[..hello.len() - 1]);
    assert_eq!(sniffer.extract_sni(), None);
    sniffer.feed(&hello[hello.len() - 1..]);
    assert_eq!(sniffer.extract_sni(), Some("edge.example.com".to_string()));
}

#[test]
fn sni_is_none_for_every_proper_prefix_and_stays_once_found() {
    let hello = client_hello(&[9; 8], &server_name_extension(b"x.io"));
    for cut in 0..hello.len() {
        let mut sniffer = TlsSniSniffer::new();
        sniffer.feed(&hello[..cut]);
        assert_eq!(sniffer.extract_sni(), None);
    }
    let mut sniffer = TlsSniSniffer::new();
    sniffer.feed(&hello);
    assert_eq!(sniffer.extract_sni(), Some("x.io".to_string()));
    sniffer.feed(&[0xFF; 100]);
    assert_eq!(sniffer.extract_sni(), Some("x.io".to_string()));
    assert_eq!(sniffer.consumed_bytes().len(), hello.len() + 100);
}

#[test]
fn sni_fed_byte_by_byte() {
    let hello = client_hello(&[], &server_name_extension(b"slow.example.com"));
    let mut sniffer = TlsSniSniffer::new();
    let mut found = None;
    for b in &hello {
        sniffer.feed(&[*b]);
        found = sniffer.extract_sni();
    }
    assert_eq!(found, Some("slow.example.com".to_string()));
}

#[test]
fn sni_wants_a_handshake_record() {
    let mut hello = client_hello(&[], &server_name_extension(b"a.b"));
    hello[0] = 0x17;
    let mut sniffer = TlsSniSniffer::new();
    sniffer.feed(&hello);
    assert_eq!(sniffer.extract_sni(), None);
    let mut empty = TlsSniSniffer::new();
    assert_eq!(empty.extract_sni(), None);
    assert_eq!(empty.consumed_bytes(), &[] as &[u8]);
}

#[test]
fn sni_without_server_name_extension() {
    let hello = client_hello(&[], &[0x00, 0x0A, 0x00, 0x02, 0x00, 0x00]);
    let mut sniffer = TlsSniSniffer::new();
    sniffer.feed(&hello);
    assert_eq!(sniffer.extract_sni(), None);
}

#[test]
fn sni_skips_names_of_other_types() {
    // list with one entry of type 1, then a host_name entry
    let mut ext = vec![0x00, 0x00, 0x00, 0x0D, 0x00, 0x0B];
    ext.extend_from_slice(&[0x01, 0x00, 0x02, b'z', b'z']);
    ext.extend_from_slice(&[0x00, 0x00, 0x03, b'a', b'.', b'b']);
    let hello = client_hello(&[], &ext);
    let mut sniffer = TlsSniSniffer::new();
    sniffer.feed(&hello);
    assert_eq!(sniffer.extract_sni(), Some("a.b".to_string()));
}

#[test]
fn sni_that_is_not_utf8_is_none() {
    let hello = client_hello(&[], &server_name_extension(&[0xFF, 0xFE]));
    let mut sniffer = TlsSniSniffer::new();
    sniffer.feed(&hello);
    assert_eq!(sniffer.extract_sni(), None);
}

fn handshake(address: &[u8]) -> Vec<u8> {
    let mut body = vec![0x00, 0xFB, 0x05];
    body.push(address.len() as u8);
    body.extend_from_slice(address);
    body.extend_from_slice(&[0x63, 0xDD, 0x02]);
    let mut packet = vec![body.len() as u8];
    packet.extend_from_slice(&body);
    packet
}

#[test]
fn minecraft_server_address_is_read() {
    let packet = handshake(b"mc.example.com");
    let mut sniffer = MinecraftSniffer::new();
    sniffer.feed(&packet);
    assert_eq!(sniffer.extract_server_address(), Some("mc.example.com".to_string()));
    assert_eq!(sniffer.consumed_bytes(), &packet[..]);
}

#[test]
fn minecraft_waits_for_the_whole_packet() {
    let packet = handshake(b"play.example.org");
    for cut in 0..packet.len() {
        let mut sniffer = MinecraftSniffer::new();
        sniffer.feed(&packet[..cut]);
        assert_eq!(sniffer.extract_server_address(), None);
    }
    let mut sniffer = MinecraftSniffer::new();
    sniffer.feed(&packet[..5]);
    assert_eq!(sniffer.extract_server_address(), None);
    sniffer.feed(&packet[5..]);
    assert_eq!(sniffer.extract_server_address(), Some("play.example.org".to_string()));
    sniffer.feed(&[1, 2, 3]);
    assert_eq!(sniffer.extract_server_address(), Some("play.example.org".to_string()));
}

#[test]
fn minecraft_wants_packet_id_zero() {
    let mut packet = handshake(b"mc.example.com");
    packet[1] = 0x01;
    let mut sniffer = MinecraftSniffer::new();
    sniffer.feed(&packet);
    assert_eq!(sniffer.extract_server_address(), None);
}

#[test]
fn minecraft_address_that_is_not_utf8_is_none() {
    let packet = handshake(&[0xC3, 0x28]);
    let mut sniffer = MinecraftSniffer::new();
    sniffer.feed(&packet);
    assert_eq!(sniffer.extract_server_address(), None);
}

#[test]
fn varint_values() {
    assert_eq!(read_varint(&[0x00], 0), Some((0, 1)));
    assert_eq!(read_varint(&[0x7F], 0), Some((127, 1)));
    assert_eq!(read_varint(&[0x80, 0x01], 0), Some((128, 2)));
    assert_eq!(read_varint(&[0xFF, 0x01], 0), Some((255, 2)));
    assert_eq!(read_varint(&[0xDD, 0xC7, 0x01], 0), Some((25565, 3)));
    assert_eq!(read_varint(&[0xFF, 0xFF, 0x7F], 0), Some((2097151, 3)));
    assert_eq!(read_varint(&[0xFF, 0xFF, 0xFF, 0xFF, 0x07], 0), Some((2147483647, 5)));
    assert_eq!(read_varint(&[9, 9, 0xAC, 0x02, 9], 2), Some((300, 4)));
    assert_eq!(read_varint_u64(&[0xFF, 0xFF, 0xFF, 0xFF, 0x7F], 0), Some((34359738367, 5)));
}

#[test]
fn varint_with_continuation_on_the_fifth_byte_fails() {
    assert_eq!(read_varint(&[0x80, 0x80, 0x80, 0x80, 0x80, 0x01], 0), None);
    assert_eq!(read_varint(&[0xFF; 5], 0), None);
    assert_eq!(read_varint(&[0xFF; 64], 3), None);
    assert_eq!(read_varint_u64(&[0x80, 0x80, 0x80, 0x80, 0x80], 0), None);
    let mut sniffer = MinecraftSniffer::new();
    sniffer.feed(&[0xFF; 32]);
    assert_eq!(sniffer.extract_server_address(), None);
}

#[test]
fn varint_that_runs_out_of_data_fails() {
    assert_eq!(read_varint(&[], 0), None);
    assert_eq!(read_varint(&[0x80], 0), None);
    assert_eq!(read_varint(&[0x01], 1), None);
    assert_eq!(read_varint(&[0x01], 7), None);
}

#[test]
fn http_host_is_read() {
    let request = b"GET / HTTP/1.1\r\nHost: a.example.com\r\nAccept: */*\r\n\r\n";
    let mut sniffer = HttpSniffer::new();
    sniffer.feed(request);
    assert_eq!(sniffer.extract_host(), Some("a.example.com".to_string()));
    assert_eq!(sniffer.consumed_bytes(), &request[..]);
}

#[test]
fn http_host_in_any_case_and_behind_other_headers() {
    let request = b"POST /x HTTP/1.1\r\nUser-Agent: t\r\nhOsT:   b.example.com  \r\n\r\nbody";
    let mut sniffer = HttpSniffer::new();
    sniffer.feed(request);
    assert_eq!(sniffer.extract_host(), Some("b.example.com".to_string()));
}

#[test]
fn http_waits_for_the_end_of_the_head() {
    let request = b"GET / HTTP/1.1\r\nHost: a.example.com\r\n\r\n";
    let mut sniffer = HttpSniffer::new();
    sniffer.feed(&request[..request.len() - 2]);
    assert_eq!(sniffer.extract_host(), None);
    sniffer.feed(&request[request.len() - 2..]);
    assert_eq!(sniffer.extract_host(), Some("a.example.com".to_string()));
    // found once, it stays
    sniffer.feed(b"GET / HTTP/1.1\r\nHost: other\r\n\r\n");
    assert_eq!(sniffer.extract_host(), Some("a.example.com".to_string()));
    assert_eq!(sniffer.consumed_bytes().len(), request.len() + 31);
}

#[test]
fn http_without_host_or_with_garbage_is_none() {
    let mut sniffer = HttpSniffer::new();
    assert_eq!(sniffer.extract_host(), None);
    sniffer.feed(b"GET / HTTP/1.1\r\nAccept: */*\r\n\r\n");
    assert_eq!(sniffer.extract_host(), None);
    let mut garbage = HttpSniffer::new();
    garbage.feed(&[0x16, 0x03, 0x01, 0x00]);
    assert_eq!(garbage.extract_host(), None);
}

#[test]
fn http_head_with_more_than_64_headers_is_none() {
    let mut request = b"GET / HTTP/1.1\r\n".to_vec();
    for _ in 0..64 {
        request.extend_from_slice(b"X-Pad: 1\r\n");
    }
    request.extend_from_slice(b"Host: late.example.com\r\n\r\n");
    let mut sniffer = HttpSniffer::new();
    sniffer.feed(&request);
    assert_eq!(sniffer.extract_host(), None);
}

#[test]
fn http_host_that_is_not_utf8_is_passed_over() {
    let mut request = b"GET / HTTP/1.1\r\nHost: ".to_vec();
    request.extend_from_slice(&[0xFF, 0xFE]);
    request.extend_from_slice(b"\r\nHost: second.example.com\r\n\r\n");
    let mut sniffer = HttpSniffer::new();
    sniffer.feed(&request);
    assert_eq!(sniffer.extract_host(), Some("second.example.com".to_string()));
}

#[test]
fn host_of_headers_takes_the_first_that_names_the_host() {
    let headers = vec![
        HeaderField { name: "Accept".to_string(), value: b"*/*".to_vec() },
        HeaderField { name: "HOST".to_string(), value: vec![0xC0] },
        HeaderField { name: "Host".to_string(), value: b"one".to_vec() },
        HeaderField { name: "host".to_string(), value: b"two".to_vec() },
    ];
    assert_eq!(host_of_headers(&headers), Some("one".to_string()));
    assert_eq!(host_of_headers(&Vec::new()), None);
    let near = vec![HeaderField { name: "Hosts".to_string(), value: b"x".to_vec() }];
    assert_eq!(host_of_headers(&near), None);
}

#[test]
fn decode_text_is_utf8_or_nothing() {
    assert_eq!(decode_text(b"plain"), Some("plain".to_string()));
    assert_eq!(decode_text("grüß".as_bytes()), Some("grüß".to_string()));
    assert_eq!(decode_text(&[]), Some(String::new()));
    assert_eq!(decode_text(&[0xFF]), None);
    assert_eq!(decode_text(&[0xE2, 0x82]), None);
    assert_eq!(decode_text(&[0xED, 0xA0, 0x80]), None);
}
