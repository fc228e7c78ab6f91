use nrelay::cli::{
    bearer, create_url, extract_server_addr, parse_target, relay_address, TargetError,
    TunnelProtocol,
};
use nrelay::origin::{
    add_origin, get_default_origin, get_origin, is_default, list_origins, remove_origin,
    set_default_origin, set_origin, shown_value, use_origin, Config, Origin, OriginError,
    OriginKey, OriginKind,
};
use nrelay::text::{has_prefix, parse_u16, scan};
use nrelay::types::TunnelKind;

#[test]
fn protocol_names_and_kinds() {
    assert_eq!(TunnelProtocol::TcpRaw.as_str(), "tcp_raw");
    assert_eq!(TunnelProtocol::UdpRaw.as_str(), "udp_raw");
    assert_eq!(TunnelProtocol::Http.as_str(), "http");
    assert_eq!(TunnelProtocol::Https.as_str(), "https");
    assert_eq!(TunnelProtocol::Minecraft.as_str(), "minecraft");
    assert_eq!(TunnelProtocol::TlsSni.as_str(), "tls_sni");
    assert_eq!(TunnelProtocol::TcpRaw.kind(), TunnelKind::TcpRaw);
    assert_eq!(TunnelProtocol::UdpRaw.kind(), TunnelKind::UdpRaw);
    assert_eq!(TunnelProtocol::Http.kind(), TunnelKind::Http);
    assert_eq!(TunnelProtocol::Https.kind(), TunnelKind::Https);
    assert_eq!(TunnelProtocol::Minecraft.kind(), TunnelKind::Minecraft);
    assert_eq!(TunnelProtocol::TlsSni.kind(), TunnelKind::TlsSni);
    let request = TunnelProtocol::Minecraft.tunnel_request(25565);
    assert_eq!(request.kind, TunnelKind::Minecraft);
    assert_eq!(request.local_port, 25565);
    assert_eq!(request.fixed_public_port, None);
    assert_eq!(request.hostname, None);
    assert_eq!(request.duplicate(), request);
}

#[test]
fn targets() {
    assert_eq!(parse_target("8080"), Ok(("127.0.0.1".to_string(), 8080)));
    assert_eq!(parse_target("localhost:3000"), Ok(("localhost".to_string(), 3000)));
    assert_eq!(parse_target("10.0.0.5:22"), Ok(("10.0.0.5".to_string(), 22)));
    assert_eq!(parse_target(":80"), Ok((String::new(), 80)));
    assert_eq!(parse_target("+80"), Ok(("127.0.0.1".to_string(), 80)));
    assert_eq!(parse_target("0"), Ok(("127.0.0.1".to_string(), 0)));
    assert_eq!(parse_target("65535"), Ok(("127.0.0.1".to_string(), 65535)));
    assert_eq!(parse_target("65536"), Err(TargetError::InvalidPort));
    assert_eq!(parse_target(""), Err(TargetError::InvalidPort));
    assert_eq!(parse_target("host"), Err(TargetError::InvalidPort));
    assert_eq!(parse_target("host:"), Err(TargetError::InvalidPort));
    assert_eq!(parse_target("host:http"), Err(TargetError::InvalidPort));
    assert_eq!(parse_target("a:b:c"), Err(TargetError::InvalidFormat));
    assert_eq!(parse_target("::1"), Err(TargetError::InvalidFormat));
    assert_eq!(parse_target("a:1:"), Err(TargetError::InvalidFormat));
    assert_eq!(TargetError::InvalidFormat.message(), "Invalid target format. Use 'port' or 'addr:port'");
    assert_eq!(TargetError::InvalidPort.message(), "Invalid port number");
}

#[test]
fn ports_as_std_reads_them() {
    for text in [
        "0", "7", "007", "80", "+80", "65535", "65536", "99999", "4294967296", "", "+", "-1", "-0",
        "1+", "++1", "1 ", " 1", "0x10", "1_000", "12a", "٣", "18446744073709551616",
    ] {
        assert_eq!(parse_u16(text), text.parse::<u16>().ok());
    }
}

#[test]
fn server_addresses() {
    assert_eq!(extract_server_addr("http://relay.example.com:7001"), "relay.example.com:7001");
    assert_eq!(extract_server_addr("https://relay.example.com"), "relay.example.com:7000");
    assert_eq!(extract_server_addr("http://relay.example.com/"), "relay.example.com:7000");
    assert_eq!(extract_server_addr("http://relay.example.com:9///"), "relay.example.com:9");
    assert_eq!(extract_server_addr("relay.example.com"), "relay.example.com:7000");
    assert_eq!(extract_server_addr("relay.example.com:1/api/v1"), "relay.example.com:1");
    assert_eq!(extract_server_addr("https://h/p:1"), "h:7000");
    assert_eq!(extract_server_addr("ftp://h"), "ftp:");
    assert_eq!(extract_server_addr(""), ":7000");
    assert_eq!(extract_server_addr("http://"), "http:");
    assert_eq!(extract_server_addr("http://[::1]:7001"), "[::1]:7001");
}

#[test]
fn relay_addresses() {
    assert_eq!(relay_address(Some("relay.example.com"), Some(7000), "http://admin:7001"), "relay.example.com:7000");
    assert_eq!(relay_address(Some("relay.example.com"), None, "http://admin:7001"), "relay.example.com:7000");
    assert_eq!(relay_address(Some("r"), Some(1234), ""), "r:1234");
    assert_eq!(relay_address(None, Some(7000), "http://admin.example.com:7001"), "admin.example.com:7000");
    assert_eq!(relay_address(None, Some(7100), "http://admin.example.com"), "admin.example.com:7100");
    assert_eq!(relay_address(None, None, "http://admin.example.com:7001/"), "admin.example.com:7001");
    assert_eq!(relay_address(None, None, "admin.example.com"), "admin.example.com:7000");
    assert_eq!(relay_address(None, Some(5), "http://[::1]:7001"), "[::1]:5");
}

#[test]
fn admin_request_pieces() {
    assert_eq!(create_url("http://admin:7001"), "http://admin:7001/tunnels");
    assert_eq!(create_url("http://admin:7001/"), "http://admin:7001/tunnels");
    assert_eq!(create_url("http://admin:7001///"), "http://admin:7001/tunnels");
    assert_eq!(create_url(""), "/tunnels");
    assert_eq!(create_url("/"), "/tunnels");
    assert_eq!(bearer("adm"), "Bearer adm");
    assert_eq!(bearer(""), "Bearer ");
}

#[test]
fn scanning_a_text() {
    assert_eq!(scan("", '/', ':'), (0, 0, None));
    assert_eq!(scan("a//", '/', ':'), (3, 1, None));
    assert_eq!(scan("///", '/', '/'), (3, 0, Some(2)));
    assert_eq!(scan("a:b:c/", '/', ':'), (6, 5, Some(3)));
    assert_eq!(scan("ü:ü", 'ü', ':'), (3, 2, Some(1)));
    assert!(has_prefix("http://x", "http://"));
    assert!(has_prefix("http://", "http://"));
    assert!(!has_prefix("http:/", "http://"));
    assert!(!has_prefix("https://x", "http://"));
    assert!(has_prefix("anything", ""));
    assert!(has_prefix("", ""));
    assert!(!has_prefix("", "a"));
}

#[test]
fn origin_kinds() {
    assert_eq!(OriginKind::from_str("server"), Ok(OriginKind::Server));
    assert_eq!(OriginKind::from_str("SERVICE"), Ok(OriginKind::Service));
    assert_eq!(OriginKind::from_str("Server"), Ok(OriginKind::Server));
    assert_eq!(OriginKind::from_str("servers"), Err(OriginError::InvalidKind("servers".to_string())));
    assert_eq!(OriginKind::from_str(""), Err(OriginError::InvalidKind(String::new())));
    assert_eq!(OriginKind::Server.as_str(), "server");
    assert_eq!(OriginKind::Service.as_str(), "service");
    assert_eq!(
        OriginError::InvalidKind("x".to_string()).message(),
        "Invalid kind: x. Must be 'server' or 'service'"
    );
    assert_eq!(
        OriginError::UnknownKey("port".to_string()).message(),
        "Unknown key 'port'. Valid keys: url, token, kind, relay_url"
    );
}

fn origin() -> Origin {
    Origin {
        id: "home".to_string(),
        kind: OriginKind::Server,
        url: "http://admin:7001".to_string(),
        token: "adm".to_string(),
        relay_url: None,
    }
}

#[test]
fn origin_keys_are_read_and_set() {
    let mut o = origin();
    assert_eq!(get_origin(&o, "url"), Ok("http://admin:7001".to_string()));
    assert_eq!(get_origin(&o, "token"), Ok("adm".to_string()));
    assert_eq!(get_origin(&o, "kind"), Ok("server".to_string()));
    assert_eq!(get_origin(&o, "relay_url"), Ok(String::new()));
    assert_eq!(get_origin(&o, "id"), Err(OriginError::UnknownKey("id".to_string())));
    assert_eq!(get_origin(&o, "URL"), Err(OriginError::UnknownKey("URL".to_string())));

    assert_eq!(set_origin(&mut o, "url", "http://other"), Ok(()));
    assert_eq!(set_origin(&mut o, "token", "t2"), Ok(()));
    assert_eq!(set_origin(&mut o, "kind", "Service"), Ok(()));
    assert_eq!(set_origin(&mut o, "relay_url", "relay:7000"), Ok(()));
    assert_eq!(
        o,
        Origin {
            id: "home".to_string(),
            kind: OriginKind::Service,
            url: "http://other".to_string(),
            token: "t2".to_string(),
            relay_url: Some("relay:7000".to_string()),
        }
    );
    assert_eq!(get_origin(&o, "relay_url"), Ok("relay:7000".to_string()));
    let before = o.clone();
    assert_eq!(set_origin(&mut o, "kind", "cloud"), Err(OriginError::InvalidKind("cloud".to_string())));
    assert_eq!(set_origin(&mut o, "port", "1"), Err(OriginError::UnknownKey("port".to_string())));
    assert_eq!(o, before);
    assert_eq!(OriginKey::parse("kind"), Ok(OriginKey::Kind));
    assert_eq!(OriginKey::parse("relay_url"), Ok(OriginKey::RelayUrl));
    assert_eq!(shown_value("token", "secret"), "***");
    assert_eq!(shown_value("url", "http://x"), "http://x");
}

#[test]
fn default_origin_bookkeeping() {
    let mut config = Config::default();
    assert_eq!(config, Config { default_origin: None });
    assert_eq!(get_default_origin(&config), None);
    let (first, became) = add_origin(&mut config, "home", "http://a", "t", OriginKind::Server, None);
    assert!(became);
    assert_eq!(first.id, "home");
    assert_eq!(first.relay_url, None);
    assert_eq!(get_default_origin(&config), Some("home".to_string()));
    let (second, became) =
        add_origin(&mut config, "work", "http://b", "u", OriginKind::Service, Some("r:1"));
    assert!(!became);
    assert_eq!(second.kind, OriginKind::Service);
    assert_eq!(second.url, "http://b");
    assert_eq!(second.token, "u");
    assert_eq!(second.relay_url, Some("r:1".to_string()));
    assert_eq!(get_default_origin(&config), Some("home".to_string()));
    assert!(is_default(&config, "home"));
    assert!(!is_default(&config, "work"));
    let ids = vec!["home".to_string(), "work".to_string()];
    assert_eq!(list_origins(&config, &ids), vec![true, false]);
    use_origin(&mut config, "work");
    assert_eq!(list_origins(&config, &ids), vec![false, true]);
    assert!(!remove_origin(&mut config, "home"));
    assert_eq!(get_default_origin(&config), Some("work".to_string()));
    assert!(remove_origin(&mut config, "work"));
    assert_eq!(get_default_origin(&config), None);
    assert_eq!(list_origins(&config, &ids), vec![false, false]);
    set_default_origin(&mut config, "x");
    assert_eq!(config.default_origin, Some("x".to_string()));
    assert_eq!(list_origins(&config, &Vec::new()), Vec::<bool>::new());
}
