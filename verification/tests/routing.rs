use nrelay::admin::{
    auth_middleware, create_tunnel, expose, pick_port, register, response_status, AdminState,
};
use nrelay::control::{
    admit_control, admit_tunnel, authenticate, begin_control_session, control_session_step,
    end_control_session, handle_client_inner, handle_tunnel_connection, open_tunnel_request,
    validate_auth, Admission, SessionAction, SessionEvent, CONTROL_QUEUE_CAPACITY,
};
use nrelay::error::NRelayError;
use nrelay::http::HttpSniffer;
use nrelay::minecraft::MinecraftSniffer;
use nrelay::proto::{AuthMode, ClientAuth, ControlMessage, Payload};
use nrelay::registry::{SharedListener, TunnelRegistry};
use nrelay::relay::{
    abandon_rendezvous, begin_rendezvous, dispatch, extract_tunnel_id, http_ingress_step,
    minecraft_ingress_step, open_rendezvous, rendezvous_step, route_by_host, sniff_decision,
    tls_ingress_step, Rendezvous, RendezvousAction, RendezvousEvent, SniffStep,
    RENDEZVOUS_TIMEOUT_SECS, SNIFF_CHUNK_SIZE, SNIFF_LIMIT,
};
use nrelay::server::{
    http_listener_addr, https_listener_addr, tcp_listener_addr, Config, RelayServer,
};
use nrelay::sni::TlsSniSniffer;
use nrelay::tunnel::{ControlConnection, PendingConnection, TunnelState};
use nrelay::types::{TunnelConfig, TunnelInfo, TunnelKind};

fn state() -> AdminState {
    AdminState {
        admin_token: "adm".to_string(),
        public_domain: "example.com".to_string(),
        http_port: 80,
        https_port: 443,
        relay_domain: "relay.example.com".to_string(),
        relay_port: 7000,
    }
}

fn config(kind: TunnelKind) -> TunnelConfig {
    TunnelConfig { kind, local_port: 9000, fixed_public_port: None, hostname: None }
}

fn tunnel(id: &str, token: &str, kind: TunnelKind, hostname: Option<&str>) -> TunnelState {
    let mut info = TunnelInfo::with_ids(id.to_string(), token.to_string(), kind);
    info.public_hostname = hostname.map(|h| h.to_string());
    TunnelState::new(info, config(kind))
}

fn slot(id: &str, tx: u64) -> PendingConnection {
    PendingConnection { connection_id: id.to_string(), tunnel_tx: tx }
}

fn is_id(text: &str) -> bool {
    text.len() == 36
        && text.chars().enumerate().all(|(i, c)| {
            if i == 8 || i == 13 || i == 18 || i == 23 {
                c == '-'
            } else {
                c.is_ascii_digit() || ('a'..='f').contains(&c)
            }
        })
}

#[test]
fn fresh_descriptor_has_two_identifiers_and_nothing_else() {
    let info = TunnelInfo::new(TunnelKind::Ssh);
    assert!(is_id(&info.tunnel_id));
    assert!(is_id(&info.access_token));
    assert_ne!(info.tunnel_id, info.access_token);
    assert_eq!(info.kind, TunnelKind::Ssh);
    assert_eq!(info.public_hostname, None);
    assert_eq!(info.public_port, None);
    assert_eq!(info.exposure_mode, "");
    assert_eq!(info.relay_addr, None);
    assert_eq!(info.relay_port, None);
    assert_eq!(info.duplicate(), info);
}

#[test]
fn exposure_modes_by_kind() {
    assert_eq!(TunnelKind::Http.exposure_mode(), "hostname");
    assert_eq!(TunnelKind::Https.exposure_mode(), "hostname");
    assert_eq!(TunnelKind::TlsSni.exposure_mode(), "hostname");
    assert_eq!(TunnelKind::TcpRaw.exposure_mode(), "port");
    assert_eq!(TunnelKind::UdpRaw.exposure_mode(), "port");
    assert_eq!(TunnelKind::Minecraft.exposure_mode(), "port");
    assert_eq!(TunnelKind::Ssh.exposure_mode(), "port");
    assert!(TunnelKind::Minecraft.needs_tcp_listener());
    assert!(TunnelKind::TcpRaw.needs_tcp_listener());
    assert!(TunnelKind::Ssh.needs_tcp_listener());
    assert!(!TunnelKind::UdpRaw.needs_tcp_listener());
    assert!(!TunnelKind::Http.needs_tcp_listener());
    assert!(TunnelKind::Http.is_by_hostname());
    assert!(!TunnelKind::Ssh.is_by_hostname());
}

#[test]
fn tcp_raw_happy_path() {
    let mut registry = TunnelRegistry::new();
    let created = create_tunnel(&mut registry, &state(), config(TunnelKind::TcpRaw));
    let port = created.info.public_port.unwrap();
    assert!((20000..30000).contains(&port));
    assert_eq!(created.listen_port, Some(port));
    assert_eq!(created.info.exposure_mode, "port");
    assert_eq!(created.info.public_hostname, None);
    assert_eq!(created.info.relay_addr, Some("relay.example.com".to_string()));
    assert_eq!(created.info.relay_port, Some(7000));
    let id = created.info.tunnel_id.clone();
    let token = created.info.access_token.clone();

    // the client opens its control channel
    let first = ControlMessage::client_auth(AuthMode::AuthControl, token.clone());
    let admission = handle_client_inner(&first, &registry).unwrap();
    assert_eq!(
        admission,
        Admission::Control {
            tunnel_id: id.clone(),
            reply: ControlMessage::auth_result(true, "Control authenticated".to_string(), id.clone()),
        }
    );
    assert!(begin_control_session(&mut registry, &id, 11));

    // a public peer connects to the tunnel's port
    let meeting = open_rendezvous(&mut registry, &id, 501).unwrap();
    assert_eq!(meeting.request_tx, 11);
    assert_eq!(meeting.tunnel_id, id);
    assert!(is_id(&meeting.connection_id));
    let pending = &registry.get(&id).unwrap().pending_connections;
    assert_eq!(pending.len(), 1);
    assert_eq!(pending[0], slot(&meeting.connection_id, 501));

    // exactly one request goes to the client
    let request = open_tunnel_request(&id, meeting.connection_id.clone());
    assert_eq!(
        request,
        ControlMessage::open_tunnel_request(id.clone(), meeting.connection_id.clone())
    );

    // the client dials its data connection
    let data_first = ControlMessage::client_auth(AuthMode::AuthTunnel, token);
    match handle_client_inner(&data_first, &registry).unwrap() {
        Admission::Tunnel { tunnel_id, connection_id, reply } => {
            assert_eq!(tunnel_id, id);
            assert!(is_id(&connection_id));
            assert_eq!(reply, ControlMessage::tunnel_ok(connection_id));
        }
        other => panic!("unexpected admission {:?}", other),
    }
    let claimed = handle_tunnel_connection(&mut registry, &id).unwrap();
    assert_eq!(claimed, Some(slot(&meeting.connection_id, 501)));
    assert_eq!(registry.get(&id).unwrap().pending_connections.len(), 0);
}

#[test]
fn http_multiplexing_never_crosses() {
    let mut registry = TunnelRegistry::new();
    let a = create_tunnel(&mut registry, &state(), config(TunnelKind::Http));
    let b = create_tunnel(&mut registry, &state(), config(TunnelKind::Http));
    let host_a = a.info.public_hostname.clone().unwrap();
    let host_b = b.info.public_hostname.clone().unwrap();
    assert_eq!(host_a, format!("{}.example.com", a.info.tunnel_id));
    assert_eq!(host_b, format!("{}.example.com", b.info.tunnel_id));
    assert_eq!(a.info.public_port, Some(80));
    assert_eq!(a.info.exposure_mode, "hostname");
    assert_eq!(a.listen_port, None);
    assert!(begin_control_session(&mut registry, &a.info.tunnel_id, 1));
    assert!(begin_control_session(&mut registry, &b.info.tunnel_id, 2));

    let mut sniffer = HttpSniffer::new();
    let request = format!("GET / HTTP/1.1\r\nHost: {}\r\n\r\n", host_a);
    let step = http_ingress_step(&mut sniffer, request.as_bytes());
    assert_eq!(step, SniffStep::Routed(host_a.clone()));
    let meeting = dispatch(&mut registry, SharedListener::Http, &host_a, 70).unwrap();
    assert_eq!(meeting.tunnel_id, a.info.tunnel_id);
    assert_eq!(meeting.request_tx, 1);
    assert_eq!(sniffer.consumed_bytes(), request.as_bytes());

    let meeting = dispatch(&mut registry, SharedListener::Http, &host_b, 71).unwrap();
    assert_eq!(meeting.tunnel_id, b.info.tunnel_id);
    assert_eq!(meeting.request_tx, 2);
    assert_eq!(registry.get(&a.info.tunnel_id).unwrap().pending_connections.len(), 1);
    assert_eq!(registry.get(&b.info.tunnel_id).unwrap().pending_connections.len(), 1);
    assert_eq!(registry.get(&a.info.tunnel_id).unwrap().pending_connections[0].tunnel_tx, 70);
    assert_eq!(registry.get(&b.info.tunnel_id).unwrap().pending_connections[0].tunnel_tx, 71);
}

#[test]
fn label_match_is_on_the_whole_label() {
    let mut registry = TunnelRegistry::new();
    registry.insert("a".to_string(), tunnel("a", "ta", TunnelKind::Http, Some("a.example.com")));
    registry.insert("b".to_string(), tunnel("b", "tb", TunnelKind::Http, Some("b.example.com")));
    // "a" occurs inside "b.example.com", yet only the leading label counts
    assert_eq!(registry.find_by_hostname_prefix("a"), Some("a".to_string()));
    assert_eq!(registry.find_by_hostname_prefix("b"), Some("b".to_string()));
    assert_eq!(registry.find_by_hostname_prefix("example"), None);
    assert_eq!(registry.find_by_hostname_prefix(""), None);
    assert_eq!(registry.find_by_hostname_prefix("a.example.com"), None);
    assert_eq!(route_by_host(&registry, SharedListener::Http, "a.other.org"), Some("a".to_string()));
    assert_eq!(route_by_host(&registry, SharedListener::Http, "a"), Some("a".to_string()));
    assert_eq!(route_by_host(&registry, SharedListener::Http, "c.example.com"), None);
}

#[test]
fn listeners_serve_their_kinds_only() {
    let mut registry = TunnelRegistry::new();
    registry.insert("h".to_string(), tunnel("h", "t1", TunnelKind::Http, Some("h.example.com")));
    registry.insert("s".to_string(), tunnel("s", "t2", TunnelKind::Https, Some("s.example.com")));
    registry.insert("n".to_string(), tunnel("n", "t3", TunnelKind::TlsSni, Some("n.example.com")));
    registry.insert("m".to_string(), tunnel("m", "t4", TunnelKind::Minecraft, Some("example.com")));
    registry.insert("r".to_string(), tunnel("r", "t5", TunnelKind::TcpRaw, None));
    assert_eq!(registry.find_by_label(SharedListener::Http, "h"), Some("h".to_string()));
    assert_eq!(registry.find_by_label(SharedListener::Http, "s"), None);
    assert_eq!(registry.find_by_label(SharedListener::Tls, "s"), Some("s".to_string()));
    assert_eq!(registry.find_by_label(SharedListener::Tls, "n"), Some("n".to_string()));
    assert_eq!(registry.find_by_label(SharedListener::Tls, "h"), None);
    assert_eq!(registry.find_by_label(SharedListener::Minecraft, "example"), Some("m".to_string()));
    assert_eq!(registry.find_by_label(SharedListener::Http, "example"), None);
    assert!(SharedListener::Http.accepts(TunnelKind::Http));
    assert!(!SharedListener::Http.accepts(TunnelKind::Https));
    assert!(SharedListener::Tls.accepts(TunnelKind::TlsSni));
    assert!(SharedListener::Minecraft.accepts(TunnelKind::Minecraft));
    assert!(!SharedListener::Minecraft.accepts(TunnelKind::TcpRaw));
}

#[test]
fn extract_tunnel_id_is_the_leading_label() {
    assert_eq!(extract_tunnel_id("abc.example.com"), "abc");
    assert_eq!(extract_tunnel_id("localhost"), "localhost");
    assert_eq!(extract_tunnel_id(".example.com"), "");
    assert_eq!(extract_tunnel_id(""), "");
    assert_eq!(extract_tunnel_id("a.b"), "a");
    assert_eq!(extract_tunnel_id("ünï.example.com"), "ünï");
    assert_eq!(extract_tunnel_id("abc.example.com:8080"), "abc");
}

#[test]
fn slot_is_queued_before_the_request_can_leave() {
    let mut registry = TunnelRegistry::new();
    registry.insert("t".to_string(), tunnel("t", "t-abc", TunnelKind::TcpRaw, None));
    begin_control_session(&mut registry, "t", 5);
    // the dispatcher has decided, the request is not written yet
    let meeting = begin_rendezvous(&mut registry, "t", "c-1".to_string(), 900).unwrap();
    assert_eq!(
        meeting,
        Rendezvous { tunnel_id: "t".to_string(), connection_id: "c-1".to_string(), request_tx: 5 }
    );
    // a data connection that comes before the request was sent finds the slot
    let first = ControlMessage::client_auth(AuthMode::AuthTunnel, "t-abc".to_string());
    assert!(matches!(handle_client_inner(&first, &registry), Ok(Admission::Tunnel { .. })));
    assert_eq!(handle_tunnel_connection(&mut registry, "t"), Ok(Some(slot("c-1", 900))));
    // and it is used once
    assert_eq!(handle_tunnel_connection(&mut registry, "t"), Ok(None));
}

#[test]
fn control_reconnect_rebinds_the_tunnel() {
    let mut registry = TunnelRegistry::new();
    registry.insert("t".to_string(), tunnel("t", "t-abc", TunnelKind::TcpRaw, None));
    assert!(begin_control_session(&mut registry, "t", 1));
    assert_eq!(registry.control_channel("t"), Some(1));
    // the control connection dies
    assert!(end_control_session(&mut registry, "t", 1));
    assert_eq!(registry.control_channel("t"), None);
    assert!(registry.contains("t"));
    // while it is gone nothing is queued and nothing requested
    assert_eq!(open_rendezvous(&mut registry, "t", 3), None);
    assert_eq!(registry.get("t").unwrap().pending_connections.len(), 0);
    // the client comes back
    let first = ControlMessage::client_auth(AuthMode::AuthControl, "t-abc".to_string());
    assert!(matches!(handle_client_inner(&first, &registry), Ok(Admission::Control { .. })));
    assert!(begin_control_session(&mut registry, "t", 2));
    let meeting = open_rendezvous(&mut registry, "t", 4).unwrap();
    assert_eq!(meeting.request_tx, 2);
}

#[test]
fn old_session_does_not_detach_its_successor() {
    let mut registry = TunnelRegistry::new();
    registry.insert("t".to_string(), tunnel("t", "t-abc", TunnelKind::TcpRaw, None));
    begin_control_session(&mut registry, "t", 1);
    // a second control connection replaces the first
    begin_control_session(&mut registry, "t", 2);
    assert_eq!(
        registry.get("t").unwrap().control_conn,
        Some(ControlConnection { tunnel_id: "t".to_string(), request_tx: 2 })
    );
    // the first loop ends only now
    assert!(!end_control_session(&mut registry, "t", 1));
    assert_eq!(registry.control_channel("t"), Some(2));
    assert!(end_control_session(&mut registry, "t", 2));
    assert_eq!(registry.control_channel("t"), None);
    assert!(!end_control_session(&mut registry, "t", 2));
    assert!(!end_control_session(&mut registry, "gone", 2));
    assert!(!begin_control_session(&mut registry, "gone", 2));
}

#[test]
fn unknown_token_is_refused_and_changes_nothing() {
    let mut registry = TunnelRegistry::new();
    registry.insert("t".to_string(), tunnel("t", "t-abc", TunnelKind::TcpRaw, None));
    let first = ControlMessage::client_auth(AuthMode::AuthControl, "bogus".to_string());
    assert_eq!(
        handle_client_inner(&first, &registry),
        Err(NRelayError::Auth("Invalid token".to_string()))
    );
    let data = ControlMessage::client_auth(AuthMode::AuthTunnel, "bogus".to_string());
    assert_eq!(
        handle_client_inner(&data, &registry),
        Err(NRelayError::Auth("Invalid token".to_string()))
    );
    assert_eq!(registry.len(), 1);
    assert_eq!(registry.control_channel("t"), None);
    assert_eq!(registry.get("t").unwrap().pending_connections.len(), 0);
    assert_eq!(validate_auth("bogus", &registry), Err(NRelayError::Auth("Invalid token".to_string())));
    assert_eq!(validate_auth("t-abc", &registry), Ok("t".to_string()));
}

#[test]
fn first_message_must_be_an_auth() {
    let registry = TunnelRegistry::new();
    for first in [
        ControlMessage::tunnel_ok("x".to_string()),
        ControlMessage::auth_result(true, String::new(), String::new()),
        ControlMessage::open_tunnel_request("t".to_string(), "c".to_string()),
        ControlMessage { payload: None },
    ] {
        assert_eq!(
            handle_client_inner(&first, &registry),
            Err(NRelayError::Protocol("Expected auth message".to_string()))
        );
        assert_eq!(
            authenticate(&first, &registry),
            Err(NRelayError::Protocol("Expected auth message".to_string()))
        );
    }
}

#[test]
fn mode_that_is_no_mode_reads_as_control() {
    let mut registry = TunnelRegistry::new();
    registry.insert("t".to_string(), tunnel("t", "t-abc", TunnelKind::TcpRaw, None));
    let first = ControlMessage {
        payload: Some(Payload::Auth(ClientAuth { mode: 9, tunnel_token: "t-abc".to_string() })),
    };
    assert_eq!(authenticate(&first, &registry), Ok(("t".to_string(), AuthMode::AuthControl)));
    assert_eq!(handle_client_inner(&first, &registry), Ok(admit_control("t".to_string())));
    assert_eq!(
        admit_tunnel("t".to_string(), "c".to_string()),
        Admission::Tunnel {
            tunnel_id: "t".to_string(),
            connection_id: "c".to_string(),
            reply: ControlMessage::tunnel_ok("c".to_string()),
        }
    );
    assert_eq!(CONTROL_QUEUE_CAPACITY, 32);
}

#[test]
fn data_connections_take_slots_oldest_first() {
    let mut registry = TunnelRegistry::new();
    registry.insert("t".to_string(), tunnel("t", "tok", TunnelKind::TcpRaw, None));
    registry.insert("u".to_string(), tunnel("u", "tok2", TunnelKind::TcpRaw, None));
    begin_control_session(&mut registry, "t", 1);
    begin_control_session(&mut registry, "u", 2);
    let mut requests = Vec::new();
    for (i, id) in ["t", "u", "t", "t", "u"].iter().enumerate() {
        let meeting = begin_rendezvous(&mut registry, id, format!("c{}", i), i as u64).unwrap();
        requests.push(meeting);
    }
    // as many slots as requests, tunnel by tunnel
    assert_eq!(requests.iter().filter(|r| r.tunnel_id == "t").count(), 3);
    assert_eq!(registry.get("t").unwrap().pending_connections.len(), 3);
    assert_eq!(registry.get("u").unwrap().pending_connections.len(), 2);
    assert_eq!(handle_tunnel_connection(&mut registry, "t"), Ok(Some(slot("c0", 0))));
    assert_eq!(handle_tunnel_connection(&mut registry, "u"), Ok(Some(slot("c1", 1))));
    assert_eq!(handle_tunnel_connection(&mut registry, "t"), Ok(Some(slot("c2", 2))));
    assert_eq!(handle_tunnel_connection(&mut registry, "t"), Ok(Some(slot("c3", 3))));
    assert_eq!(handle_tunnel_connection(&mut registry, "t"), Ok(None));
    assert_eq!(handle_tunnel_connection(&mut registry, "u"), Ok(Some(slot("c4", 4))));
    assert_eq!(
        handle_tunnel_connection(&mut registry, "gone"),
        Err(NRelayError::TunnelNotFound("gone".to_string()))
    );
}

#[test]
fn abandoned_slot_leaves_the_queue_even_without_control() {
    let mut registry = TunnelRegistry::new();
    registry.insert("t".to_string(), tunnel("t", "tok", TunnelKind::TcpRaw, None));
    begin_control_session(&mut registry, "t", 1);
    begin_rendezvous(&mut registry, "t", "c0".to_string(), 10).unwrap();
    begin_rendezvous(&mut registry, "t", "c1".to_string(), 11).unwrap();
    begin_rendezvous(&mut registry, "t", "c2".to_string(), 12).unwrap();
    end_control_session(&mut registry, "t", 1);
    // the handler of c1 times out
    assert_eq!(abandon_rendezvous(&mut registry, "t", "c1"), Some(slot("c1", 11)));
    let pending = &registry.get("t").unwrap().pending_connections;
    assert_eq!(pending.len(), 2);
    assert_eq!(pending[0], slot("c0", 10));
    assert_eq!(pending[1], slot("c2", 12));
    // twice is once
    assert_eq!(abandon_rendezvous(&mut registry, "t", "c1"), None);
    assert_eq!(abandon_rendezvous(&mut registry, "gone", "c0"), None);
    assert_eq!(registry.get("t").unwrap().pending_connections.len(), 2);
    assert_eq!(RENDEZVOUS_TIMEOUT_SECS, 30);
}

#[test]
fn no_client_no_rendezvous() {
    let mut registry = TunnelRegistry::new();
    registry.insert("t".to_string(), tunnel("t", "tok", TunnelKind::Http, Some("t.example.com")));
    assert_eq!(begin_rendezvous(&mut registry, "t", "c".to_string(), 1), None);
    assert_eq!(begin_rendezvous(&mut registry, "gone", "c".to_string(), 1), None);
    assert_eq!(dispatch(&mut registry, SharedListener::Http, "t.example.com", 1), None);
    assert_eq!(dispatch(&mut registry, SharedListener::Http, "x.example.com", 1), None);
    assert_eq!(registry.get("t").unwrap().pending_connections.len(), 0);
}

#[test]
fn sniffing_stops_at_the_limit() {
    assert_eq!(SNIFF_LIMIT, 8192);
    assert_eq!(SNIFF_CHUNK_SIZE, 4096);
    assert_eq!(sniff_decision(None, 8191), SniffStep::Wait);
    assert_eq!(sniff_decision(None, 8192), SniffStep::Drop);
    assert_eq!(sniff_decision(None, 9000), SniffStep::Drop);
    assert_eq!(sniff_decision(Some("h".to_string()), 9000), SniffStep::Routed("h".to_string()));
    assert_eq!(sniff_decision(None, 0), SniffStep::Wait);

    let mut sniffer = HttpSniffer::new();
    let mut first = b"GET / HTTP/1.1\r\nX-Pad: ".to_vec();
    first.resize(4096, b'a');
    assert_eq!(http_ingress_step(&mut sniffer, &first), SniffStep::Wait);
    assert_eq!(http_ingress_step(&mut sniffer, &[b'a'; 4095]), SniffStep::Wait);
    // byte number 8192 arrives and there is still no host
    assert_eq!(http_ingress_step(&mut sniffer, &[b'a']), SniffStep::Drop);
    assert_eq!(sniffer.consumed_bytes().len(), 8192);
}

#[test]
fn ingress_steps_of_every_listener() {
    let mut http = HttpSniffer::new();
    assert_eq!(http_ingress_step(&mut http, &[]), SniffStep::Closed);
    assert_eq!(http.consumed_bytes().len(), 0);
    assert_eq!(http_ingress_step(&mut http, b"GET / HTTP/1.1\r\nHo"), SniffStep::Wait);
    assert_eq!(
        http_ingress_step(&mut http, b"st: a.example.com\r\n\r\n"),
        SniffStep::Routed("a.example.com".to_string())
    );
    assert_eq!(http.consumed_bytes(), b"GET / HTTP/1.1\r\nHost: a.example.com\r\n\r\n");

    let mut tls = TlsSniSniffer::new();
    assert_eq!(tls_ingress_step(&mut tls, &[]), SniffStep::Closed);
    assert_eq!(tls_ingress_step(&mut tls, &[0x16, 0x03, 0x01]), SniffStep::Wait);
    assert_eq!(tls_ingress_step(&mut tls, &[0u8; 8189]), SniffStep::Drop);

    let mut mc = MinecraftSniffer::new();
    assert_eq!(minecraft_ingress_step(&mut mc, &[]), SniffStep::Closed);
    let packet = [0x07, 0x00, 0x05, 0x03, b'a', b'.', b'b', 0x00];
    assert_eq!(minecraft_ingress_step(&mut mc, &packet[..3]), SniffStep::Wait);
    assert_eq!(minecraft_ingress_step(&mut mc, &packet[3..]), SniffStep::Routed("a.b".to_string()));
}

#[test]
fn bearer_gate() {
    assert!(auth_middleware(Some("Bearer adm"), "adm"));
    assert!(!auth_middleware(Some("Bearer adm "), "adm"));
    assert!(!auth_middleware(Some("bearer adm"), "adm"));
    assert!(!auth_middleware(Some("Bearer"), "adm"));
    assert!(!auth_middleware(Some("adm"), "adm"));
    assert!(!auth_middleware(Some("Bearer other"), "adm"));
    assert!(!auth_middleware(None, "adm"));
    assert!(auth_middleware(Some("Bearer "), ""));
    assert_eq!(response_status(false, true), 401);
    assert_eq!(response_status(false, false), 401);
    assert_eq!(response_status(true, false), 400);
    assert_eq!(response_status(true, true), 200);
}

#[test]
fn exposure_by_kind() {
    let s = state();
    let info = expose("id".to_string(), "tok".to_string(), &config(TunnelKind::Https), &s, 7);
    assert_eq!(info.public_hostname, Some("id.example.com".to_string()));
    assert_eq!(info.public_port, Some(443));
    assert_eq!(info.exposure_mode, "hostname");
    let info = expose("id".to_string(), "tok".to_string(), &config(TunnelKind::TlsSni), &s, 7);
    assert_eq!(info.public_hostname, Some("id.example.com".to_string()));
    assert_eq!(info.public_port, Some(443));
    let info = expose("id".to_string(), "tok".to_string(), &config(TunnelKind::Minecraft), &s, 7);
    assert_eq!(info.public_hostname, Some("example.com".to_string()));
    assert_eq!(info.public_port, Some(25565));
    assert_eq!(info.exposure_mode, "port");
    let info = expose("id".to_string(), "tok".to_string(), &config(TunnelKind::Ssh), &s, 12345);
    assert_eq!(info.public_hostname, None);
    assert_eq!(info.public_port, Some(22345));
    let info = expose("id".to_string(), "tok".to_string(), &config(TunnelKind::UdpRaw), &s, 65535);
    assert_eq!(info.public_port, Some(35535));
    assert_eq!(info.tunnel_id, "id");
    assert_eq!(info.access_token, "tok");
    assert_eq!(info.relay_addr, None);
    let mut fixed = config(TunnelKind::TcpRaw);
    fixed.fixed_public_port = Some(2222);
    let info = expose("id".to_string(), "tok".to_string(), &fixed, &s, 9);
    assert_eq!(info.public_port, Some(2222));
    fixed.kind = TunnelKind::Minecraft;
    let info = expose("id".to_string(), "tok".to_string(), &fixed, &s, 9);
    assert_eq!(info.public_port, Some(2222));
    fixed.kind = TunnelKind::Http;
    let info = expose("id".to_string(), "tok".to_string(), &fixed, &s, 9);
    assert_eq!(info.public_port, Some(80));
}

#[test]
fn pick_port_stays_in_its_band() {
    assert_eq!(pick_port(20000, 0), 20000);
    assert_eq!(pick_port(20000, 9999), 29999);
    assert_eq!(pick_port(20000, 10000), 20000);
    assert_eq!(pick_port(30000, 65535), 35535);
    assert_eq!(pick_port(30000, 12345), 32345);
}

#[test]
fn random_ports_fall_in_the_band_of_the_kind() {
    let mut registry = TunnelRegistry::new();
    for _ in 0..50 {
        let tcp = create_tunnel(&mut registry, &state(), config(TunnelKind::Ssh));
        assert!((20000..30000).contains(&tcp.info.public_port.unwrap()));
        let udp = create_tunnel(&mut registry, &state(), config(TunnelKind::UdpRaw));
        assert!((30000..40000).contains(&udp.info.public_port.unwrap()));
        assert_eq!(udp.listen_port, None);
    }
    assert_eq!(registry.len(), 100);
}

#[test]
fn registered_descriptor_does_not_hold_the_relay_address() {
    let mut registry = TunnelRegistry::new();
    let exposed = expose("id".to_string(), "tok".to_string(), &config(TunnelKind::Minecraft), &state(), 0);
    let created = register(&mut registry, &state(), config(TunnelKind::Minecraft), exposed.duplicate());
    assert_eq!(created.listen_port, Some(25565));
    assert_eq!(created.info.relay_addr, Some("relay.example.com".to_string()));
    let stored = registry.get("id").unwrap();
    assert_eq!(stored.info, exposed);
    assert_eq!(stored.config, config(TunnelKind::Minecraft));
    assert_eq!(stored.control_conn, None);
    assert_eq!(stored.pending_connections.len(), 0);
    assert_eq!(registry.find_by_token("tok"), Some("id".to_string()));
}

#[test]
fn registry_insert_replaces_by_id() {
    let mut registry = TunnelRegistry::new();
    assert_eq!(registry.len(), 0);
    assert!(!registry.contains("a"));
    registry.insert("a".to_string(), tunnel("a", "t1", TunnelKind::Http, None));
    registry.insert("b".to_string(), tunnel("b", "t2", TunnelKind::Http, None));
    registry.insert("a".to_string(), tunnel("a", "t3", TunnelKind::Ssh, None));
    assert_eq!(registry.len(), 2);
    assert_eq!(registry.get("a").unwrap().info.access_token, "t3");
    assert_eq!(registry.find_by_token("t1"), None);
    assert_eq!(registry.find_by_token("t3"), Some("a".to_string()));
    assert_eq!(registry.find_by_token("t2"), Some("b".to_string()));
    assert!(registry.get("c").is_none());
}

#[test]
fn registry_operations_on_a_missing_tunnel_change_nothing() {
    let mut registry = TunnelRegistry::new();
    registry.insert("a".to_string(), tunnel("a", "t1", TunnelKind::Http, None));
    assert!(!registry.attach_control("x", ControlConnection { tunnel_id: "x".to_string(), request_tx: 1 }));
    assert!(!registry.detach_control("x"));
    assert!(!registry.release_control("x", 1));
    assert!(!registry.enqueue_pending("x", slot("c", 1)));
    assert_eq!(registry.dequeue_pending("x"), None);
    assert_eq!(registry.remove_pending("x", "c"), None);
    assert_eq!(registry.control_channel("x"), None);
    assert_eq!(registry.len(), 1);
    assert!(registry.enqueue_pending("a", slot("c", 1)));
    assert!(registry.attach_control("a", ControlConnection { tunnel_id: "a".to_string(), request_tx: 4 }));
    assert!(registry.detach_control("a"));
    assert_eq!(registry.dequeue_pending("a"), Some(slot("c", 1)));
    assert_eq!(registry.dequeue_pending("a"), None);
}

#[test]
fn tunnel_state_queue_is_first_in_first_out() {
    let mut state = tunnel("a", "t", TunnelKind::TcpRaw, None);
    assert_eq!(state.dequeue_pending(), None);
    state.enqueue_pending(slot("1", 1));
    state.enqueue_pending(slot("2", 2));
    state.set_control_connection(ControlConnection { tunnel_id: "a".to_string(), request_tx: 3 });
    assert_eq!(state.dequeue_pending(), Some(slot("1", 1)));
    state.enqueue_pending(slot("3", 3));
    assert_eq!(state.dequeue_pending(), Some(slot("2", 2)));
    assert_eq!(state.dequeue_pending(), Some(slot("3", 3)));
    assert_eq!(state.dequeue_pending(), None);
    assert!(state.control_conn.is_some());
    state.remove_control_connection();
    assert_eq!(state.control_conn, None);
}

#[test]
fn relay_needs_an_admin_token() {
    let mut config = Config {
        relay_bind: "0.0.0.0".to_string(),
        relay_port: 7000,
        admin_bind: "127.0.0.1".to_string(),
        admin_port: 7001,
        admin_token: None,
        relay_domain: "localhost".to_string(),
    };
    let missing = NRelayError::Config(
        "Admin token not provided. Set --admin-token, NRELAY_ADMIN_TOKEN env var, or .env file".to_string(),
    );
    assert_eq!(config.admin_token(), Err(missing.clone()));
    assert!(matches!(RelayServer::new(config.clone()), Err(e) if e == missing));
    config.admin_token = Some("adm".to_string());
    assert_eq!(config.admin_token(), Ok("adm".to_string()));
    let server = match RelayServer::new(config.clone()) {
        Ok(server) => server,
        Err(e) => panic!("{:?}", e),
    };
    assert_eq!(server.control_addr(), "0.0.0.0:7000");
    assert_eq!(server.admin_addr(), "127.0.0.1:7001");
    let admin = server.admin_state().unwrap();
    assert_eq!(admin.admin_token, "adm");
    assert_eq!(admin.public_domain, "localhost");
    assert_eq!(admin.http_port, 80);
    assert_eq!(admin.https_port, 443);
    assert_eq!(admin.relay_port, 7000);
    let (got, registry) = server.into_parts();
    assert_eq!(got, config);
    assert_eq!(registry.len(), 0);
    assert_eq!(tcp_listener_addr(25565), "0.0.0.0:25565");
    assert_eq!(tcp_listener_addr(0), "0.0.0.0:0");
    assert_eq!(http_listener_addr(), "0.0.0.0:80");
    assert_eq!(https_listener_addr(), "0.0.0.0:443");
}

#[test]
fn rendezvous_steps() {
    let mut registry = TunnelRegistry::new();
    registry.insert("t".to_string(), tunnel("t", "tok", TunnelKind::TcpRaw, None));
    begin_control_session(&mut registry, "t", 1);
    let first = begin_rendezvous(&mut registry, "t", "c0".to_string(), 10).unwrap();
    let second = begin_rendezvous(&mut registry, "t", "c1".to_string(), 11).unwrap();
    let third = begin_rendezvous(&mut registry, "t", "c2".to_string(), 12).unwrap();

    // the request of the first went out, and its data connection came
    assert_eq!(
        rendezvous_step(&mut registry, &first, RendezvousEvent::RequestSent),
        (RendezvousAction::AwaitData(30), None)
    );
    assert_eq!(handle_tunnel_connection(&mut registry, "t"), Ok(Some(slot("c0", 10))));
    assert_eq!(
        rendezvous_step(&mut registry, &first, RendezvousEvent::DataConnected),
        (RendezvousAction::Join, None)
    );
    assert_eq!(registry.get("t").unwrap().pending_connections.len(), 2);

    // the request of the third could not be sent
    assert_eq!(
        rendezvous_step(&mut registry, &third, RendezvousEvent::RequestFailed),
        (RendezvousAction::Drop, Some(slot("c2", 12)))
    );
    // the second waited in vain, though the client is gone by then
    end_control_session(&mut registry, "t", 1);
    assert_eq!(
        rendezvous_step(&mut registry, &second, RendezvousEvent::RequestSent),
        (RendezvousAction::AwaitData(30), None)
    );
    assert_eq!(
        rendezvous_step(&mut registry, &second, RendezvousEvent::TimedOut),
        (RendezvousAction::Drop, Some(slot("c1", 11)))
    );
    assert_eq!(registry.get("t").unwrap().pending_connections.len(), 0);
    // a slot that a data connection took in the meantime is not there to give up
    assert_eq!(
        rendezvous_step(&mut registry, &first, RendezvousEvent::TimedOut),
        (RendezvousAction::Drop, None)
    );
}

#[test]
fn control_session_forwards_in_order_until_it_ends() {
    let mut written = Vec::new();
    let events = vec![
        SessionEvent::Request("c0".to_string()),
        SessionEvent::Request("c1".to_string()),
        SessionEvent::Request("c2".to_string()),
        SessionEvent::QueueClosed,
    ];
    for event in events {
        match control_session_step("t", event) {
            SessionAction::Forward(msg) => written.push(msg),
            SessionAction::End => break,
        }
    }
    assert_eq!(
        written,
        vec![
            ControlMessage::open_tunnel_request("t".to_string(), "c0".to_string()),
            ControlMessage::open_tunnel_request("t".to_string(), "c1".to_string()),
            ControlMessage::open_tunnel_request("t".to_string(), "c2".to_string()),
        ]
    );
    assert_eq!(control_session_step("t", SessionEvent::WriteFailed), SessionAction::End);
    assert_eq!(control_session_step("t", SessionEvent::QueueClosed), SessionAction::End);
}
