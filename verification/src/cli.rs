//! What the command line front-end computes between its arguments and the
//! relay: which kind of tunnel a command asks for, where the local service
//! is, and at which address the client has to dial the relay.

use crate::text::{
    count_until, first_index_of, has_prefix, host_port, join_host_port, last_index_of, parse_u16,
    scan, starts_with, trim_end, u16_of,
};
use crate::server::DEFAULT_RELAY_PORT;
use crate::types::{TunnelConfig, TunnelKind};
use vstd::prelude::*;
use vstd::string::StringExecFns;

verus! {

/// The protocols that the command line offers.
#[derive(Debug, Clone, Copy, PartialEq, Eq, Structural)]
pub enum TunnelProtocol {
    TcpRaw,
    UdpRaw,
    Http,
    Https,
    Minecraft,
    TlsSni,
}

impl TunnelProtocol {
    /// The name of this protocol, as the admin endpoint spells the kind.
    pub open spec fn name(self) -> Seq<char> {
        match self {
            TunnelProtocol::TcpRaw => "tcp_raw"@,
            TunnelProtocol::UdpRaw => "udp_raw"@,
            TunnelProtocol::Http => "http"@,
            TunnelProtocol::Https => "https"@,
            TunnelProtocol::Minecraft => "minecraft"@,
            TunnelProtocol::TlsSni => "tls_sni"@,
        }
    }

    /// The kind of tunnel that carries this protocol.
    pub open spec fn kind_of(self) -> TunnelKind {
        match self {
            TunnelProtocol::TcpRaw => TunnelKind::TcpRaw,
            TunnelProtocol::UdpRaw => TunnelKind::UdpRaw,
            TunnelProtocol::Http => TunnelKind::Http,
            TunnelProtocol::Https => TunnelKind::Https,
            TunnelProtocol::Minecraft => TunnelKind::Minecraft,
            TunnelProtocol::TlsSni => TunnelKind::TlsSni,
        }
    }

    /// The name of this protocol.
    pub fn as_str(&self) -> (s: &'static str)
        ensures
            s@ == self.name(),
    {
        match self {
            TunnelProtocol::TcpRaw => "tcp_raw",
            TunnelProtocol::UdpRaw => "udp_raw",
            TunnelProtocol::Http => "http",
            TunnelProtocol::Https => "https",
            TunnelProtocol::Minecraft => "minecraft",
            TunnelProtocol::TlsSni => "tls_sni",
        }
    }

    /// The kind of tunnel that carries this protocol.
    pub fn kind(&self) -> (kind: TunnelKind)
        ensures
            kind == self.kind_of(),
    {
        match self {
            TunnelProtocol::TcpRaw => TunnelKind::TcpRaw,
            TunnelProtocol::UdpRaw => TunnelKind::UdpRaw,
            TunnelProtocol::Http => TunnelKind::Http,
            TunnelProtocol::Https => TunnelKind::Https,
            TunnelProtocol::Minecraft => TunnelKind::Minecraft,
            TunnelProtocol::TlsSni => TunnelKind::TlsSni,
        }
    }

    /// The request that asks the relay for a tunnel of this protocol to the
    /// local port given: no port and no host name of its own.
    pub fn tunnel_request(&self, local_port: u16) -> (config: TunnelConfig)
        ensures
            config.kind == self.kind_of(),
            config.local_port == local_port,
            config.fixed_public_port is None,
            config.hostname is None,
    {
        TunnelConfig { kind: self.kind(), local_port, fixed_public_port: None, hostname: None }
    }
}

/// Why a target is refused.
#[derive(Debug, Clone, Copy, PartialEq, Eq, Structural)]
pub enum TargetError {
    /// More than one colon.
    InvalidFormat,
    /// What should be the port is no 16-bit number.
    InvalidPort,
}

impl TargetError {
    /// The text of this error.
    pub fn message(&self) -> (s: &'static str)
        ensures
            s@ == match self {
                TargetError::InvalidFormat => "Invalid target format. Use 'port' or 'addr:port'"@,
                TargetError::InvalidPort => "Invalid port number"@,
            },
    {
        match self {
            TargetError::InvalidFormat => "Invalid target format. Use 'port' or 'addr:port'",
            TargetError::InvalidPort => "Invalid port number",
        }
    }
}

/// Address of the local service when a target names a port only.
pub open spec fn loopback() -> Seq<char> {
    "127.0.0.1"@
}

/// The address and port that a target names: `port` alone stands for that
/// port on the loopback address, `addr:port` for itself.
pub open spec fn target_of(target: Seq<char>) -> Result<(Seq<char>, u16), TargetError> {
    let colon = first_index_of(target, ':');
    if colon == target.len() {
        match u16_of(target) {
            Some(port) => Ok((loopback(), port)),
            None => Err(TargetError::InvalidPort),
        }
    } else {
        let rest = target.skip(colon + 1);
        if first_index_of(rest, ':') < rest.len() {
            Err(TargetError::InvalidFormat)
        } else {
            match u16_of(rest) {
                Some(port) => Ok((target.take(colon), port)),
                None => Err(TargetError::InvalidPort),
            }
        }
    }
}

/// Reads a target from the command line.
pub fn parse_target(target: &str) -> (res: Result<(String, u16), TargetError>)
    ensures
        match res {
            Ok((addr, port)) => target_of(target@) == Ok::<(Seq<char>, u16), TargetError>(
                (addr@, port),
            ),
            Err(e) => target_of(target@) == Err::<(Seq<char>, u16), TargetError>(e),
        },
{
    let (len, _, _) = scan(target, ':', ':');
    let colon = count_until(target, ':');
    if colon == len {
        match parse_u16(target) {
            Some(port) => Ok(("127.0.0.1".to_owned(), port)),
            None => Err(TargetError::InvalidPort),
        }
    } else {
        let rest = target.substring_char(colon + 1, len);
        let (rest_len, _, _) = scan(rest, ':', ':');
        if count_until(rest, ':') < rest_len {
            return Err(TargetError::InvalidFormat);
        }
        match parse_u16(rest) {
            Some(port) => Ok((target.substring_char(0, colon).to_owned(), port)),
            None => Err(TargetError::InvalidPort),
        }
    }
}

/// `url` without its scheme, if the scheme is `http` or `https`.
pub open spec fn without_scheme(url: Seq<char>) -> Seq<char> {
    if starts_with(url, "http://"@) {
        url.skip("http://"@.len() as int)
    } else if starts_with(url, "https://"@) {
        url.skip("https://"@.len() as int)
    } else {
        url
    }
}

/// The `host:port` at which the server of `url` listens: the slashes at
/// the end of `url` and its scheme are taken away, what stands behind the
/// first slash after that too, and a host without a port gets port 7000.
pub open spec fn server_addr_of(url: Seq<char>) -> Seq<char> {
    let bare = without_scheme(trim_end(url, '/'));
    let addr = bare.take(first_index_of(bare, '/'));
    if first_index_of(addr, ':') < addr.len() {
        addr
    } else {
        addr + ":7000"@
    }
}

/// The address of the server of `url`.
pub fn extract_server_addr(url: &str) -> (addr: String)
    ensures
        addr@ == server_addr_of(url@),
{
    proof {
        reveal_strlit("http://");
        reveal_strlit("https://");
    }
    let (_, kept, _) = scan(url, '/', ':');
    let trimmed = url.substring_char(0, kept);
    let (trimmed_len, _, _) = scan(trimmed, '/', ':');
    let bare = if has_prefix(trimmed, "http://") {
        trimmed.substring_char(7, trimmed_len)
    } else if has_prefix(trimmed, "https://") {
        trimmed.substring_char(8, trimmed_len)
    } else {
        trimmed
    };
    let slash = count_until(bare, '/');
    let addr = bare.substring_char(0, slash);
    let (addr_len, _, _) = scan(addr, '/', ':');
    if count_until(addr, ':') < addr_len {
        addr.to_owned()
    } else {
        addr.to_owned().concat(":7000")
    }
}

/// The address at which the client has to dial the relay. An address that
/// the relay itself names comes first, with port 7000 if the relay names
/// no port. Otherwise it is the address of the admin endpoint, with the
/// relay's port in place of its own if the relay names one.
pub open spec fn relay_address_of(
    relay_addr: Option<Seq<char>>,
    relay_port: Option<u16>,
    origin_url: Seq<char>,
) -> Seq<char> {
    match relay_addr {
        Some(addr) => host_port(
            addr,
            match relay_port {
                Some(port) => port,
                None => DEFAULT_RELAY_PORT,
            },
        ),
        None => {
            let origin_addr = server_addr_of(origin_url);
            match relay_port {
                Some(port) => match last_index_of(origin_addr, ':') {
                    Some(colon) => host_port(origin_addr.take(colon), port),
                    None => host_port(origin_addr, port),
                },
                None => origin_addr,
            }
        },
    }
}

/// The address at which the client has to dial the relay.
pub fn relay_address(
    relay_addr: Option<&str>,
    relay_port: Option<u16>,
    origin_url: &str,
) -> (addr: String)
    ensures
        addr@ == relay_address_of(
            match relay_addr {
                Some(a) => Some(a@),
                None => None,
            },
            relay_port,
            origin_url@,
        ),
{
    match relay_addr {
        Some(a) => {
            let port = match relay_port {
                Some(port) => port,
                None => DEFAULT_RELAY_PORT,
            };
            join_host_port(a, port)
        },
        None => {
            let origin_addr = extract_server_addr(origin_url);
            match relay_port {
                Some(port) => {
                    let (_, _, colon) = scan(origin_addr.as_str(), ':', ':');
                    match colon {
                        Some(at) => join_host_port(origin_addr.as_str().substring_char(0, at), port),
                        None => join_host_port(origin_addr.as_str(), port),
                    }
                },
                None => origin_addr,
            }
        },
    }
}

/// The address that the client is started with: the origin's own relay
/// address, if the origin has one, overrides what the relay says.
pub fn dial_address(
    relay_url: Option<&str>,
    relay_addr: Option<&str>,
    relay_port: Option<u16>,
    origin_url: &str,
) -> (addr: String)
    ensures
        addr@ == match relay_url {
            Some(url) => server_addr_of(url@),
            None => relay_address_of(
                match relay_addr {
                    Some(a) => Some(a@),
                    None => None,
                },
                relay_port,
                origin_url@,
            ),
        },
{
    match relay_url {
        Some(url) => extract_server_addr(url),
        None => relay_address(relay_addr, relay_port, origin_url),
    }
}

/// The address of the tunnel-creation endpoint of the admin API at `url`.
pub fn create_url(url: &str) -> (endpoint: String)
    ensures
        endpoint@ == trim_end(url@, '/') + "/tunnels"@,
{
    let (_, kept, _) = scan(url, '/', ':');
    url.substring_char(0, kept).to_owned().concat("/tunnels")
}

/// The `Authorization` header that presents `token`.
pub fn bearer(token: &str) -> (header: String)
    ensures
        header@ == "Bearer "@ + token@,
{
    "Bearer ".to_owned().concat(token)
}

} // verus!
