//! What a tunnel is: its kind, the request that creates it and the
//! descriptor that the relay issues for it.

use vstd::prelude::*;

verus! {

/// The kinds of tunnel. The kind decides how a tunnel is exposed, by host
/// name on a shared port or on a port of its own, and which sniffer reads the
/// first bytes of its public connections.
#[derive(Debug, Clone, Copy, PartialEq, Eq, Structural)]
pub enum TunnelKind {
    Http,
    Https,
    TcpRaw,
    UdpRaw,
    Minecraft,
    Ssh,
    TlsSni,
}

impl TunnelKind {
    /// Whether tunnels of this kind share a port and are told apart by host
    /// name.
    pub open spec fn by_hostname(self) -> bool {
        self == TunnelKind::Http || self == TunnelKind::Https || self == TunnelKind::TlsSni
    }

    /// Whether the relay opens a TCP listener of its own for a tunnel of this
    /// kind.
    pub open spec fn has_tcp_listener(self) -> bool {
        self == TunnelKind::TcpRaw || self == TunnelKind::Ssh || self == TunnelKind::Minecraft
    }

    /// The exposure mode of this kind, as the descriptor spells it.
    pub open spec fn exposure_text(self) -> Seq<char> {
        if self.by_hostname() {
            "hostname"@
        } else {
            "port"@
        }
    }

    /// Whether tunnels of this kind are told apart by host name.
    pub fn is_by_hostname(&self) -> (b: bool)
        ensures
            b == self.by_hostname(),
    {
        match self {
            TunnelKind::Http | TunnelKind::Https | TunnelKind::TlsSni => true,
            _ => false,
        }
    }

    /// Whether a tunnel of this kind gets a TCP listener of its own.
    pub fn needs_tcp_listener(&self) -> (b: bool)
        ensures
            b == self.has_tcp_listener(),
    {
        match self {
            TunnelKind::TcpRaw | TunnelKind::Ssh | TunnelKind::Minecraft => true,
            _ => false,
        }
    }

    /// `"hostname"` for the kinds that share a port, `"port"` for the others.
    pub fn exposure_mode(&self) -> (mode: &'static str)
        ensures
            mode@ == self.exposure_text(),
    {
        if self.is_by_hostname() {
            "hostname"
        } else {
            "port"
        }
    }
}

/// A copy of an optional string.
pub fn copy_opt_string(s: &Option<String>) -> (c: Option<String>)
    ensures
        c == *s,
{
    match s {
        Some(t) => Some(t.clone()),
        None => None,
    }
}

/// The request that creates a tunnel. `local_port` belongs to the client
/// side; `fixed_public_port` asks for one port for the kinds that get a port.
#[derive(Debug, Clone, PartialEq, Eq)]
pub struct TunnelConfig {
    pub kind: TunnelKind,
    pub local_port: u16,
    pub fixed_public_port: Option<u16>,
    pub hostname: Option<String>,
}

impl TunnelConfig {
    /// A copy of this request.
    pub fn duplicate(&self) -> (c: Self)
        ensures
            c == *self,
    {
        TunnelConfig {
            kind: self.kind,
            local_port: self.local_port,
            fixed_public_port: self.fixed_public_port,
            hostname: copy_opt_string(&self.hostname),
        }
    }
}

/// Length of an identifier in its text form.
pub const ID_TEXT_LEN: usize = 36;

/// Whether `c` is a lower-case hexadecimal digit.
pub open spec fn is_lower_hex(c: char) -> bool {
    ('0' <= c && c <= '9') || ('a' <= c && c <= 'f')
}

/// Whether `s` has the shape of a 128-bit identifier in its hyphenated text
/// form: 36 characters, hyphens at positions 8, 13, 18 and 23, lower-case
/// hexadecimal digits everywhere else.
pub open spec fn is_id_text(s: Seq<char>) -> bool {
    &&& s.len() == ID_TEXT_LEN
    &&& forall|i: int|
        0 <= i < s.len() ==> if i == 8 || i == 13 || i == 18 || i == 23 {
            #[trigger] s[i] == '-'
        } else {
            is_lower_hex(s[i])
        }
}

/// Calls `uuid::Uuid::new_v4` and formats the result with its `Display`
/// impl. Trusted: the text is the hyphenated lower-case form. Which
/// identifier comes back is up to the random source, so nothing else is
/// claimed; the call panics if the operating system yields no random bytes.
#[verifier::external_body]
pub(crate) fn new_id_text() -> (id: String)
    ensures
        is_id_text(id@),
{
    uuid::Uuid::new_v4().to_string()
}

/// The descriptor that the relay issues for a tunnel.
#[derive(Debug, Clone, PartialEq, Eq)]
pub struct TunnelInfo {
    pub tunnel_id: String,
    pub access_token: String,
    pub kind: TunnelKind,
    pub public_hostname: Option<String>,
    pub public_port: Option<u16>,
    pub exposure_mode: String,
    pub relay_addr: Option<String>,
    pub relay_port: Option<u16>,
}

impl TunnelInfo {
    /// What a descriptor is before its exposure is decided: the two
    /// identifiers and the kind, nothing else.
    pub open spec fn is_blank(self, kind: TunnelKind) -> bool {
        &&& self.kind == kind
        &&& self.public_hostname is None
        &&& self.public_port is None
        &&& self.exposure_mode@ == Seq::<char>::empty()
        &&& self.relay_addr is None
        &&& self.relay_port is None
    }

    /// A blank descriptor with the identifiers given.
    pub fn with_ids(tunnel_id: String, access_token: String, kind: TunnelKind) -> (info: Self)
        ensures
            info.is_blank(kind),
            info.tunnel_id == tunnel_id,
            info.access_token == access_token,
    {
        TunnelInfo {
            tunnel_id,
            access_token,
            kind,
            public_hostname: None,
            public_port: None,
            exposure_mode: String::new(),
            relay_addr: None,
            relay_port: None,
        }
    }

    /// A blank descriptor with a freshly minted tunnel id and access token.
    pub fn new(kind: TunnelKind) -> (info: Self)
        ensures
            info.is_blank(kind),
            is_id_text(info.tunnel_id@),
            is_id_text(info.access_token@),
    {
        let tunnel_id = new_id_text();
        let access_token = new_id_text();
        Self::with_ids(tunnel_id, access_token, kind)
    }

    /// A copy of this descriptor.
    pub fn duplicate(&self) -> (c: Self)
        ensures
            c == *self,
    {
        TunnelInfo {
            tunnel_id: self.tunnel_id.clone(),
            access_token: self.access_token.clone(),
            kind: self.kind,
            public_hostname: copy_opt_string(&self.public_hostname),
            public_port: self.public_port,
            exposure_mode: self.exposure_mode.clone(),
            relay_addr: copy_opt_string(&self.relay_addr),
            relay_port: self.relay_port,
        }
    }
}

} // verus!
