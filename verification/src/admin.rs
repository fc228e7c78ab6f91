//! The privileged operation of the relay: creating a tunnel. A caller that
//! presents the admin token hands in a `TunnelConfig` and gets back the
//! descriptor of the new tunnel, which is registered on the way.

use crate::registry::TunnelRegistry;
use crate::text::{label_of, lemma_first_index_of, str_eq};
use crate::tunnel::{PendingConnection, TunnelState, TunnelStateView};
use crate::types::{is_id_text, TunnelConfig, TunnelInfo, TunnelKind};
use vstd::prelude::*;
use vstd::string::StringExecFns;

verus! {

/// Status of a request that came without the admin token.
pub const STATUS_UNAUTHORIZED: u16 = 401;

/// Status of a request whose body is no `TunnelConfig`.
pub const STATUS_BAD_REQUEST: u16 = 400;

/// Status of a request that created a tunnel.
pub const STATUS_OK: u16 = 200;

/// Port of a Minecraft tunnel that asks for none.
pub const DEFAULT_MINECRAFT_PORT: u16 = 25565;

/// First port of the band from which TCP and SSH tunnels get a port.
pub const TCP_BAND_START: u16 = 20000;

/// First port of the band from which UDP tunnels get a port.
pub const UDP_BAND_START: u16 = 30000;

/// Number of ports in a band.
pub const BAND_SIZE: u16 = 10000;

/// What the admin endpoint knows besides the registry.
#[derive(Debug, Clone, PartialEq, Eq)]
pub struct AdminState {
    pub admin_token: String,
    pub public_domain: String,
    pub http_port: u16,
    pub https_port: u16,
    pub relay_domain: String,
    pub relay_port: u16,
}

/// Whether an `Authorization` header lets a request through: it is there,
/// and it is `Bearer `, then the admin token.
pub open spec fn is_authorized(header: Option<Seq<char>>, admin_token: Seq<char>) -> bool {
    match header {
        Some(value) => value == "Bearer "@ + admin_token,
        None => false,
    }
}

/// Checks the `Authorization` header of a request against the admin token.
pub fn auth_middleware(header: Option<&str>, admin_token: &str) -> (authorized: bool)
    ensures
        authorized == is_authorized(
            match header {
                Some(value) => Some(value@),
                None => None,
            },
            admin_token@,
        ),
{
    match header {
        Some(value) => {
            let expected = "Bearer ".to_owned().concat(admin_token);
            str_eq(value, expected.as_str())
        },
        None => false,
    }
}

/// The status that answers a request: 401 without the token, whatever the
/// body holds; 400 for a body that is no `TunnelConfig`; 200 otherwise.
pub fn response_status(authorized: bool, body_is_config: bool) -> (status: u16)
    ensures
        status == if !authorized {
            STATUS_UNAUTHORIZED
        } else if !body_is_config {
            STATUS_BAD_REQUEST
        } else {
            STATUS_OK
        },
{
    if !authorized {
        STATUS_UNAUTHORIZED
    } else if !body_is_config {
        STATUS_BAD_REQUEST
    } else {
        STATUS_OK
    }
}

/// The public host name of a tunnel: `<tunnel-id>.<domain>` for the kinds
/// that are told apart by host name, the domain itself for Minecraft, none
/// for the others.
pub open spec fn public_hostname_of(kind: TunnelKind, tunnel_id: Seq<char>, domain: Seq<char>)
    -> Option<Seq<char>> {
    if kind.by_hostname() {
        Some(tunnel_id + "."@ + domain)
    } else if kind == TunnelKind::Minecraft {
        Some(domain)
    } else {
        None
    }
}

/// The first port of the band from which a tunnel of this kind gets a port
/// when it asks for none, for the kinds that draw one.
pub open spec fn band_start(kind: TunnelKind) -> Option<u16> {
    match kind {
        TunnelKind::TcpRaw | TunnelKind::Ssh => Some(TCP_BAND_START),
        TunnelKind::UdpRaw => Some(UDP_BAND_START),
        _ => None,
    }
}

/// The port of the band that starts at `start` which the draw `raw` picks.
pub open spec fn port_in_band(start: u16, raw: u16) -> int {
    start + raw % BAND_SIZE
}

/// The public port of a tunnel: the shared port for the kinds that are told
/// apart by host name; for the others the port asked for, else 25565 for
/// Minecraft and the port that `raw` picks in the kind's band.
pub open spec fn public_port_of(
    kind: TunnelKind,
    fixed: Option<u16>,
    http_port: u16,
    https_port: u16,
    raw: u16,
) -> int {
    match kind {
        TunnelKind::Http => http_port as int,
        TunnelKind::Https | TunnelKind::TlsSni => https_port as int,
        TunnelKind::Minecraft => match fixed {
            Some(port) => port as int,
            None => DEFAULT_MINECRAFT_PORT as int,
        },
        TunnelKind::TcpRaw | TunnelKind::Ssh => match fixed {
            Some(port) => port as int,
            None => port_in_band(TCP_BAND_START, raw),
        },
        TunnelKind::UdpRaw => match fixed {
            Some(port) => port as int,
            None => port_in_band(UDP_BAND_START, raw),
        },
    }
}

/// Whether creating a tunnel draws a random port: the kind has a band and
/// the request names no port.
pub open spec fn draws_port(kind: TunnelKind, fixed: Option<u16>) -> bool {
    band_start(kind) is Some && fixed is None
}

/// Whether `info` describes a tunnel with the identifiers given and the
/// exposure that `config` asks for, with `raw` as the draw for a random
/// port, and does not yet say where the relay is.
pub open spec fn is_exposed(
    info: TunnelInfo,
    tunnel_id: String,
    access_token: String,
    config: TunnelConfig,
    state: AdminState,
    raw: u16,
) -> bool {
    &&& info.tunnel_id == tunnel_id
    &&& info.access_token == access_token
    &&& info.kind == config.kind
    &&& match info.public_hostname {
        Some(h) => Some(h@),
        None => None,
    } == public_hostname_of(config.kind, tunnel_id@, state.public_domain@)
    &&& match info.public_port {
        Some(port) => port == public_port_of(
            config.kind,
            config.fixed_public_port,
            state.http_port,
            state.https_port,
            raw,
        ),
        None => false,
    }
    &&& info.exposure_mode@ == config.kind.exposure_text()
    &&& info.relay_addr is None
    &&& info.relay_port is None
}

/// Calls `rand::random::<u16>()`. Which number comes back is up to the
/// random source, so nothing is claimed of it.
#[verifier::external_body]
fn random_u16() -> (raw: u16) {
    rand::random::<u16>()
}

/// The port of the band that starts at `start` which the draw `raw` picks.
pub fn pick_port(start: u16, raw: u16) -> (port: u16)
    requires
        start + BAND_SIZE <= u16::MAX,
    ensures
        port == port_in_band(start, raw),
        start <= port < start + BAND_SIZE,
{
    raw % BAND_SIZE + start
}

/// The descriptor of a tunnel with the identifiers given, exposed as
/// `config` asks for.
pub fn expose(
    tunnel_id: String,
    access_token: String,
    config: &TunnelConfig,
    state: &AdminState,
    raw: u16,
) -> (info: TunnelInfo)
    ensures
        is_exposed(info, tunnel_id, access_token, *config, *state, raw),
{
    let mut info = TunnelInfo::with_ids(tunnel_id, access_token, config.kind);
    match config.kind {
        TunnelKind::Http => {
            info.public_hostname = Some(
                info.tunnel_id.clone().concat(".").concat(state.public_domain.as_str()),
            );
            info.public_port = Some(state.http_port);
        },
        TunnelKind::Https | TunnelKind::TlsSni => {
            info.public_hostname = Some(
                info.tunnel_id.clone().concat(".").concat(state.public_domain.as_str()),
            );
            info.public_port = Some(state.https_port);
        },
        TunnelKind::Minecraft => {
            info.public_port = match config.fixed_public_port {
                Some(port) => Some(port),
                None => Some(DEFAULT_MINECRAFT_PORT),
            };
            info.public_hostname = Some(state.public_domain.clone());
        },
        TunnelKind::TcpRaw | TunnelKind::Ssh => {
            info.public_port = match config.fixed_public_port {
                Some(port) => Some(port),
                None => Some(pick_port(TCP_BAND_START, raw)),
            };
        },
        TunnelKind::UdpRaw => {
            info.public_port = match config.fixed_public_port {
                Some(port) => Some(port),
                None => Some(pick_port(UDP_BAND_START, raw)),
            };
        },
    }
    info.exposure_mode = config.kind.exposure_mode().to_owned();
    info
}

/// An identifier holds no dot, so it is the leading label of the host name
/// that is made of it, a dot and a domain.
pub proof fn lemma_hostname_label(tunnel_id: Seq<char>, domain: Seq<char>)
    requires
        is_id_text(tunnel_id),
    ensures
        label_of(tunnel_id + "."@ + domain) == tunnel_id,
{
    reveal_strlit(".");
    let host = tunnel_id + "."@ + domain;
    let n = tunnel_id.len() as int;
    lemma_first_index_of(host, '.', n);
}

/// Two tunnels that are told apart by host name never answer to each
/// other's host name: the host names that are made of two different
/// identifiers have different leading labels.
pub proof fn lemma_no_crossing(a: Seq<char>, b: Seq<char>, domain_a: Seq<char>, domain_b: Seq<char>)
    requires
        is_id_text(a),
        is_id_text(b),
        a != b,
    ensures
        label_of(a + "."@ + domain_a) != label_of(b + "."@ + domain_b),
{
    lemma_hostname_label(a, domain_a);
    lemma_hostname_label(b, domain_b);
}

/// What creating a tunnel gives: the descriptor for the caller, and the
/// port on which the relay must now listen for the tunnel, if its kind gets
/// a TCP listener of its own.
#[derive(Debug, Clone, PartialEq, Eq)]
pub struct Created {
    pub info: TunnelInfo,
    pub listen_port: Option<u16>,
}

/// Whether `created` and the registry `after` are what registering the
/// exposed descriptor `exposed` for `config` makes of the registry
/// `before`: the tunnel is registered under its id with no client attached
/// and nothing waiting, and the caller's descriptor says in addition where
/// the client has to dial.
pub open spec fn is_registration(
    created: Created,
    after: Map<Seq<char>, TunnelStateView>,
    before: Map<Seq<char>, TunnelStateView>,
    exposed: TunnelInfo,
    config: TunnelConfig,
    state: AdminState,
) -> bool {
    &&& after == before.insert(
        exposed.tunnel_id@,
        TunnelStateView {
            info: exposed,
            config,
            control_conn: None,
            pending: Seq::<PendingConnection>::empty(),
        },
    )
    &&& created.info.tunnel_id == exposed.tunnel_id
    &&& created.info.access_token == exposed.access_token
    &&& created.info.kind == exposed.kind
    &&& created.info.public_hostname == exposed.public_hostname
    &&& created.info.public_port == exposed.public_port
    &&& created.info.exposure_mode == exposed.exposure_mode
    &&& created.info.relay_addr == Some(state.relay_domain)
    &&& created.info.relay_port == Some(state.relay_port)
    &&& created.listen_port == if exposed.kind.has_tcp_listener() {
        exposed.public_port
    } else {
        None
    }
}

/// Registers the tunnel of the exposed descriptor `exposed`.
pub fn register(
    registry: &mut TunnelRegistry,
    state: &AdminState,
    config: TunnelConfig,
    exposed: TunnelInfo,
) -> (created: Created)
    ensures
        is_registration(created, final(registry)@, old(registry)@, exposed, config, *state),
{
    let mut info = exposed.duplicate();
    let id = exposed.tunnel_id.clone();
    let listen_port = if exposed.kind.needs_tcp_listener() {
        exposed.public_port
    } else {
        None
    };
    registry.insert(id, TunnelState::new(exposed, config));
    info.relay_addr = Some(state.relay_domain.clone());
    info.relay_port = Some(state.relay_port);
    Created { info, listen_port }
}

/// Whether creating a tunnel for this request draws a random port.
pub fn needs_random_port(config: &TunnelConfig) -> (draws: bool)
    ensures
        draws == draws_port(config.kind, config.fixed_public_port),
{
    match config.kind {
        TunnelKind::TcpRaw | TunnelKind::Ssh | TunnelKind::UdpRaw => config.fixed_public_port.is_none(),
        _ => false,
    }
}

/// Creates a tunnel for `config`: mints its id and its access token,
/// decides how it is exposed, registers it, and returns its descriptor with
/// the address at which the client reaches the relay.
///
/// The identifiers and, for a request without a port, the port within the
/// kind's band are up to the random source; everything else is fixed by
/// `config` and `state`.
pub fn create_tunnel(
    registry: &mut TunnelRegistry,
    state: &AdminState,
    config: TunnelConfig,
) -> (created: Created)
    ensures
        is_id_text(created.info.tunnel_id@),
        is_id_text(created.info.access_token@),
        exists|exposed: TunnelInfo, raw: u16|
            {
                &&& #[trigger] is_exposed(
                    exposed,
                    created.info.tunnel_id,
                    created.info.access_token,
                    config,
                    *state,
                    raw,
                )
                &&& is_registration(
                    created,
                    final(registry)@,
                    old(registry)@,
                    exposed,
                    config,
                    *state,
                )
            },
{
    let blank = TunnelInfo::new(config.kind);
    let raw: u16 = if needs_random_port(&config) {
        random_u16()
    } else {
        0
    };
    let exposed = expose(blank.tunnel_id, blank.access_token, &config, state, raw);
    let ghost exposed_seen = exposed;
    let created = register(registry, state, config, exposed);
    proof {
        assert(is_exposed(
            exposed_seen,
            created.info.tunnel_id,
            created.info.access_token,
            config,
            *state,
            raw,
        ));
    }
    created
}

} // verus!
