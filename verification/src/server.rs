//! What the relay is started with, and what its listeners and its admin
//! endpoint are given from that.

use crate::admin::AdminState;
use crate::error::NRelayError;
use crate::registry::TunnelRegistry;
use crate::text::{host_port, join_host_port};
use crate::tunnel::TunnelStateView;
use vstd::prelude::*;

verus! {

/// Default port of the control listener.
pub const DEFAULT_RELAY_PORT: u16 = 7000;

/// Default port of the admin listener.
pub const DEFAULT_ADMIN_PORT: u16 = 7001;

/// Port of the shared HTTP listener.
pub const HTTP_PORT: u16 = 80;

/// Port of the shared HTTPS listener.
pub const HTTPS_PORT: u16 = 443;

/// What the relay is told at start-up.
#[derive(Debug, Clone, PartialEq, Eq)]
pub struct Config {
    pub relay_bind: String,
    pub relay_port: u16,
    pub admin_bind: String,
    pub admin_port: u16,
    pub admin_token: Option<String>,
    pub relay_domain: String,
}

/// What the relay says when it is started without an admin token.
pub open spec fn missing_token_text() -> Seq<char> {
    "Admin token not provided. Set --admin-token, NRELAY_ADMIN_TOKEN env var, or .env file"@
}

impl Config {
    /// The admin token; a configuration error if none was given.
    pub fn admin_token(&self) -> (res: Result<String, NRelayError>)
        ensures
            match res {
                Ok(token) => self.admin_token == Some(token),
                Err(e) => self.admin_token is None && e.is_config(missing_token_text()),
            },
    {
        match &self.admin_token {
            Some(token) => Ok(token.clone()),
            None => Err(
                NRelayError::Config(
                    "Admin token not provided. Set --admin-token, NRELAY_ADMIN_TOKEN env var, or .env file".to_owned(),
                ),
            ),
        }
    }
}

/// The relay before it listens: its configuration, checked, and its
/// registry, empty.
pub struct RelayServer {
    config: Config,
    tunnels: TunnelRegistry,
}

impl RelayServer {
    /// The configuration of this relay.
    pub closed spec fn settings(&self) -> Config {
        self.config
    }

    /// The tunnels of this relay.
    pub closed spec fn registered(&self) -> Map<Seq<char>, TunnelStateView> {
        self.tunnels@
    }

    /// A relay with the configuration given and no tunnels. Fails with a
    /// configuration error if the configuration holds no admin token.
    pub fn new(config: Config) -> (res: Result<Self, NRelayError>)
        ensures
            match res {
                Ok(server) => config.admin_token is Some && server.settings() == config
                    && server.registered() == Map::<Seq<char>, TunnelStateView>::empty(),
                Err(e) => config.admin_token is None && e.is_config(missing_token_text()),
            },
    {
        match config.admin_token() {
            Ok(_) => Ok(Self { config, tunnels: TunnelRegistry::new() }),
            Err(e) => Err(e),
        }
    }

    /// The address of the control listener.
    pub fn control_addr(&self) -> (addr: String)
        ensures
            addr@ == host_port(self.settings().relay_bind@, self.settings().relay_port),
    {
        join_host_port(self.config.relay_bind.as_str(), self.config.relay_port)
    }

    /// The address of the admin listener.
    pub fn admin_addr(&self) -> (addr: String)
        ensures
            addr@ == host_port(self.settings().admin_bind@, self.settings().admin_port),
    {
        join_host_port(self.config.admin_bind.as_str(), self.config.admin_port)
    }

    /// What the admin endpoint is given: the admin token, the domain under
    /// which tunnels get their host names, the shared ports, and the
    /// address at which clients reach the relay.
    pub fn admin_state(&self) -> (res: Result<AdminState, NRelayError>)
        ensures
            match res {
                Ok(state) => {
                    &&& self.settings().admin_token == Some(state.admin_token)
                    &&& state.public_domain == self.settings().relay_domain
                    &&& state.relay_domain == self.settings().relay_domain
                    &&& state.http_port == HTTP_PORT
                    &&& state.https_port == HTTPS_PORT
                    &&& state.relay_port == self.settings().relay_port
                },
                Err(e) => self.settings().admin_token is None && e.is_config(missing_token_text()),
            },
    {
        match self.config.admin_token() {
            Ok(admin_token) => Ok(
                AdminState {
                    admin_token,
                    public_domain: self.config.relay_domain.clone(),
                    http_port: HTTP_PORT,
                    https_port: HTTPS_PORT,
                    relay_domain: self.config.relay_domain.clone(),
                    relay_port: self.config.relay_port,
                },
            ),
            Err(e) => Err(e),
        }
    }

    /// Hands out the configuration and the registry, for the listeners to
    /// share.
    pub fn into_parts(self) -> (parts: (Config, TunnelRegistry))
        ensures
            ({
                let (config, tunnels) = parts;
                config == self.settings() && tunnels@ == self.registered()
            }),
    {
        (self.config, self.tunnels)
    }
}

/// The address on which a listener for all interfaces binds the port
/// `port`.
pub open spec fn any_interface(port: u16) -> Seq<char> {
    host_port("0.0.0.0"@, port)
}

/// The address of the listener of a tunnel that is exposed on `port`.
pub fn tcp_listener_addr(port: u16) -> (addr: String)
    ensures
        addr@ == any_interface(port),
{
    join_host_port("0.0.0.0", port)
}

/// The address of the shared HTTP listener.
pub fn http_listener_addr() -> (addr: String)
    ensures
        addr@ == any_interface(HTTP_PORT),
{
    join_host_port("0.0.0.0", HTTP_PORT)
}

/// The address of the shared TLS listener.
pub fn https_listener_addr() -> (addr: String)
    ensures
        addr@ == any_interface(HTTPS_PORT),
{
    join_host_port("0.0.0.0", HTTPS_PORT)
}

} // verus!
