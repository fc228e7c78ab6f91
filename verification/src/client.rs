//! The client's side of the control protocol: it holds the control channel
//! open, and for every request that arrives on it dials a data connection
//! and joins it to the local service.

use crate::proto::{AuthMode, ControlMessage, ControlMessageView, Payload, PayloadView};
use crate::text::{host_port, join_host_port};
use vstd::prelude::*;
use vstd::string::StringExecFns;

verus! {

/// Seconds between the loss of the control channel and the next attempt.
pub const RECONNECT_DELAY_SECS: u64 = 5;

/// What the client is told at start-up.
#[derive(Debug, Clone, PartialEq, Eq)]
pub struct Config {
    pub server_addr: String,
    pub tunnel_token: String,
    pub local_addr: String,
    pub local_port: u16,
}

/// Why an attempt of the client failed.
#[derive(Debug, Clone, PartialEq, Eq)]
pub enum ClientError {
    /// The relay refused the token, with the relay's message.
    AuthFailed(String),
    /// The relay answered the authentication with something else.
    UnexpectedAuthResponse,
    /// The relay answered a tunnel-mode authentication with something else
    /// than `TunnelOk`.
    ExpectedTunnelOk,
}

impl ClientError {
    /// The text of this error.
    pub open spec fn text(self) -> Seq<char> {
        match self {
            ClientError::AuthFailed(message) => "Auth failed: "@ + message@,
            ClientError::UnexpectedAuthResponse => "Unexpected auth response"@,
            ClientError::ExpectedTunnelOk => "Expected TUNNEL_OK"@,
        }
    }

    /// This error as a line of text.
    pub fn message(&self) -> (s: String)
        ensures
            s@ == self.text(),
    {
        match self {
            ClientError::AuthFailed(message) => "Auth failed: ".to_owned().concat(
                message.as_str(),
            ),
            ClientError::UnexpectedAuthResponse => "Unexpected auth response".to_owned(),
            ClientError::ExpectedTunnelOk => "Expected TUNNEL_OK".to_owned(),
        }
    }
}

/// What the answer to a control-mode authentication means: the tunnel id if
/// the relay accepted, the relay's message if it refused, and nothing if it
/// is no `AuthResult`.
pub open spec fn auth_reply_outcome(reply: ControlMessageView) -> Result<Seq<char>, Option<Seq<char>>> {
    match reply.payload {
        Some(PayloadView::AuthResult(result)) => if result.success {
            Ok(result.tunnel_id)
        } else {
            Err(Some(result.message))
        },
        _ => Err(None),
    }
}

/// Reads the answer to a control-mode authentication.
pub fn check_auth_reply(reply: &ControlMessage) -> (res: Result<String, ClientError>)
    ensures
        match res {
            Ok(tunnel_id) => auth_reply_outcome(reply@) == Ok::<Seq<char>, Option<Seq<char>>>(
                tunnel_id@,
            ),
            Err(ClientError::AuthFailed(message)) => auth_reply_outcome(reply@) == Err::<
                Seq<char>,
                Option<Seq<char>>,
            >(Some(message@)),
            Err(ClientError::UnexpectedAuthResponse) => auth_reply_outcome(reply@) == Err::<
                Seq<char>,
                Option<Seq<char>>,
            >(None),
            Err(ClientError::ExpectedTunnelOk) => false,
        },
{
    match &reply.payload {
        Some(Payload::AuthResult(result)) => {
            if result.success {
                Ok(result.tunnel_id.clone())
            } else {
                Err(ClientError::AuthFailed(result.message.clone()))
            }
        },
        _ => Err(ClientError::UnexpectedAuthResponse),
    }
}

/// The connection id of a `TunnelOk`.
pub open spec fn tunnel_ok_id(reply: ControlMessageView) -> Option<Seq<char>> {
    match reply.payload {
        Some(PayloadView::TunnelOk(ok)) => Some(ok.connection_id),
        _ => None,
    }
}

/// Reads the answer to a tunnel-mode authentication: it must be a
/// `TunnelOk`, whose connection id is returned.
pub fn check_tunnel_ok(reply: &ControlMessage) -> (res: Result<String, ClientError>)
    ensures
        match res {
            Ok(connection_id) => tunnel_ok_id(reply@) == Some(connection_id@),
            Err(e) => tunnel_ok_id(reply@) is None && e == ClientError::ExpectedTunnelOk,
        },
{
    match &reply.payload {
        Some(Payload::TunnelOk(ok)) => Ok(ok.connection_id.clone()),
        _ => Err(ClientError::ExpectedTunnelOk),
    }
}

/// Where the control loop stands.
#[derive(Debug, Clone, Copy, PartialEq, Eq, Structural)]
pub enum ClientState {
    /// No connection; the next thing is to dial the relay.
    Connecting,
    /// Connected and authenticating; the next message is the relay's answer.
    AwaitingAuth,
    /// Authenticated; every message is a request or is ignored.
    Serving,
}

/// What happened on the control connection.
#[derive(Debug, Clone, PartialEq, Eq)]
pub enum ClientEvent {
    /// The connection to the relay stands.
    Connected,
    /// A message arrived.
    Message(ControlMessage),
    /// Dialling, reading or writing failed, or the relay closed.
    Failed,
}

/// What the I/O layer is to do next.
#[derive(Debug, Clone, PartialEq, Eq)]
pub enum ClientAction {
    /// Write this message, then read.
    Send(ControlMessage),
    /// Start a data connection, independent of the control loop, then read
    /// on.
    Dial(DataConnection),
    /// Read the next message.
    Read,
    /// Close the connection, wait this many seconds, and dial again.
    RetryAfter(u64),
}

/// What a data connection task needs: where the relay is, the token to
/// present in tunnel mode, and the local service to join.
#[derive(Debug, Clone, PartialEq, Eq)]
pub struct DataConnection {
    pub server_addr: String,
    pub tunnel_token: String,
    pub local_addr: String,
    pub local_port: u16,
}

/// An action as a value.
pub enum ClientActionView {
    Send(ControlMessageView),
    Dial { server_addr: Seq<char>, tunnel_token: Seq<char>, local_addr: Seq<char>, local_port: u16 },
    Read,
    RetryAfter(u64),
}

impl View for ClientAction {
    type V = ClientActionView;

    open spec fn view(&self) -> ClientActionView {
        match self {
            ClientAction::Send(msg) => ClientActionView::Send(msg@),
            ClientAction::Dial(d) => ClientActionView::Dial {
                server_addr: d.server_addr@,
                tunnel_token: d.tunnel_token@,
                local_addr: d.local_addr@,
                local_port: d.local_port,
            },
            ClientAction::Read => ClientActionView::Read,
            ClientAction::RetryAfter(secs) => ClientActionView::RetryAfter(*secs),
        }
    }
}

/// An event as a value.
pub enum ClientEventView {
    Connected,
    Message(ControlMessageView),
    Failed,
}

impl View for ClientEvent {
    type V = ClientEventView;

    open spec fn view(&self) -> ClientEventView {
        match self {
            ClientEvent::Connected => ClientEventView::Connected,
            ClientEvent::Message(msg) => ClientEventView::Message(msg@),
            ClientEvent::Failed => ClientEventView::Failed,
        }
    }
}

/// The control loop of a client.
pub struct ControlClient {
    config: Config,
}

impl ControlClient {
    /// What this client was told at start-up.
    pub closed spec fn settings(&self) -> Config {
        self.config
    }

    /// The state that follows `state` on `event`.
    ///
    /// A connection that stands is authenticated; an accepted
    /// authentication starts the serving; whatever fails, and whatever
    /// arrives out of turn, ends the attempt, and the next one starts from
    /// the beginning.
    pub open spec fn next_state(state: ClientState, event: ClientEventView) -> ClientState {
        match (state, event) {
            (ClientState::Connecting, ClientEventView::Connected) => ClientState::AwaitingAuth,
            (ClientState::AwaitingAuth, ClientEventView::Message(reply)) => if auth_reply_outcome(
                reply,
            ) is Ok {
                ClientState::Serving
            } else {
                ClientState::Connecting
            },
            (ClientState::Serving, ClientEventView::Message(_)) => ClientState::Serving,
            _ => ClientState::Connecting,
        }
    }

    /// The action that `event` calls for in `state`.
    pub open spec fn next_action(config: Config, state: ClientState, event: ClientEventView)
        -> ClientActionView {
        match (state, event) {
            (ClientState::Connecting, ClientEventView::Connected) => ClientActionView::Send(
                ControlMessageView::client_auth(AuthMode::AuthControl, config.tunnel_token@),
            ),
            (ClientState::AwaitingAuth, ClientEventView::Message(reply)) => if auth_reply_outcome(
                reply,
            ) is Ok {
                ClientActionView::Read
            } else {
                ClientActionView::RetryAfter(RECONNECT_DELAY_SECS)
            },
            (ClientState::Serving, ClientEventView::Message(msg)) => match msg.payload {
                Some(PayloadView::OpenTunnelRequest(_)) => ClientActionView::Dial {
                    server_addr: config.server_addr@,
                    tunnel_token: config.tunnel_token@,
                    local_addr: config.local_addr@,
                    local_port: config.local_port,
                },
                _ => ClientActionView::Read,
            },
            _ => ClientActionView::RetryAfter(RECONNECT_DELAY_SECS),
        }
    }

    /// A control loop for the client configured by `config`.
    pub fn new(config: Config) -> (client: Self)
        ensures
            client.settings() == config,
    {
        Self { config }
    }

    /// What this client was told at start-up.
    pub fn config(&self) -> (config: &Config)
        ensures
            *config == self.settings(),
    {
        &self.config
    }

    /// The message that opens the control channel.
    pub fn control_auth(&self) -> (msg: ControlMessage)
        ensures
            msg@ == ControlMessageView::client_auth(
                AuthMode::AuthControl,
                self.settings().tunnel_token@,
            ),
    {
        ControlMessage::client_auth(AuthMode::AuthControl, self.config.tunnel_token.clone())
    }

    /// What a data connection task needs.
    pub fn data_connection(&self) -> (d: DataConnection)
        ensures
            d.server_addr == self.settings().server_addr,
            d.tunnel_token == self.settings().tunnel_token,
            d.local_addr == self.settings().local_addr,
            d.local_port == self.settings().local_port,
    {
        DataConnection {
            server_addr: self.config.server_addr.clone(),
            tunnel_token: self.config.tunnel_token.clone(),
            local_addr: self.config.local_addr.clone(),
            local_port: self.config.local_port,
        }
    }

    /// One step of the control loop: what to do, and where the loop stands
    /// afterwards.
    pub fn run_control_connection(&self, state: ClientState, event: &ClientEvent) -> (res: (
        ClientState,
        ClientAction,
    ))
        ensures
            ({
                let (next, action) = res;
                &&& next == Self::next_state(state, event@)
                &&& action@ == Self::next_action(self.settings(), state, event@)
            }),
    {
        match state {
            ClientState::Connecting => match event {
                ClientEvent::Connected => (
                    ClientState::AwaitingAuth,
                    ClientAction::Send(self.control_auth()),
                ),
                _ => (ClientState::Connecting, ClientAction::RetryAfter(RECONNECT_DELAY_SECS)),
            },
            ClientState::AwaitingAuth => match event {
                ClientEvent::Message(reply) => match check_auth_reply(reply) {
                    Ok(_) => (ClientState::Serving, ClientAction::Read),
                    Err(_) => (
                        ClientState::Connecting,
                        ClientAction::RetryAfter(RECONNECT_DELAY_SECS),
                    ),
                },
                _ => (ClientState::Connecting, ClientAction::RetryAfter(RECONNECT_DELAY_SECS)),
            },
            ClientState::Serving => match event {
                ClientEvent::Message(msg) => match &msg.payload {
                    Some(Payload::OpenTunnelRequest(_)) => (
                        ClientState::Serving,
                        ClientAction::Dial(self.data_connection()),
                    ),
                    _ => (ClientState::Serving, ClientAction::Read),
                },
                _ => (ClientState::Connecting, ClientAction::RetryAfter(RECONNECT_DELAY_SECS)),
            },
        }
    }
}

/// Whatever the control loop was doing, a failure ends the attempt: the
/// connection is given up, and after the fixed delay the loop starts from
/// the beginning; the first thing it does then is to authenticate.
pub proof fn lemma_failure_restarts(config: Config, state: ClientState)
    ensures
        ControlClient::next_state(state, ClientEventView::Failed) == ClientState::Connecting,
        ControlClient::next_action(config, state, ClientEventView::Failed)
            == ClientActionView::RetryAfter(RECONNECT_DELAY_SECS),
        ControlClient::next_state(ClientState::Connecting, ClientEventView::Connected)
            == ClientState::AwaitingAuth,
        ControlClient::next_action(config, ClientState::Connecting, ClientEventView::Connected)
            == ClientActionView::Send(
            ControlMessageView::client_auth(AuthMode::AuthControl, config.tunnel_token@),
        ),
{
}

impl DataConnection {
    /// The message that opens a data connection.
    pub fn tunnel_auth(&self) -> (msg: ControlMessage)
        ensures
            msg@ == ControlMessageView::client_auth(AuthMode::AuthTunnel, self.tunnel_token@),
    {
        ControlMessage::client_auth(AuthMode::AuthTunnel, self.tunnel_token.clone())
    }

    /// The address of the local service, `local_addr:local_port`.
    pub fn local_target(&self) -> (addr: String)
        ensures
            addr@ == host_port(self.local_addr@, self.local_port),
    {
        join_host_port(self.local_addr.as_str(), self.local_port)
    }
}

} // verus!
