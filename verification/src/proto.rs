//! The messages of the control plane.

use vstd::prelude::*;

verus! {

/// What a connection to the relay's control port is for.
#[derive(Debug, Clone, Copy, PartialEq, Eq, Structural)]
pub enum AuthMode {
    /// The long-lived control channel of a tunnel.
    AuthControl,
    /// A data connection that carries one proxied session.
    AuthTunnel,
}

impl AuthMode {
    /// The number that stands for this mode on the wire.
    pub open spec fn number(self) -> int {
        match self {
            AuthMode::AuthControl => 0,
            AuthMode::AuthTunnel => 1,
        }
    }

    /// The mode that a number on the wire stands for. A number that stands
    /// for no mode reads as the first mode.
    pub open spec fn of_number(n: int) -> AuthMode {
        if n == 1 {
            AuthMode::AuthTunnel
        } else {
            AuthMode::AuthControl
        }
    }

    /// The number that stands for this mode on the wire.
    pub fn to_i32(self) -> (n: i32)
        ensures
            n == self.number(),
    {
        match self {
            AuthMode::AuthControl => 0,
            AuthMode::AuthTunnel => 1,
        }
    }

    /// The mode that a number on the wire stands for.
    pub fn from_i32(n: i32) -> (mode: AuthMode)
        ensures
            mode == AuthMode::of_number(n as int),
    {
        if n == 1 {
            AuthMode::AuthTunnel
        } else {
            AuthMode::AuthControl
        }
    }
}

/// First message of every connection: the mode and the tunnel's token.
#[derive(Debug, Clone, PartialEq, Eq)]
pub struct ClientAuth {
    pub mode: i32,
    pub tunnel_token: String,
}

/// The relay's answer to a control-mode `ClientAuth`.
#[derive(Debug, Clone, PartialEq, Eq)]
pub struct AuthResult {
    pub success: bool,
    pub message: String,
    pub tunnel_id: String,
}

/// Asks the client to dial a data connection for one public connection.
#[derive(Debug, Clone, PartialEq, Eq)]
pub struct OpenTunnelRequest {
    pub tunnel_id: String,
    pub connection_id: String,
}

/// The relay's answer to a tunnel-mode `ClientAuth`.
#[derive(Debug, Clone, PartialEq, Eq)]
pub struct TunnelOk {
    pub connection_id: String,
}

/// The one thing that a control message carries.
#[derive(Debug, Clone, PartialEq, Eq)]
pub enum Payload {
    Auth(ClientAuth),
    AuthResult(AuthResult),
    OpenTunnelRequest(OpenTunnelRequest),
    TunnelOk(TunnelOk),
}

/// A control message. One without a payload can be written down but means
/// nothing: on either side it is a protocol error.
#[derive(Debug, Clone, PartialEq, Eq)]
pub struct ControlMessage {
    pub payload: Option<Payload>,
}

/// A `ClientAuth` as a value.
pub struct ClientAuthView {
    pub mode: i32,
    pub tunnel_token: Seq<char>,
}

/// An `AuthResult` as a value.
pub struct AuthResultView {
    pub success: bool,
    pub message: Seq<char>,
    pub tunnel_id: Seq<char>,
}

/// An `OpenTunnelRequest` as a value.
pub struct OpenTunnelRequestView {
    pub tunnel_id: Seq<char>,
    pub connection_id: Seq<char>,
}

/// A `TunnelOk` as a value.
pub struct TunnelOkView {
    pub connection_id: Seq<char>,
}

/// A payload as a value.
pub enum PayloadView {
    Auth(ClientAuthView),
    AuthResult(AuthResultView),
    OpenTunnelRequest(OpenTunnelRequestView),
    TunnelOk(TunnelOkView),
}

/// A control message as a value.
pub struct ControlMessageView {
    pub payload: Option<PayloadView>,
}

impl View for ClientAuth {
    type V = ClientAuthView;

    open spec fn view(&self) -> ClientAuthView {
        ClientAuthView { mode: self.mode, tunnel_token: self.tunnel_token@ }
    }
}

impl View for AuthResult {
    type V = AuthResultView;

    open spec fn view(&self) -> AuthResultView {
        AuthResultView {
            success: self.success,
            message: self.message@,
            tunnel_id: self.tunnel_id@,
        }
    }
}

impl View for OpenTunnelRequest {
    type V = OpenTunnelRequestView;

    open spec fn view(&self) -> OpenTunnelRequestView {
        OpenTunnelRequestView { tunnel_id: self.tunnel_id@, connection_id: self.connection_id@ }
    }
}

impl View for TunnelOk {
    type V = TunnelOkView;

    open spec fn view(&self) -> TunnelOkView {
        TunnelOkView { connection_id: self.connection_id@ }
    }
}

impl View for Payload {
    type V = PayloadView;

    open spec fn view(&self) -> PayloadView {
        match self {
            Payload::Auth(m) => PayloadView::Auth(m@),
            Payload::AuthResult(m) => PayloadView::AuthResult(m@),
            Payload::OpenTunnelRequest(m) => PayloadView::OpenTunnelRequest(m@),
            Payload::TunnelOk(m) => PayloadView::TunnelOk(m@),
        }
    }
}

impl View for ControlMessage {
    type V = ControlMessageView;

    open spec fn view(&self) -> ControlMessageView {
        ControlMessageView {
            payload: match self.payload {
                Some(p) => Some(p@),
                None => None,
            },
        }
    }
}

impl ClientAuth {
    /// The mode of this request.
    pub fn mode(&self) -> (mode: AuthMode)
        ensures
            mode == AuthMode::of_number(self.mode as int),
    {
        AuthMode::from_i32(self.mode)
    }
}

impl ControlMessageView {
    /// The message that carries `p`.
    pub open spec fn of(p: PayloadView) -> ControlMessageView {
        ControlMessageView { payload: Some(p) }
    }

    /// A `ClientAuth` with the mode and token given.
    pub open spec fn client_auth(mode: AuthMode, token: Seq<char>) -> ControlMessageView {
        Self::of(
            PayloadView::Auth(ClientAuthView { mode: mode.number() as i32, tunnel_token: token }),
        )
    }

    /// An `AuthResult` with the fields given.
    pub open spec fn auth_result(success: bool, message: Seq<char>, tunnel_id: Seq<char>)
        -> ControlMessageView {
        Self::of(PayloadView::AuthResult(AuthResultView { success, message, tunnel_id }))
    }

    /// An `OpenTunnelRequest` with the ids given.
    pub open spec fn open_tunnel_request(tunnel_id: Seq<char>, connection_id: Seq<char>)
        -> ControlMessageView {
        Self::of(
            PayloadView::OpenTunnelRequest(OpenTunnelRequestView { tunnel_id, connection_id }),
        )
    }

    /// A `TunnelOk` with the connection id given.
    pub open spec fn tunnel_ok(connection_id: Seq<char>) -> ControlMessageView {
        Self::of(PayloadView::TunnelOk(TunnelOkView { connection_id }))
    }
}

impl ControlMessage {
    /// A `ClientAuth` with the mode and token given.
    pub fn client_auth(mode: AuthMode, token: String) -> (msg: Self)
        ensures
            msg@ == ControlMessageView::client_auth(mode, token@),
    {
        ControlMessage {
            payload: Some(Payload::Auth(ClientAuth { mode: mode.to_i32(), tunnel_token: token })),
        }
    }

    /// An `AuthResult` with the fields given.
    pub fn auth_result(success: bool, message: String, tunnel_id: String) -> (msg: Self)
        ensures
            msg@ == ControlMessageView::auth_result(success, message@, tunnel_id@),
    {
        ControlMessage {
            payload: Some(Payload::AuthResult(AuthResult { success, message, tunnel_id })),
        }
    }

    /// An `OpenTunnelRequest` with the ids given.
    pub fn open_tunnel_request(tunnel_id: String, connection_id: String) -> (msg: Self)
        ensures
            msg@ == ControlMessageView::open_tunnel_request(tunnel_id@, connection_id@),
    {
        ControlMessage {
            payload: Some(
                Payload::OpenTunnelRequest(OpenTunnelRequest { tunnel_id, connection_id }),
            ),
        }
    }

    /// A `TunnelOk` with the connection id given.
    pub fn tunnel_ok(connection_id: String) -> (msg: Self)
        ensures
            msg@ == ControlMessageView::tunnel_ok(connection_id@),
    {
        ControlMessage { payload: Some(Payload::TunnelOk(TunnelOk { connection_id })) }
    }
}

} // verus!
