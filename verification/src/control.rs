//! The relay's side of the control protocol: what it decides when a client
//! connects to the control port. The caller reads and writes the socket; the
//! functions here say what to write and how the registry changes.

use crate::error::NRelayError;
use crate::proto::{AuthMode, ControlMessage, ControlMessageView, Payload, PayloadView};
use crate::registry::{has_token, live_control, TunnelRegistry};
use crate::relay::{after_claim, next_claim};
use crate::tunnel::{ControlConnection, PendingConnection, TunnelStateView};
use crate::types::{is_id_text, new_id_text};
use vstd::prelude::*;

verus! {

/// Capacity of the queue of connection ids between the dispatcher and a
/// control loop.
pub const CONTROL_QUEUE_CAPACITY: usize = 32;

/// Text of the relay's answer to a control-mode authentication.
pub open spec fn control_welcome() -> Seq<char> {
    "Control authenticated"@
}

/// What the relay does with a connection whose first message it accepted.
#[derive(Debug, Clone, PartialEq, Eq)]
pub enum Admission {
    /// A control channel: write `reply`, attach a fresh queue to the tunnel,
    /// and forward every connection id that the queue yields.
    Control { tunnel_id: String, reply: ControlMessage },
    /// A data connection: write `reply`, then hand the socket to the oldest
    /// public connection that waits on the tunnel.
    Tunnel { tunnel_id: String, connection_id: String, reply: ControlMessage },
}

/// The token that a first message presents, if it is a `ClientAuth`.
pub open spec fn presented_token(first: ControlMessageView) -> Option<Seq<char>> {
    match first.payload {
        Some(PayloadView::Auth(auth)) => Some(auth.tunnel_token),
        _ => None,
    }
}

/// The mode that a first message asks for, if it is a `ClientAuth`.
pub open spec fn presented_mode(first: ControlMessageView) -> Option<AuthMode> {
    match first.payload {
        Some(PayloadView::Auth(auth)) => Some(AuthMode::of_number(auth.mode as int)),
        _ => None,
    }
}

/// Whether the relay answers the first message `first` with a `TunnelOk`:
/// it is a tunnel-mode `ClientAuth` whose token is that of a registered
/// tunnel.
pub open spec fn earns_tunnel_ok(first: ControlMessageView, tunnels: Map<Seq<char>, TunnelStateView>)
    -> bool {
    match presented_token(first) {
        Some(token) => presented_mode(first) == Some(AuthMode::AuthTunnel) && has_token(
            tunnels,
            token,
        ),
        None => false,
    }
}

/// Looks up the tunnel whose access token `token` is.
pub fn validate_auth(token: &str, registry: &TunnelRegistry) -> (res: Result<String, NRelayError>)
    ensures
        match res {
            Ok(id) => registry@.contains_key(id@) && registry@[id@].info.access_token@ == token@,
            Err(e) => !has_token(registry@, token@) && e.is_auth("Invalid token"@),
        },
{
    match registry.find_by_token(token) {
        Some(id) => Ok(id),
        None => Err(NRelayError::Auth("Invalid token".to_owned())),
    }
}

/// Checks the first message of a connection: it must be a `ClientAuth`, and
/// its token must be that of a registered tunnel. Gives the tunnel and the
/// mode asked for.
pub fn authenticate(first: &ControlMessage, registry: &TunnelRegistry) -> (res: Result<
    (String, AuthMode),
    NRelayError,
>)
    ensures
        match res {
            Ok((id, mode)) => {
                &&& presented_mode(first@) == Some(mode)
                &&& registry@.contains_key(id@)
                &&& Some(registry@[id@].info.access_token@) == presented_token(first@)
            },
            Err(e) => match presented_token(first@) {
                None => e.is_protocol("Expected auth message"@),
                Some(token) => !has_token(registry@, token) && e.is_auth("Invalid token"@),
            },
        },
{
    match &first.payload {
        Some(Payload::Auth(auth)) => {
            match validate_auth(auth.tunnel_token.as_str(), registry) {
                Ok(id) => Ok((id, auth.mode())),
                Err(e) => Err(e),
            }
        },
        _ => Err(NRelayError::Protocol("Expected auth message".to_owned())),
    }
}

/// The admission of a control channel for the tunnel `tunnel_id`.
pub fn admit_control(tunnel_id: String) -> (admission: Admission)
    ensures
        match admission {
            Admission::Control { tunnel_id: id, reply } => id@ == tunnel_id@ && reply@
                == ControlMessageView::auth_result(true, control_welcome(), tunnel_id@),
            _ => false,
        },
{
    let reply = ControlMessage::auth_result(
        true,
        "Control authenticated".to_owned(),
        tunnel_id.clone(),
    );
    Admission::Control { tunnel_id, reply }
}

/// The admission of a data connection for the tunnel `tunnel_id`, under the
/// connection id `connection_id`.
pub fn admit_tunnel(tunnel_id: String, connection_id: String) -> (admission: Admission)
    ensures
        match admission {
            Admission::Tunnel { tunnel_id: id, connection_id: cid, reply } => id@ == tunnel_id@
                && cid@ == connection_id@ && reply@ == ControlMessageView::tunnel_ok(
                connection_id@,
            ),
            _ => false,
        },
{
    let reply = ControlMessage::tunnel_ok(connection_id.clone());
    Admission::Tunnel { tunnel_id, connection_id, reply }
}

/// Decides what to do with a connection from its first message.
///
/// A message that is no `ClientAuth` is a protocol error, an unknown token
/// an authentication error; in both cases nothing is written and the
/// connection is closed. A control-mode request is answered with an
/// `AuthResult`, a tunnel-mode request with a `TunnelOk` that carries a
/// freshly minted connection id.
pub fn handle_client_inner(first: &ControlMessage, registry: &TunnelRegistry) -> (res: Result<
    Admission,
    NRelayError,
>)
    ensures
        earns_tunnel_ok(first@, registry@) <==> (match res {
            Ok(Admission::Tunnel { .. }) => true,
            _ => false,
        }),
        match res {
            Ok(Admission::Control { tunnel_id, reply }) => {
                &&& presented_mode(first@) == Some(AuthMode::AuthControl)
                &&& registry@.contains_key(tunnel_id@)
                &&& Some(registry@[tunnel_id@].info.access_token@) == presented_token(first@)
                &&& reply@ == ControlMessageView::auth_result(true, control_welcome(), tunnel_id@)
            },
            Ok(Admission::Tunnel { tunnel_id, connection_id, reply }) => {
                &&& earns_tunnel_ok(first@, registry@)
                &&& registry@.contains_key(tunnel_id@)
                &&& Some(registry@[tunnel_id@].info.access_token@) == presented_token(first@)
                &&& is_id_text(connection_id@)
                &&& reply@ == ControlMessageView::tunnel_ok(connection_id@)
            },
            Err(e) => {
                &&& !earns_tunnel_ok(first@, registry@)
                &&& match presented_token(first@) {
                    None => e.is_protocol("Expected auth message"@),
                    Some(token) => !has_token(registry@, token) && e.is_auth("Invalid token"@),
                }
            },
        },
{
    match authenticate(first, registry) {
        Ok((tunnel_id, mode)) => match mode {
            AuthMode::AuthControl => Ok(admit_control(tunnel_id)),
            AuthMode::AuthTunnel => {
                let connection_id = new_id_text();
                Ok(admit_tunnel(tunnel_id, connection_id))
            },
        },
        Err(e) => Err(e),
    }
}

/// Attaches the queue `request_tx` to the tunnel as its control channel, in
/// place of the one it had, if any. Returns whether the tunnel still
/// exists; nothing changes if it does not.
pub fn begin_control_session(
    registry: &mut TunnelRegistry,
    tunnel_id: &str,
    request_tx: u64,
) -> (known: bool)
    ensures
        known == old(registry)@.contains_key(tunnel_id@),
        !known ==> final(registry)@ == old(registry)@,
        known ==> exists|conn: ControlConnection|
            {
                &&& conn.request_tx == request_tx
                &&& conn.tunnel_id@ == tunnel_id@
                &&& final(registry)@ == old(registry)@.insert(
                    tunnel_id@,
                    #[trigger] old(registry)@[tunnel_id@].attach(conn),
                )
            },
{
    let conn = ControlConnection { tunnel_id: tunnel_id.to_owned(), request_tx };
    let known = registry.attach_control(tunnel_id, conn);
    known
}

/// The message that asks the client of the tunnel `tunnel_id` to dial a data
/// connection for the public connection `connection_id`.
pub fn open_tunnel_request(tunnel_id: &str, connection_id: String) -> (msg: ControlMessage)
    ensures
        msg@ == ControlMessageView::open_tunnel_request(tunnel_id@, connection_id@),
{
    ControlMessage::open_tunnel_request(tunnel_id.to_owned(), connection_id)
}

/// What happened in a control session.
#[derive(Debug, Clone, PartialEq, Eq)]
pub enum SessionEvent {
    /// The queue yielded the connection id of a public connection.
    Request(String),
    /// The queue is closed and empty.
    QueueClosed,
    /// The last request could not be written to the client.
    WriteFailed,
}

/// What a control session does next.
#[derive(Debug, Clone, PartialEq, Eq)]
pub enum SessionAction {
    /// Write this message to the client, then take the next connection id
    /// from the queue.
    Forward(ControlMessage),
    /// Leave the loop and end the session.
    End,
}

/// One step of the loop of a control session: every connection id that the
/// queue yields goes to the client as an `OpenTunnelRequest`, in the order
/// in which the queue yields them; the loop ends when the queue is closed
/// or a write fails.
pub fn control_session_step(tunnel_id: &str, event: SessionEvent) -> (action: SessionAction)
    ensures
        match event {
            SessionEvent::Request(connection_id) => match action {
                SessionAction::Forward(msg) => msg@ == ControlMessageView::open_tunnel_request(
                    tunnel_id@,
                    connection_id@,
                ),
                SessionAction::End => false,
            },
            _ => action == SessionAction::End,
        },
{
    match event {
        SessionEvent::Request(connection_id) => SessionAction::Forward(
            open_tunnel_request(tunnel_id, connection_id),
        ),
        _ => SessionAction::End,
    }
}

/// Ends the control session that owns the queue `request_tx`: the tunnel
/// loses its control channel, unless a newer session has replaced this one
/// in the meantime. Returns whether the channel was detached.
pub fn end_control_session(
    registry: &mut TunnelRegistry,
    tunnel_id: &str,
    request_tx: u64,
) -> (released: bool)
    ensures
        released == (live_control(old(registry)@, tunnel_id@) == Some(request_tx)),
        final(registry)@ == if released {
            old(registry)@.insert(tunnel_id@, old(registry)@[tunnel_id@].detach())
        } else {
            old(registry)@
        },
{
    registry.release_control(tunnel_id, request_tx)
}

/// Pairs a data connection with the public connection that has waited
/// longest on the tunnel. `Ok(None)` says that none waits any more: the
/// ingress handler gave up, and the data connection is closed.
pub fn handle_tunnel_connection(registry: &mut TunnelRegistry, tunnel_id: &str) -> (res: Result<
    Option<PendingConnection>,
    NRelayError,
>)
    ensures
        final(registry)@ == after_claim(old(registry)@, tunnel_id@),
        res is Ok ==> res == Ok::<Option<PendingConnection>, NRelayError>(
            next_claim(old(registry)@, tunnel_id@),
        ),
        match res {
            Ok(Some(slot)) => {
                &&& old(registry)@.contains_key(tunnel_id@)
                &&& old(registry)@[tunnel_id@].pending.len() > 0
                &&& slot == old(registry)@[tunnel_id@].pending[0]
                &&& final(registry)@ == old(registry)@.insert(
                    tunnel_id@,
                    old(registry)@[tunnel_id@].dequeue(),
                )
            },
            Ok(None) => {
                &&& old(registry)@.contains_key(tunnel_id@)
                &&& old(registry)@[tunnel_id@].pending.len() == 0
                &&& final(registry)@ == old(registry)@
            },
            Err(e) => {
                &&& !old(registry)@.contains_key(tunnel_id@)
                &&& e.is_tunnel_not_found(tunnel_id@)
                &&& final(registry)@ == old(registry)@
            },
        },
{
    if !registry.contains(tunnel_id) {
        return Err(NRelayError::TunnelNotFound(tunnel_id.to_owned()));
    }
    Ok(registry.dequeue_pending(tunnel_id))
}

} // verus!
