//! The state that the relay keeps for one tunnel: its descriptor, the live
//! control channel if a client is attached, and the public connections that
//! wait for a data connection, oldest first.

use crate::types::{TunnelConfig, TunnelInfo};
use std::collections::VecDeque;
use vstd::prelude::*;

verus! {

/// The relay's end of a client's control channel. `request_tx` names the
/// bounded queue into which the dispatcher puts connection ids; the control
/// loop that owns the queue forwards them to the client.
#[derive(Debug, Clone, PartialEq, Eq)]
pub struct ControlConnection {
    pub tunnel_id: String,
    pub request_tx: u64,
}

/// A public connection that waits for its data connection. `tunnel_tx` names
/// the single-shot channel on which the ingress handler waits for the socket
/// that the client dials.
#[derive(Debug, Clone, PartialEq, Eq)]
pub struct PendingConnection {
    pub connection_id: String,
    pub tunnel_tx: u64,
}

/// One entry of the registry.
#[derive(Debug)]
pub struct TunnelState {
    pub info: TunnelInfo,
    pub config: TunnelConfig,
    pub control_conn: Option<ControlConnection>,
    pub pending_connections: VecDeque<PendingConnection>,
}

/// A tunnel's state as a value: the queue is the sequence of its slots,
/// oldest first.
pub struct TunnelStateView {
    pub info: TunnelInfo,
    pub config: TunnelConfig,
    pub control_conn: Option<ControlConnection>,
    pub pending: Seq<PendingConnection>,
}

impl TunnelStateView {
    /// This state with `conn` as its control channel.
    pub open spec fn attach(self, conn: ControlConnection) -> TunnelStateView {
        TunnelStateView { control_conn: Some(conn), ..self }
    }

    /// This state without a control channel.
    pub open spec fn detach(self) -> TunnelStateView {
        TunnelStateView { control_conn: None, ..self }
    }

    /// This state with `slot` behind all the slots that wait already.
    pub open spec fn enqueue(self, slot: PendingConnection) -> TunnelStateView {
        TunnelStateView { pending: self.pending.push(slot), ..self }
    }

    /// This state without its oldest slot.
    pub open spec fn dequeue(self) -> TunnelStateView {
        TunnelStateView { pending: self.pending.drop_first(), ..self }
    }

    /// This state without the slot at `index`.
    pub open spec fn without_slot(self, index: int) -> TunnelStateView {
        TunnelStateView { pending: self.pending.remove(index), ..self }
    }
}

impl View for TunnelState {
    type V = TunnelStateView;

    open spec fn view(&self) -> TunnelStateView {
        TunnelStateView {
            info: self.info,
            config: self.config,
            control_conn: self.control_conn,
            pending: self.pending_connections@,
        }
    }
}

impl TunnelState {
    /// The state of a tunnel that was just created: no client attached,
    /// nothing waiting.
    pub fn new(info: TunnelInfo, config: TunnelConfig) -> (state: Self)
        ensures
            state@ == (TunnelStateView {
                info,
                config,
                control_conn: None,
                pending: Seq::<PendingConnection>::empty(),
            }),
    {
        Self { info, config, control_conn: None, pending_connections: VecDeque::new() }
    }

    /// Makes `conn` the control channel of this tunnel, in place of the one
    /// it had, if any.
    pub fn set_control_connection(&mut self, conn: ControlConnection)
        ensures
            final(self)@ == old(self)@.attach(conn),
    {
        self.control_conn = Some(conn);
    }

    /// Forgets the control channel.
    pub fn remove_control_connection(&mut self)
        ensures
            final(self)@ == old(self)@.detach(),
    {
        self.control_conn = None;
    }

    /// Puts `conn` at the back of the queue.
    pub fn enqueue_pending(&mut self, conn: PendingConnection)
        ensures
            final(self)@ == old(self)@.enqueue(conn),
    {
        self.pending_connections.push_back(conn);
    }

    /// Takes the oldest slot off the queue.
    pub fn dequeue_pending(&mut self) -> (slot: Option<PendingConnection>)
        ensures
            match slot {
                Some(s) => old(self)@.pending.len() > 0 && s == old(self)@.pending[0]
                    && final(self)@ == old(self)@.dequeue(),
                None => old(self)@.pending.len() == 0 && final(self)@ == old(self)@,
            },
    {
        let slot = self.pending_connections.pop_front();
        proof {
            if slot is Some {
                assert(old(self)@.pending.drop_first() =~= old(self)@.pending.subrange(
                    1,
                    old(self)@.pending.len() as int,
                ));
            }
        }
        slot
    }
}

} // verus!
