//! The public side of the relay: which tunnel a public connection belongs
//! to, and the rendezvous that pairs it with a data connection dialled by
//! the tunnel's client.

use crate::http::{http_host, HttpSniffer};
use crate::minecraft::{handshake_server_address, MinecraftSniffer};
use crate::registry::{
    answers_to, has_answer, live_control, slot_index, SharedListener, TunnelRegistry,
};
use crate::sni::{sni_hostname, TlsSniSniffer};
use crate::text::{label_of, leading_label, opt_view};
use crate::tunnel::{PendingConnection, TunnelStateView};
use crate::types::{is_id_text, new_id_text};
use vstd::prelude::*;

verus! {

/// Seconds that an ingress handler waits for its data connection.
pub const RENDEZVOUS_TIMEOUT_SECS: u64 = 30;

/// Size of the transfer buffer of each direction of the pump.
pub const PUMP_BUFFER_SIZE: usize = 8192;

/// Largest number of bytes that a shared listener reads at once while it
/// sniffs.
pub const SNIFF_CHUNK_SIZE: usize = 4096;

/// Number of bytes after which a shared listener gives up on a connection
/// that has not shown its routing key.
pub const SNIFF_LIMIT: usize = 8192;

/// What a shared listener does next with a connection that it sniffs.
#[derive(Debug, Clone, PartialEq, Eq)]
pub enum SniffStep {
    /// The peer closed before it showed a routing key.
    Closed,
    /// The routing key is known; route the connection.
    Routed(String),
    /// No routing key yet; read another chunk.
    Wait,
    /// No routing key within the limit; drop the connection.
    Drop,
}

/// What a listener does after a read, given what the sniffer found in the
/// `buffered` bytes that it has seen.
pub open spec fn sniff_outcome(found: Option<Seq<char>>, buffered: nat) -> SniffStepView {
    match found {
        Some(key) => SniffStepView::Routed(key),
        None => if buffered >= SNIFF_LIMIT {
            SniffStepView::Drop
        } else {
            SniffStepView::Wait
        },
    }
}

/// A `SniffStep` as a value.
pub enum SniffStepView {
    Closed,
    Routed(Seq<char>),
    Wait,
    Drop,
}

impl View for SniffStep {
    type V = SniffStepView;

    open spec fn view(&self) -> SniffStepView {
        match self {
            SniffStep::Closed => SniffStepView::Closed,
            SniffStep::Routed(key) => SniffStepView::Routed(key@),
            SniffStep::Wait => SniffStepView::Wait,
            SniffStep::Drop => SniffStepView::Drop,
        }
    }
}

/// Number of bytes that a shared listener asks for with its next read when
/// it has `buffered` bytes already: a chunk, or what is left to the limit if
/// that is less; nothing once the limit is reached.
pub fn next_read_size(buffered: usize) -> (n: usize)
    ensures
        n == if buffered >= SNIFF_LIMIT {
            0
        } else if SNIFF_LIMIT - buffered < SNIFF_CHUNK_SIZE {
            SNIFF_LIMIT - buffered
        } else {
            SNIFF_CHUNK_SIZE as int
        },
        buffered < SNIFF_LIMIT ==> 0 < n && buffered + n <= SNIFF_LIMIT,
{
    if buffered >= SNIFF_LIMIT {
        0
    } else if SNIFF_LIMIT - buffered < SNIFF_CHUNK_SIZE {
        SNIFF_LIMIT - buffered
    } else {
        SNIFF_CHUNK_SIZE
    }
}

/// Decides what follows a read from what the sniffer found.
pub fn sniff_decision(found: Option<String>, buffered: usize) -> (step: SniffStep)
    ensures
        step@ == sniff_outcome(opt_view(found), buffered as nat),
{
    match found {
        Some(key) => SniffStep::Routed(key),
        None => if buffered >= SNIFF_LIMIT {
            SniffStep::Drop
        } else {
            SniffStep::Wait
        },
    }
}

/// One turn of the shared HTTP listener: `chunk` is what the read returned,
/// empty at the end of the stream. The chunk goes to the sniffer, and the
/// sniffer's buffer stays everything that was read, in order.
pub fn http_ingress_step(sniffer: &mut HttpSniffer, chunk: &[u8]) -> (step: SniffStep)
    ensures
        if chunk@.len() == 0 {
            &&& step@ == SniffStepView::Closed
            &&& final(sniffer).buffered() == old(sniffer).buffered()
            &&& final(sniffer).found() == old(sniffer).found()
        } else {
            let buffer = old(sniffer).buffered() + chunk@;
            let host = match old(sniffer).found() {
                Some(host) => Some(host),
                None => http_host(buffer),
            };
            &&& step@ == sniff_outcome(host, buffer.len())
            &&& final(sniffer).buffered() == buffer
            &&& final(sniffer).found() == host
        },
{
    if chunk.len() == 0 {
        return SniffStep::Closed;
    }
    sniffer.feed(chunk);
    let found = sniffer.extract_host();
    sniff_decision(found, sniffer.consumed_bytes().len())
}

/// One turn of the shared TLS listener: `chunk` is what the read returned,
/// empty at the end of the stream.
pub fn tls_ingress_step(sniffer: &mut TlsSniSniffer, chunk: &[u8]) -> (step: SniffStep)
    ensures
        if chunk@.len() == 0 {
            &&& step@ == SniffStepView::Closed
            &&& final(sniffer).buffered() == old(sniffer).buffered()
        } else {
            let buffer = old(sniffer).buffered() + chunk@;
            &&& step@ == sniff_outcome(sni_hostname(buffer), buffer.len())
            &&& final(sniffer).buffered() == buffer
        },
{
    if chunk.len() == 0 {
        return SniffStep::Closed;
    }
    sniffer.feed(chunk);
    let found = sniffer.extract_sni();
    sniff_decision(found, sniffer.consumed_bytes().len())
}

/// One turn of the shared Minecraft listener: `chunk` is what the read
/// returned, empty at the end of the stream.
pub fn minecraft_ingress_step(sniffer: &mut MinecraftSniffer, chunk: &[u8]) -> (step: SniffStep)
    ensures
        if chunk@.len() == 0 {
            &&& step@ == SniffStepView::Closed
            &&& final(sniffer).buffered() == old(sniffer).buffered()
        } else {
            let buffer = old(sniffer).buffered() + chunk@;
            &&& step@ == sniff_outcome(handshake_server_address(buffer), buffer.len())
            &&& final(sniffer).buffered() == buffer
        },
{
    if chunk.len() == 0 {
        return SniffStep::Closed;
    }
    sniffer.feed(chunk);
    let found = sniffer.extract_server_address();
    sniff_decision(found, sniffer.consumed_bytes().len())
}

/// The tunnel label of a host name: its leading DNS label.
pub fn extract_tunnel_id(host: &str) -> (label: String)
    ensures
        label@ == label_of(host@),
{
    leading_label(host)
}

/// Finds the tunnel that a connection on `listener` belongs to, from the
/// name that its first bytes carried.
pub fn route_by_host(
    registry: &TunnelRegistry,
    listener: SharedListener,
    host: &str,
) -> (res: Option<String>)
    ensures
        match res {
            Some(id) => registry@.contains_key(id@) && answers_to(
                registry@[id@],
                listener,
                label_of(host@),
            ),
            None => !has_answer(registry@, listener, label_of(host@)),
        },
{
    let label = extract_tunnel_id(host);
    registry.find_by_label(listener, label.as_str())
}

/// What the dispatcher asks of the I/O layer for one public connection: put
/// `connection_id` into the queue `request_tx`, then wait for the data
/// connection.
#[derive(Debug, Clone, PartialEq, Eq)]
pub struct Rendezvous {
    pub tunnel_id: String,
    pub connection_id: String,
    pub request_tx: u64,
}

/// The registry after a public connection for the tunnel `id` has arrived
/// with the slot `slot`: the slot is queued if a client is attached, and
/// nothing changes otherwise.
pub open spec fn after_arrival(
    tunnels: Map<Seq<char>, TunnelStateView>,
    id: Seq<char>,
    slot: PendingConnection,
) -> Map<Seq<char>, TunnelStateView> {
    if live_control(tunnels, id) is Some {
        tunnels.insert(id, tunnels[id].enqueue(slot))
    } else {
        tunnels
    }
}

/// Starts the rendezvous for a public connection of the tunnel
/// `tunnel_id`, under the connection id given.
///
/// If a client is attached, the slot is put at the back of the tunnel's
/// queue and the request for the control channel is returned: the slot is
/// in the queue before the request can leave. If no client is attached, or
/// the tunnel is gone, nothing is queued and nothing is requested.
pub fn begin_rendezvous(
    registry: &mut TunnelRegistry,
    tunnel_id: &str,
    connection_id: String,
    tunnel_tx: u64,
) -> (res: Option<Rendezvous>)
    ensures
        final(registry)@ == after_arrival(
            old(registry)@,
            tunnel_id@,
            PendingConnection { connection_id, tunnel_tx },
        ),
        match res {
            Some(r) => {
                &&& live_control(old(registry)@, tunnel_id@) == Some(r.request_tx)
                &&& r.tunnel_id@ == tunnel_id@
                &&& r.connection_id == connection_id
            },
            None => live_control(old(registry)@, tunnel_id@) is None,
        },
{
    match registry.control_channel(tunnel_id) {
        Some(request_tx) => {
            let slot = PendingConnection { connection_id: connection_id.clone(), tunnel_tx };
            registry.enqueue_pending(tunnel_id, slot);
            Some(Rendezvous { tunnel_id: tunnel_id.to_owned(), connection_id, request_tx })
        },
        None => None,
    }
}

/// Starts the rendezvous for a public connection of the tunnel `tunnel_id`
/// under a freshly minted connection id.
pub fn open_rendezvous(
    registry: &mut TunnelRegistry,
    tunnel_id: &str,
    tunnel_tx: u64,
) -> (res: Option<Rendezvous>)
    ensures
        match res {
            Some(r) => {
                &&& live_control(old(registry)@, tunnel_id@) == Some(r.request_tx)
                &&& r.tunnel_id@ == tunnel_id@
                &&& is_id_text(r.connection_id@)
                &&& final(registry)@ == after_arrival(
                    old(registry)@,
                    tunnel_id@,
                    PendingConnection { connection_id: r.connection_id, tunnel_tx },
                )
            },
            None => {
                &&& live_control(old(registry)@, tunnel_id@) is None
                &&& final(registry)@ == old(registry)@
            },
        },
{
    if registry.control_channel(tunnel_id).is_none() {
        return None;
    }
    let connection_id = new_id_text();
    begin_rendezvous(registry, tunnel_id, connection_id, tunnel_tx)
}

/// Routes a connection of a shared listener by the name that its first
/// bytes carried, and starts its rendezvous. `None` says that the connection
/// is to be dropped: no tunnel answers to the name, or no client is attached
/// to the tunnel that does.
pub fn dispatch(
    registry: &mut TunnelRegistry,
    listener: SharedListener,
    host: &str,
    tunnel_tx: u64,
) -> (res: Option<Rendezvous>)
    ensures
        match res {
            Some(r) => {
                &&& old(registry)@.contains_key(r.tunnel_id@)
                &&& answers_to(old(registry)@[r.tunnel_id@], listener, label_of(host@))
                &&& live_control(old(registry)@, r.tunnel_id@) == Some(r.request_tx)
                &&& is_id_text(r.connection_id@)
                &&& final(registry)@ == after_arrival(
                    old(registry)@,
                    r.tunnel_id@,
                    PendingConnection { connection_id: r.connection_id, tunnel_tx },
                )
            },
            None => {
                &&& final(registry)@ == old(registry)@
                &&& has_answer(old(registry)@, listener, label_of(host@)) ==> exists|
                    id: Seq<char>,
                |
                    #[trigger] old(registry)@.contains_key(id) && answers_to(
                        old(registry)@[id],
                        listener,
                        label_of(host@),
                    ) && live_control(old(registry)@, id) is None
            },
        },
{
    match route_by_host(registry, listener, host) {
        Some(tunnel_id) => open_rendezvous(registry, tunnel_id.as_str(), tunnel_tx),
        None => None,
    }
}

/// The registry after the ingress handler of the connection
/// `connection_id` has given up: the first slot with that id has left the
/// queue of the tunnel `id`; nothing changes if there is no such slot.
pub open spec fn after_abandon(
    tunnels: Map<Seq<char>, TunnelStateView>,
    id: Seq<char>,
    connection_id: Seq<char>,
) -> Map<Seq<char>, TunnelStateView> {
    if tunnels.contains_key(id) && slot_index(tunnels[id].pending, connection_id)
        < tunnels[id].pending.len() {
        tunnels.insert(
            id,
            tunnels[id].without_slot(slot_index(tunnels[id].pending, connection_id)),
        )
    } else {
        tunnels
    }
}

/// Gives up a rendezvous: the request could not be put on the control
/// channel, or no data connection came in time. The slot leaves the queue,
/// whether or not a client is still attached. Returns the slot, or `None` if
/// a data connection has claimed it in the meantime.
pub fn abandon_rendezvous(
    registry: &mut TunnelRegistry,
    tunnel_id: &str,
    connection_id: &str,
) -> (slot: Option<PendingConnection>)
    ensures
        final(registry)@ == after_abandon(old(registry)@, tunnel_id@, connection_id@),
        match slot {
            Some(s) => {
                let pending = old(registry)@[tunnel_id@].pending;
                let at = slot_index(pending, connection_id@);
                &&& old(registry)@.contains_key(tunnel_id@)
                &&& 0 <= at < pending.len()
                &&& s == pending[at]
                &&& s.connection_id@ == connection_id@
                &&& final(registry)@ == old(registry)@.insert(
                    tunnel_id@,
                    old(registry)@[tunnel_id@].without_slot(at),
                )
            },
            None => {
                &&& old(registry)@.contains_key(tunnel_id@) ==> slot_index(
                    old(registry)@[tunnel_id@].pending,
                    connection_id@,
                ) == old(registry)@[tunnel_id@].pending.len()
                &&& final(registry)@ == old(registry)@
            },
        },
{
    registry.remove_pending(tunnel_id, connection_id)
}

/// What happened to a rendezvous after it was started.
#[derive(Debug, Clone, Copy, PartialEq, Eq, Structural)]
pub enum RendezvousEvent {
    /// The connection id was put into the queue of the control channel.
    RequestSent,
    /// The queue of the control channel is closed: the client has gone.
    RequestFailed,
    /// The data connection has arrived on the slot's channel.
    DataConnected,
    /// No data connection arrived within the time allowed.
    TimedOut,
}

/// What an ingress handler does next with its public connection.
#[derive(Debug, Clone, Copy, PartialEq, Eq, Structural)]
pub enum RendezvousAction {
    /// Wait this many seconds for the data connection.
    AwaitData(u64),
    /// Write the bytes that the sniffer has buffered to the data connection,
    /// then pump between the two sockets.
    Join,
    /// Close the public connection.
    Drop,
}

/// The action that `event` calls for.
pub open spec fn rendezvous_action(event: RendezvousEvent) -> RendezvousAction {
    match event {
        RendezvousEvent::RequestSent => RendezvousAction::AwaitData(RENDEZVOUS_TIMEOUT_SECS),
        RendezvousEvent::DataConnected => RendezvousAction::Join,
        RendezvousEvent::RequestFailed | RendezvousEvent::TimedOut => RendezvousAction::Drop,
    }
}

/// One step of a rendezvous that was started: a request that could be sent
/// is followed by the wait for the data connection, a data connection by
/// the join; a request that could not be sent and a wait that ran out end
/// the rendezvous, and the slot leaves the queue.
pub fn rendezvous_step(
    registry: &mut TunnelRegistry,
    meeting: &Rendezvous,
    event: RendezvousEvent,
) -> (step: (RendezvousAction, Option<PendingConnection>))
    ensures
        ({
            let (action, slot) = step;
            &&& action == rendezvous_action(event)
            &&& final(registry)@ == if action == RendezvousAction::Drop {
                after_abandon(old(registry)@, meeting.tunnel_id@, meeting.connection_id@)
            } else {
                old(registry)@
            }
            &&& match slot {
                Some(s) => {
                    &&& action == RendezvousAction::Drop
                    &&& s.connection_id@ == meeting.connection_id@
                    &&& final(registry)@ != old(registry)@
                },
                None => final(registry)@ == old(registry)@,
            }
        }),
{
    match event {
        RendezvousEvent::RequestSent => (RendezvousAction::AwaitData(RENDEZVOUS_TIMEOUT_SECS), None),
        RendezvousEvent::DataConnected => (RendezvousAction::Join, None),
        RendezvousEvent::RequestFailed | RendezvousEvent::TimedOut => {
            let slot = abandon_rendezvous(
                registry,
                meeting.tunnel_id.as_str(),
                meeting.connection_id.as_str(),
            );
            (RendezvousAction::Drop, slot)
        },
    }
}

/// A public connection that arrives for a tunnel, with the slot that its
/// ingress handler made for it.
pub struct Arrival {
    pub tunnel_id: Seq<char>,
    pub slot: PendingConnection,
}

/// The registry after the public connections `arrivals` have arrived in
/// this order.
pub open spec fn after_arrivals(tunnels: Map<Seq<char>, TunnelStateView>, arrivals: Seq<Arrival>)
    -> Map<Seq<char>, TunnelStateView>
    decreases arrivals.len(),
{
    if arrivals.len() == 0 {
        tunnels
    } else {
        after_arrivals(
            after_arrival(tunnels, arrivals[0].tunnel_id, arrivals[0].slot),
            arrivals.drop_first(),
        )
    }
}

/// The slots, in order, for which a request left for the control channel
/// of the tunnel `id` while `arrivals` arrived.
pub open spec fn requested(
    tunnels: Map<Seq<char>, TunnelStateView>,
    arrivals: Seq<Arrival>,
    id: Seq<char>,
) -> Seq<PendingConnection>
    decreases arrivals.len(),
{
    if arrivals.len() == 0 {
        Seq::empty()
    } else {
        let first = arrivals[0];
        let rest = requested(
            after_arrival(tunnels, first.tunnel_id, first.slot),
            arrivals.drop_first(),
            id,
        );
        if first.tunnel_id == id && live_control(tunnels, id) is Some {
            seq![first.slot] + rest
        } else {
            rest
        }
    }
}

/// The slot that the next data connection of the tunnel `id` is paired
/// with: the oldest that waits.
pub open spec fn next_claim(tunnels: Map<Seq<char>, TunnelStateView>, id: Seq<char>) -> Option<
    PendingConnection,
> {
    if tunnels.contains_key(id) && tunnels[id].pending.len() > 0 {
        Some(tunnels[id].pending[0])
    } else {
        None
    }
}

/// The registry after a data connection of the tunnel `id` has claimed
/// its slot.
pub open spec fn after_claim(tunnels: Map<Seq<char>, TunnelStateView>, id: Seq<char>) -> Map<
    Seq<char>,
    TunnelStateView,
> {
    if tunnels.contains_key(id) && tunnels[id].pending.len() > 0 {
        tunnels.insert(id, tunnels[id].dequeue())
    } else {
        tunnels
    }
}

/// What `n` data connections of the tunnel `id` are paired with, one after
/// the other.
pub open spec fn claims(tunnels: Map<Seq<char>, TunnelStateView>, id: Seq<char>, n: nat) -> Seq<
    Option<PendingConnection>,
>
    decreases n,
{
    if n == 0 {
        Seq::empty()
    } else {
        seq![next_claim(tunnels, id)] + claims(after_claim(tunnels, id), id, (n - 1) as nat)
    }
}

/// An arrival changes nothing but the queue of its tunnel: the tunnels stay
/// the same tunnels, and each keeps its descriptor, its request and its
/// control channel.
pub proof fn lemma_arrival_keeps_tunnels(
    tunnels: Map<Seq<char>, TunnelStateView>,
    id: Seq<char>,
    slot: PendingConnection,
)
    ensures
        after_arrival(tunnels, id, slot).dom() == tunnels.dom(),
        forall|k: Seq<char>| #[trigger]
            tunnels.contains_key(k) ==> {
                let before = tunnels[k];
                let after = after_arrival(tunnels, id, slot)[k];
                &&& after.info == before.info
                &&& after.config == before.config
                &&& after.control_conn == before.control_conn
                &&& k != id ==> after.pending == before.pending
            },
        forall|k: Seq<char>| live_control(after_arrival(tunnels, id, slot), k) == live_control(
            tunnels,
            k,
        ),
{
}

/// For every tunnel, what waits in its queue after any number of public
/// connections have arrived is what waited before and, behind that, one
/// slot for each request that left for its control channel, in the order
/// of the requests: as many slots were queued as requests were sent.
pub proof fn lemma_one_slot_per_request(
    tunnels: Map<Seq<char>, TunnelStateView>,
    arrivals: Seq<Arrival>,
    id: Seq<char>,
)
    requires
        tunnels.contains_key(id),
    ensures
        after_arrivals(tunnels, arrivals).contains_key(id),
        after_arrivals(tunnels, arrivals)[id].pending == tunnels[id].pending + requested(
            tunnels,
            arrivals,
            id,
        ),
        after_arrivals(tunnels, arrivals)[id].pending.len() == tunnels[id].pending.len()
            + requested(tunnels, arrivals, id).len(),
        live_control(after_arrivals(tunnels, arrivals), id) == live_control(tunnels, id),
    decreases arrivals.len(),
{
    if arrivals.len() > 0 {
        let first = arrivals[0];
        let next = after_arrival(tunnels, first.tunnel_id, first.slot);
        lemma_one_slot_per_request(next, arrivals.drop_first(), id);
    }
}

/// Data connections take the slots of a queue from its front: the first
/// `n` data connections of a tunnel are paired with the `n` oldest slots,
/// oldest first.
pub proof fn lemma_claims_from_the_front(
    tunnels: Map<Seq<char>, TunnelStateView>,
    id: Seq<char>,
    n: nat,
)
    requires
        tunnels.contains_key(id),
        n <= tunnels[id].pending.len(),
    ensures
        claims(tunnels, id, n).len() == n,
        forall|j: int| 0 <= j < n ==> #[trigger] claims(tunnels, id, n)[j] == Some(
            tunnels[id].pending[j],
        ),
    decreases n,
{
    if n > 0 {
        let next = after_claim(tunnels, id);
        lemma_claims_from_the_front(next, id, (n - 1) as nat);
    }
}

/// A client that serves its requests in the order in which it receives
/// them pairs each data connection with the public connection that the
/// request was for: on a tunnel whose queue was empty, the data connection
/// that answers request number `j` is paired with the slot of request
/// number `j`, which is the oldest slot not yet paired.
pub proof fn lemma_requests_pair_in_order(
    tunnels: Map<Seq<char>, TunnelStateView>,
    arrivals: Seq<Arrival>,
    id: Seq<char>,
)
    requires
        tunnels.contains_key(id),
        tunnels[id].pending.len() == 0,
    ensures
        ({
            let sent = requested(tunnels, arrivals, id);
            let paired = claims(after_arrivals(tunnels, arrivals), id, sent.len());
            &&& paired.len() == sent.len()
            &&& forall|j: int| 0 <= j < sent.len() ==> #[trigger] paired[j] == Some(sent[j])
        }),
{
    lemma_one_slot_per_request(tunnels, arrivals, id);
    let sent = requested(tunnels, arrivals, id);
    let then = after_arrivals(tunnels, arrivals);
    lemma_claims_from_the_front(then, id, sent.len());
}

/// While a tunnel has no control channel, public connections that arrive
/// for it queue nothing and request nothing.
pub proof fn lemma_no_enqueue_without_control(
    tunnels: Map<Seq<char>, TunnelStateView>,
    arrivals: Seq<Arrival>,
    id: Seq<char>,
)
    requires
        tunnels.contains_key(id),
        live_control(tunnels, id) is None,
    ensures
        after_arrivals(tunnels, arrivals)[id].pending == tunnels[id].pending,
        requested(tunnels, arrivals, id).len() == 0,
    decreases arrivals.len(),
{
    if arrivals.len() > 0 {
        let first = arrivals[0];
        let next = after_arrival(tunnels, first.tunnel_id, first.slot);
        lemma_no_enqueue_without_control(next, arrivals.drop_first(), id);
    }
}

/// A slot does not outlive its ingress handler: if the control channel
/// goes away after a slot was queued, the handler's giving up still takes
/// the slot out, and the queue is what it was before the connection
/// arrived. The connection id must not be that of a slot that waited
/// already.
pub proof fn lemma_abandoned_slot_leaves(
    tunnels: Map<Seq<char>, TunnelStateView>,
    id: Seq<char>,
    slot: PendingConnection,
)
    requires
        live_control(tunnels, id) is Some,
        slot_index(tunnels[id].pending, slot.connection_id@) == tunnels[id].pending.len(),
    ensures
        ({
            let queued = after_arrival(tunnels, id, slot);
            let detached = queued.insert(id, queued[id].detach());
            let abandoned = after_abandon(detached, id, slot.connection_id@);
            &&& abandoned.contains_key(id)
            &&& abandoned[id].pending == tunnels[id].pending
            &&& abandoned[id].control_conn is None
        }),
{
    let before = tunnels[id].pending;
    lemma_slot_index_push(before, slot);
}

/// A slot that is put behind a queue in which no slot has its connection
/// id is found at the end of the queue.
pub proof fn lemma_slot_index_push(pending: Seq<PendingConnection>, slot: PendingConnection)
    requires
        slot_index(pending, slot.connection_id@) == pending.len(),
    ensures
        slot_index(pending.push(slot), slot.connection_id@) == pending.len(),
    decreases pending.len(),
{
    let with_slot = pending.push(slot);
    if pending.len() > 0 {
        assert(with_slot.drop_first() =~= pending.drop_first().push(slot));
        lemma_slot_index_push(pending.drop_first(), slot);
    }
}

} // verus!
