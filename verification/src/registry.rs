//! The tunnel registry: the relay's one piece of shared state, a map from
//! tunnel id to tunnel state.

use crate::text::{
    first_index_of, label_of, leading_label, lemma_first_index_of, lemma_first_index_of_bounds,
    str_eq,
};
use crate::tunnel::{ControlConnection, PendingConnection, TunnelState, TunnelStateView};
use crate::types::TunnelKind;
use vstd::prelude::*;

verus! {

/// The listeners that share a port among tunnels and tell them apart by a
/// name that the first bytes of a connection carry.
#[derive(Debug, Clone, Copy, PartialEq, Eq, Structural)]
pub enum SharedListener {
    /// Plain HTTP; the name is the `Host` header.
    Http,
    /// TLS; the name is the server name of the ClientHello.
    Tls,
    /// Minecraft; the name is the server address of the handshake.
    Minecraft,
}

impl SharedListener {
    /// Whether this listener serves tunnels of `kind`.
    pub open spec fn serves(self, kind: TunnelKind) -> bool {
        match self {
            SharedListener::Http => kind == TunnelKind::Http,
            SharedListener::Tls => kind == TunnelKind::Https || kind == TunnelKind::TlsSni,
            SharedListener::Minecraft => kind == TunnelKind::Minecraft,
        }
    }

    /// Whether this listener serves tunnels of `kind`.
    pub fn accepts(&self, kind: TunnelKind) -> (b: bool)
        ensures
            b == self.serves(kind),
    {
        match self {
            SharedListener::Http => kind == TunnelKind::Http,
            SharedListener::Tls => kind == TunnelKind::Https || kind == TunnelKind::TlsSni,
            SharedListener::Minecraft => kind == TunnelKind::Minecraft,
        }
    }
}

/// Whether a tunnel in state `state` answers to the leading label `label` on
/// `listener`: it is of a kind that the listener serves, and `label` is the
/// leading label of its public host name.
pub open spec fn answers_to(state: TunnelStateView, listener: SharedListener, label: Seq<char>)
    -> bool {
    &&& listener.serves(state.info.kind)
    &&& match state.info.public_hostname {
        Some(h) => label_of(h@) == label,
        None => false,
    }
}

/// Index of the first slot of `pending` with connection id `connection_id`,
/// or the length of `pending` if there is none.
pub open spec fn slot_index(pending: Seq<PendingConnection>, connection_id: Seq<char>) -> int
    decreases pending.len(),
{
    if pending.len() == 0 || pending[0].connection_id@ == connection_id {
        0
    } else {
        1 + slot_index(pending.drop_first(), connection_id)
    }
}

/// `slot_index` is the one position below which no slot has the id and at
/// which the queue ends or the slot has it.
pub proof fn lemma_slot_index(pending: Seq<PendingConnection>, connection_id: Seq<char>, n: int)
    requires
        0 <= n <= pending.len(),
        forall|j: int| 0 <= j < n ==> (#[trigger] pending[j]).connection_id@ != connection_id,
        n == pending.len() || pending[n].connection_id@ == connection_id,
    ensures
        slot_index(pending, connection_id) == n,
    decreases pending.len(),
{
    if n > 0 {
        let t = pending.drop_first();
        lemma_slot_index(t, connection_id, n - 1);
    }
}

/// Whether some tunnel of `tunnels` has the access token `token`.
pub open spec fn has_token(tunnels: Map<Seq<char>, TunnelStateView>, token: Seq<char>) -> bool {
    exists|id: Seq<char>| #[trigger]
        tunnels.contains_key(id) && tunnels[id].info.access_token@ == token
}

/// The queue of the live control channel of the tunnel `id`, if the tunnel
/// exists and a client is attached to it.
pub open spec fn live_control(tunnels: Map<Seq<char>, TunnelStateView>, id: Seq<char>) -> Option<
    u64,
> {
    if tunnels.contains_key(id) {
        match tunnels[id].control_conn {
            Some(conn) => Some(conn.request_tx),
            None => None,
        }
    } else {
        None
    }
}

/// Whether every access token of `tunnels` is that of one tunnel only.
pub open spec fn tokens_unique(tunnels: Map<Seq<char>, TunnelStateView>) -> bool {
    forall|a: Seq<char>, b: Seq<char>|
        #![trigger tunnels[a], tunnels[b]]
        tunnels.contains_key(a) && tunnels.contains_key(b) && tunnels[a].info.access_token@
            == tunnels[b].info.access_token@ ==> a == b
}

/// Registering a tunnel whose access token no other tunnel has keeps the
/// access tokens unique.
pub proof fn lemma_insert_keeps_tokens_unique(
    tunnels: Map<Seq<char>, TunnelStateView>,
    id: Seq<char>,
    state: TunnelStateView,
)
    requires
        tokens_unique(tunnels),
        forall|k: Seq<char>|
            tunnels.contains_key(k) && k != id ==> (#[trigger] tunnels[k]).info.access_token@
                != state.info.access_token@,
    ensures
        tokens_unique(tunnels.insert(id, state)),
{
    let after = tunnels.insert(id, state);
    assert forall|a: Seq<char>, b: Seq<char>|
        #![trigger after[a], after[b]]
        after.contains_key(a) && after.contains_key(b) && after[a].info.access_token@
            == after[b].info.access_token@ implies a == b by {
    }
}

/// What happens to a tunnel after it was registered, attaching and
/// detaching its client and queueing and pairing its connections, changes
/// no descriptor, and so keeps the access tokens unique.
pub proof fn lemma_update_keeps_tokens_unique(
    tunnels: Map<Seq<char>, TunnelStateView>,
    id: Seq<char>,
    state: TunnelStateView,
)
    requires
        tokens_unique(tunnels),
        tunnels.contains_key(id),
        state.info == tunnels[id].info,
    ensures
        tokens_unique(tunnels.insert(id, state)),
{
}

/// Whether some tunnel of `tunnels` answers to `label` on `listener`.
pub open spec fn has_answer(
    tunnels: Map<Seq<char>, TunnelStateView>,
    listener: SharedListener,
    label: Seq<char>,
) -> bool {
    exists|id: Seq<char>| #[trigger]
        tunnels.contains_key(id) && answers_to(tunnels[id], listener, label)
}

/// The registry. Every operation is one step under the registry's lock: it
/// copies out what the caller needs, so that no caller holds the registry
/// while it waits on a socket or a channel.
pub struct TunnelRegistry {
    ids: Vec<String>,
    states: Vec<TunnelState>,
}

impl View for TunnelRegistry {
    type V = Map<Seq<char>, TunnelStateView>;

    closed spec fn view(&self) -> Map<Seq<char>, TunnelStateView> {
        Map::new(
            |id: Seq<char>| self.keys().contains(id),
            |id: Seq<char>| self.states@[first_index_of(self.keys(), id)]@,
        )
    }
}

impl TunnelRegistry {
    /// The ids in the order in which they came.
    spec fn keys(&self) -> Seq<Seq<char>> {
        Seq::new(self.ids@.len(), |i: int| self.ids@[i]@)
    }

    /// Every id has one state, and no id stands twice.
    #[verifier::type_invariant]
    spec fn wf(&self) -> bool {
        &&& self.ids@.len() == self.states@.len()
        &&& forall|i: int, j: int|
            0 <= i < j < self.ids@.len() ==> self.ids@[i]@ != self.ids@[j]@
    }

    /// An empty registry.
    pub fn new() -> (r: Self)
        ensures
            r@ == Map::<Seq<char>, TunnelStateView>::empty(),
    {
        let r = Self { ids: Vec::new(), states: Vec::new() };
        r
    }

    /// Where `id` stands.
    fn position(&self, id: &str) -> (res: Option<usize>)
        ensures
            match res {
                Some(i) => i < self.ids@.len() && self.ids@[i as int]@ == id@ && i
                    == first_index_of(self.keys(), id@) && self.keys().contains(id@),
                None => !self.keys().contains(id@),
            },
    {
        let mut i: usize = 0;
        while i < self.ids.len()
            invariant
                i <= self.ids@.len(),
                forall|j: int| 0 <= j < i ==> self.keys()[j] != id@,
            decreases self.ids@.len() - i,
        {
            if str_eq(self.ids[i].as_str(), id) {
                proof {
                    lemma_first_index_of(self.keys(), id@, i as int);
                }
                return Some(i);
            }
            i = i + 1;
        }
        None
    }

    /// Whether a tunnel with this id is registered.
    pub fn contains(&self, id: &str) -> (b: bool)
        ensures
            b == self@.contains_key(id@),
    {
        self.position(id).is_some()
    }

    /// Number of tunnels.
    pub fn len(&self) -> (n: usize)
        ensures
            n == self@.dom().len(),
            self@.dom().finite(),
    {
        proof {
            use_type_invariant(self);
            self.lemma_domain();
        }
        self.ids.len()
    }

    /// Takes the registry apart, leaving it empty.
    fn take_parts(&mut self) -> (parts: (Vec<String>, Vec<TunnelState>))
        ensures
            parts.0 == old(self).ids,
            parts.1 == old(self).states,
            parts.0@.len() == parts.1@.len(),
            forall|i: int, j: int| 0 <= i < j < parts.0@.len() ==> parts.0@[i]@ != parts.0@[j]@,
    {
        proof {
            use_type_invariant(&*self);
        }
        let mut taken = Self::new();
        core::mem::swap(self, &mut taken);
        let Self { ids, states } = taken;
        (ids, states)
    }

    /// Two registries with the same keys whose states agree everywhere but
    /// at one index differ as maps in the value of that one key.
    proof fn lemma_updated(before: &Self, after: &Self, i: int)
        requires
            before.wf(),
            after.wf(),
            after.keys() == before.keys(),
            0 <= i < before.keys().len(),
            forall|j: int|
                0 <= j < before.keys().len() && j != i ==> after.states@[j]@ == before.states@[j]@,
        ensures
            after@ == before@.insert(before.keys()[i], after.states@[i]@),
            before@.contains_key(before.keys()[i]),
            before@[before.keys()[i]] == before.states@[i]@,
    {
        let keys = before.keys();
        assert forall|k: Seq<char>| keys.contains(k) implies 0 <= first_index_of(keys, k)
            < keys.len() && keys[first_index_of(keys, k)] == k by {
            lemma_first_index_of_bounds(keys, k);
        }
    }

    /// A registry that has one more key at its end than another, and the
    /// same states up to there, is that other as a map with the new key
    /// added.
    proof fn lemma_pushed(before: &Self, after: &Self, id: Seq<char>)
        requires
            before.wf(),
            after.wf(),
            !before.keys().contains(id),
            after.keys() == before.keys().push(id),
            forall|j: int| 0 <= j < before.keys().len() ==> after.states@[j]@ == before.states@[j]@,
        ensures
            after@ == before@.insert(id, after.states@[before.keys().len() as int]@),
    {
        let old_keys = before.keys();
        let keys = after.keys();
        let n = old_keys.len() as int;
        assert forall|k: Seq<char>| keys.contains(k) implies 0 <= first_index_of(keys, k)
            < keys.len() && keys[first_index_of(keys, k)] == k by {
            lemma_first_index_of_bounds(keys, k);
        }
        assert forall|k: Seq<char>| old_keys.contains(k) implies first_index_of(keys, k)
            == first_index_of(old_keys, k) && keys.contains(k) by {
            lemma_first_index_of_bounds(old_keys, k);
            let p = first_index_of(old_keys, k);
            lemma_first_index_of(keys, k, p);
        }
        assert(first_index_of(keys, id) == n) by {
            lemma_first_index_of(keys, id, n);
        }
    }

    /// Registers `state` under `id`, in place of the state that `id` had, if
    /// it had one.
    pub fn insert(&mut self, id: String, state: TunnelState)
        ensures
            final(self)@ == old(self)@.insert(id@, state@),
    {
        let found = self.position(id.as_str());
        let ghost before = *self;
        proof {
            use_type_invariant(&*self);
        }
        let (ids, states) = self.take_parts();
        let mut ids = ids;
        let mut states = states;
        match found {
            Some(i) => {
                states[i] = state;
                *self = Self { ids, states };
                proof {
                    Self::lemma_updated(&before, &*self, i as int);
                }
            },
            None => {
                ids.push(id);
                states.push(state);
                proof {
                    assert forall|i: int, j: int| 0 <= i < j < ids@.len() implies ids@[i]@
                        != ids@[j]@ by {
                        if j == before.ids@.len() {
                            assert(before.keys()[i] == before.ids@[i]@);
                        }
                    }
                }
                *self = Self { ids, states };
                proof {
                    assert(self.keys() =~= before.keys().push(id@));
                    Self::lemma_pushed(&before, &*self, id@);
                }
            },
        }
    }

    /// The state at an index is the value of the key at that index.
    proof fn lemma_entry(&self, i: int)
        requires
            self.wf(),
            0 <= i < self.keys().len(),
        ensures
            self@.contains_key(self.keys()[i]),
            self@[self.keys()[i]] == self.states@[i]@,
    {
        let keys = self.keys();
        lemma_first_index_of_bounds(keys, keys[i]);
    }

    /// Every key of the map stands at an index, and its value is the state
    /// there.
    proof fn lemma_key(&self, id: Seq<char>)
        requires
            self.wf(),
            self@.contains_key(id),
        ensures
            0 <= first_index_of(self.keys(), id) < self.keys().len(),
            self.keys()[first_index_of(self.keys(), id)] == id,
            self@[id] == self.states@[first_index_of(self.keys(), id)]@,
    {
        lemma_first_index_of_bounds(self.keys(), id);
    }

    /// The state of the tunnel `id`.
    pub fn get(&self, id: &str) -> (res: Option<&TunnelState>)
        ensures
            match res {
                Some(state) => self@.contains_key(id@) && self@[id@] == state@,
                None => !self@.contains_key(id@),
            },
    {
        proof {
            use_type_invariant(self);
        }
        match self.position(id) {
            Some(i) => {
                Some(&self.states[i])
            },
            None => None,
        }
    }

    /// The id of a tunnel whose access token is `token`. Access tokens are
    /// minted to be unique, so there is at most one such tunnel; were there
    /// several, any of them may be the answer.
    pub fn find_by_token(&self, token: &str) -> (res: Option<String>)
        ensures
            match res {
                Some(id) => self@.contains_key(id@) && self@[id@].info.access_token@ == token@,
                None => !has_token(self@, token@),
            },
    {
        proof {
            use_type_invariant(self);
        }
        let mut i: usize = 0;
        while i < self.states.len()
            invariant
                self.wf(),
                i <= self.states@.len(),
                forall|j: int| 0 <= j < i ==> (#[trigger] self.states@[j])@.info.access_token@ != token@,
            decreases self.states@.len() - i,
        {
            if str_eq(self.states[i].info.access_token.as_str(), token) {
                proof {
                    self.lemma_entry(i as int);
                }
                return Some(self.ids[i].clone());
            }
            i = i + 1;
        }
        proof {
            assert forall|id: Seq<char>| self@.contains_key(id) implies self@[id].info.access_token@
                != token@ by {
                self.lemma_key(id);
            }
        }
        None
    }

    /// The id of a tunnel that answers to the leading label `label` on
    /// `listener`.
    pub fn find_by_label(&self, listener: SharedListener, label: &str) -> (res: Option<String>)
        ensures
            match res {
                Some(id) => self@.contains_key(id@) && answers_to(self@[id@], listener, label@),
                None => !has_answer(self@, listener, label@),
            },
    {
        proof {
            use_type_invariant(self);
        }
        let mut i: usize = 0;
        while i < self.states.len()
            invariant
                self.wf(),
                i <= self.states@.len(),
                forall|j: int|
                    0 <= j < i ==> !answers_to((#[trigger] self.states@[j])@, listener, label@),
            decreases self.states@.len() - i,
        {
            let state = &self.states[i];
            if listener.accepts(state.info.kind) {
                let matches = match &state.info.public_hostname {
                    Some(h) => {
                        let own = leading_label(h.as_str());
                        str_eq(own.as_str(), label)
                    },
                    None => false,
                };
                if matches {
                    proof {
                        self.lemma_entry(i as int);
                    }
                    return Some(self.ids[i].clone());
                }
            }
            i = i + 1;
        }
        proof {
            assert forall|id: Seq<char>| self@.contains_key(id) implies !answers_to(
                self@[id],
                listener,
                label@,
            ) by {
                self.lemma_key(id);
            }
        }
        None
    }

    /// The id of an HTTP tunnel whose public host name has `prefix` as its
    /// leading DNS label.
    pub fn find_by_hostname_prefix(&self, prefix: &str) -> (res: Option<String>)
        ensures
            match res {
                Some(id) => self@.contains_key(id@) && answers_to(
                    self@[id@],
                    SharedListener::Http,
                    prefix@,
                ),
                None => !has_answer(self@, SharedListener::Http, prefix@),
            },
    {
        self.find_by_label(SharedListener::Http, prefix)
    }

    /// The queue of the live control channel of the tunnel `id`.
    pub fn control_channel(&self, id: &str) -> (res: Option<u64>)
        ensures
            res == live_control(self@, id@),
    {
        match self.get(id) {
            Some(state) => match &state.control_conn {
                Some(conn) => Some(conn.request_tx),
                None => None,
            },
            None => None,
        }
    }

    /// Makes `conn` the control channel of the tunnel `id`, in place of the
    /// one it had, if any. Returns whether the tunnel exists; nothing
    /// changes if it does not.
    pub fn attach_control(&mut self, id: &str, conn: ControlConnection) -> (known: bool)
        ensures
            known == old(self)@.contains_key(id@),
            final(self)@ == if known {
                old(self)@.insert(id@, old(self)@[id@].attach(conn))
            } else {
                old(self)@
            },
    {
        let found = self.position(id);
        let ghost before = *self;
        proof {
            use_type_invariant(&*self);
        }
        match found {
            Some(i) => {
                let (ids, states) = self.take_parts();
                let mut states = states;
                states[i].set_control_connection(conn);
                *self = Self { ids, states };
                proof {
                    Self::lemma_updated(&before, &*self, i as int);
                }
                true
            },
            None => false,
        }
    }

    /// Forgets the control channel of the tunnel `id`. Returns whether the
    /// tunnel exists.
    pub fn detach_control(&mut self, id: &str) -> (known: bool)
        ensures
            known == old(self)@.contains_key(id@),
            final(self)@ == if known {
                old(self)@.insert(id@, old(self)@[id@].detach())
            } else {
                old(self)@
            },
    {
        let found = self.position(id);
        let ghost before = *self;
        proof {
            use_type_invariant(&*self);
        }
        match found {
            Some(i) => {
                let (ids, states) = self.take_parts();
                let mut states = states;
                states[i].remove_control_connection();
                *self = Self { ids, states };
                proof {
                    Self::lemma_updated(&before, &*self, i as int);
                }
                true
            },
            None => false,
        }
    }

    /// Forgets the control channel of the tunnel `id` if its queue is still
    /// `request_tx`: a control loop that ends must not detach the channel
    /// of a newer loop that has replaced it. Returns whether it detached.
    pub fn release_control(&mut self, id: &str, request_tx: u64) -> (released: bool)
        ensures
            released == (live_control(old(self)@, id@) == Some(request_tx)),
            final(self)@ == if released {
                old(self)@.insert(id@, old(self)@[id@].detach())
            } else {
                old(self)@
            },
    {
        match self.control_channel(id) {
            Some(current) => {
                if current == request_tx {
                    self.detach_control(id)
                } else {
                    false
                }
            },
            None => false,
        }
    }

    /// Puts `slot` at the back of the queue of the tunnel `id`. Returns
    /// whether the tunnel exists; nothing changes if it does not.
    pub fn enqueue_pending(&mut self, id: &str, slot: PendingConnection) -> (known: bool)
        ensures
            known == old(self)@.contains_key(id@),
            final(self)@ == if known {
                old(self)@.insert(id@, old(self)@[id@].enqueue(slot))
            } else {
                old(self)@
            },
    {
        let found = self.position(id);
        let ghost before = *self;
        proof {
            use_type_invariant(&*self);
        }
        match found {
            Some(i) => {
                let (ids, states) = self.take_parts();
                let mut states = states;
                states[i].enqueue_pending(slot);
                *self = Self { ids, states };
                proof {
                    Self::lemma_updated(&before, &*self, i as int);
                }
                true
            },
            None => false,
        }
    }

    /// Takes the oldest slot off the queue of the tunnel `id`.
    pub fn dequeue_pending(&mut self, id: &str) -> (slot: Option<PendingConnection>)
        ensures
            match slot {
                Some(s) => {
                    &&& old(self)@.contains_key(id@)
                    &&& old(self)@[id@].pending.len() > 0
                    &&& s == old(self)@[id@].pending[0]
                    &&& final(self)@ == old(self)@.insert(id@, old(self)@[id@].dequeue())
                },
                None => {
                    &&& old(self)@.contains_key(id@) ==> old(self)@[id@].pending.len() == 0
                    &&& final(self)@ == old(self)@
                },
            },
    {
        let found = self.position(id);
        let ghost before = *self;
        proof {
            use_type_invariant(&*self);
        }
        match found {
            Some(i) => {
                let (ids, states) = self.take_parts();
                let mut states = states;
                let slot = states[i].dequeue_pending();
                *self = Self { ids, states };
                proof {
                    Self::lemma_updated(&before, &*self, i as int);
                }
                slot
            },
            None => None,
        }
    }

    /// Takes the first slot with connection id `connection_id` out of the
    /// queue of the tunnel `id`, wherever in the queue it stands: what an
    /// ingress handler does when it gives up waiting.
    pub fn remove_pending(&mut self, id: &str, connection_id: &str) -> (slot: Option<
        PendingConnection,
    >)
        ensures
            match slot {
                Some(s) => {
                    let pending = old(self)@[id@].pending;
                    let at = slot_index(pending, connection_id@);
                    &&& old(self)@.contains_key(id@)
                    &&& 0 <= at < pending.len()
                    &&& s == pending[at]
                    &&& s.connection_id@ == connection_id@
                    &&& final(self)@ == old(self)@.insert(id@, old(self)@[id@].without_slot(at))
                },
                None => {
                    &&& old(self)@.contains_key(id@) ==> slot_index(
                        old(self)@[id@].pending,
                        connection_id@,
                    ) == old(self)@[id@].pending.len()
                    &&& final(self)@ == old(self)@
                },
            },
    {
        let found = self.position(id);
        let ghost before = *self;
        proof {
            use_type_invariant(&*self);
        }
        match found {
            Some(i) => {
                let ghost pending = self.states@[i as int]@.pending;
                let mut at: usize = 0;
                let n: usize = self.states[i].pending_connections.len();
                while at < n && !str_eq(
                    self.states[i].pending_connections[at].connection_id.as_str(),
                    connection_id,
                )
                    invariant
                        i < self.states@.len(),
                        pending == self.states@[i as int]@.pending,
                        n == pending.len(),
                        at <= n,
                        forall|j: int|
                            0 <= j < at ==> (#[trigger] pending[j]).connection_id@ != connection_id@,
                    decreases n - at,
                {
                    at = at + 1;
                }
                proof {
                    lemma_slot_index(pending, connection_id@, at as int);
                }
                if at == n {
                    return None;
                }
                let (ids, states) = self.take_parts();
                let mut states = states;
                let slot = states[i].pending_connections.remove(at);
                *self = Self { ids, states };
                proof {
                    Self::lemma_updated(&before, &*self, i as int);
                }
                slot
            },
            None => None,
        }
    }

    /// The domain of the map is the set of the keys, one element per key.
    proof fn lemma_domain(&self)
        requires
            self.wf(),
        ensures
            self@.dom() == self.keys().to_set(),
            self@.dom().finite(),
            self@.dom().len() == self.keys().len(),
    {
        self.keys().unique_seq_to_set();
    }
}

} // verus!
