use vstd::prelude::*;
use crate::entry::{Entry, EntryModel, KeyModel, clone_string_vec};
use crate::gateway::{Gateway, unique_strings};
use crate::messages::{
    Emission, EmissionModel, GatewayOp, Message, MessageModel, NetworkEvent, NetworkEventModel,
    QueryModel, QueryRequest, SyncData, SyncModel,
};
use crate::perm::{query_allowed, spec_query_allowed};
use crate::store::{
    EntryStore, MergeStatus, spec_apply_map, spec_apply_status, spec_get, spec_merge_map,
    spec_merge_status,
};

verus! {

/// Who may join a namespace. Informational for the core: admission under a
/// policy is enforced by the peers of that namespace, entry by entry, through
/// each entry's own permissions.
#[derive(Debug)]
pub enum AccessPolicy {
    Public,
    Private,
    Whitelist(Vec<String>),
}

/// Mathematical model of [`AccessPolicy`].
pub ghost enum AccessPolicyModel {
    Public,
    Private,
    Whitelist(Seq<Seq<char>>),
}

impl View for AccessPolicy {
    type V = AccessPolicyModel;

    open spec fn view(&self) -> AccessPolicyModel {
        match self {
            AccessPolicy::Public => AccessPolicyModel::Public,
            AccessPolicy::Private => AccessPolicyModel::Private,
            AccessPolicy::Whitelist(w) => AccessPolicyModel::Whitelist(w.deep_view()),
        }
    }
}

impl AccessPolicy {
    /// Copies the policy, preserving the model exactly.
    pub fn duplicate(&self) -> (r: AccessPolicy)
        ensures
            r@ == self@,
    {
        match self {
            AccessPolicy::Public => AccessPolicy::Public,
            AccessPolicy::Private => AccessPolicy::Private,
            AccessPolicy::Whitelist(w) => AccessPolicy::Whitelist(clone_string_vec(w)),
        }
    }
}

/// Descriptive facts about a namespace.
#[derive(Debug)]
pub struct NetworkMetadata {
    pub name: String,
    pub description: String,
    pub created_at: i64,
    pub access_policy: AccessPolicy,
}

/// Mathematical model of [`NetworkMetadata`].
pub ghost struct NetworkMetadataModel {
    pub name: Seq<char>,
    pub description: Seq<char>,
    pub created_at: int,
    pub access_policy: AccessPolicyModel,
}

impl View for NetworkMetadata {
    type V = NetworkMetadataModel;

    open spec fn view(&self) -> NetworkMetadataModel {
        NetworkMetadataModel {
            name: self.name@,
            description: self.description@,
            created_at: self.created_at as int,
            access_policy: self.access_policy@,
        }
    }
}

impl NetworkMetadata {
    /// Copies the metadata, preserving the model exactly.
    pub fn duplicate(&self) -> (r: NetworkMetadata)
        ensures
            r@ == self@,
    {
        NetworkMetadata {
            name: self.name.clone(),
            description: self.description.clone(),
            created_at: self.created_at,
            access_policy: self.access_policy.duplicate(),
        }
    }
}

/// The namespace this peer serves as its home, with known gateway peers.
#[derive(Debug)]
pub struct NetworkInfo {
    pub network_id: String,
    pub gateway_peers: Vec<String>,
    pub meta: NetworkMetadata,
}

/// Mathematical model of [`NetworkInfo`].
pub ghost struct NetworkInfoModel {
    pub network_id: Seq<char>,
    pub gateway_peers: Seq<Seq<char>>,
    pub meta: NetworkMetadataModel,
}

impl View for NetworkInfo {
    type V = NetworkInfoModel;

    open spec fn view(&self) -> NetworkInfoModel {
        NetworkInfoModel {
            network_id: self.network_id@,
            gateway_peers: self.gateway_peers.deep_view(),
            meta: self.meta@,
        }
    }
}

impl NetworkInfo {
    /// Copies the info, preserving the model exactly.
    pub fn duplicate(&self) -> (r: NetworkInfo)
        ensures
            r@ == self@,
    {
        NetworkInfo {
            network_id: self.network_id.clone(),
            gateway_peers: clone_string_vec(&self.gateway_peers),
            meta: self.meta.duplicate(),
        }
    }
}

/// What the status surface reports about this peer.
#[derive(Debug)]
pub struct NetworkStatus {
    pub peer_id: String,
    pub connected_peers: usize,
    pub network_info: NetworkInfo,
}

/// An entry as stamped by an originating write: the version is one above the
/// stored one (or one, for a first write) and the update time is the write's.
pub open spec fn spec_stamped(
    m: Map<KeyModel, EntryModel>,
    e: EntryModel,
    now: int,
) -> EntryModel {
    EntryModel {
        version: match spec_get(m, e.key()) {
            Option::Some(p) => p.version + 1,
            Option::None => 1,
        },
        updated_at: now,
        ..e
    }
}

/// The status an originating write reports: the stamped candidate offered to
/// the store, with the entry's own namespace and owner as the requester.
pub open spec fn spec_register_status(
    m: Map<KeyModel, EntryModel>,
    e: EntryModel,
    now: int,
) -> MergeStatus {
    spec_merge_status(m, spec_stamped(m, e, now), e.network_id, e.owner)
}

/// The store model after an originating write.
pub open spec fn spec_register_map(
    m: Map<KeyModel, EntryModel>,
    e: EntryModel,
    now: int,
) -> Map<KeyModel, EntryModel> {
    spec_merge_map(m, spec_stamped(m, e, now), e.network_id, e.owner)
}

/// What a query observes: the stored entry when one exists under the queried
/// key and the requester passes its permissions — and nothing otherwise, so
/// denial is indistinguishable from absence.
pub open spec fn spec_query_result(
    m: Map<KeyModel, EntryModel>,
    q: QueryModel,
) -> Option<EntryModel> {
    match spec_get(m, (KeyModel { network_id: q.network_id, name: q.name })) {
        Option::Some(e) => if spec_query_allowed(e.permissions, q.network_id, q.requester) {
            Option::Some(e)
        } else {
            Option::None
        },
        Option::None => Option::None,
    }
}

/// The model of an optional owned entry.
pub open spec fn opt_entry_model(e: Option<Entry>) -> Option<EntryModel> {
    match e {
        Option::None => Option::None,
        Option::Some(r) => Option::Some(r@),
    }
}

/// A registering write can still count its version up.
pub open spec fn spec_version_headroom(m: Map<KeyModel, EntryModel>, k: KeyModel) -> bool {
    m.dom().contains(k) ==> m[k].version < u64::MAX
}

/// One directory peer's protocol state: its identity, home namespace, entry
/// store, federation gateway membership, and discovered-peer bookkeeping.
pub struct DirectoryNode {
    pub peer_id: String,
    pub network_info: NetworkInfo,
    pub store: EntryStore,
    pub gateway: Gateway,
    pub peers: Vec<String>,
}

impl DirectoryNode {
    /// This peer's home namespace.
    pub open spec fn local_network(&self) -> Seq<char> {
        self.network_info.network_id@
    }

    /// Internal invariant of the whole node.
    pub open spec fn wf(&self) -> bool {
        &&& self.store.wf()
        &&& self.gateway.wf()
        &&& unique_strings(self.peers.deep_view())
    }

    /// The namespaces whose writes and sync this peer processes: its home
    /// namespace and every namespace joined through the gateway.
    pub open spec fn spec_serves(&self, ns: Seq<char>) -> bool {
        ns == self.local_network() || self.gateway@.contains(ns)
    }

    /// A fresh node serving its home namespace only, with an empty store.
    pub fn new(
        peer_id: String,
        network_id: String,
        network_name: String,
        created_at: i64,
    ) -> (n: DirectoryNode)
        ensures
            n.wf(),
            n.peer_id@ == peer_id@,
            n.local_network() == network_id@,
            n.network_info@.meta.name == network_name@,
            n.network_info@.meta.created_at == created_at as int,
            n.network_info@.meta.description == Seq::<char>::empty(),
            n.network_info@.meta.access_policy == AccessPolicyModel::Private,
            n.network_info@.gateway_peers == Seq::<Seq<char>>::empty(),
            n.store@ == Map::<KeyModel, EntryModel>::empty(),
            n.store.seq_model() == Seq::<EntryModel>::empty(),
            n.gateway@ == Seq::<Seq<char>>::empty(),
            n.peers@.len() == 0,
    {
        let n = DirectoryNode {
            peer_id,
            network_info: NetworkInfo {
                network_id,
                gateway_peers: Vec::new(),
                meta: NetworkMetadata {
                    name: network_name,
                    description: String::new(),
                    created_at,
                    access_policy: AccessPolicy::Private,
                },
            },
            store: EntryStore::new(),
            gateway: Gateway::new(),
            peers: Vec::new(),
        };
        proof {
            assert(n.peers.deep_view() =~= Seq::<Seq<char>>::empty());
            assert(n.network_info.gateway_peers.deep_view() =~= Seq::<Seq<char>>::empty());
        }
        n
    }

    /// As [`DirectoryNode::new`], with the namespace's creation time taken
    /// from the wall clock.
    pub fn new_now(peer_id: String, network_id: String, network_name: String) -> (n: DirectoryNode)
        ensures
            n.wf(),
            n.peer_id@ == peer_id@,
            n.local_network() == network_id@,
            n.network_info@.meta.name == network_name@,
            n.network_info@.meta.description == Seq::<char>::empty(),
            n.network_info@.meta.access_policy == AccessPolicyModel::Private,
            n.network_info@.gateway_peers == Seq::<Seq<char>>::empty(),
            n.store@ == Map::<KeyModel, EntryModel>::empty(),
            n.store.seq_model() == Seq::<EntryModel>::empty(),
            n.gateway@ == Seq::<Seq<char>>::empty(),
            n.peers@.len() == 0,
    {
        let created_at = crate::clock::now_timestamp();
        DirectoryNode::new(peer_id, network_id, network_name, created_at)
    }

    /// Whether this peer processes writes and sync for the namespace.
    pub fn serves(&self, network_id: &String) -> (b: bool)
        ensures
            b == self.spec_serves(network_id@),
    {
        self.network_info.network_id.eq(network_id) || self.gateway.is_connected(network_id)
    }

    /// An originating write: stamps the entry with the next version for its
    /// name (one, for a brand-new name) and the write's own time, then offers
    /// it to the store under the entry's namespace and owner as requester.
    /// Returns the stamped entry for re-broadcast when it was accepted, and
    /// nothing on rejection or when the namespace is not served here.
    pub fn register(&mut self, entry: Entry, now: i64) -> (r: Option<Entry>)
        requires
            old(self).wf(),
            spec_version_headroom(old(self).store@, entry@.key()),
        ensures
            final(self).wf(),
            final(self).peer_id == old(self).peer_id,
            final(self).network_info == old(self).network_info,
            final(self).gateway == old(self).gateway,
            final(self).peers == old(self).peers,
            old(self).spec_serves(entry@.network_id) ==> {
                &&& final(self).store@ == spec_register_map(old(self).store@, entry@, now as int)
                &&& opt_entry_model(r) == (
                    if spec_register_status(old(self).store@, entry@, now as int)
                        == MergeStatus::Accepted {
                        Option::Some(spec_stamped(old(self).store@, entry@, now as int))
                    } else {
                        Option::<EntryModel>::None
                    })
            },
            !old(self).spec_serves(entry@.network_id) ==> {
                &&& final(self).store@ == old(self).store@
                &&& r is None
            },
    {
        let ghost em = entry@;
        if !self.serves(&entry.network_id) {
            return Option::None;
        }
        let prior_version: Option<u64> = match self.store.get(&entry.network_id, &entry.name) {
            Option::Some(p) => Option::Some(p.version),
            Option::None => Option::None,
        };
        let new_version: u64 = match prior_version {
            Option::Some(v) => v + 1,
            Option::None => 1,
        };
        let mut stamped = entry;
        stamped.version = new_version;
        stamped.updated_at = now;
        proof {
            assert(stamped@ == spec_stamped(old(self).store@, em, now as int));
        }
        let requester_network = stamped.network_id.clone();
        let requester_user = stamped.owner.clone();
        let accepted_copy = stamped.duplicate();
        let st = self.store.merge(stamped, &requester_network, &requester_user);
        match st {
            MergeStatus::Accepted => Option::Some(accepted_copy),
            MergeStatus::RejectedStale => Option::None,
            MergeStatus::RejectedPermission => Option::None,
        }
    }

    /// Answers a query against the store: the entry when present and readable
    /// by the requester, and nothing when absent or denied — the two are
    /// indistinguishable to the requester.
    pub fn handle_query(&self, query: &QueryRequest) -> (r: Option<Entry>)
        requires
            self.wf(),
        ensures
            opt_entry_model(r) == spec_query_result(self.store@, query@),
    {
        match self.store.get(&query.network_id, &query.name) {
            Option::Some(e) => {
                if query_allowed(&e.permissions, &query.network_id, &query.requester) {
                    Option::Some(e.duplicate())
                } else {
                    Option::None
                }
            },
            Option::None => Option::None,
        }
    }

    /// The lookup surface served to the local query collaborators: a plain
    /// read of one slot, not permission-gated (it serves the peer's own
    /// operator, not a remote requester).
    pub fn lookup(&self, network_id: &String, name: &String) -> (r: Option<Entry>)
        requires
            self.wf(),
        ensures
            opt_entry_model(r) == spec_get(
                self.store@,
                (KeyModel { network_id: network_id@, name: name@ }),
            ),
    {
        match self.store.get(network_id, name) {
            Option::Some(e) => Option::Some(e.duplicate()),
            Option::None => Option::None,
        }
    }

    /// Merges an entry arriving as the reply to this peer's own outstanding
    /// query: conflict resolution only, with no permission re-check. Returns
    /// nothing when the entry's namespace is not served here (the reply is
    /// dropped), else the resolver's verdict.
    pub fn handle_response(&mut self, entry: Entry) -> (st: Option<MergeStatus>)
        requires
            old(self).wf(),
        ensures
            final(self).wf(),
            final(self).peer_id == old(self).peer_id,
            final(self).network_info == old(self).network_info,
            final(self).gateway == old(self).gateway,
            final(self).peers == old(self).peers,
            old(self).spec_serves(entry@.network_id) ==> {
                &&& final(self).store@ == spec_apply_map(old(self).store@, entry@)
                &&& st == Option::Some(spec_apply_status(old(self).store@, entry@))
            },
            !old(self).spec_serves(entry@.network_id) ==> {
                &&& final(self).store@ == old(self).store@
                &&& st is None
            },
    {
        if !self.serves(&entry.network_id) {
            return Option::None;
        }
        Option::Some(self.store.apply_resolved(entry))
    }

    /// Reconciles one peer's offered view of a namespace: each entry scoped
    /// to the sync's namespace is offered to the store independently, gated
    /// and resolved like any other remote write — one rejected entry blocks
    /// nothing. Entries scoped to another namespace, and syncs for
    /// namespaces this peer does not serve, are dropped.
    pub fn handle_sync(&mut self, sync: &SyncData)
        requires
            old(self).wf(),
        ensures
            final(self).wf(),
            final(self).peer_id == old(self).peer_id,
            final(self).network_info == old(self).network_info,
            final(self).gateway == old(self).gateway,
            final(self).peers == old(self).peers,
            final(self).store@ == if old(self).spec_serves(sync@.network_id) {
                spec_sync_map(old(self).store@, sync@.entries, sync@.network_id)
            } else {
                old(self).store@
            },
    {
        if !self.serves(&sync.network_id) {
            return;
        }
        let mut idx: usize = 0;
        while idx < sync.entries.len()
            invariant
                idx <= sync.entries@.len(),
                self.wf(),
                self.peer_id == old(self).peer_id,
                self.network_info == old(self).network_info,
                self.gateway == old(self).gateway,
                self.peers == old(self).peers,
                self.store@ == spec_sync_map(
                    old(self).store@,
                    sync@.entries.subrange(0, idx as int),
                    sync@.network_id,
                ),
            decreases sync.entries@.len() - idx,
        {
            let ghost sub = sync@.entries.subrange(0, idx as int);
            let ghost sub1 = sync@.entries.subrange(0, idx as int + 1);
            proof {
                assert(sub1.drop_last() =~= sub);
                assert(sub1.last() == sync@.entries[idx as int]);
                assert(sync.entries.deep_view()[idx as int] == sync.entries@[idx as int]@);
            }
            let e = sync.entries[idx].duplicate();
            if e.network_id.eq(&sync.network_id) {
                let requester_network = sync.network_id.clone();
                let requester_user = e.owner.clone();
                let _st = self.store.merge(e, &requester_network, &requester_user);
            }
            idx += 1;
        }
        proof {
            assert(sync@.entries.subrange(0, sync.entries@.len() as int) =~= sync@.entries);
        }
    }

    /// Applies a gateway operation: joins or leaves a namespace (both
    /// idempotent), or forwards a query into a joined remote namespace. A
    /// query for a namespace the gateway is not joined to produces nothing,
    /// immediately — no broadcast is attempted.
    pub fn handle_gateway(&mut self, op: GatewayOp) -> (out: Vec<Emission>)
        requires
            old(self).wf(),
        ensures
            final(self).wf(),
            final(self).peer_id == old(self).peer_id,
            final(self).network_info == old(self).network_info,
            final(self).peers == old(self).peers,
            final(self).store == old(self).store,
            spec_gateway_post(old(self).gateway@, final(self).gateway@, op@, out.deep_view()),
    {
        match op {
            GatewayOp::Connect(ns) => {
                let _joined = self.gateway.connect(ns);
                no_emissions()
            },
            GatewayOp::Disconnect(ns) => {
                let _left = self.gateway.disconnect(&ns);
                no_emissions()
            },
            GatewayOp::Query(q) => {
                match self.gateway.forward_query(&q) {
                    Option::Some(m) => one_emission(Emission::Broadcast {
                        network_id: q.network_id,
                        message: m,
                    }),
                    Option::None => no_emissions(),
                }
            },
        }
    }

    /// Records a discovered peer handle for status bookkeeping; duplicates
    /// are kept once. Peer handles never influence authorization.
    pub fn peer_discovered(&mut self, peer: String)
        requires
            old(self).wf(),
        ensures
            final(self).wf(),
            final(self).peer_id == old(self).peer_id,
            final(self).network_info == old(self).network_info,
            final(self).gateway == old(self).gateway,
            final(self).store == old(self).store,
            final(self).peers.deep_view() == if old(self).peers.deep_view().contains(peer@) {
                old(self).peers.deep_view()
            } else {
                old(self).peers.deep_view().push(peer@)
            },
    {
        if !crate::entry::vec_contains_string(&self.peers, &peer) {
            self.peers.push(peer);
            proof {
                assert(self.peers.deep_view() =~= old(self).peers.deep_view().push(peer@));
                assert forall|x: int, y: int| 0 <= x < y < self.peers.deep_view().len()
                    implies self.peers.deep_view()[x] != self.peers.deep_view()[y] by {
                    if y == self.peers.deep_view().len() - 1 {
                        assert(old(self).peers.deep_view()[x] != peer@);
                    }
                }
            }
        }
    }

    /// What the status surface reports: this peer's identity, how many peers
    /// it has discovered, and its home namespace description.
    pub fn status(&self) -> (st: NetworkStatus)
        ensures
            st.peer_id@ == self.peer_id@,
            st.connected_peers == self.peers@.len(),
            st.network_info@ == self.network_info@,
    {
        NetworkStatus {
            peer_id: self.peer_id.clone(),
            connected_peers: self.peers.len(),
            network_info: self.network_info.duplicate(),
        }
    }

    /// The namespace of the i-th broadcast of a sync tick: the home namespace
    /// first, then each namespace joined through the gateway.
    pub open spec fn spec_tick_namespace(&self, i: int) -> Seq<char> {
        if i == 0 {
            self.local_network()
        } else {
            self.gateway@[i - 1]
        }
    }

    /// Every broadcast of one scheduler tick, in order.
    pub open spec fn spec_tick_emissions(&self, now: int) -> Seq<EmissionModel> {
        Seq::new(
            1 + self.gateway@.len(),
            |i: int| (EmissionModel::Broadcast {
                network_id: self.spec_tick_namespace(i),
                message: MessageModel::NetworkSync(spec_sync_payload(
                    self.store.seq_model(),
                    self.spec_tick_namespace(i),
                    now,
                )),
            }),
        )
    }

    /// One scheduler tick: emits one full-state sync broadcast per namespace
    /// this peer participates in, each carrying a point-in-time snapshot of
    /// the entries scoped to that namespace.
    pub fn sync_tick(&self, now: i64) -> (out: Vec<Emission>)
        requires
            self.wf(),
        ensures
            out.deep_view() == self.spec_tick_emissions(now as int),
    {
        let mut out: Vec<Emission> = Vec::new();
        let ns0 = self.network_info.network_id.clone();
        let ns0_payload = self.network_info.network_id.clone();
        let payload0 = self.store.snapshot_for(&ns0);
        out.push(Emission::Broadcast {
            network_id: ns0,
            message: Message::NetworkSync(SyncData {
                network_id: ns0_payload,
                entries: payload0,
                timestamp: now,
            }),
        });
        proof {
            assert(out@.len() == 1);
        }
        let mut idx: usize = 0;
        while idx < self.gateway.count()
            invariant
                self.wf(),
                idx <= self.gateway@.len(),
                out@.len() == 1 + idx,
                forall|i: int| 0 <= i < out@.len()
                    ==> out.deep_view()[i] == (EmissionModel::Broadcast {
                        network_id: self.spec_tick_namespace(i),
                        message: MessageModel::NetworkSync(spec_sync_payload(
                            self.store.seq_model(),
                            self.spec_tick_namespace(i),
                            now as int,
                        )),
                    }),
            decreases self.gateway@.len() - idx,
        {
            let ghost prefix = out.deep_view();
            let ns = self.gateway.at(idx).clone();
            let ns_payload = ns.clone();
            let payload = self.store.snapshot_for(&ns);
            out.push(Emission::Broadcast {
                network_id: ns,
                message: Message::NetworkSync(SyncData {
                    network_id: ns_payload,
                    entries: payload,
                    timestamp: now,
                }),
            });
            proof {
                assert forall|i: int| 0 <= i < out@.len()
                    implies out.deep_view()[i] == (EmissionModel::Broadcast {
                        network_id: self.spec_tick_namespace(i),
                        message: MessageModel::NetworkSync(spec_sync_payload(
                            self.store.seq_model(),
                            self.spec_tick_namespace(i),
                            now as int,
                        )),
                    }) by {
                    if i < out@.len() - 1 {
                        assert(out.deep_view()[i] == prefix[i]);
                    } else {
                        assert(out@[i]@ == (EmissionModel::Broadcast {
                            network_id: self.gateway@[idx as int],
                            message: MessageModel::NetworkSync(spec_sync_payload(
                                self.store.seq_model(),
                                self.gateway@[idx as int],
                                now as int,
                            )),
                        }));
                    }
                }
            }
            idx += 1;
        }
        proof {
            assert(out.deep_view() =~= self.spec_tick_emissions(now as int));
        }
        out
    }

    /// As [`DirectoryNode::sync_tick`], stamped with the wall clock.
    pub fn sync_tick_now(&self) -> (out: Vec<Emission>)
        requires
            self.wf(),
        ensures
            exists|t: int| out.deep_view() == #[trigger] self.spec_tick_emissions(t),
    {
        let now = crate::clock::now_timestamp();
        self.sync_tick(now)
    }

    /// Decodes one protocol message into its effect on this node and the
    /// messages to send out, as [`spec_message_post`] states case by case.
    pub fn handle_message(&mut self, message: Message, now: i64) -> (out: Vec<Emission>)
        requires
            old(self).wf(),
            spec_message_pre(*old(self), message@),
        ensures
            final(self).wf(),
            spec_message_post(*old(self), *final(self), message@, now as int, out.deep_view()),
    {
        match message {
            Message::Register(entry) => {
                match self.register(entry, now) {
                    Option::Some(accepted) => {
                        let ns = accepted.network_id.clone();
                        one_emission(Emission::Broadcast {
                            network_id: ns,
                            message: Message::Register(accepted),
                        })
                    },
                    Option::None => no_emissions(),
                }
            },
            Message::Query(q) => {
                match self.handle_query(&q) {
                    Option::Some(found) => one_emission(Emission::Unicast {
                        requester: q.requester,
                        message: Message::Response(found),
                    }),
                    Option::None => no_emissions(),
                }
            },
            Message::Response(entry) => {
                let _st = self.handle_response(entry);
                no_emissions()
            },
            Message::NetworkSync(sync) => {
                self.handle_sync(&sync);
                no_emissions()
            },
            Message::GatewayRequest(op) => self.handle_gateway(op),
        }
    }

    /// As [`DirectoryNode::handle_message`], with the write time taken from
    /// the wall clock: the effect is the protocol table's for some time
    /// value, whatever the clock returned.
    pub fn handle_message_now(&mut self, message: Message) -> (out: Vec<Emission>)
        requires
            old(self).wf(),
            spec_message_pre(*old(self), message@),
        ensures
            final(self).wf(),
            exists|t: int| #[trigger] spec_message_post(
                *old(self),
                *final(self),
                message@,
                t,
                out.deep_view(),
            ),
    {
        let now = crate::clock::now_timestamp();
        self.handle_message(message, now)
    }

    /// Dispatches one collaborator event: a gossip message goes to the
    /// protocol engine, a discovered peer is recorded, and a routing refresh
    /// asks nothing of the core.
    pub fn handle_event(&mut self, event: NetworkEvent, now: i64) -> (out: Vec<Emission>)
        requires
            old(self).wf(),
            event@ matches NetworkEventModel::GossipMessage(m)
                ==> spec_message_pre(*old(self), m),
        ensures
            final(self).wf(),
            (match event@ {
                NetworkEventModel::GossipMessage(m) => spec_message_post(
                    *old(self),
                    *final(self),
                    m,
                    now as int,
                    out.deep_view(),
                ),
                NetworkEventModel::PeerDiscovered(p) => {
                    &&& final(self).peer_id == old(self).peer_id
                    &&& final(self).network_info == old(self).network_info
                    &&& final(self).gateway == old(self).gateway
                    &&& final(self).store == old(self).store
                    &&& out@.len() == 0
                    &&& final(self).peers.deep_view() == (
                        if old(self).peers.deep_view().contains(p) {
                            old(self).peers.deep_view()
                        } else {
                            old(self).peers.deep_view().push(p)
                        })
                },
                NetworkEventModel::RoutingUpdated => {
                    &&& *final(self) == *old(self)
                    &&& out@.len() == 0
                },
            }),
    {
        match event {
            NetworkEvent::GossipMessage(m) => self.handle_message(m, now),
            NetworkEvent::PeerDiscovered(p) => {
                self.peer_discovered(p);
                no_emissions()
            },
            NetworkEvent::RoutingUpdated => no_emissions(),
        }
    }
}

/// The store model after reconciling a sequence of offered entries against
/// one namespace, in order: each entry scoped to the namespace is merged
/// under the namespace and its own owner as requester; others change nothing.
pub open spec fn spec_sync_step(
    m: Map<KeyModel, EntryModel>,
    e: EntryModel,
    ns: Seq<char>,
) -> Map<KeyModel, EntryModel> {
    if e.network_id == ns {
        spec_merge_map(m, e, ns, e.owner)
    } else {
        m
    }
}

/// Folds [`spec_sync_step`] over the offered entries, first to last.
pub open spec fn spec_sync_map(
    m: Map<KeyModel, EntryModel>,
    entries: Seq<EntryModel>,
    ns: Seq<char>,
) -> Map<KeyModel, EntryModel>
    decreases entries.len(),
{
    if entries.len() == 0 {
        m
    } else {
        spec_sync_step(spec_sync_map(m, entries.drop_last(), ns), entries.last(), ns)
    }
}

/// The payload of the periodic sync broadcast for one namespace: the stored
/// entries scoped to it, in storage order.
pub open spec fn spec_sync_payload(entries: Seq<EntryModel>, ns: Seq<char>, now: int) -> SyncModel {
    SyncModel {
        network_id: ns,
        entries: entries.filter(crate::store::in_namespace(ns)),
        timestamp: now,
    }
}

/// What a gateway operation does to the joined-namespace list and what it
/// emits.
pub open spec fn spec_gateway_post(
    pre: Seq<Seq<char>>,
    post: Seq<Seq<char>>,
    op: crate::messages::GatewayOpModel,
    out: Seq<EmissionModel>,
) -> bool {
    match op {
        crate::messages::GatewayOpModel::Connect(ns) => {
            &&& out.len() == 0
            &&& post == if pre.contains(ns) {
                pre
            } else {
                pre.push(ns)
            }
        },
        crate::messages::GatewayOpModel::Disconnect(ns) => {
            &&& out.len() == 0
            &&& !post.contains(ns)
            &&& if pre.contains(ns) {
                exists|i: int| 0 <= i < pre.len() && pre[i] == ns && post == pre.remove(i)
            } else {
                post == pre
            }
        },
        crate::messages::GatewayOpModel::Query(q) => {
            &&& post == pre
            &&& out == if pre.contains(q.network_id) {
                seq![
                    (EmissionModel::Broadcast {
                        network_id: q.network_id,
                        message: MessageModel::Query(q),
                    }),
                ]
            } else {
                Seq::<EmissionModel>::empty()
            }
        },
    }
}

/// What a message is allowed to assume of the node it reaches: an originating
/// write must still have version headroom for its name.
pub open spec fn spec_message_pre(pre: DirectoryNode, msg: MessageModel) -> bool {
    msg matches MessageModel::Register(e) ==> spec_version_headroom(pre.store@, e.key())
}

/// The protocol table: how one inbound message changes the node and what it
/// emits, case by case.
pub open spec fn spec_message_post(
    pre: DirectoryNode,
    post: DirectoryNode,
    msg: MessageModel,
    now: int,
    out: Seq<EmissionModel>,
) -> bool {
    &&& post.peer_id == pre.peer_id
    &&& post.network_info == pre.network_info
    &&& post.peers == pre.peers
    &&& (match msg {
        MessageModel::Register(e) => {
            &&& post.gateway == pre.gateway
            &&& if pre.spec_serves(e.network_id) {
                &&& post.store@ == spec_register_map(pre.store@, e, now)
                &&& if spec_register_status(pre.store@, e, now) == MergeStatus::Accepted {
                    out == seq![
                        (EmissionModel::Broadcast {
                            network_id: e.network_id,
                            message: MessageModel::Register(spec_stamped(pre.store@, e, now)),
                        }),
                    ]
                } else {
                    out.len() == 0
                }
            } else {
                &&& post.store@ == pre.store@
                &&& out.len() == 0
            }
        },
        MessageModel::Query(q) => {
            &&& post.gateway == pre.gateway
            &&& post.store@ == pre.store@
            &&& match spec_query_result(pre.store@, q) {
                Option::Some(e) => out == seq![
                    (EmissionModel::Unicast {
                        requester: q.requester,
                        message: MessageModel::Response(e),
                    }),
                ],
                Option::None => out.len() == 0,
            }
        },
        MessageModel::Response(e) => {
            &&& post.gateway == pre.gateway
            &&& out.len() == 0
            &&& post.store@ == if pre.spec_serves(e.network_id) {
                spec_apply_map(pre.store@, e)
            } else {
                pre.store@
            }
        },
        MessageModel::NetworkSync(s) => {
            &&& post.gateway == pre.gateway
            &&& out.len() == 0
            &&& post.store@ == if pre.spec_serves(s.network_id) {
                spec_sync_map(pre.store@, s.entries, s.network_id)
            } else {
                pre.store@
            }
        },
        MessageModel::GatewayRequest(op) => {
            &&& post.store@ == pre.store@
            &&& spec_gateway_post(pre.gateway@, post.gateway@, op, out)
        },
    })
}

/// An empty emission list.
fn no_emissions() -> (r: Vec<Emission>)
    ensures
        r@.len() == 0,
        r.deep_view() == Seq::<EmissionModel>::empty(),
{
    let r: Vec<Emission> = Vec::new();
    proof {
        assert(r.deep_view() =~= Seq::<EmissionModel>::empty());
    }
    r
}

/// A single emission.
fn one_emission(e: Emission) -> (r: Vec<Emission>)
    ensures
        r@.len() == 1,
        r.deep_view() == seq![e@],
{
    let ghost em = e@;
    let mut r: Vec<Emission> = Vec::new();
    r.push(e);
    proof {
        assert(r.deep_view() =~= seq![em]);
    }
    r
}

} // verus!
