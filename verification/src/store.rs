use vstd::prelude::*;
use crate::entry::{Entry, EntryModel, KeyModel};
use crate::perm::{spec_write_allowed, write_allowed};
use crate::resolve::{spec_wins, opt_ref_model, candidate_wins};

verus! {

/// The outcome of offering one candidate entry to the store.
#[derive(Debug, Clone, Copy, PartialEq, Eq, Structural)]
pub enum MergeStatus {
    /// The candidate replaced the slot (or created it).
    Accepted,
    /// The candidate lost to the value already stored.
    RejectedStale,
    /// The candidate would update an existing entry it is not allowed to.
    RejectedPermission,
}

/// The slot-level merge decision: staleness is judged first, then — only for
/// updates to an occupied slot — write authorization against the candidate's
/// own permissions. First writes are never permission-gated.
pub open spec fn spec_merge_slot_status(
    existing: Option<EntryModel>,
    c: EntryModel,
    requester_network: Seq<char>,
    requester_user: Seq<char>,
) -> MergeStatus {
    if !spec_wins(existing, c) {
        MergeStatus::RejectedStale
    } else if existing is Some && !spec_write_allowed(c.permissions, requester_network, requester_user) {
        MergeStatus::RejectedPermission
    } else {
        MergeStatus::Accepted
    }
}

/// Reads one slot of the store model.
pub open spec fn spec_get(m: Map<KeyModel, EntryModel>, k: KeyModel) -> Option<EntryModel> {
    if m.dom().contains(k) {
        Option::Some(m[k])
    } else {
        Option::None
    }
}

/// The status [`EntryStore::merge`] reports for this candidate.
pub open spec fn spec_merge_status(
    m: Map<KeyModel, EntryModel>,
    c: EntryModel,
    requester_network: Seq<char>,
    requester_user: Seq<char>,
) -> MergeStatus {
    spec_merge_slot_status(spec_get(m, c.key()), c, requester_network, requester_user)
}

/// The store model after [`EntryStore::merge`]: only the candidate's own slot
/// can change, and only on acceptance.
pub open spec fn spec_merge_map(
    m: Map<KeyModel, EntryModel>,
    c: EntryModel,
    requester_network: Seq<char>,
    requester_user: Seq<char>,
) -> Map<KeyModel, EntryModel> {
    if spec_merge_status(m, c, requester_network, requester_user) == MergeStatus::Accepted {
        m.insert(c.key(), c)
    } else {
        m
    }
}

/// The status of a resolver-only merge (no permission gate), used for
/// replies to this peer's own outstanding queries.
pub open spec fn spec_apply_status(m: Map<KeyModel, EntryModel>, c: EntryModel) -> MergeStatus {
    if spec_wins(spec_get(m, c.key()), c) {
        MergeStatus::Accepted
    } else {
        MergeStatus::RejectedStale
    }
}

/// The store model after a resolver-only merge.
pub open spec fn spec_apply_map(
    m: Map<KeyModel, EntryModel>,
    c: EntryModel,
) -> Map<KeyModel, EntryModel> {
    if spec_wins(spec_get(m, c.key()), c) {
        m.insert(c.key(), c)
    } else {
        m
    }
}

/// How the storage sequence evolves under one offered candidate: a rejection
/// leaves it untouched; an accepted first write appends; an accepted update
/// replaces, in place, the one entry bearing the candidate's key. This pins
/// the order that `snapshot`, `snapshot_for` and the sync payloads observe.
pub open spec fn spec_seq_after_merge(
    pre: Seq<EntryModel>,
    post: Seq<EntryModel>,
    c: EntryModel,
    accepted: bool,
) -> bool {
    if !accepted {
        post == pre
    } else if exists|i: int| 0 <= i < pre.len() && (#[trigger] pre[i]).key() == c.key() {
        exists|i: int|
            0 <= i < pre.len() && (#[trigger] pre[i]).key() == c.key() && post == pre.update(i, c)
    } else {
        post == pre.push(c)
    }
}

/// The predicate holding of exactly the entries scoped to one namespace.
pub open spec fn in_namespace(ns: Seq<char>) -> spec_fn(EntryModel) -> bool {
    |e: EntryModel| e.network_id == ns
}

/// No two entries of the sequence share a store key.
pub open spec fn unique_keys(s: Seq<EntryModel>) -> bool {
    forall|i: int, j: int| 0 <= i < j < s.len() ==> s[i].key() != s[j].key()
}

/// The mapping a sequence of entries denotes: later positions shadow earlier
/// ones, which is irrelevant once keys are unique.
pub open spec fn map_of(s: Seq<EntryModel>) -> Map<KeyModel, EntryModel>
    decreases s.len(),
{
    if s.len() == 0 {
        Map::empty()
    } else {
        map_of(s.drop_last()).insert(s.last().key(), s.last())
    }
}

/// A key is in the mapping exactly when some entry of the sequence bears it.
pub proof fn lemma_map_of_dom(s: Seq<EntryModel>)
    ensures
        forall|k: KeyModel| #[trigger] map_of(s).dom().contains(k)
            <==> exists|i: int| 0 <= i < s.len() && s[i].key() == k,
    decreases s.len(),
{
    if s.len() > 0 {
        lemma_map_of_dom(s.drop_last());
        assert forall|k: KeyModel| #[trigger] map_of(s).dom().contains(k)
            <==> exists|i: int| 0 <= i < s.len() && s[i].key() == k by {
            if map_of(s).dom().contains(k) {
                if k == s.last().key() {
                    assert(s[s.len() - 1].key() == k);
                } else {
                    assert(map_of(s) == map_of(s.drop_last()).insert(s.last().key(), s.last()));
                    assert(map_of(s.drop_last()).dom().contains(k));
                    let i = choose|i: int|
                        0 <= i < s.drop_last().len() && s.drop_last()[i].key() == k;
                    assert(s.drop_last()[i] == s[i]);
                    assert(s[i].key() == k);
                }
            }
            if exists|i: int| 0 <= i < s.len() && s[i].key() == k {
                let i = choose|i: int| 0 <= i < s.len() && s[i].key() == k;
                if i < s.len() - 1 {
                    assert(s.drop_last()[i].key() == k);
                    assert(map_of(s.drop_last()).dom().contains(k));
                }
            }
        }
    }
}

/// With unique keys, the mapping returns exactly the entry at each position.
pub proof fn lemma_map_of_index(s: Seq<EntryModel>, i: int)
    requires
        unique_keys(s),
        0 <= i < s.len(),
    ensures
        map_of(s).dom().contains(s[i].key()),
        map_of(s)[s[i].key()] == s[i],
    decreases s.len(),
{
    if i < s.len() - 1 {
        assert(unique_keys(s.drop_last()));
        lemma_map_of_index(s.drop_last(), i);
        assert(s.drop_last()[i] == s[i]);
        assert(s[i].key() != s[s.len() - 1].key());
    }
}

/// Appending an entry inserts its key.
pub proof fn lemma_map_of_push(s: Seq<EntryModel>, e: EntryModel)
    ensures
        map_of(s.push(e)) == map_of(s).insert(e.key(), e),
{
    assert(s.push(e).drop_last() =~= s);
    assert(s.push(e).last() == e);
}

/// Replacing the entry at a position by one with the same key inserts the
/// replacement, and keeps the keys unique.
pub proof fn lemma_map_of_update(s: Seq<EntryModel>, i: int, e: EntryModel)
    requires
        unique_keys(s),
        0 <= i < s.len(),
        s[i].key() == e.key(),
    ensures
        map_of(s.update(i, e)) == map_of(s).insert(e.key(), e),
        unique_keys(s.update(i, e)),
    decreases s.len(),
{
    let t = s.update(i, e);
    assert forall|x: int, y: int| 0 <= x < y < t.len() implies t[x].key() != t[y].key() by {
        assert(t[x].key() == s[x].key());
        assert(t[y].key() == s[y].key());
    }
    if i == s.len() - 1 {
        assert(t.drop_last() =~= s.drop_last());
        assert(t.last() == e);
        assert(map_of(t) =~= map_of(s).insert(e.key(), e));
    } else {
        assert(t.drop_last() =~= s.drop_last().update(i, e));
        assert(unique_keys(s.drop_last()));
        lemma_map_of_update(s.drop_last(), i, e);
        assert(t.last() == s.last());
        assert(s[i].key() != s[s.len() - 1].key());
        assert(map_of(t) =~= map_of(s).insert(e.key(), e));
    }
}

/// The entry store: an in-memory mapping from (namespace, name) to the one
/// current entry under that key. `merge` is the only mutator.
pub struct EntryStore {
    entries: Vec<Entry>,
}

impl View for EntryStore {
    type V = Map<KeyModel, EntryModel>;

    closed spec fn view(&self) -> Map<KeyModel, EntryModel> {
        map_of(self.entries.deep_view())
    }
}

impl EntryStore {
    /// The stored entries in their storage order.
    pub closed spec fn seq_model(&self) -> Seq<EntryModel> {
        self.entries.deep_view()
    }

    /// Internal invariant: no two stored entries share a key.
    pub closed spec fn wf(&self) -> bool {
        unique_keys(self.entries.deep_view())
    }

    /// An empty store.
    pub fn new() -> (s: EntryStore)
        ensures
            s.wf(),
            s@ == Map::<KeyModel, EntryModel>::empty(),
            s.seq_model() == Seq::<EntryModel>::empty(),
    {
        let s = EntryStore { entries: Vec::new() };
        proof {
            assert(s.entries.deep_view() =~= Seq::<EntryModel>::empty());
        }
        s
    }

    /// Position of the entry stored under the key, if any.
    fn find_index(&self, network_id: &String, name: &String) -> (r: Option<usize>)
        ensures
            ({
                let k = (KeyModel { network_id: network_id@, name: name@ });
                match r {
                    Option::Some(i) => i < self.seq_model().len()
                        && self.seq_model()[i as int].key() == k,
                    Option::None => forall|j: int|
                        0 <= j < self.seq_model().len() ==> self.seq_model()[j].key() != k,
                }
            }),
    {
        let mut idx: usize = 0;
        while idx < self.entries.len()
            invariant
                idx <= self.entries@.len(),
                forall|j: int| 0 <= j < idx
                    ==> self.entries.deep_view()[j].key()
                        != (KeyModel { network_id: network_id@, name: name@ }),
            decreases self.entries@.len() - idx,
        {
            proof {
                assert(self.entries.deep_view()[idx as int] == self.entries@[idx as int]@);
            }
            if self.entries[idx].network_id.eq(network_id) && self.entries[idx].name.eq(name) {
                return Option::Some(idx);
            }
            idx += 1;
        }
        Option::None
    }

    /// Atomic read of one slot.
    pub fn get(&self, network_id: &String, name: &String) -> (r: Option<&Entry>)
        requires
            self.wf(),
        ensures
            opt_ref_model(r) == spec_get(self@, (KeyModel { network_id: network_id@, name: name@ })),
    {
        let found = self.find_index(network_id, name);
        match found {
            Option::Some(i) => {
                proof {
                    lemma_map_of_index(self.seq_model(), i as int);
                    assert(self.entries.deep_view()[i as int] == self.entries@[i as int]@);
                }
                Option::Some(&self.entries[i])
            },
            Option::None => {
                proof {
                    lemma_map_of_dom(self.seq_model());
                }
                Option::None
            },
        }
    }

    /// The one mutator: offers a candidate to the store, judging staleness by
    /// the conflict resolver and then, for updates only, write authorization
    /// by the candidate's permissions against the requester.
    pub fn merge(
        &mut self,
        candidate: Entry,
        requester_network: &String,
        requester_user: &String,
    ) -> (st: MergeStatus)
        requires
            old(self).wf(),
        ensures
            final(self).wf(),
            st == spec_merge_status(old(self)@, candidate@, requester_network@, requester_user@),
            final(self)@ == spec_merge_map(old(self)@, candidate@, requester_network@, requester_user@),
            spec_seq_after_merge(
                old(self).seq_model(),
                final(self).seq_model(),
                candidate@,
                st == MergeStatus::Accepted,
            ),
    {
        let ghost cm = candidate@;
        let found = self.find_index(&candidate.network_id, &candidate.name);
        proof {
            assert(cm.key() == (KeyModel { network_id: candidate.network_id@, name: candidate.name@ }));
        }
        match found {
            Option::Some(i) => {
                proof {
                    lemma_map_of_index(self.seq_model(), i as int);
                    assert(self.entries.deep_view()[i as int] == self.entries@[i as int]@);
                }
                let wins = candidate_wins(Option::Some(&self.entries[i]), &candidate);
                if !wins {
                    return MergeStatus::RejectedStale;
                }
                if !write_allowed(&candidate.permissions, requester_network, requester_user) {
                    return MergeStatus::RejectedPermission;
                }
                proof {
                    lemma_map_of_update(self.entries.deep_view(), i as int, cm);
                }
                self.entries[i] = candidate;
                proof {
                    assert(self.entries.deep_view()
                        =~= old(self).entries.deep_view().update(i as int, cm));
                }
                MergeStatus::Accepted
            },
            Option::None => {
                proof {
                    lemma_map_of_dom(self.seq_model());
                    lemma_map_of_push(self.entries.deep_view(), cm);
                }
                self.entries.push(candidate);
                proof {
                    assert(self.entries.deep_view()
                        =~= old(self).entries.deep_view().push(cm));
                    assert forall|x: int, y: int|
                        0 <= x < y < self.entries.deep_view().len()
                        implies self.entries.deep_view()[x].key()
                            != self.entries.deep_view()[y].key() by {
                        if y == self.entries.deep_view().len() - 1 {
                            assert(old(self).entries.deep_view()[x].key() != cm.key());
                        }
                    }
                }
                MergeStatus::Accepted
            },
        }
    }

    /// Resolver-only merge, with no permission gate: for entries arriving in
    /// a reply to this peer's own outstanding query.
    pub fn apply_resolved(&mut self, candidate: Entry) -> (st: MergeStatus)
        requires
            old(self).wf(),
        ensures
            final(self).wf(),
            st == spec_apply_status(old(self)@, candidate@),
            final(self)@ == spec_apply_map(old(self)@, candidate@),
            spec_seq_after_merge(
                old(self).seq_model(),
                final(self).seq_model(),
                candidate@,
                st == MergeStatus::Accepted,
            ),
    {
        let ghost cm = candidate@;
        let found = self.find_index(&candidate.network_id, &candidate.name);
        proof {
            assert(cm.key() == (KeyModel { network_id: candidate.network_id@, name: candidate.name@ }));
        }
        match found {
            Option::Some(i) => {
                proof {
                    lemma_map_of_index(self.seq_model(), i as int);
                    assert(self.entries.deep_view()[i as int] == self.entries@[i as int]@);
                }
                let wins = candidate_wins(Option::Some(&self.entries[i]), &candidate);
                if !wins {
                    return MergeStatus::RejectedStale;
                }
                proof {
                    lemma_map_of_update(self.entries.deep_view(), i as int, cm);
                }
                self.entries[i] = candidate;
                proof {
                    assert(self.entries.deep_view()
                        =~= old(self).entries.deep_view().update(i as int, cm));
                }
                MergeStatus::Accepted
            },
            Option::None => {
                proof {
                    lemma_map_of_dom(self.seq_model());
                    lemma_map_of_push(self.entries.deep_view(), cm);
                }
                self.entries.push(candidate);
                proof {
                    assert(self.entries.deep_view()
                        =~= old(self).entries.deep_view().push(cm));
                    assert forall|x: int, y: int|
                        0 <= x < y < self.entries.deep_view().len()
                        implies self.entries.deep_view()[x].key()
                            != self.entries.deep_view()[y].key() by {
                        if y == self.entries.deep_view().len() - 1 {
                            assert(old(self).entries.deep_view()[x].key() != cm.key());
                        }
                    }
                }
                MergeStatus::Accepted
            },
        }
    }

    /// A point-in-time copy of every stored entry, in storage order.
    pub fn snapshot(&self) -> (r: Vec<Entry>)
        ensures
            r.deep_view() == self.seq_model(),
    {
        let mut r: Vec<Entry> = Vec::new();
        let mut idx: usize = 0;
        while idx < self.entries.len()
            invariant
                idx <= self.entries@.len(),
                r@.len() == idx,
                r.deep_view() == self.entries.deep_view().subrange(0, idx as int),
            decreases self.entries@.len() - idx,
        {
            let ghost prefix = r.deep_view();
            r.push(self.entries[idx].duplicate());
            proof {
                assert forall|j: int| 0 <= j <= idx as int
                    implies r.deep_view()[j] == self.entries.deep_view()[j] by {
                    if j < idx as int {
                        assert(r.deep_view()[j] == prefix[j]);
                        assert(prefix[j] == self.entries.deep_view().subrange(0, idx as int)[j]);
                    } else {
                        assert(r@[j]@ == self.entries@[j]@);
                    }
                }
                assert(r.deep_view()
                    =~= self.entries.deep_view().subrange(0, idx as int + 1));
            }
            idx += 1;
        }
        proof {
            assert(self.entries.deep_view().subrange(0, self.entries@.len() as int)
                =~= self.entries.deep_view());
        }
        r
    }

    /// A point-in-time copy of the stored entries scoped to one namespace,
    /// in storage order: the payload of a sync broadcast for that namespace.
    pub fn snapshot_for(&self, network_id: &String) -> (r: Vec<Entry>)
        ensures
            r.deep_view() == self.seq_model().filter(in_namespace(network_id@)),
    {
        let ghost pred = in_namespace(network_id@);
        let mut r: Vec<Entry> = Vec::new();
        let mut idx: usize = 0;
        proof {
            reveal(Seq::filter);
            assert(self.entries.deep_view().subrange(0, 0).filter(pred)
                =~= Seq::<EntryModel>::empty());
            assert(r.deep_view() =~= Seq::<EntryModel>::empty());
        }
        while idx < self.entries.len()
            invariant
                idx <= self.entries@.len(),
                r.deep_view() == self.entries.deep_view().subrange(0, idx as int).filter(
                    in_namespace(network_id@),
                ),
            decreases self.entries@.len() - idx,
        {
            let ghost prefix = r.deep_view();
            let ghost sub = self.entries.deep_view().subrange(0, idx as int);
            let ghost sub1 = self.entries.deep_view().subrange(0, idx as int + 1);
            proof {
                reveal(Seq::filter);
                assert(sub1.drop_last() =~= sub);
                assert(sub1.last() == self.entries.deep_view()[idx as int]);
                assert(self.entries.deep_view()[idx as int] == self.entries@[idx as int]@);
            }
            if self.entries[idx].network_id.eq(network_id) {
                r.push(self.entries[idx].duplicate());
                proof {
                    assert(in_namespace(network_id@)(sub1.last()));
                    assert(sub1.filter(in_namespace(network_id@))
                        == sub.filter(in_namespace(network_id@)).push(sub1.last()));
                    assert forall|j: int| 0 <= j < r.deep_view().len()
                        implies r.deep_view()[j] == prefix.push(sub1.last())[j] by {
                        if j < prefix.len() {
                            assert(r.deep_view()[j] == prefix[j]);
                        } else {
                            assert(r@[j]@ == self.entries@[idx as int]@);
                        }
                    }
                    assert(r.deep_view() =~= prefix.push(sub1.last()));
                }
            } else {
                proof {
                    assert(!(in_namespace(network_id@)(sub1.last())));
                    assert(sub1.filter(in_namespace(network_id@))
                        == sub.filter(in_namespace(network_id@)));
                }
            }
            idx += 1;
        }
        proof {
            assert(self.entries.deep_view().subrange(0, self.entries@.len() as int)
                =~= self.entries.deep_view());
        }
        r
    }
}

} // verus!
