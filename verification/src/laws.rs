//! The directory's guiding properties, stated and proved over the same spec
//! functions the executable contracts use.

use vstd::prelude::*;
use crate::entry::{EntryModel, KeyModel};
use crate::perm::{spec_query_allowed, spec_write_allowed};
use crate::resolve::{spec_resolve, spec_wins};
use crate::store::{
    MergeStatus, spec_get, spec_merge_map, spec_merge_status,
};
use crate::engine::{
    spec_query_result, spec_register_map, spec_register_status, spec_stamped, spec_sync_map,
};

verus! {

/// Law: merging one candidate twice is idempotent. The second merge never
/// changes the store, and — unless the first was already a permission
/// rejection, which simply repeats — it reports the candidate stale.
pub proof fn lemma_merge_idempotent(
    m: Map<KeyModel, EntryModel>,
    c: EntryModel,
    requester_network: Seq<char>,
    requester_user: Seq<char>,
)
    ensures
        spec_merge_map(
            spec_merge_map(m, c, requester_network, requester_user),
            c,
            requester_network,
            requester_user,
        ) == spec_merge_map(m, c, requester_network, requester_user),
        spec_merge_status(m, c, requester_network, requester_user) != MergeStatus::RejectedPermission
            ==> spec_merge_status(
                spec_merge_map(m, c, requester_network, requester_user),
                c,
                requester_network,
                requester_user,
            ) == MergeStatus::RejectedStale,
{
    let after = spec_merge_map(m, c, requester_network, requester_user);
    if spec_merge_status(m, c, requester_network, requester_user) == MergeStatus::Accepted {
        assert(spec_get(after, c.key()) == Option::Some(c));
    }
}

/// Law: one merge never lowers the stored version of any name, and never
/// removes an entry.
pub proof fn lemma_version_monotonic(
    m: Map<KeyModel, EntryModel>,
    c: EntryModel,
    requester_network: Seq<char>,
    requester_user: Seq<char>,
    k: KeyModel,
)
    requires
        m.dom().contains(k),
    ensures
        spec_merge_map(m, c, requester_network, requester_user).dom().contains(k),
        spec_merge_map(m, c, requester_network, requester_user)[k].version >= m[k].version,
{
}

/// Law: across any sequence of sync reconciliations, the stored version of
/// any name never decreases.
pub proof fn lemma_version_monotonic_sync(
    m: Map<KeyModel, EntryModel>,
    entries: Seq<EntryModel>,
    ns: Seq<char>,
    k: KeyModel,
)
    requires
        m.dom().contains(k),
    ensures
        spec_sync_map(m, entries, ns).dom().contains(k),
        spec_sync_map(m, entries, ns)[k].version >= m[k].version,
    decreases entries.len(),
{
    if entries.len() > 0 {
        lemma_version_monotonic_sync(m, entries.drop_last(), ns, k);
        let m0 = spec_sync_map(m, entries.drop_last(), ns);
        if entries.last().network_id == ns {
            lemma_version_monotonic(m0, entries.last(), ns, entries.last().owner, k);
        }
    }
}

/// Law: of two candidates with equal version, the one with the later update
/// time wins whichever arrives first — and the outcome does not depend on
/// the arrival order at all.
pub proof fn lemma_tie_break(slot: Option<EntryModel>, c1: EntryModel, c2: EntryModel)
    requires
        c1.version == c2.version,
        c1.updated_at < c2.updated_at,
    ensures
        spec_resolve(spec_resolve(slot, c1), c2) == spec_resolve(spec_resolve(slot, c2), c1),
        spec_wins(slot, c2) ==> spec_resolve(spec_resolve(slot, c1), c2) == Option::Some(c2),
        !spec_wins(slot, c2) ==> spec_resolve(spec_resolve(slot, c1), c2) == slot,
{
}

/// Law: a candidate whose permissions admit nobody — no public access and
/// empty allow lists — is never merged as an update to an existing entry, by
/// any requester, even with a higher version.
pub proof fn lemma_permission_gate(
    m: Map<KeyModel, EntryModel>,
    c: EntryModel,
    requester_network: Seq<char>,
    requester_user: Seq<char>,
)
    requires
        m.dom().contains(c.key()),
        !c.permissions.public_access,
        c.permissions.allowed_networks.len() == 0,
        c.permissions.allowed_users.len() == 0,
    ensures
        spec_merge_map(m, c, requester_network, requester_user) == m,
        spec_merge_status(m, c, requester_network, requester_user) != MergeStatus::Accepted,
{
    assert(!spec_write_allowed(c.permissions, requester_network, requester_user));
}

/// Law: a query denied by the stored entry's permissions observes exactly
/// what a query for an absent entry observes — nothing.
pub proof fn lemma_query_privacy(m: Map<KeyModel, EntryModel>, q: crate::messages::QueryModel)
    requires
        match spec_get(m, (KeyModel { network_id: q.network_id, name: q.name })) {
            Option::Some(e) => !spec_query_allowed(e.permissions, q.network_id, q.requester),
            Option::None => true,
        },
    ensures
        spec_query_result(m, q) == Option::<EntryModel>::None,
{
}

/// Law: an originating write for a brand-new name is always accepted and
/// stored with version one, whatever its permissions say.
pub proof fn lemma_first_register_accepted(m: Map<KeyModel, EntryModel>, e: EntryModel, now: int)
    requires
        !m.dom().contains(e.key()),
    ensures
        spec_register_status(m, e, now) == MergeStatus::Accepted,
        spec_get(spec_register_map(m, e, now), e.key())
            == Option::Some(spec_stamped(m, e, now)),
        spec_stamped(m, e, now).version == 1,
{
}

/// Folds the conflict resolver over a sequence of candidates, first to last.
pub open spec fn spec_resolve_all(
    slot: Option<EntryModel>,
    s: Seq<EntryModel>,
) -> Option<EntryModel>
    decreases s.len(),
{
    if s.len() == 0 {
        slot
    } else {
        spec_resolve(spec_resolve_all(slot, s.drop_last()), s.last())
    }
}

/// What the resolver fold returns: the slot it started from, beaten by no
/// candidate; or a candidate that beat the slot and is beaten by no
/// candidate of the sequence.
pub proof fn lemma_resolve_all_character(slot: Option<EntryModel>, s: Seq<EntryModel>)
    ensures
        ({
            let r = spec_resolve_all(slot, s);
            &&& (r == slot || exists|i: int|
                0 <= i < s.len() && r == Option::Some(#[trigger] s[i]) && spec_wins(slot, s[i]))
            &&& (forall|i: int| 0 <= i < s.len() ==> !spec_wins(r, #[trigger] s[i]))
            &&& (r == slot ==> forall|i: int| 0 <= i < s.len() ==> !spec_wins(slot, #[trigger] s[i]))
        }),
    decreases s.len(),
{
    if s.len() > 0 {
        let s0 = s.drop_last();
        let x = s.last();
        lemma_resolve_all_character(slot, s0);
        let r0 = spec_resolve_all(slot, s0);
        let r = spec_resolve_all(slot, s);
        assert(r == spec_resolve(r0, x));
        assert(forall|i: int| 0 <= i < s0.len() ==> #[trigger] s0[i] == s[i]);
        if spec_wins(r0, x) {
            assert(r == Option::Some(x));
            assert forall|i: int| 0 <= i < s.len() implies !spec_wins(r, #[trigger] s[i]) by {
                if i < s.len() - 1 {
                    assert(!spec_wins(r0, s0[i]));
                } else {
                    assert(s[i] == x);
                }
            }
            if r0 == slot {
                assert(spec_wins(slot, x));
                assert(r == Option::Some(s[s.len() - 1]) && spec_wins(slot, s[s.len() - 1]));
            } else {
                let j = choose|j: int|
                    0 <= j < s0.len() && r0 == Option::Some(#[trigger] s0[j]) && spec_wins(
                        slot,
                        s0[j],
                    );
                assert(spec_wins(slot, x));
                assert(r == Option::Some(s[s.len() - 1]) && spec_wins(slot, s[s.len() - 1]));
            }
            if r == slot {
                if r0 == slot {
                    assert(false);
                } else {
                    let j = choose|j: int|
                        0 <= j < s0.len() && r0 == Option::Some(#[trigger] s0[j]) && spec_wins(
                            slot,
                            s0[j],
                        );
                    assert(false);
                }
            }
        } else {
            assert(r == r0);
            assert forall|i: int| 0 <= i < s.len() implies !spec_wins(r, #[trigger] s[i]) by {
                if i < s.len() - 1 {
                    assert(!spec_wins(r0, s0[i]));
                } else {
                    assert(s[i] == x);
                }
            }
            if r0 != slot {
                let j = choose|j: int|
                    0 <= j < s0.len() && r0 == Option::Some(#[trigger] s0[j]) && spec_wins(
                        slot,
                        s0[j],
                    );
                assert(0 <= j < s.len() && r == Option::Some(s[j]) && spec_wins(slot, s[j]));
            } else {
                assert forall|i: int| 0 <= i < s.len() implies !spec_wins(slot, #[trigger] s[i]) by {
                    if i < s.len() - 1 {
                        assert(!spec_wins(slot, s0[i]));
                    } else {
                        assert(s[i] == x);
                    }
                }
            }
        }
    }
}

/// Law: folding the same multiset of candidates for one name through the
/// conflict resolver, from the same slot and in any order, ends in the same
/// entry — provided no two distinct candidates tie on both version and
/// update time.
pub proof fn lemma_resolve_convergence(
    slot: Option<EntryModel>,
    s1: Seq<EntryModel>,
    s2: Seq<EntryModel>,
)
    requires
        s1.to_multiset() == s2.to_multiset(),
        forall|x: EntryModel, y: EntryModel|
            s1.contains(x) && s1.contains(y) && x.version == y.version && x.updated_at
                == y.updated_at ==> x == y,
    ensures
        spec_resolve_all(slot, s1) == spec_resolve_all(slot, s2),
{
    broadcast use vstd::seq_lib::group_to_multiset_ensures;

    lemma_resolve_all_character(slot, s1);
    lemma_resolve_all_character(slot, s2);
    let r1 = spec_resolve_all(slot, s1);
    let r2 = spec_resolve_all(slot, s2);
    assert forall|x: EntryModel| s1.contains(x) implies s2.contains(x) by {
        assert(s1.to_multiset().count(x) > 0);
    }
    assert forall|x: EntryModel| s2.contains(x) implies s1.contains(x) by {
        assert(s2.to_multiset().count(x) > 0);
    }
    if r1 == slot && r2 == slot {
    } else if r1 == slot {
        let j = choose|j: int|
            0 <= j < s2.len() && r2 == Option::Some(#[trigger] s2[j]) && spec_wins(slot, s2[j]);
        assert(s2.contains(s2[j]));
        assert(s1.contains(s2[j]));
        let i = choose|i: int| 0 <= i < s1.len() && #[trigger] s1[i] == s2[j];
        assert(!spec_wins(slot, s1[i]));
        assert(false);
    } else if r2 == slot {
        let j = choose|j: int|
            0 <= j < s1.len() && r1 == Option::Some(#[trigger] s1[j]) && spec_wins(slot, s1[j]);
        assert(s1.contains(s1[j]));
        assert(s2.contains(s1[j]));
        let i = choose|i: int| 0 <= i < s2.len() && #[trigger] s2[i] == s1[j];
        assert(!spec_wins(slot, s2[i]));
        assert(false);
    } else {
        let i = choose|i: int|
            0 <= i < s1.len() && r1 == Option::Some(#[trigger] s1[i]) && spec_wins(slot, s1[i]);
        let j = choose|j: int|
            0 <= j < s2.len() && r2 == Option::Some(#[trigger] s2[j]) && spec_wins(slot, s2[j]);
        let a = s1[i];
        let b = s2[j];
        assert(s2.contains(b));
        assert(s1.contains(b));
        let ib = choose|t: int| 0 <= t < s1.len() && #[trigger] s1[t] == b;
        assert(!spec_wins(r1, s1[ib]));
        assert(s1.contains(a));
        assert(s2.contains(a));
        let ja = choose|t: int| 0 <= t < s2.len() && #[trigger] s2[t] == a;
        assert(!spec_wins(r2, s2[ja]));
        assert(a.version == b.version && a.updated_at == b.updated_at);
        assert(s1.contains(s1[i]));
        assert(a == b);
    }
}

/// With a candidate authorized to write whatever is stored, the permission
/// gate never fires: the merge is pure conflict resolution on the
/// candidate's slot and touches no other.
pub proof fn lemma_merge_resolve_agree(
    m: Map<KeyModel, EntryModel>,
    c: EntryModel,
    requester_network: Seq<char>,
    requester_user: Seq<char>,
)
    requires
        spec_write_allowed(c.permissions, requester_network, requester_user),
    ensures
        spec_get(spec_merge_map(m, c, requester_network, requester_user), c.key())
            == spec_resolve(spec_get(m, c.key()), c),
        forall|k2: KeyModel| k2 != c.key()
            ==> spec_get(spec_merge_map(m, c, requester_network, requester_user), k2)
                == spec_get(m, k2),
{
}

/// A sync reconciliation whose offered entries all bear one key and all
/// authorize the write folds, on that slot, to the conflict resolver — and
/// touches no other slot.
pub proof fn lemma_sync_as_resolve(
    m: Map<KeyModel, EntryModel>,
    entries: Seq<EntryModel>,
    ns: Seq<char>,
    k: KeyModel,
)
    requires
        k.network_id == ns,
        forall|i: int| 0 <= i < entries.len() ==> (#[trigger] entries[i]).key() == k,
        forall|i: int| 0 <= i < entries.len() ==> spec_write_allowed(
            (#[trigger] entries[i]).permissions,
            ns,
            entries[i].owner,
        ),
    ensures
        spec_get(spec_sync_map(m, entries, ns), k) == spec_resolve_all(spec_get(m, k), entries),
        forall|k2: KeyModel| k2 != k
            ==> spec_get(spec_sync_map(m, entries, ns), k2) == spec_get(m, k2),
    decreases entries.len(),
{
    if entries.len() > 0 {
        let s0 = entries.drop_last();
        assert(forall|i: int| 0 <= i < s0.len() ==> #[trigger] s0[i] == entries[i]);
        lemma_sync_as_resolve(m, s0, ns, k);
        let m0 = spec_sync_map(m, s0, ns);
        let x = entries.last();
        assert(x.key() == k);
        assert(x.network_id == ns);
        lemma_merge_resolve_agree(m0, x, ns, x.owner);
    }
}

/// Law (convergence): two peers holding the same store that reconcile the
/// same multiset of offered entries for one name, each in its own arrival
/// order, end with identical stores. Each candidate must authorize the write
/// by its own permissions, and no two distinct candidates may tie on both
/// version and update time: a first-write race decided only by permissions,
/// or two different entries with identical version and time, are
/// order-dependent by design.
pub proof fn lemma_sync_convergence(
    m: Map<KeyModel, EntryModel>,
    entries1: Seq<EntryModel>,
    entries2: Seq<EntryModel>,
    ns: Seq<char>,
    k: KeyModel,
)
    requires
        k.network_id == ns,
        entries1.to_multiset() == entries2.to_multiset(),
        forall|i: int| 0 <= i < entries1.len() ==> (#[trigger] entries1[i]).key() == k,
        forall|i: int| 0 <= i < entries1.len() ==> spec_write_allowed(
            (#[trigger] entries1[i]).permissions,
            ns,
            entries1[i].owner,
        ),
        forall|x: EntryModel, y: EntryModel|
            entries1.contains(x) && entries1.contains(y) && x.version == y.version && x.updated_at
                == y.updated_at ==> x == y,
    ensures
        spec_sync_map(m, entries1, ns) == spec_sync_map(m, entries2, ns),
{
    broadcast use vstd::seq_lib::group_to_multiset_ensures;

    assert forall|i: int| 0 <= i < entries2.len()
        implies (#[trigger] entries2[i]).key() == k && spec_write_allowed(
            entries2[i].permissions,
            ns,
            entries2[i].owner,
        ) by {
        assert(entries2.contains(entries2[i]));
        assert(entries2.to_multiset().count(entries2[i]) > 0);
        assert(entries1.contains(entries2[i]));
        let j = choose|j: int| 0 <= j < entries1.len() && #[trigger] entries1[j] == entries2[i];
        assert(entries1[j].key() == k);
    }
    lemma_sync_as_resolve(m, entries1, ns, k);
    lemma_sync_as_resolve(m, entries2, ns, k);
    lemma_resolve_convergence(spec_get(m, k), entries1, entries2);
    let a = spec_sync_map(m, entries1, ns);
    let b = spec_sync_map(m, entries2, ns);
    assert forall|k2: KeyModel| #[trigger] spec_get(a, k2) == spec_get(b, k2) by {
        if k2 == k {
            assert(spec_get(a, k) == spec_resolve_all(spec_get(m, k), entries1));
            assert(spec_get(b, k) == spec_resolve_all(spec_get(m, k), entries2));
        } else {
            assert(spec_get(a, k2) == spec_get(m, k2));
            assert(spec_get(b, k2) == spec_get(m, k2));
        }
    }
    assert(a.dom() =~= b.dom()) by {
        assert forall|k2: KeyModel| a.dom().contains(k2) <==> b.dom().contains(k2) by {
            assert(spec_get(a, k2) == spec_get(b, k2));
        }
    }
    assert(a =~= b) by {
        assert forall|k2: KeyModel| a.dom().contains(k2) implies a[k2] == b[k2] by {
            assert(spec_get(a, k2) == spec_get(b, k2));
        }
    }
}

} // verus!

