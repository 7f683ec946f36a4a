use wtid_lms::engine::DirectoryNode;
use wtid_lms::entry::{Entry, Permissions};
use wtid_lms::messages::{Emission, GatewayOp, Message, NetworkEvent, QueryRequest, SyncData};
use wtid_lms::store::{EntryStore, MergeStatus};

fn open_permissions() -> Permissions {
    Permissions {
        public_access: true,
        allowed_networks: Vec::new(),
        allowed_users: Vec::new(),
        can_modify: true,
    }
}

fn locked_permissions() -> Permissions {
    Permissions {
        public_access: false,
        allowed_networks: Vec::new(),
        allowed_users: Vec::new(),
        can_modify: true,
    }
}

fn entry(name: &str, network: &str, version: u64, updated_at: i64, perms: Permissions) -> Entry {
    Entry {
        name: name.to_string(),
        address: format!("/overlay/{}", name),
        network_id: network.to_string(),
        version,
        created_at: 10,
        updated_at,
        owner: format!("{}-owner", name),
        tags: Vec::new(),
        permissions: perms,
    }
}

fn entry_eq(a: &Entry, b: &Entry) -> bool {
    a.name == b.name
        && a.address == b.address
        && a.network_id == b.network_id
        && a.version == b.version
        && a.created_at == b.created_at
        && a.updated_at == b.updated_at
        && a.owner == b.owner
        && a.tags == b.tags
        && a.permissions.public_access == b.permissions.public_access
        && a.permissions.allowed_networks == b.permissions.allowed_networks
        && a.permissions.allowed_users == b.permissions.allowed_users
        && a.permissions.can_modify == b.permissions.can_modify
}

#[test]
fn merge_is_idempotent() {
    let mut store = EntryStore::new();
    let ns = "net-a".to_string();
    let user = "alice-owner".to_string();
    let e = entry("alice", "net-a", 3, 100, open_permissions());
    assert_eq!(store.merge(e.clone(), &ns, &user), MergeStatus::Accepted);
    let before = store.snapshot();
    assert_eq!(store.merge(e.clone(), &ns, &user), MergeStatus::RejectedStale);
    let after = store.snapshot();
    assert_eq!(before.len(), after.len());
    for (x, y) in before.iter().zip(after.iter()) {
        assert!(entry_eq(x, y));
    }
}

#[test]
fn version_never_decreases() {
    let mut store = EntryStore::new();
    let ns = "net-a".to_string();
    let user = "alice-owner".to_string();
    let versions = [3u64, 1, 5, 2, 5, 9, 4];
    let mut last_seen = 0u64;
    for (i, v) in versions.iter().enumerate() {
        let _ = store.merge(
            entry("alice", "net-a", *v, 100 + i as i64, open_permissions()),
            &ns,
            &user,
        );
        let stored = store
            .get(&ns, &"alice".to_string())
            .expect("entry must exist after a first merge");
        assert!(stored.version >= last_seen);
        last_seen = stored.version;
    }
    assert_eq!(last_seen, 9);
}

#[test]
fn tie_break_prefers_later_update_in_both_orders() {
    let ns = "net-a".to_string();
    let user = "alice-owner".to_string();
    let early = entry("alice", "net-a", 2, 100, open_permissions());
    let late = entry("alice", "net-a", 2, 150, open_permissions());

    let mut s1 = EntryStore::new();
    assert_eq!(s1.merge(early.clone(), &ns, &user), MergeStatus::Accepted);
    assert_eq!(s1.merge(late.clone(), &ns, &user), MergeStatus::Accepted);
    assert_eq!(s1.get(&ns, &"alice".to_string()).unwrap().updated_at, 150);

    let mut s2 = EntryStore::new();
    assert_eq!(s2.merge(late.clone(), &ns, &user), MergeStatus::Accepted);
    assert_eq!(s2.merge(early.clone(), &ns, &user), MergeStatus::RejectedStale);
    assert_eq!(s2.get(&ns, &"alice".to_string()).unwrap().updated_at, 150);
}

#[test]
fn locked_candidate_never_updates_existing_entry() {
    let mut store = EntryStore::new();
    let ns = "net-a".to_string();
    let user = "alice-owner".to_string();
    let first = entry("alice", "net-a", 1, 100, open_permissions());
    assert_eq!(store.merge(first, &ns, &user), MergeStatus::Accepted);

    // Higher version, but the candidate admits nobody.
    let locked = entry("alice", "net-a", 99, 999, locked_permissions());
    let other_ns = "net-b".to_string();
    let other_user = "mallory".to_string();
    assert_eq!(
        store.merge(locked.clone(), &ns, &user),
        MergeStatus::RejectedPermission
    );
    assert_eq!(
        store.merge(locked, &other_ns, &other_user),
        MergeStatus::RejectedPermission
    );
    let stored = store.get(&ns, &"alice".to_string()).unwrap();
    assert_eq!(stored.version, 1);
    assert_eq!(stored.updated_at, 100);
}

#[test]
fn denied_query_looks_like_absent_entry() {
    let mut node = DirectoryNode::new(
        "peer-1".to_string(),
        "net-a".to_string(),
        "net a".to_string(),
        5,
    );
    let mut restricted = entry("alice", "net-a", 1, 100, locked_permissions());
    restricted.permissions.can_modify = false;
    assert!(node.register(restricted, 100).is_some());

    let denied = node.handle_query(&QueryRequest {
        name: "alice".to_string(),
        network_id: "net-a".to_string(),
        requester: "stranger".to_string(),
    });
    let absent = node.handle_query(&QueryRequest {
        name: "nobody".to_string(),
        network_id: "net-a".to_string(),
        requester: "stranger".to_string(),
    });
    assert!(denied.is_none());
    assert!(absent.is_none());
}

#[test]
fn query_allowed_by_namespace_or_principal() {
    let mut node = DirectoryNode::new(
        "peer-1".to_string(),
        "net-a".to_string(),
        "net a".to_string(),
        5,
    );
    let mut by_ns = entry("alice", "net-a", 1, 100, locked_permissions());
    by_ns.permissions.allowed_networks.push("net-a".to_string());
    assert!(node.register(by_ns, 100).is_some());
    let mut by_user = entry("bob", "net-a", 1, 100, locked_permissions());
    by_user.permissions.allowed_users.push("carol".to_string());
    assert!(node.register(by_user, 100).is_some());

    let by_namespace = node.handle_query(&QueryRequest {
        name: "alice".to_string(),
        network_id: "net-a".to_string(),
        requester: "stranger".to_string(),
    });
    assert!(by_namespace.is_some());

    let by_principal = node.handle_query(&QueryRequest {
        name: "bob".to_string(),
        network_id: "net-a".to_string(),
        requester: "carol".to_string(),
    });
    assert!(by_principal.is_some());

    let neither = node.handle_query(&QueryRequest {
        name: "bob".to_string(),
        network_id: "net-a".to_string(),
        requester: "stranger".to_string(),
    });
    assert!(neither.is_none());
}

fn sync_for(node: &DirectoryNode, now: i64) -> SyncData {
    let mut out = node.sync_tick(now);
    assert!(!out.is_empty());
    match out.remove(0) {
        Emission::Broadcast { message, .. } => match message {
            Message::NetworkSync(sync) => sync,
            _ => panic!("a sync tick must broadcast sync payloads"),
        },
        _ => panic!("a sync tick must broadcast"),
    }
}

#[test]
fn peers_converge_on_any_arrival_order() {
    let candidates = [
        entry("alice", "net-a", 2, 300, open_permissions()),
        entry("alice", "net-a", 3, 100, open_permissions()),
        entry("alice", "net-a", 2, 250, open_permissions()),
        entry("alice", "net-a", 1, 900, open_permissions()),
    ];
    let orders: [[usize; 4]; 3] = [[0, 1, 2, 3], [3, 2, 1, 0], [2, 0, 3, 1]];
    let mut finals = Vec::new();
    for order in orders.iter() {
        let mut node = DirectoryNode::new(
            "peer".to_string(),
            "net-a".to_string(),
            "net a".to_string(),
            5,
        );
        for &i in order.iter() {
            node.handle_sync(&SyncData {
                network_id: "net-a".to_string(),
                entries: vec![candidates[i].clone()],
                timestamp: 0,
            });
        }
        finals.push(
            node.lookup(&"net-a".to_string(), &"alice".to_string())
                .expect("all orders must store something"),
        );
    }
    for f in finals.iter() {
        assert!(entry_eq(f, &finals[0]));
        assert_eq!(f.version, 3);
        assert_eq!(f.updated_at, 100);
    }
}

#[test]
fn concurrent_registers_settle_on_later_write() {
    // Peer A registers first; peer B registers the same name independently
    // before seeing A's value; after both exchange sync, both hold the later
    // write with the version both assigned.
    let mut a = DirectoryNode::new(
        "peer-a".to_string(),
        "net-a".to_string(),
        "net a".to_string(),
        5,
    );
    let mut b = DirectoryNode::new(
        "peer-b".to_string(),
        "net-a".to_string(),
        "net a".to_string(),
        5,
    );
    assert!(a
        .register(entry("alice", "net-a", 0, 0, open_permissions()), 100)
        .is_some());
    assert!(b
        .register(entry("alice", "net-a", 0, 0, open_permissions()), 150)
        .is_some());

    let from_a = sync_for(&a, 200);
    let from_b = sync_for(&b, 200);
    a.handle_sync(&from_b);
    b.handle_sync(&from_a);

    let at_a = a.lookup(&"net-a".to_string(), &"alice".to_string()).unwrap();
    let at_b = b.lookup(&"net-a".to_string(), &"alice".to_string()).unwrap();
    assert!(entry_eq(&at_a, &at_b));
    assert_eq!(at_a.version, 1);
    assert_eq!(at_a.updated_at, 150);
}

#[test]
fn first_register_succeeds_whatever_the_permissions() {
    let mut node = DirectoryNode::new(
        "peer-1".to_string(),
        "net-a".to_string(),
        "net a".to_string(),
        5,
    );
    let mut sealed = entry("alice", "net-a", 7, 700, locked_permissions());
    sealed.permissions.can_modify = false;
    let accepted = node.register(sealed, 100);
    let stored = accepted.expect("a brand-new name is always accepted");
    assert_eq!(stored.version, 1);
    assert_eq!(stored.updated_at, 100);
    assert!(node
        .lookup(&"net-a".to_string(), &"alice".to_string())
        .is_some());
}

#[test]
fn register_bumps_version_and_rebroadcasts() {
    let mut node = DirectoryNode::new(
        "peer-1".to_string(),
        "net-a".to_string(),
        "net a".to_string(),
        5,
    );
    assert!(node
        .register(entry("alice", "net-a", 0, 0, open_permissions()), 100)
        .is_some());
    let second = node
        .register(entry("alice", "net-a", 0, 0, open_permissions()), 120)
        .expect("an open entry accepts a second write");
    assert_eq!(second.version, 2);
    assert_eq!(second.updated_at, 120);

    let out = node.handle_message(
        Message::Register(entry("alice", "net-a", 0, 0, open_permissions())),
        130,
    );
    assert_eq!(out.len(), 1);
    match &out[0] {
        Emission::Broadcast { network_id, message } => {
            assert_eq!(network_id, "net-a");
            match message {
                Message::Register(e) => {
                    assert_eq!(e.version, 3);
                    assert_eq!(e.updated_at, 130);
                }
                _ => panic!("an accepted register re-broadcasts the entry"),
            }
        }
        _ => panic!("a register re-broadcast is a broadcast"),
    }
}

#[test]
fn register_for_foreign_namespace_is_dropped() {
    let mut node = DirectoryNode::new(
        "peer-1".to_string(),
        "net-a".to_string(),
        "net a".to_string(),
        5,
    );
    let out = node.handle_message(
        Message::Register(entry("alice", "net-z", 0, 0, open_permissions())),
        100,
    );
    assert!(out.is_empty());
    assert!(node
        .lookup(&"net-z".to_string(), &"alice".to_string())
        .is_none());
}

#[test]
fn denied_register_emits_nothing() {
    let mut node = DirectoryNode::new(
        "peer-1".to_string(),
        "net-a".to_string(),
        "net a".to_string(),
        5,
    );
    let mut sealed = entry("alice", "net-a", 0, 0, locked_permissions());
    sealed.permissions.can_modify = false;
    assert!(node.register(sealed, 100).is_some());
    // The second write is denied by the stored entry being locked: the
    // stamped candidate carries the sealed permissions of the message below.
    let out = node.handle_message(
        Message::Register(entry("alice", "net-a", 0, 0, locked_permissions())),
        120,
    );
    assert!(out.is_empty());
    let stored = node.lookup(&"net-a".to_string(), &"alice".to_string()).unwrap();
    assert_eq!(stored.updated_at, 100);
}

#[test]
fn query_message_emits_unicast_response() {
    let mut node = DirectoryNode::new(
        "peer-1".to_string(),
        "net-a".to_string(),
        "net a".to_string(),
        5,
    );
    assert!(node
        .register(entry("alice", "net-a", 0, 0, open_permissions()), 100)
        .is_some());
    let out = node.handle_message(
        Message::Query(QueryRequest {
            name: "alice".to_string(),
            network_id: "net-a".to_string(),
            requester: "bob".to_string(),
        }),
        200,
    );
    assert_eq!(out.len(), 1);
    match &out[0] {
        Emission::Unicast { requester, message } => {
            assert_eq!(requester, "bob");
            match message {
                Message::Response(e) => assert_eq!(e.name, "alice"),
                _ => panic!("a query answer is a response"),
            }
        }
        _ => panic!("a query answer is unicast"),
    }
}

#[test]
fn response_merges_without_permission_check() {
    let mut node = DirectoryNode::new(
        "peer-1".to_string(),
        "net-a".to_string(),
        "net a".to_string(),
        5,
    );
    let mut sealed = entry("alice", "net-a", 1, 100, locked_permissions());
    sealed.permissions.can_modify = false;
    assert!(node.register(sealed, 100).is_some());

    let mut newer = entry("alice", "net-a", 5, 500, locked_permissions());
    newer.permissions.can_modify = false;
    let out = node.handle_message(Message::Response(newer), 500);
    assert!(out.is_empty());
    let stored = node.lookup(&"net-a".to_string(), &"alice".to_string()).unwrap();
    assert_eq!(stored.version, 5);
    assert_eq!(stored.updated_at, 500);
}

#[test]
fn sync_applies_entries_independently() {
    let mut node = DirectoryNode::new(
        "peer-1".to_string(),
        "net-a".to_string(),
        "net a".to_string(),
        5,
    );
    assert!(node
        .register(entry("bob", "net-a", 0, 0, open_permissions()), 50)
        .is_some());

    // One rejected entry (an update whose own permissions admit nobody)
    // blocks neither the new name after it nor the foreign-namespace check.
    let rejected_update = entry("bob", "net-a", 9, 900, locked_permissions());
    let fresh = entry("carol", "net-a", 4, 400, open_permissions());
    let foreign = entry("dave", "net-z", 1, 100, open_permissions());
    node.handle_sync(&SyncData {
        network_id: "net-a".to_string(),
        entries: vec![rejected_update, foreign, fresh],
        timestamp: 1000,
    });

    let bob = node.lookup(&"net-a".to_string(), &"bob".to_string()).unwrap();
    assert_eq!(bob.updated_at, 50);
    let carol = node.lookup(&"net-a".to_string(), &"carol".to_string()).unwrap();
    assert_eq!(carol.version, 4);
    assert!(node
        .lookup(&"net-z".to_string(), &"dave".to_string())
        .is_none());
}

#[test]
fn sync_for_unserved_namespace_is_dropped() {
    let mut node = DirectoryNode::new(
        "peer-1".to_string(),
        "net-a".to_string(),
        "net a".to_string(),
        5,
    );
    node.handle_sync(&SyncData {
        network_id: "net-z".to_string(),
        entries: vec![entry("alice", "net-z", 1, 100, open_permissions())],
        timestamp: 0,
    });
    assert!(node
        .lookup(&"net-z".to_string(), &"alice".to_string())
        .is_none());
}

#[test]
fn forward_query_without_membership_returns_absence_immediately() {
    let mut node = DirectoryNode::new(
        "peer-1".to_string(),
        "net-a".to_string(),
        "net a".to_string(),
        5,
    );
    let q = QueryRequest {
        name: "alice".to_string(),
        network_id: "net-far".to_string(),
        requester: "bob".to_string(),
    };
    assert!(node.gateway.forward_query(&q).is_none());
    let out = node.handle_gateway(GatewayOp::Query(q));
    assert!(out.is_empty());
}

#[test]
fn forward_query_with_membership_broadcasts_into_target() {
    let mut node = DirectoryNode::new(
        "peer-1".to_string(),
        "net-a".to_string(),
        "net a".to_string(),
        5,
    );
    let empty = node.handle_gateway(GatewayOp::Connect("net-far".to_string()));
    assert!(empty.is_empty());
    let out = node.handle_gateway(GatewayOp::Query(QueryRequest {
        name: "alice".to_string(),
        network_id: "net-far".to_string(),
        requester: "bob".to_string(),
    }));
    assert_eq!(out.len(), 1);
    match &out[0] {
        Emission::Broadcast { network_id, message } => {
            assert_eq!(network_id, "net-far");
            match message {
                Message::Query(q) => assert_eq!(q.name, "alice"),
                _ => panic!("a forwarded query stays a query"),
            }
        }
        _ => panic!("a forwarded query is broadcast into the target scope"),
    }
}

#[test]
fn gateway_membership_is_idempotent() {
    let mut node = DirectoryNode::new(
        "peer-1".to_string(),
        "net-a".to_string(),
        "net a".to_string(),
        5,
    );
    node.handle_gateway(GatewayOp::Connect("net-far".to_string()));
    node.handle_gateway(GatewayOp::Connect("net-far".to_string()));
    assert!(node.gateway.is_connected(&"net-far".to_string()));
    assert_eq!(node.gateway.count(), 1);

    node.handle_gateway(GatewayOp::Disconnect("net-far".to_string()));
    assert!(!node.gateway.is_connected(&"net-far".to_string()));
    node.handle_gateway(GatewayOp::Disconnect("net-far".to_string()));
    assert_eq!(node.gateway.count(), 0);
}

#[test]
fn connected_namespace_accepts_writes_and_sync() {
    let mut node = DirectoryNode::new(
        "peer-1".to_string(),
        "net-a".to_string(),
        "net a".to_string(),
        5,
    );
    node.handle_gateway(GatewayOp::Connect("net-b".to_string()));
    let out = node.handle_message(
        Message::Register(entry("erin", "net-b", 0, 0, open_permissions())),
        100,
    );
    assert_eq!(out.len(), 1);
    assert!(node
        .lookup(&"net-b".to_string(), &"erin".to_string())
        .is_some());

    node.handle_gateway(GatewayOp::Disconnect("net-b".to_string()));
    let dropped = node.handle_message(
        Message::Register(entry("frank", "net-b", 0, 0, open_permissions())),
        110,
    );
    assert!(dropped.is_empty());
    // Entries already merged for the namespace are retained.
    assert!(node
        .lookup(&"net-b".to_string(), &"erin".to_string())
        .is_some());
}

#[test]
fn sync_tick_broadcasts_one_payload_per_namespace() {
    let mut node = DirectoryNode::new(
        "peer-1".to_string(),
        "net-a".to_string(),
        "net a".to_string(),
        5,
    );
    node.handle_gateway(GatewayOp::Connect("net-b".to_string()));
    assert!(node
        .register(entry("alice", "net-a", 0, 0, open_permissions()), 100)
        .is_some());
    let out = node.handle_message(
        Message::Register(entry("erin", "net-b", 0, 0, open_permissions())),
        100,
    );
    assert_eq!(out.len(), 1);

    let ticks = node.sync_tick(500);
    assert_eq!(ticks.len(), 2);
    match &ticks[0] {
        Emission::Broadcast { network_id, message } => {
            assert_eq!(network_id, "net-a");
            match message {
                Message::NetworkSync(s) => {
                    assert_eq!(s.network_id, "net-a");
                    assert_eq!(s.timestamp, 500);
                    assert_eq!(s.entries.len(), 1);
                    assert_eq!(s.entries[0].name, "alice");
                }
                _ => panic!("a tick broadcasts sync payloads"),
            }
        }
        _ => panic!("a tick broadcasts"),
    }
    match &ticks[1] {
        Emission::Broadcast { network_id, message } => {
            assert_eq!(network_id, "net-b");
            match message {
                Message::NetworkSync(s) => {
                    assert_eq!(s.entries.len(), 1);
                    assert_eq!(s.entries[0].name, "erin");
                }
                _ => panic!("a tick broadcasts sync payloads"),
            }
        }
        _ => panic!("a tick broadcasts"),
    }
}

#[test]
fn events_feed_engine_and_bookkeeping() {
    let mut node = DirectoryNode::new(
        "peer-1".to_string(),
        "net-a".to_string(),
        "net a".to_string(),
        5,
    );
    let out = node.handle_event(
        NetworkEvent::GossipMessage(Message::Register(entry(
            "alice",
            "net-a",
            0,
            0,
            open_permissions(),
        ))),
        100,
    );
    assert_eq!(out.len(), 1);

    assert!(node
        .handle_event(NetworkEvent::PeerDiscovered("peer-2".to_string()), 0)
        .is_empty());
    assert!(node
        .handle_event(NetworkEvent::PeerDiscovered("peer-2".to_string()), 0)
        .is_empty());
    assert!(node
        .handle_event(NetworkEvent::RoutingUpdated, 0)
        .is_empty());

    let status = node.status();
    assert_eq!(status.peer_id, "peer-1");
    assert_eq!(status.connected_peers, 1);
    assert_eq!(status.network_info.network_id, "net-a");
    assert_eq!(status.network_info.meta.name, "net a");
    assert_eq!(status.network_info.meta.created_at, 5);
}

#[test]
fn wall_clock_entry_points_behave_like_stamped_ones() {
    let mut node = DirectoryNode::new_now(
        "peer-1".to_string(),
        "net-a".to_string(),
        "net a".to_string(),
    );
    let out = node.handle_message_now(Message::Register(entry(
        "alice",
        "net-a",
        0,
        0,
        open_permissions(),
    )));
    assert_eq!(out.len(), 1);
    let stored = node.lookup(&"net-a".to_string(), &"alice".to_string()).unwrap();
    assert_eq!(stored.version, 1);
    assert!(stored.updated_at > 0);
    assert!(!node.sync_tick_now().is_empty());
}

#[test]
fn snapshot_keeps_storage_order_across_updates() {
    let mut store = EntryStore::new();
    let ns = "net-a".to_string();
    let user = "alice-owner".to_string();
    assert_eq!(
        store.merge(entry("alice", "net-a", 1, 100, open_permissions()), &ns, &user),
        MergeStatus::Accepted
    );
    assert_eq!(
        store.merge(entry("bob", "net-a", 1, 100, open_permissions()), &ns, &user),
        MergeStatus::Accepted
    );
    // An accepted update replaces in place; an accepted first write appends.
    assert_eq!(
        store.merge(entry("alice", "net-a", 2, 200, open_permissions()), &ns, &user),
        MergeStatus::Accepted
    );
    let snap = store.snapshot();
    assert_eq!(snap.len(), 2);
    assert_eq!(snap[0].name, "alice");
    assert_eq!(snap[0].version, 2);
    assert_eq!(snap[1].name, "bob");
}
