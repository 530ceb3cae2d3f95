use floodchat::{FloodSub, Message, PeerId, Relay, Topic};

fn peer(b: &[u8]) -> PeerId {
    PeerId::from_bytes(b.to_vec())
}

fn topic(b: &[u8]) -> Topic {
    Topic::from_bytes(b.to_vec())
}

fn relay_targets(relays: &[Relay]) -> Vec<Vec<u8>> {
    relays.iter().map(|r| r.to.bytes.clone()).collect()
}

#[test]
fn publish_delivers_locally_when_subscribed() {
    let mut f = FloodSub::new(peer(b"a"));
    f.subscribe(&topic(b"lobby"));
    let (delivered, relays) = f.publish(&topic(b"lobby"), b"hello".to_vec());
    let m = delivered.expect("locally subscribed publish must deliver");
    assert_eq!(m.payload, b"hello".to_vec());
    assert_eq!(m.source.bytes, b"a".to_vec());
    assert_eq!(m.seq, 0);
    assert_eq!(relays.len(), 0);
}

#[test]
fn publish_not_delivered_when_not_subscribed() {
    let mut f = FloodSub::new(peer(b"a"));
    f.subscribe(&topic(b"lobby"));
    let (delivered, relays) = f.publish(&topic(b"other"), b"x".to_vec());
    assert!(delivered.is_none());
    assert_eq!(relays.len(), 0);
}

#[test]
fn publish_assigns_increasing_sequence_numbers() {
    let mut f = FloodSub::new(peer(b"a"));
    f.subscribe(&topic(b"t"));
    let (d0, _) = f.publish(&topic(b"t"), b"one".to_vec());
    let (d1, _) = f.publish(&topic(b"t"), b"two".to_vec());
    assert_eq!(d0.unwrap().seq, 0);
    assert_eq!(d1.unwrap().seq, 1);
}

#[test]
fn publish_relays_to_exactly_the_subscribed_neighbors() {
    let mut f = FloodSub::new(peer(b"a"));
    f.subscribe(&topic(b"t"));
    f.peer_connected(peer(b"b"));
    f.peer_connected(peer(b"c"));
    f.peer_connected(peer(b"d"));
    f.on_announcement(&peer(b"b"), vec![topic(b"t")]);
    f.on_announcement(&peer(b"c"), vec![topic(b"u")]);
    f.on_announcement(&peer(b"d"), vec![topic(b"t"), topic(b"u")]);
    let (_, relays) = f.publish(&topic(b"t"), b"m".to_vec());
    let mut targets = relay_targets(&relays);
    targets.sort();
    assert_eq!(targets, vec![b"b".to_vec(), b"d".to_vec()]);
    for r in &relays {
        assert_eq!(r.msg.payload, b"m".to_vec());
        assert_eq!(r.msg.source.bytes, b"a".to_vec());
    }
}

#[test]
fn received_message_is_relayed_but_not_echoed_to_sender() {
    let mut f = FloodSub::new(peer(b"b"));
    f.subscribe(&topic(b"t"));
    f.peer_connected(peer(b"a"));
    f.peer_connected(peer(b"c"));
    f.on_announcement(&peer(b"a"), vec![topic(b"t")]);
    f.on_announcement(&peer(b"c"), vec![topic(b"t")]);
    let m = Message {
        source: peer(b"a"),
        topic: topic(b"t"),
        seq: 0,
        payload: b"hi".to_vec(),
    };
    let (delivered, relays) = f.on_message(&peer(b"a"), &m);
    assert_eq!(delivered.unwrap().payload, b"hi".to_vec());
    assert_eq!(relay_targets(&relays), vec![b"c".to_vec()]);
}

#[test]
fn duplicate_identity_is_dropped_silently() {
    let mut f = FloodSub::new(peer(b"b"));
    f.subscribe(&topic(b"t"));
    f.peer_connected(peer(b"c"));
    f.on_announcement(&peer(b"c"), vec![topic(b"t")]);
    let m = Message {
        source: peer(b"a"),
        topic: topic(b"t"),
        seq: 7,
        payload: b"hi".to_vec(),
    };
    let (d1, r1) = f.on_message(&peer(b"a"), &m);
    assert!(d1.is_some());
    assert_eq!(r1.len(), 1);
    // The same identity arriving again, even over another path, is dropped.
    let again = Message {
        source: peer(b"a"),
        topic: topic(b"t"),
        seq: 7,
        payload: b"hi".to_vec(),
    };
    let (d2, r2) = f.on_message(&peer(b"c"), &again);
    assert!(d2.is_none());
    assert_eq!(r2.len(), 0);
}

#[test]
fn dedup_is_by_identity_not_payload() {
    let mut f = FloodSub::new(peer(b"b"));
    f.subscribe(&topic(b"t"));
    let m1 = Message {
        source: peer(b"a"),
        topic: topic(b"t"),
        seq: 0,
        payload: b"same".to_vec(),
    };
    let m2 = Message {
        source: peer(b"a"),
        topic: topic(b"t"),
        seq: 1,
        payload: b"same".to_vec(),
    };
    let (d1, _) = f.on_message(&peer(b"a"), &m1);
    let (d2, _) = f.on_message(&peer(b"a"), &m2);
    assert!(d1.is_some());
    assert!(d2.is_some());
}

#[test]
fn cyclic_graph_delivers_exactly_once() {
    // Triangle a-b-c, all subscribed to t; a publishes; b and c relay;
    // every re-receipt is suppressed, so each node delivers exactly once.
    let t = || topic(b"t");
    let mut b = FloodSub::new(peer(b"b"));
    let mut c = FloodSub::new(peer(b"c"));
    for (f, others) in [(&mut b, [b"a", b"c"]), (&mut c, [b"a", b"b"])] {
        f.subscribe(&t());
        for o in others {
            f.peer_connected(peer(o));
            f.on_announcement(&peer(o), vec![t()]);
        }
    }
    let mut a = FloodSub::new(peer(b"a"));
    a.subscribe(&t());
    for o in [b"b".as_slice(), b"c".as_slice()] {
        a.peer_connected(peer(o));
        a.on_announcement(&peer(o), vec![t()]);
    }
    let (_, from_a) = a.publish(&t(), b"m".to_vec());
    assert_eq!(from_a.len(), 2);
    let mut deliveries_b = 0;
    let mut deliveries_c = 0;
    let mut in_flight: Vec<(Vec<u8>, Relay)> = from_a
        .into_iter()
        .map(|r| (b"a".to_vec(), r))
        .collect();
    while let Some((sender, relay)) = in_flight.pop() {
        let dest = relay.to.bytes.clone();
        let (delivered, relays) = if dest == b"b".to_vec() {
            b.on_message(&PeerId::from_bytes(sender), &relay.msg)
        } else if dest == b"c".to_vec() {
            c.on_message(&PeerId::from_bytes(sender), &relay.msg)
        } else {
            // relayed back toward a: a has seen its own message
            continue;
        };
        if delivered.is_some() {
            if dest == b"b".to_vec() {
                deliveries_b += 1;
            } else {
                deliveries_c += 1;
            }
        }
        for r in relays {
            in_flight.push((dest.clone(), r));
        }
    }
    assert_eq!(deliveries_b, 1);
    assert_eq!(deliveries_c, 1);
}

#[test]
fn announcement_replaces_partial_view_entry() {
    let mut f = FloodSub::new(peer(b"a"));
    f.subscribe(&topic(b"t"));
    f.peer_connected(peer(b"x"));
    f.on_announcement(&peer(b"x"), vec![topic(b"t")]);
    let (_, r1) = f.publish(&topic(b"t"), b"1".to_vec());
    assert_eq!(relay_targets(&r1), vec![b"x".to_vec()]);
    // x unsubscribes from t: its announced set no longer contains t.
    f.on_announcement(&peer(b"x"), vec![topic(b"u")]);
    let (_, r2) = f.publish(&topic(b"t"), b"2".to_vec());
    assert_eq!(r2.len(), 0);
}

#[test]
fn announcement_from_unknown_peer_is_ignored() {
    let mut f = FloodSub::new(peer(b"a"));
    f.subscribe(&topic(b"t"));
    f.on_announcement(&peer(b"ghost"), vec![topic(b"t")]);
    let (_, relays) = f.publish(&topic(b"t"), b"m".to_vec());
    assert_eq!(relays.len(), 0);
}

#[test]
fn removed_peer_gets_no_relays() {
    let mut f = FloodSub::new(peer(b"a"));
    f.subscribe(&topic(b"t"));
    f.peer_connected(peer(b"x"));
    f.on_announcement(&peer(b"x"), vec![topic(b"t")]);
    f.peer_removed(&peer(b"x"));
    let (_, relays) = f.publish(&topic(b"t"), b"m".to_vec());
    assert_eq!(relays.len(), 0);
}

#[test]
fn unsubscribe_stops_local_delivery() {
    let mut f = FloodSub::new(peer(b"a"));
    f.subscribe(&topic(b"t"));
    f.unsubscribe(&topic(b"t"));
    let (delivered, _) = f.publish(&topic(b"t"), b"m".to_vec());
    assert!(delivered.is_none());
}

#[test]
fn subscribe_reports_freshness() {
    let mut f = FloodSub::new(peer(b"a"));
    assert!(f.subscribe(&topic(b"t")));
    assert!(!f.subscribe(&topic(b"t")));
}

#[test]
fn dedup_cache_is_bounded_and_evicts_oldest() {
    let mut f = FloodSub::new(peer(b"b"));
    let cap = floodchat::DEDUP_CAPACITY as u64;
    for i in 0..cap + 1 {
        let m = Message {
            source: peer(b"a"),
            topic: topic(b"t"),
            seq: i,
            payload: vec![],
        };
        f.on_message(&peer(b"a"), &m);
    }
    // Identity 0 aged out of the bounded cache, so a genuinely late
    // duplicate is accepted again: the documented best-effort weakening.
    assert!(!f.is_seen(&peer(b"a"), 0));
    assert!(f.is_seen(&peer(b"a"), 1));
    assert!(f.is_seen(&peer(b"a"), cap));
}

#[test]
fn connected_peers_lists_every_neighbor() {
    let mut f = FloodSub::new(peer(b"a"));
    f.peer_connected(peer(b"b"));
    f.peer_connected(peer(b"c"));
    f.peer_connected(peer(b"b"));
    let mut peers: Vec<Vec<u8>> = f.connected_peers().into_iter().map(|p| p.bytes).collect();
    peers.sort();
    assert_eq!(peers, vec![b"b".to_vec(), b"c".to_vec()]);
}

#[test]
fn unsubscribe_reports_whether_subscribed() {
    let mut f = FloodSub::new(peer(b"a"));
    f.subscribe(&topic(b"t"));
    assert!(f.unsubscribe(&topic(b"t")));
    assert!(!f.unsubscribe(&topic(b"t")));
    assert!(!f.unsubscribe(&topic(b"never")));
}
