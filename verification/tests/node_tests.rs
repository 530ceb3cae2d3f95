use floodchat::{
    establish, Frame, Node, NodeAction, NodeEvent, PeerId, SessionPlan, Topic,
};

fn peer(b: &[u8]) -> PeerId {
    PeerId::from_bytes(b.to_vec())
}

fn topic(b: &[u8]) -> Topic {
    Topic::from_bytes(b.to_vec())
}

fn protos(names: &[&[u8]]) -> Vec<Vec<u8>> {
    names.iter().map(|n| n.to_vec()).collect()
}

fn plan_for(remote: &[u8]) -> SessionPlan {
    let ours = protos(&[b"/noise"]);
    let theirs = protos(&[b"/noise"]);
    let ours_mux = protos(&[b"/yamux/1.0.0"]);
    let theirs_mux = protos(&[b"/yamux/1.0.0"]);
    establish(
        &ours,
        &theirs,
        &ours_mux,
        &theirs_mux,
        &peer(remote),
        &peer(remote),
    )
    .expect("matching identities and protocols must establish")
}

/// Connect two fresh nodes to each other and exchange their subscription
/// announcements.
fn connect_both(n1: &mut Node, p1: &[u8], n2: &mut Node, p2: &[u8]) {
    let a1 = n1.step(NodeEvent::SessionEstablished { plan: plan_for(p2) });
    let a2 = n2.step(NodeEvent::SessionEstablished { plan: plan_for(p1) });
    deliver_sends(n2, p1, a1);
    deliver_sends(n1, p2, a2);
}

/// Hand every Send action produced by one node to the other, as arrived
/// frames from `from`.
fn deliver_sends(dest: &mut Node, from: &[u8], actions: Vec<NodeAction>) -> Vec<NodeAction> {
    let mut produced = Vec::new();
    for a in actions {
        if let NodeAction::Send { frame, .. } = a {
            produced.extend(dest.step(NodeEvent::FrameArrived {
                from: peer(from),
                frame,
            }));
        }
    }
    produced
}

fn delivered_payloads(actions: &[NodeAction]) -> Vec<(Vec<u8>, Vec<u8>)> {
    actions
        .iter()
        .filter_map(|a| match a {
            NodeAction::Deliver { msg } => {
                Some((msg.source.bytes.clone(), msg.payload.clone()))
            }
            _ => None,
        })
        .collect()
}

#[test]
fn discovery_announcement_reports_and_dials_once() {
    let mut n = Node::new(peer(b"p1"), topic(b"lobby"), 30_000);
    let acts = n.step(NodeEvent::AnnouncementHeard {
        peer: peer(b"p2"),
        addr: b"/ip4/127.0.0.1/tcp/4001".to_vec(),
        now: 10,
    });
    assert_eq!(acts.len(), 2);
    assert!(matches!(&acts[0], NodeAction::ReportDiscovered { peer } if peer.bytes == b"p2".to_vec()));
    assert!(
        matches!(&acts[1], NodeAction::Dial { addr } if addr == &b"/ip4/127.0.0.1/tcp/4001".to_vec())
    );
    // A repeated announcement only refreshes the record.
    let again = n.step(NodeEvent::AnnouncementHeard {
        peer: peer(b"p2"),
        addr: b"/ip4/127.0.0.1/tcp/4001".to_vec(),
        now: 20,
    });
    assert_eq!(again.len(), 0);
}

#[test]
fn expiry_reports_and_disconnects_the_silent_peer() {
    let mut n = Node::new(peer(b"p1"), topic(b"lobby"), 100);
    n.step(NodeEvent::AnnouncementHeard {
        peer: peer(b"p2"),
        addr: b"addr".to_vec(),
        now: 0,
    });
    n.step(NodeEvent::SessionEstablished { plan: plan_for(b"p2") });
    // Still fresh: nothing expires.
    let none = n.step(NodeEvent::ExpiryTick { now: 99 });
    assert_eq!(none.len(), 0);
    // Silent past the window: the record, entry and session all go.
    let acts = n.step(NodeEvent::ExpiryTick { now: 100 });
    assert_eq!(acts.len(), 2);
    assert!(matches!(&acts[0], NodeAction::ReportExpired { peer } if peer.bytes == b"p2".to_vec()));
    assert!(matches!(&acts[1], NodeAction::Disconnect { peer } if peer.bytes == b"p2".to_vec()));
    // Without a new announcement nothing is relayed to it any more.
    let pub_acts = n.step(NodeEvent::InputLine { payload: b"m".to_vec() });
    assert!(pub_acts
        .iter()
        .all(|a| !matches!(a, NodeAction::Send { to, .. } if to.bytes == b"p2".to_vec())));
}

#[test]
fn established_session_announces_subscriptions() {
    let mut n = Node::new(peer(b"p1"), topic(b"lobby"), 30_000);
    let acts = n.step(NodeEvent::SessionEstablished { plan: plan_for(b"p2") });
    assert_eq!(acts.len(), 1);
    match &acts[0] {
        NodeAction::Send { to, frame } => {
            assert_eq!(to.bytes, b"p2".to_vec());
            match frame {
                Frame::Subscriptions(ts) => {
                    assert_eq!(ts.len(), 1);
                    assert_eq!(ts[0].bytes, b"lobby".to_vec());
                }
                _ => panic!("expected a subscription announcement"),
            }
        }
        _ => panic!("expected a send action"),
    }
}

#[test]
fn failed_session_registers_nothing() {
    let mut n = Node::new(peer(b"p1"), topic(b"lobby"), 30_000);
    let acts = n.step(NodeEvent::SessionFailed {
        error: floodchat::HandshakeError::IdentityMismatch,
    });
    assert_eq!(acts.len(), 0);
    // The forged peer is not connected: nothing is ever sent to it.
    let pub_acts = n.step(NodeEvent::InputLine { payload: b"m".to_vec() });
    assert!(pub_acts
        .iter()
        .all(|a| !matches!(a, NodeAction::Send { .. })));
}

#[test]
fn round_trip_between_two_nodes() {
    let mut n1 = Node::new(peer(b"p1"), topic(b"lobby"), 30_000);
    let mut n2 = Node::new(peer(b"p2"), topic(b"lobby"), 30_000);
    n1.step(NodeEvent::AnnouncementHeard {
        peer: peer(b"p2"),
        addr: b"addr2".to_vec(),
        now: 1,
    });
    n2.step(NodeEvent::AnnouncementHeard {
        peer: peer(b"p1"),
        addr: b"addr1".to_vec(),
        now: 1,
    });
    connect_both(&mut n1, b"p1", &mut n2, b"p2");
    // One local input line at p1 is published verbatim.
    let acts = n1.step(NodeEvent::InputLine { payload: b"hello".to_vec() });
    // p1, being subscribed, delivers its own message once.
    assert_eq!(
        delivered_payloads(&acts),
        vec![(b"p1".to_vec(), b"hello".to_vec())]
    );
    // The relayed copy reaches p2 exactly once, with source p1.
    let at_p2 = deliver_sends(&mut n2, b"p1", acts);
    assert_eq!(
        delivered_payloads(&at_p2),
        vec![(b"p1".to_vec(), b"hello".to_vec())]
    );
}

#[test]
fn unsubscribed_topic_is_no_longer_relayed() {
    let mut n1 = Node::new(peer(b"p1"), topic(b"lobby"), 30_000);
    let mut n2 = Node::new(peer(b"p2"), topic(b"lobby"), 30_000);
    connect_both(&mut n1, b"p1", &mut n2, b"p2");
    // p2 announces a subscription set without "lobby".
    n1.step(NodeEvent::FrameArrived {
        from: peer(b"p2"),
        frame: Frame::Subscriptions(vec![topic(b"elsewhere")]),
    });
    let acts = n1.step(NodeEvent::InputLine { payload: b"m".to_vec() });
    assert!(acts
        .iter()
        .all(|a| !matches!(a, NodeAction::Send { to, .. } if to.bytes == b"p2".to_vec())));
}

#[test]
fn input_closed_tears_everything_down() {
    let mut n = Node::new(peer(b"p1"), topic(b"lobby"), 30_000);
    n.step(NodeEvent::SessionEstablished { plan: plan_for(b"p2") });
    n.step(NodeEvent::SessionEstablished { plan: plan_for(b"p3") });
    let acts = n.step(NodeEvent::InputClosed);
    assert_eq!(acts.len(), 3);
    assert!(matches!(&acts[0], NodeAction::Disconnect { .. }));
    assert!(matches!(&acts[1], NodeAction::Disconnect { .. }));
    assert!(matches!(&acts[2], NodeAction::Shutdown));
}

#[test]
fn closed_peer_is_forgotten() {
    let mut n = Node::new(peer(b"p1"), topic(b"lobby"), 30_000);
    n.step(NodeEvent::SessionEstablished { plan: plan_for(b"p2") });
    n.step(NodeEvent::FrameArrived {
        from: peer(b"p2"),
        frame: Frame::Subscriptions(vec![topic(b"lobby")]),
    });
    let acts = n.step(NodeEvent::PeerClosed { peer: peer(b"p2") });
    assert_eq!(acts.len(), 0);
    let pub_acts = n.step(NodeEvent::InputLine { payload: b"m".to_vec() });
    assert!(pub_acts
        .iter()
        .all(|a| !matches!(a, NodeAction::Send { .. })));
}

fn subscription_sends(actions: &[NodeAction]) -> Vec<(Vec<u8>, Vec<Vec<u8>>)> {
    actions
        .iter()
        .filter_map(|a| match a {
            NodeAction::Send {
                to,
                frame: Frame::Subscriptions(ts),
            } => Some((
                to.bytes.clone(),
                ts.iter().map(|t| t.bytes.clone()).collect(),
            )),
            _ => None,
        })
        .collect()
}

#[test]
fn subscribe_announces_to_every_connected_peer() {
    let mut n = Node::new(peer(b"p1"), topic(b"lobby"), 30_000);
    n.step(NodeEvent::SessionEstablished { plan: plan_for(b"p2") });
    n.step(NodeEvent::SessionEstablished { plan: plan_for(b"p3") });
    let acts = n.step(NodeEvent::Subscribe { topic: topic(b"news") });
    let sends = subscription_sends(&acts);
    assert_eq!(sends.len(), 2);
    for (to, ts) in &sends {
        assert!(to == &b"p2".to_vec() || to == &b"p3".to_vec());
        assert_eq!(ts, &vec![b"lobby".to_vec(), b"news".to_vec()]);
    }
    // A repeated subscription changes nothing and announces nothing.
    let again = n.step(NodeEvent::Subscribe { topic: topic(b"news") });
    assert_eq!(again.len(), 0);
}

#[test]
fn unsubscribe_announces_the_shrunk_set() {
    let mut n = Node::new(peer(b"p1"), topic(b"lobby"), 30_000);
    n.step(NodeEvent::SessionEstablished { plan: plan_for(b"p2") });
    n.step(NodeEvent::Subscribe { topic: topic(b"news") });
    let acts = n.step(NodeEvent::Unsubscribe { topic: topic(b"news") });
    let sends = subscription_sends(&acts);
    assert_eq!(sends.len(), 1);
    assert_eq!(sends[0].0, b"p2".to_vec());
    assert_eq!(sends[0].1, vec![b"lobby".to_vec()]);
    // Unsubscribing a topic never subscribed announces nothing.
    let none = n.step(NodeEvent::Unsubscribe { topic: topic(b"never") });
    assert_eq!(none.len(), 0);
}
