//! The overlay coordinator: one node's connections, discovery table and
//! flood publish/subscribe state, driven by a single event-at-a-time step
//! function. The surrounding runtime performs the returned actions (dial,
//! send, deliver, report) and feeds the next event back in; no state is
//! mutated anywhere else, so no two events are ever handled concurrently.

use vstd::prelude::*;
use crate::discovery::{disc_contains, record_expired, records_view, Discovery};
use crate::handshake::SessionPlan;
use crate::identity::PeerId;
use crate::pubsub::{
    announce_post, connect_post, on_message_post, publish_post, pv_allows, pv_contains,
    relays_view, remove_post, topics_contain, topics_view, FloodSub, Message, MessageView, Relay,
    RelayView, Topic,
};

verus! {

/// One envelope on the wire between two neighbors: a chat message, or a
/// peer's full announced subscription set.
pub enum Frame {
    Data(Message),
    Subscriptions(Vec<Topic>),
}

/// One event handed to the coordinator by the runtime.
pub enum NodeEvent {
    /// A presence announcement was heard on the local network at `now`.
    AnnouncementHeard { peer: PeerId, addr: Vec<u8>, now: u64 },
    /// A timer tick at `now`: expire at most one silent discovery record.
    ExpiryTick { now: u64 },
    /// A connection attempt completed its handshake with this session.
    SessionEstablished { plan: SessionPlan },
    /// A connection attempt failed a negotiation or handshake stage.
    SessionFailed { error: crate::handshake::HandshakeError },
    /// An envelope arrived from a connected neighbor.
    FrameArrived { from: PeerId, frame: Frame },
    /// A neighbor's connection closed.
    PeerClosed { peer: PeerId },
    /// Subscribe the local node to a topic.
    Subscribe { topic: Topic },
    /// Unsubscribe the local node from a topic.
    Unsubscribe { topic: Topic },
    /// One line of local input, to publish on the active topic.
    InputLine { payload: Vec<u8> },
    /// Local input ended: shut down.
    InputClosed,
}

/// One action the runtime must perform on the coordinator's behalf.
pub enum NodeAction {
    /// Open a connection to this address.
    Dial { addr: Vec<u8> },
    /// Send this envelope to this connected neighbor.
    Send { to: PeerId, frame: Frame },
    /// Hand this message to the local application.
    Deliver { msg: Message },
    /// Report a newly discovered peer.
    ReportDiscovered { peer: PeerId },
    /// Report an expired peer.
    ReportExpired { peer: PeerId },
    /// Close the connection to this neighbor.
    Disconnect { peer: PeerId },
    /// Stop the event loop.
    Shutdown,
}

/// Whether some session in the list is with peer `p`.
pub open spec fn conns_contain(cs: Seq<SessionPlan>, p: Seq<u8>) -> bool {
    exists|i: int| 0 <= i < cs.len() && cs[i].remote@ == p
}

/// No peer has two sessions.
pub open spec fn unique_conns(cs: Seq<SessionPlan>) -> bool {
    forall|i: int, j: int| 0 <= i < j < cs.len() ==> cs[i].remote@ != cs[j].remote@
}

/// The index of peer `p`'s session, if it has one.
fn conns_find(cs: &Vec<SessionPlan>, p: &PeerId) -> (r: Option<usize>)
    ensures
        match r {
            Some(i) => 0 <= i < cs@.len() && cs@[i as int].remote@ == p@,
            None => !conns_contain(cs@, p@),
        },
{
    let mut i: usize = 0;
    while i < cs.len()
        invariant
            i <= cs.len(),
            forall|j: int| 0 <= j < i ==> cs@[j].remote@ != p@,
        decreases cs.len() - i,
    {
        if cs[i].remote.same(p) {
            return Some(i);
        }
        i += 1;
    }
    None
}

/// Drop peer `p`'s session, if it has one; every other session is kept.
fn conns_remove(cs: &mut Vec<SessionPlan>, p: &PeerId)
    requires
        unique_conns(old(cs)@),
    ensures
        unique_conns(final(cs)@),
        !conns_contain(final(cs)@, p@),
        forall|q: Seq<u8>| q != p@ && conns_contain(old(cs)@, q) ==> conns_contain(final(cs)@, q),
        forall|q: Seq<u8>| conns_contain(final(cs)@, q) ==> conns_contain(old(cs)@, q),
{
    let ghost pre = old(cs)@;
    match conns_find(cs, p) {
        Some(i) => {
            cs.remove(i);
            assert(cs@ =~= pre.remove(i as int));
            assert forall|j: int| 0 <= j < cs@.len() implies (#[trigger] cs@[j]).remote@
                != p@ by {
                if j < i {
                    assert(cs@[j] == pre[j]);
                } else {
                    assert(cs@[j] == pre[j + 1]);
                }
            }
            assert forall|q: Seq<u8>|
                q != p@ && conns_contain(pre, q) implies conns_contain(cs@, q) by {
                let j = choose|j: int| 0 <= j < pre.len() && pre[j].remote@ == q;
                if j < i {
                    assert(cs@[j].remote@ == q);
                } else {
                    assert(cs@[j - 1].remote@ == q);
                }
            }
            assert forall|a: int, b: int|
                0 <= a < b < cs@.len() implies cs@[a].remote@ != cs@[b].remote@ by {
                let ai: int = if a < i { a } else { a + 1 };
                let bi: int = if b < i { b } else { b + 1 };
                assert(cs@[a] == pre[ai]);
                assert(cs@[b] == pre[bi]);
            }
        },
        None => {},
    }
}

/// The action list for one flood outcome: the local delivery first, if
/// any, then one send per relay decision, in order.
pub open spec fn flood_actions(
    d: Option<MessageView>,
    rl: Seq<RelayView>,
    acts: Seq<NodeAction>,
) -> bool {
    match d {
        Some(mv) => {
            &&& acts.len() == rl.len() + 1
            &&& acts[0] matches NodeAction::Deliver { msg } && msg@ == mv
            &&& forall|i: int| 0 <= i < rl.len() ==> send_matches(#[trigger] acts[i + 1], rl[i])
        },
        None => {
            &&& acts.len() == rl.len()
            &&& forall|i: int| 0 <= i < rl.len() ==> send_matches(#[trigger] acts[i], rl[i])
        },
    }
}

/// The action sends exactly this relay's message to this relay's target.
pub open spec fn send_matches(a: NodeAction, r: RelayView) -> bool {
    a matches NodeAction::Send { to, frame } && to@ == r.to && (frame matches Frame::Data(m)
        && m@ == r.msg)
}

/// Nothing observable about the node changed.
pub open spec fn node_unchanged(pre: Node, post: Node) -> bool {
    &&& post.flood@ == pre.flood@
    &&& post.conns@ == pre.conns@
    &&& post.discovery.records@ == pre.discovery.records@
    &&& post.discovery.timeout == pre.discovery.timeout
    &&& post.local@ == pre.local@
    &&& post.topic@ == pre.topic@
}

/// What hearing a presence announcement does: the peer's record is
/// created (an unknown peer) or refreshed in place (a known one), every
/// other record is kept, nothing else changes, and a first announcement
/// from an unknown peer is reported and answered with a dial.
pub open spec fn announcement_step(
    pre: Node,
    post: Node,
    p: Seq<u8>,
    a: Seq<u8>,
    now: u64,
    acts: Seq<NodeAction>,
) -> bool {
    &&& post.flood@ == pre.flood@
    &&& post.conns@ == pre.conns@
    &&& post.discovery.timeout == pre.discovery.timeout
    &&& disc_contains(records_view(post.discovery.records@), p)
    &&& if disc_contains(records_view(pre.discovery.records@), p) {
        &&& records_view(post.discovery.records@).len() == records_view(
            pre.discovery.records@,
        ).len()
        &&& forall|j: int| #![trigger records_view(post.discovery.records@)[j]]
            0 <= j < records_view(pre.discovery.records@).len() ==> records_view(
                post.discovery.records@,
            )[j] == (if records_view(pre.discovery.records@)[j].peer == p {
                crate::discovery::RecordView { peer: p, addr: a, last_seen: now }
            } else {
                records_view(pre.discovery.records@)[j]
            })
        &&& acts.len() == 0
    } else {
        &&& records_view(post.discovery.records@) == records_view(pre.discovery.records@).push(
            (crate::discovery::RecordView { peer: p, addr: a, last_seen: now }),
        )
        &&& acts.len() == 2
        &&& acts[0] matches NodeAction::ReportDiscovered { peer } && peer@ == p
        &&& acts[1] matches NodeAction::Dial { addr } && addr@ == a
    }
}

/// What expiry of peer `x` at time `now` does: its record had gone silent
/// for the whole timeout window; the record, its partial-view entry and
/// its session are all gone; every other peer's session is kept.
pub open spec fn expired_removed(pre: Node, post: Node, x: Seq<u8>, now: u64) -> bool {
    &&& disc_contains(records_view(pre.discovery.records@), x)
    &&& exists|i: int|
        0 <= i < records_view(pre.discovery.records@).len() && records_view(
            pre.discovery.records@,
        )[i].peer == x && record_expired(
            records_view(pre.discovery.records@)[i],
            pre.discovery.timeout,
            now,
        )
    &&& !disc_contains(records_view(post.discovery.records@), x)
    &&& remove_post(pre.flood@, x, post.flood@)
    &&& !conns_contain(post.conns@, x)
    &&& forall|q: Seq<u8>| q != x && conns_contain(pre.conns@, q) ==> conns_contain(post.conns@, q)
}

/// What a successful session does: the plan itself is stored (unless its
/// remote already had one), the remote gains an empty partial-view entry,
/// every existing session is kept, and the local subscription list is
/// announced to it.
pub open spec fn established_step(
    pre: Node,
    post: Node,
    plan: SessionPlan,
    acts: Seq<NodeAction>,
) -> bool {
    let remote = plan.remote@;
    &&& connect_post(pre.flood@, remote, post.flood@)
    &&& pv_contains(post.flood@.view, remote)
    &&& conns_contain(post.conns@, remote)
    &&& post.conns@ == (if conns_contain(pre.conns@, remote) {
        pre.conns@
    } else {
        pre.conns@.push(plan)
    })
    &&& post.discovery.records@ == pre.discovery.records@
    &&& post.discovery.timeout == pre.discovery.timeout
    &&& acts.len() == 1
    &&& acts[0] matches NodeAction::Send { to, frame } && to@ == remote && (frame matches
        Frame::Subscriptions(ts) && topics_view(ts@) == post.flood@.subs)
}

/// One announcement of the whole subscription list `subs` to each
/// partial-view peer, in order.
pub open spec fn announce_actions(
    pv: Seq<crate::pubsub::EntryView>,
    subs: Seq<Seq<u8>>,
    acts: Seq<NodeAction>,
) -> bool {
    &&& acts.len() == pv.len()
    &&& forall|i: int|
        0 <= i < pv.len() ==> ((#[trigger] acts[i]) matches NodeAction::Send { to, frame }
            && to@ == pv[i].peer && (frame matches Frame::Subscriptions(ts) && topics_view(ts@)
            == subs))
}

/// What a local subscription does: the topic joins the subscription list,
/// nothing else changes, and when the list changed the updated list is
/// announced to every connected peer.
pub open spec fn subscribe_step(pre: Node, post: Node, t: Seq<u8>, acts: Seq<NodeAction>) -> bool {
    &&& post.conns@ == pre.conns@
    &&& post.discovery.records@ == pre.discovery.records@
    &&& post.discovery.timeout == pre.discovery.timeout
    &&& post.flood@.local == pre.flood@.local
    &&& post.flood@.next_seq == pre.flood@.next_seq
    &&& post.flood@.view == pre.flood@.view
    &&& post.flood@.seen == pre.flood@.seen
    &&& post.flood@.subs == (if topics_contain(pre.flood@.subs, t) {
        pre.flood@.subs
    } else {
        pre.flood@.subs.push(t)
    })
    &&& topics_contain(post.flood@.subs, t)
    &&& if topics_contain(pre.flood@.subs, t) {
        acts.len() == 0
    } else {
        announce_actions(post.flood@.view, post.flood@.subs, acts)
    }
}

/// What a local unsubscription does: the topic leaves the subscription
/// list (membership of every other topic is kept), nothing else changes,
/// and when the list changed the updated list is announced to every
/// connected peer.
pub open spec fn unsubscribe_step(
    pre: Node,
    post: Node,
    t: Seq<u8>,
    acts: Seq<NodeAction>,
) -> bool {
    &&& post.conns@ == pre.conns@
    &&& post.discovery.records@ == pre.discovery.records@
    &&& post.discovery.timeout == pre.discovery.timeout
    &&& post.flood@.local == pre.flood@.local
    &&& post.flood@.next_seq == pre.flood@.next_seq
    &&& post.flood@.view == pre.flood@.view
    &&& post.flood@.seen == pre.flood@.seen
    &&& !topics_contain(post.flood@.subs, t)
    &&& forall|u: Seq<u8>|
        topics_contain(pre.flood@.subs, u) && u != t ==> topics_contain(post.flood@.subs, u)
    &&& forall|u: Seq<u8>| topics_contain(post.flood@.subs, u) ==> topics_contain(pre.flood@.subs, u)
    &&& if topics_contain(pre.flood@.subs, t) {
        announce_actions(post.flood@.view, post.flood@.subs, acts)
    } else {
        acts.len() == 0
    }
}

/// What a neighbor's disconnect does: its partial-view entry and session
/// are gone; discovery and every other session are kept.
pub open spec fn closed_step(pre: Node, post: Node, x: Seq<u8>, acts: Seq<NodeAction>) -> bool {
    &&& remove_post(pre.flood@, x, post.flood@)
    &&& !conns_contain(post.conns@, x)
    &&& forall|q: Seq<u8>| q != x && conns_contain(pre.conns@, q) ==> conns_contain(post.conns@, q)
    &&& post.discovery.records@ == pre.discovery.records@
    &&& post.discovery.timeout == pre.discovery.timeout
    &&& acts.len() == 0
}

/// One node of the overlay: its identity, active topic, open sessions,
/// discovery table and flood publish/subscribe state. All mutation goes
/// through [`Node::step`].
pub struct Node {
    pub local: PeerId,
    pub topic: Topic,
    pub conns: Vec<SessionPlan>,
    pub discovery: Discovery,
    pub flood: FloodSub,
}

impl Node {
    /// Well-formedness: the parts are well-formed, no peer has two
    /// sessions, and a peer appears in the partial view only while it has
    /// a live session.
    pub open spec fn wf(&self) -> bool {
        &&& self.flood.wf()
        &&& self.discovery.wf()
        &&& unique_conns(self.conns@)
        &&& self.flood@.local == self.local@
        &&& forall|p: Seq<u8>|
            #[trigger] pv_contains(self.flood@.view, p) ==> conns_contain(self.conns@, p)
    }

    /// A fresh node subscribed to its active topic, with no sessions, no
    /// records and nothing seen.
    pub fn new(local: PeerId, topic: Topic, discovery_timeout: u64) -> (r: Node)
        ensures
            r.wf(),
            r.local@ == local@,
            r.topic@ == topic@,
            r.flood@.subs == Seq::<Seq<u8>>::empty().push(topic@),
            topics_contain(r.flood@.subs, topic@),
            r.flood@.view.len() == 0,
            r.flood@.next_seq == 0,
            r.conns@.len() == 0,
            r.discovery.records@.len() == 0,
            r.discovery.timeout == discovery_timeout,
    {
        let mut flood = FloodSub::new(local.dup());
        flood.subscribe(&topic);
        Node {
            local,
            topic,
            conns: Vec::new(),
            discovery: Discovery::new(discovery_timeout),
            flood,
        }
    }

    /// One announcement of the current subscription list to each
    /// connected neighbor.
    fn announce_subscriptions(&self) -> (acts: Vec<NodeAction>)
        ensures
            announce_actions(self.flood@.view, self.flood@.subs, acts@),
    {
        let ghost pv = crate::pubsub::entries_view(self.flood.entries@);
        let mut acts: Vec<NodeAction> = Vec::new();
        let mut i: usize = 0;
        while i < self.flood.entries.len()
            invariant
                i <= self.flood.entries.len(),
                pv == crate::pubsub::entries_view(self.flood.entries@),
                acts@.len() == i,
                forall|k: int|
                    0 <= k < i ==> ((#[trigger] acts@[k]) matches NodeAction::Send { to, frame }
                        && to@ == pv[k].peer && (frame matches Frame::Subscriptions(ts)
                        && topics_view(ts@) == self.flood@.subs)),
            decreases self.flood.entries.len() - i,
        {
            let e = &self.flood.entries[i];
            assert(pv[i as int] == e@);
            let subs = self.flood.subscription_list();
            acts.push(NodeAction::Send { to: e.peer.dup(), frame: Frame::Subscriptions(subs) });
            i += 1;
        }
        acts
    }

    /// Build the action list for one flood outcome.
    fn emit_flood_actions(delivered: Option<Message>, relays: &Vec<Relay>) -> (acts: Vec<
        NodeAction,
    >)
        ensures
            flood_actions(
                match delivered {
                    Some(m) => Some(m@),
                    None => None,
                },
                relays_view(relays@),
                acts@,
            ),
    {
        let ghost rl = relays_view(relays@);
        let ghost dv: Option<MessageView> = match &delivered {
            Some(m) => Some(m@),
            None => None,
        };
        let mut acts: Vec<NodeAction> = Vec::new();
        let base: usize = match delivered {
            Some(m) => {
                acts.push(NodeAction::Deliver { msg: m });
                1
            },
            None => 0,
        };
        let mut i: usize = 0;
        while i < relays.len()
            invariant
                i <= relays.len(),
                rl == relays_view(relays@),
                base == (if dv is Some {
                    1int
                } else {
                    0int
                }),
                match dv {
                    Some(mv) => acts@.len() == i + 1 && (acts@[0] matches NodeAction::Deliver {
                        msg,
                    } && msg@ == mv) && (forall|k: int|
                        0 <= k < i ==> send_matches(#[trigger] acts@[k + 1], rl[k])),
                    None => acts@.len() == i && (forall|k: int|
                        0 <= k < i ==> send_matches(#[trigger] acts@[k], rl[k])),
                },
            decreases relays.len() - i,
        {
            let r = &relays[i];
            assert(rl[i as int] == r@);
            acts.push(NodeAction::Send { to: r.to.dup(), frame: Frame::Data(r.msg.dup()) });
            i += 1;
        }
        acts
    }

    /// Handle one event and return the actions the runtime must perform.
    /// Events are handled strictly one at a time, in arrival order, so the
    /// partial view, the cache and the session list never see interleaved
    /// mutation.
    pub fn step(&mut self, event: NodeEvent) -> (actions: Vec<NodeAction>)
        requires
            old(self).wf(),
        ensures
            final(self).wf(),
            final(self).local@ == old(self).local@,
            final(self).topic@ == old(self).topic@,
            final(self).discovery.timeout == old(self).discovery.timeout,
            event matches NodeEvent::AnnouncementHeard { peer, addr, now } ==> announcement_step(
                *old(self),
                *final(self),
                peer@,
                addr@,
                now,
                actions@,
            ),
            event matches NodeEvent::ExpiryTick { now } ==> ({
                ||| (actions@.len() == 0 && node_unchanged(*old(self), *final(self)) && (forall|
                    i: int,
                |
                    0 <= i < records_view(old(self).discovery.records@).len() ==> !record_expired(
                        #[trigger] records_view(old(self).discovery.records@)[i],
                        old(self).discovery.timeout,
                        now,
                    )))
                ||| (actions@.len() == 2 && (actions@[0] matches NodeAction::ReportExpired { peer }
                    && expired_removed(*old(self), *final(self), peer@, now) && (actions@[1] matches
                NodeAction::Disconnect { peer: p2 } && p2@ == peer@)))
            }),
            event matches NodeEvent::SessionEstablished { plan } ==> established_step(
                *old(self),
                *final(self),
                plan,
                actions@,
            ),
            event matches NodeEvent::SessionFailed { .. } ==> node_unchanged(
                *old(self),
                *final(self),
            ) && actions@.len() == 0,
            event matches NodeEvent::FrameArrived { from, frame } ==> match frame {
                Frame::Data(m) => (exists|d: Option<MessageView>, rl: Seq<RelayView>|
                    #[trigger] on_message_post(
                        old(self).flood@,
                        from@,
                        m@,
                        final(self).flood@,
                        d,
                        rl,
                    ) && flood_actions(d, rl, actions@)) && final(self).conns@ == old(self).conns@
                    && final(self).discovery.records@ == old(self).discovery.records@,
                Frame::Subscriptions(ts) => announce_post(
                    old(self).flood@,
                    from@,
                    topics_view(ts@),
                    final(self).flood@,
                ) && actions@.len() == 0 && final(self).conns@ == old(self).conns@
                    && final(self).discovery.records@ == old(self).discovery.records@,
            },
            event matches NodeEvent::PeerClosed { peer } ==> closed_step(
                *old(self),
                *final(self),
                peer@,
                actions@,
            ),
            event matches NodeEvent::Subscribe { topic } ==> subscribe_step(
                *old(self),
                *final(self),
                topic@,
                actions@,
            ),
            event matches NodeEvent::Unsubscribe { topic } ==> unsubscribe_step(
                *old(self),
                *final(self),
                topic@,
                actions@,
            ),
            event matches NodeEvent::InputLine { payload } ==> (exists|
                d: Option<MessageView>,
                rl: Seq<RelayView>,
            |
                #[trigger] publish_post(
                    old(self).flood@,
                    old(self).topic@,
                    payload@,
                    final(self).flood@,
                    d,
                    rl,
                ) && flood_actions(d, rl, actions@)) && final(self).conns@ == old(self).conns@
                && final(self).discovery.records@ == old(self).discovery.records@,
            event matches NodeEvent::InputClosed ==> ({
                &&& final(self).flood@.view.len() == 0
                &&& final(self).conns@.len() == 0
                &&& final(self).discovery.records@ == old(self).discovery.records@
                &&& final(self).flood@.subs == old(self).flood@.subs
                &&& final(self).flood@.seen == old(self).flood@.seen
                &&& final(self).flood@.next_seq == old(self).flood@.next_seq
                &&& actions@.len() == old(self).conns@.len() + 1
                &&& forall|i: int|
                    0 <= i < old(self).conns@.len() ==> ((#[trigger] actions@[i]) matches
                    NodeAction::Disconnect { peer } && peer@ == old(self).conns@[i].remote@)
                &&& actions@[old(self).conns@.len() as int] matches NodeAction::Shutdown
            }),
    {
        match event {
            NodeEvent::AnnouncementHeard { peer, addr, now } => {
                let report = peer.dup();
                let dial = crate::bytes::bytes_dup(&addr);
                let is_new = self.discovery.on_announce(peer, addr, now);
                let mut acts: Vec<NodeAction> = Vec::new();
                if is_new {
                    acts.push(NodeAction::ReportDiscovered { peer: report });
                    acts.push(NodeAction::Dial { addr: dial });
                }
                acts
            },
            NodeEvent::ExpiryTick { now } => {
                match self.discovery.expire_one(now) {
                    Some(p) => {
                        conns_remove(&mut self.conns, &p);
                        self.flood.peer_removed(&p);
                        proof {
                            let prev = old(self).flood@.view;
                            let postv = self.flood@.view;
                            assert forall|q: Seq<u8>| #[trigger]
                                pv_contains(postv, q) implies conns_contain(self.conns@, q) by {
                                lemma_pv_contains_after_remove(prev, postv, p@, q);
                                assert(conns_contain(old(self).conns@, q));
                                assert(q != p@);
                            }
                        }
                        let mut acts: Vec<NodeAction> = Vec::new();
                        acts.push(NodeAction::ReportExpired { peer: p.dup() });
                        acts.push(NodeAction::Disconnect { peer: p });
                        acts
                    },
                    None => Vec::new(),
                }
            },
            NodeEvent::SessionEstablished { plan } => {
                let ghost planv = plan;
                let remote = plan.remote.dup();
                let ghost rv = remote@;
                match conns_find(&self.conns, &plan.remote) {
                    Some(_) => {},
                    None => {
                        let ghost pre_conns = self.conns@;
                        self.conns.push(plan);
                        proof {
                            assert(self.conns@ =~= pre_conns.push(planv));
                            assert(self.conns@[pre_conns.len() as int].remote@ == rv);
                            assert forall|a: int, b: int|
                                0 <= a < b < self.conns@.len() implies self.conns@[a].remote@
                                != self.conns@[b].remote@ by {
                                if b == pre_conns.len() {
                                    assert(self.conns@[a] == pre_conns[a]);
                                }
                            }
                            assert forall|q: Seq<u8>|
                                conns_contain(pre_conns, q) implies conns_contain(
                                self.conns@,
                                q,
                            ) by {
                                let j = choose|j: int|
                                    0 <= j < pre_conns.len() && pre_conns[j].remote@ == q;
                                assert(self.conns@[j].remote@ == q);
                            }
                            assert forall|q: Seq<u8>|
                                conns_contain(self.conns@, q) implies conns_contain(pre_conns, q)
                                || q == rv by {
                                let j = choose|j: int|
                                    0 <= j < self.conns@.len() && self.conns@[j].remote@ == q;
                                if j < pre_conns.len() {
                                    assert(pre_conns[j].remote@ == q);
                                }
                            }
                        }
                    },
                }
                self.flood.peer_connected(remote.dup());
                proof {
                    let prev = old(self).flood@.view;
                    let postv = self.flood@.view;
                    assert forall|q: Seq<u8>| #[trigger]
                        pv_contains(postv, q) implies conns_contain(self.conns@, q) by {
                        if pv_contains(prev, rv) {
                            assert(postv == prev);
                        } else {
                            lemma_pv_contains_after_push(
                                prev,
                                crate::pubsub::EntryView { peer: rv, topics: Seq::empty() },
                                q,
                            );
                        }
                        if q != rv {
                            assert(pv_contains(prev, q));
                            assert(conns_contain(old(self).conns@, q));
                        }
                        assert(conns_contain(self.conns@, rv));
                    }
                }
                let subs = self.flood.subscription_list();
                let mut acts: Vec<NodeAction> = Vec::new();
                acts.push(NodeAction::Send { to: remote, frame: Frame::Subscriptions(subs) });
                acts
            },
            NodeEvent::SessionFailed { .. } => Vec::new(),
            NodeEvent::FrameArrived { from, frame } => match frame {
                Frame::Data(m) => {
                    let (delivered, relays) = self.flood.on_message(&from, &m);
                    let ghost dv: Option<MessageView> = match &delivered {
                        Some(d) => Some(d@),
                        None => None,
                    };
                    let ghost rl = relays_view(relays@);
                    let acts = Node::emit_flood_actions(delivered, &relays);
                    proof {
                        assert(on_message_post(
                            old(self).flood@,
                            from@,
                            m@,
                            self.flood@,
                            dv,
                            rl,
                        ) && flood_actions(dv, rl, acts@));
                        assert(self.flood@.view == old(self).flood@.view);
                    }
                    acts
                },
                Frame::Subscriptions(ts) => {
                    let ghost tv = topics_view(ts@);
                    self.flood.on_announcement(&from, ts);
                    proof {
                        let prev = old(self).flood@.view;
                        let postv = self.flood@.view;
                        assert forall|q: Seq<u8>| #[trigger]
                            pv_contains(postv, q) implies conns_contain(self.conns@, q) by {
                            let j = choose|j: int| 0 <= j < postv.len() && postv[j].peer == q;
                            if pv_contains(prev, from@) {
                                assert(postv[j] == (if prev[j].peer == from@ {
                                    crate::pubsub::EntryView { peer: from@, topics: tv }
                                } else {
                                    prev[j]
                                }));
                                assert(prev[j].peer == q);
                            } else {
                                assert(postv == prev);
                            }
                            assert(pv_contains(prev, q));
                        }
                    }
                    Vec::new()
                },
            },
            NodeEvent::PeerClosed { peer } => {
                conns_remove(&mut self.conns, &peer);
                self.flood.peer_removed(&peer);
                proof {
                    let prev = old(self).flood@.view;
                    let postv = self.flood@.view;
                    assert forall|q: Seq<u8>| #[trigger]
                        pv_contains(postv, q) implies conns_contain(self.conns@, q) by {
                        lemma_pv_contains_after_remove(prev, postv, peer@, q);
                        assert(conns_contain(old(self).conns@, q));
                        assert(q != peer@);
                    }
                }
                Vec::new()
            },
            NodeEvent::Subscribe { topic } => {
                let fresh = self.flood.subscribe(&topic);
                if fresh {
                    self.announce_subscriptions()
                } else {
                    Vec::new()
                }
            },
            NodeEvent::Unsubscribe { topic } => {
                let was = self.flood.unsubscribe(&topic);
                if was {
                    self.announce_subscriptions()
                } else {
                    Vec::new()
                }
            },
            NodeEvent::InputLine { payload } => {
                let topic = self.topic.dup();
                let (delivered, relays) = self.flood.publish(&topic, payload);
                let ghost dv: Option<MessageView> = match &delivered {
                    Some(d) => Some(d@),
                    None => None,
                };
                let ghost rl = relays_view(relays@);
                let acts = Node::emit_flood_actions(delivered, &relays);
                proof {
                    assert(publish_post(
                        old(self).flood@,
                        old(self).topic@,
                        payload@,
                        self.flood@,
                        dv,
                        rl,
                    ) && flood_actions(dv, rl, acts@));
                    assert(self.flood@.view == old(self).flood@.view);
                }
                acts
            },
            NodeEvent::InputClosed => {
                let mut acts: Vec<NodeAction> = Vec::new();
                let mut i: usize = 0;
                while i < self.conns.len()
                    invariant
                        i <= self.conns.len(),
                        acts@.len() == i,
                        self.conns@ == old(self).conns@,
                        self.flood == old(self).flood,
                        self.discovery == old(self).discovery,
                        self.local == old(self).local,
                        self.topic == old(self).topic,
                        forall|k: int|
                            0 <= k < i ==> ((#[trigger] acts@[k]) matches NodeAction::Disconnect {
                                peer,
                            } && peer@ == old(self).conns@[k].remote@),
                    decreases self.conns.len() - i,
                {
                    let c = &self.conns[i];
                    acts.push(NodeAction::Disconnect { peer: c.remote.dup() });
                    i += 1;
                }
                acts.push(NodeAction::Shutdown);
                self.conns = Vec::new();
                self.flood.clear_peers();
                acts
            },
        }
    }
}

/// A partial-view membership survives removing another peer's entry.
proof fn lemma_pv_contains_after_remove(
    prev: Seq<crate::pubsub::EntryView>,
    postv: Seq<crate::pubsub::EntryView>,
    x: Seq<u8>,
    q: Seq<u8>,
)
    requires
        postv == prev || exists|i: int| 0 <= i < prev.len() && postv == prev.remove(i),
        pv_contains(postv, q),
    ensures
        pv_contains(prev, q),
{
    if postv != prev {
        let i = choose|i: int| 0 <= i < prev.len() && postv == prev.remove(i);
        let j = choose|j: int| 0 <= j < postv.len() && postv[j].peer == q;
        if j < i {
            assert(prev[j].peer == q);
        } else {
            assert(prev[j + 1].peer == q);
        }
    }
}

/// A partial-view membership in a pushed view comes from the old view or
/// is the pushed peer itself.
proof fn lemma_pv_contains_after_push(
    prev: Seq<crate::pubsub::EntryView>,
    x: crate::pubsub::EntryView,
    q: Seq<u8>,
)
    requires
        pv_contains(prev.push(x), q),
    ensures
        pv_contains(prev, q) || q == x.peer,
{
    let j = choose|j: int| 0 <= j < prev.push(x).len() && prev.push(x)[j].peer == q;
    if j < prev.len() {
        assert(prev[j].peer == q);
    }
}

/// Handshake isolation at the coordinator: a failed connection attempt
/// leaves the node exactly as it was, so a peer that was neither connected
/// nor in the partial view still is neither.
pub proof fn lemma_failed_session_registers_nothing(
    pre: Node,
    post: Node,
    acts: Seq<NodeAction>,
    x: Seq<u8>,
)
    requires
        node_unchanged(pre, post),
        acts.len() == 0,
        !pv_contains(pre.flood@.view, x),
        !conns_contain(pre.conns@, x),
    ensures
        !pv_contains(post.flood@.view, x),
        !conns_contain(post.conns@, x),
{
}

/// Delivery across two coordinators: when node A publishes `payload` on
/// topic `t` while B's partial-view entry at A includes `t`, A's action
/// list sends the message to B; and when that message reaches B's
/// coordinator while B subscribes to `t` and the identity is fresh, B's
/// action list delivers it to the application with source A and the
/// published payload.
pub proof fn lemma_step_delivery(
    a_pre: crate::pubsub::FloodView,
    t: Seq<u8>,
    payload: Seq<u8>,
    a_post: crate::pubsub::FloodView,
    d_a: Option<MessageView>,
    rl_a: Seq<RelayView>,
    a_acts: Seq<NodeAction>,
    b: Seq<u8>,
    m: MessageView,
    b_pre: crate::pubsub::FloodView,
    from: Seq<u8>,
    b_post: crate::pubsub::FloodView,
    d_b: Option<MessageView>,
    rl_b: Seq<RelayView>,
    b_acts: Seq<NodeAction>,
)
    requires
        a_pre.next_seq < u64::MAX,
        publish_post(a_pre, t, payload, a_post, d_a, rl_a),
        flood_actions(d_a, rl_a, a_acts),
        pv_allows(a_pre.view, b, t),
        m == (MessageView { source: a_pre.local, topic: t, seq: a_pre.next_seq, payload }),
        on_message_post(b_pre, from, m, b_post, d_b, rl_b),
        flood_actions(d_b, rl_b, b_acts),
        topics_contain(b_pre.subs, t),
        !crate::pubsub::id_seen(b_pre.seen, a_pre.local, a_pre.next_seq),
    ensures
        exists|i: int|
            0 <= i < a_acts.len() && send_matches(#[trigger] a_acts[i], (RelayView { to: b, msg: m })),
        b_acts.len() > 0 && (b_acts[0] matches NodeAction::Deliver { msg } && msg@ == m),
{
    crate::pubsub::lemma_flood_delivery(
        a_pre, t, payload, a_post, d_a, rl_a, b, m, b_pre, from, b_post, d_b, rl_b,
    );
    let k = choose|k: int| 0 <= k < rl_a.len() && rl_a[k].to == b;
    assert(rl_a[k].msg == m);
    assert(rl_a[k] == (RelayView { to: b, msg: m }));
    match d_a {
        Some(_) => {
            assert(send_matches(a_acts[k + 1], rl_a[k]));
        },
        None => {
            assert(send_matches(a_acts[k], rl_a[k]));
        },
    }
    assert(d_b == Some(m));
}

} // verus!
