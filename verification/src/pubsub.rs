//! Topic-scoped flood publish/subscribe: local subscriptions, the partial
//! view of each neighbor's announced subscriptions, and the bounded
//! deduplication cache that makes flooding over a cyclic connection graph
//! safe.

use vstd::prelude::*;
use crate::bytes::{bytes_dup, bytes_eq};
use crate::identity::PeerId;

verus! {

/// An opaque name for a publish/subscribe channel. Two topics are the same
/// channel exactly when their bytes are equal.
pub struct Topic {
    pub bytes: Vec<u8>,
}

impl View for Topic {
    type V = Seq<u8>;

    open spec fn view(&self) -> Seq<u8> {
        self.bytes@
    }
}

impl Topic {
    /// Wrap raw topic bytes.
    pub fn from_bytes(bytes: Vec<u8>) -> (r: Topic)
        ensures
            r@ == bytes@,
    {
        Topic { bytes }
    }

    /// Whether two names denote the same channel.
    pub fn same(&self, other: &Topic) -> (r: bool)
        ensures
            r == (self@ == other@),
    {
        bytes_eq(&self.bytes, &other.bytes)
    }

    /// An owned copy of this name.
    pub fn dup(&self) -> (r: Topic)
        ensures
            r@ == self@,
    {
        Topic { bytes: bytes_dup(&self.bytes) }
    }
}

/// A chat message: who published it, on which topic, its per-source
/// sequence number, and the payload bytes. The pair (source, seq) is the
/// message's identity for deduplication; payload bytes never are.
pub struct Message {
    pub source: PeerId,
    pub topic: Topic,
    pub seq: u64,
    pub payload: Vec<u8>,
}

/// The mathematical value of a [`Message`].
#[verifier::ext_equal]
pub struct MessageView {
    pub source: Seq<u8>,
    pub topic: Seq<u8>,
    pub seq: u64,
    pub payload: Seq<u8>,
}

impl View for Message {
    type V = MessageView;

    open spec fn view(&self) -> MessageView {
        MessageView {
            source: self.source@,
            topic: self.topic@,
            seq: self.seq,
            payload: self.payload@,
        }
    }
}

impl Message {
    /// An owned copy of this message.
    pub fn dup(&self) -> (r: Message)
        ensures
            r@ == self@,
    {
        Message {
            source: self.source.dup(),
            topic: self.topic.dup(),
            seq: self.seq,
            payload: bytes_dup(&self.payload),
        }
    }
}

/// One neighbor's partial-view entry: the topics it has announced.
pub struct PeerTopics {
    pub peer: PeerId,
    pub topics: Vec<Topic>,
}

/// The mathematical value of a [`PeerTopics`] entry.
#[verifier::ext_equal]
pub struct EntryView {
    pub peer: Seq<u8>,
    pub topics: Seq<Seq<u8>>,
}

impl View for PeerTopics {
    type V = EntryView;

    open spec fn view(&self) -> EntryView {
        EntryView { peer: self.peer@, topics: topics_view(self.topics@) }
    }
}

/// A deduplication-cache entry: one message identity.
pub struct SeenEntry {
    pub source: PeerId,
    pub seq: u64,
}

/// The mathematical value of a message identity.
#[verifier::ext_equal]
pub struct MsgIdView {
    pub source: Seq<u8>,
    pub seq: u64,
}

impl View for SeenEntry {
    type V = MsgIdView;

    open spec fn view(&self) -> MsgIdView {
        MsgIdView { source: self.source@, seq: self.seq }
    }
}

/// One relay decision: send the message to this neighbor.
pub struct Relay {
    pub to: PeerId,
    pub msg: Message,
}

/// The mathematical value of a [`Relay`].
#[verifier::ext_equal]
pub struct RelayView {
    pub to: Seq<u8>,
    pub msg: MessageView,
}

impl View for Relay {
    type V = RelayView;

    open spec fn view(&self) -> RelayView {
        RelayView { to: self.to@, msg: self.msg@ }
    }
}

/// The values of a sequence of topics.
pub open spec fn topics_view(ts: Seq<Topic>) -> Seq<Seq<u8>> {
    ts.map_values(|t: Topic| t@)
}

/// The values of a sequence of partial-view entries.
pub open spec fn entries_view(es: Seq<PeerTopics>) -> Seq<EntryView> {
    es.map_values(|e: PeerTopics| e@)
}

/// The values of a sequence of cache entries.
pub open spec fn seen_view(ss: Seq<SeenEntry>) -> Seq<MsgIdView> {
    ss.map_values(|s: SeenEntry| s@)
}

/// The values of a sequence of relay decisions.
pub open spec fn relays_view(rs: Seq<Relay>) -> Seq<RelayView> {
    rs.map_values(|r: Relay| r@)
}

/// Whether a topic occurs in a list of topics.
pub open spec fn topics_contain(ts: Seq<Seq<u8>>, t: Seq<u8>) -> bool {
    exists|i: int| 0 <= i < ts.len() && ts[i] == t
}

/// Whether the partial view has an entry for peer `p`.
pub open spec fn pv_contains(pv: Seq<EntryView>, p: Seq<u8>) -> bool {
    exists|i: int| 0 <= i < pv.len() && pv[i].peer == p
}

/// Whether the partial view records peer `p` as subscribed to topic `t`.
pub open spec fn pv_allows(pv: Seq<EntryView>, p: Seq<u8>, t: Seq<u8>) -> bool {
    exists|i: int|
        0 <= i < pv.len() && pv[i].peer == p && topics_contain(pv[i].topics, t)
}

/// No peer has two partial-view entries.
pub open spec fn unique_peers(pv: Seq<EntryView>) -> bool {
    forall|i: int, j: int| 0 <= i < j < pv.len() ==> pv[i].peer != pv[j].peer
}

/// Whether the message identity (source, seq) is in the cache.
pub open spec fn id_seen(seen: Seq<MsgIdView>, source: Seq<u8>, seq: u64) -> bool {
    exists|i: int| 0 <= i < seen.len() && seen[i].source == source && seen[i].seq == seq
}

/// Capacity of the deduplication cache. Once full, the oldest identity is
/// evicted, so a genuinely late duplicate may be re-delivered: an accepted
/// best-effort weakening, not a correctness violation.
pub const DEDUP_CAPACITY: usize = 1024;

/// The cache after inserting one identity: the oldest entry is dropped
/// first when the cache is full.
pub open spec fn seen_inserted(
    pre: Seq<MsgIdView>,
    source: Seq<u8>,
    seq: u64,
    post: Seq<MsgIdView>,
) -> bool {
    post == (if pre.len() >= DEDUP_CAPACITY {
        pre.subrange(1, pre.len() as int)
    } else {
        pre
    }).push(MsgIdView { source, seq })
}

/// Whether relaying to peer `p` is suppressed by the one-hop exclusion
/// (never relay straight back to the sender).
pub open spec fn excluded(excl: Option<Seq<u8>>, p: Seq<u8>) -> bool {
    excl matches Some(x) && x == p
}

/// Whether some relay in the list targets peer `p`.
pub open spec fn relays_to(relays: Seq<RelayView>, p: Seq<u8>) -> bool {
    exists|i: int| 0 <= i < relays.len() && relays[i].to == p
}

/// The relay list is exactly one copy of `m` to every partial-view peer
/// subscribed to `t`, except the excluded sender.
pub open spec fn relays_exact(
    pv: Seq<EntryView>,
    t: Seq<u8>,
    excl: Option<Seq<u8>>,
    m: MessageView,
    relays: Seq<RelayView>,
) -> bool {
    &&& forall|i: int| #![trigger relays[i]]
        0 <= i < relays.len() ==> relays[i].msg == m && pv_allows(pv, relays[i].to, t)
            && !excluded(excl, relays[i].to)
    &&& forall|j: int| #![trigger pv[j]]
        0 <= j < pv.len() && topics_contain(pv[j].topics, t) && !excluded(excl, pv[j].peer)
            ==> relays_to(relays, pv[j].peer)
    &&& forall|i: int, k: int| 0 <= i < k < relays.len() ==> relays[i].to != relays[k].to
}

/// The flood publish/subscribe state of one node.
pub struct FloodSub {
    /// The local peer's identifier (the source of published messages).
    pub local: PeerId,
    /// The next sequence number to assign to a published message.
    pub next_seq: u64,
    /// The local subscription list.
    pub subs: Vec<Topic>,
    /// The partial view: one entry per connected neighbor.
    pub entries: Vec<PeerTopics>,
    /// The deduplication cache, oldest identity first.
    pub seen: Vec<SeenEntry>,
}

/// The mathematical value of a [`FloodSub`] state.
#[verifier::ext_equal]
pub struct FloodView {
    pub local: Seq<u8>,
    pub next_seq: u64,
    pub subs: Seq<Seq<u8>>,
    pub view: Seq<EntryView>,
    pub seen: Seq<MsgIdView>,
}

impl View for FloodSub {
    type V = FloodView;

    open spec fn view(&self) -> FloodView {
        FloodView {
            local: self.local@,
            next_seq: self.next_seq,
            subs: topics_view(self.subs@),
            view: entries_view(self.entries@),
            seen: seen_view(self.seen@),
        }
    }
}

/// Well-formedness of a flood state: at most one partial-view entry per
/// peer, and a bounded deduplication cache.
pub open spec fn flood_wf(v: FloodView) -> bool {
    &&& unique_peers(v.view)
    &&& v.seen.len() <= DEDUP_CAPACITY
}

/// What a local publish leaves behind and hands out: unless the sequence
/// space is exhausted, the message gets the next sequence number, its
/// identity enters the cache, it is delivered locally exactly when the
/// local node subscribes to the topic, and it is relayed to exactly the
/// neighbors whose announced topics include it.
pub open spec fn publish_post(
    pre: FloodView,
    t: Seq<u8>,
    payload: Seq<u8>,
    post: FloodView,
    delivered: Option<MessageView>,
    relays: Seq<RelayView>,
) -> bool {
    if pre.next_seq == u64::MAX {
        post == pre && delivered is None && relays.len() == 0
    } else {
        let m = MessageView { source: pre.local, topic: t, seq: pre.next_seq, payload };
        &&& post.local == pre.local
        &&& post.next_seq == pre.next_seq + 1
        &&& post.subs == pre.subs
        &&& post.view == pre.view
        &&& seen_inserted(pre.seen, pre.local, pre.next_seq, post.seen)
        &&& delivered == (if topics_contain(pre.subs, t) {
            Some(m)
        } else {
            None::<MessageView>
        })
        &&& relays_exact(pre.view, t, None, m, relays)
    }
}

/// What receiving a message from neighbor `from` leaves behind and hands
/// out: an already-seen identity is dropped silently with nothing changed;
/// a fresh one enters the cache, is delivered locally exactly when the
/// local node subscribes to its topic, and is relayed to exactly the
/// subscribed neighbors other than the sender.
pub open spec fn on_message_post(
    pre: FloodView,
    from: Seq<u8>,
    m: MessageView,
    post: FloodView,
    delivered: Option<MessageView>,
    relays: Seq<RelayView>,
) -> bool {
    if id_seen(pre.seen, m.source, m.seq) {
        post == pre && delivered is None && relays.len() == 0
    } else {
        &&& post.local == pre.local
        &&& post.next_seq == pre.next_seq
        &&& post.subs == pre.subs
        &&& post.view == pre.view
        &&& seen_inserted(pre.seen, m.source, m.seq, post.seen)
        &&& delivered == (if topics_contain(pre.subs, m.topic) {
            Some(m)
        } else {
            None::<MessageView>
        })
        &&& relays_exact(pre.view, m.topic, Some(from), m, relays)
    }
}

/// What a subscription announcement from neighbor `from` leaves behind:
/// its partial-view entry is replaced by the announced set; an
/// announcement from a peer without a live entry is ignored.
pub open spec fn announce_post(
    pre: FloodView,
    from: Seq<u8>,
    ts: Seq<Seq<u8>>,
    post: FloodView,
) -> bool {
    &&& post.local == pre.local
    &&& post.next_seq == pre.next_seq
    &&& post.subs == pre.subs
    &&& post.seen == pre.seen
    &&& if pv_contains(pre.view, from) {
        &&& post.view.len() == pre.view.len()
        &&& forall|j: int| #![trigger post.view[j]]
            0 <= j < pre.view.len() ==> post.view[j] == (if pre.view[j].peer == from {
                EntryView { peer: from, topics: ts }
            } else {
                pre.view[j]
            })
    } else {
        post.view == pre.view
    }
}

/// What registering a connected neighbor leaves behind: a fresh entry with
/// no announced topics, or nothing when the peer already has one.
pub open spec fn connect_post(pre: FloodView, p: Seq<u8>, post: FloodView) -> bool {
    &&& post.local == pre.local
    &&& post.next_seq == pre.next_seq
    &&& post.subs == pre.subs
    &&& post.seen == pre.seen
    &&& post.view == (if pv_contains(pre.view, p) {
        pre.view
    } else {
        pre.view.push(EntryView { peer: p, topics: Seq::empty() })
    })
}

/// What removing a peer (expiry or disconnect) leaves behind: its
/// partial-view entry is gone and every other entry is kept.
pub open spec fn remove_post(pre: FloodView, p: Seq<u8>, post: FloodView) -> bool {
    &&& post.local == pre.local
    &&& post.next_seq == pre.next_seq
    &&& post.subs == pre.subs
    &&& post.seen == pre.seen
    &&& !pv_contains(post.view, p)
    &&& if pv_contains(pre.view, p) {
        exists|i: int|
            0 <= i < pre.view.len() && pre.view[i].peer == p && post.view == pre.view.remove(i)
    } else {
        post.view == pre.view
    }
}

/// Topic membership survives appending another topic.
proof fn lemma_topics_contain_push(ts: Seq<Seq<u8>>, x: Seq<u8>, t: Seq<u8>)
    requires
        topics_contain(ts, t),
    ensures
        topics_contain(ts.push(x), t),
{
    let i = choose|i: int| 0 <= i < ts.len() && ts[i] == t;
    assert(ts.push(x)[i] == t);
}

/// A relay target survives appending another relay.
proof fn lemma_relays_to_push(rs: Seq<RelayView>, x: RelayView, p: Seq<u8>)
    requires
        relays_to(rs, p),
    ensures
        relays_to(rs.push(x), p),
{
    let i = choose|i: int| 0 <= i < rs.len() && rs[i].to == p;
    assert(rs.push(x)[i].to == p);
}

/// Whether a topic list contains the given topic.
pub fn topics_has(ts: &Vec<Topic>, t: &Topic) -> (r: bool)
    ensures
        r == topics_contain(topics_view(ts@), t@),
{
    let mut i: usize = 0;
    while i < ts.len()
        invariant
            i <= ts.len(),
            forall|j: int| 0 <= j < i ==> topics_view(ts@)[j] != t@,
        decreases ts.len() - i,
    {
        if ts[i].same(t) {
            assert(topics_view(ts@)[i as int] == t@);
            return true;
        }
        i += 1;
    }
    false
}

impl FloodSub {
    /// Well-formedness of this state.
    pub open spec fn wf(&self) -> bool {
        flood_wf(self@)
    }

    /// A fresh flood state for the given local peer: no subscriptions, no
    /// neighbors, an empty cache, sequence numbers starting at zero.
    pub fn new(local: PeerId) -> (r: FloodSub)
        ensures
            r.wf(),
            r@.local == local@,
            r@.next_seq == 0,
            r@.subs =~= Seq::<Seq<u8>>::empty(),
            r@.view =~= Seq::<EntryView>::empty(),
            r@.seen =~= Seq::<MsgIdView>::empty(),
    {
        FloodSub {
            local,
            next_seq: 0,
            subs: Vec::new(),
            entries: Vec::new(),
            seen: Vec::new(),
        }
    }

    /// Whether the local node subscribes to `t`.
    pub fn subscribed(&self, t: &Topic) -> (r: bool)
        ensures
            r == topics_contain(self@.subs, t@),
    {
        topics_has(&self.subs, t)
    }

    /// The index of peer `p`'s partial-view entry, if it has one.
    fn find_entry(&self, p: &PeerId) -> (r: Option<usize>)
        ensures
            match r {
                Some(i) => 0 <= i < self@.view.len() && self@.view[i as int].peer == p@,
                None => !pv_contains(self@.view, p@),
            },
    {
        let mut i: usize = 0;
        while i < self.entries.len()
            invariant
                i <= self.entries.len(),
                forall|j: int| 0 <= j < i ==> entries_view(self.entries@)[j].peer != p@,
            decreases self.entries.len() - i,
        {
            if self.entries[i].peer.same(p) {
                assert(entries_view(self.entries@)[i as int].peer == p@);
                return Some(i);
            }
            i += 1;
        }
        None
    }

    /// Whether the message identity (source, seq) has already been seen.
    pub fn is_seen(&self, source: &PeerId, seq: u64) -> (r: bool)
        ensures
            r == id_seen(self@.seen, source@, seq),
    {
        let mut i: usize = 0;
        while i < self.seen.len()
            invariant
                i <= self.seen.len(),
                forall|j: int| #![trigger seen_view(self.seen@)[j]]
                    0 <= j < i ==> !(seen_view(self.seen@)[j].source == source@
                        && seen_view(self.seen@)[j].seq == seq),
            decreases self.seen.len() - i,
        {
            if self.seen[i].seq == seq && self.seen[i].source.same(source) {
                assert(seen_view(self.seen@)[i as int].source == source@);
                return true;
            }
            i += 1;
        }
        false
    }

    /// Record a message identity in the cache, evicting the oldest entry
    /// when the cache is full.
    fn insert_seen(&mut self, source: PeerId, seq: u64)
        requires
            old(self).wf(),
        ensures
            final(self).wf(),
            seen_inserted(old(self)@.seen, source@, seq, final(self)@.seen),
            final(self)@.local == old(self)@.local,
            final(self)@.next_seq == old(self)@.next_seq,
            final(self)@.subs == old(self)@.subs,
            final(self)@.view == old(self)@.view,
    {
        let ghost pre = seen_view(self.seen@);
        if self.seen.len() >= DEDUP_CAPACITY {
            self.seen.remove(0);
            assert(seen_view(self.seen@) =~= pre.subrange(1, pre.len() as int));
        }
        self.seen.push(SeenEntry { source, seq });
        assert(seen_inserted(pre, source@, seq, seen_view(self.seen@))) by {
            if pre.len() >= DEDUP_CAPACITY {
                assert(seen_view(self.seen@) =~= pre.subrange(1, pre.len() as int).push(
                    MsgIdView { source: source@, seq },
                ));
            } else {
                assert(seen_view(self.seen@) =~= pre.push(MsgIdView { source: source@, seq }));
            }
        }
    }

    /// The relay decisions for message `m` on topic `t`: one copy to every
    /// neighbor whose announced topics include `t`, except `excl`.
    fn relay_set(&self, t: &Topic, excl: Option<&PeerId>, m: &Message) -> (r: Vec<Relay>)
        requires
            self.wf(),
        ensures
            relays_exact(
                self@.view,
                t@,
                match excl {
                    Some(e) => Some(e@),
                    None => None,
                },
                m@,
                relays_view(r@),
            ),
    {
        let ghost exclv: Option<Seq<u8>> = match excl {
            Some(e) => Some(e@),
            None => None,
        };
        let ghost pv = entries_view(self.entries@);
        let mut out: Vec<Relay> = Vec::new();
        let mut i: usize = 0;
        while i < self.entries.len()
            invariant
                i <= self.entries.len(),
                pv == entries_view(self.entries@),
                self.wf(),
                exclv == (match excl {
                    Some(e) => Some(e@),
                    None => None::<Seq<u8>>,
                }),
                forall|k: int| #![trigger relays_view(out@)[k]]
                    0 <= k < out@.len() ==> relays_view(out@)[k].msg == m@
                        && !excluded(exclv, relays_view(out@)[k].to),
                forall|k: int| #![trigger relays_view(out@)[k]]
                    0 <= k < out@.len() ==> exists|j: int|
                        0 <= j < i && pv[j].peer == relays_view(out@)[k].to
                            && topics_contain(pv[j].topics, t@),
                forall|j: int| #![trigger pv[j]]
                    0 <= j < i && topics_contain(pv[j].topics, t@) && !excluded(exclv, pv[j].peer)
                        ==> relays_to(relays_view(out@), pv[j].peer),
                forall|k1: int, k2: int|
                    0 <= k1 < k2 < out@.len() ==> relays_view(out@)[k1].to != relays_view(
                        out@,
                    )[k2].to,
            decreases self.entries.len() - i,
        {
            let ghost out_pre = relays_view(out@);
            let e = &self.entries[i];
            assert(pv[i as int] == e@);
            let skip: bool = match excl {
                Some(x) => e.peer.same(x),
                None => false,
            };
            if !skip && topics_has(&e.topics, t) {
                let ghost x = (RelayView { to: e.peer@, msg: m@ });
                out.push(Relay { to: e.peer.dup(), msg: m.dup() });
                assert(relays_view(out@) =~= out_pre.push(x));
                assert(relays_to(relays_view(out@), pv[i as int].peer)) by {
                    assert(relays_view(out@)[out_pre.len() as int].to == pv[i as int].peer);
                }
                assert forall|j: int|
                    0 <= j < i && topics_contain(#[trigger] pv[j].topics, t@) && !excluded(
                        exclv,
                        pv[j].peer,
                    ) implies relays_to(relays_view(out@), pv[j].peer) by {
                    lemma_relays_to_push(out_pre, x, pv[j].peer);
                }
                assert forall|k1: int, k2: int|
                    0 <= k1 < k2 < out@.len() implies relays_view(out@)[k1].to != relays_view(
                    out@,
                )[k2].to by {
                    if k2 == out_pre.len() {
                        let j1 = choose|j: int|
                            0 <= j < i && pv[j].peer == out_pre[k1].to && topics_contain(
                                pv[j].topics,
                                t@,
                            );
                        assert(pv[j1].peer != pv[i as int].peer);
                    }
                }
            }
            i += 1;
        }
        assert forall|k: int| 0 <= k < relays_view(out@).len() implies pv_allows(
            pv,
            #[trigger] relays_view(out@)[k].to,
            t@,
        ) by {
            let j = choose|j: int|
                0 <= j < i && pv[j].peer == relays_view(out@)[k].to && topics_contain(
                    pv[j].topics,
                    t@,
                );
            assert(0 <= j < pv.len() && pv[j].peer == relays_view(out@)[k].to && topics_contain(
                pv[j].topics,
                t@,
            ));
        }
        out
    }

    /// Add `t` to the local subscription list. Returns whether the list
    /// changed (a repeated subscription is a no-op). The coordinator
    /// announces the updated list to every connected neighbor.
    pub fn subscribe(&mut self, t: &Topic) -> (fresh: bool)
        requires
            old(self).wf(),
        ensures
            final(self).wf(),
            fresh == !topics_contain(old(self)@.subs, t@),
            final(self)@.subs == (if fresh {
                old(self)@.subs.push(t@)
            } else {
                old(self)@.subs
            }),
            topics_contain(final(self)@.subs, t@),
            final(self)@.local == old(self)@.local,
            final(self)@.next_seq == old(self)@.next_seq,
            final(self)@.view == old(self)@.view,
            final(self)@.seen == old(self)@.seen,
    {
        let ghost pre = topics_view(self.subs@);
        if topics_has(&self.subs, t) {
            assert(topics_contain(self@.subs, t@));
            false
        } else {
            self.subs.push(t.dup());
            assert(topics_view(self.subs@) =~= pre.push(t@));
            assert(topics_view(self.subs@)[pre.len() as int] == t@);
            true
        }
    }

    /// Remove every occurrence of `t` from the local subscription list;
    /// membership of all other topics is unchanged. Returns whether the
    /// topic was subscribed (a repeated unsubscription is a no-op). The
    /// coordinator announces the updated list to every connected neighbor.
    pub fn unsubscribe(&mut self, t: &Topic) -> (was: bool)
        requires
            old(self).wf(),
        ensures
            final(self).wf(),
            was == topics_contain(old(self)@.subs, t@),
            !topics_contain(final(self)@.subs, t@),
            forall|u: Seq<u8>|
                topics_contain(old(self)@.subs, u) && u != t@ ==> topics_contain(
                    final(self)@.subs,
                    u,
                ),
            forall|u: Seq<u8>|
                topics_contain(final(self)@.subs, u) ==> topics_contain(old(self)@.subs, u),
            final(self)@.local == old(self)@.local,
            final(self)@.next_seq == old(self)@.next_seq,
            final(self)@.view == old(self)@.view,
            final(self)@.seen == old(self)@.seen,
    {
        let was = topics_has(&self.subs, t);
        let ghost pre = topics_view(self.subs@);
        let mut kept: Vec<Topic> = Vec::new();
        let mut i: usize = 0;
        while i < self.subs.len()
            invariant
                i <= self.subs.len(),
                pre == topics_view(self.subs@),
                forall|k: int| #![trigger topics_view(kept@)[k]]
                    0 <= k < kept@.len() ==> topics_view(kept@)[k] != t@,
                forall|k: int| #![trigger topics_view(kept@)[k]]
                    0 <= k < kept@.len() ==> topics_contain(pre, topics_view(kept@)[k]),
                forall|j: int| #![trigger pre[j]]
                    0 <= j < i && pre[j] != t@ ==> topics_contain(topics_view(kept@), pre[j]),
            decreases self.subs.len() - i,
        {
            let ghost kept_pre = topics_view(kept@);
            let u = &self.subs[i];
            assert(pre[i as int] == u@);
            if !u.same(t) {
                kept.push(u.dup());
                assert(topics_view(kept@) =~= kept_pre.push(u@));
                assert(topics_view(kept@)[kept_pre.len() as int] == u@);
                assert(topics_contain(pre, u@));
                assert forall|j: int|
                    0 <= j < i && #[trigger] pre[j] != t@ implies topics_contain(
                    topics_view(kept@),
                    pre[j],
                ) by {
                    lemma_topics_contain_push(kept_pre, u@, pre[j]);
                }
            }
            i += 1;
        }
        self.subs = kept;
        was
    }

    /// The identifiers of all connected neighbors (the partial-view
    /// peers), for announcing subscription changes.
    pub fn connected_peers(&self) -> (r: Vec<PeerId>)
        ensures
            r@.len() == self@.view.len(),
            forall|i: int| 0 <= i < r@.len() ==> r@[i]@ == self@.view[i].peer,
    {
        let mut out: Vec<PeerId> = Vec::new();
        let mut i: usize = 0;
        while i < self.entries.len()
            invariant
                i <= self.entries.len(),
                out@.len() == i,
                forall|j: int|
                    0 <= j < i ==> out@[j]@ == entries_view(self.entries@)[j].peer,
            decreases self.entries.len() - i,
        {
            let e = &self.entries[i];
            assert(entries_view(self.entries@)[i as int] == e@);
            out.push(e.peer.dup());
            i += 1;
        }
        out
    }

    /// Register a newly connected neighbor with an empty announced set.
    pub fn peer_connected(&mut self, peer: PeerId)
        requires
            old(self).wf(),
        ensures
            final(self).wf(),
            connect_post(old(self)@, peer@, final(self)@),
            pv_contains(final(self)@.view, peer@),
    {
        let ghost pre = entries_view(self.entries@);
        let ghost p = peer@;
        match self.find_entry(&peer) {
            Some(i) => {
                assert(pv_contains(pre, p));
            },
            None => {
                self.entries.push(PeerTopics { peer, topics: Vec::new() });
                assert(entries_view(self.entries@) =~~= pre.push(
                    (EntryView { peer: p, topics: Seq::empty() }),
                ));
                assert(pv_contains(entries_view(self.entries@), p)) by {
                    assert(entries_view(self.entries@)[pre.len() as int].peer == p);
                }
            },
        }
    }

    /// Drop a peer's partial-view entry (expiry or disconnect): afterwards
    /// no relay decision can target it.
    pub fn peer_removed(&mut self, peer: &PeerId)
        requires
            old(self).wf(),
        ensures
            final(self).wf(),
            remove_post(old(self)@, peer@, final(self)@),
    {
        let ghost pre = entries_view(self.entries@);
        match self.find_entry(peer) {
            Some(i) => {
                self.entries.remove(i);
                assert(entries_view(self.entries@) =~= pre.remove(i as int));
                assert(!pv_contains(entries_view(self.entries@), peer@)) by {
                    assert forall|j: int|
                        0 <= j < entries_view(self.entries@).len() implies #[trigger] entries_view(
                        self.entries@,
                    )[j].peer != peer@ by {
                        if j < i {
                            assert(entries_view(self.entries@)[j] == pre[j]);
                        } else {
                            assert(entries_view(self.entries@)[j] == pre[j + 1]);
                        }
                    }
                }
            },
            None => {},
        }
    }

    /// Replace `from`'s partial-view entry with the announced topic set;
    /// ignored when `from` has no live entry.
    pub fn on_announcement(&mut self, from: &PeerId, topics: Vec<Topic>)
        requires
            old(self).wf(),
        ensures
            final(self).wf(),
            announce_post(old(self)@, from@, topics_view(topics@), final(self)@),
    {
        let ghost pre = entries_view(self.entries@);
        let ghost tv = topics_view(topics@);
        match self.find_entry(from) {
            Some(i) => {
                let peer = self.entries[i].peer.dup();
                self.entries[i] = PeerTopics { peer, topics };
                assert(entries_view(self.entries@) =~= pre.update(
                    i as int,
                    EntryView { peer: from@, topics: tv },
                ));
                assert forall|j: int|
                    0 <= j < pre.len() implies #[trigger] entries_view(self.entries@)[j] == (
                if pre[j].peer == from@ {
                    EntryView { peer: from@, topics: tv }
                } else {
                    pre[j]
                }) by {
                    if j != i {
                        assert(pre[j].peer != pre[i as int].peer);
                    }
                }
            },
            None => {},
        }
    }

    /// Publish a payload on a topic: assign the next sequence number,
    /// remember the message identity, deliver locally when subscribed, and
    /// relay to exactly the subscribed neighbors. When the local sequence
    /// space is exhausted nothing is published.
    pub fn publish(&mut self, topic: &Topic, payload: Vec<u8>) -> (r: (
        Option<Message>,
        Vec<Relay>,
    ))
        requires
            old(self).wf(),
        ensures
            final(self).wf(),
            publish_post(
                old(self)@,
                topic@,
                payload@,
                final(self)@,
                match r.0 {
                    Some(m) => Some(m@),
                    None => None,
                },
                relays_view(r.1@),
            ),
    {
        if self.next_seq == u64::MAX {
            return (None, Vec::new());
        }
        let m = Message {
            source: self.local.dup(),
            topic: topic.dup(),
            seq: self.next_seq,
            payload,
        };
        let relays = self.relay_set(topic, None, &m);
        let delivered: Option<Message> = if self.subscribed(topic) {
            Some(m.dup())
        } else {
            None
        };
        let source = self.local.dup();
        self.insert_seen(source, self.next_seq);
        self.next_seq = self.next_seq + 1;
        (delivered, relays)
    }

    /// Handle a message received from neighbor `from`: drop a duplicate
    /// identity silently; otherwise remember it, deliver locally when
    /// subscribed, and relay to the subscribed neighbors except `from`.
    pub fn on_message(&mut self, from: &PeerId, m: &Message) -> (r: (
        Option<Message>,
        Vec<Relay>,
    ))
        requires
            old(self).wf(),
        ensures
            final(self).wf(),
            on_message_post(
                old(self)@,
                from@,
                m@,
                final(self)@,
                match r.0 {
                    Some(d) => Some(d@),
                    None => None,
                },
                relays_view(r.1@),
            ),
    {
        if self.is_seen(&m.source, m.seq) {
            return (None, Vec::new());
        }
        let relays = self.relay_set(&m.topic, Some(from), m);
        let delivered: Option<Message> = if self.subscribed(&m.topic) {
            Some(m.dup())
        } else {
            None
        };
        let source = m.source.dup();
        self.insert_seen(source, m.seq);
        (delivered, relays)
    }

    /// An owned copy of the local subscription list, for announcing it to
    /// a neighbor.
    pub fn subscription_list(&self) -> (r: Vec<Topic>)
        ensures
            topics_view(r@) == self@.subs,
    {
        let mut out: Vec<Topic> = Vec::new();
        let mut i: usize = 0;
        while i < self.subs.len()
            invariant
                i <= self.subs.len(),
                out@.len() == i,
                forall|j: int| 0 <= j < i ==> topics_view(out@)[j] == topics_view(self.subs@)[j],
            decreases self.subs.len() - i,
        {
            let u = &self.subs[i];
            assert(topics_view(self.subs@)[i as int] == u@);
            let ghost out_pre = topics_view(out@);
            out.push(u.dup());
            assert(topics_view(out@) =~= out_pre.push(u@));
            i += 1;
        }
        assert(topics_view(out@) =~= topics_view(self.subs@));
        out
    }

    /// Forget every neighbor (connection teardown): the partial view
    /// empties; subscriptions, the cache and sequence numbers are kept.
    pub fn clear_peers(&mut self)
        requires
            old(self).wf(),
        ensures
            final(self).wf(),
            final(self)@.view =~= Seq::<EntryView>::empty(),
            final(self)@.local == old(self)@.local,
            final(self)@.next_seq == old(self)@.next_seq,
            final(self)@.subs == old(self)@.subs,
            final(self)@.seen == old(self)@.seen,
    {
        self.entries = Vec::new();
        assert(entries_view(self.entries@) =~= Seq::<EntryView>::empty());
    }
}


/// No relay decision targets a peer that the partial view does not record
/// as subscribed to the topic.
pub proof fn lemma_relays_respect_view(
    pv: Seq<EntryView>,
    t: Seq<u8>,
    excl: Option<Seq<u8>>,
    m: MessageView,
    relays: Seq<RelayView>,
    x: Seq<u8>,
)
    requires
        relays_exact(pv, t, excl, m, relays),
        !pv_allows(pv, x, t),
    ensures
        forall|i: int| 0 <= i < relays.len() ==> (#[trigger] relays[i]).to != x,
{
    assert forall|i: int| 0 <= i < relays.len() implies (#[trigger] relays[i]).to != x by {
        if relays[i].to == x {
            assert(pv_allows(pv, x, t));
        }
    }
}

/// Delivery: when node A publishes payload `payload` on topic `t`, every
/// neighbor `b` whose partial-view entry at A includes `t` is sent the
/// message; and a node subscribed to `t` that receives that message while
/// its identity is still fresh delivers it to its application with source
/// A and the published payload.
pub proof fn lemma_flood_delivery(
    pre_a: FloodView,
    t: Seq<u8>,
    payload: Seq<u8>,
    post_a: FloodView,
    delivered_a: Option<MessageView>,
    relays_a: Seq<RelayView>,
    b: Seq<u8>,
    m: MessageView,
    pre_b: FloodView,
    from: Seq<u8>,
    post_b: FloodView,
    delivered_b: Option<MessageView>,
    relays_b: Seq<RelayView>,
)
    requires
        pre_a.next_seq < u64::MAX,
        publish_post(pre_a, t, payload, post_a, delivered_a, relays_a),
        pv_allows(pre_a.view, b, t),
        m == (MessageView { source: pre_a.local, topic: t, seq: pre_a.next_seq, payload }),
        on_message_post(pre_b, from, m, post_b, delivered_b, relays_b),
        topics_contain(pre_b.subs, t),
        !id_seen(pre_b.seen, pre_a.local, pre_a.next_seq),
    ensures
        relays_to(relays_a, b),
        delivered_b == Some(m),
{
    let j = choose|j: int|
        0 <= j < pre_a.view.len() && pre_a.view[j].peer == b && topics_contain(
            pre_a.view[j].topics,
            t,
        );
    assert(relays_to(relays_a, pre_a.view[j].peer));
}

/// Deduplication idempotence: over any relay paths, a message identity is
/// delivered to the local application at most once. The first fresh
/// receipt delivers exactly when the topic is locally subscribed; a
/// repeated receipt of the same identity changes nothing, delivers
/// nothing, and relays nothing.
pub proof fn lemma_dedup_idempotence(
    pre: FloodView,
    from1: Seq<u8>,
    m: MessageView,
    mid: FloodView,
    d1: Option<MessageView>,
    r1: Seq<RelayView>,
    from2: Seq<u8>,
    post: FloodView,
    d2: Option<MessageView>,
    r2: Seq<RelayView>,
)
    requires
        !id_seen(pre.seen, m.source, m.seq),
        on_message_post(pre, from1, m, mid, d1, r1),
        on_message_post(mid, from2, m, post, d2, r2),
    ensures
        d1 == (if topics_contain(pre.subs, m.topic) {
            Some(m)
        } else {
            None::<MessageView>
        }),
        d2 is None,
        r2.len() == 0,
        post == mid,
{
    assert(id_seen(mid.seen, m.source, m.seq)) by {
        let s = if pre.seen.len() >= DEDUP_CAPACITY {
            pre.seen.subrange(1, pre.seen.len() as int)
        } else {
            pre.seen
        };
        assert(mid.seen == s.push(MsgIdView { source: m.source, seq: m.seq }));
        assert(mid.seen[s.len() as int].source == m.source);
    }
}

/// Partial-view consistency: once peer `x` has announced a subscription
/// set without topic `t`, no message published locally on `t` is relayed
/// to `x`.
pub proof fn lemma_unsubscribed_peer_not_relayed(
    pre: FloodView,
    x: Seq<u8>,
    ts: Seq<Seq<u8>>,
    mid: FloodView,
    t: Seq<u8>,
    payload: Seq<u8>,
    post: FloodView,
    delivered: Option<MessageView>,
    relays: Seq<RelayView>,
)
    requires
        flood_wf(pre),
        announce_post(pre, x, ts, mid),
        !topics_contain(ts, t),
        publish_post(mid, t, payload, post, delivered, relays),
    ensures
        forall|i: int| 0 <= i < relays.len() ==> (#[trigger] relays[i]).to != x,
{
    if mid.next_seq == u64::MAX {
    } else {
        assert(!pv_allows(mid.view, x, t)) by {
            if pv_allows(mid.view, x, t) {
                let j = choose|j: int|
                    0 <= j < mid.view.len() && mid.view[j].peer == x && topics_contain(
                        mid.view[j].topics,
                        t,
                    );
                if pv_contains(pre.view, x) {
                    assert(mid.view[j] == (if pre.view[j].peer == x {
                        EntryView { peer: x, topics: ts }
                    } else {
                        pre.view[j]
                    }));
                    if pre.view[j].peer == x {
                        assert(topics_contain(ts, t));
                    }
                } else {
                    assert(pre.view[j].peer == x);
                }
            }
        }
        let mv = MessageView { source: mid.local, topic: t, seq: mid.next_seq, payload };
        lemma_relays_respect_view(mid.view, t, None, mv, relays, x);
    }
}

/// Receive-side partial-view consistency: once peer `x` has announced a
/// subscription set without topic `t`, a message received on `t` is not
/// relayed to `x` either.
pub proof fn lemma_unsubscribed_peer_not_relayed_on_receive(
    pre: FloodView,
    x: Seq<u8>,
    ts: Seq<Seq<u8>>,
    mid: FloodView,
    from: Seq<u8>,
    m: MessageView,
    post: FloodView,
    delivered: Option<MessageView>,
    relays: Seq<RelayView>,
)
    requires
        flood_wf(pre),
        announce_post(pre, x, ts, mid),
        !topics_contain(ts, m.topic),
        on_message_post(mid, from, m, post, delivered, relays),
    ensures
        forall|i: int| 0 <= i < relays.len() ==> (#[trigger] relays[i]).to != x,
{
    if id_seen(mid.seen, m.source, m.seq) {
    } else {
        assert(!pv_allows(mid.view, x, m.topic)) by {
            if pv_allows(mid.view, x, m.topic) {
                let j = choose|j: int|
                    0 <= j < mid.view.len() && mid.view[j].peer == x && topics_contain(
                        mid.view[j].topics,
                        m.topic,
                    );
                if pv_contains(pre.view, x) {
                    assert(mid.view[j] == (if pre.view[j].peer == x {
                        EntryView { peer: x, topics: ts }
                    } else {
                        pre.view[j]
                    }));
                    if pre.view[j].peer == x {
                        assert(topics_contain(ts, m.topic));
                    }
                } else {
                    assert(pre.view[j].peer == x);
                }
            }
        }
        lemma_relays_respect_view(mid.view, m.topic, Some(from), m, relays, x);
    }
}

/// Expiry removes membership: after peer `x` is removed from the partial
/// view, it has no entry left, and nothing published locally on any topic
/// is relayed to it.
pub proof fn lemma_expired_peer_forgotten(
    pre: FloodView,
    x: Seq<u8>,
    mid: FloodView,
    t: Seq<u8>,
    payload: Seq<u8>,
    post: FloodView,
    delivered: Option<MessageView>,
    relays: Seq<RelayView>,
)
    requires
        flood_wf(pre),
        remove_post(pre, x, mid),
        publish_post(mid, t, payload, post, delivered, relays),
    ensures
        !pv_contains(mid.view, x),
        forall|i: int| 0 <= i < relays.len() ==> (#[trigger] relays[i]).to != x,
{
    if mid.next_seq == u64::MAX {
    } else {
        assert(!pv_allows(mid.view, x, t)) by {
            if pv_allows(mid.view, x, t) {
                let j = choose|j: int|
                    0 <= j < mid.view.len() && mid.view[j].peer == x && topics_contain(
                        mid.view[j].topics,
                        t,
                    );
                assert(pv_contains(mid.view, x));
            }
        }
        let mv = MessageView { source: mid.local, topic: t, seq: mid.next_seq, payload };
        lemma_relays_respect_view(mid.view, t, None, mv, relays, x);
    }
}

} // verus!

