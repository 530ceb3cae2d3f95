//! Presence discovery: time-bounded records of which peer is reachable at
//! which address, refreshed by announcements and dropped after a fixed
//! silence interval.

use vstd::prelude::*;
use crate::identity::PeerId;

verus! {

/// A time-bounded belief that a peer is reachable at an address.
pub struct DiscoveryRecord {
    pub peer: PeerId,
    pub addr: Vec<u8>,
    pub last_seen: u64,
}

/// The mathematical value of a [`DiscoveryRecord`].
#[verifier::ext_equal]
pub struct RecordView {
    pub peer: Seq<u8>,
    pub addr: Seq<u8>,
    pub last_seen: u64,
}

impl View for DiscoveryRecord {
    type V = RecordView;

    open spec fn view(&self) -> RecordView {
        RecordView { peer: self.peer@, addr: self.addr@, last_seen: self.last_seen }
    }
}

/// The values of a sequence of records.
pub open spec fn records_view(rs: Seq<DiscoveryRecord>) -> Seq<RecordView> {
    rs.map_values(|r: DiscoveryRecord| r@)
}

/// Whether some record belongs to peer `p`.
pub open spec fn disc_contains(rs: Seq<RecordView>, p: Seq<u8>) -> bool {
    exists|i: int| 0 <= i < rs.len() && rs[i].peer == p
}

/// No peer has two records.
pub open spec fn unique_records(rs: Seq<RecordView>) -> bool {
    forall|i: int, j: int| 0 <= i < j < rs.len() ==> rs[i].peer != rs[j].peer
}

/// Whether a record has gone silent for the whole timeout window at time
/// `now`.
pub open spec fn record_expired(r: RecordView, timeout: u64, now: u64) -> bool {
    r.last_seen + timeout <= now
}

/// The discovery service state: one record per announced peer, and the
/// fixed silence interval after which a record expires.
pub struct Discovery {
    pub timeout: u64,
    pub records: Vec<DiscoveryRecord>,
}

impl Discovery {
    /// Well-formedness: at most one record per peer.
    pub open spec fn wf(&self) -> bool {
        unique_records(records_view(self.records@))
    }

    /// A fresh table with the given expiry interval and no records.
    pub fn new(timeout: u64) -> (r: Discovery)
        ensures
            r.wf(),
            r.timeout == timeout,
            r.records@.len() == 0,
    {
        Discovery { timeout, records: Vec::new() }
    }

    /// The index of peer `p`'s record, if it has one.
    fn find_record(&self, p: &PeerId) -> (r: Option<usize>)
        ensures
            match r {
                Some(i) => 0 <= i < self.records@.len() && records_view(self.records@)[i as int].peer
                    == p@,
                None => !disc_contains(records_view(self.records@), p@),
            },
    {
        let mut i: usize = 0;
        while i < self.records.len()
            invariant
                i <= self.records.len(),
                forall|j: int| 0 <= j < i ==> records_view(self.records@)[j].peer != p@,
            decreases self.records.len() - i,
        {
            if self.records[i].peer.same(p) {
                assert(records_view(self.records@)[i as int].peer == p@);
                return Some(i);
            }
            i += 1;
        }
        None
    }

    /// Whether peer `p` currently has a record.
    pub fn knows(&self, p: &PeerId) -> (r: bool)
        ensures
            r == disc_contains(records_view(self.records@), p@),
    {
        match self.find_record(p) {
            Some(i) => {
                assert(disc_contains(records_view(self.records@), p@));
                true
            },
            None => false,
        }
    }

    /// Record an announcement heard at time `now`: a first announcement
    /// from an unknown peer creates its record and reports `true`
    /// (`Discovered`); a repeated one refreshes the record's address and
    /// last-seen time and reports `false`.
    pub fn on_announce(&mut self, peer: PeerId, addr: Vec<u8>, now: u64) -> (is_new: bool)
        requires
            old(self).wf(),
        ensures
            final(self).wf(),
            final(self).timeout == old(self).timeout,
            is_new == !disc_contains(records_view(old(self).records@), peer@),
            records_view(final(self).records@).len() == records_view(old(self).records@).len() + (
            if is_new {
                1int
            } else {
                0int
            }),
            is_new ==> records_view(final(self).records@) == records_view(
                old(self).records@,
            ).push((RecordView { peer: peer@, addr: addr@, last_seen: now })),
            !is_new ==> forall|j: int| #![trigger records_view(final(self).records@)[j]]
                0 <= j < records_view(old(self).records@).len() ==> records_view(
                    final(self).records@,
                )[j] == (if records_view(old(self).records@)[j].peer == peer@ {
                    RecordView { peer: peer@, addr: addr@, last_seen: now }
                } else {
                    records_view(old(self).records@)[j]
                }),
            disc_contains(records_view(final(self).records@), peer@),
    {
        let ghost pre = records_view(self.records@);
        let ghost p = peer@;
        let ghost a = addr@;
        match self.find_record(&peer) {
            Some(i) => {
                self.records[i] = DiscoveryRecord { peer, addr, last_seen: now };
                assert(records_view(self.records@) =~~= pre.update(
                    i as int,
                    (RecordView { peer: p, addr: a, last_seen: now }),
                ));
                assert forall|j: int|
                    0 <= j < pre.len() implies #[trigger] records_view(self.records@)[j] == (
                if pre[j].peer == p {
                    RecordView { peer: p, addr: a, last_seen: now }
                } else {
                    pre[j]
                }) by {
                    if j != i {
                        assert(pre[j].peer != pre[i as int].peer);
                    }
                }
                assert(disc_contains(records_view(self.records@), p)) by {
                    assert(records_view(self.records@)[i as int].peer == p);
                }
                false
            },
            None => {
                self.records.push(DiscoveryRecord { peer, addr, last_seen: now });
                assert(records_view(self.records@) =~~= pre.push(
                    (RecordView { peer: p, addr: a, last_seen: now }),
                ));
                assert(disc_contains(records_view(self.records@), p)) by {
                    assert(records_view(self.records@)[pre.len() as int].peer == p);
                }
                assert forall|i: int, j: int|
                    0 <= i < j < records_view(self.records@).len() implies records_view(
                    self.records@,
                )[i].peer != records_view(self.records@)[j].peer by {
                    if j == pre.len() {
                        assert(records_view(self.records@)[i].peer == pre[i].peer);
                    }
                }
                true
            },
        }
    }

    /// Remove and report one expired record at time `now`, if any: the
    /// peer whose record has gone silent for the whole timeout window.
    /// `None` means no record is expired and nothing changed.
    pub fn expire_one(&mut self, now: u64) -> (r: Option<PeerId>)
        requires
            old(self).wf(),
        ensures
            final(self).wf(),
            final(self).timeout == old(self).timeout,
            match r {
                Some(p) => {
                    &&& disc_contains(records_view(old(self).records@), p@)
                    &&& !disc_contains(records_view(final(self).records@), p@)
                    &&& exists|i: int|
                        0 <= i < records_view(old(self).records@).len() && records_view(
                            old(self).records@,
                        )[i].peer == p@ && record_expired(
                            records_view(old(self).records@)[i],
                            old(self).timeout,
                            now,
                        ) && records_view(final(self).records@) == records_view(
                            old(self).records@,
                        ).remove(i)
                },
                None => {
                    &&& final(self).records@ == old(self).records@
                    &&& forall|i: int| #![trigger records_view(old(self).records@)[i]]
                        0 <= i < records_view(old(self).records@).len() ==> !record_expired(
                            records_view(old(self).records@)[i],
                            old(self).timeout,
                            now,
                        )
                },
            },
    {
        let ghost pre = records_view(self.records@);
        let mut i: usize = 0;
        while i < self.records.len()
            invariant
                i <= self.records.len(),
                self.timeout == old(self).timeout,
                self.records@ == old(self).records@,
                pre == records_view(self.records@),
                self.wf(),
                forall|j: int| #![trigger pre[j]]
                    0 <= j < i ==> !record_expired(pre[j], self.timeout, now),
            decreases self.records.len() - i,
        {
            let expired: bool = now >= self.timeout && self.records[i].last_seen <= now
                - self.timeout;
            assert(expired == record_expired(pre[i as int], self.timeout, now));
            if expired {
                let rec = self.records.remove(i);
                assert(records_view(self.records@) =~~= pre.remove(i as int));
                let ghost p = rec.peer@;
                assert(pre[i as int].peer == p);
                assert(!disc_contains(records_view(self.records@), p)) by {
                    assert forall|j: int|
                        0 <= j < records_view(self.records@).len() implies #[trigger] records_view(
                        self.records@,
                    )[j].peer != p by {
                        if j < i {
                            assert(records_view(self.records@)[j] == pre[j]);
                        } else {
                            assert(records_view(self.records@)[j] == pre[j + 1]);
                        }
                    }
                }
                assert forall|a: int, b: int|
                    0 <= a < b < records_view(self.records@).len() implies records_view(
                    self.records@,
                )[a].peer != records_view(self.records@)[b].peer by {
                    let ai: int = if a < i { a } else { a + 1 };
                    let bi: int = if b < i { b } else { b + 1 };
                    assert(records_view(self.records@)[a] == pre[ai]);
                    assert(records_view(self.records@)[b] == pre[bi]);
                }
                return Some(rec.peer);
            }
            i += 1;
        }
        None
    }
}

} // verus!
