//! The discovery layer: the table of peers seen on the local network
//! segment.
//!
//! Each beacon received from a peer merges a record with a refreshed
//! last-seen timestamp into the table. A record not refreshed within the
//! expiry window is excluded from the active set and removed by the sweep;
//! a lost peer simply expires and may reappear later as a fresh record.

use vstd::prelude::*;

verus! {

/// What one peer record is: the peer's identifier, its network address, and
/// when it was last seen.
pub ghost struct PeerRecordModel {
    pub peer: Seq<u8>,
    pub addr: Seq<char>,
    pub last_seen: u64,
}

/// A transient mapping from a peer identifier to its network address, plus
/// the time its beacon was last heard.
pub struct PeerRecord {
    pub peer: Vec<u8>,
    pub addr: String,
    pub last_seen: u64,
}

impl View for PeerRecord {
    type V = PeerRecordModel;

    open spec fn view(&self) -> PeerRecordModel {
        PeerRecordModel { peer: self.peer@, addr: self.addr@, last_seen: self.last_seen }
    }
}

/// Whether a record is still within the expiry window at time `now`: a record
/// older than the window must not be used for outbound connections.
pub open spec fn is_fresh(r: PeerRecordModel, now: u64, expiry: u64) -> bool {
    now <= r.last_seen + expiry
}

/// The table without any record of the given peer.
pub open spec fn spec_drop_peer(s: Seq<PeerRecordModel>, peer: Seq<u8>) -> Seq<PeerRecordModel>
    decreases s.len(),
{
    if s.len() == 0 {
        Seq::empty()
    } else if s.first().peer == peer {
        spec_drop_peer(s.drop_first(), peer)
    } else {
        seq![s.first()] + spec_drop_peer(s.drop_first(), peer)
    }
}

/// The table restricted to records still within the expiry window.
pub open spec fn spec_sweep(s: Seq<PeerRecordModel>, now: u64, expiry: u64) -> Seq<
    PeerRecordModel,
>
    decreases s.len(),
{
    if s.len() == 0 {
        Seq::empty()
    } else if is_fresh(s.first(), now, expiry) {
        seq![s.first()] + spec_sweep(s.drop_first(), now, expiry)
    } else {
        spec_sweep(s.drop_first(), now, expiry)
    }
}

/// The identifiers of the peers whose records are still within the expiry
/// window: the peers gossip may contact.
pub open spec fn spec_active(s: Seq<PeerRecordModel>, now: u64, expiry: u64) -> Seq<Seq<u8>>
    decreases s.len(),
{
    if s.len() == 0 {
        Seq::empty()
    } else if is_fresh(s.first(), now, expiry) {
        seq![s.first().peer] + spec_active(s.drop_first(), now, expiry)
    } else {
        spec_active(s.drop_first(), now, expiry)
    }
}

/// The address recorded for a peer: that of the first record carrying it,
/// if any.
pub open spec fn spec_address_of(s: Seq<PeerRecordModel>, peer: Seq<u8>) -> Option<Seq<char>>
    decreases s.len(),
{
    if s.len() == 0 {
        None
    } else if s.first().peer == peer {
        Some(s.first().addr)
    } else {
        spec_address_of(s.drop_first(), peer)
    }
}

/// Compares `now <= last_seen + expiry` without overflowing.
fn fresh_check(last_seen: u64, now: u64, expiry: u64) -> (r: bool)
    ensures
        r == (now <= last_seen + expiry),
{
    now <= last_seen || now - last_seen <= expiry
}

/// The set of peers currently known from discovery beacons.
pub struct PeerTable {
    records: Vec<PeerRecord>,
}

impl View for PeerTable {
    type V = Seq<PeerRecordModel>;

    closed spec fn view(&self) -> Seq<PeerRecordModel> {
        self.records@.map_values(|r: PeerRecord| r@)
    }
}

impl PeerTable {
    /// No peer has two records.
    pub open spec fn wf(&self) -> bool {
        forall|i: int, j: int|
            0 <= i < j < self@.len() ==> #[trigger] self@[i].peer != #[trigger] self@[j].peer
    }

    /// An empty table.
    pub fn new() -> (r: PeerTable)
        ensures
            r@ == Seq::<PeerRecordModel>::empty(),
            r.wf(),
    {
        let r = PeerTable { records: Vec::new() };
        proof {
            assert(r@ =~= Seq::<PeerRecordModel>::empty());
        }
        r
    }

    /// The number of records held.
    pub fn record_count(&self) -> (r: usize)
        ensures
            r == self@.len(),
    {
        self.records.len()
    }

    /// Merges a discovery beacon: any previous record of the peer is
    /// replaced by one carrying the announced address and a last-seen
    /// timestamp of `now`.
    pub fn observe_beacon(&mut self, peer: Vec<u8>, addr: String, now: u64)
        requires
            old(self).wf(),
        ensures
            final(self)@ == spec_drop_peer(old(self)@, peer@).push(
                (PeerRecordModel { peer: peer@, addr: addr@, last_seen: now }),
            ),
            final(self).wf(),
    {
        let n: usize = self.records.len();
        let mut kept: Vec<PeerRecord> = Vec::new();
        let mut i: usize = 0;
        assert(self@.skip(0) =~= self@);
        while i < n
            invariant
                n == self@.len(),
                n == self.records@.len(),
                self.wf(),
                i <= n,
                spec_drop_peer(self@, peer@) =~= kept@.map_values(|r: PeerRecord| r@)
                    + spec_drop_peer(self@.skip(i as int), peer@),
                forall|j: int|
                    0 <= j < kept@.len() ==> #[trigger] kept@[j]@.peer != peer@,
                forall|j: int, k: int|
                    0 <= j < k < kept@.len() ==> #[trigger] kept@[j]@.peer
                        != #[trigger] kept@[k]@.peer,
                forall|j: int|
                    0 <= j < kept@.len() ==> exists|l: int|
                        0 <= l < i && #[trigger] kept@[j]@.peer == self@[l].peer,
            decreases n - i,
        {
            proof {
                assert(self@.skip(i as int).first() == self@[i as int]);
                assert(self@.skip(i as int).drop_first() =~= self@.skip(i as int + 1));
            }
            let keep = !crate::hex::bytes_eq(self.records[i].peer.as_slice(), peer.as_slice());
            if keep {
                let ghost pre = kept@;
                let rec = PeerRecord {
                    peer: crate::hex::copy_bytes(self.records[i].peer.as_slice()),
                    addr: self.records[i].addr.clone(),
                    last_seen: self.records[i].last_seen,
                };
                assert(rec@.peer == self@[i as int].peer);
                kept.push(rec);
                proof {
                    assert(kept@.map_values(|r: PeerRecord| r@) =~= pre.map_values(
                        |r: PeerRecord| r@,
                    ).push(rec@));
                    assert forall|j: int| 0 <= j < kept@.len() implies exists|l: int|
                        0 <= l <= i && #[trigger] kept@[j]@.peer == self@[l].peer by {
                        if j < pre.len() {
                            assert(exists|l: int|
                                0 <= l < i && #[trigger] kept@[j]@.peer == self@[l].peer);
                        } else {
                            assert(kept@[j]@.peer == self@[i as int].peer);
                        }
                    }
                    assert forall|j: int, k: int|
                        0 <= j < k < kept@.len() implies #[trigger] kept@[j]@.peer
                        != #[trigger] kept@[k]@.peer by {
                        if k == kept@.len() - 1 {
                            let l = choose|l: int|
                                0 <= l < i && #[trigger] kept@[j]@.peer == self@[l].peer;
                            assert(self@[l].peer != self@[i as int].peer);
                        }
                    }
                }
            }
            i = i + 1;
        }
        assert(self@.skip(n as int) =~= Seq::<PeerRecordModel>::empty());
        assert(spec_drop_peer(self@.skip(n as int), peer@) =~= Seq::<PeerRecordModel>::empty());
        let ghost dropped = spec_drop_peer(self@, peer@);
        assert(kept@.map_values(|r: PeerRecord| r@) =~= dropped);
        let fresh_rec = PeerRecord { peer, addr, last_seen: now };
        kept.push(fresh_rec);
        self.records = kept;
        proof {
            assert(self@ =~= dropped.push(fresh_rec@));
        }
    }

    /// Removes every record whose beacon has not been refreshed within the
    /// expiry window ending at `now`.
    pub fn sweep_expired(&mut self, now: u64, expiry: u64)
        requires
            old(self).wf(),
        ensures
            final(self)@ == spec_sweep(old(self)@, now, expiry),
            final(self).wf(),
    {
        let n: usize = self.records.len();
        let mut kept: Vec<PeerRecord> = Vec::new();
        let mut i: usize = 0;
        assert(self@.skip(0) =~= self@);
        while i < n
            invariant
                n == self@.len(),
                n == self.records@.len(),
                self.wf(),
                i <= n,
                spec_sweep(self@, now, expiry) =~= kept@.map_values(|r: PeerRecord| r@)
                    + spec_sweep(self@.skip(i as int), now, expiry),
                forall|j: int, k: int|
                    0 <= j < k < kept@.len() ==> #[trigger] kept@[j]@.peer
                        != #[trigger] kept@[k]@.peer,
                forall|j: int|
                    0 <= j < kept@.len() ==> exists|l: int|
                        0 <= l < i && #[trigger] kept@[j]@.peer == self@[l].peer,
            decreases n - i,
        {
            proof {
                assert(self@.skip(i as int).first() == self@[i as int]);
                assert(self@.skip(i as int).drop_first() =~= self@.skip(i as int + 1));
            }
            if fresh_check(self.records[i].last_seen, now, expiry) {
                let ghost pre = kept@;
                let rec = PeerRecord {
                    peer: crate::hex::copy_bytes(self.records[i].peer.as_slice()),
                    addr: self.records[i].addr.clone(),
                    last_seen: self.records[i].last_seen,
                };
                assert(rec@.peer == self@[i as int].peer);
                kept.push(rec);
                proof {
                    assert(kept@.map_values(|r: PeerRecord| r@) =~= pre.map_values(
                        |r: PeerRecord| r@,
                    ).push(rec@));
                    assert forall|j: int| 0 <= j < kept@.len() implies exists|l: int|
                        0 <= l <= i && #[trigger] kept@[j]@.peer == self@[l].peer by {
                        if j < pre.len() {
                            assert(exists|l: int|
                                0 <= l < i && #[trigger] kept@[j]@.peer == self@[l].peer);
                        } else {
                            assert(kept@[j]@.peer == self@[i as int].peer);
                        }
                    }
                }
            }
            i = i + 1;
        }
        assert(self@.skip(n as int) =~= Seq::<PeerRecordModel>::empty());
        assert(spec_sweep(self@.skip(n as int), now, expiry) =~= Seq::<PeerRecordModel>::empty());
        let ghost swept = spec_sweep(self@, now, expiry);
        assert(kept@.map_values(|r: PeerRecord| r@) =~= swept);
        self.records = kept;
        proof {
            assert(self@ =~= swept);
        }
    }

    /// The network address a peer's record advertises, if the peer is known.
    pub fn address_of(&self, peer: &[u8]) -> (r: Option<String>)
        ensures
            match r {
                Some(a) => spec_address_of(self@, peer@) == Some(a@),
                None => spec_address_of(self@, peer@) is None,
            },
    {
        let n: usize = self.records.len();
        let mut i: usize = 0;
        assert(self@.skip(0) =~= self@);
        while i < n
            invariant
                n == self@.len(),
                n == self.records@.len(),
                i <= n,
                spec_address_of(self@, peer@) == spec_address_of(self@.skip(i as int), peer@),
            decreases n - i,
        {
            proof {
                assert(self@.skip(i as int).first() == self@[i as int]);
                assert(self@.skip(i as int).drop_first() =~= self@.skip(i as int + 1));
            }
            if crate::hex::bytes_eq(self.records[i].peer.as_slice(), peer) {
                return Some(self.records[i].addr.clone());
            }
            i = i + 1;
        }
        assert(self@.skip(n as int) =~= Seq::<PeerRecordModel>::empty());
        None
    }

    /// The identifiers of the currently active peers at time `now`: exactly
    /// those whose records were refreshed within the expiry window. Gossip
    /// broadcasts go to these peers and no others.
    pub fn active_peers(&self, now: u64, expiry: u64) -> (r: Vec<Vec<u8>>)
        ensures
            r@.map_values(|p: Vec<u8>| p@) == spec_active(self@, now, expiry),
    {
        let n: usize = self.records.len();
        let mut r: Vec<Vec<u8>> = Vec::new();
        let mut i: usize = 0;
        assert(self@.skip(0) =~= self@);
        while i < n
            invariant
                n == self@.len(),
                n == self.records@.len(),
                i <= n,
                spec_active(self@, now, expiry) =~= r@.map_values(|p: Vec<u8>| p@)
                    + spec_active(self@.skip(i as int), now, expiry),
            decreases n - i,
        {
            proof {
                assert(self@.skip(i as int).first() == self@[i as int]);
                assert(self@.skip(i as int).drop_first() =~= self@.skip(i as int + 1));
            }
            if fresh_check(self.records[i].last_seen, now, expiry) {
                let ghost pre = r@;
                let p = crate::hex::copy_bytes(self.records[i].peer.as_slice());
                r.push(p);
                proof {
                    assert(r@.map_values(|p: Vec<u8>| p@) =~= pre.map_values(|p: Vec<u8>| p@).push(
                        self@[i as int].peer,
                    ));
                }
            }
            i = i + 1;
        }
        assert(self@.skip(n as int) =~= Seq::<PeerRecordModel>::empty());
        assert(spec_active(self@.skip(n as int), now, expiry) =~= Seq::<Seq<u8>>::empty());
        assert(r@.map_values(|p: Vec<u8>| p@) =~= spec_active(self@, now, expiry));
        r
    }
}

/// A peer identifier stands in the active set exactly when some record of it
/// is still within the expiry window.
pub proof fn lemma_active_means_fresh(s: Seq<PeerRecordModel>, now: u64, expiry: u64, p: Seq<u8>)
    ensures
        spec_active(s, now, expiry).contains(p) <==> exists|j: int|
            0 <= j < s.len() && (#[trigger] s[j]).peer == p && is_fresh(s[j], now, expiry),
    decreases s.len(),
{
    if s.len() == 0 {
    } else {
        lemma_active_means_fresh(s.drop_first(), now, expiry, p);
        let rest = spec_active(s.drop_first(), now, expiry);
        assert(forall|j: int|
            0 <= j < s.drop_first().len() ==> #[trigger] s.drop_first()[j] == s[j + 1]);
        if is_fresh(s.first(), now, expiry) {
            let whole = seq![s.first().peer] + rest;
            assert(whole[0] == s.first().peer);
            assert(forall|j: int| 0 <= j < rest.len() ==> whole[j + 1] == #[trigger] rest[j]);
            if whole.contains(p) {
                let i = choose|i: int| 0 <= i < whole.len() && whole[i] == p;
                if i == 0 {
                    assert(s[0].peer == p && is_fresh(s[0], now, expiry));
                } else {
                    assert(rest[i - 1] == p);
                    assert(rest.contains(p));
                }
            }
            if exists|j: int|
                0 <= j < s.len() && (#[trigger] s[j]).peer == p && is_fresh(s[j], now, expiry) {
                let j = choose|j: int|
                    0 <= j < s.len() && (#[trigger] s[j]).peer == p && is_fresh(s[j], now, expiry);
                if j == 0 {
                    assert(whole[0] == p);
                } else {
                    assert(s.drop_first()[j - 1] == s[j]);
                    assert(rest.contains(p));
                    let k = choose|k: int| 0 <= k < rest.len() && rest[k] == p;
                    assert(whole[k + 1] == p);
                }
            }
        } else {
            if exists|j: int|
                0 <= j < s.len() && (#[trigger] s[j]).peer == p && is_fresh(s[j], now, expiry) {
                let j = choose|j: int|
                    0 <= j < s.len() && (#[trigger] s[j]).peer == p && is_fresh(s[j], now, expiry);
                assert(j != 0);
                assert(s.drop_first()[j - 1] == s[j]);
            }
        }
    }
}

/// A peer none of whose records was refreshed within the expiry window is
/// excluded from the active set used for the next gossip broadcast.
pub proof fn lemma_stale_peer_excluded(s: Seq<PeerRecordModel>, now: u64, expiry: u64, p: Seq<u8>)
    requires
        forall|j: int| 0 <= j < s.len() && (#[trigger] s[j]).peer == p ==> !is_fresh(
            s[j],
            now,
            expiry,
        ),
    ensures
        !spec_active(s, now, expiry).contains(p),
{
    lemma_active_means_fresh(s, now, expiry, p);
}

} // verus!
