//! What is kept of peers whose sessions dropped, while they may come back.
use vstd::prelude::*;

use crate::clock::Instant;
use crate::message::GracefulRestartFamily;
use crate::net::{IpAddr, Ipv4Addr, Ipv6Addr, Nlri};
use crate::rib::enumerates;
use crate::table::{KeySet, Table};

verus! {

/// Restart windows and what belongs to them.
pub struct GracefulRestartState {
    /// When the window of a peer expires.
    pub deadlines: Table<IpAddr, Instant>,
    /// IPv4 prefixes that a peer has not announced again since it came back.
    pub stale_nlri: Table<IpAddr, KeySet<Nlri<Ipv4Addr>>>,
    /// IPv6 prefixes that a peer has not announced again since it came back.
    pub stale_nlri_v6: Table<IpAddr, KeySet<Nlri<Ipv6Addr>>>,
    /// The families that a peer last offered to restart gracefully.
    pub peer_families: Table<IpAddr, Vec<GracefulRestartFamily>>,
    /// Peers that keep routes over a NOTIFICATION.
    pub notification_capable_peers: KeySet<IpAddr>,
}

/// The contents of a [`GracefulRestartState`].
#[verifier::ext_equal]
pub ghost struct GrView {
    pub deadlines: Map<IpAddr, Instant>,
    pub stale_nlri: Map<IpAddr, Set<Nlri<Ipv4Addr>>>,
    pub stale_nlri_v6: Map<IpAddr, Set<Nlri<Ipv6Addr>>>,
    pub peer_families: Map<IpAddr, Seq<GracefulRestartFamily>>,
    pub notification_capable_peers: Set<IpAddr>,
}

impl View for GracefulRestartState {
    type V = GrView;

    open spec fn view(&self) -> GrView {
        GrView {
            deadlines: self.deadlines@,
            stale_nlri: self.stale_nlri@,
            stale_nlri_v6: self.stale_nlri_v6@,
            peer_families: self.peer_families@,
            notification_capable_peers: self.notification_capable_peers@,
        }
    }
}

impl GrView {
    /// No window.
    pub open spec fn empty() -> Self {
        GrView {
            deadlines: Map::empty(),
            stale_nlri: Map::empty(),
            stale_nlri_v6: Map::empty(),
            peer_families: Map::empty(),
            notification_capable_peers: Set::empty(),
        }
    }

    /// The state without a peer.
    pub open spec fn without(self, peer: IpAddr) -> Self {
        GrView {
            deadlines: self.deadlines.remove(peer),
            stale_nlri: self.stale_nlri.remove(peer),
            stale_nlri_v6: self.stale_nlri_v6.remove(peer),
            peer_families: self.peer_families.remove(peer),
            notification_capable_peers: self.notification_capable_peers.remove(peer),
        }
    }

    /// Whether the window of a peer has expired.
    pub open spec fn expired(self, peer: IpAddr, now: Instant) -> bool {
        self.deadlines.contains_key(peer) && self.deadlines[peer].nanos <= now.nanos
    }

    /// The state without the windows that have expired.
    pub open spec fn drained(self, now: Instant) -> Self {
        GrView {
            deadlines: self.deadlines.restrict(
                Set::new(|p: IpAddr| self.deadlines.contains_key(p) && !self.expired(p, now)),
            ),
            ..self
        }
    }
}

impl GracefulRestartState {
    /// No window.
    pub fn new() -> (r: Self)
        ensures
            r@ == GrView::empty(),
    {
        GracefulRestartState {
            deadlines: Table::new(),
            stale_nlri: Table::new(),
            stale_nlri_v6: Table::new(),
            peer_families: Table::new(),
            notification_capable_peers: KeySet::new(),
        }
    }

    /// Drops everything about a peer.
    pub fn remove_peer(&mut self, peer_ip: IpAddr)
        ensures
            final(self)@ == old(self)@.without(peer_ip),
    {
        let _ = self.deadlines.remove(&peer_ip);
        let _ = self.stale_nlri.remove(&peer_ip);
        let _ = self.stale_nlri_v6.remove(&peer_ip);
        let _ = self.peer_families.remove(&peer_ip);
        let _ = self.notification_capable_peers.remove(&peer_ip);
    }

    /// When the first window expires.
    pub fn earliest_deadline(&self) -> (r: Option<Instant>)
        ensures
            r is None <==> self@.deadlines == Map::<IpAddr, Instant>::empty(),
            r matches Some(d) ==> {
                &&& exists|p: IpAddr| self@.deadlines.contains_key(p) && #[trigger] self@.deadlines[p] == d
                &&& forall|p: IpAddr| #[trigger]
                    self@.deadlines.contains_key(p) ==> d.nanos <= self@.deadlines[p].nanos
            },
    {
        let n: usize = self.deadlines.len();
        let ghost m = self.deadlines@;
        let ghost o = self.deadlines.order();
        let mut best: Option<Instant> = None;
        let mut i: usize = 0;
        while i < n
            invariant
                0 <= i <= n,
                n == o.len(),
                o == self.deadlines.order(),
                m == self.deadlines@,
                o.to_set() == m.dom(),
                best is None <==> i == 0,
                best matches Some(d) ==> {
                    &&& exists|j: int| 0 <= j < i && m[#[trigger] o[j]] == d
                    &&& forall|j: int| 0 <= j < i ==> d.nanos <= m[#[trigger] o[j]].nanos
                },
            decreases n - i,
        {
            let d = *self.deadlines.value_at(i);
            let ghost before = best;
            best = match best {
                Some(b) => if b.nanos <= d.nanos {
                    Some(b)
                } else {
                    Some(d)
                },
                None => Some(d),
            };
            proof {
                assert(m[o[i as int]] == d);
                if let Some(b) = before {
                    let j = choose|j: int| 0 <= j < i && m[#[trigger] o[j]] == b;
                    assert(m[o[j]] == b);
                }
            }
            i = i + 1;
        }
        proof {
            if let Some(d) = best {
                let j = choose|j: int| 0 <= j < i && m[#[trigger] o[j]] == d;
                assert(o.contains(o[j]));
                assert(o.to_set().contains(o[j]));
                assert(m.contains_key(o[j]) && m[o[j]] == d);
                assert forall|p: IpAddr| #[trigger] m.contains_key(p) implies d.nanos
                    <= m[p].nanos by {
                    assert(o.to_set().contains(p));
                    let k = o.index_of(p);
                    assert(o[k] == p);
                }
            } else {
                assert(o =~= Seq::<IpAddr>::empty());
                assert forall|p: IpAddr| !m.contains_key(p) by {
                    assert(o.to_set().contains(p) == m.dom().contains(p));
                    assert(!o.contains(p));
                }
                assert(m =~= Map::<IpAddr, Instant>::empty());
            }
        }
        best
    }

    /// Takes out the windows that have expired, and returns their peers.
    pub fn drain_expired(&mut self, now: Instant) -> (r: Vec<IpAddr>)
        ensures
            final(self)@ == old(self)@.drained(now),
            enumerates(r@, Set::new(|p: IpAddr| old(self)@.expired(p, now))),
    {
        let ghost before = self@;
        let ghost m = self.deadlines@;
        let keys = self.deadlines.keys();
        let mut expired: Vec<IpAddr> = Vec::new();
        let mut i: usize = 0;
        while i < keys.len()
            invariant
                0 <= i <= keys.len(),
                m == before.deadlines,
                enumerates(keys@, m.dom()),
                self@ == (GrView { deadlines: self.deadlines@, ..before }),
                expired@.no_duplicates(),
                forall|p: IpAddr|
                    expired@.contains(p) <==> #[trigger] keys@.take(i as int).contains(p)
                        && before.expired(p, now),
                forall|p: IpAddr|
                    #[trigger] self.deadlines@.contains_key(p) <==> m.contains_key(p)
                        && !expired@.contains(p),
                forall|p: IpAddr| #[trigger]
                    self.deadlines@.contains_key(p) ==> self.deadlines@[p] == m[p],
            decreases keys.len() - i,
        {
            let k = keys[i];
            let ghost gone = expired@;
            let ghost done = keys@.take(i as int);
            let ghost next = keys@.take(i + 1);
            let ghost left = self.deadlines@;
            proof {
                assert(keys@.to_set().contains(k));
                assert(next =~= done.push(k));
                assert(!done.contains(k)) by {
                    if done.contains(k) {
                        let j = done.index_of(k);
                        assert(keys@[j] == keys@[i as int]);
                    }
                }
                assert forall|p: IpAddr| next.contains(p) <==> (done.contains(p) || p == k) by {
                    if done.contains(p) {
                        let j = done.index_of(p);
                        assert(next[j] == p);
                    }
                    assert(next[i as int] == k);
                    if next.contains(p) && p != k {
                        let j = next.index_of(p);
                        assert(done[j] == p);
                    }
                }
            }
            let is_expired = match self.deadlines.get(&k) {
                Some(d) => d.nanos <= now.nanos,
                None => false,
            };
            assert(is_expired == before.expired(k, now));
            assert(!gone.contains(k));
            if is_expired {
                let _ = self.deadlines.remove(&k);
                expired.push(k);
                proof {
                    assert forall|p: IpAddr| expired@.contains(p) <==> (gone.contains(p) || p
                        == k) by {
                        if gone.contains(p) {
                            let j = gone.index_of(p);
                            assert(expired@[j] == p);
                        }
                        assert(expired@[expired@.len() - 1] == k);
                    }
                }
            }
            assert forall|p: IpAddr|
                expired@.contains(p) <==> #[trigger] next.contains(p) && before.expired(p, now) by {
                assert(gone.contains(p) <==> done.contains(p) && before.expired(p, now));
                assert(next.contains(p) <==> (done.contains(p) || p == k));
            }
            i = i + 1;
        }
        proof {
            assert(keys@.take(i as int) =~= keys@);
            assert forall|p: IpAddr| expired@.contains(p) <==> before.expired(p, now) by {
                assert(keys@.to_set().contains(p) == keys@.contains(p));
                assert(keys@.take(i as int).contains(p) == keys@.contains(p));
            }
            assert(expired@.to_set() =~= Set::new(|p: IpAddr| before.expired(p, now)));
            assert(self.deadlines@ =~= before.drained(now).deadlines);
        }
        expired
    }
}

/// Every window is either drained or kept, and none is both; a drained window has expired and a
/// kept one has not.
pub proof fn drain_partitions_windows(gr: GrView, now: Instant, p: IpAddr)
    ensures
        gr.deadlines.contains_key(p) <==> gr.drained(now).deadlines.contains_key(p) || gr.expired(
            p,
            now,
        ),
        !(gr.drained(now).deadlines.contains_key(p) && gr.expired(p, now)),
        !gr.drained(now).expired(p, now),
{
}

} // verus!
