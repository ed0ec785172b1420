//! Graceful restart of peers: keeping routes over a restart window, and letting go of
//! those that do not come back.
use vstd::prelude::*;

use crate::capabilities::{covers, is_covered};
use crate::fib::{removals_as_set, removed_for, FibManager, FibView};
use crate::gr::GrView;
use crate::message::PeerType;
use crate::net::{AfiSafi, IpAddr, Ipv4Addr, Ipv6Addr, Nlri};
use crate::origination::reevaluated;
use crate::rib::{
    all_stale, blackholed, enumerates, judged, lemma_take_contains, AdjRibIn, AdjRibOut, Best,
    Decision, RibOp,
};
use crate::route::Route;
use crate::state::{get_or, DaemonState, DaemonView};
use crate::table::{copy_of, Key, KeySet};
use crate::update::withdrawals;
use crate::work::{Spread, SpreadView, Work, WorkView};

verus! {

/// The prefixes in a set whose route in a table asks for its traffic to be dropped.
pub open spec fn null_routes_in<A>(m: Map<Nlri<A>, Route<A>>, s: Set<Nlri<A>>) -> Set<Nlri<A>> {
    s.filter(|n: Nlri<A>| blackholed(m, n))
}

/// The prefixes in a table whose route can be a candidate: those of routes that do not ask for their
/// traffic to be dropped.
pub open spec fn eligible<A: Key>(m: Map<Nlri<A>, Route<A>>) -> Set<Nlri<A>> {
    m.dom().filter(|n: Nlri<A>| !blackholed(m, n))
}

/// Whether operations have the import policy look again at every route of a table that can be a
/// candidate, each once and with the stale mark.
pub open spec fn judges_stale<A: Key>(ops: Seq<RibOp<A>>, m: Map<Nlri<A>, Route<A>>) -> bool {
    &&& enumerates(reevaluated(ops), eligible(m))
    &&& forall|i: int|
        0 <= i < ops.len() ==> (#[trigger] ops[i]) == RibOp::Reevaluate(
            m[ops[i]->Reevaluate_0.nlri].spec_marked_stale(),
        )
}

impl DaemonView {
    /// The state with IPv4 prefixes to be removed from the kernel.
    pub open spec fn unrouting_v4(self, s: Set<Nlri<Ipv4Addr>>) -> Self {
        DaemonView {
            fib_manager: match self.fib_manager {
                Some(f) => Some(FibView { v4: removed_for(f.v4, s), ..f }),
                None => None,
            },
            ..self
        }
    }

    /// The state with IPv6 prefixes to be removed from the kernel.
    pub open spec fn unrouting_v6(self, s: Set<Nlri<Ipv6Addr>>) -> Self {
        DaemonView {
            fib_manager: match self.fib_manager {
                Some(f) => Some(FibView { v6: removed_for(f.v6, s), ..f }),
                None => None,
            },
            ..self
        }
    }

    /// The state once IPv4 routes of a peer are given up: they leave the table of received routes,
    /// and their null routes leave the kernel.
    pub open spec fn pruned_v4(self, p: IpAddr, s: Set<Nlri<Ipv4Addr>>) -> Self {
        if self.adj_ribs_in.contains_key(p) {
            DaemonView {
                adj_ribs_in: self.adj_ribs_in.insert(p, self.adj_ribs_in[p].remove_keys(s)),
                ..self.unrouting_v4(null_routes_in(self.adj_ribs_in[p], s))
            }
        } else {
            self
        }
    }

    /// The state once IPv6 routes of a peer are given up: they leave the table of received routes,
    /// and their null routes leave the kernel.
    pub open spec fn pruned_v6(self, p: IpAddr, s: Set<Nlri<Ipv6Addr>>) -> Self {
        if self.adj_ribs_in_v6.contains_key(p) {
            DaemonView {
                adj_ribs_in_v6: self.adj_ribs_in_v6.insert(
                    p,
                    self.adj_ribs_in_v6[p].remove_keys(s),
                ),
                ..self.unrouting_v6(null_routes_in(self.adj_ribs_in_v6[p], s))
            }
        } else {
            self
        }
    }

    /// The state with the stale mark on the routes of a peer.
    pub open spec fn stale_marked(self, p: IpAddr, do_v4: bool, do_v6: bool) -> Self {
        DaemonView {
            adj_ribs_in: if do_v4 && self.adj_ribs_in.contains_key(p) {
                self.adj_ribs_in.insert(p, all_stale(self.adj_ribs_in[p]))
            } else {
                self.adj_ribs_in
            },
            adj_ribs_in_v6: if do_v6 && self.adj_ribs_in_v6.contains_key(p) {
                self.adj_ribs_in_v6.insert(p, all_stale(self.adj_ribs_in_v6[p]))
            } else {
                self.adj_ribs_in_v6
            },
            ..self
        }
    }

    /// The state with the tables of received routes of a peer cleared, family by family.
    pub open spec fn received_cleared(self, p: IpAddr, v4: bool, v6: bool) -> Self {
        DaemonView {
            adj_ribs_in: if v4 && self.adj_ribs_in.contains_key(p) {
                self.adj_ribs_in.insert(p, Map::empty())
            } else {
                self.adj_ribs_in
            },
            adj_ribs_in_v6: if v6 && self.adj_ribs_in_v6.contains_key(p) {
                self.adj_ribs_in_v6.insert(p, Map::empty())
            } else {
                self.adj_ribs_in_v6
            },
            ..self
        }
    }

    /// The state with nothing advertised to a peer, which is of the configured kind again.
    pub open spec fn advertised_reset(self, p: IpAddr) -> Self {
        let fresh = AdjRibOut::fresh(
            get_or(self.peer_config_types, p, PeerType::External),
            self.is_rr(),
        );
        DaemonView {
            adj_ribs_out: if self.adj_ribs_out.contains_key(p) {
                self.adj_ribs_out.insert(p, fresh)
            } else {
                self.adj_ribs_out
            },
            adj_ribs_out_v6: if self.adj_ribs_out_v6.contains_key(p) {
                self.adj_ribs_out_v6.insert(p, fresh)
            } else {
                self.adj_ribs_out_v6
            },
            ..self
        }
    }

    /// The state with the null routes of all routes of a peer to be removed from the kernel.
    pub open spec fn null_routes_dropped(self, p: IpAddr) -> Self {
        let v4 = get_or(self.adj_ribs_in, p, Map::empty());
        let v6 = get_or(self.adj_ribs_in_v6, p, Map::empty());
        self.unrouting_v4(null_routes_in(v4, v4.dom())).unrouting_v6(null_routes_in(v6, v6.dom()))
    }

    /// The state without the prefixes that a peer has not announced again.
    pub open spec fn stale_forgotten(self, p: IpAddr) -> Self {
        DaemonView {
            gr: GrView {
                stale_nlri: self.gr.stale_nlri.remove(p),
                stale_nlri_v6: self.gr.stale_nlri_v6.remove(p),
                ..self.gr
            },
            ..self
        }
    }

    /// Whether a peer offered to restart a family gracefully when it was last heard of.
    pub open spec fn restarts(self, p: IpAddr, family: AfiSafi) -> bool {
        self.gr.peer_families.contains_key(p) && covers(self.gr.peer_families[p], family)
    }
}

/// Whether work gives up IPv4 routes of a peer: the decision process drops them, the other peers
/// hear of their prefixes, and every prefix that had a best route is reported.
pub open spec fn prunes_v4(
    w: WorkView,
    p: IpAddr,
    s: Set<Nlri<Ipv4Addr>>,
    loc_rib: Map<Nlri<Ipv4Addr>, Best<Ipv4Addr>>,
) -> bool {
    &&& w == WorkView { ops: w.ops, spread: w.spread, watch: w.watch, ..WorkView::idle(p) }
    &&& w.spread is Others
    &&& enumerates(w.spread->Others_0, s)
    &&& w.ops == withdrawals(w.spread->Others_0)
    &&& enumerates(w.watch, loc_rib.dom())
}

/// Whether work gives up IPv6 routes of a peer: the decision process drops them, and the other peers
/// hear of their prefixes.
pub open spec fn prunes_v6(w: WorkView, p: IpAddr, s: Set<Nlri<Ipv6Addr>>) -> bool {
    &&& w == WorkView { ops_v6: w.ops_v6, spread_v6: w.spread_v6, ..WorkView::idle(p) }
    &&& w.spread_v6 is Others
    &&& enumerates(w.spread_v6->Others_0, s)
    &&& w.ops_v6 == withdrawals(w.spread_v6->Others_0)
}

/// Whether work follows from the stale marks on the routes of a peer. Where a table has routes, the
/// import policy looks at them again with the mark, so that routes of other peers win over those that
/// it accepts and the others stay out; then the other peers hear of every IPv4 prefix that had a best
/// route, and of every IPv6 prefix that has one or has lost it.
pub open spec fn stale_work(w: WorkView, s: DaemonView, p: IpAddr, do_v4: bool, do_v6: bool) -> bool {
    let v4 = get_or(s.adj_ribs_in, p, Map::empty());
    let v6 = get_or(s.adj_ribs_in_v6, p, Map::empty());
    &&& w == WorkView {
        ops: w.ops,
        ops_v6: w.ops_v6,
        spread: w.spread,
        spread_v6: w.spread_v6,
        watch: w.watch,
        ..WorkView::idle(p)
    }
    &&& if do_v4 && v4 != Map::<Nlri<Ipv4Addr>, Route<Ipv4Addr>>::empty() {
        &&& judges_stale(w.ops, v4)
        &&& enumerates(w.watch, s.rib.loc_rib.dom())
        &&& w.spread == SpreadView::Others(w.watch)
    } else {
        &&& w.ops == Seq::<RibOp<Ipv4Addr>>::empty()
        &&& w.watch == Seq::<Nlri<Ipv4Addr>>::empty()
        &&& w.spread == SpreadView::<Ipv4Addr>::Nobody
    }
    &&& if do_v6 && v6 != Map::<Nlri<Ipv6Addr>, Route<Ipv6Addr>>::empty() {
        &&& judges_stale(w.ops_v6, v6)
        &&& w.spread_v6 == SpreadView::<Ipv6Addr>::OthersAll
    } else {
        &&& w.ops_v6 == Seq::<RibOp<Ipv6Addr>>::empty()
        &&& w.spread_v6 == SpreadView::<Ipv6Addr>::Nobody
    }
}

/// Whether work follows from the opening of a restart window. The routes of a family that the peer
/// restarts get the stale mark. Of a family that it does not, the decision process drops them all, and
/// the other peers hear of every prefix that had a best route.
pub open spec fn window_work(w: WorkView, s: DaemonView, p: IpAddr, v4: bool, v6: bool) -> bool {
    let kept = WorkView {
        ops: if v4 {
            w.ops
        } else {
            Seq::empty()
        },
        watch: if v4 {
            w.watch
        } else {
            Seq::empty()
        },
        spread: if v4 {
            w.spread
        } else {
            SpreadView::Nobody
        },
        ops_v6: if v6 {
            w.ops_v6
        } else {
            Seq::empty()
        },
        spread_v6: if v6 {
            w.spread_v6
        } else {
            SpreadView::Nobody
        },
        ..w
    };
    &&& stale_work(kept, s, p, v4, v6)
    &&& !v4 ==> {
        &&& w.ops == seq![RibOp::<Ipv4Addr>::WithdrawPeer]
        &&& enumerates(w.watch, s.rib.loc_rib.dom())
        &&& w.spread == SpreadView::Others(w.watch)
    }
    &&& !v6 ==> {
        &&& w.ops_v6 == seq![RibOp::<Ipv6Addr>::WithdrawPeer]
        &&& w.spread_v6 is Others
        &&& enumerates(w.spread_v6->Others_0, s.rib.loc_rib_v6.dom())
    }
}

/// Whether work follows from the end of a peer: the decision process drops its routes, and the other
/// peers hear of every prefix that had a best route.
pub open spec fn teardown_work(w: WorkView, s: DaemonView, p: IpAddr, notify: bool) -> bool {
    &&& w == WorkView {
        ops: seq![RibOp::<Ipv4Addr>::WithdrawPeer],
        ops_v6: seq![RibOp::<Ipv6Addr>::WithdrawPeer],
        spread: SpreadView::Others(w.watch),
        spread_v6: w.spread_v6,
        watch: w.watch,
        notify,
        ..WorkView::idle(p)
    }
    &&& enumerates(w.watch, s.rib.loc_rib.dom())
    &&& w.spread_v6 is Others
    &&& enumerates(w.spread_v6->Others_0, s.rib.loc_rib_v6.dom())
}

/// What the end of a restart window, without the peer being back, makes of a state, and what it leaves to
/// be done.
pub open spec fn expiry_outcome(before: DaemonView, p: IpAddr, after: DaemonView, w: WorkView) -> bool {
    &&& after == before.stale_forgotten(p).null_routes_dropped(p).received_cleared(
        p,
        true,
        true,
    ).advertised_reset(p)
    &&& teardown_work(w, before, p, true)
}

/// Has the import policy look at routes with the stale mark again, but for those that ask for their
/// traffic to be dropped.
fn judge_ops<A: Key>(routes: Vec<Route<A>>, Ghost(m): Ghost<Map<Nlri<A>, Route<A>>>) -> (r: Vec<
    RibOp<A>,
>)
    requires
        enumerates(routes@.map_values(|x: Route<A>| x.nlri), m.dom()),
        forall|i: int|
            0 <= i < routes@.len() ==> (#[trigger] routes@[i])
                == m[routes@[i].nlri].spec_marked_stale(),
    ensures
        judges_stale(r@, m),
{
    let ghost all = routes@.map_values(|x: Route<A>| x.nlri);
    let mut r: Vec<RibOp<A>> = Vec::new();
    let mut i: usize = 0;
    assert(reevaluated(r@) =~= Seq::<Nlri<A>>::empty());
    while i < routes.len()
        invariant
            0 <= i <= routes.len(),
            all == routes@.map_values(|x: Route<A>| x.nlri),
            enumerates(all, m.dom()),
            forall|j: int|
                0 <= j < routes@.len() ==> (#[trigger] routes@[j])
                    == m[routes@[j].nlri].spec_marked_stale(),
            reevaluated(r@).no_duplicates(),
            forall|n: Nlri<A>| #[trigger]
                reevaluated(r@).contains(n) <==> all.take(i as int).contains(n) && !blackholed(m, n),
            forall|j: int|
                0 <= j < r@.len() ==> (#[trigger] r@[j]) == RibOp::Reevaluate(
                    m[r@[j]->Reevaluate_0.nlri].spec_marked_stale(),
                ),
        decreases routes.len() - i,
    {
        let route = &routes[i];
        let ghost n = route.nlri;
        let ghost before = reevaluated(r@);
        proof {
            assert(all[i as int] == n);
            assert(all.to_set().contains(n));
            assert(m.contains_key(n));
            assert(*route == m[n].spec_marked_stale());
            lemma_take_contains(all, i + 1);
            assert(!all.take(i as int).contains(n)) by {
                if all.take(i as int).contains(n) {
                    let j = all.take(i as int).index_of(n);
                    assert(all[j] == all[i as int]);
                }
            }
            assert(!before.contains(n));
        }
        if !route.attributes.is_blackhole() {
            r.push(RibOp::Reevaluate(route.share()));
            proof {
                let after = reevaluated(r@);
                assert(after =~= before.push(n));
                assert forall|x: Nlri<A>| #[trigger] after.contains(x) <==> (before.contains(x) || x
                    == n) by {
                    if before.contains(x) {
                        let j = before.index_of(x);
                        assert(after[j] == x);
                    }
                    assert(after[after.len() - 1] == n);
                }
            }
        }
        i = i + 1;
    }
    proof {
        assert(all.take(i as int) =~= all);
        assert forall|n: Nlri<A>| reevaluated(r@).to_set().contains(n) <==> eligible(m).contains(
            n,
        ) by {
            assert(all.to_set().contains(n) == all.contains(n));
            assert(reevaluated(r@).contains(n) <==> all.contains(n) && !blackholed(m, n));
        }
        assert(reevaluated(r@).to_set() =~= eligible(m));
    }
    r
}

/// Turns prefixes into operations that withdraw them.
pub fn withdraw_ops<A: Key>(nlris: &Vec<Nlri<A>>) -> (r: Vec<RibOp<A>>)
    ensures
        r@ == withdrawals(nlris@),
{
    let mut r: Vec<RibOp<A>> = Vec::new();
    let mut i: usize = 0;
    while i < nlris.len()
        invariant
            0 <= i <= nlris.len(),
            r@.len() == i,
            forall|j: int| 0 <= j < i ==> (#[trigger] r@[j]) == RibOp::<A>::Withdraw(nlris@[j]),
        decreases nlris.len() - i,
    {
        r.push(RibOp::Withdraw(nlris[i]));
        i = i + 1;
    }
    assert(r@ =~= withdrawals(nlris@));
    r
}

impl DaemonState {
    /// Asks for null routes of IPv4 prefixes to be removed from the kernel.
    fn unroute_v4(&mut self, nlris: &Vec<Nlri<Ipv4Addr>>)
        ensures
            final(self)@ == old(self)@.unrouting_v4(nlris@.to_set()),
    {
        let mut taken: Option<FibManager> = None;
        std::mem::swap(&mut self.fib_manager, &mut taken);
        if let Some(f) = taken {
            let mut f = f;
            proof {
                removals_as_set(f@.v4, nlris@);
            }
            f.pending_v4.withdraw_blackholes(nlris);
            self.fib_manager = Some(f);
        }
    }

    /// Asks for null routes of IPv6 prefixes to be removed from the kernel.
    fn unroute_v6(&mut self, nlris: &Vec<Nlri<Ipv6Addr>>)
        ensures
            final(self)@ == old(self)@.unrouting_v6(nlris@.to_set()),
    {
        let mut taken: Option<FibManager> = None;
        std::mem::swap(&mut self.fib_manager, &mut taken);
        if let Some(f) = taken {
            let mut f = f;
            proof {
                removals_as_set(f@.v6, nlris@);
            }
            f.pending_v6.withdraw_blackholes(nlris);
            self.fib_manager = Some(f);
        }
    }

    /// Gives up IPv4 routes of a peer that it has not announced again.
    pub fn prune_stale_nlri(&mut self, peer_ip: IpAddr, stale: &KeySet<Nlri<Ipv4Addr>>) -> (r: Work)
        ensures
            final(self)@ == old(self)@.pruned_v4(peer_ip, stale@),
            prunes_v4(r@, peer_ip, stale@, old(self)@.rib.loc_rib),
    {
        let list = stale.members();
        if let Some(table) = self.adj_ribs_in.remove(&peer_ip) {
            let mut table = table;
            let ghost m = table@;
            let dropped = table.blackholed_of(&list);
            proof {
                assert forall|n: Nlri<Ipv4Addr>| list@.contains(n) == stale@.contains(n) by {
                    assert(list@.to_set().contains(n) == stale@.contains(n));
                }
                assert(dropped@.to_set() =~= null_routes_in(m, stale@));
            }
            table.withdraw_all(&list);
            self.adj_ribs_in.insert(peer_ip, table);
            self.unroute_v4(&dropped);
            assert(self@.adj_ribs_in =~= old(self)@.pruned_v4(peer_ip, stale@).adj_ribs_in);
        } else {
            assert(self@.adj_ribs_in =~= old(self)@.adj_ribs_in);
        }
        assert(self@ =~= old(self)@.pruned_v4(peer_ip, stale@));
        let mut w = Work::idle(peer_ip);
        w.ops = withdraw_ops(&list);
        w.watch = self.rib.loc_rib.best_nlris();
        w.spread = Spread::Others(list);
        w
    }

    /// Gives up IPv6 routes of a peer that it has not announced again.
    pub fn prune_stale_nlri_v6(&mut self, peer_ip: IpAddr, stale: &KeySet<Nlri<Ipv6Addr>>) -> (r:
        Work)
        ensures
            final(self)@ == old(self)@.pruned_v6(peer_ip, stale@),
            prunes_v6(r@, peer_ip, stale@),
    {
        let list = stale.members();
        if let Some(table) = self.adj_ribs_in_v6.remove(&peer_ip) {
            let mut table = table;
            let ghost m = table@;
            let dropped = table.blackholed_of(&list);
            proof {
                assert forall|n: Nlri<Ipv6Addr>| list@.contains(n) == stale@.contains(n) by {
                    assert(list@.to_set().contains(n) == stale@.contains(n));
                }
                assert(dropped@.to_set() =~= null_routes_in(m, stale@));
            }
            table.withdraw_all(&list);
            self.adj_ribs_in_v6.insert(peer_ip, table);
            self.unroute_v6(&dropped);
            assert(self@.adj_ribs_in_v6 =~= old(self)@.pruned_v6(peer_ip, stale@).adj_ribs_in_v6);
        } else {
            assert(self@.adj_ribs_in_v6 =~= old(self)@.adj_ribs_in_v6);
        }
        assert(self@ =~= old(self)@.pruned_v6(peer_ip, stale@));
        let mut w = Work::idle(peer_ip);
        w.ops_v6 = withdraw_ops(&list);
        w.spread_v6 = Spread::Others(list);
        w
    }

    /// Marks the routes of a peer as stale, family by family, so that routes of other peers win over
    /// them. The import policy judges them with the mark; none that it keeps out gets in by it.
    pub fn mark_stale_and_repropagate(&mut self, peer_ip: IpAddr, do_v4: bool, do_v6: bool) -> (r:
        Work)
        ensures
            final(self)@ == old(self)@.stale_marked(peer_ip, do_v4, do_v6),
            stale_work(r@, old(self)@, peer_ip, do_v4, do_v6),
    {
        let mut w = Work::idle(peer_ip);
        if do_v4 {
            if let Some(table) = self.adj_ribs_in.remove(&peer_ip) {
                let mut table = table;
                let ghost m = table@;
                let empty = table.is_empty();
                let routes = table.mark_all_stale();
                self.adj_ribs_in.insert(peer_ip, table);
                if !empty {
                    w.ops = judge_ops(routes, Ghost(m));
                    w.watch = self.rib.loc_rib.best_nlris();
                    w.spread = Spread::Others(copy_of(&w.watch));
                }
            }
        }
        assert(self@.adj_ribs_in =~= old(self)@.stale_marked(peer_ip, do_v4, do_v6).adj_ribs_in);
        if do_v6 {
            if let Some(table) = self.adj_ribs_in_v6.remove(&peer_ip) {
                let mut table = table;
                let ghost m = table@;
                let empty = table.is_empty();
                let routes = table.mark_all_stale();
                self.adj_ribs_in_v6.insert(peer_ip, table);
                if !empty {
                    w.ops_v6 = judge_ops(routes, Ghost(m));
                    w.spread_v6 = Spread::OthersAll;
                }
            }
        }
        assert(self@.adj_ribs_in_v6 =~= old(self)@.stale_marked(
            peer_ip,
            do_v4,
            do_v6,
        ).adj_ribs_in_v6);
        w
    }

    /// Clears the tables of received routes of a peer, family by family.
    pub fn clear_received(&mut self, peer_ip: IpAddr, v4: bool, v6: bool)
        ensures
            final(self)@ == old(self)@.received_cleared(peer_ip, v4, v6),
    {
        if v4 && self.adj_ribs_in.contains_key(&peer_ip) {
            self.adj_ribs_in.insert(peer_ip, AdjRibIn::new());
        }
        if v6 && self.adj_ribs_in_v6.contains_key(&peer_ip) {
            self.adj_ribs_in_v6.insert(peer_ip, AdjRibIn::new());
        }
    }

    /// Forgets what is advertised to a peer, so that a new session starts clean.
    pub fn reset_advertised(&mut self, peer_ip: IpAddr)
        ensures
            final(self)@ == old(self)@.advertised_reset(peer_ip),
    {
        let kind = match self.peer_config_types.get(&peer_ip) {
            Some(t) => *t,
            None => PeerType::External,
        };
        let fresh = AdjRibOut::fresh(kind, !self.rib.rr_clients.is_empty());
        if self.adj_ribs_out.contains_key(&peer_ip) {
            self.adj_ribs_out.insert(peer_ip, fresh);
        }
        if self.adj_ribs_out_v6.contains_key(&peer_ip) {
            self.adj_ribs_out_v6.insert(peer_ip, fresh);
        }
    }

    /// Asks for the null routes of all routes of a peer to be removed from the kernel.
    pub fn withdraw_peer_blackhole_kernel_routes(&mut self, peer_ip: IpAddr)
        ensures
            final(self)@ == old(self)@.null_routes_dropped(peer_ip),
    {
        let v4: Vec<Nlri<Ipv4Addr>> = match self.adj_ribs_in.get(&peer_ip) {
            Some(t) => {
                let all = t.nlris();
                let r = t.blackholed_of(&all);
                proof {
                    assert forall|n: Nlri<Ipv4Addr>| all@.contains(n) == t@.dom().contains(n) by {
                        assert(all@.to_set().contains(n) == t@.dom().contains(n));
                    }
                    assert(r@.to_set() =~= null_routes_in(t@, t@.dom()));
                }
                r
            },
            None => Vec::new(),
        };
        let v6: Vec<Nlri<Ipv6Addr>> = match self.adj_ribs_in_v6.get(&peer_ip) {
            Some(t) => {
                let all = t.nlris();
                let r = t.blackholed_of(&all);
                proof {
                    assert forall|n: Nlri<Ipv6Addr>| all@.contains(n) == t@.dom().contains(n) by {
                        assert(all@.to_set().contains(n) == t@.dom().contains(n));
                    }
                    assert(r@.to_set() =~= null_routes_in(t@, t@.dom()));
                }
                r
            },
            None => Vec::new(),
        };
        proof {
            let m4 = get_or(self@.adj_ribs_in, peer_ip, Map::empty());
            let m6 = get_or(self@.adj_ribs_in_v6, peer_ip, Map::empty());
            assert(v4@.to_set() =~= null_routes_in(m4, m4.dom()));
            assert(v6@.to_set() =~= null_routes_in(m6, m6.dom()));
        }
        self.unroute_v4(&v4);
        self.unroute_v6(&v6);
    }

    /// The work that follows from the end of a peer.
    pub fn teardown(&self, peer_ip: IpAddr, notify: bool) -> (r: Work)
        ensures
            teardown_work(r@, self@, peer_ip, notify),
    {
        let mut w = Work::idle(peer_ip);
        w.ops.push(RibOp::WithdrawPeer);
        w.ops_v6.push(RibOp::WithdrawPeer);
        w.watch = self.rib.loc_rib.best_nlris();
        w.spread = Spread::Others(copy_of(&w.watch));
        w.spread_v6 = Spread::Others(self.rib.loc_rib_v6.best_nlris());
        w.notify = notify;
        assert(w@.ops =~= seq![RibOp::<Ipv4Addr>::WithdrawPeer]);
        assert(w@.ops_v6 =~= seq![RibOp::<Ipv6Addr>::WithdrawPeer]);
        w
    }

    /// The restart window of a peer has expired, and it is not back: its routes go.
    pub fn on_gr_deadline_expired(&mut self, peer_ip: IpAddr) -> (r: Work)
        ensures
            expiry_outcome(old(self)@, peer_ip, final(self)@, r@),
            final(self)@ == old(self)@.stale_forgotten(peer_ip).null_routes_dropped(
                peer_ip,
            ).received_cleared(peer_ip, true, true).advertised_reset(peer_ip),
            teardown_work(r@, old(self)@, peer_ip, true),
    {
        let _ = self.gr.stale_nlri.remove(&peer_ip);
        let _ = self.gr.stale_nlri_v6.remove(&peer_ip);
        self.withdraw_peer_blackhole_kernel_routes(peer_ip);
        self.clear_received(peer_ip, true, true);
        self.reset_advertised(peer_ip);
        self.teardown(peer_ip, true)
    }

    /// Whether a peer offered to restart a family gracefully when it was last heard of.
    pub fn restarts_family(&self, peer_ip: &IpAddr, family: AfiSafi) -> (r: bool)
        ensures
            r == self@.restarts(*peer_ip, family),
    {
        match self.gr.peer_families.get(peer_ip) {
            Some(f) => is_covered(f, family),
            None => false,
        }
    }
}

/// The stale marks let no route in that the import policy keeps out: a route is only judged again, and
/// where the policy does not accept it the peer has no candidate for its prefix. A route that asks for
/// its traffic to be dropped is not even judged.
pub proof fn stale_marks_admit_nothing<A: Key>(
    ops: Seq<RibOp<A>>,
    m: Map<Nlri<A>, Route<A>>,
    i: int,
    decision: Decision,
    route: Route<A>,
)
    requires
        judges_stale(ops, m),
        0 <= i < ops.len(),
    ensures
        ops[i] is Reevaluate,
        ({
            let raw = ops[i]->Reevaluate_0;
            &&& m.contains_key(raw.nlri)
            &&& raw == m[raw.nlri].spec_marked_stale()
            &&& !blackholed(m, raw.nlri)
            &&& decision == Decision::Accept ==> judged(ops[i], decision, route) == Some(
                RibOp::Insert(route),
            )
            &&& decision != Decision::Accept ==> judged(ops[i], decision, route) == Some(
                RibOp::Withdraw(raw.nlri),
            )
        }),
{
    let n = ops[i]->Reevaluate_0.nlri;
    assert(reevaluated(ops)[i] == n);
    assert(reevaluated(ops).to_set().contains(n));
}

} // verus!
