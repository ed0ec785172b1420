//! What an event leaves to be done outside of the daemon's state, and what follows once the
//! decision process has done its part.
//!
//! A handler of an event returns [`Work`]. Its operations go to the decision process, in order; what
//! that answers goes to [`DaemonState::settle`], which brings the best routes and the kernel's queue
//! up to date and says what the export engine is asked and which events are sent out.
use vstd::prelude::*;

use crate::fib::{
    null_routes_lifted, pending_after_all, with_null_routes, FibManager, FibView,
};
use crate::net::{IpAddr, Ipv4Addr, Ipv6Addr, Nlri};
use crate::propagation::{events_of, Audience, Export, ExportView, RouteEvent};
use crate::rib::{
    after_changes, enumerates, lemma_take_contains, touched, touched_nlris, BestPathChange, LocRib,
    RibOp,
};
use crate::state::{DaemonState, DaemonView, RibView};
use crate::table::{holds, Key, Table};

verus! {

/// Which prefixes of a family are propagated once the decision process has answered, and to whom.
#[derive(Debug)]
pub enum Spread<A> {
    Nobody,
    /// These, to every peer with a session.
    Everyone(Vec<Nlri<A>>),
    /// These, to the other peers.
    Others(Vec<Nlri<A>>),
    /// Those that the decision process changed, to every peer with a session.
    Changed,
    /// All that have a best route or that the decision process changed, to the other peers.
    OthersAll,
}

/// The contents of a [`Spread`].
pub ghost enum SpreadView<A> {
    Nobody,
    Everyone(Seq<Nlri<A>>),
    Others(Seq<Nlri<A>>),
    Changed,
    OthersAll,
}

impl<A> View for Spread<A> {
    type V = SpreadView<A>;

    open spec fn view(&self) -> SpreadView<A> {
        match self {
            Spread::Nobody => SpreadView::Nobody,
            Spread::Everyone(v) => SpreadView::Everyone(v@),
            Spread::Others(v) => SpreadView::Others(v@),
            Spread::Changed => SpreadView::Changed,
            Spread::OthersAll => SpreadView::OthersAll,
        }
    }
}

/// What an event leaves to be done.
pub struct Work {
    /// The peer that the event is about.
    pub peer: IpAddr,
    /// What the decision process is to do for IPv4 routes of the peer, in order.
    pub ops: Vec<RibOp<Ipv4Addr>>,
    /// What the decision process is to do for IPv6 routes of the peer, in order.
    pub ops_v6: Vec<RibOp<Ipv6Addr>>,
    /// Whether changes of IPv4 best routes go to the kernel.
    pub install: bool,
    /// Whether changes of IPv6 best routes go to the kernel.
    pub install_v6: bool,
    /// Prefixes that get a null route.
    pub null_routes: Vec<Nlri<Ipv4Addr>>,
    pub null_routes_v6: Vec<Nlri<Ipv6Addr>>,
    /// Prefixes that lose their null route.
    pub lifted: Vec<Nlri<Ipv4Addr>>,
    pub lifted_v6: Vec<Nlri<Ipv6Addr>>,
    pub spread: Spread<Ipv4Addr>,
    pub spread_v6: Spread<Ipv6Addr>,
    /// Prefixes whose best route is reported to those who watch routes.
    pub watch: Vec<Nlri<Ipv4Addr>>,
    /// Whether those who watch peers are told.
    pub notify: bool,
}

/// The contents of a [`Work`].
#[verifier::ext_equal]
pub ghost struct WorkView {
    pub peer: IpAddr,
    pub ops: Seq<RibOp<Ipv4Addr>>,
    pub ops_v6: Seq<RibOp<Ipv6Addr>>,
    pub install: bool,
    pub install_v6: bool,
    pub null_routes: Seq<Nlri<Ipv4Addr>>,
    pub null_routes_v6: Seq<Nlri<Ipv6Addr>>,
    pub lifted: Seq<Nlri<Ipv4Addr>>,
    pub lifted_v6: Seq<Nlri<Ipv6Addr>>,
    pub spread: SpreadView<Ipv4Addr>,
    pub spread_v6: SpreadView<Ipv6Addr>,
    pub watch: Seq<Nlri<Ipv4Addr>>,
    pub notify: bool,
}

impl View for Work {
    type V = WorkView;

    open spec fn view(&self) -> WorkView {
        WorkView {
            peer: self.peer,
            ops: self.ops@,
            ops_v6: self.ops_v6@,
            install: self.install,
            install_v6: self.install_v6,
            null_routes: self.null_routes@,
            null_routes_v6: self.null_routes_v6@,
            lifted: self.lifted@,
            lifted_v6: self.lifted_v6@,
            spread: self.spread@,
            spread_v6: self.spread_v6@,
            watch: self.watch@,
            notify: self.notify,
        }
    }
}

impl WorkView {
    /// Nothing to do.
    pub open spec fn idle(peer: IpAddr) -> Self {
        WorkView {
            peer,
            ops: Seq::empty(),
            ops_v6: Seq::empty(),
            install: true,
            install_v6: true,
            null_routes: Seq::empty(),
            null_routes_v6: Seq::empty(),
            lifted: Seq::empty(),
            lifted_v6: Seq::empty(),
            spread: SpreadView::Nobody,
            spread_v6: SpreadView::Nobody,
            watch: Seq::empty(),
            notify: false,
        }
    }
}

impl Work {
    /// Nothing to do.
    pub fn idle(peer: IpAddr) -> (r: Self)
        ensures
            r@ == WorkView::idle(peer),
    {
        Work {
            peer,
            ops: Vec::new(),
            ops_v6: Vec::new(),
            install: true,
            install_v6: true,
            null_routes: Vec::new(),
            null_routes_v6: Vec::new(),
            lifted: Vec::new(),
            lifted_v6: Vec::new(),
            spread: Spread::Nobody,
            spread_v6: Spread::Nobody,
            watch: Vec::new(),
            notify: false,
        }
    }
}

/// What is to be done once the decision process has answered.
pub struct Settled {
    /// What the export engine is asked of IPv4 prefixes.
    pub exports: Table<IpAddr, Export<Ipv4Addr>>,
    /// What the export engine is asked of IPv6 prefixes.
    pub exports_v6: Table<IpAddr, Export<Ipv6Addr>>,
    /// Whether the decisions on IPv4 prefixes are collected; they are sent at once where not.
    pub collect: bool,
    /// Whether the decisions on IPv6 prefixes are collected; they are sent at once where not.
    pub collect_v6: bool,
    /// What those who watch routes are told.
    pub events: Vec<RouteEvent<Ipv4Addr>>,
    /// Whether those who watch peers are told.
    pub notify: bool,
}

/// The kernel's queue once changes of best routes, new null routes and lifted ones are in it.
pub open spec fn fib_settled(
    f: FibView,
    w: WorkView,
    rib: RibView,
    changes: Seq<BestPathChange<Ipv4Addr>>,
    changes_v6: Seq<BestPathChange<Ipv6Addr>>,
) -> FibView {
    let v4 = if w.install {
        pending_after_all(f.v4, changes)
    } else {
        f.v4
    };
    let v6 = if w.install_v6 {
        pending_after_all(f.v6, changes_v6)
    } else {
        f.v6
    };
    FibView {
        v4: null_routes_lifted(with_null_routes(v4, w.null_routes), rib.loc_rib, w.lifted),
        v6: null_routes_lifted(with_null_routes(v6, w.null_routes_v6), rib.loc_rib_v6, w.lifted_v6),
    }
}

impl DaemonView {
    /// The state once the decision process has answered.
    pub open spec fn settled(
        self,
        w: WorkView,
        changes: Seq<BestPathChange<Ipv4Addr>>,
        changes_v6: Seq<BestPathChange<Ipv6Addr>>,
    ) -> Self {
        let rib = RibView {
            loc_rib: after_changes(self.rib.loc_rib, changes),
            loc_rib_v6: after_changes(self.rib.loc_rib_v6, changes_v6),
            ..self.rib
        };
        DaemonView {
            rib,
            fib_manager: match self.fib_manager {
                Some(f) => Some(fib_settled(f, w, rib, changes, changes_v6)),
                None => None,
            },
            ..self
        }
    }

    /// Whether `out` is what the export engine is asked of IPv4 prefixes.
    pub open spec fn spread_as_v4(
        self,
        spread: SpreadView<Ipv4Addr>,
        peer: IpAddr,
        changed: Seq<Nlri<Ipv4Addr>>,
        out: Map<IpAddr, ExportView<Ipv4Addr>>,
    ) -> bool {
        match spread {
            SpreadView::Nobody => out == Map::<IpAddr, ExportView<Ipv4Addr>>::empty(),
            SpreadView::Everyone(s) => out == self.exports_v4(s, Audience::Everyone),
            SpreadView::Others(s) => out == self.exports_v4(s, Audience::Others(peer)),
            SpreadView::Changed => if changed.len() == 0 {
                out == Map::<IpAddr, ExportView<Ipv4Addr>>::empty()
            } else {
                out == self.exports_v4(changed, Audience::Everyone)
            },
            SpreadView::OthersAll => exists|s: Seq<Nlri<Ipv4Addr>>|
                enumerates(s, self.rib.loc_rib.dom().union(changed.to_set())) && out
                    == #[trigger] self.exports_v4(s, Audience::Others(peer)),
        }
    }

    /// Whether `out` is what the export engine is asked of IPv6 prefixes.
    pub open spec fn spread_as_v6(
        self,
        spread: SpreadView<Ipv6Addr>,
        peer: IpAddr,
        changed: Seq<Nlri<Ipv6Addr>>,
        out: Map<IpAddr, ExportView<Ipv6Addr>>,
    ) -> bool {
        match spread {
            SpreadView::Nobody => out == Map::<IpAddr, ExportView<Ipv6Addr>>::empty(),
            SpreadView::Everyone(s) => out == self.exports_v6(s, Audience::Everyone),
            SpreadView::Others(s) => out == self.exports_v6(s, Audience::Others(peer)),
            SpreadView::Changed => if changed.len() == 0 {
                out == Map::<IpAddr, ExportView<Ipv6Addr>>::empty()
            } else {
                out == self.exports_v6(changed, Audience::Everyone)
            },
            SpreadView::OthersAll => exists|s: Seq<Nlri<Ipv6Addr>>|
                enumerates(s, self.rib.loc_rib_v6.dom().union(changed.to_set())) && out
                    == #[trigger] self.exports_v6(s, Audience::Others(peer)),
        }
    }
}

/// The prefixes whose best route is reported: those that are to be watched, or those that the
/// decision process changed.
pub open spec fn reported(w: WorkView, changed: Seq<Nlri<Ipv4Addr>>) -> Seq<Nlri<Ipv4Addr>> {
    if w.spread is Changed {
        changed
    } else {
        w.watch
    }
}

/// Whether those who watch peers are told: where the event asks for it, and where advertised counts
/// change with IPv4 prefixes.
pub open spec fn peers_notified(w: WorkView, changed: Seq<Nlri<Ipv4Addr>>) -> bool {
    w.notify || w.spread is Everyone || (w.spread is Changed && changed.len() > 0)
}

/// The contract of [`DaemonState::settle`]: what the answer of the decision process makes of a state, and
/// what follows.
pub open spec fn settling_outcome(
    before: DaemonView,
    w: WorkView,
    changes: Seq<BestPathChange<Ipv4Addr>>,
    changes_v6: Seq<BestPathChange<Ipv6Addr>>,
    after: DaemonView,
    r: Settled,
) -> bool {
    &&& after == before.settled(w, changes, changes_v6)
    &&& after.spread_as_v4(w.spread, w.peer, touched(changes), r.exports@)
    &&& after.spread_as_v6(w.spread_v6, w.peer, touched(changes_v6), r.exports_v6@)
    &&& r.collect == (w.spread is Everyone || w.spread is Changed)
    &&& r.collect_v6 == (w.spread_v6 is Everyone || w.spread_v6 is Changed)
    &&& r.events@ == events_of(after.rib.loc_rib, reported(w, touched(changes)))
    &&& r.notify == peers_notified(w, touched(changes))
}

/// The prefixes that have a best route, and those in a list.
fn all_and_changed<A: Key>(loc_rib: &LocRib<A>, changed: &Vec<Nlri<A>>) -> (r: Vec<Nlri<A>>)
    ensures
        enumerates(r@, loc_rib@.dom().union(changed@.to_set())),
{
    let mut r = loc_rib.best_nlris();
    let mut i: usize = 0;
    assert(loc_rib@.dom().union(changed@.take(0).to_set()) =~= loc_rib@.dom());
    while i < changed.len()
        invariant
            0 <= i <= changed.len(),
            enumerates(r@, loc_rib@.dom().union(changed@.take(i as int).to_set())),
        decreases changed.len() - i,
    {
        let n = changed[i];
        let ghost before = r@;
        let ghost want = loc_rib@.dom().union(changed@.take(i + 1).to_set());
        proof {
            lemma_take_contains(changed@, i + 1);
            assert forall|x: Nlri<A>| want.contains(x) <==> (before.contains(x) || x == n) by {
                assert(before.to_set().contains(x) == before.contains(x));
                assert(changed@.take(i + 1).contains(x) <==> (changed@.take(i as int).contains(x)
                    || x == n));
                assert(changed@.take(i + 1).to_set().contains(x) == changed@.take(i + 1).contains(
                    x,
                ));
                assert(changed@.take(i as int).to_set().contains(x) == changed@.take(
                    i as int,
                ).contains(x));
            }
        }
        if !holds(&r, &n) {
            r.push(n);
            proof {
                assert forall|x: Nlri<A>| r@.to_set().contains(x) <==> want.contains(x) by {
                    if before.contains(x) {
                        let j = before.index_of(x);
                        assert(r@[j] == x);
                    }
                    assert(r@[r@.len() - 1] == n);
                    if r@.contains(x) && x != n {
                        let j = r@.index_of(x);
                        assert(before[j] == x);
                    }
                }
            }
        } else {
            assert forall|x: Nlri<A>| r@.to_set().contains(x) <==> want.contains(x) by {
                assert(before.contains(n));
            }
        }
        i = i + 1;
        assert(r@.to_set() =~= want);
    }
    assert(changed@.take(i as int) =~= changed@);
    r
}

impl DaemonState {
    /// Brings the state up to date with what the decision process answered, and says what follows.
    pub fn settle(
        &mut self,
        work: Work,
        changes: Vec<BestPathChange<Ipv4Addr>>,
        changes_v6: Vec<BestPathChange<Ipv6Addr>>,
    ) -> (r: Settled)
        ensures
            settling_outcome(old(self)@, work@, changes@, changes_v6@, final(self)@, r),
            final(self)@ == old(self)@.settled(work@, changes@, changes_v6@),
            final(self)@.spread_as_v4(
                work@.spread,
                work.peer,
                touched(changes@),
                r.exports@,
            ),
            final(self)@.spread_as_v6(
                work@.spread_v6,
                work.peer,
                touched(changes_v6@),
                r.exports_v6@,
            ),
            r.collect == (work@.spread is Everyone || work@.spread is Changed),
            r.collect_v6 == (work@.spread_v6 is Everyone || work@.spread_v6 is Changed),
            r.events@ == events_of(
                final(self)@.rib.loc_rib,
                reported(work@, touched(changes@)),
            ),
            r.notify == peers_notified(work@, touched(changes@)),
    {
        let ghost w = work@;
        self.rib.loc_rib.absorb(&changes);
        self.rib.loc_rib_v6.absorb(&changes_v6);
        let mut taken: Option<FibManager> = None;
        std::mem::swap(&mut self.fib_manager, &mut taken);
        if let Some(f) = taken {
            let mut f = f;
            if work.install {
                f.pending_v4.apply_all(&changes);
            }
            if work.install_v6 {
                f.pending_v6.apply_all(&changes_v6);
            }
            f.pending_v4.apply_blackholes(&work.null_routes);
            f.pending_v6.apply_blackholes(&work.null_routes_v6);
            f.pending_v4.lift_blackholes(&work.lifted, &self.rib.loc_rib);
            f.pending_v6.lift_blackholes(&work.lifted_v6, &self.rib.loc_rib_v6);
            self.fib_manager = Some(f);
        }
        assert(self@ =~= old(self)@.settled(w, changes@, changes_v6@));
        let changed = touched_nlris(&changes);
        let changed_v6 = touched_nlris(&changes_v6);
        let peer = work.peer;
        let events = match &work.spread {
            Spread::Changed => self.emit_route_events(&changed),
            _ => self.emit_route_events(&work.watch),
        };
        let notify = work.notify || match &work.spread {
            Spread::Everyone(_) => true,
            Spread::Changed => changed.len() > 0,
            _ => false,
        };
        let mut collect = false;
        let exports = match &work.spread {
            Spread::Nobody => Table::new(),
            Spread::Everyone(s) => {
                collect = true;
                self.propagate_to_all_peers(s)
            },
            Spread::Others(s) => self.propagate_to_others(peer, s),
            Spread::Changed => {
                collect = true;
                if changed.len() == 0 {
                    Table::new()
                } else {
                    self.propagate_to_all_peers(&changed)
                }
            },
            Spread::OthersAll => {
                let all = all_and_changed(&self.rib.loc_rib, &changed);
                self.propagate_to_others(peer, &all)
            },
        };
        let mut collect_v6 = false;
        let exports_v6 = match &work.spread_v6 {
            Spread::Nobody => Table::new(),
            Spread::Everyone(s) => {
                collect_v6 = true;
                self.propagate_to_all_peers_v6(s)
            },
            Spread::Others(s) => self.propagate_to_others_v6(peer, s),
            Spread::Changed => {
                collect_v6 = true;
                if changed_v6.len() == 0 {
                    Table::new()
                } else {
                    self.propagate_to_all_peers_v6(&changed_v6)
                }
            },
            Spread::OthersAll => {
                let all = all_and_changed(&self.rib.loc_rib_v6, &changed_v6);
                self.propagate_to_others_v6(peer, &all)
            },
        };
        Settled { exports, exports_v6, collect, collect_v6, events, notify }
    }
}

} // verus!
