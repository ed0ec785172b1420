//! Routes that the daemon itself brings in, changes of policy, and changes of the kernel's view.
use vstd::prelude::*;

use crate::net::{IpAddr, Ipv4Addr, Ipv6Addr, Nlri};
use crate::propagation::{Export, RouteEvent};
use crate::restart::withdraw_ops;
use crate::rib::{enumerates, keyed, lemma_take_contains, AdjRibIn, DefaultAction, Policy, RibOp};
use crate::route::Route;
use crate::state::{DaemonState, DaemonView, RibView};
use crate::table::{copy_of, Key, Table};
use crate::update::{stored, withdrawals};
use crate::work::{Spread, SpreadView, Work, WorkView};

verus! {

/// The peer that stands for the daemon itself: `0.0.0.0`, which no peer can have.
pub open spec fn spec_local_origin_peer() -> IpAddr {
    IpAddr::V4(Ipv4Addr { bits: 0 })
}

/// The peer that stands for the daemon itself: `0.0.0.0`, which no peer can have.
#[verifier::when_used_as_spec(spec_local_origin_peer)]
pub fn local_origin_peer() -> (r: IpAddr)
    ensures
        r == spec_local_origin_peer(),
{
    IpAddr::V4(Ipv4Addr { bits: 0 })
}

/// Work for locally originated routes, and the events that are sent out before it.
pub struct Origination<A> {
    pub work: Work,
    pub events: Vec<RouteEvent<A>>,
}

/// The routes in a list that say something new, in order: a route that says what is already
/// originated for its prefix is left out.
pub open spec fn novel<A: Key>(m: Map<Nlri<A>, Route<A>>, s: Seq<Route<A>>) -> Seq<Route<A>>
    decreases s.len(),
{
    if s.len() == 0 {
        Seq::empty()
    } else {
        let before = novel(m, s.drop_last());
        let t = stored(m, before);
        let r = s.last();
        if t.contains_key(r.nlri) && t[r.nlri].same_content(r) {
            before
        } else {
            before.push(r)
        }
    }
}

/// The operations that insert routes.
pub open spec fn insertions<A>(s: Seq<Route<A>>) -> Seq<RibOp<A>> {
    s.map_values(|r: Route<A>| RibOp::<A>::Insert(r))
}

/// The prefixes of routes.
pub open spec fn nlris_of<A>(s: Seq<Route<A>>) -> Seq<Nlri<A>> {
    s.map_values(|r: Route<A>| r.nlri)
}

/// The events that announce routes of the daemon itself.
pub open spec fn own_announcements<A>(s: Seq<Route<A>>) -> Seq<RouteEvent<A>> {
    s.map_values(
        |r: Route<A>|
            RouteEvent::Announced { peer: local_origin_peer(), nlri: r.nlri, route: r },
    )
}

/// The prefixes in a list that are originated, each where it first stands.
pub open spec fn held_of<A: Key>(m: Map<Nlri<A>, Route<A>>, s: Seq<Nlri<A>>) -> Seq<Nlri<A>>
    decreases s.len(),
{
    if s.len() == 0 {
        Seq::empty()
    } else {
        let before = held_of(m, s.drop_last());
        if m.contains_key(s.last()) && !before.contains(s.last()) {
            before.push(s.last())
        } else {
            before
        }
    }
}

/// The events that take routes back.
pub open spec fn own_withdrawals<A>(s: Seq<Nlri<A>>) -> Seq<RouteEvent<A>> {
    s.map_values(|n: Nlri<A>| RouteEvent::<A>::Withdrawn(n))
}

/// The routes of a list that say something new.
struct Fresh<A> {
    ops: Vec<RibOp<A>>,
    nlris: Vec<Nlri<A>>,
    events: Vec<RouteEvent<A>>,
}

/// Puts routes into a table of originated routes, and returns those that say something new.
fn originate<A: Key>(table: &mut Table<Nlri<A>, Route<A>>, routes: Vec<Route<A>>) -> (r: Fresh<A>)
    ensures
        final(table)@ == stored(old(table)@, novel(old(table)@, routes@)),
        r.ops@ == insertions(novel(old(table)@, routes@)),
        r.nlris@ == nlris_of(novel(old(table)@, routes@)),
        r.events@ == own_announcements(novel(old(table)@, routes@)),
{
    let ghost m = table@;
    let mut ops: Vec<RibOp<A>> = Vec::new();
    let mut nlris: Vec<Nlri<A>> = Vec::new();
    let mut events: Vec<RouteEvent<A>> = Vec::new();
    let mut i: usize = 0;
    proof {
        let e = Seq::<Route<A>>::empty();
        assert(insertions(e) =~= Seq::empty());
        assert(nlris_of(e) =~= Seq::empty());
        assert(own_announcements(e) =~= Seq::empty());
    }
    while i < routes.len()
        invariant
            0 <= i <= routes.len(),
            m == old(table)@,
            table@ == stored(m, novel(m, routes@.take(i as int))),
            ops@ == insertions(novel(m, routes@.take(i as int))),
            nlris@ == nlris_of(novel(m, routes@.take(i as int))),
            events@ == own_announcements(novel(m, routes@.take(i as int))),
        decreases routes.len() - i,
    {
        let route = &routes[i];
        let ghost done = novel(m, routes@.take(i as int));
        let known = match table.get(&route.nlri) {
            Some(x) => x.content_eq(route),
            None => false,
        };
        proof {
            assert(routes@.take(i + 1).drop_last() =~= routes@.take(i as int));
            assert(routes@.take(i + 1).last() == *route);
        }
        if !known {
            let ghost next = done.push(*route);
            proof {
                assert(novel(m, routes@.take(i + 1)) == next);
                assert(next.drop_last() =~= done);
                assert(insertions(next) =~= insertions(done).push(RibOp::Insert(*route)));
                assert(nlris_of(next) =~= nlris_of(done).push(route.nlri));
                assert(own_announcements(next) =~= own_announcements(done).push(
                    RouteEvent::Announced {
                        peer: local_origin_peer(),
                        nlri: route.nlri,
                        route: *route,
                    },
                ));
            }
            table.insert(route.nlri, route.share());
            events.push(
                RouteEvent::Announced {
                    peer: local_origin_peer(),
                    nlri: route.nlri,
                    route: route.share(),
                },
            );
            nlris.push(route.nlri);
            ops.push(RibOp::Insert(route.share()));
        }
        i = i + 1;
    }
    assert(routes@.take(i as int) =~= routes@);
    Fresh { ops, nlris, events }
}

/// Prefixes that are no longer originated.
struct Dropped<A> {
    nlris: Vec<Nlri<A>>,
    events: Vec<RouteEvent<A>>,
}

/// Takes prefixes out of a table of originated routes, and returns those that were in it.
fn withdraw_from<A: Key>(table: &mut Table<Nlri<A>, Route<A>>, nlris: &Vec<Nlri<A>>) -> (r: Dropped<A>)
    ensures
        final(table)@ == old(table)@.remove_keys(held_of(old(table)@, nlris@).to_set()),
        r.nlris@ == held_of(old(table)@, nlris@),
        r.events@ == own_withdrawals(held_of(old(table)@, nlris@)),
{
    let ghost m = table@;
    let mut dropped: Vec<Nlri<A>> = Vec::new();
    let mut events: Vec<RouteEvent<A>> = Vec::new();
    let mut i: usize = 0;
    proof {
        assert(m.remove_keys(Seq::<Nlri<A>>::empty().to_set()) =~= m);
        assert(own_withdrawals(Seq::<Nlri<A>>::empty()) =~= Seq::empty());
    }
    while i < nlris.len()
        invariant
            0 <= i <= nlris.len(),
            m == old(table)@,
            table@ == m.remove_keys(held_of(m, nlris@.take(i as int)).to_set()),
            dropped@ == held_of(m, nlris@.take(i as int)),
            events@ == own_withdrawals(held_of(m, nlris@.take(i as int))),
        decreases nlris.len() - i,
    {
        let n = nlris[i];
        let ghost done = held_of(m, nlris@.take(i as int));
        proof {
            assert(nlris@.take(i + 1).drop_last() =~= nlris@.take(i as int));
            assert(nlris@.take(i + 1).last() == n);
            assert(done.to_set().contains(n) == done.contains(n));
        }
        if table.remove(&n).is_some() {
            dropped.push(n);
            events.push(RouteEvent::Withdrawn(n));
            proof {
                let next = done.push(n);
                assert(held_of(m, nlris@.take(i + 1)) == next);
                assert(own_withdrawals(next) =~= own_withdrawals(done).push(
                    RouteEvent::Withdrawn(n),
                ));
                lemma_take_contains(next, next.len() as int);
                assert(next.take(next.len() as int) =~= next);
                assert(next.take(next.len() - 1) =~= done);
                assert forall|x: Nlri<A>| next.to_set().contains(x) <==> (done.to_set().contains(x)
                    || x == n) by {
                    assert(next.contains(x) <==> (done.contains(x) || x == n));
                }
                assert(table@ =~= m.remove_keys(next.to_set()));
            }
        } else {
            assert(table@ =~= m.remove_keys(done.to_set()));
        }
        i = i + 1;
    }
    assert(nlris@.take(i as int) =~= nlris@);
    Dropped { nlris: dropped, events }
}

/// What is originated of a list of one prefix.
proof fn single_held<A: Key>(m: Map<Nlri<A>, Route<A>>, n: Nlri<A>)
    ensures
        m.contains_key(n) ==> held_of(m, seq![n]) == seq![n],
        !m.contains_key(n) ==> held_of(m, seq![n]) == Seq::<Nlri<A>>::empty() && m.remove_keys(
            Seq::<Nlri<A>>::empty().to_set(),
        ) == m && own_withdrawals(Seq::<Nlri<A>>::empty()) == Seq::<RouteEvent<A>>::empty(),
{
    let s = seq![n];
    assert(s.drop_last() =~= Seq::<Nlri<A>>::empty());
    reveal_with_fuel(held_of, 2);
    assert(Seq::<Nlri<A>>::empty().push(n) =~= s);
    assert(m.remove_keys(Seq::<Nlri<A>>::empty().to_set()) =~= m);
    assert(own_withdrawals(Seq::<Nlri<A>>::empty()) =~= Seq::<RouteEvent<A>>::empty());
}

/// Whether operations have the import policy look at every route of a table again, each once.
pub open spec fn reevaluates<A>(ops: Seq<RibOp<A>>, m: Map<Nlri<A>, Route<A>>) -> bool {
    &&& enumerates(reevaluated(ops), m.dom())
    &&& forall|i: int|
        0 <= i < ops.len() ==> (#[trigger] ops[i]) == RibOp::Reevaluate(
            m[ops[i]->Reevaluate_0.nlri],
        )
}

/// The prefixes of routes that the import policy looks at again.
pub open spec fn reevaluated<A>(ops: Seq<RibOp<A>>) -> Seq<Nlri<A>> {
    ops.map_values(|o: RibOp<A>| o->Reevaluate_0.nlri)
}

/// Has the import policy look at every route of a table again. Accepted routes go to the Loc-RIB,
/// rejected ones leave it.
fn reapply<A: Key>(adj_rib_in: &AdjRibIn<A>) -> (r: Vec<RibOp<A>>)
    ensures
        reevaluates(r@, adj_rib_in@),
{
    let keys = adj_rib_in.nlris();
    let mut r: Vec<RibOp<A>> = Vec::new();
    let mut i: usize = 0;
    while i < keys.len()
        invariant
            0 <= i <= keys.len(),
            enumerates(keys@, adj_rib_in@.dom()),
            keyed(adj_rib_in@),
            r@.len() == i,
            forall|j: int|
                0 <= j < i ==> (#[trigger] r@[j]) == RibOp::Reevaluate(adj_rib_in@[keys@[j]])
                    && adj_rib_in@[keys@[j]].nlri == keys@[j],
        decreases keys.len() - i,
    {
        let k = keys[i];
        proof {
            assert(keys@.to_set().contains(k));
        }
        if let Some(route) = adj_rib_in.get(&k) {
            r.push(RibOp::Reevaluate(route.share()));
        }
        i = i + 1;
    }
    proof {
        assert(reevaluated(r@) =~= keys@);
        assert forall|j: int| 0 <= j < r@.len() implies (#[trigger] r@[j]) == RibOp::Reevaluate(
            adj_rib_in@[r@[j]->Reevaluate_0.nlri],
        ) by {
            assert(r@[j] == RibOp::Reevaluate(adj_rib_in@[keys@[j]]));
        }
    }
    r
}

/// Has the import policy look at every IPv4 route received from a peer again. An accepted route goes
/// to the Loc-RIB, a rejected one leaves it.
pub fn reapply_import_policy(adj_rib_in: &AdjRibIn<Ipv4Addr>) -> (r: Vec<RibOp<Ipv4Addr>>)
    ensures
        reevaluates(r@, adj_rib_in@),
{
    reapply(adj_rib_in)
}

/// Has the import policy look at every IPv6 route received from a peer again. An accepted route goes
/// to the Loc-RIB, a rejected one leaves it.
pub fn reapply_import_policy_v6(adj_rib_in: &AdjRibIn<Ipv6Addr>) -> (r: Vec<RibOp<Ipv6Addr>>)
    ensures
        reevaluates(r@, adj_rib_in@),
{
    reapply(adj_rib_in)
}

/// The prefixes of operations that have the import policy look at routes again.
fn subjects<A: Key>(ops: &Vec<RibOp<A>>) -> (r: Vec<Nlri<A>>)
    requires
        forall|i: int| 0 <= i < ops@.len() ==> (#[trigger] ops@[i]) is Reevaluate,
    ensures
        r@ == reevaluated(ops@),
{
    let mut r: Vec<Nlri<A>> = Vec::new();
    let mut i: usize = 0;
    while i < ops.len()
        invariant
            0 <= i <= ops.len(),
            forall|i: int| 0 <= i < ops@.len() ==> (#[trigger] ops@[i]) is Reevaluate,
            r@.len() == i,
            forall|j: int| 0 <= j < i ==> (#[trigger] r@[j]) == ops@[j]->Reevaluate_0.nlri,
        decreases ops.len() - i,
    {
        if let RibOp::Reevaluate(route) = &ops[i] {
            r.push(route.nlri);
        }
        assert(ops@[i as int] is Reevaluate);
        i = i + 1;
    }
    assert(r@ =~= reevaluated(ops@));
    r
}

/// Whether work has the import policy look at all routes of a peer again, and propagates their
/// prefixes.
pub open spec fn reevaluation(w: WorkView, s: DaemonView, p: IpAddr) -> bool {
    &&& reevaluates(w.ops, s.adj_ribs_in[p])
    &&& reevaluates(w.ops_v6, s.adj_ribs_in_v6[p])
    &&& w == WorkView {
        ops: w.ops,
        ops_v6: w.ops_v6,
        spread: SpreadView::Everyone(reevaluated(w.ops)),
        spread_v6: SpreadView::Everyone(reevaluated(w.ops_v6)),
        watch: reevaluated(w.ops),
        ..WorkView::idle(p)
    }
}

impl DaemonView {
    /// Whether a peer has all the tables that an import policy works on.
    pub open spec fn complete(self, p: IpAddr) -> bool {
        &&& self.import_policies_v6.contains_key(p)
        &&& self.adj_ribs_in.contains_key(p)
        &&& self.adj_ribs_in_v6.contains_key(p)
    }

    /// Whether every peer with an import policy has all the tables that a policy works on.
    pub open spec fn aligned(self) -> bool {
        forall|p: IpAddr| #[trigger] self.import_policies.contains_key(p) ==> self.complete(p)
    }

    /// The state with a new default of the import policies of a peer.
    pub open spec fn import_default_set(self, p: IpAddr, action: DefaultAction) -> Self {
        DaemonView {
            import_policies: self.import_policies.insert(p, Policy { default: action }),
            import_policies_v6: self.import_policies_v6.insert(p, Policy { default: action }),
            ..self
        }
    }

    /// The state with a new default of the IPv4 export policy of a peer.
    pub open spec fn export_default_set(self, p: IpAddr, action: DefaultAction) -> Self {
        DaemonView {
            export_policies: self.export_policies.insert(p, Policy { default: action }),
            ..self
        }
    }
}

impl DaemonState {
    /// Brings in one IPv4 route.
    pub fn originate_route(&mut self, route: Route<Ipv4Addr>) -> (r: Origination<Ipv4Addr>)
        ensures
            origination_outcome_v4(old(self)@, seq![route], final(self)@, r),
    {
        let mut routes: Vec<Route<Ipv4Addr>> = Vec::new();
        let ghost only = route;
        routes.push(route);
        assert(routes@ =~= seq![only]);
        self.originate_routes(routes)
    }

    /// Brings in IPv4 routes, past import policy, and propagates them in one go. A route that says
    /// what is already originated for its prefix is passed over. The kernel hears nothing of them.
    pub fn originate_routes(&mut self, routes: Vec<Route<Ipv4Addr>>) -> (r: Origination<Ipv4Addr>)
        ensures
            origination_outcome_v4(old(self)@, routes@, final(self)@, r),
    {
        let f = originate(&mut self.rib.originated_routes, routes);
        let mut w = Work::idle(local_origin_peer());
        w.ops = f.ops;
        w.install = false;
        w.spread = Spread::Everyone(f.nlris);
        Origination { work: w, events: f.events }
    }

    /// Brings in one IPv6 route.
    pub fn originate_route_v6(&mut self, route: Route<Ipv6Addr>) -> (r: Origination<Ipv6Addr>)
        ensures
            origination_outcome_v6(old(self)@, seq![route], final(self)@, r),
    {
        let mut routes: Vec<Route<Ipv6Addr>> = Vec::new();
        let ghost only = route;
        routes.push(route);
        assert(routes@ =~= seq![only]);
        self.originate_routes_v6(routes)
    }

    /// Brings in IPv6 routes, past import policy, and propagates them in one go. A route that says
    /// what is already originated for its prefix is passed over.
    pub fn originate_routes_v6(&mut self, routes: Vec<Route<Ipv6Addr>>) -> (r: Origination<Ipv6Addr>)
        ensures
            origination_outcome_v6(old(self)@, routes@, final(self)@, r),
    {
        let f = originate(&mut self.rib.originated_routes_v6, routes);
        let mut w = Work::idle(local_origin_peer());
        w.ops_v6 = f.ops;
        w.spread_v6 = Spread::Everyone(f.nlris);
        Origination { work: w, events: f.events }
    }

    /// Takes one originated IPv4 route back. Nothing happens where the prefix is not originated.
    pub fn withdraw_originated_route(&mut self, nlri: Nlri<Ipv4Addr>) -> (r: Origination<Ipv4Addr>)
        ensures
            withdrawal_outcome_v4(old(self)@, seq![nlri], final(self)@, r),
            old(self)@.rib.originated_routes.contains_key(nlri) ==> {
                &&& final(self)@ == old(self)@.unoriginating_v4(seq![nlri])
                &&& r.events@ == own_withdrawals(seq![nlri])
                &&& r.work@ == unoriginate_work_v4(seq![nlri])
            },
            !old(self)@.rib.originated_routes.contains_key(nlri) ==> {
                &&& final(self)@ == old(self)@
                &&& r.events@ == Seq::<RouteEvent<Ipv4Addr>>::empty()
                &&& r.work@ == WorkView::idle(local_origin_peer())
            },
    {
        let mut nlris: Vec<Nlri<Ipv4Addr>> = Vec::new();
        nlris.push(nlri);
        proof {
            single_held(old(self)@.rib.originated_routes, nlri);
            assert(nlris@ =~= seq![nlri]);
        }
        self.withdraw_originated_routes(&nlris)
    }

    /// Takes originated IPv4 routes back, and propagates that in one go. Prefixes that are not
    /// originated are passed over.
    pub fn withdraw_originated_routes(&mut self, nlris: &Vec<Nlri<Ipv4Addr>>) -> (r: Origination<
        Ipv4Addr,
    >)
        ensures
            withdrawal_outcome_v4(old(self)@, nlris@, final(self)@, r),
    {
        let d = withdraw_from(&mut self.rib.originated_routes, nlris);
        let mut w = Work::idle(local_origin_peer());
        if d.nlris.len() > 0 {
            w.ops = withdraw_ops(&d.nlris);
            w.spread = Spread::Everyone(d.nlris);
        }
        Origination { work: w, events: d.events }
    }

    /// Takes one originated IPv6 route back. Nothing happens where the prefix is not originated.
    pub fn withdraw_originated_route_v6(&mut self, nlri: Nlri<Ipv6Addr>) -> (r: Origination<Ipv6Addr>)
        ensures
            withdrawal_outcome_v6(old(self)@, seq![nlri], final(self)@, r),
            old(self)@.rib.originated_routes_v6.contains_key(nlri) ==> {
                &&& final(self)@ == old(self)@.unoriginating_v6(seq![nlri])
                &&& r.events@ == own_withdrawals(seq![nlri])
                &&& r.work@ == unoriginate_work_v6(seq![nlri])
            },
            !old(self)@.rib.originated_routes_v6.contains_key(nlri) ==> {
                &&& final(self)@ == old(self)@
                &&& r.events@ == Seq::<RouteEvent<Ipv6Addr>>::empty()
                &&& r.work@ == WorkView::idle(local_origin_peer())
            },
    {
        let mut nlris: Vec<Nlri<Ipv6Addr>> = Vec::new();
        nlris.push(nlri);
        proof {
            single_held(old(self)@.rib.originated_routes_v6, nlri);
            assert(nlris@ =~= seq![nlri]);
        }
        self.withdraw_originated_routes_v6(&nlris)
    }

    /// Takes originated IPv6 routes back, and propagates that in one go. Prefixes that are not
    /// originated are passed over.
    pub fn withdraw_originated_routes_v6(&mut self, nlris: &Vec<Nlri<Ipv6Addr>>) -> (r: Origination<
        Ipv6Addr,
    >)
        ensures
            withdrawal_outcome_v6(old(self)@, nlris@, final(self)@, r),
    {
        let d = withdraw_from(&mut self.rib.originated_routes_v6, nlris);
        let mut w = Work::idle(local_origin_peer());
        if d.nlris.len() > 0 {
            w.ops_v6 = withdraw_ops(&d.nlris);
            w.spread_v6 = Spread::Everyone(d.nlris);
        }
        Origination { work: w, events: d.events }
    }

    /// How many prefixes the daemon itself originates, by family.
    pub fn originated_counts(&self) -> (r: (usize, usize))
        ensures
            r.0 == self@.rib.originated_routes.dom().len(),
            r.1 == self@.rib.originated_routes_v6.dom().len(),
    {
        (self.rib.originated_routes.len(), self.rib.originated_routes_v6.len())
    }

    /// Changes what becomes of received routes of a peer that no import term decides, for both
    /// families, and has the policies look at its routes again. A peer that is not configured is
    /// left alone.
    pub fn set_import_default(&mut self, peer_ip: IpAddr, action: DefaultAction) -> (r: Option<Work>)
        requires
            old(self)@.import_policies.contains_key(peer_ip) ==> old(self)@.complete(peer_ip),
        ensures
            import_change_outcome(old(self)@, peer_ip, action, final(self)@, r),
            r is Some <==> old(self)@.import_policies.contains_key(peer_ip),
            r is Some ==> {
                &&& final(self)@ == old(self)@.import_default_set(peer_ip, action)
                &&& reevaluation(r->0@, old(self)@, peer_ip)
            },
            r is None ==> final(self)@ == old(self)@,
    {
        let mut policy = match self.import_policies.get(&peer_ip) {
            Some(p) => *p,
            None => {
                return None;
            },
        };
        policy.set_default(action);
        self.import_policies.insert(peer_ip, policy);
        self.import_policies_v6.insert(peer_ip, policy);
        Some(self.reevaluate_import_for_peer(peer_ip))
    }

    /// Has the import policies look at the routes of a peer again.
    pub fn reevaluate_import_for_peer(&self, peer_ip: IpAddr) -> (r: Work)
        requires
            self@.adj_ribs_in.contains_key(peer_ip),
            self@.adj_ribs_in_v6.contains_key(peer_ip),
        ensures
            reevaluation(r@, self@, peer_ip),
    {
        let mut w = Work::idle(peer_ip);
        if let Some(t) = self.adj_ribs_in.get(&peer_ip) {
            w.ops = reapply_import_policy(t);
        }
        if let Some(t) = self.adj_ribs_in_v6.get(&peer_ip) {
            w.ops_v6 = reapply_import_policy_v6(t);
        }
        w.watch = subjects(&w.ops);
        w.spread = Spread::Everyone(copy_of(&w.watch));
        w.spread_v6 = Spread::Everyone(subjects(&w.ops_v6));
        w
    }

    /// Has the import policies look at the routes of every peer again.
    pub fn reevaluate_all_import_policies(&self) -> (r: Table<IpAddr, Work>)
        requires
            self@.aligned(),
        ensures
            r@.dom() == self@.import_policies.dom(),
            forall|p: IpAddr| #[trigger] r@.contains_key(p) ==> reevaluation(r@[p], self@, p),
    {
        let peers = self.import_policies.keys();
        let mut r: Table<IpAddr, Work> = Table::new();
        let mut i: usize = 0;
        while i < peers.len()
            invariant
                0 <= i <= peers.len(),
                self@.aligned(),
                enumerates(peers@, self@.import_policies.dom()),
                forall|p: IpAddr|
                    #[trigger] r@.contains_key(p) <==> peers@.take(i as int).contains(p),
                forall|p: IpAddr| #[trigger] r@.contains_key(p) ==> reevaluation(r@[p], self@, p),
            decreases peers.len() - i,
        {
            let p = peers[i];
            proof {
                assert(peers@.to_set().contains(p));
                assert(self@.import_policies.contains_key(p));
            }
            r.insert(p, self.reevaluate_import_for_peer(p));
            i = i + 1;
            proof {
                lemma_take_contains(peers@, i as int);
            }
        }
        proof {
            assert(peers@.take(i as int) =~= peers@);
            assert forall|p: IpAddr| r@.contains_key(p) <==> self@.import_policies.contains_key(
                p,
            ) by {
                assert(peers@.to_set().contains(p) == peers@.contains(p));
            }
            assert(r@.dom() =~= self@.import_policies.dom());
        }
        r
    }

    /// Changes what becomes of best routes that no export term decides for a peer. Where the peer has
    /// a session and can be advertised to, the export engine is asked of the whole IPv4 table again. A
    /// peer that is not configured is left alone.
    pub fn set_export_default(&mut self, peer_ip: IpAddr, action: DefaultAction) -> (r: Option<
        Export<Ipv4Addr>,
    >)
        ensures
            export_change_outcome(old(self)@, peer_ip, action, final(self)@, r),
            final(self)@ == (if old(self)@.export_policies.contains_key(peer_ip) {
                old(self)@.export_default_set(peer_ip, action)
            } else {
                old(self)@
            }),
            r is Some <==> old(self)@.rib.peer_types.contains_key(peer_ip) && old(self)@.served(
                peer_ip,
            ),
            r matches Some(e) ==> {
                &&& enumerates(e@.nlris, old(self)@.rib.loc_rib.dom())
                &&& e@ == old(self)@.export_v4(
                    peer_ip,
                    e@.nlris,
                    !old(self)@.selection_deferral.v4_released,
                )
            },
    {
        let mut policy = match self.export_policies.get(&peer_ip) {
            Some(p) => *p,
            None => {
                return None;
            },
        };
        policy.set_default(action);
        self.export_policies.insert(peer_ip, policy);
        if !self.rib.peer_types.contains_key(&peer_ip) || !self.adj_ribs_out.contains_key(&peer_ip)
            || !self.update_senders.contains(&peer_ip) {
            return None;
        }
        let nlris = self.rib.loc_rib.best_nlris();
        Some(self.make_export_v4(&peer_ip, nlris, self.selection_deferral.v4_deferred()))
    }

    /// The kernel's view of next hops has changed: the decision process picks every best route anew,
    /// and what changes goes to the kernel and to every peer.
    pub fn on_fib_change(&self) -> (r: Work)
        ensures
            r@ == recompute_work(),
    {
        let mut w = Work::idle(local_origin_peer());
        w.ops.push(RibOp::RecomputeAll);
        w.ops_v6.push(RibOp::RecomputeAll);
        w.spread = Spread::Changed;
        w.spread_v6 = Spread::Changed;
        assert(w@.ops =~= seq![RibOp::<Ipv4Addr>::RecomputeAll]);
        assert(w@.ops_v6 =~= seq![RibOp::<Ipv6Addr>::RecomputeAll]);
        w
    }
}

impl DaemonView {
    /// The state once IPv4 routes that say something new are originated.
    pub open spec fn originating_v4(self, s: Seq<Route<Ipv4Addr>>) -> Self {
        DaemonView {
            rib: RibView { originated_routes: stored(self.rib.originated_routes, s), ..self.rib },
            ..self
        }
    }

    /// The state once IPv6 routes that say something new are originated.
    pub open spec fn originating_v6(self, s: Seq<Route<Ipv6Addr>>) -> Self {
        DaemonView {
            rib: RibView {
                originated_routes_v6: stored(self.rib.originated_routes_v6, s),
                ..self.rib
            },
            ..self
        }
    }

    /// The state once IPv4 prefixes are no longer originated.
    pub open spec fn unoriginating_v4(self, s: Seq<Nlri<Ipv4Addr>>) -> Self {
        DaemonView {
            rib: RibView {
                originated_routes: self.rib.originated_routes.remove_keys(s.to_set()),
                ..self.rib
            },
            ..self
        }
    }

    /// The state once IPv6 prefixes are no longer originated.
    pub open spec fn unoriginating_v6(self, s: Seq<Nlri<Ipv6Addr>>) -> Self {
        DaemonView {
            rib: RibView {
                originated_routes_v6: self.rib.originated_routes_v6.remove_keys(s.to_set()),
                ..self.rib
            },
            ..self
        }
    }
}

/// What bringing in IPv4 routes makes of a state, and what it leaves to be done.
pub open spec fn origination_outcome_v4(
    before: DaemonView,
    routes: Seq<Route<Ipv4Addr>>,
    after: DaemonView,
    r: Origination<Ipv4Addr>,
) -> bool {
    let n = novel(before.rib.originated_routes, routes);
    &&& after == before.originating_v4(n)
    &&& r.events@ == own_announcements(n)
    &&& r.work@ == originate_work_v4(n)
}

/// What taking IPv4 prefixes back makes of a state, and what it leaves to be done.
pub open spec fn withdrawal_outcome_v4(
    before: DaemonView,
    nlris: Seq<Nlri<Ipv4Addr>>,
    after: DaemonView,
    r: Origination<Ipv4Addr>,
) -> bool {
    let n = held_of(before.rib.originated_routes, nlris);
    &&& after == before.unoriginating_v4(n)
    &&& r.events@ == own_withdrawals(n)
    &&& r.work@ == unoriginate_work_v4(n)
}

/// What bringing in IPv6 routes makes of a state, and what it leaves to be done.
pub open spec fn origination_outcome_v6(
    before: DaemonView,
    routes: Seq<Route<Ipv6Addr>>,
    after: DaemonView,
    r: Origination<Ipv6Addr>,
) -> bool {
    let n = novel(before.rib.originated_routes_v6, routes);
    &&& after == before.originating_v6(n)
    &&& r.events@ == own_announcements(n)
    &&& r.work@ == originate_work_v6(n)
}

/// What taking IPv6 prefixes back makes of a state, and what it leaves to be done.
pub open spec fn withdrawal_outcome_v6(
    before: DaemonView,
    nlris: Seq<Nlri<Ipv6Addr>>,
    after: DaemonView,
    r: Origination<Ipv6Addr>,
) -> bool {
    let n = held_of(before.rib.originated_routes_v6, nlris);
    &&& after == before.unoriginating_v6(n)
    &&& r.events@ == own_withdrawals(n)
    &&& r.work@ == unoriginate_work_v6(n)
}

/// What a new default of the import policies of a peer makes of a state, and what it leaves to be done.
pub open spec fn import_change_outcome(
    before: DaemonView,
    p: IpAddr,
    action: DefaultAction,
    after: DaemonView,
    r: Option<Work>,
) -> bool {
    &&& r is Some <==> before.import_policies.contains_key(p)
    &&& r is Some ==> {
        &&& after == before.import_default_set(p, action)
        &&& reevaluation(r->0@, before, p)
    }
    &&& r is None ==> after == before
}

/// What a new default of the export policy of a peer makes of a state, and what the export engine is
/// asked.
pub open spec fn export_change_outcome(
    before: DaemonView,
    p: IpAddr,
    action: DefaultAction,
    after: DaemonView,
    r: Option<Export<Ipv4Addr>>,
) -> bool {
    &&& after == (if before.export_policies.contains_key(p) {
        before.export_default_set(p, action)
    } else {
        before
    })
    &&& r is Some <==> before.rib.peer_types.contains_key(p) && before.served(p)
    &&& r matches Some(e) ==> {
        &&& enumerates(e@.nlris, before.rib.loc_rib.dom())
        &&& e@ == before.export_v4(p, e@.nlris, !before.selection_deferral.v4_released)
    }
}

/// The work of picking every best route anew.
pub open spec fn recompute_work() -> WorkView {
    WorkView {
        ops: seq![RibOp::<Ipv4Addr>::RecomputeAll],
        ops_v6: seq![RibOp::<Ipv6Addr>::RecomputeAll],
        spread: SpreadView::Changed,
        spread_v6: SpreadView::Changed,
        ..WorkView::idle(local_origin_peer())
    }
}

/// The work of originating IPv4 routes that say something new.
pub open spec fn originate_work_v4(s: Seq<Route<Ipv4Addr>>) -> WorkView {
    WorkView {
        ops: insertions(s),
        install: false,
        spread: SpreadView::Everyone(nlris_of(s)),
        ..WorkView::idle(local_origin_peer())
    }
}

/// The work of originating IPv6 routes that say something new.
pub open spec fn originate_work_v6(s: Seq<Route<Ipv6Addr>>) -> WorkView {
    WorkView {
        ops_v6: insertions(s),
        spread_v6: SpreadView::Everyone(nlris_of(s)),
        ..WorkView::idle(local_origin_peer())
    }
}

/// The work of taking IPv4 prefixes back: none, where there is none to take.
pub open spec fn unoriginate_work_v4(s: Seq<Nlri<Ipv4Addr>>) -> WorkView {
    if s.len() == 0 {
        WorkView::idle(local_origin_peer())
    } else {
        WorkView {
            ops: withdrawals(s),
            spread: SpreadView::Everyone(s),
            ..WorkView::idle(local_origin_peer())
        }
    }
}

/// The work of taking IPv6 prefixes back: none, where there is none to take.
pub open spec fn unoriginate_work_v6(s: Seq<Nlri<Ipv6Addr>>) -> WorkView {
    if s.len() == 0 {
        WorkView::idle(local_origin_peer())
    } else {
        WorkView {
            ops_v6: withdrawals(s),
            spread_v6: SpreadView::Everyone(s),
            ..WorkView::idle(local_origin_peer())
        }
    }
}

} // verus!
