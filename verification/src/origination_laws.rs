//! What the daemon's own routes and changes of policy lead to, put in terms of the routes and the state
//! before and after.
use vstd::prelude::*;

use crate::net::{IpAddr, Ipv4Addr, Ipv6Addr, Nlri};
use crate::origination::{
    export_change_outcome, held_of, import_change_outcome, novel, origination_outcome_v4,
    origination_outcome_v6, recompute_work, reevaluated, reevaluates, withdrawal_outcome_v4,
    withdrawal_outcome_v6, Origination,
};
use crate::propagation::{Export, RouteEvent};
use crate::rib::{DefaultAction, Policy, RibOp};
use crate::route::Route;
use crate::session_laws::{can_be_told, own_next_hop, told_of_session};
use crate::state::{DaemonView, RibView};
use crate::table::Key;
use crate::update::stored;
use crate::work::Work;

verus! {

/// Whether a list has a route for a prefix.
pub open spec fn has_route<A>(s: Seq<Route<A>>, n: Nlri<A>) -> bool {
    exists|i: int| 0 <= i < s.len() && (#[trigger] s[i]).nlri == n
}

/// What stands for a prefix once routes that say something new are taken.
proof fn novel_stands<A: Key>(m: Map<Nlri<A>, Route<A>>, s: Seq<Route<A>>, n: Nlri<A>, i: int)
    ensures
        ({
            let f = novel(m, s);
            let t = stored(m, f);
            &&& forall|j: int| 0 <= j < f.len() ==> s.contains(#[trigger] f[j])
            &&& t.contains_key(n) <==> m.contains_key(n) || has_route(s, n)
            &&& !has_route(s, n) ==> !has_route(f, n) && (m.contains_key(n) ==> t[n] == m[n])
            &&& 0 <= i < s.len() && s[i].nlri == n && (forall|j: int|
                i < j < s.len() ==> (#[trigger] s[j]).nlri != n) ==> t[n].same_content(s[i])
            &&& m.contains_key(n) && (forall|j: int|
                0 <= j < s.len() && (#[trigger] s[j]).nlri == n ==> m[n].same_content(s[j]))
                ==> !has_route(f, n) && t[n] == m[n]
            &&& 0 <= i < s.len() && s[i].nlri == n && (forall|j: int|
                0 <= j < i ==> (#[trigger] s[j]).nlri != n) && !(m.contains_key(n)
                && m[n].same_content(s[i])) ==> f.contains(s[i])
        }),
    decreases s.len(),
{
    let f = novel(m, s);
    if s.len() > 0 {
        let p = s.drop_last();
        let l = s.len() - 1;
        let r = s.last();
        let g = novel(m, p);
        let u = stored(m, g);
        novel_stands(m, p, n, i);
        novel_stands(m, p, r.nlri, i);
        let fresh = !(u.contains_key(r.nlri) && u[r.nlri].same_content(r));
        if fresh {
            assert(f == g.push(r));
            assert(f.drop_last() =~= g);
        } else {
            assert(f == g);
        }
        assert forall|j: int| 0 <= j < f.len() implies s.contains(#[trigger] f[j]) by {
            if j < g.len() {
                assert(f[j] == g[j]);
                let k = p.index_of(g[j]);
                assert(s[k] == g[j]);
            } else {
                assert(s[l] == f[j]);
            }
        }
        if has_route(p, n) {
            let k = choose|k: int| 0 <= k < p.len() && (#[trigger] p[k]).nlri == n;
            assert(s[k].nlri == n);
        }
        if r.nlri == n {
            assert(s[l].nlri == n);
        }
        if has_route(s, n) && r.nlri != n {
            let k = choose|k: int| 0 <= k < s.len() && (#[trigger] s[k]).nlri == n;
            assert(p[k].nlri == n);
        }
        if has_route(f, n) {
            let k = choose|k: int| 0 <= k < f.len() && (#[trigger] f[k]).nlri == n;
            if k < g.len() {
                assert(g[k].nlri == n);
            }
        }
        if 0 <= i < l {
            assert(p[i] == s[i]);
            if forall|j: int| i < j < s.len() ==> (#[trigger] s[j]).nlri != n {
                assert forall|j: int| i < j < p.len() implies (#[trigger] p[j]).nlri != n by {
                    assert(p[j] == s[j]);
                }
                assert(s[l].nlri != n);
            }
            if s[i].nlri == n && (forall|j: int| 0 <= j < i ==> (#[trigger] s[j]).nlri != n) && !(
            m.contains_key(n) && m[n].same_content(s[i])) {
                assert forall|j: int| 0 <= j < i implies (#[trigger] p[j]).nlri != n by {
                    assert(p[j] == s[j]);
                }
                let k = g.index_of(s[i]);
                assert(f[k] == s[i]);
            }
        }
        if i == l && r.nlri == n {
            if forall|j: int| 0 <= j < i ==> (#[trigger] s[j]).nlri != n {
                if has_route(p, n) {
                    let k = choose|k: int| 0 <= k < p.len() && (#[trigger] p[k]).nlri == n;
                    assert(s[k].nlri == n);
                }
                if fresh {
                    assert(f[f.len() - 1] == s[i]);
                }
            }
        }
        if m.contains_key(n) && (forall|j: int|
            0 <= j < s.len() && (#[trigger] s[j]).nlri == n ==> m[n].same_content(s[j])) {
            assert forall|j: int| 0 <= j < p.len() && (#[trigger] p[j]).nlri == n implies m[n].same_content(
                p[j],
            ) by {
                assert(p[j] == s[j]);
            }
            if r.nlri == n {
                assert(m[n].same_content(s[l]));
            }
        }
    }
}

/// The prefixes in a list that are originated.
proof fn held_members<A: Key>(m: Map<Nlri<A>, Route<A>>, s: Seq<Nlri<A>>, n: Nlri<A>)
    ensures
        held_of(m, s).contains(n) <==> m.contains_key(n) && s.contains(n),
        held_of(m, s).no_duplicates(),
    decreases s.len(),
{
    let r = held_of(m, s);
    if s.len() > 0 {
        let t = s.drop_last();
        let q = held_of(m, t);
        held_members(m, t, n);
        held_members(m, t, s.last());
        if s.contains(n) {
            let i = s.index_of(n);
            if i < t.len() {
                assert(t[i] == n);
            }
        }
        if t.contains(n) {
            let i = t.index_of(n);
            assert(s[i] == n);
        }
        assert(s[s.len() - 1] == s.last());
        if m.contains_key(s.last()) && !q.contains(s.last()) {
            assert(r == q.push(s.last()));
            assert(r[r.len() - 1] == s.last());
            if q.contains(n) {
                let i = q.index_of(n);
                assert(r[i] == n);
            }
            if r.contains(n) {
                let i = r.index_of(n);
                if i < q.len() {
                    assert(q[i] == n);
                }
            }
            assert forall|a: int, b: int| 0 <= a < b < r.len() implies r[a] != r[b] by {
                if b == q.len() {
                    assert(q[a] == r[a]);
                    assert(q.contains(r[a]));
                } else {
                    assert(q[a] != q[b]);
                }
            }
        }
    }
}

/// What bringing in IPv4 routes does. What stands for a prefix afterwards has the content of the last
/// route for it in the list, and a prefix without one keeps what it had. A route whose content already
/// stands leads to nothing: for the others the decision process takes the route on behalf of the daemon
/// itself, those who watch routes are told, and every peer hears of the prefix.
pub proof fn origination_brings_in_what_is_new_v4(
    before: DaemonView,
    routes: Seq<Route<Ipv4Addr>>,
    after: DaemonView,
    r: Origination<Ipv4Addr>,
    n: Nlri<Ipv4Addr>,
    i: int,
    k: int,
)
    requires
        origination_outcome_v4(before, routes, after, r),
    ensures
        ({
            let m = before.rib.originated_routes;
            let t = after.rib.originated_routes;
            let ops = r.work@.ops;
            &&& t.contains_key(n) <==> m.contains_key(n) || has_route(routes, n)
            &&& !has_route(routes, n) && m.contains_key(n) ==> t[n] == m[n]
            &&& 0 <= i < routes.len() && routes[i].nlri == n && (forall|j: int|
                i < j < routes.len() ==> (#[trigger] routes[j]).nlri != n) ==> t[n].same_content(routes[i])
            &&& 0 <= i < routes.len() && routes[i].nlri == n && (forall|j: int|
                0 <= j < i ==> (#[trigger] routes[j]).nlri != n) && !(m.contains_key(n)
                && m[n].same_content(routes[i])) ==> ops.contains(RibOp::Insert(routes[i]))
            &&& m.contains_key(n) && (forall|j: int|
                0 <= j < routes.len() && (#[trigger] routes[j]).nlri == n ==> m[n].same_content(routes[j]))
                ==> t[n] == m[n] && (forall|j: int|
                0 <= j < ops.len() ==> (#[trigger] ops[j])->Insert_0.nlri != n)
            &&& ops.len() == r.events@.len()
            &&& r.work@.spread is Everyone
            &&& r.work@.spread->Everyone_0.len() == ops.len()
            &&& 0 <= k < ops.len() ==> {
                &&& ops[k] is Insert
                &&& routes.contains(ops[k]->Insert_0)
                &&& r.events@[k] == (RouteEvent::Announced {
                    peer: IpAddr::V4(Ipv4Addr { bits: 0 }),
                    nlri: ops[k]->Insert_0.nlri,
                    route: ops[k]->Insert_0,
                })
                &&& r.work@.spread->Everyone_0[k] == ops[k]->Insert_0.nlri
            }
            &&& r.work@.peer == IpAddr::V4(Ipv4Addr { bits: 0 })
            &&& !r.work@.install
            &&& r.work@.ops_v6.len() == 0 && r.work@.spread_v6 is Nobody && !r.work@.notify
            &&& r.work@.null_routes.len() == 0 && r.work@.lifted.len() == 0
            &&& r.work@.watch.len() == 0
        }),
        after == (DaemonView {
            rib: RibView {
                originated_routes: after.rib.originated_routes,
                ..before.rib
            },
            ..before
        }),
{
    let m = before.rib.originated_routes;
    let f = novel(m, routes);
    let ops = r.work@.ops;
    novel_stands(m, routes, n, i);
    if 0 <= i < routes.len() && f.contains(routes[i]) {
        let j = f.index_of(routes[i]);
        assert(ops[j] == RibOp::Insert(routes[i]));
    }
    if !has_route(f, n) {
        assert forall|j: int| 0 <= j < ops.len() implies (#[trigger] ops[j])->Insert_0.nlri != n by {
            assert(ops[j] == RibOp::Insert(f[j]));
            if f[j].nlri == n {
                assert(has_route(f, n));
            }
        }
    }
    if 0 <= k < ops.len() {
        assert(ops[k] == RibOp::Insert(f[k]));
        assert(routes.contains(f[k]));
    }
}

/// What taking IPv4 prefixes back does: those in the list that are originated are so no longer, each is
/// dropped as a candidate of the daemon itself once, and every peer and those who watch routes hear of it.
/// The others change nothing.
pub proof fn withdrawal_takes_back_v4(
    before: DaemonView,
    nlris: Seq<Nlri<Ipv4Addr>>,
    after: DaemonView,
    r: Origination<Ipv4Addr>,
    n: Nlri<Ipv4Addr>,
    k: int,
)
    requires
        withdrawal_outcome_v4(before, nlris, after, r),
    ensures
        ({
            let m = before.rib.originated_routes;
            let t = after.rib.originated_routes;
            let ops = r.work@.ops;
            let taken = m.contains_key(n) && nlris.contains(n);
            &&& t.contains_key(n) <==> m.contains_key(n) && !nlris.contains(n)
            &&& t.contains_key(n) ==> t[n] == m[n]
            &&& ops.contains(RibOp::Withdraw(n)) <==> taken
            &&& r.events@.contains(RouteEvent::Withdrawn(n)) <==> taken
            &&& r.events@.len() == ops.len()
            &&& 0 <= k < ops.len() ==> ops[k] is Withdraw && r.events@[k] is Withdrawn
            &&& taken ==> r.work@.spread is Everyone && r.work@.spread->Everyone_0.contains(n)
            &&& ops.len() == 0 <==> r.work@.spread is Nobody
            &&& r.work@.spread is Everyone ==> r.work@.spread->Everyone_0.no_duplicates() && (
            r.work@.spread->Everyone_0.contains(n) <==> taken)
            &&& r.work@.peer == IpAddr::V4(Ipv4Addr { bits: 0 })
            &&& r.work@.install && r.work@.install_v6 && !r.work@.notify
            &&& r.work@.ops_v6.len() == 0 && r.work@.spread_v6 is Nobody
            &&& r.work@.null_routes.len() == 0 && r.work@.lifted.len() == 0
            &&& r.work@.watch.len() == 0
        }),
        after == (DaemonView {
            rib: RibView {
                originated_routes: after.rib.originated_routes,
                ..before.rib
            },
            ..before
        }),
{
    let m = before.rib.originated_routes;
    let h = held_of(m, nlris);
    let ops = r.work@.ops;
    held_members(m, nlris, n);
    assert(h.to_set().contains(n) == h.contains(n));
    if h.contains(n) {
        let i = h.index_of(n);
        assert(ops[i] == RibOp::<Ipv4Addr>::Withdraw(n));
        assert(r.events@[i] == RouteEvent::<Ipv4Addr>::Withdrawn(n));
    }
    if ops.contains(RibOp::Withdraw(n)) {
        let i = ops.index_of(RibOp::Withdraw(n));
        assert(h[i] == n);
    }
    if r.events@.contains(RouteEvent::Withdrawn(n)) {
        let i = r.events@.index_of(RouteEvent::Withdrawn(n));
        assert(h[i] == n);
    }
}

/// What bringing in IPv6 routes does. What stands for a prefix afterwards has the content of the last
/// route for it in the list, and a prefix without one keeps what it had. A route whose content already
/// stands leads to nothing: for the others the decision process takes the route on behalf of the daemon
/// itself, those who watch routes are told, and every peer hears of the prefix.
pub proof fn origination_brings_in_what_is_new_v6(
    before: DaemonView,
    routes: Seq<Route<Ipv6Addr>>,
    after: DaemonView,
    r: Origination<Ipv6Addr>,
    n: Nlri<Ipv6Addr>,
    i: int,
    k: int,
)
    requires
        origination_outcome_v6(before, routes, after, r),
    ensures
        ({
            let m = before.rib.originated_routes_v6;
            let t = after.rib.originated_routes_v6;
            let ops = r.work@.ops_v6;
            &&& t.contains_key(n) <==> m.contains_key(n) || has_route(routes, n)
            &&& !has_route(routes, n) && m.contains_key(n) ==> t[n] == m[n]
            &&& 0 <= i < routes.len() && routes[i].nlri == n && (forall|j: int|
                i < j < routes.len() ==> (#[trigger] routes[j]).nlri != n) ==> t[n].same_content(routes[i])
            &&& 0 <= i < routes.len() && routes[i].nlri == n && (forall|j: int|
                0 <= j < i ==> (#[trigger] routes[j]).nlri != n) && !(m.contains_key(n)
                && m[n].same_content(routes[i])) ==> ops.contains(RibOp::Insert(routes[i]))
            &&& m.contains_key(n) && (forall|j: int|
                0 <= j < routes.len() && (#[trigger] routes[j]).nlri == n ==> m[n].same_content(routes[j]))
                ==> t[n] == m[n] && (forall|j: int|
                0 <= j < ops.len() ==> (#[trigger] ops[j])->Insert_0.nlri != n)
            &&& ops.len() == r.events@.len()
            &&& r.work@.spread_v6 is Everyone
            &&& r.work@.spread_v6->Everyone_0.len() == ops.len()
            &&& 0 <= k < ops.len() ==> {
                &&& ops[k] is Insert
                &&& routes.contains(ops[k]->Insert_0)
                &&& r.events@[k] == (RouteEvent::Announced {
                    peer: IpAddr::V4(Ipv4Addr { bits: 0 }),
                    nlri: ops[k]->Insert_0.nlri,
                    route: ops[k]->Insert_0,
                })
                &&& r.work@.spread_v6->Everyone_0[k] == ops[k]->Insert_0.nlri
            }
            &&& r.work@.peer == IpAddr::V4(Ipv4Addr { bits: 0 })
            &&& r.work@.install_v6
            &&& r.work@.ops.len() == 0 && r.work@.spread is Nobody && !r.work@.notify
            &&& r.work@.null_routes_v6.len() == 0 && r.work@.lifted_v6.len() == 0
            &&& r.work@.watch.len() == 0
        }),
        after == (DaemonView {
            rib: RibView {
                originated_routes_v6: after.rib.originated_routes_v6,
                ..before.rib
            },
            ..before
        }),
{
    let m = before.rib.originated_routes_v6;
    let f = novel(m, routes);
    let ops = r.work@.ops_v6;
    novel_stands(m, routes, n, i);
    if 0 <= i < routes.len() && f.contains(routes[i]) {
        let j = f.index_of(routes[i]);
        assert(ops[j] == RibOp::Insert(routes[i]));
    }
    if !has_route(f, n) {
        assert forall|j: int| 0 <= j < ops.len() implies (#[trigger] ops[j])->Insert_0.nlri != n by {
            assert(ops[j] == RibOp::Insert(f[j]));
            if f[j].nlri == n {
                assert(has_route(f, n));
            }
        }
    }
    if 0 <= k < ops.len() {
        assert(ops[k] == RibOp::Insert(f[k]));
        assert(routes.contains(f[k]));
    }
}

/// What taking IPv6 prefixes back does: those in the list that are originated are so no longer, each is
/// dropped as a candidate of the daemon itself once, and every peer and those who watch routes hear of it.
/// The others change nothing.
pub proof fn withdrawal_takes_back_v6(
    before: DaemonView,
    nlris: Seq<Nlri<Ipv6Addr>>,
    after: DaemonView,
    r: Origination<Ipv6Addr>,
    n: Nlri<Ipv6Addr>,
    k: int,
)
    requires
        withdrawal_outcome_v6(before, nlris, after, r),
    ensures
        ({
            let m = before.rib.originated_routes_v6;
            let t = after.rib.originated_routes_v6;
            let ops = r.work@.ops_v6;
            let taken = m.contains_key(n) && nlris.contains(n);
            &&& t.contains_key(n) <==> m.contains_key(n) && !nlris.contains(n)
            &&& t.contains_key(n) ==> t[n] == m[n]
            &&& ops.contains(RibOp::Withdraw(n)) <==> taken
            &&& r.events@.contains(RouteEvent::Withdrawn(n)) <==> taken
            &&& r.events@.len() == ops.len()
            &&& 0 <= k < ops.len() ==> ops[k] is Withdraw && r.events@[k] is Withdrawn
            &&& taken ==> r.work@.spread_v6 is Everyone && r.work@.spread_v6->Everyone_0.contains(n)
            &&& ops.len() == 0 <==> r.work@.spread_v6 is Nobody
            &&& r.work@.spread_v6 is Everyone ==> r.work@.spread_v6->Everyone_0.no_duplicates() && (
            r.work@.spread_v6->Everyone_0.contains(n) <==> taken)
            &&& r.work@.peer == IpAddr::V4(Ipv4Addr { bits: 0 })
            &&& r.work@.install && r.work@.install_v6 && !r.work@.notify
            &&& r.work@.ops.len() == 0 && r.work@.spread is Nobody
            &&& r.work@.null_routes_v6.len() == 0 && r.work@.lifted_v6.len() == 0
            &&& r.work@.watch.len() == 0
        }),
        after == (DaemonView {
            rib: RibView {
                originated_routes_v6: after.rib.originated_routes_v6,
                ..before.rib
            },
            ..before
        }),
{
    let m = before.rib.originated_routes_v6;
    let h = held_of(m, nlris);
    let ops = r.work@.ops_v6;
    held_members(m, nlris, n);
    assert(h.to_set().contains(n) == h.contains(n));
    if h.contains(n) {
        let i = h.index_of(n);
        assert(ops[i] == RibOp::<Ipv6Addr>::Withdraw(n));
        assert(r.events@[i] == RouteEvent::<Ipv6Addr>::Withdrawn(n));
    }
    if ops.contains(RibOp::Withdraw(n)) {
        let i = ops.index_of(RibOp::Withdraw(n));
        assert(h[i] == n);
    }
    if r.events@.contains(RouteEvent::Withdrawn(n)) {
        let i = r.events@.index_of(RouteEvent::Withdrawn(n));
        assert(h[i] == n);
    }
}

/// Every route of a table is looked at again as it is, once, and no other.
proof fn looked_at_again<A>(ops: Seq<RibOp<A>>, m: Map<Nlri<A>, Route<A>>, n: Nlri<A>, i: int)
    requires
        reevaluates(ops, m),
    ensures
        m.contains_key(n) ==> ops.contains(RibOp::Reevaluate(m[n])),
        reevaluated(ops).contains(n) <==> m.contains_key(n),
        reevaluated(ops).no_duplicates(),
        0 <= i < ops.len() ==> ops[i] is Reevaluate && m.contains_key(ops[i]->Reevaluate_0.nlri)
            && m[ops[i]->Reevaluate_0.nlri] == ops[i]->Reevaluate_0,
{
    let l = reevaluated(ops);
    assert(l.to_set().contains(n) == l.contains(n));
    if m.contains_key(n) {
        assert(m.dom().contains(n));
        let j = l.index_of(n);
        assert(ops[j]->Reevaluate_0.nlri == n);
        assert(ops[j] == RibOp::Reevaluate(m[n]));
    }
    if 0 <= i < ops.len() {
        let x = ops[i]->Reevaluate_0.nlri;
        assert(l[i] == x);
        assert(l.to_set().contains(x));
        assert(ops[i] == RibOp::Reevaluate(m[x]));
    }
}

/// What a new import default of a peer does: it counts for both families, and every route received from
/// the peer is looked at again as it is, once; every peer hears of their prefixes. A peer that is not
/// configured is left alone.
pub proof fn import_change_is_for_both_families(
    before: DaemonView,
    p: IpAddr,
    action: DefaultAction,
    after: DaemonView,
    r: Option<Work>,
    n: Nlri<Ipv4Addr>,
    k: Nlri<Ipv6Addr>,
    i: int,
)
    requires
        import_change_outcome(before, p, action, after, r),
    ensures
        r is Some <==> before.import_policies.contains_key(p),
        r is None ==> after == before,
        r matches Some(w) ==> {
            let v4 = before.adj_ribs_in[p];
            let v6 = before.adj_ribs_in_v6[p];
            &&& after.import_policies == before.import_policies.insert(p, Policy { default: action })
            &&& after.import_policies_v6 == before.import_policies_v6.insert(
                p,
                Policy { default: action },
            )
            &&& after == (DaemonView {
                import_policies: after.import_policies,
                import_policies_v6: after.import_policies_v6,
                ..before
            })
            &&& v4.contains_key(n) ==> w@.ops.contains(RibOp::Reevaluate(v4[n]))
            &&& v6.contains_key(k) ==> w@.ops_v6.contains(RibOp::Reevaluate(v6[k]))
            &&& 0 <= i < w@.ops.len() ==> w@.ops[i] is Reevaluate && v4.contains_key(
                w@.ops[i]->Reevaluate_0.nlri,
            ) && v4[w@.ops[i]->Reevaluate_0.nlri] == w@.ops[i]->Reevaluate_0
            &&& 0 <= i < w@.ops_v6.len() ==> w@.ops_v6[i] is Reevaluate && v6.contains_key(
                w@.ops_v6[i]->Reevaluate_0.nlri,
            ) && v6[w@.ops_v6[i]->Reevaluate_0.nlri] == w@.ops_v6[i]->Reevaluate_0
            &&& w@.spread is Everyone && (w@.spread->Everyone_0.contains(n) <==> v4.contains_key(n))
            &&& w@.spread_v6 is Everyone && (w@.spread_v6->Everyone_0.contains(k)
                <==> v6.contains_key(k))
            &&& w@.watch.contains(n) <==> v4.contains_key(n)
            &&& w@.ops.len() == w@.watch.len() && w@.watch.no_duplicates()
            &&& w@.peer == p && w@.install && w@.install_v6 && !w@.notify
            &&& w@.null_routes.len() == 0 && w@.null_routes_v6.len() == 0
            &&& w@.lifted.len() == 0 && w@.lifted_v6.len() == 0
        },
{
    if let Some(w) = r {
        looked_at_again(w@.ops, before.adj_ribs_in[p], n, i);
        looked_at_again(w@.ops_v6, before.adj_ribs_in_v6[p], k, i);
    }
}

/// What a new export default of a peer does: it counts for IPv4, and where the peer has a session and can
/// be advertised to, the export engine is asked of every best route, told of the session as it is, and
/// whether advertisements are held back.
pub proof fn export_change_asks_for_all(
    before: DaemonView,
    p: IpAddr,
    action: DefaultAction,
    after: DaemonView,
    r: Option<Export<Ipv4Addr>>,
    n: Nlri<Ipv4Addr>,
)
    requires
        export_change_outcome(before, p, action, after, r),
    ensures
        before.export_policies.contains_key(p) ==> after.export_policies
            == before.export_policies.insert(p, Policy { default: action }),
        !before.export_policies.contains_key(p) ==> after.export_policies == before.export_policies,
        after == (DaemonView { export_policies: after.export_policies, ..before }),
        r is Some <==> before.rib.peer_types.contains_key(p) && can_be_told(before, p),
        r matches Some(e) ==> {
            &&& told_of_session(before, p, e@)
            &&& e@.next_hop == Some(own_next_hop(before, p))
            &&& e@.deferred == !before.selection_deferral.v4_released
            &&& e@.nlris.no_duplicates()
            &&& e@.nlris.contains(n) <==> before.rib.loc_rib.contains_key(n)
        },
{
    if let Some(e) = r {
        assert(e@.nlris.to_set().contains(n) == e@.nlris.contains(n));
    }
}

/// What follows where next hops have changed: every best route is picked anew, on behalf of the daemon
/// itself, and what changes goes to the kernel and to every peer, in both families.
pub proof fn next_hop_change_picks_anew()
    ensures
        ({
            let w = recompute_work();
            &&& w.ops.len() == 1 && w.ops[0] is RecomputeAll
            &&& w.ops_v6.len() == 1 && w.ops_v6[0] is RecomputeAll
            &&& w.spread is Changed && w.spread_v6 is Changed
            &&& w.install && w.install_v6
            &&& w.peer == IpAddr::V4(Ipv4Addr { bits: 0 })
            &&& w.null_routes.len() == 0 && w.null_routes_v6.len() == 0
            &&& w.lifted.len() == 0 && w.lifted_v6.len() == 0
            &&& w.watch.len() == 0 && !w.notify
        }),
{
}

} // verus!
