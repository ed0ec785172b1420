//! What peers, the kernel and those who watch are told, put in terms of what the decision process
//! answered and of how peers are configured.
use vstd::prelude::*;

use crate::config::PeerConfig;
use crate::fib::{null_routes_lifted, pending_after_all, with_null_routes, Gateway, Pending};
use crate::net::{IpAddr, Ipv4Addr, Ipv6Addr, NextHop, Nlri};
use crate::propagation::{Audience, ExportView, RouteEvent};
use crate::rib::{after_changes, touched, Best, BestPathChange};
use crate::session::DumpStep;
use crate::session_laws::{kept_from, kept_from_is_withheld, own_next_hop, told_of_session};
use crate::state::{DaemonView, RibView};
use crate::work::{settling_outcome, Settled, SpreadView, WorkView};

verus! {

/// What is left of a list for a peer.
proof fn shown_members<A>(
    s: DaemonView,
    best: Map<Nlri<A>, Best<A>>,
    q: IpAddr,
    l: Seq<Nlri<A>>,
    n: Nlri<A>,
)
    ensures
        s.shown(best, q, l).contains(n) <==> l.contains(n) && !kept_from(s, best, q, n),
    decreases l.len(),
{
    kept_from_is_withheld(s, best, q, n);
    let r = s.shown(best, q, l);
    if l.len() > 0 {
        let t = l.drop_last();
        let x = s.shown(best, q, t);
        shown_members(s, best, q, t, n);
        if l.contains(n) {
            let i = l.index_of(n);
            if i < t.len() {
                assert(t[i] == n);
            }
        }
        if t.contains(n) {
            let i = t.index_of(n);
            assert(l[i] == n);
        }
        if !s.withheld(best, q, l.last()) {
            assert(r[r.len() - 1] == l.last());
            if x.contains(n) {
                let i = x.index_of(n);
                assert(r[i] == n);
            }
            if r.contains(n) {
                let i = r.index_of(n);
                if i < x.len() {
                    assert(x[i] == n);
                }
            }
        }
        assert(l[l.len() - 1] == l.last());
    }
}

/// Whether a peer is told of IPv4 prefixes: it has a session and tables, and where one peer is left out
/// it is another that can be sent to.
pub open spec fn is_told_v4(s: DaemonView, left_out: Option<IpAddr>, q: IpAddr) -> bool {
    &&& s.rib.peer_types.contains_key(q)
    &&& s.export_policies.contains_key(q)
    &&& s.adj_ribs_out.contains_key(q)
    &&& left_out matches Some(x) ==> q != x && s.update_senders.contains(q)
}

/// Whether the export engine is asked of IPv4 prefixes for every peer that is told, of all that
/// `about` holds of and that are not kept from the peer where nobody is left out.
pub open spec fn is_asked_v4(
    s: DaemonView,
    left_out: Option<IpAddr>,
    about: spec_fn(Nlri<Ipv4Addr>) -> bool,
    out: Map<IpAddr, ExportView<Ipv4Addr>>,
    q: IpAddr,
) -> bool {
    &&& out.contains_key(q) <==> is_told_v4(s, left_out, q)
    &&& out.contains_key(q) ==> {
        &&& told_of_session(s, q, out[q])
        &&& out[q].next_hop == Some(own_next_hop(s, q))
        &&& out[q].deferred == !s.selection_deferral.v4_released
        &&& forall|n: Nlri<Ipv4Addr>| #[trigger]
            out[q].nlris.contains(n) <==> about(n) && !(left_out is None && kept_from(
                s,
                s.rib.loc_rib,
                q,
                n,
            ))
    }
}

/// What the export engine is asked.
proof fn exports_are_asked_v4(
    s: DaemonView,
    l: Seq<Nlri<Ipv4Addr>>,
    left_out: Option<IpAddr>,
    about: spec_fn(Nlri<Ipv4Addr>) -> bool,
    q: IpAddr,
)
    requires
        forall|n: Nlri<Ipv4Addr>| #[trigger] l.contains(n) <==> about(n),
    ensures
        is_asked_v4(
            s,
            left_out,
            about,
            s.exports_v4(
                l,
                match left_out {
                    Some(x) => Audience::Others(x),
                    None => Audience::Everyone,
                },
            ),
            q,
        ),
{
    let a = match left_out {
        Some(x) => Audience::Others(x),
        None => Audience::Everyone,
    };
    let out = s.exports_v4(l, a);
    assert(out.contains_key(q) == s.listens_v4(q, a));
    if out.contains_key(q) {
        assert forall|n: Nlri<Ipv4Addr>| #[trigger] out[q].nlris.contains(n) <==> about(n) && !(left_out
            is None && kept_from(s, s.rib.loc_rib, q, n)) by {
            shown_members(s, s.rib.loc_rib, q, l, n);
            assert(l.contains(n) <==> about(n));
        }
    }
}

/// Whether a peer is told of IPv6 prefixes: it has a session and tables, and where one peer is left out
/// it is another that can be sent to.
pub open spec fn is_told_v6(s: DaemonView, left_out: Option<IpAddr>, q: IpAddr) -> bool {
    &&& s.rib.peer_types.contains_key(q)
    &&& s.export_policies_v6.contains_key(q)
    &&& s.adj_ribs_out_v6.contains_key(q)
    &&& s.ipv6_capable_peers.contains(q)
    &&& left_out matches Some(x) ==> q != x && s.update_senders.contains(q)
}

/// Whether the export engine is asked of IPv6 prefixes for every peer that is told, of all that
/// `about` holds of and that are not kept from the peer where nobody is left out.
pub open spec fn is_asked_v6(
    s: DaemonView,
    left_out: Option<IpAddr>,
    about: spec_fn(Nlri<Ipv6Addr>) -> bool,
    out: Map<IpAddr, ExportView<Ipv6Addr>>,
    q: IpAddr,
) -> bool {
    &&& out.contains_key(q) <==> is_told_v6(s, left_out, q)
    &&& out.contains_key(q) ==> {
        &&& told_of_session(s, q, out[q])
        &&& out[q].next_hop == s.rib.local_ipv6
        &&& out[q].deferred == !s.selection_deferral.v6_released
        &&& forall|n: Nlri<Ipv6Addr>| #[trigger]
            out[q].nlris.contains(n) <==> about(n) && !(left_out is None && kept_from(
                s,
                s.rib.loc_rib_v6,
                q,
                n,
            ))
    }
}

/// What the export engine is asked.
proof fn exports_are_asked_v6(
    s: DaemonView,
    l: Seq<Nlri<Ipv6Addr>>,
    left_out: Option<IpAddr>,
    about: spec_fn(Nlri<Ipv6Addr>) -> bool,
    q: IpAddr,
)
    requires
        forall|n: Nlri<Ipv6Addr>| #[trigger] l.contains(n) <==> about(n),
    ensures
        is_asked_v6(
            s,
            left_out,
            about,
            s.exports_v6(
                l,
                match left_out {
                    Some(x) => Audience::Others(x),
                    None => Audience::Everyone,
                },
            ),
            q,
        ),
{
    let a = match left_out {
        Some(x) => Audience::Others(x),
        None => Audience::Everyone,
    };
    let out = s.exports_v6(l, a);
    assert(out.contains_key(q) == s.listens_v6(q, a));
    if out.contains_key(q) {
        assert forall|n: Nlri<Ipv6Addr>| #[trigger] out[q].nlris.contains(n) <==> about(n) && !(left_out
            is None && kept_from(s, s.rib.loc_rib_v6, q, n)) by {
            shown_members(s, s.rib.loc_rib_v6, q, l, n);
            assert(l.contains(n) <==> about(n));
        }
    }
}

/// Whether some change is about a prefix.
pub open spec fn change_about<A>(c: BestPathChange<A>, n: Nlri<A>) -> bool {
    match c {
        BestPathChange::Announced(m, _) => m == n,
        BestPathChange::Withdrawn(m) => m == n,
        BestPathChange::Unchanged => false,
    }
}

/// Whether some change is about a prefix.
pub open spec fn changes_about<A>(s: Seq<BestPathChange<A>>, n: Nlri<A>) -> bool {
    exists|i: int| 0 <= i < s.len() && change_about(#[trigger] s[i], n)
}

/// The prefixes that changes touch are those that they are about.
proof fn touched_members<A>(s: Seq<BestPathChange<A>>, n: Nlri<A>)
    ensures
        touched(s).contains(n) <==> changes_about(s, n),
        touched(s).len() == 0 <==> (forall|i: int| 0 <= i < s.len() ==> (#[trigger] s[i]) is Unchanged),
    decreases s.len(),
{
    let r = touched(s);
    if s.len() > 0 {
        let t = s.drop_last();
        let q = touched(t);
        touched_members(t, n);
        let l = s.len() - 1;
        if changes_about(s, n) {
            let i = choose|i: int| 0 <= i < s.len() && change_about(#[trigger] s[i], n);
            if i < l {
                assert(change_about(t[i], n));
                let j = q.index_of(n);
                assert(r[j] == n);
            } else {
                assert(r[r.len() - 1] == n);
            }
        }
        if r.contains(n) {
            let j = r.index_of(n);
            if j < q.len() {
                assert(q[j] == n);
                let i = choose|i: int| 0 <= i < t.len() && change_about(#[trigger] t[i], n);
                assert(change_about(s[i], n));
            } else {
                assert(change_about(s[l], n));
            }
        }
        if q.len() == 0 && s[l] is Unchanged {
            assert forall|i: int| 0 <= i < s.len() implies (#[trigger] s[i]) is Unchanged by {
                if i < l {
                    assert(t[i] == s[i]);
                }
            }
        }
        if forall|i: int| 0 <= i < s.len() ==> (#[trigger] s[i]) is Unchanged {
            assert forall|i: int| 0 <= i < t.len() implies (#[trigger] t[i]) is Unchanged by {
                assert(t[i] == s[i]);
            }
            assert(s[l] is Unchanged);
        }
    }
}

/// The last change that is about a prefix counts.
proof fn last_change_counts<A>(m: Map<Nlri<A>, Best<A>>, s: Seq<BestPathChange<A>>, n: Nlri<A>, i: int)
    ensures
        0 <= i < s.len() && change_about(s[i], n) && (forall|j: int|
            i < j < s.len() ==> !change_about(#[trigger] s[j], n)) ==> {
            &&& s[i] matches BestPathChange::Announced(x, b) ==> after_changes(m, s).contains_key(n)
                && after_changes(m, s)[n] == b
            &&& s[i] is Withdrawn ==> !after_changes(m, s).contains_key(n)
        },
        !changes_about(s, n) ==> after_changes(m, s).contains_key(n) == m.contains_key(n) && (
        m.contains_key(n) ==> after_changes(m, s)[n] == m[n]),
    decreases s.len(),
{
    if s.len() > 0 {
        let t = s.drop_last();
        let l = s.len() - 1;
        last_change_counts(m, t, n, i);
        if 0 <= i < l && change_about(s[i], n) && (forall|j: int|
            i < j < s.len() ==> !change_about(#[trigger] s[j], n)) {
            assert(t[i] == s[i]);
            assert forall|j: int| i < j < t.len() implies !change_about(#[trigger] t[j], n) by {
                assert(t[j] == s[j]);
            }
            assert(!change_about(s[l], n));
        }
        if !changes_about(s, n) {
            assert(!change_about(s[l], n));
            if changes_about(t, n) {
                let j = choose|j: int| 0 <= j < t.len() && change_about(#[trigger] t[j], n);
                assert(change_about(s[j], n));
            }
        }
    }
}

/// The address that packets for a route go to, of its family.
pub open spec fn gateway_v4(nh: Option<NextHop>) -> Option<Ipv4Addr> {
    match nh {
        Some(NextHop::V4(a)) => Some(a),
        _ => None,
    }
}

/// The address that packets for a route go to, of its family: the global one where there are two.
pub open spec fn gateway_v6(nh: Option<NextHop>) -> Option<Ipv6Addr> {
    match nh {
        Some(NextHop::V6(a)) => Some(a),
        Some(NextHop::V6WithLinkLocal { global, .. }) => Some(global),
        _ => None,
    }
}

/// Whether a change asks something of the kernel for a prefix.
pub open spec fn kernel_cares<A: Gateway>(c: BestPathChange<A>, n: Nlri<A>) -> bool {
    match c {
        BestPathChange::Announced(m, b) => m == n && A::gateway_of(b.route.next_hop) is Some,
        BestPathChange::Withdrawn(m) => m == n,
        BestPathChange::Unchanged => false,
    }
}

/// The last change that asks something of the kernel for a prefix counts.
proof fn last_kernel_change<A: Gateway>(
    m: Map<Nlri<A>, Pending<A>>,
    s: Seq<BestPathChange<A>>,
    n: Nlri<A>,
    i: int,
)
    ensures
        0 <= i < s.len() && kernel_cares(s[i], n) && (forall|j: int|
            i < j < s.len() ==> !kernel_cares(#[trigger] s[j], n)) ==> {
            &&& pending_after_all(m, s).contains_key(n)
            &&& s[i] matches BestPathChange::Announced(x, b) ==> pending_after_all(m, s)[n] == (
            Pending::Install { gateway: A::gateway_of(b.route.next_hop)->0 })
            &&& s[i] is Withdrawn ==> pending_after_all(m, s)[n] is Withdraw
        },
        (forall|j: int| 0 <= j < s.len() ==> !kernel_cares(#[trigger] s[j], n)) ==> {
            &&& pending_after_all(m, s).contains_key(n) == m.contains_key(n)
            &&& m.contains_key(n) ==> pending_after_all(m, s)[n] == m[n]
        },
    decreases s.len(),
{
    if s.len() > 0 {
        let t = s.drop_last();
        let l = s.len() - 1;
        last_kernel_change(m, t, n, i);
        if 0 <= i < l && kernel_cares(s[i], n) && (forall|j: int|
            i < j < s.len() ==> !kernel_cares(#[trigger] s[j], n)) {
            assert(t[i] == s[i]);
            assert forall|j: int| i < j < t.len() implies !kernel_cares(#[trigger] t[j], n) by {
                assert(t[j] == s[j]);
            }
            assert(!kernel_cares(s[l], n));
        }
        if forall|j: int| 0 <= j < s.len() ==> !kernel_cares(#[trigger] s[j], n) {
            assert forall|j: int| 0 <= j < t.len() implies !kernel_cares(#[trigger] t[j], n) by {
                assert(t[j] == s[j]);
            }
            assert(!kernel_cares(s[l], n));
        }
    }
}

/// What null routes do to a prefix.
proof fn null_routes_count<A>(m: Map<Nlri<A>, Pending<A>>, s: Seq<Nlri<A>>, n: Nlri<A>)
    ensures
        s.contains(n) ==> with_null_routes(m, s).contains_key(n) && with_null_routes(m, s)[n] is Blackhole,
        !s.contains(n) ==> with_null_routes(m, s).contains_key(n) == m.contains_key(n) && (
        m.contains_key(n) ==> with_null_routes(m, s)[n] == m[n]),
    decreases s.len(),
{
    if s.len() > 0 {
        let t = s.drop_last();
        null_routes_count(m, t, n);
        if s.contains(n) {
            let i = s.index_of(n);
            if i < t.len() {
                assert(t[i] == n);
            }
        } else {
            assert(s[s.len() - 1] != n);
            if t.contains(n) {
                let i = t.index_of(n);
                assert(s[i] == n);
            }
        }
    }
}

/// What lifting null routes does to a prefix.
proof fn lifting_counts<A: Gateway>(
    m: Map<Nlri<A>, Pending<A>>,
    best: Map<Nlri<A>, Best<A>>,
    s: Seq<Nlri<A>>,
    n: Nlri<A>,
)
    ensures
        s.contains(n) ==> {
            let r = null_routes_lifted(m, best, s);
            &&& r.contains_key(n)
            &&& r[n] == (if best.contains_key(n) && A::gateway_of(best[n].route.next_hop) is Some {
                Pending::Install { gateway: A::gateway_of(best[n].route.next_hop)->0 }
            } else {
                Pending::Withdraw
            })
        },
        !s.contains(n) ==> null_routes_lifted(m, best, s).contains_key(n) == m.contains_key(n) && (
        m.contains_key(n) ==> null_routes_lifted(m, best, s)[n] == m[n]),
    decreases s.len(),
{
    if s.len() > 0 {
        let t = s.drop_last();
        lifting_counts(m, best, t, n);
        if s.contains(n) {
            let i = s.index_of(n);
            if i < t.len() {
                assert(t[i] == n);
            }
        } else {
            assert(s[s.len() - 1] != n);
            if t.contains(n) {
                let i = t.index_of(n);
                assert(s[i] == n);
            }
        }
    }
}

/// What the decision process answers becomes the best routes, and touches nothing else but the kernel's
/// queue: of changes that are about a prefix the last counts, and a prefix that no change is about keeps
/// its best route.
pub proof fn answers_become_best_routes(
    before: DaemonView,
    w: WorkView,
    changes: Seq<BestPathChange<Ipv4Addr>>,
    changes_v6: Seq<BestPathChange<Ipv6Addr>>,
    after: DaemonView,
    r: Settled,
    n: Nlri<Ipv4Addr>,
    i: int,
    k: Nlri<Ipv6Addr>,
    j: int,
)
    requires
        settling_outcome(before, w, changes, changes_v6, after, r),
    ensures
        0 <= i < changes.len() && change_about(changes[i], n) && (forall|x: int|
            i < x < changes.len() ==> !change_about(#[trigger] changes[x], n)) ==> {
            &&& changes[i] matches BestPathChange::Announced(_, b) ==> after.rib.loc_rib.contains_key(n)
                && after.rib.loc_rib[n] == b
            &&& changes[i] is Withdrawn ==> !after.rib.loc_rib.contains_key(n)
        },
        !changes_about(changes, n) ==> after.rib.loc_rib.contains_key(n)
            == before.rib.loc_rib.contains_key(n) && (before.rib.loc_rib.contains_key(n)
            ==> after.rib.loc_rib[n] == before.rib.loc_rib[n]),
        0 <= j < changes_v6.len() && change_about(changes_v6[j], k) && (forall|x: int|
            j < x < changes_v6.len() ==> !change_about(#[trigger] changes_v6[x], k)) ==> {
            &&& changes_v6[j] matches BestPathChange::Announced(_, b)
                ==> after.rib.loc_rib_v6.contains_key(k) && after.rib.loc_rib_v6[k] == b
            &&& changes_v6[j] is Withdrawn ==> !after.rib.loc_rib_v6.contains_key(k)
        },
        !changes_about(changes_v6, k) ==> after.rib.loc_rib_v6.contains_key(k)
            == before.rib.loc_rib_v6.contains_key(k) && (before.rib.loc_rib_v6.contains_key(k)
            ==> after.rib.loc_rib_v6[k] == before.rib.loc_rib_v6[k]),
        after == (DaemonView {
            rib: RibView {
                loc_rib: after.rib.loc_rib,
                loc_rib_v6: after.rib.loc_rib_v6,
                ..before.rib
            },
            fib_manager: after.fib_manager,
            ..before
        }),
        after.fib_manager is Some <==> before.fib_manager is Some,
{
    last_change_counts(before.rib.loc_rib, changes, n, i);
    last_change_counts(before.rib.loc_rib_v6, changes_v6, k, j);
}

/// Whether a change asks something of the kernel for an IPv4 prefix: it withdraws the prefix, or
/// announces it with a gateway.
pub open spec fn asks_kernel_v4(c: BestPathChange<Ipv4Addr>, n: Nlri<Ipv4Addr>) -> bool {
    match c {
        BestPathChange::Announced(m, b) => m == n && gateway_v4(b.route.next_hop) is Some,
        BestPathChange::Withdrawn(m) => m == n,
        BestPathChange::Unchanged => false,
    }
}

/// What the kernel is to do for an IPv4 prefix: where a null route is lifted, the best route is put
/// back or the prefix removed; else a null route is put where one is asked for; else the last change
/// that asks something counts, where changes go to the kernel; else what waited before still does.
pub proof fn kernel_follows_v4(
    before: DaemonView,
    w: WorkView,
    changes: Seq<BestPathChange<Ipv4Addr>>,
    changes_v6: Seq<BestPathChange<Ipv6Addr>>,
    after: DaemonView,
    r: Settled,
    n: Nlri<Ipv4Addr>,
    i: int,
)
    requires
        settling_outcome(before, w, changes, changes_v6, after, r),
        before.fib_manager is Some,
        after.fib_manager is Some,
    ensures
        ({
            let f = before.fib_manager->0.v4;
            let g = after.fib_manager->0.v4;
            let best = after.rib.loc_rib;
            &&& w.lifted.contains(n) ==> {
                &&& g.contains_key(n)
                &&& best.contains_key(n) && gateway_v4(best[n].route.next_hop) is Some ==> g[n] == (
                Pending::Install { gateway: gateway_v4(best[n].route.next_hop)->0 })
                &&& !(best.contains_key(n) && gateway_v4(best[n].route.next_hop) is Some) ==> g[n]
                    is Withdraw
            }
            &&& !w.lifted.contains(n) && w.null_routes.contains(n) ==> g.contains_key(n) && g[n]
                is Blackhole
            &&& !w.lifted.contains(n) && !w.null_routes.contains(n) && w.install && 0 <= i
                < changes.len() && asks_kernel_v4(changes[i], n) && (forall|x: int|
                i < x < changes.len() ==> !asks_kernel_v4(#[trigger] changes[x], n)) ==> {
                &&& g.contains_key(n)
                &&& changes[i] matches BestPathChange::Announced(_, b) ==> g[n] == (Pending::Install {
                    gateway: gateway_v4(b.route.next_hop)->0,
                })
                &&& changes[i] is Withdrawn ==> g[n] is Withdraw
            }
            &&& !w.lifted.contains(n) && !w.null_routes.contains(n) && (!w.install || (forall|
                x: int,
            |
                0 <= x < changes.len() ==> !asks_kernel_v4(#[trigger] changes[x], n))) ==> {
                &&& g.contains_key(n) == f.contains_key(n)
                &&& f.contains_key(n) ==> g[n] == f[n]
            }
        }),
{
    let f = before.fib_manager->0.v4;
    let best = after.rib.loc_rib;
    let a = if w.install {
        pending_after_all(f, changes)
    } else {
        f
    };
    let b = with_null_routes(a, w.null_routes);
    lifting_counts(b, best, w.lifted, n);
    null_routes_count(a, w.null_routes, n);
    assert forall|x: int| 0 <= x < changes.len() implies asks_kernel_v4(#[trigger] changes[x], n)
        == kernel_cares(changes[x], n) by {}
    last_kernel_change(f, changes, n, i);
}

/// Which peers the export engine is asked for after an event, of which IPv4 prefixes: for every peer
/// with a session the ones that the event names or that changed, and for the other peers the ones that
/// the event names, or all that have a best route or changed. With nobody to tell, nobody is asked for.
pub proof fn event_reaches_the_peers_v4(
    before: DaemonView,
    w: WorkView,
    changes: Seq<BestPathChange<Ipv4Addr>>,
    changes_v6: Seq<BestPathChange<Ipv6Addr>>,
    after: DaemonView,
    r: Settled,
    q: IpAddr,
)
    requires
        settling_outcome(before, w, changes, changes_v6, after, r),
    ensures
        ({
            let out = r.exports@;
            let quiet = forall|i: int| 0 <= i < changes.len() ==> (#[trigger] changes[i]) is Unchanged;
            &&& match w.spread {
                SpreadView::Nobody => !out.contains_key(q),
                SpreadView::Everyone(s) => is_asked_v4(
                    after,
                    None,
                    |n: Nlri<Ipv4Addr>| s.contains(n),
                    out,
                    q,
                ),
                SpreadView::Others(s) => is_asked_v4(
                    after,
                    Some(w.peer),
                    |n: Nlri<Ipv4Addr>| s.contains(n),
                    out,
                    q,
                ),
                SpreadView::Changed => {
                    &&& quiet ==> !out.contains_key(q)
                    &&& !quiet ==> is_asked_v4(
                        after,
                        None,
                        |n: Nlri<Ipv4Addr>| changes_about(changes, n),
                        out,
                        q,
                    )
                },
                SpreadView::OthersAll => is_asked_v4(
                    after,
                    Some(w.peer),
                    |n: Nlri<Ipv4Addr>| after.rib.loc_rib.contains_key(n) || changes_about(changes, n),
                    out,
                    q,
                ),
            }
            &&& r.collect <==> w.spread is Everyone || w.spread is Changed
        }),
{
    let out = r.exports@;
    let changed = touched(changes);
    touched_members(changes, arbitrary());
    match w.spread {
        SpreadView::Nobody => {},
        SpreadView::Everyone(s) => {
            exports_are_asked_v4(after, s, None, |n: Nlri<Ipv4Addr>| s.contains(n), q);
        },
        SpreadView::Others(s) => {
            exports_are_asked_v4(after, s, Some(w.peer), |n: Nlri<Ipv4Addr>| s.contains(n), q);
        },
        SpreadView::Changed => {
            if changed.len() > 0 {
                assert forall|n: Nlri<Ipv4Addr>| #[trigger] changed.contains(n) <==> changes_about(changes, n) by {
                    touched_members(changes, n);
                }
                exports_are_asked_v4(
                    after,
                    changed,
                    None,
                    |n: Nlri<Ipv4Addr>| changes_about(changes, n),
                    q,
                );
            }
        },
        SpreadView::OthersAll => {
            let s = choose|s: Seq<Nlri<Ipv4Addr>>|
                crate::rib::enumerates(s, after.rib.loc_rib.dom().union(changed.to_set())) && out
                    == #[trigger] after.exports_v4(s, Audience::Others(w.peer));
            assert forall|n: Nlri<Ipv4Addr>| #[trigger] s.contains(n) <==> after.rib.loc_rib.contains_key(n)
                || changes_about(changes, n) by {
                touched_members(changes, n);
                assert(s.to_set().contains(n) == s.contains(n));
                assert(changed.to_set().contains(n) == changed.contains(n));
            }
            exports_are_asked_v4(
                after,
                s,
                Some(w.peer),
                |n: Nlri<Ipv4Addr>| after.rib.loc_rib.contains_key(n) || changes_about(changes, n),
                q,
            );
        },
    }
}

/// Whether a change asks something of the kernel for an IPv6 prefix: it withdraws the prefix, or
/// announces it with a gateway.
pub open spec fn asks_kernel_v6(c: BestPathChange<Ipv6Addr>, n: Nlri<Ipv6Addr>) -> bool {
    match c {
        BestPathChange::Announced(m, b) => m == n && gateway_v6(b.route.next_hop) is Some,
        BestPathChange::Withdrawn(m) => m == n,
        BestPathChange::Unchanged => false,
    }
}

/// What the kernel is to do for an IPv6 prefix: where a null route is lifted, the best route is put
/// back or the prefix removed; else a null route is put where one is asked for; else the last change
/// that asks something counts, where changes go to the kernel; else what waited before still does.
pub proof fn kernel_follows_v6(
    before: DaemonView,
    w: WorkView,
    changes: Seq<BestPathChange<Ipv4Addr>>,
    changes_v6: Seq<BestPathChange<Ipv6Addr>>,
    after: DaemonView,
    r: Settled,
    n: Nlri<Ipv6Addr>,
    i: int,
)
    requires
        settling_outcome(before, w, changes, changes_v6, after, r),
        before.fib_manager is Some,
        after.fib_manager is Some,
    ensures
        ({
            let f = before.fib_manager->0.v6;
            let g = after.fib_manager->0.v6;
            let best = after.rib.loc_rib_v6;
            &&& w.lifted_v6.contains(n) ==> {
                &&& g.contains_key(n)
                &&& best.contains_key(n) && gateway_v6(best[n].route.next_hop) is Some ==> g[n] == (
                Pending::Install { gateway: gateway_v6(best[n].route.next_hop)->0 })
                &&& !(best.contains_key(n) && gateway_v6(best[n].route.next_hop) is Some) ==> g[n]
                    is Withdraw
            }
            &&& !w.lifted_v6.contains(n) && w.null_routes_v6.contains(n) ==> g.contains_key(n) && g[n]
                is Blackhole
            &&& !w.lifted_v6.contains(n) && !w.null_routes_v6.contains(n) && w.install_v6 && 0 <= i
                < changes_v6.len() && asks_kernel_v6(changes_v6[i], n) && (forall|x: int|
                i < x < changes_v6.len() ==> !asks_kernel_v6(#[trigger] changes_v6[x], n)) ==> {
                &&& g.contains_key(n)
                &&& changes_v6[i] matches BestPathChange::Announced(_, b) ==> g[n] == (Pending::Install {
                    gateway: gateway_v6(b.route.next_hop)->0,
                })
                &&& changes_v6[i] is Withdrawn ==> g[n] is Withdraw
            }
            &&& !w.lifted_v6.contains(n) && !w.null_routes_v6.contains(n) && (!w.install_v6 || (forall|
                x: int,
            |
                0 <= x < changes_v6.len() ==> !asks_kernel_v6(#[trigger] changes_v6[x], n))) ==> {
                &&& g.contains_key(n) == f.contains_key(n)
                &&& f.contains_key(n) ==> g[n] == f[n]
            }
        }),
{
    let f = before.fib_manager->0.v6;
    let best = after.rib.loc_rib_v6;
    let a = if w.install_v6 {
        pending_after_all(f, changes_v6)
    } else {
        f
    };
    let b = with_null_routes(a, w.null_routes_v6);
    lifting_counts(b, best, w.lifted_v6, n);
    null_routes_count(a, w.null_routes_v6, n);
    assert forall|x: int| 0 <= x < changes_v6.len() implies asks_kernel_v6(#[trigger] changes_v6[x], n)
        == kernel_cares(changes_v6[x], n) by {}
    last_kernel_change(f, changes_v6, n, i);
}

/// Which peers the export engine is asked for after an event, of which IPv6 prefixes: for every peer
/// with a session the ones that the event names or that changed, and for the other peers the ones that
/// the event names, or all that have a best route or changed. With nobody to tell, nobody is asked for.
pub proof fn event_reaches_the_peers_v6(
    before: DaemonView,
    w: WorkView,
    changes: Seq<BestPathChange<Ipv4Addr>>,
    changes_v6: Seq<BestPathChange<Ipv6Addr>>,
    after: DaemonView,
    r: Settled,
    q: IpAddr,
)
    requires
        settling_outcome(before, w, changes, changes_v6, after, r),
    ensures
        ({
            let out = r.exports_v6@;
            let quiet = forall|i: int| 0 <= i < changes_v6.len() ==> (#[trigger] changes_v6[i]) is Unchanged;
            &&& match w.spread_v6 {
                SpreadView::Nobody => !out.contains_key(q),
                SpreadView::Everyone(s) => is_asked_v6(
                    after,
                    None,
                    |n: Nlri<Ipv6Addr>| s.contains(n),
                    out,
                    q,
                ),
                SpreadView::Others(s) => is_asked_v6(
                    after,
                    Some(w.peer),
                    |n: Nlri<Ipv6Addr>| s.contains(n),
                    out,
                    q,
                ),
                SpreadView::Changed => {
                    &&& quiet ==> !out.contains_key(q)
                    &&& !quiet ==> is_asked_v6(
                        after,
                        None,
                        |n: Nlri<Ipv6Addr>| changes_about(changes_v6, n),
                        out,
                        q,
                    )
                },
                SpreadView::OthersAll => is_asked_v6(
                    after,
                    Some(w.peer),
                    |n: Nlri<Ipv6Addr>| after.rib.loc_rib_v6.contains_key(n) || changes_about(changes_v6, n),
                    out,
                    q,
                ),
            }
            &&& r.collect_v6 <==> w.spread_v6 is Everyone || w.spread_v6 is Changed
        }),
{
    let out = r.exports_v6@;
    let changed = touched(changes_v6);
    touched_members(changes_v6, arbitrary());
    match w.spread_v6 {
        SpreadView::Nobody => {},
        SpreadView::Everyone(s) => {
            exports_are_asked_v6(after, s, None, |n: Nlri<Ipv6Addr>| s.contains(n), q);
        },
        SpreadView::Others(s) => {
            exports_are_asked_v6(after, s, Some(w.peer), |n: Nlri<Ipv6Addr>| s.contains(n), q);
        },
        SpreadView::Changed => {
            if changed.len() > 0 {
                assert forall|n: Nlri<Ipv6Addr>| #[trigger] changed.contains(n) <==> changes_about(changes_v6, n) by {
                    touched_members(changes_v6, n);
                }
                exports_are_asked_v6(
                    after,
                    changed,
                    None,
                    |n: Nlri<Ipv6Addr>| changes_about(changes_v6, n),
                    q,
                );
            }
        },
        SpreadView::OthersAll => {
            let s = choose|s: Seq<Nlri<Ipv6Addr>>|
                crate::rib::enumerates(s, after.rib.loc_rib_v6.dom().union(changed.to_set())) && out
                    == #[trigger] after.exports_v6(s, Audience::Others(w.peer));
            assert forall|n: Nlri<Ipv6Addr>| #[trigger] s.contains(n) <==> after.rib.loc_rib_v6.contains_key(n)
                || changes_about(changes_v6, n) by {
                touched_members(changes_v6, n);
                assert(s.to_set().contains(n) == s.contains(n));
                assert(changed.to_set().contains(n) == changed.contains(n));
            }
            exports_are_asked_v6(
                after,
                s,
                Some(w.peer),
                |n: Nlri<Ipv6Addr>| after.rib.loc_rib_v6.contains_key(n) || changes_about(changes_v6, n),
                q,
            );
        },
    }
}

/// What those who watch routes are told: of each prefix that the event names, or of each that changed
/// where changes are what is spread, the best route that it has now, or that it has none. Those who watch
/// peers are told where the event asks for it, where prefixes are spread to everyone, and where changes
/// that there are have been spread.
pub proof fn watchers_are_told(
    before: DaemonView,
    w: WorkView,
    changes: Seq<BestPathChange<Ipv4Addr>>,
    changes_v6: Seq<BestPathChange<Ipv6Addr>>,
    after: DaemonView,
    r: Settled,
    n: Nlri<Ipv4Addr>,
)
    requires
        settling_outcome(before, w, changes, changes_v6, after, r),
    ensures
        ({
            let about = if w.spread is Changed {
                changes_about(changes, n)
            } else {
                w.watch.contains(n)
            };
            let best = after.rib.loc_rib;
            &&& best.contains_key(n) ==> (r.events@.contains(
                RouteEvent::Announced { peer: best[n].peer, nlri: n, route: best[n].route },
            ) <==> about)
            &&& !best.contains_key(n) ==> (r.events@.contains(RouteEvent::Withdrawn(n)) <==> about)
            &&& forall|i: int|
                0 <= i < r.events@.len() ==> match #[trigger] r.events@[i] {
                    RouteEvent::Announced { peer, nlri, route } => best.contains_key(nlri)
                        && best[nlri].peer == peer && best[nlri].route == route,
                    RouteEvent::Withdrawn(x) => !best.contains_key(x),
                }
        }),
        r.notify <==> w.notify || w.spread is Everyone || (w.spread is Changed && exists|i: int|
            0 <= i < changes.len() && !((#[trigger] changes[i]) is Unchanged)),
{
    let l = if w.spread is Changed {
        touched(changes)
    } else {
        w.watch
    };
    touched_members(changes, n);
    let best = after.rib.loc_rib;
    let e = r.events@;
    if l.contains(n) {
        let i = l.index_of(n);
        assert(e[i] == crate::propagation::event_of(best, n));
    }
    if best.contains_key(n) {
        let x = RouteEvent::Announced { peer: best[n].peer, nlri: n, route: best[n].route };
        if e.contains(x) {
            let i = e.index_of(x);
            assert(e[i] == crate::propagation::event_of(best, l[i]));
            assert(l[i] == n);
        }
    } else {
        let x = RouteEvent::<Ipv4Addr>::Withdrawn(n);
        if e.contains(x) {
            let i = e.index_of(x);
            assert(e[i] == crate::propagation::event_of(best, l[i]));
            assert(l[i] == n);
        }
    }
    assert forall|i: int| 0 <= i < e.len() implies match #[trigger] e[i] {
        RouteEvent::Announced { peer, nlri, route } => best.contains_key(nlri) && best[nlri].peer == peer
            && best[nlri].route == route,
        RouteEvent::Withdrawn(x) => !best.contains_key(x),
    } by {
        assert(e[i] == crate::propagation::event_of(best, l[i]));
    }
}

/// Whether a peer is configured with the local speaker as its next hop, given the entries for peers.
pub open spec fn wants_next_hop_self(peers: Seq<PeerConfig>, q: IpAddr) -> bool {
    exists|i: int| 0 <= i < peers.len() && (#[trigger] peers[i]).address == q && peers[i].next_hop_self
}

/// The entries decide for whom the local speaker is the next hop.
proof fn entries_decide_next_hop(s: DaemonView, peers: Seq<PeerConfig>, q: IpAddr)
    ensures
        s.registered_all(peers).rib.next_hop_self_peers.contains(q)
            <==> s.rib.next_hop_self_peers.contains(q) || wants_next_hop_self(peers, q),
    decreases peers.len(),
{
    if peers.len() > 0 {
        let t = peers.drop_last();
        entries_decide_next_hop(s, t, q);
        if wants_next_hop_self(peers, q) {
            let i = choose|i: int|
                0 <= i < peers.len() && (#[trigger] peers[i]).address == q && peers[i].next_hop_self;
            if i < t.len() {
                assert(t[i] == peers[i]);
            }
        }
        if wants_next_hop_self(t, q) {
            let i = choose|i: int|
                0 <= i < t.len() && (#[trigger] t[i]).address == q && t[i].next_hop_self;
            assert(peers[i] == t[i]);
        }
        if peers.last().address == q && peers.last().next_hop_self {
            assert(peers[peers.len() - 1].next_hop_self);
        }
    }
}

/// Whatever the export engine is asked for a peer, it is told that the local speaker is the next hop just
/// where an entry for the peer says so: when the whole table is sent, when changes are spread, and when the
/// export policy of the peer changes, in both families. Events of sessions leave that as it is.
pub proof fn next_hop_self_comes_from_the_entry(
    start: DaemonView,
    peers: Seq<PeerConfig>,
    s: DaemonView,
    q: IpAddr,
    steps: Seq<DumpStep>,
    i: int,
    l: Seq<Nlri<Ipv4Addr>>,
    l6: Seq<Nlri<Ipv6Addr>>,
    audience: Audience,
    b: bool,
)
    requires
        !start.rib.next_hop_self_peers.contains(q),
        s.rib.next_hop_self_peers == start.registered_all(peers).rib.next_hop_self_peers,
    ensures
        s.rib.next_hop_self_peers.contains(q) <==> wants_next_hop_self(peers, q),
        0 <= i < steps.len() && s.dumps_v4(q, steps) ==> (steps[i] matches DumpStep::ExportV4(e)
            ==> e.next_hop_self == wants_next_hop_self(peers, q)),
        0 <= i < steps.len() && s.dumps_v6(q, steps) ==> (steps[i] matches DumpStep::ExportV6(e)
            ==> e.next_hop_self == wants_next_hop_self(peers, q)),
        s.exports_v4(l, audience).contains_key(q) ==> s.exports_v4(l, audience)[q].next_hop_self
            == wants_next_hop_self(peers, q),
        s.exports_v6(l6, audience).contains_key(q) ==> s.exports_v6(l6, audience)[q].next_hop_self
            == wants_next_hop_self(peers, q),
        s.export_v4(q, l, false).next_hop_self == wants_next_hop_self(peers, q),
        s.export_v6(q, l6, false).next_hop_self == wants_next_hop_self(peers, q),
        (exists|j: int| 0 <= j < peers.len() && (#[trigger] peers[j]).address == q) && (forall|j: int|
            0 <= j < peers.len() && (#[trigger] peers[j]).address == q ==> peers[j].next_hop_self == b)
            ==> wants_next_hop_self(peers, q) == b,
{
    entries_decide_next_hop(start, peers, q);
    if s.dumps_v4(q, steps) && s.can_dump_v4(q) {
        assert(steps[0]->ExportV4_0@.next_hop_self == steps[0]->ExportV4_0.next_hop_self);
    }
    if s.dumps_v6(q, steps) && steps.len() == 2 {
        assert(steps[0]->ExportV6_0@.next_hop_self == steps[0]->ExportV6_0.next_hop_self);
    }
}

} // verus!
