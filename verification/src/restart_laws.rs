//! What becomes of peers that are waited for, put in terms of time and of what they have sent.
use vstd::prelude::*;

use crate::clock::Instant;
use crate::gr::GrView;
use crate::message::PeerType;
use crate::net::{IpAddr, Ipv4Addr, Ipv6Addr, Nlri};
use crate::restart::expiry_outcome;
use crate::rib::enumerates;
use crate::session::{checking_outcome, forcing_outcome, CatchUp};
use crate::session_laws::has_clients;
use crate::state::DaemonView;
use crate::work::WorkView;

verus! {

/// Which windows are over: those whose time has come. They are taken out, and nothing else is.
pub proof fn windows_end_in_time(g: GrView, now: Instant, over: Seq<IpAddr>, p: IpAddr)
    requires
        enumerates(over, Set::new(|x: IpAddr| g.expired(x, now))),
    ensures
        over.contains(p) <==> g.deadlines.contains_key(p) && now.nanos >= g.deadlines[p].nanos,
        over.no_duplicates(),
        g.drained(now).deadlines.contains_key(p) <==> g.deadlines.contains_key(p) && now.nanos
            < g.deadlines[p].nanos,
        g.drained(now).deadlines.contains_key(p) ==> g.drained(now).deadlines[p] == g.deadlines[p],
        g.drained(now) == (GrView { deadlines: g.drained(now).deadlines, ..g }),
{
    assert(over.to_set().contains(p) == over.contains(p));
}

/// What the end of a window does to a peer that is not back: it has no route and nothing held in either
/// family, nothing is advertised to it, and the decision process drops all that it had; the other peers
/// hear of every best route, and the kernel forgets the null routes of the peer.
pub proof fn end_of_window_drops_the_peer(
    before: DaemonView,
    p: IpAddr,
    after: DaemonView,
    w: WorkView,
    n: Nlri<Ipv4Addr>,
    k: Nlri<Ipv6Addr>,
    q: IpAddr,
)
    requires
        expiry_outcome(before, p, after, w),
    ensures
        after.gr.stale_nlri == before.gr.stale_nlri.remove(p),
        after.gr.stale_nlri_v6 == before.gr.stale_nlri_v6.remove(p),
        after.adj_ribs_in.contains_key(p) == before.adj_ribs_in.contains_key(p),
        before.adj_ribs_in.contains_key(p) ==> !after.adj_ribs_in[p].contains_key(n),
        after.adj_ribs_in_v6.contains_key(p) == before.adj_ribs_in_v6.contains_key(p),
        before.adj_ribs_in_v6.contains_key(p) ==> !after.adj_ribs_in_v6[p].contains_key(k),
        before.adj_ribs_out.contains_key(p) ==> {
            &&& after.adj_ribs_out[p].advertised == 0
            &&& before.peer_config_types.contains_key(p) ==> after.adj_ribs_out[p].peer_type
                == before.peer_config_types[p]
            &&& after.adj_ribs_out[p].reflects == (has_clients(before) && after.adj_ribs_out[p].peer_type
                == PeerType::Internal)
        },
        before.adj_ribs_out_v6.contains_key(p) ==> {
            &&& after.adj_ribs_out_v6[p].advertised == 0
            &&& before.peer_config_types.contains_key(p) ==> after.adj_ribs_out_v6[p].peer_type
                == before.peer_config_types[p]
        },
        q != p ==> {
            &&& after.adj_ribs_in.contains_key(q) == before.adj_ribs_in.contains_key(q)
            &&& after.adj_ribs_in[q] == before.adj_ribs_in[q]
            &&& after.adj_ribs_in_v6.contains_key(q) == before.adj_ribs_in_v6.contains_key(q)
            &&& after.adj_ribs_in_v6[q] == before.adj_ribs_in_v6[q]
            &&& after.adj_ribs_out.contains_key(q) == before.adj_ribs_out.contains_key(q)
            &&& after.adj_ribs_out[q] == before.adj_ribs_out[q]
            &&& after.adj_ribs_out_v6.contains_key(q) == before.adj_ribs_out_v6.contains_key(q)
            &&& after.adj_ribs_out_v6[q] == before.adj_ribs_out_v6[q]
        },
        match (before.fib_manager, after.fib_manager) {
            (Some(f), Some(g)) => {
                let gone = before.adj_ribs_in.contains_key(p) && before.adj_ribs_in[p].contains_key(n)
                    && before.adj_ribs_in[p][n].attributes.is_blackhole();
                let gone_v6 = before.adj_ribs_in_v6.contains_key(p)
                    && before.adj_ribs_in_v6[p].contains_key(k)
                    && before.adj_ribs_in_v6[p][k].attributes.is_blackhole();
                &&& gone ==> g.v4.contains_key(n) && g.v4[n] is Withdraw
                &&& !gone ==> g.v4.contains_key(n) == f.v4.contains_key(n) && (f.v4.contains_key(n)
                    ==> g.v4[n] == f.v4[n])
                &&& gone_v6 ==> g.v6.contains_key(k) && g.v6[k] is Withdraw
                &&& !gone_v6 ==> g.v6.contains_key(k) == f.v6.contains_key(k) && (f.v6.contains_key(k)
                    ==> g.v6[k] == f.v6[k])
            },
            (None, None) => true,
            _ => false,
        },
        w.peer == p && w.notify && w.install && w.install_v6,
        w.ops.len() == 1 && w.ops[0] is WithdrawPeer,
        w.ops_v6.len() == 1 && w.ops_v6[0] is WithdrawPeer,
        w.spread is Others && w.spread->Others_0 == w.watch,
        w.watch.contains(n) <==> before.rib.loc_rib.contains_key(n),
        w.spread_v6 is Others,
        w.spread_v6->Others_0.contains(k) <==> before.rib.loc_rib_v6.contains_key(k),
        w.null_routes.len() == 0 && w.null_routes_v6.len() == 0,
        w.lifted.len() == 0 && w.lifted_v6.len() == 0,
        after == (DaemonView {
            gr: GrView {
                stale_nlri: after.gr.stale_nlri,
                stale_nlri_v6: after.gr.stale_nlri_v6,
                ..before.gr
            },
            adj_ribs_in: after.adj_ribs_in,
            adj_ribs_in_v6: after.adj_ribs_in_v6,
            adj_ribs_out: after.adj_ribs_out,
            adj_ribs_out_v6: after.adj_ribs_out_v6,
            fib_manager: after.fib_manager,
            ..before
        }),
{
    if !has_clients(before) {
        assert(before.rib.rr_clients =~= Set::<IpAddr>::empty());
    }
    assert(w.watch.to_set().contains(n) == w.watch.contains(n));
    assert(w.spread_v6->Others_0.to_set().contains(k) == w.spread_v6->Others_0.contains(k));
}

/// Whether a peer keeps IPv4 advertisements back: it has no session, or it takes part in graceful restart,
/// is not restarting itself and has not said that its initial table is complete.
pub open spec fn holds_back_v4(s: DaemonView, p: IpAddr) -> bool {
    ||| !s.rib.peer_types.contains_key(p)
    ||| {
        &&& s.rib.gr_capable_peers.contains_key(p)
        &&& !s.rib.gr_peer_restarting.contains(p)
        &&& !s.rib.eor_received.contains(p)
    }
}

/// Whether a peer keeps IPv6 advertisements back: as for IPv4, where it takes IPv6 routes.
pub open spec fn holds_back_v6(s: DaemonView, p: IpAddr) -> bool {
    ||| !s.rib.peer_types.contains_key(p)
    ||| {
        &&& s.ipv6_capable_peers.contains(p)
        &&& s.rib.gr_capable_peers.contains_key(p)
        &&& !s.rib.gr_peer_restarting.contains(p)
        &&& !s.rib.eor_received_v6.contains(p)
    }
}

/// Advertisements of a family are held back no longer once no configured peer keeps them back, and never
/// again; the peers are sent the table of a family just when that happens.
pub proof fn gates_open_when_nobody_holds_back(
    before: DaemonView,
    after: DaemonView,
    c: CatchUp,
    q: IpAddr,
)
    requires
        checking_outcome(before, after, c),
    ensures
        after.selection_deferral.v4_released <==> before.selection_deferral.v4_released || (forall|
            p: IpAddr,
        | #[trigger]
            before.rib.peer_remote_as.contains_key(p) ==> !holds_back_v4(before, p)),
        after.selection_deferral.v6_released <==> before.selection_deferral.v6_released || (forall|
            p: IpAddr,
        | #[trigger]
            before.rib.peer_remote_as.contains_key(p) ==> !holds_back_v6(before, p)),
        after.selection_deferral.deadline == before.selection_deferral.deadline,
        after == (DaemonView { selection_deferral: after.selection_deferral, ..before }),
        c.v4@.contains_key(q) <==> after.rib.peer_types.contains_key(q)
            && after.selection_deferral.v4_released && !before.selection_deferral.v4_released,
        c.v6@.contains_key(q) <==> after.rib.peer_types.contains_key(q)
            && after.selection_deferral.v6_released && !before.selection_deferral.v6_released,
{
    let e = before.gate_evidence();
    let all = before.rib.peer_remote_as.dom();
    assert(c.v4@.dom().contains(q) == c.v4@.contains_key(q));
    assert(c.v6@.dom().contains(q) == c.v6@.contains_key(q));
    assert forall|p: IpAddr| holds_back_v4(before, p) == crate::deferral::blocks(p, false, e) by {}
    assert forall|p: IpAddr| holds_back_v6(before, p) == crate::deferral::blocks(p, true, e) by {}
    if crate::deferral::clear(all, false, e) {
        assert forall|p: IpAddr| #[trigger] before.rib.peer_remote_as.contains_key(
            p,
        ) implies !holds_back_v4(before, p) by {
            assert(all.contains(p));
        }
    }
    if crate::deferral::clear(all, true, e) {
        assert forall|p: IpAddr| #[trigger] before.rib.peer_remote_as.contains_key(
            p,
        ) implies !holds_back_v6(before, p) by {
            assert(all.contains(p));
        }
    }
    if forall|p: IpAddr| #[trigger]
        before.rib.peer_remote_as.contains_key(p) ==> !holds_back_v4(before, p) {
        assert forall|p: IpAddr| #[trigger] all.contains(p) implies !crate::deferral::blocks(
            p,
            false,
            e,
        ) by {
            assert(before.rib.peer_remote_as.contains_key(p));
        }
    }
    if forall|p: IpAddr| #[trigger]
        before.rib.peer_remote_as.contains_key(p) ==> !holds_back_v6(before, p) {
        assert forall|p: IpAddr| #[trigger] all.contains(p) implies !crate::deferral::blocks(
            p,
            true,
            e,
        ) by {
            assert(before.rib.peer_remote_as.contains_key(p));
        }
    }
}

/// A wait that is configured lasts for as many seconds from the start, holds both families back, and is
/// waited for until both are held back no longer; without one nothing is held back.
pub proof fn wait_is_as_configured(
    start: Instant,
    secs: u16,
    configured: Set<IpAddr>,
    e: crate::deferral::Evidence,
)
    requires
        start.has_room(secs),
    ensures
        ({
            let d = crate::deferral::SelectionDeferral::spec_new(start, secs);
            let g = d.recomputed(configured, e);
            &&& secs == 0 ==> d.v4_released && d.v6_released && d.waits_until() is None
            &&& secs > 0 ==> {
                &&& !d.v4_released && !d.v6_released
                &&& d.waits_until() is Some
                &&& d.waits_until()->0.nanos == start.nanos + secs * 1_000_000_000
                &&& g.waits_until() == (if g.v4_released && g.v6_released {
                    None
                } else {
                    d.waits_until()
                })
            }
            &&& d.released().waits_until() is None
        }),
{
}

/// The end of the wait opens both families, and the peers are sent the table of each that was held back.
pub proof fn end_of_the_wait_opens_both(before: DaemonView, after: DaemonView, c: CatchUp, q: IpAddr)
    requires
        forcing_outcome(before, after, c),
    ensures
        after.selection_deferral.v4_released && after.selection_deferral.v6_released,
        after.selection_deferral.deadline == before.selection_deferral.deadline,
        after == (DaemonView { selection_deferral: after.selection_deferral, ..before }),
        c.v4@.contains_key(q) <==> after.rib.peer_types.contains_key(q)
            && !before.selection_deferral.v4_released,
        c.v6@.contains_key(q) <==> after.rib.peer_types.contains_key(q)
            && !before.selection_deferral.v6_released,
{
    assert(c.v4@.dom().contains(q) == c.v4@.contains_key(q));
    assert(c.v6@.dom().contains(q) == c.v6@.contains_key(q));
}

} // verus!
