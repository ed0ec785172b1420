//! What holds of the daemon across events.
use vstd::prelude::*;

use crate::clock::Instant;
use crate::config::{export_action, import_action, kind_of_peer, resolved, PeerConfig};
use crate::deferral::{blocks, clear, Evidence, SelectionDeferral};
use crate::delivery::delivery_keeps_prefixes;
use crate::inbound::{all_announced_v4, prefixes_of};
use crate::message::{Capability, PeerType, UpdateView};
use crate::net::{AfiSafi, IpAddr, Ipv4Addr, Ipv6Addr, Nlri};
use crate::origination::{
    held_of, local_origin_peer, nlris_of, novel, own_withdrawals, unoriginate_work_v4,
    unoriginate_work_v6,
};
use crate::restart::{prunes_v4, prunes_v6};
use crate::rib::{lemma_take_contains, AdjRibOut, BestPathChange, DefaultAction, RibOp};
use crate::route::Route;
use crate::session::TerminationReason;
use crate::state::{DaemonView, PrefixDecision, RibView};
use crate::table::Key;
use crate::update::{mp_announced, stored, stored_routes_stand};
use crate::work::WorkView;

verus! {

/// Whether two maps say the same of a peer.
pub open spec fn eq_at<V>(a: Map<IpAddr, V>, b: Map<IpAddr, V>, q: IpAddr) -> bool {
    &&& a.contains_key(q) == b.contains_key(q)
    &&& a.contains_key(q) ==> a[q] == b[q]
}

impl DaemonView {
    /// Whether the records of sessions agree: what a session brings with it is on record for just the
    /// peers that have one.
    pub open spec fn sessions_agree(self) -> bool {
        let live = self.rib.peer_types.dom();
        &&& self.rib.established_at.dom() == live
        &&& self.rib.hold_times.dom() == live
        &&& self.rib.peer_bgp_ids.dom() == live
        &&& self.negotiated_max_len.dom() == live
        &&& self.rib.local_addrs.dom().subset_of(live)
        &&& self.rib.gr_capable_peers.dom().subset_of(live)
        &&& self.ipv6_capable_peers.subset_of(live)
        &&& self.four_byte_peers.subset_of(live)
        &&& self.route_refresh_peers.subset_of(live)
    }

    /// Whether the state is consistent.
    pub open spec fn consistent(self) -> bool {
        self.aligned() && self.sessions_agree() && self.waits_under_own_prefix()
    }

    /// Whether two states say the same of a peer.
    pub open spec fn same_for(self, o: Self, q: IpAddr) -> bool {
        &&& eq_at(self.rib.peer_remote_as, o.rib.peer_remote_as, q)
        &&& eq_at(self.rib.peer_types, o.rib.peer_types, q)
        &&& eq_at(self.rib.established_at, o.rib.established_at, q)
        &&& eq_at(self.rib.hold_times, o.rib.hold_times, q)
        &&& eq_at(self.rib.prefixes_received, o.rib.prefixes_received, q)
        &&& eq_at(self.rib.prefixes_advertised, o.rib.prefixes_advertised, q)
        &&& eq_at(self.rib.local_addrs, o.rib.local_addrs, q)
        &&& eq_at(self.rib.peer_bgp_ids, o.rib.peer_bgp_ids, q)
        &&& eq_at(self.rib.gr_capable_peers, o.rib.gr_capable_peers, q)
        &&& self.rib.rr_clients.contains(q) == o.rib.rr_clients.contains(q)
        &&& self.rib.next_hop_self_peers.contains(q) == o.rib.next_hop_self_peers.contains(q)
        &&& self.rib.gr_peer_restarting.contains(q) == o.rib.gr_peer_restarting.contains(q)
        &&& self.rib.eor_received.contains(q) == o.rib.eor_received.contains(q)
        &&& self.rib.eor_received_v6.contains(q) == o.rib.eor_received_v6.contains(q)
        &&& eq_at(self.import_policies, o.import_policies, q)
        &&& eq_at(self.import_policies_v6, o.import_policies_v6, q)
        &&& eq_at(self.export_policies, o.export_policies, q)
        &&& eq_at(self.export_policies_v6, o.export_policies_v6, q)
        &&& eq_at(self.adj_ribs_in, o.adj_ribs_in, q)
        &&& eq_at(self.adj_ribs_in_v6, o.adj_ribs_in_v6, q)
        &&& eq_at(self.adj_ribs_out, o.adj_ribs_out, q)
        &&& eq_at(self.adj_ribs_out_v6, o.adj_ribs_out_v6, q)
        &&& eq_at(self.peer_config_types, o.peer_config_types, q)
        &&& self.update_senders.contains(q) == o.update_senders.contains(q)
        &&& eq_at(self.negotiated_max_len, o.negotiated_max_len, q)
        &&& self.ipv6_capable_peers.contains(q) == o.ipv6_capable_peers.contains(q)
        &&& self.four_byte_peers.contains(q) == o.four_byte_peers.contains(q)
        &&& self.route_refresh_peers.contains(q) == o.route_refresh_peers.contains(q)
        &&& eq_at(self.mrai_last_sent, o.mrai_last_sent, q)
        &&& eq_at(self.mrai_pending, o.mrai_pending, q)
        &&& eq_at(self.pending_decisions, o.pending_decisions, q)
        &&& eq_at(self.pending_decisions_v6, o.pending_decisions_v6, q)
        &&& eq_at(self.gr.deadlines, o.gr.deadlines, q)
        &&& eq_at(self.gr.stale_nlri, o.gr.stale_nlri, q)
        &&& eq_at(self.gr.stale_nlri_v6, o.gr.stale_nlri_v6, q)
        &&& eq_at(self.gr.peer_families, o.gr.peer_families, q)
        &&& self.gr.notification_capable_peers.contains(q)
            == o.gr.notification_capable_peers.contains(q)
        &&& self.pending_removal.contains(q) == o.pending_removal.contains(q)
        &&& eq_at(self.shutdown_messages, o.shutdown_messages, q)
        &&& eq_at(self.peer_max_prefixes_v4, o.peer_max_prefixes_v4, q)
        &&& eq_at(self.peer_max_prefixes_v6, o.peer_max_prefixes_v6, q)
        &&& eq_at(self.peer_max_prefixes_restart, o.peer_max_prefixes_restart, q)
        &&& eq_at(self.max_prefix_idle, o.max_prefix_idle, q)
    }
}

/// The daemon starts in a consistent state, whatever peers are configured.
pub proof fn fresh_state_is_consistent(
    local_as: u32,
    local_bgp_id: Ipv4Addr,
    local_ipv6: Option<Ipv6Addr>,
    cluster_id: u32,
    rr_clients: Set<IpAddr>,
    senders: Set<IpAddr>,
    caps: Seq<Capability>,
    peers: Seq<PeerConfig>,
)
    ensures
        DaemonView::initial(
            local_as,
            local_bgp_id,
            local_ipv6,
            cluster_id,
            rr_clients,
            senders,
            caps,
        ).registered_all(peers).consistent(),
    decreases peers.len(),
{
    let s = DaemonView::initial(
        local_as,
        local_bgp_id,
        local_ipv6,
        cluster_id,
        rr_clients,
        senders,
        caps,
    );
    if peers.len() == 0 {
        assert(s.rib.established_at.dom() =~= s.rib.peer_types.dom());
        assert(s.rib.hold_times.dom() =~= s.rib.peer_types.dom());
        assert(s.rib.peer_bgp_ids.dom() =~= s.rib.peer_types.dom());
        assert(s.negotiated_max_len.dom() =~= s.rib.peer_types.dom());
    } else {
        fresh_state_is_consistent(
            local_as,
            local_bgp_id,
            local_ipv6,
            cluster_id,
            rr_clients,
            senders,
            caps,
            peers.drop_last(),
        );
    }
}

/// Configuring and removing peers keeps the state consistent.
pub proof fn configuration_keeps_consistency(
    s: DaemonView,
    peer: PeerConfig,
    p: IpAddr,
    action: DefaultAction,
)
    requires
        s.consistent(),
    ensures
        s.registered(peer).consistent(),
        (DaemonView {
            update_senders: s.update_senders.insert(peer.address),
            ..s.registered(peer)
        }).consistent(),
        s.without(p).consistent(),
        s.import_policies.contains_key(p) ==> s.import_default_set(p, action).consistent(),
        s.export_default_set(p, action).consistent(),
{
    let w = s.without(p);
    assert(w.rib.established_at.dom() =~= w.rib.peer_types.dom());
    assert(w.rib.hold_times.dom() =~= w.rib.peer_types.dom());
    assert(w.rib.peer_bgp_ids.dom() =~= w.rib.peer_types.dom());
    assert(w.negotiated_max_len.dom() =~= w.rib.peer_types.dom());
}

/// The beginning of a session keeps the state consistent.
pub proof fn opening_keeps_consistency(
    s: DaemonView,
    p: IpAddr,
    bgp_id: Ipv4Addr,
    kind: PeerType,
    hold_time: u16,
    caps: Seq<Capability>,
    local_addr: Option<IpAddr>,
    now: Instant,
)
    requires
        s.consistent(),
    ensures
        s.greeted(p, bgp_id, kind, hold_time, caps, local_addr, now).consistent(),
        s.greeted(p, bgp_id, kind, hold_time, caps, local_addr, now).negotiated(
            p,
            caps,
        ).consistent(),
{
    let g = s.greeted(p, bgp_id, kind, hold_time, caps, local_addr, now);
    assert(g.rib.established_at.dom() =~= g.rib.peer_types.dom());
    assert(g.rib.hold_times.dom() =~= g.rib.peer_types.dom());
    assert(g.rib.peer_bgp_ids.dom() =~= g.rib.peer_types.dom());
    assert(g.negotiated_max_len.dom() =~= g.rib.peer_types.dom());
}

/// The end of a session keeps the state consistent, whether it opens a restart window or not, and so
/// does the end of a window.
pub proof fn ending_keeps_consistency(
    s: DaemonView,
    p: IpAddr,
    deadline: Instant,
    v4: bool,
    v6: bool,
)
    requires
        s.consistent(),
    ensures
        s.session_ended(p).consistent(),
        s.session_ended(p).window_opened(p, deadline).stale_marked(p, v4, v6).consistent(),
        s.session_ended(p).received_cleared(p, v4, v6).advertised_reset(p).consistent(),
        s.stale_forgotten(p).null_routes_dropped(p).received_cleared(p, v4, v6).advertised_reset(
            p,
        ).consistent(),
{
    let t = s.session_ended(p);
    assert(t.rib.established_at.dom() =~= t.rib.peer_types.dom());
    assert(t.rib.hold_times.dom() =~= t.rib.peer_types.dom());
    assert(t.rib.peer_bgp_ids.dom() =~= t.rib.peer_types.dom());
    assert(t.negotiated_max_len.dom() =~= t.rib.peer_types.dom());
}

/// UPDATEs, and what follows from them, keep the state consistent.
pub proof fn updates_keep_consistency(
    s: DaemonView,
    p: IpAddr,
    m: UpdateView,
    now: Instant,
    stale: Set<Nlri<Ipv4Addr>>,
    stale_v6: Set<Nlri<Ipv6Addr>>,
    w: WorkView,
    changes: Seq<BestPathChange<Ipv4Addr>>,
    changes_v6: Seq<BestPathChange<Ipv6Addr>>,
)
    requires
        s.consistent(),
    ensures
        s.updated(p, m, now).received_synced(p).consistent(),
        s.updated(p, m, now).shut_out(p, now).consistent(),
        s.completed_v4(p).pruned_v4(p, stale).consistent(),
        s.completed_v6(p).pruned_v6(p, stale_v6).consistent(),
        s.settled(w, changes, changes_v6).consistent(),
        s.gates_checked().consistent(),
{
}

/// Taking the decisions of the export engine, and sending them, keeps the state consistent.
pub proof fn delivery_keeps_consistency(
    s: DaemonView,
    p: IpAddr,
    decisions: Seq<PrefixDecision<Ipv4Addr>>,
    count: usize,
    ok: bool,
    now: Instant,
    order: Seq<Nlri<Ipv4Addr>>,
)
    requires
        s.consistent(),
    ensures
        s.advertising_v4(p, count).collected_v4(p, decisions, now).consistent(),
        s.advertising_v4(p, count).told_v4(p, decisions).sent_to(p, ok).advertised_synced(
            p,
        ).consistent(),
        s.let_go(p, now, order).consistent(),
{
    let t = s.advertising_v4(p, count);
    assert(t.waits_under_own_prefix());
    delivery_keeps_prefixes(t, p, decisions, now, order);
    delivery_keeps_prefixes(s, p, decisions, now, order);
}

/// What happens to one peer leaves what is on record of the others alone.
pub proof fn peers_do_not_disturb_each_other(
    s: DaemonView,
    p: IpAddr,
    q: IpAddr,
    peer: PeerConfig,
    bgp_id: Ipv4Addr,
    kind: PeerType,
    hold_time: u16,
    caps: Seq<Capability>,
    local_addr: Option<IpAddr>,
    now: Instant,
    deadline: Instant,
    m: UpdateView,
    v4: bool,
    v6: bool,
)
    requires
        p != q,
        peer.address == p,
    ensures
        s.registered(peer).same_for(s, q),
        s.without(p).same_for(s, q),
        s.greeted(p, bgp_id, kind, hold_time, caps, local_addr, now).negotiated(p, caps).same_for(
            s,
            q,
        ),
        s.session_ended(p).same_for(s, q),
        s.session_ended(p).window_opened(p, deadline).stale_marked(p, v4, v6).same_for(s, q),
        s.session_ended(p).received_cleared(p, v4, v6).advertised_reset(p).same_for(s, q),
        s.updated(p, m, now).received_synced(p).same_for(s, q),
{
}

/// Removing a peer that was just added leaves the state as it was, where it knew nothing of the peer.
pub proof fn remove_undoes_add(s: DaemonView, peer: PeerConfig)
    requires
        s.without(peer.address) == s,
    ensures
        (DaemonView {
            update_senders: s.update_senders.insert(peer.address),
            ..s.registered(peer)
        }).without(peer.address) == s,
{
    let a = peer.address;
    let t = DaemonView { update_senders: s.update_senders.insert(a), ..s.registered(peer) };
    assert(t.without(a) =~= s.without(a));
}

/// Nothing is left of a removed peer, and removing it again changes nothing.
pub proof fn removed_peer_is_forgotten(s: DaemonView, p: IpAddr)
    ensures
        s.without(p).without(p) == s.without(p),
        !s.without(p).adj_ribs_in.contains_key(p),
        !s.without(p).rib.peer_types.contains_key(p),
        !s.without(p).rib.peer_remote_as.contains_key(p),
        !s.without(p).update_senders.contains(p),
{
    assert(s.without(p).without(p) =~= s.without(p));
}

/// A session that has ended leaves no record of itself but what the peer said of its restarts.
pub proof fn ended_session_leaves_no_record(
    s: DaemonView,
    p: IpAddr,
    bgp_id: Ipv4Addr,
    kind: PeerType,
    hold_time: u16,
    caps: Seq<Capability>,
    local_addr: Option<IpAddr>,
    now: Instant,
)
    requires
        s.session_ended(p) == s,
    ensures
        ({
            let t = s.greeted(p, bgp_id, kind, hold_time, caps, local_addr, now).negotiated(
                p,
                caps,
            ).session_ended(p);
            &&& t.rib == RibView { gr_peer_restarting: t.rib.gr_peer_restarting, ..s.rib }
            &&& t.negotiated_max_len == s.negotiated_max_len
            &&& t.ipv6_capable_peers == s.ipv6_capable_peers
            &&& t.four_byte_peers == s.four_byte_peers
            &&& t.route_refresh_peers == s.route_refresh_peers
        }),
{
    let g = s.greeted(p, bgp_id, kind, hold_time, caps, local_addr, now).negotiated(p, caps);
    let t = g.session_ended(p);
    let u = s.session_ended(p);
    assert(t.rib =~= RibView { gr_peer_restarting: t.rib.gr_peer_restarting, ..u.rib });
    assert(t.negotiated_max_len =~= u.negotiated_max_len);
    assert(t.ipv6_capable_peers =~= u.ipv6_capable_peers);
    assert(t.four_byte_peers =~= u.four_byte_peers);
    assert(t.route_refresh_peers =~= u.route_refresh_peers);
}

/// A peer that is to be removed never gets a restart window, nor does one whose session ended by
/// agreement.
pub proof fn removal_opens_no_window(s: DaemonView, p: IpAddr, reason: TerminationReason)
    requires
        s.pending_removal.contains(p) || reason == TerminationReason::Clean,
    ensures
        !s.opens_window(p, reason),
{
}

/// During a restart window the routes of each family that the peer restarts are all there, with the
/// stale mark and otherwise unchanged; those of other families are gone.
pub proof fn window_keeps_covered_routes(s: DaemonView, p: IpAddr, deadline: Instant)
    requires
        s.adj_ribs_in.contains_key(p),
        s.adj_ribs_in_v6.contains_key(p),
    ensures
        ({
            let v4 = s.restarts(p, AfiSafi::ipv4_unicast());
            let v6 = s.restarts(p, AfiSafi::ipv6_unicast());
            let t = s.window_opened(p, deadline).stale_marked(p, v4, v6);
            &&& t.adj_ribs_in[p].dom() == (if v4 {
                s.adj_ribs_in[p].dom()
            } else {
                Set::empty()
            })
            &&& t.adj_ribs_in_v6[p].dom() == (if v6 {
                s.adj_ribs_in_v6[p].dom()
            } else {
                Set::empty()
            })
            &&& forall|n: Nlri<Ipv4Addr>| #[trigger]
                t.adj_ribs_in[p].contains_key(n) ==> t.adj_ribs_in[p][n]
                    == s.adj_ribs_in[p][n].spec_marked_stale()
            &&& forall|n: Nlri<Ipv6Addr>| #[trigger]
                t.adj_ribs_in_v6[p].contains_key(n) ==> t.adj_ribs_in_v6[p][n]
                    == s.adj_ribs_in_v6[p][n].spec_marked_stale()
        }),
{
    let v4 = s.restarts(p, AfiSafi::ipv4_unicast());
    let v6 = s.restarts(p, AfiSafi::ipv6_unicast());
    let t = s.window_opened(p, deadline).stale_marked(p, v4, v6);
    assert(t.adj_ribs_in[p].dom() =~= if v4 {
        s.adj_ribs_in[p].dom()
    } else {
        Set::empty()
    });
    assert(t.adj_ribs_in_v6[p].dom() =~= if v6 {
        s.adj_ribs_in_v6[p].dom()
    } else {
        Set::empty()
    });
}

/// The marker that ends the wait for a peer's routes takes just those that it has not announced again:
/// a prefix that an UPDATE announces, in its announced field or in a multi-protocol attribute, is no
/// longer held as stale, keeps its route over the marker, and one that is held loses it.
pub proof fn marker_takes_what_was_not_refreshed(
    s: DaemonView,
    p: IpAddr,
    m: UpdateView,
    n: Nlri<Ipv4Addr>,
    k: Nlri<Ipv6Addr>,
)
    requires
        s.gr.stale_nlri.contains_key(p),
        s.gr.stale_nlri_v6.contains_key(p),
        s.adj_ribs_in.contains_key(p),
        s.adj_ribs_in_v6.contains_key(p),
    ensures
        ({
            let held = s.refreshed(p, m).stale_nlri[p];
            let left = s.pruned_v4(p, held).adj_ribs_in[p];
            let announced = prefixes_of(mp_announced::<Ipv4Addr>(m.attributes));
            &&& held.contains(n) <==> s.gr.stale_nlri[p].contains(n) && !m.announced.contains(n)
                && !announced.contains(n)
            &&& left.contains_key(n) <==> s.adj_ribs_in[p].contains_key(n) && !held.contains(n)
            &&& left.contains_key(n) ==> left[n] == s.adj_ribs_in[p][n]
        }),
        ({
            let held = s.refreshed(p, m).stale_nlri_v6[p];
            let left = s.pruned_v6(p, held).adj_ribs_in_v6[p];
            let announced = prefixes_of(mp_announced::<Ipv6Addr>(m.attributes));
            &&& held.contains(k) <==> s.gr.stale_nlri_v6[p].contains(k) && !announced.contains(k)
            &&& left.contains_key(k) <==> s.adj_ribs_in_v6[p].contains_key(k) && !held.contains(k)
            &&& left.contains_key(k) ==> left[k] == s.adj_ribs_in_v6[p][k]
        }),
{
    let announced = prefixes_of(mp_announced::<Ipv6Addr>(m.attributes));
    let mp = prefixes_of(mp_announced::<Ipv4Addr>(m.attributes));
    let all = all_announced_v4(m);
    assert(all.to_set().contains(n) == all.contains(n));
    assert(all.contains(n) <==> m.announced.contains(n) || mp.contains(n)) by {
        if m.announced.contains(n) {
            let i = m.announced.index_of(n);
            assert(all[i] == n);
        }
        if mp.contains(n) {
            let i = mp.index_of(n);
            assert(all[m.announced.len() + i] == n);
        }
        if all.contains(n) {
            let i = all.index_of(n);
            if i < m.announced.len() {
                assert(m.announced[i] == n);
            } else {
                assert(mp[i - m.announced.len()] == n);
            }
        }
    }
    assert(announced.to_set().contains(k) == announced.contains(k));
}

/// A prefix that a returning peer announces again, in whichever field of an UPDATE, outlives the marker:
/// what is received for it stays, and the decision process is not asked to drop it.
pub proof fn announced_again_outlives_the_marker(
    s: DaemonView,
    p: IpAddr,
    m: UpdateView,
    now: Instant,
    n: Nlri<Ipv4Addr>,
    k: Nlri<Ipv6Addr>,
    w: WorkView,
    w6: WorkView,
)
    requires
        s.gr.stale_nlri.contains_key(p),
        s.gr.stale_nlri_v6.contains_key(p),
        s.adj_ribs_in_v6.contains_key(p),
        m.announced.contains(n) || prefixes_of(mp_announced::<Ipv4Addr>(m.attributes)).contains(n),
        prefixes_of(mp_announced::<Ipv6Addr>(m.attributes)).contains(k),
        ({
            let t = s.updated(p, m, now);
            &&& prunes_v4(w, p, t.gr.stale_nlri[p], t.rib.loc_rib)
            &&& prunes_v6(w6, p, t.gr.stale_nlri_v6[p])
        }),
    ensures
        ({
            let t = s.updated(p, m, now);
            let u = t.completed_v4(p).pruned_v4(p, t.gr.stale_nlri[p]);
            let v = t.completed_v6(p).pruned_v6(p, t.gr.stale_nlri_v6[p]);
            &&& u.adj_ribs_in[p].contains_key(n) == t.adj_ribs_in[p].contains_key(n)
            &&& t.adj_ribs_in[p].contains_key(n) ==> u.adj_ribs_in[p][n] == t.adj_ribs_in[p][n]
            &&& !w.ops.contains(RibOp::Withdraw(n))
            &&& v.adj_ribs_in_v6[p].contains_key(k) == t.adj_ribs_in_v6[p].contains_key(k)
            &&& t.adj_ribs_in_v6[p].contains_key(k) ==> v.adj_ribs_in_v6[p][k]
                == t.adj_ribs_in_v6[p][k]
            &&& !w6.ops_v6.contains(RibOp::Withdraw(k))
        }),
{
    let t = s.updated(p, m, now);
    let held = t.gr.stale_nlri[p];
    let held6 = t.gr.stale_nlri_v6[p];
    marker_takes_what_was_not_refreshed(
        DaemonView { adj_ribs_in: t.adj_ribs_in, adj_ribs_in_v6: t.adj_ribs_in_v6, ..s },
        p,
        m,
        n,
        k,
    );
    assert(!held.contains(n));
    assert(!held6.contains(k));
    if w.ops.contains(RibOp::Withdraw(n)) {
        let i = w.ops.index_of(RibOp::Withdraw(n));
        let l = w.spread->Others_0;
        assert(w.ops[i] == RibOp::<Ipv4Addr>::Withdraw(l[i]));
        assert(l.to_set().contains(l[i]));
    }
    if w6.ops_v6.contains(RibOp::Withdraw(k)) {
        let i = w6.ops_v6.index_of(RibOp::Withdraw(k));
        let l = w6.spread_v6->Others_0;
        assert(w6.ops_v6[i] == RibOp::<Ipv6Addr>::Withdraw(l[i]));
        assert(l.to_set().contains(l[i]));
    }
}

/// A peer that is back within its window, and says nothing but the marker, loses all routes that it
/// had before; they are just the ones that are held when its session begins.
pub proof fn returning_peer_holds_all_its_routes(
    s: DaemonView,
    p: IpAddr,
    bgp_id: Ipv4Addr,
    kind: PeerType,
    hold_time: u16,
    caps: Seq<Capability>,
    local_addr: Option<IpAddr>,
    now: Instant,
)
    requires
        s.gr.deadlines.contains_key(p),
        s.restarts(p, AfiSafi::ipv4_unicast()),
        s.adj_ribs_in.contains_key(p),
        s.adj_ribs_in[p] != Map::<Nlri<Ipv4Addr>, Route<Ipv4Addr>>::empty(),
    ensures
        ({
            let g = s.greeted(p, bgp_id, kind, hold_time, caps, local_addr, now);
            &&& !g.gr.deadlines.contains_key(p)
            &&& g.gr.stale_nlri[p] == s.adj_ribs_in[p].dom()
            &&& g.adj_ribs_in[p] == s.adj_ribs_in[p]
            &&& g.pruned_v4(p, g.gr.stale_nlri[p]).adj_ribs_in[p] == Map::<
                Nlri<Ipv4Addr>,
                Route<Ipv4Addr>,
            >::empty()
        }),
{
    let g = s.greeted(p, bgp_id, kind, hold_time, caps, local_addr, now);
    assert(g.pruned_v4(p, g.gr.stale_nlri[p]).adj_ribs_in[p] =~= Map::empty());
}

/// What can move the gates of advertisement.
pub ghost enum GateStep {
    /// They are looked at.
    Look { configured: Set<IpAddr>, evidence: Evidence },
    /// The time to wait is over.
    Expire,
}

/// The gates after one step.
pub open spec fn gates_after(d: SelectionDeferral, step: GateStep) -> SelectionDeferral {
    match step {
        GateStep::Look { configured, evidence } => d.recomputed(configured, evidence),
        GateStep::Expire => d.released(),
    }
}

/// The gates after steps.
pub open spec fn gates_after_all(d: SelectionDeferral, steps: Seq<GateStep>) -> SelectionDeferral
    decreases steps.len(),
{
    if steps.len() == 0 {
        d
    } else {
        gates_after(gates_after_all(d, steps.drop_last()), steps.last())
    }
}

/// How many of the steps open a family. Each of them sends its table to all peers that
/// have a session.
pub open spec fn openings(d: SelectionDeferral, steps: Seq<GateStep>, is_v6: bool) -> nat
    decreases steps.len(),
{
    if steps.len() == 0 {
        0
    } else {
        let before = gates_after_all(d, steps.drop_last());
        let after = gates_after(before, steps.last());
        openings(d, steps.drop_last(), is_v6) + (if after.is_open(is_v6) && !before.is_open(is_v6) {
            1nat
        } else {
            0nat
        })
    }
}

impl SelectionDeferral {
    /// Whether a family is open to advertisements.
    pub open spec fn is_open(self, is_v6: bool) -> bool {
        if is_v6 {
            self.v6_released
        } else {
            self.v4_released
        }
    }
}

/// A peer is sent the table of a family by exactly one of two paths: when its session begins, where the
/// family is open to advertisements then; else by the step that opens it. It is sent the table once the
/// family is open, not before, and never twice.
pub proof fn table_is_sent_by_one_path(d: SelectionDeferral, steps: Seq<GateStep>, is_v6: bool)
    ensures
        (if d.is_open(is_v6) {
            1nat
        } else {
            0nat
        }) + openings(d, steps, is_v6) == (if gates_after_all(d, steps).is_open(is_v6) {
            1nat
        } else {
            0nat
        }),
    decreases steps.len(),
{
    if steps.len() > 0 {
        table_is_sent_by_one_path(d, steps.drop_last(), is_v6);
    }
}

/// The end of a session opens no gate: a family that no peer blocks afterwards was not blocked before.
pub proof fn end_of_session_opens_no_gate(s: DaemonView, p: IpAddr, is_v6: bool)
    requires
        clear(s.rib.peer_remote_as.dom(), is_v6, s.session_ended(p).gate_evidence()),
    ensures
        clear(s.rib.peer_remote_as.dom(), is_v6, s.gate_evidence()),
{
    let configured = s.rib.peer_remote_as.dom();
    let e = s.gate_evidence();
    let f = s.session_ended(p).gate_evidence();
    assert forall|q: IpAddr| #[trigger] configured.contains(q) implies !blocks(q, is_v6, e) by {
        assert(!blocks(q, is_v6, f));
        assert(f.established.contains(q));
        assert(q != p);
    }
}

/// Whether no prefix occurs twice among routes.
pub open spec fn distinct_prefixes<A>(s: Seq<Route<A>>) -> bool {
    forall|i: int, j: int| 0 <= i < j < s.len() ==> (#[trigger] s[i]).nlri != (#[trigger] s[j]).nlri
}

/// A route that says what is originated for its prefix is there when a list has been originated.
proof fn originated_content_stands<A: Key>(m: Map<Nlri<A>, Route<A>>, s: Seq<Route<A>>, i: int)
    requires
        distinct_prefixes(s),
        0 <= i < s.len(),
    ensures
        stored(m, novel(m, s)).contains_key(s[i].nlri),
        stored(m, novel(m, s))[s[i].nlri].same_content(s[i]),
        forall|n: Nlri<A>|
            (forall|j: int| 0 <= j < s.len() ==> (#[trigger] s[j]).nlri != n) ==> {
                &&& (#[trigger] stored(m, novel(m, s)).contains_key(n)) == m.contains_key(n)
                &&& m.contains_key(n) ==> stored(m, novel(m, s))[n] == m[n]
            },
    decreases s.len(),
{
    let t = s.drop_last();
    let r = s.last();
    let a = stored(m, novel(m, t));
    assert(distinct_prefixes(t)) by {
        assert forall|x: int, y: int| 0 <= x < y < t.len() implies (#[trigger] t[x]).nlri != (
        #[trigger] t[y]).nlri by {
            assert(s[x].nlri != s[y].nlri);
        }
    }
    if novel(m, s) != novel(m, t) {
        assert(novel(m, s) == novel(m, t).push(r));
        assert(novel(m, s).drop_last() =~= novel(m, t));
    }
    if t.len() > 0 {
        originated_content_stands(m, t, if i < t.len() { i } else { 0 });
    } else {
        assert(novel(m, t) =~= Seq::empty());
    }
    if i < t.len() {
        assert(t[i] == s[i]);
        assert(s[i].nlri != s[s.len() - 1].nlri);
    }
    assert forall|n: Nlri<A>|
        (forall|j: int| 0 <= j < s.len() ==> (#[trigger] s[j]).nlri != n) implies {
        &&& (#[trigger] stored(m, novel(m, s)).contains_key(n)) == m.contains_key(n)
        &&& m.contains_key(n) ==> stored(m, novel(m, s))[n] == m[n]
    } by {
        assert(s[s.len() - 1].nlri != n);
        assert forall|j: int| 0 <= j < t.len() implies (#[trigger] t[j]).nlri != n by {
            assert(s[j].nlri != n);
        }
    }
}

/// Originating the same routes again says nothing new, however often and whenever they were built.
pub proof fn reorigination_is_silent<A: Key>(
    m: Map<Nlri<A>, Route<A>>,
    s: Seq<Route<A>>,
    again: Seq<Route<A>>,
)
    requires
        distinct_prefixes(s),
        again.len() == s.len(),
        forall|i: int| 0 <= i < s.len() ==> (#[trigger] s[i]).same_content(again[i]),
    ensures
        novel(stored(m, novel(m, s)), again).len() == 0,
{
    silent_prefix(m, s, again, again.len() as int);
    assert(again.take(again.len() as int) =~= again);
}

/// Up to any point, originating the same routes again says nothing new.
proof fn silent_prefix<A: Key>(
    m: Map<Nlri<A>, Route<A>>,
    s: Seq<Route<A>>,
    again: Seq<Route<A>>,
    k: int,
)
    requires
        distinct_prefixes(s),
        again.len() == s.len(),
        0 <= k <= s.len(),
        forall|i: int| 0 <= i < s.len() ==> (#[trigger] s[i]).same_content(again[i]),
    ensures
        novel(stored(m, novel(m, s)), again.take(k)).len() == 0,
    decreases k,
{
    if k > 0 {
        silent_prefix(m, s, again, k - 1);
        let a = stored(m, novel(m, s));
        let t = again.take(k);
        assert(t.drop_last() =~= again.take(k - 1));
        assert(t.last() == again[k - 1]);
        originated_content_stands(m, s, k - 1);
        assert(s[k - 1].same_content(again[k - 1]));
        assert(novel(a, t.drop_last()) =~= Seq::empty());
    }
}

/// What is originated of a list is in the list.
proof fn novel_is_listed<A: Key>(m: Map<Nlri<A>, Route<A>>, s: Seq<Route<A>>)
    ensures
        forall|i: int|
            0 <= i < novel(m, s).len() ==> nlris_of(s).to_set().contains(
                (#[trigger] novel(m, s)[i]).nlri,
            ),
    decreases s.len(),
{
    if s.len() > 0 {
        let t = s.drop_last();
        novel_is_listed(m, t);
        assert(nlris_of(s)[s.len() - 1] == s.last().nlri);
        assert forall|n: Nlri<A>| nlris_of(t).to_set().contains(n) implies nlris_of(
            s,
        ).to_set().contains(n) by {
            let j = nlris_of(t).index_of(n);
            assert(nlris_of(s)[j] == n);
        }
    }
}

/// A table from which the prefixes of a list are taken, after the list was originated or without that.
proof fn taken_back<A: Key>(m: Map<Nlri<A>, Route<A>>, s: Seq<Route<A>>)
    ensures
        stored(m, novel(m, s)).remove_keys(nlris_of(s).to_set()) == m.remove_keys(
            nlris_of(s).to_set(),
        ),
{
    let new = novel(m, s);
    let gone = nlris_of(s).to_set();
    let a = stored(m, new).remove_keys(gone);
    let b = m.remove_keys(gone);
    novel_is_listed(m, s);
    assert forall|n: Nlri<A>| !gone.contains(n) implies {
        &&& #[trigger] stored(m, new).contains_key(n) == m.contains_key(n)
        &&& m.contains_key(n) ==> stored(m, new)[n] == m[n]
    } by {
        stored_routes_stand(m, new, n);
    }
    assert(a =~= b);
}

/// What is taken back of a list is what is both listed and originated.
proof fn held_is_listed<A: Key>(m: Map<Nlri<A>, Route<A>>, s: Seq<Nlri<A>>)
    ensures
        forall|n: Nlri<A>| #[trigger]
            held_of(m, s).contains(n) <==> s.contains(n) && m.contains_key(n),
        m.remove_keys(held_of(m, s).to_set()) == m.remove_keys(s.to_set()),
    decreases s.len(),
{
    let h = held_of(m, s);
    if s.len() > 0 {
        let t = s.drop_last();
        let g = held_of(m, t);
        held_is_listed(m, t);
        lemma_take_contains(s, s.len() as int);
        assert(s.take(s.len() as int) =~= s);
        assert(s.take(s.len() - 1) =~= t);
        assert forall|n: Nlri<A>| #[trigger] h.contains(n) <==> s.contains(n) && m.contains_key(
            n,
        ) by {
            assert(s.contains(n) <==> (t.contains(n) || n == s.last()));
            assert(g.contains(n) <==> t.contains(n) && m.contains_key(n));
            if h != g {
                assert(h == g.push(s.last()));
                assert(h[h.len() - 1] == s.last());
                if g.contains(n) {
                    let k = g.index_of(n);
                    assert(h[k] == n);
                }
                if h.contains(n) && n != s.last() {
                    let k = h.index_of(n);
                    assert(g[k] == n);
                }
            }
        }
    } else {
        assert(h =~= Seq::<Nlri<A>>::empty());
    }
    assert forall|n: Nlri<A>| m.contains_key(n) implies h.to_set().contains(n)
        == s.to_set().contains(n) by {
        assert(h.contains(n) <==> s.contains(n));
    }
    assert(m.remove_keys(h.to_set()) =~= m.remove_keys(s.to_set()));
}

/// Originating routes and taking their prefixes back leaves the other originated routes as they were,
/// and nothing for those prefixes: just what taking them back alone leaves.
pub proof fn withdrawal_undoes_origination(
    s: DaemonView,
    routes: Seq<Route<Ipv4Addr>>,
    routes_v6: Seq<Route<Ipv6Addr>>,
)
    ensures
        ({
            let t = s.originating_v4(novel(s.rib.originated_routes, routes));
            t.unoriginating_v4(held_of(t.rib.originated_routes, nlris_of(routes)))
                == s.unoriginating_v4(held_of(s.rib.originated_routes, nlris_of(routes)))
        }),
        ({
            let t = s.originating_v6(novel(s.rib.originated_routes_v6, routes_v6));
            t.unoriginating_v6(held_of(t.rib.originated_routes_v6, nlris_of(routes_v6)))
                == s.unoriginating_v6(held_of(s.rib.originated_routes_v6, nlris_of(routes_v6)))
        }),
{
    let t = s.originating_v4(novel(s.rib.originated_routes, routes));
    let u = s.originating_v6(novel(s.rib.originated_routes_v6, routes_v6));
    taken_back(s.rib.originated_routes, routes);
    taken_back(s.rib.originated_routes_v6, routes_v6);
    held_is_listed(s.rib.originated_routes, nlris_of(routes));
    held_is_listed(t.rib.originated_routes, nlris_of(routes));
    held_is_listed(s.rib.originated_routes_v6, nlris_of(routes_v6));
    held_is_listed(u.rib.originated_routes_v6, nlris_of(routes_v6));
}

/// Taking prefixes back of which none is originated changes nothing, and nothing follows from it.
pub proof fn unknown_withdrawal_is_noop(
    s: DaemonView,
    nlris: Seq<Nlri<Ipv4Addr>>,
    nlris_v6: Seq<Nlri<Ipv6Addr>>,
)
    requires
        forall|n: Nlri<Ipv4Addr>| #[trigger]
            nlris.contains(n) ==> !s.rib.originated_routes.contains_key(n),
        forall|n: Nlri<Ipv6Addr>| #[trigger]
            nlris_v6.contains(n) ==> !s.rib.originated_routes_v6.contains_key(n),
    ensures
        ({
            let h = held_of(s.rib.originated_routes, nlris);
            &&& s.unoriginating_v4(h) == s
            &&& own_withdrawals(h).len() == 0
            &&& unoriginate_work_v4(h) == WorkView::idle(local_origin_peer())
        }),
        ({
            let h = held_of(s.rib.originated_routes_v6, nlris_v6);
            &&& s.unoriginating_v6(h) == s
            &&& own_withdrawals(h).len() == 0
            &&& unoriginate_work_v6(h) == WorkView::idle(local_origin_peer())
        }),
{
    let h = held_of(s.rib.originated_routes, nlris);
    let k = held_of(s.rib.originated_routes_v6, nlris_v6);
    held_is_listed(s.rib.originated_routes, nlris);
    held_is_listed(s.rib.originated_routes_v6, nlris_v6);
    if h.len() > 0 {
        assert(h.contains(h[0]));
    }
    if k.len() > 0 {
        assert(k.contains(k[0]));
    }
    assert(s.rib.originated_routes.remove_keys(h.to_set()) =~= s.rib.originated_routes);
    assert(s.rib.originated_routes_v6.remove_keys(k.to_set()) =~= s.rib.originated_routes_v6);
}

/// Every configured peer starts with empty tables, and with the policies that the last entry for its
/// address configures.
pub proof fn configured_peers_are_ready(s: DaemonView, peers: Seq<PeerConfig>, i: int)
    requires
        0 <= i < peers.len(),
        forall|j: int| i < j < peers.len() ==> (#[trigger] peers[j]).address != peers[i].address,
    ensures
        ({
            let p = peers[i];
            let a = p.address;
            let ebgp = p.remote_as != s.rib.local_as;
            let kind = kind_of_peer(s.rib.local_as, p.remote_as);
            let t = s.registered_all(peers);
            &&& t.import_policies.contains_key(a)
            &&& t.import_policies[a].default == resolved(import_action(p.import_default), ebgp)
            &&& t.import_policies_v6.contains_key(a)
            &&& t.import_policies_v6[a].default == resolved(
                import_action(p.import_v6_setting()),
                ebgp,
            )
            &&& t.export_policies.contains_key(a)
            &&& t.export_policies[a].default == resolved(export_action(p.export_default), ebgp)
            &&& t.adj_ribs_in.contains_key(a)
            &&& t.adj_ribs_in[a] == Map::<Nlri<Ipv4Addr>, Route<Ipv4Addr>>::empty()
            &&& t.adj_ribs_in_v6.contains_key(a)
            &&& t.adj_ribs_in_v6[a] == Map::<Nlri<Ipv6Addr>, Route<Ipv6Addr>>::empty()
            &&& t.adj_ribs_out.contains_key(a)
            &&& t.adj_ribs_out[a] == AdjRibOut::fresh(kind, s.is_rr())
            &&& t.rib.peer_remote_as.contains_key(a)
            &&& t.rib.peer_remote_as[a] == p.remote_as
        }),
    decreases peers.len(),
{
    let t = peers.drop_last();
    registering_keeps_identity(s, t);
    if i < t.len() {
        assert(peers[peers.len() - 1].address != peers[i].address);
        assert forall|j: int| i < j < t.len() implies (#[trigger] t[j]).address
            != t[i].address by {
            assert(peers[j].address != peers[i].address);
        }
        configured_peers_are_ready(s, t, i);
    }
}

/// Configuring peers changes neither the number of the daemon nor whether it reflects routes.
proof fn registering_keeps_identity(s: DaemonView, peers: Seq<PeerConfig>)
    ensures
        s.registered_all(peers).rib.local_as == s.rib.local_as,
        s.registered_all(peers).is_rr() == s.is_rr(),
    decreases peers.len(),
{
    if peers.len() > 0 {
        registering_keeps_identity(s, peers.drop_last());
    }
}

} // verus!
