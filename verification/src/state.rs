//! The state of the daemon: what it knows of its peers and of routes.
use vstd::prelude::*;

use crate::clock::Instant;
use crate::config::{
    config_peer_type, export_action, import_action, kind_of_peer, resolve_export_default,
    resolve_import_default, resolved, PeerConfig,
};
use crate::deferral::SelectionDeferral;
use crate::fib::{FibManager, FibView};
use crate::gr::{GrView, GracefulRestartState};
use crate::message::{Capability, PeerType};
use crate::net::{IpAddr, Ipv4Addr, Ipv6Addr, Nlri};
use crate::rib::{AdjRibIn, AdjRibOut, Best, LocRib, Policy};
use crate::route::Route;
use crate::table::{KeySet, Table};

verus! {

/// What is to be said of one prefix to one peer.
#[derive(Debug, PartialEq, Eq)]
pub enum PrefixDecision<A> {
    Announce(Route<A>),
    Withdraw(Nlri<A>),
    NoChange,
}

/// The part of the state that the management interface reads.
pub struct RibSnapshot {
    pub loc_rib: LocRib<Ipv4Addr>,
    pub loc_rib_v6: LocRib<Ipv6Addr>,
    /// Routes that the daemon itself brought in.
    pub originated_routes: Table<Nlri<Ipv4Addr>, Route<Ipv4Addr>>,
    pub originated_routes_v6: Table<Nlri<Ipv6Addr>, Route<Ipv6Addr>>,
    pub local_as: u32,
    pub local_bgp_id: Ipv4Addr,
    /// The next hop in IPv6 routes to external peers.
    pub local_ipv6: Option<Ipv6Addr>,
    /// The number of each configured peer.
    pub peer_remote_as: Table<IpAddr, u32>,
    /// The kind of each peer that has a session.
    pub peer_types: Table<IpAddr, PeerType>,
    pub established_at: Table<IpAddr, Instant>,
    pub hold_times: Table<IpAddr, u16>,
    /// How many prefixes were received from a peer.
    pub prefixes_received: Table<IpAddr, u128>,
    /// How many prefixes are advertised to a peer.
    pub prefixes_advertised: Table<IpAddr, u128>,
    /// The local address of the session with a peer.
    pub local_addrs: Table<IpAddr, IpAddr>,
    /// The peers that routes are reflected to and from; none where the daemon is no reflector.
    pub rr_clients: KeySet<IpAddr>,
    pub cluster_id: u32,
    /// The identifier that a peer gave in its OPEN.
    pub peer_bgp_ids: Table<IpAddr, Ipv4Addr>,
    pub next_hop_self_peers: KeySet<IpAddr>,
    /// The restart time that a peer offers, where it is not zero.
    pub gr_capable_peers: Table<IpAddr, u16>,
    /// Peers that said that they are restarting.
    pub gr_peer_restarting: KeySet<IpAddr>,
    /// Peers whose initial IPv4 table is complete.
    pub eor_received: KeySet<IpAddr>,
    /// Peers whose initial IPv6 table is complete.
    pub eor_received_v6: KeySet<IpAddr>,
}

/// The contents of a [`RibSnapshot`].
#[verifier::ext_equal]
pub ghost struct RibView {
    pub loc_rib: Map<Nlri<Ipv4Addr>, Best<Ipv4Addr>>,
    pub loc_rib_v6: Map<Nlri<Ipv6Addr>, Best<Ipv6Addr>>,
    pub originated_routes: Map<Nlri<Ipv4Addr>, Route<Ipv4Addr>>,
    pub originated_routes_v6: Map<Nlri<Ipv6Addr>, Route<Ipv6Addr>>,
    pub local_as: u32,
    pub local_bgp_id: Ipv4Addr,
    pub local_ipv6: Option<Ipv6Addr>,
    pub peer_remote_as: Map<IpAddr, u32>,
    pub peer_types: Map<IpAddr, PeerType>,
    pub established_at: Map<IpAddr, Instant>,
    pub hold_times: Map<IpAddr, u16>,
    pub prefixes_received: Map<IpAddr, u128>,
    pub prefixes_advertised: Map<IpAddr, u128>,
    pub local_addrs: Map<IpAddr, IpAddr>,
    pub rr_clients: Set<IpAddr>,
    pub cluster_id: u32,
    pub peer_bgp_ids: Map<IpAddr, Ipv4Addr>,
    pub next_hop_self_peers: Set<IpAddr>,
    pub gr_capable_peers: Map<IpAddr, u16>,
    pub gr_peer_restarting: Set<IpAddr>,
    pub eor_received: Set<IpAddr>,
    pub eor_received_v6: Set<IpAddr>,
}

impl View for RibSnapshot {
    type V = RibView;

    open spec fn view(&self) -> RibView {
        RibView {
            loc_rib: self.loc_rib@,
            loc_rib_v6: self.loc_rib_v6@,
            originated_routes: self.originated_routes@,
            originated_routes_v6: self.originated_routes_v6@,
            local_as: self.local_as,
            local_bgp_id: self.local_bgp_id,
            local_ipv6: self.local_ipv6,
            peer_remote_as: self.peer_remote_as@,
            peer_types: self.peer_types@,
            established_at: self.established_at@,
            hold_times: self.hold_times@,
            prefixes_received: self.prefixes_received@,
            prefixes_advertised: self.prefixes_advertised@,
            local_addrs: self.local_addrs@,
            rr_clients: self.rr_clients@,
            cluster_id: self.cluster_id,
            peer_bgp_ids: self.peer_bgp_ids@,
            next_hop_self_peers: self.next_hop_self_peers@,
            gr_capable_peers: self.gr_capable_peers@,
            gr_peer_restarting: self.gr_peer_restarting@,
            eor_received: self.eor_received@,
            eor_received_v6: self.eor_received_v6@,
        }
    }
}

/// All routing state of the daemon. It does no input or output of its own: its methods take what
/// happened, and return what is to be done.
pub struct DaemonState {
    pub rib: RibSnapshot,
    pub import_policies: Table<IpAddr, Policy>,
    pub import_policies_v6: Table<IpAddr, Policy>,
    pub export_policies: Table<IpAddr, Policy>,
    pub export_policies_v6: Table<IpAddr, Policy>,
    pub adj_ribs_in: Table<IpAddr, AdjRibIn<Ipv4Addr>>,
    pub adj_ribs_in_v6: Table<IpAddr, AdjRibIn<Ipv6Addr>>,
    pub adj_ribs_out: Table<IpAddr, AdjRibOut>,
    pub adj_ribs_out_v6: Table<IpAddr, AdjRibOut>,
    /// The kind of each configured peer.
    pub peer_config_types: Table<IpAddr, PeerType>,
    /// Peers to which UPDATEs can be sent.
    pub update_senders: KeySet<IpAddr>,
    /// What the daemon advertises in its OPEN.
    pub config_capabilities: Vec<Capability>,
    /// The longest message that a peer with a session takes.
    pub negotiated_max_len: Table<IpAddr, usize>,
    pub ipv6_capable_peers: KeySet<IpAddr>,
    pub four_byte_peers: KeySet<IpAddr>,
    pub route_refresh_peers: KeySet<IpAddr>,
    /// When each prefix was last announced to an external peer.
    pub mrai_last_sent: Table<IpAddr, Table<Nlri<Ipv4Addr>, Instant>>,
    /// Announcements to an external peer that wait, by prefix.
    pub mrai_pending: Table<IpAddr, Table<Nlri<Ipv4Addr>, Route<Ipv4Addr>>>,
    /// Decisions that have not been sent yet.
    pub pending_decisions: Table<IpAddr, Vec<PrefixDecision<Ipv4Addr>>>,
    pub pending_decisions_v6: Table<IpAddr, Vec<PrefixDecision<Ipv6Addr>>>,
    /// Peers that did not take what was sent to them during the current event.
    pub stalled_peers: Vec<IpAddr>,
    /// Changes for the kernel; `None` where the kernel is left alone.
    pub fib_manager: Option<FibManager>,
    pub gr: GracefulRestartState,
    pub selection_deferral: SelectionDeferral,
    /// Peers that are to go when their session ends.
    pub pending_removal: KeySet<IpAddr>,
    /// The reason that a peer is given when it is removed.
    pub shutdown_messages: Table<IpAddr, String>,
    pub peer_max_prefixes_v4: Table<IpAddr, u32>,
    pub peer_max_prefixes_v6: Table<IpAddr, u32>,
    pub peer_max_prefixes_restart: Table<IpAddr, u16>,
    /// Until when a peer that sent too many prefixes may not connect.
    pub max_prefix_idle: Table<IpAddr, Instant>,
}

/// The contents of a [`DaemonState`].
#[verifier::ext_equal]
pub ghost struct DaemonView {
    pub rib: RibView,
    pub import_policies: Map<IpAddr, Policy>,
    pub import_policies_v6: Map<IpAddr, Policy>,
    pub export_policies: Map<IpAddr, Policy>,
    pub export_policies_v6: Map<IpAddr, Policy>,
    pub adj_ribs_in: Map<IpAddr, Map<Nlri<Ipv4Addr>, Route<Ipv4Addr>>>,
    pub adj_ribs_in_v6: Map<IpAddr, Map<Nlri<Ipv6Addr>, Route<Ipv6Addr>>>,
    pub adj_ribs_out: Map<IpAddr, AdjRibOut>,
    pub adj_ribs_out_v6: Map<IpAddr, AdjRibOut>,
    pub peer_config_types: Map<IpAddr, PeerType>,
    pub update_senders: Set<IpAddr>,
    pub config_capabilities: Seq<Capability>,
    pub negotiated_max_len: Map<IpAddr, usize>,
    pub ipv6_capable_peers: Set<IpAddr>,
    pub four_byte_peers: Set<IpAddr>,
    pub route_refresh_peers: Set<IpAddr>,
    pub mrai_last_sent: Map<IpAddr, Map<Nlri<Ipv4Addr>, Instant>>,
    pub mrai_pending: Map<IpAddr, Map<Nlri<Ipv4Addr>, Route<Ipv4Addr>>>,
    pub pending_decisions: Map<IpAddr, Seq<PrefixDecision<Ipv4Addr>>>,
    pub pending_decisions_v6: Map<IpAddr, Seq<PrefixDecision<Ipv6Addr>>>,
    pub stalled_peers: Seq<IpAddr>,
    pub fib_manager: Option<FibView>,
    pub gr: GrView,
    pub selection_deferral: SelectionDeferral,
    pub pending_removal: Set<IpAddr>,
    pub shutdown_messages: Map<IpAddr, Seq<char>>,
    pub peer_max_prefixes_v4: Map<IpAddr, u32>,
    pub peer_max_prefixes_v6: Map<IpAddr, u32>,
    pub peer_max_prefixes_restart: Map<IpAddr, u16>,
    pub max_prefix_idle: Map<IpAddr, Instant>,
}

/// The contents of an optional FIB manager.
pub open spec fn fib_view(f: Option<FibManager>) -> Option<FibView> {
    match f {
        Some(m) => Some(m@),
        None => None,
    }
}

impl View for DaemonState {
    type V = DaemonView;

    open spec fn view(&self) -> DaemonView {
        DaemonView {
            rib: self.rib@,
            import_policies: self.import_policies@,
            import_policies_v6: self.import_policies_v6@,
            export_policies: self.export_policies@,
            export_policies_v6: self.export_policies_v6@,
            adj_ribs_in: self.adj_ribs_in@,
            adj_ribs_in_v6: self.adj_ribs_in_v6@,
            adj_ribs_out: self.adj_ribs_out@,
            adj_ribs_out_v6: self.adj_ribs_out_v6@,
            peer_config_types: self.peer_config_types@,
            update_senders: self.update_senders@,
            config_capabilities: self.config_capabilities@,
            negotiated_max_len: self.negotiated_max_len@,
            ipv6_capable_peers: self.ipv6_capable_peers@,
            four_byte_peers: self.four_byte_peers@,
            route_refresh_peers: self.route_refresh_peers@,
            mrai_last_sent: self.mrai_last_sent@,
            mrai_pending: self.mrai_pending@,
            pending_decisions: self.pending_decisions@,
            pending_decisions_v6: self.pending_decisions_v6@,
            stalled_peers: self.stalled_peers@,
            fib_manager: fib_view(self.fib_manager),
            gr: self.gr@,
            selection_deferral: self.selection_deferral,
            pending_removal: self.pending_removal@,
            shutdown_messages: self.shutdown_messages@,
            peer_max_prefixes_v4: self.peer_max_prefixes_v4@,
            peer_max_prefixes_v6: self.peer_max_prefixes_v6@,
            peer_max_prefixes_restart: self.peer_max_prefixes_restart@,
            max_prefix_idle: self.max_prefix_idle@,
        }
    }
}

/// The entry of an optional setting: put in where it is set.
pub open spec fn insert_some<V>(m: Map<IpAddr, V>, k: IpAddr, v: Option<V>) -> Map<IpAddr, V> {
    match v {
        Some(x) => m.insert(k, x),
        None => m,
    }
}

/// A member of a set of peers: put in where the condition holds.
pub open spec fn insert_if(s: Set<IpAddr>, k: IpAddr, condition: bool) -> Set<IpAddr> {
    if condition {
        s.insert(k)
    } else {
        s
    }
}

/// A set of peers in which a peer is a member just where the condition holds.
pub open spec fn set_member(s: Set<IpAddr>, k: IpAddr, condition: bool) -> Set<IpAddr> {
    if condition {
        s.insert(k)
    } else {
        s.remove(k)
    }
}

/// What is stored for a key; `d` where nothing is.
pub open spec fn get_or<V>(m: Map<IpAddr, V>, k: IpAddr, d: V) -> V {
    if m.contains_key(k) {
        m[k]
    } else {
        d
    }
}

/// The characters of an optional text.
pub open spec fn text(s: Option<String>) -> Option<Seq<char>> {
    match s {
        Some(x) => Some(x@),
        None => None,
    }
}

/// The internal peers in a list that are configured as clients.
pub open spec fn clients_of(peers: Seq<PeerConfig>, local_as: u32) -> Set<IpAddr> {
    Set::new(
        |a: IpAddr|
            exists|i: int|
                0 <= i < peers.len() && (#[trigger] peers[i]).address == a && peers[i].is_rr_client
                    && peers[i].remote_as == local_as,
    )
}

impl RibView {
    /// The snapshot of a daemon that knows no peer and no route.
    pub open spec fn initial(
        local_as: u32,
        local_bgp_id: Ipv4Addr,
        local_ipv6: Option<Ipv6Addr>,
        cluster_id: u32,
        rr_clients: Set<IpAddr>,
    ) -> Self {
        RibView {
            loc_rib: Map::empty(),
            loc_rib_v6: Map::empty(),
            originated_routes: Map::empty(),
            originated_routes_v6: Map::empty(),
            local_as,
            local_bgp_id,
            local_ipv6,
            peer_remote_as: Map::empty(),
            peer_types: Map::empty(),
            established_at: Map::empty(),
            hold_times: Map::empty(),
            prefixes_received: Map::empty(),
            prefixes_advertised: Map::empty(),
            local_addrs: Map::empty(),
            rr_clients,
            cluster_id,
            peer_bgp_ids: Map::empty(),
            next_hop_self_peers: Set::empty(),
            gr_capable_peers: Map::empty(),
            gr_peer_restarting: Set::empty(),
            eor_received: Set::empty(),
            eor_received_v6: Set::empty(),
        }
    }
}

impl DaemonView {
    /// The state of a daemon that knows no peer and no route.
    pub open spec fn initial(
        local_as: u32,
        local_bgp_id: Ipv4Addr,
        local_ipv6: Option<Ipv6Addr>,
        cluster_id: u32,
        rr_clients: Set<IpAddr>,
        update_senders: Set<IpAddr>,
        config_capabilities: Seq<Capability>,
    ) -> Self {
        DaemonView {
            rib: RibView::initial(local_as, local_bgp_id, local_ipv6, cluster_id, rr_clients),
            import_policies: Map::empty(),
            import_policies_v6: Map::empty(),
            export_policies: Map::empty(),
            export_policies_v6: Map::empty(),
            adj_ribs_in: Map::empty(),
            adj_ribs_in_v6: Map::empty(),
            adj_ribs_out: Map::empty(),
            adj_ribs_out_v6: Map::empty(),
            peer_config_types: Map::empty(),
            update_senders,
            config_capabilities,
            negotiated_max_len: Map::empty(),
            ipv6_capable_peers: Set::empty(),
            four_byte_peers: Set::empty(),
            route_refresh_peers: Set::empty(),
            mrai_last_sent: Map::empty(),
            mrai_pending: Map::empty(),
            pending_decisions: Map::empty(),
            pending_decisions_v6: Map::empty(),
            stalled_peers: Seq::empty(),
            fib_manager: None,
            gr: GrView::empty(),
            selection_deferral: SelectionDeferral::spec_disabled(),
            pending_removal: Set::empty(),
            shutdown_messages: Map::empty(),
            peer_max_prefixes_v4: Map::empty(),
            peer_max_prefixes_v6: Map::empty(),
            peer_max_prefixes_restart: Map::empty(),
            max_prefix_idle: Map::empty(),
        }
    }

    /// Whether the daemon reflects routes.
    pub open spec fn is_rr(self) -> bool {
        self.rib.rr_clients != Set::<IpAddr>::empty()
    }

    /// The state once a peer is configured: it has empty tables, and policies whose defaults follow
    /// from its configuration and kind.
    pub open spec fn registered(self, p: PeerConfig) -> Self {
        let a = p.address;
        let ebgp = p.remote_as != self.rib.local_as;
        let kind = kind_of_peer(self.rib.local_as, p.remote_as);
        let import = Policy { default: resolved(import_action(p.import_default), ebgp) };
        let import_v6 = Policy { default: resolved(import_action(p.import_v6_setting()), ebgp) };
        let export = Policy { default: resolved(export_action(p.export_default), ebgp) };
        DaemonView {
            rib: RibView {
                peer_remote_as: self.rib.peer_remote_as.insert(a, p.remote_as),
                next_hop_self_peers: insert_if(self.rib.next_hop_self_peers, a, p.next_hop_self),
                ..self.rib
            },
            import_policies: self.import_policies.insert(a, import),
            import_policies_v6: self.import_policies_v6.insert(a, import_v6),
            export_policies: self.export_policies.insert(a, export),
            export_policies_v6: self.export_policies_v6.insert(a, export),
            adj_ribs_in: self.adj_ribs_in.insert(a, Map::empty()),
            adj_ribs_in_v6: self.adj_ribs_in_v6.insert(a, Map::empty()),
            adj_ribs_out: self.adj_ribs_out.insert(a, AdjRibOut::fresh(kind, self.is_rr())),
            adj_ribs_out_v6: self.adj_ribs_out_v6.insert(a, AdjRibOut::fresh(kind, self.is_rr())),
            peer_config_types: self.peer_config_types.insert(a, kind),
            shutdown_messages: insert_some(self.shutdown_messages, a, text(p.shutdown_message)),
            peer_max_prefixes_v4: insert_some(self.peer_max_prefixes_v4, a, p.max_prefixes_v4),
            peer_max_prefixes_v6: insert_some(self.peer_max_prefixes_v6, a, p.max_prefixes_v6),
            peer_max_prefixes_restart: insert_some(
                self.peer_max_prefixes_restart,
                a,
                p.max_prefixes_restart,
            ),
            ..self
        }
    }

    /// The state once every peer of a list is configured, in order.
    pub open spec fn registered_all(self, peers: Seq<PeerConfig>) -> Self
        decreases peers.len(),
    {
        if peers.len() == 0 {
            self
        } else {
            self.registered_all(peers.drop_last()).registered(peers.last())
        }
    }

    /// The state without anything about a peer.
    pub open spec fn without(self, p: IpAddr) -> Self {
        DaemonView {
            rib: RibView {
                peer_remote_as: self.rib.peer_remote_as.remove(p),
                peer_types: self.rib.peer_types.remove(p),
                established_at: self.rib.established_at.remove(p),
                hold_times: self.rib.hold_times.remove(p),
                prefixes_received: self.rib.prefixes_received.remove(p),
                prefixes_advertised: self.rib.prefixes_advertised.remove(p),
                local_addrs: self.rib.local_addrs.remove(p),
                peer_bgp_ids: self.rib.peer_bgp_ids.remove(p),
                next_hop_self_peers: self.rib.next_hop_self_peers.remove(p),
                gr_capable_peers: self.rib.gr_capable_peers.remove(p),
                gr_peer_restarting: self.rib.gr_peer_restarting.remove(p),
                eor_received: self.rib.eor_received.remove(p),
                eor_received_v6: self.rib.eor_received_v6.remove(p),
                ..self.rib
            },
            import_policies: self.import_policies.remove(p),
            import_policies_v6: self.import_policies_v6.remove(p),
            export_policies: self.export_policies.remove(p),
            export_policies_v6: self.export_policies_v6.remove(p),
            adj_ribs_in: self.adj_ribs_in.remove(p),
            adj_ribs_in_v6: self.adj_ribs_in_v6.remove(p),
            adj_ribs_out: self.adj_ribs_out.remove(p),
            adj_ribs_out_v6: self.adj_ribs_out_v6.remove(p),
            peer_config_types: self.peer_config_types.remove(p),
            update_senders: self.update_senders.remove(p),
            negotiated_max_len: self.negotiated_max_len.remove(p),
            ipv6_capable_peers: self.ipv6_capable_peers.remove(p),
            four_byte_peers: self.four_byte_peers.remove(p),
            route_refresh_peers: self.route_refresh_peers.remove(p),
            mrai_last_sent: self.mrai_last_sent.remove(p),
            mrai_pending: self.mrai_pending.remove(p),
            pending_decisions: self.pending_decisions.remove(p),
            pending_decisions_v6: self.pending_decisions_v6.remove(p),
            gr: self.gr.without(p),
            pending_removal: self.pending_removal.remove(p),
            shutdown_messages: self.shutdown_messages.remove(p),
            peer_max_prefixes_v4: self.peer_max_prefixes_v4.remove(p),
            peer_max_prefixes_v6: self.peer_max_prefixes_v6.remove(p),
            peer_max_prefixes_restart: self.peer_max_prefixes_restart.remove(p),
            max_prefix_idle: self.max_prefix_idle.remove(p),
            ..self
        }
    }

    /// How many prefixes were received from a peer, of both families together.
    pub open spec fn received_count(self, p: IpAddr) -> nat {
        get_or(self.adj_ribs_in, p, Map::empty()).dom().len() + get_or(
            self.adj_ribs_in_v6,
            p,
            Map::empty(),
        ).dom().len()
    }

    /// How many prefixes are advertised to a peer, of both families together.
    pub open spec fn advertised_count(self, p: IpAddr) -> int {
        let v4 = if self.adj_ribs_out.contains_key(p) {
            self.adj_ribs_out[p].advertised as int
        } else {
            0
        };
        let v6 = if self.adj_ribs_out_v6.contains_key(p) {
            self.adj_ribs_out_v6[p].advertised as int
        } else {
            0
        };
        v4 + v6
    }

    /// The state with the count of received prefixes of a peer brought up to date.
    pub open spec fn received_synced(self, p: IpAddr) -> Self {
        DaemonView {
            rib: RibView {
                prefixes_received: self.rib.prefixes_received.insert(
                    p,
                    self.received_count(p) as u128,
                ),
                ..self.rib
            },
            ..self
        }
    }

    /// The state with the count of advertised prefixes of a peer brought up to date.
    pub open spec fn advertised_synced(self, p: IpAddr) -> Self {
        DaemonView {
            rib: RibView {
                prefixes_advertised: self.rib.prefixes_advertised.insert(
                    p,
                    self.advertised_count(p) as u128,
                ),
                ..self.rib
            },
            ..self
        }
    }
}

/// What configuring a peer at run time makes of a state, and whether the peer is new.
pub open spec fn addition_outcome(before: DaemonView, peer: PeerConfig, after: DaemonView, r: bool) -> bool {
    &&& r == !before.adj_ribs_in.contains_key(peer.address)
    &&& r ==> after == (DaemonView {
        update_senders: before.update_senders.insert(peer.address),
        ..before.registered(peer)
    })
    &&& !r ==> after == before
}

/// What dropping a peer makes of a state, and whether it was configured.
pub open spec fn removal_outcome(before: DaemonView, p: IpAddr, after: DaemonView, r: bool) -> bool {
    &&& r == before.adj_ribs_in.contains_key(p)
    &&& r ==> after == before.without(p)
    &&& !r ==> after == before
}

/// The sum of two counts.
fn total(a: usize, b: usize) -> (r: u128)
    ensures
        r == a + b,
{
    (a as u128) + (b as u128)
}

/// The internal peers in a list that are configured as clients.
fn collect_clients(peers: &Vec<PeerConfig>, local_as: u32) -> (r: KeySet<IpAddr>)
    ensures
        r@ == clients_of(peers@, local_as),
{
    let mut r: KeySet<IpAddr> = KeySet::new();
    let mut i: usize = 0;
    proof {
        assert(clients_of(peers@.take(0), local_as) =~= Set::<IpAddr>::empty());
    }
    while i < peers.len()
        invariant
            0 <= i <= peers.len(),
            r@ == clients_of(peers@.take(i as int), local_as),
        decreases peers.len() - i,
    {
        let ghost before = r@;
        let ghost here = peers@[i as int];
        if peers[i].is_rr_client && peers[i].remote_as == local_as {
            let _ = r.insert(peers[i].address);
        }
        i = i + 1;
        proof {
            let s = peers@.take(i - 1);
            let t = peers@.take(i as int);
            let client = here.is_rr_client && here.remote_as == local_as;
            assert forall|a: IpAddr| clients_of(t, local_as).contains(a) <==> (clients_of(
                s,
                local_as,
            ).contains(a) || (client && a == here.address)) by {
                if clients_of(s, local_as).contains(a) {
                    let k = choose|k: int|
                        0 <= k < s.len() && (#[trigger] s[k]).address == a && s[k].is_rr_client
                            && s[k].remote_as == local_as;
                    assert(t[k].address == a);
                }
                if client && a == here.address {
                    assert(t[i - 1].address == a);
                }
                if clients_of(t, local_as).contains(a) {
                    let k = choose|k: int|
                        0 <= k < t.len() && (#[trigger] t[k]).address == a && t[k].is_rr_client
                            && t[k].remote_as == local_as;
                    if k < s.len() {
                        assert(s[k].address == a);
                    }
                }
            }
            assert(r@ =~= clients_of(t, local_as));
        }
    }
    assert(peers@.take(i as int) =~= peers@);
    r
}

impl DaemonState {
    /// Puts in the tables and policies of a configured peer.
    fn register(&mut self, p: &PeerConfig)
        ensures
            final(self)@ == old(self)@.registered(*p),
    {
        let a = p.address;
        let local_as = self.rib.local_as;
        let ebgp = p.remote_as != local_as;
        let kind = config_peer_type(local_as, p.remote_as);
        let is_rr = !self.rib.rr_clients.is_empty();
        self.import_policies.insert(a, Policy::new(resolve_import_default(p.import_default, ebgp)));
        self.import_policies_v6.insert(
            a,
            Policy::new(resolve_import_default(p.import_setting_v6(), ebgp)),
        );
        self.export_policies.insert(a, Policy::new(resolve_export_default(p.export_default, ebgp)));
        self.export_policies_v6.insert(
            a,
            Policy::new(resolve_export_default(p.export_default, ebgp)),
        );
        self.adj_ribs_in.insert(a, AdjRibIn::new());
        self.adj_ribs_in_v6.insert(a, AdjRibIn::new());
        self.adj_ribs_out.insert(a, AdjRibOut::fresh(kind, is_rr));
        self.adj_ribs_out_v6.insert(a, AdjRibOut::fresh(kind, is_rr));
        self.peer_config_types.insert(a, kind);
        self.rib.peer_remote_as.insert(a, p.remote_as);
        if p.next_hop_self {
            let _ = self.rib.next_hop_self_peers.insert(a);
        }
        if let Some(m) = &p.shutdown_message {
            self.shutdown_messages.insert(a, m.clone());
        }
        if let Some(n) = p.max_prefixes_v4 {
            self.peer_max_prefixes_v4.insert(a, n);
        }
        if let Some(n) = p.max_prefixes_v6 {
            self.peer_max_prefixes_v6.insert(a, n);
        }
        if let Some(n) = p.max_prefixes_restart {
            self.peer_max_prefixes_restart.insert(a, n);
        }
    }

    /// The state of a daemon that has just been started. Internal peers that are configured as
    /// clients make it a route reflector; its cluster is `cluster_id`, for which its own identifier
    /// stands in. Where a peer is configured twice, the later entry counts.
    pub fn new(
        local_as: u32,
        local_bgp_id: Ipv4Addr,
        local_ipv6: Option<Ipv6Addr>,
        cluster_id: Option<u32>,
        peers: &Vec<PeerConfig>,
        update_senders: KeySet<IpAddr>,
        config_capabilities: Vec<Capability>,
    ) -> (r: Self)
        ensures
            r@ == DaemonView::initial(
                local_as,
                local_bgp_id,
                local_ipv6,
                match cluster_id {
                    Some(c) => c,
                    None => local_bgp_id.bits,
                },
                clients_of(peers@, local_as),
                update_senders@,
                config_capabilities@,
            ).registered_all(peers@),
    {
        let rr_clients = collect_clients(peers, local_as);
        let cluster: u32 = match cluster_id {
            Some(c) => c,
            None => local_bgp_id.bits,
        };
        let rib = RibSnapshot {
            loc_rib: LocRib::new(),
            loc_rib_v6: LocRib::new(),
            originated_routes: Table::new(),
            originated_routes_v6: Table::new(),
            local_as,
            local_bgp_id,
            local_ipv6,
            peer_remote_as: Table::new(),
            peer_types: Table::new(),
            established_at: Table::new(),
            hold_times: Table::new(),
            prefixes_received: Table::new(),
            prefixes_advertised: Table::new(),
            local_addrs: Table::new(),
            rr_clients,
            cluster_id: cluster,
            peer_bgp_ids: Table::new(),
            next_hop_self_peers: KeySet::new(),
            gr_capable_peers: Table::new(),
            gr_peer_restarting: KeySet::new(),
            eor_received: KeySet::new(),
            eor_received_v6: KeySet::new(),
        };
        let mut s = DaemonState {
            rib,
            import_policies: Table::new(),
            import_policies_v6: Table::new(),
            export_policies: Table::new(),
            export_policies_v6: Table::new(),
            adj_ribs_in: Table::new(),
            adj_ribs_in_v6: Table::new(),
            adj_ribs_out: Table::new(),
            adj_ribs_out_v6: Table::new(),
            peer_config_types: Table::new(),
            update_senders,
            config_capabilities,
            negotiated_max_len: Table::new(),
            ipv6_capable_peers: KeySet::new(),
            four_byte_peers: KeySet::new(),
            route_refresh_peers: KeySet::new(),
            mrai_last_sent: Table::new(),
            mrai_pending: Table::new(),
            pending_decisions: Table::new(),
            pending_decisions_v6: Table::new(),
            stalled_peers: Vec::new(),
            fib_manager: None,
            gr: GracefulRestartState::new(),
            selection_deferral: SelectionDeferral::disabled(),
            pending_removal: KeySet::new(),
            shutdown_messages: Table::new(),
            peer_max_prefixes_v4: Table::new(),
            peer_max_prefixes_v6: Table::new(),
            peer_max_prefixes_restart: Table::new(),
            max_prefix_idle: Table::new(),
        };
        let ghost start = s@;
        let mut i: usize = 0;
        while i < peers.len()
            invariant
                0 <= i <= peers.len(),
                s@ == start.registered_all(peers@.take(i as int)),
            decreases peers.len() - i,
        {
            s.register(&peers[i]);
            i = i + 1;
            assert(peers@.take(i as int).drop_last() =~= peers@.take(i - 1));
        }
        assert(peers@.take(i as int) =~= peers@);
        s
    }

    /// Configures a peer while the daemon runs. A peer that is configured already is left alone.
    /// Returns whether the peer is new.
    pub fn add_peer(&mut self, peer: &PeerConfig) -> (r: bool)
        ensures
            addition_outcome(old(self)@, *peer, final(self)@, r),
            r == !old(self)@.adj_ribs_in.contains_key(peer.address),
            r ==> final(self)@ == (DaemonView {
                update_senders: old(self)@.update_senders.insert(peer.address),
                ..old(self)@.registered(*peer)
            }),
            !r ==> final(self)@ == old(self)@,
    {
        if self.adj_ribs_in.contains_key(&peer.address) {
            return false;
        }
        self.register(peer);
        let _ = self.update_senders.insert(peer.address);
        true
    }

    /// Drops everything about a peer. Returns whether it was configured.
    pub fn remove_peer(&mut self, peer_ip: IpAddr) -> (r: bool)
        ensures
            removal_outcome(old(self)@, peer_ip, final(self)@, r),
            r == old(self)@.adj_ribs_in.contains_key(peer_ip),
            r ==> final(self)@ == old(self)@.without(peer_ip),
            !r ==> final(self)@ == old(self)@,
    {
        if !self.adj_ribs_in.contains_key(&peer_ip) {
            return false;
        }
        let _ = self.adj_ribs_in.remove(&peer_ip);
        let _ = self.adj_ribs_in_v6.remove(&peer_ip);
        let _ = self.adj_ribs_out.remove(&peer_ip);
        let _ = self.adj_ribs_out_v6.remove(&peer_ip);
        let _ = self.peer_config_types.remove(&peer_ip);
        let _ = self.import_policies.remove(&peer_ip);
        let _ = self.import_policies_v6.remove(&peer_ip);
        let _ = self.export_policies.remove(&peer_ip);
        let _ = self.export_policies_v6.remove(&peer_ip);
        let _ = self.update_senders.remove(&peer_ip);
        let _ = self.negotiated_max_len.remove(&peer_ip);
        let _ = self.ipv6_capable_peers.remove(&peer_ip);
        let _ = self.four_byte_peers.remove(&peer_ip);
        let _ = self.route_refresh_peers.remove(&peer_ip);
        self.gr.remove_peer(peer_ip);
        let _ = self.mrai_last_sent.remove(&peer_ip);
        let _ = self.mrai_pending.remove(&peer_ip);
        let _ = self.pending_decisions.remove(&peer_ip);
        let _ = self.pending_decisions_v6.remove(&peer_ip);
        let _ = self.pending_removal.remove(&peer_ip);
        let _ = self.shutdown_messages.remove(&peer_ip);
        let _ = self.peer_max_prefixes_v4.remove(&peer_ip);
        let _ = self.peer_max_prefixes_v6.remove(&peer_ip);
        let _ = self.peer_max_prefixes_restart.remove(&peer_ip);
        let _ = self.max_prefix_idle.remove(&peer_ip);
        let _ = self.rib.peer_remote_as.remove(&peer_ip);
        let _ = self.rib.peer_types.remove(&peer_ip);
        let _ = self.rib.established_at.remove(&peer_ip);
        let _ = self.rib.hold_times.remove(&peer_ip);
        let _ = self.rib.prefixes_received.remove(&peer_ip);
        let _ = self.rib.prefixes_advertised.remove(&peer_ip);
        let _ = self.rib.local_addrs.remove(&peer_ip);
        let _ = self.rib.peer_bgp_ids.remove(&peer_ip);
        let _ = self.rib.next_hop_self_peers.remove(&peer_ip);
        let _ = self.rib.gr_capable_peers.remove(&peer_ip);
        let _ = self.rib.gr_peer_restarting.remove(&peer_ip);
        let _ = self.rib.eor_received.remove(&peer_ip);
        let _ = self.rib.eor_received_v6.remove(&peer_ip);
        true
    }

    /// Brings the count of prefixes received from a peer up to date.
    pub fn sync_received(&mut self, peer_ip: IpAddr)
        ensures
            final(self)@ == old(self)@.received_synced(peer_ip),
    {
        let v4: usize = match self.adj_ribs_in.get(&peer_ip) {
            Some(t) => t.len(),
            None => 0,
        };
        let v6: usize = match self.adj_ribs_in_v6.get(&peer_ip) {
            Some(t) => t.len(),
            None => 0,
        };
        self.rib.prefixes_received.insert(peer_ip, total(v4, v6));
    }

    /// Brings the count of prefixes advertised to a peer up to date.
    pub fn sync_advertised(&mut self, peer_ip: IpAddr)
        ensures
            final(self)@ == old(self)@.advertised_synced(peer_ip),
    {
        let v4: usize = match self.adj_ribs_out.get(&peer_ip) {
            Some(t) => t.advertised,
            None => 0,
        };
        let v6: usize = match self.adj_ribs_out_v6.get(&peer_ip) {
            Some(t) => t.advertised,
            None => 0,
        };
        self.rib.prefixes_advertised.insert(peer_ip, total(v4, v6));
    }

    /// Takes out the list of peers that did not take what was sent to them.
    pub fn take_stalled_peers(&mut self) -> (r: Vec<IpAddr>)
        ensures
            r@ == old(self)@.stalled_peers,
            final(self)@ == (DaemonView { stalled_peers: Seq::empty(), ..old(self)@ }),
    {
        let mut r: Vec<IpAddr> = Vec::new();
        std::mem::swap(&mut self.stalled_peers, &mut r);
        r
    }

    /// The part of the state that the management interface reads.
    pub fn snapshot(&self) -> (r: &RibSnapshot)
        ensures
            r@ == self@.rib,
    {
        &self.rib
    }
}

} // verus!
