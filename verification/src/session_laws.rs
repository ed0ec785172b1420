//! What the beginning and the end of a session do, put in terms of what the session brought and of the
//! state before and after.
use vstd::prelude::*;

use crate::clock::Instant;
use crate::control::{departure_outcome, Departure};
use crate::gr::GrView;
use crate::inbound::update_outcome;
use crate::inbound_laws::{
    announced_prefixes_are_held_no_longer, is_marker_v4, is_marker_v6, is_processed,
    marker_v4_takes_what_is_held, marker_v6_takes_what_is_held, processed_update_asks_v4,
    processed_update_asks_v6, processed_update_settles_v4, processed_update_settles_v6,
};
use crate::message::{Capability, NotificationMessage, PeerType, UpdateView};
use crate::net::{AfiSafi, IpAddr, Ipv4Addr, Ipv6Addr, NextHop, Nlri};
use crate::propagation::ExportView;
use crate::rib::{Best, RibOp};
use crate::route::Route;
use crate::session::{opening_outcome, DumpStep, Opening, TerminationReason};
use crate::state::{DaemonView, RibView};
use crate::update_laws::{brings_v4, brings_v6, offers_v4, offers_v6};
use crate::work::WorkView;

verus! {

/// Whether some peer is a client of the local reflector.
pub open spec fn has_clients(s: DaemonView) -> bool {
    exists|c: IpAddr| #[trigger] s.rib.rr_clients.contains(c)
}

/// Having clients is what makes a reflector.
proof fn clients_make_a_reflector(s: DaemonView)
    ensures
        s.is_rr() == has_clients(s),
{
    if !has_clients(s) {
        assert(s.rib.rr_clients =~= Set::<IpAddr>::empty());
    }
}

/// Whether a family is among those that a peer offered to restart.
pub open spec fn restarts_family(s: DaemonView, p: IpAddr, afi: u16, safi: u8) -> bool {
    s.gr.peer_families.contains_key(p) && exists|i: int|
        0 <= i < s.gr.peer_families[p].len() && (#[trigger] s.gr.peer_families[p][i]).afi_safi.afi
            == afi && s.gr.peer_families[p][i].afi_safi.safi == safi
}

/// The families that are restarted, by their numbers.
proof fn families_by_number(s: DaemonView, p: IpAddr)
    ensures
        s.restarts(p, AfiSafi::ipv4_unicast()) == restarts_family(s, p, 1, 1),
        s.restarts(p, AfiSafi::ipv6_unicast()) == restarts_family(s, p, 2, 1),
{
}

/// Whether a session with a peer can be advertised to.
pub open spec fn can_be_told(s: DaemonView, p: IpAddr) -> bool {
    s.export_policies.contains_key(p) && s.adj_ribs_out.contains_key(p) && s.update_senders.contains(p)
}

/// What the beginning of a session puts on record: the kind, the identifier, the hold time and the time
/// of the session, its local address where it has one, the length that both sides take, and tables of
/// advertised routes that are empty and made for the kind of the session. Nothing but what belongs to
/// the peer is touched.
pub proof fn opening_puts_the_session_on_record(
    before: DaemonView,
    p: IpAddr,
    bgp_id: Ipv4Addr,
    kind: PeerType,
    hold_time: u16,
    caps: Seq<Capability>,
    local_addr: Option<IpAddr>,
    now: Instant,
    after: DaemonView,
    r: Opening,
)
    requires
        opening_outcome(before, p, bgp_id, kind, hold_time, caps, local_addr, now, after, r),
    ensures
        after.rib.peer_types == before.rib.peer_types.insert(p, kind),
        after.rib.peer_bgp_ids == before.rib.peer_bgp_ids.insert(p, bgp_id),
        after.rib.hold_times == before.rib.hold_times.insert(p, hold_time),
        after.rib.established_at == before.rib.established_at.insert(p, now),
        match local_addr {
            Some(a) => after.rib.local_addrs == before.rib.local_addrs.insert(p, a),
            None => after.rib.local_addrs == before.rib.local_addrs,
        },
        after.rib.eor_received == before.rib.eor_received.remove(p),
        after.rib.eor_received_v6 == before.rib.eor_received_v6.remove(p),
        after.negotiated_max_len == before.negotiated_max_len.insert(
            p,
            if caps.contains(Capability::ExtendedMessage) && before.config_capabilities.contains(
                Capability::ExtendedMessage,
            ) {
                65535usize
            } else {
                4096usize
            },
        ),
        after.adj_ribs_out_v6.contains_key(p),
        after.adj_ribs_out.contains_key(p) == before.adj_ribs_out.contains_key(p),
        after.adj_ribs_out_v6[p].peer_type == kind && after.adj_ribs_out_v6[p].advertised == 0,
        after.adj_ribs_out_v6[p].reflects == (has_clients(before) && kind == PeerType::Internal),
        after.adj_ribs_out.contains_key(p) ==> after.adj_ribs_out[p] == after.adj_ribs_out_v6[p],
        forall|q: IpAddr|
            q != p ==> (#[trigger] after.adj_ribs_out.contains_key(q) == before.adj_ribs_out.contains_key(q))
                && after.adj_ribs_out[q] == before.adj_ribs_out[q],
        forall|q: IpAddr|
            q != p ==> (#[trigger] after.adj_ribs_out_v6.contains_key(q)
                == before.adj_ribs_out_v6.contains_key(q)) && after.adj_ribs_out_v6[q]
                == before.adj_ribs_out_v6[q],
        after.gr.deadlines == before.gr.deadlines.remove(p),
        after.adj_ribs_in == before.adj_ribs_in,
        r.notify == can_be_told(before, p),
        after == (DaemonView {
            rib: RibView {
                peer_types: after.rib.peer_types,
                peer_bgp_ids: after.rib.peer_bgp_ids,
                hold_times: after.rib.hold_times,
                established_at: after.rib.established_at,
                local_addrs: after.rib.local_addrs,
                eor_received: after.rib.eor_received,
                eor_received_v6: after.rib.eor_received_v6,
                gr_capable_peers: after.rib.gr_capable_peers,
                gr_peer_restarting: after.rib.gr_peer_restarting,
                ..before.rib
            },
            negotiated_max_len: after.negotiated_max_len,
            adj_ribs_out: after.adj_ribs_out,
            adj_ribs_out_v6: after.adj_ribs_out_v6,
            adj_ribs_in_v6: after.adj_ribs_in_v6,
            four_byte_peers: after.four_byte_peers,
            route_refresh_peers: after.route_refresh_peers,
            ipv6_capable_peers: after.ipv6_capable_peers,
            gr: after.gr,
            ..before
        }),
{
    clients_make_a_reflector(before);
}

/// A peer that is back within its window has just the prefixes held that it had announced, in each
/// family that it offered to restart; its routes stay where they are. What it had announced in IPv6
/// without offering that is gone, and without a window nothing is held anew.
pub proof fn returning_peer_is_held_to_its_routes(
    before: DaemonView,
    p: IpAddr,
    bgp_id: Ipv4Addr,
    kind: PeerType,
    hold_time: u16,
    caps: Seq<Capability>,
    local_addr: Option<IpAddr>,
    now: Instant,
    after: DaemonView,
    r: Opening,
    n: Nlri<Ipv4Addr>,
    k: Nlri<Ipv6Addr>,
)
    requires
        opening_outcome(before, p, bgp_id, kind, hold_time, caps, local_addr, now, after, r),
    ensures
        !after.gr.deadlines.contains_key(p),
        before.gr.deadlines.contains_key(p) && restarts_family(before, p, 1, 1)
            && before.adj_ribs_in.contains_key(p) && before.adj_ribs_in[p].contains_key(n) ==> {
            &&& after.gr.stale_nlri.contains_key(p)
            &&& after.gr.stale_nlri[p] == before.adj_ribs_in[p].dom()
            &&& after.adj_ribs_in[p] == before.adj_ribs_in[p]
        },
        before.gr.deadlines.contains_key(p) && restarts_family(before, p, 2, 1)
            && before.adj_ribs_in_v6.contains_key(p) && before.adj_ribs_in_v6[p].contains_key(k) ==> {
            &&& after.gr.stale_nlri_v6.contains_key(p)
            &&& after.gr.stale_nlri_v6[p] == before.adj_ribs_in_v6[p].dom()
            &&& after.adj_ribs_in_v6[p] == before.adj_ribs_in_v6[p]
        },
        !(before.gr.deadlines.contains_key(p) && restarts_family(before, p, 1, 1))
            ==> after.gr.stale_nlri == before.gr.stale_nlri,
        !(before.adj_ribs_in.contains_key(p) && exists|x: Nlri<Ipv4Addr>| #[trigger]
            before.adj_ribs_in[p].contains_key(x)) ==> after.gr.stale_nlri == before.gr.stale_nlri,
        !(before.adj_ribs_in_v6.contains_key(p) && exists|x: Nlri<Ipv6Addr>| #[trigger]
            before.adj_ribs_in_v6[p].contains_key(x)) ==> after.gr.stale_nlri_v6
            == before.gr.stale_nlri_v6,
        before.gr.deadlines.contains_key(p) && restarts_family(before, p, 2, 1)
            ==> after.adj_ribs_in_v6 == before.adj_ribs_in_v6,
        !(before.gr.deadlines.contains_key(p) && restarts_family(before, p, 2, 1)) ==> {
            &&& after.gr.stale_nlri_v6 == before.gr.stale_nlri_v6
            &&& after.adj_ribs_in_v6.contains_key(p)
            &&& !after.adj_ribs_in_v6[p].contains_key(k)
        },
        forall|q: IpAddr|
            q != p ==> {
                &&& after.gr.stale_nlri.contains_key(q) == before.gr.stale_nlri.contains_key(q)
                &&& (#[trigger] after.gr.stale_nlri[q]) == before.gr.stale_nlri[q]
            },
        forall|q: IpAddr|
            q != p ==> {
                &&& after.gr.stale_nlri_v6.contains_key(q) == before.gr.stale_nlri_v6.contains_key(q)
                &&& (#[trigger] after.gr.stale_nlri_v6[q]) == before.gr.stale_nlri_v6[q]
            },
        forall|q: IpAddr|
            q != p ==> {
                &&& after.adj_ribs_in_v6.contains_key(q) == before.adj_ribs_in_v6.contains_key(q)
                &&& (#[trigger] after.adj_ribs_in_v6[q]) == before.adj_ribs_in_v6[q]
            },
{
    families_by_number(before, p);
    if before.adj_ribs_in[p].contains_key(n) {
        assert(before.adj_ribs_in[p] != Map::<Nlri<Ipv4Addr>, Route<Ipv4Addr>>::empty());
    }
    if before.adj_ribs_in_v6[p].contains_key(k) {
        assert(before.adj_ribs_in_v6[p] != Map::<Nlri<Ipv6Addr>, Route<Ipv6Addr>>::empty());
    }
    if !(exists|x: Nlri<Ipv4Addr>| #[trigger] before.adj_ribs_in[p].contains_key(x)) {
        assert(before.adj_ribs_in[p] =~= Map::<Nlri<Ipv4Addr>, Route<Ipv4Addr>>::empty());
    }
    if !(exists|x: Nlri<Ipv6Addr>| #[trigger] before.adj_ribs_in_v6[p].contains_key(x)) {
        assert(before.adj_ribs_in_v6[p] =~= Map::<Nlri<Ipv6Addr>, Route<Ipv6Addr>>::empty());
    }
}

/// Of a peer that cannot be advertised to, what it offers is not put on record, and it is sent nothing.
pub proof fn unserved_peer_is_not_negotiated_with(
    before: DaemonView,
    p: IpAddr,
    bgp_id: Ipv4Addr,
    kind: PeerType,
    hold_time: u16,
    caps: Seq<Capability>,
    local_addr: Option<IpAddr>,
    now: Instant,
    after: DaemonView,
    r: Opening,
)
    requires
        opening_outcome(before, p, bgp_id, kind, hold_time, caps, local_addr, now, after, r),
        !can_be_told(before, p),
    ensures
        after.four_byte_peers == before.four_byte_peers,
        after.route_refresh_peers == before.route_refresh_peers,
        after.ipv6_capable_peers == before.ipv6_capable_peers,
        after.rib.gr_capable_peers == before.rib.gr_capable_peers,
        after.rib.gr_peer_restarting == before.rib.gr_peer_restarting,
        after.gr.peer_families == before.gr.peer_families,
        after.gr.notification_capable_peers == before.gr.notification_capable_peers,
        r.steps@.len() == 0,
        !r.notify,
{
}

/// Whether a capability is the first offer of a restart time.
pub open spec fn is_first_offer(caps: Seq<Capability>, k: int) -> bool {
    &&& 0 <= k < caps.len()
    &&& caps[k] is GracefulRestart
    &&& caps[k]->restart_time > 0
    &&& forall|j: int|
        0 <= j < k ==> !((#[trigger] caps[j]) is GracefulRestart && caps[j]->restart_time > 0)
}

/// The first offer is found where it is.
proof fn first_offer_is_first(caps: Seq<Capability>, i: int)
    requires
        0 <= i <= caps.len(),
        forall|j: int|
            0 <= j < i ==> !((#[trigger] caps[j]) is GracefulRestart && caps[j]->restart_time > 0),
    ensures
        crate::capabilities::first_offer(caps, i) matches Some(k) ==> is_first_offer(caps, k),
        crate::capabilities::first_offer(caps, i) is None ==> forall|j: int|
            0 <= j < caps.len() ==> !((#[trigger] caps[j]) is GracefulRestart && caps[j]->restart_time
                > 0),
    decreases caps.len() - i,
{
    if i < caps.len() && !(caps[i] is GracefulRestart && caps[i]->restart_time > 0) {
        first_offer_is_first(caps, i + 1);
    }
}

/// Bits of restart flags.
proof fn bits_of_flags(f: u8)
    ensures
        (f / 8 % 2 == 1) == (f & 8 == 8),
        (f / 4 % 2 == 1) == (f & 4 == 4),
{
    assert((f / 8 % 2 == 1) == (f & 8 == 8)) by (bit_vector);
    assert((f / 4 % 2 == 1) == (f & 4 == 4)) by (bit_vector);
}

/// What a peer that can be advertised to offers is put on record, and nothing that it offered in an
/// earlier session stays: numbers of four octets, IPv6 unicast, route refresh where the local speaker
/// offers it too, and from the first offer of a restart time the time, the families and the two flags.
pub proof fn opening_negotiates(
    before: DaemonView,
    p: IpAddr,
    bgp_id: Ipv4Addr,
    kind: PeerType,
    hold_time: u16,
    caps: Seq<Capability>,
    local_addr: Option<IpAddr>,
    now: Instant,
    after: DaemonView,
    r: Opening,
    q: IpAddr,
    k: int,
)
    requires
        opening_outcome(before, p, bgp_id, kind, hold_time, caps, local_addr, now, after, r),
        can_be_told(before, p),
    ensures
        after.four_byte_peers.contains(p) <==> exists|i: int|
            0 <= i < caps.len() && (#[trigger] caps[i]) is FourByteAsn,
        after.ipv6_capable_peers.contains(p) <==> exists|i: int|
            0 <= i < caps.len() && (#[trigger] caps[i]) is MultiProtocol
                && caps[i]->MultiProtocol_0.afi == 2 && caps[i]->MultiProtocol_0.safi == 1,
        after.route_refresh_peers.contains(p) <==> caps.contains(Capability::RouteRefresh)
            && before.config_capabilities.contains(Capability::RouteRefresh),
        is_first_offer(caps, k) ==> {
            &&& after.rib.gr_capable_peers.contains_key(p)
            &&& after.rib.gr_capable_peers[p] == caps[k]->restart_time
            &&& after.gr.peer_families.contains_key(p)
            &&& after.gr.peer_families[p] == caps[k]->families@
            &&& after.rib.gr_peer_restarting.contains(p) == (caps[k]->restart_flags & 8 == 8)
            &&& after.gr.notification_capable_peers.contains(p) == (caps[k]->restart_flags & 4 == 4)
        },
        (forall|j: int|
            0 <= j < caps.len() ==> !((#[trigger] caps[j]) is GracefulRestart && caps[j]->restart_time
                > 0)) ==> {
            &&& !after.rib.gr_capable_peers.contains_key(p)
            &&& !after.gr.peer_families.contains_key(p)
            &&& !after.rib.gr_peer_restarting.contains(p)
            &&& !after.gr.notification_capable_peers.contains(p)
        },
        q != p ==> {
            &&& after.four_byte_peers.contains(q) == before.four_byte_peers.contains(q)
            &&& after.ipv6_capable_peers.contains(q) == before.ipv6_capable_peers.contains(q)
            &&& after.route_refresh_peers.contains(q) == before.route_refresh_peers.contains(q)
            &&& after.rib.gr_peer_restarting.contains(q) == before.rib.gr_peer_restarting.contains(q)
            &&& after.gr.notification_capable_peers.contains(q)
                == before.gr.notification_capable_peers.contains(q)
            &&& after.rib.gr_capable_peers.contains_key(q) == before.rib.gr_capable_peers.contains_key(q)
            &&& after.rib.gr_capable_peers[q] == before.rib.gr_capable_peers[q]
            &&& after.gr.peer_families.contains_key(q) == before.gr.peer_families.contains_key(q)
            &&& after.gr.peer_families[q] == before.gr.peer_families[q]
        },
{
    first_offer_is_first(caps, 0);
    let f = crate::capabilities::first_offer(caps, 0);
    bits_of_flags(crate::capabilities::offered_flags(caps));
    if is_first_offer(caps, k) {
        assert(f is Some);
        let j = f->0;
        if j < k {
            assert(!(caps[j] is GracefulRestart && caps[j]->restart_time > 0));
        }
        if k < j {
            assert(!(caps[k] is GracefulRestart && caps[k]->restart_time > 0));
        }
    }
    let six = Capability::MultiProtocol(AfiSafi { afi: 2, safi: 1 });
    assert(caps.contains(six) <==> exists|i: int|
        0 <= i < caps.len() && (#[trigger] caps[i]) is MultiProtocol && caps[i]->MultiProtocol_0.afi == 2
            && caps[i]->MultiProtocol_0.safi == 1) by {
        if caps.contains(six) {
            let i = caps.index_of(six);
            assert(caps[i] == six);
        }
        if exists|i: int|
            0 <= i < caps.len() && (#[trigger] caps[i]) is MultiProtocol
                && caps[i]->MultiProtocol_0.afi == 2 && caps[i]->MultiProtocol_0.safi == 1 {
            let i = choose|i: int|
                0 <= i < caps.len() && (#[trigger] caps[i]) is MultiProtocol
                    && caps[i]->MultiProtocol_0.afi == 2 && caps[i]->MultiProtocol_0.safi == 1;
            assert(caps[i] == six);
        }
    }
}

/// Whether a reflector keeps a best route from an internal peer: it came from another internal peer, and
/// neither is a client.
pub open spec fn kept_from<A>(s: DaemonView, best: Map<Nlri<A>, Best<A>>, q: IpAddr, n: Nlri<A>) -> bool {
    &&& has_clients(s)
    &&& best.contains_key(n)
    &&& s.rib.peer_types.contains_key(q) && s.rib.peer_types[q] == PeerType::Internal
    &&& s.rib.peer_types.contains_key(best[n].peer) && s.rib.peer_types[best[n].peer]
        == PeerType::Internal
    &&& !s.rib.rr_clients.contains(q)
    &&& !s.rib.rr_clients.contains(best[n].peer)
}

/// What is kept from a peer.
pub proof fn kept_from_is_withheld<A>(
    s: DaemonView,
    best: Map<Nlri<A>, Best<A>>,
    q: IpAddr,
    n: Nlri<A>,
)
    ensures
        s.withheld(best, q, n) == kept_from(s, best, q, n),
{
    clients_make_a_reflector(s);
}

/// Whether the export engine is told of the session as it is: its kind, the length of its messages,
/// whether numbers have four octets, the local number, and whether the local speaker is the next hop.
pub open spec fn told_of_session<A>(s: DaemonView, p: IpAddr, e: ExportView<A>) -> bool {
    &&& s.rib.peer_types.contains_key(p) ==> e.frame.peer_type == s.rib.peer_types[p]
    &&& s.negotiated_max_len.contains_key(p) ==> e.frame.max_len == s.negotiated_max_len[p]
    &&& e.frame.four_byte == s.four_byte_peers.contains(p)
    &&& e.local_as == s.rib.local_as
    &&& e.next_hop_self == s.rib.next_hop_self_peers.contains(p)
}

/// The IPv4 next hop that the local speaker has towards a peer: the local IPv4 address of the session,
/// else its identifier.
pub open spec fn own_next_hop(s: DaemonView, p: IpAddr) -> Ipv4Addr {
    if s.rib.local_addrs.contains_key(p) && s.rib.local_addrs[p] is V4 {
        s.rib.local_addrs[p]->V4_0
    } else {
        s.rib.local_bgp_id
    }
}

/// Whether the export engine is asked for the whole IPv4 table of a peer: every best route that is not
/// kept from it, once, with nothing held back.
pub open spec fn asks_for_table_v4(s: DaemonView, p: IpAddr, e: ExportView<Ipv4Addr>) -> bool {
    &&& told_of_session(s, p, e)
    &&& e.next_hop == Some(own_next_hop(s, p))
    &&& !e.deferred
    &&& e.nlris.no_duplicates()
    &&& forall|n: Nlri<Ipv4Addr>| #[trigger]
        e.nlris.contains(n) <==> s.rib.loc_rib.contains_key(n) && !kept_from(
            s,
            s.rib.loc_rib,
            p,
            n,
        )
}

/// The export engine is asked for the whole IPv4 table.
proof fn table_is_whole_v4(s: DaemonView, p: IpAddr, e: ExportView<Ipv4Addr>)
    requires
        crate::rib::enumerates(e.nlris, s.shown_set(s.rib.loc_rib, p)),
        e == s.export_v4(p, e.nlris, false),
    ensures
        asks_for_table_v4(s, p, e),
{
    assert forall|n: Nlri<Ipv4Addr>| #[trigger] e.nlris.contains(n) <==> s.rib.loc_rib.contains_key(n)
        && !kept_from(s, s.rib.loc_rib, p, n) by {
        kept_from_is_withheld(s, s.rib.loc_rib, p, n);
        assert(e.nlris.to_set().contains(n) == e.nlris.contains(n));
    }
}

/// Whether the export engine is asked for the whole IPv6 table of a peer: every best route that is not
/// kept from it, once, with nothing held back.
pub open spec fn asks_for_table_v6(s: DaemonView, p: IpAddr, e: ExportView<Ipv6Addr>) -> bool {
    &&& told_of_session(s, p, e)
    &&& e.next_hop == s.rib.local_ipv6
    &&& !e.deferred
    &&& e.nlris.no_duplicates()
    &&& forall|n: Nlri<Ipv6Addr>| #[trigger]
        e.nlris.contains(n) <==> s.rib.loc_rib_v6.contains_key(n) && !kept_from(
            s,
            s.rib.loc_rib_v6,
            p,
            n,
        )
}

/// The export engine is asked for the whole IPv6 table.
proof fn table_is_whole_v6(s: DaemonView, p: IpAddr, e: ExportView<Ipv6Addr>)
    requires
        crate::rib::enumerates(e.nlris, s.shown_set(s.rib.loc_rib_v6, p)),
        e == s.export_v6(p, e.nlris, false),
    ensures
        asks_for_table_v6(s, p, e),
{
    assert forall|n: Nlri<Ipv6Addr>| #[trigger] e.nlris.contains(n) <==> s.rib.loc_rib_v6.contains_key(n)
        && !kept_from(s, s.rib.loc_rib_v6, p, n) by {
        kept_from_is_withheld(s, s.rib.loc_rib_v6, p, n);
        assert(e.nlris.to_set().contains(n) == e.nlris.contains(n));
    }
}

/// Whether steps are the IPv4 table of a peer and its marker.
pub open spec fn is_table_v4(s: DaemonView, p: IpAddr, steps: Seq<DumpStep>) -> bool {
    &&& steps.len() == 2
    &&& steps[0] is ExportV4
    &&& asks_for_table_v4(s, p, steps[0]->ExportV4_0@)
    &&& steps[1] is EorV4
}

/// Whether steps are the IPv6 table of a peer and its marker, or the marker alone where there is no
/// route.
pub open spec fn is_table_v6(s: DaemonView, p: IpAddr, steps: Seq<DumpStep>) -> bool {
    if exists|n: Nlri<Ipv6Addr>| #[trigger] s.rib.loc_rib_v6.contains_key(n) {
        &&& steps.len() == 2
        &&& steps[0] is ExportV6
        &&& asks_for_table_v6(s, p, steps[0]->ExportV6_0@)
        &&& steps[1] is EorV6
    } else {
        steps.len() == 1 && steps[0] is EorV6
    }
}

/// Where there is no route, the table is empty.
proof fn no_route_no_table(s: DaemonView)
    ensures
        s.rib.loc_rib_v6 == Map::<Nlri<Ipv6Addr>, Best<Ipv6Addr>>::empty() <==> !(exists|
            n: Nlri<Ipv6Addr>,
        | #[trigger]
            s.rib.loc_rib_v6.contains_key(n)),
{
    if !(exists|n: Nlri<Ipv6Addr>| #[trigger] s.rib.loc_rib_v6.contains_key(n)) {
        assert(s.rib.loc_rib_v6 =~= Map::<Nlri<Ipv6Addr>, Best<Ipv6Addr>>::empty());
    }
}

/// What a peer is sent when its session begins: the IPv4 table unless it is held back, then the IPv6
/// table unless it is held back, where the peer offers IPv6 unicast.
pub proof fn opening_sends_the_tables(
    before: DaemonView,
    p: IpAddr,
    bgp_id: Ipv4Addr,
    kind: PeerType,
    hold_time: u16,
    caps: Seq<Capability>,
    local_addr: Option<IpAddr>,
    now: Instant,
    after: DaemonView,
    r: Opening,
)
    requires
        opening_outcome(before, p, bgp_id, kind, hold_time, caps, local_addr, now, after, r),
    ensures
        !can_be_told(before, p) ==> r.steps@.len() == 0,
        can_be_told(before, p) && before.export_policies_v6.contains_key(p) ==> {
            let first = if before.selection_deferral.v4_released {
                2int
            } else {
                0int
            };
            let v6 = before.selection_deferral.v6_released && caps.contains(
                Capability::MultiProtocol(AfiSafi { afi: 2, safi: 1 }),
            );
            &&& first <= r.steps@.len()
            &&& before.selection_deferral.v4_released ==> is_table_v4(after, p, r.steps@.take(2))
            &&& v6 ==> is_table_v6(after, p, r.steps@.skip(first))
            &&& !v6 ==> r.steps@.len() == first
        },
{
    if can_be_told(before, p) && before.export_policies_v6.contains_key(p) {
        let k = choose|k: int| 0 <= k <= r.steps@.len() && #[trigger] after.opens_at(p, r.steps@, k);
        no_route_no_table(after);
        if before.selection_deferral.v4_released {
            let a = r.steps@.take(k);
            assert(after.dumps_v4(p, a));
            table_is_whole_v4(after, p, a[0]->ExportV4_0@);
            assert(k == 2);
        }
        if before.selection_deferral.v6_released {
            let b = r.steps@.skip(k);
            assert(after.dumps_v6(p, b));
            if b.len() == 2 {
                table_is_whole_v6(after, p, b[0]->ExportV6_0@);
            }
        }
    }
}

/// What the peers are sent once a family is held back no longer: each peer with a session that can be
/// advertised to gets the whole table of the family.
pub proof fn catching_up_sends_the_tables(
    s: DaemonView,
    c: crate::session::CatchUp,
    v4: bool,
    v6: bool,
    p: IpAddr,
)
    requires
        s.catches_up(c, v4, v6),
    ensures
        c.v4@.contains_key(p) == (v4 && s.rib.peer_types.contains_key(p)),
        c.v6@.contains_key(p) == (v6 && s.rib.peer_types.contains_key(p)),
        c.v4@.contains_key(p) && can_be_told(s, p) && s.negotiated_max_len.contains_key(p)
            ==> is_table_v4(s, p, c.v4@[p]),
        c.v4@.contains_key(p) && !can_be_told(s, p) ==> c.v4@[p].len() == 0,
        c.v6@.contains_key(p) && s.update_senders.contains(p) && s.negotiated_max_len.contains_key(p)
            && s.ipv6_capable_peers.contains(p) && s.export_policies_v6.contains_key(p)
            && s.adj_ribs_out_v6.contains_key(p) ==> is_table_v6(s, p, c.v6@[p]),
        c.v6@.contains_key(p) && !s.ipv6_capable_peers.contains(p) ==> c.v6@[p].len() == 0,
        c.v4@.contains_key(p) && !s.negotiated_max_len.contains_key(p) ==> c.v4@[p].len() == 0,
        c.v6@.contains_key(p) && (!s.update_senders.contains(p) || !s.negotiated_max_len.contains_key(p))
            ==> c.v6@[p].len() == 0,
        c.v6@.contains_key(p) && (!s.export_policies_v6.contains_key(p)
            || !s.adj_ribs_out_v6.contains_key(p)) && (exists|n: Nlri<Ipv6Addr>| #[trigger]
            s.rib.loc_rib_v6.contains_key(n)) ==> c.v6@[p].len() == 0,
{
    no_route_no_table(s);
    assert(c.v4@.dom().contains(p) == c.v4@.contains_key(p));
    assert(c.v6@.dom().contains(p) == c.v6@.contains_key(p));
    if c.v4@.contains_key(p) {
        assert(s.dumps_v4(p, c.v4@[p]));
        if c.v4@[p].len() == 2 {
            table_is_whole_v4(s, p, c.v4@[p][0]->ExportV4_0@);
        }
    }
    if c.v6@.contains_key(p) {
        assert(s.dumps_v6(p, c.v6@[p]));
        if c.v6@[p].len() == 2 {
            table_is_whole_v6(s, p, c.v6@[p][0]->ExportV6_0@);
        }
    }
}

/// Whether states follow each other by UPDATEs of a peer that are no markers.
pub open spec fn heard(p: IpAddr, states: Seq<DaemonView>, msgs: Seq<UpdateView>) -> bool {
    &&& states.len() == msgs.len() + 1
    &&& forall|i: int|
        0 <= i < msgs.len() ==> {
            &&& !is_marker_v4(#[trigger] msgs[i])
            &&& !is_marker_v6(msgs[i])
            &&& is_processed(states[i], p, msgs[i])
            &&& exists|now: Instant, x: Option<NotificationMessage>, w: Option<WorkView>| #[trigger]
                update_outcome(states[i], p, msgs[i], now, states[i + 1], x, w)
        }
}

/// Over a session that began with a kind and an identifier, every IPv4 route that an UPDATE brings is
/// of that kind. Where the session is internal and there are clients, a route whose UPDATE names no
/// originator has the identifier as its originator.
pub proof fn routes_follow_the_session_v4(
    before: DaemonView,
    p: IpAddr,
    bgp_id: Ipv4Addr,
    kind: PeerType,
    hold_time: u16,
    caps: Seq<Capability>,
    local_addr: Option<IpAddr>,
    start: Instant,
    opened: DaemonView,
    r: Opening,
    s: DaemonView,
    msg: UpdateView,
    now: Instant,
    after: DaemonView,
    notification: Option<NotificationMessage>,
    work: Option<WorkView>,
    n: Nlri<Ipv4Addr>,
    k: int,
)
    requires
        opening_outcome(before, p, bgp_id, kind, hold_time, caps, local_addr, start, opened, r),
        s.rib.peer_types == opened.rib.peer_types,
        s.rib.peer_bgp_ids == opened.rib.peer_bgp_ids,
        update_outcome(s, p, msg, now, after, notification, work),
        is_processed(s, p, msg),
        brings_v4(
            msg,
            s.rib.local_as,
            crate::inbound_laws::session_address(s, p),
            n,
        ),
    ensures
        after.adj_ribs_in[p].contains_key(n),
        after.adj_ribs_in[p][n].peer_type == kind,
        kind == PeerType::Internal && has_clients(s) && (forall|i: int|
            0 <= i < msg.attributes.len() ==> !((#[trigger] msg.attributes[i]) is OriginatorId))
            ==> after.adj_ribs_in[p][n].attributes.originator_id == Some(bgp_id),
        work is Some,
        0 <= k < work->0.ops.len() ==> {
            work->0.ops[k] matches RibOp::Evaluate(x) ==> {
                &&& x.peer_type == kind
                &&& kind == PeerType::Internal && has_clients(s) && (forall|i: int|
                    0 <= i < msg.attributes.len() ==> !((
                    #[trigger] msg.attributes[i]) is OriginatorId)) ==> x.attributes.originator_id
                    == Some(bgp_id)
            }
        },
{
    processed_update_settles_v4(s, p, msg, now, after, notification, work, n);
    if 0 <= k < work->0.ops.len() {
        processed_update_asks_v4(s, p, msg, now, after, notification, work, k);
    }
}

/// What is still held after UPDATEs: what was held and is in none of them.
proof fn held_after_v4(p: IpAddr, states: Seq<DaemonView>, msgs: Seq<UpdateView>, n: Nlri<Ipv4Addr>)
    requires
        heard(p, states, msgs),
        states[0].gr.stale_nlri.contains_key(p),
        states[0].adj_ribs_in.contains_key(p),
    ensures
        states.last().gr.stale_nlri.contains_key(p),
        states.last().adj_ribs_in.contains_key(p),
        states.last().gr.stale_nlri[p].contains(n) <==> states[0].gr.stale_nlri[p].contains(n)
            && forall|i: int, nh: Option<NextHop>|
            0 <= i < msgs.len() ==> !(#[trigger] offers_v4(msgs[i], n, nh)),
    decreases msgs.len(),
{
    if msgs.len() > 0 {
        let a = states.drop_last();
        let b = msgs.drop_last();
        let l = msgs.len() - 1;
        assert(heard(p, a, b)) by {
            assert forall|i: int| 0 <= i < b.len() implies {
                &&& !is_marker_v4(#[trigger] b[i])
                &&& !is_marker_v6(b[i])
                &&& is_processed(a[i], p, b[i])
                &&& exists|now: Instant, x: Option<NotificationMessage>, w: Option<WorkView>|
                    #[trigger] update_outcome(a[i], p, b[i], now, a[i + 1], x, w)
            } by {
                assert(b[i] == msgs[i]);
                assert(a[i] == states[i]);
                assert(a[i + 1] == states[i + 1]);
                let (now, x, w) = choose|
                    now: Instant,
                    x: Option<NotificationMessage>,
                    w: Option<WorkView>,
                | #[trigger]
                    update_outcome(states[i], p, msgs[i], now, states[i + 1], x, w);
                assert(update_outcome(a[i], p, b[i], now, a[i + 1], x, w));
            }
        }
        held_after_v4(p, a, b, n);
        assert(a.last() == states[l]);
        assert(states.last() == states[l + 1]);
        let m = msgs[l];
        let (now, x, w) = choose|now: Instant, x: Option<NotificationMessage>, w: Option<WorkView>|
            #[trigger] update_outcome(states[l], p, m, now, states[l + 1], x, w);
        announced_prefixes_are_held_no_longer(
            states[l],
            p,
            m,
            now,
            states[l + 1],
            x,
            w,
            n,
            arbitrary(),
        );
        processed_update_settles_v4(states[l], p, m, now, states[l + 1], x, w, n);
        assert(states[l + 1].adj_ribs_in.dom().contains(p));
        assert(states[l + 1].gr.stale_nlri.dom().contains(p));
        if forall|i: int, nh: Option<NextHop>|
            0 <= i < msgs.len() ==> !(#[trigger] offers_v4(msgs[i], n, nh)) {
            assert forall|i: int, nh: Option<NextHop>| 0 <= i < b.len() implies !(
            #[trigger] offers_v4(b[i], n, nh)) by {
                assert(b[i] == msgs[i]);
            }
            assert forall|nh: Option<NextHop>| !(#[trigger] offers_v4(m, n, nh)) by {}
        } else {
            let (i, nh) = choose|i: int, nh: Option<NextHop>|
                0 <= i < msgs.len() && #[trigger] offers_v4(msgs[i], n, nh);
            if i < l {
                assert(b[i] == msgs[i]);
                assert(offers_v4(b[i], n, nh));
            }
        }
    }
}

/// A peer that comes back within its window has the marker take just the IPv4 routes that it did not
/// announce again: a prefix that it had and that none of its UPDATEs between its return and the marker
/// announces has no route after the marker, and one that some UPDATE announces keeps what it has.
pub proof fn return_and_marker_v4(
    before: DaemonView,
    p: IpAddr,
    bgp_id: Ipv4Addr,
    kind: PeerType,
    hold_time: u16,
    caps: Seq<Capability>,
    local_addr: Option<IpAddr>,
    start: Instant,
    r: Opening,
    states: Seq<DaemonView>,
    msgs: Seq<UpdateView>,
    end: UpdateView,
    now: Instant,
    after: DaemonView,
    notification: Option<NotificationMessage>,
    work: Option<WorkView>,
    n: Nlri<Ipv4Addr>,
)
    requires
        before.gr.deadlines.contains_key(p),
        restarts_family(before, p, 1, 1),
        before.adj_ribs_in.contains_key(p),
        before.adj_ribs_in[p].contains_key(n),
        heard(p, states, msgs),
        opening_outcome(
            before,
            p,
            bgp_id,
            kind,
            hold_time,
            caps,
            local_addr,
            start,
            states[0],
            r,
        ),
        is_marker_v4(end),
        update_outcome(states.last(), p, end, now, after, notification, work),
    ensures
        (forall|i: int, nh: Option<NextHop>|
            0 <= i < msgs.len() ==> !(#[trigger] offers_v4(msgs[i], n, nh))) ==> {
            &&& !after.adj_ribs_in[p].contains_key(n)
            &&& work is Some
            &&& work->0.ops.contains(RibOp::Withdraw(n))
        },
        (exists|i: int, nh: Option<NextHop>|
            0 <= i < msgs.len() && #[trigger] offers_v4(msgs[i], n, nh)) ==> {
            &&& after.adj_ribs_in[p].contains_key(n) == states.last().adj_ribs_in[p].contains_key(
                n,
            )
            &&& after.adj_ribs_in[p].contains_key(n) ==> after.adj_ribs_in[p][n]
                == states.last().adj_ribs_in[p][n]
            &&& work is Some ==> !work->0.ops.contains(RibOp::Withdraw(n))
        },
        !after.gr.stale_nlri.contains_key(p),
{
    returning_peer_is_held_to_its_routes(
        before,
        p,
        bgp_id,
        kind,
        hold_time,
        caps,
        local_addr,
        start,
        states[0],
        r,
        n,
        arbitrary(),
    );
    assert(states[0].adj_ribs_in.contains_key(p));
    held_after_v4(p, states, msgs, n);
    marker_v4_takes_what_is_held(
        states.last(),
        p,
        end,
        now,
        after,
        notification,
        work,
        n,
    );
}

/// Over a session that began with a kind and an identifier, every IPv6 route that an UPDATE brings is
/// of that kind. Where the session is internal and there are clients, a route whose UPDATE names no
/// originator has the identifier as its originator.
pub proof fn routes_follow_the_session_v6(
    before: DaemonView,
    p: IpAddr,
    bgp_id: Ipv4Addr,
    kind: PeerType,
    hold_time: u16,
    caps: Seq<Capability>,
    local_addr: Option<IpAddr>,
    start: Instant,
    opened: DaemonView,
    r: Opening,
    s: DaemonView,
    msg: UpdateView,
    now: Instant,
    after: DaemonView,
    notification: Option<NotificationMessage>,
    work: Option<WorkView>,
    n: Nlri<Ipv6Addr>,
    k: int,
)
    requires
        opening_outcome(before, p, bgp_id, kind, hold_time, caps, local_addr, start, opened, r),
        s.rib.peer_types == opened.rib.peer_types,
        s.rib.peer_bgp_ids == opened.rib.peer_bgp_ids,
        update_outcome(s, p, msg, now, after, notification, work),
        is_processed(s, p, msg),
        s.adj_ribs_in_v6.contains_key(p),
        brings_v6(
            msg,
            s.rib.local_as,
            s.rib.local_ipv6,
            n,
        ),
    ensures
        after.adj_ribs_in_v6[p].contains_key(n),
        after.adj_ribs_in_v6[p][n].peer_type == kind,
        kind == PeerType::Internal && has_clients(s) && (forall|i: int|
            0 <= i < msg.attributes.len() ==> !((#[trigger] msg.attributes[i]) is OriginatorId))
            ==> after.adj_ribs_in_v6[p][n].attributes.originator_id == Some(bgp_id),
        work is Some,
        0 <= k < work->0.ops_v6.len() ==> {
            work->0.ops_v6[k] matches RibOp::Evaluate(x) ==> {
                &&& x.peer_type == kind
                &&& kind == PeerType::Internal && has_clients(s) && (forall|i: int|
                    0 <= i < msg.attributes.len() ==> !((
                    #[trigger] msg.attributes[i]) is OriginatorId)) ==> x.attributes.originator_id
                    == Some(bgp_id)
            }
        },
{
    processed_update_settles_v6(s, p, msg, now, after, notification, work, n);
    if 0 <= k < work->0.ops_v6.len() {
        processed_update_asks_v6(s, p, msg, now, after, notification, work, k);
    }
}

/// What is still held after UPDATEs: what was held and is in none of them.
proof fn held_after_v6(p: IpAddr, states: Seq<DaemonView>, msgs: Seq<UpdateView>, n: Nlri<Ipv6Addr>)
    requires
        heard(p, states, msgs),
        states[0].gr.stale_nlri_v6.contains_key(p),
        states[0].adj_ribs_in_v6.contains_key(p),
    ensures
        states.last().gr.stale_nlri_v6.contains_key(p),
        states.last().adj_ribs_in_v6.contains_key(p),
        states.last().gr.stale_nlri_v6[p].contains(n) <==> states[0].gr.stale_nlri_v6[p].contains(n)
            && forall|i: int, nh: Option<NextHop>|
            0 <= i < msgs.len() ==> !(#[trigger] offers_v6(msgs[i], n, nh)),
    decreases msgs.len(),
{
    if msgs.len() > 0 {
        let a = states.drop_last();
        let b = msgs.drop_last();
        let l = msgs.len() - 1;
        assert(heard(p, a, b)) by {
            assert forall|i: int| 0 <= i < b.len() implies {
                &&& !is_marker_v4(#[trigger] b[i])
                &&& !is_marker_v6(b[i])
                &&& is_processed(a[i], p, b[i])
                &&& exists|now: Instant, x: Option<NotificationMessage>, w: Option<WorkView>|
                    #[trigger] update_outcome(a[i], p, b[i], now, a[i + 1], x, w)
            } by {
                assert(b[i] == msgs[i]);
                assert(a[i] == states[i]);
                assert(a[i + 1] == states[i + 1]);
                let (now, x, w) = choose|
                    now: Instant,
                    x: Option<NotificationMessage>,
                    w: Option<WorkView>,
                | #[trigger]
                    update_outcome(states[i], p, msgs[i], now, states[i + 1], x, w);
                assert(update_outcome(a[i], p, b[i], now, a[i + 1], x, w));
            }
        }
        held_after_v6(p, a, b, n);
        assert(a.last() == states[l]);
        assert(states.last() == states[l + 1]);
        let m = msgs[l];
        let (now, x, w) = choose|now: Instant, x: Option<NotificationMessage>, w: Option<WorkView>|
            #[trigger] update_outcome(states[l], p, m, now, states[l + 1], x, w);
        announced_prefixes_are_held_no_longer(
            states[l],
            p,
            m,
            now,
            states[l + 1],
            x,
            w,
            arbitrary(),
            n,
        );
        processed_update_settles_v6(states[l], p, m, now, states[l + 1], x, w, n);
        assert(states[l + 1].adj_ribs_in_v6.dom().contains(p));
        assert(states[l + 1].gr.stale_nlri_v6.dom().contains(p));
        if forall|i: int, nh: Option<NextHop>|
            0 <= i < msgs.len() ==> !(#[trigger] offers_v6(msgs[i], n, nh)) {
            assert forall|i: int, nh: Option<NextHop>| 0 <= i < b.len() implies !(
            #[trigger] offers_v6(b[i], n, nh)) by {
                assert(b[i] == msgs[i]);
            }
            assert forall|nh: Option<NextHop>| !(#[trigger] offers_v6(m, n, nh)) by {}
        } else {
            let (i, nh) = choose|i: int, nh: Option<NextHop>|
                0 <= i < msgs.len() && #[trigger] offers_v6(msgs[i], n, nh);
            if i < l {
                assert(b[i] == msgs[i]);
                assert(offers_v6(b[i], n, nh));
            }
        }
    }
}

/// A peer that comes back within its window has the marker take just the IPv6 routes that it did not
/// announce again: a prefix that it had and that none of its UPDATEs between its return and the marker
/// announces has no route after the marker, and one that some UPDATE announces keeps what it has.
pub proof fn return_and_marker_v6(
    before: DaemonView,
    p: IpAddr,
    bgp_id: Ipv4Addr,
    kind: PeerType,
    hold_time: u16,
    caps: Seq<Capability>,
    local_addr: Option<IpAddr>,
    start: Instant,
    r: Opening,
    states: Seq<DaemonView>,
    msgs: Seq<UpdateView>,
    end: UpdateView,
    now: Instant,
    after: DaemonView,
    notification: Option<NotificationMessage>,
    work: Option<WorkView>,
    n: Nlri<Ipv6Addr>,
)
    requires
        before.gr.deadlines.contains_key(p),
        restarts_family(before, p, 2, 1),
        before.adj_ribs_in_v6.contains_key(p),
        before.adj_ribs_in_v6[p].contains_key(n),
        heard(p, states, msgs),
        opening_outcome(
            before,
            p,
            bgp_id,
            kind,
            hold_time,
            caps,
            local_addr,
            start,
            states[0],
            r,
        ),
        is_marker_v6(end),
        update_outcome(states.last(), p, end, now, after, notification, work),
    ensures
        (forall|i: int, nh: Option<NextHop>|
            0 <= i < msgs.len() ==> !(#[trigger] offers_v6(msgs[i], n, nh))) ==> {
            &&& !after.adj_ribs_in_v6[p].contains_key(n)
            &&& work is Some
            &&& work->0.ops_v6.contains(RibOp::Withdraw(n))
        },
        (exists|i: int, nh: Option<NextHop>|
            0 <= i < msgs.len() && #[trigger] offers_v6(msgs[i], n, nh)) ==> {
            &&& after.adj_ribs_in_v6[p].contains_key(n) == states.last().adj_ribs_in_v6[p].contains_key(
                n,
            )
            &&& after.adj_ribs_in_v6[p].contains_key(n) ==> after.adj_ribs_in_v6[p][n]
                == states.last().adj_ribs_in_v6[p][n]
            &&& work is Some ==> !work->0.ops_v6.contains(RibOp::Withdraw(n))
        },
        !after.gr.stale_nlri_v6.contains_key(p),
{
    returning_peer_is_held_to_its_routes(
        before,
        p,
        bgp_id,
        kind,
        hold_time,
        caps,
        local_addr,
        start,
        states[0],
        r,
        arbitrary(),
        n,
    );
    assert(states[0].adj_ribs_in_v6.contains_key(p));
    held_after_v6(p, states, msgs, n);
    marker_v6_takes_what_is_held(
        states.last(),
        p,
        end,
        now,
        after,
        notification,
        work,
        n,
    );
}

/// What the end of a session takes off the record: all that belongs to the session. The state of peers
/// besides is untouched.
pub proof fn departure_ends_the_session(
    before: DaemonView,
    p: IpAddr,
    reason: TerminationReason,
    now: Instant,
    after: DaemonView,
    r: Departure,
)
    requires
        departure_outcome(before, p, reason, now, after, r),
    ensures
        after.rib.peer_types == before.rib.peer_types.remove(p),
        after.rib.established_at == before.rib.established_at.remove(p),
        after.rib.hold_times == before.rib.hold_times.remove(p),
        after.rib.prefixes_received == before.rib.prefixes_received.remove(p),
        after.rib.prefixes_advertised == before.rib.prefixes_advertised.remove(p),
        after.rib.local_addrs == before.rib.local_addrs.remove(p),
        after.rib.peer_bgp_ids == before.rib.peer_bgp_ids.remove(p),
        after.rib.eor_received == before.rib.eor_received.remove(p),
        after.rib.eor_received_v6 == before.rib.eor_received_v6.remove(p),
        after.rib.gr_capable_peers == before.rib.gr_capable_peers.remove(p),
        after.negotiated_max_len == before.negotiated_max_len.remove(p),
        after.ipv6_capable_peers == before.ipv6_capable_peers.remove(p),
        after.four_byte_peers == before.four_byte_peers.remove(p),
        after.route_refresh_peers == before.route_refresh_peers.remove(p),
        after.mrai_last_sent == before.mrai_last_sent.remove(p),
        after.mrai_pending == before.mrai_pending.remove(p),
        after.pending_decisions == before.pending_decisions.remove(p),
        after.pending_decisions_v6 == before.pending_decisions_v6.remove(p),
        !r.removed ==> after == (DaemonView {
            rib: RibView {
                peer_types: after.rib.peer_types,
                established_at: after.rib.established_at,
                hold_times: after.rib.hold_times,
                prefixes_received: after.rib.prefixes_received,
                prefixes_advertised: after.rib.prefixes_advertised,
                local_addrs: after.rib.local_addrs,
                peer_bgp_ids: after.rib.peer_bgp_ids,
                eor_received: after.rib.eor_received,
                eor_received_v6: after.rib.eor_received_v6,
                gr_capable_peers: after.rib.gr_capable_peers,
                ..before.rib
            },
            negotiated_max_len: after.negotiated_max_len,
            ipv6_capable_peers: after.ipv6_capable_peers,
            four_byte_peers: after.four_byte_peers,
            route_refresh_peers: after.route_refresh_peers,
            mrai_last_sent: after.mrai_last_sent,
            mrai_pending: after.mrai_pending,
            pending_decisions: after.pending_decisions,
            pending_decisions_v6: after.pending_decisions_v6,
            adj_ribs_in: after.adj_ribs_in,
            adj_ribs_in_v6: after.adj_ribs_in_v6,
            adj_ribs_out: after.adj_ribs_out,
            adj_ribs_out_v6: after.adj_ribs_out_v6,
            gr: GrView { deadlines: after.gr.deadlines, ..before.gr },
            ..before
        }),
        r.removed <==> before.pending_removal.contains(p) && before.adj_ribs_in.contains_key(p),
        r.work@.peer == p,
        r.work@.notify == !before.pending_removal.contains(p),
{
}

/// Whether the end of a session opens a window: the connection was lost, the peer offered a time to
/// restart in, and it is not about to be removed.
pub open spec fn leaves_window(before: DaemonView, p: IpAddr, reason: TerminationReason) -> bool {
    &&& reason is Unclean
    &&& before.rib.gr_capable_peers.contains_key(p)
    &&& before.rib.gr_capable_peers[p] > 0
    &&& !before.pending_removal.contains(p)
}

/// What becomes of the routes of a peer whose session ends. Within a window that lasts for the time that
/// the peer offered, those of the families that it restarts stay with the stale mark and all else as it
/// was; all others go, and without a window all go, with the tables of what was advertised.
pub proof fn departure_keeps_what_is_restarted(
    before: DaemonView,
    p: IpAddr,
    reason: TerminationReason,
    now: Instant,
    after: DaemonView,
    r: Departure,
    n: Nlri<Ipv4Addr>,
    k: Nlri<Ipv6Addr>,
    q: IpAddr,
)
    requires
        departure_outcome(before, p, reason, now, after, r),
    ensures
        leaves_window(before, p, reason) ==> {
            &&& after.gr.deadlines.contains_key(p)
            &&& after.gr.deadlines == before.gr.deadlines.insert(p, after.gr.deadlines[p])
            &&& now.nanos + before.rib.gr_capable_peers[p] * 1_000_000_000 <= u64::MAX
                ==> after.gr.deadlines[p].nanos == now.nanos + before.rib.gr_capable_peers[p]
                * 1_000_000_000
            &&& after.adj_ribs_out == before.adj_ribs_out
            &&& after.adj_ribs_out_v6 == before.adj_ribs_out_v6
        },
        !leaves_window(before, p, reason) && !r.removed ==> after.gr.deadlines == before.gr.deadlines,
        !r.removed && before.adj_ribs_in.contains_key(p) ==> {
            let kept = leaves_window(before, p, reason) && restarts_family(before, p, 1, 1)
                && before.adj_ribs_in[p].contains_key(n);
            &&& after.adj_ribs_in.contains_key(p)
            &&& after.adj_ribs_in[p].contains_key(n) <==> kept
            &&& kept ==> after.adj_ribs_in[p][n] == (Route { stale: true, ..before.adj_ribs_in[p][n] })
        },
        !r.removed && before.adj_ribs_in_v6.contains_key(p) ==> {
            let kept = leaves_window(before, p, reason) && restarts_family(before, p, 2, 1)
                && before.adj_ribs_in_v6[p].contains_key(k);
            &&& after.adj_ribs_in_v6.contains_key(p)
            &&& after.adj_ribs_in_v6[p].contains_key(k) <==> kept
            &&& kept ==> after.adj_ribs_in_v6[p][k] == (Route {
                stale: true,
                ..before.adj_ribs_in_v6[p][k]
            })
        },
        !leaves_window(before, p, reason) && !r.removed && before.adj_ribs_out.contains_key(p)
            && before.adj_ribs_out_v6.contains_key(p) ==> {
            &&& after.adj_ribs_out[p].advertised == 0
            &&& after.adj_ribs_out_v6[p].advertised == 0
            &&& before.peer_config_types.contains_key(p) ==> after.adj_ribs_out[p].peer_type
                == before.peer_config_types[p] && after.adj_ribs_out_v6[p].peer_type
                == before.peer_config_types[p]
            &&& after.adj_ribs_out[p].reflects == (has_clients(before) && after.adj_ribs_out[p].peer_type
                == PeerType::Internal)
            &&& after.adj_ribs_out_v6[p] == after.adj_ribs_out[p]
        },
        q != p ==> {
            &&& after.adj_ribs_in.contains_key(q) == before.adj_ribs_in.contains_key(q)
            &&& after.adj_ribs_in[q] == before.adj_ribs_in[q]
            &&& after.adj_ribs_in_v6.contains_key(q) == before.adj_ribs_in_v6.contains_key(q)
            &&& after.adj_ribs_in_v6[q] == before.adj_ribs_in_v6[q]
            &&& after.adj_ribs_out.contains_key(q) == before.adj_ribs_out.contains_key(q)
            &&& after.adj_ribs_out[q] == before.adj_ribs_out[q]
            &&& after.adj_ribs_out_v6.contains_key(q) == before.adj_ribs_out_v6.contains_key(q)
            &&& after.adj_ribs_out_v6[q] == before.adj_ribs_out_v6[q]
        },
{
    families_by_number(before, p);
    clients_make_a_reflector(before);
    let s = before.session_ended(p);
    assert(s.gr == before.gr);
    assert(s.restarts(p, AfiSafi::ipv4_unicast()) == before.restarts(p, AfiSafi::ipv4_unicast()));
    assert(s.restarts(p, AfiSafi::ipv6_unicast()) == before.restarts(p, AfiSafi::ipv6_unicast()));
    if leaves_window(before, p, reason) {
        assert(before.opens_window(p, reason));
    }
}

/// What the decision process is asked when a session ends, of IPv4 routes. Where they stay, each that
/// can be a candidate is judged again with the stale mark, once; where they go, all of the peer are
/// dropped. The other peers hear of every best route.
pub proof fn departure_asks_v4(
    before: DaemonView,
    p: IpAddr,
    reason: TerminationReason,
    now: Instant,
    after: DaemonView,
    r: Departure,
    n: Nlri<Ipv4Addr>,
)
    requires
        departure_outcome(before, p, reason, now, after, r),
    ensures
        ({
            let w = r.work@;
            let kept = leaves_window(before, p, reason) && restarts_family(before, p, 1, 1);
            let m = before.adj_ribs_in[p];
            let some = before.adj_ribs_in.contains_key(p) && exists|x: Nlri<Ipv4Addr>| #[trigger]
                m.contains_key(x);
            &&& !kept ==> {
                &&& w.ops.len() == 1 && w.ops[0] is WithdrawPeer
                &&& w.spread is Others && w.spread->Others_0 == w.watch
                &&& w.watch.contains(n) <==> before.rib.loc_rib.contains_key(n)
            }
            &&& kept && some ==> {
                &&& m.contains_key(n) && !m[n].attributes.is_blackhole() ==> w.ops.contains(
                    RibOp::Reevaluate(Route { stale: true, ..m[n] }),
                )
                &&& forall|i: int|
                    0 <= i < w.ops.len() ==> {
                        &&& (#[trigger] w.ops[i]) is Reevaluate
                        &&& w.ops[i]->Reevaluate_0.stale
                        &&& exists|x: Nlri<Ipv4Addr>| #[trigger]
                            m.contains_key(x) && !m[x].attributes.is_blackhole()
                                && w.ops[i]->Reevaluate_0 == (Route { stale: true, ..m[x] })
                    }
                &&& w.spread is Others && w.spread->Others_0 == w.watch
                &&& w.watch.contains(n) <==> before.rib.loc_rib.contains_key(n)
            }
            &&& kept && !some ==> {
                &&& w.ops.len() == 0
                &&& w.spread is Nobody && w.watch.len() == 0
            }
            &&& w.install && w.null_routes.len() == 0 && w.lifted.len() == 0
        }),
{
    families_by_number(before, p);
    let s = before.session_ended(p);
    assert(s.gr == before.gr);
    let w = r.work@;
    let m = before.adj_ribs_in[p];
    let kept = leaves_window(before, p, reason) && restarts_family(before, p, 1, 1);
    let some = before.adj_ribs_in.contains_key(p) && exists|x: Nlri<Ipv4Addr>| #[trigger]
        m.contains_key(x);
    assert(s.restarts(p, AfiSafi::ipv4_unicast()) == restarts_family(before, p, 1, 1));
    assert(w.watch.to_set().contains(n) == w.watch.contains(n));
    if !some && before.adj_ribs_in.contains_key(p) {
        assert(m =~= Map::<Nlri<Ipv4Addr>, Route<Ipv4Addr>>::empty());
    }
    if kept && some {
        let x = choose|x: Nlri<Ipv4Addr>| #[trigger] m.contains_key(x);
        assert(m.contains_key(x));
        assert(m != Map::<Nlri<Ipv4Addr>, Route<Ipv4Addr>>::empty());
        assert(before.opens_window(p, reason));
        let t = s.window_opened(p, now.after(before.rib.gr_capable_peers[p]));
        assert(t.adj_ribs_in.contains_key(p) && t.adj_ribs_in[p] == m);
        judged_with_mark(w.ops, m, n);
    }
}

/// What the decision process is asked when a session ends, of IPv6 routes. Where they stay, each that
/// can be a candidate is judged again with the stale mark, once; where they go, all of the peer are
/// dropped. The other peers hear of every best route.
pub proof fn departure_asks_v6(
    before: DaemonView,
    p: IpAddr,
    reason: TerminationReason,
    now: Instant,
    after: DaemonView,
    r: Departure,
    n: Nlri<Ipv6Addr>,
)
    requires
        departure_outcome(before, p, reason, now, after, r),
    ensures
        ({
            let w = r.work@;
            let kept = leaves_window(before, p, reason) && restarts_family(before, p, 2, 1);
            let m = before.adj_ribs_in_v6[p];
            let some = before.adj_ribs_in_v6.contains_key(p) && exists|x: Nlri<Ipv6Addr>| #[trigger]
                m.contains_key(x);
            &&& !kept ==> {
                &&& w.ops_v6.len() == 1 && w.ops_v6[0] is WithdrawPeer
                &&& w.spread_v6 is Others
                &&& w.spread_v6->Others_0.contains(n) <==> before.rib.loc_rib_v6.contains_key(n)
            }
            &&& kept && some ==> {
                &&& m.contains_key(n) && !m[n].attributes.is_blackhole() ==> w.ops_v6.contains(
                    RibOp::Reevaluate(Route { stale: true, ..m[n] }),
                )
                &&& forall|i: int|
                    0 <= i < w.ops_v6.len() ==> {
                        &&& (#[trigger] w.ops_v6[i]) is Reevaluate
                        &&& w.ops_v6[i]->Reevaluate_0.stale
                        &&& exists|x: Nlri<Ipv6Addr>| #[trigger]
                            m.contains_key(x) && !m[x].attributes.is_blackhole()
                                && w.ops_v6[i]->Reevaluate_0 == (Route { stale: true, ..m[x] })
                    }
                &&& w.spread_v6 is OthersAll
            }
            &&& kept && !some ==> {
                &&& w.ops_v6.len() == 0
                &&& w.spread_v6 is Nobody
            }
            &&& w.install_v6 && w.null_routes_v6.len() == 0 && w.lifted_v6.len() == 0
        }),
{
    families_by_number(before, p);
    let s = before.session_ended(p);
    assert(s.gr == before.gr);
    let w = r.work@;
    let m = before.adj_ribs_in_v6[p];
    let kept = leaves_window(before, p, reason) && restarts_family(before, p, 2, 1);
    let some = before.adj_ribs_in_v6.contains_key(p) && exists|x: Nlri<Ipv6Addr>| #[trigger]
        m.contains_key(x);
    assert(s.restarts(p, AfiSafi::ipv6_unicast()) == restarts_family(before, p, 2, 1));
    assert(w.spread_v6 is Others ==> w.spread_v6->Others_0.to_set().contains(n)
        == w.spread_v6->Others_0.contains(n));
    if !some && before.adj_ribs_in_v6.contains_key(p) {
        assert(m =~= Map::<Nlri<Ipv6Addr>, Route<Ipv6Addr>>::empty());
    }
    if kept && some {
        let x = choose|x: Nlri<Ipv6Addr>| #[trigger] m.contains_key(x);
        assert(m.contains_key(x));
        assert(m != Map::<Nlri<Ipv6Addr>, Route<Ipv6Addr>>::empty());
        assert(before.opens_window(p, reason));
        let t = s.window_opened(p, now.after(before.rib.gr_capable_peers[p]));
        assert(t.adj_ribs_in_v6.contains_key(p) && t.adj_ribs_in_v6[p] == m);
        judged_with_mark(w.ops_v6, m, n);
    }
}

/// Judging a table again with the stale mark.
proof fn judged_with_mark<A: crate::table::Key>(
    ops: Seq<RibOp<A>>,
    m: Map<Nlri<A>, Route<A>>,
    n: Nlri<A>,
)
    requires
        crate::restart::judges_stale(ops, m),
    ensures
        m.contains_key(n) && !m[n].attributes.is_blackhole() ==> ops.contains(
            RibOp::Reevaluate(Route { stale: true, ..m[n] }),
        ),
        forall|i: int|
            0 <= i < ops.len() ==> {
                &&& (#[trigger] ops[i]) is Reevaluate
                &&& ops[i]->Reevaluate_0.stale
                &&& exists|x: Nlri<A>| #[trigger]
                    m.contains_key(x) && !m[x].attributes.is_blackhole() && ops[i]->Reevaluate_0 == (
                    Route { stale: true, ..m[x] })
            },
{
    let l = crate::origination::reevaluated(ops);
    let e = crate::restart::eligible(m);
    assert forall|i: int| 0 <= i < ops.len() implies {
        &&& (#[trigger] ops[i]) is Reevaluate
        &&& ops[i]->Reevaluate_0.stale
        &&& exists|x: Nlri<A>| #[trigger]
            m.contains_key(x) && !m[x].attributes.is_blackhole() && ops[i]->Reevaluate_0 == (Route {
                stale: true,
                ..m[x]
            })
    } by {
        let x = ops[i]->Reevaluate_0.nlri;
        assert(l[i] == x);
        assert(l.to_set().contains(x));
        assert(e.contains(x));
        assert(m.contains_key(x));
    }
    if m.contains_key(n) && !m[n].attributes.is_blackhole() {
        assert(e.contains(n));
        assert(l.to_set().contains(n));
        let i = l.index_of(n);
        assert(ops[i]->Reevaluate_0.nlri == n);
        assert(ops[i] == RibOp::Reevaluate(m[n].spec_marked_stale()));
    }
}

} // verus!
