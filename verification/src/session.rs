//! The beginning and the end of sessions.
use vstd::prelude::*;

use crate::capabilities::{
    has_extended_message, has_family, has_four_byte, has_route_refresh, notification_bit,
    offered_families, offered_flags, offered_time, restart_bit, restart_offer, speaks_four_byte,
};
use crate::clock::Instant;
use crate::deferral::{evidence, Evidence};
use crate::gr::GrView;
use crate::message::{Capability, PeerType, MAX_LEN, MAX_LEN_EXTENDED};
use crate::net::{AfiSafi, IpAddr, Ipv4Addr, Ipv6Addr, Nlri};
use crate::propagation::Export;
use crate::restart::{teardown_work, window_work};
use crate::rib::{enumerates, lemma_take_contains, AdjRibIn, AdjRibOut, Best, RibOp};
use crate::route::Route;
use crate::state::{get_or, insert_some, set_member, DaemonState, DaemonView, RibView};
use crate::table::{copy_of, KeySet, Table};
use crate::work::{Spread, Work, WorkView};

verus! {

/// Why a session ended.
#[derive(Clone, Copy, Debug, PartialEq, Eq, Structural)]
pub enum TerminationReason {
    /// By agreement.
    Clean,
    /// The connection was lost.
    Unclean,
}

/// A step in sending a whole table to a peer. The steps for a peer are taken in order, up to the
/// first that the peer does not take.
pub enum DumpStep {
    /// Ask the export engine, and send what it decides.
    ExportV4(Export<Ipv4Addr>),
    /// Send the End-of-RIB marker for IPv4.
    EorV4,
    /// Ask the export engine, and send what it decides.
    ExportV6(Export<Ipv6Addr>),
    /// Send the End-of-RIB marker for IPv6.
    EorV6,
}

/// What the beginning of a session leaves to be done.
pub struct Opening {
    /// How the peer gets the initial table.
    pub steps: Vec<DumpStep>,
    /// Whether those who watch peers are told.
    pub notify: bool,
}

/// Tables that are sent to peers once advertisements are no longer held back.
pub struct CatchUp {
    pub v4: Table<IpAddr, Vec<DumpStep>>,
    pub v6: Table<IpAddr, Vec<DumpStep>>,
}

impl DaemonView {
    /// The prefixes with a best route that are not kept from a peer.
    pub open spec fn shown_set<A>(self, loc_rib: Map<Nlri<A>, Best<A>>, p: IpAddr) -> Set<Nlri<A>> {
        loc_rib.dom().filter(|n: Nlri<A>| !self.withheld(loc_rib, p, n))
    }

    /// Whether the IPv4 table can be sent to a peer.
    pub open spec fn can_dump_v4(self, p: IpAddr) -> bool {
        &&& self.rib.peer_types.contains_key(p)
        &&& self.negotiated_max_len.contains_key(p)
        &&& self.update_senders.contains(p)
        &&& self.export_policies.contains_key(p)
        &&& self.adj_ribs_out.contains_key(p)
    }

    /// Whether a peer that can be sent to takes IPv6 routes.
    pub open spec fn can_mark_v6(self, p: IpAddr) -> bool {
        &&& self.rib.peer_types.contains_key(p)
        &&& self.ipv6_capable_peers.contains(p)
        &&& self.negotiated_max_len.contains_key(p)
        &&& self.update_senders.contains(p)
    }

    /// Whether steps send the IPv4 table to a peer: every best route that is not kept from it, then
    /// the End-of-RIB marker.
    pub open spec fn dumps_v4(self, p: IpAddr, steps: Seq<DumpStep>) -> bool {
        if self.can_dump_v4(p) {
            &&& steps.len() == 2
            &&& steps[0] is ExportV4
            &&& enumerates(steps[0]->ExportV4_0@.nlris, self.shown_set(self.rib.loc_rib, p))
            &&& steps[0]->ExportV4_0@ == self.export_v4(p, steps[0]->ExportV4_0@.nlris, false)
            &&& steps[1] is EorV4
        } else {
            steps.len() == 0
        }
    }

    /// Whether steps send the IPv6 table to a peer that takes it: every best route that is not kept
    /// from it, then the End-of-RIB marker. With no route there is the marker alone.
    pub open spec fn dumps_v6(self, p: IpAddr, steps: Seq<DumpStep>) -> bool {
        if !self.can_mark_v6(p) {
            steps.len() == 0
        } else if self.rib.loc_rib_v6 == Map::<Nlri<Ipv6Addr>, Best<Ipv6Addr>>::empty() {
            steps.len() == 1 && steps[0] is EorV6
        } else if self.export_policies_v6.contains_key(p) && self.adj_ribs_out_v6.contains_key(p) {
            &&& steps.len() == 2
            &&& steps[0] is ExportV6
            &&& enumerates(steps[0]->ExportV6_0@.nlris, self.shown_set(self.rib.loc_rib_v6, p))
            &&& steps[0]->ExportV6_0@ == self.export_v6(p, steps[0]->ExportV6_0@.nlris, false)
            &&& steps[1] is EorV6
        } else {
            steps.len() == 0
        }
    }

    /// What is known of the peers when the gates of advertisement are looked at.
    pub open spec fn gate_evidence(self) -> Evidence {
        evidence(
            self.rib.peer_types,
            self.rib.gr_capable_peers,
            self.rib.gr_peer_restarting,
            self.ipv6_capable_peers,
            self.rib.eor_received,
            self.rib.eor_received_v6,
        )
    }

    /// The state once the gates of advertisement have been looked at.
    pub open spec fn gates_checked(self) -> Self {
        DaemonView {
            selection_deferral: self.selection_deferral.recomputed(
                self.rib.peer_remote_as.dom(),
                self.gate_evidence(),
            ),
            ..self
        }
    }

    /// Whether a catch-up sends the table of each released family to every peer with a session.
    pub open spec fn catches_up(self, c: CatchUp, v4: bool, v6: bool) -> bool {
        &&& c.v4@.dom() == (if v4 {
            self.rib.peer_types.dom()
        } else {
            Set::empty()
        })
        &&& c.v6@.dom() == (if v6 {
            self.rib.peer_types.dom()
        } else {
            Set::empty()
        })
        &&& forall|p: IpAddr| #[trigger] c.v4@.contains_key(p) ==> self.dumps_v4(p, c.v4@[p])
        &&& forall|p: IpAddr| #[trigger] c.v6@.contains_key(p) ==> self.dumps_v6(p, c.v6@[p])
    }

    /// The restart state once a peer is back: its window is closed, and the prefixes of the families
    /// that it restarts are held until it announces them again.
    pub open spec fn window_closed(self, p: IpAddr) -> GrView {
        let back = self.gr.deadlines.contains_key(p);
        let v4 = get_or(self.adj_ribs_in, p, Map::empty());
        let v6 = get_or(self.adj_ribs_in_v6, p, Map::empty());
        GrView {
            deadlines: self.gr.deadlines.remove(p),
            stale_nlri: if back && self.restarts(p, AfiSafi::ipv4_unicast()) && v4 != Map::<
                Nlri<Ipv4Addr>,
                Route<Ipv4Addr>,
            >::empty() {
                self.gr.stale_nlri.insert(p, v4.dom())
            } else {
                self.gr.stale_nlri
            },
            stale_nlri_v6: if back && self.restarts(p, AfiSafi::ipv6_unicast()) && v6 != Map::<
                Nlri<Ipv6Addr>,
                Route<Ipv6Addr>,
            >::empty() {
                self.gr.stale_nlri_v6.insert(p, v6.dom())
            } else {
                self.gr.stale_nlri_v6
            },
            ..self.gr
        }
    }

    /// The longest message that a peer takes: the extended length where both sides offer it.
    pub open spec fn agreed_len(self, caps: Seq<Capability>) -> usize {
        if caps.contains(Capability::ExtendedMessage) && self.config_capabilities.contains(
            Capability::ExtendedMessage,
        ) {
            MAX_LEN_EXTENDED
        } else {
            MAX_LEN
        }
    }

    /// The state once a session is on record, with clean tables for it.
    pub open spec fn greeted(
        self,
        p: IpAddr,
        bgp_id: Ipv4Addr,
        kind: PeerType,
        hold_time: u16,
        caps: Seq<Capability>,
        local_addr: Option<IpAddr>,
        now: Instant,
    ) -> Self {
        let holds_v6 = self.gr.deadlines.contains_key(p) && self.restarts(
            p,
            AfiSafi::ipv6_unicast(),
        );
        let fresh = AdjRibOut::fresh(kind, self.is_rr());
        DaemonView {
            rib: RibView {
                eor_received: self.rib.eor_received.remove(p),
                eor_received_v6: self.rib.eor_received_v6.remove(p),
                peer_types: self.rib.peer_types.insert(p, kind),
                peer_bgp_ids: self.rib.peer_bgp_ids.insert(p, bgp_id),
                established_at: self.rib.established_at.insert(p, now),
                hold_times: self.rib.hold_times.insert(p, hold_time),
                local_addrs: insert_some(self.rib.local_addrs, p, local_addr),
                ..self.rib
            },
            gr: self.window_closed(p),
            negotiated_max_len: self.negotiated_max_len.insert(p, self.agreed_len(caps)),
            adj_ribs_out: if self.adj_ribs_out.contains_key(p) {
                self.adj_ribs_out.insert(p, fresh)
            } else {
                self.adj_ribs_out
            },
            adj_ribs_in_v6: if holds_v6 {
                self.adj_ribs_in_v6
            } else {
                self.adj_ribs_in_v6.insert(p, Map::empty())
            },
            adj_ribs_out_v6: self.adj_ribs_out_v6.insert(p, fresh),
            ..self
        }
    }

    /// Whether a peer can be advertised to.
    pub open spec fn served(self, p: IpAddr) -> bool {
        &&& self.export_policies.contains_key(p)
        &&& self.adj_ribs_out.contains_key(p)
        &&& self.update_senders.contains(p)
    }

    /// The state once what a peer offers is on record.
    pub open spec fn negotiated(self, p: IpAddr, caps: Seq<Capability>) -> Self {
        let refresh = caps.contains(Capability::RouteRefresh) && self.config_capabilities.contains(
            Capability::RouteRefresh,
        );
        let takes_part = offered_time(caps) is Some;
        DaemonView {
            rib: RibView {
                gr_capable_peers: match offered_time(caps) {
                    Some(t) => self.rib.gr_capable_peers.insert(p, t),
                    None => self.rib.gr_capable_peers.remove(p),
                },
                gr_peer_restarting: set_member(
                    self.rib.gr_peer_restarting,
                    p,
                    restart_bit(offered_flags(caps)),
                ),
                ..self.rib
            },
            four_byte_peers: set_member(self.four_byte_peers, p, speaks_four_byte(caps)),
            route_refresh_peers: set_member(self.route_refresh_peers, p, refresh),
            ipv6_capable_peers: set_member(
                self.ipv6_capable_peers,
                p,
                caps.contains(Capability::MultiProtocol(AfiSafi::ipv6_unicast())),
            ),
            gr: GrView {
                peer_families: if takes_part {
                    self.gr.peer_families.insert(p, offered_families(caps))
                } else {
                    self.gr.peer_families.remove(p)
                },
                notification_capable_peers: set_member(
                    self.gr.notification_capable_peers,
                    p,
                    notification_bit(offered_flags(caps)),
                ),
                ..self.gr
            },
            ..self
        }
    }

    /// Whether steps send a peer its initial tables: of each family whose advertisements are not
    /// held back, IPv4 before IPv6.
    pub open spec fn opens(self, p: IpAddr, steps: Seq<DumpStep>) -> bool {
        exists|k: int|
            0 <= k <= steps.len() && #[trigger] self.opens_at(p, steps, k)
    }

    /// Whether the first `k` steps send the IPv4 table and the rest the IPv6 table.
    pub open spec fn opens_at(self, p: IpAddr, steps: Seq<DumpStep>, k: int) -> bool {
        &&& if self.selection_deferral.v4_released {
            self.dumps_v4(p, steps.take(k))
        } else {
            k == 0
        }
        &&& if self.selection_deferral.v6_released {
            self.dumps_v6(p, steps.skip(k))
        } else {
            k == steps.len()
        }
    }

    /// Whether the end of a session opens a restart window: the connection was lost, the peer offered
    /// a restart time, and it is not about to be removed.
    pub open spec fn opens_window(self, p: IpAddr, reason: TerminationReason) -> bool {
        &&& reason == TerminationReason::Unclean
        &&& self.rib.gr_capable_peers.contains_key(p)
        &&& self.rib.gr_capable_peers[p] > 0
        &&& !self.pending_removal.contains(p)
    }

    /// The state without what belongs to the session with a peer.
    pub open spec fn session_ended(self, p: IpAddr) -> Self {
        DaemonView {
            rib: RibView {
                peer_types: self.rib.peer_types.remove(p),
                established_at: self.rib.established_at.remove(p),
                hold_times: self.rib.hold_times.remove(p),
                prefixes_received: self.rib.prefixes_received.remove(p),
                prefixes_advertised: self.rib.prefixes_advertised.remove(p),
                local_addrs: self.rib.local_addrs.remove(p),
                peer_bgp_ids: self.rib.peer_bgp_ids.remove(p),
                eor_received: self.rib.eor_received.remove(p),
                eor_received_v6: self.rib.eor_received_v6.remove(p),
                gr_capable_peers: self.rib.gr_capable_peers.remove(p),
                ..self.rib
            },
            negotiated_max_len: self.negotiated_max_len.remove(p),
            ipv6_capable_peers: self.ipv6_capable_peers.remove(p),
            four_byte_peers: self.four_byte_peers.remove(p),
            route_refresh_peers: self.route_refresh_peers.remove(p),
            mrai_last_sent: self.mrai_last_sent.remove(p),
            mrai_pending: self.mrai_pending.remove(p),
            pending_decisions: self.pending_decisions.remove(p),
            pending_decisions_v6: self.pending_decisions_v6.remove(p),
            ..self
        }
    }

    /// The state with a restart window for a peer, in which only routes of the families that it
    /// restarts are kept.
    pub open spec fn window_opened(self, p: IpAddr, deadline: Instant) -> Self {
        DaemonView {
            gr: GrView { deadlines: self.gr.deadlines.insert(p, deadline), ..self.gr },
            ..self.received_cleared(
                p,
                !self.restarts(p, AfiSafi::ipv4_unicast()),
                !self.restarts(p, AfiSafi::ipv6_unicast()),
            )
        }
    }
}

/// What is shown of an enumeration enumerates what is shown.
proof fn shown_enumerates<A>(
    s: DaemonView,
    loc_rib: Map<Nlri<A>, Best<A>>,
    p: IpAddr,
    all: Seq<Nlri<A>>,
)
    requires
        all.no_duplicates(),
    ensures
        s.shown(loc_rib, p, all).no_duplicates(),
        forall|n: Nlri<A>| #[trigger]
            s.shown(loc_rib, p, all).contains(n) <==> all.contains(n) && !s.withheld(loc_rib, p, n),
    decreases all.len(),
{
    if all.len() > 0 {
        let t = all.drop_last();
        assert(t.no_duplicates());
        shown_enumerates(s, loc_rib, p, t);
        lemma_take_contains(all, all.len() as int);
        assert(all.take(all.len() as int) =~= all);
        assert(all.take(all.len() - 1) =~= t);
        assert(!t.contains(all.last())) by {
            if t.contains(all.last()) {
                let j = t.index_of(all.last());
                assert(all[j] == all[all.len() - 1]);
            }
        }
        let r = s.shown(loc_rib, p, all);
        let q = s.shown(loc_rib, p, t);
        assert(!q.contains(all.last()));
        if !s.withheld(loc_rib, p, all.last()) {
            assert(r == q.push(all.last()));
            assert(q.push(all.last()).no_duplicates());
        }
        assert forall|n: Nlri<A>| #[trigger] r.contains(n) <==> all.contains(n) && !s.withheld(
            loc_rib,
            p,
            n,
        ) by {
            assert(all.contains(n) <==> (t.contains(n) || n == all.last()));
            assert(q.contains(n) <==> t.contains(n) && !s.withheld(loc_rib, p, n));
            if !s.withheld(loc_rib, p, all.last()) {
                assert(r == q.push(all.last()));
                assert(r[r.len() - 1] == all.last());
                if q.contains(n) {
                    let j = q.index_of(n);
                    assert(r[j] == n);
                }
                if r.contains(n) && n != all.last() {
                    let j = r.index_of(n);
                    assert(q[j] == n);
                }
            }
        }
    } else {
        assert(s.shown(loc_rib, p, all) =~= Seq::<Nlri<A>>::empty());
    }
}

/// What a look at the gates of advertisement makes of a state, and what the peers are sent.
pub open spec fn checking_outcome(before: DaemonView, after: DaemonView, c: CatchUp) -> bool {
    &&& after == before.gates_checked()
    &&& after.catches_up(
        c,
        after.selection_deferral.v4_released && !before.selection_deferral.v4_released,
        after.selection_deferral.v6_released && !before.selection_deferral.v6_released,
    )
}

/// What the end of the wait makes of a state, and what the peers are sent.
pub open spec fn forcing_outcome(before: DaemonView, after: DaemonView, c: CatchUp) -> bool {
    &&& after == (DaemonView { selection_deferral: before.selection_deferral.released(), ..before })
    &&& after.catches_up(
        c,
        !before.selection_deferral.v4_released,
        !before.selection_deferral.v6_released,
    )
}

/// What the beginning of a session leads to. A peer that can be advertised to is sent what it is
/// owed, and those who watch peers are told; another is only put on record.
pub open spec fn opening_outcome(
    before: DaemonView,
    p: IpAddr,
    bgp_id: Ipv4Addr,
    kind: PeerType,
    hold_time: u16,
    caps: Seq<Capability>,
    local_addr: Option<IpAddr>,
    now: Instant,
    after: DaemonView,
    r: Opening,
) -> bool {
    let s = before.greeted(p, bgp_id, kind, hold_time, caps, local_addr, now);
    &&& r.notify == s.served(p)
    &&& if s.served(p) {
        &&& after == s.negotiated(p, caps)
        &&& after.opens(p, r.steps@)
    } else {
        after == s && r.steps@.len() == 0
    }
}

impl DaemonState {
    /// How the IPv4 table is sent to a peer; not at all, where something that it takes is missing.
    pub fn dump_family_v4(&self, peer_ip: IpAddr) -> (r: Vec<DumpStep>)
        ensures
            self@.dumps_v4(peer_ip, r@),
    {
        let mut r: Vec<DumpStep> = Vec::new();
        if !self.rib.peer_types.contains_key(&peer_ip) || !self.negotiated_max_len.contains_key(
            &peer_ip,
        ) || !self.update_senders.contains(&peer_ip) || !self.export_policies.contains_key(
            &peer_ip,
        ) || !self.adj_ribs_out.contains_key(&peer_ip) {
            return r;
        }
        let all = self.rib.loc_rib.best_nlris();
        let shown = self.shown_to(&self.rib.loc_rib, &peer_ip, &all);
        proof {
            shown_enumerates(self@, self@.rib.loc_rib, peer_ip, all@);
            assert forall|n: Nlri<Ipv4Addr>| all@.contains(n) == self@.rib.loc_rib.dom().contains(
                n,
            ) by {
                assert(all@.to_set().contains(n) == self@.rib.loc_rib.dom().contains(n));
            }
            assert(shown@.to_set() =~= self@.shown_set(self@.rib.loc_rib, peer_ip));
        }
        let e = self.make_export_v4(&peer_ip, shown, false);
        r.push(DumpStep::ExportV4(e));
        r.push(DumpStep::EorV4);
        r
    }

    /// How the IPv6 table is sent to a peer; not at all, where the peer does not take IPv6 routes or
    /// something that it takes is missing. An empty table is sent as the marker alone.
    pub fn dump_family_v6(&self, peer_ip: IpAddr) -> (r: Vec<DumpStep>)
        ensures
            self@.dumps_v6(peer_ip, r@),
    {
        let mut r: Vec<DumpStep> = Vec::new();
        if !self.rib.peer_types.contains_key(&peer_ip) || !self.ipv6_capable_peers.contains(
            &peer_ip,
        ) || !self.negotiated_max_len.contains_key(&peer_ip) || !self.update_senders.contains(
            &peer_ip,
        ) {
            return r;
        }
        let all = self.rib.loc_rib_v6.best_nlris();
        if all.len() == 0 {
            proof {
                assert forall|n: Nlri<Ipv6Addr>| !self@.rib.loc_rib_v6.contains_key(n) by {
                    assert(all@.to_set().contains(n) == self@.rib.loc_rib_v6.dom().contains(n));
                    assert(!all@.contains(n));
                }
                assert(self@.rib.loc_rib_v6 =~= Map::<Nlri<Ipv6Addr>, Best<Ipv6Addr>>::empty());
            }
            r.push(DumpStep::EorV6);
            return r;
        }
        proof {
            assert(all@.to_set().contains(all@[0]));
            assert(self@.rib.loc_rib_v6.contains_key(all@[0]));
        }
        if !self.export_policies_v6.contains_key(&peer_ip) || !self.adj_ribs_out_v6.contains_key(
            &peer_ip,
        ) {
            return r;
        }
        let shown = self.shown_to(&self.rib.loc_rib_v6, &peer_ip, &all);
        proof {
            shown_enumerates(self@, self@.rib.loc_rib_v6, peer_ip, all@);
            assert forall|n: Nlri<Ipv6Addr>| all@.contains(n)
                == self@.rib.loc_rib_v6.dom().contains(n) by {
                assert(all@.to_set().contains(n) == self@.rib.loc_rib_v6.dom().contains(n));
            }
            assert(shown@.to_set() =~= self@.shown_set(self@.rib.loc_rib_v6, peer_ip));
        }
        let e = self.make_export_v6(&peer_ip, shown, false);
        r.push(DumpStep::ExportV6(e));
        r.push(DumpStep::EorV6);
        r
    }

    /// The tables that every peer with a session is sent once families have been released.
    pub fn catch_up_released_families(&self, v4_released: bool, v6_released: bool) -> (r: CatchUp)
        ensures
            self@.catches_up(r, v4_released, v6_released),
    {
        let mut v4: Table<IpAddr, Vec<DumpStep>> = Table::new();
        let mut v6: Table<IpAddr, Vec<DumpStep>> = Table::new();
        let peers = self.rib.peer_types.keys();
        let mut i: usize = 0;
        while i < peers.len()
            invariant
                0 <= i <= peers.len(),
                enumerates(peers@, self@.rib.peer_types.dom()),
                forall|p: IpAddr|
                    #[trigger] v4@.contains_key(p) <==> v4_released && peers@.take(
                        i as int,
                    ).contains(p),
                forall|p: IpAddr|
                    #[trigger] v6@.contains_key(p) <==> v6_released && peers@.take(
                        i as int,
                    ).contains(p),
                forall|p: IpAddr| #[trigger] v4@.contains_key(p) ==> self@.dumps_v4(p, v4@[p]),
                forall|p: IpAddr| #[trigger] v6@.contains_key(p) ==> self@.dumps_v6(p, v6@[p]),
            decreases peers.len() - i,
        {
            let p = peers[i];
            if v4_released {
                v4.insert(p, self.dump_family_v4(p));
            }
            if v6_released {
                v6.insert(p, self.dump_family_v6(p));
            }
            i = i + 1;
            proof {
                lemma_take_contains(peers@, i as int);
            }
        }
        proof {
            assert(peers@.take(i as int) =~= peers@);
            assert forall|p: IpAddr| peers@.contains(p) == self@.rib.peer_types.dom().contains(
                p,
            ) by {
                assert(peers@.to_set().contains(p) == self@.rib.peer_types.dom().contains(p));
            }
            if v4_released {
                assert(v4@.dom() =~= self@.rib.peer_types.dom());
            } else {
                assert(v4@.dom() =~= Set::empty());
            }
            if v6_released {
                assert(v6@.dom() =~= self@.rib.peer_types.dom());
            } else {
                assert(v6@.dom() =~= Set::empty());
            }
        }
        CatchUp { v4, v6 }
    }

    /// Looks at the gates of advertisement after an event. Every peer with a session is sent the
    /// table of each family that is released just now.
    pub fn recompute_selection_deferral(&mut self) -> (r: CatchUp)
        ensures
            checking_outcome(old(self)@, final(self)@, r),
            final(self)@ == old(self)@.gates_checked(),
            final(self)@.catches_up(
                r,
                final(self)@.selection_deferral.v4_released
                    && !old(self)@.selection_deferral.v4_released,
                final(self)@.selection_deferral.v6_released
                    && !old(self)@.selection_deferral.v6_released,
            ),
    {
        let configured = self.rib.peer_remote_as.keys();
        let mut d = self.selection_deferral;
        let (v4, v6) = d.recompute(
            &configured,
            &self.rib.peer_types,
            &self.rib.gr_capable_peers,
            &self.rib.gr_peer_restarting,
            &self.ipv6_capable_peers,
            &self.rib.eor_received,
            &self.rib.eor_received_v6,
        );
        self.selection_deferral = d;
        self.catch_up_released_families(v4, v6)
    }

    /// The timer has expired: both families are released, and every peer with a session is sent the
    /// table of each that was held back.
    pub fn force_release_selection_deferral(&mut self) -> (r: CatchUp)
        ensures
            forcing_outcome(old(self)@, final(self)@, r),
            final(self)@ == (DaemonView {
                selection_deferral: old(self)@.selection_deferral.released(),
                ..old(self)@
            }),
            final(self)@.catches_up(
                r,
                !old(self)@.selection_deferral.v4_released,
                !old(self)@.selection_deferral.v6_released,
            ),
    {
        let mut d = self.selection_deferral;
        let (v4, v6) = d.force_release();
        self.selection_deferral = d;
        self.catch_up_released_families(v4, v6)
    }

    /// Closes the restart window of a peer that is back.
    fn close_window(&mut self, peer_ip: IpAddr) -> (holds_v6: bool)
        ensures
            final(self)@ == (DaemonView { gr: old(self)@.window_closed(peer_ip), ..old(self)@ }),
            holds_v6 == (old(self)@.gr.deadlines.contains_key(peer_ip) && old(self)@.restarts(
                peer_ip,
                AfiSafi::ipv6_unicast(),
            )),
    {
        let back = self.gr.deadlines.remove(&peer_ip).is_some();
        let gr_v4 = back && self.restarts_family(&peer_ip, AfiSafi::ipv4_unicast());
        let gr_v6 = back && self.restarts_family(&peer_ip, AfiSafi::ipv6_unicast());
        if gr_v4 {
            let held: Option<KeySet<Nlri<Ipv4Addr>>> = match self.adj_ribs_in.get(&peer_ip) {
                Some(t) => if t.is_empty() {
                    None
                } else {
                    Some(t.nlri_set())
                },
                None => None,
            };
            if let Some(s) = held {
                self.gr.stale_nlri.insert(peer_ip, s);
            }
        }
        if gr_v6 {
            let held: Option<KeySet<Nlri<Ipv6Addr>>> = match self.adj_ribs_in_v6.get(&peer_ip) {
                Some(t) => if t.is_empty() {
                    None
                } else {
                    Some(t.nlri_set())
                },
                None => None,
            };
            if let Some(s) = held {
                self.gr.stale_nlri_v6.insert(peer_ip, s);
            }
        }
        gr_v6
    }

    /// Records what a peer offers.
    fn negotiate(&mut self, peer_ip: IpAddr, caps: &Vec<Capability>)
        ensures
            final(self)@ == old(self)@.negotiated(peer_ip, caps@),
    {
        if has_four_byte(caps) {
            let _ = self.four_byte_peers.insert(peer_ip);
        } else {
            let _ = self.four_byte_peers.remove(&peer_ip);
        }
        if has_route_refresh(caps) && has_route_refresh(&self.config_capabilities) {
            let _ = self.route_refresh_peers.insert(peer_ip);
        } else {
            let _ = self.route_refresh_peers.remove(&peer_ip);
        }
        if has_family(caps, AfiSafi::ipv6_unicast()) {
            let _ = self.ipv6_capable_peers.insert(peer_ip);
        } else {
            let _ = self.ipv6_capable_peers.remove(&peer_ip);
        }
        let mut restarting = false;
        let mut notification = false;
        match restart_offer(caps) {
            Some(o) => {
                restarting = o.restart_flags / 8 % 2 == 1;
                notification = o.restart_flags / 4 % 2 == 1;
                self.rib.gr_capable_peers.insert(peer_ip, o.restart_time);
                self.gr.peer_families.insert(peer_ip, o.families);
            },
            None => {
                let _ = self.rib.gr_capable_peers.remove(&peer_ip);
                let _ = self.gr.peer_families.remove(&peer_ip);
            },
        }
        if restarting {
            let _ = self.rib.gr_peer_restarting.insert(peer_ip);
        } else {
            let _ = self.rib.gr_peer_restarting.remove(&peer_ip);
        }
        if notification {
            let _ = self.gr.notification_capable_peers.insert(peer_ip);
        } else {
            let _ = self.gr.notification_capable_peers.remove(&peer_ip);
        }
    }

    /// A session with a peer has begun.
    ///
    /// The session is put on record, and the peer is sent the whole table of each family whose
    /// advertisements are not held back. A peer that was expected back after a restart keeps the
    /// routes of the families that it restarts until it announces them again. A peer that cannot be
    /// advertised to is left at that.
    pub fn on_established(
        &mut self,
        peer_ip: IpAddr,
        peer_bgp_id: Ipv4Addr,
        peer_type: PeerType,
        hold_time: u16,
        peer_capabilities: &Vec<Capability>,
        local_addr: Option<IpAddr>,
        now: Instant,
    ) -> (r: Opening)
        ensures
            opening_outcome(
                old(self)@,
                peer_ip,
                peer_bgp_id,
                peer_type,
                hold_time,
                peer_capabilities@,
                local_addr,
                now,
                final(self)@,
                r,
            ),
    {
        let ghost before = self@;
        let holds_v6 = self.close_window(peer_ip);
        let _ = self.rib.eor_received.remove(&peer_ip);
        let _ = self.rib.eor_received_v6.remove(&peer_ip);
        self.rib.peer_types.insert(peer_ip, peer_type);
        self.rib.peer_bgp_ids.insert(peer_ip, peer_bgp_id);
        self.rib.established_at.insert(peer_ip, now);
        self.rib.hold_times.insert(peer_ip, hold_time);
        if let Some(a) = local_addr {
            self.rib.local_addrs.insert(peer_ip, a);
        }
        let max_len: usize = if has_extended_message(peer_capabilities) && has_extended_message(
            &self.config_capabilities,
        ) {
            MAX_LEN_EXTENDED
        } else {
            MAX_LEN
        };
        self.negotiated_max_len.insert(peer_ip, max_len);
        let fresh = AdjRibOut::fresh(peer_type, !self.rib.rr_clients.is_empty());
        if self.adj_ribs_out.contains_key(&peer_ip) {
            self.adj_ribs_out.insert(peer_ip, fresh);
        }
        if !holds_v6 {
            self.adj_ribs_in_v6.insert(peer_ip, AdjRibIn::new());
        }
        self.adj_ribs_out_v6.insert(peer_ip, fresh);
        assert(self@ =~= before.greeted(
            peer_ip,
            peer_bgp_id,
            peer_type,
            hold_time,
            peer_capabilities@,
            local_addr,
            now,
        ));
        let mut steps: Vec<DumpStep> = Vec::new();
        if !self.export_policies.contains_key(&peer_ip) || !self.adj_ribs_out.contains_key(
            &peer_ip,
        ) || !self.update_senders.contains(&peer_ip) {
            return Opening { steps, notify: false };
        }
        self.negotiate(peer_ip, peer_capabilities);
        if !self.selection_deferral.v4_deferred() {
            steps = self.dump_family_v4(peer_ip);
        }
        let ghost first = steps@;
        if !self.selection_deferral.v6_deferred() {
            let mut more = self.dump_family_v6(peer_ip);
            let ghost second = more@;
            steps.append(&mut more);
            assert(steps@.skip(first.len() as int) =~= second);
        } else {
            assert(steps@ =~= first);
        }
        proof {
            assert(steps@.take(first.len() as int) =~= first);
            assert(self@.opens_at(peer_ip, steps@, first.len() as int));
        }
        Opening { steps, notify: true }
    }

    /// A session with a peer has ended.
    ///
    /// Where the connection was lost and the peer offered to restart gracefully, its routes of the
    /// families that it restarts are kept with the stale mark until its restart time is over, and those
    /// of other families go. Else all its routes go, and the other peers
    /// hear of every best route that changes with them.
    pub fn on_terminated(
        &mut self,
        peer_ip: IpAddr,
        reason: TerminationReason,
        notify: bool,
        now: Instant,
    ) -> (r: Work)
        requires
            old(self)@.opens_window(peer_ip, reason) ==> now.has_room(
                old(self)@.rib.gr_capable_peers[peer_ip],
            ),
        ensures
            ({
                let s = old(self)@.session_ended(peer_ip);
                if old(self)@.opens_window(peer_ip, reason) {
                    let v4 = s.restarts(peer_ip, AfiSafi::ipv4_unicast());
                    let v6 = s.restarts(peer_ip, AfiSafi::ipv6_unicast());
                    let t = s.window_opened(
                        peer_ip,
                        now.after(old(self)@.rib.gr_capable_peers[peer_ip]),
                    );
                    &&& final(self)@ == t.stale_marked(peer_ip, v4, v6)
                    &&& window_work((WorkView { notify: false, ..r@ }), t, peer_ip, v4, v6)
                    &&& r@.notify == notify
                } else {
                    &&& final(self)@ == s.received_cleared(peer_ip, true, true).advertised_reset(
                        peer_ip,
                    )
                    &&& teardown_work(r@, old(self)@, peer_ip, notify)
                }
            }),
    {
        let ghost before = self@;
        let restart_time: u16 = match self.rib.gr_capable_peers.get(&peer_ip) {
            Some(t) => *t,
            None => 0,
        };
        let enter_gr = reason == TerminationReason::Unclean && restart_time > 0
            && !self.pending_removal.contains(&peer_ip);
        self.end_session(peer_ip);
        if enter_gr {
            let gr_v4 = self.restarts_family(&peer_ip, AfiSafi::ipv4_unicast());
            let gr_v6 = self.restarts_family(&peer_ip, AfiSafi::ipv6_unicast());
            self.clear_received(peer_ip, !gr_v4, !gr_v6);
            let deadline = now.after(restart_time);
            self.gr.deadlines.insert(peer_ip, deadline);
            assert(self@ =~= before.session_ended(peer_ip).window_opened(peer_ip, deadline));
            let ghost opened = self@;
            let mut w = self.mark_stale_and_repropagate(peer_ip, gr_v4, gr_v6);
            let ghost marks = w@;
            if !gr_v4 {
                w.ops.push(RibOp::WithdrawPeer);
                w.watch = self.rib.loc_rib.best_nlris();
                w.spread = Spread::Others(copy_of(&w.watch));
                assert(w@.ops =~= seq![RibOp::<Ipv4Addr>::WithdrawPeer]);
            }
            if !gr_v6 {
                w.ops_v6.push(RibOp::WithdrawPeer);
                w.spread_v6 = Spread::Others(self.rib.loc_rib_v6.best_nlris());
                assert(w@.ops_v6 =~= seq![RibOp::<Ipv6Addr>::WithdrawPeer]);
            }
            w.notify = notify;
            proof {
                let plain = WorkView { notify: false, ..w@ };
                let kept = WorkView {
                    ops: marks.ops,
                    watch: marks.watch,
                    spread: marks.spread,
                    ops_v6: marks.ops_v6,
                    spread_v6: marks.spread_v6,
                    ..plain
                };
                assert(kept =~= marks);
                assert(window_work(plain, opened, peer_ip, gr_v4, gr_v6));
            }
            return w;
        }
        self.clear_received(peer_ip, true, true);
        self.reset_advertised(peer_ip);
        self.teardown(peer_ip, notify)
    }

    /// Drops what belongs to the session with a peer.
    fn end_session(&mut self, peer_ip: IpAddr)
        ensures
            final(self)@ == old(self)@.session_ended(peer_ip),
    {
        let _ = self.rib.peer_types.remove(&peer_ip);
        let _ = self.rib.established_at.remove(&peer_ip);
        let _ = self.rib.hold_times.remove(&peer_ip);
        let _ = self.rib.prefixes_received.remove(&peer_ip);
        let _ = self.rib.prefixes_advertised.remove(&peer_ip);
        let _ = self.rib.local_addrs.remove(&peer_ip);
        let _ = self.rib.peer_bgp_ids.remove(&peer_ip);
        let _ = self.rib.eor_received.remove(&peer_ip);
        let _ = self.rib.eor_received_v6.remove(&peer_ip);
        let _ = self.negotiated_max_len.remove(&peer_ip);
        let _ = self.ipv6_capable_peers.remove(&peer_ip);
        let _ = self.four_byte_peers.remove(&peer_ip);
        let _ = self.route_refresh_peers.remove(&peer_ip);
        let _ = self.rib.gr_capable_peers.remove(&peer_ip);
        let _ = self.mrai_last_sent.remove(&peer_ip);
        let _ = self.mrai_pending.remove(&peer_ip);
        let _ = self.pending_decisions.remove(&peer_ip);
        let _ = self.pending_decisions_v6.remove(&peer_ip);
    }
}

} // verus!
