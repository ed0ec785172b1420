//! Advertising best routes to peers.
//!
//! What a peer is told of a prefix is decided by the export engine, which knows the export policy
//! and what the peer has been told before. The daemon says which prefixes the engine is to look at
//! for which peer ([`Export`]), and takes its decisions back. Decisions are then either sent at
//! once, or collected and sent together.
use vstd::prelude::*;

use crate::message::{PeerType, MAX_LEN};
use crate::net::{v4_part, IpAddr, Ipv4Addr, Ipv6Addr, Nlri};
use crate::rib::{enumerates, lemma_take_contains, Best, LocRib};
use crate::route::Route;
use crate::state::{get_or, DaemonState, DaemonView};
use crate::table::{Key, Table};

verus! {

/// The shortest time between two announcements of a prefix to an external peer, in nanoseconds.
pub const MRAI: u64 = 30_000_000_000;

/// How messages to a peer are put on the wire.
#[derive(Clone, Copy, Debug, PartialEq, Eq, Structural)]
pub struct Frame {
    pub peer_type: PeerType,
    /// The longest message that the peer takes.
    pub max_len: usize,
    /// Whether the peer takes autonomous system numbers of four octets.
    pub four_byte: bool,
}

/// Prefixes of which the export engine is to decide what one peer is told.
pub struct Export<A> {
    pub nlris: Vec<Nlri<A>>,
    pub frame: Frame,
    pub local_as: u32,
    /// The next hop of the local speaker, where it has one of the family.
    pub next_hop: Option<A>,
    pub next_hop_self: bool,
    /// Whether announcements are held back.
    pub deferred: bool,
}

/// The contents of an [`Export`].
pub ghost struct ExportView<A> {
    pub nlris: Seq<Nlri<A>>,
    pub frame: Frame,
    pub local_as: u32,
    pub next_hop: Option<A>,
    pub next_hop_self: bool,
    pub deferred: bool,
}

impl<A> View for Export<A> {
    type V = ExportView<A>;

    open spec fn view(&self) -> ExportView<A> {
        ExportView {
            nlris: self.nlris@,
            frame: self.frame,
            local_as: self.local_as,
            next_hop: self.next_hop,
            next_hop_self: self.next_hop_self,
            deferred: self.deferred,
        }
    }
}

/// Who is told of a change.
#[derive(Clone, Copy, Debug, PartialEq, Eq, Structural)]
pub enum Audience {
    /// Every peer with a session; decisions are collected.
    Everyone,
    /// Every peer with a session but one; decisions are sent at once.
    Others(IpAddr),
}

/// A change of a best route, for those who watch routes.
#[derive(Debug, PartialEq, Eq)]
pub enum RouteEvent<A> {
    Announced { peer: IpAddr, nlri: Nlri<A>, route: Route<A> },
    Withdrawn(Nlri<A>),
}

/// The event for a prefix, given the best routes.
pub open spec fn event_of<A>(loc_rib: Map<Nlri<A>, Best<A>>, n: Nlri<A>) -> RouteEvent<A> {
    if loc_rib.contains_key(n) {
        RouteEvent::Announced { peer: loc_rib[n].peer, nlri: n, route: loc_rib[n].route }
    } else {
        RouteEvent::Withdrawn(n)
    }
}

/// The events for prefixes, given the best routes.
pub open spec fn events_of<A>(loc_rib: Map<Nlri<A>, Best<A>>, s: Seq<Nlri<A>>) -> Seq<
    RouteEvent<A>,
> {
    s.map_values(|n: Nlri<A>| event_of(loc_rib, n))
}

impl DaemonView {
    /// How messages to a peer are put on the wire.
    pub open spec fn frame_of(self, p: IpAddr) -> Frame {
        Frame {
            peer_type: get_or(self.rib.peer_types, p, PeerType::External),
            max_len: get_or(self.negotiated_max_len, p, MAX_LEN),
            four_byte: self.four_byte_peers.contains(p),
        }
    }

    /// The IPv4 next hop of the local speaker towards a peer: the local address of the session, for
    /// which the identifier of the speaker stands in.
    pub open spec fn next_hop_towards(self, p: IpAddr) -> Ipv4Addr {
        if self.rib.local_addrs.contains_key(p) {
            match v4_part(self.rib.local_addrs[p]) {
                Some(a) => a,
                None => self.rib.local_bgp_id,
            }
        } else {
            self.rib.local_bgp_id
        }
    }

    /// Whether a reflector keeps the best route for a prefix from a peer: route and peer
    /// are both internal, and neither belongs to a client.
    pub open spec fn withheld<A>(
        self,
        loc_rib: Map<Nlri<A>, Best<A>>,
        dest: IpAddr,
        n: Nlri<A>,
    ) -> bool {
        &&& self.is_rr()
        &&& get_or(self.rib.peer_types, dest, PeerType::External) == PeerType::Internal
        &&& loc_rib.contains_key(n)
        &&& get_or(self.rib.peer_types, loc_rib[n].peer, PeerType::External) == PeerType::Internal
        &&& !self.rib.rr_clients.contains(loc_rib[n].peer)
        &&& !self.rib.rr_clients.contains(dest)
    }

    /// The prefixes in a list that are not kept from a peer, in order.
    pub open spec fn shown<A>(
        self,
        loc_rib: Map<Nlri<A>, Best<A>>,
        dest: IpAddr,
        s: Seq<Nlri<A>>,
    ) -> Seq<Nlri<A>>
        decreases s.len(),
    {
        if s.len() == 0 {
            Seq::empty()
        } else if self.withheld(loc_rib, dest, s.last()) {
            self.shown(loc_rib, dest, s.drop_last())
        } else {
            self.shown(loc_rib, dest, s.drop_last()).push(s.last())
        }
    }

    /// What the export engine is asked of IPv4 prefixes for a peer.
    pub open spec fn export_v4(self, p: IpAddr, nlris: Seq<Nlri<Ipv4Addr>>, deferred: bool)
        -> ExportView<Ipv4Addr> {
        ExportView {
            nlris,
            frame: self.frame_of(p),
            local_as: self.rib.local_as,
            next_hop: Some(self.next_hop_towards(p)),
            next_hop_self: self.rib.next_hop_self_peers.contains(p),
            deferred,
        }
    }

    /// What the export engine is asked of IPv6 prefixes for a peer.
    pub open spec fn export_v6(self, p: IpAddr, nlris: Seq<Nlri<Ipv6Addr>>, deferred: bool)
        -> ExportView<Ipv6Addr> {
        ExportView {
            nlris,
            frame: self.frame_of(p),
            local_as: self.rib.local_as,
            next_hop: self.rib.local_ipv6,
            next_hop_self: self.rib.next_hop_self_peers.contains(p),
            deferred,
        }
    }

    /// Whether a peer belongs to an audience, as far as its session goes.
    pub open spec fn attends(self, p: IpAddr, audience: Audience) -> bool {
        &&& self.rib.peer_types.contains_key(p)
        &&& match audience {
            Audience::Everyone => true,
            Audience::Others(x) => p != x && self.update_senders.contains(p),
        }
    }

    /// Whether a peer is told of IPv4 prefixes.
    pub open spec fn listens_v4(self, p: IpAddr, audience: Audience) -> bool {
        &&& self.attends(p, audience)
        &&& self.export_policies.contains_key(p)
        &&& self.adj_ribs_out.contains_key(p)
    }

    /// Whether a peer is told of IPv6 prefixes.
    pub open spec fn listens_v6(self, p: IpAddr, audience: Audience) -> bool {
        &&& self.attends(p, audience)
        &&& self.ipv6_capable_peers.contains(p)
        &&& self.export_policies_v6.contains_key(p)
        &&& self.adj_ribs_out_v6.contains_key(p)
    }

    /// What the export engine is asked of IPv4 prefixes. Where decisions are collected, a reflector
    /// leaves out what it keeps from the peer.
    pub open spec fn exports_v4(self, nlris: Seq<Nlri<Ipv4Addr>>, audience: Audience) -> Map<
        IpAddr,
        ExportView<Ipv4Addr>,
    > {
        Map::new(
            |p: IpAddr| self.listens_v4(p, audience),
            |p: IpAddr|
                self.export_v4(
                    p,
                    if audience is Everyone {
                        self.shown(self.rib.loc_rib, p, nlris)
                    } else {
                        nlris
                    },
                    !self.selection_deferral.v4_released,
                ),
        )
    }

    /// What the export engine is asked of IPv6 prefixes. Where decisions are collected, a reflector
    /// leaves out what it keeps from the peer.
    pub open spec fn exports_v6(self, nlris: Seq<Nlri<Ipv6Addr>>, audience: Audience) -> Map<
        IpAddr,
        ExportView<Ipv6Addr>,
    > {
        Map::new(
            |p: IpAddr| self.listens_v6(p, audience),
            |p: IpAddr|
                self.export_v6(
                    p,
                    if audience is Everyone {
                        self.shown(self.rib.loc_rib_v6, p, nlris)
                    } else {
                        nlris
                    },
                    !self.selection_deferral.v6_released,
                ),
        )
    }
}

impl DaemonState {
    /// How messages to a peer are put on the wire.
    pub fn frame(&self, p: &IpAddr) -> (r: Frame)
        ensures
            r == self@.frame_of(*p),
    {
        Frame {
            peer_type: match self.rib.peer_types.get(p) {
                Some(t) => *t,
                None => PeerType::External,
            },
            max_len: match self.negotiated_max_len.get(p) {
                Some(n) => *n,
                None => MAX_LEN,
            },
            four_byte: self.four_byte_peers.contains(p),
        }
    }

    /// The IPv4 next hop of the local speaker towards a peer.
    pub fn local_next_hop(&self, p: &IpAddr) -> (r: Ipv4Addr)
        ensures
            r == self@.next_hop_towards(*p),
    {
        match self.rib.local_addrs.get(p) {
            Some(IpAddr::V4(a)) => *a,
            Some(IpAddr::V6(_)) => self.rib.local_bgp_id,
            None => self.rib.local_bgp_id,
        }
    }

    /// Whether a peer is internal and has a session.
    fn is_internal(&self, p: &IpAddr) -> (r: bool)
        ensures
            r == (get_or(self@.rib.peer_types, *p, PeerType::External) == PeerType::Internal),
    {
        match self.rib.peer_types.get(p) {
            Some(t) => *t == PeerType::Internal,
            None => false,
        }
    }

    /// The prefixes in a list that a reflector does not keep from a peer.
    pub fn shown_to<A: Key>(&self, loc_rib: &LocRib<A>, dest: &IpAddr, nlris: &Vec<Nlri<A>>) -> (r:
        Vec<Nlri<A>>)
        ensures
            r@ == self@.shown(loc_rib@, *dest, nlris@),
    {
        let guarded = !self.rib.rr_clients.is_empty() && self.is_internal(dest)
            && !self.rib.rr_clients.contains(dest);
        let mut r: Vec<Nlri<A>> = Vec::new();
        let mut i: usize = 0;
        while i < nlris.len()
            invariant
                0 <= i <= nlris.len(),
                guarded == (self@.is_rr() && get_or(
                    self@.rib.peer_types,
                    *dest,
                    PeerType::External,
                ) == PeerType::Internal && !self@.rib.rr_clients.contains(*dest)),
                r@ == self@.shown(loc_rib@, *dest, nlris@.take(i as int)),
            decreases nlris.len() - i,
        {
            let n = nlris[i];
            let kept_back = guarded && match loc_rib.get(&n) {
                Some(b) => self.is_internal(&b.peer) && !self.rib.rr_clients.contains(&b.peer),
                None => false,
            };
            assert(kept_back == self@.withheld(loc_rib@, *dest, n));
            if !kept_back {
                r.push(n);
            }
            i = i + 1;
            assert(nlris@.take(i as int).drop_last() =~= nlris@.take(i - 1));
        }
        assert(nlris@.take(i as int) =~= nlris@);
        r
    }

    /// What the export engine is asked of IPv4 prefixes for a peer.
    pub fn make_export_v4(&self, p: &IpAddr, nlris: Vec<Nlri<Ipv4Addr>>, deferred: bool) -> (r:
        Export<Ipv4Addr>)
        ensures
            r@ == self@.export_v4(*p, nlris@, deferred),
    {
        Export {
            nlris,
            frame: self.frame(p),
            local_as: self.rib.local_as,
            next_hop: Some(self.local_next_hop(p)),
            next_hop_self: self.rib.next_hop_self_peers.contains(p),
            deferred,
        }
    }

    /// What the export engine is asked of IPv6 prefixes for a peer.
    pub fn make_export_v6(&self, p: &IpAddr, nlris: Vec<Nlri<Ipv6Addr>>, deferred: bool) -> (r:
        Export<Ipv6Addr>)
        ensures
            r@ == self@.export_v6(*p, nlris@, deferred),
    {
        Export {
            nlris,
            frame: self.frame(p),
            local_as: self.rib.local_as,
            next_hop: self.rib.local_ipv6,
            next_hop_self: self.rib.next_hop_self_peers.contains(p),
            deferred,
        }
    }

    /// Whether a peer with a session belongs to an audience.
    fn in_audience(&self, p: &IpAddr, audience: &Audience) -> (r: bool)
        requires
            self@.rib.peer_types.contains_key(*p),
        ensures
            r == self@.attends(*p, *audience),
    {
        match audience {
            Audience::Everyone => true,
            Audience::Others(x) => *p != *x && self.update_senders.contains(p),
        }
    }

    /// What the export engine is asked of IPv4 prefixes.
    fn plan_v4(&self, nlris: &Vec<Nlri<Ipv4Addr>>, audience: Audience) -> (r: Table<
        IpAddr,
        Export<Ipv4Addr>,
    >)
        ensures
            r@ == self@.exports_v4(nlris@, audience),
    {
        let peers = self.rib.peer_types.keys();
        let ghost all = self@.exports_v4(nlris@, audience);
        let mut r: Table<IpAddr, Export<Ipv4Addr>> = Table::new();
        let mut i: usize = 0;
        while i < peers.len()
            invariant
                0 <= i <= peers.len(),
                all == self@.exports_v4(nlris@, audience),
                enumerates(peers@, self@.rib.peer_types.dom()),
                forall|p: IpAddr|
                    #[trigger] r@.contains_key(p) <==> (peers@.take(i as int).contains(p)
                        && all.contains_key(p)),
                forall|p: IpAddr| #[trigger] r@.contains_key(p) ==> r@[p] == all[p],
            decreases peers.len() - i,
        {
            let p = peers[i];
            let ghost before = r@;
            assert(peers@.to_set().contains(p));
            if self.in_audience(&p, &audience) && self.export_policies.contains_key(&p)
                && self.adj_ribs_out.contains_key(&p) {
                let list = match audience {
                    Audience::Everyone => self.shown_to(&self.rib.loc_rib, &p, nlris),
                    Audience::Others(_) => crate::table::copy_of(nlris),
                };
                let e = self.make_export_v4(&p, list, self.selection_deferral.v4_deferred());
                assert(e@ == all[p]);
                r.insert(p, e);
            }
            assert(r@.contains_key(p) || r@ == before);
            i = i + 1;
            proof {
                lemma_take_contains(peers@, i as int);
            }
        }
        proof {
            assert(peers@.take(i as int) =~= peers@);
            assert forall|p: IpAddr| all.contains_key(p) implies peers@.contains(p) by {
                assert(peers@.to_set().contains(p));
            }
            assert(r@ =~= all);
        }
        r
    }

    /// What the export engine is asked of IPv6 prefixes.
    fn plan_v6(&self, nlris: &Vec<Nlri<Ipv6Addr>>, audience: Audience) -> (r: Table<
        IpAddr,
        Export<Ipv6Addr>,
    >)
        ensures
            r@ == self@.exports_v6(nlris@, audience),
    {
        let peers = self.rib.peer_types.keys();
        let ghost all = self@.exports_v6(nlris@, audience);
        let mut r: Table<IpAddr, Export<Ipv6Addr>> = Table::new();
        let mut i: usize = 0;
        while i < peers.len()
            invariant
                0 <= i <= peers.len(),
                all == self@.exports_v6(nlris@, audience),
                enumerates(peers@, self@.rib.peer_types.dom()),
                forall|p: IpAddr|
                    #[trigger] r@.contains_key(p) <==> (peers@.take(i as int).contains(p)
                        && all.contains_key(p)),
                forall|p: IpAddr| #[trigger] r@.contains_key(p) ==> r@[p] == all[p],
            decreases peers.len() - i,
        {
            let p = peers[i];
            let ghost before = r@;
            assert(peers@.to_set().contains(p));
            if self.in_audience(&p, &audience) && self.ipv6_capable_peers.contains(&p)
                && self.export_policies_v6.contains_key(&p) && self.adj_ribs_out_v6.contains_key(
                &p,
            ) {
                let list = match audience {
                    Audience::Everyone => self.shown_to(&self.rib.loc_rib_v6, &p, nlris),
                    Audience::Others(_) => crate::table::copy_of(nlris),
                };
                let e = self.make_export_v6(&p, list, self.selection_deferral.v6_deferred());
                assert(e@ == all[p]);
                r.insert(p, e);
            }
            assert(r@.contains_key(p) || r@ == before);
            i = i + 1;
            proof {
                lemma_take_contains(peers@, i as int);
            }
        }
        proof {
            assert(peers@.take(i as int) =~= peers@);
            assert forall|p: IpAddr| all.contains_key(p) implies peers@.contains(p) by {
                assert(peers@.to_set().contains(p));
            }
            assert(r@ =~= all);
        }
        r
    }

    /// What the export engine is asked when IPv4 prefixes may have changed for everybody. A
    /// reflector leaves out what it keeps from a peer.
    pub fn propagate_to_all_peers(&self, nlris: &Vec<Nlri<Ipv4Addr>>) -> (r: Table<
        IpAddr,
        Export<Ipv4Addr>,
    >)
        ensures
            r@ == self@.exports_v4(nlris@, Audience::Everyone),
    {
        self.plan_v4(nlris, Audience::Everyone)
    }

    /// What the export engine is asked when IPv6 prefixes may have changed for everybody. Only
    /// peers that take IPv6 routes are told of them.
    pub fn propagate_to_all_peers_v6(&self, nlris: &Vec<Nlri<Ipv6Addr>>) -> (r: Table<
        IpAddr,
        Export<Ipv6Addr>,
    >)
        ensures
            r@ == self@.exports_v6(nlris@, Audience::Everyone),
    {
        self.plan_v6(nlris, Audience::Everyone)
    }

    /// What the export engine is asked when the other peers are to hear of IPv4 prefixes at once.
    pub fn propagate_to_others(&self, peer_ip: IpAddr, nlris: &Vec<Nlri<Ipv4Addr>>) -> (r: Table<
        IpAddr,
        Export<Ipv4Addr>,
    >)
        ensures
            r@ == self@.exports_v4(nlris@, Audience::Others(peer_ip)),
    {
        self.plan_v4(nlris, Audience::Others(peer_ip))
    }

    /// What the export engine is asked when the other peers are to hear of IPv6 prefixes at once.
    pub fn propagate_to_others_v6(&self, peer_ip: IpAddr, nlris: &Vec<Nlri<Ipv6Addr>>) -> (r: Table<
        IpAddr,
        Export<Ipv6Addr>,
    >)
        ensures
            r@ == self@.exports_v6(nlris@, Audience::Others(peer_ip)),
    {
        self.plan_v6(nlris, Audience::Others(peer_ip))
    }

    /// The events for those who watch routes: for each prefix the best route that it has now, or
    /// that it has none.
    pub fn emit_route_events(&self, affected: &Vec<Nlri<Ipv4Addr>>) -> (r: Vec<RouteEvent<Ipv4Addr>>)
        ensures
            r@ == events_of(self@.rib.loc_rib, affected@),
    {
        let ghost f = |n: Nlri<Ipv4Addr>| event_of(self@.rib.loc_rib, n);
        let mut r: Vec<RouteEvent<Ipv4Addr>> = Vec::new();
        let mut i: usize = 0;
        assert(affected@.take(0).map_values(f) =~= Seq::<RouteEvent<Ipv4Addr>>::empty());
        while i < affected.len()
            invariant
                0 <= i <= affected.len(),
                f == (|n: Nlri<Ipv4Addr>| event_of(self@.rib.loc_rib, n)),
                r@ == affected@.take(i as int).map_values(f),
            decreases affected.len() - i,
        {
            let n = affected[i];
            let e = match self.rib.loc_rib.get(&n) {
                Some(b) => RouteEvent::Announced { peer: b.peer, nlri: n, route: b.route.share() },
                None => RouteEvent::Withdrawn(n),
            };
            r.push(e);
            i = i + 1;
            assert(affected@.take(i as int).map_values(f) =~= affected@.take(i - 1).map_values(
                f,
            ).push(f(n)));
        }
        assert(affected@.take(i as int) =~= affected@);
        r
    }
}

/// A reflector keeps a route from a peer only where route and peer are internal and neither
/// belongs to a client: clients and external peers are shown everything, routes of clients and of
/// external peers are shown to everybody, and a daemon that is no reflector keeps nothing back.
pub proof fn only_non_clients_are_kept_apart<A>(
    s: DaemonView,
    loc_rib: Map<Nlri<A>, Best<A>>,
    dest: IpAddr,
    nlris: Seq<Nlri<A>>,
)
    requires
        !s.is_rr() || s.rib.rr_clients.contains(dest) || get_or(
            s.rib.peer_types,
            dest,
            PeerType::External,
        ) == PeerType::External || forall|i: int|
            0 <= i < nlris.len() ==> s.rib.rr_clients.contains(
                #[trigger] loc_rib[nlris[i]].peer,
            ) || get_or(s.rib.peer_types, loc_rib[nlris[i]].peer, PeerType::External)
                == PeerType::External,
    ensures
        s.shown(loc_rib, dest, nlris) == nlris,
    decreases nlris.len(),
{
    if nlris.len() > 0 {
        let t = nlris.drop_last();
        assert forall|i: int| 0 <= i < t.len() implies t[i] == nlris[i] by {}
        only_non_clients_are_kept_apart(s, loc_rib, dest, t);
        assert(nlris.last() == nlris[nlris.len() - 1]);
        assert(loc_rib[nlris[nlris.len() - 1]].peer == loc_rib[nlris.last()].peer);
        assert(!s.withheld(loc_rib, dest, nlris.last()));
        assert(t.push(nlris.last()) =~= nlris);
    }
}

/// A reflector shows the routes of one non-client to clients alone, among internal peers, whatever the
/// addresses of source and peer.
pub proof fn non_client_routes_go_to_clients_alone<A>(
    s: DaemonView,
    loc_rib: Map<Nlri<A>, Best<A>>,
    dest: IpAddr,
    nlris: Seq<Nlri<A>>,
    n: Nlri<A>,
)
    requires
        s.is_rr(),
        get_or(s.rib.peer_types, dest, PeerType::External) == PeerType::Internal,
        loc_rib.contains_key(n),
        get_or(s.rib.peer_types, loc_rib[n].peer, PeerType::External) == PeerType::Internal,
        !s.rib.rr_clients.contains(loc_rib[n].peer),
    ensures
        s.shown(loc_rib, dest, nlris).contains(n) <==> nlris.contains(n)
            && s.rib.rr_clients.contains(dest),
        s.shown_set(loc_rib, dest).contains(n) <==> s.rib.rr_clients.contains(dest),
    decreases nlris.len(),
{
    let r = s.shown(loc_rib, dest, nlris);
    if nlris.len() > 0 {
        let t = nlris.drop_last();
        let q = s.shown(loc_rib, dest, t);
        non_client_routes_go_to_clients_alone(s, loc_rib, dest, t, n);
        lemma_take_contains(nlris, nlris.len() as int);
        assert(nlris.take(nlris.len() as int) =~= nlris);
        assert(nlris.take(nlris.len() - 1) =~= t);
        if !s.withheld(loc_rib, dest, nlris.last()) {
            assert(r == q.push(nlris.last()));
            assert(r[r.len() - 1] == nlris.last());
            if q.contains(n) {
                let j = q.index_of(n);
                assert(r[j] == n);
            }
            if r.contains(n) && n != nlris.last() {
                let j = r.index_of(n);
                assert(q[j] == n);
            }
        }
    } else {
        assert(r =~= Seq::<Nlri<A>>::empty());
    }
}

} // verus!
