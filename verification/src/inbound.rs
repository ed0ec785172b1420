//! UPDATEs from peers.
use vstd::prelude::*;

use crate::clock::Instant;
use crate::gr::GrView;
use crate::message::{
    CeaseError, NotificationError, NotificationMessage, PeerType, UpdateMessage, UpdateView,
};
use crate::net::{v4_part, IpAddr, Ipv4Addr, Ipv6Addr, NextHop, Nlri};
use crate::reflection::{end_of_rib, marker, reflect_inbound, reflected, returned, EndOfRib};
use crate::restart::{prunes_v4, prunes_v6};
use crate::rib::{lemma_take_contains, AdjRibIn, RibOp};
use crate::route::Route;
use crate::state::{get_or, DaemonState, DaemonView, RibView};
use crate::table::{Key, KeySet, Table};
use crate::update::{
    admissions, collect_announced, collect_mentioned, effective_withdrawals,
    effective_withdrawals_v6, handle_update, missing_attribute, mp_announced, mp_mentioned,
    notification_of, null_routed, null_routes_lost, routes_v4, routes_v6, table_after, withdrawals,
};
use crate::work::{Spread, SpreadView, Work, WorkView};

verus! {

/// What an UPDATE leaves to be done.
pub struct Received {
    /// The error to report to the peer, which ends the session.
    pub notification: Option<NotificationMessage>,
    pub work: Option<Work>,
}

/// The work in a [`Received`].
pub open spec fn work_of(w: Option<Work>) -> Option<WorkView> {
    match w {
        Some(x) => Some(x@),
        None => None,
    }
}

/// The notification of a peer that sent too many prefixes.
pub open spec fn too_many_prefixes(r: Option<NotificationMessage>) -> bool {
    &&& r is Some
    &&& r->0.error == NotificationError::Cease(CeaseError::MaximumNumberOfPrefixesReached)
    &&& r->0.data@ == Seq::<u8>::empty()
}

/// The prefixes of announcements.
pub open spec fn prefixes_of<A>(s: Seq<(Nlri<A>, Option<NextHop>)>) -> Seq<Nlri<A>> {
    s.map_values(|x: (Nlri<A>, Option<NextHop>)| x.0)
}

/// The IPv4 prefixes that an UPDATE announces: in its announced field, then in its multi-protocol
/// attributes.
pub open spec fn all_announced_v4(m: UpdateView) -> Seq<Nlri<Ipv4Addr>> {
    m.announced + prefixes_of(mp_announced::<Ipv4Addr>(m.attributes))
}

impl DaemonView {
    /// The kind of a peer; external, while it has no session.
    pub open spec fn kind(self, p: IpAddr) -> PeerType {
        get_or(self.rib.peer_types, p, PeerType::External)
    }

    /// The router that routes from a peer are taken to start at: the identifier of the peer, for
    /// which its IPv4 address stands in.
    pub open spec fn source_id(self, p: IpAddr) -> Ipv4Addr {
        if self.rib.peer_bgp_ids.contains_key(p) {
            self.rib.peer_bgp_ids[p]
        } else {
            match v4_part(p) {
                Some(a) => a,
                None => Ipv4Addr::unspecified(),
            }
        }
    }

    /// Whether UPDATEs of a peer go through the reflector.
    pub open spec fn reflects_from(self, p: IpAddr) -> bool {
        self.is_rr() && self.kind(p) == PeerType::Internal
    }

    /// Whether an UPDATE has come back to the reflector.
    pub open spec fn discards(self, p: IpAddr, m: UpdateView) -> bool {
        self.reflects_from(p) && returned(
            m.attributes,
            self.rib.local_bgp_id,
            self.rib.cluster_id,
        )
    }

    /// The UPDATE as it is processed: with the reflector on record, where it goes through it.
    pub open spec fn prepared(self, p: IpAddr, m: UpdateView) -> UpdateView {
        if self.reflects_from(p) {
            UpdateView {
                attributes: reflected(m.attributes, self.rib.cluster_id, self.source_id(p)),
                ..m
            }
        } else {
            m
        }
    }

    /// Whether UPDATEs of a peer can be processed.
    pub open spec fn takes_updates(self, p: IpAddr) -> bool {
        &&& self.import_policies.contains_key(p)
        &&& self.import_policies_v6.contains_key(p)
        &&& self.adj_ribs_in.contains_key(p)
    }

    /// The local IPv4 address of the session with a peer.
    pub open spec fn own_v4(self, p: IpAddr) -> Option<Ipv4Addr> {
        if self.rib.local_addrs.contains_key(p) {
            v4_part(self.rib.local_addrs[p])
        } else {
            None
        }
    }

    /// The IPv4 routes that a prepared UPDATE brings.
    pub open spec fn brought_v4(self, p: IpAddr, m: UpdateView, now: Instant) -> Seq<
        Route<Ipv4Addr>,
    > {
        routes_v4(m, self.rib.local_as, self.own_v4(p), self.kind(p), now)
    }

    /// The IPv6 routes that a prepared UPDATE brings.
    pub open spec fn brought_v6(self, p: IpAddr, m: UpdateView, now: Instant) -> Seq<
        Route<Ipv6Addr>,
    > {
        routes_v6(m, self.rib.local_as, self.rib.local_ipv6, self.kind(p), now)
    }

    /// The IPv4 routes received from a peer, after a prepared UPDATE.
    pub open spec fn received_v4_after(self, p: IpAddr, m: UpdateView, now: Instant) -> Map<
        Nlri<Ipv4Addr>,
        Route<Ipv4Addr>,
    > {
        table_after(self.adj_ribs_in[p], effective_withdrawals(m), self.brought_v4(p, m, now))
    }

    /// The IPv6 routes received from a peer, after a prepared UPDATE.
    pub open spec fn received_v6_after(self, p: IpAddr, m: UpdateView, now: Instant) -> Map<
        Nlri<Ipv6Addr>,
        Route<Ipv6Addr>,
    > {
        table_after(
            get_or(self.adj_ribs_in_v6, p, Map::empty()),
            effective_withdrawals_v6(m),
            self.brought_v6(p, m, now),
        )
    }

    /// The restart state once a peer has announced prefixes again.
    pub open spec fn refreshed(self, p: IpAddr, m: UpdateView) -> GrView {
        GrView {
            stale_nlri: if self.gr.stale_nlri.contains_key(p) {
                self.gr.stale_nlri.insert(
                    p,
                    self.gr.stale_nlri[p].difference(all_announced_v4(m).to_set()),
                )
            } else {
                self.gr.stale_nlri
            },
            stale_nlri_v6: if self.gr.stale_nlri_v6.contains_key(p) {
                self.gr.stale_nlri_v6.insert(
                    p,
                    self.gr.stale_nlri_v6[p].difference(
                        prefixes_of(mp_announced::<Ipv6Addr>(m.attributes)).to_set(),
                    ),
                )
            } else {
                self.gr.stale_nlri_v6
            },
            ..self.gr
        }
    }

    /// The state with the tables of received routes after a prepared UPDATE.
    pub open spec fn updated(self, p: IpAddr, m: UpdateView, now: Instant) -> Self {
        DaemonView {
            gr: self.refreshed(p, m),
            adj_ribs_in: self.adj_ribs_in.insert(p, self.received_v4_after(p, m, now)),
            adj_ribs_in_v6: if self.adj_ribs_in_v6.contains_key(p) {
                self.adj_ribs_in_v6.insert(p, self.received_v6_after(p, m, now))
            } else {
                self.adj_ribs_in_v6
            },
            ..self
        }
    }

    /// Whether a prepared UPDATE takes a peer over the limit of either family.
    pub open spec fn exceeds(self, p: IpAddr, m: UpdateView, now: Instant) -> bool {
        ||| self.peer_max_prefixes_v4.contains_key(p) && self.received_v4_after(
            p,
            m,
            now,
        ).dom().len() > self.peer_max_prefixes_v4[p]
        ||| self.peer_max_prefixes_v6.contains_key(p) && self.received_v6_after(
            p,
            m,
            now,
        ).dom().len() > self.peer_max_prefixes_v6[p]
    }

    /// The state with a peer shut out, where that is configured.
    pub open spec fn shut_out(self, p: IpAddr, now: Instant) -> Self {
        if self.peer_max_prefixes_restart.contains_key(p) {
            DaemonView {
                max_prefix_idle: self.max_prefix_idle.insert(
                    p,
                    now.spec_after(self.peer_max_prefixes_restart[p]),
                ),
                ..self
            }
        } else {
            self
        }
    }

    /// The operations that a prepared UPDATE asks of the decision process for IPv4.
    pub open spec fn asked_v4(self, p: IpAddr, m: UpdateView, now: Instant) -> Seq<RibOp<Ipv4Addr>> {
        withdrawals(effective_withdrawals(m)) + admissions(self.brought_v4(p, m, now))
    }

    /// The operations that a prepared UPDATE asks of the decision process for IPv6.
    pub open spec fn asked_v6(self, p: IpAddr, m: UpdateView, now: Instant) -> Seq<RibOp<Ipv6Addr>> {
        withdrawals(effective_withdrawals_v6(m)) + admissions(self.brought_v6(p, m, now))
    }

    /// The work of a prepared UPDATE that takes the peer over a limit: the decision process hears of
    /// it, and nothing follows.
    pub open spec fn excess_work(self, p: IpAddr, m: UpdateView, now: Instant) -> WorkView {
        WorkView {
            ops: self.asked_v4(p, m, now),
            ops_v6: self.asked_v6(p, m, now),
            install: false,
            install_v6: false,
            ..WorkView::idle(p)
        }
    }

    /// The work of a prepared UPDATE.
    pub open spec fn update_work(self, p: IpAddr, m: UpdateView, now: Instant) -> WorkView {
        WorkView {
            ops: self.asked_v4(p, m, now),
            ops_v6: self.asked_v6(p, m, now),
            null_routes: null_routed(self.brought_v4(p, m, now)),
            null_routes_v6: null_routed(self.brought_v6(p, m, now)),
            lifted: null_routes_lost(self.adj_ribs_in[p], effective_withdrawals(m)),
            lifted_v6: null_routes_lost(
                get_or(self.adj_ribs_in_v6, p, Map::empty()),
                effective_withdrawals_v6(m),
            ),
            spread: SpreadView::Everyone(mentioned_v4(m)),
            spread_v6: if mp_mentioned::<Ipv6Addr>(m.attributes).len() == 0 {
                SpreadView::Nobody
            } else {
                SpreadView::Everyone(mp_mentioned::<Ipv6Addr>(m.attributes))
            },
            watch: mentioned_v4(m),
            notify: true,
            ..WorkView::idle(p)
        }
    }

    /// The state once the initial IPv4 table of a peer is complete, before stale routes go.
    pub open spec fn completed_v4(self, p: IpAddr) -> Self {
        DaemonView {
            rib: RibView { eor_received: self.rib.eor_received.insert(p), ..self.rib },
            gr: GrView { stale_nlri: self.gr.stale_nlri.remove(p), ..self.gr },
            ..self
        }
    }

    /// The state once the initial IPv6 table of a peer is complete, before stale routes go.
    pub open spec fn completed_v6(self, p: IpAddr) -> Self {
        DaemonView {
            rib: RibView { eor_received_v6: self.rib.eor_received_v6.insert(p), ..self.rib },
            gr: GrView { stale_nlri_v6: self.gr.stale_nlri_v6.remove(p), ..self.gr },
            ..self
        }
    }
}

/// The IPv4 prefixes that an UPDATE mentions, in order: its withdrawn and announced fields, then its
/// multi-protocol attributes.
pub open spec fn mentioned_v4(m: UpdateView) -> Seq<Nlri<Ipv4Addr>> {
    m.withdrawn + m.announced + mp_mentioned::<Ipv4Addr>(m.attributes)
}

/// The contract of [`DaemonState::on_route_update`]: what an UPDATE makes of a state, and what it
/// leaves to be done.
pub open spec fn update_outcome(
    before: DaemonView,
    p: IpAddr,
    msg: UpdateView,
    now: Instant,
    after: DaemonView,
    notification: Option<NotificationMessage>,
    work: Option<WorkView>,
) -> bool {
    match marker(msg) {
        Some(EndOfRib::V4) => {
            let stale = get_or(before.gr.stale_nlri, p, Set::empty());
            &&& notification is None
            &&& if stale == Set::<Nlri<Ipv4Addr>>::empty() {
                after == before.completed_v4(p) && work is None
            } else {
                &&& after == before.completed_v4(p).pruned_v4(p, stale)
                &&& work is Some
                &&& prunes_v4(work->0, p, stale, before.rib.loc_rib)
            }
        },
        Some(EndOfRib::V6) => {
            let stale = get_or(before.gr.stale_nlri_v6, p, Set::empty());
            &&& notification is None
            &&& if stale == Set::<Nlri<Ipv6Addr>>::empty() {
                after == before.completed_v6(p) && work is None
            } else {
                &&& after == before.completed_v6(p).pruned_v6(p, stale)
                &&& work is Some
                &&& prunes_v6(work->0, p, stale)
            }
        },
        None => if before.discards(p, msg) || !before.takes_updates(p) {
            after == before && notification is None && work is None
        } else {
            let m = before.prepared(p, msg);
            if before.exceeds(p, m, now) {
                &&& after == before.updated(p, m, now).shut_out(p, now)
                &&& too_many_prefixes(notification)
                &&& work == Some(before.excess_work(p, m, now))
            } else {
                &&& after == before.updated(p, m, now).received_synced(p)
                &&& notification_of(notification, missing_attribute(m))
                &&& work == Some(before.update_work(p, m, now))
            }
        },
    }
}

/// Takes the members of a list out of a set.
fn take_out<A: Key>(set: &mut KeySet<Nlri<A>>, list: &Vec<Nlri<A>>)
    ensures
        final(set)@ == old(set)@.difference(list@.to_set()),
{
    let ghost before = set@;
    let mut i: usize = 0;
    assert(before.difference(list@.take(0).to_set()) =~= before);
    while i < list.len()
        invariant
            0 <= i <= list.len(),
            before == old(set)@,
            set@ == before.difference(list@.take(i as int).to_set()),
        decreases list.len() - i,
    {
        let _ = set.remove(&list[i]);
        i = i + 1;
        proof {
            lemma_take_contains(list@, i as int);
            assert forall|x: Nlri<A>| list@.take(i as int).to_set().contains(x) <==> (list@.take(
                i - 1,
            ).to_set().contains(x) || x == list@[i - 1]) by {
                assert(list@.take(i as int).contains(x) <==> (list@.take(i - 1).contains(x) || x
                    == list@[i - 1]));
            }
            assert(set@ =~= before.difference(list@.take(i as int).to_set()));
        }
    }
    assert(list@.take(i as int) =~= list@);
}

/// The prefixes of announcements.
fn only_prefixes<A: Key>(list: &Vec<(Nlri<A>, Option<NextHop>)>) -> (r: Vec<Nlri<A>>)
    ensures
        r@ == prefixes_of(list@),
{
    let mut r: Vec<Nlri<A>> = Vec::new();
    let mut i: usize = 0;
    while i < list.len()
        invariant
            0 <= i <= list.len(),
            r@.len() == i,
            forall|j: int| 0 <= j < i ==> (#[trigger] r@[j]) == list@[j].0,
        decreases list.len() - i,
    {
        r.push(list[i].0);
        i = i + 1;
    }
    assert(r@ =~= prefixes_of(list@));
    r
}

impl DaemonState {
    /// Notes that a peer has announced prefixes again, so that they are not given up.
    fn note_refreshed(&mut self, peer_ip: IpAddr, msg: &UpdateMessage)
        ensures
            final(self)@ == (DaemonView {
                gr: old(self)@.refreshed(peer_ip, msg@),
                ..old(self)@
            }),
    {
        if let Some(s) = self.gr.stale_nlri.remove(&peer_ip) {
            let mut s = s;
            let mp = collect_announced::<Ipv4Addr>(&msg.attributes);
            let mut announced = crate::table::copy_of(&msg.announced);
            let mut more = only_prefixes(&mp);
            announced.append(&mut more);
            assert(announced@ =~= all_announced_v4(msg@));
            take_out(&mut s, &announced);
            self.gr.stale_nlri.insert(peer_ip, s);
        }
        assert(self@.gr.stale_nlri =~= old(self)@.refreshed(peer_ip, msg@).stale_nlri);
        if let Some(s) = self.gr.stale_nlri_v6.remove(&peer_ip) {
            let mut s = s;
            let announced = collect_announced::<Ipv6Addr>(&msg.attributes);
            take_out(&mut s, &only_prefixes(&announced));
            self.gr.stale_nlri_v6.insert(peer_ip, s);
        }
        assert(self@.gr.stale_nlri_v6 =~= old(self)@.refreshed(peer_ip, msg@).stale_nlri_v6);
    }

    /// The End-of-RIB marker for IPv4 has come: what the peer has not announced again is given up.
    fn complete_v4(&mut self, peer_ip: IpAddr) -> (r: Option<Work>)
        ensures
            ({
                let stale = get_or(old(self)@.gr.stale_nlri, peer_ip, Set::empty());
                if stale == Set::<Nlri<Ipv4Addr>>::empty() {
                    final(self)@ == old(self)@.completed_v4(peer_ip) && r is None
                } else {
                    &&& final(self)@ == old(self)@.completed_v4(peer_ip).pruned_v4(peer_ip, stale)
                    &&& r is Some
                    &&& prunes_v4(r->0@, peer_ip, stale, old(self)@.rib.loc_rib)
                }
            }),
    {
        let _ = self.rib.eor_received.insert(peer_ip);
        if let Some(stale) = self.gr.stale_nlri.remove(&peer_ip) {
            assert(self@ =~= old(self)@.completed_v4(peer_ip));
            if !stale.is_empty() {
                return Some(self.prune_stale_nlri(peer_ip, &stale));
            }
        }
        None
    }

    /// The End-of-RIB marker for IPv6 has come: what the peer has not announced again is given up.
    fn complete_v6(&mut self, peer_ip: IpAddr) -> (r: Option<Work>)
        ensures
            ({
                let stale = get_or(old(self)@.gr.stale_nlri_v6, peer_ip, Set::empty());
                if stale == Set::<Nlri<Ipv6Addr>>::empty() {
                    final(self)@ == old(self)@.completed_v6(peer_ip) && r is None
                } else {
                    &&& final(self)@ == old(self)@.completed_v6(peer_ip).pruned_v6(peer_ip, stale)
                    &&& r is Some
                    &&& prunes_v6(r->0@, peer_ip, stale)
                }
            }),
    {
        let _ = self.rib.eor_received_v6.insert(peer_ip);
        if let Some(stale) = self.gr.stale_nlri_v6.remove(&peer_ip) {
            assert(self@ =~= old(self)@.completed_v6(peer_ip));
            if !stale.is_empty() {
                return Some(self.prune_stale_nlri_v6(peer_ip, &stale));
            }
        }
        None
    }

    /// Whether a table of received routes holds more prefixes than a limit allows.
    fn over(limits: &Table<IpAddr, u32>, peer_ip: &IpAddr, count: usize) -> (r: bool)
        ensures
            r == (limits@.contains_key(*peer_ip) && count > limits@[*peer_ip]),
    {
        match limits.get(peer_ip) {
            Some(limit) => count as u64 > *limit as u64,
            None => false,
        }
    }

    /// An UPDATE has come from a peer.
    ///
    /// An End-of-RIB marker ends the wait for routes that the peer had before a restart. A reflector
    /// discards an UPDATE that has come back to it, and puts itself on record in others. Then the
    /// UPDATE is processed; where it takes the peer over a limit on prefixes, the session is to end,
    /// and nothing is propagated.
    pub fn on_route_update(&mut self, peer_ip: IpAddr, msg: UpdateMessage, now: Instant) -> (r:
        Received)
        requires
            old(self)@.peer_max_prefixes_restart.contains_key(peer_ip) ==> now.has_room(
                old(self)@.peer_max_prefixes_restart[peer_ip],
            ),
        ensures
            update_outcome(
                old(self)@,
                peer_ip,
                msg@,
                now,
                final(self)@,
                r.notification,
                work_of(r.work),
            ),
    {
        let ghost before = self@;
        let ghost original = msg@;
        match end_of_rib(&msg) {
            Some(EndOfRib::V4) => {
                let work = self.complete_v4(peer_ip);
                return Received { notification: None, work };
            },
            Some(EndOfRib::V6) => {
                let work = self.complete_v6(peer_ip);
                return Received { notification: None, work };
            },
            None => {},
        }
        let peer_type = match self.rib.peer_types.get(&peer_ip) {
            Some(t) => *t,
            None => PeerType::External,
        };
        let mut msg = msg;
        if !self.rib.rr_clients.is_empty() && peer_type == PeerType::Internal {
            let source = match self.rib.peer_bgp_ids.get(&peer_ip) {
                Some(id) => *id,
                None => match peer_ip {
                    IpAddr::V4(a) => a,
                    IpAddr::V6(_) => Ipv4Addr { bits: 0 },
                },
            };
            if !reflect_inbound(
                &mut msg.attributes,
                self.rib.cluster_id,
                self.rib.local_bgp_id,
                source,
            ) {
                return Received { notification: None, work: None };
            }
        }
        let ghost m = before.prepared(peer_ip, original);
        assert(msg@ == m);
        if !self.import_policies.contains_key(&peer_ip) || !self.import_policies_v6.contains_key(
            &peer_ip,
        ) || !self.adj_ribs_in.contains_key(&peer_ip) {
            return Received { notification: None, work: None };
        }
        let affected = Self::collect_affected(&msg);
        let affected_v6 = collect_mentioned::<Ipv6Addr>(&msg.attributes);
        self.note_refreshed(peer_ip, &msg);

        let own_v4 = match self.rib.local_addrs.get(&peer_ip) {
            Some(IpAddr::V4(a)) => Some(*a),
            Some(IpAddr::V6(_)) => None,
            None => None,
        };
        let mut table: AdjRibIn<Ipv4Addr> = match self.adj_ribs_in.remove(&peer_ip) {
            Some(t) => t,
            None => AdjRibIn::new(),
        };
        let has_v6 = self.adj_ribs_in_v6.contains_key(&peer_ip);
        let mut table_v6: AdjRibIn<Ipv6Addr> = match self.adj_ribs_in_v6.remove(&peer_ip) {
            Some(t) => t,
            None => AdjRibIn::new(),
        };
        assert(table@ == before.adj_ribs_in[peer_ip]);
        assert(table_v6@ == get_or(before.adj_ribs_in_v6, peer_ip, Map::empty()));
        let result = handle_update(
            msg,
            &mut table,
            &mut table_v6,
            peer_type,
            self.rib.local_as,
            own_v4,
            self.rib.local_ipv6,
            now,
        );
        let count: usize = table.len();
        let count_v6: usize = table_v6.len();
        self.adj_ribs_in.insert(peer_ip, table);
        if has_v6 {
            self.adj_ribs_in_v6.insert(peer_ip, table_v6);
        }
        proof {
            assert(self@.adj_ribs_in =~= before.updated(peer_ip, m, now).adj_ribs_in);
            assert(self@.adj_ribs_in_v6 =~= before.updated(peer_ip, m, now).adj_ribs_in_v6);
            assert(self@ =~= before.updated(peer_ip, m, now));
        }
        let mut w = Work::idle(peer_ip);
        w.ops = result.v4.ops;
        w.ops_v6 = result.v6.ops;
        if Self::over(&self.peer_max_prefixes_v4, &peer_ip, count) || Self::over(
            &self.peer_max_prefixes_v6,
            &peer_ip,
            count_v6,
        ) {
            assert(before.exceeds(peer_ip, m, now));
            if let Some(secs) = self.peer_max_prefixes_restart.get(&peer_ip) {
                let deadline = now.after(*secs);
                self.max_prefix_idle.insert(peer_ip, deadline);
            }
            w.install = false;
            w.install_v6 = false;
            assert(w@ =~= before.excess_work(peer_ip, m, now));
            let notification = Some(
                NotificationMessage {
                    error: NotificationError::Cease(CeaseError::MaximumNumberOfPrefixesReached),
                    data: Vec::new(),
                },
            );
            return Received { notification, work: Some(w) };
        }
        assert(!before.exceeds(peer_ip, m, now));
        self.sync_received(peer_ip);
        w.null_routes = result.v4.blackhole_announced;
        w.null_routes_v6 = result.v6.blackhole_announced;
        w.lifted = result.v4.blackhole_withdrawn;
        w.lifted_v6 = result.v6.blackhole_withdrawn;
        w.watch = crate::table::copy_of(&affected);
        w.spread = Spread::Everyone(affected);
        if affected_v6.len() > 0 {
            w.spread_v6 = Spread::Everyone(affected_v6);
        }
        w.notify = true;
        assert(w@ =~= before.update_work(peer_ip, m, now));
        Received { notification: result.notification, work: Some(w) }
    }

    /// The IPv4 prefixes that an UPDATE mentions.
    fn collect_affected(msg: &UpdateMessage) -> (r: Vec<Nlri<Ipv4Addr>>)
        ensures
            r@ == mentioned_v4(msg@),
    {
        let mut r = crate::table::copy_of(&msg.withdrawn);
        let mut announced = crate::table::copy_of(&msg.announced);
        let mut mp = collect_mentioned::<Ipv4Addr>(&msg.attributes);
        r.append(&mut announced);
        r.append(&mut mp);
        r
    }
}

} // verus!
