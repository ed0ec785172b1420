//! Taking decisions of the export engine: pacing announcements, collecting decisions, and keeping
//! count of what was sent.
use vstd::prelude::*;

use crate::clock::Instant;
use crate::message::PeerType;
use crate::net::{IpAddr, Ipv4Addr, Ipv6Addr, Nlri};
use crate::propagation::{Audience, Frame, MRAI};
use crate::rib::{enumerates, keyed, lemma_take_contains, AdjRibOut};
use crate::route::Route;
use crate::state::{get_or, DaemonState, DaemonView, PrefixDecision, RibView};
use crate::table::{Key, Table};

verus! {

/// The pace of announcements to one external peer, and the decisions that go out.
#[verifier::ext_equal]
pub ghost struct Pace {
    /// When each prefix was last announced.
    pub last_sent: Map<Nlri<Ipv4Addr>, Instant>,
    /// Announcements that wait, by prefix.
    pub pending: Map<Nlri<Ipv4Addr>, Route<Ipv4Addr>>,
    pub sent: Seq<PrefixDecision<Ipv4Addr>>,
}

/// Whether a decision is about a prefix.
pub open spec fn concerns<A>(d: PrefixDecision<A>, n: Nlri<A>) -> bool {
    match d {
        PrefixDecision::Announce(route) => route.nlri == n,
        PrefixDecision::Withdraw(m) => m == n,
        PrefixDecision::NoChange => false,
    }
}

/// The announcements that still wait once a peer has been sent decisions at once: none for a prefix
/// that they are about.
pub open spec fn still_waiting<A>(
    pending: Map<Nlri<A>, Route<A>>,
    s: Seq<PrefixDecision<A>>,
) -> Map<Nlri<A>, Route<A>>
    decreases s.len(),
{
    if s.len() == 0 {
        pending
    } else {
        let before = still_waiting(pending, s.drop_last());
        match s.last() {
            PrefixDecision::Announce(route) => before.remove(route.nlri),
            PrefixDecision::Withdraw(n) => before.remove(n),
            PrefixDecision::NoChange => before,
        }
    }
}

/// Whether a prefix may be announced again.
pub open spec fn may_announce(
    last_sent: Map<Nlri<Ipv4Addr>, Instant>,
    n: Nlri<Ipv4Addr>,
    now: Instant,
) -> bool {
    !last_sent.contains_key(n) || now.elapsed_since(last_sent[n]) >= MRAI
}

impl Pace {
    /// The pace after one more decision. An announcement goes out where enough time has passed, and
    /// waits where it has not, in place of an earlier one for its prefix; a withdrawal goes out in any
    /// case, and ends the wait.
    pub open spec fn after(self, d: PrefixDecision<Ipv4Addr>, now: Instant) -> Self {
        match d {
            PrefixDecision::Announce(route) => if may_announce(self.last_sent, route.nlri, now) {
                Pace {
                    last_sent: self.last_sent.insert(route.nlri, now),
                    pending: self.pending.remove(route.nlri),
                    sent: self.sent.push(d),
                }
            } else {
                Pace {
                    last_sent: self.last_sent,
                    pending: self.pending.insert(route.nlri, route),
                    sent: self.sent.push(PrefixDecision::NoChange),
                }
            },
            PrefixDecision::Withdraw(n) => Pace {
                last_sent: self.last_sent.remove(n),
                pending: self.pending.remove(n),
                sent: self.sent.push(d),
            },
            PrefixDecision::NoChange => Pace { sent: self.sent.push(d), ..self },
        }
    }

    /// The pace after a sequence of decisions.
    pub open spec fn after_all(self, s: Seq<PrefixDecision<Ipv4Addr>>, now: Instant) -> Self
        decreases s.len(),
    {
        if s.len() == 0 {
            self
        } else {
            self.after_all(s.drop_last(), now).after(s.last(), now)
        }
    }
}

impl DaemonView {
    /// The pace of announcements to a peer.
    pub open spec fn pace_of(self, p: IpAddr) -> Pace {
        Pace {
            last_sent: get_or(self.mrai_last_sent, p, Map::empty()),
            pending: get_or(self.mrai_pending, p, Map::empty()),
            sent: Seq::empty(),
        }
    }

    /// The state with the number of advertised IPv4 prefixes of a peer.
    pub open spec fn advertising_v4(self, p: IpAddr, count: usize) -> Self {
        if self.adj_ribs_out.contains_key(p) {
            DaemonView {
                adj_ribs_out: self.adj_ribs_out.insert(
                    p,
                    AdjRibOut { advertised: count, ..self.adj_ribs_out[p] },
                ),
                ..self
            }
        } else {
            self
        }
    }

    /// The state with the number of advertised IPv6 prefixes of a peer.
    pub open spec fn advertising_v6(self, p: IpAddr, count: usize) -> Self {
        if self.adj_ribs_out_v6.contains_key(p) {
            DaemonView {
                adj_ribs_out_v6: self.adj_ribs_out_v6.insert(
                    p,
                    AdjRibOut { advertised: count, ..self.adj_ribs_out_v6[p] },
                ),
                ..self
            }
        } else {
            self
        }
    }

    /// The state once IPv4 decisions for a peer have been collected. Announcements to an external
    /// peer are paced.
    pub open spec fn collected_v4(
        self,
        p: IpAddr,
        decisions: Seq<PrefixDecision<Ipv4Addr>>,
        now: Instant,
    ) -> Self {
        let waiting = get_or(self.pending_decisions, p, Seq::empty());
        if get_or(self.rib.peer_types, p, PeerType::External) == PeerType::External {
            let pace = self.pace_of(p).after_all(decisions, now);
            DaemonView {
                mrai_last_sent: self.mrai_last_sent.insert(p, pace.last_sent),
                mrai_pending: self.mrai_pending.insert(p, pace.pending),
                pending_decisions: self.pending_decisions.insert(p, waiting + pace.sent),
                ..self
            }
        } else {
            DaemonView {
                pending_decisions: self.pending_decisions.insert(p, waiting + decisions),
                ..self
            }
        }
    }

    /// The state once IPv6 decisions for a peer have been collected.
    pub open spec fn collected_v6(self, p: IpAddr, decisions: Seq<PrefixDecision<Ipv6Addr>>) -> Self {
        DaemonView {
            pending_decisions_v6: self.pending_decisions_v6.insert(
                p,
                get_or(self.pending_decisions_v6, p, Seq::empty()) + decisions,
            ),
            ..self
        }
    }

    /// The state once it is known whether a peer took what was sent to it.
    pub open spec fn sent_to(self, p: IpAddr, ok: bool) -> Self {
        if ok {
            self
        } else {
            DaemonView { stalled_peers: self.stalled_peers.push(p), ..self }
        }
    }

    /// The state with the counts of advertised prefixes of a set of peers brought up to date.
    pub open spec fn advertised_synced_for(self, peers: Set<IpAddr>) -> Self {
        DaemonView {
            rib: RibView {
                prefixes_advertised: self.rib.prefixes_advertised.union_prefer_right(
                    Map::new(
                        |p: IpAddr| peers.contains(p),
                        |p: IpAddr| self.advertised_count(p) as u128,
                    ),
                ),
                ..self.rib
            },
            ..self
        }
    }

    /// The state once a peer has been sent IPv4 decisions at once.
    pub open spec fn told_v4(self, p: IpAddr, s: Seq<PrefixDecision<Ipv4Addr>>) -> Self {
        if self.mrai_pending.contains_key(p) {
            DaemonView {
                mrai_pending: self.mrai_pending.insert(p, still_waiting(self.mrai_pending[p], s)),
                ..self
            }
        } else {
            self
        }
    }

    /// Whether some announcement to a peer waits for its interval to pass.
    pub open spec fn keeps_waiting(self, p: IpAddr) -> bool {
        self.mrai_pending.contains_key(p) && self.mrai_pending[p] != Map::<
            Nlri<Ipv4Addr>,
            Route<Ipv4Addr>,
        >::empty()
    }

    /// The prefixes whose announcement to a peer waits and has waited long enough.
    pub open spec fn ripe(self, p: IpAddr, now: Instant) -> Set<Nlri<Ipv4Addr>> {
        get_or(self.mrai_pending, p, Map::empty()).dom().filter(
            |n: Nlri<Ipv4Addr>|
                may_announce(get_or(self.mrai_last_sent, p, Map::empty()), n, now),
        )
    }

    /// The state once announcements to a peer wait no longer, for prefixes in some order. They go to
    /// the peer with the next decisions, where it can be told of IPv4 prefixes.
    pub open spec fn let_go(self, p: IpAddr, now: Instant, order: Seq<Nlri<Ipv4Addr>>) -> Self {
        let held = get_or(self.mrai_pending, p, Map::empty());
        if order.len() == 0 {
            self
        } else {
            let rest = DaemonView {
                mrai_pending: self.mrai_pending.insert(p, held.remove_keys(order.to_set())),
                ..self
            };
            if self.listens_v4(p, Audience::Everyone) {
                DaemonView {
                    mrai_last_sent: rest.mrai_last_sent.insert(
                        p,
                        announced_at(get_or(self.mrai_last_sent, p, Map::empty()), order, now),
                    ),
                    pending_decisions: rest.pending_decisions.insert(
                        p,
                        get_or(self.pending_decisions, p, Seq::empty()) + announcing(held, order),
                    ),
                    ..rest
                }
            } else {
                rest
            }
        }
    }
}

/// When each prefix was last announced, once prefixes are announced.
pub open spec fn announced_at(
    last_sent: Map<Nlri<Ipv4Addr>, Instant>,
    s: Seq<Nlri<Ipv4Addr>>,
    now: Instant,
) -> Map<Nlri<Ipv4Addr>, Instant> {
    last_sent.union_prefer_right(Map::new(|n: Nlri<Ipv4Addr>| s.contains(n), |n: Nlri<Ipv4Addr>| now))
}

/// The decisions that announce what waits for prefixes.
pub open spec fn announcing(
    held: Map<Nlri<Ipv4Addr>, Route<Ipv4Addr>>,
    s: Seq<Nlri<Ipv4Addr>>,
) -> Seq<PrefixDecision<Ipv4Addr>> {
    s.map_values(|n: Nlri<Ipv4Addr>| PrefixDecision::Announce(held[n]))
}

/// What the export engine decided for one peer.
pub struct Reply<A> {
    pub peer: IpAddr,
    pub decisions: Vec<PrefixDecision<A>>,
    /// How many prefixes the peer is advertised now.
    pub advertised: usize,
}

impl DaemonView {
    /// The state once the replies of the export engine on IPv4 prefixes have been collected.
    pub open spec fn replied_v4(self, s: Seq<Reply<Ipv4Addr>>, now: Instant) -> Self
        decreases s.len(),
    {
        if s.len() == 0 {
            self
        } else {
            let r = s.last();
            self.replied_v4(s.drop_last(), now).advertising_v4(r.peer, r.advertised).collected_v4(
                r.peer,
                r.decisions@,
                now,
            )
        }
    }

    /// The state once the replies of the export engine on IPv6 prefixes have been collected.
    pub open spec fn replied_v6(self, s: Seq<Reply<Ipv6Addr>>) -> Self
        decreases s.len(),
    {
        if s.len() == 0 {
            self
        } else {
            let r = s.last();
            self.replied_v6(s.drop_last()).advertising_v6(r.peer, r.advertised).collected_v6(
                r.peer,
                r.decisions@,
            )
        }
    }
}

impl DaemonView {
    /// The state once IPv4 decisions for a peer wait to be sent, with the number of prefixes that it is
    /// advertised.
    pub open spec fn coalesced_v4(
        self,
        p: IpAddr,
        decisions: Seq<PrefixDecision<Ipv4Addr>>,
        advertised: usize,
        now: Instant,
    ) -> Self {
        self.advertising_v4(p, advertised).collected_v4(p, decisions, now)
    }

    /// The state once IPv6 decisions for a peer wait to be sent, with the number of prefixes that it is
    /// advertised.
    pub open spec fn coalesced_v6(
        self,
        p: IpAddr,
        decisions: Seq<PrefixDecision<Ipv6Addr>>,
        advertised: usize,
    ) -> Self {
        self.advertising_v6(p, advertised).collected_v6(p, decisions)
    }

    /// The state once a peer has been sent IPv4 decisions at once, and took them or not.
    pub open spec fn told_at_once_v4(
        self,
        p: IpAddr,
        decisions: Seq<PrefixDecision<Ipv4Addr>>,
        advertised: usize,
        ok: bool,
    ) -> Self {
        self.advertising_v4(p, advertised).told_v4(p, decisions).sent_to(p, ok).advertised_synced(p)
    }

    /// The state once a peer has been sent IPv6 decisions at once, and took them or not.
    pub open spec fn told_at_once_v6(self, p: IpAddr, advertised: usize, ok: bool) -> Self {
        self.advertising_v6(p, advertised).sent_to(p, ok).advertised_synced(p)
    }

    /// The state once replies on IPv4 prefixes are taken and counted.
    pub open spec fn taking_v4(self, replies: Seq<Reply<Ipv4Addr>>, now: Instant) -> Self {
        let s = self.replied_v4(replies, now);
        s.advertised_synced_for(s.adj_ribs_out.dom())
    }

    /// The state once replies on IPv6 prefixes are taken and counted.
    pub open spec fn taking_v6(self, replies: Seq<Reply<Ipv6Addr>>) -> Self {
        let s = self.replied_v6(replies);
        s.advertised_synced_for(s.adj_ribs_out_v6.dom())
    }

    /// The state once what was collected is taken out.
    pub open spec fn flushed(self) -> Self {
        DaemonView {
            pending_decisions: Map::empty(),
            pending_decisions_v6: Map::empty(),
            ..self
        }
    }
}

/// Collected decisions for one peer, to be sent together.
pub struct FlushBatch {
    pub v4: Vec<PrefixDecision<Ipv4Addr>>,
    pub v6: Vec<PrefixDecision<Ipv6Addr>>,
    pub frame: Frame,
}

/// The contents of a [`FlushBatch`].
pub ghost struct FlushView {
    pub v4: Seq<PrefixDecision<Ipv4Addr>>,
    pub v6: Seq<PrefixDecision<Ipv6Addr>>,
    pub frame: Frame,
}

impl View for FlushBatch {
    type V = FlushView;

    open spec fn view(&self) -> FlushView {
        FlushView { v4: self.v4@, v6: self.v6@, frame: self.frame }
    }
}

/// What is to be done next with a batch.
#[derive(Clone, Copy, Debug, PartialEq, Eq, Structural)]
pub enum FlushStep {
    SendV4,
    SendV6,
    Done { stalled: bool },
}

impl FlushBatch {
    /// What is to be done first: the IPv4 decisions go before the IPv6 ones, and a part without
    /// decisions is not sent.
    pub open spec fn opening(b: FlushView) -> FlushStep {
        if b.v4.len() > 0 {
            FlushStep::SendV4
        } else if b.v6.len() > 0 {
            FlushStep::SendV6
        } else {
            FlushStep::Done { stalled: false }
        }
    }

    /// What is to be done after a step: nothing more where the peer did not take a part.
    pub open spec fn following(b: FlushView, step: FlushStep, ok: bool) -> FlushStep {
        match step {
            FlushStep::SendV4 => if !ok {
                FlushStep::Done { stalled: true }
            } else if b.v6.len() > 0 {
                FlushStep::SendV6
            } else {
                FlushStep::Done { stalled: false }
            },
            FlushStep::SendV6 => FlushStep::Done { stalled: !ok },
            done => done,
        }
    }

    /// What is to be done first.
    pub fn first_step(&self) -> (r: FlushStep)
        ensures
            r == Self::opening(self@),
    {
        if self.v4.len() > 0 {
            FlushStep::SendV4
        } else if self.v6.len() > 0 {
            FlushStep::SendV6
        } else {
            FlushStep::Done { stalled: false }
        }
    }

    /// What is to be done after a step, given whether the peer took it.
    pub fn next_step(&self, step: FlushStep, ok: bool) -> (r: FlushStep)
        ensures
            r == Self::following(self@, step, ok),
    {
        match step {
            FlushStep::SendV4 => if !ok {
                FlushStep::Done { stalled: true }
            } else if self.v6.len() > 0 {
                FlushStep::SendV6
            } else {
                FlushStep::Done { stalled: false }
            },
            FlushStep::SendV6 => FlushStep::Done { stalled: !ok },
            FlushStep::Done { stalled } => FlushStep::Done { stalled },
        }
    }
}

impl DaemonView {
    /// Whether something is to be sent to a peer when the collected decisions go out.
    pub open spec fn has_flush(self, p: IpAddr) -> bool {
        &&& get_or(self.pending_decisions, p, Seq::empty()).len() > 0 || get_or(
            self.pending_decisions_v6,
            p,
            Seq::empty(),
        ).len() > 0
        &&& self.update_senders.contains(p)
    }

    /// What is to be sent when the collected decisions go out.
    pub open spec fn flushes(self) -> Map<IpAddr, FlushView> {
        Map::new(
            |p: IpAddr| self.has_flush(p),
            |p: IpAddr|
                FlushView {
                    v4: get_or(self.pending_decisions, p, Seq::empty()),
                    v6: get_or(self.pending_decisions_v6, p, Seq::empty()),
                    frame: self.frame_of(p),
                },
        )
    }
}

impl DaemonState {
    /// Takes IPv4 decisions for a peer, to be sent later, and the number of prefixes that it is
    /// advertised now. An external peer is not sent another announcement of a prefix before the
    /// advertisement interval has passed; withdrawals are never held back.
    pub fn coalesce_v4(
        &mut self,
        peer_ip: IpAddr,
        decisions: Vec<PrefixDecision<Ipv4Addr>>,
        advertised: usize,
        now: Instant,
    )
        ensures
            final(self)@ == old(self)@.coalesced_v4(peer_ip, decisions@, advertised, now),
    {
        self.set_advertised_v4(peer_ip, advertised);
        let external = match self.rib.peer_types.get(&peer_ip) {
            Some(t) => *t == PeerType::External,
            None => true,
        };
        let mut waiting: Vec<PrefixDecision<Ipv4Addr>> = match self.pending_decisions.remove(
            &peer_ip,
        ) {
            Some(v) => v,
            None => Vec::new(),
        };
        let mut decisions = decisions;
        let ghost given = decisions@;
        if external {
            let mut last_sent: Table<Nlri<Ipv4Addr>, Instant> = match self.mrai_last_sent.remove(
                &peer_ip,
            ) {
                Some(t) => t,
                None => Table::new(),
            };
            let mut pending: Table<Nlri<Ipv4Addr>, Route<Ipv4Addr>> = match self.mrai_pending.remove(
                &peer_ip,
            ) {
                Some(t) => t,
                None => Table::new(),
            };
            let mut sent = pace(&decisions, &mut last_sent, &mut pending, now);
            waiting.append(&mut sent);
            self.mrai_last_sent.insert(peer_ip, last_sent);
            self.mrai_pending.insert(peer_ip, pending);
        } else {
            waiting.append(&mut decisions);
        }
        self.pending_decisions.insert(peer_ip, waiting);
        proof {
            let v = old(self)@.advertising_v4(peer_ip, advertised);
            assert(v.pending_decisions.remove(peer_ip).insert(peer_ip, waiting@)
                =~= v.pending_decisions.insert(peer_ip, waiting@));
            assert(self@ =~= v.collected_v4(peer_ip, given, now));
        }
    }

    /// Takes IPv6 decisions for a peer, to be sent later, and the number of prefixes that it is
    /// advertised now.
    pub fn coalesce_v6(
        &mut self,
        peer_ip: IpAddr,
        decisions: Vec<PrefixDecision<Ipv6Addr>>,
        advertised: usize,
    )
        ensures
            final(self)@ == old(self)@.coalesced_v6(peer_ip, decisions@, advertised),
    {
        self.set_advertised_v6(peer_ip, advertised);
        let mut waiting: Vec<PrefixDecision<Ipv6Addr>> = match self.pending_decisions_v6.remove(
            &peer_ip,
        ) {
            Some(v) => v,
            None => Vec::new(),
        };
        let mut decisions = decisions;
        waiting.append(&mut decisions);
        self.pending_decisions_v6.insert(peer_ip, waiting);
    }

    /// Takes the replies of the export engine to [`propagate_to_all_peers`], to be sent later, and
    /// brings the counts of advertised prefixes up to date.
    ///
    /// [`propagate_to_all_peers`]: DaemonState::propagate_to_all_peers
    pub fn take_replies_v4(&mut self, replies: Vec<Reply<Ipv4Addr>>, now: Instant)
        ensures
            final(self)@ == old(self)@.taking_v4(replies@, now),
    {
        let mut i: usize = 0;
        while i < replies.len()
            invariant
                0 <= i <= replies.len(),
                self@ == old(self)@.replied_v4(replies@.take(i as int), now),
            decreases replies.len() - i,
        {
            let r = &replies[i];
            let copy = share_decisions(&r.decisions);
            self.coalesce_v4(r.peer, copy, r.advertised, now);
            i = i + 1;
            assert(replies@.take(i as int).drop_last() =~= replies@.take(i - 1));
        }
        assert(replies@.take(i as int) =~= replies@);
        self.sync_all_advertised();
    }

    /// Takes the replies of the export engine to [`propagate_to_all_peers_v6`], to be sent later, and
    /// brings the counts of advertised prefixes up to date.
    ///
    /// [`propagate_to_all_peers_v6`]: DaemonState::propagate_to_all_peers_v6
    pub fn take_replies_v6(&mut self, replies: Vec<Reply<Ipv6Addr>>)
        ensures
            final(self)@ == old(self)@.taking_v6(replies@),
    {
        let mut i: usize = 0;
        while i < replies.len()
            invariant
                0 <= i <= replies.len(),
                self@ == old(self)@.replied_v6(replies@.take(i as int)),
            decreases replies.len() - i,
        {
            let r = &replies[i];
            let copy = share_decisions(&r.decisions);
            self.coalesce_v6(r.peer, copy, r.advertised);
            i = i + 1;
            assert(replies@.take(i as int).drop_last() =~= replies@.take(i - 1));
        }
        assert(replies@.take(i as int) =~= replies@);
        self.sync_all_advertised_v6();
    }

    /// Notes the number of IPv4 prefixes that a peer is advertised.
    fn set_advertised_v4(&mut self, peer_ip: IpAddr, count: usize)
        ensures
            final(self)@ == old(self)@.advertising_v4(peer_ip, count),
    {
        if let Some(t) = self.adj_ribs_out.get(&peer_ip) {
            let t = AdjRibOut {
                peer_type: t.peer_type,
                reflects: t.reflects,
                advertised: count,
            };
            self.adj_ribs_out.insert(peer_ip, t);
        }
    }

    /// Notes the number of IPv6 prefixes that a peer is advertised.
    fn set_advertised_v6(&mut self, peer_ip: IpAddr, count: usize)
        ensures
            final(self)@ == old(self)@.advertising_v6(peer_ip, count),
    {
        if let Some(t) = self.adj_ribs_out_v6.get(&peer_ip) {
            let t = AdjRibOut {
                peer_type: t.peer_type,
                reflects: t.reflects,
                advertised: count,
            };
            self.adj_ribs_out_v6.insert(peer_ip, t);
        }
    }

    /// Takes note that IPv4 decisions for a peer were sent at once, and whether the peer took them. An
    /// earlier announcement that waits for a prefix among them is dropped.
    pub fn delivered_v4(
        &mut self,
        peer_ip: IpAddr,
        decisions: &Vec<PrefixDecision<Ipv4Addr>>,
        advertised: usize,
        ok: bool,
    )
        ensures
            final(self)@ == old(self)@.told_at_once_v4(peer_ip, decisions@, advertised, ok),
    {
        self.set_advertised_v4(peer_ip, advertised);
        if let Some(t) = self.mrai_pending.remove(&peer_ip) {
            let mut t = t;
            drop_told(&mut t, decisions);
            self.mrai_pending.insert(peer_ip, t);
        }
        assert(self@ =~= old(self)@.advertising_v4(peer_ip, advertised).told_v4(
            peer_ip,
            decisions@,
        ));
        if !ok {
            self.stalled_peers.push(peer_ip);
        }
        self.sync_advertised(peer_ip);
    }

    /// Takes note that IPv6 decisions for a peer were sent at once, and whether the peer took them.
    pub fn delivered_v6(&mut self, peer_ip: IpAddr, advertised: usize, ok: bool)
        ensures
            final(self)@ == old(self)@.told_at_once_v6(peer_ip, advertised, ok),
    {
        self.set_advertised_v6(peer_ip, advertised);
        if !ok {
            self.stalled_peers.push(peer_ip);
        }
        self.sync_advertised(peer_ip);
    }

    /// Takes note whether a peer took something that was sent to it.
    pub fn sent(&mut self, peer_ip: IpAddr, ok: bool)
        ensures
            final(self)@ == old(self)@.sent_to(peer_ip, ok),
    {
        if !ok {
            self.stalled_peers.push(peer_ip);
        }
    }

    /// Brings the counts of advertised prefixes up to date, once IPv4 decisions have been collected.
    pub fn sync_all_advertised(&mut self)
        ensures
            final(self)@ == old(self)@.advertised_synced_for(old(self)@.adj_ribs_out.dom()),
    {
        let peers = self.adj_ribs_out.keys();
        self.sync_listed(&peers);
    }

    /// Brings the counts of advertised prefixes up to date, once IPv6 decisions have been collected.
    pub fn sync_all_advertised_v6(&mut self)
        ensures
            final(self)@ == old(self)@.advertised_synced_for(old(self)@.adj_ribs_out_v6.dom()),
    {
        let peers = self.adj_ribs_out_v6.keys();
        self.sync_listed(&peers);
    }

    /// Brings the counts of advertised prefixes of listed peers up to date.
    fn sync_listed(&mut self, peers: &Vec<IpAddr>)
        ensures
            final(self)@ == old(self)@.advertised_synced_for(peers@.to_set()),
    {
        let ghost before = self@;
        let mut i: usize = 0;
        proof {
            assert(before.advertised_synced_for(peers@.take(0).to_set())
                =~= before);
        }
        while i < peers.len()
            invariant
                0 <= i <= peers.len(),
                before == old(self)@,
                self@ == before.advertised_synced_for(peers@.take(i as int).to_set()),
            decreases peers.len() - i,
        {
            let p = peers[i];
            let ghost now = self@;
            self.sync_advertised(p);
            i = i + 1;
            proof {
                lemma_take_contains(peers@, i as int);
                let done = peers@.take(i as int).to_set();
                assert(now.advertised_count(p) == before.advertised_count(p));
                assert forall|x: IpAddr| done.contains(x) <==> (peers@.take(
                    i - 1,
                ).to_set().contains(x) || x == p) by {
                    assert(peers@.take(i as int).contains(x) <==> (peers@.take(i - 1).contains(x)
                        || x == p));
                }
                assert(self@.rib.prefixes_advertised =~= before.advertised_synced_for(
                    done,
                ).rib.prefixes_advertised);
                assert(self@ =~= before.advertised_synced_for(done));
            }
        }
        assert(peers@.take(i as int) =~= peers@);
    }

    /// Takes out everything that has been collected, to be sent. Decisions for a peer that cannot be
    /// sent to are dropped.
    pub fn flush_pending(&mut self) -> (r: Table<IpAddr, FlushBatch>)
        ensures
            r@ == old(self)@.flushes(),
            final(self)@ == old(self)@.flushed(),
    {
        let ghost before = self@;
        let peers = self.pending_decisions.keys();
        let peers_v6 = self.pending_decisions_v6.keys();
        let mut r: Table<IpAddr, FlushBatch> = Table::new();
        let mut i: usize = 0;
        while i < peers.len()
            invariant
                0 <= i <= peers.len(),
                enumerates(peers@, before.pending_decisions.dom()),
                self@ == (DaemonView {
                    pending_decisions: self@.pending_decisions,
                    pending_decisions_v6: self@.pending_decisions_v6,
                    ..before
                }),
                forall|p: IpAddr|
                    #[trigger] self@.pending_decisions.contains_key(p)
                        <==> before.pending_decisions.contains_key(p) && !peers@.take(
                        i as int,
                    ).contains(p),
                forall|p: IpAddr| #[trigger]
                    self@.pending_decisions.contains_key(p) ==> self@.pending_decisions[p]
                        == before.pending_decisions[p],
                forall|p: IpAddr|
                    #[trigger] self@.pending_decisions_v6.contains_key(p)
                        <==> before.pending_decisions_v6.contains_key(p) && !peers@.take(
                        i as int,
                    ).contains(p),
                forall|p: IpAddr| #[trigger]
                    self@.pending_decisions_v6.contains_key(p) ==> self@.pending_decisions_v6[p]
                        == before.pending_decisions_v6[p],
                forall|p: IpAddr|
                    #[trigger] r@.contains_key(p) <==> peers@.take(i as int).contains(p)
                        && before.has_flush(p),
                forall|p: IpAddr| #[trigger]
                    r@.contains_key(p) ==> r@[p] == before.flushes()[p],
            decreases peers.len() - i,
        {
            let p = peers[i];
            proof {
                lemma_take_contains(peers@, i + 1);
                assert(!peers@.take(i as int).contains(p)) by {
                    if peers@.take(i as int).contains(p) {
                        let j = peers@.take(i as int).index_of(p);
                        assert(peers@[j] == peers@[i as int]);
                    }
                }
                assert(peers@.to_set().contains(p));
            }
            self.flush_one(p, &mut r);
            i = i + 1;
        }
        assert(peers@.take(i as int) =~= peers@);
        proof {
            assert forall|p: IpAddr| !self@.pending_decisions.contains_key(p) by {
                assert(peers@.to_set().contains(p) == peers@.contains(p));
            }
            assert(self@.pending_decisions =~= Map::empty());
        }
        let mut j: usize = 0;
        while j < peers_v6.len()
            invariant
                0 <= j <= peers_v6.len(),
                enumerates(peers@, before.pending_decisions.dom()),
                enumerates(peers_v6@, before.pending_decisions_v6.dom()),
                self@ == (DaemonView {
                    pending_decisions: Map::empty(),
                    pending_decisions_v6: self@.pending_decisions_v6,
                    ..before
                }),
                forall|p: IpAddr|
                    #[trigger] self@.pending_decisions_v6.contains_key(p)
                        <==> before.pending_decisions_v6.contains_key(p) && !peers@.contains(p)
                        && !peers_v6@.take(j as int).contains(p),
                forall|p: IpAddr| #[trigger]
                    self@.pending_decisions_v6.contains_key(p) ==> self@.pending_decisions_v6[p]
                        == before.pending_decisions_v6[p],
                forall|p: IpAddr|
                    #[trigger] r@.contains_key(p) <==> (peers@.contains(p) || peers_v6@.take(
                        j as int,
                    ).contains(p)) && before.has_flush(p),
                forall|p: IpAddr| #[trigger]
                    r@.contains_key(p) ==> r@[p] == before.flushes()[p],
            decreases peers_v6.len() - j,
        {
            let p = peers_v6[j];
            proof {
                lemma_take_contains(peers_v6@, j + 1);
                assert(!peers_v6@.take(j as int).contains(p)) by {
                    if peers_v6@.take(j as int).contains(p) {
                        let k = peers_v6@.take(j as int).index_of(p);
                        assert(peers_v6@[k] == peers_v6@[j as int]);
                    }
                }
                assert(peers_v6@.to_set().contains(p));
                assert(peers@.to_set().contains(p) == peers@.contains(p));
            }
            if self.pending_decisions_v6.contains_key(&p) {
                self.flush_one(p, &mut r);
            }
            assert(self@.pending_decisions =~= Map::empty());
            j = j + 1;
        }
        assert(peers_v6@.take(j as int) =~= peers_v6@);
        proof {
            assert forall|p: IpAddr| !self@.pending_decisions_v6.contains_key(p) by {
                assert(peers_v6@.to_set().contains(p) == peers_v6@.contains(p));
            }
            assert(self@.pending_decisions_v6 =~= Map::empty());
            assert forall|p: IpAddr| before.has_flush(p) implies (peers@.contains(p)
                || peers_v6@.contains(p)) by {
                assert(peers@.to_set().contains(p) == peers@.contains(p));
                assert(peers_v6@.to_set().contains(p) == peers_v6@.contains(p));
            }
            assert(r@ =~= before.flushes());
        }
        r
    }

    /// Moves what has been collected for one peer to the batches that are sent.
    fn flush_one(&mut self, p: IpAddr, batches: &mut Table<IpAddr, FlushBatch>)
        ensures
            final(self)@ == (DaemonView {
                pending_decisions: old(self)@.pending_decisions.remove(p),
                pending_decisions_v6: old(self)@.pending_decisions_v6.remove(p),
                ..old(self)@
            }),
            final(batches)@ == (if old(self)@.has_flush(p) {
                old(batches)@.insert(p, old(self)@.flushes()[p])
            } else {
                old(batches)@
            }),
    {
        let ghost before = self@;
        let v4: Vec<PrefixDecision<Ipv4Addr>> = match self.pending_decisions.remove(&p) {
            Some(v) => v,
            None => Vec::new(),
        };
        let v6: Vec<PrefixDecision<Ipv6Addr>> = match self.pending_decisions_v6.remove(&p) {
            Some(v) => v,
            None => Vec::new(),
        };
        let any = v4.len() > 0 || v6.len() > 0;
        if any && self.update_senders.contains(&p) {
            let frame = self.frame(&p);
            let b = FlushBatch { v4, v6, frame };
            assert(b@ == before.flushes()[p]);
            batches.insert(p, b);
        }
    }

    /// Whether some announcement waits for its interval to pass.
    pub fn has_mrai_pending(&self) -> (r: bool)
        ensures
            r == exists|p: IpAddr| #[trigger] self@.keeps_waiting(p),
            r == exists|p: IpAddr|
                self@.mrai_pending.contains_key(p) && (#[trigger] self@.mrai_pending[p]) != Map::<
                    Nlri<Ipv4Addr>,
                    Route<Ipv4Addr>,
                >::empty(),
    {
        let n: usize = self.mrai_pending.len();
        let ghost o = self.mrai_pending.order();
        let ghost m = self.mrai_pending@;
        let mut i: usize = 0;
        while i < n
            invariant
                0 <= i <= n,
                n == o.len(),
                o == self.mrai_pending.order(),
                m == self.mrai_pending@,
                o.to_set() == m.dom(),
                forall|j: int|
                    0 <= j < i ==> m[#[trigger] o[j]] == Map::<Nlri<Ipv4Addr>, Route<Ipv4Addr>>::empty(),
            decreases n - i,
        {
            if !self.mrai_pending.value_at(i).is_empty() {
                proof {
                    let p = o[i as int];
                    assert(self@.mrai_pending.contains_key(p));
                    assert(self@.mrai_pending[p] != Map::<Nlri<Ipv4Addr>, Route<Ipv4Addr>>::empty());
                    assert(self@.keeps_waiting(p));
                }
                return true;
            }
            i = i + 1;
        }
        proof {
            assert forall|p: IpAddr| m.contains_key(p) implies #[trigger] m[p] == Map::<Nlri<Ipv4Addr>, Route<Ipv4Addr>>::empty() by {
                assert(o.to_set().contains(p));
                let k = o.index_of(p);
                assert(o[k] == p);
            }
        }
        false
    }

    /// The peers for which some announcement waits.
    pub fn mrai_waiting_peers(&self) -> (r: Vec<IpAddr>)
        ensures
            enumerates(r@, Set::new(|p: IpAddr| self@.keeps_waiting(p))),
            enumerates(
                r@,
                Set::new(
                    |p: IpAddr|
                        self@.mrai_pending.contains_key(p) && self@.mrai_pending[p] != Map::<Nlri<Ipv4Addr>, Route<Ipv4Addr>>::empty(),
                ),
            ),
    {
        let keys = self.mrai_pending.keys();
        let ghost m = self@.mrai_pending;
        let ghost f = |p: IpAddr| m.contains_key(p) && m[p] != Map::<Nlri<Ipv4Addr>, Route<Ipv4Addr>>::empty();
        let mut r: Vec<IpAddr> = Vec::new();
        let mut i: usize = 0;
        while i < keys.len()
            invariant
                0 <= i <= keys.len(),
                m == self@.mrai_pending,
                f == (|p: IpAddr|
                    m.contains_key(p) && m[p] != Map::<Nlri<Ipv4Addr>, Route<Ipv4Addr>>::empty()),
                enumerates(keys@, m.dom()),
                r@.no_duplicates(),
                forall|p: IpAddr|
                    #[trigger] r@.contains(p) <==> keys@.take(i as int).contains(p) && f(p),
            decreases keys.len() - i,
        {
            let p = keys[i];
            let ghost before = r@;
            proof {
                lemma_take_contains(keys@, i + 1);
                assert(!keys@.take(i as int).contains(p)) by {
                    if keys@.take(i as int).contains(p) {
                        let j = keys@.take(i as int).index_of(p);
                        assert(keys@[j] == keys@[i as int]);
                    }
                }
                assert(keys@.to_set().contains(p));
            }
            let some = match self.mrai_pending.get(&p) {
                Some(t) => !t.is_empty(),
                None => false,
            };
            assert(some == f(p));
            assert(!before.contains(p));
            if some {
                r.push(p);
                proof {
                    assert forall|x: IpAddr| #[trigger] r@.contains(x) <==> (before.contains(x) || x
                        == p) by {
                        if before.contains(x) {
                            let j = before.index_of(x);
                            assert(r@[j] == x);
                        }
                        assert(r@[r@.len() - 1] == p);
                    }
                }
            }
            i = i + 1;
        }
        proof {
            assert(keys@.take(i as int) =~= keys@);
            assert forall|p: IpAddr| r@.contains(p) <==> f(p) by {
                assert(keys@.to_set().contains(p) == keys@.contains(p));
            }
            assert(r@.to_set() =~= Set::new(
                |p: IpAddr|
                    self@.mrai_pending.contains_key(p) && self@.mrai_pending[p] != Map::<Nlri<Ipv4Addr>, Route<Ipv4Addr>>::empty(),
            ));
            assert(r@.to_set() =~= Set::new(|p: IpAddr| self@.keeps_waiting(p)));
        }
        r
    }

    /// Lets the announcements to a peer go that have waited long enough, each by the interval of its own
    /// prefix: they go out with the next decisions. The rest go on waiting. Returns the prefixes of
    /// those that wait no longer.
    pub fn flush_mrai_pending(&mut self, peer_ip: IpAddr, now: Instant) -> (r: Vec<Nlri<Ipv4Addr>>)
        ensures
            enumerates(r@, old(self)@.ripe(peer_ip, now)),
            final(self)@ == old(self)@.let_go(peer_ip, now, r@),
    {
        let ghost before = self@;
        let mut ready: Vec<Nlri<Ipv4Addr>> = Vec::new();
        let held: Table<Nlri<Ipv4Addr>, Route<Ipv4Addr>> = match self.mrai_pending.remove(&peer_ip) {
            Some(t) => t,
            None => {
                assert(ready@.to_set() =~= before.ripe(peer_ip, now));
                assert(self@ =~= before);
                return ready;
            },
        };
        let ghost waiting = before.mrai_pending[peer_ip];
        let ghost last = get_or(before.mrai_last_sent, peer_ip, Map::empty());
        let members = held.keys();
        let mut out: Vec<PrefixDecision<Ipv4Addr>> = Vec::new();
        let mut rest: Table<Nlri<Ipv4Addr>, Route<Ipv4Addr>> = Table::new();
        let mut i: usize = 0;
        assert(announcing(waiting, ready@) =~= Seq::empty());
        while i < members.len()
            invariant
                0 <= i <= members.len(),
                self@ == (DaemonView {
                    mrai_pending: before.mrai_pending.remove(peer_ip),
                    ..before
                }),
                held@ == waiting,
                enumerates(members@, waiting.dom()),
                last == get_or(before.mrai_last_sent, peer_ip, Map::empty()),
                ready@.no_duplicates(),
                out@ == announcing(waiting, ready@),
                forall|n: Nlri<Ipv4Addr>|
                    #[trigger] ready@.contains(n) <==> members@.take(i as int).contains(n)
                        && may_announce(last, n, now),
                forall|n: Nlri<Ipv4Addr>|
                    #[trigger] rest@.contains_key(n) <==> members@.take(i as int).contains(n)
                        && !may_announce(last, n, now),
                forall|n: Nlri<Ipv4Addr>| #[trigger] rest@.contains_key(n) ==> rest@[n] == waiting[n],
            decreases members.len() - i,
        {
            let n = members[i];
            let ghost old_ready = ready@;
            proof {
                lemma_take_contains(members@, i + 1);
                assert(!members@.take(i as int).contains(n)) by {
                    if members@.take(i as int).contains(n) {
                        let j = members@.take(i as int).index_of(n);
                        assert(members@[j] == members@[i as int]);
                    }
                }
                assert(members@.to_set().contains(n));
                assert(waiting.contains_key(n));
            }
            let ok = match self.mrai_last_sent.get(&peer_ip) {
                Some(t) => match t.get(&n) {
                    Some(at) => now.saturating_duration_since(*at) >= MRAI,
                    None => true,
                },
                None => true,
            };
            assert(ok == may_announce(last, n, now));
            assert(!old_ready.contains(n));
            if let Some(route) = held.get(&n) {
                if ok {
                    ready.push(n);
                    out.push(PrefixDecision::Announce(route.share()));
                    proof {
                        assert(announcing(waiting, ready@) =~= announcing(waiting, old_ready).push(
                            PrefixDecision::Announce(waiting[n]),
                        ));
                        assert forall|x: Nlri<Ipv4Addr>| #[trigger] ready@.contains(x) <==> (
                        old_ready.contains(x) || x == n) by {
                            if old_ready.contains(x) {
                                let j = old_ready.index_of(x);
                                assert(ready@[j] == x);
                            }
                            assert(ready@[ready@.len() - 1] == n);
                        }
                    }
                } else {
                    rest.insert(n, route.share());
                }
            }
            i = i + 1;
        }
        proof {
            assert(members@.take(i as int) =~= members@);
            assert forall|n: Nlri<Ipv4Addr>| waiting.contains_key(n) == members@.contains(n) by {
                assert(members@.to_set().contains(n) == waiting.dom().contains(n));
            }
            assert(ready@.to_set() =~= before.ripe(peer_ip, now));
            assert forall|n: Nlri<Ipv4Addr>| ready@.to_set().contains(n) == ready@.contains(n) by {}
            assert(rest@ =~= waiting.remove_keys(ready@.to_set()));
            if ready@.len() == 0 {
                assert(rest@ =~= waiting);
            }
        }
        self.mrai_pending.insert(peer_ip, rest);
        if ready.len() > 0 && self.rib.peer_types.contains_key(&peer_ip)
            && self.export_policies.contains_key(&peer_ip) && self.adj_ribs_out.contains_key(
            &peer_ip,
        ) {
            self.note_announced(peer_ip, &ready, now);
            let mut queue: Vec<PrefixDecision<Ipv4Addr>> = match self.pending_decisions.remove(
                &peer_ip,
            ) {
                Some(v) => v,
                None => Vec::new(),
            };
            queue.append(&mut out);
            self.pending_decisions.insert(peer_ip, queue);
        }
        assert(self@ =~= before.let_go(peer_ip, now, ready@));
        ready
    }

    /// Notes that prefixes are announced to a peer now.
    fn note_announced(&mut self, peer_ip: IpAddr, nlris: &Vec<Nlri<Ipv4Addr>>, now: Instant)
        ensures
            final(self)@ == (DaemonView {
                mrai_last_sent: old(self)@.mrai_last_sent.insert(
                    peer_ip,
                    announced_at(
                        get_or(old(self)@.mrai_last_sent, peer_ip, Map::empty()),
                        nlris@,
                        now,
                    ),
                ),
                ..old(self)@
            }),
    {
        let mut t: Table<Nlri<Ipv4Addr>, Instant> = match self.mrai_last_sent.remove(&peer_ip) {
            Some(t) => t,
            None => Table::new(),
        };
        let ghost last = t@;
        let mut i: usize = 0;
        assert(announced_at(last, nlris@.take(0), now) =~= last);
        while i < nlris.len()
            invariant
                0 <= i <= nlris.len(),
                t@ == announced_at(last, nlris@.take(i as int), now),
            decreases nlris.len() - i,
        {
            t.insert(nlris[i], now);
            i = i + 1;
            proof {
                lemma_take_contains(nlris@, i as int);
                assert(t@ =~= announced_at(last, nlris@.take(i as int), now));
            }
        }
        assert(nlris@.take(i as int) =~= nlris@);
        self.mrai_last_sent.insert(peer_ip, t);
        assert(self@.mrai_last_sent =~= old(self)@.mrai_last_sent.insert(peer_ip, t@));
    }
}

/// Drops the announcements that wait for prefixes which a peer is sent decisions about.
fn drop_told(
    pending: &mut Table<Nlri<Ipv4Addr>, Route<Ipv4Addr>>,
    decisions: &Vec<PrefixDecision<Ipv4Addr>>,
)
    ensures
        final(pending)@ == still_waiting(old(pending)@, decisions@),
{
    let mut i: usize = 0;
    while i < decisions.len()
        invariant
            0 <= i <= decisions.len(),
            pending@ == still_waiting(old(pending)@, decisions@.take(i as int)),
        decreases decisions.len() - i,
    {
        assert(decisions@.take(i + 1).drop_last() =~= decisions@.take(i as int));
        match &decisions[i] {
            PrefixDecision::Announce(route) => {
                let _ = pending.remove(&route.nlri);
            },
            PrefixDecision::Withdraw(n) => {
                let _ = pending.remove(n);
            },
            PrefixDecision::NoChange => {},
        }
        i = i + 1;
    }
    assert(decisions@.take(i as int) =~= decisions@);
}

/// The same decisions again.
fn share_decisions<A: Key>(decisions: &Vec<PrefixDecision<A>>) -> (r: Vec<PrefixDecision<A>>)
    ensures
        r@ == decisions@,
{
    let mut r: Vec<PrefixDecision<A>> = Vec::new();
    let mut i: usize = 0;
    while i < decisions.len()
        invariant
            0 <= i <= decisions.len(),
            r@.len() == i,
            forall|j: int| 0 <= j < i ==> (#[trigger] r@[j]) == decisions@[j],
        decreases decisions.len() - i,
    {
        let d = match &decisions[i] {
            PrefixDecision::Announce(route) => PrefixDecision::Announce(route.share()),
            PrefixDecision::Withdraw(n) => PrefixDecision::Withdraw(*n),
            PrefixDecision::NoChange => PrefixDecision::NoChange,
        };
        r.push(d);
        i = i + 1;
    }
    assert(r@ =~= decisions@);
    r
}

/// Paces decisions for an external peer.
fn pace(
    decisions: &Vec<PrefixDecision<Ipv4Addr>>,
    last_sent: &mut Table<Nlri<Ipv4Addr>, Instant>,
    pending: &mut Table<Nlri<Ipv4Addr>, Route<Ipv4Addr>>,
    now: Instant,
) -> (r: Vec<PrefixDecision<Ipv4Addr>>)
    ensures
        (Pace { last_sent: final(last_sent)@, pending: final(pending)@, sent: r@ }) == (Pace {
            last_sent: old(last_sent)@,
            pending: old(pending)@,
            sent: Seq::empty(),
        }).after_all(decisions@, now),
{
    let ghost start = Pace { last_sent: last_sent@, pending: pending@, sent: Seq::empty() };
    let mut r: Vec<PrefixDecision<Ipv4Addr>> = Vec::new();
    let mut i: usize = 0;
    while i < decisions.len()
        invariant
            0 <= i <= decisions.len(),
            (Pace { last_sent: last_sent@, pending: pending@, sent: r@ }) == start.after_all(
                decisions@.take(i as int),
                now,
            ),
        decreases decisions.len() - i,
    {
        proof {
            assert(decisions@.take(i + 1).drop_last() =~= decisions@.take(i as int));
            assert(decisions@.take(i + 1).last() == decisions@[i as int]);
        }
        match &decisions[i] {
            PrefixDecision::Announce(route) => {
                let n = route.nlri;
                let ok = match last_sent.get(&n) {
                    Some(at) => now.saturating_duration_since(*at) >= MRAI,
                    None => true,
                };
                if ok {
                    last_sent.insert(n, now);
                    let _ = pending.remove(&n);
                    r.push(PrefixDecision::Announce(route.share()));
                } else {
                    pending.insert(n, route.share());
                    r.push(PrefixDecision::NoChange);
                }
            },
            PrefixDecision::Withdraw(n) => {
                let _ = pending.remove(n);
                let _ = last_sent.remove(n);
                r.push(PrefixDecision::Withdraw(*n));
            },
            PrefixDecision::NoChange => {
                r.push(PrefixDecision::NoChange);
            },
        }
        i = i + 1;
    }
    assert(decisions@.take(i as int) =~= decisions@);
    r
}

/// Withdrawals are never held back: each goes out where it stands, and nothing waits or is on record
/// for its prefix afterwards.
pub proof fn withdrawals_go_out_at_once(
    p: Pace,
    s: Seq<PrefixDecision<Ipv4Addr>>,
    n: Nlri<Ipv4Addr>,
    now: Instant,
)
    ensures
        ({
            let r = p.after_all(s.push(PrefixDecision::Withdraw(n)), now);
            &&& r.sent.last() == PrefixDecision::<Ipv4Addr>::Withdraw(n)
            &&& !r.pending.contains_key(n)
            &&& !r.last_sent.contains_key(n)
        }),
{
    assert(s.push(PrefixDecision::Withdraw(n)).drop_last() =~= s);
}

/// Pacing drops nothing but announcements: for each decision there is one that goes out, which is
/// the same, or that there is no change in place of an announcement.
pub proof fn only_announcements_wait(
    p: Pace,
    s: Seq<PrefixDecision<Ipv4Addr>>,
    now: Instant,
    i: int,
)
    requires
        0 <= i < s.len(),
    ensures
        p.after_all(s, now).sent.len() == p.sent.len() + s.len(),
        p.after_all(s, now).sent[p.sent.len() + i] == s[i] || (s[i] is Announce && p.after_all(
            s,
            now,
        ).sent[p.sent.len() + i] is NoChange),
    decreases s.len(),
{
    let t = s.drop_last();
    if i < t.len() {
        only_announcements_wait(p, t, now, i);
        assert(t[i] == s[i]);
    } else {
        paced_length(p, t, now);
    }
}

/// One decision goes out for each that comes in.
proof fn paced_length(p: Pace, s: Seq<PrefixDecision<Ipv4Addr>>, now: Instant)
    ensures
        p.after_all(s, now).sent.len() == p.sent.len() + s.len(),
    decreases s.len(),
{
    if s.len() > 0 {
        paced_length(p, s.drop_last(), now);
    }
}

/// An announcement that has gone out keeps further ones for its prefix waiting until the interval has
/// passed; then the next one goes out, and none waits.
pub proof fn announcements_keep_their_distance(
    p: Pace,
    first: Route<Ipv4Addr>,
    second: Route<Ipv4Addr>,
    at: Instant,
    later: Instant,
)
    requires
        first.nlri == second.nlri,
        may_announce(p.last_sent, first.nlri, at),
    ensures
        ({
            let q = p.after(PrefixDecision::Announce(first), at);
            let r = q.after(PrefixDecision::Announce(second), later);
            &&& q.sent.last() == PrefixDecision::Announce(first)
            &&& later.elapsed_since(at) < MRAI ==> r.sent.last() is NoChange
                && r.pending.contains_key(first.nlri) && r.pending[first.nlri] == second
                && !may_announce(r.last_sent, first.nlri, later)
            &&& later.elapsed_since(at) >= MRAI ==> r.sent.last() == PrefixDecision::Announce(
                second,
            ) && !r.pending.contains_key(first.nlri)
        }),
{
}

/// A prefix that waits is ripe once its own interval has passed, whatever other prefixes do, and
/// letting the ripe ones go leaves just those that have to wait.
pub proof fn ripe_prefixes_leave_the_wait(
    s: DaemonView,
    p: IpAddr,
    n: Nlri<Ipv4Addr>,
    now: Instant,
    order: Seq<Nlri<Ipv4Addr>>,
)
    requires
        s.mrai_pending.contains_key(p),
        s.mrai_pending[p].contains_key(n),
        enumerates(order, s.ripe(p, now)),
    ensures
        s.ripe(p, now).contains(n) <==> may_announce(
            get_or(s.mrai_last_sent, p, Map::empty()),
            n,
            now,
        ),
        s.let_go(p, now, order).mrai_pending[p].contains_key(n) <==> !s.ripe(p, now).contains(n),
        s.let_go(p, now, order).ripe(p, now) == Set::<Nlri<Ipv4Addr>>::empty(),
{
    let t = s.let_go(p, now, order);
    assert(order.to_set().contains(n) == order.contains(n));
    if order.len() == 0 {
        assert(s.ripe(p, now) =~= Set::empty()) by {
            assert(order.to_set() =~= Set::empty());
        }
    }
    assert forall|m: Nlri<Ipv4Addr>| !t.ripe(p, now).contains(m) by {
        assert(order.to_set().contains(m) == order.contains(m));
        assert(order.to_set().contains(m) == s.ripe(p, now).contains(m));
    }
    assert(t.ripe(p, now) =~= Set::<Nlri<Ipv4Addr>>::empty());
}

/// An announcement that waits goes on waiting over decisions that are not about its prefix.
pub proof fn held_back_announcement_waits(
    p: Pace,
    s: Seq<PrefixDecision<Ipv4Addr>>,
    n: Nlri<Ipv4Addr>,
    now: Instant,
)
    requires
        p.pending.contains_key(n),
        forall|i: int| 0 <= i < s.len() ==> !concerns(#[trigger] s[i], n),
    ensures
        p.after_all(s, now).pending.contains_key(n),
        p.after_all(s, now).pending[n] == p.pending[n],
        p.after_all(s, now).last_sent.contains_key(n) == p.last_sent.contains_key(n),
        p.last_sent.contains_key(n) ==> p.after_all(s, now).last_sent[n] == p.last_sent[n],
    decreases s.len(),
{
    if s.len() > 0 {
        let t = s.drop_last();
        assert forall|i: int| 0 <= i < t.len() implies !concerns(#[trigger] t[i], n) by {
            assert(!concerns(s[i], n));
        }
        held_back_announcement_waits(p, t, n, now);
        assert(!concerns(s[s.len() - 1], n));
    }
}

/// An announcement that waits reaches the peer: once the interval of its prefix has passed it is among
/// the decisions that go out next, and waits no longer; before that it goes on waiting, and nothing
/// about its prefix is sent.
pub proof fn held_back_announcement_goes_out(
    s: DaemonView,
    p: IpAddr,
    n: Nlri<Ipv4Addr>,
    now: Instant,
    order: Seq<Nlri<Ipv4Addr>>,
)
    requires
        s.waits_under_own_prefix(),
        s.mrai_pending.contains_key(p),
        s.mrai_pending[p].contains_key(n),
        s.listens_v4(p, Audience::Everyone),
        enumerates(order, s.ripe(p, now)),
    ensures
        ({
            let t = s.let_go(p, now, order);
            let queue = get_or(s.pending_decisions, p, Seq::empty());
            let after = get_or(t.pending_decisions, p, Seq::empty());
            let held = PrefixDecision::Announce(s.mrai_pending[p][n]);
            if may_announce(get_or(s.mrai_last_sent, p, Map::empty()), n, now) {
                &&& after.contains(held)
                &&& s.update_senders.contains(p) ==> t.flushes().contains_key(p)
                    && t.flushes()[p].v4.contains(held)
                &&& !t.mrai_pending[p].contains_key(n)
                &&& t.mrai_last_sent[p][n] == now
            } else {
                &&& t.mrai_pending[p].contains_key(n)
                &&& t.mrai_pending[p][n] == s.mrai_pending[p][n]
                &&& forall|i: int|
                    queue.len() <= i < after.len() ==> !concerns(#[trigger] after[i], n)
            }
        }),
{
    let t = s.let_go(p, now, order);
    let queue = get_or(s.pending_decisions, p, Seq::empty());
    let after = get_or(t.pending_decisions, p, Seq::empty());
    let held = s.mrai_pending[p];
    assert(order.to_set().contains(n) == order.contains(n));
    if s.ripe(p, now).contains(n) {
        let j = order.index_of(n);
        assert(announcing(held, order)[j] == PrefixDecision::Announce(held[n]));
        assert(after[queue.len() + j] == PrefixDecision::Announce(held[n]));
    } else {
        assert forall|i: int| queue.len() <= i < after.len() implies !concerns(
            #[trigger] after[i],
            n,
        ) by {
            let k = order[i - queue.len()];
            assert(order.contains(k));
            assert(order.to_set().contains(k));
            assert(held.contains_key(k));
            assert(after[i] == PrefixDecision::Announce(held[k]));
        }
    }
}

/// Pacing decisions in two parts is pacing them together.
proof fn paced_in_parts(
    p: Pace,
    a: Seq<PrefixDecision<Ipv4Addr>>,
    b: Seq<PrefixDecision<Ipv4Addr>>,
    now: Instant,
)
    ensures
        p.after_all(a + b, now) == p.after_all(a, now).after_all(b, now),
    decreases b.len(),
{
    if b.len() == 0 {
        assert(a + b =~= a);
    } else {
        paced_in_parts(p, a, b.drop_last(), now);
        assert((a + b).drop_last() =~= a + b.drop_last());
    }
}

/// The state after decisions on a changed best route for an external peer, among others, and after more
/// decisions later.
pub open spec fn after_change_and_more(
    s: DaemonView,
    p: IpAddr,
    first: Seq<PrefixDecision<Ipv4Addr>>,
    route: Route<Ipv4Addr>,
    then: Seq<PrefixDecision<Ipv4Addr>>,
    at: Instant,
    more: Seq<PrefixDecision<Ipv4Addr>>,
    meanwhile: Instant,
) -> DaemonView {
    s.collected_v4(p, first.push(PrefixDecision::Announce(route)) + then, at).collected_v4(
        p,
        more,
        meanwhile,
    )
}

/// A change of a best route that comes too early for another announcement is not lost: over whatever
/// is decided of other prefixes meanwhile, the route reaches the peer once the interval of its prefix
/// has passed, and waits until then.
pub proof fn early_change_reaches_the_peer(
    s: DaemonView,
    p: IpAddr,
    first: Seq<PrefixDecision<Ipv4Addr>>,
    route: Route<Ipv4Addr>,
    then: Seq<PrefixDecision<Ipv4Addr>>,
    at: Instant,
    more: Seq<PrefixDecision<Ipv4Addr>>,
    meanwhile: Instant,
    now: Instant,
    order: Seq<Nlri<Ipv4Addr>>,
)
    requires
        s.waits_under_own_prefix(),
        s.listens_v4(p, Audience::Everyone),
        s.rib.peer_types[p] == PeerType::External,
        !may_announce(s.pace_of(p).after_all(first, at).last_sent, route.nlri, at),
        forall|i: int| 0 <= i < then.len() ==> !concerns(#[trigger] then[i], route.nlri),
        forall|i: int| 0 <= i < more.len() ==> !concerns(#[trigger] more[i], route.nlri),
        enumerates(
            order,
            after_change_and_more(s, p, first, route, then, at, more, meanwhile).ripe(p, now),
        ),
    ensures
        ({
            let t = after_change_and_more(s, p, first, route, then, at, more, meanwhile);
            let u = t.let_go(p, now, order);
            let last = s.pace_of(p).after_all(first, at).last_sent[route.nlri];
            &&& t.mrai_pending[p].contains_key(route.nlri)
            &&& now.elapsed_since(last) >= MRAI ==> {
                &&& u.pending_decisions[p].contains(PrefixDecision::Announce(route))
                &&& s.update_senders.contains(p) ==> u.flushes()[p].v4.contains(
                    PrefixDecision::Announce(route),
                )
                &&& !u.mrai_pending[p].contains_key(route.nlri)
            }
            &&& now.elapsed_since(last) < MRAI ==> {
                &&& u.mrai_pending[p].contains_key(route.nlri)
                &&& u.mrai_pending[p][route.nlri] == route
            }
        }),
{
    let n = route.nlri;
    let pace = s.pace_of(p);
    let head = first.push(PrefixDecision::Announce(route));
    let a = s.collected_v4(p, head + then, at);
    let t = after_change_and_more(s, p, first, route, then, at, more, meanwhile);
    assert(head.drop_last() =~= first);
    paced_in_parts(pace, head, then, at);
    let held = pace.after_all(head, at);
    assert(held.pending[n] == route);
    held_back_announcement_waits(held, then, n, at);
    held_back_announcement_waits(a.pace_of(p), more, n, meanwhile);
    assert(t.mrai_pending[p][n] == route);
    collecting_keeps_prefixes(s, p, head + then, at);
    collecting_keeps_prefixes(a, p, more, meanwhile);
    held_back_announcement_goes_out(t, p, n, now, order);
}

/// What is sent to a peer at once is never overtaken by an earlier announcement for the same prefix:
/// none waits any longer, and other prefixes wait as before.
pub proof fn told_prefixes_wait_no_longer(
    m: Map<Nlri<Ipv4Addr>, Route<Ipv4Addr>>,
    s: Seq<PrefixDecision<Ipv4Addr>>,
    n: Nlri<Ipv4Addr>,
)
    ensures
        (exists|i: int| 0 <= i < s.len() && concerns(#[trigger] s[i], n)) ==> !still_waiting(
            m,
            s,
        ).contains_key(n),
        (forall|i: int| 0 <= i < s.len() ==> !concerns(#[trigger] s[i], n)) ==> {
            &&& still_waiting(m, s).contains_key(n) == m.contains_key(n)
            &&& m.contains_key(n) ==> still_waiting(m, s)[n] == m[n]
        },
    decreases s.len(),
{
    if s.len() > 0 {
        let t = s.drop_last();
        told_prefixes_wait_no_longer(m, t, n);
        if exists|i: int| 0 <= i < s.len() && concerns(#[trigger] s[i], n) {
            let i = choose|i: int| 0 <= i < s.len() && concerns(#[trigger] s[i], n);
            if i < t.len() {
                assert(concerns(t[i], n));
            }
        } else {
            assert(!concerns(s[s.len() - 1], n));
            assert forall|i: int| 0 <= i < t.len() implies !concerns(#[trigger] t[i], n) by {
                assert(!concerns(s[i], n));
            }
        }
    }
}

impl DaemonView {
    /// Whether every announcement that waits is for the prefix that it stands under.
    pub open spec fn waits_under_own_prefix(self) -> bool {
        forall|p: IpAddr, n: Nlri<Ipv4Addr>|
            #![trigger self.mrai_pending[p].contains_key(n)]
            self.mrai_pending.contains_key(p) && self.mrai_pending[p].contains_key(n)
                ==> self.mrai_pending[p][n].nlri == n
    }
}

/// Pacing keeps announcements under their own prefixes.
proof fn pacing_keeps_prefixes(p: Pace, s: Seq<PrefixDecision<Ipv4Addr>>, now: Instant)
    requires
        keyed(p.pending),
    ensures
        keyed(p.after_all(s, now).pending),
    decreases s.len(),
{
    if s.len() > 0 {
        pacing_keeps_prefixes(p, s.drop_last(), now);
    }
}

/// Collecting decisions keeps announcements that wait under their own prefixes.
proof fn collecting_keeps_prefixes(
    s: DaemonView,
    p: IpAddr,
    decisions: Seq<PrefixDecision<Ipv4Addr>>,
    now: Instant,
)
    requires
        s.waits_under_own_prefix(),
    ensures
        s.collected_v4(p, decisions, now).waits_under_own_prefix(),
{
    let pace = s.pace_of(p);
    assert(keyed(pace.pending)) by {
        assert forall|n: Nlri<Ipv4Addr>| #[trigger] pace.pending.contains_key(n) implies
            pace.pending[n].nlri == n by {
            assert(s.mrai_pending[p].contains_key(n));
        }
    }
    pacing_keeps_prefixes(pace, decisions, now);
    let t = s.collected_v4(p, decisions, now);
    assert forall|q: IpAddr, n: Nlri<Ipv4Addr>|
        #![trigger t.mrai_pending[q].contains_key(n)]
        t.mrai_pending.contains_key(q) && t.mrai_pending[q].contains_key(n) implies
        t.mrai_pending[q][n].nlri == n by {
        if q != p || get_or(s.rib.peer_types, p, PeerType::External) != PeerType::External {
            assert(s.mrai_pending[q].contains_key(n));
        }
    }
}

/// Pacing announcements never mixes prefixes up: whatever is collected, sent at once or let go, each
/// announcement that waits is for the prefix that it stands under.
pub proof fn delivery_keeps_prefixes(
    s: DaemonView,
    p: IpAddr,
    decisions: Seq<PrefixDecision<Ipv4Addr>>,
    now: Instant,
    order: Seq<Nlri<Ipv4Addr>>,
)
    requires
        s.waits_under_own_prefix(),
    ensures
        s.collected_v4(p, decisions, now).waits_under_own_prefix(),
        s.told_v4(p, decisions).waits_under_own_prefix(),
        s.let_go(p, now, order).waits_under_own_prefix(),
{
    collecting_keeps_prefixes(s, p, decisions, now);
    let t = s.told_v4(p, decisions);
    assert forall|q: IpAddr, n: Nlri<Ipv4Addr>|
        #![trigger t.mrai_pending[q].contains_key(n)]
        t.mrai_pending.contains_key(q) && t.mrai_pending[q].contains_key(n) implies
        t.mrai_pending[q][n].nlri == n by {
        if q == p {
            told_prefixes_wait_no_longer(s.mrai_pending[p], decisions, n);
        }
        assert(s.mrai_pending[q].contains_key(n));
    }
    let u = s.let_go(p, now, order);
    assert forall|q: IpAddr, n: Nlri<Ipv4Addr>|
        #![trigger u.mrai_pending[q].contains_key(n)]
        u.mrai_pending.contains_key(q) && u.mrai_pending[q].contains_key(n) implies
        u.mrai_pending[q][n].nlri == n by {
        assert(s.mrai_pending[q].contains_key(n));
    }
}

} // verus!
