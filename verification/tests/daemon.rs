use std::sync::Arc;

use pathvectord::clock::{Instant, NANOS_PER_SEC};
use pathvectord::config::{ExportDefault, ImportDefault, PeerConfig};
use pathvectord::control::{Order, Reaction, SessionCommand, SessionEvent, SessionInfo};
use pathvectord::delivery::{FlushStep, Reply};
use pathvectord::fib::{FibManager, Pending};
use pathvectord::message::{
    AsPath, AsPathSegment, Capability, CeaseError, ClusterList, Community, GracefulRestartFamily,
    MpReachNlri, MpUnreachNlri, NotificationError, NotificationMessage, Origin, PathAttribute,
    PeerType, SegmentKind, UpdateMessage, UpdateMsgError, MAX_LEN, MAX_LEN_EXTENDED,
};
use pathvectord::net::{AfiSafi, IpAddr, Ipv4Addr, Ipv6Addr, NextHop, Nlri, Prefix};
use pathvectord::propagation::{Export, RouteEvent, MRAI};
use pathvectord::reflection::EndOfRib;
use pathvectord::rib::{
    settle_import, Best, BestPathChange, Decision, DefaultAction, Policy, RibOp,
};
use pathvectord::route::{Attributes, Route};
use pathvectord::session::{CatchUp, DumpStep, TerminationReason};
use pathvectord::state::{DaemonState, PrefixDecision};
use pathvectord::table::{Key, KeySet, Table};
use pathvectord::work::{Spread, Work};

fn ip4(s: &str) -> Ipv4Addr {
    let b: Vec<u8> = s.split('.').map(|x| x.parse().unwrap()).collect();
    Ipv4Addr::new(b[0], b[1], b[2], b[3])
}

fn ip6(s: &str) -> Ipv6Addr {
    let part = |t: &str| -> Vec<u16> {
        t.split(':').filter(|x| !x.is_empty()).map(|x| u16::from_str_radix(x, 16).unwrap()).collect()
    };
    let (head, tail) = match s.split_once("::") {
        Some((a, b)) => (part(a), part(b)),
        None => (part(s), Vec::new()),
    };
    let mut w: Vec<u16> = head.clone();
    w.resize(8 - tail.len(), 0);
    w.extend(tail);
    Ipv6Addr::new(w[0], w[1], w[2], w[3], w[4], w[5], w[6], w[7])
}

fn ip(s: &str) -> IpAddr {
    IpAddr::V4(ip4(s))
}

fn nlri(s: &str) -> Nlri<Ipv4Addr> {
    let (a, l) = s.split_once('/').unwrap();
    Nlri { addr: ip4(a), len: l.parse().unwrap() }
}

fn nlri_v6(s: &str) -> Nlri<Ipv6Addr> {
    let (a, l) = s.split_once('/').unwrap();
    Nlri { addr: ip6(a), len: l.parse().unwrap() }
}

fn path(asns: Vec<u32>) -> Arc<AsPath> {
    Arc::new(AsPath {
        segments: if asns.is_empty() {
            vec![]
        } else {
            vec![AsPathSegment { kind: SegmentKind::AsSequence, asns }]
        },
    })
}

fn route<A>(nlri: Nlri<A>, asns: Vec<u32>, next_hop: Option<NextHop>, kind: PeerType) -> Route<A> {
    let mut attributes = Attributes::none();
    attributes.origin = Some(Origin::Igp);
    attributes.as_path = Some(path(asns));
    Route {
        nlri,
        next_hop,
        peer_type: kind,
        stale: false,
        received_at: Instant { nanos: 0 },
        attributes,
    }
}

fn announce(asns: Vec<u32>, next_hop: &str, prefixes: &[&str]) -> UpdateMessage {
    UpdateMessage {
        withdrawn: vec![],
        attributes: vec![
            PathAttribute::Origin(Origin::Igp),
            PathAttribute::AsPath(path(asns)),
            PathAttribute::NextHop(ip4(next_hop)),
        ],
        announced: prefixes.iter().map(|p| nlri(p)).collect(),
    }
}

fn announce_v6(asns: Vec<u32>, next_hop: &str, prefix: &str) -> UpdateMessage {
    UpdateMessage {
        withdrawn: vec![],
        attributes: vec![
            PathAttribute::Origin(Origin::Igp),
            PathAttribute::AsPath(path(asns)),
            PathAttribute::MpReachNlri(MpReachNlri {
                afi_safi: AfiSafi::ipv6_unicast(),
                next_hop: NextHop::V6(ip6(next_hop)),
                prefixes: vec![Prefix::V6(nlri_v6(prefix))],
            }),
        ],
        announced: vec![],
    }
}

fn withdraw(prefixes: &[&str]) -> UpdateMessage {
    UpdateMessage {
        withdrawn: prefixes.iter().map(|p| nlri(p)).collect(),
        attributes: vec![],
        announced: vec![],
    }
}

/// The marker that ends the initial IPv4 table.
fn end_of_v4() -> UpdateMessage {
    UpdateMessage { withdrawn: vec![], attributes: vec![], announced: vec![] }
}

/// The marker that ends the initial IPv6 table.
fn end_of_v6() -> UpdateMessage {
    UpdateMessage {
        withdrawn: vec![],
        attributes: vec![PathAttribute::MpUnreachNlri(MpUnreachNlri {
            afi_safi: AfiSafi::ipv6_unicast(),
            prefixes: vec![],
        })],
        announced: vec![],
    }
}

fn v6_caps() -> Vec<Capability> {
    vec![Capability::MultiProtocol(AfiSafi::ipv6_unicast())]
}

fn restart_cap(flags: u8, time: u16, families: &[AfiSafi]) -> Capability {
    Capability::GracefulRestart {
        restart_flags: flags,
        restart_time: time,
        families: families
            .iter()
            .map(|f| GracefulRestartFamily { afi_safi: *f, forwarding_preserved: true })
            .collect(),
    }
}

fn config(address: IpAddr, remote_as: u32) -> PeerConfig {
    PeerConfig {
        address,
        port: 179,
        remote_as,
        import_default: Some(ImportDefault::Accept),
        import_default_v6: None,
        export_default: Some(ExportDefault::Accept),
        md5_password: None,
        is_rr_client: false,
        next_hop_self: false,
        hold_time: None,
        shutdown_message: None,
        connect_retry_time: None,
        max_prefixes_v4: None,
        max_prefixes_v6: None,
        max_prefixes_restart: None,
        role: None,
    }
}

/// A small decision process and export engine for one family.
struct Engine<A> {
    candidates: Vec<(IpAddr, Route<A>)>,
    best: Vec<(IpAddr, Route<A>)>,
    /// What each peer was told last.
    told: Vec<(IpAddr, Route<A>)>,
}

fn rank<A>(r: &Route<A>) -> (u32, usize) {
    let length = match &r.attributes.as_path {
        Some(p) => p.segments.iter().map(|s| s.asns.len()).sum(),
        None => 0,
    };
    (u32::MAX - r.attributes.local_pref.unwrap_or(100), length)
}

impl<A: Key + PartialEq> Engine<A> {
    fn new() -> Self {
        Engine { candidates: vec![], best: vec![], told: vec![] }
    }

    fn pick(&mut self, n: Nlri<A>, up: bool) -> BestPathChange<A> {
        let mut chosen: Option<&(IpAddr, Route<A>)> = None;
        for c in &self.candidates {
            if c.1.nlri == n && up && chosen.map_or(true, |d| rank(&c.1) < rank(&d.1)) {
                chosen = Some(c);
            }
        }
        let next = chosen.map(|(p, r)| (*p, r.share()));
        let i = self.best.iter().position(|(_, r)| r.nlri == n);
        match (i, next) {
            (None, None) => BestPathChange::Unchanged,
            (Some(i), None) => {
                self.best.remove(i);
                BestPathChange::Withdrawn(n)
            }
            (i, Some((p, r))) => {
                if let Some(i) = i {
                    if self.best[i].0 == p && self.best[i].1.content_eq(&r) {
                        return BestPathChange::Unchanged;
                    }
                    self.best.remove(i);
                }
                self.best.push((p, r.share()));
                BestPathChange::Announced(n, Best { peer: p, route: r })
            }
        }
    }

    fn step(&mut self, peer: IpAddr, op: RibOp<A>, up: bool, out: &mut Vec<BestPathChange<A>>) {
        match op {
            RibOp::Insert(r) => {
                let n = r.nlri;
                self.candidates.retain(|(p, c)| !(*p == peer && c.nlri == n));
                self.candidates.push((peer, r));
                let c = self.pick(n, up);
                out.push(c);
            }
            RibOp::Withdraw(n) => {
                self.candidates.retain(|(p, c)| !(*p == peer && c.nlri == n));
                let c = self.pick(n, up);
                out.push(c);
            }
            RibOp::WithdrawPeer => {
                let gone: Vec<Nlri<A>> =
                    self.candidates.iter().filter(|(p, _)| *p == peer).map(|(_, r)| r.nlri).collect();
                self.candidates.retain(|(p, _)| *p != peer);
                for n in gone {
                    let c = self.pick(n, up);
                    out.push(c);
                }
            }
            RibOp::RecomputeAll => {
                let mut all: Vec<Nlri<A>> = vec![];
                for (_, r) in &self.candidates {
                    if !all.contains(&r.nlri) {
                        all.push(r.nlri);
                    }
                }
                for n in all {
                    match self.pick(n, up) {
                        BestPathChange::Unchanged => {}
                        c => out.push(c),
                    }
                }
            }
            RibOp::Evaluate(_) | RibOp::Reevaluate(_) => unreachable!(),
        }
    }

    fn run(
        &mut self,
        peer: IpAddr,
        ops: &Vec<RibOp<A>>,
        policy: Policy,
        up: bool,
    ) -> Vec<BestPathChange<A>> {
        let mut out = vec![];
        for op in ops {
            let ready = match op {
                RibOp::Insert(r) => Some(RibOp::Insert(r.share())),
                RibOp::Withdraw(n) => Some(RibOp::Withdraw(*n)),
                RibOp::WithdrawPeer => Some(RibOp::WithdrawPeer),
                RibOp::RecomputeAll => Some(RibOp::RecomputeAll),
                RibOp::Evaluate(r) => {
                    settle_import(RibOp::Evaluate(r.share()), policy.decide(Decision::Next), r.share())
                }
                RibOp::Reevaluate(r) => settle_import(
                    RibOp::Reevaluate(r.share()),
                    policy.decide(Decision::Next),
                    r.share(),
                ),
            };
            if let Some(op) = ready {
                self.step(peer, op, up, &mut out);
            }
        }
        out
    }

    fn export(
        &mut self,
        peer: IpAddr,
        e: &Export<A>,
        allowed: bool,
        reflects: bool,
        next_hop: Option<NextHop>,
    ) -> Vec<PrefixDecision<A>> {
        let mut out = vec![];
        let external = e.frame.peer_type == PeerType::External;
        for n in &e.nlris {
            let best = self.best.iter().find(|(_, r)| r.nlri == *n);
            let wanted = match best {
                Some((p, r)) if *p != peer && allowed && !e.deferred => {
                    let both_internal = !external && r.peer_type == PeerType::Internal;
                    if both_internal && !reflects || external && next_hop.is_none() {
                        None
                    } else {
                        let mut w = r.share();
                        if external {
                            let mut asns = vec![e.local_as];
                            for s in &r.attributes.as_path.as_ref().unwrap().segments {
                                asns.extend(s.asns.iter().copied());
                            }
                            w.attributes.as_path = Some(path(asns));
                            w.attributes.local_pref = None;
                            w.next_hop = next_hop;
                        }
                        Some(w)
                    }
                }
                _ => None,
            };
            let i = self.told.iter().position(|(p, r)| *p == peer && r.nlri == *n);
            out.push(match (i, wanted) {
                (None, None) => PrefixDecision::NoChange,
                (Some(i), None) => {
                    self.told.remove(i);
                    PrefixDecision::Withdraw(*n)
                }
                (Some(i), Some(w)) if self.told[i].1 == w => PrefixDecision::NoChange,
                (i, Some(w)) => {
                    if let Some(i) = i {
                        self.told.remove(i);
                    }
                    self.told.push((peer, w.share()));
                    PrefixDecision::Announce(w)
                }
            });
        }
        out
    }

    fn count(&self, peer: IpAddr) -> usize {
        self.told.iter().filter(|(p, _)| *p == peer).count()
    }
}

/// One message on the way to a peer.
enum Sent {
    Announced(Route<Ipv4Addr>),
    Withdrawn(Nlri<Ipv4Addr>),
    AnnouncedV6(Route<Ipv6Addr>),
    WithdrawnV6(Nlri<Ipv6Addr>),
    Filler,
}

/// The daemon with everything around it.
struct Lab {
    state: DaemonState,
    v4: Engine<Ipv4Addr>,
    v6: Engine<Ipv6Addr>,
    queue: Vec<(IpAddr, Sent)>,
    /// Peers that take one message at a time.
    narrow: Vec<IpAddr>,
    markers: Vec<(IpAddr, EndOfRib)>,
    events: Vec<RouteEvent<Ipv4Addr>>,
    orders: Vec<Order>,
    up: bool,
    now: Instant,
}

impl Lab {
    fn new(state: DaemonState) -> Self {
        Lab {
            state,
            v4: Engine::new(),
            v6: Engine::new(),
            queue: vec![],
            narrow: vec![],
            markers: vec![],
            events: vec![],
            orders: vec![],
            up: true,
            now: Instant { nanos: 1_000 * NANOS_PER_SEC },
        }
    }

    fn of(local_as: u32, peers: &Vec<PeerConfig>, cluster_id: Option<u32>) -> Self {
        let mut senders = KeySet::new();
        for p in peers {
            senders.insert(p.address);
        }
        let caps = vec![];
        Lab::new(DaemonState::new(
            local_as,
            Ipv4Addr::new(10, 0, 0, 1),
            None,
            cluster_id,
            peers,
            senders,
            caps,
        ))
    }

    fn post(&mut self, peer: IpAddr, what: Sent) -> bool {
        if self.narrow.contains(&peer) && self.queue.iter().any(|(p, _)| *p == peer) {
            return false;
        }
        self.queue.push((peer, what));
        true
    }

    fn post_v4(&mut self, peer: IpAddr, list: &Vec<PrefixDecision<Ipv4Addr>>) -> bool {
        for d in list {
            let ok = match d {
                PrefixDecision::Announce(r) => self.post(peer, Sent::Announced(r.share())),
                PrefixDecision::Withdraw(n) => self.post(peer, Sent::Withdrawn(*n)),
                PrefixDecision::NoChange => true,
            };
            if !ok {
                return false;
            }
        }
        true
    }

    fn post_v6(&mut self, peer: IpAddr, list: &Vec<PrefixDecision<Ipv6Addr>>) -> bool {
        for d in list {
            let ok = match d {
                PrefixDecision::Announce(r) => self.post(peer, Sent::AnnouncedV6(r.share())),
                PrefixDecision::Withdraw(n) => self.post(peer, Sent::WithdrawnV6(*n)),
                PrefixDecision::NoChange => true,
            };
            if !ok {
                return false;
            }
        }
        true
    }

    fn export_v4(&mut self, peer: IpAddr, e: &Export<Ipv4Addr>) -> Vec<PrefixDecision<Ipv4Addr>> {
        let allowed = match self.state.export_policies.get(&peer) {
            Some(p) => p.decide(Decision::Next) == Decision::Accept,
            None => false,
        };
        let reflects = self.state.adj_ribs_out.get(&peer).map_or(false, |t| t.reflects);
        self.v4.export(peer, e, allowed, reflects, e.next_hop.map(NextHop::V4))
    }

    fn export_v6(&mut self, peer: IpAddr, e: &Export<Ipv6Addr>) -> Vec<PrefixDecision<Ipv6Addr>> {
        let allowed = match self.state.export_policies_v6.get(&peer) {
            Some(p) => p.decide(Decision::Next) == Decision::Accept,
            None => false,
        };
        let reflects = self.state.adj_ribs_out_v6.get(&peer).map_or(false, |t| t.reflects);
        self.v6.export(peer, e, allowed, reflects, e.next_hop.map(NextHop::V6))
    }

    fn send_v4(&mut self, peer: IpAddr, e: &Export<Ipv4Addr>) -> bool {
        let list = self.export_v4(peer, e);
        let ok = self.post_v4(peer, &list);
        let count = self.v4.count(peer);
        self.state.delivered_v4(peer, &list, count, ok);
        ok
    }

    fn send_v6(&mut self, peer: IpAddr, e: &Export<Ipv6Addr>) -> bool {
        let list = self.export_v6(peer, e);
        let ok = self.post_v6(peer, &list);
        let count = self.v6.count(peer);
        self.state.delivered_v6(peer, count, ok);
        ok
    }

    fn spread_v4(&mut self, exports: &Table<IpAddr, Export<Ipv4Addr>>, collect: bool) {
        let mut replies = vec![];
        for i in 0..exports.len() {
            let peer = exports.key_at(i);
            let e = exports.value_at(i);
            if collect {
                let decisions = self.export_v4(peer, e);
                replies.push(Reply { peer, decisions, advertised: self.v4.count(peer) });
            } else {
                self.send_v4(peer, e);
            }
        }
        if collect {
            self.state.take_replies_v4(replies, self.now);
        }
    }

    fn spread_v6(&mut self, exports: &Table<IpAddr, Export<Ipv6Addr>>, collect: bool) {
        let mut replies = vec![];
        for i in 0..exports.len() {
            let peer = exports.key_at(i);
            let e = exports.value_at(i);
            if collect {
                let decisions = self.export_v6(peer, e);
                replies.push(Reply { peer, decisions, advertised: self.v6.count(peer) });
            } else {
                self.send_v6(peer, e);
            }
        }
        if collect {
            self.state.take_replies_v6(replies);
        }
    }

    fn flush(&mut self) {
        let batches = self.state.flush_pending();
        for i in 0..batches.len() {
            let peer = batches.key_at(i);
            let b = batches.value_at(i);
            let mut step = b.first_step();
            loop {
                let ok = match step {
                    FlushStep::SendV4 => self.post_v4(peer, &b.v4),
                    FlushStep::SendV6 => self.post_v6(peer, &b.v6),
                    FlushStep::Done { stalled } => {
                        self.state.sent(peer, !stalled);
                        break;
                    }
                };
                step = b.next_step(step, ok);
            }
        }
    }

    fn finish(&mut self, work: Work) {
        let closed = Policy::new(DefaultAction::Reject);
        let policy = self.state.import_policies.get(&work.peer).copied().unwrap_or(closed);
        let policy_v6 = self.state.import_policies_v6.get(&work.peer).copied().unwrap_or(closed);
        let changes = self.v4.run(work.peer, &work.ops, policy, self.up);
        let changes_v6 = self.v6.run(work.peer, &work.ops_v6, policy_v6, self.up);
        let s = self.state.settle(work, changes, changes_v6);
        self.spread_v4(&s.exports, s.collect);
        self.spread_v6(&s.exports_v6, s.collect_v6);
        self.events.extend(s.events);
        self.flush();
    }

    fn follow(&mut self, peer: IpAddr, steps: &Vec<DumpStep>) {
        for s in steps {
            let ok = match s {
                DumpStep::ExportV4(e) => self.send_v4(peer, e),
                DumpStep::ExportV6(e) => self.send_v6(peer, e),
                DumpStep::EorV4 => {
                    self.markers.push((peer, EndOfRib::V4));
                    true
                }
                DumpStep::EorV6 => {
                    self.markers.push((peer, EndOfRib::V6));
                    true
                }
            };
            if !ok {
                break;
            }
        }
    }

    fn catch_up(&mut self, c: CatchUp) {
        for t in [&c.v4, &c.v6] {
            for i in 0..t.len() {
                self.follow(t.key_at(i), t.value_at(i));
            }
        }
    }

    /// A candidate of some peer outside of the configuration.
    fn insert(&mut self, peer: IpAddr, r: Route<Ipv4Addr>) {
        let mut w = Work::idle(peer);
        w.ops.push(RibOp::Insert(r));
        self.finish(w);
    }

    fn insert_v6(&mut self, peer: IpAddr, r: Route<Ipv6Addr>) {
        let mut w = Work::idle(peer);
        w.ops_v6.push(RibOp::Insert(r));
        self.finish(w);
    }

    fn establish(&mut self, peer: IpAddr, kind: PeerType, caps: Vec<Capability>) {
        self.establish_at(peer, kind, caps, None);
    }

    fn establish_at(
        &mut self,
        peer: IpAddr,
        kind: PeerType,
        caps: Vec<Capability>,
        local: Option<IpAddr>,
    ) {
        let id = match peer {
            IpAddr::V4(a) => a,
            IpAddr::V6(_) => Ipv4Addr::new(9, 9, 9, 9),
        };
        let o = self.state.on_established(peer, id, kind, 90, &caps, local, self.now);
        self.follow(peer, &o.steps);
        let c = self.state.recompute_selection_deferral();
        self.catch_up(c);
    }

    fn terminate(&mut self, peer: IpAddr, reason: TerminationReason) {
        let d = self.state.on_session_end(peer, reason, self.now);
        self.v4.told.retain(|(p, _)| *p != peer);
        self.v6.told.retain(|(p, _)| *p != peer);
        self.finish(d.work);
    }

    fn update(&mut self, peer: IpAddr, m: UpdateMessage) -> Option<NotificationMessage> {
        let r = self.state.on_route_update(peer, m, self.now);
        if let Some(w) = r.work {
            self.finish(w);
        }
        let c = self.state.recompute_selection_deferral();
        self.catch_up(c);
        let said = r.notification.is_some();
        let orders = self.state.orders_after(peer, r.notification);
        let mut n = None;
        for o in orders {
            match o.command {
                SessionCommand::Notification(m) if said && n.is_none() => n = Some(m),
                _ => self.orders.push(o),
            }
        }
        n
    }

    /// Hands an event of a session to the daemon, and does what it leaves to be done.
    fn react(&mut self, peer: IpAddr, event: SessionEvent) {
        match self.state.on_session_event(peer, event, self.now) {
            Reaction::Opened(o) => self.follow(peer, &o.steps),
            Reaction::Ended(d) => self.finish(d.work),
            Reaction::Heard(r) => {
                if let Some(w) = r.work {
                    self.finish(w);
                }
            }
        }
        let c = self.state.recompute_selection_deferral();
        self.catch_up(c);
    }

    fn originate(&mut self, r: Route<Ipv4Addr>) {
        let o = self.state.originate_route(r);
        self.events.extend(o.events);
        self.finish(o.work);
    }

    fn originate_v6(&mut self, r: Route<Ipv6Addr>) {
        let o = self.state.originate_route_v6(r);
        self.finish(o.work);
    }

    fn take_back(&mut self, n: Nlri<Ipv4Addr>) {
        let o = self.state.withdraw_originated_route(n);
        self.finish(o.work);
    }

    fn take_back_v6(&mut self, n: Nlri<Ipv6Addr>) {
        let o = self.state.withdraw_originated_route_v6(n);
        self.finish(o.work);
    }

    fn set_import(&mut self, peer: IpAddr, action: DefaultAction) {
        if let Some(w) = self.state.set_import_default(peer, action) {
            self.finish(w);
        }
    }

    fn set_export(&mut self, peer: IpAddr, action: DefaultAction) {
        if let Some(e) = self.state.set_export_default(peer, action) {
            self.send_v4(peer, &e);
        }
    }

    fn receive(&mut self, peer: IpAddr) -> Option<Sent> {
        let i = self.queue.iter().position(|(p, _)| *p == peer)?;
        Some(self.queue.remove(i).1)
    }

    fn drain(&mut self) {
        self.queue.clear();
    }

    fn has(&self, n: &str) -> bool {
        self.state.rib.loc_rib.get(&nlri(n)).is_some()
    }
}

fn is_announced(s: Option<Sent>, n: &str) -> bool {
    matches!(s, Some(Sent::Announced(r)) if r.nlri == nlri(n))
}

fn is_withdrawn(s: Option<Sent>, n: &str) -> bool {
    matches!(s, Some(Sent::Withdrawn(x)) if x == nlri(n))
}

fn lab(local_as: u32, peers: &[(IpAddr, u32)]) -> Lab {
    let list: Vec<PeerConfig> = peers.iter().map(|(a, n)| config(*a, *n)).collect();
    Lab::of(local_as, &list, None)
}

fn reflector(cluster_id: u32, clients: &[IpAddr], others: &[IpAddr]) -> Lab {
    let mut list: Vec<PeerConfig> = vec![];
    for a in clients {
        let mut c = config(*a, 65001);
        c.is_rr_client = true;
        list.push(c);
    }
    for a in others {
        list.push(config(*a, 65001));
    }
    Lab::of(65001, &list, Some(cluster_id))
}

const EXT: PeerType = PeerType::External;
const INT: PeerType = PeerType::Internal;

// The state of a new daemon.

#[test]
fn test_daemon_state_new_creates_maps_for_all_peers() {
    let (a, b) = (ip("10.0.0.2"), ip("10.0.0.3"));
    let l = lab(65001, &[(a, 65002), (b, 65003)]);
    for p in [a, b] {
        assert!(l.state.import_policies.contains_key(&p));
        assert!(l.state.export_policies.contains_key(&p));
        assert!(l.state.adj_ribs_in.contains_key(&p));
        assert!(l.state.adj_ribs_out.contains_key(&p));
        assert!(l.state.update_senders.contains(&p));
    }
}

#[test]
fn test_daemon_state_new_ebgp_gets_reject_default_when_omitted() {
    let p = ip("10.0.0.2");
    let mut c = config(p, 65002);
    c.import_default = None;
    c.export_default = None;
    let l = Lab::of(65001, &vec![c], None);
    let d = l.state.import_policies.get(&p).unwrap().decide(Decision::Next);
    assert!(matches!(d, Decision::Reject), "eBGP with no import_default must reject by default");
}

#[test]
fn test_import_default_v6_falls_back_to_import_default() {
    let p = ip("10.0.0.2");
    let l = Lab::of(65001, &vec![config(p, 65002)], None);
    assert_eq!(
        l.state.import_policies_v6.get(&p).unwrap().decide(Decision::Next),
        Decision::Accept,
        "IPv6 policy must fall back to import_default"
    );
}

#[test]
fn test_import_default_v6_overrides_import_default() {
    let p = ip("10.0.0.2");
    let mut c = config(p, 65002);
    c.import_default_v6 = Some(ImportDefault::Reject);
    let l = Lab::of(65001, &vec![c], None);
    assert_eq!(l.state.import_policies.get(&p).unwrap().decide(Decision::Next), Decision::Accept);
    assert_eq!(l.state.import_policies_v6.get(&p).unwrap().decide(Decision::Next), Decision::Reject);
}

#[test]
fn the_last_entry_for_an_address_counts() {
    let p = ip("10.0.0.2");
    let mut c = config(p, 65001);
    c.import_default = Some(ImportDefault::Reject);
    let l = Lab::of(65001, &vec![config(p, 65002), c], None);
    assert_eq!(l.state.rib.peer_remote_as.get(&p), Some(&65001));
    assert_eq!(l.state.import_policies.get(&p).unwrap().default, DefaultAction::Reject);
    assert_eq!(l.state.peer_config_types.get(&p), Some(&INT));
}

// The beginning of a session.

#[test]
fn test_on_established_records_peer_type() {
    let p = ip("10.0.0.2");
    let mut l = lab(65001, &[(p, 65002)]);
    assert!(!l.state.rib.peer_types.contains_key(&p));
    l.establish(p, EXT, vec![]);
    assert_eq!(l.state.rib.peer_types.get(&p), Some(&EXT));
}

#[test]
fn test_on_established_empty_rib_sends_nothing() {
    let p = ip("10.0.0.2");
    let mut l = lab(65001, &[(p, 65002)]);
    l.establish(p, EXT, vec![]);
    assert!(l.receive(p).is_none(), "empty RIB should produce no messages on establish");
}

#[test]
fn test_on_established_sends_full_table_dump() {
    let p = ip("10.0.0.2");
    let mut l = lab(65001, &[(p, 65002)]);
    l.insert(
        ip("10.0.0.9"),
        route(nlri("10.0.0.0/8"), vec![65009], Some(NextHop::V4(ip4("10.0.0.9"))), EXT),
    );
    l.establish(p, EXT, vec![]);
    assert!(is_announced(l.receive(p), "10.0.0.0/8"));
    assert_eq!(l.markers, vec![(p, EndOfRib::V4)]);
}

#[test]
fn test_on_established_ebgp_next_hop_uses_local_addr_not_router_id() {
    let p = ip("10.0.0.2");
    let mut l = lab(65001, &[(p, 65002)]);
    assert_eq!(l.state.rib.local_bgp_id, ip4("10.0.0.1"));
    l.insert(
        ip("10.0.0.9"),
        route(nlri("10.0.0.0/8"), vec![65009], Some(NextHop::V4(ip4("10.0.0.9"))), EXT),
    );
    l.establish_at(p, EXT, vec![], Some(ip("172.31.50.20")));
    match l.receive(p) {
        Some(Sent::Announced(r)) => {
            assert_eq!(r.next_hop, Some(NextHop::V4(ip4("172.31.50.20"))));
            assert_ne!(r.next_hop, Some(NextHop::V4(ip4("10.0.0.1"))));
        }
        _ => panic!("full-table dump UPDATE expected"),
    }
}

#[test]
fn test_propagate_to_all_peers_ebgp_next_hop_uses_local_addr() {
    let p = ip("10.0.0.2");
    let mut l = lab(65001, &[(p, 65002)]);
    l.establish_at(p, EXT, vec![], Some(ip("172.31.50.20")));
    l.drain();
    l.insert(
        ip("10.0.0.9"),
        route(nlri("192.0.2.0/24"), vec![65009], Some(NextHop::V4(ip4("10.0.0.9"))), EXT),
    );
    let exports = l.state.propagate_to_all_peers(&vec![nlri("192.0.2.0/24")]);
    l.spread_v4(&exports, true);
    l.flush();
    match l.receive(p) {
        Some(Sent::Announced(r)) => {
            assert_eq!(r.next_hop, Some(NextHop::V4(ip4("172.31.50.20"))));
        }
        _ => panic!("propagated UPDATE expected"),
    }
}

#[test]
fn test_on_established_export_reject_sends_nothing() {
    let p = ip("10.0.0.2");
    let mut c = config(p, 65002);
    c.export_default = Some(ExportDefault::Reject);
    let mut l = Lab::of(65001, &vec![c], None);
    l.insert(ip("10.0.0.9"), route(nlri("10.0.0.0/8"), vec![], None, EXT));
    l.establish(p, EXT, vec![]);
    assert!(l.receive(p).is_none());
    assert_eq!(l.state.rib.loc_rib.len(), 1, "RIB must be unchanged");
}

#[test]
fn test_on_established_sends_v6_full_table_dump() {
    let p = ip("10.0.0.2");
    let mut l = lab(65001, &[(p, 65002)]);
    l.insert_v6(
        ip("10.0.0.9"),
        route(nlri_v6("2001:db8::/32"), vec![65009], Some(NextHop::V6(ip6("2001:db8::9"))), EXT),
    );
    l.state.rib.local_ipv6 = Some(ip6("2001:db8::1"));
    l.establish(p, EXT, v6_caps());
    assert!(
        matches!(l.receive(p), Some(Sent::AnnouncedV6(r)) if r.nlri == nlri_v6("2001:db8::/32")),
        "Established full-table dump must include the v6 route"
    );
    assert_eq!(l.markers, vec![(p, EndOfRib::V4), (p, EndOfRib::V6)]);
}

#[test]
fn test_ipv6_full_table_dump_not_sent_to_non_ipv6_capable_peer() {
    let p = ip("10.0.0.2");
    let mut l = lab(65001, &[(p, 65002)]);
    l.state.rib.local_ipv6 = Some(ip6("2001:db8::1"));
    l.insert_v6(
        ip("10.0.0.9"),
        route(nlri_v6("2001:db8::/32"), vec![65009], Some(NextHop::V6(ip6("2001:db8::9"))), EXT),
    );
    l.establish(p, EXT, vec![]);
    assert!(l.receive(p).is_none());
    assert_eq!(l.markers, vec![(p, EndOfRib::V4)]);
}

#[test]
fn test_on_established_unknown_peer_is_noop() {
    let p = ip("10.0.0.2");
    let mut l = lab(65001, &[(p, 65002)]);
    l.establish(ip("10.0.0.99"), EXT, vec![]);
    assert!(!l.state.rib.peer_types.contains_key(&p));
    assert!(l.markers.is_empty());
}

#[test]
fn test_on_established_missing_adj_rib_out_logs_and_returns() {
    let p = ip("10.0.0.2");
    let mut l = lab(65001, &[(p, 65002)]);
    l.state.adj_ribs_out.remove(&p);
    l.establish(p, EXT, vec![]);
    assert!(l.state.rib.peer_types.contains_key(&p));
}

#[test]
fn test_on_established_missing_update_sender_logs_and_returns() {
    let p = ip("10.0.0.2");
    let mut l = lab(65001, &[(p, 65002)]);
    l.state.update_senders.remove(&p);
    l.establish(p, EXT, vec![]);
    assert!(l.state.rib.peer_types.contains_key(&p));
}

#[test]
fn on_established_marks_stalled_when_channel_full() {
    let p = ip("10.0.0.2");
    let mut l = lab(65001, &[(p, 1)]);
    l.narrow.push(p);
    l.insert(
        ip("10.0.0.9"),
        route(nlri("10.0.0.0/8"), vec![65002], Some(NextHop::V4(ip4("10.0.0.9"))), EXT),
    );
    l.post(p, Sent::Filler);
    l.establish(p, EXT, vec![]);
    assert!(!l.state.take_stalled_peers().is_empty());
    assert!(l.markers.is_empty(), "nothing follows a part that the peer did not take");
}

#[test]
fn capabilities_of_both_sides_are_negotiated() {
    let p = ip("10.0.0.2");
    let mut l = lab(65001, &[(p, 65002)]);
    l.state.config_capabilities =
        vec![Capability::ExtendedMessage, Capability::RouteRefresh, Capability::FourByteAsn(65001)];
    l.establish(
        p,
        EXT,
        vec![
            Capability::ExtendedMessage,
            Capability::RouteRefresh,
            Capability::FourByteAsn(65002),
            Capability::MultiProtocol(AfiSafi::ipv6_unicast()),
        ],
    );
    assert_eq!(l.state.negotiated_max_len.get(&p), Some(&MAX_LEN_EXTENDED));
    assert!(l.state.route_refresh_peers.contains(&p));
    assert!(l.state.four_byte_peers.contains(&p));
    assert!(l.state.ipv6_capable_peers.contains(&p));

    l.terminate(p, TerminationReason::Clean);
    assert!(!l.state.route_refresh_peers.contains(&p));
    assert!(!l.state.ipv6_capable_peers.contains(&p));
    l.establish(p, EXT, vec![]);
    assert_eq!(l.state.negotiated_max_len.get(&p), Some(&MAX_LEN));
    assert!(!l.state.four_byte_peers.contains(&p));
}

// The end of a session.

#[test]
fn test_on_terminated_removes_peer_type() {
    let p = ip("10.0.0.2");
    let mut l = lab(65001, &[(p, 65002)]);
    l.establish(p, EXT, vec![]);
    l.terminate(p, TerminationReason::Clean);
    assert!(!l.state.rib.peer_types.contains_key(&p));
}

#[test]
fn test_on_terminated_withdraws_peer_routes_from_rib() {
    let p = ip("10.0.0.2");
    let mut l = lab(65001, &[(p, 65002)]);
    l.establish(p, EXT, vec![]);
    l.insert(p, route(nlri("10.0.0.0/8"), vec![65002], None, EXT));
    assert_eq!(l.state.rib.loc_rib.len(), 1);
    l.terminate(p, TerminationReason::Clean);
    assert_eq!(l.state.rib.loc_rib.len(), 0);
}

#[test]
fn test_on_terminated_propagates_withdraw_to_other_established_peers() {
    let (a, b) = (ip("10.0.0.2"), ip("10.0.0.3"));
    let mut l = lab(65001, &[(a, 65002), (b, 65003)]);
    l.establish(a, EXT, vec![]);
    l.establish(b, EXT, vec![]);
    l.update(a, announce(vec![65002], "10.0.0.2", &["192.168.0.0/16"]));
    l.drain();
    l.terminate(a, TerminationReason::Clean);
    assert!(is_withdrawn(l.receive(b), "192.168.0.0/16"));
}

#[test]
fn on_terminated_marks_stalled_when_channel_full() {
    let (a, b) = (ip("10.0.0.2"), ip("10.0.0.3"));
    let mut l = lab(65001, &[(a, 65002), (b, 65003)]);
    l.narrow.push(b);
    l.establish(a, EXT, vec![]);
    l.establish(b, EXT, vec![]);
    l.update(a, announce(vec![65002], "10.0.0.2", &["192.168.0.0/16"]));
    l.terminate(a, TerminationReason::Clean);
    assert!(!l.state.take_stalled_peers().is_empty());
}

#[test]
fn test_on_terminated_propagation_missing_adj_rib_out_continues() {
    let (a, b) = (ip("10.0.0.2"), ip("10.0.0.3"));
    let mut l = lab(65001, &[(a, 65002), (b, 65003)]);
    l.establish(a, EXT, vec![]);
    l.establish(b, EXT, vec![]);
    l.state.adj_ribs_out.remove(&b);
    l.terminate(a, TerminationReason::Clean);
    assert!(!l.state.rib.peer_types.contains_key(&a));
    assert!(l.state.rib.peer_types.contains_key(&b));
}

#[test]
fn test_on_terminated_propagation_missing_update_sender_continues() {
    let (a, b) = (ip("10.0.0.2"), ip("10.0.0.3"));
    let mut l = lab(65001, &[(a, 65002), (b, 65003)]);
    l.establish(a, EXT, vec![]);
    l.establish(b, EXT, vec![]);
    l.state.update_senders.remove(&b);
    l.terminate(a, TerminationReason::Clean);
    assert!(!l.state.rib.peer_types.contains_key(&a));
}

#[test]
fn test_on_terminated_ghost_established_peer_does_not_panic() {
    let a = ip("10.0.0.2");
    let mut l = lab(65001, &[(a, 65002)]);
    l.establish(a, EXT, vec![]);
    l.establish(ip("10.0.0.99"), EXT, vec![]);
    l.terminate(a, TerminationReason::Clean);
    assert!(!l.state.rib.peer_types.contains_key(&a));
}

// Changes of the kernel's routes.

#[test]
fn test_on_fib_change_withdraws_when_next_hop_goes_down() {
    let (a, b) = (ip("10.0.0.2"), ip("10.0.0.3"));
    let mut l = lab(65001, &[(a, 65002), (b, 65003)]);
    l.establish(a, EXT, vec![]);
    l.establish(b, EXT, vec![]);
    l.update(a, announce(vec![65002], "192.0.2.1", &["10.0.0.0/8"]));
    l.drain();
    assert!(l.has("10.0.0.0/8"), "route must be in Loc-RIB");
    l.up = false;
    let w = l.state.on_fib_change();
    l.finish(w);
    assert!(!l.has("10.0.0.0/8"));
    assert!(is_withdrawn(l.receive(b), "10.0.0.0/8"));
    assert_eq!(l.events.last(), Some(&RouteEvent::Withdrawn(nlri("10.0.0.0/8"))));
}

#[test]
fn test_on_fib_change_reannounces_when_next_hop_recovers() {
    let (a, b) = (ip("10.0.0.2"), ip("10.0.0.3"));
    let mut l = lab(65001, &[(a, 65002), (b, 65003)]);
    l.up = false;
    l.establish(a, EXT, vec![]);
    l.establish(b, EXT, vec![]);
    l.update(a, announce(vec![65002], "192.0.2.1", &["10.0.0.0/8"]));
    assert!(!l.has("10.0.0.0/8"));
    l.drain();
    l.up = true;
    let w = l.state.on_fib_change();
    l.finish(w);
    assert!(l.has("10.0.0.0/8"));
    assert!(is_announced(l.receive(b), "10.0.0.0/8"));
}

#[test]
fn test_on_fib_change_noop_when_nothing_changes() {
    let (a, b) = (ip("10.0.0.2"), ip("10.0.0.3"));
    let mut l = lab(65001, &[(a, 65002), (b, 65003)]);
    l.establish(a, EXT, vec![]);
    l.establish(b, EXT, vec![]);
    let w = l.state.on_fib_change();
    l.finish(w);
    assert!(l.receive(b).is_none());
    assert!(l.events.is_empty());
}

// UPDATEs.

#[test]
fn test_on_route_update_inserts_route_into_rib() {
    let p = ip("10.0.0.2");
    let mut l = lab(65001, &[(p, 65002)]);
    l.establish(p, EXT, vec![]);
    l.update(p, announce(vec![65002], "10.0.0.2", &["10.0.0.0/8"]));
    assert_eq!(l.state.rib.loc_rib.len(), 1);
    assert!(l.has("10.0.0.0/8"));
    assert_eq!(l.state.rib.prefixes_received.get(&p), Some(&1));
}

#[test]
fn test_on_route_update_propagates_to_other_established_peer() {
    let (a, b) = (ip("10.0.0.2"), ip("10.0.0.3"));
    let mut l = lab(65001, &[(a, 65002), (b, 65003)]);
    l.establish(a, EXT, vec![]);
    l.establish(b, EXT, vec![]);
    l.update(a, announce(vec![65002], "10.0.0.2", &["10.0.0.0/8"]));
    assert!(is_announced(l.receive(b), "10.0.0.0/8"));
    assert_eq!(l.state.rib.prefixes_advertised.get(&b), Some(&1));
}

#[test]
fn test_on_route_update_withdraw_removes_route_from_rib() {
    let p = ip("10.0.0.2");
    let mut l = lab(65001, &[(p, 65002)]);
    l.establish(p, EXT, vec![]);
    l.update(p, announce(vec![65002], "10.0.0.2", &["10.0.0.0/8"]));
    assert_eq!(l.state.rib.loc_rib.len(), 1);
    l.update(p, withdraw(&["10.0.0.0/8"]));
    assert_eq!(l.state.rib.loc_rib.len(), 0);
}

#[test]
fn test_on_route_update_mp_unreach_propagates_withdraw_to_peers() {
    let (a, b) = (ip("10.0.0.2"), ip("10.0.0.3"));
    let mut l = lab(65001, &[(a, 65002), (b, 65003)]);
    l.establish(a, EXT, vec![]);
    l.establish(b, EXT, vec![]);
    l.update(a, announce(vec![65002], "10.0.0.2", &["10.0.0.0/8"]));
    l.drain();
    l.update(
        a,
        UpdateMessage {
            withdrawn: vec![],
            attributes: vec![PathAttribute::MpUnreachNlri(MpUnreachNlri {
                afi_safi: AfiSafi::ipv4_unicast(),
                prefixes: vec![Prefix::V4(nlri("10.0.0.0/8"))],
            })],
            announced: vec![],
        },
    );
    assert_eq!(l.state.rib.loc_rib.len(), 0, "LocRib must be empty after MP_UNREACH_NLRI");
    assert!(is_withdrawn(l.receive(b), "10.0.0.0/8"));
}

#[test]
fn test_on_route_update_v6_propagates_to_peer() {
    let (a, b) = (ip("10.0.0.2"), ip("10.0.0.3"));
    let mut l = lab(65001, &[(a, 65002), (b, 65003)]);
    l.state.rib.local_ipv6 = Some(ip6("2001:db8::1"));
    l.establish(a, EXT, v6_caps());
    l.establish(b, EXT, v6_caps());
    l.update(a, announce_v6(vec![65002], "2001:db8::2", "2001:db8::/32"));
    assert!(
        matches!(l.receive(b), Some(Sent::AnnouncedV6(r)) if r.nlri == nlri_v6("2001:db8::/32"))
    );
}

#[test]
fn test_ipv6_route_not_propagated_to_non_ipv6_capable_peer() {
    let (a, b) = (ip("10.0.0.2"), ip("10.0.0.3"));
    let mut l = lab(65001, &[(a, 65002), (b, 65003)]);
    l.state.rib.local_ipv6 = Some(ip6("2001:db8::1"));
    l.establish(a, EXT, v6_caps());
    l.establish(b, EXT, vec![]);
    l.update(a, announce_v6(vec![65002], "2001:db8::2", "2001:db8::/32"));
    assert!(l.receive(b).is_none());
}

#[test]
fn test_on_route_update_missing_adj_rib_in_logs_and_returns() {
    let p = ip("10.0.0.2");
    let mut l = lab(65001, &[(p, 65002)]);
    l.state.adj_ribs_in.remove(&p);
    l.update(p, announce(vec![], "10.0.0.2", &["10.0.0.0/8"]));
    assert_eq!(l.state.rib.loc_rib.len(), 0);
}

#[test]
fn test_on_route_update_propagation_missing_adj_rib_out_continues() {
    let (a, b) = (ip("10.0.0.2"), ip("10.0.0.3"));
    let mut l = lab(65001, &[(a, 65002), (b, 65003)]);
    l.establish(a, EXT, vec![]);
    l.establish(b, EXT, vec![]);
    l.state.adj_ribs_out.remove(&b);
    l.update(a, announce(vec![65002], "10.0.0.2", &["10.0.0.0/8"]));
    assert_eq!(l.state.rib.loc_rib.len(), 1);
}

#[test]
fn test_on_route_update_propagation_missing_update_sender_continues() {
    let (a, b) = (ip("10.0.0.2"), ip("10.0.0.3"));
    let mut l = lab(65001, &[(a, 65002), (b, 65003)]);
    l.establish(a, EXT, vec![]);
    l.establish(b, EXT, vec![]);
    l.state.update_senders.remove(&b);
    l.update(a, announce(vec![65002], "10.0.0.2", &["10.0.0.0/8"]));
    assert_eq!(l.state.rib.loc_rib.len(), 1);
}

#[test]
fn test_on_route_update_unknown_peer_is_noop() {
    let p = ip("10.0.0.2");
    let mut l = lab(65001, &[(p, 65002)]);
    l.update(ip("10.0.0.99"), end_of_v4());
    assert_eq!(l.state.rib.loc_rib.len(), 0);
}

#[test]
fn test_on_route_update_ghost_established_peer_does_not_panic() {
    let a = ip("10.0.0.2");
    let mut l = lab(65001, &[(a, 65002)]);
    l.establish(a, EXT, vec![]);
    l.establish(ip("10.0.0.99"), EXT, vec![]);
    l.update(a, announce(vec![65002], "10.0.0.2", &["10.0.0.0/8"]));
    assert_eq!(l.state.rib.loc_rib.len(), 1);
}

#[test]
fn malformed_update_missing_origin_sends_notification_to_session() {
    let p = ip("10.0.0.2");
    let mut l = lab(65001, &[(p, 65002)]);
    l.establish(p, EXT, vec![Capability::FourByteAsn(65002)]);
    let n = l
        .update(
            p,
            UpdateMessage {
                withdrawn: vec![],
                attributes: vec![
                    PathAttribute::AsPath(path(vec![65002])),
                    PathAttribute::NextHop(Ipv4Addr::new(10, 0, 0, 2)),
                ],
                announced: vec![nlri("10.0.0.0/8")],
            },
        )
        .expect("a malformed UPDATE is answered");
    assert!(matches!(
        n.error,
        NotificationError::UpdateMessage(UpdateMsgError::MissingWellKnownAttribute)
    ));
    assert_eq!(n.data, vec![1u8]);
}

fn established_info(peer_as: u32) -> SessionInfo {
    SessionInfo {
        peer_bgp_id: ip4("10.0.0.2"),
        hold_time: 90,
        peer_capabilities: vec![Capability::FourByteAsn(peer_as)],
        peer_type: EXT,
        local_addr: None,
    }
}

#[test]
fn event_loop_dispatches_established() {
    let p = ip("10.0.0.2");
    let mut l = lab(65001, &[(p, 65002)]);
    l.react(p, SessionEvent::Established(established_info(65002)));
    assert!(l.state.rib.peer_types.contains_key(&p));
}

#[test]
fn event_loop_dispatches_terminated() {
    let p = ip("10.0.0.2");
    let mut l = lab(65001, &[(p, 65002)]);
    l.establish(p, EXT, vec![]);
    l.react(p, SessionEvent::Terminated(TerminationReason::Unclean));
    assert!(!l.state.rib.peer_types.contains_key(&p));
}

#[test]
fn event_loop_dispatches_route_update() {
    let p = ip("10.0.0.2");
    let mut l = lab(65001, &[(p, 65002)]);
    l.establish(p, EXT, vec![]);
    let m = announce(vec![65002], "10.0.0.2", &["10.0.0.0/8"]);
    l.react(p, SessionEvent::RouteUpdate(m));
    assert_eq!(l.state.rib.loc_rib.len(), 1);
}

#[test]
fn event_loop_sends_stop_to_stalled_peer() {
    let (a, b) = (ip("10.0.0.2"), ip("10.0.0.3"));
    let mut l = lab(65001, &[(a, 65002), (b, 65003)]);
    l.narrow.push(b);
    l.establish(a, EXT, vec![]);
    l.establish(b, EXT, vec![]);
    l.post(b, Sent::Filler);
    l.update(a, announce(vec![65002], "10.0.0.2", &["10.0.0.0/8"]));
    assert_eq!(l.orders, vec![Order { peer: b, command: SessionCommand::Stop }]);
    assert!(l.state.take_stalled_peers().is_empty());
}

// Reflection.

#[test]
fn test_on_established_rr_split_horizon_blocks_non_client_to_non_client() {
    let (client, a, b) = (ip("10.0.0.3"), ip("10.0.0.4"), ip("10.0.0.5"));
    let mut l = lab(65001, &[(a, 65001), (b, 65001), (client, 65001)]);
    l.state.rib.rr_clients.insert(client);
    l.establish(b, INT, vec![]);
    l.insert(b, route(nlri("10.0.0.0/8"), vec![], Some(NextHop::V4(ip4("10.0.0.5"))), INT));
    l.drain();
    l.establish(a, INT, vec![]);
    assert!(l.receive(a).is_none(), "non-client must not receive routes from other non-clients");
}

#[test]
fn test_on_established_rr_client_receives_all_routes_in_dump() {
    let (client, other) = (ip("10.0.0.3"), ip("10.0.0.4"));
    let mut l = lab(65001, &[(other, 65001), (client, 65001)]);
    l.state.rib.rr_clients.insert(client);
    l.establish(other, INT, vec![]);
    l.insert(other, route(nlri("10.0.0.0/8"), vec![], Some(NextHop::V4(ip4("10.0.0.4"))), INT));
    l.drain();
    l.establish(client, INT, vec![]);
    assert!(l.receive(client).is_some(), "RR client must receive routes from non-clients");
}

#[test]
fn test_rr_client_route_reflected_to_other_client() {
    let (a, b) = (ip("10.0.0.2"), ip("10.0.0.3"));
    let mut l = reflector(1, &[a, b], &[]);
    l.establish(a, INT, vec![]);
    l.establish(b, INT, vec![]);
    l.update(a, announce(vec![], "10.0.1.1", &["192.0.2.0/24"]));
    assert!(is_announced(l.receive(b), "192.0.2.0/24"));
    assert!(l.receive(a).is_none(), "route must not be reflected back to originating client");
}

#[test]
fn test_rr_client_route_reflected_to_non_client_ibgp() {
    let (client, other) = (ip("10.0.0.2"), ip("10.0.0.4"));
    let mut l = reflector(1, &[client], &[other]);
    l.establish(client, INT, vec![]);
    l.establish(other, INT, vec![]);
    l.update(client, announce(vec![], "10.0.1.1", &["192.0.2.0/24"]));
    assert!(is_announced(l.receive(other), "192.0.2.0/24"));
}

#[test]
fn test_rr_non_client_ibgp_route_reflected_to_client() {
    let (client, other) = (ip("10.0.0.2"), ip("10.0.0.4"));
    let mut l = reflector(1, &[client], &[other]);
    l.establish(client, INT, vec![]);
    l.establish(other, INT, vec![]);
    l.update(other, announce(vec![], "10.0.1.1", &["192.0.2.0/24"]));
    assert!(is_announced(l.receive(client), "192.0.2.0/24"));
}

#[test]
fn test_rr_non_client_ibgp_to_non_client_ibgp_still_blocked() {
    let (client, a, b) = (ip("10.0.0.2"), ip("10.0.0.4"), ip("10.0.0.5"));
    let mut l = reflector(1, &[client], &[a, b]);
    l.establish(client, INT, vec![]);
    l.establish(a, INT, vec![]);
    l.establish(b, INT, vec![]);
    l.update(a, announce(vec![], "10.0.1.1", &["192.0.2.0/24"]));
    assert!(l.receive(b).is_none());
    assert!(l.receive(client).is_some(), "non-client route must be reflected to client");
}

#[test]
fn test_rr_loop_detection_discards_update() {
    let (client, other) = (ip("10.0.0.2"), ip("10.0.0.3"));
    let mut l = reflector(42, &[client, other], &[]);
    l.establish(client, INT, vec![]);
    l.establish(other, INT, vec![]);
    let mut m = announce(vec![], "10.0.1.1", &["192.0.2.0/24"]);
    m.attributes.push(PathAttribute::ClusterList(ClusterList::Received(Arc::new(vec![42]))));
    l.update(client, m);
    assert_eq!(l.state.rib.loc_rib.len(), 0, "looped route must be discarded");
    assert!(l.receive(other).is_none(), "looped route must not be propagated");
}

#[test]
fn own_originator_is_discarded_too() {
    let (client, other) = (ip("10.0.0.2"), ip("10.0.0.3"));
    let mut l = reflector(42, &[client, other], &[]);
    l.establish(client, INT, vec![]);
    l.establish(other, INT, vec![]);
    let mut m = announce(vec![], "10.0.1.1", &["192.0.2.0/24"]);
    m.attributes.push(PathAttribute::OriginatorId(ip4("10.0.0.1")));
    l.update(client, m);
    assert_eq!(l.state.rib.loc_rib.len(), 0);
}

#[test]
fn test_rr_originator_id_and_cluster_list_set_on_reflected_route() {
    let (client, other) = (ip("10.0.0.2"), ip("10.0.0.3"));
    let mut l = reflector(99, &[client, other], &[]);
    l.establish(client, INT, vec![]);
    l.establish(other, INT, vec![]);
    l.update(client, announce(vec![], "10.0.1.1", &["192.0.2.0/24"]));
    match l.receive(other) {
        Some(Sent::Announced(r)) => {
            assert_eq!(r.attributes.originator_id, Some(ip4("10.0.0.2")));
            assert!(r.attributes.cluster_list.unwrap().to_vec().contains(&99));
        }
        _ => panic!("reflected UPDATE expected"),
    }
}

// Origination.

fn own_v4(prefix: &str) -> Route<Ipv4Addr> {
    route(nlri(prefix), vec![], Some(NextHop::V4(ip4("192.0.2.1"))), EXT)
}

fn own_v6(prefix: &str) -> Route<Ipv6Addr> {
    route(nlri_v6(prefix), vec![], Some(NextHop::V6(ip6("2001:db8::1"))), EXT)
}

#[test]
fn test_originate_routes_v6_peer_receives_announces() {
    let p = ip("127.0.0.1");
    let mut l = lab(65001, &[(p, 65002)]);
    l.establish(p, EXT, vec![]);
    l.originate_v6(own_v6("2001:db8::/32"));
    assert!(l.state.rib.loc_rib_v6.get(&nlri_v6("2001:db8::/32")).is_some());
    assert!(l.state.rib.originated_routes_v6.contains_key(&nlri_v6("2001:db8::/32")));
}

#[test]
fn test_withdraw_originated_routes_v6_removes_from_rib_and_notifies_peer() {
    let p = ip("127.0.0.1");
    let mut l = lab(65001, &[(p, 65002)]);
    l.establish(p, EXT, vec![]);
    l.originate_v6(own_v6("2001:db8:1::/48"));
    assert!(l.state.rib.loc_rib_v6.get(&nlri_v6("2001:db8:1::/48")).is_some());
    l.take_back_v6(nlri_v6("2001:db8:1::/48"));
    assert!(l.state.rib.loc_rib_v6.get(&nlri_v6("2001:db8:1::/48")).is_none());
    assert!(!l.state.rib.originated_routes_v6.contains_key(&nlri_v6("2001:db8:1::/48")));
}

#[test]
fn test_withdraw_originated_routes_v6_noop_for_unknown_prefix() {
    let mut l = lab(65001, &[(ip("127.0.0.1"), 65002)]);
    l.take_back_v6(nlri_v6("2001:db8:ff::/48"));
    assert!(l.state.rib.loc_rib_v6.get(&nlri_v6("2001:db8:ff::/48")).is_none());
}

#[test]
fn originate_v6_notifies_fib_manager() {
    let mut l = lab(65001, &[(ip("10.0.0.2"), 65002)]);
    l.state.fib_manager = Some(FibManager::new());
    l.originate_v6(own_v6("2001:db8::/32"));
    let fib = l.state.fib_manager.as_ref().unwrap();
    assert_eq!(
        fib.pending_v6.get(&nlri_v6("2001:db8::/32")),
        Some(Pending::Install { gateway: ip6("2001:db8::1") })
    );
}

#[test]
fn withdraw_v4_notifies_fib_manager() {
    let mut l = lab(65001, &[(ip("10.0.0.2"), 65002)]);
    l.state.fib_manager = Some(FibManager::new());
    l.originate(own_v4("10.0.0.0/8"));
    l.state.fib_manager.as_mut().unwrap().process_batch();
    l.take_back(nlri("10.0.0.0/8"));
    let fib = l.state.fib_manager.as_ref().unwrap();
    assert_eq!(fib.pending_v4.get(&nlri("10.0.0.0/8")), Some(Pending::Withdraw));
}

#[test]
fn withdraw_v6_notifies_fib_manager() {
    let mut l = lab(65001, &[(ip("10.0.0.2"), 65002)]);
    l.state.fib_manager = Some(FibManager::new());
    l.originate_v6(own_v6("2001:db8::/32"));
    l.state.fib_manager.as_mut().unwrap().process_batch();
    l.take_back_v6(nlri_v6("2001:db8::/32"));
    let fib = l.state.fib_manager.as_ref().unwrap();
    assert_eq!(fib.pending_v6.get(&nlri_v6("2001:db8::/32")), Some(Pending::Withdraw));
}

#[test]
fn originate_routes_suppresses_wire_level_duplicate_for_identical_reorigination() {
    let p = ip("10.0.0.2");
    let mut l = lab(65001, &[(p, 65002)]);
    l.establish_at(p, INT, vec![], Some(ip("10.0.0.1")));
    l.drain();

    let mut first = own_v4("203.0.113.0/24");
    first.received_at = Instant { nanos: 1_000 };
    l.originate(first);
    assert!(l.receive(p).is_some(), "first origination must reach the peer");

    let mut second = own_v4("203.0.113.0/24");
    second.received_at = Instant { nanos: 2_000 };
    l.originate(second);
    assert!(l.receive(p).is_none(), "identical re-origination must not be sent again");

    let mut changed = own_v4("203.0.113.0/24");
    changed.received_at = Instant { nanos: 3_000 };
    changed.attributes.local_pref = Some(200);
    l.originate(changed);
    assert!(l.receive(p).is_some(), "a changed re-origination must still be sent");
}

#[test]
fn originate_routes_v6_skips_rib_write_for_identical_reorigination() {
    let mut l = lab(65001, &[(ip("10.0.0.2"), 65002)]);
    l.state.fib_manager = Some(FibManager::new());
    l.originate_v6(own_v6("2001:db8::/32"));
    l.state.fib_manager.as_mut().unwrap().process_batch();
    l.originate_v6(own_v6("2001:db8::/32"));
    assert_eq!(l.state.fib_manager.as_ref().unwrap().pending_v6.len(), 0);
}

#[test]
fn originate_routes_updates_originated_routes_gauge() {
    let mut l = lab(65001, &[(ip("10.0.0.2"), 65002)]);
    let o = l.state.originate_routes(vec![own_v4("203.0.113.0/24")]);
    l.finish(o.work);
    assert_eq!(l.state.originated_counts(), (1, 0));
}

#[test]
fn originate_routes_v6_updates_originated_routes_gauge() {
    let mut l = lab(65001, &[(ip("10.0.0.2"), 65002)]);
    let o = l.state.originate_routes_v6(vec![own_v6("2001:db8::/32")]);
    l.finish(o.work);
    assert_eq!(l.state.originated_counts(), (0, 1));
}

#[test]
fn taking_back_what_is_not_originated_does_nothing() {
    let (a, b) = (ip("10.0.0.2"), ip("10.0.0.3"));
    let mut l = lab(65001, &[(a, 65002), (b, 65003)]);
    l.establish(a, EXT, vec![]);
    l.establish(b, EXT, vec![]);
    l.originate(own_v4("203.0.113.0/24"));
    l.drain();
    let o = l.state.withdraw_originated_route(nlri("198.51.100.0/24"));
    assert!(o.events.is_empty());
    assert!(o.work.ops.is_empty());
    assert!(matches!(o.work.spread, Spread::Nobody));
    let o = l.state.withdraw_originated_route_v6(nlri_v6("2001:db8::/32"));
    assert!(o.events.is_empty());
    assert!(o.work.ops_v6.is_empty());
    assert!(matches!(o.work.spread_v6, Spread::Nobody));
    let twice = vec![nlri("203.0.113.0/24"), nlri("198.51.100.0/24"), nlri("203.0.113.0/24")];
    let o = l.state.withdraw_originated_routes(&twice);
    assert_eq!(o.events, vec![RouteEvent::Withdrawn(nlri("203.0.113.0/24"))]);
    l.finish(o.work);
    assert!(is_withdrawn(l.receive(b), "203.0.113.0/24"));
    assert!(l.receive(b).is_none());
    assert_eq!(l.state.originated_counts(), (0, 0));
}

#[test]
fn withdraw_originated_routes_updates_gauge_back_to_zero() {
    let mut l = lab(65001, &[(ip("10.0.0.2"), 65002)]);
    l.originate(own_v4("203.0.113.0/24"));
    l.take_back(nlri("203.0.113.0/24"));
    assert_eq!(l.state.originated_counts(), (0, 0));
}

#[test]
fn withdraw_originated_routes_v6_updates_gauge_back_to_zero() {
    let mut l = lab(65001, &[(ip("10.0.0.2"), 65002)]);
    l.originate_v6(own_v6("2001:db8::/32"));
    l.take_back_v6(nlri_v6("2001:db8::/32"));
    assert_eq!(l.state.originated_counts(), (0, 0));
}

#[test]
fn test_exchange_lifecycle_final_rib_has_only_surviving_peer_route() {
    let p = ip("127.0.0.1");
    let mut l = lab(65002, &[(p, 65001)]);
    l.establish(p, EXT, vec![]);
    let mut m = announce(vec![65001], "10.0.0.1", &["10.0.0.0/8", "172.16.0.0/12", "192.168.0.0/16"]);
    m.attributes[0] = PathAttribute::Origin(Origin::Egp);
    // The speaker's own identifier is 10.0.0.1 here, which is no address of the session.
    l.update(p, m);
    l.drain();
    assert_eq!(l.state.rib.loc_rib.len(), 3, "phase 1: all three routes of the peer");

    let own = |s: &str| route(nlri(s), vec![], Some(NextHop::V4(ip4("10.0.0.2"))), EXT);
    let o = l.state.originate_routes(vec![own("203.0.113.0/24"), own("198.51.100.0/24")]);
    l.finish(o.work);
    assert!(is_announced(l.receive(p), "203.0.113.0/24"));
    assert!(is_announced(l.receive(p), "198.51.100.0/24"));
    assert_eq!(l.state.rib.loc_rib.len(), 5, "phase 2: 3 of the peer and 2 local routes");

    l.set_import(p, DefaultAction::Reject);
    l.drain();
    assert_eq!(l.state.rib.loc_rib.len(), 2, "phase 3: only originated routes remain");

    l.set_import(p, DefaultAction::Accept);
    l.drain();
    assert_eq!(l.state.rib.loc_rib.len(), 5, "phase 4: all 5 routes back");

    l.update(p, withdraw(&["10.0.0.0/8", "172.16.0.0/12"]));
    l.drain();
    assert_eq!(l.state.rib.loc_rib.len(), 3, "phase 5: one of the peer and 2 local routes");

    let o = l
        .state
        .withdraw_originated_routes(&vec![nlri("203.0.113.0/24"), nlri("198.51.100.0/24")]);
    l.finish(o.work);
    assert!(is_withdrawn(l.receive(p), "203.0.113.0/24"));
    assert!(is_withdrawn(l.receive(p), "198.51.100.0/24"));
    assert_eq!(l.state.rib.loc_rib.len(), 1);
    assert!(l.has("192.168.0.0/16"));
}

// Policies.

#[test]
fn set_import_default_propagates_to_established_peer() {
    let (a, b) = (ip("10.0.0.2"), ip("10.0.0.3"));
    let mut l = lab(65001, &[(a, 65002), (b, 65003)]);
    l.establish(a, EXT, vec![]);
    l.establish(b, EXT, vec![]);
    l.update(a, announce(vec![65002], "10.0.0.2", &["10.0.0.0/8"]));
    l.drain();
    l.set_import(a, DefaultAction::Reject);
    assert!(is_withdrawn(l.receive(b), "10.0.0.0/8"));
}

#[test]
fn set_import_default_marks_stalled_when_channel_full() {
    let (a, b) = (ip("10.0.0.2"), ip("10.0.0.3"));
    let mut l = lab(65001, &[(a, 65002), (b, 65003)]);
    l.narrow.push(b);
    l.establish(a, EXT, vec![]);
    l.establish(b, EXT, vec![]);
    l.update(a, announce(vec![65002], "10.0.0.2", &["10.0.0.0/8"]));
    l.set_import(a, DefaultAction::Reject);
    assert!(!l.state.take_stalled_peers().is_empty());
}

#[test]
fn set_import_default_unknown_peer_is_noop() {
    let mut l = lab(65001, &[(ip("10.0.0.2"), 65002)]);
    assert!(l.state.set_import_default(ip("1.2.3.4"), DefaultAction::Accept).is_none());
}

#[test]
fn set_import_default_reject_notifies_fib_manager() {
    let p = ip("10.0.0.2");
    let mut l = lab(65001, &[(p, 65002)]);
    l.state.fib_manager = Some(FibManager::new());
    l.establish(p, EXT, vec![]);
    l.update(p, announce(vec![65002], "192.0.2.1", &["10.0.0.0/8"]));
    l.state.fib_manager.as_mut().unwrap().process_batch();
    l.set_import(p, DefaultAction::Reject);
    let fib = l.state.fib_manager.as_ref().unwrap();
    assert_eq!(fib.pending_v4.get(&nlri("10.0.0.0/8")), Some(Pending::Withdraw));
}

#[test]
fn set_import_default_reject_v6_notifies_fib_manager() {
    let p = ip("10.0.0.2");
    let mut l = lab(65001, &[(p, 65002)]);
    l.state.fib_manager = Some(FibManager::new());
    l.establish(p, EXT, v6_caps());
    l.update(p, announce_v6(vec![65002], "2001:db8::1", "2001:db8::/32"));
    l.state.fib_manager.as_mut().unwrap().process_batch();
    l.set_import(p, DefaultAction::Reject);
    let fib = l.state.fib_manager.as_ref().unwrap();
    assert_eq!(fib.pending_v6.get(&nlri_v6("2001:db8::/32")), Some(Pending::Withdraw));
}

#[test]
fn set_export_default_propagates_to_established_peer() {
    let p = ip("10.0.0.2");
    let mut l = lab(65001, &[(p, 65002)]);
    l.insert(
        ip("10.0.0.9"),
        route(nlri("10.0.0.0/8"), vec![65002], Some(NextHop::V4(ip4("10.0.0.9"))), EXT),
    );
    l.establish(p, EXT, vec![]);
    l.drain();
    l.set_export(p, DefaultAction::Reject);
    assert!(is_withdrawn(l.receive(p), "10.0.0.0/8"));
}

#[test]
fn a_changed_export_default_keeps_the_address_of_the_session_as_next_hop() {
    let (a, b) = (ip("10.0.0.2"), ip("10.0.0.3"));
    let mut l = lab(65001, &[(a, 65002), (b, 65003)]);
    l.set_export(b, DefaultAction::Reject);
    l.establish(a, EXT, vec![]);
    l.establish_at(b, EXT, vec![], Some(ip("172.31.50.20")));
    l.update(a, announce(vec![65002], "10.0.0.2", &["10.0.0.0/8"]));
    l.drain();
    l.set_export(b, DefaultAction::Accept);
    match l.receive(b) {
        Some(Sent::Announced(r)) => {
            assert_eq!(r.next_hop, Some(NextHop::V4(ip4("172.31.50.20"))));
        }
        _ => panic!("the route is announced"),
    }
}

#[test]
fn an_import_default_depends_on_the_tables_of_its_peer_alone() {
    let (a, b) = (ip("10.0.0.2"), ip("10.0.0.3"));
    let mut l = lab(65001, &[(a, 65002), (b, 65003)]);
    l.state.adj_ribs_in_v6.remove(&b);
    assert!(l.state.set_import_default(a, DefaultAction::Reject).is_some());
    assert!(l.state.set_import_default(ip("1.2.3.4"), DefaultAction::Reject).is_none());
}

#[test]
fn set_export_default_no_send_when_peer_not_established() {
    let p = ip("10.0.0.2");
    let mut l = lab(65001, &[(p, 65002)]);
    l.insert(
        ip("10.0.0.9"),
        route(nlri("10.0.0.0/8"), vec![65002], Some(NextHop::V4(ip4("10.0.0.9"))), EXT),
    );
    l.set_export(p, DefaultAction::Reject);
    assert!(l.receive(p).is_none());
}

#[test]
fn set_export_default_marks_stalled_when_channel_full() {
    let p = ip("10.0.0.2");
    let mut l = lab(65001, &[(p, 65002)]);
    l.narrow.push(p);
    l.insert(
        ip("10.0.0.9"),
        route(nlri("10.0.0.0/8"), vec![65002], Some(NextHop::V4(ip4("10.0.0.9"))), EXT),
    );
    l.establish(p, EXT, vec![]);
    l.set_export(p, DefaultAction::Reject);
    assert!(!l.state.take_stalled_peers().is_empty());
}

#[test]
fn set_export_default_unknown_peer_is_noop() {
    let mut l = lab(65001, &[(ip("10.0.0.2"), 65002)]);
    assert!(l.state.set_export_default(ip("1.2.3.4"), DefaultAction::Accept).is_none());
}

#[test]
fn set_export_default_missing_adj_rib_out_returns_silently() {
    let p = ip("10.0.0.2");
    let mut l = lab(65001, &[(p, 65002)]);
    l.establish(p, EXT, vec![]);
    l.state.adj_ribs_out.remove(&p);
    assert!(l.state.set_export_default(p, DefaultAction::Accept).is_none());
}

#[test]
fn set_export_default_missing_update_senders_returns_silently() {
    let p = ip("10.0.0.2");
    let mut l = lab(65001, &[(p, 65002)]);
    l.establish(p, EXT, vec![]);
    l.state.update_senders.remove(&p);
    assert!(l.state.set_export_default(p, DefaultAction::Accept).is_none());
}

#[test]
fn set_export_default_not_established_is_stored_silently() {
    let p = ip("10.0.0.2");
    let mut l = lab(65001, &[(p, 65002)]);
    l.set_export(p, DefaultAction::Reject);
    assert!(l.receive(p).is_none());
    assert_eq!(l.state.export_policies.get(&p).unwrap().default, DefaultAction::Reject);
}

#[test]
fn take_stalled_peers_returns_and_clears() {
    let p = ip("10.0.0.2");
    let mut l = lab(65001, &[(p, 64)]);
    assert!(l.state.take_stalled_peers().is_empty(), "initially empty");
    l.state.stalled_peers.push(p);
    assert_eq!(l.state.take_stalled_peers(), vec![p]);
    assert!(l.state.take_stalled_peers().is_empty(), "cleared after take");
}

// The pace of announcements.

fn secs(n: u64) -> Instant {
    Instant { nanos: n * NANOS_PER_SEC }
}

fn note_sent(l: &mut Lab, p: IpAddr, n: &str, at: Instant) {
    let mut t = Table::new();
    t.insert(nlri(n), at);
    l.state.mrai_last_sent.insert(p, t);
}

fn let_wait(l: &mut Lab, p: IpAddr, n: &str) {
    let mut t = Table::new();
    t.insert(nlri(n), own_v4(n));
    l.state.mrai_pending.insert(p, t);
}

#[test]
fn mrai_suppresses_ebgp_announcement_within_window() {
    let p = ip("10.0.0.2");
    let mut l = lab(65001, &[]);
    note_sent(&mut l, p, "10.0.0.0/24", secs(100));
    let last = *l.state.mrai_last_sent.get(&p).unwrap().get(&nlri("10.0.0.0/24")).unwrap();
    assert!(secs(100).saturating_duration_since(last) < MRAI);
    let d = PrefixDecision::Announce(own_v4("10.0.0.0/24"));
    l.state.coalesce_v4(p, vec![d], 1, secs(110));
    assert!(l.state.has_mrai_pending());
    assert!(matches!(l.state.pending_decisions.get(&p).unwrap()[0], PrefixDecision::NoChange));
}

#[test]
fn mrai_passes_after_window_elapsed() {
    let p = ip("10.0.0.2");
    let mut l = lab(65001, &[]);
    note_sent(&mut l, p, "10.0.0.0/24", secs(100));
    let last = *l.state.mrai_last_sent.get(&p).unwrap().get(&nlri("10.0.0.0/24")).unwrap();
    assert!(secs(131).saturating_duration_since(last) >= MRAI);
    let d = PrefixDecision::Announce(own_v4("10.0.0.0/24"));
    l.state.coalesce_v4(p, vec![d], 1, secs(131));
    assert!(!l.state.has_mrai_pending());
    assert!(matches!(l.state.pending_decisions.get(&p).unwrap()[0], PrefixDecision::Announce(_)));
}

#[test]
fn has_mrai_pending_false_when_empty() {
    assert!(!lab(65001, &[]).state.has_mrai_pending());
}

#[test]
fn has_mrai_pending_true_when_set_nonempty() {
    let mut l = lab(65001, &[]);
    let_wait(&mut l, ip("10.0.0.2"), "10.0.0.0/24");
    assert!(l.state.has_mrai_pending());
    assert_eq!(l.state.mrai_waiting_peers(), vec![ip("10.0.0.2")]);
}

#[test]
fn flush_mrai_pending_clears_elapsed_pending() {
    let p = ip("10.0.0.2");
    let mut l = lab(65001, &[]);
    let_wait(&mut l, p, "10.0.0.0/24");
    note_sent(&mut l, p, "10.0.0.0/24", secs(100));
    assert_eq!(l.state.flush_mrai_pending(p, secs(131)), vec![nlri("10.0.0.0/24")]);
    assert!(!l.state.has_mrai_pending(), "pending cleared after flush");
}

#[test]
fn a_prefix_that_waits_goes_on_waiting_before_its_time() {
    let p = ip("10.0.0.2");
    let mut l = lab(65001, &[]);
    let_wait(&mut l, p, "10.0.0.0/24");
    note_sent(&mut l, p, "10.0.0.0/24", secs(100));
    assert!(l.state.flush_mrai_pending(p, secs(129)).is_empty());
    assert!(l.state.has_mrai_pending());
}

#[test]
fn mrai_withdrawal_bypasses_suppression() {
    let p = ip("10.0.0.2");
    let mut l = lab(65001, &[]);
    note_sent(&mut l, p, "10.0.0.0/24", secs(100));
    let_wait(&mut l, p, "10.0.0.0/24");
    l.state.coalesce_v4(p, vec![PrefixDecision::Withdraw(nlri("10.0.0.0/24"))], 0, secs(101));
    assert!(matches!(l.state.pending_decisions.get(&p).unwrap()[0], PrefixDecision::Withdraw(_)));
    assert!(!l.state.has_mrai_pending(), "a withdrawal ends the wait");
}

#[test]
fn internal_peers_are_not_paced() {
    let p = ip("10.0.0.2");
    let mut l = lab(65001, &[(p, 65001)]);
    l.establish(p, INT, vec![]);
    for _ in 0..2 {
        let d = PrefixDecision::Announce(own_v4("10.0.0.0/24"));
        l.state.coalesce_v4(p, vec![d], 1, secs(101));
    }
    assert_eq!(l.state.pending_decisions.get(&p).unwrap().len(), 2);
    assert!(!l.state.has_mrai_pending());
}

#[test]
fn a_held_back_announcement_goes_out_once_it_is_ripe() {
    let (a, b) = (ip("10.0.0.2"), ip("10.0.0.3"));
    let mut l = lab(65001, &[(a, 65002), (b, 65003)]);
    l.establish(a, EXT, vec![]);
    l.establish(b, EXT, vec![]);
    l.originate(own_v4("203.0.113.0/24"));
    assert!(is_announced(l.receive(b), "203.0.113.0/24"));
    let mut changed = own_v4("203.0.113.0/24");
    changed.attributes.med = Some(5);
    l.originate(changed);
    assert!(l.receive(b).is_none(), "too early for another announcement");
    l.now = Instant { nanos: l.now.nanos + MRAI - 1 };
    assert!(l.state.flush_mrai_pending(b, l.now).is_empty());
    l.flush();
    assert!(l.receive(b).is_none(), "still too early");
    l.now = Instant { nanos: l.now.nanos + 1 };
    assert_eq!(l.state.flush_mrai_pending(b, l.now), vec![nlri("203.0.113.0/24")]);
    l.flush();
    match l.receive(b) {
        Some(Sent::Announced(r)) => assert_eq!(r.attributes.med, Some(5), "the changed route"),
        _ => panic!("the changed route reaches the peer"),
    }
    assert!(l.receive(b).is_none());
    assert!(l.state.flush_mrai_pending(b, l.now).is_empty());
    assert_eq!(
        l.state.mrai_last_sent.get(&b).unwrap().get(&nlri("203.0.113.0/24")),
        Some(&l.now),
        "the interval starts anew"
    );
}

#[test]
fn an_announcement_that_waits_does_not_follow_a_withdrawal() {
    let (a, b) = (ip("10.0.0.2"), ip("10.0.0.3"));
    let mut l = lab(65001, &[(a, 65002), (b, 65003)]);
    l.establish(a, EXT, vec![]);
    l.establish(b, EXT, vec![]);
    l.originate(own_v4("203.0.113.0/24"));
    let mut changed = own_v4("203.0.113.0/24");
    changed.attributes.med = Some(5);
    l.originate(changed);
    l.drain();
    l.set_export(b, DefaultAction::Reject);
    assert!(is_withdrawn(l.receive(b), "203.0.113.0/24"));
    l.now = Instant { nanos: l.now.nanos + MRAI };
    assert!(l.state.flush_mrai_pending(b, l.now).is_empty());
    l.flush();
    assert!(l.receive(b).is_none(), "the peer is told nothing that its policy rejects");
}

// Restarts of peers.

fn with_restart(l: &mut Lab, p: IpAddr, families: &[AfiSafi]) {
    l.state.config_capabilities = vec![restart_cap(0, 120, &[AfiSafi::ipv4_unicast()])];
    l.establish(p, EXT, vec![restart_cap(0, 60, families)]);
}

#[test]
fn routes_stay_over_a_restart_and_carry_the_stale_mark() {
    let (a, b) = (ip("10.0.0.2"), ip("10.0.0.3"));
    let mut l = lab(65001, &[(a, 65002), (b, 65003)]);
    with_restart(&mut l, a, &[AfiSafi::ipv4_unicast()]);
    l.establish(b, EXT, vec![]);
    l.update(a, announce(vec![65002], "10.0.0.2", &["10.0.0.0/8", "192.168.0.0/16"]));
    l.drain();
    l.terminate(a, TerminationReason::Unclean);
    assert_eq!(l.state.rib.loc_rib.len(), 2);
    assert!(l.state.rib.loc_rib.get(&nlri("10.0.0.0/8")).unwrap().route.stale);
    assert_eq!(
        l.state.gr.earliest_deadline(),
        Some(Instant { nanos: l.now.nanos + 60 * NANOS_PER_SEC })
    );

    // The peer comes back, announces one of its prefixes again, and marks the end.
    l.establish(a, EXT, vec![restart_cap(0x8, 60, &[AfiSafi::ipv4_unicast()])]);
    assert_eq!(l.state.gr.earliest_deadline(), None);
    l.update(a, announce(vec![65002], "10.0.0.2", &["10.0.0.0/8"]));
    l.update(a, end_of_v4());
    assert!(l.has("10.0.0.0/8"));
    assert!(!l.state.rib.loc_rib.get(&nlri("10.0.0.0/8")).unwrap().route.stale);
    assert!(!l.has("192.168.0.0/16"));
    assert!(l.state.rib.eor_received.contains(&a));
}

#[test]
fn a_clean_end_opens_no_window() {
    let a = ip("10.0.0.2");
    let mut l = lab(65001, &[(a, 65002)]);
    with_restart(&mut l, a, &[AfiSafi::ipv4_unicast()]);
    l.update(a, announce(vec![65002], "10.0.0.2", &["10.0.0.0/8"]));
    l.terminate(a, TerminationReason::Clean);
    assert_eq!(l.state.gr.earliest_deadline(), None);
    assert_eq!(l.state.rib.loc_rib.len(), 0);
}

#[test]
fn routes_go_when_the_window_closes() {
    let a = ip("10.0.0.2");
    let mut l = lab(65001, &[(a, 65002)]);
    with_restart(&mut l, a, &[AfiSafi::ipv4_unicast()]);
    l.update(a, announce(vec![65002], "10.0.0.2", &["10.0.0.0/8"]));
    l.terminate(a, TerminationReason::Unclean);
    assert!(l.state.gr.drain_expired(l.now).is_empty());
    l.now = Instant { nanos: l.now.nanos + 60 * NANOS_PER_SEC };
    let over = l.state.gr.drain_expired(l.now);
    assert_eq!(over, vec![a]);
    let w = l.state.on_gr_deadline_expired(a);
    l.finish(w);
    assert_eq!(l.state.rib.loc_rib.len(), 0);
    assert!(l.state.adj_ribs_in.get(&a).unwrap().is_empty());
}

#[test]
fn a_marker_of_ipv6_is_noted() {
    let a = ip("10.0.0.2");
    let mut l = lab(65001, &[(a, 65002)]);
    l.establish(a, EXT, v6_caps());
    l.update(a, end_of_v6());
    assert!(l.state.rib.eor_received_v6.contains(&a));
    assert!(!l.state.rib.eor_received.contains(&a));
}

#[test]
fn a_peer_that_does_not_restart_a_family_loses_its_routes() {
    let (a, b) = (ip("10.0.0.2"), ip("10.0.0.3"));
    let mut l = lab(65001, &[(a, 65002), (b, 65003)]);
    with_restart(&mut l, a, &[AfiSafi::ipv6_unicast()]);
    l.establish(b, EXT, vec![]);
    l.update(a, announce(vec![65002], "10.0.0.2", &["10.0.0.0/8"]));
    assert!(is_announced(l.receive(b), "10.0.0.0/8"));
    l.terminate(a, TerminationReason::Unclean);
    assert!(l.state.adj_ribs_in.get(&a).unwrap().is_empty());
    assert!(l.state.gr.deadlines.contains_key(&a));
    assert!(!l.has("10.0.0.0/8"), "no candidate of the peer is left");
    assert!(is_withdrawn(l.receive(b), "10.0.0.0/8"));
    assert_eq!(l.events.last(), Some(&RouteEvent::Withdrawn(nlri("10.0.0.0/8"))));
}

#[test]
fn a_peer_that_does_not_restart_ipv6_loses_its_ipv6_routes() {
    let (a, b) = (ip("10.0.0.2"), ip("10.0.0.3"));
    let mut ca = config(a, 65002);
    ca.import_default_v6 = Some(ImportDefault::Accept);
    let mut l = Lab::of(65001, &vec![ca, config(b, 65003)], None);
    l.state.rib.local_ipv6 = Some(ip6("2001:db8::ff"));
    l.state.config_capabilities = vec![restart_cap(0, 120, &[AfiSafi::ipv4_unicast()])];
    let mut caps = v6_caps();
    caps.push(restart_cap(0, 60, &[AfiSafi::ipv4_unicast()]));
    l.establish(a, EXT, caps);
    l.establish(b, EXT, v6_caps());
    l.update(a, announce(vec![65002], "10.0.0.2", &["10.0.0.0/8"]));
    l.update(a, announce_v6(vec![65002], "2001:db8::1", "2001:db8:1::/48"));
    assert_eq!(l.state.rib.loc_rib_v6.len(), 1);
    l.drain();
    l.terminate(a, TerminationReason::Unclean);
    assert_eq!(l.state.rib.loc_rib_v6.len(), 0);
    let gone = nlri_v6("2001:db8:1::/48");
    assert!(l.queue.iter().any(|(p, s)| *p == b && matches!(s, Sent::WithdrawnV6(n) if *n == gone)));
    assert!(l.has("10.0.0.0/8"), "the family that it restarts is kept");
}

#[test]
fn a_prefix_announced_again_in_an_attribute_is_no_longer_stale() {
    let a = ip("10.0.0.2");
    let mut l = lab(65001, &[(a, 65002)]);
    with_restart(&mut l, a, &[AfiSafi::ipv4_unicast()]);
    l.update(a, announce(vec![65002], "10.0.0.2", &["10.0.0.0/8", "192.168.0.0/16"]));
    l.terminate(a, TerminationReason::Unclean);
    l.establish(a, EXT, vec![restart_cap(0x8, 60, &[AfiSafi::ipv4_unicast()])]);
    l.update(
        a,
        UpdateMessage {
            withdrawn: vec![],
            attributes: vec![
                PathAttribute::Origin(Origin::Igp),
                PathAttribute::AsPath(path(vec![65002])),
                PathAttribute::MpReachNlri(MpReachNlri {
                    afi_safi: AfiSafi::ipv4_unicast(),
                    next_hop: NextHop::V4(ip4("10.0.0.2")),
                    prefixes: vec![Prefix::V4(nlri("10.0.0.0/8"))],
                }),
            ],
            announced: vec![],
        },
    );
    l.update(a, end_of_v4());
    assert!(l.has("10.0.0.0/8"));
    assert!(l.state.adj_ribs_in.get(&a).unwrap().get(&nlri("10.0.0.0/8")).is_some());
    assert!(!l.has("192.168.0.0/16"));
}

#[test]
fn the_stale_mark_lets_no_rejected_route_in() {
    let a = ip("10.0.0.2");
    let mut c = config(a, 65002);
    c.import_default = Some(ImportDefault::Reject);
    let mut l = Lab::of(65001, &vec![c], None);
    with_restart(&mut l, a, &[AfiSafi::ipv4_unicast()]);
    l.update(a, announce(vec![65002], "10.0.0.2", &["10.0.0.0/8"]));
    l.terminate(a, TerminationReason::Unclean);
    assert!(l.state.adj_ribs_in.get(&a).unwrap().get(&nlri("10.0.0.0/8")).unwrap().stale);
    assert_eq!(l.state.rib.loc_rib.len(), 0);
}

#[test]
fn the_stale_mark_lets_no_null_route_in() {
    let a = ip("10.0.0.2");
    let mut l = lab(65001, &[(a, 65002)]);
    with_restart(&mut l, a, &[AfiSafi::ipv4_unicast()]);
    l.update(a, drop_traffic("192.0.2.0/24"));
    l.terminate(a, TerminationReason::Unclean);
    assert_eq!(l.state.adj_ribs_in.get(&a).unwrap().len(), 1);
    assert_eq!(l.state.rib.loc_rib.len(), 0);
}

#[test]
fn a_reflector_keeps_non_clients_apart_whatever_their_addresses() {
    let (client, other) = (ip("10.0.0.3"), ip("10.0.0.4"));
    let source = IpAddr::V6(ip6("2001:db8::5"));
    let mut l = reflector(1, &[client], &[other, source]);
    l.establish(source, INT, vec![]);
    l.insert(source, route(nlri("10.0.0.0/8"), vec![], Some(NextHop::V4(ip4("10.0.0.5"))), INT));
    l.drain();
    l.establish(other, INT, vec![]);
    assert!(l.receive(other).is_none(), "a non-client is not shown the routes of another");
    l.establish(client, INT, vec![]);
    assert!(is_announced(l.receive(client), "10.0.0.0/8"));
}

// Limits on prefixes.

#[test]
fn too_many_prefixes_end_the_session() {
    let p = ip("10.0.0.2");
    let mut c = config(p, 65002);
    c.max_prefixes_v4 = Some(1);
    c.max_prefixes_restart = Some(30);
    let mut l = Lab::of(65001, &vec![c], None);
    l.establish(p, EXT, vec![]);
    assert!(l.update(p, announce(vec![65002], "10.0.0.2", &["10.0.0.0/8"])).is_none());
    let n = l
        .update(p, announce(vec![65002], "10.0.0.2", &["192.168.0.0/16"]))
        .expect("the limit is reported");
    assert_eq!(n.error, NotificationError::Cease(CeaseError::MaximumNumberOfPrefixesReached));
    assert!(!l.state.may_connect(p, l.now));
    let later = Instant { nanos: l.now.nanos + 30 * NANOS_PER_SEC };
    assert!(l.state.may_connect(p, later));
}

// Null routes.

fn drop_traffic(prefix: &str) -> UpdateMessage {
    let mut m = announce(vec![65002], "10.0.0.2", &[prefix]);
    m.attributes.push(PathAttribute::Communities(Arc::new(vec![Community { value: 0xffff_029a }])));
    m
}

#[test]
fn a_null_route_goes_to_the_kernel_and_nowhere_else() {
    let (a, b) = (ip("10.0.0.2"), ip("10.0.0.3"));
    let mut l = lab(65001, &[(a, 65002), (b, 65003)]);
    l.state.fib_manager = Some(FibManager::new());
    l.establish(a, EXT, vec![]);
    l.establish(b, EXT, vec![]);
    l.update(a, drop_traffic("192.0.2.0/24"));
    let n = nlri("192.0.2.0/24");
    assert_eq!(l.state.fib_manager.as_ref().unwrap().pending_v4.get(&n), Some(Pending::Blackhole));
    assert!(l.receive(b).is_none());
    assert_eq!(l.state.rib.loc_rib.len(), 0);
    l.update(a, withdraw(&["192.0.2.0/24"]));
    assert_eq!(l.state.fib_manager.as_ref().unwrap().pending_v4.get(&n), Some(Pending::Withdraw));
}

#[test]
fn null_routes_leave_when_the_window_of_their_peer_closes() {
    let a = ip("10.0.0.2");
    let mut l = lab(65001, &[(a, 65002)]);
    l.state.fib_manager = Some(FibManager::new());
    with_restart(&mut l, a, &[AfiSafi::ipv4_unicast()]);
    l.update(a, drop_traffic("192.0.2.0/24"));
    l.terminate(a, TerminationReason::Unclean);
    l.state.fib_manager.as_mut().unwrap().process_batch();
    let w = l.state.on_gr_deadline_expired(a);
    l.finish(w);
    let fib = l.state.fib_manager.as_ref().unwrap();
    assert_eq!(fib.pending_v4.get(&nlri("192.0.2.0/24")), Some(Pending::Withdraw));
    assert!(l.state.adj_ribs_in.get(&a).unwrap().is_empty());
}
