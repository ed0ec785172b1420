//! Starting the daemon, commands to it, and what sessions are told after an event.
use vstd::prelude::*;

use crate::capabilities::{local_set, offered_time, restart_offer, SpawnConfig};
use crate::clock::Instant;
use crate::config::{Config, DaemonConfig, PeerConfig, PeerRole};
use crate::inbound::{update_outcome, work_of, Received};
use crate::message::{
    Capability, CeaseError, NotificationError, NotificationMessage, PeerType, Role, UpdateMessage,
};
use crate::net::{AfiSafi, IpAddr, Ipv4Addr};
use crate::restart::{teardown_work, window_work};
use crate::session::{opening_outcome, Opening, TerminationReason};
use crate::state::{clients_of, insert_some, text, DaemonState, DaemonView};
use crate::table::{KeySet, Table};
use crate::work::{Work, WorkView};

verus! {

/// Seconds between attempts to connect to a peer, where none are configured.
pub const DEFAULT_CONNECT_RETRY_TIME: u16 = 120;

/// What a session is started with.
pub struct SessionConfig {
    pub local_as: u32,
    pub local_bgp_id: Ipv4Addr,
    pub hold_time: u16,
    pub capabilities: Vec<Capability>,
    pub peer_as: u32,
    pub peer_addr: IpAddr,
    pub peer_port: u16,
    pub md5_password: Option<String>,
    /// Seconds between attempts to connect.
    pub connect_retry_time: u16,
}

/// The role that is advertised to a peer.
pub open spec fn advertised_role(peer: PeerConfig) -> Option<Role> {
    match peer.role {
        Some(PeerRole::Provider) => Some(Role::Provider),
        Some(PeerRole::RouteServer) => Some(Role::RouteServer),
        Some(PeerRole::RsClient) => Some(Role::RsClient),
        Some(PeerRole::Customer) => Some(Role::Customer),
        Some(PeerRole::Peer) => Some(Role::Peer),
        None => None,
    }
}

/// Whether a session is started as configured: settings of the peer come before those of the daemon.
pub open spec fn configured_session(
    s: SessionConfig,
    cfg: SpawnConfig,
    peer: PeerConfig,
    now: Instant,
) -> bool {
    &&& s.local_as == cfg.local_as
    &&& s.local_bgp_id == cfg.local_bgp_id
    &&& s.hold_time == (match peer.hold_time {
        Some(t) => t,
        None => cfg.hold_time,
    })
    &&& local_set(
        s.capabilities@,
        cfg.local_as,
        cfg.graceful_restart_time,
        cfg.in_window(now),
        advertised_role(peer),
    )
    &&& s.peer_as == peer.remote_as
    &&& s.peer_addr == peer.address
    &&& s.peer_port == peer.port
    &&& text(s.md5_password) == text(peer.md5_password)
    &&& s.connect_retry_time == (match peer.connect_retry_time {
        Some(t) => t,
        None => DEFAULT_CONNECT_RETRY_TIME,
    })
}

/// A copy of an optional text.
fn copy_text(s: &Option<String>) -> (r: Option<String>)
    ensures
        text(r) == text(*s),
{
    match s {
        Some(x) => Some(x.clone()),
        None => None,
    }
}

/// What a session with a peer is started with.
pub fn session_config(cfg: &SpawnConfig, peer: &PeerConfig, now: Instant) -> (r: SessionConfig)
    ensures
        configured_session(r, *cfg, *peer, now),
{
    let role: Option<Role> = match peer.role {
        Some(x) => Some(Role::from(x)),
        None => None,
    };
    SessionConfig {
        local_as: cfg.local_as,
        local_bgp_id: cfg.local_bgp_id,
        hold_time: match peer.hold_time {
            Some(t) => t,
            None => cfg.hold_time,
        },
        capabilities: cfg.capabilities(role, now),
        peer_as: peer.remote_as,
        peer_addr: peer.address,
        peer_port: peer.port,
        md5_password: copy_text(&peer.md5_password),
        connect_retry_time: match peer.connect_retry_time {
            Some(t) => t,
            None => DEFAULT_CONNECT_RETRY_TIME,
        },
    }
}

/// What the daemon starts with.
pub struct Startup {
    pub state: DaemonState,
    /// One session for each configured peer, in order.
    pub sessions: Vec<SessionConfig>,
    /// The key of each peer that has one.
    pub md5_passwords: Table<IpAddr, String>,
}

/// The keys of the peers in a list; that of a later peer replaces that of an earlier one with its
/// address.
pub open spec fn keys_of_peers(peers: Seq<PeerConfig>) -> Map<IpAddr, Seq<char>>
    decreases peers.len(),
{
    if peers.len() == 0 {
        Map::empty()
    } else {
        insert_some(
            keys_of_peers(peers.drop_last()),
            peers.last().address,
            text(peers.last().md5_password),
        )
    }
}

/// What all sessions of a configuration have in common.
pub open spec fn spawn_config_of(d: DaemonConfig, startup: Instant) -> SpawnConfig {
    SpawnConfig {
        local_as: d.local_as,
        local_bgp_id: d.bgp_id,
        hold_time: d.hold_time,
        graceful_restart_time: d.graceful_restart_time,
        configured_restarting: d.restarting,
        startup_instant: startup,
    }
}

/// What all sessions of a configuration have in common.
pub fn spawn_config(d: &DaemonConfig, startup: Instant) -> (r: SpawnConfig)
    ensures
        r == spawn_config_of(*d, startup),
{
    SpawnConfig {
        local_as: d.local_as,
        local_bgp_id: d.bgp_id,
        hold_time: d.hold_time,
        graceful_restart_time: d.graceful_restart_time,
        configured_restarting: d.restarting,
        startup_instant: startup,
    }
}

/// The addresses of the peers in a list.
pub open spec fn addresses_of(peers: Seq<PeerConfig>) -> Set<IpAddr> {
    peers.map_values(|p: PeerConfig| p.address).to_set()
}

/// The contract of [`build_daemon`]: what a configuration leads to.
pub open spec fn startup_outcome(cfg: Config, now: Instant, r: Startup) -> bool {
    &&& r.sessions@.len() == cfg.peers@.len()
    &&& forall|i: int|
        0 <= i < cfg.peers@.len() ==> configured_session(
            #[trigger] r.sessions@[i],
            spawn_config_of(cfg.daemon, now),
            cfg.peers@[i],
            now,
        )
    &&& r.md5_passwords@ == keys_of_peers(cfg.peers@)
    &&& local_set(
        r.state@.config_capabilities,
        cfg.daemon.local_as,
        cfg.daemon.graceful_restart_time,
        spawn_config_of(cfg.daemon, now).in_window(now),
        None,
    )
    &&& r.state@ == DaemonView::initial(
        cfg.daemon.local_as,
        cfg.daemon.bgp_id,
        cfg.daemon.local_ipv6,
        match cfg.daemon.cluster_id {
            Some(c) => c,
            None => cfg.daemon.bgp_id.bits,
        },
        clients_of(cfg.peers@, cfg.daemon.local_as),
        addresses_of(cfg.peers@),
        r.state@.config_capabilities,
    ).registered_all(cfg.peers@)
}

/// Prepares everything that is configured: the state, a session for each peer, and the keys of
/// connections.
pub fn build_daemon(cfg: &Config, now: Instant) -> (r: Startup)
    ensures
        startup_outcome(*cfg, now, r),
        r.sessions@.len() == cfg.peers@.len(),
        forall|i: int|
            0 <= i < cfg.peers@.len() ==> configured_session(
                #[trigger] r.sessions@[i],
                spawn_config_of(cfg.daemon, now),
                cfg.peers@[i],
                now,
            ),
        r.md5_passwords@ == keys_of_peers(cfg.peers@),
        local_set(
            r.state@.config_capabilities,
            cfg.daemon.local_as,
            cfg.daemon.graceful_restart_time,
            spawn_config_of(cfg.daemon, now).in_window(now),
            None,
        ),
        r.state@ == DaemonView::initial(
            cfg.daemon.local_as,
            cfg.daemon.bgp_id,
            cfg.daemon.local_ipv6,
            match cfg.daemon.cluster_id {
                Some(c) => c,
                None => cfg.daemon.bgp_id.bits,
            },
            clients_of(cfg.peers@, cfg.daemon.local_as),
            addresses_of(cfg.peers@),
            r.state@.config_capabilities,
        ).registered_all(cfg.peers@),
{
    let spawn = spawn_config(&cfg.daemon, now);
    let mut sessions: Vec<SessionConfig> = Vec::new();
    let mut md5_passwords: Table<IpAddr, String> = Table::new();
    let mut senders: KeySet<IpAddr> = KeySet::new();
    let mut i: usize = 0;
    proof {
        assert(addresses_of(cfg.peers@.take(0)) =~= Set::empty());
    }
    while i < cfg.peers.len()
        invariant
            0 <= i <= cfg.peers.len(),
            spawn == spawn_config_of(cfg.daemon, now),
            sessions@.len() == i,
            forall|j: int|
                0 <= j < i ==> configured_session(
                    #[trigger] sessions@[j],
                    spawn,
                    cfg.peers@[j],
                    now,
                ),
            md5_passwords@ == keys_of_peers(cfg.peers@.take(i as int)),
            senders@ == addresses_of(cfg.peers@.take(i as int)),
        decreases cfg.peers.len() - i,
    {
        let peer = &cfg.peers[i];
        sessions.push(session_config(&spawn, peer, now));
        let _ = senders.insert(peer.address);
        if let Some(key) = &peer.md5_password {
            md5_passwords.insert(peer.address, key.clone());
        }
        i = i + 1;
        proof {
            let s = cfg.peers@.take(i - 1);
            let t = cfg.peers@.take(i as int);
            assert(t.drop_last() =~= s);
            let a = s.map_values(|p: PeerConfig| p.address);
            let b = t.map_values(|p: PeerConfig| p.address);
            assert(b =~= a.push(peer.address));
            crate::rib::lemma_take_contains(b, i as int);
            assert(b.take(i as int) =~= b);
            assert(b.take(i - 1) =~= a);
            assert forall|x: IpAddr| addresses_of(t).contains(x) <==> (addresses_of(s).contains(x)
                || x == peer.address) by {
                assert(b.contains(x) <==> (a.contains(x) || x == peer.address));
            }
            assert(senders@ =~= addresses_of(t));
        }
    }
    assert(cfg.peers@.take(i as int) =~= cfg.peers@);
    let capabilities = spawn.capabilities(None, now);
    let state = DaemonState::new(
        cfg.daemon.local_as,
        cfg.daemon.bgp_id,
        cfg.daemon.local_ipv6,
        cfg.daemon.cluster_id,
        &cfg.peers,
        senders,
        capabilities,
    );
    proof {
        registering_keeps_capabilities(
            DaemonView::initial(
                cfg.daemon.local_as,
                cfg.daemon.bgp_id,
                cfg.daemon.local_ipv6,
                match cfg.daemon.cluster_id {
                    Some(c) => c,
                    None => cfg.daemon.bgp_id.bits,
                },
                clients_of(cfg.peers@, cfg.daemon.local_as),
                addresses_of(cfg.peers@),
                capabilities@,
            ),
            cfg.peers@,
        );
    }
    Startup { state, sessions, md5_passwords }
}

/// Configuring peers leaves the daemon's own capabilities as they are.
proof fn registering_keeps_capabilities(s: DaemonView, peers: Seq<PeerConfig>)
    ensures
        s.registered_all(peers).config_capabilities == s.config_capabilities,
    decreases peers.len(),
{
    if peers.len() > 0 {
        registering_keeps_capabilities(s, peers.drop_last());
    }
}

/// What becomes of a command to add a peer.
pub enum AddVerdict {
    /// The peer is configured, and stays as it is.
    AlreadyConfigured,
    /// The peer is being removed, and the command is dropped.
    TeardownInProgress,
    /// A session is to be started, and the peer to be configured.
    Start(SessionConfig),
}

/// What becomes of a command to remove a peer.
pub enum RemoveVerdict {
    NotConfigured,
    /// The session is to be closed with this reason.
    Shutdown(String),
    /// The session is to be closed.
    Stop,
    /// There is no session; its end is to be taken as having come, by agreement.
    AlreadyOver,
}

/// What becomes of a command to add a peer, given a state.
pub open spec fn joining_outcome(
    s: DaemonView,
    peer: PeerConfig,
    cfg: SpawnConfig,
    now: Instant,
    r: AddVerdict,
) -> bool {
    match r {
        AddVerdict::Start(x) => !s.adj_ribs_in.contains_key(peer.address) && configured_session(
            x,
            cfg,
            peer,
            now,
        ),
        AddVerdict::TeardownInProgress => s.adj_ribs_in.contains_key(peer.address)
            && s.pending_removal.contains(peer.address),
        AddVerdict::AlreadyConfigured => s.adj_ribs_in.contains_key(peer.address)
            && !s.pending_removal.contains(peer.address),
    }
}

/// What a session is told to do.
#[derive(Debug, PartialEq, Eq)]
pub enum SessionCommand {
    /// Report an error to the peer, and close.
    Notification(NotificationMessage),
    /// Close.
    Stop,
}

/// What a session is told that is closed with a reason: to report an administrative shutdown to the
/// peer, with the reason as it goes on the wire.
pub fn shutdown_command(data: Vec<u8>) -> (r: SessionCommand)
    ensures
        r matches SessionCommand::Notification(m) && m.error == NotificationError::Cease(
            CeaseError::AdministrativeShutdown,
        ) && m.data@ == data@,
{
    SessionCommand::Notification(
        NotificationMessage {
            error: NotificationError::Cease(CeaseError::AdministrativeShutdown),
            data,
        },
    )
}

/// What the session with one peer is told to do.
#[derive(Debug, PartialEq, Eq)]
pub struct Order {
    pub peer: IpAddr,
    pub command: SessionCommand,
}

/// What the end of a session leaves to be done.
pub struct Departure {
    pub work: Work,
    /// Whether the peer has been removed for good.
    pub removed: bool,
}

/// What a command to remove a peer makes of a state, and what becomes of the command.
pub open spec fn leaving_outcome(
    before: DaemonView,
    p: IpAddr,
    has_session: bool,
    after: DaemonView,
    r: RemoveVerdict,
) -> bool {
    &&& after == (if before.adj_ribs_in.contains_key(p) {
        DaemonView { pending_removal: before.pending_removal.insert(p), ..before }
    } else {
        before
    })
    &&& match r {
        RemoveVerdict::NotConfigured => !before.adj_ribs_in.contains_key(p),
        RemoveVerdict::AlreadyOver => before.adj_ribs_in.contains_key(p) && !has_session,
        RemoveVerdict::Shutdown(reason) => {
            &&& before.adj_ribs_in.contains_key(p) && has_session
            &&& before.shutdown_messages.contains_key(p)
            &&& reason@ == before.shutdown_messages[p]
        },
        RemoveVerdict::Stop => before.adj_ribs_in.contains_key(p) && has_session
            && !before.shutdown_messages.contains_key(p),
    }
}

/// What the end of a session leads to. Where the peer restarts, its window opens. Else its routes go,
/// and the peer with them if it was to be removed.
pub open spec fn departure_outcome(
    before: DaemonView,
    p: IpAddr,
    reason: TerminationReason,
    now: Instant,
    after: DaemonView,
    r: Departure,
) -> bool {
    let s = before.session_ended(p);
    let leaving = before.pending_removal.contains(p);
    if before.opens_window(p, reason) {
        let v4 = s.restarts(p, AfiSafi::ipv4_unicast());
        let v6 = s.restarts(p, AfiSafi::ipv6_unicast());
        let t = s.window_opened(p, now.after(before.rib.gr_capable_peers[p]));
        &&& !r.removed
        &&& after == t.stale_marked(p, v4, v6)
        &&& window_work((WorkView { notify: false, ..r.work@ }), t, p, v4, v6)
        &&& r.work@.notify
    } else {
        let t = s.received_cleared(p, true, true).advertised_reset(p);
        &&& r.removed == (leaving && before.adj_ribs_in.contains_key(p))
        &&& after == (if r.removed {
            t.without(p)
        } else {
            t
        })
        &&& teardown_work(r.work@, before, p, !leaving)
    }
}

/// What both sides of a session agreed on when it began.
pub struct SessionInfo {
    pub peer_bgp_id: Ipv4Addr,
    pub peer_type: PeerType,
    pub hold_time: u16,
    pub peer_capabilities: Vec<Capability>,
    /// The local address of the session.
    pub local_addr: Option<IpAddr>,
}

/// What a session reports.
pub enum SessionEvent {
    Established(SessionInfo),
    Terminated(TerminationReason),
    /// The peer closed the session with a NOTIFICATION, which may ask for a hard reset.
    Notified { hard_reset: bool },
    RouteUpdate(UpdateMessage),
}

impl DaemonView {
    /// How the end of a session counts that a peer closed with a NOTIFICATION: as a lost connection
    /// where both sides keep routes over one and the peer did not ask for a hard reset.
    pub open spec fn closing_reason(self, p: IpAddr, hard_reset: bool) -> TerminationReason {
        if self.gr.notification_capable_peers.contains(p) && offered_time(self.config_capabilities)
            is Some && !hard_reset {
            TerminationReason::Unclean
        } else {
            TerminationReason::Clean
        }
    }

    /// Whether a peer may connect.
    pub open spec fn lets_in(self, p: IpAddr, now: Instant) -> bool {
        !self.max_prefix_idle.contains_key(p) || self.max_prefix_idle[p].nanos <= now.nanos
    }

    /// Whether the clock can count the restart time of a peer whose session ends.
    pub open spec fn window_fits(self, p: IpAddr, reason: TerminationReason, now: Instant) -> bool {
        self.opens_window(p, reason) ==> now.has_room(self.rib.gr_capable_peers[p])
    }
}

/// What an event of a session leaves to be done.
pub enum Reaction {
    Opened(Opening),
    Ended(Departure),
    Heard(Received),
}

impl DaemonState {
    /// Decides on a command to add a peer. The command changes nothing by itself.
    pub fn judge_add(&self, peer: &PeerConfig, cfg: &SpawnConfig, now: Instant) -> (r: AddVerdict)
        ensures
            joining_outcome(self@, *peer, *cfg, now, r),
            match r {
                AddVerdict::Start(s) => !self@.adj_ribs_in.contains_key(peer.address)
                    && configured_session(s, *cfg, *peer, now),
                AddVerdict::TeardownInProgress => self@.adj_ribs_in.contains_key(peer.address)
                    && self@.pending_removal.contains(peer.address),
                AddVerdict::AlreadyConfigured => self@.adj_ribs_in.contains_key(peer.address)
                    && !self@.pending_removal.contains(peer.address),
            },
    {
        if self.adj_ribs_in.contains_key(&peer.address) {
            if self.pending_removal.contains(&peer.address) {
                AddVerdict::TeardownInProgress
            } else {
                AddVerdict::AlreadyConfigured
            }
        } else {
            AddVerdict::Start(session_config(cfg, peer, now))
        }
    }

    /// Begins to remove a peer: it goes when its session ends. `has_session` is whether there is a
    /// session that can be told to close.
    pub fn begin_removal(&mut self, peer_ip: IpAddr, has_session: bool) -> (r: RemoveVerdict)
        ensures
            leaving_outcome(old(self)@, peer_ip, has_session, final(self)@, r),
            final(self)@ == (if old(self)@.adj_ribs_in.contains_key(peer_ip) {
                DaemonView {
                    pending_removal: old(self)@.pending_removal.insert(peer_ip),
                    ..old(self)@
                }
            } else {
                old(self)@
            }),
            match r {
                RemoveVerdict::NotConfigured => !old(self)@.adj_ribs_in.contains_key(peer_ip),
                RemoveVerdict::AlreadyOver => old(self)@.adj_ribs_in.contains_key(peer_ip)
                    && !has_session,
                RemoveVerdict::Shutdown(reason) => {
                    &&& old(self)@.adj_ribs_in.contains_key(peer_ip) && has_session
                    &&& old(self)@.shutdown_messages.contains_key(peer_ip)
                    &&& reason@ == old(self)@.shutdown_messages[peer_ip]
                },
                RemoveVerdict::Stop => old(self)@.adj_ribs_in.contains_key(peer_ip) && has_session
                    && !old(self)@.shutdown_messages.contains_key(peer_ip),
            },
    {
        if !self.adj_ribs_in.contains_key(&peer_ip) {
            return RemoveVerdict::NotConfigured;
        }
        let _ = self.pending_removal.insert(peer_ip);
        if !has_session {
            return RemoveVerdict::AlreadyOver;
        }
        match self.shutdown_messages.get(&peer_ip) {
            Some(reason) => RemoveVerdict::Shutdown(reason.clone()),
            None => RemoveVerdict::Stop,
        }
    }

    /// A session has ended. A peer that is to be removed goes with it, and those who watch peers are
    /// told of the removal alone.
    pub fn on_session_end(&mut self, peer_ip: IpAddr, reason: TerminationReason, now: Instant) -> (r:
        Departure)
        requires
            old(self)@.window_fits(peer_ip, reason, now),
        ensures
            departure_outcome(old(self)@, peer_ip, reason, now, final(self)@, r),
    {
        let leaving = self.pending_removal.contains(&peer_ip);
        let work = self.on_terminated(peer_ip, reason, !leaving, now);
        let removed = if leaving {
            self.remove_peer(peer_ip)
        } else {
            false
        };
        Departure { work, removed }
    }

    /// An event has come from the session with a peer.
    pub fn on_session_event(&mut self, peer_ip: IpAddr, event: SessionEvent, now: Instant) -> (r:
        Reaction)
        requires
            match event {
                SessionEvent::Established(_) => true,
                SessionEvent::Terminated(reason) => old(self)@.window_fits(peer_ip, reason, now),
                SessionEvent::Notified { hard_reset } => old(self)@.window_fits(
                    peer_ip,
                    old(self)@.closing_reason(peer_ip, hard_reset),
                    now,
                ),
                SessionEvent::RouteUpdate(_) => old(self)@.peer_max_prefixes_restart.contains_key(
                    peer_ip,
                ) ==> now.has_room(old(self)@.peer_max_prefixes_restart[peer_ip]),
            },
        ensures
            match event {
                SessionEvent::Established(info) => {
                    &&& r is Opened
                    &&& opening_outcome(
                        old(self)@,
                        peer_ip,
                        info.peer_bgp_id,
                        info.peer_type,
                        info.hold_time,
                        info.peer_capabilities@,
                        info.local_addr,
                        now,
                        final(self)@,
                        r->Opened_0,
                    )
                },
                SessionEvent::Terminated(reason) => {
                    &&& r is Ended
                    &&& departure_outcome(
                        old(self)@,
                        peer_ip,
                        reason,
                        now,
                        final(self)@,
                        r->Ended_0,
                    )
                },
                SessionEvent::Notified { hard_reset } => {
                    &&& r is Ended
                    &&& departure_outcome(
                        old(self)@,
                        peer_ip,
                        old(self)@.closing_reason(peer_ip, hard_reset),
                        now,
                        final(self)@,
                        r->Ended_0,
                    )
                },
                SessionEvent::RouteUpdate(msg) => {
                    &&& r is Heard
                    &&& update_outcome(
                        old(self)@,
                        peer_ip,
                        msg@,
                        now,
                        final(self)@,
                        r->Heard_0.notification,
                        work_of(r->Heard_0.work),
                    )
                },
            },
    {
        match event {
            SessionEvent::Established(info) => Reaction::Opened(
                self.on_established(
                    peer_ip,
                    info.peer_bgp_id,
                    info.peer_type,
                    info.hold_time,
                    &info.peer_capabilities,
                    info.local_addr,
                    now,
                ),
            ),
            SessionEvent::Terminated(reason) => Reaction::Ended(
                self.on_session_end(peer_ip, reason, now),
            ),
            SessionEvent::Notified { hard_reset } => {
                let reason = self.reason_after_notification(peer_ip, hard_reset);
                Reaction::Ended(self.on_session_end(peer_ip, reason, now))
            },
            SessionEvent::RouteUpdate(msg) => Reaction::Heard(
                self.on_route_update(peer_ip, msg, now),
            ),
        }
    }

    /// What sessions are told after an event: the peer that an error is reported to first, then every
    /// peer that did not take what was sent to it.
    pub fn orders_after(&mut self, peer_ip: IpAddr, notification: Option<NotificationMessage>) -> (r:
        Vec<Order>)
        ensures
            final(self)@ == (DaemonView { stalled_peers: Seq::empty(), ..old(self)@ }),
            r@ == orders(peer_ip, notification, old(self)@.stalled_peers),
    {
        let stalled = self.take_stalled_peers();
        let mut r: Vec<Order> = Vec::new();
        match notification {
            Some(n) => {
                r.push(Order { peer: peer_ip, command: SessionCommand::Notification(n) });
            },
            None => {},
        }
        let ghost head = r@;
        let mut i: usize = 0;
        while i < stalled.len()
            invariant
                0 <= i <= stalled.len(),
                r@.len() == head.len() + i,
                forall|j: int| 0 <= j < head.len() ==> r@[j] == head[j],
                forall|j: int|
                    0 <= j < i ==> (#[trigger] r@[head.len() + j]) == (Order {
                        peer: stalled@[j],
                        command: SessionCommand::Stop,
                    }),
            decreases stalled.len() - i,
        {
            r.push(Order { peer: stalled[i], command: SessionCommand::Stop });
            i = i + 1;
        }
        proof {
            let want = orders(peer_ip, notification, stalled@);
            assert(want.len() == r@.len());
            assert forall|j: int| 0 <= j < r@.len() implies r@[j] == want[j] by {
                if j >= head.len() {
                    let k = j - head.len();
                    assert(r@[head.len() + k] == (Order {
                        peer: stalled@[k],
                        command: SessionCommand::Stop,
                    }));
                }
            }
            assert(r@ =~= want);
        }
        r
    }

    /// How the end of a session counts that a peer closed with a NOTIFICATION. Where both sides keep
    /// routes over one, it counts as a lost connection, unless the peer asked for a hard
    /// reset.
    pub fn reason_after_notification(&self, peer_ip: IpAddr, hard_reset: bool) -> (r:
        TerminationReason)
        ensures
            r == self@.closing_reason(peer_ip, hard_reset),
    {
        if self.gr.notification_capable_peers.contains(&peer_ip)
            && restart_offer(&self.config_capabilities).is_some()
            && !hard_reset {
            TerminationReason::Unclean
        } else {
            TerminationReason::Clean
        }
    }

    /// Whether a peer may connect: not while it is shut out for sending too many prefixes.
    pub fn may_connect(&self, peer_ip: IpAddr, now: Instant) -> (r: bool)
        ensures
            r == self@.lets_in(peer_ip, now),
    {
        match self.max_prefix_idle.get(&peer_ip) {
            Some(until) => until.nanos <= now.nanos,
            None => true,
        }
    }
}

/// What sessions are told after an event.
pub open spec fn orders(
    peer: IpAddr,
    notification: Option<NotificationMessage>,
    stalled: Seq<IpAddr>,
) -> Seq<Order> {
    let first = match notification {
        Some(n) => seq![Order { peer, command: SessionCommand::Notification(n) }],
        None => Seq::empty(),
    };
    first + stalled.map_values(|p: IpAddr| Order { peer: p, command: SessionCommand::Stop })
}

} // verus!
