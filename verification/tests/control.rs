use pathvectord::capabilities::{
    build_local_capabilities, has_extended_message, has_family, has_four_byte, has_route_refresh,
    is_covered, restart_offer, SpawnConfig, MAX_RESTART_TIME,
};
use pathvectord::clock::{Instant, NANOS_PER_SEC};
use pathvectord::config::{Config, DaemonConfig, PeerConfig, PeerRole};
use pathvectord::control::{
    build_daemon, session_config, shutdown_command, spawn_config, AddVerdict, Order, Reaction, RemoveVerdict,
    SessionCommand, SessionEvent, SessionInfo, DEFAULT_CONNECT_RETRY_TIME,
};
use pathvectord::message::{
    Capability, CeaseError, GracefulRestartFamily, NotificationError, NotificationMessage, Role,
    UpdateMessage,
};
use pathvectord::net::{AfiSafi, IpAddr, Ipv4Addr};
use pathvectord::session::TerminationReason;
use pathvectord::state::DaemonState;
use pathvectord::table::KeySet;

fn addr(n: u8) -> IpAddr {
    IpAddr::V4(Ipv4Addr::new(10, 0, 0, n))
}

fn secs(n: u64) -> Instant {
    Instant { nanos: n * NANOS_PER_SEC }
}

fn peer(address: IpAddr, remote_as: u32) -> PeerConfig {
    PeerConfig {
        address,
        port: 179,
        remote_as,
        import_default: None,
        import_default_v6: None,
        export_default: None,
        md5_password: None,
        is_rr_client: false,
        next_hop_self: false,
        hold_time: None,
        shutdown_message: None,
        connect_retry_time: None,
        max_prefixes_v4: None,
        max_prefixes_v6: None,
        max_prefixes_restart: None,
        role: None,
    }
}

fn make_config(peers: &[(IpAddr, u32)]) -> Config {
    Config {
        daemon: DaemonConfig {
            local_as: 65001,
            bgp_id: Ipv4Addr::new(10, 0, 0, 1),
            hold_time: 90,
            grpc_port: 0,
            metrics_port: None,
            bgp_port: 0,
            local_ipv6: None,
            cluster_id: None,
            fib_table: 254,
            fib_metric: 20,
            graceful_restart_time: 120,
            restarting: false,
            rpki: None,
        },
        peers: peers.iter().map(|(a, n)| peer(*a, *n)).collect(),
        sidecar_path: None,
    }
}

fn state_of(cfg: &Config) -> DaemonState {
    build_daemon(cfg, secs(10)).state
}

#[test]
fn build_daemon_calls_spawn_once_per_peer() {
    let s = build_daemon(&make_config(&[(addr(1), 65002), (addr(2), 65003)]), secs(10));
    assert_eq!(s.sessions.len(), 2);
    assert_eq!(s.sessions[0].peer_addr, addr(1));
    assert_eq!(s.sessions[1].peer_addr, addr(2));
    assert_eq!(s.sessions[1].peer_as, 65003);
}

#[test]
fn build_daemon_state_has_entry_per_peer() {
    let s = state_of(&make_config(&[(addr(1), 65002), (addr(2), 65003)]));
    assert!(s.update_senders.contains(&addr(1)));
    assert!(s.update_senders.contains(&addr(2)));
    assert_eq!(s.update_senders.len(), 2);
}

#[test]
fn build_daemon_md5_password_present_in_map() {
    let mut cfg = make_config(&[(addr(2), 65002)]);
    cfg.peers[0].md5_password = Some("s3cr3t".to_string());
    let s = build_daemon(&cfg, secs(10));
    assert_eq!(s.md5_passwords.get(&addr(2)).map(String::as_str), Some("s3cr3t"));
}

#[test]
fn build_daemon_no_md5_password_absent_from_map() {
    let s = build_daemon(&make_config(&[(addr(2), 65002)]), secs(10));
    assert!(s.md5_passwords.is_empty(), "no MD5 passwords configured");
}

#[test]
fn build_daemon_md5_map_contains_only_configured_peers() {
    let mut cfg = make_config(&[(addr(2), 65002), (addr(3), 65003)]);
    cfg.peers[0].md5_password = Some("key-for-a".to_string());
    let s = build_daemon(&cfg, secs(10));
    assert_eq!(s.md5_passwords.get(&addr(2)).map(String::as_str), Some("key-for-a"));
    assert!(!s.md5_passwords.contains_key(&addr(3)));
}

#[test]
fn build_daemon_md5_password_reaches_session_config() {
    let mut cfg = make_config(&[(addr(2), 65002)]);
    cfg.peers[0].md5_password = Some("session-key".to_string());
    let s = build_daemon(&cfg, secs(10));
    assert_eq!(s.sessions[0].md5_password.as_deref(), Some("session-key"));
}

#[test]
fn cluster_of_a_reflector_defaults_to_its_identifier() {
    assert_eq!(state_of(&make_config(&[])).rib.cluster_id, 0x0a00_0001);
    let mut cfg = make_config(&[]);
    cfg.daemon.cluster_id = Some(7);
    assert_eq!(state_of(&cfg).rib.cluster_id, 7);
}

#[test]
fn only_internal_peers_can_be_clients() {
    let mut cfg = make_config(&[(addr(2), 65001), (addr(3), 65002)]);
    cfg.peers[0].is_rr_client = true;
    cfg.peers[1].is_rr_client = true;
    let s = state_of(&cfg);
    assert!(s.rib.rr_clients.contains(&addr(2)));
    assert!(!s.rib.rr_clients.contains(&addr(3)));
}

#[test]
fn settings_of_a_peer_come_first() {
    let cfg = make_config(&[]);
    let spawn = spawn_config(&cfg.daemon, secs(10));
    let plain = session_config(&spawn, &peer(addr(2), 65002), secs(10));
    assert_eq!(plain.hold_time, 90);
    assert_eq!(plain.connect_retry_time, DEFAULT_CONNECT_RETRY_TIME);
    assert_eq!(plain.connect_retry_time, 120);
    assert_eq!(plain.local_as, 65001);
    assert_eq!(plain.peer_port, 179);

    let mut p = peer(addr(2), 65002);
    p.hold_time = Some(30);
    p.connect_retry_time = Some(5);
    p.role = Some(PeerRole::Customer);
    let s = session_config(&spawn, &p, secs(10));
    assert_eq!(s.hold_time, 30);
    assert_eq!(s.connect_retry_time, 5);
    assert!(s.capabilities.contains(&Capability::Role(Role::Customer)));
}

#[test]
fn local_capabilities_by_value() {
    let caps = build_local_capabilities(65001, 120, false, None);
    let family = |afi_safi| GracefulRestartFamily { afi_safi, forwarding_preserved: true };
    assert_eq!(
        caps,
        vec![
            Capability::MultiProtocol(AfiSafi::ipv4_unicast()),
            Capability::MultiProtocol(AfiSafi::ipv6_unicast()),
            Capability::RouteRefresh,
            Capability::FourByteAsn(65001),
            Capability::ExtendedMessage,
            Capability::GracefulRestart {
                restart_flags: 0x4,
                restart_time: 120,
                families: vec![family(AfiSafi::ipv4_unicast()), family(AfiSafi::ipv6_unicast())],
            },
        ]
    );
    assert!(has_four_byte(&caps) && has_extended_message(&caps) && has_route_refresh(&caps));
    assert!(has_family(&caps, AfiSafi::ipv6_unicast()));
    let offer = restart_offer(&caps).unwrap();
    assert_eq!(offer.restart_time, 120);
    assert!(is_covered(&offer.families, AfiSafi::ipv4_unicast()));
    assert!(!is_covered(&offer.families, AfiSafi { afi: 1, safi: 2 }));
}

#[test]
fn without_a_restart_time_nothing_is_claimed() {
    let caps = build_local_capabilities(65001, 0, true, Some(Role::Peer));
    assert_eq!(
        caps[5],
        Capability::GracefulRestart { restart_flags: 0, restart_time: 0, families: vec![] }
    );
    assert_eq!(caps[6], Capability::Role(Role::Peer));
    assert!(restart_offer(&caps).is_none());
}

#[test]
fn long_restart_times_are_cut() {
    let caps = build_local_capabilities(65001, 5000, false, None);
    assert_eq!(restart_offer(&caps).unwrap().restart_time, MAX_RESTART_TIME);
    assert_eq!(MAX_RESTART_TIME, 4095);
}

#[test]
fn restarting_is_claimed_within_the_window_alone() {
    let spawn = SpawnConfig {
        local_as: 65001,
        local_bgp_id: Ipv4Addr::new(10, 0, 0, 1),
        hold_time: 90,
        graceful_restart_time: 120,
        configured_restarting: true,
        startup_instant: secs(10),
    };
    let early = restart_offer(&spawn.capabilities(None, secs(129))).unwrap();
    assert_eq!(early.restart_flags, 0xc);
    assert!(!early.families[0].forwarding_preserved);
    let late = restart_offer(&spawn.capabilities(None, secs(130))).unwrap();
    assert_eq!(late.restart_flags, 0x4);
    assert!(late.families[0].forwarding_preserved);
}

#[test]
fn adding_a_peer_starts_a_session_once() {
    let cfg = make_config(&[]);
    let spawn = spawn_config(&cfg.daemon, secs(10));
    let mut s = state_of(&cfg);
    let p = peer(addr(2), 65002);
    match s.judge_add(&p, &spawn, secs(11)) {
        AddVerdict::Start(c) => assert_eq!(c.peer_addr, addr(2)),
        _ => panic!("an unknown peer is started"),
    }
    assert!(s.add_peer(&p));
    assert!(!s.add_peer(&p));
    assert!(matches!(s.judge_add(&p, &spawn, secs(11)), AddVerdict::AlreadyConfigured));
    assert!(s.import_policies.contains_key(&addr(2)));
    assert!(s.update_senders.contains(&addr(2)));
}

#[test]
fn a_peer_that_is_being_removed_cannot_be_added() {
    let mut cfg = make_config(&[(addr(2), 65002)]);
    cfg.peers[0].shutdown_message = Some("planned maintenance".to_string());
    let spawn = spawn_config(&cfg.daemon, secs(10));
    let mut s = state_of(&cfg);
    assert!(matches!(s.begin_removal(addr(9), true), RemoveVerdict::NotConfigured));
    match s.begin_removal(addr(2), true) {
        RemoveVerdict::Shutdown(reason) => assert_eq!(reason, "planned maintenance"),
        _ => panic!("the configured reason is given"),
    }
    let p = peer(addr(2), 65002);
    assert!(matches!(s.judge_add(&p, &spawn, secs(11)), AddVerdict::TeardownInProgress));
    let d = s.on_session_end(addr(2), TerminationReason::Unclean, secs(12));
    assert!(d.removed);
    assert!(!d.work.notify, "the removal is told of alone");
    assert!(!s.adj_ribs_in.contains_key(&addr(2)));
    assert!(!s.pending_removal.contains(&addr(2)));
    assert!(matches!(s.judge_add(&p, &spawn, secs(13)), AddVerdict::Start(_)));
}

#[test]
fn a_shutdown_is_reported_with_its_reason() {
    assert_eq!(
        shutdown_command(vec![2, b'h', b'i']),
        SessionCommand::Notification(NotificationMessage {
            error: NotificationError::Cease(CeaseError::AdministrativeShutdown),
            data: vec![2, b'h', b'i'],
        })
    );
}

#[test]
fn a_peer_without_a_reason_or_a_session_is_removed_too() {
    let mut s = state_of(&make_config(&[(addr(2), 65002), (addr(3), 65003)]));
    assert!(matches!(s.begin_removal(addr(2), true), RemoveVerdict::Stop));
    assert!(matches!(s.begin_removal(addr(3), false), RemoveVerdict::AlreadyOver));
}

#[test]
fn removing_a_peer_forgets_it() {
    let mut s = state_of(&make_config(&[(addr(2), 65002), (addr(3), 65003)]));
    let caps = vec![Capability::MultiProtocol(AfiSafi::ipv6_unicast())];
    s.on_established(
        addr(2),
        Ipv4Addr::new(10, 0, 0, 2),
        pathvectord::message::PeerType::External,
        90,
        &caps,
        Some(addr(1)),
        secs(20),
    );
    assert!(s.remove_peer(addr(2)));
    assert!(!s.remove_peer(addr(2)));
    assert!(!s.rib.peer_types.contains_key(&addr(2)));
    assert!(!s.rib.peer_remote_as.contains_key(&addr(2)));
    assert!(!s.ipv6_capable_peers.contains(&addr(2)));
    assert!(!s.update_senders.contains(&addr(2)));
    assert!(s.adj_ribs_in.contains_key(&addr(3)), "the other peer stays");
}

#[test]
fn orders_name_the_error_first_and_then_the_stalled() {
    let mut s = state_of(&make_config(&[(addr(2), 65002), (addr(3), 65003)]));
    s.stalled_peers = vec![addr(3), addr(2)];
    let error = || NotificationMessage {
        error: NotificationError::Cease(CeaseError::MaximumNumberOfPrefixesReached),
        data: vec![],
    };
    let orders = s.orders_after(addr(2), Some(error()));
    assert_eq!(
        orders,
        vec![
            Order { peer: addr(2), command: SessionCommand::Notification(error()) },
            Order { peer: addr(3), command: SessionCommand::Stop },
            Order { peer: addr(2), command: SessionCommand::Stop },
        ]
    );
    assert!(s.orders_after(addr(2), None).is_empty());
}

#[test]
fn a_notification_keeps_routes_where_both_sides_agree() {
    let mut s = state_of(&make_config(&[(addr(2), 65002)]));
    let offer = |flags: u8| {
        vec![Capability::GracefulRestart {
            restart_flags: flags,
            restart_time: 60,
            families: vec![],
        }]
    };
    let kind = pathvectord::message::PeerType::External;
    let id = Ipv4Addr::new(10, 0, 0, 2);
    s.on_established(addr(2), id, kind, 90, &offer(0x4), None, secs(20));
    assert_eq!(s.reason_after_notification(addr(2), false), TerminationReason::Unclean);
    assert_eq!(s.reason_after_notification(addr(2), true), TerminationReason::Clean);
    s.on_established(addr(2), id, kind, 90, &offer(0), None, secs(20));
    assert_eq!(s.reason_after_notification(addr(2), false), TerminationReason::Clean);
}

#[test]
fn events_of_a_session_are_told_apart() {
    let mut s = state_of(&make_config(&[(addr(2), 65002)]));
    let info = || SessionInfo {
        peer_bgp_id: Ipv4Addr::new(10, 0, 0, 2),
        peer_type: pathvectord::message::PeerType::External,
        hold_time: 90,
        peer_capabilities: vec![Capability::GracefulRestart {
            restart_flags: 0x4,
            restart_time: 60,
            families: vec![GracefulRestartFamily {
                afi_safi: AfiSafi::ipv4_unicast(),
                forwarding_preserved: true,
            }],
        }],
        local_addr: Some(addr(1)),
    };
    let r = s.on_session_event(addr(2), SessionEvent::Established(info()), secs(20));
    assert!(matches!(r, Reaction::Opened(_)));
    assert!(s.rib.peer_types.contains_key(&addr(2)));

    let heard = UpdateMessage { withdrawn: vec![], attributes: vec![], announced: vec![] };
    let r = s.on_session_event(addr(2), SessionEvent::RouteUpdate(heard), secs(21));
    assert!(matches!(r, Reaction::Heard(_)));

    let r = s.on_session_event(addr(2), SessionEvent::Notified { hard_reset: false }, secs(30));
    assert!(matches!(r, Reaction::Ended(_)));
    assert!(!s.rib.peer_types.contains_key(&addr(2)));
    assert_eq!(s.gr.earliest_deadline(), Some(secs(90)), "the routes are kept for a minute");

    s.on_session_event(addr(2), SessionEvent::Established(info()), secs(40));
    s.on_session_event(addr(2), SessionEvent::Notified { hard_reset: true }, secs(50));
    assert_eq!(s.gr.earliest_deadline(), None, "a hard reset keeps nothing");

    s.on_session_event(addr(2), SessionEvent::Established(info()), secs(60));
    let lost = SessionEvent::Terminated(TerminationReason::Unclean);
    match s.on_session_event(addr(2), lost, secs(70)) {
        Reaction::Ended(d) => assert!(!d.removed),
        _ => panic!("the session has ended"),
    }
    assert_eq!(s.gr.earliest_deadline(), Some(secs(130)));
}

#[test]
fn a_peer_may_connect_unless_it_is_shut_out() {
    let mut s = state_of(&make_config(&[(addr(2), 65002)]));
    assert!(s.may_connect(addr(2), secs(1)));
    s.max_prefix_idle.insert(addr(2), secs(30));
    assert!(!s.may_connect(addr(2), secs(29)));
    assert!(s.may_connect(addr(2), secs(30)));
}

#[test]
fn a_snapshot_shows_the_tables() {
    let s = state_of(&make_config(&[(addr(2), 65002)]));
    assert_eq!(s.snapshot().peer_remote_as.get(&addr(2)), Some(&65002));
    let empty: KeySet<IpAddr> = KeySet::new();
    assert_eq!(s.snapshot().rr_clients.len(), empty.len());
}
