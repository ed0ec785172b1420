use pathvectord::clock::{Instant, NANOS_PER_SEC};
use pathvectord::deferral::{family_blocks, SelectionDeferral};
use pathvectord::message::PeerType;
use pathvectord::net::{IpAddr, Ipv4Addr};
use pathvectord::table::{KeySet, Table};

fn peer(n: u8) -> IpAddr {
    IpAddr::V4(Ipv4Addr::new(10, 0, 0, n))
}

fn start() -> Instant {
    Instant { nanos: 5 * NANOS_PER_SEC }
}

struct Fixture {
    configured: Vec<IpAddr>,
    peer_types: Table<IpAddr, PeerType>,
    gr_capable_peers: Table<IpAddr, u16>,
    gr_peer_restarting: KeySet<IpAddr>,
    ipv6_capable_peers: KeySet<IpAddr>,
    eor_received: KeySet<IpAddr>,
    eor_received_v6: KeySet<IpAddr>,
}

impl Fixture {
    fn empty() -> Self {
        Fixture {
            configured: Vec::new(),
            peer_types: Table::new(),
            gr_capable_peers: Table::new(),
            gr_peer_restarting: KeySet::new(),
            ipv6_capable_peers: KeySet::new(),
            eor_received: KeySet::new(),
            eor_received_v6: KeySet::new(),
        }
    }

    fn recompute(&self, sd: &mut SelectionDeferral) -> (bool, bool) {
        sd.recompute(
            &self.configured,
            &self.peer_types,
            &self.gr_capable_peers,
            &self.gr_peer_restarting,
            &self.ipv6_capable_peers,
            &self.eor_received,
            &self.eor_received_v6,
        )
    }
}

#[test]
fn empty_configured_peer_set_releases_immediately() {
    let mut sd = SelectionDeferral::new(start(), 120);
    let fx = Fixture::empty();
    assert_eq!(fx.recompute(&mut sd), (true, true));
    assert!(!sd.v4_deferred());
    assert!(!sd.v6_deferred());
}

#[test]
fn unestablished_configured_peer_blocks_release() {
    let mut sd = SelectionDeferral::new(start(), 120);
    let mut fx = Fixture::empty();
    fx.configured.push(peer(1)); // never established
    assert_eq!(fx.recompute(&mut sd), (false, false));
    assert!(sd.v4_deferred());
    assert!(sd.v6_deferred());
}

#[test]
fn established_non_gr_capable_peer_does_not_block() {
    let mut sd = SelectionDeferral::new(start(), 120);
    let mut fx = Fixture::empty();
    fx.configured.push(peer(1));
    fx.peer_types.insert(peer(1), PeerType::External);
    assert_eq!(fx.recompute(&mut sd), (true, true));
}

#[test]
fn established_restarting_peer_does_not_block() {
    let mut sd = SelectionDeferral::new(start(), 120);
    let mut fx = Fixture::empty();
    fx.configured.push(peer(1));
    fx.peer_types.insert(peer(1), PeerType::External);
    fx.gr_capable_peers.insert(peer(1), 120);
    fx.gr_peer_restarting.insert(peer(1));
    assert_eq!(fx.recompute(&mut sd), (true, true));
}

#[test]
fn established_gr_capable_peer_without_eor_blocks() {
    let mut sd = SelectionDeferral::new(start(), 120);
    let mut fx = Fixture::empty();
    fx.configured.push(peer(1));
    fx.peer_types.insert(peer(1), PeerType::External);
    fx.gr_capable_peers.insert(peer(1), 120);
    fx.ipv6_capable_peers.insert(peer(1));
    assert_eq!(fx.recompute(&mut sd), (false, false));
}

#[test]
fn eor_receipt_satisfies_membership() {
    let mut sd = SelectionDeferral::new(start(), 120);
    let mut fx = Fixture::empty();
    fx.configured.push(peer(1));
    fx.peer_types.insert(peer(1), PeerType::External);
    fx.gr_capable_peers.insert(peer(1), 120);
    fx.ipv6_capable_peers.insert(peer(1));
    assert_eq!(fx.recompute(&mut sd), (false, false));

    fx.eor_received.insert(peer(1));
    assert_eq!(fx.recompute(&mut sd), (true, false));
    assert!(!sd.v4_deferred());
    assert!(sd.v6_deferred());
}

#[test]
fn v6_gate_excludes_peer_without_ipv6_capability() {
    let mut sd = SelectionDeferral::new(start(), 120);
    let mut fx = Fixture::empty();
    fx.configured.push(peer(1));
    fx.peer_types.insert(peer(1), PeerType::External);
    fx.gr_capable_peers.insert(peer(1), 120);
    fx.eor_received.insert(peer(1));
    assert_eq!(fx.recompute(&mut sd), (true, true));
}

#[test]
fn v6_gate_blocks_until_v6_eor_for_ipv6_capable_peer() {
    let mut sd = SelectionDeferral::new(start(), 120);
    let mut fx = Fixture::empty();
    fx.configured.push(peer(1));
    fx.peer_types.insert(peer(1), PeerType::External);
    fx.gr_capable_peers.insert(peer(1), 120);
    fx.ipv6_capable_peers.insert(peer(1));
    fx.eor_received.insert(peer(1));
    assert_eq!(fx.recompute(&mut sd), (true, false));
    fx.eor_received_v6.insert(peer(1));
    assert_eq!(fx.recompute(&mut sd), (false, true));
}

#[test]
fn force_release_overrides_unsatisfied_wait_set() {
    let mut sd = SelectionDeferral::new(start(), 120);
    let mut fx = Fixture::empty();
    fx.configured.push(peer(1)); // never established, would block forever
    assert_eq!(fx.recompute(&mut sd), (false, false));
    assert_eq!(sd.force_release(), (true, true));
    assert!(!sd.v4_deferred());
    assert!(!sd.v6_deferred());
}

#[test]
fn one_way_latch_survives_regressed_inputs() {
    let mut sd = SelectionDeferral::new(start(), 120);
    let fx_empty = Fixture::empty();
    assert_eq!(fx_empty.recompute(&mut sd), (true, true));

    let mut fx_blocking = Fixture::empty();
    fx_blocking.configured.push(peer(99));
    assert_eq!(fx_blocking.recompute(&mut sd), (false, false));
    assert!(!sd.v4_deferred());
    assert!(!sd.v6_deferred());
}

#[test]
fn disabled_has_no_pending_deadline_and_is_released() {
    let sd = SelectionDeferral::disabled();
    assert_eq!(sd.pending_deadline(), None);
    assert!(!sd.v4_deferred());
    assert!(!sd.v6_deferred());
}

#[test]
fn zero_deferral_secs_constructs_pre_released() {
    let sd = SelectionDeferral::new(start(), 0);
    assert_eq!(sd.pending_deadline(), None);
    assert!(!sd.v4_deferred());
    assert!(!sd.v6_deferred());
}

#[test]
fn pending_deadline_present_while_either_family_deferred() {
    let mut sd = SelectionDeferral::new(start(), 120);
    assert!(sd.pending_deadline().is_some());
    sd.force_release();
    assert_eq!(sd.pending_deadline(), None);
}

#[test]
fn deadline_is_the_start_plus_the_configured_seconds() {
    let sd = SelectionDeferral::new(start(), 120);
    assert_eq!(sd.pending_deadline(), Some(Instant { nanos: 125 * NANOS_PER_SEC }));
}

#[test]
fn one_open_gate_keeps_the_deadline_for_the_other() {
    let mut sd = SelectionDeferral::new(start(), 120);
    let mut fx = Fixture::empty();
    fx.configured.push(peer(1));
    fx.peer_types.insert(peer(1), PeerType::Internal);
    fx.gr_capable_peers.insert(peer(1), 60);
    fx.ipv6_capable_peers.insert(peer(1));
    fx.eor_received.insert(peer(1));
    assert_eq!(fx.recompute(&mut sd), (true, false));
    assert!(sd.pending_deadline().is_some());
    assert_eq!(sd.force_release(), (false, true));
    assert_eq!(sd.force_release(), (false, false));
}

#[test]
fn a_peer_without_a_session_blocks_both_families() {
    let fx = Fixture::empty();
    for is_v6 in [false, true] {
        assert!(family_blocks(
            peer(7),
            is_v6,
            &fx.peer_types,
            &fx.gr_capable_peers,
            &fx.gr_peer_restarting,
            &fx.ipv6_capable_peers,
            &fx.eor_received,
            &fx.eor_received_v6,
        ));
    }
}
