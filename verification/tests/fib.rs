use pathvectord::clock::Instant;
use pathvectord::fib::{
    igp_metric, is_reachable, withdraw_stale_bgp_routes, FibCall, FibManager, KernelCall, Lookup,
    Pending, PendingV4, PendingV6,
};
use pathvectord::message::PeerType;
use pathvectord::net::{IpAddr, Ipv4Addr, Ipv6Addr, NextHop, Nlri};
use pathvectord::rib::{Best, BestPathChange};
use pathvectord::route::{Attributes, Route};

fn ip4(s: &str) -> Ipv4Addr {
    let b: Vec<u8> = s.split('.').map(|x| x.parse().unwrap()).collect();
    Ipv4Addr::new(b[0], b[1], b[2], b[3])
}

fn ip6(s: &str) -> Ipv6Addr {
    let part = |t: &str| -> Vec<u16> {
        t.split(':').filter(|x| !x.is_empty()).map(|x| u16::from_str_radix(x, 16).unwrap()).collect()
    };
    let (head, tail) = match s.split_once("::") {
        Some((a, b)) => (part(a), part(b)),
        None => (part(s), Vec::new()),
    };
    let mut w: Vec<u16> = head.clone();
    w.resize(8 - tail.len(), 0);
    w.extend(tail);
    Ipv6Addr::new(w[0], w[1], w[2], w[3], w[4], w[5], w[6], w[7])
}

fn nlri4(s: &str) -> Nlri<Ipv4Addr> {
    let (a, l) = s.split_once('/').unwrap();
    Nlri { addr: ip4(a), len: l.parse().unwrap() }
}

fn nlri6(s: &str) -> Nlri<Ipv6Addr> {
    let (a, l) = s.split_once('/').unwrap();
    Nlri { addr: ip6(a), len: l.parse().unwrap() }
}

fn route<A>(nlri: Nlri<A>, next_hop: Option<NextHop>) -> Best<A> {
    Best {
        peer: IpAddr::V4(Ipv4Addr::new(10, 0, 0, 9)),
        route: Route {
            nlri,
            next_hop,
            peer_type: PeerType::External,
            stale: false,
            received_at: Instant { nanos: 0 },
            attributes: Attributes::none(),
        },
    }
}

fn route4(prefix: &str, gateway: &str) -> Best<Ipv4Addr> {
    route(nlri4(prefix), Some(NextHop::V4(ip4(gateway))))
}

fn route6(prefix: &str, gateway: &str) -> Best<Ipv6Addr> {
    route(nlri6(prefix), Some(NextHop::V6(ip6(gateway))))
}

// What the kernel is asked to do.

#[derive(Default)]
struct Calls {
    installed_v4: Vec<(Ipv4Addr, u8, Ipv4Addr)>,
    withdrawn_v4: Vec<(Ipv4Addr, u8)>,
    blackhole_v4: Vec<(Ipv4Addr, u8)>,
    installed_v6: Vec<(Ipv6Addr, u8, Ipv6Addr)>,
    withdrawn_v6: Vec<(Ipv6Addr, u8)>,
    blackhole_v6: Vec<(Ipv6Addr, u8)>,
}

fn carry_out(calls: Vec<FibCall>) -> Calls {
    let mut c = Calls::default();
    for call in calls {
        match call {
            FibCall::V4(k) => match k.op {
                Pending::Install { gateway } => c.installed_v4.push((k.dst, k.prefix_len, gateway)),
                Pending::Blackhole => c.blackhole_v4.push((k.dst, k.prefix_len)),
                Pending::Withdraw => c.withdrawn_v4.push((k.dst, k.prefix_len)),
            },
            FibCall::V6(k) => match k.op {
                Pending::Install { gateway } => c.installed_v6.push((k.dst, k.prefix_len, gateway)),
                Pending::Blackhole => c.blackhole_v6.push((k.dst, k.prefix_len)),
                Pending::Withdraw => c.withdrawn_v6.push((k.dst, k.prefix_len)),
            },
        }
    }
    c
}

#[test]
fn test_process_batch_install_v4_calls_writer() {
    let mut fm = FibManager::new();
    fm.apply_v4(BestPathChange::Announced(nlri4("10.0.0.0/8"), route4("10.0.0.0/8", "192.0.2.1")));
    let c = carry_out(fm.process_batch());
    assert_eq!(c.installed_v4, vec![(Ipv4Addr::new(10, 0, 0, 0), 8, ip4("192.0.2.1"))]);
    assert!(c.withdrawn_v4.is_empty());
}

#[test]
fn test_process_batch_withdraw_v4_calls_writer() {
    let mut fm = FibManager::new();
    fm.apply_v4(BestPathChange::Withdrawn(nlri4("10.0.0.0/8")));
    let c = carry_out(fm.process_batch());
    assert_eq!(c.withdrawn_v4, vec![(Ipv4Addr::new(10, 0, 0, 0), 8)]);
    assert!(c.installed_v4.is_empty());
}

#[test]
fn test_process_batch_install_v6_calls_writer() {
    let mut fm = FibManager::new();
    fm.apply_v6(BestPathChange::Announced(
        nlri6("2001:db8::/32"),
        route6("2001:db8::/32", "2001:db8::1"),
    ));
    let c = carry_out(fm.process_batch());
    assert_eq!(c.installed_v6, vec![(ip6("2001:db8::"), 32, ip6("2001:db8::1"))]);
    assert!(c.withdrawn_v6.is_empty());
}

#[test]
fn test_process_batch_withdraw_v6_calls_writer() {
    let mut fm = FibManager::new();
    fm.apply_v6(BestPathChange::Withdrawn(nlri6("2001:db8::/32")));
    let c = carry_out(fm.process_batch());
    assert_eq!(c.withdrawn_v6, vec![(ip6("2001:db8::"), 32)]);
    assert!(c.installed_v6.is_empty());
}

#[test]
fn test_process_batch_blackhole_v4_calls_install_blackhole() {
    let mut fm = FibManager::new();
    fm.apply_blackhole_v4(nlri4("192.0.2.0/24"));
    let c = carry_out(fm.process_batch());
    assert_eq!(c.blackhole_v4, vec![(ip4("192.0.2.0"), 24)]);
    assert!(c.installed_v4.is_empty(), "must not call install_v4");
}

#[test]
fn test_process_batch_blackhole_v6_calls_install_blackhole() {
    let mut fm = FibManager::new();
    fm.apply_blackhole_v6(nlri6("2001:db8::/32"));
    let c = carry_out(fm.process_batch());
    assert_eq!(c.blackhole_v6, vec![(ip6("2001:db8::"), 32)]);
    assert!(c.installed_v6.is_empty(), "must not call install_v6");
}

#[test]
fn test_process_batch_mixed_v4_and_v6_processed_independently() {
    let mut fm = FibManager::new();
    fm.apply_v4(BestPathChange::Withdrawn(nlri4("10.0.0.0/8")));
    fm.apply_v6(BestPathChange::Announced(
        nlri6("2001:db8::/32"),
        route6("2001:db8::/32", "2001:db8::1"),
    ));
    let c = carry_out(fm.process_batch());
    assert_eq!(c.withdrawn_v4.len(), 1);
    assert_eq!(c.installed_v6.len(), 1);
    assert!(c.installed_v4.is_empty());
    assert!(c.withdrawn_v6.is_empty());
}

#[test]
fn a_batch_is_handed_out_once() {
    let mut fm = FibManager::new();
    fm.apply_v4(BestPathChange::Withdrawn(nlri4("10.0.0.0/8")));
    assert_eq!(fm.process_batch().len(), 1);
    assert!(fm.process_batch().is_empty());
}

#[test]
fn withdrawing_a_null_route_overrides_it() {
    let mut fm = FibManager::new();
    fm.apply_blackhole_v4(nlri4("192.0.2.0/24"));
    fm.withdraw_blackhole_v4(nlri4("192.0.2.0/24"));
    fm.apply_blackhole_v6(nlri6("2001:db8::/32"));
    fm.withdraw_blackhole_v6(nlri6("2001:db8::/32"));
    assert_eq!(fm.pending_v4.get(&nlri4("192.0.2.0/24")), Some(PendingV4::Withdraw));
    assert_eq!(fm.pending_v6.get(&nlri6("2001:db8::/32")), Some(PendingV6::Withdraw));
}

#[test]
fn test_apply_v4_announced_records_install() {
    let mut fm = FibManager::new();
    fm.apply_v4(BestPathChange::Announced(nlri4("10.0.0.0/8"), route4("10.0.0.0/8", "192.0.2.1")));
    assert_eq!(fm.pending_v4.len(), 1);
    assert_eq!(
        fm.pending_v4.get(&nlri4("10.0.0.0/8")),
        Some(PendingV4::Install { gateway: ip4("192.0.2.1") })
    );
}

#[test]
fn test_apply_v4_withdrawn_records_withdraw() {
    let mut fm = FibManager::new();
    fm.apply_v4(BestPathChange::Withdrawn(nlri4("192.168.0.0/24")));
    assert_eq!(fm.pending_v4.len(), 1);
    assert_eq!(fm.pending_v4.get(&nlri4("192.168.0.0/24")), Some(PendingV4::Withdraw));
}

#[test]
fn test_apply_v4_unchanged_records_nothing() {
    let mut fm = FibManager::new();
    fm.apply_v4(BestPathChange::Unchanged);
    assert_eq!(fm.pending_v4.len(), 0);
}

#[test]
fn test_apply_v4_no_next_hop_skipped() {
    let mut fm = FibManager::new();
    fm.apply_v4(BestPathChange::Announced(nlri4("10.0.0.0/8"), route(nlri4("10.0.0.0/8"), None)));
    assert_eq!(fm.pending_v4.len(), 0, "route without next-hop must not be recorded");
}

#[test]
fn test_apply_v4_deduplicates_same_prefix() {
    let mut fm = FibManager::new();
    fm.apply_v4(BestPathChange::Withdrawn(nlri4("10.0.0.0/8")));
    fm.apply_v4(BestPathChange::Announced(nlri4("10.0.0.0/8"), route4("10.0.0.0/8", "192.0.2.1")));
    assert_eq!(fm.pending_v4.len(), 1);
    assert_eq!(
        fm.pending_v4.get(&nlri4("10.0.0.0/8")),
        Some(PendingV4::Install { gateway: ip4("192.0.2.1") }),
        "last write wins - Install must overwrite the earlier Withdraw"
    );
}

#[test]
fn test_apply_v4_deduplicates_oscillating_gateway() {
    let mut fm = FibManager::new();
    fm.apply_v4(BestPathChange::Announced(nlri4("10.0.0.0/8"), route4("10.0.0.0/8", "192.0.2.1")));
    fm.apply_v4(BestPathChange::Announced(nlri4("10.0.0.0/8"), route4("10.0.0.0/8", "192.0.2.2")));
    assert_eq!(fm.pending_v4.len(), 1);
    assert_eq!(
        fm.pending_v4.get(&nlri4("10.0.0.0/8")),
        Some(PendingV4::Install { gateway: ip4("192.0.2.2") }),
        "last gateway wins"
    );
}

#[test]
fn test_apply_v4_multiple_prefixes_tracked_independently() {
    let mut fm = FibManager::new();
    fm.apply_v4(BestPathChange::Announced(nlri4("10.0.0.0/8"), route4("10.0.0.0/8", "192.0.2.1")));
    fm.apply_v4(BestPathChange::Withdrawn(nlri4("172.16.0.0/12")));
    assert_eq!(fm.pending_v4.len(), 2);
    assert_eq!(
        fm.pending_v4.get(&nlri4("10.0.0.0/8")),
        Some(PendingV4::Install { gateway: ip4("192.0.2.1") })
    );
    assert_eq!(fm.pending_v4.get(&nlri4("172.16.0.0/12")), Some(PendingV4::Withdraw));
}

#[test]
fn test_apply_v6_announced_records_install() {
    let mut fm = FibManager::new();
    fm.apply_v6(BestPathChange::Announced(
        nlri6("2001:db8::/32"),
        route6("2001:db8::/32", "2001:db8::1"),
    ));
    assert_eq!(fm.pending_v6.len(), 1);
    assert_eq!(
        fm.pending_v6.get(&nlri6("2001:db8::/32")),
        Some(PendingV6::Install { gateway: ip6("2001:db8::1") })
    );
}

#[test]
fn test_apply_v6_withdrawn_records_withdraw() {
    let mut fm = FibManager::new();
    fm.apply_v6(BestPathChange::Withdrawn(nlri6("2001:db8::/32")));
    assert_eq!(fm.pending_v6.len(), 1);
    assert_eq!(fm.pending_v6.get(&nlri6("2001:db8::/32")), Some(PendingV6::Withdraw));
}

#[test]
fn test_apply_v6_unchanged_records_nothing() {
    let mut fm = FibManager::new();
    fm.apply_v6(BestPathChange::<Ipv6Addr>::Unchanged);
    assert_eq!(fm.pending_v6.len(), 0);
}

#[test]
fn test_apply_v6_deduplicates_same_prefix() {
    let mut fm = FibManager::new();
    fm.apply_v6(BestPathChange::Withdrawn(nlri6("2001:db8::/32")));
    fm.apply_v6(BestPathChange::Announced(
        nlri6("2001:db8::/32"),
        route6("2001:db8::/32", "2001:db8::1"),
    ));
    assert_eq!(fm.pending_v6.len(), 1);
    assert_eq!(
        fm.pending_v6.get(&nlri6("2001:db8::/32")),
        Some(PendingV6::Install { gateway: ip6("2001:db8::1") }),
        "Install must overwrite the earlier Withdraw"
    );
}

#[test]
fn test_apply_v6_with_link_local_uses_global_as_gateway() {
    let mut fm = FibManager::new();
    let global = ip6("2001:db8::1");
    let link_local = ip6("fe80::1");
    let r = route(nlri6("2001:db8::/32"), Some(NextHop::V6WithLinkLocal { global, link_local }));
    fm.apply_v6(BestPathChange::Announced(nlri6("2001:db8::/32"), r));
    assert_eq!(fm.pending_v6.len(), 1);
    assert_eq!(
        fm.pending_v6.get(&nlri6("2001:db8::/32")),
        Some(PendingV6::Install { gateway: global }),
        "V6WithLinkLocal must use the global address as the kernel gateway"
    );
}

#[test]
fn test_apply_v6_non_v6_next_hop_skipped() {
    let mut fm = FibManager::new();
    let r = route(nlri6("2001:db8::/32"), Some(NextHop::V4(Ipv4Addr::new(192, 0, 2, 1))));
    fm.apply_v6(BestPathChange::Announced(nlri6("2001:db8::/32"), r));
    assert_eq!(fm.pending_v6.len(), 0, "V4 next-hop on a V6 change must be silently skipped");
}

#[test]
fn test_apply_v6_no_next_hop_skipped() {
    let mut fm = FibManager::new();
    fm.apply_v6(BestPathChange::Announced(
        nlri6("2001:db8::/32"),
        route(nlri6("2001:db8::/32"), None),
    ));
    assert_eq!(fm.pending_v6.len(), 0);
}

// Next hops in a kernel that has no route: an address counts as reachable only where it is
// link-local.

fn on_link(a: Ipv6Addr) -> bool {
    a.bits >> 118 == 0xfe80 >> 6
}

fn reachable(nh: &NextHop) -> bool {
    let found = match nh {
        NextHop::V4(_) => Lookup { address: false, link_local: false },
        NextHop::V6(a) => Lookup { address: on_link(*a), link_local: false },
        NextHop::V6WithLinkLocal { global, link_local } => {
            Lookup { address: on_link(*global), link_local: on_link(*link_local) }
        }
    };
    is_reachable(nh, found)
}

fn metric(nh: &NextHop) -> Option<u32> {
    igp_metric(nh, Lookup { address: None, link_local: None })
}

#[test]
fn test_daemon_oracle_empty_snapshot_not_reachable() {
    let nh = NextHop::V4(Ipv4Addr::new(10, 0, 0, 1));
    assert!(!reachable(&nh));
    assert!(metric(&nh).is_none());
}

#[test]
fn test_daemon_oracle_v6_next_hop_not_reachable() {
    let nh = NextHop::V6(ip6("2001:db8::1"));
    assert!(!reachable(&nh));
    assert!(metric(&nh).is_none());
}

#[test]
fn test_daemon_oracle_v6_with_link_local_falls_back_to_link_local() {
    let nh = NextHop::V6WithLinkLocal { global: ip6("2001:db8::1"), link_local: ip6("fe80::1") };
    assert!(reachable(&nh));
}

#[test]
fn test_daemon_oracle_igp_metric_v6_with_link_local_no_metric_when_both_miss() {
    let nh = NextHop::V6WithLinkLocal { global: ip6("2001:db8::1"), link_local: ip6("2001:db8::2") };
    assert!(metric(&nh).is_none(), "no route in FIB means no IGP metric for V6WithLinkLocal");
}

#[test]
fn test_daemon_oracle_igp_metric_v6_with_link_local_unspecified_global_checks_link_local() {
    let nh = NextHop::V6WithLinkLocal { global: ip6("::"), link_local: ip6("fe80::1") };
    assert!(metric(&nh).is_none());
    assert_eq!(igp_metric(&nh, Lookup { address: Some(9), link_local: Some(5) }), Some(5));
}

#[test]
fn test_daemon_oracle_v6_with_link_local_unreachable_when_both_miss() {
    let nh = NextHop::V6WithLinkLocal { global: ip6("2001:db8::1"), link_local: ip6("2001:db8::2") };
    assert!(!reachable(&nh));
}

#[test]
fn test_daemon_oracle_v6_with_link_local_global_reachable_returns_true() {
    let nh = NextHop::V6WithLinkLocal { global: ip6("fe80::1"), link_local: ip6("fe80::2") };
    assert!(reachable(&nh));
}

#[test]
fn metric_of_the_global_address_comes_first() {
    let nh = NextHop::V6WithLinkLocal { global: ip6("2001:db8::1"), link_local: ip6("fe80::1") };
    assert_eq!(igp_metric(&nh, Lookup { address: Some(9), link_local: Some(5) }), Some(9));
    assert_eq!(igp_metric(&nh, Lookup { address: None, link_local: Some(5) }), Some(5));
}

#[test]
fn withdraw_stale_bgp_routes_empty_lists_is_noop() {
    assert!(withdraw_stale_bgp_routes(&vec![], &vec![]).is_empty());
}

#[test]
fn leftover_routes_are_withdrawn_one_by_one() {
    let calls = withdraw_stale_bgp_routes(
        &vec![nlri4("192.0.2.0/24"), nlri4("198.51.100.0/24")],
        &vec![nlri6("2001:db8::/32")],
    );
    assert_eq!(
        calls,
        vec![
            FibCall::V4(KernelCall { dst: ip4("192.0.2.0"), prefix_len: 24, op: Pending::Withdraw }),
            FibCall::V4(KernelCall { dst: ip4("198.51.100.0"), prefix_len: 24, op: Pending::Withdraw }),
            FibCall::V6(KernelCall { dst: ip6("2001:db8::"), prefix_len: 32, op: Pending::Withdraw }),
        ]
    );
}
