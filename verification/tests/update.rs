use std::sync::Arc;

use pathvectord::clock::Instant;
use pathvectord::message::{
    Aggregator, AsPath, AsPathSegment, ClusterList, Community, ExtendedCommunity, LargeCommunity,
    MpReachNlri, MpUnreachNlri, NotificationError, NotificationMessage, Origin, PathAttribute,
    PeerType, SegmentKind, UpdateMessage, UpdateMsgError,
};
use pathvectord::net::{AfiSafi, Ipv4Addr, Ipv6Addr, NextHop, Nlri, Prefix};
use pathvectord::origination::{reapply_import_policy, reapply_import_policy_v6};
use pathvectord::rib::{settle_import, AdjRibIn, Decision, DefaultAction, Policy, RibOp};
use pathvectord::route::Route;
use pathvectord::table::Key;
use pathvectord::update::{
    handle_update, is_valid_next_hop_v4, is_valid_next_hop_v6, UpdateResult,
};

fn ip4(s: &str) -> Ipv4Addr {
    let b: Vec<u8> = s.split('.').map(|x| x.parse().unwrap()).collect();
    Ipv4Addr::new(b[0], b[1], b[2], b[3])
}

fn ip6(s: &str) -> Ipv6Addr {
    let part = |t: &str| -> Vec<u16> {
        t.split(':').filter(|x| !x.is_empty()).map(|x| u16::from_str_radix(x, 16).unwrap()).collect()
    };
    let (head, tail) = match s.split_once("::") {
        Some((a, b)) => (part(a), part(b)),
        None => (part(s), Vec::new()),
    };
    let mut w: Vec<u16> = head.clone();
    w.resize(8 - tail.len(), 0);
    w.extend(tail);
    Ipv6Addr::new(w[0], w[1], w[2], w[3], w[4], w[5], w[6], w[7])
}

fn nlri(s: &str) -> Nlri<Ipv4Addr> {
    let (a, l) = s.split_once('/').unwrap();
    Nlri { addr: ip4(a), len: l.parse().unwrap() }
}

fn nlri_v6(s: &str) -> Nlri<Ipv6Addr> {
    let (a, l) = s.split_once('/').unwrap();
    Nlri { addr: ip6(a), len: l.parse().unwrap() }
}

fn seq(asns: Vec<u32>) -> PathAttribute {
    PathAttribute::AsPath(Arc::new(AsPath {
        segments: vec![AsPathSegment { kind: SegmentKind::AsSequence, asns }],
    }))
}

fn empty_path() -> PathAttribute {
    PathAttribute::AsPath(Arc::new(AsPath { segments: vec![] }))
}

fn communities(values: Vec<u32>) -> PathAttribute {
    PathAttribute::Communities(Arc::new(
        values.into_iter().map(|value| Community { value }).collect(),
    ))
}

fn igp() -> PathAttribute {
    PathAttribute::Origin(Origin::Igp)
}

const BLACKHOLE: u32 = 0xffff_029a;
const NO_EXPORT: u32 = 0xffff_ff01;

fn reach_v4(next_hop: &str, prefixes: &[&str]) -> PathAttribute {
    PathAttribute::MpReachNlri(MpReachNlri {
        afi_safi: AfiSafi::ipv4_unicast(),
        next_hop: NextHop::V4(ip4(next_hop)),
        prefixes: prefixes.iter().map(|p| Prefix::V4(nlri(p))).collect(),
    })
}

fn reach_v6(next_hop: NextHop, prefix: &str) -> PathAttribute {
    PathAttribute::MpReachNlri(MpReachNlri {
        afi_safi: AfiSafi::ipv6_unicast(),
        next_hop,
        prefixes: vec![Prefix::V6(nlri_v6(prefix))],
    })
}

fn msg(attributes: Vec<PathAttribute>, announced: &[&str]) -> UpdateMessage {
    UpdateMessage {
        withdrawn: vec![],
        attributes,
        announced: announced.iter().map(|p| nlri(p)).collect(),
    }
}

fn withdrawal(prefix: &str, attributes: Vec<PathAttribute>) -> UpdateMessage {
    UpdateMessage { withdrawn: vec![nlri(prefix)], attributes, announced: vec![] }
}

/// What a policy makes of a route: the terms say something and may change the route.
type Terms<A> = fn(&Route<A>) -> (Decision, Route<A>);

fn no_terms<A: Key>(r: &Route<A>) -> (Decision, Route<A>) {
    (Decision::Next, r.share())
}

/// The candidates of one peer.
struct Rib<A: Key> {
    routes: Vec<Route<A>>,
}

impl<A: Key + PartialEq> Rib<A> {
    fn new() -> Self {
        Rib { routes: vec![] }
    }

    fn len(&self) -> usize {
        self.routes.len()
    }

    fn is_empty(&self) -> bool {
        self.routes.is_empty()
    }

    fn best(&self, n: &Nlri<A>) -> Option<&Route<A>> {
        self.routes.iter().find(|r| r.nlri == *n)
    }

    fn run(&mut self, ops: Vec<RibOp<A>>, policy: &Policy, terms: Terms<A>) {
        for op in ops {
            let settled = match &op {
                RibOp::Evaluate(r) | RibOp::Reevaluate(r) => {
                    let (said, changed) = terms(r);
                    settle_import(op, policy.decide(said), changed)
                }
                _ => Some(op),
            };
            match settled {
                Some(RibOp::Insert(r)) => {
                    self.routes.retain(|x| x.nlri != r.nlri);
                    self.routes.push(r);
                }
                Some(RibOp::Withdraw(n)) => self.routes.retain(|x| x.nlri != n),
                Some(RibOp::WithdrawPeer) => self.routes.clear(),
                _ => {}
            }
        }
    }
}

fn accept_all() -> Policy {
    Policy::new(DefaultAction::Accept)
}

fn reject_all() -> Policy {
    Policy::new(DefaultAction::Reject)
}

struct Tables {
    ari: AdjRibIn<Ipv4Addr>,
    rib: Rib<Ipv4Addr>,
    ari_v6: AdjRibIn<Ipv6Addr>,
    rib_v6: Rib<Ipv6Addr>,
    own: Option<Ipv4Addr>,
    own_v6: Option<Ipv6Addr>,
    policy: Policy,
    policy_v6: Policy,
    terms: Terms<Ipv4Addr>,
    peer_type: PeerType,
}

fn tables() -> Tables {
    Tables {
        ari: AdjRibIn::new(),
        rib: Rib::new(),
        ari_v6: AdjRibIn::new(),
        rib_v6: Rib::new(),
        own: None,
        own_v6: None,
        policy: accept_all(),
        policy_v6: accept_all(),
        terms: no_terms,
        peer_type: PeerType::External,
    }
}

impl Tables {
    /// Handles an UPDATE as it stands; the local number is 65002.
    fn handle(&mut self, m: UpdateMessage) -> UpdateResult {
        let mut r = handle_update(
            m,
            &mut self.ari,
            &mut self.ari_v6,
            self.peer_type,
            65002,
            self.own,
            self.own_v6,
            Instant { nanos: 7 },
        );
        let ops = std::mem::take(&mut r.v4.ops);
        self.rib.run(ops, &self.policy, self.terms);
        let ops_v6 = std::mem::take(&mut r.v6.ops);
        self.rib_v6.run(ops_v6, &self.policy_v6, no_terms);
        r
    }

    /// Handles an UPDATE after completing what an announcement must carry.
    fn handle_v4(&mut self, mut m: UpdateMessage) -> UpdateResult {
        if !m.announced.is_empty() {
            if !m.attributes.iter().any(|a| matches!(a, PathAttribute::Origin(_))) {
                m.attributes.push(igp());
            }
            if !m.attributes.iter().any(|a| matches!(a, PathAttribute::AsPath(_))) {
                m.attributes.push(seq(vec![65009]));
            }
            if !m.attributes.iter().any(|a| matches!(a, PathAttribute::NextHop(_))) {
                m.attributes.push(PathAttribute::NextHop(Ipv4Addr::new(10, 0, 0, 1)));
            }
        }
        self.handle(m)
    }
}

#[test]
fn test_handle_update_inserts_route_with_all_attributes() {
    let mut t = tables();
    t.handle_v4(msg(
        vec![
            PathAttribute::Origin(Origin::Egp),
            seq(vec![65009]),
            PathAttribute::NextHop(Ipv4Addr::new(10, 0, 0, 2)),
            PathAttribute::LocalPref(200),
            PathAttribute::Med(50),
            communities(vec![0x0001_0001]),
            PathAttribute::LargeCommunities(Arc::new(vec![LargeCommunity {
                global: 65000,
                local1: 1,
                local2: 100,
            }])),
            PathAttribute::ExtendedCommunities(Arc::new(vec![ExtendedCommunity {
                value: 0x0002_fde8_0000_0001,
            }])),
            PathAttribute::AtomicAggregate,
            PathAttribute::Aggregator(Aggregator { asn: 65001, addr: Ipv4Addr::new(1, 1, 1, 1) }),
        ],
        &["192.168.0.0/16"],
    ));
    let route = t.rib.best(&nlri("192.168.0.0/16")).unwrap();
    let a = &route.attributes;
    assert_eq!(a.origin, Some(Origin::Egp));
    assert_eq!(a.local_pref, Some(200));
    assert_eq!(a.med, Some(50));
    assert_eq!(a.communities.as_ref().unwrap().len(), 1);
    assert_eq!(a.large_communities.as_ref().unwrap().len(), 1);
    assert_eq!(a.extended_communities.as_ref().unwrap().len(), 1);
    assert!(a.atomic_aggregate);
    assert!(a.aggregator.is_some());
    assert_eq!(route.received_at, Instant { nanos: 7 });
    assert!(!route.stale);
}

#[test]
fn test_handle_update_withdraw_removes_route() {
    let mut t = tables();
    t.handle_v4(msg(vec![igp(), empty_path()], &["10.0.0.0/8"]));
    assert_eq!(t.rib.len(), 1);
    t.handle_v4(withdrawal("10.0.0.0/8", vec![]));
    assert!(t.rib.is_empty());
    assert!(t.ari.is_empty());
}

#[test]
fn test_handle_update_empty_announced_is_noop() {
    let mut t = tables();
    t.handle_v4(msg(vec![igp()], &[]));
    assert!(t.rib.is_empty());
    assert!(t.ari.is_empty());
}

#[test]
fn test_handle_update_unknown_attribute_is_skipped() {
    let mut t = tables();
    t.handle_v4(msg(
        vec![
            igp(),
            PathAttribute::Unknown { flags: 0x80, type_code: 255, value: vec![1, 2, 3] },
        ],
        &["10.0.0.0/8"],
    ));
    assert_eq!(t.rib.len(), 1);
}

#[test]
fn test_handle_update_blackhole_route_not_installed() {
    let mut t = tables();
    let r = t.handle_v4(msg(vec![igp(), empty_path(), communities(vec![BLACKHOLE])], &["192.0.2.0/24"]));
    assert_eq!(t.rib.len(), 0, "BLACKHOLE route must not be installed");
    assert_eq!(r.v4.blackhole_announced, vec![nlri("192.0.2.0/24")]);
    assert!(r.v4.blackhole_withdrawn.is_empty());
}

#[test]
fn test_handle_update_blackhole_route_stored_in_adj_rib_in() {
    let mut t = tables();
    let prefix = nlri("192.0.2.0/24");
    t.handle_v4(msg(vec![igp(), empty_path(), communities(vec![BLACKHOLE])], &["192.0.2.0/24"]));
    assert!(t.ari.get(&prefix).is_some(), "BLACKHOLE route must be in AdjRibIn");
    assert!(t.ari.is_blackholed(&prefix));
}

#[test]
fn withdrawing_a_blackholed_prefix_lifts_its_null_route() {
    let mut t = tables();
    t.handle_v4(msg(vec![igp(), empty_path(), communities(vec![BLACKHOLE])], &["192.0.2.0/24"]));
    let r = t.handle_v4(withdrawal("192.0.2.0/24", vec![]));
    assert_eq!(r.v4.blackhole_withdrawn, vec![nlri("192.0.2.0/24")]);
    assert!(t.ari.is_empty());
}

#[test]
fn an_ordinary_route_that_turns_into_a_null_route_is_no_candidate_any_more() {
    let mut t = tables();
    t.handle_v4(msg(vec![igp(), empty_path()], &["192.0.2.0/24"]));
    assert_eq!(t.rib.len(), 1);
    t.handle_v4(msg(vec![igp(), empty_path(), communities(vec![BLACKHOLE])], &["192.0.2.0/24"]));
    assert!(t.rib.is_empty());
    assert_eq!(t.ari.len(), 1);
}

#[test]
fn test_handle_update_non_blackhole_route_installed_normally() {
    let mut t = tables();
    t.handle_v4(msg(vec![igp(), empty_path(), communities(vec![NO_EXPORT])], &["10.0.0.0/8"]));
    assert_eq!(t.rib.len(), 1);
}

#[test]
fn test_handle_update_mp_unreach_withdraws_ipv4_route() {
    let mut t = tables();
    t.handle_v4(msg(vec![igp(), empty_path()], &["10.0.0.0/8"]));
    assert_eq!(t.rib.len(), 1);
    t.handle_v4(msg(
        vec![PathAttribute::MpUnreachNlri(MpUnreachNlri {
            afi_safi: AfiSafi::ipv4_unicast(),
            prefixes: vec![Prefix::V4(nlri("10.0.0.0/8"))],
        })],
        &[],
    ));
    assert!(t.rib.is_empty(), "MP_UNREACH_NLRI should have removed the route");
    assert!(t.ari.is_empty(), "AdjRibIn should also be cleared");
}

#[test]
fn test_handle_update_mp_reach_announces_ipv4_route() {
    let mut t = tables();
    t.handle_v4(msg(
        vec![
            igp(),
            seq(vec![65009]),
            PathAttribute::LocalPref(150),
            reach_v4("10.0.0.2", &["192.168.1.0/24", "192.168.2.0/24"]),
        ],
        &[],
    ));
    assert_eq!(t.rib.len(), 2, "both MP_REACH prefixes should be in LocRib");
    assert_eq!(t.ari.len(), 2, "both MP_REACH prefixes should be in AdjRibIn");
    let route = t.rib.best(&nlri("192.168.1.0/24")).unwrap();
    assert_eq!(route.attributes.local_pref, Some(150));
    assert_eq!(route.next_hop, Some(NextHop::V4(ip4("10.0.0.2"))));
}

#[test]
fn test_handle_update_mp_reach_mixed_with_traditional() {
    let mut t = tables();
    t.handle_v4(msg(
        vec![
            igp(),
            empty_path(),
            PathAttribute::NextHop(ip4("10.0.0.2")),
            reach_v4("10.0.0.3", &["172.16.0.0/12"]),
        ],
        &["10.0.0.0/8"],
    ));
    assert_eq!(t.rib.len(), 2);
    assert_eq!(
        t.rib.best(&nlri("10.0.0.0/8")).unwrap().next_hop,
        Some(NextHop::V4(ip4("10.0.0.2")))
    );
    assert_eq!(
        t.rib.best(&nlri("172.16.0.0/12")).unwrap().next_hop,
        Some(NextHop::V4(ip4("10.0.0.3")))
    );
}

#[test]
fn test_handle_update_mp_unreach_non_ipv4_is_skipped() {
    let mut t = tables();
    t.handle_v4(msg(
        vec![PathAttribute::MpUnreachNlri(MpUnreachNlri {
            afi_safi: AfiSafi::ipv6_unicast(),
            prefixes: vec![],
        })],
        &[],
    ));
    assert!(t.rib.is_empty());
}

#[test]
fn test_handle_update_mp_reach_import_policy_applied() {
    let mut t = tables();
    t.policy = reject_all();
    t.handle_v4(msg(vec![igp(), empty_path(), reach_v4("10.0.0.2", &["10.0.0.0/8"])], &[]));
    assert_eq!(t.ari.len(), 1, "pre-policy route stored in AdjRibIn");
    assert!(t.rib.is_empty(), "rejected route must not enter LocRib");
}

#[test]
fn test_handle_update_mp_reach_ipv6_inserts_into_loc_rib_v6() {
    let mut t = tables();
    t.handle(msg(
        vec![igp(), seq(vec![65009]), reach_v6(NextHop::V6(ip6("2001:db8::1")), "2001:db8::/32")],
        &[],
    ));
    assert_eq!(t.rib_v6.len(), 1, "IPv6 route must enter loc_rib_v6");
    assert!(t.rib.is_empty(), "IPv4 LocRib must remain empty");
    let route = t.rib_v6.best(&nlri_v6("2001:db8::/32")).unwrap();
    assert_eq!(route.attributes.origin, Some(Origin::Igp));
}

#[test]
fn test_handle_update_mp_reach_ipv6_stored_in_adj_rib_in_v6() {
    let mut t = tables();
    t.handle(msg(
        vec![igp(), empty_path(), reach_v6(NextHop::V6(ip6("fe80::1")), "fd00::/16")],
        &[],
    ));
    assert_eq!(t.ari_v6.len(), 1, "pre-policy route must be in adj_rib_in_v6");
}

#[test]
fn test_rfc8212_ebgp_ipv6_reject_without_policy() {
    let mut t = tables();
    t.policy_v6 = reject_all();
    t.handle(msg(
        vec![igp(), seq(vec![65009]), reach_v6(NextHop::V6(ip6("2001:db8::1")), "2001:db8::/32")],
        &[],
    ));
    assert!(t.rib_v6.is_empty(), "eBGP IPv6 route must be rejected when import policy is Reject");
    assert_eq!(t.ari_v6.len(), 1, "rejected route must still be stored in AdjRibIn");
}

#[test]
fn test_handle_update_mp_unreach_ipv6_withdraws_route() {
    let mut t = tables();
    t.handle(msg(
        vec![igp(), empty_path(), reach_v6(NextHop::V6(ip6("2001:db8::1")), "2001:db8::/32")],
        &[],
    ));
    assert_eq!(t.rib_v6.len(), 1);
    t.handle(msg(
        vec![PathAttribute::MpUnreachNlri(MpUnreachNlri {
            afi_safi: AfiSafi::ipv6_unicast(),
            prefixes: vec![Prefix::V6(nlri_v6("2001:db8::/32"))],
        })],
        &[],
    ));
    assert!(t.rib_v6.is_empty(), "loc_rib_v6 must be empty after withdrawal");
    assert!(t.rib.is_empty(), "IPv4 LocRib must be unaffected");
}

#[test]
fn test_handle_update_ipv4_and_ipv6_in_same_update() {
    let mut t = tables();
    t.handle(msg(
        vec![
            igp(),
            empty_path(),
            PathAttribute::NextHop(Ipv4Addr::new(10, 0, 0, 2)),
            reach_v6(NextHop::V6(ip6("2001:db8::1")), "2001:db8::/32"),
        ],
        &["10.0.0.0/8"],
    ));
    assert_eq!(t.rib.len(), 1, "IPv4 route must be in loc_rib");
    assert_eq!(t.rib_v6.len(), 1, "IPv6 route must be in loc_rib_v6");
}

#[test]
fn test_reject_all_policy_blocks_all_routes() {
    let mut t = tables();
    t.policy = reject_all();
    t.handle_v4(msg(vec![igp(), empty_path()], &["10.0.0.0/8", "192.168.0.0/16"]));
    assert!(t.rib.is_empty());
}

#[test]
fn test_accept_all_policy_passes_all_routes() {
    let mut t = tables();
    t.handle_v4(msg(vec![igp(), empty_path()], &["10.0.0.0/8", "192.168.0.0/16"]));
    assert_eq!(t.rib.len(), 2);
}

fn prefer<A: Key>(r: &Route<A>, local_pref: u32) -> (Decision, Route<A>) {
    let mut changed = r.share();
    changed.attributes.local_pref = Some(local_pref);
    (Decision::Accept, changed)
}

fn set_200(r: &Route<Ipv4Addr>) -> (Decision, Route<Ipv4Addr>) {
    prefer(r, 200)
}

fn set_300(r: &Route<Ipv4Addr>) -> (Decision, Route<Ipv4Addr>) {
    prefer(r, 300)
}

const BLOCKED: u32 = 65001 << 16 | 1;

fn block(r: &Route<Ipv4Addr>) -> (Decision, Route<Ipv4Addr>) {
    let hit = match &r.attributes.communities {
        Some(list) => list.iter().any(|c| c.value == BLOCKED),
        None => false,
    };
    (if hit { Decision::Reject } else { Decision::Next }, r.share())
}

#[test]
fn test_policy_modifies_route_before_insert() {
    let mut t = tables();
    t.policy = reject_all();
    t.terms = set_200;
    t.handle_v4(msg(vec![igp(), empty_path()], &["10.0.0.0/8"]));
    let route = t.rib.best(&nlri("10.0.0.0/8")).unwrap();
    assert_eq!(route.attributes.local_pref, Some(200));
}

#[test]
fn test_policy_partial_reject_only_accepted_routes_inserted() {
    let mut t = tables();
    t.terms = block;
    t.handle_v4(msg(vec![igp(), empty_path(), communities(vec![BLOCKED])], &["10.0.0.0/8"]));
    t.handle_v4(msg(vec![igp(), empty_path()], &["192.168.0.0/16"]));
    assert!(t.rib.best(&nlri("10.0.0.0/8")).is_none(), "blocked route must not be in RIB");
    assert!(t.rib.best(&nlri("192.168.0.0/16")).is_some(), "clean route must be in RIB");
}

#[test]
fn test_peer_type_tagged_on_route() {
    let mut t = tables();
    t.peer_type = PeerType::Internal;
    t.handle_v4(msg(vec![igp(), empty_path()], &["10.0.0.0/8"]));
    assert_eq!(t.rib.best(&nlri("10.0.0.0/8")).unwrap().peer_type, PeerType::Internal);
}

#[test]
fn test_adj_rib_in_stores_raw_route_even_when_rejected() {
    let mut t = tables();
    t.policy = reject_all();
    t.handle_v4(msg(vec![igp(), empty_path()], &["10.0.0.0/8"]));
    assert!(t.rib.is_empty());
    assert_eq!(t.ari.len(), 1);
    assert!(t.ari.get(&nlri("10.0.0.0/8")).is_some());
}

#[test]
fn test_adj_rib_in_stores_raw_attributes_before_policy_modification() {
    let mut t = tables();
    t.policy = reject_all();
    t.terms = set_200;
    t.handle_v4(msg(vec![igp(), empty_path()], &["10.0.0.0/8"]));
    assert_eq!(t.rib.best(&nlri("10.0.0.0/8")).unwrap().attributes.local_pref, Some(200));
    assert_eq!(t.ari.get(&nlri("10.0.0.0/8")).unwrap().attributes.local_pref, None);
}

#[test]
fn test_adj_rib_in_withdraw_clears_both_tables() {
    let mut t = tables();
    t.handle_v4(msg(vec![igp(), empty_path()], &["10.0.0.0/8"]));
    assert_eq!(t.ari.len(), 1);
    assert_eq!(t.rib.len(), 1);
    t.handle_v4(withdrawal("10.0.0.0/8", vec![]));
    assert!(t.ari.is_empty());
    assert!(t.rib.is_empty());
}

#[test]
fn test_reapply_accepts_previously_rejected_route() {
    let mut t = tables();
    t.policy = reject_all();
    t.handle_v4(msg(vec![igp(), empty_path()], &["10.0.0.0/8"]));
    assert!(t.rib.is_empty());
    let ops = reapply_import_policy(&t.ari);
    t.rib.run(ops, &accept_all(), no_terms);
    assert!(t.rib.best(&nlri("10.0.0.0/8")).is_some());
}

#[test]
fn test_reapply_rejects_previously_accepted_route() {
    let mut t = tables();
    t.handle_v4(msg(vec![igp(), empty_path()], &["10.0.0.0/8"]));
    assert!(t.rib.best(&nlri("10.0.0.0/8")).is_some());
    let ops = reapply_import_policy(&t.ari);
    t.rib.run(ops, &reject_all(), no_terms);
    assert!(t.rib.best(&nlri("10.0.0.0/8")).is_none());
}

#[test]
fn test_reapply_applies_new_policy_modifications() {
    let mut t = tables();
    t.handle_v4(msg(vec![igp(), empty_path()], &["10.0.0.0/8"]));
    assert_eq!(t.rib.best(&nlri("10.0.0.0/8")).unwrap().attributes.local_pref, None);
    let ops = reapply_import_policy(&t.ari);
    t.rib.run(ops, &reject_all(), set_300);
    assert_eq!(t.rib.best(&nlri("10.0.0.0/8")).unwrap().attributes.local_pref, Some(300));
    assert_eq!(t.ari.get(&nlri("10.0.0.0/8")).unwrap().attributes.local_pref, None);
}

#[test]
fn test_reapply_partial_accept_reject() {
    let mut t = tables();
    t.handle_v4(msg(vec![igp(), empty_path(), communities(vec![BLOCKED])], &["10.0.0.0/8"]));
    t.handle_v4(msg(vec![igp(), empty_path()], &["192.168.0.0/16"]));
    assert_eq!(t.rib.len(), 2);
    let ops = reapply_import_policy(&t.ari);
    t.rib.run(ops, &accept_all(), block);
    assert!(t.rib.best(&nlri("10.0.0.0/8")).is_none(), "blocked route must be withdrawn");
    assert!(t.rib.best(&nlri("192.168.0.0/16")).is_some(), "clean route must remain");
}

#[test]
fn reapplying_asks_about_every_received_route() {
    let mut t = tables();
    t.handle_v4(msg(vec![igp(), empty_path(), communities(vec![BLACKHOLE])], &["192.0.2.0/24"]));
    t.handle_v4(msg(vec![igp(), empty_path()], &["10.0.0.0/8"]));
    let ops = reapply_import_policy(&t.ari);
    assert_eq!(ops.len(), 2);
    assert!(ops.iter().all(|op| matches!(op, RibOp::Reevaluate(_))));
}

#[test]
fn reapplying_works_for_ipv6_too() {
    let mut t = tables();
    t.policy_v6 = reject_all();
    t.handle(msg(
        vec![igp(), seq(vec![65009]), reach_v6(NextHop::V6(ip6("2001:db8::1")), "2001:db8::/32")],
        &[],
    ));
    let ops = reapply_import_policy_v6(&t.ari_v6);
    t.rib_v6.run(ops, &accept_all(), no_terms);
    assert_eq!(t.rib_v6.len(), 1);
}

#[test]
fn test_as_path_loop_detection_drops_traditional_nlri() {
    let mut t = tables();
    t.handle_v4(msg(
        vec![
            igp(),
            seq(vec![65100, 65002, 65200]),
            PathAttribute::NextHop(Ipv4Addr::new(10, 0, 0, 2)),
        ],
        &["10.0.0.0/8"],
    ));
    assert!(t.rib.is_empty(), "route with local AS in AS_PATH must be dropped");
    assert!(t.ari.is_empty(), "silently ignored route must not be stored in AdjRibIn");
}

#[test]
fn test_as_path_loop_detection_drops_mp_reach_nlri() {
    let mut t = tables();
    t.handle(msg(
        vec![
            igp(),
            seq(vec![65100, 65002]),
            reach_v6(NextHop::V6(ip6("2001:db8::9")), "2001:db8::/32"),
        ],
        &[],
    ));
    assert!(t.rib_v6.is_empty(), "IPv6 route with local AS in AS_PATH must be dropped");
}

#[test]
fn test_as_path_loop_detection_permits_empty_as_path() {
    let mut t = tables();
    t.peer_type = PeerType::Internal;
    t.handle_v4(msg(
        vec![igp(), empty_path(), PathAttribute::NextHop(Ipv4Addr::new(10, 0, 0, 2))],
        &["10.0.0.0/8"],
    ));
    assert_eq!(t.rib.len(), 1, "route with empty AS_PATH must be accepted");
}

#[test]
fn test_as_path_loop_detection_does_not_block_withdrawals() {
    let mut t = tables();
    t.handle_v4(msg(
        vec![igp(), seq(vec![65009]), PathAttribute::NextHop(Ipv4Addr::new(10, 0, 0, 2))],
        &["10.0.0.0/8"],
    ));
    assert_eq!(t.rib.len(), 1, "prerequisite: route must be installed");
    t.handle_v4(withdrawal("10.0.0.0/8", vec![igp(), seq(vec![65002])]));
    assert!(t.rib.is_empty(), "withdrawal must be processed despite looping AS_PATH");
}

fn with_next_hop(a: Ipv4Addr) -> UpdateMessage {
    msg(vec![igp(), seq(vec![65009]), PathAttribute::NextHop(a)], &["10.0.0.0/8"])
}

fn with_next_hop_v6(next_hop: NextHop) -> UpdateMessage {
    msg(vec![igp(), seq(vec![65009]), reach_v6(next_hop, "2001:db8::/32")], &[])
}

#[test]
fn test_invalid_next_hop_unspecified_is_rejected() {
    let mut t = tables();
    t.handle_v4(with_next_hop(ip4("0.0.0.0")));
    assert!(t.rib.is_empty(), "route with 0.0.0.0 NEXT_HOP must be rejected");
}

#[test]
fn test_invalid_next_hop_multicast_is_rejected() {
    let mut t = tables();
    t.handle_v4(with_next_hop(Ipv4Addr::new(224, 0, 0, 1)));
    assert!(t.rib.is_empty(), "route with multicast NEXT_HOP must be rejected");
}

#[test]
fn test_invalid_next_hop_broadcast_is_rejected() {
    let mut t = tables();
    t.handle_v4(with_next_hop(ip4("255.255.255.255")));
    assert!(t.rib.is_empty(), "route with broadcast NEXT_HOP must be rejected");
}

#[test]
fn test_invalid_next_hop_v6_unspecified_is_rejected() {
    let mut t = tables();
    t.handle(with_next_hop_v6(NextHop::V6(ip6("::"))));
    assert!(t.rib_v6.is_empty(), "IPv6 route with :: NEXT_HOP must be rejected");
}

#[test]
fn test_invalid_next_hop_v6_multicast_is_rejected() {
    let mut t = tables();
    t.handle(with_next_hop_v6(NextHop::V6(ip6("ff02::1"))));
    assert!(t.rib_v6.is_empty(), "IPv6 route with multicast NEXT_HOP must be rejected");
}

#[test]
fn test_valid_next_hop_is_accepted() {
    let mut t = tables();
    t.handle_v4(with_next_hop(Ipv4Addr::new(10, 0, 0, 2)));
    assert_eq!(t.rib.len(), 1, "route with valid NEXT_HOP must be accepted");
}

#[test]
fn test_valid_next_hop_v6_link_local_is_accepted() {
    let mut t = tables();
    t.handle(with_next_hop_v6(NextHop::V6(ip6("fe80::1"))));
    assert_eq!(t.rib_v6.len(), 1, "link-local IPv6 next-hop must be accepted");
}

#[test]
fn test_invalid_next_hop_v6_with_link_local_bad_global_rejected() {
    let mut t = tables();
    t.handle(with_next_hop_v6(NextHop::V6WithLinkLocal {
        global: ip6("::"),
        link_local: ip6("fe80::1"),
    }));
    assert!(t.rib_v6.is_empty(), "V6WithLinkLocal with unspecified global must be rejected");
}

#[test]
fn test_invalid_next_hop_v6_with_link_local_multicast_link_local_rejected() {
    let mut t = tables();
    t.handle(with_next_hop_v6(NextHop::V6WithLinkLocal {
        global: ip6("2001:db8::1"),
        link_local: ip6("ff02::1"),
    }));
    assert!(t.rib_v6.is_empty(), "V6WithLinkLocal with multicast link-local must be rejected");
}

#[test]
fn test_as_path_loop_detection_fires_for_as_set() {
    let mut t = tables();
    let path = PathAttribute::AsPath(Arc::new(AsPath {
        segments: vec![
            AsPathSegment { kind: SegmentKind::AsSequence, asns: vec![65100] },
            AsPathSegment { kind: SegmentKind::AsSet, asns: vec![65002, 65200] },
        ],
    }));
    t.handle_v4(msg(
        vec![igp(), path, PathAttribute::NextHop(Ipv4Addr::new(10, 0, 0, 2))],
        &["10.0.0.0/8"],
    ));
    assert!(t.rib.is_empty(), "route with local AS in AS_SET must be dropped");
}

#[test]
fn test_as_zero_in_path_drops_route() {
    let mut t = tables();
    t.handle_v4(msg(
        vec![igp(), seq(vec![65100, 0, 65200]), PathAttribute::NextHop(Ipv4Addr::new(10, 0, 0, 2))],
        &["10.0.0.0/8"],
    ));
    assert!(t.rib.is_empty(), "route with AS 0 in AS_PATH must be dropped");
}

#[test]
fn test_as_zero_does_not_block_withdrawals() {
    let mut t = tables();
    t.handle_v4(with_next_hop(Ipv4Addr::new(10, 0, 0, 2)));
    assert_eq!(t.rib.len(), 1, "prerequisite: route must be installed");
    t.handle_v4(withdrawal("10.0.0.0/8", vec![igp(), seq(vec![0])]));
    assert!(t.rib.is_empty(), "withdrawal must be processed even when AS_PATH contains AS 0");
}

#[test]
fn test_next_hop_own_address_is_rejected() {
    let mut t = tables();
    t.own = Some(ip4("192.0.2.1"));
    t.handle(with_next_hop(ip4("192.0.2.1")));
    assert!(t.rib.is_empty(), "route with NEXT_HOP == own address must be rejected");
}

#[test]
fn test_next_hop_different_from_own_address_is_accepted() {
    let mut t = tables();
    t.own = Some(ip4("192.0.2.1"));
    t.handle(with_next_hop(ip4("10.0.0.2")));
    assert_eq!(t.rib.len(), 1, "route with NEXT_HOP != own address must be accepted");
}

#[test]
fn own_ipv6_address_is_no_next_hop() {
    let mut t = tables();
    t.own_v6 = Some(ip6("2001:db8::1"));
    t.handle(with_next_hop_v6(NextHop::V6(ip6("2001:db8::1"))));
    assert!(t.rib_v6.is_empty());
    t.handle(with_next_hop_v6(NextHop::V6(ip6("2001:db8::2"))));
    assert_eq!(t.rib_v6.len(), 1);
}

#[test]
fn next_hops_that_name_one_other_host() {
    assert!(is_valid_next_hop_v4(ip4("10.0.0.2"), None));
    assert!(!is_valid_next_hop_v4(ip4("10.0.0.2"), Some(ip4("10.0.0.2"))));
    assert!(!is_valid_next_hop_v4(ip4("127.0.0.1"), None));
    assert!(!is_valid_next_hop_v4(ip4("239.255.255.255"), None));
    assert!(is_valid_next_hop_v4(ip4("240.0.0.1"), None));
    assert!(is_valid_next_hop_v6(ip6("2001:db8::1")));
    assert!(!is_valid_next_hop_v6(ip6("::")));
    assert!(!is_valid_next_hop_v6(ip6("ff02::1")));
}

fn notification(m: UpdateMessage) -> Option<NotificationMessage> {
    tables().handle(m).notification
}

#[test]
fn missing_origin_returns_notification_data_type_code_1() {
    let n = notification(msg(
        vec![seq(vec![65002]), PathAttribute::NextHop(Ipv4Addr::new(10, 0, 0, 2))],
        &["10.0.0.0/8"],
    ))
    .expect("NOTIFICATION must be returned when ORIGIN is absent");
    assert!(matches!(
        n.error,
        NotificationError::UpdateMessage(UpdateMsgError::MissingWellKnownAttribute)
    ));
    assert_eq!(n.data, vec![1u8], "data must contain ORIGIN type code (1)");
}

#[test]
fn missing_as_path_returns_notification_data_type_code_2() {
    let n = notification(msg(
        vec![igp(), PathAttribute::NextHop(Ipv4Addr::new(10, 0, 0, 2))],
        &["10.0.0.0/8"],
    ))
    .expect("NOTIFICATION must be returned when AS_PATH is absent");
    assert_eq!(n.data, vec![2u8], "data must contain AS_PATH type code (2)");
}

#[test]
fn missing_next_hop_for_traditional_ipv4_returns_notification_data_type_code_3() {
    let n = notification(msg(vec![igp(), seq(vec![65002])], &["10.0.0.0/8"]))
        .expect("NOTIFICATION must be returned when NEXT_HOP is absent");
    assert_eq!(n.data, vec![3u8], "data must contain NEXT_HOP type code (3)");
}

#[test]
fn withdraw_only_update_no_notification_for_missing_attrs() {
    let n = notification(withdrawal("10.0.0.0/8", vec![]));
    assert!(n.is_none(), "withdraw-only UPDATE must not trigger a NOTIFICATION");
}

#[test]
fn all_mandatory_attributes_present_no_notification() {
    let n = notification(msg(
        vec![igp(), seq(vec![65002]), PathAttribute::NextHop(Ipv4Addr::new(10, 0, 0, 2))],
        &["10.0.0.0/8"],
    ));
    assert!(n.is_none(), "well-formed UPDATE must not trigger NOTIFICATION");
}

#[test]
fn prefixes_in_the_attribute_need_no_next_hop_attribute() {
    let n = notification(msg(vec![igp(), seq(vec![65009]), reach_v4("10.0.0.2", &["10.0.0.0/8"])], &[]));
    assert!(n.is_none());
    let m = notification(msg(vec![seq(vec![65009]), reach_v4("10.0.0.2", &["10.0.0.0/8"])], &[]));
    assert_eq!(m.unwrap().data, vec![1u8]);
}

#[test]
fn reflection_attributes_are_kept_on_routes_of_both_families() {
    let mut t = tables();
    t.peer_type = PeerType::Internal;
    t.handle(msg(
        vec![
            igp(),
            seq(vec![65009]),
            PathAttribute::NextHop(ip4("10.0.0.2")),
            PathAttribute::OriginatorId(ip4("1.1.1.1")),
            PathAttribute::ClusterList(ClusterList::Received(Arc::new(vec![7]))),
            reach_v6(NextHop::V6(ip6("2001:db8::1")), "2001:db8::/32"),
        ],
        &["10.0.0.0/8"],
    ));
    let a = &t.rib.best(&nlri("10.0.0.0/8")).unwrap().attributes;
    assert_eq!(a.originator_id, Some(ip4("1.1.1.1")));
    assert_eq!(a.cluster_list.as_ref().unwrap().to_vec(), vec![7]);
    let b = &t.rib_v6.best(&nlri_v6("2001:db8::/32")).unwrap().attributes;
    assert_eq!(b.originator_id, Some(ip4("1.1.1.1")));
    assert_eq!(b.cluster_list.as_ref().unwrap().to_vec(), vec![7]);
}
