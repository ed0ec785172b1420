use std::sync::Arc;

use pathvectord::clock::{Instant, NANOS_PER_SEC};
use pathvectord::gr::GracefulRestartState;
use pathvectord::message::{
    AsPath, AsPathSegment, ClusterList, Community, Origin, PathAttribute, PeerType, SegmentKind,
    UpdateMessage,
};
use pathvectord::net::{AfiSafi, IpAddr, Ipv4Addr, Ipv6Addr, NextHop, Nlri};
use pathvectord::reflection::{end_of_rib, reflect_inbound, EndOfRib};
use pathvectord::rib::{touched_nlris, AdjRibIn, Best, BestPathChange, LocRib};
use pathvectord::route::{Attributes, Route};
use pathvectord::table::{copy_of, holds, same_elements, KeySet, Table};

fn addr(n: u8) -> IpAddr {
    IpAddr::V4(Ipv4Addr::new(10, 0, 0, n))
}

fn nlri(n: u8) -> Nlri<Ipv4Addr> {
    Nlri { addr: Ipv4Addr::new(10, n, 0, 0), len: 16 }
}

fn route(n: u8) -> Route<Ipv4Addr> {
    Route {
        nlri: nlri(n),
        next_hop: Some(NextHop::V4(Ipv4Addr::new(192, 0, 2, 1))),
        peer_type: PeerType::External,
        stale: false,
        received_at: Instant { nanos: 1 },
        attributes: Attributes::none(),
    }
}

#[test]
fn a_table_keeps_one_value_for_a_key() {
    let mut t: Table<u32, u8> = Table::new();
    assert!(t.is_empty());
    t.insert(7, 1);
    t.insert(8, 2);
    t.insert(7, 3);
    assert_eq!(t.len(), 2);
    assert_eq!(t.get(&7), Some(&3));
    assert_eq!(t.get(&9), None);
    assert!(t.contains_key(&8));
    assert_eq!(t.remove(&7), Some(3));
    assert_eq!(t.remove(&7), None);
    assert_eq!(t.keys(), vec![8]);
    assert!(t.key_set().contains(&8));
    assert_eq!(t.key_at(0), 8);
    assert_eq!(t.value_at(0), &2);
}

#[test]
fn a_set_holds_a_key_once() {
    let mut s: KeySet<u32> = KeySet::new();
    assert!(s.insert(7));
    assert!(!s.insert(7));
    assert!(s.contains(&7));
    assert_eq!(s.members(), vec![7]);
    assert!(s.remove(&7));
    assert!(!s.remove(&7));
    assert!(s.is_empty());
    assert_eq!(s.len(), 0);
}

#[test]
fn lists_of_keys() {
    assert!(same_elements(&vec![1u32, 2], &vec![1, 2]));
    assert!(!same_elements(&vec![1u32, 2], &vec![2, 1]));
    assert!(!same_elements(&vec![1u32], &vec![1, 1]));
    assert!(holds(&vec![1u32, 2], &2));
    assert!(!holds(&vec![1u32, 2], &3));
    assert_eq!(copy_of(&vec![1u32, 2]), vec![1, 2]);
}

#[test]
fn addresses_by_value() {
    assert_eq!(Ipv4Addr::new(192, 0, 2, 1).bits, 0xc000_0201);
    assert!(Ipv4Addr::new(0, 0, 0, 0).is_unspecified());
    assert!(Ipv4Addr::new(127, 1, 2, 3).is_loopback());
    assert!(!Ipv4Addr::new(128, 0, 0, 1).is_loopback());
    assert!(Ipv4Addr::new(224, 0, 0, 1).is_multicast());
    assert!(!Ipv4Addr::new(240, 0, 0, 1).is_multicast());
    assert!(Ipv4Addr::new(255, 255, 255, 255).is_broadcast());
    let a = Ipv6Addr::new(0x2001, 0xdb8, 0, 0, 0, 0, 0, 1);
    assert_eq!(a.bits, 0x2001_0db8_0000_0000_0000_0000_0000_0001);
    assert!(!a.is_unspecified() && !a.is_multicast());
    assert!(Ipv6Addr::new(0xff02, 0, 0, 0, 0, 0, 0, 1).is_multicast());
    assert_eq!(AfiSafi::ipv4_unicast(), AfiSafi { afi: 1, safi: 1 });
    assert_eq!(AfiSafi::ipv6_unicast(), AfiSafi { afi: 2, safi: 1 });
}

#[test]
fn time_is_counted_in_nanoseconds() {
    let t = Instant { nanos: 5 };
    assert_eq!(t.after(2), Instant { nanos: 5 + 2 * NANOS_PER_SEC });
    assert_eq!(t.after(2).saturating_duration_since(t), 2 * NANOS_PER_SEC);
    assert_eq!(t.saturating_duration_since(t.after(2)), 0);
}

#[test]
fn what_a_route_says_does_not_depend_on_when_it_came() {
    let a = route(1);
    let mut b = a.share();
    b.received_at = Instant { nanos: 99 };
    assert!(a.content_eq(&b));
    b.attributes.med = Some(1);
    assert!(!a.content_eq(&b));
    let mut c = a.share();
    c.attributes.as_path = Some(Arc::new(AsPath {
        segments: vec![AsPathSegment { kind: SegmentKind::AsSequence, asns: vec![1, 2] }],
    }));
    let mut d = a.share();
    d.attributes.as_path = Some(Arc::new(AsPath {
        segments: vec![AsPathSegment { kind: SegmentKind::AsSet, asns: vec![1, 2] }],
    }));
    assert!(!c.content_eq(&d));
    assert!(c.content_eq(&c.share()));
    assert!(c.attributes.path_contains(2));
    assert!(!c.attributes.path_contains(3));
}

#[test]
fn the_last_attribute_of_a_kind_counts() {
    let a = Attributes::collect(&vec![
        PathAttribute::Med(1),
        PathAttribute::Med(2),
        PathAttribute::Origin(Origin::Egp),
        PathAttribute::OnlyToCustomer(65001),
    ]);
    assert_eq!(a.med, Some(2));
    assert_eq!(a.origin, Some(Origin::Egp));
    assert_eq!(a.otc, Some(65001));
    assert_eq!(a.local_pref, None);
    assert!(!a.is_blackhole());
    assert!(a.same_as(&a.share()));
}

#[test]
fn received_routes_by_prefix() {
    let mut t: AdjRibIn<Ipv4Addr> = AdjRibIn::new();
    t.insert(route(1));
    let mut dropped = route(2);
    dropped.attributes.communities = Some(Arc::new(vec![Community { value: 0xffff_029a }]));
    t.insert(dropped);
    assert_eq!(t.len(), 2);
    assert!(t.is_blackholed(&nlri(2)));
    assert!(!t.is_blackholed(&nlri(1)));
    assert_eq!(t.blackholed_of(&t.nlris()), vec![nlri(2)]);
    let marked = t.mark_all_stale();
    assert_eq!(marked.len(), 2);
    assert!(t.get(&nlri(1)).unwrap().stale);
    t.withdraw(&nlri(1));
    assert!(t.get(&nlri(1)).is_none());
    assert!(!t.nlri_set().contains(&nlri(1)));
    t.withdraw_all(&vec![nlri(2)]);
    assert!(t.is_empty());
}

#[test]
fn best_routes_follow_the_changes() {
    let mut rib: LocRib<Ipv4Addr> = LocRib::new();
    let announced = |n: u8, p: u8| {
        BestPathChange::Announced(nlri(n), Best { peer: addr(p), route: route(n) })
    };
    let changes = vec![
        announced(1, 2),
        BestPathChange::Unchanged,
        announced(2, 2),
        announced(1, 3),
        BestPathChange::Withdrawn(nlri(2)),
    ];
    rib.absorb(&changes);
    assert_eq!(rib.len(), 1);
    assert_eq!(rib.get(&nlri(1)).unwrap().peer, addr(3));
    assert!(rib.get(&nlri(2)).is_none());
    assert_eq!(rib.best_nlris(), vec![nlri(1)]);
    assert_eq!(touched_nlris(&changes), vec![nlri(1), nlri(2), nlri(1), nlri(2)]);
}

#[test]
fn windows_end_at_their_deadline() {
    let mut gr = GracefulRestartState::new();
    assert_eq!(gr.earliest_deadline(), None);
    gr.deadlines.insert(addr(2), Instant { nanos: 20 });
    gr.deadlines.insert(addr(3), Instant { nanos: 10 });
    assert_eq!(gr.earliest_deadline(), Some(Instant { nanos: 10 }));
    assert!(gr.drain_expired(Instant { nanos: 9 }).is_empty());
    assert_eq!(gr.drain_expired(Instant { nanos: 10 }), vec![addr(3)]);
    assert_eq!(gr.earliest_deadline(), Some(Instant { nanos: 20 }));
    gr.notification_capable_peers.insert(addr(2));
    gr.remove_peer(addr(2));
    assert_eq!(gr.earliest_deadline(), None);
    assert!(!gr.notification_capable_peers.contains(&addr(2)));
}

#[test]
fn clusters_in_order_with_the_last_one_first() {
    let list = ClusterList::Received(Arc::new(vec![1, 2]));
    assert!(list.contains(2));
    assert!(!list.contains(3));
    let more = ClusterList::Prepended(3, Arc::new(list.share()));
    assert_eq!(more.to_vec(), vec![3, 1, 2]);
    assert!(more.contains(3));
    assert!(ClusterList::Empty.to_vec().is_empty());
}

#[test]
fn a_reflected_route_is_known_when_it_comes_back() {
    let own = Ipv4Addr::new(10, 0, 0, 1);
    let source = Ipv4Addr::new(10, 0, 0, 2);
    let mut a = vec![PathAttribute::Med(5)];
    assert!(reflect_inbound(&mut a, 42, own, source));
    assert_eq!(a.len(), 3);
    assert_eq!(a[0], PathAttribute::Med(5));
    assert!(a.contains(&PathAttribute::OriginatorId(source)));
    match &a[2] {
        PathAttribute::ClusterList(l) => assert_eq!(l.to_vec(), vec![42]),
        _ => panic!("the cluster is on record"),
    }
    assert!(!reflect_inbound(&mut a, 42, own, source), "the same cluster turns it down");
    let mut b = vec![PathAttribute::OriginatorId(own)];
    assert!(!reflect_inbound(&mut b, 42, own, source), "so does the router that it started at");
}

#[test]
fn markers_hold_nothing() {
    let empty = UpdateMessage { withdrawn: vec![], attributes: vec![], announced: vec![] };
    assert_eq!(end_of_rib(&empty), Some(EndOfRib::V4));
    let some = UpdateMessage { withdrawn: vec![nlri(1)], attributes: vec![], announced: vec![] };
    assert_eq!(end_of_rib(&some), None);
    let other = UpdateMessage {
        withdrawn: vec![],
        attributes: vec![PathAttribute::AtomicAggregate],
        announced: vec![],
    };
    assert_eq!(end_of_rib(&other), None);
}
