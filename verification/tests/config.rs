use std::path::PathBuf;

use pathvectord::config::{
    config_peer_type, default_bgp_listen_port, default_bgp_port, default_fib_metric,
    default_fib_table, default_grpc_port, default_hold_time, default_rtr_port, default_true,
    resolve_export_default, resolve_import_default, DynamicPeerStore, ExportDefault, ImportDefault,
    PeerConfig, PeerRole, SidecarFound,
};
use pathvectord::message::{PeerType, Role};
use pathvectord::net::{IpAddr, Ipv4Addr};
use pathvectord::rib::DefaultAction;

fn addr(octet: u8) -> IpAddr {
    IpAddr::V4(Ipv4Addr::new(10, 0, 0, octet))
}

fn peer(octet: u8, remote_as: u32) -> PeerConfig {
    PeerConfig {
        address: addr(octet),
        port: 179,
        remote_as,
        import_default: None,
        import_default_v6: None,
        export_default: None,
        md5_password: None,
        is_rr_client: false,
        next_hop_self: false,
        hold_time: None,
        shutdown_message: None,
        connect_retry_time: None,
        max_prefixes_v4: None,
        max_prefixes_v6: None,
        max_prefixes_restart: None,
        role: None,
    }
}

fn store() -> DynamicPeerStore {
    DynamicPeerStore::new(PathBuf::from("dynamic_peers.toml"))
}

#[test]
fn test_import_default_converts_to_default_action() {
    assert!(matches!(DefaultAction::from(ImportDefault::Accept), DefaultAction::Accept));
    assert!(matches!(DefaultAction::from(ImportDefault::Reject), DefaultAction::Reject));
}

#[test]
fn test_export_default_converts_to_default_action() {
    assert!(matches!(DefaultAction::from(ExportDefault::Accept), DefaultAction::Accept));
    assert!(matches!(DefaultAction::from(ExportDefault::Reject), DefaultAction::Reject));
}

#[test]
fn role_converts_by_name() {
    assert_eq!(Role::from(PeerRole::Provider), Role::Provider);
    assert_eq!(Role::from(PeerRole::RouteServer), Role::RouteServer);
    assert_eq!(Role::from(PeerRole::RsClient), Role::RsClient);
    assert_eq!(Role::from(PeerRole::Customer), Role::Customer);
    assert_eq!(Role::from(PeerRole::Peer), Role::Peer);
}

#[test]
fn defaults_of_settings() {
    assert_eq!(default_rtr_port(), 3323);
    assert!(default_true());
    assert_eq!(default_fib_table(), 254);
    assert_eq!(default_fib_metric(), 20);
    assert_eq!(default_hold_time(), 90);
    assert_eq!(default_grpc_port(), 50051);
    assert_eq!(default_bgp_listen_port(), 179);
    assert_eq!(default_bgp_port(), 179);
}

#[test]
fn test_config_peer_type_different_as_is_external() {
    assert_eq!(config_peer_type(65001, 65002), PeerType::External);
}

#[test]
fn test_config_peer_type_same_as_is_internal() {
    assert_eq!(config_peer_type(65001, 65001), PeerType::Internal);
}

#[test]
fn test_resolve_import_ebgp_omitted_defaults_to_reject() {
    assert!(matches!(resolve_import_default(None, true), DefaultAction::Reject));
}

#[test]
fn test_resolve_import_ibgp_omitted_defaults_to_accept() {
    assert!(matches!(resolve_import_default(None, false), DefaultAction::Accept));
}

#[test]
fn test_resolve_import_explicit_accept_overrides_ebgp_default() {
    assert!(matches!(
        resolve_import_default(Some(ImportDefault::Accept), true),
        DefaultAction::Accept
    ));
}

#[test]
fn test_resolve_import_explicit_reject_overrides_ibgp_default() {
    assert!(matches!(
        resolve_import_default(Some(ImportDefault::Reject), false),
        DefaultAction::Reject
    ));
}

#[test]
fn test_resolve_export_ebgp_omitted_defaults_to_reject() {
    assert!(matches!(resolve_export_default(None, true), DefaultAction::Reject));
}

#[test]
fn test_resolve_export_ibgp_omitted_defaults_to_accept() {
    assert!(matches!(resolve_export_default(None, false), DefaultAction::Accept));
}

#[test]
fn test_resolve_export_explicit_accept_overrides_ebgp_default() {
    assert!(matches!(
        resolve_export_default(Some(ExportDefault::Accept), true),
        DefaultAction::Accept
    ));
}

#[test]
fn test_resolve_export_explicit_reject_overrides_ibgp_default() {
    assert!(matches!(
        resolve_export_default(Some(ExportDefault::Reject), false),
        DefaultAction::Reject
    ));
}

#[test]
fn store_keeps_its_path() {
    assert_eq!(store().path(), &PathBuf::from("dynamic_peers.toml"));
}

#[test]
fn load_returns_empty_when_file_absent() {
    assert!(store().load(SidecarFound::Absent).is_empty());
}

#[test]
fn load_returns_empty_when_the_file_cannot_be_used() {
    assert!(store().load(SidecarFound::Malformed).is_empty());
    assert!(store().load(SidecarFound::Unreadable).is_empty());
}

#[test]
fn load_returns_the_peers_of_the_file_in_order() {
    let loaded = store().load(SidecarFound::Peers(vec![peer(4, 65004), peer(2, 65002)]));
    assert_eq!(loaded.len(), 2);
    assert_eq!(loaded[0].address, addr(4));
    assert_eq!(loaded[1].address, addr(2));
}

#[test]
fn upsert_persists_peer() {
    let s = store();
    let loaded = s.upsert(s.load(SidecarFound::Absent), peer(1, 65001));
    assert_eq!(loaded.len(), 1);
    assert_eq!(loaded[0].address, addr(1));
    assert_eq!(loaded[0].remote_as, 65001);
}

#[test]
fn upsert_is_idempotent_by_address() {
    let s = store();
    let once = s.upsert(Vec::new(), peer(1, 65001));
    let loaded = s.upsert(once, peer(1, 65002)); // same address, different AS
    assert_eq!(loaded.len(), 1, "upsert must replace, not append");
    assert_eq!(loaded[0].remote_as, 65002, "latest value must win");
}

#[test]
fn upsert_keeps_the_order_of_the_others() {
    let s = store();
    let list = vec![peer(1, 65001), peer(2, 65002), peer(3, 65003)];
    let loaded = s.upsert(list, peer(2, 65022));
    let order: Vec<IpAddr> = loaded.iter().map(|p| p.address).collect();
    assert_eq!(order, vec![addr(1), addr(3), addr(2)]);
}

#[test]
fn remove_deletes_peer() {
    let s = store();
    let one = s.upsert(Vec::new(), peer(1, 65001));
    let two = s.upsert(one, peer(2, 65002));
    let loaded = s.remove(two, addr(1));
    assert_eq!(loaded.len(), 1);
    assert_eq!(loaded[0].address, addr(2));
}

#[test]
fn remove_unknown_address_is_noop() {
    let s = store();
    let one = s.upsert(Vec::new(), peer(1, 65001));
    assert_eq!(s.remove(one, addr(99)).len(), 1);
}

#[test]
fn removing_what_was_added_leaves_the_list_as_it_was() {
    let s = store();
    let list = vec![peer(1, 65001), peer(2, 65002)];
    let loaded = s.remove(s.upsert(list, peer(3, 65003)), addr(3));
    let order: Vec<IpAddr> = loaded.iter().map(|p| p.address).collect();
    assert_eq!(order, vec![addr(1), addr(2)]);
}
