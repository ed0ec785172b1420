//! What the configuration leads to, put in terms of its entries.
use vstd::prelude::*;

use crate::capabilities::SpawnConfig;
use crate::clock::Instant;
use crate::config::{Config, ExportDefault, ImportDefault, PeerConfig, PeerRole};
use crate::control::{
    addresses_of, configured_session, joining_outcome, keys_of_peers, leaving_outcome, orders,
    startup_outcome, AddVerdict, RemoveVerdict, SessionCommand, SessionConfig, Startup,
};
use crate::inbound::update_outcome;
use crate::inbound_laws::{is_processed, limits_hold_for_both_families};
use crate::message::{
    Capability, CeaseError, NotificationError, NotificationMessage, Role, UpdateView,
};
use crate::net::{AfiSafi, IpAddr, Ipv4Addr, Ipv6Addr, Nlri};
use crate::rib::DefaultAction;
use crate::route::Route;
use crate::session::TerminationReason;
use crate::session_laws::has_clients;
use crate::state::{addition_outcome, removal_outcome, text, DaemonView, RibView};
use crate::work::WorkView;

verus! {

/// Whether an action is what a setting for received routes says: what is configured, else to accept from
/// an internal peer and to reject from an external one.
pub open spec fn import_says(setting: Option<ImportDefault>, internal: bool, a: DefaultAction) -> bool {
    match setting {
        Some(ImportDefault::Accept) => a is Accept,
        Some(ImportDefault::Reject) => a is Reject,
        None => a is Accept <==> internal,
    }
}

/// Whether an action is what a setting for advertised routes says.
pub open spec fn export_says(setting: Option<ExportDefault>, internal: bool, a: DefaultAction) -> bool {
    match setting {
        Some(ExportDefault::Accept) => a is Accept,
        Some(ExportDefault::Reject) => a is Reject,
        None => a is Accept <==> internal,
    }
}

/// Whether what is on record for the address of an entry is what the entry says: its number and kind,
/// policies for each family, and empty tables made for its kind.
pub open spec fn follows_entry(t: DaemonView, e: PeerConfig, clients: bool) -> bool {
    let a = e.address;
    let internal = e.remote_as == t.rib.local_as;
    &&& t.rib.peer_remote_as.contains_key(a) && t.rib.peer_remote_as[a] == e.remote_as
    &&& t.peer_config_types.contains_key(a)
    &&& t.peer_config_types[a] is Internal <==> internal
    &&& t.import_policies.contains_key(a)
    &&& import_says(e.import_default, internal, t.import_policies[a].default)
    &&& t.import_policies_v6.contains_key(a)
    &&& e.import_default_v6 is Some ==> import_says(
        e.import_default_v6,
        internal,
        t.import_policies_v6[a].default,
    )
    &&& e.import_default_v6 is None ==> import_says(
        e.import_default,
        internal,
        t.import_policies_v6[a].default,
    )
    &&& t.export_policies.contains_key(a)
    &&& export_says(e.export_default, internal, t.export_policies[a].default)
    &&& t.export_policies_v6.contains_key(a)
    &&& export_says(e.export_default, internal, t.export_policies_v6[a].default)
    &&& t.adj_ribs_in.contains_key(a)
    &&& t.adj_ribs_in[a] == Map::<Nlri<Ipv4Addr>, Route<Ipv4Addr>>::empty()
    &&& t.adj_ribs_in_v6.contains_key(a)
    &&& t.adj_ribs_in_v6[a] == Map::<Nlri<Ipv6Addr>, Route<Ipv6Addr>>::empty()
    &&& t.adj_ribs_out.contains_key(a)
    &&& t.adj_ribs_out[a].peer_type is Internal <==> internal
    &&& t.adj_ribs_out[a].reflects <==> internal && clients
    &&& t.adj_ribs_out[a].advertised == 0
    &&& t.adj_ribs_out_v6.contains_key(a)
    &&& t.adj_ribs_out_v6[a] == t.adj_ribs_out[a]
}

/// Whether an optional setting is put on record: where it is set it replaces what was there, else it
/// leaves that alone.
pub open spec fn follows_setting<V>(
    old_map: Map<IpAddr, V>,
    new_map: Map<IpAddr, V>,
    a: IpAddr,
    setting: Option<V>,
) -> bool {
    match setting {
        Some(v) => new_map == old_map.insert(a, v),
        None => new_map == old_map,
    }
}

/// What one entry puts on record, over all fields. No other peer is touched.
pub proof fn entry_goes_on_record(s: DaemonView, e: PeerConfig)
    ensures
        ({
            let t = s.registered(e);
            let a = e.address;
            &&& follows_entry(t, e, has_clients(s))
            &&& follows_setting(s.peer_max_prefixes_v4, t.peer_max_prefixes_v4, a, e.max_prefixes_v4)
            &&& follows_setting(s.peer_max_prefixes_v6, t.peer_max_prefixes_v6, a, e.max_prefixes_v6)
            &&& follows_setting(
                s.peer_max_prefixes_restart,
                t.peer_max_prefixes_restart,
                a,
                e.max_prefixes_restart,
            )
            &&& follows_setting(s.shutdown_messages, t.shutdown_messages, a, text(e.shutdown_message))
            &&& e.next_hop_self ==> t.rib.next_hop_self_peers == s.rib.next_hop_self_peers.insert(a)
            &&& !e.next_hop_self ==> t.rib.next_hop_self_peers == s.rib.next_hop_self_peers
            &&& t == (DaemonView {
                rib: RibView {
                    peer_remote_as: s.rib.peer_remote_as.insert(a, t.rib.peer_remote_as[a]),
                    next_hop_self_peers: t.rib.next_hop_self_peers,
                    ..s.rib
                },
                import_policies: s.import_policies.insert(a, t.import_policies[a]),
                import_policies_v6: s.import_policies_v6.insert(a, t.import_policies_v6[a]),
                export_policies: s.export_policies.insert(a, t.export_policies[a]),
                export_policies_v6: s.export_policies_v6.insert(a, t.export_policies_v6[a]),
                adj_ribs_in: s.adj_ribs_in.insert(a, t.adj_ribs_in[a]),
                adj_ribs_in_v6: s.adj_ribs_in_v6.insert(a, t.adj_ribs_in_v6[a]),
                adj_ribs_out: s.adj_ribs_out.insert(a, t.adj_ribs_out[a]),
                adj_ribs_out_v6: s.adj_ribs_out_v6.insert(a, t.adj_ribs_out_v6[a]),
                peer_config_types: s.peer_config_types.insert(a, t.peer_config_types[a]),
                shutdown_messages: t.shutdown_messages,
                peer_max_prefixes_v4: t.peer_max_prefixes_v4,
                peer_max_prefixes_v6: t.peer_max_prefixes_v6,
                peer_max_prefixes_restart: t.peer_max_prefixes_restart,
                ..s
            })
        }),
{
    if !has_clients(s) {
        assert(s.rib.rr_clients =~= Set::<IpAddr>::empty());
    }
}

/// Configuring a peer at run time puts its entry on record and lets it be sent to, where the peer is new;
/// else nothing changes.
pub proof fn new_peer_goes_on_record(before: DaemonView, e: PeerConfig, after: DaemonView, r: bool)
    requires
        addition_outcome(before, e, after, r),
    ensures
        r <==> !before.adj_ribs_in.contains_key(e.address),
        !r ==> after == before,
        r ==> {
            &&& follows_entry(after, e, has_clients(before))
            &&& after.update_senders == before.update_senders.insert(e.address)
            &&& !before.rib.next_hop_self_peers.contains(e.address)
                ==> after.rib.next_hop_self_peers.contains(e.address) == e.next_hop_self
            &&& after == (DaemonView {
                update_senders: after.update_senders,
                ..before.registered(e)
            })
        },
{
    entry_goes_on_record(before, e);
}

/// What a list of entries leaves alone.
proof fn entries_keep_identity(s: DaemonView, peers: Seq<PeerConfig>)
    ensures
        ({
            let t = s.registered_all(peers);
            &&& t.rib.local_as == s.rib.local_as
            &&& t.rib.rr_clients == s.rib.rr_clients
            &&& t.rib.local_bgp_id == s.rib.local_bgp_id
            &&& t.rib.local_ipv6 == s.rib.local_ipv6
            &&& t.rib.cluster_id == s.rib.cluster_id
            &&& t.rib.loc_rib == s.rib.loc_rib
            &&& t.rib.loc_rib_v6 == s.rib.loc_rib_v6
            &&& t.rib.originated_routes == s.rib.originated_routes
            &&& t.rib.originated_routes_v6 == s.rib.originated_routes_v6
            &&& t.rib.peer_types == s.rib.peer_types
            &&& t.update_senders == s.update_senders
            &&& t.config_capabilities == s.config_capabilities
            &&& t.selection_deferral == s.selection_deferral
            &&& t.fib_manager == s.fib_manager
            &&& t.pending_removal == s.pending_removal
            &&& t.max_prefix_idle == s.max_prefix_idle
            &&& t.gr == s.gr
        }),
    decreases peers.len(),
{
    if peers.len() > 0 {
        entries_keep_identity(s, peers.drop_last());
    }
}

/// The last entry for an address is what is on record for it.
proof fn last_entry_counts(s: DaemonView, peers: Seq<PeerConfig>, i: int)
    requires
        0 <= i < peers.len(),
        forall|j: int| i < j < peers.len() ==> (#[trigger] peers[j]).address != peers[i].address,
    ensures
        follows_entry(s.registered_all(peers), peers[i], has_clients(s)),
    decreases peers.len(),
{
    let t = peers.drop_last();
    let u = s.registered_all(t);
    entries_keep_identity(s, t);
    assert(has_clients(u) == has_clients(s));
    entry_goes_on_record(u, peers.last());
    if i < t.len() {
        assert(t[i] == peers[i]);
        assert(peers[peers.len() - 1].address != peers[i].address);
        assert forall|j: int| i < j < t.len() implies (#[trigger] t[j]).address != t[i].address by {
            assert(peers[j].address != peers[i].address);
        }
        last_entry_counts(s, t, i);
    }
}

/// The last entry for an address that sets it counts, and without one nothing is on record.
proof fn last_max_prefixes_v4_counts(s: DaemonView, peers: Seq<PeerConfig>, a: IpAddr, i: int)
    ensures
        0 <= i < peers.len() && peers[i].address == a && peers[i].max_prefixes_v4 is Some && (forall|j: int|
            i < j < peers.len() ==> !((#[trigger] peers[j]).address == a && peers[j].max_prefixes_v4 is Some)) ==> {
            &&& s.registered_all(peers).peer_max_prefixes_v4.contains_key(a)
            &&& Some(s.registered_all(peers).peer_max_prefixes_v4[a]) == peers[i].max_prefixes_v4
        },
        (forall|j: int|
            0 <= j < peers.len() ==> !((#[trigger] peers[j]).address == a && peers[j].max_prefixes_v4 is Some)) ==> {
            &&& s.registered_all(peers).peer_max_prefixes_v4.contains_key(a) == s.peer_max_prefixes_v4.contains_key(a)
            &&& s.peer_max_prefixes_v4.contains_key(a) ==> s.registered_all(peers).peer_max_prefixes_v4[a] == s.peer_max_prefixes_v4[a]
        },
    decreases peers.len(),
{
    if peers.len() > 0 {
        let t = peers.drop_last();
        let l = peers.len() - 1;
        last_max_prefixes_v4_counts(s, t, a, i);
        if 0 <= i < l && (forall|j: int|
            i < j < peers.len() ==> !((#[trigger] peers[j]).address == a && peers[j].max_prefixes_v4 is Some)) {
            assert(t[i] == peers[i]);
            assert forall|j: int| i < j < t.len() implies !((#[trigger] t[j]).address == a
                && t[j].max_prefixes_v4 is Some) by {
                assert(t[j] == peers[j]);
            }
            assert(!(peers[l].address == a && peers[l].max_prefixes_v4 is Some));
        }
        if forall|j: int|
            0 <= j < peers.len() ==> !((#[trigger] peers[j]).address == a && peers[j].max_prefixes_v4 is Some) {
            assert forall|j: int| 0 <= j < t.len() implies !((#[trigger] t[j]).address == a
                && t[j].max_prefixes_v4 is Some) by {
                assert(t[j] == peers[j]);
            }
            assert(!(peers[l].address == a && peers[l].max_prefixes_v4 is Some));
        }
    }
}

/// The last entry for an address that sets it counts, and without one nothing is on record.
proof fn last_max_prefixes_v6_counts(s: DaemonView, peers: Seq<PeerConfig>, a: IpAddr, i: int)
    ensures
        0 <= i < peers.len() && peers[i].address == a && peers[i].max_prefixes_v6 is Some && (forall|j: int|
            i < j < peers.len() ==> !((#[trigger] peers[j]).address == a && peers[j].max_prefixes_v6 is Some)) ==> {
            &&& s.registered_all(peers).peer_max_prefixes_v6.contains_key(a)
            &&& Some(s.registered_all(peers).peer_max_prefixes_v6[a]) == peers[i].max_prefixes_v6
        },
        (forall|j: int|
            0 <= j < peers.len() ==> !((#[trigger] peers[j]).address == a && peers[j].max_prefixes_v6 is Some)) ==> {
            &&& s.registered_all(peers).peer_max_prefixes_v6.contains_key(a) == s.peer_max_prefixes_v6.contains_key(a)
            &&& s.peer_max_prefixes_v6.contains_key(a) ==> s.registered_all(peers).peer_max_prefixes_v6[a] == s.peer_max_prefixes_v6[a]
        },
    decreases peers.len(),
{
    if peers.len() > 0 {
        let t = peers.drop_last();
        let l = peers.len() - 1;
        last_max_prefixes_v6_counts(s, t, a, i);
        if 0 <= i < l && (forall|j: int|
            i < j < peers.len() ==> !((#[trigger] peers[j]).address == a && peers[j].max_prefixes_v6 is Some)) {
            assert(t[i] == peers[i]);
            assert forall|j: int| i < j < t.len() implies !((#[trigger] t[j]).address == a
                && t[j].max_prefixes_v6 is Some) by {
                assert(t[j] == peers[j]);
            }
            assert(!(peers[l].address == a && peers[l].max_prefixes_v6 is Some));
        }
        if forall|j: int|
            0 <= j < peers.len() ==> !((#[trigger] peers[j]).address == a && peers[j].max_prefixes_v6 is Some) {
            assert forall|j: int| 0 <= j < t.len() implies !((#[trigger] t[j]).address == a
                && t[j].max_prefixes_v6 is Some) by {
                assert(t[j] == peers[j]);
            }
            assert(!(peers[l].address == a && peers[l].max_prefixes_v6 is Some));
        }
    }
}

/// The last entry for an address that sets it counts, and without one nothing is on record.
proof fn last_max_prefixes_restart_counts(s: DaemonView, peers: Seq<PeerConfig>, a: IpAddr, i: int)
    ensures
        0 <= i < peers.len() && peers[i].address == a && peers[i].max_prefixes_restart is Some && (forall|j: int|
            i < j < peers.len() ==> !((#[trigger] peers[j]).address == a && peers[j].max_prefixes_restart is Some)) ==> {
            &&& s.registered_all(peers).peer_max_prefixes_restart.contains_key(a)
            &&& Some(s.registered_all(peers).peer_max_prefixes_restart[a]) == peers[i].max_prefixes_restart
        },
        (forall|j: int|
            0 <= j < peers.len() ==> !((#[trigger] peers[j]).address == a && peers[j].max_prefixes_restart is Some)) ==> {
            &&& s.registered_all(peers).peer_max_prefixes_restart.contains_key(a) == s.peer_max_prefixes_restart.contains_key(a)
            &&& s.peer_max_prefixes_restart.contains_key(a) ==> s.registered_all(peers).peer_max_prefixes_restart[a] == s.peer_max_prefixes_restart[a]
        },
    decreases peers.len(),
{
    if peers.len() > 0 {
        let t = peers.drop_last();
        let l = peers.len() - 1;
        last_max_prefixes_restart_counts(s, t, a, i);
        if 0 <= i < l && (forall|j: int|
            i < j < peers.len() ==> !((#[trigger] peers[j]).address == a && peers[j].max_prefixes_restart is Some)) {
            assert(t[i] == peers[i]);
            assert forall|j: int| i < j < t.len() implies !((#[trigger] t[j]).address == a
                && t[j].max_prefixes_restart is Some) by {
                assert(t[j] == peers[j]);
            }
            assert(!(peers[l].address == a && peers[l].max_prefixes_restart is Some));
        }
        if forall|j: int|
            0 <= j < peers.len() ==> !((#[trigger] peers[j]).address == a && peers[j].max_prefixes_restart is Some) {
            assert forall|j: int| 0 <= j < t.len() implies !((#[trigger] t[j]).address == a
                && t[j].max_prefixes_restart is Some) by {
                assert(t[j] == peers[j]);
            }
            assert(!(peers[l].address == a && peers[l].max_prefixes_restart is Some));
        }
    }
}

/// The last entry for an address that sets it counts, and without one nothing is on record.
proof fn last_shutdown_message_counts(s: DaemonView, peers: Seq<PeerConfig>, a: IpAddr, i: int)
    ensures
        0 <= i < peers.len() && peers[i].address == a && peers[i].shutdown_message is Some && (forall|j: int|
            i < j < peers.len() ==> !((#[trigger] peers[j]).address == a && peers[j].shutdown_message is Some)) ==> {
            &&& s.registered_all(peers).shutdown_messages.contains_key(a)
            &&& Some(s.registered_all(peers).shutdown_messages[a]) == text(peers[i].shutdown_message)
        },
        (forall|j: int|
            0 <= j < peers.len() ==> !((#[trigger] peers[j]).address == a && peers[j].shutdown_message is Some)) ==> {
            &&& s.registered_all(peers).shutdown_messages.contains_key(a) == s.shutdown_messages.contains_key(a)
            &&& s.shutdown_messages.contains_key(a) ==> s.registered_all(peers).shutdown_messages[a] == s.shutdown_messages[a]
        },
    decreases peers.len(),
{
    if peers.len() > 0 {
        let t = peers.drop_last();
        let l = peers.len() - 1;
        last_shutdown_message_counts(s, t, a, i);
        if 0 <= i < l && (forall|j: int|
            i < j < peers.len() ==> !((#[trigger] peers[j]).address == a && peers[j].shutdown_message is Some)) {
            assert(t[i] == peers[i]);
            assert forall|j: int| i < j < t.len() implies !((#[trigger] t[j]).address == a
                && t[j].shutdown_message is Some) by {
                assert(t[j] == peers[j]);
            }
            assert(!(peers[l].address == a && peers[l].shutdown_message is Some));
        }
        if forall|j: int|
            0 <= j < peers.len() ==> !((#[trigger] peers[j]).address == a && peers[j].shutdown_message is Some) {
            assert forall|j: int| 0 <= j < t.len() implies !((#[trigger] t[j]).address == a
                && t[j].shutdown_message is Some) by {
                assert(t[j] == peers[j]);
            }
            assert(!(peers[l].address == a && peers[l].shutdown_message is Some));
        }
    }
}

/// The last entry for an address that has a key counts.
proof fn last_key_counts(peers: Seq<PeerConfig>, a: IpAddr, i: int)
    ensures
        0 <= i < peers.len() && peers[i].address == a && peers[i].md5_password is Some && (forall|j: int|
            i < j < peers.len() ==> !((#[trigger] peers[j]).address == a && peers[j].md5_password
                is Some)) ==> {
            &&& keys_of_peers(peers).contains_key(a)
            &&& keys_of_peers(peers)[a] == peers[i].md5_password->0@
        },
        (forall|j: int|
            0 <= j < peers.len() ==> !((#[trigger] peers[j]).address == a && peers[j].md5_password
                is Some)) ==> !keys_of_peers(peers).contains_key(a),
    decreases peers.len(),
{
    if peers.len() > 0 {
        let t = peers.drop_last();
        let l = peers.len() - 1;
        last_key_counts(t, a, i);
        if 0 <= i < l && (forall|j: int|
            i < j < peers.len() ==> !((#[trigger] peers[j]).address == a && peers[j].md5_password
                is Some)) {
            assert(t[i] == peers[i]);
            assert forall|j: int| i < j < t.len() implies !((#[trigger] t[j]).address == a
                && t[j].md5_password is Some) by {
                assert(t[j] == peers[j]);
            }
            assert(!(peers[l].address == a && peers[l].md5_password is Some));
        }
        if forall|j: int|
            0 <= j < peers.len() ==> !((#[trigger] peers[j]).address == a && peers[j].md5_password
                is Some) {
            assert forall|j: int| 0 <= j < t.len() implies !((#[trigger] t[j]).address == a
                && t[j].md5_password is Some) by {
                assert(t[j] == peers[j]);
            }
            assert(!(peers[l].address == a && peers[l].md5_password is Some));
        }
    }
}

/// What a configuration leads to for each address: of its entries the last counts, for settings that an
/// entry can leave open the last that sets them; a peer can be sent to where it has an entry; and a key is
/// kept where an entry has one.
pub proof fn entries_lead_to_settings(cfg: Config, now: Instant, r: Startup, i: int, a: IpAddr)
    requires
        startup_outcome(cfg, now, r),
    ensures
        ({
            let peers = cfg.peers@;
            let t = r.state@;
            &&& 0 <= i < peers.len() && peers[i].address == a && (forall|j: int|
                i < j < peers.len() ==> (#[trigger] peers[j]).address != a) ==> follows_entry(
                t,
                peers[i],
                has_clients(t),
            )
            &&& t.update_senders.contains(a) <==> exists|j: int|
                0 <= j < peers.len() && (#[trigger] peers[j]).address == a
            &&& t.rib.rr_clients.contains(a) <==> exists|j: int|
                0 <= j < peers.len() && (#[trigger] peers[j]).address == a && peers[j].is_rr_client
                    && peers[j].remote_as == cfg.daemon.local_as
            &&& 0 <= i < peers.len() && peers[i].address == a && peers[i].max_prefixes_v4 is Some && (forall|
                j: int,
            |
                i < j < peers.len() ==> !((#[trigger] peers[j]).address == a && peers[j].max_prefixes_v4 is Some))
                ==> t.peer_max_prefixes_v4.contains_key(a) && t.peer_max_prefixes_v4[a] == peers[i].max_prefixes_v4->0
            &&& (forall|j: int|
                0 <= j < peers.len() ==> !((#[trigger] peers[j]).address == a && peers[j].max_prefixes_v4
                    is Some)) ==> !t.peer_max_prefixes_v4.contains_key(a)
            &&& 0 <= i < peers.len() && peers[i].address == a && peers[i].max_prefixes_v6 is Some && (forall|
                j: int,
            |
                i < j < peers.len() ==> !((#[trigger] peers[j]).address == a && peers[j].max_prefixes_v6 is Some))
                ==> t.peer_max_prefixes_v6.contains_key(a) && t.peer_max_prefixes_v6[a] == peers[i].max_prefixes_v6->0
            &&& (forall|j: int|
                0 <= j < peers.len() ==> !((#[trigger] peers[j]).address == a && peers[j].max_prefixes_v6
                    is Some)) ==> !t.peer_max_prefixes_v6.contains_key(a)
            &&& 0 <= i < peers.len() && peers[i].address == a && peers[i].max_prefixes_restart is Some && (forall|
                j: int,
            |
                i < j < peers.len() ==> !((#[trigger] peers[j]).address == a && peers[j].max_prefixes_restart is Some))
                ==> t.peer_max_prefixes_restart.contains_key(a) && t.peer_max_prefixes_restart[a] == peers[i].max_prefixes_restart->0
            &&& (forall|j: int|
                0 <= j < peers.len() ==> !((#[trigger] peers[j]).address == a && peers[j].max_prefixes_restart
                    is Some)) ==> !t.peer_max_prefixes_restart.contains_key(a)
            &&& 0 <= i < peers.len() && peers[i].address == a && peers[i].shutdown_message is Some && (forall|
                j: int,
            |
                i < j < peers.len() ==> !((#[trigger] peers[j]).address == a && peers[j].shutdown_message is Some))
                ==> t.shutdown_messages.contains_key(a) && t.shutdown_messages[a] == peers[i].shutdown_message->0@
            &&& (forall|j: int|
                0 <= j < peers.len() ==> !((#[trigger] peers[j]).address == a && peers[j].shutdown_message
                    is Some)) ==> !t.shutdown_messages.contains_key(a)
            &&& 0 <= i < peers.len() && peers[i].address == a && peers[i].md5_password is Some && (forall|
                j: int,
            |
                i < j < peers.len() ==> !((#[trigger] peers[j]).address == a && peers[j].md5_password is Some))
                ==> r.md5_passwords@.contains_key(a) && r.md5_passwords@[a] == peers[i].md5_password->0@
            &&& (forall|j: int|
                0 <= j < peers.len() ==> !((#[trigger] peers[j]).address == a && peers[j].md5_password
                    is Some)) ==> !r.md5_passwords@.contains_key(a)
        }),
{
    let peers = cfg.peers@;
    let t = r.state@;
    let s = DaemonView::initial(
        cfg.daemon.local_as,
        cfg.daemon.bgp_id,
        cfg.daemon.local_ipv6,
        match cfg.daemon.cluster_id {
            Some(c) => c,
            None => cfg.daemon.bgp_id.bits,
        },
        crate::state::clients_of(peers, cfg.daemon.local_as),
        addresses_of(peers),
        t.config_capabilities,
    );
    entries_keep_identity(s, peers);
    if 0 <= i < peers.len() && peers[i].address == a && (forall|j: int|
        i < j < peers.len() ==> (#[trigger] peers[j]).address != a) {
        last_entry_counts(s, peers, i);
        assert(has_clients(t) == has_clients(s));
    }
    let l = peers.map_values(|p: PeerConfig| p.address);
    assert(l.to_set().contains(a) == l.contains(a));
    if l.contains(a) {
        let j = l.index_of(a);
        assert(peers[j].address == a);
    }
    if exists|j: int| 0 <= j < peers.len() && (#[trigger] peers[j]).address == a {
        let j = choose|j: int| 0 <= j < peers.len() && (#[trigger] peers[j]).address == a;
        assert(l[j] == a);
    }
    last_max_prefixes_v4_counts(s, peers, a, i);
    last_max_prefixes_v6_counts(s, peers, a, i);
    last_max_prefixes_restart_counts(s, peers, a, i);
    last_shutdown_message_counts(s, peers, a, i);
    last_key_counts(peers, a, i);
}

/// What a configuration leads to for the daemon as a whole: its number, identifier, address and cluster
/// are as configured, the identifier standing in for the cluster; there is no route, no session, nothing
/// waits, no advertisement is held back, and the kernel is left alone. There is one session to start for
/// each entry, in order.
pub proof fn daemon_starts_from_nothing(cfg: Config, now: Instant, r: Startup, i: int)
    requires
        startup_outcome(cfg, now, r),
    ensures
        ({
            let t = r.state@;
            &&& t.rib.local_as == cfg.daemon.local_as
            &&& t.rib.local_bgp_id == cfg.daemon.bgp_id
            &&& t.rib.local_ipv6 == cfg.daemon.local_ipv6
            &&& cfg.daemon.cluster_id matches Some(c) ==> t.rib.cluster_id == c
            &&& cfg.daemon.cluster_id is None ==> t.rib.cluster_id == cfg.daemon.bgp_id.bits
            &&& t.rib.loc_rib.dom().is_empty() && t.rib.loc_rib_v6.dom().is_empty()
            &&& t.rib.originated_routes.dom().is_empty() && t.rib.originated_routes_v6.dom().is_empty()
            &&& t.rib.peer_types.dom().is_empty()
            &&& t.selection_deferral.v4_released && t.selection_deferral.v6_released
            &&& t.selection_deferral.deadline is None
            &&& t.fib_manager is None
            &&& t.pending_removal.is_empty()
            &&& t.max_prefix_idle.dom().is_empty()
            &&& t.gr.deadlines.dom().is_empty()
            &&& r.sessions@.len() == cfg.peers@.len()
        }),
        0 <= i < cfg.peers@.len() ==> {
            let s = r.sessions@[i];
            let e = cfg.peers@[i];
            &&& s.peer_addr == e.address && s.peer_port == e.port && s.peer_as == e.remote_as
            &&& s.local_as == cfg.daemon.local_as && s.local_bgp_id == cfg.daemon.bgp_id
            &&& e.hold_time matches Some(h) ==> s.hold_time == h
            &&& e.hold_time is None ==> s.hold_time == cfg.daemon.hold_time
            &&& e.connect_retry_time matches Some(c) ==> s.connect_retry_time == c
            &&& e.connect_retry_time is None ==> s.connect_retry_time == 120
            &&& s.md5_password is Some <==> e.md5_password is Some
            &&& e.md5_password matches Some(k) ==> s.md5_password->0@ == k@
        },
{
    let peers = cfg.peers@;
    let s = DaemonView::initial(
        cfg.daemon.local_as,
        cfg.daemon.bgp_id,
        cfg.daemon.local_ipv6,
        match cfg.daemon.cluster_id {
            Some(c) => c,
            None => cfg.daemon.bgp_id.bits,
        },
        crate::state::clients_of(peers, cfg.daemon.local_as),
        addresses_of(peers),
        r.state@.config_capabilities,
    );
    entries_keep_identity(s, peers);
    if 0 <= i < peers.len() {
        let x = r.sessions@[i];
        assert(configured_session(
            x,
            crate::control::spawn_config_of(cfg.daemon, now),
            peers[i],
            now,
        ));
        assert(text(x.md5_password) == text(peers[i].md5_password));
    }
}

/// Bits of the flags that are advertised.
proof fn advertised_bits()
    ensures
        0u8 & 8 == 0,
        0u8 & 4 == 0,
        4u8 & 8 == 0,
        4u8 & 4 == 4,
        12u8 & 8 == 8,
        12u8 & 4 == 4,
{
    assert(0u8 & 8 == 0) by (bit_vector);
    assert(0u8 & 4 == 0) by (bit_vector);
    assert(4u8 & 8 == 0) by (bit_vector);
    assert(4u8 & 4 == 4) by (bit_vector);
    assert(12u8 & 8 == 8) by (bit_vector);
    assert(12u8 & 4 == 4) by (bit_vector);
}

/// Whether the local speaker is in its restart window: the operator says so, and less time has passed
/// since the start than the restart time.
pub open spec fn within_window(cfg: SpawnConfig, now: Instant) -> bool {
    &&& cfg.configured_restarting
    &&& cfg.graceful_restart_time > 0
    &&& now.nanos < cfg.startup_instant.nanos + cfg.graceful_restart_time * 1_000_000_000
}

/// What a session offers: both families, route refresh, numbers of four octets with the local one,
/// extended messages, one offer of a restart and the role that is configured, if one is. The restart offer
/// has the restart time as far as it fits, the notification flag where there is a time, the restart flag
/// within the window, and both families where there is a time, their routes kept outside of the window.
pub proof fn sessions_offer_what_is_configured(
    s: SessionConfig,
    cfg: SpawnConfig,
    peer: PeerConfig,
    now: Instant,
    i: int,
)
    requires
        configured_session(s, cfg, peer, now),
    ensures
        ({
            let caps = s.capabilities@;
            let time = cfg.graceful_restart_time;
            &&& caps.contains(Capability::MultiProtocol(AfiSafi { afi: 1, safi: 1 }))
            &&& caps.contains(Capability::MultiProtocol(AfiSafi { afi: 2, safi: 1 }))
            &&& caps.contains(Capability::RouteRefresh)
            &&& caps.contains(Capability::FourByteAsn(cfg.local_as))
            &&& caps.contains(Capability::ExtendedMessage)
            &&& exists|k: int| 0 <= k < caps.len() && (#[trigger] caps[k]) is GracefulRestart
            &&& 0 <= i < caps.len() ==> {
                &&& !(caps[i] is Unknown)
                &&& caps[i] matches Capability::FourByteAsn(x) ==> x == cfg.local_as
                &&& caps[i] matches Capability::Role(x) ==> match peer.role {
                    Some(PeerRole::Provider) => x is Provider,
                    Some(PeerRole::RouteServer) => x is RouteServer,
                    Some(PeerRole::RsClient) => x is RsClient,
                    Some(PeerRole::Customer) => x is Customer,
                    Some(PeerRole::Peer) => x is Peer,
                    None => false,
                }
                &&& caps[i] is GracefulRestart ==> {
                    &&& time <= 4095 ==> caps[i]->restart_time == time
                    &&& time > 4095 ==> caps[i]->restart_time == 4095
                    &&& caps[i]->restart_flags & 8 == 8 <==> within_window(cfg, now)
                    &&& caps[i]->restart_flags & 4 == 4 <==> time > 0
                    &&& time == 0 ==> caps[i]->families@.len() == 0
                    &&& time > 0 ==> {
                        let f = caps[i]->families@;
                        &&& f.len() == 2
                        &&& f[0].afi_safi == (AfiSafi { afi: 1, safi: 1 })
                        &&& f[1].afi_safi == (AfiSafi { afi: 2, safi: 1 })
                        &&& f[0].forwarding_preserved == !within_window(cfg, now)
                        &&& f[1].forwarding_preserved == !within_window(cfg, now)
                    }
                }
            }
            &&& peer.role is Some <==> exists|k: int| 0 <= k < caps.len() && (#[trigger] caps[k]) is Role
        }),
{
    advertised_bits();
    let caps = s.capabilities@;
    assert(caps[0] is MultiProtocol && caps[1] is MultiProtocol);
    assert(caps[2] is RouteRefresh && caps[3] is FourByteAsn);
    assert(caps[4] is ExtendedMessage && caps[5] is GracefulRestart);
    if peer.role is Some {
        assert(caps[6] is Role);
    }
    assert(cfg.in_window(now) == within_window(cfg, now));
}

/// What becomes of a command to remove a peer: a peer that is not configured is left alone, and no session
/// is closed; else the peer is to go, and where it has a session that is closed, with the reason that is
/// configured for it if one is.
pub proof fn removal_begins(
    before: DaemonView,
    p: IpAddr,
    has_session: bool,
    after: DaemonView,
    r: RemoveVerdict,
)
    requires
        leaving_outcome(before, p, has_session, after, r),
    ensures
        !before.adj_ribs_in.contains_key(p) ==> r is NotConfigured && after == before,
        before.adj_ribs_in.contains_key(p) ==> {
            &&& after.pending_removal == before.pending_removal.insert(p)
            &&& after == (DaemonView { pending_removal: after.pending_removal, ..before })
            &&& !has_session ==> r is AlreadyOver
            &&& has_session && before.shutdown_messages.contains_key(p) ==> r is Shutdown
                && r->Shutdown_0@ == before.shutdown_messages[p]
            &&& has_session && !before.shutdown_messages.contains_key(p) ==> r is Stop
        },
{
}

/// A session is started for a new peer just where configuring it has an effect; a peer that is being
/// removed is told apart from one that stays as it is.
pub proof fn start_means_new(
    s: DaemonView,
    e: PeerConfig,
    cfg: SpawnConfig,
    now: Instant,
    v: AddVerdict,
    after: DaemonView,
    r: bool,
)
    requires
        joining_outcome(s, e, cfg, now, v),
        addition_outcome(s, e, after, r),
    ensures
        v is Start <==> r,
        v is Start ==> v->Start_0.peer_addr == e.address && v->Start_0.peer_as == e.remote_as,
        v is Start <==> !s.adj_ribs_in.contains_key(e.address),
        v is TeardownInProgress <==> s.adj_ribs_in.contains_key(e.address) && s.pending_removal.contains(
            e.address,
        ),
        v is AlreadyConfigured <==> s.adj_ribs_in.contains_key(e.address)
            && !s.pending_removal.contains(e.address),
{
}

/// What dropping a peer leaves: nothing about it, and everything about the others as it was.
pub proof fn dropped_peer_leaves_nothing(before: DaemonView, p: IpAddr, after: DaemonView, r: bool)
    requires
        removal_outcome(before, p, after, r),
    ensures
        r <==> before.adj_ribs_in.contains_key(p),
        !r ==> after == before,
        r ==> {
            &&& after.rib.peer_remote_as == before.rib.peer_remote_as.remove(p)
            &&& after.rib.peer_types == before.rib.peer_types.remove(p)
            &&& after.rib.established_at == before.rib.established_at.remove(p)
            &&& after.rib.hold_times == before.rib.hold_times.remove(p)
            &&& after.rib.prefixes_received == before.rib.prefixes_received.remove(p)
            &&& after.rib.prefixes_advertised == before.rib.prefixes_advertised.remove(p)
            &&& after.rib.local_addrs == before.rib.local_addrs.remove(p)
            &&& after.rib.peer_bgp_ids == before.rib.peer_bgp_ids.remove(p)
            &&& after.rib.next_hop_self_peers == before.rib.next_hop_self_peers.remove(p)
            &&& after.rib.gr_capable_peers == before.rib.gr_capable_peers.remove(p)
            &&& after.rib.gr_peer_restarting == before.rib.gr_peer_restarting.remove(p)
            &&& after.rib.eor_received == before.rib.eor_received.remove(p)
            &&& after.rib.eor_received_v6 == before.rib.eor_received_v6.remove(p)
            &&& after.gr.deadlines == before.gr.deadlines.remove(p)
            &&& after.gr.stale_nlri == before.gr.stale_nlri.remove(p)
            &&& after.gr.stale_nlri_v6 == before.gr.stale_nlri_v6.remove(p)
            &&& after.gr.peer_families == before.gr.peer_families.remove(p)
            &&& after.gr.notification_capable_peers == before.gr.notification_capable_peers.remove(p)
            &&& after.import_policies == before.import_policies.remove(p)
            &&& after.import_policies_v6 == before.import_policies_v6.remove(p)
            &&& after.export_policies == before.export_policies.remove(p)
            &&& after.export_policies_v6 == before.export_policies_v6.remove(p)
            &&& after.adj_ribs_in == before.adj_ribs_in.remove(p)
            &&& after.adj_ribs_in_v6 == before.adj_ribs_in_v6.remove(p)
            &&& after.adj_ribs_out == before.adj_ribs_out.remove(p)
            &&& after.adj_ribs_out_v6 == before.adj_ribs_out_v6.remove(p)
            &&& after.peer_config_types == before.peer_config_types.remove(p)
            &&& after.update_senders == before.update_senders.remove(p)
            &&& after.negotiated_max_len == before.negotiated_max_len.remove(p)
            &&& after.ipv6_capable_peers == before.ipv6_capable_peers.remove(p)
            &&& after.four_byte_peers == before.four_byte_peers.remove(p)
            &&& after.route_refresh_peers == before.route_refresh_peers.remove(p)
            &&& after.mrai_last_sent == before.mrai_last_sent.remove(p)
            &&& after.mrai_pending == before.mrai_pending.remove(p)
            &&& after.pending_decisions == before.pending_decisions.remove(p)
            &&& after.pending_decisions_v6 == before.pending_decisions_v6.remove(p)
            &&& after.pending_removal == before.pending_removal.remove(p)
            &&& after.shutdown_messages == before.shutdown_messages.remove(p)
            &&& after.peer_max_prefixes_v4 == before.peer_max_prefixes_v4.remove(p)
            &&& after.peer_max_prefixes_v6 == before.peer_max_prefixes_v6.remove(p)
            &&& after.peer_max_prefixes_restart == before.peer_max_prefixes_restart.remove(p)
            &&& after.max_prefix_idle == before.max_prefix_idle.remove(p)
            &&& after.rib.loc_rib == before.rib.loc_rib && after.rib.loc_rib_v6 == before.rib.loc_rib_v6
            &&& after.rib.originated_routes == before.rib.originated_routes
            &&& after.rib.originated_routes_v6 == before.rib.originated_routes_v6
            &&& after.rib.local_as == before.rib.local_as
            &&& after.rib.local_bgp_id == before.rib.local_bgp_id
            &&& after.rib.local_ipv6 == before.rib.local_ipv6
            &&& after.rib.rr_clients == before.rib.rr_clients
            &&& after.rib.cluster_id == before.rib.cluster_id
            &&& after.config_capabilities == before.config_capabilities
            &&& after.stalled_peers == before.stalled_peers
            &&& after.fib_manager == before.fib_manager
            &&& after.selection_deferral == before.selection_deferral
        },
{
}

/// A peer that announced too many prefixes is kept out for just as long as is configured, and one for
/// which no time is configured is not kept out by that.
pub proof fn peer_over_its_limit_is_kept_out(
    before: DaemonView,
    p: IpAddr,
    msg: UpdateView,
    now: Instant,
    after: DaemonView,
    notification: Option<NotificationMessage>,
    work: Option<WorkView>,
    later: Instant,
)
    requires
        update_outcome(before, p, msg, now, after, notification, work),
        is_processed(before, p, msg),
        before.adj_ribs_in_v6.contains_key(p),
        notification is Some,
        notification->0.error == NotificationError::Cease(CeaseError::MaximumNumberOfPrefixesReached),
        before.peer_max_prefixes_restart.contains_key(p) ==> now.has_room(
            before.peer_max_prefixes_restart[p],
        ),
    ensures
        before.peer_max_prefixes_restart.contains_key(p) ==> (after.lets_in(p, later) <==> later.nanos
            >= now.nanos + before.peer_max_prefixes_restart[p] * 1_000_000_000),
        !before.peer_max_prefixes_restart.contains_key(p) ==> after.lets_in(p, later) == before.lets_in(
            p,
            later,
        ),
        !before.max_prefix_idle.contains_key(p) ==> before.lets_in(p, later),
{
    limits_hold_for_both_families(before, p, msg, now, after, notification, work);
}

/// What sessions are told after an event: the error, to the peer that it is for, then to stop, to each
/// peer that did not take what it was sent, in order.
pub proof fn orders_are_given(
    p: IpAddr,
    notification: Option<NotificationMessage>,
    stalled: Seq<IpAddr>,
    i: int,
)
    ensures
        ({
            let r = orders(p, notification, stalled);
            let k = if notification is Some {
                1int
            } else {
                0int
            };
            &&& r.len() == k + stalled.len()
            &&& notification matches Some(x) ==> r[0].peer == p && r[0].command
                == SessionCommand::Notification(x)
            &&& 0 <= i < stalled.len() ==> r[k + i].peer == stalled[i] && r[k + i].command is Stop
        }),
{
}

/// A session that the peer closed with a NOTIFICATION counts as a lost connection just where the peer
/// keeps routes over one, the local speaker offers a restart time, and no hard reset is asked for.
pub proof fn notification_counts_as_loss(s: DaemonView, p: IpAddr, hard_reset: bool)
    ensures
        s.closing_reason(p, hard_reset) == TerminationReason::Unclean <==> {
            &&& s.gr.notification_capable_peers.contains(p)
            &&& !hard_reset
            &&& exists|i: int|
                0 <= i < s.config_capabilities.len() && (#[trigger] s.config_capabilities[i])
                    is GracefulRestart && s.config_capabilities[i]->restart_time > 0
        },
        s.closing_reason(p, hard_reset) == TerminationReason::Clean || s.closing_reason(p, hard_reset)
            == TerminationReason::Unclean,
{
    let caps = s.config_capabilities;
    offer_is_found(caps, 0);
}

/// An offer is found where there is one.
proof fn offer_is_found(caps: Seq<Capability>, k: int)
    requires
        0 <= k <= caps.len(),
    ensures
        crate::capabilities::first_offer(caps, k) is Some <==> exists|i: int|
            k <= i < caps.len() && (#[trigger] caps[i]) is GracefulRestart && caps[i]->restart_time > 0,
    decreases caps.len() - k,
{
    if k < caps.len() && !(caps[k] is GracefulRestart && caps[k]->restart_time > 0) {
        offer_is_found(caps, k + 1);
    }
}

} // verus!
