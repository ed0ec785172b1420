//! Configuration of the daemon, and the list of peers that were added while it ran.
use std::path::PathBuf;

use vstd::prelude::*;

use crate::message::{PeerType, Role};
use crate::net::{IpAddr, Ipv4Addr, Ipv6Addr};
use crate::rib::DefaultAction;

verus! {

/// A path in the file system (`std::path::PathBuf`). Nothing is claimed of what it holds.
#[verifier::external_type_specification]
#[verifier::external_body]
pub struct ExPathBuf(PathBuf);

/// The whole configuration.
pub struct Config {
    pub daemon: DaemonConfig,
    pub peers: Vec<PeerConfig>,
    /// Where peers that are added at run time are kept, if anywhere.
    pub sidecar_path: Option<PathBuf>,
}

/// What concerns the daemon as a whole.
pub struct DaemonConfig {
    pub local_as: u32,
    pub bgp_id: Ipv4Addr,
    /// The hold time in seconds for peers that have none of their own.
    pub hold_time: u16,
    /// The TCP port of the management interface.
    pub grpc_port: u16,
    /// The TCP port of the metrics endpoint; there is none without it.
    pub metrics_port: Option<u16>,
    /// The TCP port on which BGP connections are taken.
    pub bgp_port: u16,
    /// The next hop in IPv6 routes to external peers; without it they get none.
    pub local_ipv6: Option<Ipv6Addr>,
    /// The cluster of a route reflector; `bgp_id` stands in for it.
    pub cluster_id: Option<u32>,
    /// The kernel routing table that routes go to.
    pub fib_table: u32,
    /// The metric of installed routes.
    pub fib_metric: u32,
    /// For how many seconds peers are to keep our routes when a session drops.
    pub graceful_restart_time: u16,
    /// Whether this run follows an interrupted one.
    pub restarting: bool,
    pub rpki: Option<RpkiConfig>,
}

/// How to reach a server of route origin data.
#[derive(Clone)]
pub struct RpkiConfig {
    pub host: String,
    pub port: u16,
    /// Whether routes with an invalid origin are rejected.
    pub reject_invalid: bool,
}

/// The port of the route origin server, where none is configured.
pub fn default_rtr_port() -> (r: u16)
    ensures
        r == 3323,
{
    3323
}

/// Whether routes with an invalid origin are rejected, where nothing is configured.
pub fn default_true() -> (r: bool)
    ensures
        r,
{
    true
}

/// The kernel routing table, where none is configured: the main one.
pub fn default_fib_table() -> (r: u32)
    ensures
        r == 254,
{
    254
}

/// The metric of installed routes, where none is configured.
pub fn default_fib_metric() -> (r: u32)
    ensures
        r == 20,
{
    20
}

/// The hold time in seconds, where none is configured.
pub fn default_hold_time() -> (r: u16)
    ensures
        r == 90,
{
    90
}

/// The port of the management interface, where none is configured.
pub fn default_grpc_port() -> (r: u16)
    ensures
        r == 50051,
{
    50051
}

/// The port on which BGP connections are taken, where none is configured.
pub fn default_bgp_listen_port() -> (r: u16)
    ensures
        r == 179,
{
    179
}

/// The port of a peer, where none is configured.
pub fn default_bgp_port() -> (r: u16)
    ensures
        r == 179,
{
    179
}

/// What becomes of received routes that no import policy term decides.
#[derive(Clone, Copy, Debug, PartialEq, Eq, Structural)]
pub enum ImportDefault {
    Accept,
    Reject,
}

/// What becomes of best routes that no export policy term decides.
#[derive(Clone, Copy, Debug, PartialEq, Eq, Structural)]
pub enum ExportDefault {
    Accept,
    Reject,
}

/// The part that the local speaker plays on a session, as configured.
#[derive(Clone, Copy, Debug, PartialEq, Eq, Structural)]
pub enum PeerRole {
    Provider,
    RouteServer,
    RsClient,
    Customer,
    Peer,
}

impl From<ImportDefault> for DefaultAction {
    fn from(d: ImportDefault) -> (r: Self) {
        match d {
            ImportDefault::Accept => DefaultAction::Accept,
            ImportDefault::Reject => DefaultAction::Reject,
        }
    }
}

impl vstd::std_specs::convert::FromSpecImpl<ImportDefault> for DefaultAction {
    open spec fn obeys_from_spec() -> bool {
        true
    }

    open spec fn from_spec(d: ImportDefault) -> Self {
        match d {
            ImportDefault::Accept => DefaultAction::Accept,
            ImportDefault::Reject => DefaultAction::Reject,
        }
    }
}

impl From<ExportDefault> for DefaultAction {
    fn from(d: ExportDefault) -> (r: Self) {
        match d {
            ExportDefault::Accept => DefaultAction::Accept,
            ExportDefault::Reject => DefaultAction::Reject,
        }
    }
}

impl vstd::std_specs::convert::FromSpecImpl<ExportDefault> for DefaultAction {
    open spec fn obeys_from_spec() -> bool {
        true
    }

    open spec fn from_spec(d: ExportDefault) -> Self {
        match d {
            ExportDefault::Accept => DefaultAction::Accept,
            ExportDefault::Reject => DefaultAction::Reject,
        }
    }
}

impl From<PeerRole> for Role {
    fn from(d: PeerRole) -> (r: Self) {
        match d {
            PeerRole::Provider => Role::Provider,
            PeerRole::RouteServer => Role::RouteServer,
            PeerRole::RsClient => Role::RsClient,
            PeerRole::Customer => Role::Customer,
            PeerRole::Peer => Role::Peer,
        }
    }
}

impl vstd::std_specs::convert::FromSpecImpl<PeerRole> for Role {
    open spec fn obeys_from_spec() -> bool {
        true
    }

    open spec fn from_spec(d: PeerRole) -> Self {
        match d {
            PeerRole::Provider => Role::Provider,
            PeerRole::RouteServer => Role::RouteServer,
            PeerRole::RsClient => Role::RsClient,
            PeerRole::Customer => Role::Customer,
            PeerRole::Peer => Role::Peer,
        }
    }
}

/// What concerns one peer.
#[derive(Clone)]
pub struct PeerConfig {
    pub address: IpAddr,
    pub port: u16,
    pub remote_as: u32,
    /// What becomes of IPv4 routes that no import term decides.
    pub import_default: Option<ImportDefault>,
    /// What becomes of IPv6 routes that no import term decides; `import_default` stands in for it.
    pub import_default_v6: Option<ImportDefault>,
    /// What becomes of routes that no export term decides.
    pub export_default: Option<ExportDefault>,
    /// The key of the TCP connection.
    pub md5_password: Option<String>,
    /// Whether routes are reflected to and from this peer.
    pub is_rr_client: bool,
    /// Whether internal routes go to this peer with the local address as next hop.
    pub next_hop_self: bool,
    /// The hold time in seconds, where it is not that of the daemon.
    pub hold_time: Option<u16>,
    /// The reason that the peer is given when it is removed.
    pub shutdown_message: Option<String>,
    /// Seconds between attempts to connect.
    pub connect_retry_time: Option<u16>,
    /// The most IPv4 prefixes that are taken from the peer.
    pub max_prefixes_v4: Option<u32>,
    /// The most IPv6 prefixes that are taken from the peer.
    pub max_prefixes_v6: Option<u32>,
    /// Seconds before the peer may connect again after it sent too many prefixes.
    pub max_prefixes_restart: Option<u16>,
    pub role: Option<PeerRole>,
}

/// The default action of a policy: what is configured, else `Reject` for an external
/// peer and `Accept` for an internal one.
pub open spec fn resolved(explicit: Option<DefaultAction>, is_ebgp: bool) -> DefaultAction {
    match explicit {
        Some(d) => d,
        None => if is_ebgp {
            DefaultAction::Reject
        } else {
            DefaultAction::Accept
        },
    }
}

/// An import setting as an action.
pub open spec fn import_action(opt: Option<ImportDefault>) -> Option<DefaultAction> {
    match opt {
        Some(ImportDefault::Accept) => Some(DefaultAction::Accept),
        Some(ImportDefault::Reject) => Some(DefaultAction::Reject),
        None => None,
    }
}

/// An export setting as an action.
pub open spec fn export_action(opt: Option<ExportDefault>) -> Option<DefaultAction> {
    match opt {
        Some(ExportDefault::Accept) => Some(DefaultAction::Accept),
        Some(ExportDefault::Reject) => Some(DefaultAction::Reject),
        None => None,
    }
}

/// The default action of a peer's import policy.
pub fn resolve_import_default(opt: Option<ImportDefault>, is_ebgp: bool) -> (r: DefaultAction)
    ensures
        r == resolved(import_action(opt), is_ebgp),
{
    match opt {
        Some(d) => DefaultAction::from(d),
        None => if is_ebgp {
            DefaultAction::Reject
        } else {
            DefaultAction::Accept
        },
    }
}

/// The default action of a peer's export policy.
pub fn resolve_export_default(opt: Option<ExportDefault>, is_ebgp: bool) -> (r: DefaultAction)
    ensures
        r == resolved(export_action(opt), is_ebgp),
{
    match opt {
        Some(d) => DefaultAction::from(d),
        None => if is_ebgp {
            DefaultAction::Reject
        } else {
            DefaultAction::Accept
        },
    }
}

/// The kind of a peer: internal where it has the local number.
pub open spec fn kind_of_peer(local_as: u32, remote_as: u32) -> PeerType {
    if local_as == remote_as {
        PeerType::Internal
    } else {
        PeerType::External
    }
}

/// The kind of a peer: internal where it has the local number.
pub fn config_peer_type(local_as: u32, remote_as: u32) -> (r: PeerType)
    ensures
        r == kind_of_peer(local_as, remote_as),
{
    if local_as == remote_as {
        PeerType::Internal
    } else {
        PeerType::External
    }
}

impl PeerConfig {
    /// The import setting for IPv6 routes: its own, else that for IPv4 routes.
    pub open spec fn import_v6_setting(self) -> Option<ImportDefault> {
        match self.import_default_v6 {
            Some(d) => Some(d),
            None => self.import_default,
        }
    }

    /// The import setting for IPv6 routes.
    pub fn import_setting_v6(&self) -> (r: Option<ImportDefault>)
        ensures
            r == self.import_v6_setting(),
    {
        match self.import_default_v6 {
            Some(d) => Some(d),
            None => self.import_default,
        }
    }
}

/// The peers in a list that have another address, in order.
pub open spec fn others(s: Seq<PeerConfig>, address: IpAddr) -> Seq<PeerConfig>
    decreases s.len(),
{
    if s.len() == 0 {
        Seq::empty()
    } else if s.last().address != address {
        others(s.drop_last(), address).push(s.last())
    } else {
        others(s.drop_last(), address)
    }
}

/// A list of peers after one has been added, in place of an earlier one with its address.
pub open spec fn upserted(s: Seq<PeerConfig>, peer: PeerConfig) -> Seq<PeerConfig> {
    others(s, peer.address).push(peer)
}

/// What was found where peers are kept.
pub enum SidecarFound {
    /// A list of peers.
    Peers(Vec<PeerConfig>),
    /// A file that holds something else.
    Malformed,
    /// No file.
    Absent,
    /// A file that cannot be read.
    Unreadable,
}

/// The list of peers that were added while the daemon ran. It is kept in a file, so that they are
/// there again after a restart; the list is changed here, the file read and written by the caller.
pub struct DynamicPeerStore {
    path: PathBuf,
}

impl DynamicPeerStore {
    /// Where the list is kept.
    pub closed spec fn location(&self) -> PathBuf {
        self.path
    }

    /// A list that is kept at `path`.
    pub fn new(path: PathBuf) -> (r: Self)
        ensures
            r.location() == path,
    {
        DynamicPeerStore { path }
    }

    /// Where the list is kept.
    pub fn path(&self) -> (r: &PathBuf)
        ensures
            *r == self.location(),
    {
        &self.path
    }

    /// The list, given what was found where it is kept: no peers, where that is not a list.
    pub fn load(&self, found: SidecarFound) -> (r: Vec<PeerConfig>)
        ensures
            match found {
                SidecarFound::Peers(v) => r@ == v@,
                _ => r@ == Seq::<PeerConfig>::empty(),
            },
    {
        match found {
            SidecarFound::Peers(v) => v,
            SidecarFound::Malformed => Vec::new(),
            SidecarFound::Absent => Vec::new(),
            SidecarFound::Unreadable => Vec::new(),
        }
    }

    /// The list with a peer added, in place of an earlier one with its address.
    pub fn upsert(&self, peers: Vec<PeerConfig>, peer: PeerConfig) -> (r: Vec<PeerConfig>)
        ensures
            r@ == upserted(peers@, peer),
    {
        let mut r = self.remove(peers, peer.address);
        r.push(peer);
        r
    }

    /// The list without the peers that have an address.
    pub fn remove(&self, peers: Vec<PeerConfig>, address: IpAddr) -> (r: Vec<PeerConfig>)
        ensures
            r@ == others(peers@, address),
    {
        let ghost all = peers@;
        let ghost mut seen: int = 0;
        let mut peers = peers;
        let mut kept: usize = 0;
        assert(all.skip(0) =~= all);
        assert(others(all.take(0), address) + all =~= all);
        while kept < peers.len()
            invariant
                0 <= kept <= peers.len(),
                0 <= seen <= all.len(),
                kept == others(all.take(seen), address).len(),
                peers@ == others(all.take(seen), address) + all.skip(seen),
            decreases peers.len() - kept,
        {
            proof {
                assert(peers@[kept as int] == all[seen]);
                assert(all.take(seen + 1).drop_last() =~= all.take(seen));
                assert(all.take(seen + 1).last() == all[seen]);
            }
            let ghost front = others(all.take(seen), address);
            if peers[kept].address == address {
                let _ = peers.remove(kept);
                assert(peers@ =~= front + all.skip(seen + 1));
            } else {
                kept = kept + 1;
                assert(peers@ =~= front.push(all[seen]) + all.skip(seen + 1));
            }
            proof {
                seen = seen + 1;
            }
        }
        proof {
            assert(all.skip(seen).len() == 0);
            assert(all.take(seen) =~= all);
            assert(peers@ =~= others(all, address));
        }
        peers
    }
}

/// Whether no address occurs twice in a list of peers.
pub open spec fn distinct_addresses(s: Seq<PeerConfig>) -> bool {
    forall|i: int, j: int| 0 <= i < j < s.len() ==> (#[trigger] s[i]).address != (#[trigger] s[j]).address
}

/// What is left without an address: only peers of the list, none with the address, every one with
/// another address, and in their order.
pub proof fn others_are_the_rest(s: Seq<PeerConfig>, address: IpAddr)
    ensures
        forall|i: int|
            0 <= i < others(s, address).len() ==> {
                &&& (#[trigger] others(s, address)[i]).address != address
                &&& s.contains(others(s, address)[i])
            },
        forall|p: PeerConfig|
            s.contains(p) && p.address != address ==> #[trigger] others(s, address).contains(p),
        distinct_addresses(s) ==> distinct_addresses(others(s, address)),
        others(s, address).len() <= s.len(),
    decreases s.len(),
{
    if s.len() > 0 {
        let t = s.drop_last();
        let o = others(t, address);
        let r = others(s, address);
        others_are_the_rest(t, address);
        assert forall|i: int| 0 <= i < r.len() implies {
            &&& (#[trigger] r[i]).address != address
            &&& s.contains(r[i])
        } by {
            if i < o.len() {
                assert(r[i] == o[i]);
                let k = t.index_of(o[i]);
                assert(s[k] == r[i]);
            } else {
                assert(s[s.len() - 1] == r[i]);
            }
        }
        assert forall|p: PeerConfig| s.contains(p) && p.address != address implies #[trigger] r.contains(
            p,
        ) by {
            let k = s.index_of(p);
            if k < t.len() {
                assert(t[k] == p);
                let j = o.index_of(p);
                assert(o.contains(p));
                assert(r[j] == p);
            } else {
                assert(r[o.len() as int] == p);
            }
        }
        if distinct_addresses(s) {
            assert(distinct_addresses(t)) by {
                assert forall|i: int, j: int| 0 <= i < j < t.len() implies (#[trigger] t[i]).address
                    != (#[trigger] t[j]).address by {
                    assert(s[i].address != s[j].address);
                }
            }
            assert forall|i: int, j: int| 0 <= i < j < r.len() implies (#[trigger] r[i]).address != (
            #[trigger] r[j]).address by {
                if j < o.len() {
                    assert(o[i].address != o[j].address);
                } else {
                    let k = t.index_of(o[i]);
                    assert(t.contains(o[i]));
                    assert(s[k] == o[i]);
                    assert(s[k].address != s[s.len() - 1].address);
                }
            }
        }
    }
}

/// Adding a peer again changes nothing, and keeps each address to one entry.
pub proof fn upsert_is_idempotent(s: Seq<PeerConfig>, peer: PeerConfig)
    ensures
        upserted(upserted(s, peer), peer) == upserted(s, peer),
        distinct_addresses(s) ==> distinct_addresses(upserted(s, peer)),
        upserted(s, peer).last() == peer,
{
    let o = others(s, peer.address);
    let u = upserted(s, peer);
    others_are_the_rest(s, peer.address);
    assert(u.drop_last() =~= o);
    others_of_others(s, peer.address);
    if distinct_addresses(s) {
        assert forall|i: int, j: int| 0 <= i < j < u.len() implies (#[trigger] u[i]).address != (
        #[trigger] u[j]).address by {
            assert(u[i] == o[i]);
            if j < o.len() {
                assert(u[j] == o[j]);
            }
        }
    }
}

/// Taking an address out again changes nothing.
pub proof fn others_of_others(s: Seq<PeerConfig>, address: IpAddr)
    ensures
        others(others(s, address), address) == others(s, address),
    decreases s.len(),
{
    if s.len() > 0 {
        let t = s.drop_last();
        others_of_others(t, address);
        if s.last().address != address {
            assert(others(s, address).drop_last() =~= others(t, address));
        }
    }
}

/// Taking out an address that is not there changes nothing.
pub proof fn remove_unknown_is_noop(s: Seq<PeerConfig>, address: IpAddr)
    requires
        forall|i: int| 0 <= i < s.len() ==> (#[trigger] s[i]).address != address,
    ensures
        others(s, address) == s,
    decreases s.len(),
{
    if s.len() > 0 {
        let t = s.drop_last();
        assert forall|i: int| 0 <= i < t.len() implies (#[trigger] t[i]).address != address by {
            assert(s[i].address != address);
        }
        remove_unknown_is_noop(t, address);
        assert(others(s, address) =~= s);
    }
}

/// Removing a peer that was just added leaves the list as it was, less the peer's address.
pub proof fn remove_undoes_upsert(s: Seq<PeerConfig>, peer: PeerConfig)
    ensures
        others(upserted(s, peer), peer.address) == others(s, peer.address),
{
    assert(upserted(s, peer).drop_last() =~= others(s, peer.address));
    others_of_others(s, peer.address);
}

/// An explicit setting always wins; without one an external peer is rejected and an internal one
/// accepted.
pub proof fn explicit_default_wins(action: DefaultAction, is_ebgp: bool)
    ensures
        resolved(Some(action), is_ebgp) == action,
        resolved(None, true) == DefaultAction::Reject,
        resolved(None, false) == DefaultAction::Accept,
{
}

} // verus!
