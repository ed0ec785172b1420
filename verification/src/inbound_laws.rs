//! What becomes of UPDATEs, put in terms of the UPDATE as it came and of the state that it leaves.
use vstd::prelude::*;

use crate::clock::Instant;
use crate::inbound::update_outcome;
use crate::message::{
    CeaseError, NotificationError, NotificationMessage, PathAttribute, PeerType, UpdateMsgError,
    UpdateView,
};
use crate::net::{IpAddr, Ipv4Addr, Ipv6Addr, NextHop, Nlri};
use crate::reflection::{
    has_originator, marker, reflected, returned, with_cluster, with_originator, EndOfRib,
};
use crate::rib::RibOp;
use crate::route::{Attributes, Route};
use crate::state::{get_or, DaemonView, RibView};
use crate::update::{
    effective_withdrawals, effective_withdrawals_v6, mp_announced, mp_mentioned, reached_by,
    unreached_by, Family,
};
use crate::update_laws::{
    announced_members, brings_v4, brings_v6, has_next_hop, has_origin, has_path, incomplete,
    incomplete_update_is_answered, listed_v4, listed_v6, offers_v4, offers_v6, op_about, reaches_v4,
    reaches_v6, unreaches_v4, unreaches_v6, update_asks_for_its_own_v4, update_asks_for_its_own_v6,
    update_settles_each_prefix_v4, update_settles_each_prefix_v6, usable, withdraws_v4,
    withdraws_v6,
};
use crate::work::WorkView;

verus! {

/// Whether an attribute is part of the record that reflectors keep.
pub open spec fn is_record(a: PathAttribute) -> bool {
    a is OriginatorId || a is ClusterList
}

/// Whether two lists of attributes differ in the record of reflectors alone.
pub open spec fn same_but_record(s: Seq<PathAttribute>, r: Seq<PathAttribute>) -> bool {
    &&& s.len() <= r.len()
    &&& forall|i: int|
        0 <= i < s.len() ==> (#[trigger] r[i]) == s[i] || (is_record(s[i]) && is_record(r[i]))
    &&& forall|i: int| s.len() <= i < r.len() ==> is_record(#[trigger] r[i])
}

/// Putting a cluster in front changes the record alone.
proof fn cluster_is_record(s: Seq<PathAttribute>, id: u32)
    ensures
        same_but_record(s, with_cluster(s, id)),
        forall|i: int|
            0 <= i < s.len() && !((#[trigger] s[i]) is ClusterList) ==> with_cluster(s, id)[i]
                == s[i],
        forall|i: int|
            0 <= i < with_cluster(s, id).len() && (i >= s.len() || with_cluster(s, id)[i] != s[i])
                ==> (#[trigger] with_cluster(s, id)[i]) is ClusterList,
    decreases s.len(),
{
    let r = with_cluster(s, id);
    if s.len() > 0 && !(s[0] is ClusterList) {
        let t = s.drop_first();
        cluster_is_record(t, id);
        let q = with_cluster(t, id);
        assert forall|i: int| 0 <= i < s.len() implies (#[trigger] r[i]) == s[i] || (is_record(s[i])
            && is_record(r[i])) by {
            if i > 0 {
                assert(t[i - 1] == s[i]);
                assert(r[i] == q[i - 1]);
            }
        }
        assert forall|i: int| s.len() <= i < r.len() implies is_record(#[trigger] r[i]) by {
            assert(r[i] == q[i - 1]);
        }
        assert forall|i: int| 0 <= i < s.len() && !((#[trigger] s[i]) is ClusterList) implies r[i]
            == s[i] by {
            if i > 0 {
                assert(t[i - 1] == s[i]);
                assert(r[i] == q[i - 1]);
            }
        }
        assert forall|i: int| 0 <= i < r.len() && (i >= s.len() || r[i] != s[i]) implies (
        #[trigger] r[i]) is ClusterList by {
            if i > 0 {
                assert(r[i] == q[i - 1]);
                if i < s.len() {
                    assert(t[i - 1] == s[i]);
                }
            }
        }
    }
}

/// Reflection changes the record alone.
proof fn reflection_is_record(s: Seq<PathAttribute>, cluster_id: u32, source_id: Ipv4Addr)
    ensures
        same_but_record(s, reflected(s, cluster_id, source_id)),
{
    let w = with_originator(s, source_id);
    let r = reflected(s, cluster_id, source_id);
    cluster_is_record(w, cluster_id);
    assert forall|i: int| 0 <= i < s.len() implies (#[trigger] r[i]) == s[i] || (is_record(s[i])
        && is_record(r[i])) by {
        assert(w[i] == s[i]);
    }
    assert forall|i: int| s.len() <= i < r.len() implies is_record(#[trigger] r[i]) by {
        if i < w.len() {
            assert(w[i] is OriginatorId);
        }
    }
}

/// Whether attributes agree on everything but the record of reflectors.
pub open spec fn agree_but_record(a: Attributes, b: Attributes) -> bool {
    &&& a.origin == b.origin
    &&& a.as_path == b.as_path
    &&& a.local_pref == b.local_pref
    &&& a.med == b.med
    &&& a.communities == b.communities
    &&& a.large_communities == b.large_communities
    &&& a.extended_communities == b.extended_communities
    &&& a.atomic_aggregate == b.atomic_aggregate
    &&& a.aggregator == b.aggregator
    &&& a.otc == b.otc
}

/// Lists that differ in the record alone amount to the same but for the record.
proof fn record_aside(s: Seq<PathAttribute>, r: Seq<PathAttribute>)
    requires
        same_but_record(s, r),
    ensures
        agree_but_record(Attributes::of(s), Attributes::of(r)),
    decreases r.len(),
{
    if r.len() > s.len() {
        assert(is_record(r[r.len() - 1]));
        record_aside(s, r.drop_last());
    } else if r.len() > 0 {
        let t = s.drop_last();
        let q = r.drop_last();
        assert forall|i: int| 0 <= i < t.len() implies (#[trigger] q[i]) == t[i] || (is_record(t[i])
            && is_record(q[i])) by {
            assert(r[i] == q[i]);
        }
        record_aside(t, q);
        assert(r[r.len() - 1] == s[s.len() - 1] || (is_record(s[s.len() - 1]) && is_record(
            r[r.len() - 1],
        )));
    }
}

/// UPDATEs that differ in the record alone say the same.
proof fn record_says_nothing(m: UpdateView, r: UpdateView, local_as: u32)
    requires
        r.withdrawn == m.withdrawn,
        r.announced == m.announced,
        same_but_record(m.attributes, r.attributes),
    ensures
        incomplete(r) == incomplete(m),
        has_origin(r) == has_origin(m),
        has_path(r) == has_path(m),
        has_next_hop(r) == has_next_hop(m),
        usable(r, local_as) == usable(m, local_as),
        agree_but_record(Attributes::of(m.attributes), Attributes::of(r.attributes)),
        Attributes::of(r.attributes).is_blackhole() == Attributes::of(m.attributes).is_blackhole(),
        forall|n: Nlri<Ipv4Addr>, nh: Option<NextHop>| offers_v4(r, n, nh) == offers_v4(m, n, nh),
        forall|n: Nlri<Ipv6Addr>, nh: Option<NextHop>| offers_v6(r, n, nh) == offers_v6(m, n, nh),
        forall|n: Nlri<Ipv4Addr>| withdraws_v4(r, n) == withdraws_v4(m, n),
        forall|n: Nlri<Ipv6Addr>| withdraws_v6(r, n) == withdraws_v6(m, n),
{
    let s = m.attributes;
    let q = r.attributes;
    record_aside(s, q);
    assert forall|i: int| 0 <= i < s.len() && !is_record(#[trigger] s[i]) implies q[i] == s[i] by {}
    assert forall|i: int| 0 <= i < q.len() && !is_record(#[trigger] q[i]) implies i < s.len() && q[i]
        == s[i] by {}
    assert(has_origin(r) == has_origin(m));
    assert(has_path(r) == has_path(m));
    assert(has_next_hop(r) == has_next_hop(m));
    assert forall|n: Nlri<Ipv4Addr>, nh: Option<NextHop>| offers_v4(r, n, nh) == offers_v4(m, n, nh) by {
        if offers_v4(m, n, nh) {
            record_offers_v4(m, r, n, nh);
        }
        if offers_v4(r, n, nh) {
            record_offers_v4_back(m, r, n, nh);
        }
    }
    assert forall|n: Nlri<Ipv6Addr>, nh: Option<NextHop>| offers_v6(r, n, nh) == offers_v6(m, n, nh) by {
        if offers_v6(m, n, nh) {
            let i = choose|i: int|
                0 <= i < s.len() && reaches_v6(#[trigger] s[i], n) && nh == Some(
                    s[i]->MpReachNlri_0.next_hop,
                );
            assert(reaches_v6(q[i], n));
        }
    }
    record_announces(m, r);
    assert(incomplete(r) == incomplete(m));
    assert forall|n: Nlri<Ipv4Addr>| withdraws_v4(r, n) == withdraws_v4(m, n) by {
        if exists|i: int| 0 <= i < s.len() && unreaches_v4(#[trigger] s[i], n) {
            let i = choose|i: int| 0 <= i < s.len() && unreaches_v4(#[trigger] s[i], n);
            assert(unreaches_v4(q[i], n));
        }
    }
    assert forall|n: Nlri<Ipv6Addr>| withdraws_v6(r, n) == withdraws_v6(m, n) by {
        if exists|i: int| 0 <= i < s.len() && unreaches_v6(#[trigger] s[i], n) {
            let i = choose|i: int| 0 <= i < s.len() && unreaches_v6(#[trigger] s[i], n);
            assert(unreaches_v6(q[i], n));
        }
    }
}

/// UPDATEs that differ in the record alone announce something or not.
proof fn record_announces(m: UpdateView, r: UpdateView)
    requires
        r.announced == m.announced,
        same_but_record(m.attributes, r.attributes),
    ensures
        crate::update_laws::announces(r) == crate::update_laws::announces(m),
{
    let s = m.attributes;
    let q = r.attributes;
    if exists|i: int, n: Nlri<Ipv4Addr>| 0 <= i < s.len() && #[trigger] reaches_v4(s[i], n) {
        let (i, n) = choose|i: int, n: Nlri<Ipv4Addr>|
            0 <= i < s.len() && #[trigger] reaches_v4(s[i], n);
        assert(q[i] == s[i]);
        assert(reaches_v4(q[i], n));
    }
    if exists|i: int, n: Nlri<Ipv6Addr>| 0 <= i < s.len() && #[trigger] reaches_v6(s[i], n) {
        let (i, n) = choose|i: int, n: Nlri<Ipv6Addr>|
            0 <= i < s.len() && #[trigger] reaches_v6(s[i], n);
        assert(q[i] == s[i]);
        assert(reaches_v6(q[i], n));
    }
    if exists|i: int, n: Nlri<Ipv4Addr>| 0 <= i < q.len() && #[trigger] reaches_v4(q[i], n) {
        let (i, n) = choose|i: int, n: Nlri<Ipv4Addr>|
            0 <= i < q.len() && #[trigger] reaches_v4(q[i], n);
        assert(!is_record(q[i]));
        assert(q[i] == s[i]);
        assert(reaches_v4(s[i], n));
    }
    if exists|i: int, n: Nlri<Ipv6Addr>| 0 <= i < q.len() && #[trigger] reaches_v6(q[i], n) {
        let (i, n) = choose|i: int, n: Nlri<Ipv6Addr>|
            0 <= i < q.len() && #[trigger] reaches_v6(q[i], n);
        assert(!is_record(q[i]));
        assert(q[i] == s[i]);
        assert(reaches_v6(s[i], n));
    }
}

/// What one of the two announces, the other does.
proof fn record_offers_v4(m: UpdateView, r: UpdateView, n: Nlri<Ipv4Addr>, nh: Option<NextHop>)
    requires
        r.announced == m.announced,
        same_but_record(m.attributes, r.attributes),
        offers_v4(m, n, nh),
    ensures
        offers_v4(r, n, nh),
{
    let s = m.attributes;
    let q = r.attributes;
    if exists|i: int|
        0 <= i < s.len() && reaches_v4(#[trigger] s[i], n) && nh == Some(
            s[i]->MpReachNlri_0.next_hop,
        ) {
        let i = choose|i: int|
            0 <= i < s.len() && reaches_v4(#[trigger] s[i], n) && nh == Some(
                s[i]->MpReachNlri_0.next_hop,
            );
        assert(!is_record(s[i]));
        assert(q[i] == s[i]);
    } else if nh is Some {
        let ip = nh->0->V4_0;
        let i = choose|i: int|
            0 <= i < s.len() && (#[trigger] s[i]) == PathAttribute::NextHop(ip) && (forall|j: int|
                i < j < s.len() ==> !((#[trigger] s[j]) is NextHop));
        assert(!is_record(s[i]));
        assert(q[i] == PathAttribute::NextHop(ip));
        assert forall|j: int| i < j < q.len() implies !((#[trigger] q[j]) is NextHop) by {
            if q[j] is NextHop {
                assert(!is_record(q[j]));
                assert(s[j] == q[j]);
            }
        }
    } else {
        assert forall|j: int| 0 <= j < q.len() implies !((#[trigger] q[j]) is NextHop) by {
            if q[j] is NextHop {
                assert(!is_record(q[j]));
                assert(s[j] == q[j]);
            }
        }
    }
}

/// What one of the two announces, the other does.
proof fn record_offers_v4_back(m: UpdateView, r: UpdateView, n: Nlri<Ipv4Addr>, nh: Option<NextHop>)
    requires
        r.announced == m.announced,
        same_but_record(m.attributes, r.attributes),
        offers_v4(r, n, nh),
    ensures
        offers_v4(m, n, nh),
{
    let s = m.attributes;
    let q = r.attributes;
    if exists|i: int|
        0 <= i < q.len() && reaches_v4(#[trigger] q[i], n) && nh == Some(
            q[i]->MpReachNlri_0.next_hop,
        ) {
        let i = choose|i: int|
            0 <= i < q.len() && reaches_v4(#[trigger] q[i], n) && nh == Some(
                q[i]->MpReachNlri_0.next_hop,
            );
        assert(!is_record(q[i]));
        assert(s[i] == q[i]);
    } else if nh is Some {
        let ip = nh->0->V4_0;
        let i = choose|i: int|
            0 <= i < q.len() && (#[trigger] q[i]) == PathAttribute::NextHop(ip) && (forall|j: int|
                i < j < q.len() ==> !((#[trigger] q[j]) is NextHop));
        assert(!is_record(q[i]));
        assert(s[i] == PathAttribute::NextHop(ip));
        assert forall|j: int| i < j < s.len() implies !((#[trigger] s[j]) is NextHop) by {
            if s[j] is NextHop {
                assert(!is_record(s[j]));
                assert(q[j] == s[j]);
            }
        }
    } else {
        assert forall|j: int| 0 <= j < s.len() implies !((#[trigger] s[j]) is NextHop) by {
            if s[j] is NextHop {
                assert(!is_record(s[j]));
                assert(q[j] == s[j]);
            }
        }
    }
}

/// Whether UPDATEs of a peer go through the reflector: some peer is a client, and the session is
/// internal.
pub open spec fn goes_through_reflector(s: DaemonView, p: IpAddr) -> bool {
    &&& exists|c: IpAddr| #[trigger] s.rib.rr_clients.contains(c)
    &&& s.rib.peer_types.contains_key(p)
    &&& s.rib.peer_types[p] == PeerType::Internal
}

/// Whether an UPDATE is an End-of-RIB marker for IPv4.
pub open spec fn is_marker_v4(m: UpdateView) -> bool {
    m.withdrawn.len() == 0 && m.announced.len() == 0 && m.attributes.len() == 0
}

/// Whether an UPDATE is an End-of-RIB marker for IPv6.
pub open spec fn is_marker_v6(m: UpdateView) -> bool {
    &&& m.withdrawn.len() == 0
    &&& m.announced.len() == 0
    &&& m.attributes.len() == 1
    &&& m.attributes[0] is MpUnreachNlri
    &&& m.attributes[0]->MpUnreachNlri_0.afi_safi.afi == 2
    &&& m.attributes[0]->MpUnreachNlri_0.afi_safi.safi == 1
    &&& m.attributes[0]->MpUnreachNlri_0.prefixes@.len() == 0
}

/// Whether an UPDATE has come back: it names the local speaker as its originator, or lists the local
/// cluster.
pub open spec fn came_back(s: DaemonView, m: UpdateView) -> bool {
    exists|i: int|
        0 <= i < m.attributes.len() && {
            ||| (#[trigger] m.attributes[i]) == PathAttribute::OriginatorId(s.rib.local_bgp_id)
            ||| m.attributes[i] is ClusterList && m.attributes[i]->ClusterList_0.ids().contains(
                s.rib.cluster_id,
            )
        }
}

/// Whether an UPDATE of a peer is processed: it is no marker, the peer is configured, and where it goes
/// through the reflector it has not come back.
pub open spec fn is_processed(s: DaemonView, p: IpAddr, m: UpdateView) -> bool {
    &&& !is_marker_v4(m)
    &&& !is_marker_v6(m)
    &&& s.import_policies.contains_key(p)
    &&& s.import_policies_v6.contains_key(p)
    &&& s.adj_ribs_in.contains_key(p)
    &&& goes_through_reflector(s, p) ==> !came_back(s, m)
}

/// The markers are what they are said to be.
proof fn markers_are_plain(m: UpdateView)
    ensures
        marker(m) == Some(EndOfRib::V4) <==> is_marker_v4(m),
        marker(m) == Some(EndOfRib::V6) <==> is_marker_v6(m),
{
}

/// The reflector is at work where there is a client.
proof fn reflector_is_plain(s: DaemonView, p: IpAddr, m: UpdateView)
    ensures
        s.reflects_from(p) == goes_through_reflector(s, p),
        s.discards(p, m) == (goes_through_reflector(s, p) && came_back(s, m)),
{
    if s.is_rr() {
        if !exists|c: IpAddr| #[trigger] s.rib.rr_clients.contains(c) {
            assert(s.rib.rr_clients =~= Set::<IpAddr>::empty());
        }
    }
    assert(returned(m.attributes, s.rib.local_bgp_id, s.rib.cluster_id) == came_back(s, m));
}

/// An UPDATE that is not processed and is no marker leaves all as it is.
pub proof fn other_updates_change_nothing(
    before: DaemonView,
    p: IpAddr,
    msg: UpdateView,
    now: Instant,
    after: DaemonView,
    notification: Option<NotificationMessage>,
    work: Option<WorkView>,
)
    requires
        update_outcome(before, p, msg, now, after, notification, work),
        !is_marker_v4(msg),
        !is_marker_v6(msg),
    ensures
        !is_processed(before, p, msg) ==> after == before && notification is None && work is None,
        is_processed(before, p, msg) ==> work is Some && work->0.peer == p,
{
    markers_are_plain(msg);
    reflector_is_plain(before, p, msg);
}

/// The router that routes of a peer start at, where none is named: the identifier that the peer gave
/// when its session began, else its IPv4 address, else none at all.
pub open spec fn starts_at(s: DaemonView, p: IpAddr, id: Ipv4Addr) -> bool {
    &&& s.rib.peer_bgp_ids.contains_key(p) ==> id == s.rib.peer_bgp_ids[p]
    &&& !s.rib.peer_bgp_ids.contains_key(p) ==> match p {
        IpAddr::V4(a) => id == a,
        IpAddr::V6(_) => id.bits == 0,
    }
}

/// Whether attributes of a route are those of an UPDATE of a peer: all but the record of reflectors as
/// they came, and the record too where the UPDATE does not go through the reflector. Where it does, a
/// route without an originator has the peer as one, an originator that is named stays, and the local
/// cluster is put in front of the only cluster list.
pub open spec fn attributes_from(s: DaemonView, p: IpAddr, m: UpdateView, a: Attributes) -> bool {
    let b = Attributes::of(m.attributes);
    let none = forall|i: int|
        0 <= i < m.attributes.len() ==> !((#[trigger] m.attributes[i]) is ClusterList);
    &&& agree_but_record(a, b)
    &&& !goes_through_reflector(s, p) ==> a.originator_id == b.originator_id && a.cluster_list
        == b.cluster_list
    &&& goes_through_reflector(s, p) ==> {
        &&& a.originator_id is Some
        &&& (forall|i: int|
            0 <= i < m.attributes.len() ==> !((#[trigger] m.attributes[i]) is OriginatorId))
            ==> starts_at(s, p, a.originator_id->0)
        &&& (exists|i: int|
            0 <= i < m.attributes.len() && (#[trigger] m.attributes[i]) is OriginatorId)
            ==> a.originator_id == b.originator_id
        &&& a.cluster_list is Some
        &&& none ==> a.cluster_list->0.ids() == seq![s.rib.cluster_id]
        &&& forall|k: int|
            0 <= k < m.attributes.len() && (#[trigger] m.attributes[k]) is ClusterList && (forall|
                j: int,
            |
                0 <= j < m.attributes.len() && j != k ==> !((
                #[trigger] m.attributes[j]) is ClusterList)) ==> a.cluster_list->0.ids() == seq![
                s.rib.cluster_id,
            ] + m.attributes[k]->ClusterList_0.ids()
    }
}

/// The attributes of a processed UPDATE.
proof fn attributes_are_from(s: DaemonView, p: IpAddr, m: UpdateView)
    ensures
        attributes_from(s, p, m, Attributes::of(s.prepared(p, m).attributes)),
        same_but_record(m.attributes, s.prepared(p, m).attributes),
        s.prepared(p, m).withdrawn == m.withdrawn,
        s.prepared(p, m).announced == m.announced,
{
    reflector_is_plain(s, p, m);
    let b = m.attributes;
    let r = s.prepared(p, m).attributes;
    if goes_through_reflector(s, p) {
        reflection_is_record(b, s.rib.cluster_id, s.source_id(p));
        record_aside(b, r);
        originator_is_from(s, p, m);
        cluster_is_from(b, s.rib.cluster_id, s.source_id(p));
    } else {
        assert(same_but_record(b, b));
        record_aside(b, b);
    }
}

/// The last originator in a list counts.
proof fn last_originator(s: Seq<PathAttribute>, i: int)
    requires
        0 <= i < s.len(),
        s[i] is OriginatorId,
        forall|j: int| i < j < s.len() ==> !((#[trigger] s[j]) is OriginatorId),
    ensures
        Attributes::of(s).originator_id == Some(s[i]->OriginatorId_0),
    decreases s.len(),
{
    if i < s.len() - 1 {
        let t = s.drop_last();
        assert(t[i] == s[i]);
        assert forall|j: int| i < j < t.len() implies !((#[trigger] t[j]) is OriginatorId) by {
            assert(t[j] == s[j]);
        }
        last_originator(t, i);
        assert(!(s[s.len() - 1] is OriginatorId));
    }
}

/// Where there is an originator there is a last.
proof fn find_last_originator(s: Seq<PathAttribute>) -> (i: int)
    requires
        exists|i: int| 0 <= i < s.len() && (#[trigger] s[i]) is OriginatorId,
    ensures
        0 <= i < s.len(),
        s[i] is OriginatorId,
        forall|j: int| i < j < s.len() ==> !((#[trigger] s[j]) is OriginatorId),
    decreases s.len(),
{
    if s[s.len() - 1] is OriginatorId {
        s.len() - 1
    } else {
        let t = s.drop_last();
        let k = choose|i: int| 0 <= i < s.len() && (#[trigger] s[i]) is OriginatorId;
        assert(t[k] == s[k]);
        let i = find_last_originator(t);
        assert forall|j: int| i < j < s.len() implies !((#[trigger] s[j]) is OriginatorId) by {
            if j < t.len() {
                assert(t[j] == s[j]);
            }
        }
        i
    }
}

/// The originator of a reflected UPDATE.
proof fn originator_is_from(s: DaemonView, p: IpAddr, m: UpdateView)
    ensures
        ({
            let a = Attributes::of(reflected(m.attributes, s.rib.cluster_id, s.source_id(p)));
            &&& a.originator_id is Some
            &&& !has_originator(m.attributes) ==> starts_at(s, p, a.originator_id->0)
            &&& has_originator(m.attributes) ==> a.originator_id == Attributes::of(
                m.attributes,
            ).originator_id
        }),
{
    let b = m.attributes;
    let w = with_originator(b, s.source_id(p));
    let r = with_cluster(w, s.rib.cluster_id);
    cluster_is_record(w, s.rib.cluster_id);
    let i = if has_originator(b) {
        let i = find_last_originator(b);
        last_originator(b, i);
        i
    } else {
        b.len() as int
    };
    assert(w[i] is OriginatorId);
    assert(r[i] == w[i]);
    assert forall|j: int| i < j < r.len() implies !((#[trigger] r[j]) is OriginatorId) by {
        if j < w.len() && r[j] == w[j] {
            if has_originator(b) {
                assert(w[j] == b[j]);
            }
        } else {
            assert(r[j] is ClusterList);
        }
    }
    last_originator(r, i);
}

/// The cluster list of a reflected UPDATE.
proof fn cluster_is_from(b: Seq<PathAttribute>, cluster_id: u32, source_id: Ipv4Addr)
    ensures
        ({
            let l = Attributes::of(reflected(b, cluster_id, source_id)).cluster_list;
            &&& l is Some
            &&& (forall|i: int| 0 <= i < b.len() ==> !((#[trigger] b[i]) is ClusterList))
                ==> l->0.ids() == seq![cluster_id]
            &&& forall|k: int|
                0 <= k < b.len() && (#[trigger] b[k]) is ClusterList && (forall|j: int|
                    0 <= j < b.len() && j != k ==> !((#[trigger] b[j]) is ClusterList))
                    ==> l->0.ids() == seq![cluster_id] + b[k]->ClusterList_0.ids()
        }),
{
    let w = with_originator(b, source_id);
    let r = with_cluster(w, cluster_id);
    some_cluster(w, cluster_id);
    if forall|i: int| 0 <= i < b.len() ==> !((#[trigger] b[i]) is ClusterList) {
        assert forall|i: int| 0 <= i < w.len() implies !((#[trigger] w[i]) is ClusterList) by {
            if i < b.len() {
                assert(w[i] == b[i]);
            }
        }
        lone_cluster(w, cluster_id, w.len() as int);
        assert(Attributes::of(r).cluster_list->0.ids() =~= seq![cluster_id]);
    }
    assert forall|k: int|
        0 <= k < b.len() && (#[trigger] b[k]) is ClusterList && (forall|j: int|
            0 <= j < b.len() && j != k ==> !((
            #[trigger] b[j]) is ClusterList)) implies Attributes::of(r).cluster_list->0.ids() == seq![
        cluster_id,
    ] + b[k]->ClusterList_0.ids() by {
        assert(w[k] == b[k]);
        assert forall|j: int| 0 <= j < w.len() && j != k implies !((
        #[trigger] w[j]) is ClusterList) by {
            if j < b.len() {
                assert(w[j] == b[j]);
            }
        }
        lone_cluster(w, cluster_id, k);
    }
}

/// A reflected UPDATE has a cluster list.
proof fn some_cluster(w: Seq<PathAttribute>, id: u32)
    ensures
        Attributes::of(with_cluster(w, id)).cluster_list is Some,
    decreases w.len(),
{
    let r = with_cluster(w, id);
    cluster_present(w, id);
    let i = choose|i: int| 0 <= i < r.len() && (#[trigger] r[i]) is ClusterList;
    present_counts(r, i);
}

/// Putting a cluster in front leaves a cluster list.
proof fn cluster_present(w: Seq<PathAttribute>, id: u32)
    ensures
        exists|i: int|
            0 <= i < with_cluster(w, id).len() && (#[trigger] with_cluster(w, id)[i]) is ClusterList,
    decreases w.len(),
{
    let r = with_cluster(w, id);
    if w.len() == 0 || w[0] is ClusterList {
        assert(r[0] is ClusterList);
    } else {
        let q = with_cluster(w.drop_first(), id);
        cluster_present(w.drop_first(), id);
        let i = choose|i: int| 0 <= i < q.len() && (#[trigger] q[i]) is ClusterList;
        assert(r[i + 1] == q[i]);
    }
}

/// Where there is a cluster list, one counts.
proof fn present_counts(r: Seq<PathAttribute>, i: int)
    requires
        0 <= i < r.len(),
        r[i] is ClusterList,
    ensures
        Attributes::of(r).cluster_list is Some,
    decreases r.len(),
{
    if i < r.len() - 1 {
        present_counts(r.drop_last(), i);
    }
}

/// The only cluster list counts, with the cluster in front.
proof fn lone_cluster(w: Seq<PathAttribute>, id: u32, k: int)
    requires
        0 <= k <= w.len(),
        k < w.len() ==> w[k] is ClusterList,
        forall|j: int| 0 <= j < w.len() && j != k ==> !((#[trigger] w[j]) is ClusterList),
    ensures
        Attributes::of(with_cluster(w, id)).cluster_list is Some,
        Attributes::of(with_cluster(w, id)).cluster_list->0.ids() == seq![id] + (if k < w.len() {
            w[k]->ClusterList_0.ids()
        } else {
            Seq::empty()
        }),
{
    let r = with_cluster(w, id);
    cluster_at(w, id, k);
    lone_counts(r, k);
}

/// Where the cluster goes.
proof fn cluster_at(w: Seq<PathAttribute>, id: u32, k: int)
    requires
        0 <= k <= w.len(),
        k < w.len() ==> w[k] is ClusterList,
        forall|j: int| 0 <= j < w.len() && j != k ==> !((#[trigger] w[j]) is ClusterList),
    ensures
        ({
            let r = with_cluster(w, id);
            &&& k < r.len()
            &&& r[k] is ClusterList
            &&& r[k]->ClusterList_0.ids() == seq![id] + (if k < w.len() {
                w[k]->ClusterList_0.ids()
            } else {
                Seq::empty()
            })
            &&& forall|j: int| 0 <= j < r.len() && j != k ==> !((#[trigger] r[j]) is ClusterList)
        }),
    decreases w.len(),
{
    let r = with_cluster(w, id);
    if w.len() == 0 {
        reveal_with_fuel(crate::message::ClusterList::ids, 3);
        assert(r[0]->ClusterList_0.ids() =~= seq![id] + Seq::<u32>::empty());
    } else if w[0] is ClusterList {
        assert(k == 0);
        assert(r[0]->ClusterList_0.ids() =~= seq![id] + w[0]->ClusterList_0.ids());
        assert forall|j: int| 0 <= j < r.len() && j != k implies !((
        #[trigger] r[j]) is ClusterList) by {
            assert(r[j] == w[j]);
        }
    } else {
        let t = w.drop_first();
        assert(k > 0);
        assert forall|j: int| 0 <= j < t.len() && j != k - 1 implies !((
        #[trigger] t[j]) is ClusterList) by {
            assert(t[j] == w[j + 1]);
        }
        cluster_at(t, id, k - 1);
        let q = with_cluster(t, id);
        assert(r[k] == q[k - 1]);
        assert forall|j: int| 0 <= j < r.len() && j != k implies !((
        #[trigger] r[j]) is ClusterList) by {
            if j > 0 {
                assert(r[j] == q[j - 1]);
            }
        }
    }
}

/// The only cluster list counts.
proof fn lone_counts(r: Seq<PathAttribute>, k: int)
    requires
        0 <= k < r.len(),
        r[k] is ClusterList,
        forall|j: int| 0 <= j < r.len() && j != k ==> !((#[trigger] r[j]) is ClusterList),
    ensures
        Attributes::of(r).cluster_list == Some(r[k]->ClusterList_0),
    decreases r.len(),
{
    if k < r.len() - 1 {
        let t = r.drop_last();
        assert forall|j: int| 0 <= j < t.len() && j != k implies !((
        #[trigger] t[j]) is ClusterList) by {
            assert(t[j] == r[j]);
        }
        lone_counts(t, k);
        assert(!(r[r.len() - 1] is ClusterList));
    }
}

/// Where the cluster goes among several lists.
proof fn first_list_gets_it(w: Seq<PathAttribute>, id: u32, k: int)
    requires
        0 <= k < w.len(),
        w[k] is ClusterList,
        forall|j: int| 0 <= j < k ==> !((#[trigger] w[j]) is ClusterList),
    ensures
        ({
            let r = with_cluster(w, id);
            &&& r.len() == w.len()
            &&& r[k] is ClusterList
            &&& r[k]->ClusterList_0.ids() == seq![id] + w[k]->ClusterList_0.ids()
            &&& forall|j: int| 0 <= j < r.len() && j != k ==> (#[trigger] r[j]) == w[j]
        }),
    decreases w.len(),
{
    let r = with_cluster(w, id);
    if k == 0 {
        assert(r[0]->ClusterList_0.ids() =~= seq![id] + w[0]->ClusterList_0.ids());
    } else {
        let t = w.drop_first();
        assert(!(w[0] is ClusterList));
        assert forall|j: int| 0 <= j < k - 1 implies !((#[trigger] t[j]) is ClusterList) by {
            assert(t[j] == w[j + 1]);
        }
        first_list_gets_it(t, id, k - 1);
        let q = with_cluster(t, id);
        assert forall|j: int| 0 <= j < r.len() && j != k implies (#[trigger] r[j]) == w[j] by {
            if j > 0 {
                assert(r[j] == q[j - 1]);
                assert(t[j - 1] == w[j]);
            }
        }
    }
}

/// What reflection does to the attributes of an UPDATE with cluster lists: the local cluster goes in front
/// of the first list, every other attribute stays in its place, and an originator is added behind them
/// where none is named.
pub proof fn reflection_adds_to_the_first_list(
    s: Seq<PathAttribute>,
    cluster_id: u32,
    source_id: Ipv4Addr,
    k: int,
    j: int,
)
    requires
        0 <= k < s.len(),
        s[k] is ClusterList,
        forall|i: int| 0 <= i < k ==> !((#[trigger] s[i]) is ClusterList),
    ensures
        ({
            let r = reflected(s, cluster_id, source_id);
            let named = exists|i: int| 0 <= i < s.len() && (#[trigger] s[i]) is OriginatorId;
            &&& named ==> r.len() == s.len()
            &&& !named ==> r.len() == s.len() + 1
            &&& r[k] is ClusterList
            &&& r[k]->ClusterList_0.ids() == seq![cluster_id] + s[k]->ClusterList_0.ids()
            &&& 0 <= j < s.len() && j != k ==> r[j] == s[j]
            &&& !named ==> r[s.len() as int] == PathAttribute::OriginatorId(source_id)
        }),
{
    let w = with_originator(s, source_id);
    assert(w[k] == s[k]);
    assert forall|i: int| 0 <= i < k implies !((#[trigger] w[i]) is ClusterList) by {
        assert(w[i] == s[i]);
    }
    first_list_gets_it(w, cluster_id, k);
    if 0 <= j < s.len() {
        assert(w[j] == s[j]);
    }
}

/// The kind of the session with a peer; external without one.
pub open spec fn session_kind(s: DaemonView, p: IpAddr) -> PeerType {
    if s.rib.peer_types.contains_key(p) {
        s.rib.peer_types[p]
    } else {
        PeerType::External
    }
}

/// The local IPv4 address of the session with a peer.
pub open spec fn session_address(s: DaemonView, p: IpAddr) -> Option<Ipv4Addr> {
    if s.rib.local_addrs.contains_key(p) {
        match s.rib.local_addrs[p] {
            IpAddr::V4(a) => Some(a),
            IpAddr::V6(_) => None,
        }
    } else {
        None
    }
}

/// Whether a route is one that an UPDATE of a peer brings now: of the kind of the session, fresh, with
/// the attributes of the UPDATE and a next hop that it gives for the prefix.
pub open spec fn fresh_from_v4(
    before: DaemonView,
    p: IpAddr,
    msg: UpdateView,
    now: Instant,
    r: Route<Ipv4Addr>,
) -> bool {
    &&& r.peer_type == session_kind(before, p)
    &&& !r.stale
    &&& r.received_at == now
    &&& attributes_from(before, p, msg, r.attributes)
    &&& offers_v4(msg, r.nlri, r.next_hop)
    &&& <Ipv4Addr as Family>::acceptable(r.next_hop, session_address(before, p))
}

/// What a processed UPDATE does to an IPv4 prefix of its peer. Where it announces the prefix usably, a
/// fresh route of the kind of the session is received, and the last word on the prefix to the decision
/// process is to judge it, or to drop the candidate where traffic is to be dropped. Where it only
/// withdraws the prefix, no route is left and the candidate is to be dropped. Else nothing changes.
pub proof fn processed_update_settles_v4(
    before: DaemonView,
    p: IpAddr,
    msg: UpdateView,
    now: Instant,
    after: DaemonView,
    notification: Option<NotificationMessage>,
    work: Option<WorkView>,
    n: Nlri<Ipv4Addr>,
)
    requires
        update_outcome(before, p, msg, now, after, notification, work),
        is_processed(before, p, msg),
    ensures
        work is Some,
        after.adj_ribs_in.dom() == before.adj_ribs_in.dom(),
        forall|q: IpAddr|
            q != p && #[trigger] before.adj_ribs_in.contains_key(q) ==> after.adj_ribs_in[q]
                == before.adj_ribs_in[q],
        ({
            let own = session_address(before, p);
            let local_as = before.rib.local_as;
            let old_table = before.adj_ribs_in[p];
            let table = after.adj_ribs_in[p];
            let ops = work->0.ops;
            let drops = Attributes::of(msg.attributes).is_blackhole();
            &&& brings_v4(msg, local_as, own, n) ==> {
                &&& table.contains_key(n)
                &&& table[n].nlri == n
                &&& fresh_from_v4(before, p, msg, now, table[n])
                &&& exists|k: int|
                    0 <= k < ops.len() && (#[trigger] ops[k]) == (if drops {
                        RibOp::Withdraw(n)
                    } else {
                        RibOp::Evaluate(table[n])
                    }) && (forall|j: int| k < j < ops.len() ==> !op_about(#[trigger] ops[j], n))
            }
            &&& !brings_v4(msg, local_as, own, n) && withdraws_v4(msg, n) ==> {
                &&& !table.contains_key(n)
                &&& ops.contains(RibOp::Withdraw(n))
            }
            &&& !brings_v4(msg, local_as, own, n) && !withdraws_v4(msg, n) ==> {
                &&& table.contains_key(n) == old_table.contains_key(n)
                &&& old_table.contains_key(n) ==> table[n] == old_table[n]
                &&& forall|j: int| 0 <= j < ops.len() ==> !op_about(#[trigger] ops[j], n)
            }
            &&& work->0.notify ==> {
                &&& work->0.null_routes.contains(n) <==> brings_v4(msg, local_as, own, n) && drops
                &&& work->0.lifted.contains(n) <==> withdraws_v4(msg, n) && old_table.contains_key(
                    n,
                ) && old_table[n].attributes.is_blackhole()
            }
            &&& !work->0.notify ==> work->0.null_routes.len() == 0 && work->0.lifted.len() == 0
        }),
{
    markers_are_plain(msg);
    reflector_is_plain(before, p, msg);
    attributes_are_from(before, p, msg);
    let m = before.prepared(p, msg);
    record_says_nothing(msg, m, before.rib.local_as);
    let own = session_address(before, p);
    update_settles_each_prefix_v4(
        m,
        before.kind(p),
        before.rib.local_as,
        own,
        now,
        before.adj_ribs_in[p],
        after.adj_ribs_in[p],
        work->0.ops,
        crate::update::null_routed(before.brought_v4(p, m, now)),
        crate::update::null_routes_lost(before.adj_ribs_in[p], effective_withdrawals(m)),
        n,
    );
    assert(brings_v4(m, before.rib.local_as, own, n) == brings_v4(
        msg,
        before.rib.local_as,
        own,
        n,
    )) by {
        if brings_v4(m, before.rib.local_as, own, n) {
            let nh = choose|nh: Option<NextHop>| #[trigger]
                offers_v4(m, n, nh) && <Ipv4Addr as Family>::acceptable(nh, own);
            assert(offers_v4(msg, n, nh));
        }
        if brings_v4(msg, before.rib.local_as, own, n) {
            let nh = choose|nh: Option<NextHop>| #[trigger]
                offers_v4(msg, n, nh) && <Ipv4Addr as Family>::acceptable(nh, own);
            assert(offers_v4(m, n, nh));
        }
    }
    assert(after.adj_ribs_in.dom() =~= before.adj_ribs_in.dom());
}

/// What a processed UPDATE asks of the decision process: to drop IPv4 candidates that it withdraws, or
/// whose traffic is to be dropped, and to judge fresh routes of the kind of the session.
pub proof fn processed_update_asks_v4(
    before: DaemonView,
    p: IpAddr,
    msg: UpdateView,
    now: Instant,
    after: DaemonView,
    notification: Option<NotificationMessage>,
    work: Option<WorkView>,
    k: int,
)
    requires
        update_outcome(before, p, msg, now, after, notification, work),
        is_processed(before, p, msg),
        work is Some,
        0 <= k < work->0.ops.len(),
    ensures
        ({
            let op = work->0.ops[k];
            let own = session_address(before, p);
            &&& op is Withdraw || op is Evaluate
            &&& op matches RibOp::Withdraw(n) ==> withdraws_v4(msg, n) || (brings_v4(
                msg,
                before.rib.local_as,
                own,
                n,
            ) && Attributes::of(msg.attributes).is_blackhole())
            &&& op matches RibOp::Evaluate(r) ==> usable(msg, before.rib.local_as)
                && fresh_from_v4(before, p, msg, now, r) && !r.attributes.is_blackhole()
        }),
{
    markers_are_plain(msg);
    reflector_is_plain(before, p, msg);
    attributes_are_from(before, p, msg);
    let m = before.prepared(p, msg);
    record_says_nothing(msg, m, before.rib.local_as);
    let own = session_address(before, p);
    update_asks_for_its_own_v4(
        m,
        before.kind(p),
        before.rib.local_as,
        own,
        now,
        work->0.ops,
        k,
    );
    if let RibOp::Withdraw(n) = work->0.ops[k] {
        if brings_v4(m, before.rib.local_as, own, n) {
            let nh = choose|nh: Option<NextHop>| #[trigger]
                offers_v4(m, n, nh) && <Ipv4Addr as Family>::acceptable(nh, own);
            assert(offers_v4(msg, n, nh));
        }
    }
}

/// Every IPv4 route that a processed UPDATE leaves with its peer is as it was before or fresh, of the
/// kind of the session that it came over.
pub proof fn received_routes_are_of_the_session_v4(
    before: DaemonView,
    p: IpAddr,
    msg: UpdateView,
    now: Instant,
    after: DaemonView,
    notification: Option<NotificationMessage>,
    work: Option<WorkView>,
    n: Nlri<Ipv4Addr>,
)
    requires
        update_outcome(before, p, msg, now, after, notification, work),
        is_processed(before, p, msg),
        after.adj_ribs_in[p].contains_key(n),
    ensures
        (before.adj_ribs_in[p].contains_key(n) && after.adj_ribs_in[p][n]
            == before.adj_ribs_in[p][n]) || after.adj_ribs_in[p][n].nlri == n && fresh_from_v4(
            before,
            p,
            msg,
            now,
            after.adj_ribs_in[p][n],
        ),
{
    processed_update_settles_v4(before, p, msg, now, after, notification, work, n);
}

/// Whether a route is one that an UPDATE of a peer brings now: of the kind of the session, fresh, with
/// the attributes of the UPDATE and a next hop that it gives for the prefix.
pub open spec fn fresh_from_v6(
    before: DaemonView,
    p: IpAddr,
    msg: UpdateView,
    now: Instant,
    r: Route<Ipv6Addr>,
) -> bool {
    &&& r.peer_type == session_kind(before, p)
    &&& !r.stale
    &&& r.received_at == now
    &&& attributes_from(before, p, msg, r.attributes)
    &&& offers_v6(msg, r.nlri, r.next_hop)
    &&& <Ipv6Addr as Family>::acceptable(r.next_hop, before.rib.local_ipv6)
}

/// What a processed UPDATE does to an IPv6 prefix of its peer. Where it announces the prefix usably, a
/// fresh route of the kind of the session is received, and the last word on the prefix to the decision
/// process is to judge it, or to drop the candidate where traffic is to be dropped. Where it only
/// withdraws the prefix, no route is left and the candidate is to be dropped. Else nothing changes.
pub proof fn processed_update_settles_v6(
    before: DaemonView,
    p: IpAddr,
    msg: UpdateView,
    now: Instant,
    after: DaemonView,
    notification: Option<NotificationMessage>,
    work: Option<WorkView>,
    n: Nlri<Ipv6Addr>,
)
    requires
        update_outcome(before, p, msg, now, after, notification, work),
        is_processed(before, p, msg),
        before.adj_ribs_in_v6.contains_key(p),
    ensures
        work is Some,
        after.adj_ribs_in_v6.dom() == before.adj_ribs_in_v6.dom(),
        forall|q: IpAddr|
            q != p && #[trigger] before.adj_ribs_in_v6.contains_key(q) ==> after.adj_ribs_in_v6[q]
                == before.adj_ribs_in_v6[q],
        ({
            let own = before.rib.local_ipv6;
            let local_as = before.rib.local_as;
            let old_table = before.adj_ribs_in_v6[p];
            let table = after.adj_ribs_in_v6[p];
            let ops = work->0.ops_v6;
            let drops = Attributes::of(msg.attributes).is_blackhole();
            &&& brings_v6(msg, local_as, own, n) ==> {
                &&& table.contains_key(n)
                &&& table[n].nlri == n
                &&& fresh_from_v6(before, p, msg, now, table[n])
                &&& exists|k: int|
                    0 <= k < ops.len() && (#[trigger] ops[k]) == (if drops {
                        RibOp::Withdraw(n)
                    } else {
                        RibOp::Evaluate(table[n])
                    }) && (forall|j: int| k < j < ops.len() ==> !op_about(#[trigger] ops[j], n))
            }
            &&& !brings_v6(msg, local_as, own, n) && withdraws_v6(msg, n) ==> {
                &&& !table.contains_key(n)
                &&& ops.contains(RibOp::Withdraw(n))
            }
            &&& !brings_v6(msg, local_as, own, n) && !withdraws_v6(msg, n) ==> {
                &&& table.contains_key(n) == old_table.contains_key(n)
                &&& old_table.contains_key(n) ==> table[n] == old_table[n]
                &&& forall|j: int| 0 <= j < ops.len() ==> !op_about(#[trigger] ops[j], n)
            }
            &&& work->0.notify ==> {
                &&& work->0.null_routes_v6.contains(n) <==> brings_v6(msg, local_as, own, n) && drops
                &&& work->0.lifted_v6.contains(n) <==> withdraws_v6(msg, n) && old_table.contains_key(
                    n,
                ) && old_table[n].attributes.is_blackhole()
            }
            &&& !work->0.notify ==> work->0.null_routes_v6.len() == 0 && work->0.lifted_v6.len() == 0
        }),
{
    markers_are_plain(msg);
    reflector_is_plain(before, p, msg);
    attributes_are_from(before, p, msg);
    let m = before.prepared(p, msg);
    record_says_nothing(msg, m, before.rib.local_as);
    let own = before.rib.local_ipv6;
    update_settles_each_prefix_v6(
        m,
        before.kind(p),
        before.rib.local_as,
        own,
        now,
        before.adj_ribs_in_v6[p],
        after.adj_ribs_in_v6[p],
        work->0.ops_v6,
        crate::update::null_routed(before.brought_v6(p, m, now)),
        crate::update::null_routes_lost(before.adj_ribs_in_v6[p], effective_withdrawals_v6(m)),
        n,
    );
    assert(brings_v6(m, before.rib.local_as, own, n) == brings_v6(
        msg,
        before.rib.local_as,
        own,
        n,
    )) by {
        if brings_v6(m, before.rib.local_as, own, n) {
            let nh = choose|nh: Option<NextHop>| #[trigger]
                offers_v6(m, n, nh) && <Ipv6Addr as Family>::acceptable(nh, own);
            assert(offers_v6(msg, n, nh));
        }
        if brings_v6(msg, before.rib.local_as, own, n) {
            let nh = choose|nh: Option<NextHop>| #[trigger]
                offers_v6(msg, n, nh) && <Ipv6Addr as Family>::acceptable(nh, own);
            assert(offers_v6(m, n, nh));
        }
    }
    assert(after.adj_ribs_in_v6.dom() =~= before.adj_ribs_in_v6.dom());
}

/// What a processed UPDATE asks of the decision process: to drop IPv6 candidates that it withdraws, or
/// whose traffic is to be dropped, and to judge fresh routes of the kind of the session.
pub proof fn processed_update_asks_v6(
    before: DaemonView,
    p: IpAddr,
    msg: UpdateView,
    now: Instant,
    after: DaemonView,
    notification: Option<NotificationMessage>,
    work: Option<WorkView>,
    k: int,
)
    requires
        update_outcome(before, p, msg, now, after, notification, work),
        is_processed(before, p, msg),
        work is Some,
        0 <= k < work->0.ops_v6.len(),
    ensures
        ({
            let op = work->0.ops_v6[k];
            let own = before.rib.local_ipv6;
            &&& op is Withdraw || op is Evaluate
            &&& op matches RibOp::Withdraw(n) ==> withdraws_v6(msg, n) || (brings_v6(
                msg,
                before.rib.local_as,
                own,
                n,
            ) && Attributes::of(msg.attributes).is_blackhole())
            &&& op matches RibOp::Evaluate(r) ==> usable(msg, before.rib.local_as)
                && fresh_from_v6(before, p, msg, now, r) && !r.attributes.is_blackhole()
        }),
{
    markers_are_plain(msg);
    reflector_is_plain(before, p, msg);
    attributes_are_from(before, p, msg);
    let m = before.prepared(p, msg);
    record_says_nothing(msg, m, before.rib.local_as);
    let own = before.rib.local_ipv6;
    update_asks_for_its_own_v6(
        m,
        before.kind(p),
        before.rib.local_as,
        own,
        now,
        work->0.ops_v6,
        k,
    );
    if let RibOp::Withdraw(n) = work->0.ops_v6[k] {
        if brings_v6(m, before.rib.local_as, own, n) {
            let nh = choose|nh: Option<NextHop>| #[trigger]
                offers_v6(m, n, nh) && <Ipv6Addr as Family>::acceptable(nh, own);
            assert(offers_v6(msg, n, nh));
        }
    }
}

/// Every IPv6 route that a processed UPDATE leaves with its peer is as it was before or fresh, of the
/// kind of the session that it came over.
pub proof fn received_routes_are_of_the_session_v6(
    before: DaemonView,
    p: IpAddr,
    msg: UpdateView,
    now: Instant,
    after: DaemonView,
    notification: Option<NotificationMessage>,
    work: Option<WorkView>,
    n: Nlri<Ipv6Addr>,
)
    requires
        update_outcome(before, p, msg, now, after, notification, work),
        is_processed(before, p, msg),
        before.adj_ribs_in_v6.contains_key(p),
        after.adj_ribs_in_v6[p].contains_key(n),
    ensures
        (before.adj_ribs_in_v6[p].contains_key(n) && after.adj_ribs_in_v6[p][n]
            == before.adj_ribs_in_v6[p][n]) || after.adj_ribs_in_v6[p][n].nlri == n && fresh_from_v6(
            before,
            p,
            msg,
            now,
            after.adj_ribs_in_v6[p][n],
        ),
{
    processed_update_settles_v6(before, p, msg, now, after, notification, work, n);
}

/// How many prefixes a peer may announce: after a processed UPDATE the answer is that there are too
/// many just where a table of the peer is over the limit of its family. Such a peer is kept out for the
/// time that is configured, and neither its count nor the kernel follows.
pub proof fn limits_hold_for_both_families(
    before: DaemonView,
    p: IpAddr,
    msg: UpdateView,
    now: Instant,
    after: DaemonView,
    notification: Option<NotificationMessage>,
    work: Option<WorkView>,
)
    requires
        update_outcome(before, p, msg, now, after, notification, work),
        is_processed(before, p, msg),
        before.adj_ribs_in_v6.contains_key(p),
    ensures
        ({
            let over_v4 = before.peer_max_prefixes_v4.contains_key(p)
                && after.adj_ribs_in[p].dom().len() > before.peer_max_prefixes_v4[p];
            let over_v6 = before.peer_max_prefixes_v6.contains_key(p)
                && after.adj_ribs_in_v6[p].dom().len() > before.peer_max_prefixes_v6[p];
            let told = notification is Some && notification->0.error == NotificationError::Cease(
                CeaseError::MaximumNumberOfPrefixesReached,
            );
            &&& told <==> over_v4 || over_v6
            &&& told ==> {
                &&& notification->0.data@.len() == 0
                &&& after.rib == before.rib
                &&& after.max_prefix_idle == (if before.peer_max_prefixes_restart.contains_key(p) {
                    before.max_prefix_idle.insert(
                        p,
                        now.spec_after(before.peer_max_prefixes_restart[p]),
                    )
                } else {
                    before.max_prefix_idle
                })
                &&& work is Some
                &&& !work->0.install && !work->0.install_v6 && !work->0.notify
                &&& work->0.spread is Nobody && work->0.spread_v6 is Nobody
                &&& work->0.watch.len() == 0
            }
            &&& !told ==> {
                &&& after.max_prefix_idle == before.max_prefix_idle
                &&& after.rib == (RibView {
                    prefixes_received: after.rib.prefixes_received,
                    ..before.rib
                })
                &&& after.rib.prefixes_received == before.rib.prefixes_received.insert(
                    p,
                    (after.adj_ribs_in[p].dom().len() + after.adj_ribs_in_v6[p].dom().len()) as u128,
                )
                &&& work is Some
                &&& work->0.install && work->0.install_v6 && work->0.notify
                &&& notification is Some <==> incomplete(msg)
                &&& notification matches Some(x) ==> {
                    &&& x.error == NotificationError::UpdateMessage(
                        UpdateMsgError::MissingWellKnownAttribute,
                    )
                    &&& x.data@.len() == 1
                    &&& x.data@[0] == (if !has_origin(msg) {
                        1u8
                    } else if !has_path(msg) {
                        2u8
                    } else {
                        3u8
                    })
                }
            }
        }),
{
    markers_are_plain(msg);
    reflector_is_plain(before, p, msg);
    attributes_are_from(before, p, msg);
    let m = before.prepared(p, msg);
    record_says_nothing(msg, m, before.rib.local_as);
    if !before.exceeds(p, m, now) {
        incomplete_update_is_answered(m, notification);
    }
}

/// A time to keep a peer out is as long as it is configured.
pub proof fn kept_out_as_long_as_configured(now: Instant, secs: u16)
    requires
        now.has_room(secs),
    ensures
        now.spec_after(secs).nanos == now.nanos + secs * 1_000_000_000,
{
}

/// A processed UPDATE touches nothing but the routes that its peer is known by: tables of received
/// routes, prefixes that are held, the count and the time that it is kept out.
pub proof fn updates_touch_nothing_else(
    before: DaemonView,
    p: IpAddr,
    msg: UpdateView,
    now: Instant,
    after: DaemonView,
    notification: Option<NotificationMessage>,
    work: Option<WorkView>,
)
    requires
        update_outcome(before, p, msg, now, after, notification, work),
        !is_marker_v4(msg),
        !is_marker_v6(msg),
    ensures
        after == (DaemonView {
            rib: RibView { prefixes_received: after.rib.prefixes_received, ..before.rib },
            adj_ribs_in: after.adj_ribs_in,
            adj_ribs_in_v6: after.adj_ribs_in_v6,
            max_prefix_idle: after.max_prefix_idle,
            gr: crate::gr::GrView {
                stale_nlri: after.gr.stale_nlri,
                stale_nlri_v6: after.gr.stale_nlri_v6,
                ..before.gr
            },
            ..before
        }),
        forall|q: IpAddr|
            q != p ==> {
                &&& after.rib.prefixes_received.contains_key(q)
                    == before.rib.prefixes_received.contains_key(q)
                &&& before.rib.prefixes_received.contains_key(q)
                    ==> #[trigger] after.rib.prefixes_received[q] == before.rib.prefixes_received[q]
            },
{
    markers_are_plain(msg);
}

/// Whether an UPDATE mentions an IPv4 prefix at all.
pub open spec fn mentions_v4(m: UpdateView, n: Nlri<Ipv4Addr>) -> bool {
    ||| m.withdrawn.contains(n)
    ||| m.announced.contains(n)
    ||| exists|i: int|
        0 <= i < m.attributes.len() && (reaches_v4(#[trigger] m.attributes[i], n) || unreaches_v4(
            m.attributes[i],
            n,
        ))
}

/// Whether an UPDATE mentions an IPv6 prefix at all.
pub open spec fn mentions_v6(m: UpdateView, n: Nlri<Ipv6Addr>) -> bool {
    exists|i: int|
        0 <= i < m.attributes.len() && (reaches_v6(#[trigger] m.attributes[i], n) || unreaches_v6(
            m.attributes[i],
            n,
        ))
}

/// The prefixes that attributes mention.
proof fn mentioned_members<A: Family>(s: Seq<PathAttribute>, n: Nlri<A>)
    ensures
        mp_mentioned::<A>(s).contains(n) <==> exists|i: int|
            0 <= i < s.len() && (reached_by::<A>(#[trigger] s[i]).contains(n) || unreached_by::<A>(
                s[i],
            ).contains(n)),
    decreases s.len(),
{
    let r = mp_mentioned::<A>(s);
    if s.len() > 0 {
        let t = s.drop_last();
        let q = mp_mentioned::<A>(t);
        let l = s.len() - 1;
        let a = reached_by::<A>(s[l]);
        let b = unreached_by::<A>(s[l]);
        mentioned_members::<A>(t, n);
        assert(r =~= q + a + b);
        assert(r.contains(n) <==> q.contains(n) || a.contains(n) || b.contains(n)) by {
            if q.contains(n) {
                let k = q.index_of(n);
                assert(r[k] == n);
            }
            if a.contains(n) {
                let k = a.index_of(n);
                assert(r[q.len() + k] == n);
            }
            if b.contains(n) {
                let k = b.index_of(n);
                assert(r[q.len() + a.len() + k] == n);
            }
            if r.contains(n) {
                let k = r.index_of(n);
                if k < q.len() {
                    assert(q[k] == n);
                } else if k < q.len() + a.len() {
                    assert(a[k - q.len()] == n);
                } else {
                    assert(b[k - q.len() - a.len()] == n);
                }
            }
        }
        if q.contains(n) {
            let i = choose|i: int|
                0 <= i < t.len() && (reached_by::<A>(#[trigger] t[i]).contains(n)
                    || unreached_by::<A>(t[i]).contains(n));
            assert(s[i] == t[i]);
        }
        if exists|i: int|
            0 <= i < s.len() && (reached_by::<A>(#[trigger] s[i]).contains(n) || unreached_by::<A>(
                s[i],
            ).contains(n)) {
            let i = choose|i: int|
                0 <= i < s.len() && (reached_by::<A>(#[trigger] s[i]).contains(n)
                    || unreached_by::<A>(s[i]).contains(n));
            if i < l {
                assert(t[i] == s[i]);
            }
        }
    }
}

/// Whom a processed UPDATE within the limits concerns: every peer with a session hears of just the
/// prefixes that it mentions, and the IPv4 ones among them are reported.
pub proof fn mentioned_prefixes_are_spread(
    before: DaemonView,
    p: IpAddr,
    msg: UpdateView,
    now: Instant,
    after: DaemonView,
    notification: Option<NotificationMessage>,
    work: Option<WorkView>,
    n: Nlri<Ipv4Addr>,
    k: Nlri<Ipv6Addr>,
)
    requires
        update_outcome(before, p, msg, now, after, notification, work),
        is_processed(before, p, msg),
        work is Some,
        work->0.notify,
    ensures
        work->0.spread is Everyone,
        work->0.spread->Everyone_0.contains(n) <==> mentions_v4(msg, n),
        work->0.watch.contains(n) <==> mentions_v4(msg, n),
        mentions_v6(msg, k) ==> work->0.spread_v6 is Everyone && work->0.spread_v6->Everyone_0.contains(
            k,
        ),
        !mentions_v6(msg, k) ==> work->0.spread_v6 is Nobody || (work->0.spread_v6 is Everyone
            && !work->0.spread_v6->Everyone_0.contains(k)),
{
    markers_are_plain(msg);
    reflector_is_plain(before, p, msg);
    attributes_are_from(before, p, msg);
    let m = before.prepared(p, msg);
    let s = msg.attributes;
    let q = m.attributes;
    mentioned_members::<Ipv4Addr>(q, n);
    mentioned_members::<Ipv6Addr>(q, k);
    assert forall|i: int| 0 <= i < q.len() implies reached_by::<Ipv4Addr>(#[trigger] q[i]).contains(n)
        == reaches_v4(q[i], n) && unreached_by::<Ipv4Addr>(q[i]).contains(n) == unreaches_v4(q[i], n) by {
        listed_v4(q[i], n);
    }
    assert forall|i: int| 0 <= i < q.len() implies reached_by::<Ipv6Addr>(#[trigger] q[i]).contains(k)
        == reaches_v6(q[i], k) && unreached_by::<Ipv6Addr>(q[i]).contains(k) == unreaches_v6(q[i], k) by {
        listed_v6(q[i], k);
    }
    let a = mp_mentioned::<Ipv4Addr>(q);
    assert(a.contains(n) <==> exists|i: int|
        0 <= i < s.len() && (reaches_v4(#[trigger] s[i], n) || unreaches_v4(s[i], n))) by {
        if a.contains(n) {
            let i = choose|i: int|
                0 <= i < q.len() && (reached_by::<Ipv4Addr>(#[trigger] q[i]).contains(n)
                    || unreached_by::<Ipv4Addr>(q[i]).contains(n));
            assert(!is_record(q[i]));
            assert(s[i] == q[i]);
        }
        if exists|i: int| 0 <= i < s.len() && (reaches_v4(#[trigger] s[i], n) || unreaches_v4(s[i], n)) {
            let i = choose|i: int|
                0 <= i < s.len() && (reaches_v4(#[trigger] s[i], n) || unreaches_v4(s[i], n));
            assert(q[i] == s[i]);
        }
    }
    let b = mp_mentioned::<Ipv6Addr>(q);
    assert(b.contains(k) <==> mentions_v6(msg, k)) by {
        if b.contains(k) {
            let i = choose|i: int|
                0 <= i < q.len() && (reached_by::<Ipv6Addr>(#[trigger] q[i]).contains(k)
                    || unreached_by::<Ipv6Addr>(q[i]).contains(k));
            assert(!is_record(q[i]));
            assert(s[i] == q[i]);
        }
        if mentions_v6(msg, k) {
            let i = choose|i: int|
                0 <= i < s.len() && (reaches_v6(#[trigger] s[i], k) || unreaches_v6(s[i], k));
            assert(q[i] == s[i]);
        }
    }
    let all = msg.withdrawn + msg.announced + a;
    assert(work->0.watch == all);
    assert(all.contains(n) <==> msg.withdrawn.contains(n) || msg.announced.contains(n) || a.contains(n))
        by {
        if msg.withdrawn.contains(n) {
            let i = msg.withdrawn.index_of(n);
            assert(all[i] == n);
        }
        if msg.announced.contains(n) {
            let i = msg.announced.index_of(n);
            assert(all[msg.withdrawn.len() + i] == n);
        }
        if a.contains(n) {
            let i = a.index_of(n);
            assert(all[msg.withdrawn.len() + msg.announced.len() + i] == n);
        }
        if all.contains(n) {
            let i = all.index_of(n);
            if i < msg.withdrawn.len() {
                assert(msg.withdrawn[i] == n);
            } else if i < msg.withdrawn.len() + msg.announced.len() {
                assert(msg.announced[i - msg.withdrawn.len()] == n);
            } else {
                assert(a[i - msg.withdrawn.len() - msg.announced.len()] == n);
            }
        }
    }
}

/// What a peer announces is no longer held for it: of the prefixes that are held, a processed UPDATE
/// takes out just those that it announces, whatever their next hop.
pub proof fn announced_prefixes_are_held_no_longer(
    before: DaemonView,
    p: IpAddr,
    msg: UpdateView,
    now: Instant,
    after: DaemonView,
    notification: Option<NotificationMessage>,
    work: Option<WorkView>,
    n: Nlri<Ipv4Addr>,
    k: Nlri<Ipv6Addr>,
)
    requires
        update_outcome(before, p, msg, now, after, notification, work),
        is_processed(before, p, msg),
    ensures
        after.gr.stale_nlri.dom() == before.gr.stale_nlri.dom(),
        after.gr.stale_nlri_v6.dom() == before.gr.stale_nlri_v6.dom(),
        before.gr.stale_nlri.contains_key(p) ==> (after.gr.stale_nlri[p].contains(n)
            <==> before.gr.stale_nlri[p].contains(n) && !(exists|nh: Option<NextHop>| #[trigger]
            offers_v4(msg, n, nh))),
        before.gr.stale_nlri_v6.contains_key(p) ==> (after.gr.stale_nlri_v6[p].contains(k)
            <==> before.gr.stale_nlri_v6[p].contains(k) && !(exists|nh: Option<NextHop>| #[trigger]
            offers_v6(msg, k, nh))),
        forall|q: IpAddr|
            q != p && before.gr.stale_nlri.contains_key(q) ==> #[trigger] after.gr.stale_nlri[q]
                == before.gr.stale_nlri[q],
        forall|q: IpAddr|
            q != p && before.gr.stale_nlri_v6.contains_key(q) ==> #[trigger] after.gr.stale_nlri_v6[q]
                == before.gr.stale_nlri_v6[q],
{
    markers_are_plain(msg);
    reflector_is_plain(before, p, msg);
    attributes_are_from(before, p, msg);
    let m = before.prepared(p, msg);
    record_says_nothing(msg, m, before.rib.local_as);
    assert(after.gr.stale_nlri.dom() =~= before.gr.stale_nlri.dom());
    assert(after.gr.stale_nlri_v6.dom() =~= before.gr.stale_nlri_v6.dom());
    announced_prefixes_v4(m, n);
    announced_prefixes_v6(m, k);
    assert((exists|nh: Option<NextHop>| #[trigger] offers_v4(m, n, nh)) == (exists|
        nh: Option<NextHop>,
    | #[trigger]
        offers_v4(msg, n, nh))) by {
        if exists|nh: Option<NextHop>| #[trigger] offers_v4(m, n, nh) {
            let nh = choose|nh: Option<NextHop>| #[trigger] offers_v4(m, n, nh);
            assert(offers_v4(msg, n, nh));
        }
        if exists|nh: Option<NextHop>| #[trigger] offers_v4(msg, n, nh) {
            let nh = choose|nh: Option<NextHop>| #[trigger] offers_v4(msg, n, nh);
            assert(offers_v4(m, n, nh));
        }
    }
    assert((exists|nh: Option<NextHop>| #[trigger] offers_v6(m, k, nh)) == (exists|
        nh: Option<NextHop>,
    | #[trigger]
        offers_v6(msg, k, nh))) by {
        if exists|nh: Option<NextHop>| #[trigger] offers_v6(m, k, nh) {
            let nh = choose|nh: Option<NextHop>| #[trigger] offers_v6(m, k, nh);
            assert(offers_v6(msg, k, nh));
        }
        if exists|nh: Option<NextHop>| #[trigger] offers_v6(msg, k, nh) {
            let nh = choose|nh: Option<NextHop>| #[trigger] offers_v6(msg, k, nh);
            assert(offers_v6(m, k, nh));
        }
    }
}

/// The IPv4 prefixes that an UPDATE announces.
proof fn announced_prefixes_v4(m: UpdateView, n: Nlri<Ipv4Addr>)
    ensures
        crate::inbound::all_announced_v4(m).to_set().contains(n) <==> exists|nh: Option<NextHop>|
            #[trigger] offers_v4(m, n, nh),
{
    let s = m.attributes;
    let mp = mp_announced::<Ipv4Addr>(s);
    let list = crate::inbound::prefixes_of(mp);
    let all = crate::inbound::all_announced_v4(m);
    assert(all.to_set().contains(n) == all.contains(n));
    if all.contains(n) {
        let i = all.index_of(n);
        if i < m.announced.len() {
            assert(m.announced[i] == n);
            crate::update_laws::hop_is_last(s);
            let nh = match crate::update::next_hop_attribute(s) {
                Some(ip) => Some(NextHop::V4(ip)),
                None => None,
            };
            assert(offers_v4(m, n, nh));
        } else {
            let j = i - m.announced.len();
            assert(list[j] == n);
            assert(mp.contains((n, mp[j].1)));
            announced_members::<Ipv4Addr>(s, n, mp[j].1);
            let a = choose|a: int|
                0 <= a < s.len() && reached_by::<Ipv4Addr>(#[trigger] s[a]).contains(n) && mp[j].1
                    == Some(s[a]->MpReachNlri_0.next_hop);
            listed_v4(s[a], n);
            assert(offers_v4(m, n, mp[j].1));
        }
    }
    if exists|nh: Option<NextHop>| #[trigger] offers_v4(m, n, nh) {
        let nh = choose|nh: Option<NextHop>| #[trigger] offers_v4(m, n, nh);
        if m.announced.contains(n) {
            let i = m.announced.index_of(n);
            assert(all[i] == n);
        } else {
            let a = choose|a: int|
                0 <= a < s.len() && reaches_v4(#[trigger] s[a], n) && nh == Some(
                    s[a]->MpReachNlri_0.next_hop,
                );
            listed_v4(s[a], n);
            announced_members::<Ipv4Addr>(s, n, nh);
            assert(mp.contains((n, nh)));
            let j = mp.index_of((n, nh));
            assert(list[j] == n);
            assert(all[m.announced.len() + j] == n);
        }
    }
}

/// The IPv6 prefixes that an UPDATE announces.
proof fn announced_prefixes_v6(m: UpdateView, n: Nlri<Ipv6Addr>)
    ensures
        crate::inbound::prefixes_of(mp_announced::<Ipv6Addr>(m.attributes)).to_set().contains(n)
            <==> exists|nh: Option<NextHop>| #[trigger] offers_v6(m, n, nh),
{
    let s = m.attributes;
    let mp = mp_announced::<Ipv6Addr>(s);
    let list = crate::inbound::prefixes_of(mp);
    assert(list.to_set().contains(n) == list.contains(n));
    if list.contains(n) {
        let j = list.index_of(n);
        assert(mp.contains((n, mp[j].1)));
        announced_members::<Ipv6Addr>(s, n, mp[j].1);
        let a = choose|a: int|
            0 <= a < s.len() && reached_by::<Ipv6Addr>(#[trigger] s[a]).contains(n) && mp[j].1 == Some(
                s[a]->MpReachNlri_0.next_hop,
            );
        listed_v6(s[a], n);
        assert(offers_v6(m, n, mp[j].1));
    }
    if exists|nh: Option<NextHop>| #[trigger] offers_v6(m, n, nh) {
        let nh = choose|nh: Option<NextHop>| #[trigger] offers_v6(m, n, nh);
        let a = choose|a: int|
            0 <= a < s.len() && reaches_v6(#[trigger] s[a], n) && nh == Some(
                s[a]->MpReachNlri_0.next_hop,
            );
        listed_v6(s[a], n);
        announced_members::<Ipv6Addr>(s, n, nh);
        let j = mp.index_of((n, nh));
        assert(list[j] == n);
    }
}

/// What the End-of-RIB marker for IPv4 does: the initial table is complete, and each prefix that is
/// still held for the peer loses its route, is dropped as a candidate and is made known to the other
/// peers. Nothing else is touched but null routes in the kernel.
pub proof fn marker_v4_takes_what_is_held(
    before: DaemonView,
    p: IpAddr,
    msg: UpdateView,
    now: Instant,
    after: DaemonView,
    notification: Option<NotificationMessage>,
    work: Option<WorkView>,
    n: Nlri<Ipv4Addr>,
)
    requires
        update_outcome(before, p, msg, now, after, notification, work),
        is_marker_v4(msg),
    ensures
        notification is None,
        after == (DaemonView {
            rib: RibView {
                eor_received: before.rib.eor_received.insert(p),
                ..before.rib
            },
            gr: crate::gr::GrView {
                stale_nlri: before.gr.stale_nlri.remove(p),
                ..before.gr
            },
            adj_ribs_in: after.adj_ribs_in,
            fib_manager: after.fib_manager,
            ..before
        }),
        after.adj_ribs_in.dom() == before.adj_ribs_in.dom(),
        forall|q: IpAddr|
            q != p && before.adj_ribs_in.contains_key(q) ==> #[trigger] after.adj_ribs_in[q]
                == before.adj_ribs_in[q],
        before.adj_ribs_in.contains_key(p) ==> {
            let held = before.gr.stale_nlri.contains_key(p) && before.gr.stale_nlri[p].contains(
                n,
            );
            &&& after.adj_ribs_in[p].contains_key(n) <==> before.adj_ribs_in[p].contains_key(n)
                && !held
            &&& after.adj_ribs_in[p].contains_key(n) ==> after.adj_ribs_in[p][n]
                == before.adj_ribs_in[p][n]
        },
        before.gr.stale_nlri.contains_key(p) && before.gr.stale_nlri[p].contains(n)
            ==> work is Some,
        work matches Some(w) ==> {
            &&& w.peer == p
            &&& before.gr.stale_nlri.contains_key(p)
            &&& w.ops.contains(RibOp::Withdraw(n)) <==> before.gr.stale_nlri[p].contains(n)
            &&& forall|i: int| 0 <= i < w.ops.len() ==> (#[trigger] w.ops[i]) is Withdraw
            &&& w.spread is Others
            &&& w.spread->Others_0.contains(n) <==> before.gr.stale_nlri[p].contains(n)
            &&& w.ops_v6.len() == 0
            &&& w.spread_v6 is Nobody
            &&& w.install && w.install_v6 && !w.notify
            &&& w.null_routes.len() == 0 && w.null_routes_v6.len() == 0
            &&& w.lifted.len() == 0 && w.lifted_v6.len() == 0
            &&& forall|x: Nlri<Ipv4Addr>| w.watch.contains(x) <==> before.rib.loc_rib.contains_key(x)
        },
        match (before.fib_manager, after.fib_manager) {
            (Some(f), Some(g)) => {
                let gone = before.adj_ribs_in.contains_key(p)
                    && before.gr.stale_nlri.contains_key(p)
                    && before.gr.stale_nlri[p].contains(n)
                    && before.adj_ribs_in[p].contains_key(n)
                    && before.adj_ribs_in[p][n].attributes.is_blackhole();
                &&& gone ==> g.v4.contains_key(n) && g.v4[n] is Withdraw
                &&& !gone ==> g.v4.contains_key(n) == f.v4.contains_key(n) && (f.v4.contains_key(n)
                    ==> g.v4[n] == f.v4[n])
                &&& g.v6 == f.v6
            },
            (None, None) => true,
            _ => false,
        },
{
    markers_are_plain(msg);
    let stale = get_or(before.gr.stale_nlri, p, Set::empty());
    assert(after.adj_ribs_in.dom() =~= before.adj_ribs_in.dom());
    if stale == Set::<Nlri<Ipv4Addr>>::empty() {
    } else {
        let w = work->0;
        let l = w.spread->Others_0;
        assert(l.to_set().contains(n) == l.contains(n));
        if l.contains(n) {
            let i = l.index_of(n);
            assert(w.ops[i] == RibOp::Withdraw(n));
        }
        if w.ops.contains(RibOp::Withdraw(n)) {
            let i = w.ops.index_of(RibOp::Withdraw(n));
            assert(l[i] == n);
        }
        assert forall|x: Nlri<Ipv4Addr>| w.watch.to_set().contains(x) == w.watch.contains(x) by {}
    }
}

/// What the End-of-RIB marker for IPv6 does: the initial table is complete, and each prefix that is
/// still held for the peer loses its route, is dropped as a candidate and is made known to the other
/// peers. Nothing else is touched but null routes in the kernel.
pub proof fn marker_v6_takes_what_is_held(
    before: DaemonView,
    p: IpAddr,
    msg: UpdateView,
    now: Instant,
    after: DaemonView,
    notification: Option<NotificationMessage>,
    work: Option<WorkView>,
    n: Nlri<Ipv6Addr>,
)
    requires
        update_outcome(before, p, msg, now, after, notification, work),
        is_marker_v6(msg),
    ensures
        notification is None,
        after == (DaemonView {
            rib: RibView {
                eor_received_v6: before.rib.eor_received_v6.insert(p),
                ..before.rib
            },
            gr: crate::gr::GrView {
                stale_nlri_v6: before.gr.stale_nlri_v6.remove(p),
                ..before.gr
            },
            adj_ribs_in_v6: after.adj_ribs_in_v6,
            fib_manager: after.fib_manager,
            ..before
        }),
        after.adj_ribs_in_v6.dom() == before.adj_ribs_in_v6.dom(),
        forall|q: IpAddr|
            q != p && before.adj_ribs_in_v6.contains_key(q) ==> #[trigger] after.adj_ribs_in_v6[q]
                == before.adj_ribs_in_v6[q],
        before.adj_ribs_in_v6.contains_key(p) ==> {
            let held = before.gr.stale_nlri_v6.contains_key(p) && before.gr.stale_nlri_v6[p].contains(
                n,
            );
            &&& after.adj_ribs_in_v6[p].contains_key(n) <==> before.adj_ribs_in_v6[p].contains_key(n)
                && !held
            &&& after.adj_ribs_in_v6[p].contains_key(n) ==> after.adj_ribs_in_v6[p][n]
                == before.adj_ribs_in_v6[p][n]
        },
        before.gr.stale_nlri_v6.contains_key(p) && before.gr.stale_nlri_v6[p].contains(n)
            ==> work is Some,
        work matches Some(w) ==> {
            &&& w.peer == p
            &&& before.gr.stale_nlri_v6.contains_key(p)
            &&& w.ops_v6.contains(RibOp::Withdraw(n)) <==> before.gr.stale_nlri_v6[p].contains(n)
            &&& forall|i: int| 0 <= i < w.ops_v6.len() ==> (#[trigger] w.ops_v6[i]) is Withdraw
            &&& w.spread_v6 is Others
            &&& w.spread_v6->Others_0.contains(n) <==> before.gr.stale_nlri_v6[p].contains(n)
            &&& w.ops.len() == 0
            &&& w.spread is Nobody
            &&& w.install && w.install_v6 && !w.notify
            &&& w.null_routes.len() == 0 && w.null_routes_v6.len() == 0
            &&& w.lifted.len() == 0 && w.lifted_v6.len() == 0
            &&& w.watch.len() == 0
        },
        match (before.fib_manager, after.fib_manager) {
            (Some(f), Some(g)) => {
                let gone = before.adj_ribs_in_v6.contains_key(p)
                    && before.gr.stale_nlri_v6.contains_key(p)
                    && before.gr.stale_nlri_v6[p].contains(n)
                    && before.adj_ribs_in_v6[p].contains_key(n)
                    && before.adj_ribs_in_v6[p][n].attributes.is_blackhole();
                &&& gone ==> g.v6.contains_key(n) && g.v6[n] is Withdraw
                &&& !gone ==> g.v6.contains_key(n) == f.v6.contains_key(n) && (f.v6.contains_key(n)
                    ==> g.v6[n] == f.v6[n])
                &&& g.v4 == f.v4
            },
            (None, None) => true,
            _ => false,
        },
{
    markers_are_plain(msg);
    let stale = get_or(before.gr.stale_nlri_v6, p, Set::empty());
    assert(after.adj_ribs_in_v6.dom() =~= before.adj_ribs_in_v6.dom());
    if stale == Set::<Nlri<Ipv6Addr>>::empty() {
    } else {
        let w = work->0;
        let l = w.spread_v6->Others_0;
        assert(l.to_set().contains(n) == l.contains(n));
        if l.contains(n) {
            let i = l.index_of(n);
            assert(w.ops_v6[i] == RibOp::Withdraw(n));
        }
        if w.ops_v6.contains(RibOp::Withdraw(n)) {
            let i = w.ops_v6.index_of(RibOp::Withdraw(n));
            assert(l[i] == n);
        }
        assert forall|x: Nlri<Ipv4Addr>| w.watch.to_set().contains(x) == w.watch.contains(x) by {}
    }
}

} // verus!
