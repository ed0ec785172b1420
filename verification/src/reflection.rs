//! Route reflection and End-of-RIB markers.
use std::sync::Arc;

use vstd::prelude::*;

use crate::clock::Instant;
use crate::message::{ClusterList, PathAttribute, PeerType, UpdateMessage, UpdateView};
use crate::net::{AfiSafi, Ipv4Addr, Ipv6Addr, NextHop, Nlri};
use crate::route::Attributes;
use crate::update::{
    effective_announcements, effective_announcements_v6, maker_v4, maker_v6, routes_v4, routes_v6,
    Family, Maker,
};

verus! {

/// The family that a marker closes the initial table of.
#[derive(Clone, Copy, Debug, PartialEq, Eq, Structural)]
pub enum EndOfRib {
    V4,
    V6,
}

/// The End-of-RIB marker that an UPDATE is, if it is one: with every field empty it is the marker
/// for IPv4, with an empty MP_UNREACH_NLRI for IPv6 unicast alone it is the one for IPv6.
pub open spec fn marker(m: UpdateView) -> Option<EndOfRib> {
    if m.withdrawn.len() == 0 && m.announced.len() == 0 {
        if m.attributes.len() == 0 {
            Some(EndOfRib::V4)
        } else if m.attributes.len() == 1 && empty_v6_unreach(m.attributes[0]) {
            Some(EndOfRib::V6)
        } else {
            None
        }
    } else {
        None
    }
}

/// Whether an attribute withdraws nothing from IPv6 unicast.
pub open spec fn empty_v6_unreach(a: PathAttribute) -> bool {
    a matches PathAttribute::MpUnreachNlri(u) && u.afi_safi == AfiSafi::ipv6_unicast()
        && u.prefixes@.len() == 0
}

/// The End-of-RIB marker that an UPDATE is, if it is one.
pub fn end_of_rib(msg: &UpdateMessage) -> (r: Option<EndOfRib>)
    ensures
        r == marker(msg@),
{
    if msg.withdrawn.len() != 0 || msg.announced.len() != 0 {
        return None;
    }
    if msg.attributes.len() == 0 {
        return Some(EndOfRib::V4);
    }
    if msg.attributes.len() == 1 {
        if let PathAttribute::MpUnreachNlri(u) = &msg.attributes[0] {
            if u.afi_safi == AfiSafi::ipv6_unicast() && u.prefixes.len() == 0 {
                return Some(EndOfRib::V6);
            }
        }
    }
    None
}

/// Whether an attribute says that the router `id` brought the route into the system.
pub open spec fn originated_by(a: PathAttribute, id: Ipv4Addr) -> bool {
    a == PathAttribute::OriginatorId(id)
}

/// Whether an attribute lists the cluster `id`.
pub open spec fn passed_cluster(a: PathAttribute, id: u32) -> bool {
    a matches PathAttribute::ClusterList(l) && l.ids().contains(id)
}

/// Whether a route has come back to the reflector: it started here, or has been through the local
/// cluster.
pub open spec fn returned(s: Seq<PathAttribute>, local_id: Ipv4Addr, cluster_id: u32) -> bool {
    exists|i: int|
        0 <= i < s.len() && (originated_by(#[trigger] s[i], local_id) || passed_cluster(
            s[i],
            cluster_id,
        ))
}

/// Whether some attribute names an originator.
pub open spec fn has_originator(s: Seq<PathAttribute>) -> bool {
    exists|i: int| 0 <= i < s.len() && (#[trigger] s[i]) is OriginatorId
}

/// The attributes with an originator: `id`, where none is named.
pub open spec fn with_originator(s: Seq<PathAttribute>, id: Ipv4Addr) -> Seq<PathAttribute> {
    if has_originator(s) {
        s
    } else {
        s.push(PathAttribute::OriginatorId(id))
    }
}

/// The attributes with the cluster `id` in front of the first cluster list, which is added where
/// there is none.
pub open spec fn with_cluster(s: Seq<PathAttribute>, id: u32) -> Seq<PathAttribute>
    decreases s.len(),
{
    if s.len() == 0 {
        seq![
            PathAttribute::ClusterList(
                ClusterList::Prepended(id, Arc::new(ClusterList::Empty)),
            ),
        ]
    } else {
        match s[0] {
            PathAttribute::ClusterList(l) => seq![
                PathAttribute::ClusterList(ClusterList::Prepended(id, Arc::new(l))),
            ] + s.drop_first(),
            _ => seq![s[0]] + with_cluster(s.drop_first(), id),
        }
    }
}

/// The attributes of a route once the reflector has put itself on record.
pub open spec fn reflected(s: Seq<PathAttribute>, cluster_id: u32, source_id: Ipv4Addr) -> Seq<
    PathAttribute,
> {
    with_cluster(with_originator(s, source_id), cluster_id)
}

/// Whether a route has come back to the reflector.
fn has_returned(attributes: &Vec<PathAttribute>, local_id: Ipv4Addr, cluster_id: u32) -> (r: bool)
    ensures
        r == returned(attributes@, local_id, cluster_id),
{
    let mut i: usize = 0;
    while i < attributes.len()
        invariant
            0 <= i <= attributes.len(),
            forall|j: int|
                0 <= j < i ==> !originated_by(#[trigger] attributes@[j], local_id)
                    && !passed_cluster(attributes@[j], cluster_id),
        decreases attributes.len() - i,
    {
        match &attributes[i] {
            PathAttribute::OriginatorId(id) => if *id == local_id {
                assert(originated_by(attributes@[i as int], local_id));
                return true;
            },
            PathAttribute::ClusterList(l) => if l.contains(cluster_id) {
                assert(passed_cluster(attributes@[i as int], cluster_id));
                return true;
            },
            _ => {},
        }
        i = i + 1;
    }
    false
}

/// Names `id` as the originator, where none is named.
fn add_originator(attributes: &mut Vec<PathAttribute>, id: Ipv4Addr)
    ensures
        final(attributes)@ == with_originator(old(attributes)@, id),
{
    let mut i: usize = 0;
    while i < attributes.len()
        invariant
            0 <= i <= attributes.len(),
            attributes@ == old(attributes)@,
            forall|j: int| 0 <= j < i ==> !((#[trigger] attributes@[j]) is OriginatorId),
        decreases attributes.len() - i,
    {
        if let PathAttribute::OriginatorId(_) = &attributes[i] {
            assert(has_originator(attributes@));
            return ;
        }
        i = i + 1;
    }
    attributes.push(PathAttribute::OriginatorId(id));
}

/// Where the first cluster list stands, the outcome of [`with_cluster`] there.
proof fn with_cluster_at(s: Seq<PathAttribute>, id: u32, k: int)
    requires
        0 <= k <= s.len(),
        forall|j: int| 0 <= j < k ==> !((#[trigger] s[j]) is ClusterList),
        k < s.len() ==> s[k] is ClusterList,
    ensures
        k < s.len() ==> with_cluster(s, id) == s.update(
            k,
            PathAttribute::ClusterList(
                ClusterList::Prepended(id, Arc::new(s[k]->ClusterList_0)),
            ),
        ),
        k == s.len() ==> with_cluster(s, id) == s.push(
            PathAttribute::ClusterList(
                ClusterList::Prepended(id, Arc::new(ClusterList::Empty)),
            ),
        ),
    decreases s.len(),
{
    if s.len() > 0 {
        if k > 0 {
            let t = s.drop_first();
            assert forall|j: int| 0 <= j < k - 1 implies !((#[trigger] t[j]) is ClusterList) by {
                assert(t[j] == s[j + 1]);
            }
            with_cluster_at(t, id, k - 1);
            assert(!(s[0] is ClusterList));
            if k < s.len() {
                assert(with_cluster(s, id) =~= s.update(
                    k,
                    PathAttribute::ClusterList(
                        ClusterList::Prepended(id, Arc::new(s[k]->ClusterList_0)),
                    ),
                ));
            } else {
                assert(with_cluster(s, id) =~= s.push(
                    PathAttribute::ClusterList(
                        ClusterList::Prepended(id, Arc::new(ClusterList::Empty)),
                    ),
                ));
            }
        } else {
            assert(with_cluster(s, id) =~= s.update(
                0,
                PathAttribute::ClusterList(
                    ClusterList::Prepended(id, Arc::new(s[0]->ClusterList_0)),
                ),
            ));
        }
    } else {
        assert(with_cluster(s, id) =~= s.push(
            PathAttribute::ClusterList(
                ClusterList::Prepended(id, Arc::new(ClusterList::Empty)),
            ),
        ));
    }
}

/// Puts the cluster `id` in front of the first cluster list.
fn prepend_cluster(attributes: &mut Vec<PathAttribute>, id: u32)
    ensures
        final(attributes)@ == with_cluster(old(attributes)@, id),
{
    let ghost before = attributes@;
    let mut i: usize = 0;
    while i < attributes.len()
        invariant
            0 <= i <= attributes.len(),
            attributes@ == before,
            before == old(attributes)@,
            forall|j: int| 0 <= j < i ==> !((#[trigger] before[j]) is ClusterList),
        decreases attributes.len() - i,
    {
        if let PathAttribute::ClusterList(l) = &attributes[i] {
            let longer = ClusterList::Prepended(id, Arc::new(l.share()));
            proof {
                with_cluster_at(before, id, i as int);
            }
            attributes.set(i, PathAttribute::ClusterList(longer));
            return ;
        }
        i = i + 1;
    }
    proof {
        with_cluster_at(before, id, i as int);
    }
    attributes.push(
        PathAttribute::ClusterList(ClusterList::Prepended(id, Arc::new(ClusterList::Empty))),
    );
}

/// What a reflector does to the attributes of an UPDATE from an internal peer. One that has come
/// back is to be discarded; any other gets the peer as its originator, unless it names one, and
/// the local cluster at the front of its cluster list. Returns whether the UPDATE is to be kept.
pub fn reflect_inbound(
    attributes: &mut Vec<PathAttribute>,
    cluster_id: u32,
    local_id: Ipv4Addr,
    source_id: Ipv4Addr,
) -> (kept: bool)
    ensures
        kept == !returned(old(attributes)@, local_id, cluster_id),
        kept ==> final(attributes)@ == reflected(old(attributes)@, cluster_id, source_id),
        !kept ==> final(attributes)@ == old(attributes)@,
{
    if has_returned(attributes, local_id, cluster_id) {
        return false;
    }
    add_originator(attributes, source_id);
    prepend_cluster(attributes, cluster_id);
    true
}

/// A reflected route that comes back to the reflector is recognised, whoever it came from.
pub proof fn reflected_route_is_recognised(
    s: Seq<PathAttribute>,
    cluster_id: u32,
    source_id: Ipv4Addr,
    local_id: Ipv4Addr,
)
    ensures
        returned(reflected(s, cluster_id, source_id), local_id, cluster_id),
{
    carries_cluster(with_originator(s, source_id), cluster_id);
}

/// With the cluster in front of its list, some attribute lists the cluster.
proof fn carries_cluster(s: Seq<PathAttribute>, id: u32)
    ensures
        exists|i: int|
            0 <= i < with_cluster(s, id).len() && passed_cluster(#[trigger] with_cluster(s, id)[i], id),
    decreases s.len(),
{
    let r = with_cluster(s, id);
    if s.len() == 0 {
        let l = ClusterList::Prepended(id, Arc::new(ClusterList::Empty));
        assert(l.ids()[0] == id);
        assert(passed_cluster(r[0], id));
    } else if s[0] is ClusterList {
        let l = ClusterList::Prepended(id, Arc::new(s[0]->ClusterList_0));
        assert(l.ids()[0] == id);
        assert(r[0] == PathAttribute::ClusterList(l));
        assert(passed_cluster(r[0], id));
    } else {
        carries_cluster(s.drop_first(), id);
        let t = with_cluster(s.drop_first(), id);
        let k = choose|i: int| 0 <= i < t.len() && passed_cluster(#[trigger] t[i], id);
        assert(r[k + 1] == t[k]);
        assert(passed_cluster(r[k + 1], id));
    }
}

/// Reflection adds to an UPDATE and drops nothing: every attribute that is not a cluster list is
/// still there.
pub proof fn reflection_keeps_attributes(
    s: Seq<PathAttribute>,
    cluster_id: u32,
    source_id: Ipv4Addr,
    a: PathAttribute,
)
    requires
        s.contains(a),
        !(a is ClusterList),
    ensures
        reflected(s, cluster_id, source_id).contains(a),
        has_originator(reflected(s, cluster_id, source_id)),
{
    let w = with_originator(s, source_id);
    let i = s.index_of(a);
    assert(w[i] == a);
    cluster_keeps(w, cluster_id, i);
    let k = if has_originator(s) {
        choose|i: int| 0 <= i < s.len() && (#[trigger] s[i]) is OriginatorId
    } else {
        s.len() as int
    };
    assert(w[k] is OriginatorId);
    cluster_keeps(w, cluster_id, k);
}

/// Putting a cluster in front leaves every other attribute in its place.
proof fn cluster_keeps(s: Seq<PathAttribute>, id: u32, i: int)
    requires
        0 <= i < s.len(),
        !(s[i] is ClusterList),
    ensures
        i < with_cluster(s, id).len(),
        with_cluster(s, id)[i] == s[i],
    decreases s.len(),
{
    if !(s[0] is ClusterList) && i > 0 {
        assert(s.drop_first()[i - 1] == s[i]);
        cluster_keeps(s.drop_first(), id, i - 1);
    }
}

/// Where one attribute alone is a cluster list, it is the one that counts.
proof fn lone_cluster_counts(s: Seq<PathAttribute>, k: int)
    requires
        0 <= k < s.len(),
        s[k] is ClusterList,
        forall|j: int| 0 <= j < s.len() && j != k ==> !((#[trigger] s[j]) is ClusterList),
    ensures
        Attributes::of(s).cluster_list == Some(s[k]->ClusterList_0),
    decreases s.len(),
{
    if k < s.len() - 1 {
        let t = s.drop_last();
        assert forall|j: int| 0 <= j < t.len() && j != k implies !((
        #[trigger] t[j]) is ClusterList) by {
            assert(t[j] == s[j]);
        }
        lone_cluster_counts(t, k);
        assert(!(s[s.len() - 1] is ClusterList));
    }
}

/// Some originator counts where one is named, and one that is named alone is the one.
proof fn originator_counts(s: Seq<PathAttribute>, k: int)
    requires
        0 <= k < s.len(),
        s[k] is OriginatorId,
    ensures
        Attributes::of(s).originator_id is Some,
        (forall|j: int| 0 <= j < s.len() && j != k ==> !((#[trigger] s[j]) is OriginatorId))
            ==> Attributes::of(s).originator_id == Some(s[k]->OriginatorId_0),
    decreases s.len(),
{
    if k < s.len() - 1 {
        let t = s.drop_last();
        assert(t[k] == s[k]);
        originator_counts(t, k);
        if forall|j: int| 0 <= j < s.len() && j != k ==> !((#[trigger] s[j]) is OriginatorId) {
            assert forall|j: int| 0 <= j < t.len() && j != k implies !((
            #[trigger] t[j]) is OriginatorId) by {
                assert(t[j] == s[j]);
            }
            assert(!(s[s.len() - 1] is OriginatorId));
        }
    }
}

/// The routes of an UPDATE have its attributes.
proof fn routes_have_attributes<A: Family>(
    maker: Maker<A>,
    s: Seq<(Nlri<A>, Option<NextHop>)>,
    i: int,
)
    requires
        0 <= i < maker.routes(s).len(),
    ensures
        maker.routes(s)[i].attributes == maker.attributes,
    decreases s.len(),
{
    if s.len() > 0 && i < maker.routes(s.drop_last()).len() {
        routes_have_attributes(maker, s.drop_last(), i);
    }
}

/// Whether an UPDATE has at most one cluster list.
pub open spec fn one_cluster_list(s: Seq<PathAttribute>) -> bool {
    forall|i: int, j: int|
        0 <= i < j < s.len() ==> !((#[trigger] s[i]) is ClusterList && (#[trigger] s[j]) is ClusterList)
}

/// What the attributes of a reflected UPDATE amount to: they name an originator, which is the peer
/// where there was none, and the local cluster stands at the front of the cluster list.
proof fn record_counts(s: Seq<PathAttribute>, cluster_id: u32, source_id: Ipv4Addr)
    requires
        one_cluster_list(s),
    ensures
        ({
            let a = Attributes::of(reflected(s, cluster_id, source_id));
            &&& a.originator_id is Some
            &&& !has_originator(s) ==> a.originator_id == Some(source_id)
            &&& a.cluster_list is Some
            &&& a.cluster_list->0.ids().len() > 0
            &&& a.cluster_list->0.ids()[0] == cluster_id
        }),
{
    let w = with_originator(s, source_id);
    let r = reflected(s, cluster_id, source_id);
    assert forall|i: int, j: int| 0 <= i < j < w.len() implies !((#[trigger] w[i]) is ClusterList && (
    #[trigger] w[j]) is ClusterList) by {
        if j < s.len() {
            assert(w[i] == s[i] && w[j] == s[j]);
        }
    }
    let k = if exists|i: int| 0 <= i < w.len() && (#[trigger] w[i]) is ClusterList {
        choose|i: int| 0 <= i < w.len() && (#[trigger] w[i]) is ClusterList
    } else {
        w.len() as int
    };
    assert forall|j: int| 0 <= j < w.len() && j != k implies !((#[trigger] w[j]) is ClusterList) by {
        if k < w.len() {
            if j < k {
                assert(!(w[j] is ClusterList && w[k] is ClusterList));
            } else {
                assert(!(w[k] is ClusterList && w[j] is ClusterList));
            }
        }
    }
    with_cluster_at(w, cluster_id, k);
    assert(r[k] is ClusterList);
    assert forall|j: int| 0 <= j < r.len() && j != k implies (#[trigger] r[j]) == w[j] by {}
    lone_cluster_counts(r, k);
    let l = r[k]->ClusterList_0;
    assert(l.ids()[0] == cluster_id);
    let o = if has_originator(s) {
        choose|i: int| 0 <= i < s.len() && (#[trigger] s[i]) is OriginatorId
    } else {
        s.len() as int
    };
    assert(w[o] is OriginatorId);
    assert(o != k);
    assert(r[o] == w[o]);
    if !has_originator(s) {
        assert forall|j: int| 0 <= j < r.len() && j != o implies !((
        #[trigger] r[j]) is OriginatorId) by {
            if j != k {
                assert(r[j] == w[j]);
                assert(w[j] == s[j]);
            }
        }
    }
    originator_counts(r, o);
}

/// Every route that goes through the reflector has it on record, whatever its family: it names the
/// originator, which is the peer where none was named, and the local cluster stands at the front of its
/// cluster list.
pub proof fn reflected_routes_carry_the_record(
    m: UpdateView,
    cluster_id: u32,
    source_id: Ipv4Addr,
    local_as: u32,
    own: Option<Ipv4Addr>,
    own_v6: Option<Ipv6Addr>,
    peer_type: PeerType,
    now: Instant,
)
    requires
        one_cluster_list(m.attributes),
    ensures
        ({
            let r = UpdateView {
                attributes: reflected(m.attributes, cluster_id, source_id),
                ..m
            };
            let v4 = routes_v4(r, local_as, own, peer_type, now);
            let v6 = routes_v6(r, local_as, own_v6, peer_type, now);
            &&& forall|i: int|
                0 <= i < v4.len() ==> on_record(
                    (#[trigger] v4[i]).attributes,
                    m.attributes,
                    cluster_id,
                    source_id,
                )
            &&& forall|i: int|
                0 <= i < v6.len() ==> on_record(
                    (#[trigger] v6[i]).attributes,
                    m.attributes,
                    cluster_id,
                    source_id,
                )
        }),
{
    let r = UpdateView { attributes: reflected(m.attributes, cluster_id, source_id), ..m };
    let v4 = routes_v4(r, local_as, own, peer_type, now);
    let v6 = routes_v6(r, local_as, own_v6, peer_type, now);
    record_counts(m.attributes, cluster_id, source_id);
    assert forall|i: int| 0 <= i < v4.len() implies on_record(
        (#[trigger] v4[i]).attributes,
        m.attributes,
        cluster_id,
        source_id,
    ) by {
        routes_have_attributes(
            maker_v4(r, own, peer_type, now),
            effective_announcements(r, local_as),
            i,
        );
    }
    assert forall|i: int| 0 <= i < v6.len() implies on_record(
        (#[trigger] v6[i]).attributes,
        m.attributes,
        cluster_id,
        source_id,
    ) by {
        routes_have_attributes(
            maker_v6(r, own_v6, peer_type, now),
            effective_announcements_v6(r, local_as),
            i,
        );
    }
}

/// Whether the attributes of a route have the reflector on record, given those of the UPDATE as it came.
pub open spec fn on_record(
    a: Attributes,
    received: Seq<PathAttribute>,
    cluster_id: u32,
    source_id: Ipv4Addr,
) -> bool {
    &&& a.originator_id is Some
    &&& !has_originator(received) ==> a.originator_id == Some(source_id)
    &&& a.cluster_list is Some
    &&& a.cluster_list->0.ids().len() > 0
    &&& a.cluster_list->0.ids()[0] == cluster_id
}

} // verus!
