//! What values of the daemon's types say, put without the words of the functions that compute it.
use vstd::prelude::*;

use crate::message::{PathAttribute, PeerType};
use crate::net::{Ipv4Addr, Ipv6Addr, NextHop};
use crate::rib::{judged, AdjRibOut, Decision, DefaultAction, Policy, RibOp};
use crate::route::{Attributes, Route};
use crate::table::Key;
use crate::update::{next_hop_attribute, valid_next_hop_v4, valid_next_hop_v6, Family};

verus! {

/// Of each kind of path attribute the last one counts, with the value that it carries.
pub proof fn last_attribute_counts(s: Seq<PathAttribute>, i: int)
    requires
        0 <= i < s.len(),
    ensures
        s[i] is Origin && (forall|j: int| i < j < s.len() ==> !((#[trigger] s[j]) is Origin)) ==> Attributes::of(s).origin == Some(s[i]->Origin_0),
        s[i] is AsPath && (forall|j: int| i < j < s.len() ==> !((#[trigger] s[j]) is AsPath)) ==> Attributes::of(s).as_path == Some(s[i]->AsPath_0),
        s[i] is LocalPref && (forall|j: int| i < j < s.len() ==> !((#[trigger] s[j]) is LocalPref)) ==> Attributes::of(s).local_pref == Some(s[i]->LocalPref_0),
        s[i] is Med && (forall|j: int| i < j < s.len() ==> !((#[trigger] s[j]) is Med)) ==> Attributes::of(s).med == Some(s[i]->Med_0),
        s[i] is Communities && (forall|j: int| i < j < s.len() ==> !((#[trigger] s[j]) is Communities)) ==> Attributes::of(s).communities == Some(s[i]->Communities_0),
        s[i] is LargeCommunities && (forall|j: int| i < j < s.len() ==> !((#[trigger] s[j]) is LargeCommunities)) ==> Attributes::of(s).large_communities == Some(s[i]->LargeCommunities_0),
        s[i] is ExtendedCommunities && (forall|j: int| i < j < s.len() ==> !((#[trigger] s[j]) is ExtendedCommunities)) ==> Attributes::of(s).extended_communities == Some(s[i]->ExtendedCommunities_0),
        s[i] is Aggregator && (forall|j: int| i < j < s.len() ==> !((#[trigger] s[j]) is Aggregator)) ==> Attributes::of(s).aggregator == Some(s[i]->Aggregator_0),
        s[i] is OriginatorId && (forall|j: int| i < j < s.len() ==> !((#[trigger] s[j]) is OriginatorId)) ==> Attributes::of(s).originator_id == Some(s[i]->OriginatorId_0),
        s[i] is ClusterList && (forall|j: int| i < j < s.len() ==> !((#[trigger] s[j]) is ClusterList)) ==> Attributes::of(s).cluster_list == Some(s[i]->ClusterList_0),
        s[i] is OnlyToCustomer && (forall|j: int| i < j < s.len() ==> !((#[trigger] s[j]) is OnlyToCustomer)) ==> Attributes::of(s).otc == Some(s[i]->OnlyToCustomer_0),
        s[i] is AtomicAggregate ==> Attributes::of(s).atomic_aggregate,
    decreases s.len(),
{
    let t = s.drop_last();
    let l = s.len() - 1;
    if i < l {
        last_attribute_counts(t, i);
        assert(t[i] == s[i]);
        if s[i] is Origin && (forall|j: int| i < j < s.len() ==> !((#[trigger] s[j]) is Origin)) {
            assert(!(s[l] is Origin));
            assert forall|j: int| i < j < t.len() implies !((#[trigger] t[j]) is Origin) by {
                assert(t[j] == s[j]);
            }
        }
        if s[i] is AsPath && (forall|j: int| i < j < s.len() ==> !((#[trigger] s[j]) is AsPath)) {
            assert(!(s[l] is AsPath));
            assert forall|j: int| i < j < t.len() implies !((#[trigger] t[j]) is AsPath) by {
                assert(t[j] == s[j]);
            }
        }
        if s[i] is LocalPref && (forall|j: int| i < j < s.len() ==> !((#[trigger] s[j]) is LocalPref)) {
            assert(!(s[l] is LocalPref));
            assert forall|j: int| i < j < t.len() implies !((#[trigger] t[j]) is LocalPref) by {
                assert(t[j] == s[j]);
            }
        }
        if s[i] is Med && (forall|j: int| i < j < s.len() ==> !((#[trigger] s[j]) is Med)) {
            assert(!(s[l] is Med));
            assert forall|j: int| i < j < t.len() implies !((#[trigger] t[j]) is Med) by {
                assert(t[j] == s[j]);
            }
        }
        if s[i] is Communities && (forall|j: int| i < j < s.len() ==> !((#[trigger] s[j]) is Communities)) {
            assert(!(s[l] is Communities));
            assert forall|j: int| i < j < t.len() implies !((#[trigger] t[j]) is Communities) by {
                assert(t[j] == s[j]);
            }
        }
        if s[i] is LargeCommunities && (forall|j: int| i < j < s.len() ==> !((#[trigger] s[j]) is LargeCommunities)) {
            assert(!(s[l] is LargeCommunities));
            assert forall|j: int| i < j < t.len() implies !((#[trigger] t[j]) is LargeCommunities) by {
                assert(t[j] == s[j]);
            }
        }
        if s[i] is ExtendedCommunities && (forall|j: int| i < j < s.len() ==> !((#[trigger] s[j]) is ExtendedCommunities)) {
            assert(!(s[l] is ExtendedCommunities));
            assert forall|j: int| i < j < t.len() implies !((#[trigger] t[j]) is ExtendedCommunities) by {
                assert(t[j] == s[j]);
            }
        }
        if s[i] is Aggregator && (forall|j: int| i < j < s.len() ==> !((#[trigger] s[j]) is Aggregator)) {
            assert(!(s[l] is Aggregator));
            assert forall|j: int| i < j < t.len() implies !((#[trigger] t[j]) is Aggregator) by {
                assert(t[j] == s[j]);
            }
        }
        if s[i] is OriginatorId && (forall|j: int| i < j < s.len() ==> !((#[trigger] s[j]) is OriginatorId)) {
            assert(!(s[l] is OriginatorId));
            assert forall|j: int| i < j < t.len() implies !((#[trigger] t[j]) is OriginatorId) by {
                assert(t[j] == s[j]);
            }
        }
        if s[i] is ClusterList && (forall|j: int| i < j < s.len() ==> !((#[trigger] s[j]) is ClusterList)) {
            assert(!(s[l] is ClusterList));
            assert forall|j: int| i < j < t.len() implies !((#[trigger] t[j]) is ClusterList) by {
                assert(t[j] == s[j]);
            }
        }
        if s[i] is OnlyToCustomer && (forall|j: int| i < j < s.len() ==> !((#[trigger] s[j]) is OnlyToCustomer)) {
            assert(!(s[l] is OnlyToCustomer));
            assert forall|j: int| i < j < t.len() implies !((#[trigger] t[j]) is OnlyToCustomer) by {
                assert(t[j] == s[j]);
            }
        }
    }
}

/// An attribute that an UPDATE does not carry is not there.
pub proof fn absent_attribute_is_absent(s: Seq<PathAttribute>)
    ensures
        (forall|j: int| 0 <= j < s.len() ==> !((#[trigger] s[j]) is Origin)) ==> Attributes::of(s).origin is None,
        (forall|j: int| 0 <= j < s.len() ==> !((#[trigger] s[j]) is AsPath)) ==> Attributes::of(s).as_path is None,
        (forall|j: int| 0 <= j < s.len() ==> !((#[trigger] s[j]) is LocalPref)) ==> Attributes::of(s).local_pref is None,
        (forall|j: int| 0 <= j < s.len() ==> !((#[trigger] s[j]) is Med)) ==> Attributes::of(s).med is None,
        (forall|j: int| 0 <= j < s.len() ==> !((#[trigger] s[j]) is Communities)) ==> Attributes::of(s).communities is None,
        (forall|j: int| 0 <= j < s.len() ==> !((#[trigger] s[j]) is LargeCommunities)) ==> Attributes::of(s).large_communities is None,
        (forall|j: int| 0 <= j < s.len() ==> !((#[trigger] s[j]) is ExtendedCommunities)) ==> Attributes::of(s).extended_communities is None,
        (forall|j: int| 0 <= j < s.len() ==> !((#[trigger] s[j]) is Aggregator)) ==> Attributes::of(s).aggregator is None,
        (forall|j: int| 0 <= j < s.len() ==> !((#[trigger] s[j]) is OriginatorId)) ==> Attributes::of(s).originator_id is None,
        (forall|j: int| 0 <= j < s.len() ==> !((#[trigger] s[j]) is ClusterList)) ==> Attributes::of(s).cluster_list is None,
        (forall|j: int| 0 <= j < s.len() ==> !((#[trigger] s[j]) is OnlyToCustomer)) ==> Attributes::of(s).otc is None,
        (forall|j: int| 0 <= j < s.len() ==> !((#[trigger] s[j]) is AtomicAggregate)) ==> !Attributes::of(s).atomic_aggregate,
    decreases s.len(),
{
    if s.len() > 0 {
        let t = s.drop_last();
        absent_attribute_is_absent(t);
        if (forall|j: int| 0 <= j < s.len() ==> !((#[trigger] s[j]) is Origin)) {
            assert(!(s[s.len() - 1] is Origin));
            assert forall|j: int| 0 <= j < t.len() implies !((#[trigger] t[j]) is Origin) by {
                assert(t[j] == s[j]);
            }
        }
        if (forall|j: int| 0 <= j < s.len() ==> !((#[trigger] s[j]) is AsPath)) {
            assert(!(s[s.len() - 1] is AsPath));
            assert forall|j: int| 0 <= j < t.len() implies !((#[trigger] t[j]) is AsPath) by {
                assert(t[j] == s[j]);
            }
        }
        if (forall|j: int| 0 <= j < s.len() ==> !((#[trigger] s[j]) is LocalPref)) {
            assert(!(s[s.len() - 1] is LocalPref));
            assert forall|j: int| 0 <= j < t.len() implies !((#[trigger] t[j]) is LocalPref) by {
                assert(t[j] == s[j]);
            }
        }
        if (forall|j: int| 0 <= j < s.len() ==> !((#[trigger] s[j]) is Med)) {
            assert(!(s[s.len() - 1] is Med));
            assert forall|j: int| 0 <= j < t.len() implies !((#[trigger] t[j]) is Med) by {
                assert(t[j] == s[j]);
            }
        }
        if (forall|j: int| 0 <= j < s.len() ==> !((#[trigger] s[j]) is Communities)) {
            assert(!(s[s.len() - 1] is Communities));
            assert forall|j: int| 0 <= j < t.len() implies !((#[trigger] t[j]) is Communities) by {
                assert(t[j] == s[j]);
            }
        }
        if (forall|j: int| 0 <= j < s.len() ==> !((#[trigger] s[j]) is LargeCommunities)) {
            assert(!(s[s.len() - 1] is LargeCommunities));
            assert forall|j: int| 0 <= j < t.len() implies !((#[trigger] t[j]) is LargeCommunities) by {
                assert(t[j] == s[j]);
            }
        }
        if (forall|j: int| 0 <= j < s.len() ==> !((#[trigger] s[j]) is ExtendedCommunities)) {
            assert(!(s[s.len() - 1] is ExtendedCommunities));
            assert forall|j: int| 0 <= j < t.len() implies !((#[trigger] t[j]) is ExtendedCommunities) by {
                assert(t[j] == s[j]);
            }
        }
        if (forall|j: int| 0 <= j < s.len() ==> !((#[trigger] s[j]) is Aggregator)) {
            assert(!(s[s.len() - 1] is Aggregator));
            assert forall|j: int| 0 <= j < t.len() implies !((#[trigger] t[j]) is Aggregator) by {
                assert(t[j] == s[j]);
            }
        }
        if (forall|j: int| 0 <= j < s.len() ==> !((#[trigger] s[j]) is OriginatorId)) {
            assert(!(s[s.len() - 1] is OriginatorId));
            assert forall|j: int| 0 <= j < t.len() implies !((#[trigger] t[j]) is OriginatorId) by {
                assert(t[j] == s[j]);
            }
        }
        if (forall|j: int| 0 <= j < s.len() ==> !((#[trigger] s[j]) is ClusterList)) {
            assert(!(s[s.len() - 1] is ClusterList));
            assert forall|j: int| 0 <= j < t.len() implies !((#[trigger] t[j]) is ClusterList) by {
                assert(t[j] == s[j]);
            }
        }
        if (forall|j: int| 0 <= j < s.len() ==> !((#[trigger] s[j]) is OnlyToCustomer)) {
            assert(!(s[s.len() - 1] is OnlyToCustomer));
            assert forall|j: int| 0 <= j < t.len() implies !((#[trigger] t[j]) is OnlyToCustomer) by {
                assert(t[j] == s[j]);
            }
        }
        if (forall|j: int| 0 <= j < s.len() ==> !((#[trigger] s[j]) is AtomicAggregate)) {
            assert(!(s[s.len() - 1] is AtomicAggregate));
            assert forall|j: int| 0 <= j < t.len() implies !((#[trigger] t[j]) is AtomicAggregate) by {
                assert(t[j] == s[j]);
            }
        }
    }
}

/// The next hop of the prefixes in the announced field is that of the last NEXT_HOP attribute.
pub proof fn last_next_hop_counts(s: Seq<PathAttribute>, i: int)
    ensures
        (0 <= i < s.len() && s[i] is NextHop && (forall|j: int|
            i < j < s.len() ==> !((#[trigger] s[j]) is NextHop))) ==> next_hop_attribute(s) == Some(
            s[i]->NextHop_0,
        ),
        (forall|j: int| 0 <= j < s.len() ==> !((#[trigger] s[j]) is NextHop))
            ==> next_hop_attribute(s) is None,
    decreases s.len(),
{
    if s.len() > 0 {
        let t = s.drop_last();
        let l = s.len() - 1;
        last_next_hop_counts(t, i);
        if 0 <= i < s.len() && s[i] is NextHop && (forall|j: int|
            i < j < s.len() ==> !((#[trigger] s[j]) is NextHop)) && i < l {
            assert(!(s[l] is NextHop));
            assert(t[i] == s[i]);
            assert forall|j: int| i < j < t.len() implies !((#[trigger] t[j]) is NextHop) by {
                assert(t[j] == s[j]);
            }
        }
        if forall|j: int| 0 <= j < s.len() ==> !((#[trigger] s[j]) is NextHop) {
            assert(!(s[l] is NextHop));
            assert forall|j: int| 0 <= j < t.len() implies !((#[trigger] t[j]) is NextHop) by {
                assert(t[j] == s[j]);
            }
        }
    }
}

/// An IPv4 next hop names one other host: it lies neither in `127.0.0.0/8` nor in `224.0.0.0/4`, and is
/// neither the first nor the last address nor the receiver's own.
pub proof fn ipv4_next_hop_is_one_other_host(addr: Ipv4Addr, own: Option<Ipv4Addr>)
    ensures
        valid_next_hop_v4(addr, own) <==> {
            &&& addr.bits != 0
            &&& addr.bits != u32::MAX
            &&& !(0x7f00_0000 <= addr.bits <= 0x7fff_ffff)
            &&& !(0xe000_0000 <= addr.bits <= 0xefff_ffff)
            &&& own != Some(addr)
        },
        <Ipv4Addr as Family>::acceptable(Some(NextHop::V4(addr)), own) <==> {
            &&& addr.bits != 0
            &&& addr.bits != u32::MAX
            &&& !(0x7f00_0000 <= addr.bits <= 0x7fff_ffff)
            &&& !(0xe000_0000 <= addr.bits <= 0xefff_ffff)
            &&& own != Some(addr)
        },
{
}

/// An IPv6 next hop is neither `::` nor in `ff00::/8`, nor the receiver's own address; with a second,
/// link-local address, that is not in `ff00::/8` either.
pub proof fn ipv6_next_hop_is_one_other_host(
    addr: Ipv6Addr,
    link_local: Ipv6Addr,
    own: Option<Ipv6Addr>,
)
    ensures
        valid_next_hop_v6(addr) <==> addr.bits != 0 && addr.bits
            < 0xff00_0000_0000_0000_0000_0000_0000_0000,
        <Ipv6Addr as Family>::acceptable(Some(NextHop::V6(addr)), own) <==> {
            &&& addr.bits != 0
            &&& addr.bits < 0xff00_0000_0000_0000_0000_0000_0000_0000
            &&& own != Some(addr)
        },
        <Ipv6Addr as Family>::acceptable(
            Some(NextHop::V6WithLinkLocal { global: addr, link_local }),
            own,
        ) <==> {
            &&& addr.bits != 0
            &&& addr.bits < 0xff00_0000_0000_0000_0000_0000_0000_0000
            &&& link_local.bits < 0xff00_0000_0000_0000_0000_0000_0000_0000
            &&& own != Some(addr)
        },
{
}

/// A next hop of the other family, or none, is not looked at.
pub proof fn foreign_next_hop_is_accepted(
    addr: Ipv4Addr,
    addr6: Ipv6Addr,
    own: Option<Ipv4Addr>,
    own6: Option<Ipv6Addr>,
)
    ensures
        <Ipv4Addr as Family>::acceptable(None, own),
        <Ipv6Addr as Family>::acceptable(None, own6),
        <Ipv4Addr as Family>::acceptable(Some(NextHop::V6(addr6)), own),
        <Ipv6Addr as Family>::acceptable(Some(NextHop::V4(addr)), own6),
{
}

/// A route asks for its traffic to be dropped just where it carries the community 65535:666.
pub proof fn blackhole_is_one_community(a: Attributes)
    ensures
        a.is_blackhole() <==> a.communities is Some && exists|i: int|
            0 <= i < a.communities->0@.len() && (#[trigger] a.communities->0@[i]).value == 65535
                * 65536 + 666,
{
    if a.communities is Some {
        let v = a.communities->0@;
        if exists|i: int| 0 <= i < v.len() && (#[trigger] v[i]).value == 65535 * 65536 + 666 {
            let i = choose|i: int| 0 <= i < v.len() && (#[trigger] v[i]).value == 65535 * 65536 + 666;
            assert(crate::route::listed(a.communities)[i].is_blackhole());
        }
        if a.is_blackhole() {
            let i = choose|i: int|
                0 <= i < crate::route::listed(a.communities).len() && (
                #[trigger] crate::route::listed(a.communities)[i]).is_blackhole();
            assert(v[i].value == 65535 * 65536 + 666);
        }
    }
}

/// A number is on the path just where some segment of the path lists it, whatever the kind of segment.
pub proof fn path_lists_numbers(a: Attributes, asn: u32)
    ensures
        a.path_has(asn) <==> a.as_path is Some && exists|i: int, j: int|
            #![trigger a.as_path->0.segments@[i].asns@[j]]
            0 <= i < a.as_path->0.segments@.len() && 0 <= j < a.as_path->0.segments@[i].asns@.len()
                && a.as_path->0.segments@[i].asns@[j] == asn,
{
    if a.as_path is Some {
        let p = a.as_path->0;
        if a.path_has(asn) {
            let i = choose|i: int|
                0 <= i < p.segments@.len() && (#[trigger] p.segments@[i]).asns@.contains(asn);
            let j = p.segments@[i].asns@.index_of(asn);
            assert(p.segments@[i].asns@[j] == asn);
        }
        if exists|i: int, j: int|
            #![trigger p.segments@[i].asns@[j]]
            0 <= i < p.segments@.len() && 0 <= j < p.segments@[i].asns@.len()
                && p.segments@[i].asns@[j] == asn {
            let (i, j) = choose|i: int, j: int|
                #![trigger p.segments@[i].asns@[j]]
                0 <= i < p.segments@.len() && 0 <= j < p.segments@[i].asns@.len()
                    && p.segments@[i].asns@[j] == asn;
            assert(p.segments@[i].asns@.contains(asn));
        }
    }
}

/// Two routes that say the same have the same prefix, next hop, kind and mark, and the same of every
/// attribute; only the time of receipt may differ.
pub proof fn same_content_means_same_fields<A: Key>(a: Route<A>, b: Route<A>)
    requires
        a.same_content(b),
    ensures
        a.nlri == b.nlri,
        a.next_hop == b.next_hop,
        a.peer_type == b.peer_type,
        a.stale == b.stale,
        a.attributes.origin == b.attributes.origin,
        a.attributes.local_pref == b.attributes.local_pref,
        a.attributes.med == b.attributes.med,
        a.attributes.atomic_aggregate == b.attributes.atomic_aggregate,
        a.attributes.aggregator == b.attributes.aggregator,
        a.attributes.originator_id == b.attributes.originator_id,
        a.attributes.otc == b.attributes.otc,
        a.attributes.communities is Some && b.attributes.communities is Some
            ==> a.attributes.communities->0@ == b.attributes.communities->0@,
        a.attributes.communities is Some && b.attributes.communities is None
            ==> a.attributes.communities->0@.len() == 0,
        a.attributes.large_communities is Some && b.attributes.large_communities is Some
            ==> a.attributes.large_communities->0@ == b.attributes.large_communities->0@,
        a.attributes.large_communities is Some && b.attributes.large_communities is None
            ==> a.attributes.large_communities->0@.len() == 0,
        a.attributes.extended_communities is Some && b.attributes.extended_communities is Some
            ==> a.attributes.extended_communities->0@ == b.attributes.extended_communities->0@,
        a.attributes.extended_communities is Some && b.attributes.extended_communities is None
            ==> a.attributes.extended_communities->0@.len() == 0,
        a.attributes.cluster_list is Some && b.attributes.cluster_list is Some
            ==> a.attributes.cluster_list->0.ids() == b.attributes.cluster_list->0.ids(),
        a.attributes.cluster_list is Some && b.attributes.cluster_list is None
            ==> a.attributes.cluster_list->0.ids().len() == 0,
        a.attributes.as_path is Some && b.attributes.as_path is Some ==> {
            &&& a.attributes.as_path->0.segments@.len() == b.attributes.as_path->0.segments@.len()
            &&& forall|i: int|
                0 <= i < a.attributes.as_path->0.segments@.len() ==> (
                #[trigger] a.attributes.as_path->0.segments@[i]).kind
                    == b.attributes.as_path->0.segments@[i].kind
                    && a.attributes.as_path->0.segments@[i].asns@
                    == b.attributes.as_path->0.segments@[i].asns@
        },
        a.attributes.as_path is Some && b.attributes.as_path is None
            ==> a.attributes.as_path->0.segments@.len() == 0,
{
    let x = crate::route::path_segments(a.attributes.as_path);
    let y = crate::route::path_segments(b.attributes.as_path);
    assert(x.len() == y.len());
    if a.attributes.as_path is Some && b.attributes.as_path is Some {
        assert forall|i: int| 0 <= i < a.attributes.as_path->0.segments@.len() implies (
        #[trigger] a.attributes.as_path->0.segments@[i]).kind
            == b.attributes.as_path->0.segments@[i].kind
            && a.attributes.as_path->0.segments@[i].asns@
            == b.attributes.as_path->0.segments@[i].asns@ by {
            assert(x[i] == y[i]);
        }
    }
}

/// Routes that agree in every field but the time of receipt say the same.
pub proof fn same_fields_mean_same_content<A: Key>(a: Route<A>, b: Route<A>)
    requires
        a.nlri == b.nlri,
        a.next_hop == b.next_hop,
        a.peer_type == b.peer_type,
        a.stale == b.stale,
        a.attributes == b.attributes,
    ensures
        a.same_content(b),
{
}

/// The stale mark changes nothing else of a route.
pub proof fn stale_mark_changes_nothing_else<A: Key>(a: Route<A>)
    ensures
        a.spec_marked_stale().stale,
        a.spec_marked_stale().nlri == a.nlri,
        a.spec_marked_stale().next_hop == a.next_hop,
        a.spec_marked_stale().peer_type == a.peer_type,
        a.spec_marked_stale().received_at == a.received_at,
        a.spec_marked_stale().attributes == a.attributes,
{
}

/// A route becomes a candidate just where the policy accepts it, and as the policy left it. A rejected
/// one that is judged again is no candidate any more; one of an UPDATE is left at that.
pub proof fn accepted_routes_become_candidates<A>(
    raw: Route<A>,
    decision: Decision,
    route: Route<A>,
)
    ensures
        judged(RibOp::Evaluate(raw), Decision::Accept, route) == Some(RibOp::Insert(route)),
        judged(RibOp::Reevaluate(raw), Decision::Accept, route) == Some(RibOp::Insert(route)),
        decision != Decision::Accept ==> judged(RibOp::Evaluate(raw), decision, route) is None,
        decision != Decision::Accept ==> judged(RibOp::Reevaluate(raw), decision, route) == Some(
            RibOp::<A>::Withdraw(raw.nlri),
        ),
        judged(RibOp::Insert(raw), decision, route) == Some(RibOp::Insert(raw)),
        judged(RibOp::Withdraw(raw.nlri), decision, route) == Some(RibOp::<A>::Withdraw(raw.nlri)),
        judged(RibOp::<A>::WithdrawPeer, decision, route) == Some(RibOp::<A>::WithdrawPeer),
        judged(RibOp::<A>::RecomputeAll, decision, route) == Some(RibOp::<A>::RecomputeAll),
{
}

/// What a term decides stands; the default counts where none does.
pub proof fn terms_come_before_the_default(p: Policy)
    ensures
        p.spec_decide(Decision::Accept) == Decision::Accept,
        p.spec_decide(Decision::Reject) == Decision::Reject,
        p.default == DefaultAction::Accept ==> p.spec_decide(Decision::Next) == Decision::Accept,
        p.default == DefaultAction::Reject ==> p.spec_decide(Decision::Next) == Decision::Reject,
{
}

/// A fresh record of what a peer is told holds nothing, is of the peer's kind, and lets internal routes
/// through to an internal peer of a reflector alone.
pub proof fn fresh_record_holds_nothing(kind: PeerType, is_rr: bool)
    ensures
        AdjRibOut::fresh(kind, is_rr).advertised == 0,
        AdjRibOut::fresh(kind, is_rr).peer_type == kind,
        AdjRibOut::fresh(kind, is_rr).reflects <==> is_rr && kind == PeerType::Internal,
{
}

} // verus!
