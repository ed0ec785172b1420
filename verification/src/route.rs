//! Routes and the path attributes that they carry.
use std::sync::Arc;

use vstd::prelude::*;

use crate::clock::Instant;
use crate::message::{
    Aggregator, AsPath, AsPathSegment, ClusterList, Community, ExtendedCommunity, LargeCommunity,
    Origin, PathAttribute, PeerType, SegmentKind,
};
use crate::net::{Ipv4Addr, NextHop, Nlri};
use crate::table::{same_elements, Key};

verus! {

/// The path attributes of a route. A list that was not sent is `None`, and means the same as an
/// empty one.
#[derive(Debug, PartialEq, Eq)]
pub struct Attributes {
    pub origin: Option<Origin>,
    pub as_path: Option<Arc<AsPath>>,
    pub local_pref: Option<u32>,
    pub med: Option<u32>,
    pub communities: Option<Arc<Vec<Community>>>,
    pub large_communities: Option<Arc<Vec<LargeCommunity>>>,
    pub extended_communities: Option<Arc<Vec<ExtendedCommunity>>>,
    pub atomic_aggregate: bool,
    pub aggregator: Option<Aggregator>,
    pub originator_id: Option<Ipv4Addr>,
    pub cluster_list: Option<ClusterList>,
    pub otc: Option<u32>,
}

/// The elements of an optional shared list.
pub open spec fn listed<T>(list: Option<Arc<Vec<T>>>) -> Seq<T> {
    match list {
        Some(v) => v@,
        None => Seq::empty(),
    }
}

/// The segments of an optional path: the kind of each, and its numbers.
pub open spec fn path_segments(path: Option<Arc<AsPath>>) -> Seq<(SegmentKind, Seq<u32>)> {
    match path {
        Some(p) => p.segments@.map_values(|s: AsPathSegment| (s.kind, s.asns@)),
        None => Seq::empty(),
    }
}

/// The identifiers of an optional cluster list.
pub open spec fn cluster_ids(list: Option<ClusterList>) -> Seq<u32> {
    match list {
        Some(l) => l.ids(),
        None => Seq::empty(),
    }
}

/// A reference to the same shared value.
fn share<T>(x: &Option<Arc<T>>) -> (r: Option<Arc<T>>)
    ensures
        r == *x,
{
    match x {
        Some(v) => Some(v.clone()),
        None => None,
    }
}

/// Whether two optional lists hold the same elements.
fn same_list<T: Key>(a: &Option<Arc<Vec<T>>>, b: &Option<Arc<Vec<T>>>) -> (r: bool)
    ensures
        r == (listed(*a) == listed(*b)),
{
    match (a, b) {
        (Some(x), Some(y)) => same_elements(x, y),
        (Some(x), None) => {
            assert(x@.len() == 0 ==> x@ =~= Seq::<T>::empty());
            x.len() == 0
        },
        (None, Some(y)) => {
            assert(y@.len() == 0 ==> y@ =~= Seq::<T>::empty());
            y.len() == 0
        },
        (None, None) => true,
    }
}

/// Whether two optional paths have the same segments.
fn same_path(a: &Option<Arc<AsPath>>, b: &Option<Arc<AsPath>>) -> (r: bool)
    ensures
        r == (path_segments(*a) == path_segments(*b)),
{
    match (a, b) {
        (Some(x), Some(y)) => {
            let ghost sx = path_segments(*a);
            let ghost sy = path_segments(*b);
            if x.segments.len() != y.segments.len() {
                assert(sx.len() != sy.len());
                return false;
            }
            let mut i: usize = 0;
            while i < x.segments.len()
                invariant
                    0 <= i <= x.segments.len(),
                    x.segments.len() == y.segments.len(),
                    sx == x.segments@.map_values(|s: AsPathSegment| (s.kind, s.asns@)),
                    sy == y.segments@.map_values(|s: AsPathSegment| (s.kind, s.asns@)),
                    sx == path_segments(*a),
                    sy == path_segments(*b),
                    forall|j: int| 0 <= j < i ==> sx[j] == sy[j],
                decreases x.segments.len() - i,
            {
                if x.segments[i].kind != y.segments[i].kind || !same_elements(
                    &x.segments[i].asns,
                    &y.segments[i].asns,
                ) {
                    assert(sx[i as int] != sy[i as int]);
                    return false;
                }
                i = i + 1;
            }
            assert(sx =~= sy);
            true
        },
        (Some(x), None) => {
            assert(x.segments@.len() == 0 ==> path_segments(*a) =~= Seq::<
                (SegmentKind, Seq<u32>),
            >::empty());
            x.segments.len() == 0
        },
        (None, Some(y)) => {
            assert(y.segments@.len() == 0 ==> path_segments(*b) =~= Seq::<
                (SegmentKind, Seq<u32>),
            >::empty());
            y.segments.len() == 0
        },
        (None, None) => true,
    }
}

/// The identifiers of a cluster list, the most recent first.
fn ids_of(list: &Option<ClusterList>) -> (r: Vec<u32>)
    ensures
        r@ == cluster_ids(*list),
{
    match list {
        Some(l) => l.to_vec(),
        None => Vec::new(),
    }
}

impl Attributes {
    /// No attribute at all.
    pub open spec fn spec_none() -> Self {
        Attributes {
            origin: None,
            as_path: None,
            local_pref: None,
            med: None,
            communities: None,
            large_communities: None,
            extended_communities: None,
            atomic_aggregate: false,
            aggregator: None,
            originator_id: None,
            cluster_list: None,
            otc: None,
        }
    }

    /// No attribute at all.
    #[verifier::when_used_as_spec(spec_none)]
    pub fn none() -> (r: Self)
        ensures
            r == Self::spec_none(),
    {
        Attributes {
            origin: None,
            as_path: None,
            local_pref: None,
            med: None,
            communities: None,
            large_communities: None,
            extended_communities: None,
            atomic_aggregate: false,
            aggregator: None,
            originator_id: None,
            cluster_list: None,
            otc: None,
        }
    }

    /// These attributes once `a` has been read too. An attribute replaces an earlier one of its
    /// kind.
    pub open spec fn with(self, a: PathAttribute) -> Self {
        match a {
            PathAttribute::Origin(o) => Attributes { origin: Some(o), ..self },
            PathAttribute::AsPath(p) => Attributes { as_path: Some(p), ..self },
            PathAttribute::LocalPref(x) => Attributes { local_pref: Some(x), ..self },
            PathAttribute::Med(x) => Attributes { med: Some(x), ..self },
            PathAttribute::Communities(x) => Attributes { communities: Some(x), ..self },
            PathAttribute::LargeCommunities(x) => Attributes {
                large_communities: Some(x),
                ..self
            },
            PathAttribute::ExtendedCommunities(x) => Attributes {
                extended_communities: Some(x),
                ..self
            },
            PathAttribute::AtomicAggregate => Attributes { atomic_aggregate: true, ..self },
            PathAttribute::Aggregator(x) => Attributes { aggregator: Some(x), ..self },
            PathAttribute::OriginatorId(x) => Attributes { originator_id: Some(x), ..self },
            PathAttribute::ClusterList(x) => Attributes { cluster_list: Some(x), ..self },
            PathAttribute::OnlyToCustomer(x) => Attributes { otc: Some(x), ..self },
            _ => self,
        }
    }

    /// The attributes that a sequence of path attributes amounts to.
    pub open spec fn of(s: Seq<PathAttribute>) -> Self
        decreases s.len(),
    {
        if s.len() == 0 {
            Attributes::spec_none()
        } else {
            Attributes::of(s.drop_last()).with(s.last())
        }
    }

    /// The same attributes again.
    pub fn share(&self) -> (r: Self)
        ensures
            r == *self,
    {
        Attributes {
            origin: self.origin,
            as_path: share(&self.as_path),
            local_pref: self.local_pref,
            med: self.med,
            communities: share(&self.communities),
            large_communities: share(&self.large_communities),
            extended_communities: share(&self.extended_communities),
            atomic_aggregate: self.atomic_aggregate,
            aggregator: self.aggregator,
            originator_id: self.originator_id,
            cluster_list: match &self.cluster_list {
                Some(l) => Some(l.share()),
                None => None,
            },
            otc: self.otc,
        }
    }

    /// Reads the path attributes of an UPDATE.
    pub fn collect(list: &Vec<PathAttribute>) -> (r: Self)
        ensures
            r == Attributes::of(list@),
    {
        let mut r = Attributes::none();
        let mut i: usize = 0;
        while i < list.len()
            invariant
                0 <= i <= list.len(),
                r == Attributes::of(list@.take(i as int)),
            decreases list.len() - i,
        {
            match &list[i] {
                PathAttribute::Origin(o) => {
                    r.origin = Some(*o);
                },
                PathAttribute::AsPath(p) => {
                    r.as_path = Some(p.clone());
                },
                PathAttribute::LocalPref(x) => {
                    r.local_pref = Some(*x);
                },
                PathAttribute::Med(x) => {
                    r.med = Some(*x);
                },
                PathAttribute::Communities(x) => {
                    r.communities = Some(x.clone());
                },
                PathAttribute::LargeCommunities(x) => {
                    r.large_communities = Some(x.clone());
                },
                PathAttribute::ExtendedCommunities(x) => {
                    r.extended_communities = Some(x.clone());
                },
                PathAttribute::AtomicAggregate => {
                    r.atomic_aggregate = true;
                },
                PathAttribute::Aggregator(x) => {
                    r.aggregator = Some(*x);
                },
                PathAttribute::OriginatorId(x) => {
                    r.originator_id = Some(*x);
                },
                PathAttribute::ClusterList(x) => {
                    r.cluster_list = Some(x.share());
                },
                PathAttribute::OnlyToCustomer(x) => {
                    r.otc = Some(*x);
                },
                _ => {},
            }
            i = i + 1;
            assert(list@.take(i as int).drop_last() =~= list@.take(i - 1));
        }
        assert(list@.take(i as int) =~= list@);
        r
    }

    /// Whether a path is there and `asn` occurs in it.
    pub open spec fn path_has(self, asn: u32) -> bool {
        match self.as_path {
            Some(p) => p.has(asn),
            None => false,
        }
    }

    /// Whether a path is there and `asn` occurs in it.
    pub fn path_contains(&self, asn: u32) -> (r: bool)
        ensures
            r == self.path_has(asn),
    {
        match &self.as_path {
            Some(p) => p.contains(asn),
            None => false,
        }
    }

    /// Whether a community asks for the traffic to be dropped.
    pub open spec fn spec_is_blackhole(&self) -> bool {
        exists|i: int|
            0 <= i < listed(self.communities).len() && (#[trigger] listed(
                self.communities,
            )[i]).is_blackhole()
    }

    /// Whether a community asks for the traffic to be dropped.
    #[verifier::when_used_as_spec(spec_is_blackhole)]
    pub fn is_blackhole(&self) -> (r: bool)
        ensures
            r == self.spec_is_blackhole(),
    {
        match &self.communities {
            Some(v) => {
                let mut i: usize = 0;
                while i < v.len()
                    invariant
                        0 <= i <= v.len(),
                        v@ == listed(self.communities),
                        forall|j: int| 0 <= j < i ==> !(#[trigger] v@[j]).is_blackhole(),
                    decreases v.len() - i,
                {
                    if v[i].is_blackhole() {
                        assert(listed(self.communities)[i as int].is_blackhole());
                        return true;
                    }
                    i = i + 1;
                }
                false
            },
            None => false,
        }
    }

    /// Whether two attribute sets say the same.
    pub open spec fn agrees(self, other: Self) -> bool {
        &&& self.origin == other.origin
        &&& path_segments(self.as_path) == path_segments(other.as_path)
        &&& self.local_pref == other.local_pref
        &&& self.med == other.med
        &&& listed(self.communities) == listed(other.communities)
        &&& listed(self.large_communities) == listed(other.large_communities)
        &&& listed(self.extended_communities) == listed(other.extended_communities)
        &&& self.atomic_aggregate == other.atomic_aggregate
        &&& self.aggregator == other.aggregator
        &&& self.originator_id == other.originator_id
        &&& cluster_ids(self.cluster_list) == cluster_ids(other.cluster_list)
        &&& self.otc == other.otc
    }

    /// Whether two attribute sets say the same.
    pub fn same_as(&self, other: &Self) -> (r: bool)
        ensures
            r == self.agrees(*other),
    {
        self.origin == other.origin && same_path(&self.as_path, &other.as_path) && self.local_pref
            == other.local_pref && self.med == other.med && same_list(
            &self.communities,
            &other.communities,
        ) && same_list(&self.large_communities, &other.large_communities) && same_list(
            &self.extended_communities,
            &other.extended_communities,
        ) && self.atomic_aggregate == other.atomic_aggregate && self.aggregator == other.aggregator
            && self.originator_id == other.originator_id && same_elements(
            &ids_of(&self.cluster_list),
            &ids_of(&other.cluster_list),
        ) && self.otc == other.otc
    }
}

/// A route to the destinations of one prefix.
#[derive(Debug, PartialEq, Eq)]
pub struct Route<A> {
    pub nlri: Nlri<A>,
    pub next_hop: Option<NextHop>,
    /// How the peer that the route came from is related to us.
    pub peer_type: PeerType,
    /// Whether the peer has gone and the route is only kept for the restart window.
    pub stale: bool,
    pub received_at: Instant,
    pub attributes: Attributes,
}

impl<A> View for Route<A> {
    type V = Route<A>;

    open spec fn view(&self) -> Route<A> {
        *self
    }
}

impl<A: Key> Route<A> {
    /// The same route again.
    pub fn share(&self) -> (r: Self)
        ensures
            r == *self,
    {
        Route {
            nlri: self.nlri,
            next_hop: self.next_hop,
            peer_type: self.peer_type,
            stale: self.stale,
            received_at: self.received_at,
            attributes: self.attributes.share(),
        }
    }

    /// The route with the stale mark.
    pub open spec fn spec_marked_stale(self) -> Self {
        Route { stale: true, ..self }
    }

    /// The route with the stale mark.
    pub fn marked_stale(&self) -> (r: Self)
        ensures
            r == self.spec_marked_stale(),
    {
        let mut r = self.share();
        r.stale = true;
        r
    }

    /// Whether two routes say the same, whenever each of them was received.
    pub open spec fn same_content(self, other: Self) -> bool {
        &&& self.nlri == other.nlri
        &&& self.next_hop == other.next_hop
        &&& self.peer_type == other.peer_type
        &&& self.stale == other.stale
        &&& self.attributes.agrees(other.attributes)
    }

    /// Whether two routes say the same, whenever each of them was received.
    pub fn content_eq(&self, other: &Self) -> (r: bool)
        ensures
            r == self.same_content(*other),
    {
        self.nlri.same(&other.nlri) && self.next_hop == other.next_hop && self.peer_type
            == other.peer_type && self.stale == other.stale && self.attributes.same_as(
            &other.attributes,
        )
    }
}

/// Whether two routes say the same does not depend on when they were received, and says yes of a
/// route and itself.
pub proof fn content_eq_ignores_time<A: Key>(a: Route<A>, b: Route<A>, at: Instant)
    ensures
        a.same_content(a),
        a.same_content(b) == b.same_content(a),
        a.same_content(b) == a.same_content((Route { received_at: at, ..b })),
{
}

} // verus!
