//! The parts of BGP messages that the daemon reads and writes.
//!
//! Attribute values that many routes have in common are reference counted, so that the routes of
//! one UPDATE share them.
use std::sync::Arc;

use vstd::prelude::*;

use crate::net::{AfiSafi, Ipv4Addr, NextHop, Nlri, Prefix};
use crate::table::{copy_of, holds, Key};

verus! {

/// The longest message that a peer takes when extended messages were not negotiated.
pub const MAX_LEN: usize = 4096;

/// The longest message that a peer takes when extended messages were negotiated.
pub const MAX_LEN_EXTENDED: usize = 65535;

/// Whether a peer is in the local autonomous system.
#[derive(Clone, Copy, Debug, PartialEq, Eq, Structural)]
pub enum PeerType {
    Internal,
    External,
}

impl View for PeerType {
    type V = PeerType;

    open spec fn view(&self) -> PeerType {
        *self
    }
}

/// How a route entered BGP.
#[derive(Clone, Copy, Debug, PartialEq, Eq, Structural)]
pub enum Origin {
    Igp,
    Egp,
    Incomplete,
}

/// Whether the order of the numbers in a path segment matters.
#[derive(Clone, Copy, Debug, PartialEq, Eq, Structural)]
pub enum SegmentKind {
    AsSet,
    AsSequence,
}

/// A run of autonomous system numbers.
#[derive(Debug, PartialEq, Eq)]
pub struct AsPathSegment {
    pub kind: SegmentKind,
    pub asns: Vec<u32>,
}

/// The autonomous systems that a route has passed through.
#[derive(Debug, PartialEq, Eq)]
pub struct AsPath {
    pub segments: Vec<AsPathSegment>,
}

impl AsPath {
    /// Whether `asn` occurs in a segment of either kind.
    pub open spec fn has(&self, asn: u32) -> bool {
        exists|i: int|
            0 <= i < self.segments@.len() && (#[trigger] self.segments@[i]).asns@.contains(asn)
    }

    /// Whether `asn` occurs in a segment of either kind.
    pub fn contains(&self, asn: u32) -> (r: bool)
        ensures
            r == self.has(asn),
    {
        let mut i: usize = 0;
        while i < self.segments.len()
            invariant
                0 <= i <= self.segments.len(),
                forall|j: int| 0 <= j < i ==> !(#[trigger] self.segments@[j]).asns@.contains(asn),
            decreases self.segments.len() - i,
        {
            if holds(&self.segments[i].asns, &asn) {
                return true;
            }
            i = i + 1;
        }
        false
    }
}

/// A community: a tag on a route.
#[derive(Clone, Copy, Debug, PartialEq, Eq, Structural)]
pub struct Community {
    pub value: u32,
}

impl Community {
    /// Whether this is the well-known BLACKHOLE community, 65535:666.
    pub open spec fn spec_is_blackhole(&self) -> bool {
        self.value == 0xffff_029a
    }

    /// Whether this is the well-known BLACKHOLE community, 65535:666.
    #[verifier::when_used_as_spec(spec_is_blackhole)]
    pub fn is_blackhole(&self) -> (r: bool)
        ensures
            r == self.spec_is_blackhole(),
    {
        self.value == 0xffff_029a
    }
}

/// A community of three numbers.
#[derive(Clone, Copy, Debug, PartialEq, Eq, Structural)]
pub struct LargeCommunity {
    pub global: u32,
    pub local1: u32,
    pub local2: u32,
}

/// An extended community, as the number that its eight octets spell.
#[derive(Clone, Copy, Debug, PartialEq, Eq, Structural)]
pub struct ExtendedCommunity {
    pub value: u64,
}

/// The router that formed an aggregate route.
#[derive(Clone, Copy, Debug, PartialEq, Eq, Structural)]
pub struct Aggregator {
    pub asn: u32,
    pub addr: Ipv4Addr,
}

/// The clusters that a reflected route has passed through, the most recent first.
#[derive(Debug, PartialEq, Eq)]
pub enum ClusterList {
    Empty,
    /// The list as it was received.
    Received(Arc<Vec<u32>>),
    /// A list with one more cluster in front.
    Prepended(u32, Arc<ClusterList>),
}

impl ClusterList {
    /// The identifiers in the list.
    pub open spec fn ids(self) -> Seq<u32>
        decreases self,
    {
        match self {
            ClusterList::Empty => Seq::empty(),
            ClusterList::Received(v) => v@,
            ClusterList::Prepended(id, rest) => seq![id] + rest.ids(),
        }
    }

    /// The same list again.
    pub fn share(&self) -> (r: Self)
        ensures
            r == *self,
    {
        match self {
            ClusterList::Empty => ClusterList::Empty,
            ClusterList::Received(v) => ClusterList::Received(v.clone()),
            ClusterList::Prepended(id, rest) => ClusterList::Prepended(*id, rest.clone()),
        }
    }

    /// The identifiers in the list.
    pub fn to_vec(&self) -> (r: Vec<u32>)
        ensures
            r@ == self.ids(),
        decreases self,
    {
        match self {
            ClusterList::Empty => Vec::new(),
            ClusterList::Received(v) => copy_of(v),
            ClusterList::Prepended(id, rest) => {
                let mut r = rest.to_vec();
                r.insert(0, *id);
                assert(r@ =~= seq![*id] + rest.ids());
                r
            },
        }
    }

    /// Whether `id` is listed.
    pub fn contains(&self, id: u32) -> (r: bool)
        ensures
            r == self.ids().contains(id),
    {
        holds(&self.to_vec(), &id)
    }
}

/// Announced prefixes of one family with their next hop.
#[derive(Debug, PartialEq, Eq)]
pub struct MpReachNlri {
    pub afi_safi: AfiSafi,
    pub next_hop: NextHop,
    pub prefixes: Vec<Prefix>,
}

/// Withdrawn prefixes of one family.
#[derive(Debug, PartialEq, Eq)]
pub struct MpUnreachNlri {
    pub afi_safi: AfiSafi,
    pub prefixes: Vec<Prefix>,
}

/// One path attribute of an UPDATE.
#[derive(Debug, PartialEq, Eq)]
pub enum PathAttribute {
    Origin(Origin),
    AsPath(Arc<AsPath>),
    NextHop(Ipv4Addr),
    LocalPref(u32),
    Med(u32),
    Communities(Arc<Vec<Community>>),
    LargeCommunities(Arc<Vec<LargeCommunity>>),
    ExtendedCommunities(Arc<Vec<ExtendedCommunity>>),
    AtomicAggregate,
    Aggregator(Aggregator),
    OriginatorId(Ipv4Addr),
    ClusterList(ClusterList),
    OnlyToCustomer(u32),
    MpReachNlri(MpReachNlri),
    MpUnreachNlri(MpUnreachNlri),
    Unknown { flags: u8, type_code: u8, value: Vec<u8> },
}

/// An UPDATE message.
#[derive(Debug, PartialEq, Eq)]
pub struct UpdateMessage {
    pub withdrawn: Vec<Nlri<Ipv4Addr>>,
    pub attributes: Vec<PathAttribute>,
    pub announced: Vec<Nlri<Ipv4Addr>>,
}

/// What an UPDATE says.
pub ghost struct UpdateView {
    pub withdrawn: Seq<Nlri<Ipv4Addr>>,
    pub attributes: Seq<PathAttribute>,
    pub announced: Seq<Nlri<Ipv4Addr>>,
}

impl View for UpdateMessage {
    type V = UpdateView;

    open spec fn view(&self) -> UpdateView {
        UpdateView {
            withdrawn: self.withdrawn@,
            attributes: self.attributes@,
            announced: self.announced@,
        }
    }
}

/// Why a session is being closed.
#[derive(Clone, Copy, Debug, PartialEq, Eq, Structural)]
pub enum CeaseError {
    MaximumNumberOfPrefixesReached,
    AdministrativeShutdown,
}

/// What is wrong with an UPDATE.
#[derive(Clone, Copy, Debug, PartialEq, Eq, Structural)]
pub enum UpdateMsgError {
    MissingWellKnownAttribute,
}

/// The error that a NOTIFICATION reports.
#[derive(Clone, Copy, Debug, PartialEq, Eq, Structural)]
pub enum NotificationError {
    UpdateMessage(UpdateMsgError),
    Cease(CeaseError),
}

/// A NOTIFICATION message.
#[derive(Debug, PartialEq, Eq)]
pub struct NotificationMessage {
    pub error: NotificationError,
    pub data: Vec<u8>,
}

/// The part that the local speaker plays on a session.
#[derive(Clone, Copy, Debug, PartialEq, Eq, Structural)]
pub enum Role {
    Provider,
    RouteServer,
    RsClient,
    Customer,
    Peer,
}

/// A family that takes part in graceful restart.
#[derive(Clone, Copy, Debug, PartialEq, Eq, Structural)]
pub struct GracefulRestartFamily {
    pub afi_safi: AfiSafi,
    pub forwarding_preserved: bool,
}

/// A capability that a speaker advertises in its OPEN.
#[derive(Debug, PartialEq, Eq)]
pub enum Capability {
    MultiProtocol(AfiSafi),
    RouteRefresh,
    FourByteAsn(u32),
    ExtendedMessage,
    GracefulRestart { restart_flags: u8, restart_time: u16, families: Vec<GracefulRestartFamily> },
    Role(Role),
    Unknown { code: u8, value: Vec<u8> },
}

impl Key for Community {
    fn same(&self, other: &Self) -> (r: bool) {
        self.value == other.value
    }
}

impl Key for LargeCommunity {
    fn same(&self, other: &Self) -> (r: bool) {
        *self == *other
    }
}

impl Key for ExtendedCommunity {
    fn same(&self, other: &Self) -> (r: bool) {
        self.value == other.value
    }
}

} // verus!
