//! What an UPDATE asks of the routing tables.
use vstd::prelude::*;

use crate::clock::Instant;
use crate::message::{
    NotificationError, NotificationMessage, PathAttribute, PeerType, UpdateMessage, UpdateMsgError,
    UpdateView,
};
use crate::net::{AfiSafi, Ipv4Addr, Ipv6Addr, NextHop, Nlri, Prefix};
use crate::rib::{blackholed, AdjRibIn, RibOp};
use crate::route::{Attributes, Route};
use crate::table::Key;

verus! {

/// Whether packets can be sent to `addr` as a next hop: it names one other host.
pub open spec fn valid_next_hop_v4(addr: Ipv4Addr, own: Option<Ipv4Addr>) -> bool {
    &&& addr.bits != 0
    &&& addr.bits / 0x100_0000 != 127
    &&& addr.bits / 0x1000_0000 != 14
    &&& addr.bits != 0xffff_ffff
    &&& own != Some(addr)
}

/// Whether packets can be sent to `addr` as a next hop: it is not `0.0.0.0`, nor loopback,
/// multicast, broadcast, or the address of the receiving interface.
pub fn is_valid_next_hop_v4(addr: Ipv4Addr, own: Option<Ipv4Addr>) -> (r: bool)
    ensures
        r == valid_next_hop_v4(addr, own),
{
    !addr.is_unspecified() && !addr.is_loopback() && !addr.is_multicast() && !addr.is_broadcast()
        && match own {
        Some(o) => addr != o,
        None => true,
    }
}

/// Whether packets can be sent to `addr` as a next hop: it is neither `::` nor multicast.
pub open spec fn valid_next_hop_v6(addr: Ipv6Addr) -> bool {
    &&& addr.bits != 0
    &&& addr.bits / 0x100_0000_0000_0000_0000_0000_0000_0000 != 0xff
}

/// Whether packets can be sent to `addr` as a next hop: it is neither `::` nor multicast.
pub fn is_valid_next_hop_v6(addr: Ipv6Addr) -> (r: bool)
    ensures
        r == valid_next_hop_v6(addr),
{
    !addr.is_unspecified() && !addr.is_multicast()
}

/// One of the two address families that routes are kept for.
pub trait Family: Key {
    /// The number of the family in multi-protocol attributes.
    spec fn unicast() -> AfiSafi;

    /// The prefix, if it is of this family.
    spec fn own_prefix(p: Prefix) -> Option<Nlri<Self>>;

    /// Whether a route of this family may have the next hop, at a speaker with the address `own`.
    spec fn acceptable(next_hop: Option<NextHop>, own: Option<Self>) -> bool;

    /// The number of the family in multi-protocol attributes.
    fn afi_safi() -> (r: AfiSafi)
        ensures
            r == Self::unicast(),
    ;

    /// The prefix, if it is of this family.
    fn pick(p: &Prefix) -> (r: Option<Nlri<Self>>)
        ensures
            r == Self::own_prefix(*p),
    ;

    /// Whether a route of this family may have the next hop, at a speaker with the address `own`.
    fn next_hop_ok(next_hop: &Option<NextHop>, own: &Option<Self>) -> (r: bool)
        ensures
            r == Self::acceptable(*next_hop, *own),
    ;
}

impl Family for Ipv4Addr {
    open spec fn unicast() -> AfiSafi {
        AfiSafi { afi: 1, safi: 1 }
    }

    open spec fn own_prefix(p: Prefix) -> Option<Nlri<Self>> {
        match p {
            Prefix::V4(n) => Some(n),
            Prefix::V6(_) => None,
        }
    }

    open spec fn acceptable(next_hop: Option<NextHop>, own: Option<Self>) -> bool {
        match next_hop {
            Some(NextHop::V4(addr)) => valid_next_hop_v4(addr, own),
            _ => true,
        }
    }

    fn afi_safi() -> (r: AfiSafi) {
        AfiSafi::ipv4_unicast()
    }

    fn pick(p: &Prefix) -> (r: Option<Nlri<Self>>) {
        match p {
            Prefix::V4(n) => Some(*n),
            Prefix::V6(_) => None,
        }
    }

    fn next_hop_ok(next_hop: &Option<NextHop>, own: &Option<Self>) -> (r: bool) {
        match next_hop {
            Some(NextHop::V4(addr)) => is_valid_next_hop_v4(*addr, *own),
            _ => true,
        }
    }
}

impl Family for Ipv6Addr {
    open spec fn unicast() -> AfiSafi {
        AfiSafi { afi: 2, safi: 1 }
    }

    open spec fn own_prefix(p: Prefix) -> Option<Nlri<Self>> {
        match p {
            Prefix::V4(_) => None,
            Prefix::V6(n) => Some(n),
        }
    }

    open spec fn acceptable(next_hop: Option<NextHop>, own: Option<Self>) -> bool {
        match next_hop {
            Some(NextHop::V6(addr)) => valid_next_hop_v6(addr) && own != Some(addr),
            Some(NextHop::V6WithLinkLocal { global, link_local }) => {
                &&& valid_next_hop_v6(global)
                &&& own != Some(global)
                &&& link_local.bits / 0x100_0000_0000_0000_0000_0000_0000_0000 != 0xff
            },
            _ => true,
        }
    }

    fn afi_safi() -> (r: AfiSafi) {
        AfiSafi::ipv6_unicast()
    }

    fn pick(p: &Prefix) -> (r: Option<Nlri<Self>>) {
        match p {
            Prefix::V4(_) => None,
            Prefix::V6(n) => Some(*n),
        }
    }

    fn next_hop_ok(next_hop: &Option<NextHop>, own: &Option<Self>) -> (r: bool) {
        match next_hop {
            Some(NextHop::V6(addr)) => is_valid_next_hop_v6(*addr) && *own != Some(*addr),
            Some(NextHop::V6WithLinkLocal { global, link_local }) => is_valid_next_hop_v6(*global)
                && *own != Some(*global) && !link_local.is_multicast(),
            _ => true,
        }
    }
}

/// The prefixes of one family in a list, in order.
pub open spec fn of_family<A: Family>(s: Seq<Prefix>) -> Seq<Nlri<A>>
    decreases s.len(),
{
    if s.len() == 0 {
        Seq::empty()
    } else {
        match A::own_prefix(s.last()) {
            Some(n) => of_family::<A>(s.drop_last()).push(n),
            None => of_family::<A>(s.drop_last()),
        }
    }
}

/// The prefixes that one attribute announces.
pub open spec fn reached_by<A: Family>(a: PathAttribute) -> Seq<Nlri<A>> {
    match a {
        PathAttribute::MpReachNlri(m) => if m.afi_safi == A::unicast() {
            of_family::<A>(m.prefixes@)
        } else {
            Seq::empty()
        },
        _ => Seq::empty(),
    }
}

/// The prefixes that one attribute withdraws.
pub open spec fn unreached_by<A: Family>(a: PathAttribute) -> Seq<Nlri<A>> {
    match a {
        PathAttribute::MpUnreachNlri(m) => if m.afi_safi == A::unicast() {
            of_family::<A>(m.prefixes@)
        } else {
            Seq::empty()
        },
        _ => Seq::empty(),
    }
}

/// The next hop that an MP_REACH_NLRI attribute carries.
pub open spec fn inline_next_hop(a: PathAttribute) -> Option<NextHop> {
    match a {
        PathAttribute::MpReachNlri(m) => Some(m.next_hop),
        _ => None,
    }
}

/// The announcements in MP_REACH_NLRI attributes, in order, each with its next hop.
pub open spec fn mp_announced<A: Family>(s: Seq<PathAttribute>) -> Seq<(Nlri<A>, Option<NextHop>)>
    decreases s.len(),
{
    if s.len() == 0 {
        Seq::empty()
    } else {
        mp_announced::<A>(s.drop_last()) + reached_by::<A>(s.last()).map_values(
            |n: Nlri<A>| (n, inline_next_hop(s.last())),
        )
    }
}

/// The withdrawals in MP_UNREACH_NLRI attributes, in order.
pub open spec fn mp_withdrawn<A: Family>(s: Seq<PathAttribute>) -> Seq<Nlri<A>>
    decreases s.len(),
{
    if s.len() == 0 {
        Seq::empty()
    } else {
        mp_withdrawn::<A>(s.drop_last()) + unreached_by::<A>(s.last())
    }
}

/// The prefixes in multi-protocol attributes of either kind, in order.
pub open spec fn mp_mentioned<A: Family>(s: Seq<PathAttribute>) -> Seq<Nlri<A>>
    decreases s.len(),
{
    if s.len() == 0 {
        Seq::empty()
    } else {
        mp_mentioned::<A>(s.drop_last()) + reached_by::<A>(s.last()) + unreached_by::<A>(s.last())
    }
}

/// The NEXT_HOP attribute; the last one, where there are several.
pub open spec fn next_hop_attribute(s: Seq<PathAttribute>) -> Option<Ipv4Addr>
    decreases s.len(),
{
    if s.len() == 0 {
        None
    } else {
        match s.last() {
            PathAttribute::NextHop(ip) => Some(ip),
            _ => next_hop_attribute(s.drop_last()),
        }
    }
}

/// The prefixes of one family in a list, in order.
fn select<A: Family>(prefixes: &Vec<Prefix>) -> (r: Vec<Nlri<A>>)
    ensures
        r@ == of_family::<A>(prefixes@),
{
    let mut r: Vec<Nlri<A>> = Vec::new();
    let mut i: usize = 0;
    while i < prefixes.len()
        invariant
            0 <= i <= prefixes.len(),
            r@ == of_family::<A>(prefixes@.take(i as int)),
        decreases prefixes.len() - i,
    {
        if let Some(n) = A::pick(&prefixes[i]) {
            r.push(n);
        }
        i = i + 1;
        assert(prefixes@.take(i as int).drop_last() =~= prefixes@.take(i - 1));
    }
    assert(prefixes@.take(i as int) =~= prefixes@);
    r
}

/// The announcements in MP_REACH_NLRI attributes.
pub fn collect_announced<A: Family>(attributes: &Vec<PathAttribute>) -> (r: Vec<
    (Nlri<A>, Option<NextHop>),
>)
    ensures
        r@ == mp_announced::<A>(attributes@),
{
    let mut r: Vec<(Nlri<A>, Option<NextHop>)> = Vec::new();
    let mut i: usize = 0;
    while i < attributes.len()
        invariant
            0 <= i <= attributes.len(),
            r@ == mp_announced::<A>(attributes@.take(i as int)),
        decreases attributes.len() - i,
    {
        let ghost prev = r@;
        let ghost here = attributes@[i as int];
        let ghost f = |n: Nlri<A>| (n, inline_next_hop(here));
        if let PathAttribute::MpReachNlri(m) = &attributes[i] {
            if m.afi_safi == A::afi_safi() {
                let ns = select::<A>(&m.prefixes);
                let mut j: usize = 0;
                while j < ns.len()
                    invariant
                        0 <= j <= ns.len(),
                        here == PathAttribute::MpReachNlri(*m),
                        f == (|n: Nlri<A>| (n, inline_next_hop(here))),
                        r@ == prev + ns@.take(j as int).map_values(f),
                    decreases ns.len() - j,
                {
                    r.push((ns[j], Some(m.next_hop)));
                    j = j + 1;
                    assert(ns@.take(j as int).map_values(f) =~= ns@.take(j - 1).map_values(f).push(
                        f(ns@[j - 1]),
                    ));
                }
                assert(ns@.take(j as int) =~= ns@);
            }
        }
        assert(r@ =~= prev + reached_by::<A>(here).map_values(f));
        i = i + 1;
        proof {
            let s = attributes@.take(i as int);
            assert(s.drop_last() =~= attributes@.take(i - 1));
            assert(s.last() == here);
            assert(reached_by::<A>(here).map_values(f) =~= reached_by::<A>(s.last()).map_values(
                |n: Nlri<A>| (n, inline_next_hop(s.last())),
            ));
        }
    }
    assert(attributes@.take(i as int) =~= attributes@);
    r
}

/// The withdrawals in MP_UNREACH_NLRI attributes.
pub fn collect_withdrawn<A: Family>(attributes: &Vec<PathAttribute>) -> (r: Vec<Nlri<A>>)
    ensures
        r@ == mp_withdrawn::<A>(attributes@),
{
    let mut r: Vec<Nlri<A>> = Vec::new();
    let mut i: usize = 0;
    while i < attributes.len()
        invariant
            0 <= i <= attributes.len(),
            r@ == mp_withdrawn::<A>(attributes@.take(i as int)),
        decreases attributes.len() - i,
    {
        let ghost prev = r@;
        let ghost here = attributes@[i as int];
        if let PathAttribute::MpUnreachNlri(m) = &attributes[i] {
            if m.afi_safi == A::afi_safi() {
                let mut ns = select::<A>(&m.prefixes);
                r.append(&mut ns);
            }
        }
        assert(r@ =~= prev + unreached_by::<A>(here));
        i = i + 1;
        assert(attributes@.take(i as int).drop_last() =~= attributes@.take(i - 1));
    }
    assert(attributes@.take(i as int) =~= attributes@);
    r
}

/// The prefixes in multi-protocol attributes of either kind.
pub fn collect_mentioned<A: Family>(attributes: &Vec<PathAttribute>) -> (r: Vec<Nlri<A>>)
    ensures
        r@ == mp_mentioned::<A>(attributes@),
{
    let mut r: Vec<Nlri<A>> = Vec::new();
    let mut i: usize = 0;
    while i < attributes.len()
        invariant
            0 <= i <= attributes.len(),
            r@ == mp_mentioned::<A>(attributes@.take(i as int)),
        decreases attributes.len() - i,
    {
        let ghost prev = r@;
        let ghost here = attributes@[i as int];
        match &attributes[i] {
            PathAttribute::MpReachNlri(m) => if m.afi_safi == A::afi_safi() {
                let mut ns = select::<A>(&m.prefixes);
                r.append(&mut ns);
            },
            PathAttribute::MpUnreachNlri(m) => if m.afi_safi == A::afi_safi() {
                let mut ns = select::<A>(&m.prefixes);
                r.append(&mut ns);
            },
            _ => {},
        }
        assert(r@ =~= prev + reached_by::<A>(here) + unreached_by::<A>(here));
        i = i + 1;
        assert(attributes@.take(i as int).drop_last() =~= attributes@.take(i - 1));
    }
    assert(attributes@.take(i as int) =~= attributes@);
    r
}

/// The NEXT_HOP attribute; the last one, where there are several.
fn find_next_hop(attributes: &Vec<PathAttribute>) -> (r: Option<Ipv4Addr>)
    ensures
        r == next_hop_attribute(attributes@),
{
    let mut r: Option<Ipv4Addr> = None;
    let mut i: usize = 0;
    while i < attributes.len()
        invariant
            0 <= i <= attributes.len(),
            r == next_hop_attribute(attributes@.take(i as int)),
        decreases attributes.len() - i,
    {
        if let PathAttribute::NextHop(ip) = &attributes[i] {
            r = Some(*ip);
        }
        i = i + 1;
        assert(attributes@.take(i as int).drop_last() =~= attributes@.take(i - 1));
    }
    assert(attributes@.take(i as int) =~= attributes@);
    r
}

/// The type code of the first mandatory attribute that an UPDATE with announcements lacks:
/// ORIGIN, AS_PATH, or NEXT_HOP for prefixes in the IPv4 field.
pub open spec fn missing_attribute(m: UpdateView) -> Option<u8> {
    let a = Attributes::of(m.attributes);
    let announces = m.announced.len() > 0 || mp_announced::<Ipv4Addr>(m.attributes).len() > 0
        || mp_announced::<Ipv6Addr>(m.attributes).len() > 0;
    if !announces {
        None
    } else if a.origin is None {
        Some(1u8)
    } else if a.as_path is None {
        Some(2u8)
    } else if m.announced.len() > 0 && next_hop_attribute(m.attributes) is None {
        Some(3u8)
    } else {
        None
    }
}

/// Whether the path shows that the announcements must not be used: it holds the reserved number 0
/// or the local number.
pub open spec fn path_rejected(m: UpdateView, local_as: u32) -> bool {
    let a = Attributes::of(m.attributes);
    a.path_has(0) || a.path_has(local_as)
}

/// The IPv4 prefixes whose routes an UPDATE withdraws, in order.
pub open spec fn effective_withdrawals(m: UpdateView) -> Seq<Nlri<Ipv4Addr>> {
    if missing_attribute(m) is Some {
        m.withdrawn
    } else {
        m.withdrawn + mp_withdrawn::<Ipv4Addr>(m.attributes)
    }
}

/// The IPv6 prefixes whose routes an UPDATE withdraws, in order.
pub open spec fn effective_withdrawals_v6(m: UpdateView) -> Seq<Nlri<Ipv6Addr>> {
    if missing_attribute(m) is Some {
        Seq::empty()
    } else {
        mp_withdrawn::<Ipv6Addr>(m.attributes)
    }
}

/// The prefixes of the IPv4 field with the next hop of the NEXT_HOP attribute.
pub open spec fn plain_announced(m: UpdateView) -> Seq<(Nlri<Ipv4Addr>, Option<NextHop>)> {
    let nh = match next_hop_attribute(m.attributes) {
        Some(ip) => Some(NextHop::V4(ip)),
        None => None,
    };
    m.announced.map_values(|n: Nlri<Ipv4Addr>| (n, nh))
}

/// The IPv4 announcements that an UPDATE makes, in order.
pub open spec fn effective_announcements(m: UpdateView, local_as: u32) -> Seq<
    (Nlri<Ipv4Addr>, Option<NextHop>),
> {
    if missing_attribute(m) is Some || path_rejected(m, local_as) {
        Seq::empty()
    } else {
        plain_announced(m) + mp_announced::<Ipv4Addr>(m.attributes)
    }
}

/// The IPv6 announcements that an UPDATE makes, in order.
pub open spec fn effective_announcements_v6(m: UpdateView, local_as: u32) -> Seq<
    (Nlri<Ipv6Addr>, Option<NextHop>),
> {
    if missing_attribute(m) is Some || path_rejected(m, local_as) {
        Seq::empty()
    } else {
        mp_announced::<Ipv6Addr>(m.attributes)
    }
}

/// How routes are made from announcements.
pub struct Maker<A> {
    /// The local address towards the peer, which is no next hop.
    pub own: Option<A>,
    pub peer_type: PeerType,
    pub received_at: Instant,
    pub attributes: Attributes,
}

impl<A: Family> Maker<A> {
    /// The route for one announcement.
    pub open spec fn route(self, x: (Nlri<A>, Option<NextHop>)) -> Route<A> {
        Route {
            nlri: x.0,
            next_hop: x.1,
            peer_type: self.peer_type,
            stale: false,
            received_at: self.received_at,
            attributes: self.attributes,
        }
    }

    /// The routes for those announcements whose next hop is acceptable, in order.
    pub open spec fn routes(self, s: Seq<(Nlri<A>, Option<NextHop>)>) -> Seq<Route<A>>
        decreases s.len(),
    {
        if s.len() == 0 {
            Seq::empty()
        } else if A::acceptable(s.last().1, self.own) {
            self.routes(s.drop_last()).push(self.route(s.last()))
        } else {
            self.routes(s.drop_last())
        }
    }
}

/// A table of received routes once the given routes have been stored, in order.
pub open spec fn stored<A>(m: Map<Nlri<A>, Route<A>>, s: Seq<Route<A>>) -> Map<Nlri<A>, Route<A>>
    decreases s.len(),
{
    if s.len() == 0 {
        m
    } else {
        stored(m, s.drop_last()).insert(s.last().nlri, s.last())
    }
}

/// What a received route asks of the decision process. One that asks for its traffic to be dropped
/// never becomes a candidate, and ends an earlier candidacy; any other goes to the import policy.
pub open spec fn admission<A>(r: Route<A>) -> RibOp<A> {
    if r.attributes.is_blackhole() {
        RibOp::Withdraw(r.nlri)
    } else {
        RibOp::Evaluate(r)
    }
}

/// The prefixes of those routes that ask for their traffic to be dropped, in order.
pub open spec fn null_routed<A>(s: Seq<Route<A>>) -> Seq<Nlri<A>>
    decreases s.len(),
{
    if s.len() == 0 {
        Seq::empty()
    } else if s.last().attributes.is_blackhole() {
        null_routed(s.drop_last()).push(s.last().nlri)
    } else {
        null_routed(s.drop_last())
    }
}

/// The prefixes in a list of withdrawals that lose a route which asked for its traffic to be
/// dropped, each at its first occurrence.
pub open spec fn null_routes_lost<A>(m: Map<Nlri<A>, Route<A>>, s: Seq<Nlri<A>>) -> Seq<Nlri<A>>
    decreases s.len(),
{
    if s.len() == 0 {
        Seq::empty()
    } else {
        let rest = s.drop_last();
        if blackholed(m, s.last()) && !rest.contains(s.last()) {
            null_routes_lost(m, rest).push(s.last())
        } else {
            null_routes_lost(m, rest)
        }
    }
}

/// The operations that withdrawals ask for.
pub open spec fn withdrawals<A>(s: Seq<Nlri<A>>) -> Seq<RibOp<A>> {
    s.map_values(|n: Nlri<A>| RibOp::<A>::Withdraw(n))
}

/// The operations that announcements ask for.
pub open spec fn admissions<A>(s: Seq<Route<A>>) -> Seq<RibOp<A>> {
    s.map_values(|r: Route<A>| admission(r))
}

/// What one UPDATE does to one family.
pub struct FamilyResult<A> {
    /// What the decision process is to do, in order.
    pub ops: Vec<RibOp<A>>,
    /// Prefixes for which a kernel null route is to be installed.
    pub blackhole_announced: Vec<Nlri<A>>,
    /// Prefixes for which a kernel null route is to be removed.
    pub blackhole_withdrawn: Vec<Nlri<A>>,
}

/// Whether a result is what withdrawals and then announcements ask for, starting from a table of
/// received routes.
pub open spec fn result_of<A: Family>(
    r: FamilyResult<A>,
    before: Map<Nlri<A>, Route<A>>,
    withdrawn: Seq<Nlri<A>>,
    routes: Seq<Route<A>>,
) -> bool {
    &&& r.ops@ == withdrawals(withdrawn) + admissions(routes)
    &&& r.blackhole_announced@ == null_routed(routes)
    &&& r.blackhole_withdrawn@ == null_routes_lost(before, withdrawn)
}

/// A table of received routes after withdrawals and then announcements.
pub open spec fn table_after<A: Family>(
    before: Map<Nlri<A>, Route<A>>,
    withdrawn: Seq<Nlri<A>>,
    routes: Seq<Route<A>>,
) -> Map<Nlri<A>, Route<A>> {
    stored(before.remove_keys(withdrawn.to_set()), routes)
}

/// Applies the withdrawals and then the announcements of one family.
fn apply<A: Family>(
    table: &mut AdjRibIn<A>,
    withdrawn: &Vec<Nlri<A>>,
    announced: &Vec<(Nlri<A>, Option<NextHop>)>,
    maker: &Maker<A>,
) -> (r: FamilyResult<A>)
    ensures
        final(table)@ == table_after(old(table)@, withdrawn@, maker.routes(announced@)),
        result_of(r, old(table)@, withdrawn@, maker.routes(announced@)),
{
    let ghost before = table@;
    let mut ops: Vec<RibOp<A>> = Vec::new();
    let mut lost: Vec<Nlri<A>> = Vec::new();
    let mut gained: Vec<Nlri<A>> = Vec::new();
    let mut i: usize = 0;
    proof {
        assert(before.remove_keys(withdrawn@.take(0).to_set()) =~= before);
        assert(withdrawals(withdrawn@.take(0)) =~= Seq::<RibOp<A>>::empty());
    }
    while i < withdrawn.len()
        invariant
            0 <= i <= withdrawn.len(),
            before == old(table)@,
            table@ == before.remove_keys(withdrawn@.take(i as int).to_set()),
            ops@ == withdrawals(withdrawn@.take(i as int)),
            lost@ == null_routes_lost(before, withdrawn@.take(i as int)),
        decreases withdrawn.len() - i,
    {
        let n = withdrawn[i];
        let ghost done = withdrawn@.take(i as int);
        if table.is_blackholed(&n) {
            lost.push(n);
        }
        table.withdraw(&n);
        ops.push(RibOp::Withdraw(n));
        i = i + 1;
        proof {
            let next = withdrawn@.take(i as int);
            assert(next.drop_last() =~= done);
            assert(next.last() == n);
            assert(next =~= done.push(n));
            assert forall|x: Nlri<A>| next.to_set().contains(x) <==> (done.to_set().contains(x) || x
                == n) by {
                if done.contains(x) {
                    let j = done.index_of(x);
                    assert(next[j] == x);
                }
                assert(next[i - 1] == n);
                if next.contains(x) && x != n {
                    let j = next.index_of(x);
                    assert(done[j] == x);
                }
            }
            assert(table@ =~= before.remove_keys(next.to_set()));
            assert(ops@ =~= withdrawals(next));
            assert(done.to_set().contains(n) == done.contains(n));
        }
    }
    assert(withdrawn@.take(i as int) =~= withdrawn@);
    let ghost base = table@;
    let ghost first = ops@;
    let mut j: usize = 0;
    proof {
        assert(admissions(maker.routes(announced@.take(0))) =~= Seq::<RibOp<A>>::empty());
    }
    while j < announced.len()
        invariant
            0 <= j <= announced.len(),
            table@ == stored(base, maker.routes(announced@.take(j as int))),
            ops@ == first + admissions(maker.routes(announced@.take(j as int))),
            gained@ == null_routed(maker.routes(announced@.take(j as int))),
        decreases announced.len() - j,
    {
        let x = &announced[j];
        let ghost next = announced@.take(j + 1);
        let ghost done = maker.routes(announced@.take(j as int));
        assert(next.drop_last() =~= announced@.take(j as int));
        if A::next_hop_ok(&x.1, &maker.own) {
            let route = Route {
                nlri: x.0,
                next_hop: x.1,
                peer_type: maker.peer_type,
                stale: false,
                received_at: maker.received_at,
                attributes: maker.attributes.share(),
            };
            proof {
                assert(route == maker.route(*x));
                assert(maker.routes(next) == done.push(route));
                assert(done.push(route).drop_last() =~= done);
                assert(admissions(done.push(route)) =~= admissions(done).push(admission(route)));
            }
            table.insert(route.share());
            if route.attributes.is_blackhole() {
                ops.push(RibOp::Withdraw(x.0));
                gained.push(x.0);
            } else {
                ops.push(RibOp::Evaluate(route));
            }
        }
        assert(ops@ =~= first + admissions(maker.routes(next)));
        j = j + 1;
    }
    assert(announced@.take(j as int) =~= announced@);
    FamilyResult { ops, blackhole_announced: gained, blackhole_withdrawn: lost }
}

/// What one UPDATE asks for, beside its effect on the tables of received routes.
pub struct UpdateResult {
    pub v4: FamilyResult<Ipv4Addr>,
    pub v6: FamilyResult<Ipv6Addr>,
    /// The error to report to the peer.
    pub notification: Option<NotificationMessage>,
}

/// Whether a notification is the one that an UPDATE calls for, if any.
pub open spec fn notification_of(r: Option<NotificationMessage>, missing: Option<u8>) -> bool {
    match missing {
        Some(code) => {
            &&& r is Some
            &&& r->0.error == NotificationError::UpdateMessage(
                UpdateMsgError::MissingWellKnownAttribute,
            )
            &&& r->0.data@ == seq![code]
        },
        None => r is None,
    }
}

/// How the IPv4 routes of an UPDATE are made.
pub open spec fn maker_v4(
    m: UpdateView,
    own: Option<Ipv4Addr>,
    peer_type: PeerType,
    now: Instant,
) -> Maker<Ipv4Addr> {
    Maker { own, peer_type, received_at: now, attributes: Attributes::of(m.attributes) }
}

/// How the IPv6 routes of an UPDATE are made.
pub open spec fn maker_v6(
    m: UpdateView,
    own: Option<Ipv6Addr>,
    peer_type: PeerType,
    now: Instant,
) -> Maker<Ipv6Addr> {
    Maker { own, peer_type, received_at: now, attributes: Attributes::of(m.attributes) }
}

/// The IPv4 routes that an UPDATE brings.
pub open spec fn routes_v4(
    m: UpdateView,
    local_as: u32,
    own: Option<Ipv4Addr>,
    peer_type: PeerType,
    now: Instant,
) -> Seq<Route<Ipv4Addr>> {
    maker_v4(m, own, peer_type, now).routes(effective_announcements(m, local_as))
}

/// The IPv6 routes that an UPDATE brings.
pub open spec fn routes_v6(
    m: UpdateView,
    local_as: u32,
    own: Option<Ipv6Addr>,
    peer_type: PeerType,
    now: Instant,
) -> Seq<Route<Ipv6Addr>> {
    maker_v6(m, own, peer_type, now).routes(effective_announcements_v6(m, local_as))
}

/// Processes an UPDATE: brings the tables of routes received from the peer up to date, and says
/// what the decision process and the kernel are to do.
///
/// An UPDATE with announcements that lacks a mandatory attribute is answered with a notification
/// that names it, and only the withdrawals of its IPv4 field take effect. Where the path holds the
/// local number or the reserved number 0, the announcements are dropped and the withdrawals take
/// effect.
pub fn handle_update(
    msg: UpdateMessage,
    adj_rib_in: &mut AdjRibIn<Ipv4Addr>,
    adj_rib_in_v6: &mut AdjRibIn<Ipv6Addr>,
    peer_type: PeerType,
    local_as: u32,
    local_v4_addr: Option<Ipv4Addr>,
    local_v6_addr: Option<Ipv6Addr>,
    now: Instant,
) -> (r: UpdateResult)
    ensures
        final(adj_rib_in)@ == table_after(
            old(adj_rib_in)@,
            effective_withdrawals(msg@),
            routes_v4(msg@, local_as, local_v4_addr, peer_type, now),
        ),
        result_of(
            r.v4,
            old(adj_rib_in)@,
            effective_withdrawals(msg@),
            routes_v4(msg@, local_as, local_v4_addr, peer_type, now),
        ),
        final(adj_rib_in_v6)@ == table_after(
            old(adj_rib_in_v6)@,
            effective_withdrawals_v6(msg@),
            routes_v6(msg@, local_as, local_v6_addr, peer_type, now),
        ),
        result_of(
            r.v6,
            old(adj_rib_in_v6)@,
            effective_withdrawals_v6(msg@),
            routes_v6(msg@, local_as, local_v6_addr, peer_type, now),
        ),
        notification_of(r.notification, missing_attribute(msg@)),
{
    let ghost m = msg@;
    let attributes = Attributes::collect(&msg.attributes);
    let mut mp_v4 = collect_announced::<Ipv4Addr>(&msg.attributes);
    let mp_v6 = collect_announced::<Ipv6Addr>(&msg.attributes);
    let next_hop = find_next_hop(&msg.attributes);
    let announces = msg.announced.len() > 0 || mp_v4.len() > 0 || mp_v6.len() > 0;
    let missing: Option<u8> = if !announces {
        None
    } else if attributes.origin.is_none() {
        Some(1u8)
    } else if attributes.as_path.is_none() {
        Some(2u8)
    } else if msg.announced.len() > 0 && next_hop.is_none() {
        Some(3u8)
    } else {
        None
    };
    assert(missing == missing_attribute(m));
    let dropped = missing.is_some() || attributes.path_contains(0) || attributes.path_contains(
        local_as,
    );

    let mut withdrawn = msg.withdrawn;
    let mut withdrawn_v6: Vec<Nlri<Ipv6Addr>> = Vec::new();
    if missing.is_none() {
        let mut more = collect_withdrawn::<Ipv4Addr>(&msg.attributes);
        withdrawn.append(&mut more);
        withdrawn_v6 = collect_withdrawn::<Ipv6Addr>(&msg.attributes);
    }
    let mut announced: Vec<(Nlri<Ipv4Addr>, Option<NextHop>)> = Vec::new();
    let mut announced_v6: Vec<(Nlri<Ipv6Addr>, Option<NextHop>)> = Vec::new();
    if !dropped {
        let nh: Option<NextHop> = match next_hop {
            Some(ip) => Some(NextHop::V4(ip)),
            None => None,
        };
        let ghost f = |n: Nlri<Ipv4Addr>| (n, nh);
        let mut i: usize = 0;
        assert(msg.announced@.take(0).map_values(f) =~= Seq::<
            (Nlri<Ipv4Addr>, Option<NextHop>),
        >::empty());
        while i < msg.announced.len()
            invariant
                0 <= i <= msg.announced.len(),
                f == (|n: Nlri<Ipv4Addr>| (n, nh)),
                announced@ == msg.announced@.take(i as int).map_values(f),
            decreases msg.announced.len() - i,
        {
            announced.push((msg.announced[i], nh));
            i = i + 1;
            assert(msg.announced@.take(i as int).map_values(f) =~= msg.announced@.take(
                i - 1,
            ).map_values(f).push(f(msg.announced@[i - 1])));
        }
        assert(msg.announced@.take(i as int) =~= m.announced);
        assert(announced@ =~= plain_announced(m));
        announced.append(&mut mp_v4);
        announced_v6 = mp_v6;
    }
    assert(withdrawn@ == effective_withdrawals(m));
    assert(withdrawn_v6@ == effective_withdrawals_v6(m));
    assert(announced@ == effective_announcements(m, local_as));
    assert(announced_v6@ == effective_announcements_v6(m, local_as));

    let maker = Maker {
        own: local_v4_addr,
        peer_type,
        received_at: now,
        attributes: attributes.share(),
    };
    let maker6 = Maker {
        own: local_v6_addr,
        peer_type,
        received_at: now,
        attributes,
    };
    let v4 = apply(adj_rib_in, &withdrawn, &announced, &maker);
    let v6 = apply(adj_rib_in_v6, &withdrawn_v6, &announced_v6, &maker6);
    let notification = match missing {
        Some(code) => {
            let mut data: Vec<u8> = Vec::new();
            data.push(code);
            assert(data@ =~= seq![code]);
            Some(
                NotificationMessage {
                    error: NotificationError::UpdateMessage(
                        UpdateMsgError::MissingWellKnownAttribute,
                    ),
                    data,
                },
            )
        },
        None => None,
    };
    UpdateResult { v4, v6, notification }
}

/// What is in a table once routes have been stored: each prefix of a stored route, with the last route
/// stored for it; any other prefix is as it was.
pub proof fn stored_routes_stand<A>(m: Map<Nlri<A>, Route<A>>, s: Seq<Route<A>>, n: Nlri<A>)
    ensures
        (forall|i: int| 0 <= i < s.len() ==> (#[trigger] s[i]).nlri != n) ==> {
            &&& stored(m, s).contains_key(n) == m.contains_key(n)
            &&& m.contains_key(n) ==> stored(m, s)[n] == m[n]
        },
        forall|i: int|
            0 <= i < s.len() && (#[trigger] s[i]).nlri == n && (forall|j: int|
                i < j < s.len() ==> (#[trigger] s[j]).nlri != n) ==> stored(m, s).contains_key(n)
                && stored(m, s)[n] == s[i],
    decreases s.len(),
{
    if s.len() > 0 {
        let t = s.drop_last();
        let k = s.len() - 1;
        stored_routes_stand(m, t, n);
        assert forall|i: int| 0 <= i < t.len() implies t[i] == s[i] by {}
        assert forall|i: int|
            0 <= i < s.len() && (#[trigger] s[i]).nlri == n && (forall|j: int|
                i < j < s.len() ==> (#[trigger] s[j]).nlri != n) implies stored(m, s).contains_key(n)
            && stored(m, s)[n] == s[i] by {
            if i < k {
                assert(s[k].nlri != n);
                assert(t[i] == s[i]);
                assert forall|j: int| i < j < t.len() implies (#[trigger] t[j]).nlri != n by {
                    assert(s[j].nlri != n);
                }
                assert(stored(m, t)[n] == t[i]);
            }
        }
        if forall|i: int| 0 <= i < s.len() ==> (#[trigger] s[i]).nlri != n {
            assert(s[k].nlri != n);
            assert forall|i: int| 0 <= i < t.len() implies (#[trigger] t[i]).nlri != n by {
                assert(s[i].nlri != n);
            }
        }
    }
}

/// The table of received routes keeps every route as it came, whatever the import policy makes of it:
/// the last one for its prefix stands in it. A withdrawn prefix that is not announced has none, and a
/// prefix that is neither withdrawn nor announced keeps what it had.
pub proof fn received_routes_are_kept_raw<A: Family>(
    before: Map<Nlri<A>, Route<A>>,
    withdrawn: Seq<Nlri<A>>,
    routes: Seq<Route<A>>,
    n: Nlri<A>,
)
    ensures
        ({
            let after = table_after(before, withdrawn, routes);
            let announced = exists|i: int| 0 <= i < routes.len() && (#[trigger] routes[i]).nlri == n;
            &&& forall|i: int|
                0 <= i < routes.len() && (#[trigger] routes[i]).nlri == n && (forall|j: int|
                    i < j < routes.len() ==> (#[trigger] routes[j]).nlri != n) ==> after.contains_key(n)
                    && after[n] == routes[i]
            &&& !announced && withdrawn.contains(n) ==> !after.contains_key(n)
            &&& !announced && !withdrawn.contains(n) ==> {
                &&& after.contains_key(n) == before.contains_key(n)
                &&& before.contains_key(n) ==> after[n] == before[n]
            }
        }),
{
    stored_routes_stand(before.remove_keys(withdrawn.to_set()), routes, n);
    assert(withdrawn.to_set().contains(n) == withdrawn.contains(n));
}

/// A route that asks for its traffic to be dropped becomes no candidate by the UPDATE that brings it:
/// an UPDATE has the decision process drop candidates, and the import policy look at other routes, and
/// nothing else.
pub proof fn null_routes_are_no_candidates<A>(withdrawn: Seq<Nlri<A>>, routes: Seq<Route<A>>, i: int)
    requires
        0 <= i < withdrawn.len() + routes.len(),
    ensures
        ({
            let op = (withdrawals(withdrawn) + admissions(routes))[i];
            op is Withdraw || (op is Evaluate && !op->Evaluate_0.attributes.is_blackhole())
        }),
{
}

/// Withdrawals take effect whatever is wrong with the path of an UPDATE; its announcements do not.
pub proof fn withdrawals_outlive_bad_paths(m: UpdateView, local_as: u32)
    requires
        path_rejected(m, local_as),
    ensures
        effective_announcements(m, local_as).len() == 0,
        effective_announcements_v6(m, local_as).len() == 0,
        missing_attribute(m) is None ==> {
            &&& effective_withdrawals(m) == m.withdrawn + mp_withdrawn::<Ipv4Addr>(m.attributes)
            &&& effective_withdrawals_v6(m) == mp_withdrawn::<Ipv6Addr>(m.attributes)
        },
        m.withdrawn.is_prefix_of(effective_withdrawals(m)),
{
}

/// An UPDATE that announces nothing is never answered with an error, whatever attributes it has.
pub proof fn withdrawals_need_no_attributes(m: UpdateView)
    requires
        m.announced.len() == 0,
        mp_announced::<Ipv4Addr>(m.attributes).len() == 0,
        mp_announced::<Ipv6Addr>(m.attributes).len() == 0,
    ensures
        missing_attribute(m) is None,
{
}

} // verus!
