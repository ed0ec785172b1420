//! The kernel forwarding table: what is to be installed, and what the decision process learns of
//! next hops from it.
use vstd::prelude::*;

use crate::net::{Ipv4Addr, Ipv6Addr, NextHop, Nlri};
use crate::rib::{Best, BestPathChange, LocRib};
use crate::table::{Key, Table};

verus! {

/// What the kernel says of the addresses in a next hop. For one with two addresses, `address`
/// speaks of the global one.
#[derive(Debug, PartialEq, Eq, Structural)]
pub struct Lookup<T> {
    pub address: T,
    pub link_local: T,
}

/// Whether the decision process is to take a next hop as reachable. With two addresses the global
/// one counts where it is set and reachable, else the link-local one.
pub open spec fn reachable(next_hop: NextHop, found: Lookup<bool>) -> bool {
    match next_hop {
        NextHop::V6WithLinkLocal { global, .. } => (global.bits != 0 && found.address)
            || found.link_local,
        _ => found.address,
    }
}

/// Whether the decision process is to take a next hop as reachable.
pub fn is_reachable(next_hop: &NextHop, found: Lookup<bool>) -> (r: bool)
    ensures
        r == reachable(*next_hop, found),
{
    match next_hop {
        NextHop::V4(_) => found.address,
        NextHop::V6(_) => found.address,
        NextHop::V6WithLinkLocal { global, .. } => if !global.is_unspecified() && found.address {
            true
        } else {
            found.link_local
        },
    }
}

/// The metric of the path to a next hop. With two addresses it is that of the global one where it
/// is set and has a metric, else that of the link-local one.
pub open spec fn metric(next_hop: NextHop, found: Lookup<Option<u32>>) -> Option<u32> {
    match next_hop {
        NextHop::V6WithLinkLocal { global, .. } => if global.bits != 0 && found.address is Some {
            found.address
        } else {
            found.link_local
        },
        _ => found.address,
    }
}

/// The metric of the path to a next hop.
pub fn igp_metric(next_hop: &NextHop, found: Lookup<Option<u32>>) -> (r: Option<u32>)
    ensures
        r == metric(*next_hop, found),
{
    match next_hop {
        NextHop::V4(_) => found.address,
        NextHop::V6(_) => found.address,
        NextHop::V6WithLinkLocal { global, .. } => if !global.is_unspecified()
            && found.address.is_some() {
            found.address
        } else {
            found.link_local
        },
    }
}

/// The state that the kernel is to have for a prefix.
#[derive(Debug, PartialEq, Eq, Structural)]
pub enum Pending<A> {
    Install { gateway: A },
    /// A null route, which drops the traffic.
    Blackhole,
    Withdraw,
}

/// The state that the kernel is to have for an IPv4 prefix.
pub type PendingV4 = Pending<Ipv4Addr>;

/// The state that the kernel is to have for an IPv6 prefix.
pub type PendingV6 = Pending<Ipv6Addr>;

impl<A: Copy> Clone for Pending<A> {
    fn clone(&self) -> (r: Self)
        ensures
            r == *self,
    {
        *self
    }
}

impl<A: Copy> Copy for Pending<A> {

}

impl<A> View for Pending<A> {
    type V = Pending<A>;

    open spec fn view(&self) -> Pending<A> {
        *self
    }
}

/// An address that can stand as the gateway of routes of its family.
pub trait Gateway: Key {
    /// The gateway that a next hop gives, if it is of this family.
    spec fn gateway_of(next_hop: Option<NextHop>) -> Option<Self>;

    /// The gateway that a next hop gives, if it is of this family.
    fn gateway(next_hop: &Option<NextHop>) -> (r: Option<Self>)
        ensures
            r == Self::gateway_of(*next_hop),
    ;
}

impl Gateway for Ipv4Addr {
    open spec fn gateway_of(next_hop: Option<NextHop>) -> Option<Self> {
        match next_hop {
            Some(NextHop::V4(gw)) => Some(gw),
            _ => None,
        }
    }

    fn gateway(next_hop: &Option<NextHop>) -> (r: Option<Self>) {
        match next_hop {
            Some(NextHop::V4(gw)) => Some(*gw),
            _ => None,
        }
    }
}

impl Gateway for Ipv6Addr {
    open spec fn gateway_of(next_hop: Option<NextHop>) -> Option<Self> {
        match next_hop {
            Some(NextHop::V6(gw)) => Some(gw),
            Some(NextHop::V6WithLinkLocal { global, .. }) => Some(global),
            _ => None,
        }
    }

    fn gateway(next_hop: &Option<NextHop>) -> (r: Option<Self>) {
        match next_hop {
            Some(NextHop::V6(gw)) => Some(*gw),
            Some(NextHop::V6WithLinkLocal { global, .. }) => Some(*global),
            _ => None,
        }
    }
}

/// The pending states after a change of best route: a new route whose next hop gives a gateway is
/// to be installed, a lost one removed. A route without a gateway of its family changes nothing.
pub open spec fn pending_after<A: Gateway>(
    m: Map<Nlri<A>, Pending<A>>,
    change: BestPathChange<A>,
) -> Map<Nlri<A>, Pending<A>> {
    match change {
        BestPathChange::Announced(n, b) => match A::gateway_of(b.route.next_hop) {
            Some(gateway) => m.insert(n, Pending::Install { gateway }),
            None => m,
        },
        BestPathChange::Withdrawn(n) => m.insert(n, Pending::Withdraw),
        BestPathChange::Unchanged => m,
    }
}

/// The pending states after a sequence of changes.
pub open spec fn pending_after_all<A: Gateway>(
    m: Map<Nlri<A>, Pending<A>>,
    changes: Seq<BestPathChange<A>>,
) -> Map<Nlri<A>, Pending<A>>
    decreases changes.len(),
{
    if changes.len() == 0 {
        m
    } else {
        pending_after(pending_after_all(m, changes.drop_last()), changes.last())
    }
}

/// The pending states after null routes have been asked for.
pub open spec fn with_null_routes<A>(m: Map<Nlri<A>, Pending<A>>, s: Seq<Nlri<A>>) -> Map<
    Nlri<A>,
    Pending<A>,
>
    decreases s.len(),
{
    if s.len() == 0 {
        m
    } else {
        with_null_routes(m, s.drop_last()).insert(s.last(), Pending::Blackhole)
    }
}

/// The pending states after prefixes are to be removed.
pub open spec fn with_removals<A>(m: Map<Nlri<A>, Pending<A>>, s: Seq<Nlri<A>>) -> Map<
    Nlri<A>,
    Pending<A>,
>
    decreases s.len(),
{
    if s.len() == 0 {
        m
    } else {
        with_removals(m, s.drop_last()).insert(s.last(), Pending::Withdraw)
    }
}

/// The pending states after a set of prefixes is to be removed.
pub open spec fn removed_for<A>(m: Map<Nlri<A>, Pending<A>>, s: Set<Nlri<A>>) -> Map<
    Nlri<A>,
    Pending<A>,
> {
    m.union_prefer_right(Map::new(|n: Nlri<A>| s.contains(n), |n: Nlri<A>| Pending::<A>::Withdraw))
}

/// Removals do not depend on their order.
pub proof fn removals_as_set<A>(m: Map<Nlri<A>, Pending<A>>, s: Seq<Nlri<A>>)
    ensures
        with_removals(m, s) == removed_for(m, s.to_set()),
    decreases s.len(),
{
    if s.len() == 0 {
        assert(removed_for(m, s.to_set()) =~= m);
    } else {
        let t = s.drop_last();
        removals_as_set(m, t);
        crate::rib::lemma_take_contains(s, s.len() as int);
        assert(s.take(s.len() as int) =~= s);
        assert(s.take(s.len() - 1) =~= t);
        assert forall|x: Nlri<A>| s.to_set().contains(x) <==> (t.to_set().contains(x) || x
            == s.last()) by {
            assert(s.contains(x) <==> (t.contains(x) || x == s.last()));
        }
        assert(with_removals(m, s) =~= removed_for(m, s.to_set()));
    }
}

/// The pending state after the null route for `n` is taken back: where a best route is left it is
/// to be installed again.
pub open spec fn null_route_lifted<A: Gateway>(
    m: Map<Nlri<A>, Pending<A>>,
    loc_rib: Map<Nlri<A>, Best<A>>,
    n: Nlri<A>,
) -> Map<Nlri<A>, Pending<A>> {
    let removed = m.insert(n, Pending::Withdraw);
    if loc_rib.contains_key(n) {
        pending_after(removed, BestPathChange::Announced(n, loc_rib[n]))
    } else {
        removed
    }
}

/// The pending states after null routes are taken back, in order.
pub open spec fn null_routes_lifted<A: Gateway>(
    m: Map<Nlri<A>, Pending<A>>,
    loc_rib: Map<Nlri<A>, Best<A>>,
    s: Seq<Nlri<A>>,
) -> Map<Nlri<A>, Pending<A>>
    decreases s.len(),
{
    if s.len() == 0 {
        m
    } else {
        null_route_lifted(null_routes_lifted(m, loc_rib, s.drop_last()), loc_rib, s.last())
    }
}

/// The changes of one family that wait for the kernel. Each prefix has one slot, in which the
/// latest state replaces an earlier one.
pub struct PendingTable<A: Gateway> {
    slots: Table<Nlri<A>, Pending<A>>,
}

impl<A: Gateway> View for PendingTable<A> {
    type V = Map<Nlri<A>, Pending<A>>;

    closed spec fn view(&self) -> Map<Nlri<A>, Pending<A>> {
        self.slots@
    }
}

impl<A: Gateway> PendingTable<A> {
    /// No change waits.
    pub fn new() -> (r: Self)
        ensures
            r@ == Map::<Nlri<A>, Pending<A>>::empty(),
    {
        PendingTable { slots: Table::new() }
    }

    /// The number of prefixes with a waiting change.
    pub fn len(&self) -> (n: usize)
        ensures
            n == self@.dom().len(),
            self@.dom().finite(),
    {
        self.slots.len()
    }

    /// The state that waits for a prefix.
    pub fn get(&self, nlri: &Nlri<A>) -> (r: Option<Pending<A>>)
        ensures
            match r {
                Some(p) => self@.contains_key(*nlri) && p == self@[*nlri],
                None => !self@.contains_key(*nlri),
            },
    {
        match self.slots.get(nlri) {
            Some(p) => Some(*p),
            None => None,
        }
    }

    /// Records the state that a change of best route asks for.
    pub fn apply(&mut self, change: &BestPathChange<A>)
        ensures
            final(self)@ == pending_after(old(self)@, *change),
    {
        match change {
            BestPathChange::Announced(n, b) => {
                if let Some(gateway) = A::gateway(&b.route.next_hop) {
                    self.slots.insert(*n, Pending::Install { gateway });
                }
            },
            BestPathChange::Withdrawn(n) => {
                self.slots.insert(*n, Pending::Withdraw);
            },
            BestPathChange::Unchanged => {},
        }
    }

    /// Records the states that a sequence of changes asks for.
    pub fn apply_all(&mut self, changes: &Vec<BestPathChange<A>>)
        ensures
            final(self)@ == pending_after_all(old(self)@, changes@),
    {
        let mut i: usize = 0;
        while i < changes.len()
            invariant
                0 <= i <= changes.len(),
                self@ == pending_after_all(old(self)@, changes@.take(i as int)),
            decreases changes.len() - i,
        {
            self.apply(&changes[i]);
            i = i + 1;
            assert(changes@.take(i as int).drop_last() =~= changes@.take(i - 1));
        }
        assert(changes@.take(i as int) =~= changes@);
    }

    /// Asks for a null route.
    pub fn apply_blackhole(&mut self, nlri: Nlri<A>)
        ensures
            final(self)@ == old(self)@.insert(nlri, Pending::Blackhole),
    {
        self.slots.insert(nlri, Pending::Blackhole);
    }

    /// Asks for the null route of a prefix to be removed.
    pub fn withdraw_blackhole(&mut self, nlri: Nlri<A>)
        ensures
            final(self)@ == old(self)@.insert(nlri, Pending::Withdraw),
    {
        self.slots.insert(nlri, Pending::Withdraw);
    }

    /// Asks for null routes.
    pub fn apply_blackholes(&mut self, nlris: &Vec<Nlri<A>>)
        ensures
            final(self)@ == with_null_routes(old(self)@, nlris@),
    {
        let mut i: usize = 0;
        while i < nlris.len()
            invariant
                0 <= i <= nlris.len(),
                self@ == with_null_routes(old(self)@, nlris@.take(i as int)),
            decreases nlris.len() - i,
        {
            self.apply_blackhole(nlris[i]);
            i = i + 1;
            assert(nlris@.take(i as int).drop_last() =~= nlris@.take(i - 1));
        }
        assert(nlris@.take(i as int) =~= nlris@);
    }

    /// Asks for the null routes of prefixes to be removed.
    pub fn withdraw_blackholes(&mut self, nlris: &Vec<Nlri<A>>)
        ensures
            final(self)@ == with_removals(old(self)@, nlris@),
    {
        let mut i: usize = 0;
        while i < nlris.len()
            invariant
                0 <= i <= nlris.len(),
                self@ == with_removals(old(self)@, nlris@.take(i as int)),
            decreases nlris.len() - i,
        {
            self.withdraw_blackhole(nlris[i]);
            i = i + 1;
            assert(nlris@.take(i as int).drop_last() =~= nlris@.take(i - 1));
        }
        assert(nlris@.take(i as int) =~= nlris@);
    }

    /// Takes null routes back, and installs what is left for their prefixes.
    pub fn lift_blackholes(&mut self, nlris: &Vec<Nlri<A>>, loc_rib: &LocRib<A>)
        ensures
            final(self)@ == null_routes_lifted(old(self)@, loc_rib@, nlris@),
    {
        let mut i: usize = 0;
        while i < nlris.len()
            invariant
                0 <= i <= nlris.len(),
                self@ == null_routes_lifted(old(self)@, loc_rib@, nlris@.take(i as int)),
            decreases nlris.len() - i,
        {
            let n = nlris[i];
            self.withdraw_blackhole(n);
            if let Some(b) = loc_rib.get(&n) {
                self.apply(&BestPathChange::Announced(n, b.share()));
            }
            i = i + 1;
            assert(nlris@.take(i as int).drop_last() =~= nlris@.take(i - 1));
        }
        assert(nlris@.take(i as int) =~= nlris@);
    }

    /// Takes out everything that waits.
    pub fn drain(&mut self) -> (r: Self)
        ensures
            r@ == old(self)@,
            final(self)@ == Map::<Nlri<A>, Pending<A>>::empty(),
    {
        let mut r: Self = PendingTable::new();
        std::mem::swap(self, &mut r);
        r
    }
}

/// One call on the kernel: bring about a state for a prefix.
#[derive(Debug, PartialEq, Eq, Structural)]
pub struct KernelCall<A> {
    pub dst: A,
    pub prefix_len: u8,
    pub op: Pending<A>,
}

/// One call on the kernel, for a prefix of either family.
#[derive(Debug, PartialEq, Eq, Structural)]
pub enum FibCall {
    V4(KernelCall<Ipv4Addr>),
    V6(KernelCall<Ipv6Addr>),
}

/// The call that brings about the state `p` for an IPv4 prefix.
pub open spec fn call_v4(n: Nlri<Ipv4Addr>, p: PendingV4) -> FibCall {
    FibCall::V4(KernelCall { dst: n.addr, prefix_len: n.len, op: p })
}

/// The call that brings about the state `p` for an IPv6 prefix.
pub open spec fn call_v6(n: Nlri<Ipv6Addr>, p: PendingV6) -> FibCall {
    FibCall::V6(KernelCall { dst: n.addr, prefix_len: n.len, op: p })
}

/// Serialises changes of the forwarding table between the daemon and the kernel.
pub struct FibManager {
    pub pending_v4: PendingTable<Ipv4Addr>,
    pub pending_v6: PendingTable<Ipv6Addr>,
}

/// What waits for the kernel.
#[verifier::ext_equal]
pub ghost struct FibView {
    pub v4: Map<Nlri<Ipv4Addr>, PendingV4>,
    pub v6: Map<Nlri<Ipv6Addr>, PendingV6>,
}

impl View for FibManager {
    type V = FibView;

    open spec fn view(&self) -> FibView {
        FibView { v4: self.pending_v4@, v6: self.pending_v6@ }
    }
}

impl FibManager {
    /// Nothing waits.
    pub fn new() -> (r: Self)
        ensures
            r@ == (FibView { v4: Map::empty(), v6: Map::empty() }),
    {
        FibManager { pending_v4: PendingTable::new(), pending_v6: PendingTable::new() }
    }

    /// Records the state that a change of an IPv4 best route asks for.
    pub fn apply_v4(&mut self, change: BestPathChange<Ipv4Addr>)
        ensures
            final(self)@ == (FibView { v4: pending_after(old(self)@.v4, change), ..old(self)@ }),
    {
        self.pending_v4.apply(&change);
    }

    /// Records the state that a change of an IPv6 best route asks for.
    pub fn apply_v6(&mut self, change: BestPathChange<Ipv6Addr>)
        ensures
            final(self)@ == (FibView { v6: pending_after(old(self)@.v6, change), ..old(self)@ }),
    {
        self.pending_v6.apply(&change);
    }

    /// Asks for a null route for an IPv4 prefix.
    pub fn apply_blackhole_v4(&mut self, nlri: Nlri<Ipv4Addr>)
        ensures
            final(self)@ == (FibView {
                v4: old(self)@.v4.insert(nlri, Pending::Blackhole),
                ..old(self)@
            }),
    {
        self.pending_v4.apply_blackhole(nlri);
    }

    /// Asks for the null route of an IPv4 prefix to be removed.
    pub fn withdraw_blackhole_v4(&mut self, nlri: Nlri<Ipv4Addr>)
        ensures
            final(self)@ == (FibView {
                v4: old(self)@.v4.insert(nlri, Pending::Withdraw),
                ..old(self)@
            }),
    {
        self.pending_v4.withdraw_blackhole(nlri);
    }

    /// Asks for a null route for an IPv6 prefix.
    pub fn apply_blackhole_v6(&mut self, nlri: Nlri<Ipv6Addr>)
        ensures
            final(self)@ == (FibView {
                v6: old(self)@.v6.insert(nlri, Pending::Blackhole),
                ..old(self)@
            }),
    {
        self.pending_v6.apply_blackhole(nlri);
    }

    /// Asks for the null route of an IPv6 prefix to be removed.
    pub fn withdraw_blackhole_v6(&mut self, nlri: Nlri<Ipv6Addr>)
        ensures
            final(self)@ == (FibView {
                v6: old(self)@.v6.insert(nlri, Pending::Withdraw),
                ..old(self)@
            }),
    {
        self.pending_v6.withdraw_blackhole(nlri);
    }

    /// Takes out everything that waits, as one batch for the kernel: one call for each prefix.
    pub fn process_batch(&mut self) -> (r: Vec<FibCall>)
        ensures
            final(self)@ == (FibView { v4: Map::empty(), v6: Map::empty() }),
            exists|o4: Seq<Nlri<Ipv4Addr>>, o6: Seq<Nlri<Ipv6Addr>>|
                batch_of(r@, old(self)@, o4, o6),
    {
        let v4 = self.pending_v4.drain();
        let v6 = self.pending_v6.drain();
        let mut r: Vec<FibCall> = Vec::new();
        let n4: usize = v4.slots.len();
        let ghost o4 = v4.slots.order();
        let ghost o6 = v6.slots.order();
        let mut i: usize = 0;
        while i < n4
            invariant
                0 <= i <= n4,
                n4 == o4.len(),
                o4 == v4.slots.order(),
                v4@ == v4.slots@,
                r@ == o4.take(i as int).map_values(|n: Nlri<Ipv4Addr>| call_v4(n, v4@[n])),
            decreases n4 - i,
        {
            let n = v4.slots.key_at(i);
            let op = *v4.slots.value_at(i);
            r.push(FibCall::V4(KernelCall { dst: n.addr, prefix_len: n.len, op }));
            i = i + 1;
            assert(o4.take(i as int).map_values(|n: Nlri<Ipv4Addr>| call_v4(n, v4@[n]))
                =~= o4.take(i - 1).map_values(|n: Nlri<Ipv4Addr>| call_v4(n, v4@[n])).push(
                call_v4(n, v4@[n]),
            ));
        }
        assert(o4.take(i as int) =~= o4);
        let ghost head = r@;
        let n6: usize = v6.slots.len();
        let mut j: usize = 0;
        assert(o6.take(0).map_values(|n: Nlri<Ipv6Addr>| call_v6(n, v6@[n])) =~= Seq::<
            FibCall,
        >::empty());
        while j < n6
            invariant
                0 <= j <= n6,
                n6 == o6.len(),
                o6 == v6.slots.order(),
                v6@ == v6.slots@,
                r@ == head + o6.take(j as int).map_values(
                    |n: Nlri<Ipv6Addr>| call_v6(n, v6@[n]),
                ),
            decreases n6 - j,
        {
            let n = v6.slots.key_at(j);
            let op = *v6.slots.value_at(j);
            r.push(FibCall::V6(KernelCall { dst: n.addr, prefix_len: n.len, op }));
            j = j + 1;
            assert(o6.take(j as int).map_values(|n: Nlri<Ipv6Addr>| call_v6(n, v6@[n]))
                =~= o6.take(j - 1).map_values(|n: Nlri<Ipv6Addr>| call_v6(n, v6@[n])).push(
                call_v6(n, v6@[n]),
            ));
        }
        assert(o6.take(j as int) =~= o6);
        assert(batch_of(r@, old(self)@, o4, o6));
        r
    }
}

/// Whether `calls` brings about every waiting state, in the order of `o4` and then of `o6`.
pub open spec fn batch_of(
    calls: Seq<FibCall>,
    waiting: FibView,
    o4: Seq<Nlri<Ipv4Addr>>,
    o6: Seq<Nlri<Ipv6Addr>>,
) -> bool {
    &&& crate::rib::enumerates(o4, waiting.v4.dom())
    &&& crate::rib::enumerates(o6, waiting.v6.dom())
    &&& calls == o4.map_values(|n: Nlri<Ipv4Addr>| call_v4(n, waiting.v4[n])) + o6.map_values(
        |n: Nlri<Ipv6Addr>| call_v6(n, waiting.v6[n]),
    )
}

/// The calls that remove prefixes from the kernel, in order.
pub open spec fn removal_calls(v4: Seq<Nlri<Ipv4Addr>>, v6: Seq<Nlri<Ipv6Addr>>) -> Seq<FibCall> {
    v4.map_values(|n: Nlri<Ipv4Addr>| call_v4(n, Pending::Withdraw)) + v6.map_values(
        |n: Nlri<Ipv6Addr>| call_v6(n, Pending::Withdraw),
    )
}

/// The calls that remove routes which an earlier run of the daemon left in the kernel, in order.
pub fn withdraw_stale_bgp_routes(
    stale_v4: &Vec<Nlri<Ipv4Addr>>,
    stale_v6: &Vec<Nlri<Ipv6Addr>>,
) -> (r: Vec<FibCall>)
    ensures
        r@ == removal_calls(stale_v4@, stale_v6@),
{
    let ghost f4 = |n: Nlri<Ipv4Addr>| call_v4(n, Pending::Withdraw);
    let ghost f6 = |n: Nlri<Ipv6Addr>| call_v6(n, Pending::Withdraw);
    let mut r: Vec<FibCall> = Vec::new();
    let mut i: usize = 0;
    assert(stale_v4@.take(0).map_values(f4) =~= Seq::<FibCall>::empty());
    while i < stale_v4.len()
        invariant
            0 <= i <= stale_v4.len(),
            f4 == (|n: Nlri<Ipv4Addr>| call_v4(n, Pending::Withdraw)),
            r@ == stale_v4@.take(i as int).map_values(f4),
        decreases stale_v4.len() - i,
    {
        r.push(
            FibCall::V4(
                KernelCall {
                    dst: stale_v4[i].addr,
                    prefix_len: stale_v4[i].len,
                    op: Pending::Withdraw,
                },
            ),
        );
        i = i + 1;
        assert(stale_v4@.take(i as int).map_values(f4) =~= stale_v4@.take(i - 1).map_values(
            f4,
        ).push(f4(stale_v4@[i - 1])));
    }
    assert(stale_v4@.take(i as int) =~= stale_v4@);
    let ghost head = r@;
    let mut j: usize = 0;
    assert(stale_v6@.take(0).map_values(f6) =~= Seq::<FibCall>::empty());
    while j < stale_v6.len()
        invariant
            0 <= j <= stale_v6.len(),
            f6 == (|n: Nlri<Ipv6Addr>| call_v6(n, Pending::Withdraw)),
            r@ == head + stale_v6@.take(j as int).map_values(f6),
        decreases stale_v6.len() - j,
    {
        r.push(
            FibCall::V6(
                KernelCall {
                    dst: stale_v6[j].addr,
                    prefix_len: stale_v6[j].len,
                    op: Pending::Withdraw,
                },
            ),
        );
        j = j + 1;
        assert(stale_v6@.take(j as int).map_values(f6) =~= stale_v6@.take(j - 1).map_values(
            f6,
        ).push(f6(stale_v6@[j - 1])));
    }
    assert(stale_v6@.take(j as int) =~= stale_v6@);
    r
}

/// The latest change for a prefix decides what waits for it: what waited before it, and earlier
/// changes, leave no trace.
pub proof fn latest_state_wins<A: Gateway>(
    m: Map<Nlri<A>, Pending<A>>,
    earlier: Seq<BestPathChange<A>>,
    n: Nlri<A>,
    b: Best<A>,
)
    ensures
        pending_after_all(m, earlier.push(BestPathChange::Withdrawn(n)))[n]
            == Pending::<A>::Withdraw,
        A::gateway_of(b.route.next_hop) matches Some(gateway) ==> pending_after_all(
            m,
            earlier.push(BestPathChange::Announced(n, b)),
        )[n] == (Pending::Install { gateway }),
{
    assert(earlier.push(BestPathChange::Withdrawn(n)).drop_last() =~= earlier);
    assert(earlier.push(BestPathChange::Announced(n, b)).drop_last() =~= earlier);
}

/// Prefixes do not disturb each other: changes of other prefixes leave what waits for a prefix as
/// it is.
pub proof fn prefixes_wait_independently<A: Gateway>(
    m: Map<Nlri<A>, Pending<A>>,
    changes: Seq<BestPathChange<A>>,
    n: Nlri<A>,
)
    requires
        !crate::rib::touched(changes).contains(n),
    ensures
        pending_after_all(m, changes).contains_key(n) == m.contains_key(n),
        m.contains_key(n) ==> pending_after_all(m, changes)[n] == m[n],
    decreases changes.len(),
{
    if changes.len() > 0 {
        let before = crate::rib::touched(changes.drop_last());
        let all = crate::rib::touched(changes);
        match changes.last() {
            BestPathChange::Announced(x, _) => {
                assert(all[before.len() as int] == x);
                assert(x != n);
            },
            BestPathChange::Withdrawn(x) => {
                assert(all[before.len() as int] == x);
                assert(x != n);
            },
            BestPathChange::Unchanged => {},
        }
        if before.contains(n) {
            let j = before.index_of(n);
            assert(all[j] == n);
        }
        prefixes_wait_independently(m, changes.drop_last(), n);
    }
}

} // verus!
