//! The routing tables of the daemon, and the operations that it asks of the decision process.
//!
//! The decision process keeps every candidate route and picks the best one for each prefix. The
//! daemon hands it operations ([`RibOp`]) and is told what changed ([`BestPathChange`]);
//! [`LocRib`] is what it knows of the outcome: the best route for each prefix and the peer that
//! the route came from.
use vstd::prelude::*;

use crate::message::PeerType;
use crate::net::{IpAddr, Nlri};
use crate::route::Route;
use crate::table::{Key, KeySet, Table};

verus! {

/// Whether a sequence lists every member of a set, each once.
pub open spec fn enumerates<T>(s: Seq<T>, members: Set<T>) -> bool {
    s.no_duplicates() && s.to_set() == members
}

/// The first `i` elements are the first `i - 1` and the one at `i - 1`.
pub proof fn lemma_take_contains<T>(s: Seq<T>, i: int)
    requires
        0 < i <= s.len(),
    ensures
        forall|x: T| #[trigger]
            s.take(i).contains(x) <==> (s.take(i - 1).contains(x) || x == s[i - 1]),
{
    assert forall|x: T| #[trigger] s.take(i).contains(x) <==> (s.take(i - 1).contains(x) || x
        == s[i - 1]) by {
        if s.take(i - 1).contains(x) {
            let j = s.take(i - 1).index_of(x);
            assert(s.take(i)[j] == x);
        }
        assert(s.take(i)[i - 1] == s[i - 1]);
        if s.take(i).contains(x) && x != s[i - 1] {
            let j = s.take(i).index_of(x);
            assert(s.take(i - 1)[j] == x);
        }
    }
}

/// What to do with a route that no policy term decides.
#[derive(Clone, Copy, Debug, PartialEq, Eq, Structural)]
pub enum DefaultAction {
    Accept,
    Reject,
}

/// What a policy says of a route.
#[derive(Clone, Copy, Debug, PartialEq, Eq, Structural)]
pub enum Decision {
    Accept,
    Reject,
    /// No term decided.
    Next,
}

/// A routing policy: a list of terms, which the policy engine holds, and what becomes of a route
/// that none of them decides.
#[derive(Clone, Copy, Debug, PartialEq, Eq, Structural)]
pub struct Policy {
    pub default: DefaultAction,
}

impl View for Policy {
    type V = Policy;

    open spec fn view(&self) -> Policy {
        *self
    }
}

impl Policy {
    /// A policy with a default action.
    pub fn new(default: DefaultAction) -> (r: Self)
        ensures
            r.default == default,
    {
        Policy { default }
    }

    /// Replaces the default action.
    pub fn set_default(&mut self, default: DefaultAction)
        ensures
            final(self).default == default,
    {
        self.default = default;
    }

    /// What becomes of a route of which the terms say `terms`.
    pub open spec fn spec_decide(&self, terms: Decision) -> Decision {
        match terms {
            Decision::Next => match self.default {
                DefaultAction::Accept => Decision::Accept,
                DefaultAction::Reject => Decision::Reject,
            },
            d => d,
        }
    }

    /// What becomes of a route of which the terms say `terms`.
    pub fn decide(&self, terms: Decision) -> (r: Decision)
        ensures
            r == self.spec_decide(terms),
            r != Decision::Next,
    {
        match terms {
            Decision::Next => match self.default {
                DefaultAction::Accept => Decision::Accept,
                DefaultAction::Reject => Decision::Reject,
            },
            d => d,
        }
    }
}

/// The routes received from one peer, before import policy.
pub struct AdjRibIn<A: Key> {
    routes: Table<Nlri<A>, Route<A>>,
}

impl<A: Key> AdjRibIn<A> {
    #[verifier::type_invariant]
    spec fn under_own_prefix(&self) -> bool {
        keyed(self.routes@)
    }
}

impl<A: Key> View for AdjRibIn<A> {
    type V = Map<Nlri<A>, Route<A>>;

    closed spec fn view(&self) -> Map<Nlri<A>, Route<A>> {
        self.routes@
    }
}

/// Whether every route of a table stands under its own prefix.
pub open spec fn keyed<A>(m: Map<Nlri<A>, Route<A>>) -> bool {
    forall|n: Nlri<A>| #[trigger] m.contains_key(n) ==> m[n].nlri == n
}

/// Whether the route for `n`, if there is one, asks for the traffic to be dropped.
pub open spec fn blackholed<A>(m: Map<Nlri<A>, Route<A>>, n: Nlri<A>) -> bool {
    m.contains_key(n) && m[n].attributes.is_blackhole()
}

/// The table with the stale mark on every route.
pub open spec fn all_stale<A: Key>(m: Map<Nlri<A>, Route<A>>) -> Map<Nlri<A>, Route<A>> {
    m.map_values(|r: Route<A>| r.spec_marked_stale())
}

impl<A: Key> AdjRibIn<A> {
    /// The table with no route.
    pub fn new() -> (r: Self)
        ensures
            r@ == Map::<Nlri<A>, Route<A>>::empty(),
    {
        AdjRibIn { routes: Table::new() }
    }

    /// The number of routes.
    pub fn len(&self) -> (n: usize)
        ensures
            n == self@.dom().len(),
            self@.dom().finite(),
    {
        self.routes.len()
    }

    /// Whether there is no route.
    pub fn is_empty(&self) -> (r: bool)
        ensures
            r == (self@ == Map::<Nlri<A>, Route<A>>::empty()),
    {
        self.routes.is_empty()
    }

    /// The route for a prefix.
    pub fn get(&self, nlri: &Nlri<A>) -> (r: Option<&Route<A>>)
        ensures
            match r {
                Some(x) => self@.contains_key(*nlri) && *x == self@[*nlri],
                None => !self@.contains_key(*nlri),
            },
    {
        self.routes.get(nlri)
    }

    /// Whether the route for a prefix asks for the traffic to be dropped.
    pub fn is_blackholed(&self, nlri: &Nlri<A>) -> (r: bool)
        ensures
            r == blackholed(self@, *nlri),
    {
        match self.routes.get(nlri) {
            Some(x) => x.attributes.is_blackhole(),
            None => false,
        }
    }

    /// Stores a route for its prefix.
    pub fn insert(&mut self, route: Route<A>)
        ensures
            final(self)@ == old(self)@.insert(route.nlri, route),
    {
        proof {
            use_type_invariant(&*self);
        }
        let mut t: Table<Nlri<A>, Route<A>> = Table::new();
        std::mem::swap(&mut self.routes, &mut t);
        t.insert(route.nlri, route);
        self.routes = t;
    }

    /// Drops the route for a prefix.
    pub fn withdraw(&mut self, nlri: &Nlri<A>)
        ensures
            final(self)@ == old(self)@.remove(*nlri),
    {
        proof {
            use_type_invariant(&*self);
        }
        let mut t: Table<Nlri<A>, Route<A>> = Table::new();
        std::mem::swap(&mut self.routes, &mut t);
        let _ = t.remove(nlri);
        self.routes = t;
    }

    /// The prefixes that there is a route for.
    pub fn nlris(&self) -> (r: Vec<Nlri<A>>)
        ensures
            enumerates(r@, self@.dom()),
            keyed(self@),
    {
        proof {
            use_type_invariant(self);
        }
        self.routes.keys()
    }

    /// The set of prefixes that there is a route for.
    pub fn nlri_set(&self) -> (r: KeySet<Nlri<A>>)
        ensures
            r@ == self@.dom(),
    {
        self.routes.key_set()
    }

    /// The prefixes in a list whose route asks for its traffic to be dropped, in the order of the
    /// list.
    pub fn blackholed_of(&self, nlris: &Vec<Nlri<A>>) -> (r: Vec<Nlri<A>>)
        ensures
            r@ == nlris@.filter(|n: Nlri<A>| blackholed(self@, n)),
            forall|n: Nlri<A>| #[trigger]
                r@.contains(n) <==> nlris@.contains(n) && blackholed(self@, n),
    {
        let ghost keep = |n: Nlri<A>| blackholed(self@, n);
        let mut r: Vec<Nlri<A>> = Vec::new();
        let mut i: usize = 0;
        proof {
            reveal(Seq::filter);
        }
        while i < nlris.len()
            invariant
                0 <= i <= nlris.len(),
                keep == (|n: Nlri<A>| blackholed(self@, n)),
                r@ == nlris@.take(i as int).filter(keep),
                forall|n: Nlri<A>| #[trigger]
                    r@.contains(n) <==> nlris@.take(i as int).contains(n) && blackholed(self@, n),
            decreases nlris.len() - i,
        {
            let n = nlris[i];
            let ghost before = r@;
            if self.is_blackholed(&n) {
                r.push(n);
            }
            i = i + 1;
            proof {
                reveal(Seq::filter);
                assert(nlris@.take(i as int).drop_last() =~= nlris@.take(i - 1));
                lemma_take_contains(nlris@, i as int);
                assert forall|x: Nlri<A>| #[trigger] r@.contains(x) <==> before.contains(x) || (
                blackholed(self@, n) && x == n) by {
                    if before.contains(x) {
                        let j = before.index_of(x);
                        assert(r@[j] == x);
                    }
                    if blackholed(self@, n) {
                        assert(r@[r@.len() - 1] == n);
                    }
                }
            }
        }
        assert(nlris@.take(i as int) =~= nlris@);
        r
    }

    /// Drops the routes for the prefixes in a list.
    pub fn withdraw_all(&mut self, nlris: &Vec<Nlri<A>>)
        ensures
            final(self)@ == old(self)@.remove_keys(nlris@.to_set()),
    {
        let ghost before = self@;
        let mut i: usize = 0;
        assert(before.remove_keys(nlris@.take(0).to_set()) =~= before);
        while i < nlris.len()
            invariant
                0 <= i <= nlris.len(),
                before == old(self)@,
                self@ == before.remove_keys(nlris@.take(i as int).to_set()),
            decreases nlris.len() - i,
        {
            self.withdraw(&nlris[i]);
            i = i + 1;
            proof {
                lemma_take_contains(nlris@, i as int);
                assert forall|x: Nlri<A>| nlris@.take(i as int).to_set().contains(x) <==> (
                nlris@.take(i - 1).to_set().contains(x) || x == nlris@[i - 1]) by {
                    assert(nlris@.take(i as int).contains(x) <==> (nlris@.take(i - 1).contains(x)
                        || x == nlris@[i - 1]));
                }
                assert(self@ =~= before.remove_keys(nlris@.take(i as int).to_set()));
            }
        }
        assert(nlris@.take(i as int) =~= nlris@);
    }

    /// Puts the stale mark on every route, and returns the routes.
    pub fn mark_all_stale(&mut self) -> (r: Vec<Route<A>>)
        ensures
            final(self)@ == all_stale(old(self)@),
            enumerates(r@.map_values(|x: Route<A>| x.nlri), old(self)@.dom()),
            forall|i: int|
                0 <= i < r@.len() ==> (#[trigger] r@[i]) == old(self)@[r@[i].nlri].spec_marked_stale(),
    {
        let ghost before = self@;
        let keys = self.nlris();
        let mut r: Vec<Route<A>> = Vec::new();
        let mut t: Table<Nlri<A>, Route<A>> = Table::new();
        let mut i: usize = 0;
        while i < keys.len()
            invariant
                0 <= i <= keys.len(),
                self@ == before,
                keyed(before),
                enumerates(keys@, before.dom()),
                r@.map_values(|x: Route<A>| x.nlri) == keys@.take(i as int),
                r@.len() == i,
                forall|j: int|
                    0 <= j < i ==> (#[trigger] r@[j]) == before[r@[j].nlri].spec_marked_stale(),
                forall|n: Nlri<A>|
                    t@.contains_key(n) <==> #[trigger] keys@.take(i as int).contains(n),
                forall|n: Nlri<A>| #[trigger]
                    t@.contains_key(n) ==> before.contains_key(n) && t@[n]
                        == before[n].spec_marked_stale(),
            decreases keys.len() - i,
        {
            let k = keys[i];
            proof {
                assert(keys@.to_set().contains(k));
            }
            if let Some(x) = self.get(&k) {
                let s = x.marked_stale();
                let s2 = x.marked_stale();
                let ghost r0 = r@;
                r.push(s);
                t.insert(k, s2);
                proof {
                    assert(r@.map_values(|x: Route<A>| x.nlri) =~= r0.map_values(
                        |x: Route<A>| x.nlri,
                    ).push(k));
                    assert(keys@.take(i + 1) =~= keys@.take(i as int).push(k));
                    assert forall|n: Nlri<A>|
                        t@.contains_key(n) <==> #[trigger] keys@.take(i + 1).contains(n) by {
                        let a = keys@.take(i as int);
                        if a.contains(n) {
                            let j = a.index_of(n);
                            assert(keys@.take(i + 1)[j] == n);
                        }
                        assert(keys@.take(i + 1)[i as int] == k);
                        if keys@.take(i + 1).contains(n) && n != k {
                            let j = keys@.take(i + 1).index_of(n);
                            assert(a[j] == n);
                        }
                    }
                }
            }
            i = i + 1;
        }
        assert(keys@.take(i as int) =~= keys@);
        proof {
            assert forall|n: Nlri<A>| t@.contains_key(n) <==> before.contains_key(n) by {
                assert(keys@.contains(n) <==> keys@.to_set().contains(n));
            }
            assert(t@ =~= all_stale(before));
        }
        self.routes = t;
        r
    }
}

/// The state of what has been advertised to one peer.
#[derive(Clone, Copy, Debug, PartialEq, Eq, Structural)]
pub struct AdjRibOut {
    /// The kind of peer that the table was made for.
    pub peer_type: PeerType,
    /// Whether routes from internal peers may be passed on to this one.
    pub reflects: bool,
    /// How many prefixes are advertised.
    pub advertised: usize,
}

impl View for AdjRibOut {
    type V = AdjRibOut;

    open spec fn view(&self) -> AdjRibOut {
        *self
    }
}

impl AdjRibOut {
    /// The empty table for a peer of the given kind.
    pub open spec fn spec_fresh(peer_type: PeerType, is_rr: bool) -> Self {
        AdjRibOut {
            peer_type,
            reflects: is_rr && peer_type == PeerType::Internal,
            advertised: 0,
        }
    }

    /// The empty table for a peer of the given kind.
    #[verifier::when_used_as_spec(spec_fresh)]
    pub fn fresh(peer_type: PeerType, is_rr: bool) -> (r: Self)
        ensures
            r == Self::spec_fresh(peer_type, is_rr),
    {
        AdjRibOut { peer_type, reflects: is_rr && peer_type == PeerType::Internal, advertised: 0 }
    }
}

/// The best route for a prefix, and the peer that it came from.
#[derive(Debug, PartialEq, Eq)]
pub struct Best<A> {
    pub peer: IpAddr,
    pub route: Route<A>,
}

impl<A> View for Best<A> {
    type V = Best<A>;

    open spec fn view(&self) -> Best<A> {
        *self
    }
}

/// What an operation did to the best route for a prefix.
#[derive(Debug, PartialEq, Eq)]
pub enum BestPathChange<A> {
    /// There is a new best route.
    Announced(Nlri<A>, Best<A>),
    /// There is no route any more.
    Withdrawn(Nlri<A>),
    Unchanged,
}

/// The prefixes that a sequence of changes touches, in order.
pub open spec fn touched<A>(changes: Seq<BestPathChange<A>>) -> Seq<Nlri<A>>
    decreases changes.len(),
{
    if changes.len() == 0 {
        Seq::empty()
    } else {
        let before = touched(changes.drop_last());
        match changes.last() {
            BestPathChange::Announced(n, _) => before.push(n),
            BestPathChange::Withdrawn(n) => before.push(n),
            BestPathChange::Unchanged => before,
        }
    }
}

/// The prefixes that a sequence of changes touches, in order.
pub fn touched_nlris<A: Key>(changes: &Vec<BestPathChange<A>>) -> (r: Vec<Nlri<A>>)
    ensures
        r@ == touched(changes@),
{
    let mut r: Vec<Nlri<A>> = Vec::new();
    let mut i: usize = 0;
    while i < changes.len()
        invariant
            0 <= i <= changes.len(),
            r@ == touched(changes@.take(i as int)),
        decreases changes.len() - i,
    {
        match &changes[i] {
            BestPathChange::Announced(n, _) => r.push(*n),
            BestPathChange::Withdrawn(n) => r.push(*n),
            BestPathChange::Unchanged => {},
        }
        i = i + 1;
        assert(changes@.take(i as int).drop_last() =~= changes@.take(i - 1));
    }
    assert(changes@.take(i as int) =~= changes@);
    r
}

/// An operation for the decision process, on behalf of one peer.
#[derive(Debug, PartialEq, Eq)]
pub enum RibOp<A> {
    /// Take the route as the peer's candidate for its prefix.
    Insert(Route<A>),
    /// Drop the peer's candidate for the prefix.
    Withdraw(Nlri<A>),
    /// Drop every candidate of the peer.
    WithdrawPeer,
    /// Pick the best route for every prefix anew.
    RecomputeAll,
    /// Ask the import policy about the route, and insert it if accepted.
    Evaluate(Route<A>),
    /// Ask the import policy about the route; insert it if accepted, else drop the candidate.
    Reevaluate(Route<A>),
}

/// What is left to do of an operation that waits for the import policy, once the policy has said
/// `decision` and left the route as `route`.
pub open spec fn judged<A>(op: RibOp<A>, decision: Decision, route: Route<A>) -> Option<RibOp<A>> {
    match op {
        RibOp::Evaluate(_) => if decision == Decision::Accept {
            Some(RibOp::Insert(route))
        } else {
            None
        },
        RibOp::Reevaluate(raw) => if decision == Decision::Accept {
            Some(RibOp::Insert(route))
        } else {
            Some(RibOp::Withdraw(raw.nlri))
        },
        other => Some(other),
    }
}

/// Turns an operation that waits for the import policy into what is left to do of it. A rejected
/// route of an UPDATE leaves the Loc-RIB alone; on a re-evaluation it leaves it.
pub fn settle_import<A: Key>(op: RibOp<A>, decision: Decision, route: Route<A>) -> (r: Option<
    RibOp<A>,
>)
    ensures
        r == judged(op, decision, route),
{
    match op {
        RibOp::Evaluate(_) => if decision == Decision::Accept {
            Some(RibOp::Insert(route))
        } else {
            None
        },
        RibOp::Reevaluate(raw) => if decision == Decision::Accept {
            Some(RibOp::Insert(route))
        } else {
            Some(RibOp::Withdraw(raw.nlri))
        },
        other => Some(other),
    }
}

/// The best route for each prefix.
pub struct LocRib<A> {
    best: Table<Nlri<A>, Best<A>>,
}

impl<A: Key> View for LocRib<A> {
    type V = Map<Nlri<A>, Best<A>>;

    closed spec fn view(&self) -> Map<Nlri<A>, Best<A>> {
        self.best@
    }
}

/// The best routes after a change.
pub open spec fn after_change<A>(
    m: Map<Nlri<A>, Best<A>>,
    change: BestPathChange<A>,
) -> Map<Nlri<A>, Best<A>> {
    match change {
        BestPathChange::Announced(n, b) => m.insert(n, b),
        BestPathChange::Withdrawn(n) => m.remove(n),
        BestPathChange::Unchanged => m,
    }
}

/// The best routes after a sequence of changes.
pub open spec fn after_changes<A>(
    m: Map<Nlri<A>, Best<A>>,
    changes: Seq<BestPathChange<A>>,
) -> Map<Nlri<A>, Best<A>>
    decreases changes.len(),
{
    if changes.len() == 0 {
        m
    } else {
        after_change(after_changes(m, changes.drop_last()), changes.last())
    }
}

impl<A: Key> Best<A> {
    /// The same again.
    pub fn share(&self) -> (r: Self)
        ensures
            r == *self,
    {
        Best { peer: self.peer, route: self.route.share() }
    }
}

impl<A: Key> LocRib<A> {
    /// The table with no route.
    pub fn new() -> (r: Self)
        ensures
            r@ == Map::<Nlri<A>, Best<A>>::empty(),
    {
        LocRib { best: Table::new() }
    }

    /// The number of prefixes that have a route.
    pub fn len(&self) -> (n: usize)
        ensures
            n == self@.dom().len(),
            self@.dom().finite(),
    {
        self.best.len()
    }

    /// The best route for a prefix, and its peer.
    pub fn get(&self, nlri: &Nlri<A>) -> (r: Option<&Best<A>>)
        ensures
            match r {
                Some(b) => self@.contains_key(*nlri) && *b == self@[*nlri],
                None => !self@.contains_key(*nlri),
            },
    {
        self.best.get(nlri)
    }

    /// The prefixes that have a route.
    pub fn best_nlris(&self) -> (r: Vec<Nlri<A>>)
        ensures
            enumerates(r@, self@.dom()),
    {
        self.best.keys()
    }

    /// Takes note of what the decision process did.
    pub fn absorb(&mut self, changes: &Vec<BestPathChange<A>>)
        ensures
            final(self)@ == after_changes(old(self)@, changes@),
    {
        let mut i: usize = 0;
        while i < changes.len()
            invariant
                0 <= i <= changes.len(),
                self@ == after_changes(old(self)@, changes@.take(i as int)),
            decreases changes.len() - i,
        {
            match &changes[i] {
                BestPathChange::Announced(n, b) => {
                    self.best.insert(*n, b.share());
                },
                BestPathChange::Withdrawn(n) => {
                    let _ = self.best.remove(n);
                },
                BestPathChange::Unchanged => {},
            }
            i = i + 1;
            assert(changes@.take(i as int).drop_last() =~= changes@.take(i - 1));
        }
        assert(changes@.take(i as int) =~= changes@);
    }
}

/// Only the prefixes that the decision process names change in the Loc-RIB.
pub proof fn loc_rib_changes_only_touched<A>(
    m: Map<Nlri<A>, Best<A>>,
    changes: Seq<BestPathChange<A>>,
    n: Nlri<A>,
)
    requires
        !touched(changes).contains(n),
    ensures
        after_changes(m, changes).contains_key(n) == m.contains_key(n),
        m.contains_key(n) ==> after_changes(m, changes)[n] == m[n],
    decreases changes.len(),
{
    if changes.len() > 0 {
        let before = touched(changes.drop_last());
        match changes.last() {
            BestPathChange::Announced(x, _) => {
                assert(touched(changes)[before.len() as int] == x);
                assert(x != n);
            },
            BestPathChange::Withdrawn(x) => {
                assert(touched(changes)[before.len() as int] == x);
                assert(x != n);
            },
            BestPathChange::Unchanged => {},
        }
        if before.contains(n) {
            let j = before.index_of(n);
            assert(touched(changes)[j] == n);
        }
        loc_rib_changes_only_touched(m, changes.drop_last(), n);
    }
}

} // verus!
