//! What an UPDATE does, put in terms of its fields and of the routes that it leaves.
use vstd::prelude::*;

use crate::clock::Instant;
use crate::message::{
    NotificationError, NotificationMessage, PathAttribute, PeerType, UpdateMsgError, UpdateView,
};
use crate::net::{Ipv4Addr, Ipv6Addr, NextHop, Nlri, Prefix};
use crate::rib::{blackholed, RibOp};
use crate::route::{Attributes, Route};
use crate::update::{
    admissions, effective_announcements, effective_announcements_v6, effective_withdrawals,
    effective_withdrawals_v6, maker_v4, maker_v6, missing_attribute, mp_announced, mp_withdrawn,
    next_hop_attribute, notification_of, null_routed, null_routes_lost, of_family, plain_announced,
    reached_by, routes_v4, routes_v6, stored, stored_routes_stand, table_after, unreached_by,
    withdrawals, Family, Maker,
};
use crate::value_laws::{absent_attribute_is_absent, last_attribute_counts, last_next_hop_counts};

verus! {

/// Whether an operation is about a prefix.
pub open spec fn op_about<A>(op: RibOp<A>, n: Nlri<A>) -> bool {
    match op {
        RibOp::Insert(r) => r.nlri == n,
        RibOp::Withdraw(m) => m == n,
        RibOp::WithdrawPeer => true,
        RibOp::RecomputeAll => true,
        RibOp::Evaluate(r) => r.nlri == n,
        RibOp::Reevaluate(r) => r.nlri == n,
    }
}

/// Whether an attribute announces an IPv4 prefix.
pub open spec fn reaches_v4(a: PathAttribute, n: Nlri<Ipv4Addr>) -> bool {
    &&& a is MpReachNlri
    &&& a->MpReachNlri_0.afi_safi.afi == 1
    &&& a->MpReachNlri_0.afi_safi.safi == 1
    &&& a->MpReachNlri_0.prefixes@.contains(Prefix::V4(n))
}

/// Whether an attribute announces an IPv6 prefix.
pub open spec fn reaches_v6(a: PathAttribute, n: Nlri<Ipv6Addr>) -> bool {
    &&& a is MpReachNlri
    &&& a->MpReachNlri_0.afi_safi.afi == 2
    &&& a->MpReachNlri_0.afi_safi.safi == 1
    &&& a->MpReachNlri_0.prefixes@.contains(Prefix::V6(n))
}

/// Whether an attribute withdraws an IPv4 prefix.
pub open spec fn unreaches_v4(a: PathAttribute, n: Nlri<Ipv4Addr>) -> bool {
    &&& a is MpUnreachNlri
    &&& a->MpUnreachNlri_0.afi_safi.afi == 1
    &&& a->MpUnreachNlri_0.afi_safi.safi == 1
    &&& a->MpUnreachNlri_0.prefixes@.contains(Prefix::V4(n))
}

/// Whether an attribute withdraws an IPv6 prefix.
pub open spec fn unreaches_v6(a: PathAttribute, n: Nlri<Ipv6Addr>) -> bool {
    &&& a is MpUnreachNlri
    &&& a->MpUnreachNlri_0.afi_safi.afi == 2
    &&& a->MpUnreachNlri_0.afi_safi.safi == 1
    &&& a->MpUnreachNlri_0.prefixes@.contains(Prefix::V6(n))
}

/// Whether an UPDATE announces an IPv4 prefix with a next hop: that of its last NEXT_HOP attribute for
/// prefixes in the announced field, that of the attribute for the others.
pub open spec fn offers_v4(m: UpdateView, n: Nlri<Ipv4Addr>, nh: Option<NextHop>) -> bool {
    ||| m.announced.contains(n) && match nh {
        Some(NextHop::V4(ip)) => exists|i: int|
            0 <= i < m.attributes.len() && (#[trigger] m.attributes[i]) == PathAttribute::NextHop(ip)
                && (forall|j: int|
                i < j < m.attributes.len() ==> !((#[trigger] m.attributes[j]) is NextHop)),
        Some(_) => false,
        None => forall|j: int|
            0 <= j < m.attributes.len() ==> !((#[trigger] m.attributes[j]) is NextHop),
    }
    ||| exists|i: int|
        0 <= i < m.attributes.len() && reaches_v4(#[trigger] m.attributes[i], n) && nh == Some(
            m.attributes[i]->MpReachNlri_0.next_hop,
        )
}

/// Whether an UPDATE announces an IPv6 prefix with a next hop.
pub open spec fn offers_v6(m: UpdateView, n: Nlri<Ipv6Addr>, nh: Option<NextHop>) -> bool {
    exists|i: int|
        0 <= i < m.attributes.len() && reaches_v6(#[trigger] m.attributes[i], n) && nh == Some(
            m.attributes[i]->MpReachNlri_0.next_hop,
        )
}

/// Whether some attribute is of a kind that every UPDATE with announcements has.
pub open spec fn has_origin(m: UpdateView) -> bool {
    exists|i: int| 0 <= i < m.attributes.len() && (#[trigger] m.attributes[i]) is Origin
}

/// Whether some attribute is an AS_PATH.
pub open spec fn has_path(m: UpdateView) -> bool {
    exists|i: int| 0 <= i < m.attributes.len() && (#[trigger] m.attributes[i]) is AsPath
}

/// Whether some attribute is a NEXT_HOP.
pub open spec fn has_next_hop(m: UpdateView) -> bool {
    exists|i: int| 0 <= i < m.attributes.len() && (#[trigger] m.attributes[i]) is NextHop
}

/// Whether an UPDATE announces something.
pub open spec fn announces(m: UpdateView) -> bool {
    ||| m.announced.len() > 0
    ||| exists|i: int, n: Nlri<Ipv4Addr>|
        0 <= i < m.attributes.len() && #[trigger] reaches_v4(m.attributes[i], n)
    ||| exists|i: int, n: Nlri<Ipv6Addr>|
        0 <= i < m.attributes.len() && #[trigger] reaches_v6(m.attributes[i], n)
}

/// Whether an UPDATE with announcements lacks an attribute that it needs.
pub open spec fn incomplete(m: UpdateView) -> bool {
    announces(m) && (!has_origin(m) || !has_path(m) || (m.announced.len() > 0 && !has_next_hop(m)))
}

/// Whether the announcements of an UPDATE can be used: it lacks nothing, and its path holds neither
/// the number 0 nor the local one.
pub open spec fn usable(m: UpdateView, local_as: u32) -> bool {
    &&& !incomplete(m)
    &&& !Attributes::of(m.attributes).path_has(0)
    &&& !Attributes::of(m.attributes).path_has(local_as)
}

/// Whether an UPDATE withdraws an IPv4 prefix: in its withdrawn field, or in an attribute where it lacks
/// nothing.
pub open spec fn withdraws_v4(m: UpdateView, n: Nlri<Ipv4Addr>) -> bool {
    ||| m.withdrawn.contains(n)
    ||| !incomplete(m) && exists|i: int|
        0 <= i < m.attributes.len() && unreaches_v4(#[trigger] m.attributes[i], n)
}

/// Whether an UPDATE withdraws an IPv6 prefix.
pub open spec fn withdraws_v6(m: UpdateView, n: Nlri<Ipv6Addr>) -> bool {
    !incomplete(m) && exists|i: int|
        0 <= i < m.attributes.len() && unreaches_v6(#[trigger] m.attributes[i], n)
}

/// The prefixes of a family in a list.
proof fn family_members<A: Family>(s: Seq<Prefix>, n: Nlri<A>)
    ensures
        of_family::<A>(s).contains(n) <==> exists|j: int|
            0 <= j < s.len() && A::own_prefix(#[trigger] s[j]) == Some(n),
    decreases s.len(),
{
    let r = of_family::<A>(s);
    if s.len() > 0 {
        let t = s.drop_last();
        let q = of_family::<A>(t);
        family_members::<A>(t, n);
        if r.contains(n) {
            let k = r.index_of(n);
            if k < q.len() {
                assert(q[k] == n);
                let j = choose|j: int| 0 <= j < t.len() && A::own_prefix(#[trigger] t[j]) == Some(n);
                assert(s[j] == t[j]);
            } else {
                assert(A::own_prefix(s[s.len() - 1]) == Some(n));
            }
        }
        if exists|j: int| 0 <= j < s.len() && A::own_prefix(#[trigger] s[j]) == Some(n) {
            let j = choose|j: int| 0 <= j < s.len() && A::own_prefix(#[trigger] s[j]) == Some(n);
            if j < t.len() {
                assert(t[j] == s[j]);
                let k = q.index_of(n);
                assert(r[k] == n);
            } else {
                assert(r[r.len() - 1] == n);
            }
        }
    }
}

/// The announcements in attributes.
pub(crate) proof fn announced_members<A: Family>(s: Seq<PathAttribute>, n: Nlri<A>, nh: Option<NextHop>)
    ensures
        mp_announced::<A>(s).contains((n, nh)) <==> exists|i: int|
            0 <= i < s.len() && reached_by::<A>(#[trigger] s[i]).contains(n) && nh == Some(
                s[i]->MpReachNlri_0.next_hop,
            ),
    decreases s.len(),
{
    let r = mp_announced::<A>(s);
    if s.len() > 0 {
        let t = s.drop_last();
        let l = s.len() - 1;
        let q = mp_announced::<A>(t);
        let here = reached_by::<A>(s[l]);
        announced_members::<A>(t, n, nh);
        if r.contains((n, nh)) {
            let k = r.index_of((n, nh));
            if k < q.len() {
                assert(q[k] == (n, nh));
                let i = choose|i: int|
                    0 <= i < t.len() && reached_by::<A>(#[trigger] t[i]).contains(n) && nh == Some(
                        t[i]->MpReachNlri_0.next_hop,
                    );
                assert(s[i] == t[i]);
            } else {
                assert(here[k - q.len()] == n);
                assert(reached_by::<A>(s[l]).contains(n));
            }
        }
        if exists|i: int|
            0 <= i < s.len() && reached_by::<A>(#[trigger] s[i]).contains(n) && nh == Some(
                s[i]->MpReachNlri_0.next_hop,
            ) {
            let i = choose|i: int|
                0 <= i < s.len() && reached_by::<A>(#[trigger] s[i]).contains(n) && nh == Some(
                    s[i]->MpReachNlri_0.next_hop,
                );
            if i < l {
                assert(t[i] == s[i]);
                let k = q.index_of((n, nh));
                assert(r[k] == (n, nh));
            } else {
                let k = here.index_of(n);
                assert(here[k] == n);
                assert(r[q.len() + k] == (n, nh));
            }
        }
    }
}

/// The withdrawals in attributes.
proof fn withdrawn_members<A: Family>(s: Seq<PathAttribute>, n: Nlri<A>)
    ensures
        mp_withdrawn::<A>(s).contains(n) <==> exists|i: int|
            0 <= i < s.len() && unreached_by::<A>(#[trigger] s[i]).contains(n),
    decreases s.len(),
{
    let r = mp_withdrawn::<A>(s);
    if s.len() > 0 {
        let t = s.drop_last();
        let l = s.len() - 1;
        let q = mp_withdrawn::<A>(t);
        let here = unreached_by::<A>(s[l]);
        withdrawn_members::<A>(t, n);
        if r.contains(n) {
            let k = r.index_of(n);
            if k < q.len() {
                assert(q[k] == n);
                let i = choose|i: int| 0 <= i < t.len() && unreached_by::<A>(#[trigger] t[i]).contains(n);
                assert(s[i] == t[i]);
            } else {
                assert(here[k - q.len()] == n);
                assert(unreached_by::<A>(s[l]).contains(n));
            }
        }
        if exists|i: int| 0 <= i < s.len() && unreached_by::<A>(#[trigger] s[i]).contains(n) {
            let i = choose|i: int| 0 <= i < s.len() && unreached_by::<A>(#[trigger] s[i]).contains(n);
            if i < l {
                assert(t[i] == s[i]);
                let k = q.index_of(n);
                assert(r[k] == n);
            } else {
                let k = here.index_of(n);
                assert(here[k] == n);
                assert(r[q.len() + k] == n);
            }
        }
    }
}

/// An attribute of the family announces and withdraws what it lists.
pub(crate) proof fn listed_v4(a: PathAttribute, n: Nlri<Ipv4Addr>)
    ensures
        reached_by::<Ipv4Addr>(a).contains(n) <==> reaches_v4(a, n),
        unreached_by::<Ipv4Addr>(a).contains(n) <==> unreaches_v4(a, n),
{
    let x = Prefix::V4(n);
    if a is MpReachNlri {
        let l = a->MpReachNlri_0.prefixes@;
        family_members::<Ipv4Addr>(l, n);
        if l.contains(x) {
            let j = l.index_of(x);
            assert(<Ipv4Addr as Family>::own_prefix(l[j]) == Some(n));
        }
        if exists|j: int| 0 <= j < l.len() && <Ipv4Addr as Family>::own_prefix(#[trigger] l[j]) == Some(n) {
            let j = choose|j: int|
                0 <= j < l.len() && <Ipv4Addr as Family>::own_prefix(#[trigger] l[j]) == Some(n);
            assert(l[j] == x);
        }
    }
    if a is MpUnreachNlri {
        let l = a->MpUnreachNlri_0.prefixes@;
        family_members::<Ipv4Addr>(l, n);
        if l.contains(x) {
            let j = l.index_of(x);
            assert(<Ipv4Addr as Family>::own_prefix(l[j]) == Some(n));
        }
        if exists|j: int| 0 <= j < l.len() && <Ipv4Addr as Family>::own_prefix(#[trigger] l[j]) == Some(n) {
            let j = choose|j: int|
                0 <= j < l.len() && <Ipv4Addr as Family>::own_prefix(#[trigger] l[j]) == Some(n);
            assert(l[j] == x);
        }
    }
}

/// Whether attributes announce something of the family.
proof fn some_announced_v4(s: Seq<PathAttribute>)
    ensures
        mp_announced::<Ipv4Addr>(s).len() > 0 <==> exists|i: int, n: Nlri<Ipv4Addr>|
            0 <= i < s.len() && #[trigger] reaches_v4(s[i], n),
{
    let r = mp_announced::<Ipv4Addr>(s);
    if r.len() > 0 {
        let (n, nh) = r[0];
        announced_members::<Ipv4Addr>(s, n, nh);
        assert(r.contains((n, nh)));
        let i = choose|i: int|
            0 <= i < s.len() && reached_by::<Ipv4Addr>(#[trigger] s[i]).contains(n) && nh == Some(
                s[i]->MpReachNlri_0.next_hop,
            );
        listed_v4(s[i], n);
    }
    if exists|i: int, n: Nlri<Ipv4Addr>| 0 <= i < s.len() && #[trigger] reaches_v4(s[i], n) {
        let (i, n) = choose|i: int, n: Nlri<Ipv4Addr>|
            0 <= i < s.len() && #[trigger] reaches_v4(s[i], n);
        listed_v4(s[i], n);
        announced_members::<Ipv4Addr>(s, n, Some(s[i]->MpReachNlri_0.next_hop));
        assert(r.contains((n, Some(s[i]->MpReachNlri_0.next_hop))));
    }
}

/// An attribute of the family announces and withdraws what it lists.
pub(crate) proof fn listed_v6(a: PathAttribute, n: Nlri<Ipv6Addr>)
    ensures
        reached_by::<Ipv6Addr>(a).contains(n) <==> reaches_v6(a, n),
        unreached_by::<Ipv6Addr>(a).contains(n) <==> unreaches_v6(a, n),
{
    let x = Prefix::V6(n);
    if a is MpReachNlri {
        let l = a->MpReachNlri_0.prefixes@;
        family_members::<Ipv6Addr>(l, n);
        if l.contains(x) {
            let j = l.index_of(x);
            assert(<Ipv6Addr as Family>::own_prefix(l[j]) == Some(n));
        }
        if exists|j: int| 0 <= j < l.len() && <Ipv6Addr as Family>::own_prefix(#[trigger] l[j]) == Some(n) {
            let j = choose|j: int|
                0 <= j < l.len() && <Ipv6Addr as Family>::own_prefix(#[trigger] l[j]) == Some(n);
            assert(l[j] == x);
        }
    }
    if a is MpUnreachNlri {
        let l = a->MpUnreachNlri_0.prefixes@;
        family_members::<Ipv6Addr>(l, n);
        if l.contains(x) {
            let j = l.index_of(x);
            assert(<Ipv6Addr as Family>::own_prefix(l[j]) == Some(n));
        }
        if exists|j: int| 0 <= j < l.len() && <Ipv6Addr as Family>::own_prefix(#[trigger] l[j]) == Some(n) {
            let j = choose|j: int|
                0 <= j < l.len() && <Ipv6Addr as Family>::own_prefix(#[trigger] l[j]) == Some(n);
            assert(l[j] == x);
        }
    }
}

/// Whether attributes announce something of the family.
proof fn some_announced_v6(s: Seq<PathAttribute>)
    ensures
        mp_announced::<Ipv6Addr>(s).len() > 0 <==> exists|i: int, n: Nlri<Ipv6Addr>|
            0 <= i < s.len() && #[trigger] reaches_v6(s[i], n),
{
    let r = mp_announced::<Ipv6Addr>(s);
    if r.len() > 0 {
        let (n, nh) = r[0];
        announced_members::<Ipv6Addr>(s, n, nh);
        assert(r.contains((n, nh)));
        let i = choose|i: int|
            0 <= i < s.len() && reached_by::<Ipv6Addr>(#[trigger] s[i]).contains(n) && nh == Some(
                s[i]->MpReachNlri_0.next_hop,
            );
        listed_v6(s[i], n);
    }
    if exists|i: int, n: Nlri<Ipv6Addr>| 0 <= i < s.len() && #[trigger] reaches_v6(s[i], n) {
        let (i, n) = choose|i: int, n: Nlri<Ipv6Addr>|
            0 <= i < s.len() && #[trigger] reaches_v6(s[i], n);
        listed_v6(s[i], n);
        announced_members::<Ipv6Addr>(s, n, Some(s[i]->MpReachNlri_0.next_hop));
        assert(r.contains((n, Some(s[i]->MpReachNlri_0.next_hop))));
    }
}

/// What an UPDATE lacks.
proof fn missing_means_incomplete(m: UpdateView)
    ensures
        missing_attribute(m) is Some <==> incomplete(m),
        incomplete(m) && !has_origin(m) ==> missing_attribute(m) == Some(1u8),
        incomplete(m) && has_origin(m) && !has_path(m) ==> missing_attribute(m) == Some(2u8),
        incomplete(m) && has_origin(m) && has_path(m) ==> missing_attribute(m) == Some(3u8),
{
    let s = m.attributes;
    some_announced_v4(s);
    some_announced_v6(s);
    absent_attribute_is_absent(s);
    if has_origin(m) {
        last_origin(s);
    }
    if has_path(m) {
        last_path(s);
    }
    if has_next_hop(m) {
        last_hop(s);
    } else {
        last_next_hop_counts(s, 0);
    }
}

/// Where there is an attribute of the kind, there is a last one, which counts.
proof fn last_origin(s: Seq<PathAttribute>)
    requires
        exists|i: int| 0 <= i < s.len() && (#[trigger] s[i]) is Origin,
    ensures
        Attributes::of(s).origin is Some,
    decreases s.len(),
{
    let i = choose|i: int| 0 <= i < s.len() && (#[trigger] s[i]) is Origin;
    if s[s.len() - 1] is Origin {
        last_attribute_counts(s, s.len() - 1);
    } else {
        let t = s.drop_last();
        assert(t[i] == s[i]);
        last_origin(t);
    }
}

/// Where there is an attribute of the kind, there is a last one, which counts.
proof fn last_path(s: Seq<PathAttribute>)
    requires
        exists|i: int| 0 <= i < s.len() && (#[trigger] s[i]) is AsPath,
    ensures
        Attributes::of(s).as_path is Some,
    decreases s.len(),
{
    let i = choose|i: int| 0 <= i < s.len() && (#[trigger] s[i]) is AsPath;
    if s[s.len() - 1] is AsPath {
        last_attribute_counts(s, s.len() - 1);
    } else {
        let t = s.drop_last();
        assert(t[i] == s[i]);
        last_path(t);
    }
}

/// Where there is an attribute of the kind, there is a last one, which counts.
proof fn last_hop(s: Seq<PathAttribute>)
    requires
        exists|i: int| 0 <= i < s.len() && (#[trigger] s[i]) is NextHop,
    ensures
        next_hop_attribute(s) is Some,
    decreases s.len(),
{
    let i = choose|i: int| 0 <= i < s.len() && (#[trigger] s[i]) is NextHop;
    if s[s.len() - 1] is NextHop {
        last_next_hop_counts(s, s.len() - 1);
    } else {
        let t = s.drop_last();
        assert(t[i] == s[i]);
        last_hop(t);
    }
}

/// The announcements of an UPDATE that can be used are those that it makes.
proof fn announcements_v4(m: UpdateView, local_as: u32, n: Nlri<Ipv4Addr>, nh: Option<NextHop>)
    ensures
        effective_announcements(m, local_as).contains((n, nh)) <==> usable(m, local_as) && offers_v4(
            m,
            n,
            nh,
        ),
{
    let s = m.attributes;
    missing_means_incomplete(m);
    announced_members::<Ipv4Addr>(s, n, nh);
    let plain = plain_announced(m);
    let mp = mp_announced::<Ipv4Addr>(s);
    let hop = match next_hop_attribute(s) {
        Some(ip) => Some(NextHop::V4(ip)),
        None => None,
    };
    hop_is_last(s);
    assert(plain.contains((n, nh)) <==> m.announced.contains(n) && nh == hop) by {
        if m.announced.contains(n) && nh == hop {
            let i = m.announced.index_of(n);
            assert(plain[i] == (n, nh));
        }
        if plain.contains((n, nh)) {
            let i = plain.index_of((n, nh));
            assert(m.announced[i] == n);
        }
    }
    assert((plain + mp).contains((n, nh)) <==> plain.contains((n, nh)) || mp.contains((n, nh))) by {
        if plain.contains((n, nh)) {
            let i = plain.index_of((n, nh));
            assert((plain + mp)[i] == (n, nh));
        }
        if mp.contains((n, nh)) {
            let i = mp.index_of((n, nh));
            assert((plain + mp)[plain.len() + i] == (n, nh));
        }
        if (plain + mp).contains((n, nh)) {
            let i = (plain + mp).index_of((n, nh));
            if i < plain.len() {
                assert(plain[i] == (n, nh));
            } else {
                assert(mp[i - plain.len()] == (n, nh));
            }
        }
    }
    assert forall|i: int| 0 <= i < s.len() implies reached_by::<Ipv4Addr>(#[trigger] s[i]).contains(n)
        == reaches_v4(s[i], n) by {
        listed_v4(s[i], n);
    }
    if mp.contains((n, nh)) {
        let i = choose|i: int|
            0 <= i < s.len() && reached_by::<Ipv4Addr>(#[trigger] s[i]).contains(n) && nh == Some(
                s[i]->MpReachNlri_0.next_hop,
            );
        assert(reaches_v4(m.attributes[i], n));
    }
}

/// The NEXT_HOP attribute that counts is the last.
pub(crate) proof fn hop_is_last(s: Seq<PathAttribute>)
    ensures
        next_hop_attribute(s) is None <==> forall|j: int|
            0 <= j < s.len() ==> !((#[trigger] s[j]) is NextHop),
        forall|ip: Ipv4Addr|
            next_hop_attribute(s) == Some(ip) <==> exists|i: int|
                0 <= i < s.len() && (#[trigger] s[i]) == PathAttribute::NextHop(ip) && (forall|j: int|
                    i < j < s.len() ==> !((#[trigger] s[j]) is NextHop)),
    decreases s.len(),
{
    last_next_hop_counts(s, 0);
    if next_hop_attribute(s) is None {
        assert forall|j: int| 0 <= j < s.len() implies !((#[trigger] s[j]) is NextHop) by {
            if s[j] is NextHop {
                last_hop(s);
            }
        }
    }
    assert forall|ip: Ipv4Addr|
        next_hop_attribute(s) == Some(ip) <==> exists|i: int|
            0 <= i < s.len() && (#[trigger] s[i]) == PathAttribute::NextHop(ip) && (forall|j: int|
                i < j < s.len() ==> !((#[trigger] s[j]) is NextHop)) by {
        if exists|i: int|
            0 <= i < s.len() && (#[trigger] s[i]) == PathAttribute::NextHop(ip) && (forall|j: int|
                i < j < s.len() ==> !((#[trigger] s[j]) is NextHop)) {
            let i = choose|i: int|
                0 <= i < s.len() && (#[trigger] s[i]) == PathAttribute::NextHop(ip) && (forall|j: int|
                    i < j < s.len() ==> !((#[trigger] s[j]) is NextHop));
            last_next_hop_counts(s, i);
        }
        if next_hop_attribute(s) == Some(ip) {
            if s.last() is NextHop {
                assert(s[s.len() - 1] == PathAttribute::NextHop(ip));
            } else {
                let t = s.drop_last();
                hop_is_last(t);
                let i = choose|i: int|
                    0 <= i < t.len() && (#[trigger] t[i]) == PathAttribute::NextHop(ip) && (forall|
                        j: int,
                    |
                        i < j < t.len() ==> !((#[trigger] t[j]) is NextHop));
                assert(s[i] == PathAttribute::NextHop(ip));
                assert forall|j: int| i < j < s.len() implies !((#[trigger] s[j]) is NextHop) by {
                    if j < t.len() {
                        assert(t[j] == s[j]);
                    }
                }
            }
        }
    }
}

/// The announcements of an UPDATE that can be used are those that it makes.
proof fn announcements_v6(m: UpdateView, local_as: u32, n: Nlri<Ipv6Addr>, nh: Option<NextHop>)
    ensures
        effective_announcements_v6(m, local_as).contains((n, nh)) <==> usable(m, local_as)
            && offers_v6(m, n, nh),
{
    let s = m.attributes;
    missing_means_incomplete(m);
    announced_members::<Ipv6Addr>(s, n, nh);
    assert forall|i: int| 0 <= i < s.len() implies reached_by::<Ipv6Addr>(#[trigger] s[i]).contains(n)
        == reaches_v6(s[i], n) by {
        listed_v6(s[i], n);
    }
    if mp_announced::<Ipv6Addr>(s).contains((n, nh)) {
        let i = choose|i: int|
            0 <= i < s.len() && reached_by::<Ipv6Addr>(#[trigger] s[i]).contains(n) && nh == Some(
                s[i]->MpReachNlri_0.next_hop,
            );
        assert(reaches_v6(m.attributes[i], n));
    }
}

/// The withdrawals of an UPDATE that take effect are those that it makes.
proof fn withdrawals_of(m: UpdateView, n: Nlri<Ipv4Addr>, k: Nlri<Ipv6Addr>)
    ensures
        effective_withdrawals(m).contains(n) <==> withdraws_v4(m, n),
        effective_withdrawals_v6(m).contains(k) <==> withdraws_v6(m, k),
{
    let s = m.attributes;
    missing_means_incomplete(m);
    withdrawn_members::<Ipv4Addr>(s, n);
    withdrawn_members::<Ipv6Addr>(s, k);
    assert forall|i: int| 0 <= i < s.len() implies unreached_by::<Ipv4Addr>(
        #[trigger] s[i],
    ).contains(n) == unreaches_v4(s[i], n) by {
        listed_v4(s[i], n);
    }
    assert forall|i: int| 0 <= i < s.len() implies unreached_by::<Ipv6Addr>(
        #[trigger] s[i],
    ).contains(k) == unreaches_v6(s[i], k) by {
        listed_v6(s[i], k);
    }
    let mp = mp_withdrawn::<Ipv4Addr>(s);
    let all = m.withdrawn + mp;
    assert(all.contains(n) <==> m.withdrawn.contains(n) || mp.contains(n)) by {
        if m.withdrawn.contains(n) {
            let i = m.withdrawn.index_of(n);
            assert(all[i] == n);
        }
        if mp.contains(n) {
            let i = mp.index_of(n);
            assert(all[m.withdrawn.len() + i] == n);
        }
        if all.contains(n) {
            let i = all.index_of(n);
            if i < m.withdrawn.len() {
                assert(m.withdrawn[i] == n);
            } else {
                assert(mp[i - m.withdrawn.len()] == n);
            }
        }
    }
}

/// The routes that are made of announcements.
proof fn made_of<A: Family>(maker: Maker<A>, s: Seq<(Nlri<A>, Option<NextHop>)>)
    ensures
        forall|k: int|
            0 <= k < maker.routes(s).len() ==> {
                let r = #[trigger] maker.routes(s)[k];
                &&& r == maker.route((r.nlri, r.next_hop))
                &&& s.contains((r.nlri, r.next_hop))
                &&& A::acceptable(r.next_hop, maker.own)
            },
        forall|i: int|
            0 <= i < s.len() && A::acceptable((#[trigger] s[i]).1, maker.own) ==> maker.routes(
                s,
            ).contains(maker.route(s[i])),
    decreases s.len(),
{
    let r = maker.routes(s);
    if s.len() > 0 {
        let t = s.drop_last();
        let q = maker.routes(t);
        made_of(maker, t);
        assert forall|k: int| 0 <= k < r.len() implies {
            let x = #[trigger] r[k];
            &&& x == maker.route((x.nlri, x.next_hop))
            &&& s.contains((x.nlri, x.next_hop))
            &&& A::acceptable(x.next_hop, maker.own)
        } by {
            if k < q.len() {
                assert(r[k] == q[k]);
                let x = q[k];
                let j = t.index_of((x.nlri, x.next_hop));
                assert(s[j] == (x.nlri, x.next_hop));
            } else {
                assert(s[s.len() - 1] == (r[k].nlri, r[k].next_hop));
            }
        }
        assert forall|i: int|
            0 <= i < s.len() && A::acceptable((#[trigger] s[i]).1, maker.own) implies r.contains(
            maker.route(s[i]),
        ) by {
            if i < t.len() {
                assert(t[i] == s[i]);
                let j = q.index_of(maker.route(t[i]));
                assert(r[j] == maker.route(s[i]));
            } else {
                assert(r[r.len() - 1] == maker.route(s[i]));
            }
        }
    }
}

/// The last route for a prefix in a list of routes.
proof fn last_for<A>(s: Seq<Route<A>>, n: Nlri<A>) -> (k: int)
    requires
        exists|i: int| 0 <= i < s.len() && (#[trigger] s[i]).nlri == n,
    ensures
        0 <= k < s.len(),
        s[k].nlri == n,
        forall|j: int| k < j < s.len() ==> (#[trigger] s[j]).nlri != n,
    decreases s.len(),
{
    if s.last().nlri == n {
        s.len() - 1
    } else {
        let t = s.drop_last();
        let i = choose|i: int| 0 <= i < s.len() && (#[trigger] s[i]).nlri == n;
        assert(t[i].nlri == n);
        let k = last_for(t, n);
        assert forall|j: int| k < j < s.len() implies (#[trigger] s[j]).nlri != n by {
            if j < t.len() {
                assert(t[j] == s[j]);
            }
        }
        k
    }
}

/// The prefixes of routes that ask for their traffic to be dropped.
proof fn null_routed_members<A>(s: Seq<Route<A>>, n: Nlri<A>)
    ensures
        null_routed(s).contains(n) <==> exists|k: int|
            0 <= k < s.len() && (#[trigger] s[k]).nlri == n && s[k].attributes.is_blackhole(),
    decreases s.len(),
{
    let r = null_routed(s);
    if s.len() > 0 {
        let t = s.drop_last();
        let q = null_routed(t);
        null_routed_members(t, n);
        if r.contains(n) {
            let k = r.index_of(n);
            if k < q.len() {
                assert(q[k] == n);
                let i = choose|i: int|
                    0 <= i < t.len() && (#[trigger] t[i]).nlri == n && t[i].attributes.is_blackhole();
                assert(s[i] == t[i]);
            } else {
                assert(s[s.len() - 1].nlri == n);
            }
        }
        if exists|k: int|
            0 <= k < s.len() && (#[trigger] s[k]).nlri == n && s[k].attributes.is_blackhole() {
            let k = choose|k: int|
                0 <= k < s.len() && (#[trigger] s[k]).nlri == n && s[k].attributes.is_blackhole();
            if k < t.len() {
                assert(t[k] == s[k]);
                let j = q.index_of(n);
                assert(r[j] == n);
            } else {
                assert(r[r.len() - 1] == n);
            }
        }
    }
}

/// The prefixes that lose a route which asked for its traffic to be dropped.
proof fn lost_members<A>(m: Map<Nlri<A>, Route<A>>, s: Seq<Nlri<A>>, n: Nlri<A>)
    ensures
        null_routes_lost(m, s).contains(n) <==> s.contains(n) && blackholed(m, n),
    decreases s.len(),
{
    let r = null_routes_lost(m, s);
    if s.len() > 0 {
        let t = s.drop_last();
        let q = null_routes_lost(m, t);
        lost_members(m, t, n);
        crate::rib::lemma_take_contains(s, s.len() as int);
        assert(s.take(s.len() as int) =~= s);
        assert(s.take(s.len() - 1) =~= t);
        if q.contains(n) {
            let j = q.index_of(n);
            assert(r[j] == n);
        }
        if r.contains(n) {
            let j = r.index_of(n);
            if j < q.len() {
                assert(q[j] == n);
            }
        }
        if n == s.last() && blackholed(m, n) && !t.contains(n) {
            assert(r[r.len() - 1] == n);
        }
    }
}

/// Whether some announcement of a prefix has an acceptable next hop.
pub open spec fn taken<A: Family>(
    s: Seq<(Nlri<A>, Option<NextHop>)>,
    n: Nlri<A>,
    own: Option<A>,
) -> bool {
    exists|i: int| 0 <= i < s.len() && (#[trigger] s[i]).0 == n && A::acceptable(s[i].1, own)
}

/// What an announcement with an acceptable next hop does to its prefix.
proof fn family_hit<A: Family>(
    w: Seq<Nlri<A>>,
    s: Seq<(Nlri<A>, Option<NextHop>)>,
    maker: Maker<A>,
    before: Map<Nlri<A>, Route<A>>,
    n: Nlri<A>,
) -> (k: int)
    requires
        taken(s, n, maker.own),
    ensures
        ({
            let routes = maker.routes(s);
            let after = table_after(before, w, routes);
            let ops = withdrawals(w) + admissions(routes);
            &&& after.contains_key(n)
            &&& after[n] == maker.route((n, after[n].next_hop))
            &&& s.contains((n, after[n].next_hop))
            &&& A::acceptable(after[n].next_hop, maker.own)
            &&& 0 <= k < ops.len()
            &&& ops[k] == (if maker.attributes.is_blackhole() {
                RibOp::Withdraw(n)
            } else {
                RibOp::Evaluate(after[n])
            })
            &&& forall|j: int| k < j < ops.len() ==> !op_about(#[trigger] ops[j], n)
            &&& exists|i: int| 0 <= i < routes.len() && (#[trigger] routes[i]).nlri == n
        }),
{
    let routes = maker.routes(s);
    let base = before.remove_keys(w.to_set());
    let i = choose|i: int|
        0 <= i < s.len() && (#[trigger] s[i]).0 == n && A::acceptable(s[i].1, maker.own);
    made_of(maker, s);
    let x = routes.index_of(maker.route(s[i]));
    assert(routes[x].nlri == n);
    let k = last_for(routes, n);
    let r = routes[k];
    assert(r == maker.route((r.nlri, r.next_hop)));
    assert(s.contains((r.nlri, r.next_hop)));
    assert(A::acceptable(r.next_hop, maker.own));
    assert(table_after(before, w, routes).contains_key(n) && table_after(before, w, routes)[n] == r)
        by {
        stored_routes_stand(base, routes, n);
    }
    last_word(w, routes, k);
    withdrawals(w).len() + k
}

/// The last route for a prefix has the last word on it.
proof fn last_word<A: Family>(w: Seq<Nlri<A>>, routes: Seq<Route<A>>, k: int)
    requires
        0 <= k < routes.len(),
        forall|j: int| k < j < routes.len() ==> (#[trigger] routes[j]).nlri != routes[k].nlri,
    ensures
        ({
            let ops = withdrawals(w) + admissions(routes);
            let l = withdrawals(w).len() + k;
            &&& l < ops.len()
            &&& ops[l] == (if routes[k].attributes.is_blackhole() {
                RibOp::Withdraw(routes[k].nlri)
            } else {
                RibOp::Evaluate(routes[k])
            })
            &&& forall|j: int| l < j < ops.len() ==> !op_about(#[trigger] ops[j], routes[k].nlri)
        }),
{
    let a = withdrawals(w);
    let b = admissions(routes);
    let ops = a + b;
    assert(ops[a.len() + k] == b[k]);
    assert forall|j: int| a.len() + k < j < ops.len() implies !op_about(
        #[trigger] ops[j],
        routes[k].nlri,
    ) by {
        assert(ops[j] == b[j - a.len()]);
        assert(routes[j - a.len()].nlri != routes[k].nlri);
    }
}

/// What becomes of a prefix that is not announced with an acceptable next hop.
proof fn family_miss<A: Family>(
    w: Seq<Nlri<A>>,
    s: Seq<(Nlri<A>, Option<NextHop>)>,
    maker: Maker<A>,
    before: Map<Nlri<A>, Route<A>>,
    n: Nlri<A>,
)
    requires
        !taken(s, n, maker.own),
    ensures
        ({
            let routes = maker.routes(s);
            let after = table_after(before, w, routes);
            let ops = withdrawals(w) + admissions(routes);
            &&& w.contains(n) ==> !after.contains_key(n) && ops.contains(RibOp::Withdraw(n))
            &&& !w.contains(n) ==> {
                &&& after.contains_key(n) == before.contains_key(n)
                &&& before.contains_key(n) ==> after[n] == before[n]
                &&& forall|j: int| 0 <= j < ops.len() ==> !op_about(#[trigger] ops[j], n)
            }
            &&& forall|i: int| 0 <= i < routes.len() ==> (#[trigger] routes[i]).nlri != n
        }),
{
    let routes = maker.routes(s);
    let base = before.remove_keys(w.to_set());
    let a = withdrawals(w);
    let b = admissions(routes);
    let ops = a + b;
    made_of(maker, s);
    assert forall|k: int| 0 <= k < routes.len() implies (#[trigger] routes[k]).nlri != n by {
        if routes[k].nlri == n {
            let j = s.index_of((routes[k].nlri, routes[k].next_hop));
            assert(s[j].0 == n);
        }
    }
    stored_routes_stand(base, routes, n);
    if w.contains(n) {
        let j = w.index_of(n);
        assert(ops[j] == a[j]);
    } else {
        assert forall|j: int| 0 <= j < ops.len() implies !op_about(#[trigger] ops[j], n) by {
            if j < a.len() {
                assert(ops[j] == a[j]);
                assert(w.contains(w[j]));
            } else {
                assert(ops[j] == b[j - a.len()]);
                assert(routes[j - a.len()].nlri != n);
            }
        }
    }
}

/// Which prefixes are to have their traffic dropped.
proof fn family_dropped<A: Family>(
    w: Seq<Nlri<A>>,
    s: Seq<(Nlri<A>, Option<NextHop>)>,
    maker: Maker<A>,
    before: Map<Nlri<A>, Route<A>>,
    n: Nlri<A>,
)
    ensures
        null_routed(maker.routes(s)).contains(n) <==> taken(s, n, maker.own)
            && maker.attributes.is_blackhole(),
{
    let routes = maker.routes(s);
    made_of(maker, s);
    null_routed_members(routes, n);
    if taken(s, n, maker.own) {
        let k = family_hit(w, s, maker, before, n);
        let i = choose|i: int| 0 <= i < routes.len() && (#[trigger] routes[i]).nlri == n;
        assert(routes[i].attributes == maker.attributes);
    } else {
        family_miss(w, s, maker, before, n);
    }
}

/// What withdrawals and then announcements ask of the decision process.
proof fn family_ops<A: Family>(
    w: Seq<Nlri<A>>,
    s: Seq<(Nlri<A>, Option<NextHop>)>,
    maker: Maker<A>,
    k: int,
)
    requires
        0 <= k < (withdrawals(w) + admissions(maker.routes(s))).len(),
    ensures
        ({
            let op = (withdrawals(w) + admissions(maker.routes(s)))[k];
            ||| op matches RibOp::Withdraw(n) && (w.contains(n) || (taken(s, n, maker.own)
                && maker.attributes.is_blackhole()))
            ||| op matches RibOp::Evaluate(r) && {
                &&& r == maker.route((r.nlri, r.next_hop))
                &&& s.contains((r.nlri, r.next_hop))
                &&& A::acceptable(r.next_hop, maker.own)
                &&& !maker.attributes.is_blackhole()
            }
        }),
{
    let routes = maker.routes(s);
    let a = withdrawals(w);
    made_of(maker, s);
    if k < a.len() {
        assert(w.contains(w[k]));
    } else {
        let r = routes[k - a.len()];
        assert(s.contains((r.nlri, r.next_hop)));
        let j = s.index_of((r.nlri, r.next_hop));
        assert(s[j].0 == r.nlri);
    }
}

/// Routes are made of announcements one after the other.
proof fn routes_of_sum<A: Family>(
    maker: Maker<A>,
    a: Seq<(Nlri<A>, Option<NextHop>)>,
    b: Seq<(Nlri<A>, Option<NextHop>)>,
)
    ensures
        maker.routes(a + b) == maker.routes(a) + maker.routes(b),
    decreases b.len(),
{
    if b.len() == 0 {
        assert(a + b =~= a);
        assert(maker.routes(a) + maker.routes(b) =~= maker.routes(a));
    } else {
        routes_of_sum(maker, a, b.drop_last());
        assert((a + b).drop_last() =~= a + b.drop_last());
        assert((a + b).last() == b.last());
        assert(maker.routes(a + b) =~= maker.routes(a) + maker.routes(b));
    }
}

/// Routes are stored one after the other.
proof fn stored_in_parts<A>(m: Map<Nlri<A>, Route<A>>, a: Seq<Route<A>>, b: Seq<Route<A>>)
    ensures
        stored(m, a + b) == stored(stored(m, a), b),
    decreases b.len(),
{
    if b.len() == 0 {
        assert(a + b =~= a);
    } else {
        stored_in_parts(m, a, b.drop_last());
        assert((a + b).drop_last() =~= a + b.drop_last());
    }
}

/// What one attribute announces, with its next hop.
spec fn offers_of<A: Family>(x: PathAttribute) -> Seq<(Nlri<A>, Option<NextHop>)> {
    reached_by::<A>(x).map_values(|y: Nlri<A>| (y, crate::update::inline_next_hop(x)))
}

/// The routes that are made of one attribute.
proof fn part_offers<A: Family>(maker: Maker<A>, x: PathAttribute, n: Nlri<A>)
    ensures
        ({
            let b = maker.routes(offers_of::<A>(x));
            &&& forall|k: int|
                0 <= k < b.len() ==> (#[trigger] b[k]).next_hop == crate::update::inline_next_hop(x)
            &&& (exists|k: int| 0 <= k < b.len() && (#[trigger] b[k]).nlri == n) <==> reached_by::<A>(
                x,
            ).contains(n) && A::acceptable(crate::update::inline_next_hop(x), maker.own)
        }),
{
    let here = offers_of::<A>(x);
    let b = maker.routes(here);
    made_of(maker, here);
    assert forall|k: int| 0 <= k < b.len() implies (#[trigger] b[k]).next_hop
        == crate::update::inline_next_hop(x) && reached_by::<A>(x).contains(b[k].nlri)
        && A::acceptable(b[k].next_hop, maker.own) by {
        let j = here.index_of((b[k].nlri, b[k].next_hop));
        assert(here[j] == (b[k].nlri, b[k].next_hop));
        assert(reached_by::<A>(x)[j] == b[k].nlri);
    }
    if reached_by::<A>(x).contains(n) && A::acceptable(crate::update::inline_next_hop(x), maker.own) {
        let j = reached_by::<A>(x).index_of(n);
        assert(here[j] == (n, crate::update::inline_next_hop(x)));
        let k = b.index_of(maker.route(here[j]));
        assert(b[k].nlri == n);
    }
}

/// What storing routes with one next hop does to a prefix.
proof fn part_stored<A>(
    u: Map<Nlri<A>, Route<A>>,
    b: Seq<Route<A>>,
    n: Nlri<A>,
    h: Option<NextHop>,
)
    requires
        forall|k: int| 0 <= k < b.len() ==> (#[trigger] b[k]).next_hop == h,
    ensures
        (exists|k: int| 0 <= k < b.len() && (#[trigger] b[k]).nlri == n) ==> stored(
            u,
            b,
        ).contains_key(n) && stored(u, b)[n].next_hop == h,
        !(exists|k: int| 0 <= k < b.len() && (#[trigger] b[k]).nlri == n) ==> stored(
            u,
            b,
        ).contains_key(n) == u.contains_key(n) && (u.contains_key(n) ==> stored(u, b)[n] == u[n]),
    decreases b.len(),
{
    if b.len() > 0 {
        let t = b.drop_last();
        assert forall|k: int| 0 <= k < t.len() implies (#[trigger] t[k]).next_hop == h by {
            assert(t[k] == b[k]);
        }
        part_stored(u, t, n, h);
        assert(b[b.len() - 1].next_hop == h);
        if exists|k: int| 0 <= k < b.len() && (#[trigger] b[k]).nlri == n {
            let k = choose|k: int| 0 <= k < b.len() && (#[trigger] b[k]).nlri == n;
            if k < t.len() {
                assert(t[k].nlri == n);
            }
        } else {
            assert(b[b.len() - 1].nlri != n);
            if exists|k: int| 0 <= k < t.len() && (#[trigger] t[k]).nlri == n {
                let k = choose|k: int| 0 <= k < t.len() && (#[trigger] t[k]).nlri == n;
                assert(b[k].nlri == n);
            }
        }
    }
}

/// Of the attributes that announce a prefix with an acceptable next hop, the last counts.
proof fn last_attribute_offers<A: Family>(
    m: Map<Nlri<A>, Route<A>>,
    head: Seq<(Nlri<A>, Option<NextHop>)>,
    s: Seq<PathAttribute>,
    maker: Maker<A>,
    n: Nlri<A>,
    i: int,
)
    requires
        0 <= i < s.len(),
        reached_by::<A>(s[i]).contains(n),
        A::acceptable(Some(s[i]->MpReachNlri_0.next_hop), maker.own),
        forall|j: int|
            i < j < s.len() ==> !(reached_by::<A>(#[trigger] s[j]).contains(n) && A::acceptable(
                Some(s[j]->MpReachNlri_0.next_hop),
                maker.own,
            )),
    ensures
        ({
            let t = stored(m, maker.routes(head + mp_announced::<A>(s)));
            t.contains_key(n) && t[n].next_hop == Some(s[i]->MpReachNlri_0.next_hop)
        }),
    decreases s.len(),
{
    let t = s.drop_last();
    let l = s.len() - 1;
    let x = s.last();
    let mp = mp_announced::<A>(t);
    let here = offers_of::<A>(x);
    assert(mp_announced::<A>(s) =~= mp + here);
    assert(head + mp_announced::<A>(s) =~= (head + mp) + here);
    routes_of_sum(maker, head + mp, here);
    let a = maker.routes(head + mp);
    let b = maker.routes(here);
    stored_in_parts(m, a, b);
    let u = stored(m, a);
    part_offers(maker, x, n);
    part_stored(u, b, n, crate::update::inline_next_hop(x));
    if i < l {
        assert(t[i] == s[i]);
        assert forall|j: int| i < j < t.len() implies !(reached_by::<A>(#[trigger] t[j]).contains(n)
            && A::acceptable(Some(t[j]->MpReachNlri_0.next_hop), maker.own)) by {
            assert(t[j] == s[j]);
        }
        last_attribute_offers(m, head, t, maker, n, i);
        assert(s[l] == x);
    }
}

/// Whether a route is one that an UPDATE brings over a session: it is of the kind of the session, fresh,
/// received now, with the attributes of the UPDATE and a next hop that the UPDATE gives for its prefix
/// and that is acceptable.
pub open spec fn brought_by_v4(
    r: Route<Ipv4Addr>,
    m: UpdateView,
    peer_type: PeerType,
    own: Option<Ipv4Addr>,
    now: Instant,
) -> bool {
    &&& r.peer_type == peer_type
    &&& !r.stale
    &&& r.received_at == now
    &&& r.attributes == Attributes::of(m.attributes)
    &&& offers_v4(m, r.nlri, r.next_hop)
    &&& <Ipv4Addr as Family>::acceptable(r.next_hop, own)
}

/// Whether an UPDATE brings a route for an IPv4 prefix.
pub open spec fn brings_v4(
    m: UpdateView,
    local_as: u32,
    own: Option<Ipv4Addr>,
    n: Nlri<Ipv4Addr>,
) -> bool {
    usable(m, local_as) && exists|nh: Option<NextHop>| #[trigger]
        offers_v4(m, n, nh) && <Ipv4Addr as Family>::acceptable(nh, own)
}

/// What an UPDATE does to one IPv4 prefix. Where it announces the prefix with an acceptable next hop,
/// its route is received, of the kind of the session, and the last word on the prefix to the decision
/// process is to judge that route, or to drop the candidate where its traffic is to be dropped. Where it
/// only withdraws the prefix, no route is left, and the candidate is to be dropped. Else nothing changes.
pub proof fn update_settles_each_prefix_v4(
    m: UpdateView,
    peer_type: PeerType,
    local_as: u32,
    own: Option<Ipv4Addr>,
    now: Instant,
    before: Map<Nlri<Ipv4Addr>, Route<Ipv4Addr>>,
    after: Map<Nlri<Ipv4Addr>, Route<Ipv4Addr>>,
    ops: Seq<RibOp<Ipv4Addr>>,
    dropped: Seq<Nlri<Ipv4Addr>>,
    lifted: Seq<Nlri<Ipv4Addr>>,
    n: Nlri<Ipv4Addr>,
)
    requires
        after == table_after(
            before,
            effective_withdrawals(m),
            routes_v4(m, local_as, own, peer_type, now),
        ),
        ops == withdrawals(effective_withdrawals(m)) + admissions(
            routes_v4(m, local_as, own, peer_type, now),
        ),
        dropped == null_routed(routes_v4(m, local_as, own, peer_type, now)),
        lifted == null_routes_lost(before, effective_withdrawals(m)),
    ensures
        brings_v4(m, local_as, own, n) ==> {
            &&& after.contains_key(n)
            &&& after[n].nlri == n
            &&& brought_by_v4(after[n], m, peer_type, own, now)
            &&& exists|k: int|
                0 <= k < ops.len() && (#[trigger] ops[k]) == (if Attributes::of(
                    m.attributes,
                ).is_blackhole() {
                    RibOp::Withdraw(n)
                } else {
                    RibOp::Evaluate(after[n])
                }) && (forall|j: int| k < j < ops.len() ==> !op_about(#[trigger] ops[j], n))
        },
        !brings_v4(m, local_as, own, n) && withdraws_v4(m, n) ==> !after.contains_key(n)
            && ops.contains(RibOp::Withdraw(n)),
        !brings_v4(m, local_as, own, n) && !withdraws_v4(m, n) ==> {
            &&& after.contains_key(n) == before.contains_key(n)
            &&& before.contains_key(n) ==> after[n] == before[n]
            &&& forall|j: int| 0 <= j < ops.len() ==> !op_about(#[trigger] ops[j], n)
        },
        dropped.contains(n) <==> brings_v4(m, local_as, own, n) && Attributes::of(
            m.attributes,
        ).is_blackhole(),
        lifted.contains(n) <==> withdraws_v4(m, n) && before.contains_key(n)
            && before[n].attributes.is_blackhole(),
{
    let s = effective_announcements(m, local_as);
    let maker = maker_v4(m, own, peer_type, now);
    let w = effective_withdrawals(m);
    family_dropped(w, s, maker, before, n);
    lost_members(before, w, n);
    taken_means_brought_v4(m, local_as, own, n);
    withdrawn_means_v4(m, n);
    if brings_v4(m, local_as, own, n) {
        let k = family_hit(w, s, maker, before, n);
        announcements_v4(m, local_as, n, after[n].next_hop);
        assert(ops[k] == (if Attributes::of(m.attributes).is_blackhole() {
            RibOp::Withdraw(n)
        } else {
            RibOp::Evaluate(after[n])
        }));
    } else {
        family_miss(w, s, maker, before, n);
    }
}

/// A prefix is withdrawn just where the UPDATE withdraws it.
proof fn withdrawn_means_v4(m: UpdateView, n: Nlri<Ipv4Addr>)
    ensures
        effective_withdrawals(m).contains(n) <==> withdraws_v4(m, n),
{
    withdrawals_of(m, n, arbitrary());
}

/// A prefix is taken just where the UPDATE brings a route for it.
proof fn taken_means_brought_v4(
    m: UpdateView,
    local_as: u32,
    own: Option<Ipv4Addr>,
    n: Nlri<Ipv4Addr>,
)
    ensures
        taken(effective_announcements(m, local_as), n, own) <==> brings_v4(
            m,
            local_as,
            own,
            n,
        ),
{
    let s = effective_announcements(m, local_as);
    if taken(s, n, own) {
        let i = choose|i: int|
            0 <= i < s.len() && (#[trigger] s[i]).0 == n && <Ipv4Addr as Family>::acceptable(
                s[i].1,
                own,
            );
        assert(s.contains((n, s[i].1)));
        announcements_v4(m, local_as, n, s[i].1);
        assert(offers_v4(m, n, s[i].1));
    }
    if brings_v4(m, local_as, own, n) {
        let nh = choose|nh: Option<NextHop>| #[trigger]
            offers_v4(m, n, nh) && <Ipv4Addr as Family>::acceptable(nh, own);
        announcements_v4(m, local_as, n, nh);
        let i = s.index_of((n, nh));
        assert(s[i].0 == n);
    }
}

/// The decision process is asked of nothing but what an UPDATE says: candidates are dropped that it
/// withdraws, or whose traffic it asks to be dropped, and routes are judged that it brings, each of the
/// kind of the session.
pub proof fn update_asks_for_its_own_v4(
    m: UpdateView,
    peer_type: PeerType,
    local_as: u32,
    own: Option<Ipv4Addr>,
    now: Instant,
    ops: Seq<RibOp<Ipv4Addr>>,
    k: int,
)
    requires
        ops == withdrawals(effective_withdrawals(m)) + admissions(
            routes_v4(m, local_as, own, peer_type, now),
        ),
        0 <= k < ops.len(),
    ensures
        ops[k] is Withdraw || ops[k] is Evaluate,
        ops[k] matches RibOp::Withdraw(n) ==> withdraws_v4(m, n) || (brings_v4(
            m,
            local_as,
            own,
            n,
        ) && Attributes::of(m.attributes).is_blackhole()),
        ops[k] matches RibOp::Evaluate(r) ==> usable(m, local_as) && brought_by_v4(
            r,
            m,
            peer_type,
            own,
            now,
        ) && !r.attributes.is_blackhole(),
{
    let s = effective_announcements(m, local_as);
    let maker = maker_v4(m, own, peer_type, now);
    family_ops(effective_withdrawals(m), s, maker, k);
    match ops[k] {
        RibOp::Withdraw(n) => {
            withdrawn_means_v4(m, n);
            taken_means_brought_v4(m, local_as, own, n);
        },
        RibOp::Evaluate(r) => {
            announcements_v4(m, local_as, r.nlri, r.next_hop);
        },
        _ => {},
    }
}

/// Whether a route is one that an UPDATE brings over a session: it is of the kind of the session, fresh,
/// received now, with the attributes of the UPDATE and a next hop that the UPDATE gives for its prefix
/// and that is acceptable.
pub open spec fn brought_by_v6(
    r: Route<Ipv6Addr>,
    m: UpdateView,
    peer_type: PeerType,
    own: Option<Ipv6Addr>,
    now: Instant,
) -> bool {
    &&& r.peer_type == peer_type
    &&& !r.stale
    &&& r.received_at == now
    &&& r.attributes == Attributes::of(m.attributes)
    &&& offers_v6(m, r.nlri, r.next_hop)
    &&& <Ipv6Addr as Family>::acceptable(r.next_hop, own)
}

/// Whether an UPDATE brings a route for an IPv6 prefix.
pub open spec fn brings_v6(
    m: UpdateView,
    local_as: u32,
    own: Option<Ipv6Addr>,
    n: Nlri<Ipv6Addr>,
) -> bool {
    usable(m, local_as) && exists|nh: Option<NextHop>| #[trigger]
        offers_v6(m, n, nh) && <Ipv6Addr as Family>::acceptable(nh, own)
}

/// What an UPDATE does to one IPv6 prefix. Where it announces the prefix with an acceptable next hop,
/// its route is received, of the kind of the session, and the last word on the prefix to the decision
/// process is to judge that route, or to drop the candidate where its traffic is to be dropped. Where it
/// only withdraws the prefix, no route is left, and the candidate is to be dropped. Else nothing changes.
pub proof fn update_settles_each_prefix_v6(
    m: UpdateView,
    peer_type: PeerType,
    local_as: u32,
    own: Option<Ipv6Addr>,
    now: Instant,
    before: Map<Nlri<Ipv6Addr>, Route<Ipv6Addr>>,
    after: Map<Nlri<Ipv6Addr>, Route<Ipv6Addr>>,
    ops: Seq<RibOp<Ipv6Addr>>,
    dropped: Seq<Nlri<Ipv6Addr>>,
    lifted: Seq<Nlri<Ipv6Addr>>,
    n: Nlri<Ipv6Addr>,
)
    requires
        after == table_after(
            before,
            effective_withdrawals_v6(m),
            routes_v6(m, local_as, own, peer_type, now),
        ),
        ops == withdrawals(effective_withdrawals_v6(m)) + admissions(
            routes_v6(m, local_as, own, peer_type, now),
        ),
        dropped == null_routed(routes_v6(m, local_as, own, peer_type, now)),
        lifted == null_routes_lost(before, effective_withdrawals_v6(m)),
    ensures
        brings_v6(m, local_as, own, n) ==> {
            &&& after.contains_key(n)
            &&& after[n].nlri == n
            &&& brought_by_v6(after[n], m, peer_type, own, now)
            &&& exists|k: int|
                0 <= k < ops.len() && (#[trigger] ops[k]) == (if Attributes::of(
                    m.attributes,
                ).is_blackhole() {
                    RibOp::Withdraw(n)
                } else {
                    RibOp::Evaluate(after[n])
                }) && (forall|j: int| k < j < ops.len() ==> !op_about(#[trigger] ops[j], n))
        },
        !brings_v6(m, local_as, own, n) && withdraws_v6(m, n) ==> !after.contains_key(n)
            && ops.contains(RibOp::Withdraw(n)),
        !brings_v6(m, local_as, own, n) && !withdraws_v6(m, n) ==> {
            &&& after.contains_key(n) == before.contains_key(n)
            &&& before.contains_key(n) ==> after[n] == before[n]
            &&& forall|j: int| 0 <= j < ops.len() ==> !op_about(#[trigger] ops[j], n)
        },
        dropped.contains(n) <==> brings_v6(m, local_as, own, n) && Attributes::of(
            m.attributes,
        ).is_blackhole(),
        lifted.contains(n) <==> withdraws_v6(m, n) && before.contains_key(n)
            && before[n].attributes.is_blackhole(),
{
    let s = effective_announcements_v6(m, local_as);
    let maker = maker_v6(m, own, peer_type, now);
    let w = effective_withdrawals_v6(m);
    family_dropped(w, s, maker, before, n);
    lost_members(before, w, n);
    taken_means_brought_v6(m, local_as, own, n);
    withdrawn_means_v6(m, n);
    if brings_v6(m, local_as, own, n) {
        let k = family_hit(w, s, maker, before, n);
        announcements_v6(m, local_as, n, after[n].next_hop);
        assert(ops[k] == (if Attributes::of(m.attributes).is_blackhole() {
            RibOp::Withdraw(n)
        } else {
            RibOp::Evaluate(after[n])
        }));
    } else {
        family_miss(w, s, maker, before, n);
    }
}

/// A prefix is withdrawn just where the UPDATE withdraws it.
proof fn withdrawn_means_v6(m: UpdateView, n: Nlri<Ipv6Addr>)
    ensures
        effective_withdrawals_v6(m).contains(n) <==> withdraws_v6(m, n),
{
    withdrawals_of(m, arbitrary(), n);
}

/// A prefix is taken just where the UPDATE brings a route for it.
proof fn taken_means_brought_v6(
    m: UpdateView,
    local_as: u32,
    own: Option<Ipv6Addr>,
    n: Nlri<Ipv6Addr>,
)
    ensures
        taken(effective_announcements_v6(m, local_as), n, own) <==> brings_v6(
            m,
            local_as,
            own,
            n,
        ),
{
    let s = effective_announcements_v6(m, local_as);
    if taken(s, n, own) {
        let i = choose|i: int|
            0 <= i < s.len() && (#[trigger] s[i]).0 == n && <Ipv6Addr as Family>::acceptable(
                s[i].1,
                own,
            );
        assert(s.contains((n, s[i].1)));
        announcements_v6(m, local_as, n, s[i].1);
        assert(offers_v6(m, n, s[i].1));
    }
    if brings_v6(m, local_as, own, n) {
        let nh = choose|nh: Option<NextHop>| #[trigger]
            offers_v6(m, n, nh) && <Ipv6Addr as Family>::acceptable(nh, own);
        announcements_v6(m, local_as, n, nh);
        let i = s.index_of((n, nh));
        assert(s[i].0 == n);
    }
}

/// The decision process is asked of nothing but what an UPDATE says: candidates are dropped that it
/// withdraws, or whose traffic it asks to be dropped, and routes are judged that it brings, each of the
/// kind of the session.
pub proof fn update_asks_for_its_own_v6(
    m: UpdateView,
    peer_type: PeerType,
    local_as: u32,
    own: Option<Ipv6Addr>,
    now: Instant,
    ops: Seq<RibOp<Ipv6Addr>>,
    k: int,
)
    requires
        ops == withdrawals(effective_withdrawals_v6(m)) + admissions(
            routes_v6(m, local_as, own, peer_type, now),
        ),
        0 <= k < ops.len(),
    ensures
        ops[k] is Withdraw || ops[k] is Evaluate,
        ops[k] matches RibOp::Withdraw(n) ==> withdraws_v6(m, n) || (brings_v6(
            m,
            local_as,
            own,
            n,
        ) && Attributes::of(m.attributes).is_blackhole()),
        ops[k] matches RibOp::Evaluate(r) ==> usable(m, local_as) && brought_by_v6(
            r,
            m,
            peer_type,
            own,
            now,
        ) && !r.attributes.is_blackhole(),
{
    let s = effective_announcements_v6(m, local_as);
    let maker = maker_v6(m, own, peer_type, now);
    family_ops(effective_withdrawals_v6(m), s, maker, k);
    match ops[k] {
        RibOp::Withdraw(n) => {
            withdrawn_means_v6(m, n);
            taken_means_brought_v6(m, local_as, own, n);
        },
        RibOp::Evaluate(r) => {
            announcements_v6(m, local_as, r.nlri, r.next_hop);
        },
        _ => {},
    }
}

/// Where several attributes of a usable UPDATE announce an IPv4 prefix with an acceptable next hop, the
/// last of them gives the next hop of the route that is received, whatever the announced field says.
pub proof fn last_offer_counts_v4(
    m: UpdateView,
    peer_type: PeerType,
    local_as: u32,
    own: Option<Ipv4Addr>,
    now: Instant,
    before: Map<Nlri<Ipv4Addr>, Route<Ipv4Addr>>,
    after: Map<Nlri<Ipv4Addr>, Route<Ipv4Addr>>,
    n: Nlri<Ipv4Addr>,
    i: int,
)
    requires
        after == table_after(
            before,
            effective_withdrawals(m),
            routes_v4(m, local_as, own, peer_type, now),
        ),
        usable(m, local_as),
        0 <= i < m.attributes.len(),
        reaches_v4(m.attributes[i], n),
        <Ipv4Addr as Family>::acceptable(Some(m.attributes[i]->MpReachNlri_0.next_hop), own),
        forall|j: int|
            i < j < m.attributes.len() ==> !(reaches_v4(#[trigger] m.attributes[j], n)
                && <Ipv4Addr as Family>::acceptable(
                Some(m.attributes[j]->MpReachNlri_0.next_hop),
                own,
            )),
    ensures
        after.contains_key(n),
        after[n].next_hop == Some(m.attributes[i]->MpReachNlri_0.next_hop),
{
    let s = m.attributes;
    let maker = maker_v4(m, own, peer_type, now);
    missing_means_incomplete(m);
    assert forall|j: int| 0 <= j < s.len() implies reached_by::<Ipv4Addr>(#[trigger] s[j]).contains(n)
        == reaches_v4(s[j], n) by {
        listed_v4(s[j], n);
    }
    last_attribute_offers(
        before.remove_keys(effective_withdrawals(m).to_set()),
        plain_announced(m),
        s,
        maker,
        n,
        i,
    );
    assert(plain_announced(m) + mp_announced::<Ipv4Addr>(s) =~= effective_announcements(m, local_as));
}

/// Where several attributes of a usable UPDATE announce an IPv6 prefix with an acceptable next hop, the
/// last of them gives the next hop of the route that is received, whatever the announced field says.
pub proof fn last_offer_counts_v6(
    m: UpdateView,
    peer_type: PeerType,
    local_as: u32,
    own: Option<Ipv6Addr>,
    now: Instant,
    before: Map<Nlri<Ipv6Addr>, Route<Ipv6Addr>>,
    after: Map<Nlri<Ipv6Addr>, Route<Ipv6Addr>>,
    n: Nlri<Ipv6Addr>,
    i: int,
)
    requires
        after == table_after(
            before,
            effective_withdrawals_v6(m),
            routes_v6(m, local_as, own, peer_type, now),
        ),
        usable(m, local_as),
        0 <= i < m.attributes.len(),
        reaches_v6(m.attributes[i], n),
        <Ipv6Addr as Family>::acceptable(Some(m.attributes[i]->MpReachNlri_0.next_hop), own),
        forall|j: int|
            i < j < m.attributes.len() ==> !(reaches_v6(#[trigger] m.attributes[j], n)
                && <Ipv6Addr as Family>::acceptable(
                Some(m.attributes[j]->MpReachNlri_0.next_hop),
                own,
            )),
    ensures
        after.contains_key(n),
        after[n].next_hop == Some(m.attributes[i]->MpReachNlri_0.next_hop),
{
    let s = m.attributes;
    let maker = maker_v6(m, own, peer_type, now);
    missing_means_incomplete(m);
    assert forall|j: int| 0 <= j < s.len() implies reached_by::<Ipv6Addr>(#[trigger] s[j]).contains(n)
        == reaches_v6(s[j], n) by {
        listed_v6(s[j], n);
    }
    last_attribute_offers(
        before.remove_keys(effective_withdrawals_v6(m).to_set()),
        Seq::<(Nlri<Ipv6Addr>, Option<NextHop>)>::empty(),
        s,
        maker,
        n,
        i,
    );
    assert(Seq::<(Nlri<Ipv6Addr>, Option<NextHop>)>::empty() + mp_announced::<Ipv6Addr>(s) =~= effective_announcements_v6(m, local_as));
}

/// An UPDATE with announcements is answered with an error just where it lacks an attribute: ORIGIN, else
/// AS_PATH, else NEXT_HOP for prefixes in its announced field; the error names the attribute.
pub proof fn incomplete_update_is_answered(m: UpdateView, r: Option<NotificationMessage>)
    requires
        notification_of(r, missing_attribute(m)),
    ensures
        r is Some <==> incomplete(m),
        r matches Some(x) ==> {
            &&& x.error == NotificationError::UpdateMessage(UpdateMsgError::MissingWellKnownAttribute)
            &&& x.data@.len() == 1
            &&& x.data@[0] == (if !has_origin(m) {
                1u8
            } else if !has_path(m) {
                2u8
            } else {
                3u8
            })
        },
{
    missing_means_incomplete(m);
}

} // verus!
