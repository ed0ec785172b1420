//! What the kernel is asked, and what its answers mean, put in terms of prefixes and next hops.
use vstd::prelude::*;

use crate::fib::{
    batch_of, metric, reachable, removal_calls, FibCall, FibView, KernelCall, Lookup, Pending,
};
use crate::net::{Ipv4Addr, Ipv6Addr, NextHop, Nlri};

verus! {

/// A next hop with one address is as reachable, and as far, as that address. One with two is reachable
/// where its global address is set and reachable, or where its link-local one is; it is as far as the
/// global one where that is set and known, else as far as the link-local one.
pub proof fn answers_count_for_next_hops(
    v4: Ipv4Addr,
    v6: Ipv6Addr,
    link_local: Ipv6Addr,
    found: Lookup<bool>,
    far: Lookup<Option<u32>>,
)
    ensures
        reachable(NextHop::V4(v4), found) <==> found.address,
        reachable(NextHop::V6(v6), found) <==> found.address,
        found.address && v6.bits != 0 ==> reachable(
            NextHop::V6WithLinkLocal { global: v6, link_local },
            found,
        ),
        found.link_local ==> reachable(NextHop::V6WithLinkLocal { global: v6, link_local }, found),
        !found.link_local && (v6.bits == 0 || !found.address) ==> !reachable(
            NextHop::V6WithLinkLocal { global: v6, link_local },
            found,
        ),
        metric(NextHop::V4(v4), far) == far.address,
        metric(NextHop::V6(v6), far) == far.address,
        v6.bits != 0 && far.address is Some ==> metric(
            NextHop::V6WithLinkLocal { global: v6, link_local },
            far,
        ) == far.address,
        v6.bits == 0 || far.address is None ==> metric(
            NextHop::V6WithLinkLocal { global: v6, link_local },
            far,
        ) == far.link_local,
{
}

/// A batch for the kernel has one call for each prefix that waits, with its address, its length and the
/// state that waits for it, and no other call; IPv4 prefixes come first.
pub proof fn batch_has_all_that_waits(
    calls: Seq<FibCall>,
    waiting: FibView,
    o4: Seq<Nlri<Ipv4Addr>>,
    o6: Seq<Nlri<Ipv6Addr>>,
    n: Nlri<Ipv4Addr>,
    k: Nlri<Ipv6Addr>,
    i: int,
)
    requires
        batch_of(calls, waiting, o4, o6),
    ensures
        waiting.v4.contains_key(n) ==> calls.contains(
            FibCall::V4(KernelCall { dst: n.addr, prefix_len: n.len, op: waiting.v4[n] }),
        ),
        waiting.v6.contains_key(k) ==> calls.contains(
            FibCall::V6(KernelCall { dst: k.addr, prefix_len: k.len, op: waiting.v6[k] }),
        ),
        calls.len() == waiting.v4.dom().len() + waiting.v6.dom().len(),
        0 <= i < calls.len() ==> match calls[i] {
            FibCall::V4(c) => i < waiting.v4.dom().len() && exists|x: Nlri<Ipv4Addr>| #[trigger]
                waiting.v4.contains_key(x) && x.addr == c.dst && x.len == c.prefix_len && waiting.v4[x]
                    == c.op,
            FibCall::V6(c) => i >= waiting.v4.dom().len() && exists|x: Nlri<Ipv6Addr>| #[trigger]
                waiting.v6.contains_key(x) && x.addr == c.dst && x.len == c.prefix_len && waiting.v6[x]
                    == c.op,
        },
{
    o4.unique_seq_to_set();
    o6.unique_seq_to_set();
    if waiting.v4.contains_key(n) {
        assert(o4.to_set().contains(n));
        let j = o4.index_of(n);
        assert(calls[j] == crate::fib::call_v4(n, waiting.v4[n]));
    }
    if waiting.v6.contains_key(k) {
        assert(o6.to_set().contains(k));
        let j = o6.index_of(k);
        assert(calls[o4.len() + j] == crate::fib::call_v6(k, waiting.v6[k]));
    }
    if 0 <= i < calls.len() {
        if i < o4.len() {
            let x = o4[i];
            assert(o4.to_set().contains(x));
            assert(waiting.v4.contains_key(x));
            assert(calls[i] == crate::fib::call_v4(x, waiting.v4[x]));
        } else {
            let x = o6[i - o4.len()];
            assert(o6.to_set().contains(x));
            assert(waiting.v6.contains_key(x));
            assert(calls[i] == crate::fib::call_v6(x, waiting.v6[x]));
        }
    }
}

/// Prefixes that are left over are each removed once, in order, IPv4 before IPv6.
pub proof fn leftovers_are_removed(v4: Seq<Nlri<Ipv4Addr>>, v6: Seq<Nlri<Ipv6Addr>>, i: int)
    ensures
        ({
            let r = removal_calls(v4, v6);
            &&& r.len() == v4.len() + v6.len()
            &&& 0 <= i < v4.len() ==> r[i] == FibCall::V4(
                KernelCall { dst: v4[i].addr, prefix_len: v4[i].len, op: Pending::Withdraw },
            )
            &&& 0 <= i < v6.len() ==> r[v4.len() + i] == FibCall::V6(
                KernelCall { dst: v6[i].addr, prefix_len: v6[i].len, op: Pending::Withdraw },
            )
        }),
{
}

} // verus!
