//! What peers get of decisions and when, put in terms of the decisions, the clock and what waits.
use vstd::prelude::*;

use crate::clock::Instant;
use crate::delivery::{concerns, still_waiting, FlushBatch, FlushStep, FlushView, Pace, Reply};
use crate::message::PeerType;
use crate::net::{IpAddr, Ipv4Addr, Ipv6Addr, Nlri};
use crate::rib::{enumerates, AdjRibOut};
use crate::route::Route;
use crate::state::{DaemonView, PrefixDecision, RibView};

verus! {

/// Whether a prefix may be announced to an external peer: it was not announced before, or thirty seconds
/// or more ago.
pub open spec fn is_due(s: DaemonView, p: IpAddr, n: Nlri<Ipv4Addr>, now: Instant) -> bool {
    let sent = s.mrai_last_sent.contains_key(p) && s.mrai_last_sent[p].contains_key(n);
    sent ==> now.nanos >= s.mrai_last_sent[p][n].nanos + 30_000_000_000
}

/// When a prefix was last announced to a peer, if that is on record.
pub open spec fn last_told(s: DaemonView, p: IpAddr, n: Nlri<Ipv4Addr>) -> Option<Instant> {
    if s.mrai_last_sent.contains_key(p) && s.mrai_last_sent[p].contains_key(n) {
        Some(s.mrai_last_sent[p][n])
    } else {
        None
    }
}

/// What waits to be sent to a peer.
pub open spec fn queue_v4(s: DaemonView, p: IpAddr) -> Seq<PrefixDecision<Ipv4Addr>> {
    if s.pending_decisions.contains_key(p) {
        s.pending_decisions[p]
    } else {
        Seq::empty()
    }
}

/// What waits to be sent to a peer.
pub open spec fn queue_v6(s: DaemonView, p: IpAddr) -> Seq<PrefixDecision<Ipv6Addr>> {
    if s.pending_decisions_v6.contains_key(p) {
        s.pending_decisions_v6[p]
    } else {
        Seq::empty()
    }
}

/// The announcement that is held back for a prefix of a peer, if one is.
pub open spec fn held_back(s: DaemonView, p: IpAddr, n: Nlri<Ipv4Addr>) -> Option<Route<Ipv4Addr>> {
    if s.mrai_pending.contains_key(p) && s.mrai_pending[p].contains_key(n) {
        Some(s.mrai_pending[p][n])
    } else {
        None
    }
}

/// Whether a peer is paced: it is no internal peer.
pub open spec fn is_paced(s: DaemonView, p: IpAddr) -> bool {
    !(s.rib.peer_types.contains_key(p) && s.rib.peer_types[p] == PeerType::Internal)
}

/// What pacing puts in place of each decision.
proof fn paced_one_by_one(p: Pace, ds: Seq<PrefixDecision<Ipv4Addr>>, now: Instant, i: int)
    requires
        0 <= i < ds.len(),
    ensures
        ({
            let r = p.after_all(ds, now);
            let at = r.sent[p.sent.len() + i];
            &&& r.sent.len() == p.sent.len() + ds.len()
            &&& forall|j: int| 0 <= j < p.sent.len() ==> r.sent[j] == #[trigger] p.sent[j]
            &&& !(ds[i] is Announce) ==> at == ds[i]
            &&& at == ds[i] || at is NoChange
            &&& ds[i] matches PrefixDecision::Announce(x) ==> (forall|j: int|
                0 <= j < i ==> !concerns(#[trigger] ds[j], x.nlri)) ==> (at == ds[i]
                <==> crate::delivery::may_announce(p.last_sent, x.nlri, now)) && (at is NoChange
                <==> !crate::delivery::may_announce(p.last_sent, x.nlri, now))
        }),
    decreases ds.len(),
{
    let t = ds.drop_last();
    let l = ds.len() - 1;
    let q = p.after_all(t, now);
    paced_length(p, t, now);
    if i < l {
        paced_one_by_one(p, t, now, i);
        assert(t[i] == ds[i]);
        if let PrefixDecision::Announce(x) = ds[i] {
            if forall|j: int| 0 <= j < i ==> !concerns(#[trigger] ds[j], x.nlri) {
                assert forall|j: int| 0 <= j < i implies !concerns(#[trigger] t[j], x.nlri) by {
                    assert(t[j] == ds[j]);
                }
            }
        }
    } else if let PrefixDecision::Announce(x) = ds[i] {
        if forall|j: int| 0 <= j < i ==> !concerns(#[trigger] ds[j], x.nlri) {
            assert forall|j: int| 0 <= j < t.len() implies !concerns(#[trigger] t[j], x.nlri) by {
                assert(t[j] == ds[j]);
            }
            unconcerned(p, t, now, x.nlri);
        }
    }
}

/// One decision goes out for each, behind what was there.
proof fn paced_length(p: Pace, ds: Seq<PrefixDecision<Ipv4Addr>>, now: Instant)
    ensures
        p.after_all(ds, now).sent.len() == p.sent.len() + ds.len(),
        forall|j: int|
            0 <= j < p.sent.len() ==> p.after_all(ds, now).sent[j] == #[trigger] p.sent[j],
    decreases ds.len(),
{
    if ds.len() > 0 {
        paced_length(p, ds.drop_last(), now);
    }
}

/// A prefix that no decision is about is left alone.
proof fn unconcerned(p: Pace, ds: Seq<PrefixDecision<Ipv4Addr>>, now: Instant, n: Nlri<Ipv4Addr>)
    requires
        forall|j: int| 0 <= j < ds.len() ==> !concerns(#[trigger] ds[j], n),
    ensures
        p.after_all(ds, now).last_sent.contains_key(n) == p.last_sent.contains_key(n),
        p.last_sent.contains_key(n) ==> p.after_all(ds, now).last_sent[n] == p.last_sent[n],
        p.after_all(ds, now).pending.contains_key(n) == p.pending.contains_key(n),
        p.pending.contains_key(n) ==> p.after_all(ds, now).pending[n] == p.pending[n],
    decreases ds.len(),
{
    if ds.len() > 0 {
        let t = ds.drop_last();
        assert forall|j: int| 0 <= j < t.len() implies !concerns(#[trigger] t[j], n) by {
            assert(t[j] == ds[j]);
        }
        unconcerned(p, t, now, n);
        assert(!concerns(ds[ds.len() - 1], n));
    }
}

/// The last decision about a prefix is what is on record of it.
proof fn last_concern(
    p: Pace,
    ds: Seq<PrefixDecision<Ipv4Addr>>,
    now: Instant,
    n: Nlri<Ipv4Addr>,
    i: int,
)
    requires
        0 <= i < ds.len(),
        concerns(ds[i], n),
        forall|j: int| i < j < ds.len() ==> !concerns(#[trigger] ds[j], n),
    ensures
        ({
            let r = p.after_all(ds, now);
            let at = r.sent[p.sent.len() + i];
            &&& ds[i] is Withdraw ==> !r.last_sent.contains_key(n) && !r.pending.contains_key(n)
            &&& ds[i] matches PrefixDecision::Announce(x) ==> {
                &&& at is NoChange ==> r.pending.contains_key(n) && r.pending[n] == x
                &&& !(at is NoChange) ==> !r.pending.contains_key(n) && r.last_sent.contains_key(n)
                    && r.last_sent[n] == now
            }
        }),
    decreases ds.len(),
{
    let t = ds.drop_last();
    let l = ds.len() - 1;
    paced_length(p, t, now);
    if i < l {
        assert(t[i] == ds[i]);
        assert forall|j: int| i < j < t.len() implies !concerns(#[trigger] t[j], n) by {
            assert(t[j] == ds[j]);
        }
        last_concern(p, t, now, n, i);
        paced_one_by_one(p, t, now, i);
        assert(!concerns(ds[l], n));
    }
}

/// Decisions for an internal peer are queued as they are, behind what waits, and no record is kept of
/// when prefixes were announced. Whatever the peer, nothing is touched but what belongs to it: its
/// queue, that record, and the number of prefixes that it is advertised.
pub proof fn internal_peers_are_not_paced(
    before: DaemonView,
    p: IpAddr,
    ds: Seq<PrefixDecision<Ipv4Addr>>,
    advertised: usize,
    now: Instant,
    after: DaemonView,
    q: IpAddr,
)
    requires
        after == before.coalesced_v4(p, ds, advertised, now),
    ensures
        !is_paced(before, p) ==> {
            &&& queue_v4(after, p) == queue_v4(before, p) + ds
            &&& after.mrai_last_sent == before.mrai_last_sent
            &&& after.mrai_pending == before.mrai_pending
        },
        before.adj_ribs_out.contains_key(p) ==> after.adj_ribs_out == before.adj_ribs_out.insert(
            p,
            AdjRibOut { advertised, ..before.adj_ribs_out[p] },
        ),
        !before.adj_ribs_out.contains_key(p) ==> after.adj_ribs_out == before.adj_ribs_out,
        after == (DaemonView {
            adj_ribs_out: after.adj_ribs_out,
            pending_decisions: after.pending_decisions,
            mrai_last_sent: after.mrai_last_sent,
            mrai_pending: after.mrai_pending,
            ..before
        }),
        q != p ==> {
            &&& queue_v4(after, q) == queue_v4(before, q)
            &&& after.mrai_last_sent.contains_key(q) == before.mrai_last_sent.contains_key(q)
            &&& after.mrai_last_sent[q] == before.mrai_last_sent[q]
            &&& after.mrai_pending.contains_key(q) == before.mrai_pending.contains_key(q)
            &&& after.mrai_pending[q] == before.mrai_pending[q]
        },
{
}

/// IPv6 decisions are queued as they are, behind what waits, whatever the peer.
pub proof fn ipv6_decisions_are_queued(
    before: DaemonView,
    p: IpAddr,
    ds: Seq<PrefixDecision<Ipv6Addr>>,
    advertised: usize,
    after: DaemonView,
    q: IpAddr,
)
    requires
        after == before.coalesced_v6(p, ds, advertised),
    ensures
        queue_v6(after, p) == queue_v6(before, p) + ds,
        q != p ==> queue_v6(after, q) == queue_v6(before, q),
        before.adj_ribs_out_v6.contains_key(p) ==> after.adj_ribs_out_v6
            == before.adj_ribs_out_v6.insert(p, AdjRibOut { advertised, ..before.adj_ribs_out_v6[p] }),
        !before.adj_ribs_out_v6.contains_key(p) ==> after.adj_ribs_out_v6 == before.adj_ribs_out_v6,
        after == (DaemonView {
            adj_ribs_out_v6: after.adj_ribs_out_v6,
            pending_decisions_v6: after.pending_decisions_v6,
            ..before
        }),
{
}

/// Each decision for an external peer is queued in its place, behind what waits: a withdrawal in any
/// case, an announcement unless its prefix was announced less than thirty seconds ago. The last decision
/// about a prefix is what is on record of it: after a withdrawal nothing, after an announcement that went
/// out the time, and one that did not is held back.
pub proof fn external_peers_are_paced(
    before: DaemonView,
    p: IpAddr,
    ds: Seq<PrefixDecision<Ipv4Addr>>,
    advertised: usize,
    now: Instant,
    after: DaemonView,
    i: int,
    n: Nlri<Ipv4Addr>,
)
    requires
        after == before.coalesced_v4(p, ds, advertised, now),
        is_paced(before, p),
        0 <= i < ds.len(),
    ensures
        ({
            let old_queue = queue_v4(before, p);
            let at = queue_v4(after, p)[old_queue.len() + i];
            &&& queue_v4(after, p).len() == old_queue.len() + ds.len()
            &&& queue_v4(after, p).take(old_queue.len() as int) == old_queue
            &&& !(ds[i] is Announce) ==> at == ds[i]
            &&& ds[i] matches PrefixDecision::Announce(x) ==> {
                &&& at == ds[i] || at is NoChange
                &&& (forall|j: int| 0 <= j < i ==> !concerns(#[trigger] ds[j], x.nlri)) ==> (at == ds[i]
                    <==> is_due(before, p, x.nlri, now)) && (at is NoChange <==> !is_due(
                    before,
                    p,
                    x.nlri,
                    now,
                ))
            }
            &&& concerns(ds[i], n) && (forall|j: int|
                i < j < ds.len() ==> !concerns(#[trigger] ds[j], n)) ==> {
                &&& ds[i] is Withdraw ==> held_back(after, p, n) is None
                    && !after.mrai_last_sent[p].contains_key(n)
                &&& ds[i] matches PrefixDecision::Announce(x) ==> {
                    &&& at is NoChange ==> held_back(after, p, n) == Some(x)
                    &&& !(at is NoChange) ==> held_back(after, p, n) is None
                        && after.mrai_last_sent[p].contains_key(n) && after.mrai_last_sent[p][n] == now
                }
            }
            &&& (forall|j: int| 0 <= j < ds.len() ==> !concerns(#[trigger] ds[j], n)) ==> {
                &&& held_back(after, p, n) == held_back(before, p, n)
                &&& last_told(after, p, n) == last_told(before, p, n)
            }
        }),
{
    let pace = before.pace_of(p);
    paced_one_by_one(pace, ds, now, i);
    assert(queue_v4(after, p).take(queue_v4(before, p).len() as int) =~= queue_v4(before, p));
    if concerns(ds[i], n) && (forall|j: int| i < j < ds.len() ==> !concerns(#[trigger] ds[j], n)) {
        last_concern(pace, ds, now, n, i);
    }
    if forall|j: int| 0 <= j < ds.len() ==> !concerns(#[trigger] ds[j], n) {
        unconcerned(pace, ds, now, n);
    }
}

/// A peer that is sent IPv4 decisions at once waits for nothing that they are about, is counted with what
/// it is advertised in both families, and is noted where it did not take them.
pub proof fn decisions_sent_at_once_v4(
    before: DaemonView,
    p: IpAddr,
    ds: Seq<PrefixDecision<Ipv4Addr>>,
    advertised: usize,
    ok: bool,
    after: DaemonView,
    n: Nlri<Ipv4Addr>,
    q: IpAddr,
)
    requires
        after == before.told_at_once_v4(p, ds, advertised, ok),
    ensures
        held_back(after, p, n) == (if exists|j: int| 0 <= j < ds.len() && concerns(#[trigger] ds[j], n) {
            None
        } else {
            held_back(before, p, n)
        }),
        q != p ==> held_back(after, q, n) == held_back(before, q, n),
        ok ==> after.stalled_peers == before.stalled_peers,
        !ok ==> after.stalled_peers == before.stalled_peers.push(p),
        before.adj_ribs_out.contains_key(p) ==> after.adj_ribs_out == before.adj_ribs_out.insert(
            p,
            AdjRibOut { advertised, ..before.adj_ribs_out[p] },
        ),
        before.adj_ribs_out.contains_key(p) && before.adj_ribs_out_v6.contains_key(p)
            ==> after.rib.prefixes_advertised == before.rib.prefixes_advertised.insert(
            p,
            (advertised + before.adj_ribs_out_v6[p].advertised) as u128,
        ),
        before.adj_ribs_out.contains_key(p) && !before.adj_ribs_out_v6.contains_key(p)
            ==> after.rib.prefixes_advertised == before.rib.prefixes_advertised.insert(
            p,
            advertised as u128,
        ),
        after == (DaemonView {
            rib: RibView { prefixes_advertised: after.rib.prefixes_advertised, ..before.rib },
            adj_ribs_out: after.adj_ribs_out,
            mrai_pending: after.mrai_pending,
            stalled_peers: after.stalled_peers,
            ..before
        }),
{
    if before.mrai_pending.contains_key(p) {
        waits_for_none(before.mrai_pending[p], ds, n);
    }
}

/// What waits over decisions.
proof fn waits_for_none(
    m: Map<Nlri<Ipv4Addr>, Route<Ipv4Addr>>,
    ds: Seq<PrefixDecision<Ipv4Addr>>,
    n: Nlri<Ipv4Addr>,
)
    ensures
        (exists|j: int| 0 <= j < ds.len() && concerns(#[trigger] ds[j], n)) ==> !still_waiting(
            m,
            ds,
        ).contains_key(n),
        !(exists|j: int| 0 <= j < ds.len() && concerns(#[trigger] ds[j], n)) ==> still_waiting(
            m,
            ds,
        ).contains_key(n) == m.contains_key(n) && still_waiting(m, ds)[n] == m[n],
    decreases ds.len(),
{
    if ds.len() > 0 {
        let t = ds.drop_last();
        let l = ds.len() - 1;
        waits_for_none(m, t, n);
        if exists|j: int| 0 <= j < ds.len() && concerns(#[trigger] ds[j], n) {
            let j = choose|j: int| 0 <= j < ds.len() && concerns(#[trigger] ds[j], n);
            if j < l {
                assert(concerns(t[j], n));
            }
        } else {
            assert(!concerns(ds[l], n));
            if exists|j: int| 0 <= j < t.len() && concerns(#[trigger] t[j], n) {
                let j = choose|j: int| 0 <= j < t.len() && concerns(#[trigger] t[j], n);
                assert(concerns(ds[j], n));
            }
        }
    }
}

/// A peer that is sent IPv6 decisions at once is counted with what it is advertised in both families, and
/// is noted where it did not take them.
pub proof fn decisions_sent_at_once_v6(
    before: DaemonView,
    p: IpAddr,
    advertised: usize,
    ok: bool,
    after: DaemonView,
)
    requires
        after == before.told_at_once_v6(p, advertised, ok),
    ensures
        ok ==> after.stalled_peers == before.stalled_peers,
        !ok ==> after.stalled_peers == before.stalled_peers.push(p),
        before.adj_ribs_out_v6.contains_key(p) ==> after.adj_ribs_out_v6
            == before.adj_ribs_out_v6.insert(p, AdjRibOut { advertised, ..before.adj_ribs_out_v6[p] }),
        before.adj_ribs_out_v6.contains_key(p) && before.adj_ribs_out.contains_key(p)
            ==> after.rib.prefixes_advertised == before.rib.prefixes_advertised.insert(
            p,
            (before.adj_ribs_out[p].advertised + advertised) as u128,
        ),
        before.adj_ribs_out_v6.contains_key(p) && !before.adj_ribs_out.contains_key(p)
            ==> after.rib.prefixes_advertised == before.rib.prefixes_advertised.insert(
            p,
            advertised as u128,
        ),
        after == (DaemonView {
            rib: RibView { prefixes_advertised: after.rib.prefixes_advertised, ..before.rib },
            adj_ribs_out_v6: after.adj_ribs_out_v6,
            stalled_peers: after.stalled_peers,
            ..before
        }),
{
}

/// Whether a peer that does not take something is noted.
pub proof fn peers_that_do_not_take_are_noted(before: DaemonView, p: IpAddr, ok: bool, after: DaemonView)
    requires
        after == before.sent_to(p, ok),
    ensures
        ok ==> after == before,
        !ok ==> after == (DaemonView { stalled_peers: before.stalled_peers.push(p), ..before }),
{
}

/// A peer that no reply is for is left alone.
proof fn no_reply_no_change_v4(
    s: DaemonView,
    replies: Seq<Reply<Ipv4Addr>>,
    now: Instant,
    p: IpAddr,
)
    requires
        forall|j: int| 0 <= j < replies.len() ==> (#[trigger] replies[j]).peer != p,
    ensures
        ({
            let r = s.replied_v4(replies, now);
            &&& queue_v4(r, p) == queue_v4(s, p)
            &&& r.adj_ribs_out.contains_key(p) == s.adj_ribs_out.contains_key(p)
            &&& r.adj_ribs_out[p] == s.adj_ribs_out[p]
            &&& r.mrai_last_sent.contains_key(p) == s.mrai_last_sent.contains_key(p)
            &&& r.mrai_last_sent[p] == s.mrai_last_sent[p]
            &&& r.mrai_pending.contains_key(p) == s.mrai_pending.contains_key(p)
            &&& r.mrai_pending[p] == s.mrai_pending[p]
            &&& r.adj_ribs_out.dom() == s.adj_ribs_out.dom()
            &&& r.rib == s.rib
        }),
    decreases replies.len(),
{
    if replies.len() > 0 {
        let t = replies.drop_last();
        assert forall|j: int| 0 <= j < t.len() implies (#[trigger] t[j]).peer != p by {
            assert(t[j] == replies[j]);
        }
        no_reply_no_change_v4(s, t, now, p);
        assert(replies[replies.len() - 1].peer != p);
        assert(s.replied_v4(replies, now).adj_ribs_out.dom() =~= s.adj_ribs_out.dom());
    }
}

/// Replies leave the rest of the state alone.
proof fn replies_keep_the_rest_v4(
    s: DaemonView,
    replies: Seq<Reply<Ipv4Addr>>, now: Instant,
)
    ensures
        ({
            let after = s.replied_v4(replies, now);
            &&& after == (DaemonView {
            adj_ribs_out: after.adj_ribs_out,
            pending_decisions: after.pending_decisions,
            mrai_last_sent: after.mrai_last_sent,
            mrai_pending: after.mrai_pending,
                ..s
            })
            &&& after.adj_ribs_out.dom() == s.adj_ribs_out.dom()
        }),
    decreases replies.len(),
{
    if replies.len() > 0 {
        replies_keep_the_rest_v4(s, replies.drop_last(), now);
        assert(s.replied_v4(replies, now).adj_ribs_out.dom() =~= s.adj_ribs_out.dom());
    }
}

/// The only reply for a peer counts for it as if it were alone, and a peer that none is for is left alone.
proof fn only_reply_counts_v4(
    s: DaemonView,
    replies: Seq<Reply<Ipv4Addr>>,
    now: Instant,
    i: int,
)
    requires
        0 <= i < replies.len(),
        forall|j: int| 0 <= j < replies.len() && j != i ==> (#[trigger] replies[j]).peer != replies[i].peer,
    ensures
        ({
            let p = replies[i].peer;
            let r = s.replied_v4(replies, now);
            let one = s.coalesced_v4(p, replies[i].decisions@, replies[i].advertised, now);
            &&& queue_v4(r, p) == queue_v4(one, p)
            &&& r.adj_ribs_out.contains_key(p) == one.adj_ribs_out.contains_key(p)
            &&& r.adj_ribs_out[p] == one.adj_ribs_out[p]
            &&& r.mrai_last_sent.contains_key(p) == one.mrai_last_sent.contains_key(p)
            &&& r.mrai_last_sent[p] == one.mrai_last_sent[p]
            &&& r.mrai_pending.contains_key(p) == one.mrai_pending.contains_key(p)
            &&& r.mrai_pending[p] == one.mrai_pending[p]
        }),
    decreases replies.len(),
{
    let t = replies.drop_last();
    let p = replies[i].peer;
    replies_keep_the_rest_v4(s, t, now);
    if i < replies.len() - 1 {
        assert(t[i] == replies[i]);
        assert forall|j: int| 0 <= j < t.len() && j != i implies (#[trigger] t[j]).peer != t[i].peer by {
            assert(t[j] == replies[j]);
        }
        only_reply_counts_v4(s, t, now, i);
        assert(replies[replies.len() - 1].peer != p);
    } else {
        assert forall|j: int| 0 <= j < t.len() implies (#[trigger] t[j]).peer != p by {
            assert(t[j] == replies[j]);
        }
        no_reply_no_change_v4(s, t, now, p);
    }
}

/// Where each peer has at most one reply on IPv4 prefixes, its decisions are queued and its number of
/// advertised prefixes is noted as if the reply had come alone; the count of every peer with a table
/// is then the sum over both families.
pub proof fn replies_are_taken_v4(
    before: DaemonView,
    replies: Seq<Reply<Ipv4Addr>>,
    now: Instant,
    after: DaemonView,
    i: int,
    p: IpAddr,
)
    requires
        after == before.taking_v4(replies, now),
    ensures
        0 <= i < replies.len() && replies[i].peer == p && (forall|j: int|
            0 <= j < replies.len() && j != i ==> (#[trigger] replies[j]).peer != p) ==> {
            let one = before.coalesced_v4(p, replies[i].decisions@, replies[i].advertised, now);
            &&& queue_v4(after, p) == queue_v4(one, p)
            &&& after.adj_ribs_out.contains_key(p) == one.adj_ribs_out.contains_key(p)
            &&& after.adj_ribs_out[p] == one.adj_ribs_out[p]
            &&& after.mrai_last_sent.contains_key(p) == one.mrai_last_sent.contains_key(p)
            &&& after.mrai_last_sent[p] == one.mrai_last_sent[p]
            &&& after.mrai_pending.contains_key(p) == one.mrai_pending.contains_key(p)
            &&& after.mrai_pending[p] == one.mrai_pending[p]
            &&& before.adj_ribs_out.contains_key(p) ==> after.adj_ribs_out[p].advertised
                == replies[i].advertised
        },
        (forall|j: int| 0 <= j < replies.len() ==> (#[trigger] replies[j]).peer != p) ==> {
            &&& queue_v4(after, p) == queue_v4(before, p)
            &&& after.adj_ribs_out.contains_key(p) == before.adj_ribs_out.contains_key(p)
            &&& after.adj_ribs_out[p] == before.adj_ribs_out[p]
            &&& after.mrai_last_sent.contains_key(p) == before.mrai_last_sent.contains_key(p)
            &&& after.mrai_last_sent[p] == before.mrai_last_sent[p]
            &&& after.mrai_pending.contains_key(p) == before.mrai_pending.contains_key(p)
            &&& after.mrai_pending[p] == before.mrai_pending[p]
        },
        before.adj_ribs_out.contains_key(p) && before.adj_ribs_out_v6.contains_key(p) ==> {
            &&& after.rib.prefixes_advertised.contains_key(p)
            &&& after.rib.prefixes_advertised[p] == (after.adj_ribs_out[p].advertised
                + after.adj_ribs_out_v6[p].advertised) as u128
        },
        !before.adj_ribs_out.contains_key(p) ==> after.rib.prefixes_advertised.contains_key(p)
            == before.rib.prefixes_advertised.contains_key(p) && (
        before.rib.prefixes_advertised.contains_key(p) ==> after.rib.prefixes_advertised[p]
            == before.rib.prefixes_advertised[p]),
        after == (DaemonView {
            rib: RibView { prefixes_advertised: after.rib.prefixes_advertised, ..before.rib },
            adj_ribs_out: after.adj_ribs_out,
            pending_decisions: after.pending_decisions,
            mrai_last_sent: after.mrai_last_sent,
            mrai_pending: after.mrai_pending,
            ..before
        }),
{
    replies_keep_the_rest_v4(before, replies, now);
    let s = before.replied_v4(replies, now);
    assert(s.adj_ribs_out.dom().contains(p) == before.adj_ribs_out.contains_key(p));
    if 0 <= i < replies.len() && replies[i].peer == p && (forall|j: int|
        0 <= j < replies.len() && j != i ==> (#[trigger] replies[j]).peer != p) {
        only_reply_counts_v4(before, replies, now, i);
    }
    if forall|j: int| 0 <= j < replies.len() ==> (#[trigger] replies[j]).peer != p {
        no_reply_no_change_v4(before, replies, now, p);
    }
}

/// A peer that no reply is for is left alone.
proof fn no_reply_no_change_v6(
    s: DaemonView,
    replies: Seq<Reply<Ipv6Addr>>,
    p: IpAddr,
)
    requires
        forall|j: int| 0 <= j < replies.len() ==> (#[trigger] replies[j]).peer != p,
    ensures
        ({
            let r = s.replied_v6(replies);
            &&& queue_v6(r, p) == queue_v6(s, p)
            &&& r.adj_ribs_out_v6.contains_key(p) == s.adj_ribs_out_v6.contains_key(p)
            &&& r.adj_ribs_out_v6[p] == s.adj_ribs_out_v6[p]
            &&& r.adj_ribs_out_v6.dom() == s.adj_ribs_out_v6.dom()
            &&& r.rib == s.rib
        }),
    decreases replies.len(),
{
    if replies.len() > 0 {
        let t = replies.drop_last();
        assert forall|j: int| 0 <= j < t.len() implies (#[trigger] t[j]).peer != p by {
            assert(t[j] == replies[j]);
        }
        no_reply_no_change_v6(s, t, p);
        assert(replies[replies.len() - 1].peer != p);
        assert(s.replied_v6(replies).adj_ribs_out_v6.dom() =~= s.adj_ribs_out_v6.dom());
    }
}

/// Replies leave the rest of the state alone.
proof fn replies_keep_the_rest_v6(
    s: DaemonView,
    replies: Seq<Reply<Ipv6Addr>>,
)
    ensures
        ({
            let after = s.replied_v6(replies);
            &&& after == (DaemonView {
            adj_ribs_out_v6: after.adj_ribs_out_v6,
            pending_decisions_v6: after.pending_decisions_v6,
                ..s
            })
            &&& after.adj_ribs_out_v6.dom() == s.adj_ribs_out_v6.dom()
        }),
    decreases replies.len(),
{
    if replies.len() > 0 {
        replies_keep_the_rest_v6(s, replies.drop_last());
        assert(s.replied_v6(replies).adj_ribs_out_v6.dom() =~= s.adj_ribs_out_v6.dom());
    }
}

/// The only reply for a peer counts for it as if it were alone, and a peer that none is for is left alone.
proof fn only_reply_counts_v6(
    s: DaemonView,
    replies: Seq<Reply<Ipv6Addr>>,
    i: int,
)
    requires
        0 <= i < replies.len(),
        forall|j: int| 0 <= j < replies.len() && j != i ==> (#[trigger] replies[j]).peer != replies[i].peer,
    ensures
        ({
            let p = replies[i].peer;
            let r = s.replied_v6(replies);
            let one = s.coalesced_v6(p, replies[i].decisions@, replies[i].advertised);
            &&& queue_v6(r, p) == queue_v6(one, p)
            &&& r.adj_ribs_out_v6.contains_key(p) == one.adj_ribs_out_v6.contains_key(p)
            &&& r.adj_ribs_out_v6[p] == one.adj_ribs_out_v6[p]
        }),
    decreases replies.len(),
{
    let t = replies.drop_last();
    let p = replies[i].peer;
    replies_keep_the_rest_v6(s, t);
    if i < replies.len() - 1 {
        assert(t[i] == replies[i]);
        assert forall|j: int| 0 <= j < t.len() && j != i implies (#[trigger] t[j]).peer != t[i].peer by {
            assert(t[j] == replies[j]);
        }
        only_reply_counts_v6(s, t, i);
        assert(replies[replies.len() - 1].peer != p);
    } else {
        assert forall|j: int| 0 <= j < t.len() implies (#[trigger] t[j]).peer != p by {
            assert(t[j] == replies[j]);
        }
        no_reply_no_change_v6(s, t, p);
    }
}

/// Where each peer has at most one reply on IPv6 prefixes, its decisions are queued and its number of
/// advertised prefixes is noted as if the reply had come alone; the count of every peer with a table
/// is then the sum over both families.
pub proof fn replies_are_taken_v6(
    before: DaemonView,
    replies: Seq<Reply<Ipv6Addr>>,
    after: DaemonView,
    i: int,
    p: IpAddr,
)
    requires
        after == before.taking_v6(replies),
    ensures
        0 <= i < replies.len() && replies[i].peer == p && (forall|j: int|
            0 <= j < replies.len() && j != i ==> (#[trigger] replies[j]).peer != p) ==> {
            let one = before.coalesced_v6(p, replies[i].decisions@, replies[i].advertised);
            &&& queue_v6(after, p) == queue_v6(one, p)
            &&& after.adj_ribs_out_v6.contains_key(p) == one.adj_ribs_out_v6.contains_key(p)
            &&& after.adj_ribs_out_v6[p] == one.adj_ribs_out_v6[p]
            &&& before.adj_ribs_out_v6.contains_key(p) ==> after.adj_ribs_out_v6[p].advertised
                == replies[i].advertised
        },
        (forall|j: int| 0 <= j < replies.len() ==> (#[trigger] replies[j]).peer != p) ==> {
            &&& queue_v6(after, p) == queue_v6(before, p)
            &&& after.adj_ribs_out_v6.contains_key(p) == before.adj_ribs_out_v6.contains_key(p)
            &&& after.adj_ribs_out_v6[p] == before.adj_ribs_out_v6[p]
        },
        before.adj_ribs_out.contains_key(p) && before.adj_ribs_out_v6.contains_key(p) ==> {
            &&& after.rib.prefixes_advertised.contains_key(p)
            &&& after.rib.prefixes_advertised[p] == (after.adj_ribs_out[p].advertised
                + after.adj_ribs_out_v6[p].advertised) as u128
        },
        !before.adj_ribs_out_v6.contains_key(p) ==> after.rib.prefixes_advertised.contains_key(p)
            == before.rib.prefixes_advertised.contains_key(p) && (
        before.rib.prefixes_advertised.contains_key(p) ==> after.rib.prefixes_advertised[p]
            == before.rib.prefixes_advertised[p]),
        after == (DaemonView {
            rib: RibView { prefixes_advertised: after.rib.prefixes_advertised, ..before.rib },
            adj_ribs_out_v6: after.adj_ribs_out_v6,
            pending_decisions_v6: after.pending_decisions_v6,
            ..before
        }),
{
    replies_keep_the_rest_v6(before, replies);
    let s = before.replied_v6(replies);
    assert(s.adj_ribs_out_v6.dom().contains(p) == before.adj_ribs_out_v6.contains_key(p));
    if 0 <= i < replies.len() && replies[i].peer == p && (forall|j: int|
        0 <= j < replies.len() && j != i ==> (#[trigger] replies[j]).peer != p) {
        only_reply_counts_v6(before, replies, i);
    }
    if forall|j: int| 0 <= j < replies.len() ==> (#[trigger] replies[j]).peer != p {
        no_reply_no_change_v6(before, replies, p);
    }
}

/// What goes out when the queues are emptied: all that waits for a peer that can be sent to, in order, in
/// the form that its session takes; and nothing waits afterwards.
pub proof fn queues_are_emptied(before: DaemonView, after: DaemonView, out: Map<IpAddr, FlushView>, p: IpAddr)
    requires
        out == before.flushes(),
        after == before.flushed(),
    ensures
        out.contains_key(p) <==> before.update_senders.contains(p) && (queue_v4(before, p).len() > 0
            || queue_v6(before, p).len() > 0),
        out.contains_key(p) ==> {
            &&& out[p].v4 == queue_v4(before, p)
            &&& out[p].v6 == queue_v6(before, p)
            &&& before.rib.peer_types.contains_key(p) ==> out[p].frame.peer_type
                == before.rib.peer_types[p]
            &&& before.negotiated_max_len.contains_key(p) ==> out[p].frame.max_len
                == before.negotiated_max_len[p]
            &&& out[p].frame.four_byte == before.four_byte_peers.contains(p)
        },
        queue_v4(after, p).len() == 0,
        queue_v6(after, p).len() == 0,
        after == (DaemonView {
            pending_decisions: after.pending_decisions,
            pending_decisions_v6: after.pending_decisions_v6,
            ..before
        }),
{
}

/// A batch is sent in at most two parts, IPv4 before IPv6, and a part without decisions is left out. Where
/// the peer does not take a part, it is noted and nothing more is sent.
pub proof fn batches_go_in_order(b: FlushView, ok: bool)
    ensures
        b.v4.len() > 0 ==> FlushBatch::opening(b) == FlushStep::SendV4,
        b.v4.len() == 0 && b.v6.len() > 0 ==> FlushBatch::opening(b) == FlushStep::SendV6,
        b.v4.len() == 0 && b.v6.len() == 0 ==> FlushBatch::opening(b) == (FlushStep::Done {
            stalled: false,
        }),
        b.v6.len() > 0 ==> FlushBatch::following(b, FlushStep::SendV4, true) == FlushStep::SendV6,
        b.v6.len() == 0 ==> FlushBatch::following(b, FlushStep::SendV4, true) == (FlushStep::Done {
            stalled: false,
        }),
        FlushBatch::following(b, FlushStep::SendV4, false) == (FlushStep::Done { stalled: true }),
        FlushBatch::following(b, FlushStep::SendV6, ok) == (FlushStep::Done { stalled: !ok }),
        FlushBatch::following(b, FlushStep::Done { stalled: true }, ok) == (FlushStep::Done {
            stalled: true,
        }),
        FlushBatch::following(b, FlushStep::Done { stalled: false }, ok) == (FlushStep::Done {
            stalled: false,
        }),
{
}

/// Announcements that were held back go out once they are due: all of a peer that are due wait no longer,
/// and where the peer has a session and tables they are queued in the order in which they are reported,
/// and thirty seconds begin for their prefixes anew.
pub proof fn due_announcements_go_out(
    before: DaemonView,
    p: IpAddr,
    now: Instant,
    order: Seq<Nlri<Ipv4Addr>>,
    after: DaemonView,
    n: Nlri<Ipv4Addr>,
    i: int,
)
    requires
        enumerates(order, before.ripe(p, now)),
        after == before.let_go(p, now, order),
    ensures
        order.no_duplicates(),
        order.contains(n) <==> held_back(before, p, n) is Some && is_due(before, p, n, now),
        held_back(after, p, n) == (if order.contains(n) {
            None
        } else {
            held_back(before, p, n)
        }),
        ({
            let told = before.rib.peer_types.contains_key(p) && before.export_policies.contains_key(p)
                && before.adj_ribs_out.contains_key(p);
            &&& told ==> {
                &&& queue_v4(after, p).len() == queue_v4(before, p).len() + order.len()
                &&& queue_v4(after, p).take(queue_v4(before, p).len() as int) == queue_v4(before, p)
                &&& 0 <= i < order.len() ==> queue_v4(after, p)[queue_v4(before, p).len() + i]
                    == PrefixDecision::Announce(held_back(before, p, order[i])->0)
                &&& order.contains(n) ==> after.mrai_last_sent.contains_key(p)
                    && after.mrai_last_sent[p].contains_key(n) && after.mrai_last_sent[p][n] == now
                &&& !order.contains(n) ==> last_told(after, p, n) == last_told(before, p, n)
            }
            &&& !told ==> after.pending_decisions == before.pending_decisions && after.mrai_last_sent
                == before.mrai_last_sent
        }),
        after == (DaemonView {
            pending_decisions: after.pending_decisions,
            mrai_last_sent: after.mrai_last_sent,
            mrai_pending: after.mrai_pending,
            ..before
        }),
{
    assert(order.to_set().contains(n) == order.contains(n));
    assert(queue_v4(after, p).take(queue_v4(before, p).len() as int) =~= queue_v4(before, p));
    if 0 <= i < order.len() {
        assert(order.to_set().contains(order[i]));
    }
}

/// A peer is waited for just where some announcement to it is held back.
pub proof fn waiting_peers_have_something_held_back(s: DaemonView, p: IpAddr)
    ensures
        s.keeps_waiting(p) <==> exists|n: Nlri<Ipv4Addr>| #[trigger] held_back(s, p, n) is Some,
{
    let m = s.mrai_pending[p];
    if exists|n: Nlri<Ipv4Addr>| #[trigger] held_back(s, p, n) is Some {
        let n = choose|n: Nlri<Ipv4Addr>| #[trigger] held_back(s, p, n) is Some;
        assert(m.contains_key(n));
        assert(m != Map::<Nlri<Ipv4Addr>, Route<Ipv4Addr>>::empty());
    }
    if s.keeps_waiting(p) && !(exists|n: Nlri<Ipv4Addr>| #[trigger] held_back(s, p, n) is Some) {
        assert forall|n: Nlri<Ipv4Addr>| !m.contains_key(n) by {
            assert(!(held_back(s, p, n) is Some));
        }
        assert(m =~= Map::<Nlri<Ipv4Addr>, Route<Ipv4Addr>>::empty());
    }
}

} // verus!
