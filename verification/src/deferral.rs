//! Deferral of advertisements after a restart.
use vstd::prelude::*;

use crate::clock::Instant;
use crate::message::PeerType;
use crate::net::IpAddr;
use crate::table::{KeySet, Table};

verus! {

/// Whether advertisements of each family are still held back after a restart.
///
/// Only advertisements wait; the choice of routes does not. A family is released for good, either
/// when no configured peer blocks it any more, or when the timer expires.
#[derive(Clone, Copy, Debug, PartialEq, Eq, Structural)]
pub struct SelectionDeferral {
    /// When the timer expires; `None` where nothing was ever held back.
    pub deadline: Option<Instant>,
    pub v4_released: bool,
    pub v6_released: bool,
}

impl View for SelectionDeferral {
    type V = SelectionDeferral;

    open spec fn view(&self) -> SelectionDeferral {
        *self
    }
}

/// What is known of the peers when the gates are looked at.
pub ghost struct Evidence {
    /// Peers with a session.
    pub established: Set<IpAddr>,
    /// Peers that take part in graceful restart.
    pub gr_capable: Set<IpAddr>,
    /// Peers that are restarting themselves.
    pub restarting: Set<IpAddr>,
    /// Peers that take IPv6 routes.
    pub ipv6_capable: Set<IpAddr>,
    /// Peers whose initial IPv4 table is complete.
    pub eor: Set<IpAddr>,
    /// Peers whose initial IPv6 table is complete.
    pub eor_v6: Set<IpAddr>,
}

/// Whether a configured peer blocks the release of a family: it has no session yet; or it takes
/// part in graceful restart and in the family, is not restarting itself, and its initial table is
/// not complete.
pub open spec fn blocks(peer: IpAddr, is_v6: bool, e: Evidence) -> bool {
    if !e.established.contains(peer) {
        true
    } else {
        &&& is_v6 ==> e.ipv6_capable.contains(peer)
        &&& e.gr_capable.contains(peer)
        &&& !e.restarting.contains(peer)
        &&& !(if is_v6 {
            e.eor_v6
        } else {
            e.eor
        }).contains(peer)
    }
}

/// Whether no configured peer blocks the release of a family.
pub open spec fn clear(configured: Set<IpAddr>, is_v6: bool, e: Evidence) -> bool {
    forall|p: IpAddr| #[trigger] configured.contains(p) ==> !blocks(p, is_v6, e)
}

/// The evidence in the tables of the daemon.
pub open spec fn evidence(
    peer_types: Map<IpAddr, PeerType>,
    gr_capable_peers: Map<IpAddr, u16>,
    gr_peer_restarting: Set<IpAddr>,
    ipv6_capable_peers: Set<IpAddr>,
    eor_received: Set<IpAddr>,
    eor_received_v6: Set<IpAddr>,
) -> Evidence {
    Evidence {
        established: peer_types.dom(),
        gr_capable: gr_capable_peers.dom(),
        restarting: gr_peer_restarting,
        ipv6_capable: ipv6_capable_peers,
        eor: eor_received,
        eor_v6: eor_received_v6,
    }
}

/// Whether a configured peer blocks the release of a family.
pub fn family_blocks(
    peer_ip: IpAddr,
    is_v6: bool,
    peer_types: &Table<IpAddr, PeerType>,
    gr_capable_peers: &Table<IpAddr, u16>,
    gr_peer_restarting: &KeySet<IpAddr>,
    ipv6_capable_peers: &KeySet<IpAddr>,
    eor_received: &KeySet<IpAddr>,
    eor_received_v6: &KeySet<IpAddr>,
) -> (r: bool)
    ensures
        r == blocks(
            peer_ip,
            is_v6,
            evidence(
                peer_types@,
                gr_capable_peers@,
                gr_peer_restarting@,
                ipv6_capable_peers@,
                eor_received@,
                eor_received_v6@,
            ),
        ),
{
    if !peer_types.contains_key(&peer_ip) {
        return true;
    }
    if is_v6 && !ipv6_capable_peers.contains(&peer_ip) {
        return false;
    }
    if !gr_capable_peers.contains_key(&peer_ip) {
        return false;
    }
    if gr_peer_restarting.contains(&peer_ip) {
        return false;
    }
    if is_v6 {
        !eor_received_v6.contains(&peer_ip)
    } else {
        !eor_received.contains(&peer_ip)
    }
}

impl SelectionDeferral {
    /// Both gates open, and no timer.
    pub open spec fn spec_disabled() -> Self {
        SelectionDeferral { deadline: None, v4_released: true, v6_released: true }
    }

    /// The gates once those have opened that no configured peer blocks.
    pub open spec fn recomputed(self, configured: Set<IpAddr>, e: Evidence) -> Self {
        SelectionDeferral {
            deadline: self.deadline,
            v4_released: self.v4_released || clear(configured, false, e),
            v6_released: self.v6_released || clear(configured, true, e),
        }
    }

    /// The gates once the timer has expired.
    pub open spec fn released(self) -> Self {
        SelectionDeferral { deadline: self.deadline, v4_released: true, v6_released: true }
    }

    /// Both gates closed until some seconds after the start; open, where there are none.
    pub open spec fn spec_new(daemon_start: Instant, deferral_secs: u16) -> Self {
        if deferral_secs == 0 {
            Self::spec_disabled()
        } else {
            SelectionDeferral {
                deadline: Some(daemon_start.after(deferral_secs)),
                v4_released: false,
                v6_released: false,
            }
        }
    }

    /// When to look again.
    pub open spec fn waits_until(self) -> Option<Instant> {
        if self.v4_released && self.v6_released {
            None
        } else {
            self.deadline
        }
    }

    /// Both gates closed until `deferral_secs` seconds after the start; open, where that is 0.
    pub fn new(daemon_start: Instant, deferral_secs: u16) -> (r: Self)
        requires
            daemon_start.has_room(deferral_secs),
        ensures
            r == Self::spec_new(daemon_start, deferral_secs),
            deferral_secs == 0 ==> r == Self::spec_disabled(),
            deferral_secs > 0 ==> r == (SelectionDeferral {
                deadline: Some(daemon_start.after(deferral_secs)),
                v4_released: false,
                v6_released: false,
            }),
    {
        if deferral_secs == 0 {
            return Self::disabled();
        }
        SelectionDeferral {
            deadline: Some(daemon_start.after(deferral_secs)),
            v4_released: false,
            v6_released: false,
        }
    }

    /// Both gates open, and no timer.
    pub fn disabled() -> (r: Self)
        ensures
            r == Self::spec_disabled(),
    {
        SelectionDeferral { deadline: None, v4_released: true, v6_released: true }
    }

    /// When to look again: the timer, while a gate is closed.
    pub fn pending_deadline(&self) -> (r: Option<Instant>)
        ensures
            r == self.waits_until(),
            r == (if self.v4_released && self.v6_released {
                None
            } else {
                self.deadline
            }),
    {
        if self.v4_released && self.v6_released {
            None
        } else {
            self.deadline
        }
    }

    /// Opens the gates that no configured peer blocks any more, and says which of the two opened
    /// just now.
    pub fn recompute(
        &mut self,
        configured_peers: &Vec<IpAddr>,
        peer_types: &Table<IpAddr, PeerType>,
        gr_capable_peers: &Table<IpAddr, u16>,
        gr_peer_restarting: &KeySet<IpAddr>,
        ipv6_capable_peers: &KeySet<IpAddr>,
        eor_received: &KeySet<IpAddr>,
        eor_received_v6: &KeySet<IpAddr>,
    ) -> (r: (bool, bool))
        ensures
            *final(self) == old(self).recomputed(
                configured_peers@.to_set(),
                evidence(
                    peer_types@,
                    gr_capable_peers@,
                    gr_peer_restarting@,
                    ipv6_capable_peers@,
                    eor_received@,
                    eor_received_v6@,
                ),
            ),
            r.0 == (final(self).v4_released && !old(self).v4_released),
            r.1 == (final(self).v6_released && !old(self).v6_released),
    {
        if self.v4_released && self.v6_released {
            return (false, false);
        }
        let ghost e = evidence(
            peer_types@,
            gr_capable_peers@,
            gr_peer_restarting@,
            ipv6_capable_peers@,
            eor_received@,
            eor_received_v6@,
        );
        let mut v4_blocked = false;
        let mut v6_blocked = false;
        let mut i: usize = 0;
        while i < configured_peers.len()
            invariant
                0 <= i <= configured_peers.len(),
                e == evidence(
                    peer_types@,
                    gr_capable_peers@,
                    gr_peer_restarting@,
                    ipv6_capable_peers@,
                    eor_received@,
                    eor_received_v6@,
                ),
                v4_blocked == exists|j: int|
                    0 <= j < i && blocks(#[trigger] configured_peers@[j], false, e),
                v6_blocked == exists|j: int|
                    0 <= j < i && blocks(#[trigger] configured_peers@[j], true, e),
            decreases configured_peers.len() - i,
        {
            let p = configured_peers[i];
            if family_blocks(
                p,
                false,
                peer_types,
                gr_capable_peers,
                gr_peer_restarting,
                ipv6_capable_peers,
                eor_received,
                eor_received_v6,
            ) {
                v4_blocked = true;
            }
            if family_blocks(
                p,
                true,
                peer_types,
                gr_capable_peers,
                gr_peer_restarting,
                ipv6_capable_peers,
                eor_received,
                eor_received_v6,
            ) {
                v6_blocked = true;
            }
            proof {
                assert(blocks(configured_peers@[i as int], false, e) == blocks(p, false, e));
                assert(blocks(configured_peers@[i as int], true, e) == blocks(p, true, e));
            }
            i = i + 1;
        }
        proof {
            let all = configured_peers@.to_set();
            assert forall|is_v6: bool|
                #[trigger] clear(all, is_v6, e) <==> !exists|j: int|
                    0 <= j < configured_peers@.len() && blocks(
                        #[trigger] configured_peers@[j],
                        is_v6,
                        e,
                    ) by {
                if clear(all, is_v6, e) {
                    assert forall|j: int| 0 <= j < configured_peers@.len() implies !blocks(
                        #[trigger] configured_peers@[j],
                        is_v6,
                        e,
                    ) by {
                        assert(all.contains(configured_peers@[j]));
                    }
                } else {
                    let p = choose|p: IpAddr| #[trigger] all.contains(p) && blocks(p, is_v6, e);
                    let j = configured_peers@.index_of(p);
                    assert(configured_peers@.contains(p));
                    assert(blocks(configured_peers@[j], is_v6, e));
                }
            }
            assert(clear(all, false, e) == !v4_blocked);
            assert(clear(all, true, e) == !v6_blocked);
        }
        let v4_transitioned = !self.v4_released && !v4_blocked;
        let v6_transitioned = !self.v6_released && !v6_blocked;
        if v4_transitioned {
            self.v4_released = true;
        }
        if v6_transitioned {
            self.v6_released = true;
        }
        (v4_transitioned, v6_transitioned)
    }

    /// Opens both gates, and says which of the two opened just now.
    pub fn force_release(&mut self) -> (r: (bool, bool))
        ensures
            *final(self) == old(self).released(),
            r == (!old(self).v4_released, !old(self).v6_released),
    {
        let v4_transitioned = !self.v4_released;
        let v6_transitioned = !self.v6_released;
        self.v4_released = true;
        self.v6_released = true;
        (v4_transitioned, v6_transitioned)
    }

    /// Whether IPv4 advertisements are held back.
    pub fn v4_deferred(&self) -> (r: bool)
        ensures
            r == !self.v4_released,
    {
        !self.v4_released
    }

    /// Whether IPv6 advertisements are held back.
    pub fn v6_deferred(&self) -> (r: bool)
        ensures
            r == !self.v6_released,
    {
        !self.v6_released
    }
}

/// A released family stays released, whatever becomes of the peers, and looking again without news
/// changes nothing.
pub proof fn release_is_for_good(
    d: SelectionDeferral,
    configured: Set<IpAddr>,
    e: Evidence,
    later_configured: Set<IpAddr>,
    later: Evidence,
)
    ensures
        d.v4_released ==> d.recomputed(configured, e).v4_released,
        d.v6_released ==> d.recomputed(configured, e).v6_released,
        d.recomputed(configured, e).v4_released ==> d.recomputed(configured, e).recomputed(
            later_configured,
            later,
        ).v4_released,
        d.recomputed(configured, e).v6_released ==> d.recomputed(configured, e).recomputed(
            later_configured,
            later,
        ).v6_released,
        d.recomputed(configured, e).recomputed(configured, e) == d.recomputed(configured, e),
        d.released().recomputed(configured, e) == d.released(),
        d.recomputed(configured, e).deadline == d.deadline,
{
}

/// With no peer configured both families are released at once; with a configured peer that has no
/// session neither is, until the timer expires.
pub proof fn unestablished_peer_holds_gates(
    d: SelectionDeferral,
    configured: Set<IpAddr>,
    e: Evidence,
    p: IpAddr,
)
    requires
        configured.contains(p),
        !e.established.contains(p),
    ensures
        d.recomputed(configured, e).v4_released == d.v4_released,
        d.recomputed(configured, e).v6_released == d.v6_released,
        d.recomputed(Set::empty(), e) == d.released(),
{
    assert(blocks(p, false, e));
    assert(blocks(p, true, e));
}

} // verus!
