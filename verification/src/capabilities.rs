//! The capabilities that the daemon advertises, and what it reads from those of a peer.
use vstd::prelude::*;

use crate::clock::{nanos_of, Instant, NANOS_PER_SEC};
use crate::message::{Capability, GracefulRestartFamily, Role};
use crate::net::{AfiSafi, Ipv4Addr};
use crate::table::copy_of;

verus! {

/// The longest restart time that an OPEN can carry, in seconds.
pub const MAX_RESTART_TIME: u16 = 4095;

/// What all sessions that are started have in common.
#[derive(Clone, Copy)]
pub struct SpawnConfig {
    pub local_as: u32,
    pub local_bgp_id: Ipv4Addr,
    pub hold_time: u16,
    pub graceful_restart_time: u16,
    /// Whether the operator says that this run follows an interrupted one.
    pub configured_restarting: bool,
    /// When the daemon was started.
    pub startup_instant: Instant,
}

impl SpawnConfig {
    /// Whether the restart window is still open: the operator asked for it, and fewer seconds than
    /// the restart time have passed since the start.
    pub open spec fn in_window(self, now: Instant) -> bool {
        &&& self.configured_restarting
        &&& self.graceful_restart_time > 0
        &&& now.elapsed_since(self.startup_instant) < nanos_of(self.graceful_restart_time)
    }

    /// The capabilities of a session that is started now.
    pub fn capabilities(&self, role: Option<Role>, now: Instant) -> (r: Vec<Capability>)
        ensures
            local_set(
                r@,
                self.local_as,
                self.graceful_restart_time,
                self.in_window(now),
                role,
            ),
    {
        let in_window = self.configured_restarting && self.graceful_restart_time > 0
            && now.saturating_duration_since(self.startup_instant) < (
        self.graceful_restart_time as u64) * NANOS_PER_SEC;
        build_local_capabilities(self.local_as, self.graceful_restart_time, in_window, role)
    }
}

/// The flags of the graceful restart capability: the Notification bit wherever a restart
/// time is given, and with it the Restart State bit during a restart.
pub open spec fn restart_flags(time: u16, restarting: bool) -> u8 {
    if time == 0 {
        0u8
    } else if restarting {
        12u8
    } else {
        4u8
    }
}

/// The restart time that is advertised.
pub open spec fn restart_time(time: u16) -> u16 {
    if time <= MAX_RESTART_TIME {
        time
    } else {
        MAX_RESTART_TIME
    }
}

/// The families that take part in graceful restart: both where a restart time is given, with
/// forwarding preserved except during a restart.
pub open spec fn restart_families(time: u16, restarting: bool) -> Seq<GracefulRestartFamily> {
    if time == 0 {
        Seq::empty()
    } else {
        seq![
            GracefulRestartFamily {
                afi_safi: AfiSafi::ipv4_unicast(),
                forwarding_preserved: !restarting,
            },
            GracefulRestartFamily {
                afi_safi: AfiSafi::ipv6_unicast(),
                forwarding_preserved: !restarting,
            },
        ]
    }
}

/// Whether `caps` is the set that every OPEN of the daemon carries.
pub open spec fn local_set(
    caps: Seq<Capability>,
    local_as: u32,
    time: u16,
    restarting: bool,
    role: Option<Role>,
) -> bool {
    &&& caps.len() == (if role is Some {
        7int
    } else {
        6int
    })
    &&& caps[0] == Capability::MultiProtocol(AfiSafi::ipv4_unicast())
    &&& caps[1] == Capability::MultiProtocol(AfiSafi::ipv6_unicast())
    &&& caps[2] == Capability::RouteRefresh
    &&& caps[3] == Capability::FourByteAsn(local_as)
    &&& caps[4] == Capability::ExtendedMessage
    &&& caps[5] is GracefulRestart
    &&& caps[5]->restart_flags == restart_flags(time, restarting)
    &&& caps[5]->restart_time == restart_time(time)
    &&& caps[5]->families@ == restart_families(time, restarting)
    &&& role matches Some(x) ==> caps[6] == Capability::Role(x)
}

/// The capabilities that every OPEN of the daemon carries. `restarting` is whether the daemon is
/// within its restart window; `role` is the role on this session, if one is configured.
pub fn build_local_capabilities(
    local_as: u32,
    graceful_restart_time: u16,
    restarting: bool,
    role: Option<Role>,
) -> (r: Vec<Capability>)
    ensures
        local_set(r@, local_as, graceful_restart_time, restarting, role),
{
    let flags: u8 = if graceful_restart_time == 0 {
        0u8
    } else if restarting {
        12u8
    } else {
        4u8
    };
    let time: u16 = if graceful_restart_time <= MAX_RESTART_TIME {
        graceful_restart_time
    } else {
        MAX_RESTART_TIME
    };
    let mut families: Vec<GracefulRestartFamily> = Vec::new();
    if graceful_restart_time > 0 {
        families.push(
            GracefulRestartFamily {
                afi_safi: AfiSafi::ipv4_unicast(),
                forwarding_preserved: !restarting,
            },
        );
        families.push(
            GracefulRestartFamily {
                afi_safi: AfiSafi::ipv6_unicast(),
                forwarding_preserved: !restarting,
            },
        );
    }
    assert(families@ =~= restart_families(graceful_restart_time, restarting));
    let mut caps: Vec<Capability> = Vec::new();
    caps.push(Capability::MultiProtocol(AfiSafi::ipv4_unicast()));
    caps.push(Capability::MultiProtocol(AfiSafi::ipv6_unicast()));
    caps.push(Capability::RouteRefresh);
    caps.push(Capability::FourByteAsn(local_as));
    caps.push(Capability::ExtendedMessage);
    caps.push(
        Capability::GracefulRestart { restart_flags: flags, restart_time: time, families },
    );
    if let Some(x) = role {
        caps.push(Capability::Role(x));
    }
    caps
}

/// The advertised restart time fits the twelve bits that it has on the wire, and is the configured
/// one wherever that fits.
pub proof fn restart_time_fits(time: u16)
    ensures
        restart_time(time) < 4096,
        time < 4096 ==> restart_time(time) == time,
        restart_time(time) == 0 <==> time == 0,
{
}

/// Outside of its restart window the daemon never claims to be restarting, and without a restart
/// time it neither sets a flag nor offers to preserve anything.
pub proof fn no_restart_no_claim(time: u16, restarting: bool)
    ensures
        restart_flags(time, false) < 8,
        restart_flags(0, restarting) == 0,
        restart_families(0, restarting).len() == 0,
{
}

/// What a peer offers for graceful restart: its flags, the time, and the families.
pub struct RestartOffer {
    pub restart_flags: u8,
    pub restart_time: u16,
    pub families: Vec<GracefulRestartFamily>,
}

/// The position of the first graceful restart capability with a time, from `k` on.
pub open spec fn first_offer(caps: Seq<Capability>, k: int) -> Option<int>
    decreases caps.len() - k,
{
    if k < 0 || k >= caps.len() {
        None
    } else if caps[k] is GracefulRestart && caps[k]->restart_time > 0 {
        Some(k)
    } else {
        first_offer(caps, k + 1)
    }
}

/// The time of the first graceful restart capability that has one.
pub open spec fn offered_time(caps: Seq<Capability>) -> Option<u16> {
    match first_offer(caps, 0) {
        Some(k) => Some(caps[k]->restart_time),
        None => None,
    }
}

/// The families of the first graceful restart capability that has a time.
pub open spec fn offered_families(caps: Seq<Capability>) -> Seq<GracefulRestartFamily> {
    match first_offer(caps, 0) {
        Some(k) => caps[k]->families@,
        None => Seq::empty(),
    }
}

/// The flags of the first graceful restart capability that has a time.
pub open spec fn offered_flags(caps: Seq<Capability>) -> u8 {
    match first_offer(caps, 0) {
        Some(k) => caps[k]->restart_flags,
        None => 0u8,
    }
}

/// Whether the Restart State bit is among restart flags.
pub open spec fn restart_bit(flags: u8) -> bool {
    flags / 8 % 2 == 1
}

/// Whether the Notification bit is among restart flags.
pub open spec fn notification_bit(flags: u8) -> bool {
    flags / 4 % 2 == 1
}

/// What a peer offers for graceful restart, if it takes part in it.
pub fn restart_offer(caps: &Vec<Capability>) -> (r: Option<RestartOffer>)
    ensures
        match r {
            Some(o) => {
                &&& offered_time(caps@) == Some(o.restart_time)
                &&& o.families@ == offered_families(caps@)
                &&& o.restart_flags == offered_flags(caps@)
            },
            None => offered_time(caps@) is None,
        },
{
    let mut i: usize = 0;
    while i < caps.len()
        invariant
            0 <= i <= caps.len(),
            first_offer(caps@, 0) == first_offer(caps@, i as int),
        decreases caps.len() - i,
    {
        if let Capability::GracefulRestart { restart_flags, restart_time, families } = &caps[i] {
            if *restart_time > 0 {
                return Some(
                    RestartOffer {
                        restart_flags: *restart_flags,
                        restart_time: *restart_time,
                        families: copy_of(families),
                    },
                );
            }
        }
        i = i + 1;
    }
    None
}

/// Whether some capability announces numbers of four octets.
pub open spec fn speaks_four_byte(caps: Seq<Capability>) -> bool {
    exists|i: int| 0 <= i < caps.len() && (#[trigger] caps[i]) is FourByteAsn
}

/// Whether some capability announces numbers of four octets.
pub fn has_four_byte(caps: &Vec<Capability>) -> (r: bool)
    ensures
        r == speaks_four_byte(caps@),
{
    let mut i: usize = 0;
    while i < caps.len()
        invariant
            0 <= i <= caps.len(),
            forall|j: int| 0 <= j < i ==> !((#[trigger] caps@[j]) is FourByteAsn),
        decreases caps.len() - i,
    {
        if let Capability::FourByteAsn(_) = &caps[i] {
            assert(caps@[i as int] is FourByteAsn);
            return true;
        }
        i = i + 1;
    }
    false
}

/// Whether extended messages are among the capabilities.
pub fn has_extended_message(caps: &Vec<Capability>) -> (r: bool)
    ensures
        r == caps@.contains(Capability::ExtendedMessage),
{
    let mut i: usize = 0;
    while i < caps.len()
        invariant
            0 <= i <= caps.len(),
            forall|j: int| 0 <= j < i ==> (#[trigger] caps@[j]) != Capability::ExtendedMessage,
        decreases caps.len() - i,
    {
        if let Capability::ExtendedMessage = &caps[i] {
            assert(caps@[i as int] == Capability::ExtendedMessage);
            return true;
        }
        i = i + 1;
    }
    false
}

/// Whether route refresh is among the capabilities.
pub fn has_route_refresh(caps: &Vec<Capability>) -> (r: bool)
    ensures
        r == caps@.contains(Capability::RouteRefresh),
{
    let mut i: usize = 0;
    while i < caps.len()
        invariant
            0 <= i <= caps.len(),
            forall|j: int| 0 <= j < i ==> (#[trigger] caps@[j]) != Capability::RouteRefresh,
        decreases caps.len() - i,
    {
        if let Capability::RouteRefresh = &caps[i] {
            assert(caps@[i as int] == Capability::RouteRefresh);
            return true;
        }
        i = i + 1;
    }
    false
}

/// Whether a family is among the capabilities.
pub fn has_family(caps: &Vec<Capability>, family: AfiSafi) -> (r: bool)
    ensures
        r == caps@.contains(Capability::MultiProtocol(family)),
{
    let mut i: usize = 0;
    while i < caps.len()
        invariant
            0 <= i <= caps.len(),
            forall|j: int|
                0 <= j < i ==> (#[trigger] caps@[j]) != Capability::MultiProtocol(family),
        decreases caps.len() - i,
    {
        if let Capability::MultiProtocol(f) = &caps[i] {
            if *f == family {
                assert(caps@[i as int] == Capability::MultiProtocol(family));
                return true;
            }
        }
        i = i + 1;
    }
    false
}

/// Whether a family is among those that take part in graceful restart.
pub open spec fn covers(families: Seq<GracefulRestartFamily>, family: AfiSafi) -> bool {
    exists|i: int| 0 <= i < families.len() && (#[trigger] families[i]).afi_safi == family
}

/// Whether a family is among those that take part in graceful restart.
pub fn is_covered(families: &Vec<GracefulRestartFamily>, family: AfiSafi) -> (r: bool)
    ensures
        r == covers(families@, family),
{
    let mut i: usize = 0;
    while i < families.len()
        invariant
            0 <= i <= families.len(),
            forall|j: int| 0 <= j < i ==> (#[trigger] families@[j]).afi_safi != family,
        decreases families.len() - i,
    {
        if families[i].afi_safi == family {
            return true;
        }
        i = i + 1;
    }
    false
}

} // verus!
