//! The frugal mode: the idle-exit policy (with a systemd-activated socket the
//! panel may exit when it has been idle long enough) and the activity record
//! that busy work holds open.

use vstd::prelude::*;

use crate::text::{parse_unsigned, parse_unsigned_exec, trim, trim_seq};

verus! {

/// Idle minutes before exiting on the `micro` profile when none are configured.
pub const DEFAULT_MICRO_IDLE_EXIT_MINUTES: u64 = 10;

/// Exit only when nothing is busy and the idle time reached the limit
/// (both in milliseconds).
pub fn should_exit(busy: usize, idle_ms: u64, limit_ms: u64) -> (r: bool)
    ensures
        r == (busy == 0 && idle_ms >= limit_ms),
{
    busy == 0 && idle_ms >= limit_ms
}

/// The idle-exit threshold in seconds, if any, for a configured minutes
/// value, the profile and whether systemd handed over the socket.
pub open spec fn idle_exit_policy_spec(value: Option<Seq<char>>, micro: bool, socket_activated: bool) -> Option<nat> {
    if !socket_activated {
        None
    } else {
        let given = match value {
            Some(v) => if trim_seq(v).len() > 0 { Some(trim_seq(v)) } else { None },
            None => None,
        };
        let minutes: Option<nat> = match given {
            Some(v) => parse_unsigned(v, 0xffff_ffff_ffff_ffff),
            None => if micro { Some(DEFAULT_MICRO_IDLE_EXIT_MINUTES as nat) } else { None },
        };
        match minutes {
            Some(m) => if m > 0 {
                Some(if m * 60 <= 0xffff_ffff_ffff_ffff { m * 60 } else { 0xffff_ffff_ffff_ffff })
            } else {
                None
            },
            None => None,
        }
    }
}

/// Idle-exit threshold in seconds; `None` means never exit when idle.
/// Without socket activation exiting would take the panel offline.
pub fn idle_exit_policy(value: Option<&str>, micro: bool, socket_activated: bool) -> (r: Option<u64>)
    ensures
        match idle_exit_policy_spec(
            match value {
                Some(v) => Some(v@),
                None => None,
            },
            micro,
            socket_activated,
        ) {
            Some(s) => r == Some(s as u64),
            None => r is None,
        },
{
    if !socket_activated {
        return None;
    }
    let minutes: u64 = match value {
        Some(v) => {
            let t = trim(v);
            if !t.as_str().is_empty() {
                match parse_unsigned_exec(t.as_str(), 0xffff_ffff_ffff_ffff) {
                    Some(m) => m,
                    None => {
                        return None;
                    },
                }
            } else if micro {
                DEFAULT_MICRO_IDLE_EXIT_MINUTES
            } else {
                return None;
            }
        },
        None => {
            if micro {
                DEFAULT_MICRO_IDLE_EXIT_MINUTES
            } else {
                return None;
            }
        },
    };
    if minutes > 0 {
        if minutes <= u64::MAX / 60 {
            Some(minutes * 60)
        } else {
            Some(u64::MAX)
        }
    } else {
        None
    }
}


/// The panel's activity record: how many busy guards are held and when the
/// last activity happened, in milliseconds since the process started.
#[derive(Clone, Debug)]
pub struct ActivityState {
    busy: usize,
    last_activity_ms: u64,
}

/// Held while the panel does work that must not be cut short (a request in
/// flight, a terminal, a deployment, a child process, a pending rollback).
/// It is made and given back through [`BusyGuard::new`] and
/// [`BusyGuard::release`], which both count as activity.
#[derive(Debug)]
pub struct BusyGuard {
    _private: (),
}

/// Whether the panel should exit at `now_ms`: nothing busy and idle since
/// `last_ms` for at least `limit_ms`.
pub open spec fn exit_due_spec(busy: nat, last_ms: u64, now_ms: u64, limit_ms: u64) -> bool {
    busy == 0 && (if now_ms >= last_ms { now_ms - last_ms } else { 0 }) >= limit_ms
}

impl ActivityState {
    pub closed spec fn busy_spec(&self) -> nat {
        self.busy as nat
    }

    pub closed spec fn last_activity_spec(&self) -> u64 {
        self.last_activity_ms
    }

    /// Nothing busy, last activity at the start.
    pub fn new() -> (r: Self)
        ensures
            r.busy_spec() == 0,
            r.last_activity_spec() == 0,
    {
        ActivityState { busy: 0, last_activity_ms: 0 }
    }

    /// The number of busy guards held.
    pub fn busy(&self) -> (r: usize)
        ensures
            r == self.busy_spec(),
    {
        self.busy
    }

    /// How long the panel has been idle at `now_ms` (0 if the clock reads
    /// earlier than the last activity).
    pub fn idle_for(&self, now_ms: u64) -> (r: u64)
        ensures
            r == if now_ms >= self.last_activity_spec() { now_ms - self.last_activity_spec() } else { 0 },
    {
        now_ms.saturating_sub(self.last_activity_ms)
    }

    /// Whether the idle limit is reached with nothing busy.
    pub fn exit_due(&self, now_ms: u64, limit_ms: u64) -> (r: bool)
        ensures
            r == exit_due_spec(self.busy_spec(), self.last_activity_spec(), now_ms, limit_ms),
    {
        should_exit(self.busy, self.idle_for(now_ms), limit_ms)
    }
}

/// Records an activity at `now_ms`: the idle time starts over.
pub fn touch(state: &mut ActivityState, now_ms: u64)
    ensures
        final(state).last_activity_spec() == now_ms,
        final(state).busy_spec() == old(state).busy_spec(),
{
    state.last_activity_ms = now_ms;
}

impl BusyGuard {
    /// Marks the panel busy at `now_ms`.
    pub fn new(state: &mut ActivityState, now_ms: u64) -> (r: BusyGuard)
        requires
            old(state).busy_spec() < usize::MAX,
        ensures
            final(state).busy_spec() == old(state).busy_spec() + 1,
            final(state).last_activity_spec() == now_ms,
    {
        state.busy = state.busy + 1;
        touch(state, now_ms);
        BusyGuard { _private: () }
    }

    /// Gives the guard back at `now_ms`; the panel stays busy while other
    /// guards are held.
    pub fn release(self, state: &mut ActivityState, now_ms: u64)
        requires
            old(state).busy_spec() > 0,
        ensures
            final(state).busy_spec() == old(state).busy_spec() - 1,
            final(state).last_activity_spec() == now_ms,
    {
        state.busy = state.busy - 1;
        touch(state, now_ms);
    }
}

/// While any busy guard is held the panel never exits, however long it has
/// been idle.
pub proof fn law_busy_blocks_exit(busy: nat, last_ms: u64, now_ms: u64, limit_ms: u64)
    requires
        busy > 0,
    ensures
        !exit_due_spec(busy, last_ms, now_ms, limit_ms),
{
}

} // verus!
