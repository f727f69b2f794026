//! The start gate: where a start instant is configured, the animator waits
//! for it before the first tick. An instant that has already passed is an
//! error at startup; playback never starts late in silence.

use vstd::prelude::*;

verus! {

/// The number of nanoseconds in a second.
pub const NANOS_PER_SEC: u32 = 1_000_000_000;

/// A span of time: whole seconds, and nanoseconds below one second.
#[derive(Clone, Copy, Debug, PartialEq, Eq, Structural)]
pub struct Span {
    pub secs: u64,
    pub nanos: u32,
}

/// The start instant lies in the past.
#[derive(Clone, Copy, Debug, PartialEq, Eq, Structural)]
pub enum StartError {
    AlreadyElapsed,
}

/// A time in nanoseconds, from its seconds and nanoseconds.
pub open spec fn total_nanos(secs: nat, nanos: nat) -> nat {
    secs * 1_000_000_000 + nanos
}

/// How long to wait before the first tick.
///
/// `start_at` is the configured start instant in whole seconds since the
/// Unix epoch, if there is one; `now` is the current time since the epoch.
/// Without a start instant there is nothing to wait for. With one, the wait
/// is what is left until the instant, and an instant before `now` is
/// refused.
pub fn start_delay(start_at: Option<u64>, now: Span) -> (res: Result<Span, StartError>)
    requires
        now.nanos < NANOS_PER_SEC,
    ensures
        match (start_at, res) {
            (None, Ok(wait)) => wait == (Span { secs: 0, nanos: 0 }),
            (None, Err(_)) => false,
            (Some(at), Ok(wait)) => {
                &&& wait.nanos < NANOS_PER_SEC
                &&& total_nanos(now.secs as nat, now.nanos as nat) + total_nanos(
                    wait.secs as nat,
                    wait.nanos as nat,
                ) == total_nanos(at as nat, 0)
            },
            (Some(at), Err(e)) => {
                &&& e == StartError::AlreadyElapsed
                &&& total_nanos(at as nat, 0) < total_nanos(now.secs as nat, now.nanos as nat)
            },
        },
{
    match start_at {
        None => Ok(Span { secs: 0, nanos: 0 }),
        Some(at) => {
            if at < now.secs || (at == now.secs && now.nanos > 0) {
                Err(StartError::AlreadyElapsed)
            } else if now.nanos == 0 {
                Ok(Span { secs: at - now.secs, nanos: 0 })
            } else {
                Ok(Span { secs: at - now.secs - 1, nanos: NANOS_PER_SEC - now.nanos })
            }
        },
    }
}

} // verus!
