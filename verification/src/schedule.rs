//! When the session polls for keys and when it refreshes the active view.
//!
//! Times are session times in milliseconds. The schedule decides; the
//! program around it reads the clock, waits and fetches.

use vstd::prelude::*;

verus! {

/// Time between two ticks: the longest that the session waits for a key.
pub const TICK_RATE: u64 = 250;

/// Time between two refreshes of the active view.
pub const REFRESH_RATE: u64 = 2000;

/// The times of the last tick and of the last refresh.
#[derive(Debug, Clone, Copy, PartialEq, Eq, Structural)]
pub struct Schedule {
    pub last_tick: u64,
    pub last_refresh: u64,
}

/// Time that has passed from `since` to `now`; none where the clock went
/// back.
pub open spec fn passed(since: u64, now: u64) -> int {
    if now >= since {
        now - since
    } else {
        0
    }
}

/// How long to wait for a key at the time `now`: what is left of the tick,
/// and not at all once the tick is over.
pub open spec fn wait_for_key(s: Schedule, now: u64) -> int {
    if passed(s.last_tick, now) >= TICK_RATE {
        0
    } else {
        TICK_RATE - passed(s.last_tick, now)
    }
}

/// Whether a refresh is due at the time `now`.
pub open spec fn refresh_due(s: Schedule, now: u64) -> bool {
    passed(s.last_refresh, now) >= REFRESH_RATE
}

/// The schedule after the time `now` was looked at: a tick that is over
/// starts anew, and so does the time to the next refresh once a refresh is
/// due.
pub open spec fn after_tick(s: Schedule, now: u64) -> Schedule {
    Schedule {
        last_tick: if passed(s.last_tick, now) >= TICK_RATE {
            now
        } else {
            s.last_tick
        },
        last_refresh: if refresh_due(s, now) {
            now
        } else {
            s.last_refresh
        },
    }
}

/// A tick alone refreshes nothing: before the refresh rate has passed since
/// the last refresh no refresh is due, however many ticks went by; and right
/// after a refresh none is due either.
pub proof fn lemma_ticks_do_not_refresh(s: Schedule, now: u64, later: u64)
    requires
        now <= later,
    ensures
        later < s.last_refresh + REFRESH_RATE ==> !refresh_due(s, later),
        refresh_due(s, now) && later < now + REFRESH_RATE ==> !refresh_due(
            after_tick(s, now),
            later,
        ),
        !refresh_due(s, now) ==> after_tick(s, now).last_refresh == s.last_refresh,
{
}

/// The session never waits longer for a key than one tick.
pub proof fn lemma_wait_is_bounded(s: Schedule, now: u64)
    ensures
        0 <= wait_for_key(s, now) <= TICK_RATE,
{
}

/// Time that has passed from `since` to `now`.
fn elapsed(since: u64, now: u64) -> (e: u64)
    ensures
        e == passed(since, now),
{
    if now >= since {
        now - since
    } else {
        0
    }
}

impl Schedule {
    /// A schedule that starts at the time `now`.
    pub fn new(now: u64) -> (s: Self)
        ensures
            s == (Schedule { last_tick: now, last_refresh: now }),
    {
        Schedule { last_tick: now, last_refresh: now }
    }

    /// How long to wait for a key at the time `now`.
    pub fn poll_timeout(&self, now: u64) -> (timeout: u64)
        ensures
            timeout == wait_for_key(*self, now),
    {
        let gone = elapsed(self.last_tick, now);
        if gone >= TICK_RATE {
            0
        } else {
            TICK_RATE - gone
        }
    }

    /// Notes that a key asked for a refresh at the time `now`: the time to
    /// the next refresh starts anew.
    pub fn refreshed(&mut self, now: u64)
        ensures
            *final(self) == (Schedule { last_refresh: now, ..*old(self) }),
    {
        self.last_refresh = now;
    }

    /// Looks at the time after the wait for a key, and tells whether the
    /// active view is to be refreshed now.
    pub fn tick(&mut self, now: u64) -> (refresh: bool)
        ensures
            refresh == refresh_due(*old(self), now),
            *final(self) == after_tick(*old(self), now),
    {
        if elapsed(self.last_tick, now) >= TICK_RATE {
            self.last_tick = now;
        }
        if elapsed(self.last_refresh, now) >= REFRESH_RATE {
            self.last_refresh = now;
            true
        } else {
            false
        }
    }
}

} // verus!
