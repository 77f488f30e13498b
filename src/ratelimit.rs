use vstd::prelude::*;

verus! {

/// How requests are paced against the server's quota.
#[derive(Clone, Copy, PartialEq, Eq, Debug)]
pub enum LimitMethod {
    /// Wait an even amount of time between each request.
    Steady,
    /// Fire requests as they come, and stall only once the quota is exhausted.
    Burst,
}

/// The quota last reported by the server.
///
/// Instants are milliseconds on a monotonic clock chosen by the caller.
/// While `remaining` is `None` (no response seen yet) nothing is throttled.
#[derive(Clone, Copy, PartialEq, Eq, Debug)]
pub struct RateLimiter {
    /// Requests used in the current window.
    pub used: i32,
    /// Requests left in the current window, once known.
    pub remaining: Option<i32>,
    /// Instant at which the window resets.
    pub reset_at: u64,
}

/// Milliseconds in a second.
pub const MILLIS_PER_SEC: u64 = 1000;

/// How long to wait before the next request, in milliseconds.
///
/// Under `Steady` the rest of the window is shared evenly among the remaining
/// requests; with no request left (or a negative count) the whole rest of the
/// window is waited, so that nothing is divided by zero. Under `Burst` the
/// wait is the rest of the window once the quota is exhausted, and nothing
/// before that.
pub open spec fn spec_wait(limiter: RateLimiter, method: LimitMethod, now: u64) -> int {
    match limiter.remaining {
        None => 0,
        Some(rem) => if now < limiter.reset_at {
            let window = limiter.reset_at - now;
            match method {
                LimitMethod::Steady => if rem > 0 { window / (rem as int) } else { window },
                LimitMethod::Burst => if rem <= 0 { window } else { 0 },
            }
        } else {
            0
        },
    }
}

/// The reset instant for a window that ends `secs` seconds after `now`,
/// held at the largest instant where it would not fit.
pub open spec fn spec_reset_at(now: u64, secs: u64) -> int {
    let at = now + secs * MILLIS_PER_SEC;
    if at <= u64::MAX { at } else { u64::MAX as int }
}

impl RateLimiter {
    /// A limiter that knows no quota yet: the first request goes at once.
    pub fn new(now: u64) -> (r: RateLimiter)
        ensures
            r.used == 0,
            r.remaining is None,
            r.reset_at == now,
    {
        RateLimiter { used: 0, remaining: None, reset_at: now }
    }

    /// The time to wait at `now` before sending, under `method`.
    pub fn wait_ms(&self, method: LimitMethod, now: u64) -> (r: u64)
        ensures
            r as int == spec_wait(*self, method, now),
    {
        match self.remaining {
            None => 0,
            Some(rem) => {
                if now < self.reset_at {
                    let window = self.reset_at - now;
                    match method {
                        LimitMethod::Steady => {
                            if rem > 0 {
                                window / (rem as u64)
                            } else {
                                window
                            }
                        },
                        LimitMethod::Burst => {
                            if rem <= 0 {
                                window
                            } else {
                                0
                            }
                        },
                    }
                } else {
                    0
                }
            },
        }
    }

    /// Takes in the quota headers of a response received at `now`: requests
    /// used, requests remaining, and seconds until the window resets. A header
    /// that is absent leaves its field as it was.
    pub fn update(&mut self, used: Option<i32>, remaining: Option<i32>, reset_secs: Option<u64>, now: u64)
        ensures
            final(self).used == (match used {
                Some(u) => u,
                None => old(self).used,
            }),
            final(self).remaining == (match remaining {
                Some(r) => Some(r),
                None => old(self).remaining,
            }),
            final(self).reset_at == (match reset_secs {
                Some(s) => spec_reset_at(now, s),
                None => old(self).reset_at as int,
            }),
    {
        let mut next = *self;
        if let Some(u) = used {
            next.used = u;
        }
        if let Some(r) = remaining {
            next.remaining = Some(r);
        }
        if let Some(s) = reset_secs {
            next.reset_at = match s.checked_mul(MILLIS_PER_SEC) {
                Some(ms) => now.saturating_add(ms),
                None => u64::MAX,
            };
        }
        *self = next;
    }
}

/// Under `Steady`, with requests left and the window still open, the wait is
/// the rest of the window divided evenly among the remaining requests.
pub proof fn lemma_steady_spreads_window(limiter: RateLimiter, now: u64)
    requires
        limiter.remaining matches Some(rem) && rem > 0,
        now < limiter.reset_at,
    ensures
        spec_wait(limiter, LimitMethod::Steady, now) == (limiter.reset_at - now) / (
        limiter.remaining->0 as int),
{
}

/// Under `Burst`, with the quota exhausted and the window still open, the wait
/// lasts exactly until the reset instant.
pub proof fn lemma_burst_waits_for_reset(limiter: RateLimiter, now: u64)
    requires
        limiter.remaining == Some(0i32),
        now < limiter.reset_at,
    ensures
        now + spec_wait(limiter, LimitMethod::Burst, now) == limiter.reset_at,
{
}

} // verus!
