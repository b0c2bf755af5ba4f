//! The per-user rate limiter: one windowed counter for cheap requests and
//! one for expensive requests.

use crate::config::Config;
use vstd::prelude::*;

verus! {

/// Nanoseconds in a second.
pub const NANOS: u128 = 1_000_000_000;

/// The length of the window of cheap requests: ten seconds.
pub const CHEAP_WINDOW: u128 = 10_000_000_000;

/// The length of the window of expensive requests: five minutes.
pub const EXPENSIVE_WINDOW: u128 = 300_000_000_000;

/// The two counters of one user. Instants are nanoseconds on the server's
/// monotonic clock.
#[derive(Debug, Clone, Copy, PartialEq, Eq, Structural)]
pub struct UserSession {
    pub packet_time_cheap: u128,
    pub packet_time_expensive: u128,
    pub packets_cheap: usize,
    pub packets_expensive: usize,
}

/// One counter: where its window starts and how many requests it counted.
pub struct Window {
    pub start: u128,
    pub count: usize,
}

/// What the limiter says to one request.
pub struct Verdict {
    /// The counter after the request.
    pub window: Window,
    /// `Some(seconds)` when the request is rejected: the seconds until the
    /// window ends, rounded up.
    pub wait: Option<u64>,
}

/// The window length of a class of requests.
pub open spec fn window_len(expensive: bool) -> u128 {
    if expensive {
        EXPENSIVE_WINDOW
    } else {
        CHEAP_WINDOW
    }
}

/// The quota of a class of requests.
pub open spec fn quota(config: Config, expensive: bool) -> usize {
    if expensive {
        config.limit_requests_expensive_per_5_minutes as usize
    } else {
        config.limit_requests_cheap_per_10_seconds as usize
    }
}

/// The instant that the limiter goes by: a clock that was read earlier than
/// the window started counts as standing at the start.
pub open spec fn clamp(now: u128, start: u128) -> u128 {
    if now < start {
        start
    } else {
        now
    }
}

/// The limiter's rule for one request at `now`.
///
/// When the window is over, the counter starts anew at `now` and the request
/// passes uncounted. Otherwise the request is counted while the counter is
/// below `limit`, and rejected once it has reached it.
pub open spec fn limiter_step(w: Window, len: u128, limit: usize, now: u128) -> Verdict {
    let at = clamp(now, w.start);
    if at - w.start >= len {
        Verdict { window: Window { start: now, count: 0 }, wait: None }
    } else if w.count >= limit {
        Verdict { window: w, wait: Some(((w.start + len - at + NANOS - 1) / (NANOS as int)) as u64) }
    } else {
        Verdict { window: Window { start: w.start, count: (w.count + 1) as usize }, wait: None }
    }
}

impl UserSession {
    /// The counter of a class of requests.
    pub open spec fn window(&self, expensive: bool) -> Window {
        if expensive {
            Window { start: self.packet_time_expensive, count: self.packets_expensive }
        } else {
            Window { start: self.packet_time_cheap, count: self.packets_cheap }
        }
    }

    /// The counters of a user who is first seen at `now`.
    pub fn new(now: u128) -> (session: UserSession)
        ensures
            session == (UserSession {
                packet_time_cheap: now,
                packet_time_expensive: now,
                packets_cheap: 0,
                packets_expensive: 0,
            }),
    {
        UserSession {
            packet_time_cheap: now,
            packet_time_expensive: now,
            packets_cheap: 0,
            packets_expensive: 0,
        }
    }
}

/// Runs the limiter for one request of the given class at `now`. `None`
/// lets the request pass; `Some(seconds)` rejects it and leaves the counters
/// as they were. The counter of the other class is never touched.
pub fn check_rate_limits(
    config: &Config,
    expensive: bool,
    session: &mut UserSession,
    now: u128,
) -> (wait: Option<u64>)
    ensures
        wait == limiter_step(
            old(session).window(expensive),
            window_len(expensive),
            quota(*config, expensive),
            now,
        ).wait,
        final(session).window(expensive) == limiter_step(
            old(session).window(expensive),
            window_len(expensive),
            quota(*config, expensive),
            now,
        ).window,
        final(session).window(!expensive) == old(session).window(!expensive),
        wait is Some ==> *final(session) == *old(session),
{
    let len: u128 = if expensive {
        EXPENSIVE_WINDOW
    } else {
        CHEAP_WINDOW
    };
    let limit: usize = if expensive {
        config.limit_requests_expensive_per_5_minutes as usize
    } else {
        config.limit_requests_cheap_per_10_seconds as usize
    };
    let start: u128 = if expensive {
        session.packet_time_expensive
    } else {
        session.packet_time_cheap
    };
    let count: usize = if expensive {
        session.packets_expensive
    } else {
        session.packets_cheap
    };
    let at: u128 = if now < start {
        start
    } else {
        now
    };
    let gone: u128 = at - start;
    if gone >= len {
        if expensive {
            session.packet_time_expensive = now;
            session.packets_expensive = 0;
        } else {
            session.packet_time_cheap = now;
            session.packets_cheap = 0;
        }
        None
    } else if count >= limit {
        let left: u128 = len - gone;
        let seconds: u128 = (left + (NANOS - 1)) / NANOS;
        assert(seconds <= 300);
        Some(seconds as u64)
    } else {
        if expensive {
            session.packets_expensive = count + 1;
        } else {
            session.packets_cheap = count + 1;
        }
        None
    }
}

/// How many of the requests at `times` pass, starting from the counter `w`.
pub open spec fn passed(w: Window, len: u128, limit: usize, times: Seq<u128>) -> nat
    decreases times.len(),
{
    if times.len() == 0 {
        0
    } else {
        let v = limiter_step(w, len, limit, times[0]);
        let rest = passed(v.window, len, limit, times.drop_first());
        if v.wait is None {
            rest + 1
        } else {
            rest
        }
    }
}

/// The counter never passes the quota: a counter at or below the quota
/// stays there whatever request comes.
pub proof fn lemma_counter_bounded(w: Window, len: u128, limit: usize, now: u128)
    requires
        w.count <= limit,
    ensures
        limiter_step(w, len, limit, now).window.count <= limit,
{
}

/// A rejected request changes nothing, and the wait that it is told is the
/// rest of the window in whole seconds, rounded up.
pub proof fn lemma_rejection(w: Window, expensive: bool, limit: usize, now: u128)
    ensures
        ({
            let len = window_len(expensive);
            let v = limiter_step(w, len, limit, now);
            let left = w.start + len - clamp(now, w.start);
            &&& v.wait is Some ==> v.window == w
            &&& v.wait matches Some(s) ==> 0 < left <= s * NANOS < left + NANOS
        }),
{
}

/// Fairness within a window: of the requests that arrive before the
/// current window ends, no more pass than the quota has left.
pub proof fn lemma_window_quota(w: Window, expensive: bool, limit: usize, times: Seq<u128>)
    requires
        w.count <= limit,
        forall|i: int| 0 <= i < times.len() ==> times[i] < w.start + window_len(expensive),
    ensures
        passed(w, window_len(expensive), limit, times) <= limit - w.count,
    decreases times.len(),
{
    let len = window_len(expensive);
    if times.len() > 0 {
        let v = limiter_step(w, len, limit, times[0]);
        assert(times[0] < w.start + len);
        assert(v.window.start == w.start);
        let rest = times.drop_first();
        assert forall|i: int| 0 <= i < rest.len() implies rest[i] < v.window.start + len by {
            assert(rest[i] == times[i + 1]);
        }
        lemma_window_quota(v.window, expensive, limit, rest);
    }
}

} // verus!
