//! When a user is next due, with jitter that spreads users apart.
use crate::cadence::{clamp, MAX_INTERVAL_MINUTES};
use rand::Rng;
use vstd::prelude::*;

verus! {

/// Bound on timestamps (seconds since the epoch), beyond every date that a
/// calendar timestamp of chrono can hold.
pub const TIMESTAMP_LIMIT: i64 = 10_000_000_000_000;

pub open spec fn valid_timestamp(t: int) -> bool {
    -TIMESTAMP_LIMIT <= t <= TIMESTAMP_LIMIT
}

/// Largest jitter, in minutes, for an interval: a tenth of it rounded up,
/// between 1 and 30.
pub open spec fn jitter_cap(interval_minutes: int) -> int {
    clamp((interval_minutes + 9) / 10, 1, 30)
}

/// Minutes until the next check once `offset` is drawn: at least one.
pub open spec fn jittered_minutes(interval_minutes: int, offset: int) -> int {
    if interval_minutes <= 0 {
        1
    } else if interval_minutes + offset < 1 {
        1
    } else {
        interval_minutes + offset
    }
}

/// `t` (seconds) is a possible next check after `base` for an interval.
pub open spec fn in_jitter_window(base: int, interval_minutes: int, t: int) -> bool {
    if interval_minutes <= 0 {
        t == base + 60
    } else {
        let cap = jitter_cap(interval_minutes);
        let lo = if interval_minutes - cap < 1 {
            1
        } else {
            interval_minutes - cap
        };
        base + 60 * lo <= t <= base + 60 * (interval_minutes + cap)
    }
}

pub fn jitter_cap_for(interval_minutes: i64) -> (r: i64)
    requires
        interval_minutes > 0,
    ensures
        r == jitter_cap(interval_minutes as int),
        1 <= r <= 30,
{
    let c = interval_minutes / 10 + if interval_minutes % 10 == 0 {
        0i64
    } else {
        1i64
    };
    assert(c == (interval_minutes + 9) / 10);
    if c < 1 {
        1
    } else if c > 30 {
        30
    } else {
        c
    }
}

/// Relies on rand::Rng::gen_range over rand::thread_rng: a value drawn from
/// the inclusive range (which is not empty here).
#[verifier::external_body]
fn draw_offset(cap: i64) -> (r: i64)
    requires
        0 <= cap,
    ensures
        -cap <= r <= cap,
{
    rand::thread_rng().gen_range(-cap..=cap)
}

/// The next check after `base` (seconds) for an interval, once the jitter
/// offset is drawn.
pub fn next_check_after(base: i64, interval_minutes: i64, offset: i64) -> (r: i64)
    requires
        valid_timestamp(base as int),
        interval_minutes <= MAX_INTERVAL_MINUTES,
        -30 <= offset <= 30,
    ensures
        r == base + 60 * jittered_minutes(interval_minutes as int, offset as int),
{
    let minutes: i64 = if interval_minutes <= 0 {
        1
    } else if interval_minutes + offset < 1 {
        1
    } else {
        interval_minutes + offset
    };
    base + 60 * minutes
}

/// The next check after `base`: the interval plus a uniform jitter of at most
/// `jitter_cap` minutes either way, never less than a minute.
pub fn next_check_with_jitter(base: i64, interval_minutes: i64) -> (r: i64)
    requires
        valid_timestamp(base as int),
        interval_minutes <= MAX_INTERVAL_MINUTES,
    ensures
        in_jitter_window(base as int, interval_minutes as int, r as int),
        interval_minutes > 0 ==> {
            let cap = jitter_cap(interval_minutes as int);
            exists|offset: int|
                -cap <= offset <= cap && r == base + 60 * jittered_minutes(
                    interval_minutes as int,
                    offset,
                )
        },
        r >= base + 60,
{
    if interval_minutes <= 0 {
        return next_check_after(base, interval_minutes, 0);
    }
    let cap = jitter_cap_for(interval_minutes);
    let offset = draw_offset(cap);
    let r = next_check_after(base, interval_minutes, offset);
    assert(-cap <= offset as int <= cap && r == base + 60 * jittered_minutes(
        interval_minutes as int,
        offset as int,
    ));
    r
}

} // verus!
