//! How often a followed account is polled, derived from how often it stars.
use vstd::prelude::*;

verus! {

/// Coarse bucket of polling cadence, shown to readers and used for grouping.
#[derive(Clone, Copy, Debug, PartialEq, Eq, Structural)]
pub enum ActivityTier {
    High,
    Medium,
    Low,
}

impl ActivityTier {
    pub open spec fn name(self) -> Seq<char> {
        match self {
            ActivityTier::High => "high"@,
            ActivityTier::Medium => "medium"@,
            ActivityTier::Low => "low"@,
        }
    }

    pub fn as_str(&self) -> (r: &'static str)
        ensures
            r@ == self.name(),
    {
        match self {
            ActivityTier::High => "high",
            ActivityTier::Medium => "medium",
            ActivityTier::Low => "low",
        }
    }
}

/// Up to an hour is high activity, up to a day medium, anything longer low.
pub open spec fn tier_for(interval_minutes: int) -> ActivityTier {
    if interval_minutes <= 60 {
        ActivityTier::High
    } else if interval_minutes <= 24 * 60 {
        ActivityTier::Medium
    } else {
        ActivityTier::Low
    }
}

pub fn activity_tier_for(interval_minutes: i64) -> (r: ActivityTier)
    ensures
        r == tier_for(interval_minutes as int),
{
    if interval_minutes <= 60 {
        ActivityTier::High
    } else if interval_minutes <= 24 * 60 {
        ActivityTier::Medium
    } else {
        ActivityTier::Low
    }
}

/// The tier's name for a polling interval in minutes.
pub fn derive_activity_tier(interval_minutes: i64) -> (r: String)
    ensures
        r@ == tier_for(interval_minutes as int).name(),
{
    let tier = activity_tier_for(interval_minutes);
    String::from_str(tier.as_str())
}


/// The EMA is held in thousandths of a minute.
pub const EMA_SCALE: i64 = 1000;

/// Longest interval, in minutes, that a time delta of i64 milliseconds holds.
pub const MAX_INTERVAL_MINUTES: i64 = 153_722_867_280_912;

pub open spec fn clamp(x: int, lo: int, hi: int) -> int {
    if x < lo {
        lo
    } else if x > hi {
        hi
    } else {
        x
    }
}

/// Lower end of the polling band: the configured minimum, at least one minute.
pub open spec fn band_lo(min_interval: int) -> int {
    if min_interval < 1 {
        1
    } else {
        min_interval
    }
}

/// Upper end of the polling band: the configured maximum, at least `band_lo`.
pub open spec fn band_hi(min_interval: int, max_interval: int) -> int {
    if max_interval < band_lo(min_interval) {
        band_lo(min_interval)
    } else {
        max_interval
    }
}

/// The default interval, clamped into the band.
pub open spec fn band_default(min_interval: int, max_interval: int, default_interval: int) -> int {
    clamp(default_interval, band_lo(min_interval), band_hi(min_interval, max_interval))
}

/// One EMA update with weight 3/10 on the new gap, rounded to the nearest
/// thousandth and clamped into the band (all in thousandths of a minute).
pub open spec fn ema_step(gap_minutes: int, ema: int, lo: int, hi: int) -> int {
    clamp((3 * (EMA_SCALE as int) * gap_minutes + 7 * ema + 5) / 10, lo * (EMA_SCALE as int), hi * (EMA_SCALE as int))
}

/// A value in thousandths of a minute rounded to whole minutes, halves up.
pub open spec fn round_minutes(milli: int) -> int {
    (milli + 500) / (EMA_SCALE as int)
}

/// Whole minutes from `a` to `b` (seconds), counted only when positive.
pub open spec fn positive_gap(a: int, b: int) -> int {
    if b - a >= 60 {
        (b - a) / 60
    } else {
        0
    }
}

/// Sum of the positive minute gaps between consecutive timestamps.
pub open spec fn gap_total(history: Seq<i64>) -> int
    decreases history.len(),
{
    if history.len() < 2 {
        0
    } else {
        let n = history.len();
        gap_total(history.drop_last()) + positive_gap(history[n - 2] as int, history[n - 1] as int)
    }
}

/// Number of positive minute gaps between consecutive timestamps.
pub open spec fn gap_count(history: Seq<i64>) -> int
    decreases history.len(),
{
    if history.len() < 2 {
        0
    } else {
        let n = history.len();
        gap_count(history.drop_last()) + if positive_gap(history[n - 2] as int, history[n - 1] as int)
            > 0 {
            1int
        } else {
            0int
        }
    }
}

/// Mean positive gap of a history, in thousandths of a minute, rounded down;
/// none when no gap is positive.
pub open spec fn average_gap(history: Seq<i64>) -> Option<int> {
    let t = gap_total(history);
    let c = gap_count(history);
    if c == 0 {
        None
    } else {
        Some((t / c) * (EMA_SCALE as int) + (t % c) * (EMA_SCALE as int) / c)
    }
}

/// The EMA seed when the third star arrives without one: the historical
/// average, or the default interval, clamped into the band.
pub open spec fn bootstrap_ema(history: Seq<i64>, lo: int, hi: int, dflt: int) -> int {
    let avg = match average_gap(history) {
        Some(a) => a,
        None => dflt * (EMA_SCALE as int),
    };
    clamp(avg, lo * (EMA_SCALE as int), hi * (EMA_SCALE as int))
}

/// Walks the new gaps in order from a working state (star count, EMA,
/// interval) and gives the state after the last one.
pub open spec fn walk(
    gaps: Seq<i64>,
    count: int,
    ema: Option<int>,
    interval: int,
    boot: int,
    lo: int,
    hi: int,
    dflt: int,
) -> (int, Option<int>, int)
    decreases gaps.len(),
{
    if gaps.len() == 0 {
        (count, ema, interval)
    } else {
        let c = count + 1;
        let g: int = if gaps[0] < 1 {
            1
        } else {
            gaps[0] as int
        };
        if c < 3 {
            walk(gaps.drop_first(), c, None, dflt, boot, lo, hi, dflt)
        } else {
            let base = match ema {
                Some(e) => e,
                None => boot,
            };
            let e2 = ema_step(g, base, lo, hi);
            walk(gaps.drop_first(), c, Some(e2), round_minutes(e2), boot, lo, hi, dflt)
        }
    }
}

/// Interval (before the final clamp) and EMA that the engine settles on.
pub open spec fn cadence_unclamped(
    min_interval: int,
    max_interval: int,
    default_interval: int,
    previous_interval: int,
    previous_star_count: int,
    previous_ema: Option<int>,
    new_star_count: int,
    gaps: Seq<i64>,
    history: Seq<i64>,
) -> (int, Option<int>) {
    let lo = band_lo(min_interval);
    let hi = band_hi(min_interval, max_interval);
    let dflt = band_default(min_interval, max_interval, default_interval);
    let boot = bootstrap_ema(history, lo, hi, dflt);
    let w = walk(
        gaps,
        previous_star_count,
        previous_ema,
        clamp(previous_interval, lo, hi),
        boot,
        lo,
        hi,
        dflt,
    );
    if new_star_count == 0 {
        (hi, None)
    } else if new_star_count < 3 {
        (dflt, None)
    } else if gaps.len() == 0 {
        match previous_ema {
            Some(e) => (round_minutes(e), Some(e)),
            None => match average_gap(history) {
                Some(a) => {
                    let e = clamp(a, lo * (EMA_SCALE as int), hi * (EMA_SCALE as int));
                    (round_minutes(e), Some(e))
                },
                None => (dflt, None),
            },
        }
    } else {
        (w.2, w.1)
    }
}

/// Outcome of one cadence computation.
#[derive(Clone, Debug)]
pub struct ActivityProfile {
    pub interval_minutes: i64,
    pub activity_tier: ActivityTier,
    /// Smoothed gap between stars, in thousandths of a minute.
    pub ema_milli_minutes: Option<i64>,
}


pub open spec fn int_option(o: Option<i128>) -> Option<int> {
    match o {
        Some(v) => Some(v as int),
        None => None,
    }
}

pub open spec fn i64_option(o: Option<i64>) -> Option<int> {
    match o {
        Some(v) => Some(v as int),
        None => None,
    }
}

/// Mean positive gap between consecutive timestamps (seconds), in thousandths
/// of a minute.
pub fn average_gap_milli_minutes(history: &Vec<i64>) -> (r: Option<i128>)
    ensures
        int_option(r) == average_gap(history@),
{
    let n = history.len();
    if n < 2 {
        return None;
    }
    let bound: i128 = 576_460_752_303_423_488;
    let mut total: i128 = 0;
    let mut count: i128 = 0;
    let mut i: usize = 1;
    while i < n
        invariant
            n == history@.len(),
            bound == 576_460_752_303_423_488,
            1 <= i <= n,
            total == gap_total(history@.take(i as int)),
            count == gap_count(history@.take(i as int)),
            0 <= count <= i,
            0 <= total <= count * bound,
        decreases n - i,
    {
        let a = history[i - 1] as i128;
        let b = history[i] as i128;
        proof {
            let prefix = history@.take(i as int + 1);
            assert(prefix.drop_last() =~= history@.take(i as int));
            assert(prefix[i as int - 1] == history@[i as int - 1]);
            assert(prefix[i as int] == history@[i as int]);
        }
        if b - a >= 60 {
            let g = (b - a) / 60;
            assert(g <= bound) by (nonlinear_arith)
                requires
                    60 <= b - a <= 0x1_0000_0000_0000_0000,
                    g == (b - a) / 60,
                    bound == 576_460_752_303_423_488,
            ;
            assert(total + g <= (count + 1) * bound) by (nonlinear_arith)
                requires
                    total <= count * bound,
                    g <= bound,
            ;
            assert((count + 1) * bound <= 0x1000_0000_0000_0000_0000_0000_0000_0000) by (nonlinear_arith)
                requires
                    0 <= count + 1 <= 0x1_0000_0000_0000_0000,
                    0 < bound <= 0x1000_0000_0000_0000,
            ;
            total = total + g;
            count = count + 1;
        }
        i = i + 1;
    }
    assert(history@.take(n as int) =~= history@);
    if count == 0 {
        None
    } else {
        let q = total / count;
        let rem = total % count;
        assert(q <= bound) by (nonlinear_arith)
            requires
                0 <= total <= count * bound,
                count > 0,
                q == total / count,
        ;
        assert(0 <= rem < count);
        Some(q * 1000 + rem * 1000 / count)
    }
}

/// One EMA update on a gap of at least one minute.
fn ema_update(gap: i64, ema: i128, lo: i64, hi: i64) -> (r: i128)
    requires
        1 <= gap,
        1 <= lo <= hi <= MAX_INTERVAL_MINUTES,
        -0x1_0000_0000_0000_0000 <= ema <= 0x1_0000_0000_0000_0000,
    ensures
        r == ema_step(gap as int, ema as int, lo as int, hi as int),
        lo * 1000 <= r <= hi * 1000,
{
    let n: i128 = 3000 * (gap as i128) + 7 * ema + 5;
    let lo_m = lo as i128 * 1000;
    let hi_m = hi as i128 * 1000;
    if n < 0 {
        assert(n / 10 < 0);
        lo_m
    } else {
        let q = n / 10;
        if q < lo_m {
            lo_m
        } else if q > hi_m {
            hi_m
        } else {
            q
        }
    }
}

/// Whole minutes of a value in thousandths, clamped into `[lo, hi]`.
fn clamped_minutes(milli: i128, lo: i64, hi: i64) -> (r: i64)
    requires
        1 <= lo <= hi,
        -0x1_0000_0000_0000_0000 <= milli <= 0x1_0000_0000_0000_0000,
    ensures
        r == clamp(round_minutes(milli as int), lo as int, hi as int),
{
    if milli < 0 {
        assert((milli + 500) / 1000 <= 0);
        lo
    } else {
        let m = (milli + 500) / 1000;
        if m < lo as i128 {
            lo
        } else if m > hi as i128 {
            hi
        } else {
            m as i64
        }
    }
}

/// Whole minutes of an EMA that lies in the band.
fn band_minutes(milli: i128, lo: i64, hi: i64) -> (r: i64)
    requires
        1 <= lo <= hi <= MAX_INTERVAL_MINUTES,
        lo * 1000 <= milli <= hi * 1000,
    ensures
        r == round_minutes(milli as int),
        lo <= r <= hi,
{
    ((milli + 500) / 1000) as i64
}

fn clamp_i128(x: i128, lo: i128, hi: i128) -> (r: i128)
    requires
        lo <= hi,
    ensures
        r == clamp(x as int, lo as int, hi as int),
{
    if x < lo {
        lo
    } else if x > hi {
        hi
    } else {
        x
    }
}

/// Next polling interval, EMA and tier for a user, from the previous cadence
/// state, the new star count, the gaps (minutes) that the new stars opened in
/// chronological order, and the user's stored star timestamps in ascending
/// order, from which the EMA is seeded when it is absent.
pub fn recompute_interval(
    min_interval: i64,
    max_interval: i64,
    default_interval: i64,
    previous_interval: i64,
    previous_star_count: i64,
    previous_ema: Option<i64>,
    new_star_count: i64,
    gaps: &Vec<i64>,
    history: &Vec<i64>,
) -> (r: ActivityProfile)
    requires
        min_interval <= MAX_INTERVAL_MINUTES,
        max_interval <= MAX_INTERVAL_MINUTES,
    ensures
        ({
            let c = cadence_unclamped(
                min_interval as int,
                max_interval as int,
                default_interval as int,
                previous_interval as int,
                previous_star_count as int,
                i64_option(previous_ema),
                new_star_count as int,
                gaps@,
                history@,
            );
            &&& r.interval_minutes == clamp(
                c.0,
                band_lo(min_interval as int),
                band_hi(min_interval as int, max_interval as int),
            )
            &&& i64_option(r.ema_milli_minutes) == c.1
        }),
        band_lo(min_interval as int) <= r.interval_minutes <= band_hi(
            min_interval as int,
            max_interval as int,
        ),
        r.activity_tier == tier_for(r.interval_minutes as int),
        new_star_count == 0 ==> r.ema_milli_minutes is None && r.interval_minutes == band_hi(
            min_interval as int,
            max_interval as int,
        ) && r.activity_tier == tier_for(band_hi(min_interval as int, max_interval as int)),
        0 < new_star_count < 3 ==> r.ema_milli_minutes is None && r.interval_minutes
            == band_default(min_interval as int, max_interval as int, default_interval as int),
{
    let lo: i64 = if min_interval < 1 {
        1
    } else {
        min_interval
    };
    let hi: i64 = if max_interval < lo {
        lo
    } else {
        max_interval
    };
    let dflt: i64 = if default_interval < lo {
        lo
    } else if default_interval > hi {
        hi
    } else {
        default_interval
    };
    let lo_m: i128 = lo as i128 * 1000;
    let hi_m: i128 = hi as i128 * 1000;
    let avg = average_gap_milli_minutes(history);
    let seed: i128 = match avg {
        Some(a) => a,
        None => dflt as i128 * 1000,
    };
    let boot = clamp_i128(seed, lo_m, hi_m);
    let ghost prev_ema = i64_option(previous_ema);
    let ghost start = walk(
        gaps@,
        previous_star_count as int,
        prev_ema,
        clamp(previous_interval as int, lo as int, hi as int),
        boot as int,
        lo as int,
        hi as int,
        dflt as int,
    );
    let mut count: i128 = previous_star_count as i128;
    let mut ema: Option<i128> = match previous_ema {
        Some(e) => Some(e as i128),
        None => None,
    };
    let mut interval: i64 = if previous_interval < lo {
        lo
    } else if previous_interval > hi {
        hi
    } else {
        previous_interval
    };
    let mut i: usize = 0;
    assert(gaps@.skip(0) =~= gaps@);
    while i < gaps.len()
        invariant
            0 <= i <= gaps@.len(),
            1 <= lo <= hi <= MAX_INTERVAL_MINUTES,
            lo_m == lo * 1000,
            hi_m == hi * 1000,
            lo_m <= boot <= hi_m,
            lo <= dflt <= hi,
            count == previous_star_count + i,
            lo <= interval <= hi,
            match ema {
                Some(e) => (lo_m <= e <= hi_m) || Some(e as int) == prev_ema,
                None => true,
            },
            prev_ema == i64_option(previous_ema),
            walk(
                gaps@.skip(i as int),
                count as int,
                int_option(ema),
                interval as int,
                boot as int,
                lo as int,
                hi as int,
                dflt as int,
            ) == start,
        decreases gaps@.len() - i,
    {
        let g0 = gaps[i];
        let g: i64 = if g0 < 1 {
            1
        } else {
            g0
        };
        assert(gaps@.skip(i as int).drop_first() =~= gaps@.skip(i as int + 1));
        assert(gaps@.skip(i as int)[0] == g0);
        count = count + 1;
        if count < 3 {
            ema = None;
            interval = dflt;
        } else {
            let base: i128 = match ema {
                Some(e) => e,
                None => boot,
            };
            let e2 = ema_update(g, base, lo, hi);
            ema = Some(e2);
            interval = band_minutes(e2, lo, hi);
        }
        i = i + 1;
    }
    assert(gaps@.skip(gaps@.len() as int) =~= Seq::<i64>::empty());
    let result: (i64, Option<i128>) = if new_star_count == 0 {
        (hi, None)
    } else if new_star_count < 3 {
        (dflt, None)
    } else if gaps.len() == 0 {
        match previous_ema {
            Some(e) => (clamped_minutes(e as i128, lo, hi), Some(e as i128)),
            None => match avg {
                Some(a) => {
                    let c = clamp_i128(a, lo_m, hi_m);
                    (band_minutes(c, lo, hi), Some(c))
                },
                None => (dflt, None),
            },
        }
    } else {
        (interval, ema)
    };
    let ema_out: Option<i64> = match result.1 {
        Some(e) => Some(e as i64),
        None => None,
    };
    ActivityProfile {
        interval_minutes: result.0,
        activity_tier: activity_tier_for(result.0),
        ema_milli_minutes: ema_out,
    }
}


/// Minute gaps that a batch of star timestamps (seconds, in the order given)
/// opens after `prev`, keeping only the positive ones.
pub open spec fn new_gaps(prev: Option<i64>, starred: Seq<i64>) -> Seq<i64>
    decreases starred.len(),
{
    if starred.len() == 0 {
        Seq::empty()
    } else {
        let head = match prev {
            Some(p) => if positive_gap(p as int, starred[0] as int) > 0 {
                seq![positive_gap(p as int, starred[0] as int) as i64]
            } else {
                Seq::empty()
            },
            None => Seq::empty(),
        };
        head + new_gaps(Some(starred[0]), starred.drop_first())
    }
}

/// Gaps in minutes between consecutive star timestamps, seeded with the last
/// star seen before the batch; gaps that are not positive are dropped.
pub fn compute_gap_minutes(starred: &Vec<i64>, previous_last_starred: Option<i64>) -> (r: Vec<i64>)
    ensures
        r@ == new_gaps(previous_last_starred, starred@),
{
    let mut gaps: Vec<i64> = Vec::new();
    let mut prev = previous_last_starred;
    let mut i: usize = 0;
    assert(starred@.skip(0) =~= starred@);
    while i < starred.len()
        invariant
            0 <= i <= starred@.len(),
            gaps@ + new_gaps(prev, starred@.skip(i as int)) == new_gaps(
                previous_last_starred,
                starred@,
            ),
        decreases starred@.len() - i,
    {
        let t = starred[i];
        let ghost old_gaps = gaps@;
        assert(starred@.skip(i as int).drop_first() =~= starred@.skip(i as int + 1));
        assert(starred@.skip(i as int)[0] == t);
        match prev {
            Some(p) => {
                let d = t as i128 - p as i128;
                if d >= 60 {
                    let g = (d / 60) as i64;
                    gaps.push(g);
                }
            },
            None => {},
        }
        proof {
            let rest = new_gaps(Some(t), starred@.skip(i as int + 1));
            let whole = new_gaps(prev, starred@.skip(i as int));
            assert(old_gaps + whole =~= gaps@ + rest);
        }
        prev = Some(t);
        i = i + 1;
    }
    assert(starred@.skip(i as int) =~= Seq::<i64>::empty());
    assert(gaps@ + Seq::<i64>::empty() =~= gaps@);
    gaps
}

/// Where `x` goes in `s` so that it follows every leading element not above it.
pub open spec fn insert_pos(s: Seq<i64>, x: i64) -> int
    decreases s.len(),
{
    if s.len() == 0 {
        0
    } else if s[0] <= x {
        1 + insert_pos(s.drop_first(), x)
    } else {
        0
    }
}

/// `s` in ascending order, built by inserting its elements one by one.
pub open spec fn sort_ascending(s: Seq<i64>) -> Seq<i64>
    decreases s.len(),
{
    if s.len() == 0 {
        s
    } else {
        let rest = sort_ascending(s.drop_last());
        rest.insert(insert_pos(rest, s.last()), s.last())
    }
}

proof fn lemma_insert_pos_bounds(s: Seq<i64>, x: i64)
    ensures
        0 <= insert_pos(s, x) <= s.len(),
    decreases s.len(),
{
    if s.len() > 0 {
        lemma_insert_pos_bounds(s.drop_first(), x);
    }
}

proof fn lemma_sort_len(s: Seq<i64>)
    ensures
        sort_ascending(s).len() == s.len(),
    decreases s.len(),
{
    if s.len() > 0 {
        lemma_sort_len(s.drop_last());
        lemma_insert_pos_bounds(sort_ascending(s.drop_last()), s.last());
    }
}

/// The timestamps in ascending order.
pub fn sorted_ascending(v: &Vec<i64>) -> (r: Vec<i64>)
    ensures
        r@ == sort_ascending(v@),
{
    let mut out: Vec<i64> = Vec::new();
    let mut i: usize = 0;
    assert(v@.take(0) =~= Seq::<i64>::empty());
    while i < v.len()
        invariant
            0 <= i <= v@.len(),
            out@ == sort_ascending(v@.take(i as int)),
            out@.len() == i,
        decreases v@.len() - i,
    {
        let x = v[i];
        let mut k: usize = 0;
        assert(out@.skip(0) =~= out@);
        loop
            invariant
                0 <= k <= out@.len(),
                insert_pos(out@, x) == k + insert_pos(out@.skip(k as int), x),
            ensures
                0 <= k <= out@.len(),
                insert_pos(out@, x) == k,
            decreases out@.len() - k,
        {
            if k >= out.len() {
                assert(out@.skip(k as int).len() == 0);
                break;
            }
            if out[k] > x {
                assert(out@.skip(k as int)[0] == out@[k as int]);
                break;
            }
            assert(out@.skip(k as int).drop_first() =~= out@.skip(k as int + 1));
            k = k + 1;
        }
        proof {
            let pre = v@.take(i as int + 1);
            assert(pre.drop_last() =~= v@.take(i as int));
            assert(pre.last() == x);
        }
        out.insert(k, x);
        i = i + 1;
    }
    assert(v@.take(v@.len() as int) =~= v@);
    out
}

} // verus!
