//! The forge's answers as the poller sees them: how a status is handled,
//! how a `Retry-After` value reads, and when paging stops.
use crate::store::StarEvent;
use vstd::prelude::*;
use vstd::string::StrSliceExecFns;

verus! {

/// Page size asked of the forge.
pub const PER_PAGE: usize = 100;

/// Errors of a forge request.
#[derive(Debug)]
pub enum GitHubApiError {
    /// 403 with `Retry-After`: wait this many seconds.
    RateLimited(u64),
    /// 401.
    Auth,
    /// 403 without `Retry-After`.
    Forbidden,
    /// Transport, parse or unexpected status.
    Other(String),
}

/// What the forge answered about a user's stars.
#[derive(Debug)]
pub enum StarFetchOutcome {
    NotModified { fetched_at: i64 },
    Modified {
        fetched_at: i64,
        etag: Option<String>,
        last_modified: Option<String>,
        events: Vec<StarEvent>,
    },
}

/// How a response status is handled.
#[derive(Clone, Copy, Debug, PartialEq, Eq, Structural)]
pub enum ResponseClass {
    Success,
    NotModified,
    RateLimited(u64),
    Auth,
    Forbidden,
    Unexpected,
}

pub open spec fn class_of(status: u16, retry_after_secs: Option<u64>, conditional: bool) -> ResponseClass {
    if status == 200 {
        ResponseClass::Success
    } else if status == 304 && conditional {
        ResponseClass::NotModified
    } else if status == 401 {
        ResponseClass::Auth
    } else if status == 403 {
        match retry_after_secs {
            Some(w) => ResponseClass::RateLimited(w),
            None => ResponseClass::Forbidden,
        }
    } else {
        ResponseClass::Unexpected
    }
}

/// Handling of a status: 200 reads the page; 304 means unchanged where the
/// request was conditional; 401 is an authentication failure; 403 is a rate
/// limit when the forge says how long to wait, else a refusal; anything else
/// is unexpected.
pub fn classify_response(status: u16, retry_after_secs: Option<u64>, conditional: bool) -> (r: ResponseClass)
    ensures
        r == class_of(status, retry_after_secs, conditional),
{
    if status == 200 {
        ResponseClass::Success
    } else if status == 304 && conditional {
        ResponseClass::NotModified
    } else if status == 401 {
        ResponseClass::Auth
    } else if status == 403 {
        match retry_after_secs {
            Some(w) => ResponseClass::RateLimited(w),
            None => ResponseClass::Forbidden,
        }
    } else {
        ResponseClass::Unexpected
    }
}

pub open spec fn is_digit(c: char) -> bool {
    '0' <= c <= '9'
}

pub open spec fn digits_value(s: Seq<char>) -> int
    decreases s.len(),
{
    if s.len() == 0 {
        0
    } else {
        digits_value(s.drop_last()) * 10 + (s.last() as int - '0' as int)
    }
}

/// A decimal number of seconds as `u64` reads it: an optional `+`, then one
/// or more digits, with a value that fits.
pub open spec fn all_digits(s: Seq<char>) -> bool {
    forall|i: int| 0 <= i < s.len() ==> is_digit(#[trigger] s[i])
}

/// The digits of a seconds value: without a leading `+`.
pub open spec fn unsigned_part(s: Seq<char>) -> Seq<char> {
    if s.len() > 0 && s[0] == '+' {
        s.drop_first()
    } else {
        s
    }
}

pub open spec fn seconds_value(s: Seq<char>) -> Option<int> {
    let body = unsigned_part(s);
    if body.len() == 0 || !all_digits(body) {
        None
    } else if digits_value(body) > u64::MAX {
        None
    } else {
        Some(digits_value(body))
    }
}

/// Reads a `Retry-After` value given in seconds.
pub fn parse_retry_after(value: &str) -> (r: Option<u64>)
    ensures
        match r {
            Some(v) => seconds_value(value@) == Some(v as int),
            None => seconds_value(value@) is None,
        },
{
    let n = value.unicode_len();
    let start: usize = if n > 0 && value.get_char(0) == '+' {
        1
    } else {
        0
    };
    let ghost body = if value@.len() > 0 && value@[0] == '+' {
        value@.drop_first()
    } else {
        value@
    };
    assert(body =~= value@.subrange(start as int, n as int));
    if start >= n {
        assert(body.len() == 0);
        return None;
    }
    let limit: u128 = 0x1_0000_0000_0000_0000;
    let mut acc: u128 = 0;
    let mut i: usize = start;
    assert(value@.subrange(start as int, start as int) =~= Seq::<char>::empty());
    while i < n
        invariant
            start <= i <= n,
            n == value@.len(),
            start == (if value@.len() > 0 && value@[0] == '+' {
                1int
            } else {
                0int
            }),
            limit == 0x1_0000_0000_0000_0000,
            body =~= value@.subrange(start as int, n as int),
            forall|k: int| start <= k < i ==> is_digit(#[trigger] value@[k]),
            acc == if digits_value(value@.subrange(start as int, i as int)) < limit {
                digits_value(value@.subrange(start as int, i as int))
            } else {
                limit as int
            },
        decreases n - i,
    {
        let c = value.get_char(i);
        if !('0' <= c && c <= '9') {
            assert(!is_digit(body[i - start]));
            assert(body.len() > 0);
            assert(unsigned_part(value@) =~= body);
            assert(!all_digits(body));
            return None;
        }
        let d = (c as u32 - '0' as u32) as u128;
        proof {
            let pre = value@.subrange(start as int, i as int + 1);
            assert(pre.drop_last() =~= value@.subrange(start as int, i as int));
            assert(pre.last() == c);
        }
        if acc >= limit {
            acc = limit;
        } else {
            let next = acc * 10 + d;
            acc = if next >= limit {
                limit
            } else {
                next
            };
        }
        i = i + 1;
    }
    assert(value@.subrange(start as int, n as int) =~= body);
    if acc >= limit {
        None
    } else {
        Some(acc as u64)
    }
}

/// Where a page's new events end: at the first event not later than the
/// latest star already known, or at the end of the page.
pub open spec fn known_cutoff(page: Seq<i64>, known_latest: Option<i64>) -> int
    decreases page.len(),
{
    match known_latest {
        None => page.len() as int,
        Some(k) => if page.len() == 0 {
            0
        } else if page[0] <= k {
            0
        } else {
            1 + known_cutoff(page.drop_first(), known_latest)
        },
    }
}

pub open spec fn page_times(page: Seq<StarEvent>) -> Seq<i64> {
    page.map_values(|e: StarEvent| e.starred_at)
}

/// Keeps the events of a page (newest first) that are later than the latest
/// star already known; returns whether a known one was met, after which no
/// page is read.
pub fn keep_new_events(page: &mut Vec<StarEvent>, known_latest: Option<i64>) -> (reached_known: bool)
    ensures
        ({
            let cut = known_cutoff(page_times(old(page)@), known_latest);
            &&& 0 <= cut <= old(page)@.len()
            &&& final(page)@ == old(page)@.subrange(0, cut)
            &&& reached_known == (cut < old(page)@.len())
        }),
{
    let ghost times = page_times(page@);
    assert(times.len() == page@.len());
    let mut k: usize = 0;
    match known_latest {
        None => {
            assert(page@.subrange(0, page@.len() as int) =~= page@);
            return false;
        },
        Some(latest) => {
            assert(times.skip(0) =~= times);
            while k < page.len()
                invariant
                    0 <= k <= page@.len(),
                    times == page_times(page@),
                    times.len() == page@.len(),
                    known_latest == Some(latest),
                    page@ == old(page)@,
                    known_cutoff(times, known_latest) == k + known_cutoff(times.skip(k as int), known_latest),
                decreases page@.len() - k,
            {
                assert(times[k as int] == page@[k as int].starred_at);
                assert(times.skip(k as int)[0] == times[k as int]);
                assert(times.skip(k as int).len() > 0);
                if page[k].starred_at <= latest {
                    assert(known_cutoff(times.skip(k as int), known_latest) == 0);
                    page.truncate(k);
                    return true;
                }
                assert(times.skip(k as int).drop_first() =~= times.skip(k as int + 1));
                assert(known_cutoff(times.skip(k as int), known_latest) == 1 + known_cutoff(
                    times.skip(k as int + 1),
                    known_latest,
                ));
                k = k + 1;
            }
            assert(times.skip(k as int).len() == 0);
            assert(page@.subrange(0, page@.len() as int) =~= page@);
            false
        },
    }
}

/// Whether the next page of stars is read: only after a full page of new
/// events.
pub fn starred_has_next_page(kept: usize, reached_known: bool) -> (r: bool)
    ensures
        r == (!reached_known && kept >= PER_PAGE),
{
    !reached_known && kept >= PER_PAGE
}

/// Whether the next page of followings is read: only after a full page.
pub fn followings_has_next_page(page_len: usize) -> (r: bool)
    ensures
        r == (page_len >= PER_PAGE),
{
    page_len >= PER_PAGE
}

/// The cache validators sent with a request of a paginated read
/// (`If-None-Match`, `If-Modified-Since`): the stored ones on the first
/// page, none after it.
pub fn request_validators(first_page: bool, etag: &Option<String>, last_modified: &Option<String>) -> (r: (Option<String>, Option<String>))
    ensures
        first_page ==> r.0 == *etag && r.1 == *last_modified,
        !first_page ==> r.0 is None && r.1 is None,
{
    if first_page {
        let e = match etag {
            Some(t) => Some(t.clone()),
            None => None,
        };
        let m = match last_modified {
            Some(t) => Some(t.clone()),
            None => None,
        };
        (e, m)
    } else {
        (None, None)
    }
}

} // verus!
