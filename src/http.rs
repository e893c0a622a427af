//! Weak entity tags for the read API and conditional-request matching.
use crate::text::{
    decimal, fnv_continue, same_chars, fnv_from, hex_width, push_decimal, push_hex, signed_decimal,
    signed_decimal_string, trim, trimmed, FNV_OFFSET, lemma_fnv_append,
};
use vstd::prelude::*;
use vstd::string::StrSliceExecFns;
use vstd::string::StringSliceAdditionalSpecFns;

verus! {

/// `W/"<label>-<16 hex digits>"`.
pub open spec fn weak_etag(label: Seq<char>, hash: u64) -> Seq<char> {
    "W/\""@ + label + "-"@ + hex_width(hash as nat, 16) + "\""@
}

/// The weak tag of a payload under a label: FNV-1a over the label, `|` and
/// the payload.
pub open spec fn hashed_etag(label: &str, payload: &str) -> Seq<char> {
    weak_etag(
        label@,
        fnv_from(FNV_OFFSET, label.spec_bytes() + seq![124u8] + payload.spec_bytes()),
    )
}

pub fn compute_hashed_etag(label: &str, payload: &str) -> (r: String)
    ensures
        r@ == hashed_etag(label, payload),
{
    let h1 = fnv_continue(FNV_OFFSET, label.as_bytes());
    let sep: [u8; 1] = [124u8];
    let h2 = fnv_continue(h1, sep.as_slice());
    let h3 = fnv_continue(h2, payload.as_bytes());
    proof {
        assert(sep@ =~= seq![124u8]);
        lemma_fnv_append(FNV_OFFSET, label.spec_bytes(), seq![124u8]);
        lemma_fnv_append(FNV_OFFSET, label.spec_bytes() + seq![124u8], payload.spec_bytes());
    }
    let mut r = String::from_str("W/\"");
    r.append(label);
    r.append("-");
    push_hex(&mut r, h3, 16);
    r.append("\"");
    r
}

/// The key of a stars listing: the normalized query, the newest fetch time
/// of the filtered set in milliseconds (or `none`), and the total.
pub open spec fn stars_etag_key(fingerprint: Seq<char>, newest_fetched_ms: Option<i64>, total: usize) -> Seq<char> {
    let newest = match newest_fetched_ms {
        Some(ms) => signed_decimal(ms as int),
        None => "none"@,
    };
    fingerprint + "|"@ + newest + "|"@ + decimal(total as nat)
}

pub fn compute_stars_etag(fingerprint: &str, newest_fetched_ms: Option<i64>, total: usize) -> (r: String)
    ensures
        exists|key: &str|
            key@ == stars_etag_key(fingerprint@, newest_fetched_ms, total) && r@ == hashed_etag(
                "stars",
                key,
            ),
{
    let mut key = String::from_str(fingerprint);
    key.append("|");
    match newest_fetched_ms {
        Some(ms) => {
            let d = signed_decimal_string(ms);
            key.append(d.as_str());
        },
        None => {
            key.append("none");
        },
    }
    key.append("|");
    push_decimal(&mut key, total as u64);
    let k = key.as_str();
    assert(k@ =~= stars_etag_key(fingerprint@, newest_fetched_ms, total));
    compute_hashed_etag("stars", k)
}

/// `t[a..b]` is one of the comma-separated tokens of `t`.
pub open spec fn is_token(t: Seq<char>, a: int, b: int) -> bool {
    &&& 0 <= a <= b <= t.len()
    &&& (a == 0 || t[a - 1] == ',')
    &&& (b == t.len() || t[b] == ',')
    &&& forall|k: int| a <= k < b ==> #[trigger] t[k] != ','
}

/// An `If-None-Match` value matches a tag when, trimmed, it is `*` or one
/// of its comma-separated tokens is the tag once trimmed.
pub open spec fn etag_listed(header: Seq<char>, etag: Seq<char>) -> bool {
    let t = trimmed(header);
    ||| t == "*"@
    ||| exists|a: int, b: int| is_token(t, a, b) && #[trigger] trimmed(t.subrange(a, b)) == etag
}

/// Whether a conditional request is answered "not modified".
pub fn should_return_not_modified(if_none_match: Option<&str>, etag: &str) -> (r: bool)
    ensures
        r == match if_none_match {
            Some(h) => etag_listed(h@, etag@),
            None => false,
        },
{
    let h = match if_none_match {
        Some(h) => h,
        None => {
            return false;
        },
    };
    let t = trim(h);
    let n = t.unicode_len();
    proof {
        reveal_strlit("*");
    }
    if n == 1 && t.get_char(0) == '*' {
        assert(t@ =~= "*"@);
        return true;
    }
    assert(t@ != "*"@);
    let mut start: usize = 0;
    let mut i: usize = 0;
    loop
        invariant
            0 <= start <= i <= n,
            if_none_match == Some(h),
            n == t@.len(),
            t@ == trimmed(h@),
            t@ != "*"@,
            start == 0 || t@[start - 1] == ',',
            forall|k: int| start <= k < i ==> #[trigger] t@[k] != ',',
            forall|a: int, b: int|
                is_token(t@, a, b) && b < i ==> #[trigger] trimmed(t@.subrange(a, b)) != etag@,
        decreases n - i,
    {
        let at_end = i == n;
        if at_end || t.get_char(i) == ',' {
            let seg = t.substring_char(start, i);
            let piece = trim(seg);
            assert(is_token(t@, start as int, i as int));
            if same_chars(piece, etag) {
                assert(trimmed(t@.subrange(start as int, i as int)) == etag@);
                assert(etag_listed(h@, etag@));
                return true;
            }
            proof {
                assert forall|a: int, b: int| is_token(t@, a, b) && b < i + 1 implies #[trigger] trimmed(
                    t@.subrange(a, b),
                ) != etag@ by {
                    if b == i {
                        if a < start {
                            assert(t@[start - 1] == ',');
                        } else if a > start {
                            assert(t@[a - 1] != ',');
                        }
                    }
                }
            }
            if at_end {
                assert(!etag_listed(h@, etag@)) by {
                    assert forall|a: int, b: int| is_token(t@, a, b) implies #[trigger] trimmed(
                        t@.subrange(a, b),
                    ) != etag@ by {
                        assert(b < i + 1);
                    }
                }
                return false;
            }
            start = i + 1;
        }
        i = i + 1;
    }
}

} // verus!
