//! Validation of configured values, and where each value came from.
use crate::store::CadenceSettings;
use crate::cadence::MAX_INTERVAL_MINUTES;
use crate::text::{is_white_space, same_chars, trim, trimmed, white_space};
use vstd::prelude::*;
use vstd::string::StrSliceExecFns;

verus! {

/// The canonical form of a path prefix with no whitespace: each non-empty
/// `/`-separated segment preceded by one `/`.
pub open spec fn canonical_from(s: Seq<char>, at_boundary: bool) -> Seq<char>
    decreases s.len(),
{
    if s.len() == 0 {
        Seq::empty()
    } else if s[0] == '/' {
        canonical_from(s.drop_first(), true)
    } else if at_boundary {
        seq!['/', s[0]] + canonical_from(s.drop_first(), false)
    } else {
        seq![s[0]] + canonical_from(s.drop_first(), false)
    }
}

pub open spec fn has_white_space(s: Seq<char>) -> bool {
    exists|i: int| 0 <= i < s.len() && #[trigger] is_white_space(s[i])
}

/// Normalizes the path prefix under which the server is mounted: trimmed,
/// empty or `/`-only gives the empty prefix; inner whitespace is refused.
pub fn canonicalize_prefix(raw: &str) -> (r: Result<String, String>)
    ensures
        r is Err <==> has_white_space(trimmed(raw@)),
        r matches Ok(p) ==> p@ == canonical_from(trimmed(raw@), true),
        r matches Err(m) ==> m@ == "serve prefix must not contain whitespace"@,
{
    let t = trim(raw);
    let n = t.unicode_len();
    let mut i: usize = 0;
    while i < n
        invariant
            0 <= i <= n,
            n == t@.len(),
            t@ == trimmed(raw@),
            forall|k: int| 0 <= k < i ==> !is_white_space(#[trigger] t@[k]),
        decreases n - i,
    {
        if white_space(t.get_char(i)) {
            assert(is_white_space(t@[i as int]));
            assert(has_white_space(t@));
            return Err(String::from_str("serve prefix must not contain whitespace"));
        }
        i = i + 1;
    }
    let mut out = String::new();
    let mut boundary = true;
    let mut j: usize = 0;
    let slash = "/";
    proof {
        reveal_strlit("/");
    }
    assert(t@.skip(0) =~= t@);
    while j < n
        invariant
            0 <= j <= n,
            n == t@.len(),
            t@ == trimmed(raw@),
            slash@ == seq!['/'],
            out@ + canonical_from(t@.skip(j as int), boundary) == canonical_from(t@, true),
        decreases n - j,
    {
        let c = t.get_char(j);
        let ghost before = out@;
        let ghost rest = t@.skip(j as int);
        let ghost b0 = boundary;
        assert(rest.drop_first() =~= t@.skip(j as int + 1));
        assert(rest[0] == c);
        if c == '/' {
            boundary = true;
        } else {
            let piece = t.substring_char(j, j + 1);
            assert(piece@ =~= seq![c]);
            if boundary {
                out.append(slash);
                out.append(piece);
                assert(out@ =~= before + seq!['/', c]);
            } else {
                out.append(piece);
            }
            boundary = false;
        }
        assert(out@ + canonical_from(t@.skip(j as int + 1), boundary) =~= before + canonical_from(rest, b0));
        j = j + 1;
    }
    assert(t@.skip(n as int) =~= Seq::<char>::empty());
    assert(out@ + Seq::<char>::empty() =~= out@);
    Ok(out)
}

/// The refresh period of the server's poller, which must be positive.
pub fn validate_refresh_minutes(minutes: u64, origin: &str) -> (r: Result<u64, String>)
    ensures
        r is Ok <==> minutes > 0,
        r matches Ok(m) ==> m == minutes,
        r matches Err(e) ==> e@ == "refresh minutes must be greater than zero (source: "@ + origin@
            + ")"@,
{
    if minutes == 0 {
        let mut e = String::from_str("refresh minutes must be greater than zero (source: ");
        e.append(origin);
        e.append(")");
        Err(e)
    } else {
        Ok(minutes)
    }
}

/// Where a configured value came from.
#[derive(Debug)]
pub enum ValueOrigin {
    /// A command-line flag.
    Flag(&'static str),
    /// An environment variable.
    Env(&'static str),
    /// A key of a configuration file.
    Config { path: String, key: &'static str },
    /// The built-in default.
    Default,
}

impl ValueOrigin {
    pub open spec fn text(&self) -> Seq<char> {
        match self {
            ValueOrigin::Flag(f) => "flag "@ + f@,
            ValueOrigin::Env(v) => "environment variable "@ + v@,
            ValueOrigin::Config { path, key } => "config file "@ + path@ + " (key "@ + key@ + ")"@,
            ValueOrigin::Default => "default value"@,
        }
    }

    /// Names the origin for error messages.
    pub fn describe(&self) -> (r: String)
        ensures
            r@ == self.text(),
    {
        match self {
            ValueOrigin::Flag(f) => {
                let mut s = String::from_str("flag ");
                s.append(f);
                s
            },
            ValueOrigin::Env(v) => {
                let mut s = String::from_str("environment variable ");
                s.append(v);
                s
            },
            ValueOrigin::Config { path, key } => {
                let mut s = String::from_str("config file ");
                s.append(path.as_str());
                s.append(" (key ");
                s.append(key);
                s.append(")");
                s
            },
            ValueOrigin::Default => String::from_str("default value"),
        }
    }
}

/// The origin of each configured field, by field name.
#[derive(Debug)]
pub struct FieldOrigins {
    entries: Vec<(&'static str, ValueOrigin)>,
}

impl FieldOrigins {
    pub closed spec fn entries_view(&self) -> Seq<(&'static str, ValueOrigin)> {
        self.entries@
    }

    /// The origin recorded for a field, if any.
    pub open spec fn lookup(&self, key: Seq<char>) -> Option<ValueOrigin> {
        if exists|i: int| 0 <= i < self.entries_view().len() && #[trigger] self.entries_view()[i].0@ == key {
            let i = choose|i: int| 0 <= i < self.entries_view().len() && #[trigger] self.entries_view()[i].0@ == key;
            Some(self.entries_view()[i].1)
        } else {
            None
        }
    }

    pub open spec fn wf(&self) -> bool {
        forall|i: int, j: int|
            0 <= i < self.entries_view().len() && 0 <= j < self.entries_view().len()
                && #[trigger] self.entries_view()[i].0@ == #[trigger] self.entries_view()[j].0@ ==> i == j
    }

    pub fn new() -> (r: FieldOrigins)
        ensures
            r.wf(),
            forall|k: Seq<char>| r.lookup(k) is None,
    {
        FieldOrigins { entries: Vec::new() }
    }

    fn position(&self, key: &str) -> (r: Option<usize>)
        ensures
            match r {
                Some(i) => i < self.entries_view().len() && self.entries_view()[i as int].0@ == key@,
                None => forall|i: int|
                    0 <= i < self.entries_view().len() ==> #[trigger] self.entries_view()[i].0@ != key@,
            },
    {
        let mut i: usize = 0;
        while i < self.entries.len()
            invariant
                0 <= i <= self.entries@.len(),
                forall|k: int| 0 <= k < i ==> #[trigger] self.entries@[k].0@ != key@,
            decreases self.entries@.len() - i,
        {
            if same_chars(self.entries[i].0, key) {
                return Some(i);
            }
            i = i + 1;
        }
        None
    }

    /// Records where a field's value came from, replacing an earlier record.
    pub fn set(&mut self, key: &'static str, origin: ValueOrigin)
        requires
            old(self).wf(),
        ensures
            final(self).wf(),
            final(self).lookup(key@) == Some(origin),
            forall|k: Seq<char>| k != key@ ==> #[trigger] final(self).lookup(k) == old(self).lookup(k),
    {
        let ghost o = origin;
        match self.position(key) {
            Some(i) => {
                self.entries.set(i, (key, origin));
                proof {
                    assert(old(self).entries_view() == old(self).entries@);
                    assert(self.entries_view() == self.entries@);
                    assert(self.entries@[i as int].0@ == key@);
                    assert forall|a: int, b: int|
                        0 <= a < self.entries@.len() && 0 <= b < self.entries@.len()
                            && #[trigger] self.entries@[a].0@ == #[trigger] self.entries@[b].0@ implies a == b by {
                        assert(self.entries@[a].0@ == old(self).entries@[a].0@);
                        assert(self.entries@[b].0@ == old(self).entries@[b].0@);
                    }
                    assert forall|k: Seq<char>| k != key@ implies #[trigger] self.lookup(k) == old(self).lookup(k) by {
                        if exists|j: int| 0 <= j < self.entries@.len() && #[trigger] self.entries@[j].0@ == k {
                            let j = choose|j: int| 0 <= j < self.entries@.len() && #[trigger] self.entries@[j].0@ == k;
                            assert(j != i);
                            assert(self.entries@[j] == old(self).entries@[j]);
                            let j2 = choose|j: int| 0 <= j < old(self).entries@.len() && #[trigger] old(self).entries@[j].0@ == k;
                            assert(j2 == j);
                        } else {
                            assert forall|j: int| 0 <= j < old(self).entries@.len() implies #[trigger] old(self).entries@[j].0@ != k by {
                                if j != i {
                                    assert(self.entries@[j] == old(self).entries@[j]);
                                }
                            }
                        }
                    }
                    let j3 = choose|j: int| 0 <= j < self.entries@.len() && #[trigger] self.entries@[j].0@ == key@;
                    assert(j3 == i);
                }
            },
            None => {
                self.entries.push((key, origin));
                proof {
                    assert(old(self).entries_view() == old(self).entries@);
                    assert(self.entries_view() == self.entries@);
                    let n = old(self).entries@.len() as int;
                    assert(self.entries@[n].0@ == key@);
                    assert forall|i: int, j: int|
                        0 <= i < self.entries@.len() && 0 <= j < self.entries@.len()
                            && #[trigger] self.entries@[i].0@ == #[trigger] self.entries@[j].0@ implies i == j by {
                        if i < n && j < n {
                            assert(self.entries@[i] == old(self).entries@[i]);
                            assert(self.entries@[j] == old(self).entries@[j]);
                        } else if i < n {
                            assert(self.entries@[i] == old(self).entries@[i]);
                        } else if j < n {
                            assert(self.entries@[j] == old(self).entries@[j]);
                        }
                    }
                    assert forall|k: Seq<char>| k != key@ implies #[trigger] self.lookup(k) == old(self).lookup(k) by {
                        if exists|j: int| 0 <= j < self.entries@.len() && #[trigger] self.entries@[j].0@ == k {
                            let j = choose|j: int| 0 <= j < self.entries@.len() && #[trigger] self.entries@[j].0@ == k;
                            assert(j < n);
                            assert(self.entries@[j] == old(self).entries@[j]);
                            assert(old(self).entries@[j].0@ == k);
                            let j2 = choose|j: int| 0 <= j < old(self).entries@.len() && #[trigger] old(self).entries@[j].0@ == k;
                            assert(j2 == j);
                        } else {
                            assert forall|j: int| 0 <= j < old(self).entries@.len() implies #[trigger] old(self).entries@[j].0@ != k by {
                                assert(self.entries@[j] == old(self).entries@[j]);
                            }
                        }
                    }
                }
            },
        }
    }

    /// Names where a field's value came from; `default value` when nothing
    /// was recorded.
    pub fn describe(&self, key: &str) -> (r: String)
        requires
            self.wf(),
        ensures
            r@ == match self.lookup(key@) {
                Some(o) => o.text(),
                None => "default value"@,
            },
    {
        match self.position(key) {
            Some(i) => self.entries[i].1.describe(),
            None => String::from_str("default value"),
        }
    }
}

/// Resolved values that passed validation.
#[derive(Debug)]
pub struct ValidatedSettings {
    pub github_token: String,
    pub max_concurrency: usize,
    pub feed_length: usize,
    pub cadence: CadenceSettings,
}

/// Checks the resolved configuration in order: a token is present, the
/// concurrency and the feed length are positive, the minimum interval is
/// positive and the maximum not below it (nor beyond what a time delta
/// holds). The error names the first rule broken and the value's origin.
pub fn validate_settings(
    github_token: Option<String>,
    max_concurrency: usize,
    feed_length: usize,
    default_interval_minutes: i64,
    min_interval_minutes: i64,
    max_interval_minutes: i64,
    origins: &FieldOrigins,
) -> (r: Result<ValidatedSettings, String>)
    requires
        origins.wf(),
    ensures
        r is Ok <==> (github_token is Some && max_concurrency > 0 && feed_length > 0
            && min_interval_minutes > 0 && max_interval_minutes >= min_interval_minutes
            && max_interval_minutes <= MAX_INTERVAL_MINUTES),
        r matches Ok(v) ==> Some(v.github_token) == github_token && v.max_concurrency
            == max_concurrency && v.feed_length == feed_length && v.cadence.valid()
            && v.cadence.min_interval_minutes == min_interval_minutes
            && v.cadence.max_interval_minutes == max_interval_minutes
            && v.cadence.default_interval_minutes == default_interval_minutes,
        github_token is None ==> (r matches Err(e) && e@
            == "GitHub token is required (set via --github-token / GITHUB_TOKEN or config file github.token)"@),
        github_token is Some && max_concurrency == 0 ==> (r matches Err(e) && e@
            == "max concurrency must be greater than zero (source: "@ + origin_text(
            origins,
            "max_concurrency"@,
        ) + ")"@),
        github_token is Some && max_concurrency > 0 && feed_length == 0 ==> (r matches Err(e) && e@
            == "feed length must be greater than zero (source: "@ + origin_text(
            origins,
            "feed_length"@,
        ) + ")"@),
        github_token is Some && max_concurrency > 0 && feed_length > 0 && min_interval_minutes <= 0
            ==> (r matches Err(e) && e@ == "min interval must be positive (source: "@ + origin_text(
            origins,
            "min_interval_minutes"@,
        ) + ")"@),
        github_token is Some && max_concurrency > 0 && feed_length > 0 && min_interval_minutes > 0
            && max_interval_minutes < min_interval_minutes ==> (r matches Err(e) && e@
            == "max interval must be >= min interval (sources: max="@ + origin_text(
            origins,
            "max_interval_minutes"@,
        ) + ", min="@ + origin_text(origins, "min_interval_minutes"@) + ")"@),
{
    let token = match github_token {
        Some(t) => t,
        None => {
            return Err(
                String::from_str(
                    "GitHub token is required (set via --github-token / GITHUB_TOKEN or config file github.token)",
                ),
            );
        },
    };
    if max_concurrency == 0 {
        let mut e = String::from_str("max concurrency must be greater than zero (source: ");
        e.append(origins.describe("max_concurrency").as_str());
        e.append(")");
        return Err(e);
    }
    if feed_length == 0 {
        let mut e = String::from_str("feed length must be greater than zero (source: ");
        e.append(origins.describe("feed_length").as_str());
        e.append(")");
        return Err(e);
    }
    if min_interval_minutes <= 0 {
        let mut e = String::from_str("min interval must be positive (source: ");
        e.append(origins.describe("min_interval_minutes").as_str());
        e.append(")");
        return Err(e);
    }
    if max_interval_minutes < min_interval_minutes {
        let mut e = String::from_str("max interval must be >= min interval (sources: max=");
        e.append(origins.describe("max_interval_minutes").as_str());
        e.append(", min=");
        e.append(origins.describe("min_interval_minutes").as_str());
        e.append(")");
        return Err(e);
    }
    match CadenceSettings::new(min_interval_minutes, max_interval_minutes, default_interval_minutes) {
        Some(cadence) => Ok(ValidatedSettings { github_token: token, max_concurrency, feed_length, cadence }),
        None => {
            let mut e = String::from_str("max interval is longer than a time span can hold (source: ");
            e.append(origins.describe("max_interval_minutes").as_str());
            e.append(")");
            Err(e)
        },
    }
}

/// The text that `describe` gives for a field.
pub open spec fn origin_text(origins: &FieldOrigins, key: Seq<char>) -> Seq<char> {
    match origins.lookup(key) {
        Some(o) => o.text(),
        None => "default value"@,
    }
}

} // verus!
