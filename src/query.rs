//! The filtered, paged query over stored stars: its parameters, their
//! normalization, and the facet records that readers display.
use crate::store::string_option_view;
use crate::feed::{rfc3339, rfc3339_text, writable};
use crate::text::{decimal, push_decimal, trim, trimmed};
use vstd::prelude::*;
use vstd::string::StrSliceExecFns;

verus! {

/// Default number of items per page.
pub const DEFAULT_PAGE_SIZE: u32 = 25;

/// Largest page a request may ask for.
pub const MAX_PAGE_SIZE: u32 = 100;

/// Order of a listing.
#[derive(Clone, Copy, Debug, PartialEq, Eq, Structural)]
pub enum StarSort {
    /// Most recently fetched first.
    Newest,
    /// By repository name.
    Alpha,
}

impl StarSort {
    pub open spec fn name(self) -> Seq<char> {
        match self {
            StarSort::Newest => "newest"@,
            StarSort::Alpha => "alpha"@,
        }
    }

    pub fn as_str(self) -> (r: &'static str)
        ensures
            r@ == self.name(),
    {
        match self {
            StarSort::Newest => "newest",
            StarSort::Alpha => "alpha",
        }
    }
}

/// How the `user` filter applies.
#[derive(Clone, Copy, Debug, PartialEq, Eq, Structural)]
pub enum UserFilterMode {
    /// No filtering by user.
    All,
    /// Only this user's stars.
    Pin,
    /// Everyone's but this user's.
    Exclude,
}

impl UserFilterMode {
    pub open spec fn name(self) -> Seq<char> {
        match self {
            UserFilterMode::All => "all"@,
            UserFilterMode::Pin => "pin"@,
            UserFilterMode::Exclude => "exclude"@,
        }
    }

    pub fn as_str(self) -> (r: &'static str)
        ensures
            r@ == self.name(),
    {
        match self {
            UserFilterMode::All => "all",
            UserFilterMode::Pin => "pin",
            UserFilterMode::Exclude => "exclude",
        }
    }
}

/// A filtered, paged query over stored stars.
#[derive(Debug)]
pub struct StarQuery {
    pub search: Option<String>,
    pub language: Option<String>,
    pub activity: Option<String>,
    pub user: Option<String>,
    pub user_mode: UserFilterMode,
    pub sort: StarSort,
    pub page: usize,
    pub page_size: usize,
}

impl Default for StarQuery {
    fn default() -> (r: StarQuery)
        ensures
            r.search is None && r.language is None && r.activity is None && r.user is None,
            r.user_mode == UserFilterMode::All,
            r.sort == StarSort::Newest,
            r.page == 1,
            r.page_size == DEFAULT_PAGE_SIZE,
    {
        StarQuery {
            search: None,
            language: None,
            activity: None,
            user: None,
            user_mode: UserFilterMode::All,
            sort: StarSort::Newest,
            page: 1,
            page_size: DEFAULT_PAGE_SIZE as usize,
        }
    }
}

/// An optional text value, trimmed; absent when nothing is left.
pub open spec fn trimmed_value(o: Option<Seq<char>>) -> Option<Seq<char>> {
    match o {
        Some(v) => if trimmed(v).len() > 0 {
            Some(trimmed(v))
        } else {
            None
        },
        None => None,
    }
}

pub open spec fn str_option_view(o: Option<&str>) -> Option<Seq<char>> {
    match o {
        Some(s) => Some(s@),
        None => None,
    }
}

fn trimmed_value_of(o: &Option<String>) -> (r: Option<&str>)
    ensures
        str_option_view(r) == trimmed_value(string_option_view(*o)),
{
    match o {
        Some(v) => {
            let t = trim(v.as_str());
            if t.unicode_len() > 0 {
                Some(t)
            } else {
                None
            }
        },
        None => None,
    }
}

/// `<name>=<value>` for a present value, after `before` and before `after`.
pub open spec fn key_field(before: Seq<char>, name: Seq<char>, value: Option<Seq<char>>, after: Seq<char>) -> Seq<char> {
    match value {
        Some(v) => before + name + "="@ + v + after,
        None => Seq::empty(),
    }
}

/// The normalized form of a query: its fields as `name=value` in name
/// order, joined by `&`; text fields trimmed and left out when empty.
pub open spec fn query_key(q: StarQuery) -> Seq<char> {
    let page = if q.page < 1 {
        1
    } else {
        q.page
    };
    let page_size = if q.page_size < 1 {
        1
    } else {
        q.page_size
    };
    key_field(Seq::empty(), "activity"@, trimmed_value(string_option_view(q.activity)), "&"@)
        + key_field(Seq::empty(), "language"@, trimmed_value(string_option_view(q.language)), "&"@)
        + "page="@ + decimal(page as nat) + "&page_size="@ + decimal(page_size as nat)
        + key_field("&"@, "q"@, trimmed_value(string_option_view(q.search)), Seq::empty())
        + "&sort="@ + q.sort.name()
        + key_field("&"@, "user"@, trimmed_value(string_option_view(q.user)), Seq::empty())
        + "&user_mode="@ + q.user_mode.name()
}

fn append_field(out: &mut String, before: &str, name: &str, value: Option<&str>, after: &str)
    ensures
        final(out)@ == old(out)@ + key_field(before@, name@, str_option_view(value), after@),
{
    match value {
        Some(v) => {
            out.append(before);
            out.append(name);
            out.append("=");
            out.append(v);
            out.append(after);
        },
        None => {
            assert(old(out)@ + Seq::<char>::empty() =~= old(out)@);
        },
    }
}

/// The page of a query, at least the first.
pub open spec fn page_of(q: StarQuery) -> usize {
    if q.page < 1 {
        1
    } else {
        q.page
    }
}

/// The page size of a query, at least one.
pub open spec fn page_size_of(q: StarQuery) -> usize {
    if q.page_size < 1 {
        1
    } else {
        q.page_size
    }
}

impl StarQuery {
    pub fn page(&self) -> (r: usize)
        ensures
            r == if self.page < 1 {
                1
            } else {
                self.page
            },
    {
        if self.page < 1 {
            1
        } else {
            self.page
        }
    }

    pub fn page_size(&self) -> (r: usize)
        ensures
            r == if self.page_size < 1 {
                1
            } else {
                self.page_size
            },
    {
        if self.page_size < 1 {
            1
        } else {
            self.page_size
        }
    }

    /// A stable text form of the query, used in cache tags.
    pub fn normalized_key(&self) -> (r: String)
        ensures
            r@ == query_key(*self),
    {
        let mut out = String::new();
        let empty = "";
        proof {
            reveal_strlit("");
        }
        append_field(&mut out, empty, "activity", trimmed_value_of(&self.activity), "&");
        append_field(&mut out, empty, "language", trimmed_value_of(&self.language), "&");
        out.append("page=");
        push_decimal(&mut out, self.page() as u64);
        out.append("&page_size=");
        push_decimal(&mut out, self.page_size() as u64);
        append_field(&mut out, "&", "q", trimmed_value_of(&self.search), empty);
        out.append("&sort=");
        out.append(self.sort.as_str());
        append_field(&mut out, "&", "user", trimmed_value_of(&self.user), empty);
        out.append("&user_mode=");
        out.append(self.user_mode.as_str());
        assert(empty@ =~= Seq::<char>::empty());
        assert(out@ =~= query_key(*self));
        out
    }
}

/// Query parameters of a stars listing request.
#[derive(Debug)]
pub struct StarQueryParams {
    pub q: Option<String>,
    pub language: Option<String>,
    pub activity: Option<String>,
    pub user_mode: UserFilterMode,
    pub user: Option<String>,
    pub sort: StarSort,
    pub page: u32,
    pub page_size: u32,
}

pub fn default_page() -> (r: u32)
    ensures
        r == 1,
{
    1
}

pub fn default_page_size() -> (r: u32)
    ensures
        r == DEFAULT_PAGE_SIZE,
{
    DEFAULT_PAGE_SIZE
}

impl Default for StarQueryParams {
    fn default() -> (r: StarQueryParams)
        ensures
            r.q is None && r.language is None && r.activity is None && r.user is None,
            r.user_mode == UserFilterMode::All,
            r.sort == StarSort::Newest,
            r.page == 1,
            r.page_size == DEFAULT_PAGE_SIZE,
    {
        StarQueryParams {
            q: None,
            language: None,
            activity: None,
            user_mode: UserFilterMode::All,
            user: None,
            sort: StarSort::Newest,
            page: default_page(),
            page_size: default_page_size(),
        }
    }
}

fn owned_option(o: Option<&str>) -> (r: Option<String>)
    ensures
        string_option_view(r) == str_option_view(o),
{
    match o {
        Some(s) => Some(String::from_str(s)),
        None => None,
    }
}

impl StarQueryParams {
    /// The page asked for, at least the first.
    pub fn page(&self) -> (r: u32)
        ensures
            r == if self.page < 1 {
                1
            } else {
                self.page
            },
    {
        if self.page < 1 {
            1
        } else {
            self.page
        }
    }

    /// The page size asked for, between 1 and `MAX_PAGE_SIZE`.
    pub fn page_size(&self) -> (r: u32)
        ensures
            r == if self.page_size < 1 {
                1
            } else if self.page_size > MAX_PAGE_SIZE {
                MAX_PAGE_SIZE
            } else {
                self.page_size
            },
    {
        if self.page_size < 1 {
            1
        } else if self.page_size > MAX_PAGE_SIZE {
            MAX_PAGE_SIZE
        } else {
            self.page_size
        }
    }

    /// The query that these parameters ask for: text trimmed (absent when
    /// empty), page at least 1, page size clamped.
    pub fn to_star_query(&self) -> (r: StarQuery)
        ensures
            string_option_view(r.search) == trimmed_value(string_option_view(self.q)),
            string_option_view(r.language) == trimmed_value(string_option_view(self.language)),
            string_option_view(r.activity) == trimmed_value(string_option_view(self.activity)),
            string_option_view(r.user) == trimmed_value(string_option_view(self.user)),
            r.user_mode == self.user_mode,
            r.sort == self.sort,
            r.page == (if self.page < 1 {
                1
            } else {
                self.page
            }) as usize,
            r.page_size == (if self.page_size < 1 {
                1
            } else if self.page_size > MAX_PAGE_SIZE {
                MAX_PAGE_SIZE
            } else {
                self.page_size
            }) as usize,
    {
        StarQuery {
            search: owned_option(trimmed_value_of(&self.q)),
            language: owned_option(trimmed_value_of(&self.language)),
            activity: owned_option(trimmed_value_of(&self.activity)),
            user: owned_option(trimmed_value_of(&self.user)),
            user_mode: self.user_mode,
            sort: self.sort,
            page: self.page() as usize,
            page_size: self.page_size() as usize,
        }
    }
}

/// Stars per language.
#[derive(Debug)]
pub struct LanguageStat {
    pub name: String,
    pub count: u32,
}

/// Users per activity tier.
#[derive(Debug)]
pub struct ActivityTierStat {
    pub tier: String,
    pub count: u32,
}

/// Stars per user.
#[derive(Debug)]
pub struct UserStat {
    pub login: String,
    pub display_name: String,
    pub count: u32,
}

/// What `str::to_lowercase` returns for a string.
pub uninterp spec fn lower_of(s: Seq<char>) -> Seq<char>;

/// Relies on str::to_lowercase: Unicode lowercasing, a function of the
/// characters alone.
#[verifier::external_body]
fn lowercase(s: &str) -> (r: String)
    ensures
        r@ == lower_of(s@),
{
    s.to_lowercase()
}

/// A text filter as matched: trimmed, lowercased, absent when empty.
pub open spec fn filter_value(o: Option<Seq<char>>) -> Option<Seq<char>> {
    match o {
        Some(v) => if lower_of(trimmed(v)).len() > 0 {
            Some(lower_of(trimmed(v)))
        } else {
            None
        },
        None => None,
    }
}

/// Conditions joined by ` AND `.
pub open spec fn join_and(cs: Seq<Seq<char>>) -> Seq<char>
    decreases cs.len(),
{
    if cs.len() == 0 {
        Seq::empty()
    } else if cs.len() == 1 {
        cs[0]
    } else {
        join_and(cs.drop_last()) + " AND "@ + cs.last()
    }
}

pub open spec fn search_clause() -> Seq<char> {
    "(LOWER(s.repo_full_name) LIKE ? OR LOWER(COALESCE(s.repo_description, '')) LIKE ? )"@
}

/// The SQL conditions, and their bound values in order, for filter values
/// that are already trimmed and lowercased.
pub open spec fn filter_sql(
    search: Option<Seq<char>>,
    language: Option<Seq<char>>,
    activity: Option<Seq<char>>,
    user: Option<Seq<char>>,
    mode: UserFilterMode,
) -> (Seq<Seq<char>>, Seq<Seq<char>>) {
    let (c1, b1) = match search {
        Some(q) => (seq![search_clause()], seq!["%"@ + q + "%"@, "%"@ + q + "%"@]),
        None => (Seq::empty(), Seq::empty()),
    };
    let (c2, b2) = match language {
        Some(l) => (seq!["LOWER(COALESCE(s.repo_language, '')) = ?"@], seq![l]),
        None => (Seq::empty(), Seq::empty()),
    };
    let (c3, b3) = match activity {
        Some(a) => if a == "unknown"@ {
            (seq!["u.activity_tier IS NULL"@], Seq::empty())
        } else {
            (seq!["LOWER(COALESCE(u.activity_tier, '')) = ?"@], seq![a])
        },
        None => (Seq::empty(), Seq::empty()),
    };
    let (c4, b4) = match user {
        Some(n) => match mode {
            UserFilterMode::Pin => (seq!["LOWER(u.login) = ?"@], seq![n]),
            UserFilterMode::Exclude => (seq!["LOWER(u.login) != ?"@], seq![n]),
            UserFilterMode::All => (Seq::empty(), Seq::empty()),
        },
        None => (Seq::empty(), Seq::empty()),
    };
    (c1 + c2 + c3 + c4, b1 + b2 + b3 + b4)
}

pub open spec fn where_sql(clauses: Seq<Seq<char>>) -> Seq<char> {
    if clauses.len() == 0 {
        Seq::empty()
    } else {
        "WHERE "@ + join_and(clauses)
    }
}

pub open spec fn order_sql(sort: StarSort) -> Seq<char> {
    match sort {
        StarSort::Newest => "ORDER BY s.fetched_at DESC, s.id DESC"@,
        StarSort::Alpha => "ORDER BY LOWER(s.repo_full_name) ASC, s.fetched_at DESC, s.id DESC"@,
    }
}

pub open spec fn strings_view(v: Seq<String>) -> Seq<Seq<char>> {
    v.map_values(|s: String| s@)
}

fn add_clause(body: &mut String, count: &mut usize, clauses: Ghost<Seq<Seq<char>>>, clause: &str)
    requires
        old(body)@ == join_and(clauses@),
        *old(count) == clauses@.len(),
        *old(count) < 4,
    ensures
        final(body)@ == join_and(clauses@.push(clause@)),
        *final(count) == *old(count) + 1,
{
    assert(clauses@.push(clause@).drop_last() =~= clauses@);
    if *count > 0 {
        body.append(" AND ");
    } else {
        assert(old(body)@ =~= Seq::<char>::empty());
    }
    body.append(clause);
    if *count == 0 {
        assert(body@ =~= clause@);
    }
    *count = *count + 1;
}

/// A listing's SQL: the `WHERE` part with its bound values, the `ORDER BY`
/// part, and the page window.
#[derive(Debug)]
pub struct QueryPlan {
    pub where_sql: String,
    pub bindings: Vec<String>,
    pub order_sql: &'static str,
    pub limit: usize,
    pub offset: usize,
}

/// The `WHERE` part and its bound values for filter values that are already
/// trimmed and lowercased.
pub fn plan_filters(
    search: Option<&str>,
    language: Option<&str>,
    activity: Option<&str>,
    user: Option<&str>,
    mode: UserFilterMode,
) -> (r: (String, Vec<String>))
    ensures
        ({
            let (cs, bs) = filter_sql(
                str_option_view(search),
                str_option_view(language),
                str_option_view(activity),
                str_option_view(user),
                mode,
            );
            r.0@ == where_sql(cs) && strings_view(r.1@) == bs
        }),
{
    let ghost mut cs: Seq<Seq<char>> = Seq::empty();
    let mut count: usize = 0;
    let mut body = String::new();
    let mut bindings: Vec<String> = Vec::new();
    match search {
        Some(q) => {
            add_clause(&mut body, &mut count, Ghost(cs), "(LOWER(s.repo_full_name) LIKE ? OR LOWER(COALESCE(s.repo_description, '')) LIKE ? )");
            proof {
                cs = cs.push(search_clause());
            }
            let mut pattern = String::from_str("%");
            pattern.append(q);
            pattern.append("%");
            let second = pattern.clone();
            bindings.push(pattern);
            bindings.push(second);
        },
        None => {},
    }
    match language {
        Some(l) => {
            add_clause(&mut body, &mut count, Ghost(cs), "LOWER(COALESCE(s.repo_language, '')) = ?");
            proof {
                cs = cs.push("LOWER(COALESCE(s.repo_language, '')) = ?"@);
            }
            bindings.push(String::from_str(l));
        },
        None => {},
    }
    match activity {
        Some(a) => {
            let unknown = "unknown";
            if crate::text::same_chars(a, unknown) {
                add_clause(&mut body, &mut count, Ghost(cs), "u.activity_tier IS NULL");
                proof {
                    cs = cs.push("u.activity_tier IS NULL"@);
                }
            } else {
                add_clause(&mut body, &mut count, Ghost(cs), "LOWER(COALESCE(u.activity_tier, '')) = ?");
                proof {
                    cs = cs.push("LOWER(COALESCE(u.activity_tier, '')) = ?"@);
                }
                bindings.push(String::from_str(a));
            }
        },
        None => {},
    }
    match user {
        Some(n) => match mode {
            UserFilterMode::Pin => {
                add_clause(&mut body, &mut count, Ghost(cs), "LOWER(u.login) = ?");
                proof {
                    cs = cs.push("LOWER(u.login) = ?"@);
                }
                bindings.push(String::from_str(n));
            },
            UserFilterMode::Exclude => {
                add_clause(&mut body, &mut count, Ghost(cs), "LOWER(u.login) != ?");
                proof {
                    cs = cs.push("LOWER(u.login) != ?"@);
                }
                bindings.push(String::from_str(n));
            },
            UserFilterMode::All => {},
        },
        None => {},
    }
    let spec_pair = Ghost(filter_sql(
        str_option_view(search),
        str_option_view(language),
        str_option_view(activity),
        str_option_view(user),
        mode,
    ));
    assert(cs =~= spec_pair@.0);
    assert(strings_view(bindings@) =~= spec_pair@.1);
    if count == 0 {
        (body, bindings)
    } else {
        let mut w = String::from_str("WHERE ");
        w.append(body.as_str());
        (w, bindings)
    }
}

fn filter_value_of(o: &Option<String>) -> (r: Option<String>)
    ensures
        string_option_view(r) == filter_value(string_option_view(*o)),
{
    match o {
        Some(v) => {
            let l = lowercase(trim(v.as_str()));
            if l.as_str().unicode_len() > 0 {
                Some(l)
            } else {
                None
            }
        },
        None => None,
    }
}

fn as_str_option(o: &Option<String>) -> (r: Option<&str>)
    ensures
        str_option_view(r) == string_option_view(*o),
{
    match o {
        Some(v) => Some(v.as_str()),
        None => None,
    }
}

impl QueryPlan {
    /// The SQL of a query: filters from its trimmed, lowercased text fields,
    /// the order of its sort, and the window of its page.
    pub fn new(query: &StarQuery) -> (r: QueryPlan)
        requires
            (page_of(*query) - 1) * page_size_of(*query) <= usize::MAX,
        ensures
            ({
                let (cs, bs) = filter_sql(
                    filter_value(string_option_view(query.search)),
                    filter_value(string_option_view(query.language)),
                    filter_value(string_option_view(query.activity)),
                    filter_value(string_option_view(query.user)),
                    query.user_mode,
                );
                &&& r.where_sql@ == where_sql(cs)
                &&& strings_view(r.bindings@) == bs
            }),
            r.order_sql@ == order_sql(query.sort),
            r.limit == page_size_of(*query),
            r.offset == (page_of(*query) - 1) * page_size_of(*query),
    {
        let search = filter_value_of(&query.search);
        let language = filter_value_of(&query.language);
        let activity = filter_value_of(&query.activity);
        let user = filter_value_of(&query.user);
        let (w, b) = plan_filters(
            as_str_option(&search),
            as_str_option(&language),
            as_str_option(&activity),
            as_str_option(&user),
            query.user_mode,
        );
        let order = match query.sort {
            StarSort::Newest => "ORDER BY s.fetched_at DESC, s.id DESC",
            StarSort::Alpha => "ORDER BY LOWER(s.repo_full_name) ASC, s.fetched_at DESC, s.id DESC",
        };
        let page = query.page();
        let size = query.page_size();
        QueryPlan { where_sql: w, bindings: b, order_sql: order, limit: size, offset: (page - 1) * size }
    }
}

/// Whether a listing page has pages after and before it.
pub fn page_links(page: usize, page_size: usize, total: usize) -> (r: (bool, bool))
    ensures
        r.0 == (page * page_size < total),
        r.1 == (page > 1 && total > 0),
{
    assert((page as int) * (page_size as int) <= 0xffff_ffff_ffff_fffe_0000_0000_0000_0001) by (nonlinear_arith)
        requires
            0 <= page <= 0xffff_ffff_ffff_ffff,
            0 <= page_size <= 0xffff_ffff_ffff_ffff,
    ;
    let has_next = (page as u128) * (page_size as u128) < total as u128;
    (has_next, page > 1 && total > 0)
}

/// Facet counts for the reader's filters, and the newest fetch time
/// (seconds) of any stored star.
#[derive(Debug)]
pub struct OptionsSnapshot {
    pub languages: Vec<LanguageStat>,
    pub activity: Vec<ActivityTierStat>,
    pub users: Vec<UserStat>,
    pub updated_at: Option<i64>,
}

pub open spec fn join_bars(parts: Seq<Seq<char>>) -> Seq<char>
    decreases parts.len(),
{
    if parts.len() == 0 {
        Seq::empty()
    } else if parts.len() == 1 {
        parts[0]
    } else {
        join_bars(parts.drop_last()) + "|"@ + parts.last()
    }
}

/// The parts of a snapshot's fingerprint, in order.
pub open spec fn fingerprint_parts(o: OptionsSnapshot) -> Seq<Seq<char>> {
    o.languages@.map_values(|l: LanguageStat| "lang:"@ + l.name@ + "="@ + decimal(l.count as nat))
        + o.activity@.map_values(|t: ActivityTierStat| "activity:"@ + t.tier@ + "="@ + decimal(t.count as nat))
        + o.users@.map_values(|u: UserStat| "user:"@ + u.login@ + "="@ + decimal(u.count as nat))
        + match o.updated_at {
            Some(t) => seq!["updated="@ + rfc3339_text(t as int)],
            None => Seq::empty(),
        }
}

fn push_part(out: &mut String, parts: Ghost<Seq<Seq<char>>>, started: bool, piece: &String)
    requires
        old(out)@ == join_bars(parts@),
        started == (parts@.len() > 0),
    ensures
        final(out)@ == join_bars(parts@.push(piece@)),
{
    assert(parts@.push(piece@).drop_last() =~= parts@);
    if started {
        out.append("|");
    } else {
        assert(old(out)@ =~= Seq::<char>::empty());
    }
    out.append(piece.as_str());
    if !started {
        assert(out@ =~= piece@);
    }
}

fn counted(prefix: &str, name: &String, count: u32) -> (r: String)
    ensures
        r@ == prefix@ + name@ + "="@ + decimal(count as nat),
{
    let mut s = String::from_str(prefix);
    s.append(name.as_str());
    s.append("=");
    push_decimal(&mut s, count as u64);
    s
}

impl OptionsSnapshot {
    /// A text that changes whenever a count or the update time does: every
    /// facet as `kind:name=count`, then `updated=<RFC 3339>`, joined by `|`.
    pub fn fingerprint(&self) -> (r: String)
        requires
            self.updated_at matches Some(t) ==> writable(t as int),
        ensures
            r@ == join_bars(fingerprint_parts(*self)),
    {
        let ghost mut parts: Seq<Seq<char>> = Seq::empty();
        let mut out = String::new();
        let mut started = false;
        let mut i: usize = 0;
        while i < self.languages.len()
            invariant
                0 <= i <= self.languages@.len(),
                started == (i > 0),
                parts == self.languages@.take(i as int).map_values(
                    |l: LanguageStat| "lang:"@ + l.name@ + "="@ + decimal(l.count as nat),
                ),
                out@ == join_bars(parts),
            decreases self.languages@.len() - i,
        {
            let piece = counted("lang:", &self.languages[i].name, self.languages[i].count);
            push_part(&mut out, Ghost(parts), started, &piece);
            proof {
                parts = parts.push(piece@);
                assert(parts =~= self.languages@.take(i as int + 1).map_values(
                    |l: LanguageStat| "lang:"@ + l.name@ + "="@ + decimal(l.count as nat),
                ));
            }
            started = true;
            i = i + 1;
        }
        assert(self.languages@.take(i as int) =~= self.languages@);
        let ghost base1 = parts;
        let mut j: usize = 0;
        while j < self.activity.len()
            invariant
                0 <= j <= self.activity@.len(),
                started == (base1.len() + j > 0),
                base1.len() == self.languages@.len(),
                parts == base1 + self.activity@.take(j as int).map_values(
                    |t: ActivityTierStat| "activity:"@ + t.tier@ + "="@ + decimal(t.count as nat),
                ),
                out@ == join_bars(parts),
            decreases self.activity@.len() - j,
        {
            let piece = counted("activity:", &self.activity[j].tier, self.activity[j].count);
            push_part(&mut out, Ghost(parts), started, &piece);
            proof {
                parts = parts.push(piece@);
                assert(parts =~= base1 + self.activity@.take(j as int + 1).map_values(
                    |t: ActivityTierStat| "activity:"@ + t.tier@ + "="@ + decimal(t.count as nat),
                ));
            }
            started = true;
            j = j + 1;
        }
        assert(self.activity@.take(j as int) =~= self.activity@);
        let ghost base2 = parts;
        let mut k: usize = 0;
        while k < self.users.len()
            invariant
                0 <= k <= self.users@.len(),
                started == (base2.len() + k > 0),
                parts == base2 + self.users@.take(k as int).map_values(
                    |u: UserStat| "user:"@ + u.login@ + "="@ + decimal(u.count as nat),
                ),
                out@ == join_bars(parts),
            decreases self.users@.len() - k,
        {
            let piece = counted("user:", &self.users[k].login, self.users[k].count);
            push_part(&mut out, Ghost(parts), started, &piece);
            proof {
                parts = parts.push(piece@);
                assert(parts =~= base2 + self.users@.take(k as int + 1).map_values(
                    |u: UserStat| "user:"@ + u.login@ + "="@ + decimal(u.count as nat),
                ));
            }
            started = true;
            k = k + 1;
        }
        assert(self.users@.take(k as int) =~= self.users@);
        match self.updated_at {
            Some(t) => {
                let mut piece = String::from_str("updated=");
                piece.append(rfc3339(t).as_str());
                push_part(&mut out, Ghost(parts), started, &piece);
                proof {
                    parts = parts.push(piece@);
                }
            },
            None => {},
        }
        assert(parts =~= fingerprint_parts(*self));
        out
    }
}

/// The earliest next check of each tier, in seconds; users without a tier
/// count as `unknown`.
#[derive(Debug, Default)]
pub struct NextCheckSummary {
    pub high: Option<i64>,
    pub medium: Option<i64>,
    pub low: Option<i64>,
    pub unknown: Option<i64>,
}

impl NextCheckSummary {
    /// Files a tier's earliest next check under its name; any other name
    /// goes under `unknown`.
    pub fn record(&mut self, tier: &str, at: Option<i64>)
        ensures
            tier@ == "high"@ ==> final(self).high == at && final(self).medium == old(self).medium
                && final(self).low == old(self).low && final(self).unknown == old(self).unknown,
            tier@ == "medium"@ ==> final(self).medium == at && final(self).high == old(self).high
                && final(self).low == old(self).low && final(self).unknown == old(self).unknown,
            tier@ == "low"@ ==> final(self).low == at && final(self).high == old(self).high
                && final(self).medium == old(self).medium && final(self).unknown == old(self).unknown,
            tier@ != "high"@ && tier@ != "medium"@ && tier@ != "low"@ ==> final(self).unknown == at
                && final(self).high == old(self).high && final(self).medium == old(self).medium
                && final(self).low == old(self).low,
    {
        proof {
            reveal_strlit("high");
            reveal_strlit("medium");
            reveal_strlit("low");
            assert("high"@.len() == 4 && "medium"@.len() == 6 && "low"@.len() == 3);
        }
        if crate::text::same_chars(tier, "high") {
            self.high = at;
        } else if crate::text::same_chars(tier, "medium") {
            self.medium = at;
        } else if crate::text::same_chars(tier, "low") {
            self.low = at;
        } else {
            self.unknown = at;
        }
    }
}

} // verus!
