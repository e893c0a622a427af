//! Items of the syndication feed: what each one says, and their order.
use vstd::prelude::*;

verus! {

/// First second of year 0 and last second of year 9999: the timestamps that
/// both RFC 3339 and RFC 2822 texts can write.
pub const FIRST_WRITABLE_SECOND: i64 = -62_167_219_200;

pub const LAST_WRITABLE_SECOND: i64 = 253_402_300_799;

pub open spec fn writable(ts: int) -> bool {
    FIRST_WRITABLE_SECOND <= ts <= LAST_WRITABLE_SECOND
}

/// What chrono writes for a UTC timestamp (seconds) in RFC 3339.
pub uninterp spec fn rfc3339_text(ts: int) -> Seq<char>;

/// What chrono writes for a UTC timestamp (seconds) in RFC 2822.
pub uninterp spec fn rfc2822_text(ts: int) -> Seq<char>;

/// Relies on chrono's DateTime::<Utc>::from_timestamp, which gives a time
/// for every such second, and DateTime::to_rfc3339.
#[verifier::external_body]
pub(crate) fn rfc3339(ts: i64) -> (r: String)
    requires
        writable(ts as int),
    ensures
        r@ == rfc3339_text(ts as int),
{
    match chrono::DateTime::from_timestamp(ts, 0) {
        Some(t) => t.to_rfc3339(),
        None => String::new(),
    }
}

/// Relies on chrono's DateTime::<Utc>::from_timestamp and
/// DateTime::to_rfc2822, which panics only outside years 0 to 9999.
#[verifier::external_body]
fn rfc2822(ts: i64) -> (r: String)
    requires
        writable(ts as int),
    ensures
        r@ == rfc2822_text(ts as int),
{
    match chrono::DateTime::from_timestamp(ts, 0) {
        Some(t) => t.to_rfc2822(),
        None => String::new(),
    }
}

/// A stored star as the feed shows it; `starred_at` in seconds.
#[derive(Debug)]
pub struct FeedRow {
    pub login: String,
    pub repo_full_name: String,
    pub repo_description: Option<String>,
    pub repo_html_url: String,
    pub starred_at: i64,
}

/// One entry of the feed.
#[derive(Debug)]
pub struct FeedItem {
    pub title: String,
    pub link: String,
    pub description: String,
    pub guid: String,
    pub pub_date: String,
}

pub open spec fn item_title(r: FeedRow) -> Seq<char> {
    r.login@ + " starred "@ + r.repo_full_name@
}

pub open spec fn item_description(r: FeedRow) -> Seq<char> {
    match r.repo_description {
        Some(d) => d@ + "\nStarred by https://github.com/"@ + r.login@,
        None => "Starred by https://github.com/"@ + r.login@,
    }
}

/// The stable identity of an entry: login, repository and star time.
pub open spec fn item_guid(r: FeedRow) -> Seq<char> {
    "github-star://"@ + r.login@ + "/"@ + r.repo_full_name@ + "/"@ + rfc3339_text(r.starred_at as int)
}

pub open spec fn item_matches(item: FeedItem, r: FeedRow) -> bool {
    &&& item.title@ == item_title(r)
    &&& item.link@ == r.repo_html_url@
    &&& item.description@ == item_description(r)
    &&& item.guid@ == item_guid(r)
    &&& item.pub_date@ == rfc2822_text(r.starred_at as int)
}

/// The entry for one row.
pub fn build_item(row: &FeedRow) -> (r: FeedItem)
    requires
        writable(row.starred_at as int),
    ensures
        item_matches(r, *row),
{
    let mut title = row.login.clone();
    title.append(" starred ");
    title.append(row.repo_full_name.as_str());
    let mut description = match &row.repo_description {
        Some(d) => {
            let mut s = d.clone();
            s.append("\nStarred by https://github.com/");
            s
        },
        None => String::from_str("Starred by https://github.com/"),
    };
    description.append(row.login.as_str());
    let mut guid = String::from_str("github-star://");
    guid.append(row.login.as_str());
    guid.append("/");
    guid.append(row.repo_full_name.as_str());
    guid.append("/");
    guid.append(rfc3339(row.starred_at).as_str());
    FeedItem {
        title,
        link: row.repo_html_url.clone(),
        description,
        guid,
        pub_date: rfc2822(row.starred_at),
    }
}

/// Where index `i` goes among `order` (indices into `keys`): after every
/// leading index whose key is not smaller.
pub open spec fn desc_pos(order: Seq<int>, keys: Seq<i64>, i: int) -> int
    decreases order.len(),
{
    if order.len() == 0 {
        0
    } else if keys[order[0]] >= keys[i] {
        1 + desc_pos(order.drop_first(), keys, i)
    } else {
        0
    }
}

/// The indices `0..n` ordered by key, largest first, equal keys in index
/// order.
pub open spec fn newest_first(keys: Seq<i64>, n: nat) -> Seq<int>
    decreases n,
{
    if n == 0 {
        Seq::empty()
    } else {
        let o = newest_first(keys, (n - 1) as nat);
        o.insert(desc_pos(o, keys, n - 1), n - 1)
    }
}

proof fn lemma_desc_pos_bounds(order: Seq<int>, keys: Seq<i64>, i: int)
    ensures
        0 <= desc_pos(order, keys, i) <= order.len(),
    decreases order.len(),
{
    if order.len() > 0 {
        lemma_desc_pos_bounds(order.drop_first(), keys, i);
    }
}

proof fn lemma_newest_first(keys: Seq<i64>, n: nat)
    requires
        n <= keys.len(),
    ensures
        newest_first(keys, n).len() == n,
        forall|j: int| 0 <= j < n ==> 0 <= #[trigger] newest_first(keys, n)[j] < n,
    decreases n,
{
    if n > 0 {
        lemma_newest_first(keys, (n - 1) as nat);
        let o = newest_first(keys, (n - 1) as nat);
        let p = desc_pos(o, keys, n - 1);
        lemma_desc_pos_bounds(o, keys, n - 1);
        o.insert_ensures(p, n - 1);
        assert forall|j: int| 0 <= j < n implies 0 <= #[trigger] newest_first(keys, n)[j] < n by {
            if j < p {
                assert(newest_first(keys, n)[j] == o[j]);
            } else if j > p {
                assert(o.insert(p, n - 1)[(j - 1) + 1] == o[j - 1]);
            }
        }
    }
}

pub open spec fn star_times(rows: Seq<FeedRow>) -> Seq<i64> {
    rows.map_values(|r: FeedRow| r.starred_at)
}

/// The order of the feed: newest star first, ties in the order given.
pub fn feed_order(rows: &Vec<FeedRow>) -> (r: Vec<usize>)
    ensures
        r@.len() == rows@.len(),
        forall|j: int| 0 <= j < r@.len() ==> (#[trigger] r@[j] as int) == newest_first(
            star_times(rows@),
            rows@.len(),
        )[j],
{
    let ghost keys = star_times(rows@);
    let mut out: Vec<usize> = Vec::new();
    let mut i: usize = 0;
    while i < rows.len()
        invariant
            0 <= i <= rows@.len(),
            keys == star_times(rows@),
            keys.len() == rows@.len(),
            out@.len() == i,
            forall|j: int| 0 <= j < i ==> (#[trigger] out@[j] as int) == newest_first(keys, i as nat)[j],
        decreases rows@.len() - i,
    {
        proof {
            lemma_newest_first(keys, i as nat);
        }
        let ghost o = newest_first(keys, i as nat);
        let mut k: usize = 0;
        assert(o.skip(0) =~= o);
        loop
            invariant
                0 <= k <= out@.len(),
                out@.len() == i,
                i < rows@.len(),
                keys == star_times(rows@),
                keys.len() == rows@.len(),
                o == newest_first(keys, i as nat),
                o.len() == i,
                forall|j: int| 0 <= j < i ==> 0 <= #[trigger] o[j] < i,
                forall|j: int| 0 <= j < i ==> (#[trigger] out@[j] as int) == o[j],
                desc_pos(o, keys, i as int) == k + desc_pos(o.skip(k as int), keys, i as int),
            ensures
                0 <= k <= out@.len(),
                desc_pos(o, keys, i as int) == k,
            decreases out@.len() - k,
        {
            if k >= out.len() {
                assert(o.skip(k as int).len() == 0);
                break;
            }
            let idx = out[k];
            assert(keys[o[k as int]] == rows@[idx as int].starred_at);
            assert(o.skip(k as int)[0] == o[k as int]);
            if rows[idx].starred_at < rows[i].starred_at {
                break;
            }
            assert(o.skip(k as int).drop_first() =~= o.skip(k as int + 1));
            k = k + 1;
        }
        let ghost before = out@;
        out.insert(k, i);
        proof {
            before.insert_ensures(k as int, i);
            o.insert_ensures(k as int, i as int);
            let o2 = newest_first(keys, (i + 1) as nat);
            assert(o2 == o.insert(k as int, i as int));
            assert forall|j: int| 0 <= j < i + 1 implies (#[trigger] out@[j] as int) == o2[j] by {
                if j < k {
                    assert(out@[j] == before[j]);
                } else if j == k {
                } else {
                    assert(before.insert(k as int, i)[(j - 1) + 1] == before[j - 1]);
                    assert(o.insert(k as int, i as int)[(j - 1) + 1] == o[j - 1]);
                }
            }
        }
        i = i + 1;
    }
    out
}

/// The feed's entries: one per row, newest star first.
pub fn build_feed_items(rows: &Vec<FeedRow>) -> (r: Vec<FeedItem>)
    requires
        forall|j: int| 0 <= j < rows@.len() ==> writable(#[trigger] rows@[j].starred_at as int),
    ensures
        r@.len() == rows@.len(),
        forall|j: int|
            0 <= j < r@.len() ==> item_matches(
                #[trigger] r@[j],
                rows@[newest_first(star_times(rows@), rows@.len())[j]],
            ),
{
    let order = feed_order(rows);
    proof {
        lemma_newest_first(star_times(rows@), rows@.len());
    }
    let mut items: Vec<FeedItem> = Vec::new();
    let mut j: usize = 0;
    while j < order.len()
        invariant
            0 <= j <= order@.len(),
            order@.len() == rows@.len(),
            items@.len() == j,
            forall|m: int| 0 <= m < rows@.len() ==> writable(#[trigger] rows@[m].starred_at as int),
            forall|m: int| 0 <= m < order@.len() ==> (#[trigger] order@[m] as int) == newest_first(
                star_times(rows@),
                rows@.len(),
            )[m],
            forall|m: int| 0 <= m < rows@.len() ==> 0 <= #[trigger] newest_first(star_times(rows@), rows@.len())[m] < rows@.len(),
            forall|m: int|
                0 <= m < j ==> item_matches(
                    #[trigger] items@[m],
                    rows@[newest_first(star_times(rows@), rows@.len())[m]],
                ),
        decreases order@.len() - j,
    {
        let idx = order[j];
        assert(0 <= newest_first(star_times(rows@), rows@.len())[j as int] < rows@.len());
        let item = build_item(&rows[idx]);
        items.push(item);
        j = j + 1;
    }
    items
}

} // verus!
