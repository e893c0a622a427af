use hoshiyomi::config::{
    canonicalize_prefix, validate_refresh_minutes, validate_settings, FieldOrigins, ValueOrigin,
};
use hoshiyomi::feed::{build_feed_items, build_item, feed_order, FeedRow};
use hoshiyomi::forge::{
    classify_response, followings_has_next_page, keep_new_events, parse_retry_after,
    request_validators, starred_has_next_page, ResponseClass, PER_PAGE,
};
use hoshiyomi::http::{compute_hashed_etag, compute_stars_etag, should_return_not_modified};
use hoshiyomi::poller::SchedulerState;
use hoshiyomi::query::{
    default_page, default_page_size, page_links, plan_filters, ActivityTierStat, LanguageStat,
    NextCheckSummary, OptionsSnapshot, QueryPlan, UserStat, StarQuery, StarQueryParams, StarSort,
    UserFilterMode,
};
use hoshiyomi::store::StarEvent;
use hoshiyomi::text::{decimal_string, fnv1a64, signed_decimal_string, trim};

fn event(repo: &str, starred_at: i64) -> StarEvent {
    StarEvent {
        repo_full_name: repo.to_string(),
        repo_description: None,
        repo_html_url: format!("https://github.com/{repo}"),
        starred_at,
        repo_language: None,
        repo_topics: Vec::new(),
    }
}

#[test]
fn fnv_matches_reference_values() {
    assert_eq!(fnv1a64(b""), 0xcbf29ce484222325);
    assert_eq!(fnv1a64(b"a"), 0xaf63dc4c8601ec8c);
    assert_eq!(fnv1a64(b"foobar"), 0x85944171f73967e8);
}

#[test]
fn hashed_etag_is_weak_and_labelled() {
    let tag = compute_hashed_etag("status", "payload");
    let expected = format!("W/\"status-{:016x}\"", fnv1a64(b"status|payload"));
    assert_eq!(tag, expected);
    assert_ne!(tag, compute_hashed_etag("status", "other"));
    assert_eq!(compute_hashed_etag("options", ""), format!("W/\"options-{:016x}\"", fnv1a64(b"options|")));
}

#[test]
fn stars_etag_covers_query_newest_and_total() {
    let tag = compute_stars_etag("page=1", Some(1_700_000_000_123), 7);
    let expected = compute_hashed_etag("stars", "page=1|1700000000123|7");
    assert_eq!(tag, expected);
    assert_eq!(compute_stars_etag("k", None, 0), compute_hashed_etag("stars", "k|none|0"));
    assert_eq!(compute_stars_etag("k", Some(-5), 1), compute_hashed_etag("stars", "k|-5|1"));
}

#[test]
fn if_none_match_handling() {
    let tag = "W/\"stars-0123456789abcdef\"";
    assert!(!should_return_not_modified(None, tag));
    assert!(should_return_not_modified(Some(" * "), tag));
    assert!(should_return_not_modified(Some(tag), tag));
    assert!(should_return_not_modified(Some("\"x\" , W/\"stars-0123456789abcdef\" "), tag));
    assert!(!should_return_not_modified(Some("\"x\", \"y\""), tag));
    assert!(!should_return_not_modified(Some(""), tag));
    assert!(should_return_not_modified(Some(",,"), ""));
}

#[test]
fn numbers_render_in_decimal() {
    assert_eq!(decimal_string(0), "0");
    assert_eq!(decimal_string(1234567890), "1234567890");
    assert_eq!(decimal_string(u64::MAX), u64::MAX.to_string());
    assert_eq!(signed_decimal_string(-42), "-42");
    assert_eq!(signed_decimal_string(i64::MIN), i64::MIN.to_string());
}

#[test]
fn trim_strips_unicode_whitespace() {
    assert_eq!(trim("  a b \t\n"), "a b");
    assert_eq!(trim("\u{3000}x\u{a0}"), "x");
    assert_eq!(trim("   "), "");
    assert_eq!(trim(""), "");
}

#[test]
fn normalized_key_orders_fields_by_name() {
    let q = StarQuery {
        search: Some("  tokio ".to_string()),
        language: Some("Rust".to_string()),
        activity: Some("   ".to_string()),
        user: Some("alice".to_string()),
        user_mode: UserFilterMode::Pin,
        sort: StarSort::Alpha,
        page: 0,
        page_size: 10,
    };
    assert_eq!(
        q.normalized_key(),
        "language=Rust&page=1&page_size=10&q=tokio&sort=alpha&user=alice&user_mode=pin"
    );
    assert_eq!(
        StarQuery::default().normalized_key(),
        "page=1&page_size=25&sort=newest&user_mode=all"
    );
    assert_eq!(q.page(), 1);
    assert_eq!(q.page_size(), 10);
}

#[test]
fn query_params_are_normalized() {
    let params = StarQueryParams {
        q: Some(" rust ".to_string()),
        language: Some("".to_string()),
        activity: Some("high".to_string()),
        user_mode: UserFilterMode::Exclude,
        user: None,
        sort: StarSort::Newest,
        page: 0,
        page_size: 500,
    };
    assert_eq!(params.page(), 1);
    assert_eq!(params.page_size(), 100);
    let q = params.to_star_query();
    assert_eq!(q.search.as_deref(), Some("rust"));
    assert!(q.language.is_none());
    assert_eq!(q.activity.as_deref(), Some("high"));
    assert_eq!(q.user_mode, UserFilterMode::Exclude);
    assert_eq!(q.page, 1);
    assert_eq!(q.page_size, 100);
    assert_eq!(default_page(), 1);
    assert_eq!(default_page_size(), 25);
    let d = StarQueryParams::default();
    assert_eq!(d.page_size, 25);
    assert_eq!(StarSort::Alpha.as_str(), "alpha");
    assert_eq!(UserFilterMode::Exclude.as_str(), "exclude");
}

#[test]
fn serve_prefix_is_canonical() {
    assert_eq!(canonicalize_prefix("  ").unwrap(), "");
    assert_eq!(canonicalize_prefix("///").unwrap(), "");
    assert_eq!(canonicalize_prefix("stars/").unwrap(), "/stars");
    assert_eq!(canonicalize_prefix(" //a//b/ ").unwrap(), "/a/b");
    assert_eq!(
        canonicalize_prefix("a b").unwrap_err(),
        "serve prefix must not contain whitespace"
    );
}

#[test]
fn refresh_minutes_must_be_positive() {
    assert_eq!(validate_refresh_minutes(15, "default value").unwrap(), 15);
    assert_eq!(
        validate_refresh_minutes(0, "flag --refresh-minutes").unwrap_err(),
        "refresh minutes must be greater than zero (source: flag --refresh-minutes)"
    );
}

#[test]
fn origins_describe_their_source() {
    let mut origins = FieldOrigins::new();
    assert_eq!(origins.describe("feed_length"), "default value");
    origins.set("feed_length", ValueOrigin::Flag("--feed-length"));
    assert_eq!(origins.describe("feed_length"), "flag --feed-length");
    origins.set("feed_length", ValueOrigin::Env("FOLLOWING_RSS_FEED_LENGTH"));
    assert_eq!(
        origins.describe("feed_length"),
        "environment variable FOLLOWING_RSS_FEED_LENGTH"
    );
    origins.set(
        "min_interval_minutes",
        ValueOrigin::Config { path: "/etc/h.toml".to_string(), key: "polling.min_interval_minutes" },
    );
    assert_eq!(
        origins.describe("min_interval_minutes"),
        "config file /etc/h.toml (key polling.min_interval_minutes)"
    );
    assert_eq!(ValueOrigin::Default.describe(), "default value");
}

#[test]
fn staleness_needs_two_missed_refreshes() {
    let mut s = SchedulerState::new(0);
    assert_eq!(s.refresh_minutes, 1);
    let mut s10 = SchedulerState::new(10);
    assert!(!s10.is_stale(1_000_000));
    s10.record_start(1_000);
    s10.record_finish(1_000, Some("network error".to_string()));
    assert_eq!(s10.last_error.as_deref(), Some("network error"));
    assert!(!s10.is_stale(1_000 + 1200));
    assert!(s10.is_stale(1_000 + 1201));
    s.record_finish(0, None);
    assert!(s.is_stale(121));
}

#[test]
fn rate_limit_answer_is_recognized() {
    let wait = parse_retry_after("60");
    assert_eq!(wait, Some(60));
    assert_eq!(classify_response(403, wait, true), ResponseClass::RateLimited(60));
    assert_eq!(classify_response(403, None, true), ResponseClass::Forbidden);
    assert_eq!(classify_response(401, None, false), ResponseClass::Auth);
    assert_eq!(classify_response(304, None, true), ResponseClass::NotModified);
    assert_eq!(classify_response(304, None, false), ResponseClass::Unexpected);
    assert_eq!(classify_response(200, None, false), ResponseClass::Success);
    assert_eq!(classify_response(502, None, true), ResponseClass::Unexpected);
}

#[test]
fn retry_after_reads_plain_seconds_only() {
    assert_eq!(parse_retry_after("+7"), Some(7));
    assert_eq!(parse_retry_after("18446744073709551615"), Some(u64::MAX));
    assert_eq!(parse_retry_after("18446744073709551616"), None);
    assert_eq!(parse_retry_after(""), None);
    assert_eq!(parse_retry_after("+"), None);
    assert_eq!(parse_retry_after("-1"), None);
    assert_eq!(parse_retry_after(" 5"), None);
    assert_eq!(parse_retry_after("Wed, 21 Oct 2015 07:28:00 GMT"), None);
}

#[test]
fn paging_stops_at_known_stars() {
    let mut page = vec![event("a/1", 500), event("a/2", 400), event("a/3", 300), event("a/4", 200)];
    let reached = keep_new_events(&mut page, Some(400));
    assert!(reached);
    assert_eq!(page.len(), 1);
    assert_eq!(page[0].repo_full_name, "a/1");
    let mut page = vec![event("a/1", 500)];
    assert!(!keep_new_events(&mut page, None));
    assert_eq!(page.len(), 1);
    assert!(!starred_has_next_page(1, false));
    assert!(starred_has_next_page(PER_PAGE, false));
    assert!(!starred_has_next_page(PER_PAGE, true));
    assert!(followings_has_next_page(100));
    assert!(!followings_has_next_page(99));
    assert!(!followings_has_next_page(0));
}

#[test]
fn validators_go_on_the_first_page_only() {
    let etag = Some("e1".to_string());
    let lm = Some("Tue, 01 Jan 2030 00:00:00 GMT".to_string());
    let (e, m) = request_validators(true, &etag, &lm);
    assert_eq!(e.as_deref(), Some("e1"));
    assert_eq!(m, lm);
    let (e, m) = request_validators(false, &etag, &lm);
    assert!(e.is_none() && m.is_none());
}

#[test]
fn query_plan_lowercases_and_filters() {
    let q = StarQuery {
        search: Some(" Tokio ".to_string()),
        language: Some("Rust".to_string()),
        activity: Some("Unknown".to_string()),
        user: Some("Alice".to_string()),
        user_mode: UserFilterMode::Exclude,
        sort: StarSort::Alpha,
        page: 3,
        page_size: 10,
    };
    let plan = QueryPlan::new(&q);
    assert_eq!(
        plan.where_sql,
        "WHERE (LOWER(s.repo_full_name) LIKE ? OR LOWER(COALESCE(s.repo_description, '')) LIKE ? ) AND LOWER(COALESCE(s.repo_language, '')) = ? AND u.activity_tier IS NULL AND LOWER(u.login) != ?"
    );
    assert_eq!(plan.bindings, vec!["%tokio%", "%tokio%", "rust", "alice"]);
    assert_eq!(
        plan.order_sql,
        "ORDER BY LOWER(s.repo_full_name) ASC, s.fetched_at DESC, s.id DESC"
    );
    assert_eq!(plan.limit, 10);
    assert_eq!(plan.offset, 20);
    let plain = QueryPlan::new(&StarQuery::default());
    assert_eq!(plain.where_sql, "");
    assert!(plain.bindings.is_empty());
    assert_eq!(plain.order_sql, "ORDER BY s.fetched_at DESC, s.id DESC");
    let (w, b) = plan_filters(None, None, Some("high"), Some("bob"), UserFilterMode::All);
    assert_eq!(w, "WHERE LOWER(COALESCE(u.activity_tier, '')) = ?");
    assert_eq!(b, vec!["high"]);
}

#[test]
fn settings_validation_names_the_broken_rule() {
    let mut origins = FieldOrigins::new();
    origins.set("min_interval_minutes", ValueOrigin::Flag("--min-interval-minutes"));
    let ok = validate_settings(Some("t".to_string()), 5, 100, 60, 10, 10080, &origins).unwrap();
    assert_eq!(ok.cadence.max_interval_minutes, 10080);
    assert_eq!(
        validate_settings(None, 5, 100, 60, 10, 10080, &origins).unwrap_err(),
        "GitHub token is required (set via --github-token / GITHUB_TOKEN or config file github.token)"
    );
    assert_eq!(
        validate_settings(Some("t".to_string()), 0, 100, 60, 10, 10080, &origins).unwrap_err(),
        "max concurrency must be greater than zero (source: default value)"
    );
    assert_eq!(
        validate_settings(Some("t".to_string()), 5, 0, 60, 10, 10080, &origins).unwrap_err(),
        "feed length must be greater than zero (source: default value)"
    );
    assert_eq!(
        validate_settings(Some("t".to_string()), 5, 100, 60, 0, 10080, &origins).unwrap_err(),
        "min interval must be positive (source: flag --min-interval-minutes)"
    );
    assert_eq!(
        validate_settings(Some("t".to_string()), 5, 100, 60, 10, 5, &origins).unwrap_err(),
        "max interval must be >= min interval (sources: max=default value, min=flag --min-interval-minutes)"
    );
}

fn feed_row(login: &str, repo: &str, description: Option<&str>, starred_at: i64) -> FeedRow {
    FeedRow {
        login: login.to_string(),
        repo_full_name: repo.to_string(),
        repo_description: description.map(|d| d.to_string()),
        repo_html_url: format!("https://github.com/{repo}"),
        starred_at,
    }
}

#[test]
fn feed_items_say_who_starred_what() {
    let item = build_item(&feed_row("alice", "rust-lang/rust", Some("Rust programming language"), 1_760_918_400));
    assert_eq!(item.title, "alice starred rust-lang/rust");
    assert_eq!(item.link, "https://github.com/rust-lang/rust");
    assert_eq!(item.description, "Rust programming language\nStarred by https://github.com/alice");
    assert_eq!(item.guid, "github-star://alice/rust-lang/rust/2025-10-20T00:00:00+00:00");
    assert_eq!(item.pub_date, "Mon, 20 Oct 2025 00:00:00 +0000");
    let bare = build_item(&feed_row("bob", "golang/go", None, 0));
    assert_eq!(bare.description, "Starred by https://github.com/bob");
    assert_eq!(bare.guid, "github-star://bob/golang/go/1970-01-01T00:00:00+00:00");
}

#[test]
fn feed_lists_newest_stars_first() {
    let rows = vec![
        feed_row("a", "x/1", None, 100),
        feed_row("b", "x/2", None, 300),
        feed_row("c", "x/3", None, 100),
        feed_row("d", "x/4", None, 200),
    ];
    assert_eq!(feed_order(&rows), vec![1, 3, 0, 2]);
    let items = build_feed_items(&rows);
    let titles: Vec<&str> = items.iter().map(|i| i.title.as_str()).collect();
    assert_eq!(titles, vec!["b starred x/2", "d starred x/4", "a starred x/1", "c starred x/3"]);
    assert!(build_feed_items(&Vec::new()).is_empty());
}

#[test]
fn page_links_follow_the_total() {
    assert_eq!(page_links(1, 10, 25), (true, false));
    assert_eq!(page_links(3, 10, 25), (false, true));
    assert_eq!(page_links(2, 10, 20), (false, true));
    assert_eq!(page_links(2, 10, 0), (false, false));
    assert_eq!(page_links(usize::MAX, usize::MAX, usize::MAX), (false, true));
}

#[test]
fn options_fingerprint_lists_every_count() {
    let snapshot = OptionsSnapshot {
        languages: vec![LanguageStat { name: "Rust".to_string(), count: 2 }],
        activity: vec![
            ActivityTierStat { tier: "high".to_string(), count: 1 },
            ActivityTierStat { tier: "unknown".to_string(), count: 3 },
        ],
        users: vec![UserStat { login: "alice".to_string(), display_name: "alice".to_string(), count: 2 }],
        updated_at: Some(1_760_918_400),
    };
    assert_eq!(
        snapshot.fingerprint(),
        "lang:Rust=2|activity:high=1|activity:unknown=3|user:alice=2|updated=2025-10-20T00:00:00+00:00"
    );
    let empty = OptionsSnapshot { languages: vec![], activity: vec![], users: vec![], updated_at: None };
    assert_eq!(empty.fingerprint(), "");
}

#[test]
fn next_check_summary_files_by_tier() {
    let mut summary = NextCheckSummary::default();
    summary.record("high", Some(30));
    summary.record("unknown", Some(60));
    summary.record("other", Some(90));
    summary.record("low", None);
    assert_eq!(summary.high, Some(30));
    assert_eq!(summary.unknown, Some(90));
    assert_eq!(summary.low, None);
    assert_eq!(summary.medium, None);
}
