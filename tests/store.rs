use hoshiyomi::cadence::ActivityTier;
use hoshiyomi::forge::{GitHubApiError, StarFetchOutcome};
use hoshiyomi::pipeline::{followings_step, process_user, FollowingsStep, PipelineError, UserOutcome};
use hoshiyomi::store::{CadenceSettings, FollowingUser, StarEvent, Store, StoreError};

const NOW: i64 = 1_760_918_400;
const WEEK: i64 = 7 * 24 * 60;

fn settings() -> CadenceSettings {
    CadenceSettings::new(10, WEEK, 60).unwrap()
}

fn following(id: i64, login: &str) -> FollowingUser {
    FollowingUser { id, login: login.to_string() }
}

fn event(repo: &str, starred_at: i64) -> StarEvent {
    StarEvent {
        repo_full_name: repo.to_string(),
        repo_description: Some(format!("{repo} description")),
        repo_html_url: format!("https://github.com/{repo}"),
        starred_at,
        repo_language: Some("Rust".to_string()),
        repo_topics: vec!["cli".to_string()],
    }
}

fn store_with(users: &[(i64, &str)]) -> Store {
    let mut store = Store::new(settings());
    let list: Vec<FollowingUser> = users.iter().map(|(id, login)| following(*id, login)).collect();
    store.upsert_followings(&list, WEEK, NOW);
    store
}

#[test]
fn settings_require_a_valid_band() {
    assert!(CadenceSettings::new(10, WEEK, 60).is_some());
    assert!(CadenceSettings::new(0, WEEK, 60).is_none());
    assert!(CadenceSettings::new(20, 10, 60).is_none());
    assert!(CadenceSettings::new(1, 1, 1).is_some());
}

#[test]
fn new_users_start_at_max_interval_and_are_due() {
    let store = store_with(&[(1, "alice"), (2, "bob")]);
    assert_eq!(store.users().len(), 2);
    let alice = store.user(1).unwrap();
    assert_eq!(alice.login, "alice");
    assert_eq!(alice.fetch_interval_minutes, WEEK);
    assert_eq!(alice.next_check_at, NOW);
    assert_eq!(alice.activity_tier, Some(ActivityTier::Low));
    assert_eq!(alice.star_count, 0);
    assert!(alice.ema_milli_minutes.is_none());
    assert!(alice.last_fetched_at.is_none());
    assert_eq!(store.due_users(NOW).len(), 2);
    assert!(store.due_users(NOW - 1).is_empty());
}

#[test]
fn upsert_only_refreshes_login_of_known_users() {
    let mut store = store_with(&[(1, "alice")]);
    store
        .insert_star_events(1, &vec![event("a/b", NOW - 600)], NOW, Some("e1".to_string()), None)
        .unwrap();
    let before = store.user(1).unwrap().duplicate();
    store.upsert_followings(&vec![following(1, "alice2"), following(3, "carol")], WEEK, NOW + 999);
    let after = store.user(1).unwrap();
    assert_eq!(after.login, "alice2");
    assert_eq!(after.star_count, before.star_count);
    assert_eq!(after.next_check_at, before.next_check_at);
    assert_eq!(after.etag, before.etag);
    assert_eq!(after.fetch_interval_minutes, before.fetch_interval_minutes);
    assert_eq!(store.users().len(), 2);
    assert_eq!(store.user(3).unwrap().next_check_at, NOW + 999);
}

#[test]
fn upsert_twice_changes_nothing() {
    let mut store = store_with(&[(1, "alice"), (2, "bob")]);
    let once: Vec<(i64, String, i64)> = store
        .users()
        .iter()
        .map(|u| (u.user_id, u.login.clone(), u.next_check_at))
        .collect();
    store.upsert_followings(&vec![following(1, "alice"), following(2, "bob")], WEEK, NOW + 60);
    let twice: Vec<(i64, String, i64)> = store
        .users()
        .iter()
        .map(|u| (u.user_id, u.login.clone(), u.next_check_at))
        .collect();
    assert_eq!(once, twice);
}

#[test]
fn due_users_come_in_next_check_order() {
    let mut store = store_with(&[(1, "alice"), (2, "bob"), (3, "carol")]);
    store.defer_user(1, 600, NOW).unwrap();
    store.defer_user(2, 60, NOW).unwrap();
    let due: Vec<i64> = store.due_users(NOW + 600).iter().map(|u| u.user_id).collect();
    assert_eq!(due, vec![3, 2, 1]);
    let due: Vec<i64> = store.due_users(NOW + 60).iter().map(|u| u.user_id).collect();
    assert_eq!(due, vec![3, 2]);
}

#[test]
fn duplicate_events_are_stored_once() {
    let mut store = store_with(&[(1, "alice")]);
    let events = vec![event("a/b", NOW - 600), event("a/b", NOW - 600), event("c/d", NOW - 600)];
    store.insert_star_events(1, &events, NOW, None, None).unwrap();
    assert_eq!(store.stars().len(), 2);
    assert_eq!(store.user(1).unwrap().star_count, 2);
    assert_eq!(store.stars()[0].ingest_sequence, 1);
    assert_eq!(store.stars()[1].ingest_sequence, 2);
    assert_eq!(store.stars()[1].fetched_at, NOW);
}

#[test]
fn inserting_the_same_events_twice_ingests_nothing_more() {
    let mut store = store_with(&[(1, "alice")]);
    let events = vec![
        event("a/b", NOW - 7200),
        event("c/d", NOW - 3600),
        event("e/f", NOW - 1800),
        event("g/h", NOW - 600),
    ];
    store.insert_star_events(1, &events, NOW, None, None).unwrap();
    let first = store.user(1).unwrap().duplicate();
    let rows = store.stars().len();
    store.insert_star_events(1, &events, NOW + 60, None, None).unwrap();
    let second = store.user(1).unwrap();
    assert_eq!(store.stars().len(), rows);
    assert_eq!(second.star_count, first.star_count);
    assert_eq!(second.star_count, 4);
    assert_eq!(second.last_starred_at, first.last_starred_at);
    assert_eq!(second.last_fetched_at, Some(NOW + 60));
}

#[test]
fn repeated_batch_reopens_its_inner_gaps() {
    let mut store = store_with(&[(1, "alice")]);
    let events = vec![
        event("a/b", NOW - 7200),
        event("c/d", NOW - 3600),
        event("e/f", NOW - 1800),
        event("g/h", NOW - 600),
    ];
    store.insert_star_events(1, &events, NOW, None, None).unwrap();
    assert_eq!(store.user(1).unwrap().ema_milli_minutes, Some(31_666));
    assert_eq!(store.user(1).unwrap().fetch_interval_minutes, 32);
    store.insert_star_events(1, &events, NOW + 60, None, None).unwrap();
    assert_eq!(store.user(1).unwrap().ema_milli_minutes, Some(31_981));
    assert_eq!(store.user(1).unwrap().fetch_interval_minutes, 32);
}

#[test]
fn inserted_events_drive_the_cadence() {
    let mut store = store_with(&[(1, "alice")]);
    let interval = store
        .insert_star_events(1, &vec![event("a/b", NOW - 600)], NOW, Some("e1".to_string()), Some("lm".to_string()))
        .unwrap();
    let alice = store.user(1).unwrap();
    assert_eq!(interval, 60);
    assert_eq!(alice.fetch_interval_minutes, 60);
    assert_eq!(alice.activity_tier, Some(ActivityTier::High));
    assert_eq!(alice.star_count, 1);
    assert_eq!(alice.last_starred_at, Some(NOW - 600));
    assert_eq!(alice.last_fetched_at, Some(NOW));
    assert_eq!(alice.etag.as_deref(), Some("e1"));
    assert_eq!(alice.last_modified.as_deref(), Some("lm"));
    assert!(alice.next_check_at >= NOW + 54 * 60 && alice.next_check_at <= NOW + 66 * 60);
    assert!(alice.ema_milli_minutes.is_none());
}

#[test]
fn empty_batch_keeps_validators_not_given_and_settles_zero_star_users() {
    let mut store = store_with(&[(1, "alice")]);
    store.record_not_modified(1, NOW, WEEK);
    let interval = store.insert_star_events(1, &vec![], NOW + 60, None, None).unwrap();
    let alice = store.user(1).unwrap();
    assert_eq!(interval, WEEK);
    assert_eq!(alice.fetch_interval_minutes, WEEK);
    assert_eq!(alice.activity_tier, Some(ActivityTier::Low));
    assert!(alice.ema_milli_minutes.is_none());
    assert_eq!(alice.last_fetched_at, Some(NOW + 60));
}

#[test]
fn unknown_user_is_refused() {
    let mut store = store_with(&[(1, "alice")]);
    let r = store.insert_star_events(9, &vec![event("a/b", NOW)], NOW, None, None);
    assert_eq!(r, Err(StoreError::UnknownUser));
    assert!(store.stars().is_empty());
}

#[test]
fn not_modified_only_moves_fetch_time_and_next_check() {
    let mut store = store_with(&[(1, "alice")]);
    store
        .insert_star_events(1, &vec![event("a/b", NOW - 600)], NOW, Some("e1".to_string()), None)
        .unwrap();
    let before = store.user(1).unwrap().duplicate();
    let rows = store.stars().len();
    store.record_not_modified(1, NOW + 3600, before.fetch_interval_minutes);
    let after = store.user(1).unwrap();
    assert_eq!(store.stars().len(), rows);
    assert_eq!(after.star_count, before.star_count);
    assert_eq!(after.last_starred_at, before.last_starred_at);
    assert_eq!(after.ema_milli_minutes, before.ema_milli_minutes);
    assert_eq!(after.fetch_interval_minutes, before.fetch_interval_minutes);
    assert_eq!(after.etag.as_deref(), Some("e1"));
    assert_eq!(after.last_fetched_at, Some(NOW + 3600));
    assert!(after.next_check_at >= NOW + 3600 + 54 * 60);
    assert!(after.next_check_at <= NOW + 3600 + 66 * 60);
}

#[test]
fn rate_limited_user_is_deferred() {
    let mut store = store_with(&[(1, "alice")]);
    let user = store.user(1).unwrap().duplicate();
    let r = process_user(&mut store, &user, Err(GitHubApiError::RateLimited(60)), NOW);
    assert_eq!(r.unwrap(), UserOutcome::Deferred { wait_secs: 60 });
    let alice = store.user(1).unwrap();
    assert!(alice.next_check_at >= NOW + 60);
    assert_eq!(alice.next_check_at, NOW + 60);
    assert_eq!(alice.last_fetched_at, Some(NOW));
    assert_eq!(alice.fetch_interval_minutes, WEEK);
}

#[test]
fn overlong_wait_is_refused() {
    let mut store = store_with(&[(1, "alice")]);
    assert_eq!(store.defer_user(1, u64::MAX, NOW), Err(StoreError::InvalidWait));
    assert_eq!(store.user(1).unwrap().next_check_at, NOW);
}

#[test]
fn conditional_hit_records_no_new_rows() {
    let mut store = store_with(&[(1, "alice")]);
    let user = store.user(1).unwrap().duplicate();
    let events = vec![event("a/b", NOW - 600)];
    let r = process_user(
        &mut store,
        &user,
        Ok(StarFetchOutcome::Modified {
            fetched_at: NOW,
            etag: Some("e1".to_string()),
            last_modified: None,
            events,
        }),
        NOW,
    );
    assert_eq!(r.unwrap(), UserOutcome::Ingested { interval_minutes: 60 });
    let user = store.user(1).unwrap().duplicate();
    assert_eq!(user.etag.as_deref(), Some("e1"));
    let r = process_user(
        &mut store,
        &user,
        Ok(StarFetchOutcome::NotModified { fetched_at: NOW + 3600 }),
        NOW + 3600,
    );
    assert_eq!(r.unwrap(), UserOutcome::NotModified);
    let after = store.user(1).unwrap();
    assert_eq!(store.stars().len(), 1);
    assert_eq!(after.star_count, 1);
    assert_eq!(after.last_fetched_at, Some(NOW + 3600));
    assert!(after.next_check_at > NOW + 3600);
}

#[test]
fn fatal_answers_stop_the_cycle() {
    let mut store = store_with(&[(1, "alice")]);
    let user = store.user(1).unwrap().duplicate();
    assert!(matches!(
        process_user(&mut store, &user, Err(GitHubApiError::Auth), NOW),
        Err(PipelineError::Auth)
    ));
    assert!(matches!(
        process_user(&mut store, &user, Err(GitHubApiError::Forbidden), NOW),
        Err(PipelineError::Forbidden)
    ));
    match process_user(&mut store, &user, Err(GitHubApiError::Other("boom".to_string())), NOW) {
        Err(PipelineError::Transient(m)) => assert_eq!(m, "boom"),
        other => panic!("unexpected {other:?}"),
    }
    assert_eq!(store.user(1).unwrap().next_check_at, NOW);
}

#[test]
fn followings_rate_limit_is_retried() {
    match followings_step(Err(GitHubApiError::RateLimited(30))) {
        FollowingsStep::Retry { wait_secs } => assert_eq!(wait_secs, 30),
        other => panic!("unexpected {other:?}"),
    }
    match followings_step(Ok(vec![following(1, "alice")])) {
        FollowingsStep::Done(users) => assert_eq!(users[0].login, "alice"),
        other => panic!("unexpected {other:?}"),
    }
    assert!(matches!(
        followings_step(Err(GitHubApiError::Auth)),
        FollowingsStep::Fail(PipelineError::Auth)
    ));
}

#[test]
fn third_star_bootstraps_from_stored_history() {
    let mut store = store_with(&[(1, "alice")]);
    let t0 = NOW;
    let t1 = t0 + 1440 * 60;
    let t2 = t1 + 720 * 60;
    store.insert_star_events(1, &vec![event("r/0", t0)], t0, None, None).unwrap();
    store.insert_star_events(1, &vec![event("r/1", t1)], t1, None, None).unwrap();
    let alice = store.user(1).unwrap();
    assert_eq!(alice.star_count, 2);
    assert_eq!(alice.fetch_interval_minutes, 60);
    assert!(alice.ema_milli_minutes.is_none());
    let interval = store.insert_star_events(1, &vec![event("r/2", t2)], t2, None, None).unwrap();
    let alice = store.user(1).unwrap();
    assert_eq!(interval, 972);
    assert_eq!(alice.activity_tier, Some(ActivityTier::Medium));
    assert_eq!(alice.ema_milli_minutes, Some(972_000));
}
