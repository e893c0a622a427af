//! Properties that hold of every store and of pairs of operations.
use crate::cadence::{tier_for, ActivityTier};
use crate::schedule::{in_jitter_window, jitter_cap, valid_timestamp};
use crate::store::{
    count_for, deferred_applied, event_key, events_applied, has_key, ingest, not_modified_applied,
    row_key, upsert_all, upsert_one, EventView, FollowingUser, RowView, Store, UserRecord,
    MAX_WAIT_SECS,
};
use vstd::prelude::*;

verus! {

/// Every user's interval lies in the configured band, and a user's next
/// check is never before its last fetch.
pub proof fn lemma_users_within_band(s: &Store)
    requires
        s.wf(),
    ensures
        forall|i: int|
            0 <= i < s.users_view().len() ==> {
                let u = #[trigger] s.users_view()[i];
                &&& s.settings_view().min_interval_minutes <= u.fetch_interval_minutes
                    <= s.settings_view().max_interval_minutes
                &&& (u.last_fetched_at matches Some(f) ==> f <= u.next_check_at)
            },
{
    assert forall|i: int| 0 <= i < s.users_view().len() implies {
        let u = #[trigger] s.users_view()[i];
        &&& s.settings_view().min_interval_minutes <= u.fetch_interval_minutes
            <= s.settings_view().max_interval_minutes
        &&& (u.last_fetched_at matches Some(f) ==> f <= u.next_check_at)
    } by {
        let u = s.users_view()[i];
        assert(crate::store::user_ok(u, s.settings_view(), s.stars_view()));
    }
}

/// A user with no stars has no EMA and the band's maximum interval; with a
/// maximum above a day its tier is low.
pub proof fn lemma_zero_star_users(s: &Store)
    requires
        s.wf(),
    ensures
        forall|i: int|
            0 <= i < s.users_view().len() && #[trigger] s.users_view()[i].star_count == 0 ==> {
                let u = s.users_view()[i];
                &&& u.ema_milli_minutes is None
                &&& u.fetch_interval_minutes == s.settings_view().max_interval_minutes
                &&& (s.settings_view().max_interval_minutes > 24 * 60 ==> u.activity_tier == Some(
                    ActivityTier::Low,
                ))
            },
{
    assert forall|i: int| 0 <= i < s.users_view().len() && #[trigger] s.users_view()[i].star_count == 0 implies {
        let u = s.users_view()[i];
        &&& u.ema_milli_minutes is None
        &&& u.fetch_interval_minutes == s.settings_view().max_interval_minutes
        &&& (s.settings_view().max_interval_minutes > 24 * 60 ==> u.activity_tier == Some(
            ActivityTier::Low,
        ))
    } by {
        let u = s.users_view()[i];
        assert(crate::store::user_ok(u, s.settings_view(), s.stars_view()));
        if s.settings_view().max_interval_minutes > 24 * 60 {
            assert(tier_for(s.settings_view().max_interval_minutes as int) == ActivityTier::Low);
        }
    }
}

/// A user with one or two stars has no EMA and the default interval, clamped
/// into the band.
pub proof fn lemma_sparse_star_users(s: &Store)
    requires
        s.wf(),
    ensures
        forall|i: int|
            0 <= i < s.users_view().len() && 1 <= #[trigger] s.users_view()[i].star_count <= 2 ==> {
                let u = s.users_view()[i];
                &&& u.ema_milli_minutes is None
                &&& u.fetch_interval_minutes == s.settings_view().default_in_band()
            },
{
    assert forall|i: int| 0 <= i < s.users_view().len() && 1 <= #[trigger] s.users_view()[i].star_count <= 2 implies {
        let u = s.users_view()[i];
        &&& u.ema_milli_minutes is None
        &&& u.fetch_interval_minutes == s.settings_view().default_in_band()
    } by {
        assert(crate::store::user_ok(s.users_view()[i], s.settings_view(), s.stars_view()));
    }
}

/// No two stored star events share user, repository and star time.
pub proof fn lemma_star_keys_unique(s: &Store)
    requires
        s.wf(),
    ensures
        forall|i: int, j: int|
            0 <= i < s.stars_view().len() && 0 <= j < s.stars_view().len() && i != j ==> #[trigger] row_key(
                s.stars_view()[i],
            ) != #[trigger] row_key(s.stars_view()[j]),
{
}

/// A user's star count is the number of stored events that are theirs.
pub proof fn lemma_star_count_matches(s: &Store)
    requires
        s.wf(),
    ensures
        forall|i: int|
            0 <= i < s.users_view().len() ==> #[trigger] s.users_view()[i].star_count == count_for(
                s.stars_view(),
                s.users_view()[i].user_id,
            ),
{
    assert forall|i: int| 0 <= i < s.users_view().len() implies #[trigger] s.users_view()[i].star_count
        == count_for(s.stars_view(), s.users_view()[i].user_id) by {
        assert(crate::store::user_ok(s.users_view()[i], s.settings_view(), s.stars_view()));
    }
}

proof fn lemma_ingest_has_keys(rows: Seq<RowView>, user_id: i64, events: Seq<EventView>, fetched_at: i64)
    ensures
        forall|k: int|
            0 <= k < events.len() ==> has_key(
                ingest(rows, user_id, events, fetched_at),
                #[trigger] event_key(user_id, events[k]),
            ),
        forall|key: (i64, Seq<char>, i64)|
            has_key(rows, key) ==> #[trigger] has_key(ingest(rows, user_id, events, fetched_at), key),
    decreases events.len(),
{
    if events.len() > 0 {
        let prev = ingest(rows, user_id, events.drop_last(), fetched_at);
        lemma_ingest_has_keys(rows, user_id, events.drop_last(), fetched_at);
        let e = events.last();
        let r = ingest(rows, user_id, events, fetched_at);
        assert forall|key: (i64, Seq<char>, i64)| has_key(prev, key) implies #[trigger] has_key(r, key) by {
            let i = choose|i: int| 0 <= i < prev.len() && #[trigger] row_key(prev[i]) == key;
            assert(row_key(r[i]) == key);
        }
        assert forall|k: int| 0 <= k < events.len() implies has_key(
            r,
            #[trigger] event_key(user_id, events[k]),
        ) by {
            if k < events.len() - 1 {
                assert(events.drop_last()[k] == events[k]);
            } else if !has_key(prev, event_key(user_id, e)) {
                assert(row_key(r[prev.len() as int]) == event_key(user_id, e));
            }
        }
        assert forall|key: (i64, Seq<char>, i64)| has_key(rows, key) implies #[trigger] has_key(r, key) by {
            assert(has_key(prev, key));
        }
    }
}

proof fn lemma_ingest_present(rows: Seq<RowView>, user_id: i64, events: Seq<EventView>, fetched_at: i64)
    requires
        forall|k: int| 0 <= k < events.len() ==> has_key(rows, #[trigger] event_key(user_id, events[k])),
    ensures
        ingest(rows, user_id, events, fetched_at) == rows,
    decreases events.len(),
{
    if events.len() > 0 {
        assert forall|k: int| 0 <= k < events.drop_last().len() implies has_key(
            rows,
            #[trigger] event_key(user_id, events.drop_last()[k]),
        ) by {
            assert(events.drop_last()[k] == events[k]);
        }
        lemma_ingest_present(rows, user_id, events.drop_last(), fetched_at);
        assert(has_key(rows, event_key(user_id, events[events.len() - 1])));
    }
}

/// Writing the same batch of events a second time stores nothing more: the
/// rows after two writes are the rows after the first, so the second write
/// adds no star to the user's count.
pub proof fn lemma_insert_twice(
    rows: Seq<RowView>,
    user_id: i64,
    events: Seq<EventView>,
    first_fetched_at: i64,
    second_fetched_at: i64,
)
    ensures
        ingest(ingest(rows, user_id, events, first_fetched_at), user_id, events, second_fetched_at)
            == ingest(rows, user_id, events, first_fetched_at),
{
    let once = ingest(rows, user_id, events, first_fetched_at);
    lemma_ingest_has_keys(rows, user_id, events, first_fetched_at);
    lemma_ingest_present(once, user_id, events, second_fetched_at);
}

/// Writing followings never resets a user already known: every field but
/// the login stays as it was.
pub proof fn lemma_upsert_keeps_known_users(
    users: Seq<UserRecord>,
    followings: Seq<FollowingUser>,
    initial_interval_minutes: i64,
    now: i64,
    i: int,
)
    requires
        0 <= i < users.len(),
    ensures
        ({
            let after = upsert_all(users, followings, initial_interval_minutes, now);
            &&& i < after.len()
            &&& after[i] == (UserRecord { login: after[i].login, ..users[i] })
        }),
    decreases followings.len(),
{
    if followings.len() > 0 {
        lemma_upsert_keeps_known_users(
            users,
            followings.drop_last(),
            initial_interval_minutes,
            now,
            i,
        );
        let prev = upsert_all(users, followings.drop_last(), initial_interval_minutes, now);
        let f = followings.last();
        let after = upsert_one(prev, f, initial_interval_minutes, now);
        if exists|j: int| 0 <= j < prev.len() && #[trigger] prev[j].user_id == f.id {
            let j = choose|j: int| 0 <= j < prev.len() && #[trigger] prev[j].user_id == f.id;
            if j != i {
                assert(after[i] == prev[i]);
            }
        } else {
            assert(after[i] == prev[i]);
        }
    }
}

/// A "not modified" answer leaves the user's star count, latest star,
/// EMA and interval as they were; only the fetch time and next check move.
pub proof fn lemma_not_modified_keeps_cadence(
    before: Store,
    after: Store,
    user_id: i64,
    fetched_at: i64,
    interval_minutes: i64,
)
    requires
        not_modified_applied(before, after, user_id, fetched_at, interval_minutes),
        before.index_of(user_id) is Some,
    ensures
        ({
            let i = before.index_of(user_id).unwrap();
            let u = before.users_view()[i];
            let v = after.users_view()[i];
            &&& v.star_count == u.star_count
            &&& v.last_starred_at == u.last_starred_at
            &&& v.ema_milli_minutes == u.ema_milli_minutes
            &&& v.fetch_interval_minutes == u.fetch_interval_minutes
            &&& v.last_fetched_at == Some(fetched_at)
            &&& after.stars_view() == before.stars_view()
        }),
{
}

proof fn lemma_window_after(base: int, interval_minutes: int, t: int)
    requires
        in_jitter_window(base, interval_minutes, t),
    ensures
        t >= base + 60,
{
    if interval_minutes > 0 {
        let cap = jitter_cap(interval_minutes);
        assert(1 <= cap <= 30);
    }
}

/// After a cycle handles a due user whose answer came at or after `now`,
/// the user is no longer due at `now`: an answer moves the next check past
/// `now`, a rate limit to at least `now` plus the wait.
pub proof fn lemma_handled_user_not_due(
    before: Store,
    after: Store,
    user_id: i64,
    now: i64,
    fetched_at: i64,
    interval_minutes: i64,
    wait_secs: u64,
    events: Seq<EventView>,
    etag: Option<String>,
    last_modified: Option<String>,
)
    requires
        before.index_of(user_id) is Some,
        fetched_at >= now,
        valid_timestamp(now as int),
        wait_secs <= MAX_WAIT_SECS,
        not_modified_applied(before, after, user_id, fetched_at, interval_minutes)
            || events_applied(before, after, user_id, events, fetched_at, etag, last_modified, interval_minutes as int)
            || deferred_applied(before, after, user_id, wait_secs, now),
    ensures
        ({
            let v = after.users_view()[before.index_of(user_id).unwrap()];
            v.next_check_at > now || v.next_check_at >= now + wait_secs
        }),
{
    let i = before.index_of(user_id).unwrap();
    let v = after.users_view()[i];
    if not_modified_applied(before, after, user_id, fetched_at, interval_minutes) {
        lemma_window_after(fetched_at as int, interval_minutes as int, v.next_check_at as int);
    } else if events_applied(before, after, user_id, events, fetched_at, etag, last_modified, interval_minutes as int) {
        lemma_window_after(fetched_at as int, interval_minutes as int, v.next_check_at as int);
    }
}

proof fn lemma_index_kept(before: Store, after: Store, user_id: i64, i: int)
    requires
        after.wf(),
        before.index_of(user_id) == Some(i),
        0 <= i < after.users_view().len(),
        after.users_view()[i].user_id == user_id,
    ensures
        after.index_of(user_id) == Some(i),
{
    let j = choose|j: int| 0 <= j < after.users_view().len() && #[trigger] after.users_view()[j].user_id == user_id;
    assert(after.users_view()[j].user_id == after.users_view()[i].user_id);
}

/// Writing the same batch for a user twice leaves the stored rows and the
/// user's star count as the first write left them.
pub proof fn lemma_store_insert_twice(
    s0: Store,
    s1: Store,
    s2: Store,
    user_id: i64,
    events: Seq<EventView>,
    first_fetched_at: i64,
    second_fetched_at: i64,
    etag1: Option<String>,
    last_modified1: Option<String>,
    etag2: Option<String>,
    last_modified2: Option<String>,
    interval1: int,
    interval2: int,
)
    requires
        s0.wf(),
        s1.wf(),
        events_applied(s0, s1, user_id, events, first_fetched_at, etag1, last_modified1, interval1),
        events_applied(s1, s2, user_id, events, second_fetched_at, etag2, last_modified2, interval2),
    ensures
        s2.stars_view() == s1.stars_view(),
        ({
            let i = s0.index_of(user_id).unwrap();
            s2.users_view()[i].star_count == s1.users_view()[i].star_count
        }),
{
    let i = s0.index_of(user_id).unwrap();
    lemma_index_kept(s0, s1, user_id, i);
    lemma_insert_twice(s0.stars_view(), user_id, events, first_fetched_at, second_fetched_at);
}

} // verus!
