//! The store of followed users, their polling state and their star events,
//! with the invariants that every completed operation keeps.
use crate::cadence::{
    band_default, cadence_unclamped, clamp, i64_option, new_gaps, recompute_interval,
    sort_ascending, sorted_ascending, compute_gap_minutes, tier_for, ActivityTier,
    MAX_INTERVAL_MINUTES,
};
use crate::schedule::{in_jitter_window, next_check_with_jitter, valid_timestamp};
use vstd::prelude::*;

verus! {

/// An account that the authenticated user follows.
#[derive(Debug)]
pub struct FollowingUser {
    pub id: i64,
    pub login: String,
}

/// One starred repository as the forge reports it; `starred_at` is in
/// seconds since the epoch.
#[derive(Debug)]
pub struct StarEvent {
    pub repo_full_name: String,
    pub repo_description: Option<String>,
    pub repo_html_url: String,
    pub starred_at: i64,
    pub repo_language: Option<String>,
    pub repo_topics: Vec<String>,
}

/// Per-user polling state; timestamps are seconds since the epoch.
#[derive(Debug)]
pub struct UserRecord {
    pub user_id: i64,
    pub login: String,
    pub last_starred_at: Option<i64>,
    pub last_fetched_at: Option<i64>,
    pub etag: Option<String>,
    pub last_modified: Option<String>,
    pub fetch_interval_minutes: i64,
    pub next_check_at: i64,
    pub activity_tier: Option<ActivityTier>,
    /// Smoothed gap between stars, in thousandths of a minute.
    pub ema_milli_minutes: Option<i64>,
    pub star_count: i64,
}

/// A stored star event.
#[derive(Debug)]
pub struct StarRow {
    pub user_id: i64,
    pub event: StarEvent,
    pub fetched_at: i64,
    pub ingest_sequence: i64,
}

/// The polling band: `1 <= min <= max`, and `default` clamped into it.
#[derive(Clone, Copy, Debug)]
pub struct CadenceSettings {
    pub min_interval_minutes: i64,
    pub max_interval_minutes: i64,
    pub default_interval_minutes: i64,
}

impl CadenceSettings {
    pub open spec fn valid(self) -> bool {
        &&& 1 <= self.min_interval_minutes
        &&& self.min_interval_minutes <= self.max_interval_minutes
        &&& self.max_interval_minutes <= MAX_INTERVAL_MINUTES
    }

    pub open spec fn default_in_band(self) -> int {
        band_default(
            self.min_interval_minutes as int,
            self.max_interval_minutes as int,
            self.default_interval_minutes as int,
        )
    }

    /// Settings from configured values; none unless `1 <= min <= max` and
    /// `max` is an interval that a time delta can hold.
    pub fn new(min_interval_minutes: i64, max_interval_minutes: i64, default_interval_minutes: i64) -> (r: Option<CadenceSettings>)
        ensures
            r is Some <==> (1 <= min_interval_minutes <= max_interval_minutes
                <= MAX_INTERVAL_MINUTES),
            r matches Some(s) ==> s.valid() && s.min_interval_minutes == min_interval_minutes
                && s.max_interval_minutes == max_interval_minutes && s.default_interval_minutes
                == default_interval_minutes,
    {
        if 1 <= min_interval_minutes && min_interval_minutes <= max_interval_minutes
            && max_interval_minutes <= MAX_INTERVAL_MINUTES {
            Some(CadenceSettings { min_interval_minutes, max_interval_minutes, default_interval_minutes })
        } else {
            None
        }
    }
}

pub fn copy_string_option(o: &Option<String>) -> (r: Option<String>)
    ensures
        r == *o,
{
    match o {
        Some(s) => Some(s.clone()),
        None => None,
    }
}

pub fn copy_strings(v: &Vec<String>) -> (r: Vec<String>)
    ensures
        r@ == v@,
{
    let mut out: Vec<String> = Vec::new();
    let mut i: usize = 0;
    while i < v.len()
        invariant
            0 <= i <= v@.len(),
            out@ == v@.take(i as int),
        decreases v@.len() - i,
    {
        out.push(v[i].clone());
        assert(out@ =~= v@.take(i as int + 1));
        i = i + 1;
    }
    assert(v@.take(v@.len() as int) =~= v@);
    out
}

pub open spec fn string_option_view(o: Option<String>) -> Option<Seq<char>> {
    match o {
        Some(s) => Some(s@),
        None => None,
    }
}

/// A star event as plain values.
pub struct EventView {
    pub repo_full_name: Seq<char>,
    pub repo_description: Option<Seq<char>>,
    pub repo_html_url: Seq<char>,
    pub starred_at: i64,
    pub repo_language: Option<Seq<char>>,
    pub repo_topics: Seq<Seq<char>>,
}

impl View for StarEvent {
    type V = EventView;

    open spec fn view(&self) -> EventView {
        EventView {
            repo_full_name: self.repo_full_name@,
            repo_description: string_option_view(self.repo_description),
            repo_html_url: self.repo_html_url@,
            starred_at: self.starred_at,
            repo_language: string_option_view(self.repo_language),
            repo_topics: self.repo_topics@.map_values(|t: String| t@),
        }
    }
}

/// A stored star event as plain values.
pub struct RowView {
    pub user_id: i64,
    pub event: EventView,
    pub fetched_at: i64,
    pub ingest_sequence: i64,
}

impl View for StarRow {
    type V = RowView;

    open spec fn view(&self) -> RowView {
        RowView {
            user_id: self.user_id,
            event: self.event@,
            fetched_at: self.fetched_at,
            ingest_sequence: self.ingest_sequence,
        }
    }
}

impl StarEvent {
    pub fn duplicate(&self) -> (r: StarEvent)
        ensures
            r@ == self@,
    {
        StarEvent {
            repo_full_name: self.repo_full_name.clone(),
            repo_description: copy_string_option(&self.repo_description),
            repo_html_url: self.repo_html_url.clone(),
            starred_at: self.starred_at,
            repo_language: copy_string_option(&self.repo_language),
            repo_topics: copy_strings(&self.repo_topics),
        }
    }
}

impl UserRecord {
    pub fn duplicate(&self) -> (r: UserRecord)
        ensures
            r == *self,
    {
        UserRecord {
            user_id: self.user_id,
            login: self.login.clone(),
            last_starred_at: self.last_starred_at,
            last_fetched_at: self.last_fetched_at,
            etag: copy_string_option(&self.etag),
            last_modified: copy_string_option(&self.last_modified),
            fetch_interval_minutes: self.fetch_interval_minutes,
            next_check_at: self.next_check_at,
            activity_tier: self.activity_tier,
            ema_milli_minutes: self.ema_milli_minutes,
            star_count: self.star_count,
        }
    }
}

/// Uniqueness key of a star event.
pub open spec fn row_key(r: RowView) -> (i64, Seq<char>, i64) {
    (r.user_id, r.event.repo_full_name, r.event.starred_at)
}

pub open spec fn event_key(user_id: i64, e: EventView) -> (i64, Seq<char>, i64) {
    (user_id, e.repo_full_name, e.starred_at)
}

pub open spec fn has_key(rows: Seq<RowView>, k: (i64, Seq<char>, i64)) -> bool {
    exists|i: int| 0 <= i < rows.len() && #[trigger] row_key(rows[i]) == k
}

/// Number of rows that belong to a user.
pub open spec fn count_for(rows: Seq<RowView>, user_id: i64) -> int
    decreases rows.len(),
{
    if rows.len() == 0 {
        0
    } else {
        count_for(rows.drop_last(), user_id) + if rows.last().user_id == user_id {
            1int
        } else {
            0int
        }
    }
}

/// The `starred_at` of a user's rows, in row order.
pub open spec fn starred_of(rows: Seq<RowView>, user_id: i64) -> Seq<i64>
    decreases rows.len(),
{
    if rows.len() == 0 {
        Seq::empty()
    } else {
        let rest = starred_of(rows.drop_last(), user_id);
        if rows.last().user_id == user_id {
            rest.push(rows.last().event.starred_at)
        } else {
            rest
        }
    }
}

pub open spec fn keys_unique(rows: Seq<RowView>) -> bool {
    forall|i: int, j: int|
        0 <= i < rows.len() && 0 <= j < rows.len() && #[trigger] row_key(rows[i])
            == #[trigger] row_key(rows[j]) ==> i == j
}

pub open spec fn sequenced(rows: Seq<RowView>) -> bool {
    forall|i: int| 0 <= i < rows.len() ==> #[trigger] rows[i].ingest_sequence == i + 1
}

/// The rows after a user's events are written in order, each one skipped
/// when a row with its key is already there.
pub open spec fn ingest(rows: Seq<RowView>, user_id: i64, events: Seq<EventView>, fetched_at: i64) -> Seq<RowView>
    decreases events.len(),
{
    if events.len() == 0 {
        rows
    } else {
        let prev = ingest(rows, user_id, events.drop_last(), fetched_at);
        let e = events.last();
        if has_key(prev, event_key(user_id, e)) {
            prev
        } else {
            prev.push(
                RowView { user_id, event: e, fetched_at, ingest_sequence: (prev.len() + 1) as i64 },
            )
        }
    }
}

/// The latest star time after a batch: the previous one, advanced by any
/// later event.
pub open spec fn latest_starred(prev: Option<i64>, events: Seq<EventView>) -> Option<i64>
    decreases events.len(),
{
    if events.len() == 0 {
        prev
    } else {
        let p = latest_starred(prev, events.drop_last());
        let t = events.last().starred_at;
        match p {
            Some(x) => if x < t {
                Some(t)
            } else {
                Some(x)
            },
            None => Some(t),
        }
    }
}

pub open spec fn event_times(events: Seq<EventView>) -> Seq<i64> {
    events.map_values(|e: EventView| e.starred_at)
}

pub open spec fn event_views(events: Seq<StarEvent>) -> Seq<EventView> {
    events.map_values(|e: StarEvent| e@)
}

proof fn lemma_count_push(rows: Seq<RowView>, r: RowView, id: i64)
    ensures
        count_for(rows.push(r), id) == count_for(rows, id) + if r.user_id == id {
            1int
        } else {
            0int
        },
{
    assert(rows.push(r).drop_last() =~= rows);
}

proof fn lemma_count_bounds(rows: Seq<RowView>, id: i64)
    ensures
        0 <= count_for(rows, id) <= rows.len(),
    decreases rows.len(),
{
    if rows.len() > 0 {
        lemma_count_bounds(rows.drop_last(), id);
    }
}

proof fn lemma_ingest(rows: Seq<RowView>, user_id: i64, events: Seq<EventView>, fetched_at: i64, id: i64)
    requires
        keys_unique(rows),
        sequenced(rows),
        rows.len() + events.len() < 0x7fff_ffff_ffff_ffff,
    ensures
        ({
            let r = ingest(rows, user_id, events, fetched_at);
            &&& rows.len() <= r.len() <= rows.len() + events.len()
            &&& r.subrange(0, rows.len() as int) == rows
            &&& keys_unique(r)
            &&& sequenced(r)
            &&& count_for(r, id) == count_for(rows, id) + if id == user_id {
                r.len() - rows.len()
            } else {
                0
            }
        }),
    decreases events.len(),
{
    if events.len() == 0 {
        assert(rows.subrange(0, rows.len() as int) =~= rows);
    } else {
        lemma_ingest(rows, user_id, events.drop_last(), fetched_at, id);
        let prev = ingest(rows, user_id, events.drop_last(), fetched_at);
        let e = events.last();
        if !has_key(prev, event_key(user_id, e)) {
            let row = RowView { user_id, event: e, fetched_at, ingest_sequence: (prev.len() + 1) as i64 };
            let r = prev.push(row);
            lemma_count_push(prev, row, id);
            assert(r.subrange(0, rows.len() as int) =~= prev.subrange(0, rows.len() as int));
            assert forall|i: int, j: int|
                0 <= i < r.len() && 0 <= j < r.len() && #[trigger] row_key(r[i])
                    == #[trigger] row_key(r[j]) implies i == j by {
                if i < prev.len() && j < prev.len() {
                } else if i < prev.len() {
                    assert(row_key(prev[i]) == event_key(user_id, e));
                } else if j < prev.len() {
                    assert(row_key(prev[j]) == event_key(user_id, e));
                }
            }
        }
    }
}

proof fn lemma_ids_kept(a: Seq<UserRecord>, b: Seq<UserRecord>, rows: Seq<RowView>)
    requires
        a.len() == b.len(),
        forall|i: int| 0 <= i < a.len() ==> #[trigger] a[i].user_id == b[i].user_id,
        forall|id: i64|
            (forall|i: int| 0 <= i < a.len() ==> a[i].user_id != id) ==> #[trigger] count_for(rows, id)
                == 0,
    ensures
        forall|id: i64|
            (forall|i: int| 0 <= i < b.len() ==> b[i].user_id != id) ==> #[trigger] count_for(rows, id)
                == 0,
{
    assert forall|id: i64| (forall|i: int| 0 <= i < b.len() ==> b[i].user_id != id) implies #[trigger] count_for(
        rows,
        id,
    ) == 0 by {
        assert forall|i: int| 0 <= i < a.len() implies a[i].user_id != id by {
            assert(a[i].user_id == b[i].user_id);
        }
    }
}

/// A followed user seen for the first time: due at once, at the given
/// interval, with no stars.
pub open spec fn new_user(f: FollowingUser, initial_interval_minutes: i64, now: i64) -> UserRecord {
    UserRecord {
        user_id: f.id,
        login: f.login,
        last_starred_at: None,
        last_fetched_at: None,
        etag: None,
        last_modified: None,
        fetch_interval_minutes: initial_interval_minutes,
        next_check_at: now,
        activity_tier: Some(ActivityTier::Low),
        ema_milli_minutes: None,
        star_count: 0,
    }
}

/// One following written into the users: a known id has its login
/// refreshed and nothing else; an unknown one is added.
pub open spec fn upsert_one(users: Seq<UserRecord>, f: FollowingUser, initial_interval_minutes: i64, now: i64) -> Seq<UserRecord> {
    if exists|i: int| 0 <= i < users.len() && #[trigger] users[i].user_id == f.id {
        let i = choose|i: int| 0 <= i < users.len() && #[trigger] users[i].user_id == f.id;
        users.update(i, UserRecord { login: f.login, ..users[i] })
    } else {
        users.push(new_user(f, initial_interval_minutes, now))
    }
}

/// The followings written in order.
pub open spec fn upsert_all(users: Seq<UserRecord>, followings: Seq<FollowingUser>, initial_interval_minutes: i64, now: i64) -> Seq<UserRecord>
    decreases followings.len(),
{
    if followings.len() == 0 {
        users
    } else {
        upsert_one(
            upsert_all(users, followings.drop_last(), initial_interval_minutes, now),
            followings.last(),
            initial_interval_minutes,
            now,
        )
    }
}

/// The state invariants of one user under the store's settings.
pub open spec fn user_ok(u: UserRecord, s: CadenceSettings, rows: Seq<RowView>) -> bool {
    &&& s.min_interval_minutes <= u.fetch_interval_minutes <= s.max_interval_minutes
    &&& (u.last_fetched_at matches Some(f) ==> f <= u.next_check_at)
    &&& u.star_count == count_for(rows, u.user_id)
    &&& (u.star_count == 0 ==> u.ema_milli_minutes is None && u.fetch_interval_minutes
        == s.max_interval_minutes && (u.activity_tier == Some(ActivityTier::Low)
        || u.activity_tier == Some(tier_for(s.max_interval_minutes as int))))
    &&& (1 <= u.star_count <= 2 ==> u.ema_milli_minutes is None && u.fetch_interval_minutes
        == s.default_in_band())
}

/// Longest wait, in seconds, that a time delta of i64 milliseconds holds.
pub const MAX_WAIT_SECS: u64 = 9_223_372_036_854_775;

/// Why a store operation was refused.
#[derive(Clone, Copy, Debug, PartialEq, Eq, Structural)]
pub enum StoreError {
    /// No followed user has this id.
    UnknownUser,
    /// The wait is longer than a time delta holds.
    InvalidWait,
}

/// Followed users, their polling state and their star events.
pub struct Store {
    settings: CadenceSettings,
    users: Vec<UserRecord>,
    stars: Vec<StarRow>,
}

impl Store {
    pub closed spec fn settings_view(&self) -> CadenceSettings {
        self.settings
    }

    pub closed spec fn users_view(&self) -> Seq<UserRecord> {
        self.users@
    }

    pub closed spec fn stars_view(&self) -> Seq<RowView> {
        self.stars@.map_values(|r: StarRow| r@)
    }

    pub open spec fn wf(&self) -> bool {
        let users = self.users_view();
        let rows = self.stars_view();
        &&& self.settings_view().valid()
        &&& forall|i: int, j: int|
            0 <= i < users.len() && 0 <= j < users.len() && #[trigger] users[i].user_id
                == #[trigger] users[j].user_id ==> i == j
        &&& forall|i: int, j: int|
            0 <= i < rows.len() && 0 <= j < rows.len() && #[trigger] row_key(rows[i])
                == #[trigger] row_key(rows[j]) ==> i == j
        &&& forall|i: int|
            0 <= i < rows.len() ==> #[trigger] rows[i].ingest_sequence == i + 1
        &&& forall|i: int|
            0 <= i < users.len() ==> user_ok(#[trigger] users[i], self.settings_view(), rows)
        &&& forall|id: i64|
            (forall|i: int| 0 <= i < users.len() ==> users[i].user_id != id) ==> #[trigger] count_for(
                rows,
                id,
            ) == 0
    }

    /// Position of a user in the store.
    pub open spec fn index_of(&self, user_id: i64) -> Option<int> {
        if exists|i: int| 0 <= i < self.users_view().len() && #[trigger] self.users_view()[i].user_id == user_id {
            Some(choose|i: int| 0 <= i < self.users_view().len() && #[trigger] self.users_view()[i].user_id == user_id)
        } else {
            None
        }
    }

    pub fn new(settings: CadenceSettings) -> (r: Store)
        requires
            settings.valid(),
        ensures
            r.wf(),
            r.settings_view() == settings,
            r.users_view().len() == 0,
            r.stars_view().len() == 0,
    {
        Store { settings, users: Vec::new(), stars: Vec::new() }
    }

    pub fn settings(&self) -> (r: CadenceSettings)
        ensures
            r == self.settings_view(),
    {
        self.settings
    }

    pub fn users(&self) -> (r: &Vec<UserRecord>)
        ensures
            r@ == self.users_view(),
    {
        &self.users
    }

    pub fn stars(&self) -> (r: &Vec<StarRow>)
        ensures
            r@.map_values(|row: StarRow| row@) == self.stars_view(),
    {
        &self.stars
    }

    fn find_index(&self, user_id: i64) -> (r: Option<usize>)
        ensures
            match r {
                Some(i) => i < self.users_view().len() && self.users_view()[i as int].user_id
                    == user_id,
                None => forall|i: int|
                    0 <= i < self.users_view().len() ==> #[trigger] self.users_view()[i].user_id
                        != user_id,
            },
    {
        let mut i: usize = 0;
        while i < self.users.len()
            invariant
                0 <= i <= self.users@.len(),
                forall|j: int| 0 <= j < i ==> #[trigger] self.users@[j].user_id != user_id,
            decreases self.users@.len() - i,
        {
            if self.users[i].user_id == user_id {
                return Some(i);
            }
            i = i + 1;
        }
        None
    }

    proof fn lemma_index_of(&self, user_id: i64, i: int)
        requires
            self.wf(),
            0 <= i < self.users_view().len(),
            self.users_view()[i].user_id == user_id,
        ensures
            self.index_of(user_id) == Some(i),
    {
    }

    /// The record of a user, if the store has one.
    pub fn user(&self, user_id: i64) -> (r: Option<&UserRecord>)
        requires
            self.wf(),
        ensures
            match self.index_of(user_id) {
                Some(i) => r == Some(&self.users_view()[i]),
                None => r is None,
            },
    {
        match self.find_index(user_id) {
            Some(i) => {
                proof {
                    self.lemma_index_of(user_id, i as int);
                }
                Some(&self.users[i])
            },
            None => None,
        }
    }

    /// Records a poll that the forge answered with "not modified": only the
    /// fetch time and the next check (the interval from `fetched_at`, with
    /// jitter) move.
    pub fn record_not_modified(&mut self, user_id: i64, fetched_at: i64, interval_minutes: i64)
        requires
            old(self).wf(),
            valid_timestamp(fetched_at as int),
            interval_minutes <= MAX_INTERVAL_MINUTES,
        ensures
            final(self).wf(),
            not_modified_applied(*old(self), *final(self), user_id, fetched_at, interval_minutes),
    {
        match self.find_index(user_id) {
            Some(i) => {
                proof {
                    self.lemma_index_of(user_id, i as int);
                }
                let next = next_check_with_jitter(fetched_at, interval_minutes);
                self.users[i].last_fetched_at = Some(fetched_at);
                self.users[i].next_check_at = next;
                proof {
                    assert forall|j: int| 0 <= j < self.users@.len() implies user_ok(
                        #[trigger] self.users@[j],
                        self.settings,
                        self.stars_view(),
                    ) by {
                        if j != i {
                            assert(self.users@[j] == old(self).users@[j]);
                        }
                    }
                    assert forall|j: int| 0 <= j < old(self).users@.len() implies #[trigger] old(self).users@[j].user_id
                        == self.users@[j].user_id by {
                        if j != i {
                            assert(self.users@[j] == old(self).users@[j]);
                        }
                    }
                    lemma_ids_kept(old(self).users@, self.users@, self.stars_view());
                }
            },
            None => {},
        }
    }

    /// Puts a rate-limited user off: due again `wait_secs` after `now`.
    pub fn defer_user(&mut self, user_id: i64, wait_secs: u64, now: i64) -> (r: Result<(), StoreError>)
        requires
            old(self).wf(),
            valid_timestamp(now as int),
        ensures
            final(self).wf(),
            r is Err <==> wait_secs > MAX_WAIT_SECS,
            r is Err ==> r == Err::<(), StoreError>(StoreError::InvalidWait) && *final(self) == *old(self),
            r is Ok ==> deferred_applied(*old(self), *final(self), user_id, wait_secs, now),
    {
        if wait_secs > MAX_WAIT_SECS {
            assert(self.users@ =~= old(self).users@);
            return Err(StoreError::InvalidWait);
        }
        match self.find_index(user_id) {
            Some(i) => {
                proof {
                    self.lemma_index_of(user_id, i as int);
                }
                let next = now + wait_secs as i64;
                self.users[i].last_fetched_at = Some(now);
                self.users[i].next_check_at = next;
                if self.users[i].fetch_interval_minutes == 0 {
                    let minutes = (wait_secs / 60) as i64;
                    self.users[i].fetch_interval_minutes = if minutes < 1 {
                        1
                    } else {
                        minutes
                    };
                }
                proof {
                    assert forall|j: int| 0 <= j < self.users@.len() implies user_ok(
                        #[trigger] self.users@[j],
                        self.settings,
                        self.stars_view(),
                    ) by {
                        if j != i {
                            assert(self.users@[j] == old(self).users@[j]);
                        }
                    }
                    assert forall|j: int| 0 <= j < old(self).users@.len() implies #[trigger] old(self).users@[j].user_id
                        == self.users@[j].user_id by {
                        if j != i {
                            assert(self.users@[j] == old(self).users@[j]);
                        }
                    }
                    lemma_ids_kept(old(self).users@, self.users@, self.stars_view());
                }
            },
            None => {},
        }
        Ok(())
    }
}

/// The store after a "not modified" answer for a user: only the user's fetch
/// time and next check (within the jitter window of the interval) moved.
pub open spec fn not_modified_applied(before: Store, after: Store, user_id: i64, fetched_at: i64, interval_minutes: i64) -> bool {
    &&& after.settings_view() == before.settings_view()
    &&& after.stars_view() == before.stars_view()
    &&& after.users_view().len() == before.users_view().len()
    &&& match before.index_of(user_id) {
        Some(i) => {
            let u = after.users_view()[i];
            &&& u == (UserRecord {
                last_fetched_at: Some(fetched_at),
                next_check_at: u.next_check_at,
                ..before.users_view()[i]
            })
            &&& in_jitter_window(fetched_at as int, interval_minutes as int, u.next_check_at as int)
            &&& forall|j: int| 0 <= j < before.users_view().len() && j != i
                ==> #[trigger] after.users_view()[j] == before.users_view()[j]
        },
        None => after.users_view() == before.users_view(),
    }
}

/// The store after a user was put off: due `wait_secs` after `now`, fetched
/// at `now`, nothing else changed.
pub open spec fn deferred_applied(before: Store, after: Store, user_id: i64, wait_secs: u64, now: i64) -> bool {
    &&& after.settings_view() == before.settings_view()
    &&& after.stars_view() == before.stars_view()
    &&& after.users_view().len() == before.users_view().len()
    &&& match before.index_of(user_id) {
        Some(i) => {
            let u = after.users_view()[i];
            &&& u == (UserRecord {
                last_fetched_at: Some(now),
                next_check_at: (now + wait_secs) as i64,
                ..before.users_view()[i]
            })
            &&& forall|j: int| 0 <= j < before.users_view().len() && j != i
                ==> #[trigger] after.users_view()[j] == before.users_view()[j]
        },
        None => after.users_view() == before.users_view(),
    }
}

/// The store after a batch of events for a known user: the rows are the
/// ingested ones, and the user's record carries the latest star time, the
/// fetch time, the validators given, and the cadence computed from the new
/// count, the gaps the batch opened and the stored history, with its next
/// check in the jitter window of the new interval.
pub open spec fn events_applied(
    before: Store,
    after: Store,
    user_id: i64,
    evs: Seq<EventView>,
    fetched_at: i64,
    etag: Option<String>,
    last_modified: Option<String>,
    interval: int,
) -> bool {
    let i = before.index_of(user_id).unwrap();
    let u = before.users_view()[i];
    let s = before.settings_view();
    let rows = ingest(before.stars_view(), user_id, evs, fetched_at);
    let new_count = u.star_count + rows.len() - before.stars_view().len();
    let c = cadence_unclamped(
        s.min_interval_minutes as int,
        s.max_interval_minutes as int,
        s.default_interval_minutes as int,
        u.fetch_interval_minutes as int,
        u.star_count as int,
        i64_option(u.ema_milli_minutes),
        new_count,
        new_gaps(u.last_starred_at, sort_ascending(event_times(evs))),
        sort_ascending(starred_of(rows, user_id)),
    );
    let v = after.users_view()[i];
    &&& before.index_of(user_id) is Some
    &&& after.settings_view() == s
    &&& after.users_view().len() == before.users_view().len()
    &&& after.stars_view() == rows
    &&& interval == clamp(c.0, s.min_interval_minutes as int, s.max_interval_minutes as int)
    &&& v == (UserRecord {
        last_starred_at: latest_starred(u.last_starred_at, evs),
        last_fetched_at: Some(fetched_at),
        etag: if etag is Some { etag } else { u.etag },
        last_modified: if last_modified is Some { last_modified } else { u.last_modified },
        fetch_interval_minutes: interval as i64,
        next_check_at: v.next_check_at,
        activity_tier: Some(tier_for(interval)),
        ema_milli_minutes: v.ema_milli_minutes,
        star_count: new_count as i64,
        ..u
    })
    &&& i64_option(v.ema_milli_minutes) == c.1
    &&& in_jitter_window(fetched_at as int, interval, v.next_check_at as int)
    &&& forall|j: int| 0 <= j < before.users_view().len() && j != i
        ==> #[trigger] after.users_view()[j] == before.users_view()[j]
}

impl Store {
    fn contains_key(&self, user_id: i64, name: &String, starred_at: i64) -> (r: bool)
        ensures
            r == has_key(self.stars_view(), (user_id, name@, starred_at)),
    {
        let ghost key = (user_id, name@, starred_at);
        let mut j: usize = 0;
        while j < self.stars.len()
            invariant
                0 <= j <= self.stars@.len(),
                key == (user_id, name@, starred_at),
                self.stars_view().len() == self.stars@.len(),
                forall|k: int| 0 <= k < j ==> #[trigger] row_key(self.stars_view()[k]) != key,
            decreases self.stars@.len() - j,
        {
            let row = &self.stars[j];
            assert(self.stars_view()[j as int] == row@);
            let same_name = row.event.repo_full_name.eq(name);
            if row.user_id == user_id && row.event.starred_at == starred_at && same_name {
                assert(row_key(self.stars_view()[j as int]) == key);
                return true;
            }
            j = j + 1;
        }
        false
    }

    /// Timestamps of a user's stored stars, in row order.
    fn stored_starred(&self, user_id: i64) -> (r: Vec<i64>)
        ensures
            r@ == starred_of(self.stars_view(), user_id),
    {
        let mut out: Vec<i64> = Vec::new();
        let mut j: usize = 0;
        assert(self.stars_view().take(0) =~= Seq::<RowView>::empty());
        while j < self.stars.len()
            invariant
                0 <= j <= self.stars@.len(),
                self.stars_view().len() == self.stars@.len(),
                out@ == starred_of(self.stars_view().take(j as int), user_id),
            decreases self.stars@.len() - j,
        {
            let row = &self.stars[j];
            proof {
                let pre = self.stars_view().take(j as int + 1);
                assert(pre.drop_last() =~= self.stars_view().take(j as int));
                assert(pre.last() == row@);
            }
            if row.user_id == user_id {
                out.push(row.event.starred_at);
            }
            j = j + 1;
        }
        assert(self.stars_view().take(self.stars@.len() as int) =~= self.stars_view());
        out
    }

    /// Writes a batch of a user's star events (duplicates of stored rows are
    /// skipped), advances the latest star time, keeps the cache validators
    /// given, and recomputes the user's cadence and next check. Returns the
    /// new interval.
    pub fn insert_star_events(
        &mut self,
        user_id: i64,
        events: &Vec<StarEvent>,
        fetched_at: i64,
        etag: Option<String>,
        last_modified: Option<String>,
    ) -> (r: Result<i64, StoreError>)
        requires
            old(self).wf(),
            valid_timestamp(fetched_at as int),
            old(self).stars_view().len() + events@.len() < 0x7fff_ffff_ffff_ffff,
        ensures
            final(self).wf(),
            final(self).settings_view() == old(self).settings_view(),
            final(self).users_view().len() == old(self).users_view().len(),
            r is Err <==> old(self).index_of(user_id) is None,
            r is Err ==> r == Err::<i64, StoreError>(StoreError::UnknownUser) && *final(self) == *old(self),
            r matches Ok(interval) ==> events_applied(
                *old(self),
                *final(self),
                user_id,
                event_views(events@),
                fetched_at,
                etag,
                last_modified,
                interval as int,
            ),
    {
        let i = match self.find_index(user_id) {
            Some(i) => i,
            None => {
                return Err(StoreError::UnknownUser);
            },
        };
        proof {
            self.lemma_index_of(user_id, i as int);
        }
        let ghost old_rows = self.stars_view();
        let ghost evs = event_views(events@);
        let ghost u = self.users@[i as int];
        let old_len = self.stars.len();
        let mut inserted: i64 = 0;
        let mut latest = self.users[i].last_starred_at;
        let mut times: Vec<i64> = Vec::new();
        let mut k: usize = 0;
        assert(evs.take(0) =~= Seq::<EventView>::empty());
        assert(ingest(old_rows, user_id, evs.take(0), fetched_at) == old_rows);
        while k < events.len()
            invariant
                0 <= k <= events@.len(),
                evs == event_views(events@),
                evs.len() == events@.len(),
                old_rows.len() + events@.len() < 0x7fff_ffff_ffff_ffff,
                keys_unique(old_rows),
                sequenced(old_rows),
                old_len == old_rows.len(),
                self.stars_view() == ingest(old_rows, user_id, evs.take(k as int), fetched_at),
                self.stars_view().len() == self.stars@.len(),
                inserted == self.stars@.len() - old_len,
                latest == latest_starred(u.last_starred_at, evs.take(k as int)),
                times@ == event_times(evs.take(k as int)),
                self.users == old(self).users,
                self.settings == old(self).settings,
            decreases events@.len() - k,
        {
            let e = &events[k];
            proof {
                let pre = evs.take(k as int + 1);
                assert(pre.drop_last() =~= evs.take(k as int));
                assert(pre.last() == e@);
                lemma_ingest(old_rows, user_id, evs.take(k as int), fetched_at, user_id);
                assert(self.stars@.len() <= old_rows.len() + k);
            }
            let ghost before = self.stars_view();
            if !self.contains_key(user_id, &e.repo_full_name, e.starred_at) {
                assert(self.stars@.len() < 0x7fff_ffff_ffff_fffe);
                let seq = self.stars.len() as i64 + 1;
                let row = StarRow { user_id, event: e.duplicate(), fetched_at, ingest_sequence: seq };
                self.stars.push(row);
                assert(self.stars_view() =~= before.push(row@));
                inserted = inserted + 1;
            }
            latest = match latest {
                Some(x) => if x < e.starred_at {
                    Some(e.starred_at)
                } else {
                    Some(x)
                },
                None => Some(e.starred_at),
            };
            times.push(e.starred_at);
            assert(times@ =~= event_times(evs.take(k as int + 1)));
            k = k + 1;
        }
        assert(evs.take(events@.len() as int) =~= evs);
        proof {
            lemma_ingest(old_rows, user_id, evs, fetched_at, user_id);
            lemma_count_bounds(old_rows, user_id);
        }
        let settings = self.settings;
        let previous_interval = self.users[i].fetch_interval_minutes;
        let previous_count = self.users[i].star_count;
        let previous_ema = self.users[i].ema_milli_minutes;
        let previous_latest = self.users[i].last_starred_at;
        let new_count = previous_count + inserted;
        let sorted = sorted_ascending(&times);
        let gaps = compute_gap_minutes(&sorted, previous_latest);
        let stored = self.stored_starred(user_id);
        let history = sorted_ascending(&stored);
        let profile = recompute_interval(
            settings.min_interval_minutes,
            settings.max_interval_minutes,
            settings.default_interval_minutes,
            previous_interval,
            previous_count,
            previous_ema,
            new_count,
            &gaps,
            &history,
        );
        let next = next_check_with_jitter(fetched_at, profile.interval_minutes);
        self.users[i].last_starred_at = latest;
        self.users[i].last_fetched_at = Some(fetched_at);
        match etag {
            Some(t) => {
                self.users[i].etag = Some(t);
            },
            None => {},
        }
        match last_modified {
            Some(m) => {
                self.users[i].last_modified = Some(m);
            },
            None => {},
        }
        self.users[i].fetch_interval_minutes = profile.interval_minutes;
        self.users[i].next_check_at = next;
        self.users[i].activity_tier = Some(profile.activity_tier);
        self.users[i].ema_milli_minutes = profile.ema_milli_minutes;
        self.users[i].star_count = new_count;
        proof {
            assert forall|j: int| 0 <= j < self.users@.len() implies user_ok(
                #[trigger] self.users@[j],
                self.settings,
                self.stars_view(),
            ) by {
                if j != i {
                    let w = self.users@[j];
                    assert(w == old(self).users@[j]);
                    assert(w.user_id != user_id);
                    lemma_ingest(old_rows, user_id, evs, fetched_at, w.user_id);
                }
            }
            assert forall|id: i64|
                (forall|j: int| 0 <= j < self.users@.len() ==> self.users@[j].user_id != id)
                    implies #[trigger] count_for(self.stars_view(), id) == 0 by {
                assert(self.users@[i as int].user_id == user_id);
                assert forall|j: int| 0 <= j < old(self).users@.len() implies old(self).users@[j].user_id != id by {
                    assert(self.users@[j].user_id == old(self).users@[j].user_id);
                }
                lemma_ingest(old_rows, user_id, evs, fetched_at, id);
            }
        }
        Ok(profile.interval_minutes)
    }
}

impl Store {
    /// Writes the current followings: users not seen before are added at the
    /// given interval, due at `now`; known users only have their login
    /// refreshed. The interval is the band's maximum, so that new users start
    /// at the slowest cadence.
    pub fn upsert_followings(&mut self, users: &Vec<FollowingUser>, initial_interval_minutes: i64, now: i64)
        requires
            old(self).wf(),
            initial_interval_minutes == old(self).settings_view().max_interval_minutes,
        ensures
            final(self).wf(),
            final(self).settings_view() == old(self).settings_view(),
            final(self).stars_view() == old(self).stars_view(),
            final(self).users_view() == upsert_all(old(self).users_view(), users@, initial_interval_minutes, now),
    {
        let mut k: usize = 0;
        assert(users@.take(0) =~= Seq::<FollowingUser>::empty());
        while k < users.len()
            invariant
                0 <= k <= users@.len(),
                self.wf(),
                self.settings == old(self).settings,
                self.stars == old(self).stars,
                initial_interval_minutes == self.settings.max_interval_minutes,
                self.users@ == upsert_all(old(self).users@, users@.take(k as int), initial_interval_minutes, now),
            decreases users@.len() - k,
        {
            let f = &users[k];
            proof {
                let pre = users@.take(k as int + 1);
                assert(pre.drop_last() =~= users@.take(k as int));
                assert(pre.last() == *f);
            }
            let ghost before = self.users@;
            match self.find_index(f.id) {
                Some(i) => {
                    proof {
                        self.lemma_index_of(f.id, i as int);
                    }
                    self.users[i].login = f.login.clone();
                    proof {
                        assert(self.users@ =~= before.update(i as int, UserRecord { login: f.login, ..before[i as int] }));
                        assert forall|j: int| 0 <= j < self.users@.len() implies user_ok(
                            #[trigger] self.users@[j],
                            self.settings,
                            self.stars_view(),
                        ) by {
                            assert(self.users@[j].user_id == before[j].user_id);
                        }
                        assert forall|j: int| 0 <= j < before.len() implies #[trigger] before[j].user_id
                            == self.users@[j].user_id by {}
                        lemma_ids_kept(before, self.users@, self.stars_view());
                    }
                },
                None => {
                    let record = UserRecord {
                        user_id: f.id,
                        login: f.login.clone(),
                        last_starred_at: None,
                        last_fetched_at: None,
                        etag: None,
                        last_modified: None,
                        fetch_interval_minutes: initial_interval_minutes,
                        next_check_at: now,
                        activity_tier: Some(ActivityTier::Low),
                        ema_milli_minutes: None,
                        star_count: 0,
                    };
                    self.users.push(record);
                    proof {
                        assert(self.users@ == before.push(new_user(*f, initial_interval_minutes, now)));
                        assert(count_for(self.stars_view(), f.id) == 0);
                        assert forall|j: int| 0 <= j < self.users@.len() implies user_ok(
                            #[trigger] self.users@[j],
                            self.settings,
                            self.stars_view(),
                        ) by {
                            if j < before.len() {
                                assert(self.users@[j] == before[j]);
                            }
                        }
                        assert forall|id: i64|
                            (forall|j: int| 0 <= j < self.users@.len() ==> self.users@[j].user_id != id)
                                implies #[trigger] count_for(self.stars_view(), id) == 0 by {
                            assert forall|j: int| 0 <= j < before.len() implies before[j].user_id != id by {
                                assert(self.users@[j] == before[j]);
                            }
                        }
                    }
                },
            }
            k = k + 1;
        }
        assert(users@.take(users@.len() as int) =~= users@);
    }
}

pub open spec fn by_next_check(s: Seq<UserRecord>) -> bool {
    forall|a: int, b: int|
        0 <= a < b < s.len() ==> #[trigger] s[a].next_check_at <= #[trigger] s[b].next_check_at
}

pub open spec fn distinct_ids(s: Seq<UserRecord>) -> bool {
    forall|a: int, b: int|
        0 <= a < s.len() && 0 <= b < s.len() && #[trigger] s[a].user_id == #[trigger] s[b].user_id
            ==> a == b
}

/// Inserts a record after every record not due later than it.
fn insert_by_next_check(out: &mut Vec<UserRecord>, x: UserRecord)
    requires
        by_next_check(old(out)@),
        distinct_ids(old(out)@),
        forall|m: int| 0 <= m < old(out)@.len() ==> #[trigger] old(out)@[m].user_id != x.user_id,
    ensures
        by_next_check(final(out)@),
        distinct_ids(final(out)@),
        forall|y: UserRecord| #[trigger] final(out)@.contains(y) <==> (y == x || old(out)@.contains(y)),
{
    let mut k: usize = 0;
    loop
        invariant
            0 <= k <= out@.len(),
            out@ == old(out)@,
            forall|m: int| 0 <= m < k ==> #[trigger] out@[m].next_check_at <= x.next_check_at,
        ensures
            0 <= k <= out@.len(),
            out@ == old(out)@,
            forall|m: int| 0 <= m < k ==> #[trigger] out@[m].next_check_at <= x.next_check_at,
            k < out@.len() ==> out@[k as int].next_check_at > x.next_check_at,
        decreases out@.len() - k,
    {
        if k >= out.len() {
            break;
        }
        if out[k].next_check_at > x.next_check_at {
            break;
        }
        k = k + 1;
    }
    let ghost before = out@;
    let ghost xv = x;
    out.insert(k, x);
    proof {
        before.insert_ensures(k as int, xv);
        assert(out@ == before.insert(k as int, xv));
        assert forall|m: int| 0 <= m < out@.len() implies #[trigger] out@[m] == (if m < k {
            before[m]
        } else if m == k {
            xv
        } else {
            before[m - 1]
        }) by {
            if m > k {
                assert(before.insert(k as int, xv)[(m - 1) + 1] == before[m - 1]);
            }
        }
        assert forall|a: int, b: int| 0 <= a < b < out@.len() implies #[trigger] out@[a].next_check_at
            <= #[trigger] out@[b].next_check_at by {
            if b == k {
            } else if a == k {
                assert(out@[b] == before[b - 1]);
                assert(before[k as int].next_check_at <= before[b - 1].next_check_at || b - 1 == k);
            } else {
                let aa = if a < k { a } else { a - 1 };
                let bb = if b < k { b } else { b - 1 };
                assert(out@[a] == before[aa]);
                assert(out@[b] == before[bb]);
            }
        }
        assert forall|a: int, b: int| 0 <= a < out@.len() && 0 <= b < out@.len() && #[trigger] out@[a].user_id
            == #[trigger] out@[b].user_id implies a == b by {
            let aa = if a < k { a } else { a - 1 };
            let bb = if b < k { b } else { b - 1 };
            if a != k {
                assert(out@[a] == before[aa]);
            }
            if b != k {
                assert(out@[b] == before[bb]);
            }
        }
        assert forall|y: UserRecord| #[trigger] out@.contains(y) <==> (y == xv || before.contains(y)) by {
            if out@.contains(y) {
                let m = choose|m: int| 0 <= m < out@.len() && #[trigger] out@[m] == y;
                if m < k {
                    assert(before[m] == y);
                } else if m > k {
                    assert(before[m - 1] == y);
                }
            }
            if y == xv {
                assert(out@[k as int] == y);
            }
            if before.contains(y) {
                let m = choose|m: int| 0 <= m < before.len() && #[trigger] before[m] == y;
                if m < k {
                    assert(out@[m] == y);
                } else {
                    assert(out@[m + 1] == y);
                }
            }
        }
    }
}

impl Store {
    /// Every user due at `now` (next check at or before it), once each, in
    /// ascending order of next check.
    pub fn due_users(&self, now: i64) -> (r: Vec<UserRecord>)
        requires
            self.wf(),
        ensures
            by_next_check(r@),
            distinct_ids(r@),
            forall|y: UserRecord|
                #[trigger] r@.contains(y) <==> (self.users_view().contains(y) && y.next_check_at <= now),
    {
        let mut out: Vec<UserRecord> = Vec::new();
        let mut i: usize = 0;
        while i < self.users.len()
            invariant
                0 <= i <= self.users@.len(),
                self.wf(),
                by_next_check(out@),
                distinct_ids(out@),
                forall|y: UserRecord|
                    #[trigger] out@.contains(y) <==> (self.users@.take(i as int).contains(y)
                        && y.next_check_at <= now),
            decreases self.users@.len() - i,
        {
            let ghost ui = self.users@[i as int];
            proof {
                assert forall|y: UserRecord| #[trigger] self.users@.take(i as int + 1).contains(y) <==> (
                self.users@.take(i as int).contains(y) || y == ui) by {
                    if self.users@.take(i as int + 1).contains(y) {
                        let m = choose|m: int| 0 <= m < i + 1 && #[trigger] self.users@.take(i as int + 1)[m] == y;
                        if m < i {
                            assert(self.users@.take(i as int)[m] == y);
                        }
                    }
                    if self.users@.take(i as int).contains(y) {
                        let m = choose|m: int| 0 <= m < i && #[trigger] self.users@.take(i as int)[m] == y;
                        assert(self.users@.take(i as int + 1)[m] == y);
                    }
                    if y == ui {
                        assert(self.users@.take(i as int + 1)[i as int] == y);
                    }
                }
            }
            if self.users[i].next_check_at <= now {
                let x = self.users[i].duplicate();
                proof {
                    assert forall|m: int| 0 <= m < out@.len() implies #[trigger] out@[m].user_id != x.user_id by {
                        assert(out@.contains(out@[m]));
                        let j = choose|j: int| 0 <= j < i && #[trigger] self.users@.take(i as int)[j] == out@[m];
                        assert(self.users@[j] == out@[m]);
                    }
                }
                insert_by_next_check(&mut out, x);
            }
            i = i + 1;
        }
        assert(self.users@.take(self.users@.len() as int) =~= self.users@);
        out
    }
}

/// Some record in `s` has this user id.
pub open spec fn has_user(s: Seq<UserRecord>, user_id: i64) -> bool {
    exists|j: int| 0 <= j < s.len() && #[trigger] s[j].user_id == user_id
}

proof fn lemma_count_absent(rows: Seq<RowView>, id: i64)
    requires
        forall|i: int| 0 <= i < rows.len() ==> #[trigger] rows[i].user_id != id,
    ensures
        count_for(rows, id) == 0,
    decreases rows.len(),
{
    if rows.len() > 0 {
        lemma_count_absent(rows.drop_last(), id);
    }
}

fn has_row_key(rows: &Vec<StarRow>, user_id: i64, name: &String, starred_at: i64) -> (r: bool)
    ensures
        r == has_key(rows@.map_values(|x: StarRow| x@), (user_id, name@, starred_at)),
{
    let ghost v = rows@.map_values(|x: StarRow| x@);
    let ghost key = (user_id, name@, starred_at);
    let mut j: usize = 0;
    while j < rows.len()
        invariant
            0 <= j <= rows@.len(),
            v == rows@.map_values(|x: StarRow| x@),
            key == (user_id, name@, starred_at),
            forall|k: int| 0 <= k < j ==> #[trigger] row_key(v[k]) != key,
        decreases rows@.len() - j,
    {
        let row = &rows[j];
        assert(v[j as int] == row@);
        let same_name = row.event.repo_full_name.eq(name);
        if row.user_id == user_id && row.event.starred_at == starred_at && same_name {
            assert(row_key(v[j as int]) == key);
            return true;
        }
        j = j + 1;
    }
    false
}

fn count_rows(rows: &Vec<StarRow>, user_id: i64) -> (r: i64)
    requires
        rows@.len() < 0x7fff_ffff_ffff_ffff,
    ensures
        r == count_for(rows@.map_values(|x: StarRow| x@), user_id),
{
    let ghost v = rows@.map_values(|x: StarRow| x@);
    let mut n: i64 = 0;
    let mut j: usize = 0;
    assert(v.take(0) =~= Seq::<RowView>::empty());
    while j < rows.len()
        invariant
            0 <= j <= rows@.len(),
            rows@.len() < 0x7fff_ffff_ffff_ffff,
            v == rows@.map_values(|x: StarRow| x@),
            n == count_for(v.take(j as int), user_id),
        decreases rows@.len() - j,
    {
        proof {
            let pre = v.take(j as int + 1);
            assert(pre.drop_last() =~= v.take(j as int));
            lemma_count_bounds(v.take(j as int), user_id);
        }
        if rows[j].user_id == user_id {
            n = n + 1;
        }
        j = j + 1;
    }
    assert(v.take(rows@.len() as int) =~= v);
    n
}

impl Store {
    /// Rebuilds a store from stored records. The first record of each user id
    /// is kept; a star row is kept when its user is known and its key is new,
    /// and rows are numbered in order. Each user's star count is recounted
    /// from the rows, and the cadence fields follow the count: no stars gives
    /// the maximum interval, one or two the default, more an interval clamped
    /// into the band; a next check before the last fetch moves to it.
    pub fn restore(settings: CadenceSettings, users: Vec<UserRecord>, rows: Vec<StarRow>) -> (r: Store)
        requires
            settings.valid(),
            rows@.len() < 0x7fff_ffff_ffff_ffff,
        ensures
            r.wf(),
            r.settings_view() == settings,
            r.stars_view().len() <= rows@.len(),
            forall|i: int| 0 <= i < users@.len() ==> has_user(r.users_view(), #[trigger] users@[i].user_id),
    {
        let mut kept: Vec<UserRecord> = Vec::new();
        let mut i: usize = 0;
        while i < users.len()
            invariant
                0 <= i <= users@.len(),
                forall|a: int, b: int|
                    0 <= a < kept@.len() && 0 <= b < kept@.len() && #[trigger] kept@[a].user_id
                        == #[trigger] kept@[b].user_id ==> a == b,
                forall|k: int| 0 <= k < i ==> has_user(kept@, #[trigger] users@[k].user_id),
            decreases users@.len() - i,
        {
            let mut found = false;
            let mut j: usize = 0;
            while j < kept.len()
                invariant
                    0 <= j <= kept@.len(),
                    i < users@.len(),
                    found ==> has_user(kept@, users@[i as int].user_id),
                    !found ==> forall|m: int| 0 <= m < j ==> #[trigger] kept@[m].user_id != users@[i as int].user_id,
                decreases kept@.len() - j,
            {
                if kept[j].user_id == users[i].user_id {
                    assert(kept@[j as int].user_id == users@[i as int].user_id);
                    found = true;
                }
                j = j + 1;
            }
            if !found {
                let ghost before = kept@;
                kept.push(users[i].duplicate());
                proof {
                    assert forall|k: int| 0 <= k < i + 1 implies has_user(kept@, #[trigger] users@[k].user_id) by {
                        if k < i {
                            let j = choose|j: int| 0 <= j < before.len() && #[trigger] before[j].user_id == users@[k].user_id;
                            assert(kept@[j] == before[j]);
                        } else {
                            assert(kept@[before.len() as int].user_id == users@[k].user_id);
                        }
                    }
                    assert forall|a: int, b: int|
                        0 <= a < kept@.len() && 0 <= b < kept@.len() && #[trigger] kept@[a].user_id
                            == #[trigger] kept@[b].user_id implies a == b by {
                        if a < before.len() {
                            assert(kept@[a] == before[a]);
                        }
                        if b < before.len() {
                            assert(kept@[b] == before[b]);
                        }
                    }
                }
            }
            i = i + 1;
        }
        let mut stored: Vec<StarRow> = Vec::new();
        let mut k: usize = 0;
        while k < rows.len()
            invariant
                0 <= k <= rows@.len(),
                rows@.len() < 0x7fff_ffff_ffff_ffff,
                stored@.len() <= k,
                keys_unique(stored@.map_values(|x: StarRow| x@)),
                sequenced(stored@.map_values(|x: StarRow| x@)),
                forall|m: int| 0 <= m < stored@.len() ==> has_user(kept@, #[trigger] stored@[m].user_id),
            decreases rows@.len() - k,
        {
            let row = &rows[k];
            let mut known = false;
            let mut j: usize = 0;
            while j < kept.len()
                invariant
                    0 <= j <= kept@.len(),
                    k < rows@.len(),
                    row == &rows@[k as int],
                    known ==> has_user(kept@, row.user_id),
                decreases kept@.len() - j,
            {
                if kept[j].user_id == row.user_id {
                    assert(kept@[j as int].user_id == row.user_id);
                    known = true;
                }
                j = j + 1;
            }
            if known && !has_row_key(&stored, row.user_id, &row.event.repo_full_name, row.event.starred_at) {
                let ghost before = stored@.map_values(|x: StarRow| x@);
                let ghost before_rows = stored@;
                let seq = stored.len() as i64 + 1;
                let fresh = StarRow {
                    user_id: row.user_id,
                    event: row.event.duplicate(),
                    fetched_at: row.fetched_at,
                    ingest_sequence: seq,
                };
                stored.push(fresh);
                proof {
                    let after = stored@.map_values(|x: StarRow| x@);
                    assert(after =~= before.push(stored@[before.len() as int]@));
                    let key = row_key(after[before.len() as int]);
                    assert forall|a: int, b: int|
                        0 <= a < after.len() && 0 <= b < after.len() && #[trigger] row_key(after[a])
                            == #[trigger] row_key(after[b]) implies a == b by {
                        if a < before.len() && b < before.len() {
                            assert(after[a] == before[a]);
                            assert(after[b] == before[b]);
                        } else if a < before.len() {
                            assert(after[a] == before[a]);
                        } else if b < before.len() {
                            assert(after[b] == before[b]);
                        }
                    }
                    assert forall|m: int| 0 <= m < after.len() implies #[trigger] after[m].ingest_sequence == m + 1 by {
                        if m < before.len() {
                            assert(after[m] == before[m]);
                        }
                    }
                    assert forall|m: int| 0 <= m < stored@.len() implies has_user(kept@, #[trigger] stored@[m].user_id) by {
                        if m < before_rows.len() {
                            assert(stored@[m] == before_rows[m]);
                        } else {
                            assert(stored@[m].user_id == row.user_id);
                        }
                    }
                }
            }
            k = k + 1;
        }
        let ghost rv = stored@.map_values(|x: StarRow| x@);
        let dflt: i64 = if settings.default_interval_minutes < settings.min_interval_minutes {
            settings.min_interval_minutes
        } else if settings.default_interval_minutes > settings.max_interval_minutes {
            settings.max_interval_minutes
        } else {
            settings.default_interval_minutes
        };
        let mut finals: Vec<UserRecord> = Vec::new();
        let mut m: usize = 0;
        while m < kept.len()
            invariant
                0 <= m <= kept@.len(),
                settings.valid(),
                dflt == settings.default_in_band(),
                stored@.len() < 0x7fff_ffff_ffff_ffff,
                rv == stored@.map_values(|x: StarRow| x@),
                finals@.len() == m,
                forall|a: int| 0 <= a < m ==> #[trigger] finals@[a].user_id == kept@[a].user_id,
                forall|a: int| 0 <= a < m ==> user_ok(#[trigger] finals@[a], settings, rv),
            decreases kept@.len() - m,
        {
            let mut u = kept[m].duplicate();
            let count = count_rows(&stored, u.user_id);
            proof {
                lemma_count_bounds(rv, u.user_id);
            }
            u.star_count = count;
            if count == 0 {
                u.fetch_interval_minutes = settings.max_interval_minutes;
                u.ema_milli_minutes = None;
                if u.activity_tier != Some(ActivityTier::Low) {
                    u.activity_tier = Some(crate::cadence::activity_tier_for(settings.max_interval_minutes));
                }
            } else if count < 3 {
                u.fetch_interval_minutes = dflt;
                u.ema_milli_minutes = None;
            } else if u.fetch_interval_minutes < settings.min_interval_minutes {
                u.fetch_interval_minutes = settings.min_interval_minutes;
            } else if u.fetch_interval_minutes > settings.max_interval_minutes {
                u.fetch_interval_minutes = settings.max_interval_minutes;
            }
            match u.last_fetched_at {
                Some(f) => {
                    if u.next_check_at < f {
                        u.next_check_at = f;
                    }
                },
                None => {},
            }
            finals.push(u);
            m = m + 1;
        }
        let r = Store { settings, users: finals, stars: stored };
        proof {
            assert(r.stars_view() == rv);
            assert(r.users_view() == r.users@);
            assert forall|a: int, b: int|
                0 <= a < r.users@.len() && 0 <= b < r.users@.len() && #[trigger] r.users@[a].user_id
                    == #[trigger] r.users@[b].user_id implies a == b by {
                assert(kept@[a].user_id == kept@[b].user_id);
            }
            assert forall|id: i64|
                (forall|a: int| 0 <= a < r.users@.len() ==> r.users@[a].user_id != id) implies #[trigger] count_for(
                    rv,
                    id,
                ) == 0 by {
                assert forall|x: int| 0 <= x < rv.len() implies #[trigger] rv[x].user_id != id by {
                    assert(has_user(kept@, stored@[x].user_id));
                    let j = choose|j: int| 0 <= j < kept@.len() && #[trigger] kept@[j].user_id == stored@[x].user_id;
                    assert(r.users@[j].user_id == kept@[j].user_id);
                }
                lemma_count_absent(rv, id);
            }
            assert forall|i: int| 0 <= i < users@.len() implies has_user(r.users_view(), #[trigger] users@[i].user_id) by {
                assert(has_user(kept@, users@[i].user_id));
                let j = choose|j: int| 0 <= j < kept@.len() && #[trigger] kept@[j].user_id == users@[i].user_id;
                assert(r.users@[j].user_id == kept@[j].user_id);
            }
        }
        r
    }
}

} // verus!
