//! One polling step per user, and the decisions of a polling cycle.
use crate::cadence::MAX_INTERVAL_MINUTES;
use crate::forge::{GitHubApiError, StarFetchOutcome};
use crate::schedule::valid_timestamp;
use crate::store::{
    deferred_applied, event_views, events_applied, not_modified_applied, FollowingUser, Store,
    StoreError, UserRecord, MAX_WAIT_SECS,
};
use vstd::prelude::*;

verus! {

/// Why a polling cycle fails.
#[derive(Debug)]
pub enum PipelineError {
    /// The forge refused the token.
    Auth,
    /// The forge refused access.
    Forbidden,
    /// Transport, parse or unexpected status; the next cycle retries.
    Transient(String),
    /// The store refused the update.
    Storage(StoreError),
}

/// What was done for one due user.
#[derive(Debug, Clone, Copy, PartialEq, Eq, Structural)]
pub enum UserOutcome {
    /// Nothing new: fetch time and next check moved.
    NotModified,
    /// Events were written; the user's new interval.
    Ingested { interval_minutes: i64 },
    /// Rate limited: the user was put off, and the worker waits this long
    /// before giving up its slot.
    Deferred { wait_secs: u64 },
}

/// Applies the forge's answer for one due user to the store.
pub fn process_user(
    store: &mut Store,
    user: &UserRecord,
    outcome: Result<StarFetchOutcome, GitHubApiError>,
    now: i64,
) -> (r: Result<UserOutcome, PipelineError>)
    requires
        old(store).wf(),
        valid_timestamp(now as int),
        user.fetch_interval_minutes <= MAX_INTERVAL_MINUTES,
        outcome matches Ok(StarFetchOutcome::NotModified { fetched_at }) ==> valid_timestamp(
            fetched_at as int,
        ),
        outcome matches Ok(StarFetchOutcome::Modified { fetched_at, events, .. }) ==> valid_timestamp(
            fetched_at as int,
        ) && old(store).stars_view().len() + events@.len() < 0x7fff_ffff_ffff_ffff,
    ensures
        final(store).wf(),
        match outcome {
            Ok(StarFetchOutcome::NotModified { fetched_at }) => r == Ok::<
                UserOutcome,
                PipelineError,
            >(UserOutcome::NotModified) && not_modified_applied(
                *old(store),
                *final(store),
                user.user_id,
                fetched_at,
                user.fetch_interval_minutes,
            ),
            Ok(StarFetchOutcome::Modified { fetched_at, etag, last_modified, events }) => match r {
                Ok(UserOutcome::Ingested { interval_minutes }) => events_applied(
                    *old(store),
                    *final(store),
                    user.user_id,
                    event_views(events@),
                    fetched_at,
                    etag,
                    last_modified,
                    interval_minutes as int,
                ),
                Err(PipelineError::Storage(StoreError::UnknownUser)) => old(store).index_of(
                    user.user_id,
                ) is None && *final(store) == *old(store),
                _ => false,
            },
            Err(GitHubApiError::RateLimited(wait)) => if wait <= MAX_WAIT_SECS {
                r == Ok::<UserOutcome, PipelineError>(UserOutcome::Deferred { wait_secs: wait })
                    && deferred_applied(*old(store), *final(store), user.user_id, wait, now)
            } else {
                r matches Err(PipelineError::Storage(StoreError::InvalidWait)) && *final(store)
                    == *old(store)
            },
            Err(GitHubApiError::Auth) => r matches Err(PipelineError::Auth) && *final(store)
                == *old(store),
            Err(GitHubApiError::Forbidden) => r matches Err(PipelineError::Forbidden)
                && *final(store) == *old(store),
            Err(GitHubApiError::Other(m)) => (r matches Err(PipelineError::Transient(t)) && t
                == m) && *final(store) == *old(store),
        },
{
    match outcome {
        Ok(StarFetchOutcome::NotModified { fetched_at }) => {
            store.record_not_modified(user.user_id, fetched_at, user.fetch_interval_minutes);
            Ok(UserOutcome::NotModified)
        },
        Ok(StarFetchOutcome::Modified { fetched_at, etag, last_modified, events }) => {
            match store.insert_star_events(user.user_id, &events, fetched_at, etag, last_modified) {
                Ok(interval_minutes) => Ok(UserOutcome::Ingested { interval_minutes }),
                Err(e) => Err(PipelineError::Storage(e)),
            }
        },
        Err(GitHubApiError::RateLimited(wait)) => {
            match store.defer_user(user.user_id, wait, now) {
                Ok(()) => Ok(UserOutcome::Deferred { wait_secs: wait }),
                Err(e) => Err(PipelineError::Storage(e)),
            }
        },
        Err(GitHubApiError::Auth) => Err(PipelineError::Auth),
        Err(GitHubApiError::Forbidden) => Err(PipelineError::Forbidden),
        Err(GitHubApiError::Other(m)) => Err(PipelineError::Transient(m)),
    }
}

/// What a cycle does after asking for the followings.
#[derive(Debug)]
pub enum FollowingsStep {
    /// Write these followings.
    Done(Vec<FollowingUser>),
    /// Rate limited: sleep this long and ask again.
    Retry { wait_secs: u64 },
    /// Stop the cycle.
    Fail(PipelineError),
}

/// A rate limit while listing followings is waited out and the request
/// repeated; every other error ends the cycle.
pub fn followings_step(result: Result<Vec<FollowingUser>, GitHubApiError>) -> (r: FollowingsStep)
    ensures
        match result {
            Ok(users) => r matches FollowingsStep::Done(u) && u@ == users@,
            Err(GitHubApiError::RateLimited(w)) => r matches FollowingsStep::Retry { wait_secs }
                && wait_secs == w,
            Err(GitHubApiError::Auth) => r matches FollowingsStep::Fail(PipelineError::Auth),
            Err(GitHubApiError::Forbidden) => r matches FollowingsStep::Fail(
                PipelineError::Forbidden,
            ),
            Err(GitHubApiError::Other(m)) => r matches FollowingsStep::Fail(
                PipelineError::Transient(t),
            ) && t == m,
        },
{
    match result {
        Ok(users) => FollowingsStep::Done(users),
        Err(GitHubApiError::RateLimited(w)) => FollowingsStep::Retry { wait_secs: w },
        Err(GitHubApiError::Auth) => FollowingsStep::Fail(PipelineError::Auth),
        Err(GitHubApiError::Forbidden) => FollowingsStep::Fail(PipelineError::Forbidden),
        Err(GitHubApiError::Other(m)) => FollowingsStep::Fail(PipelineError::Transient(m)),
    }
}

} // verus!
