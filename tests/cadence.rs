use hoshiyomi::cadence::{
    average_gap_milli_minutes, compute_gap_minutes, derive_activity_tier, recompute_interval,
    sorted_ascending, ActivityTier,
};
use hoshiyomi::schedule::{jitter_cap_for, next_check_after, next_check_with_jitter};

const WEEK: i64 = 7 * 24 * 60;

#[test]
fn activity_tier_thresholds() {
    assert_eq!(derive_activity_tier(10), "high");
    assert_eq!(derive_activity_tier(60), "high");
    assert_eq!(derive_activity_tier(61), "medium");
    assert_eq!(derive_activity_tier(1440), "medium");
    assert_eq!(derive_activity_tier(1441), "low");
}

#[test]
fn ema_fallback_for_sparse_history() {
    let profile = recompute_interval(10, WEEK, 60, 60, 1, None, 2, &vec![30], &vec![]);
    assert_eq!(profile.interval_minutes, 60);
    assert_eq!(profile.activity_tier.as_str(), "high");
    assert!(profile.ema_milli_minutes.is_none());
}

#[test]
fn ema_updates_with_smoothing() {
    let profile = recompute_interval(10, WEEK, 60, 90, 3, Some(90_000), 4, &vec![30], &vec![]);
    assert_eq!(profile.interval_minutes, 72);
    assert_eq!(profile.activity_tier.as_str(), "medium");
    assert_eq!(profile.ema_milli_minutes.unwrap(), 72_000);
}

#[test]
fn ema_bootstrap_on_third_event() {
    let t0: i64 = 1_760_918_400; // 2025-10-20T00:00:00Z
    let t1: i64 = 1_761_004_800; // 2025-10-21T00:00:00Z
    let t2: i64 = 1_761_048_000; // 2025-10-21T12:00:00Z
    let profile = recompute_interval(
        10,
        WEEK,
        60,
        60,
        2,
        None,
        3,
        &vec![(t2 - t1) / 60],
        &vec![t0, t1, t2],
    );
    assert_eq!(profile.interval_minutes, 972);
    assert_eq!(profile.activity_tier.as_str(), "medium");
    assert_eq!(profile.ema_milli_minutes.unwrap(), 972_000);
}

#[test]
fn zero_star_users_use_max_interval() {
    let profile = recompute_interval(10, WEEK, 60, 60, 0, None, 0, &vec![], &vec![]);
    assert_eq!(profile.interval_minutes, WEEK);
    assert_eq!(profile.activity_tier.as_str(), "low");
    assert!(profile.ema_milli_minutes.is_none());
}

#[test]
fn jitter_respects_bounds() {
    let base: i64 = 1_760_918_400;
    let interval: i64 = 120;
    let jitter_cap = jitter_cap_for(interval);
    assert_eq!(jitter_cap, 12);
    let min_delay = (interval - jitter_cap).max(1);
    let max_delay = interval + jitter_cap;
    for _ in 0..100 {
        let next = next_check_with_jitter(base, interval);
        let delta = (next - base) / 60;
        assert_eq!((next - base) % 60, 0);
        assert!(delta >= min_delay, "delta {} below {}", delta, min_delay);
        assert!(delta <= max_delay, "delta {} above {}", delta, max_delay);
    }
}

#[test]
fn jitter_cap_is_a_tenth_rounded_up_within_bounds() {
    assert_eq!(jitter_cap_for(1), 1);
    assert_eq!(jitter_cap_for(11), 2);
    assert_eq!(jitter_cap_for(300), 30);
    assert_eq!(jitter_cap_for(10_000), 30);
}

#[test]
fn next_check_never_sooner_than_a_minute() {
    assert_eq!(next_check_after(1000, 1, -1), 1060);
    assert_eq!(next_check_after(1000, 0, 0), 1060);
    assert_eq!(next_check_after(1000, -5, 0), 1060);
    assert_eq!(next_check_after(1000, 100, 5), 1000 + 105 * 60);
    assert_eq!(next_check_with_jitter(1000, 0), 1060);
}

#[test]
fn sparse_history_clamps_default_into_band() {
    let profile = recompute_interval(10, 50, 60, 60, 0, None, 1, &vec![], &vec![]);
    assert_eq!(profile.interval_minutes, 50);
    assert!(profile.ema_milli_minutes.is_none());
    let profile = recompute_interval(0, 5, 60, 60, 0, None, 0, &vec![], &vec![]);
    assert_eq!(profile.interval_minutes, 5);
    assert_eq!(profile.activity_tier, ActivityTier::High);
}

#[test]
fn settled_user_without_new_gaps_keeps_its_ema() {
    let profile = recompute_interval(10, WEEK, 60, 300, 5, Some(123_600), 5, &vec![], &vec![]);
    assert_eq!(profile.interval_minutes, 124);
    assert_eq!(profile.ema_milli_minutes, Some(123_600));
}

#[test]
fn settled_user_without_ema_adopts_history_average() {
    let h = vec![0, 600, 1800];
    let profile = recompute_interval(1, WEEK, 60, 60, 3, None, 3, &vec![], &h);
    assert_eq!(profile.ema_milli_minutes, Some(15_000));
    assert_eq!(profile.interval_minutes, 15);
    let profile = recompute_interval(1, WEEK, 60, 60, 3, None, 3, &vec![], &vec![5, 5]);
    assert_eq!(profile.interval_minutes, 60);
    assert!(profile.ema_milli_minutes.is_none());
}

#[test]
fn ema_is_clamped_into_band() {
    let profile = recompute_interval(10, 100, 60, 90, 3, Some(90_000), 4, &vec![100_000], &vec![]);
    assert_eq!(profile.ema_milli_minutes, Some(100_000));
    assert_eq!(profile.interval_minutes, 100);
    let profile = recompute_interval(10, 100, 60, 90, 3, Some(10_000), 4, &vec![0], &vec![]);
    assert_eq!(profile.ema_milli_minutes, Some(10_000));
    assert_eq!(profile.interval_minutes, 10);
}

#[test]
fn gaps_keep_only_positive_minutes() {
    let gaps = compute_gap_minutes(&vec![120, 150, 300, 300, 3900], Some(0));
    assert_eq!(gaps, vec![2, 2, 60]);
    let gaps = compute_gap_minutes(&vec![120, 240], None);
    assert_eq!(gaps, vec![2]);
    assert!(compute_gap_minutes(&vec![], Some(5)).is_empty());
}

#[test]
fn average_gap_in_thousandths() {
    assert_eq!(average_gap_milli_minutes(&vec![0, 86_400, 129_600]), Some(1_080_000));
    assert_eq!(average_gap_milli_minutes(&vec![0, 60, 180, 180]), Some(1_500));
    assert_eq!(average_gap_milli_minutes(&vec![0, 30]), None);
    assert_eq!(average_gap_milli_minutes(&vec![]), None);
}

#[test]
fn timestamps_sort_ascending() {
    assert_eq!(sorted_ascending(&vec![5, -1, 3, 3, 0]), vec![-1, 0, 3, 3, 5]);
    assert!(sorted_ascending(&vec![]).is_empty());
}
