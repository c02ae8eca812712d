use civic_streak::engine::{ErrorCode, UserId, UserStreak, MAX_WINDOW_SECONDS, MIN_INTERVAL_SECONDS};
use civic_streak::milestones::{badge_label, check_milestones, milestone_thresholds};
use civic_streak::store::{StoreError, StreakFailure, StreakStore};

const T0: i64 = 1_700_000_000;

fn fresh_record(id: u64, now: i64) -> UserStreak {
    UserStreak::initialize(UserId { value: id }, now)
}

#[test]
fn initialize_sets_fresh_state() {
    let rec = fresh_record(1, T0);
    assert_eq!(rec.user, UserId { value: 1 });
    assert_eq!(rec.streak_count, 1);
    assert_eq!(rec.last_interaction_ts, T0);
    assert_eq!(rec.created_ts, T0);
    assert_eq!(rec.milestone_claimed, 0);
}

#[test]
fn engagement_after_25_hours_is_accepted() {
    let mut rec = fresh_record(1, T0);
    let r = rec.record_engagement(T0 + 90_000);
    assert_eq!(r, Ok(vec![]));
    assert_eq!(rec.streak_count, 2);
    assert_eq!(rec.last_interaction_ts, T0 + 90_000);
}

#[test]
fn engagement_within_24_hours_is_rejected_without_mutation() {
    let mut rec = fresh_record(1, T0);
    assert!(rec.record_engagement(T0 + 90_000).is_ok());
    let before = rec;
    let r = rec.record_engagement(T0 + 95_000);
    assert_eq!(r, Err(ErrorCode::AlreadyClaimedToday));
    assert_eq!(rec, before);
    assert_eq!(rec.streak_count, 2);
}

#[test]
fn engagement_past_48_hours_resets_to_one() {
    let mut rec = fresh_record(1, T0);
    assert!(rec.record_engagement(T0 + 90_000).is_ok());
    assert_eq!(rec.streak_count, 2);
    let t1 = rec.last_interaction_ts;
    let r = rec.record_engagement(t1 + 200_000);
    assert_eq!(r, Ok(vec![]));
    assert_eq!(rec.streak_count, 1);
    assert_eq!(rec.last_interaction_ts, t1 + 200_000);
}

#[test]
fn elapsed_exactly_minimum_interval_continues() {
    let mut rec = fresh_record(1, T0);
    let r = rec.record_engagement(T0 + MIN_INTERVAL_SECONDS);
    assert_eq!(r, Ok(vec![]));
    assert_eq!(rec.streak_count, 2);
}

#[test]
fn elapsed_one_below_minimum_interval_is_rejected() {
    let mut rec = fresh_record(1, T0);
    let r = rec.record_engagement(T0 + MIN_INTERVAL_SECONDS - 1);
    assert_eq!(r, Err(ErrorCode::AlreadyClaimedToday));
    assert_eq!(rec.streak_count, 1);
    assert_eq!(rec.last_interaction_ts, T0);
}

#[test]
fn elapsed_exactly_window_continues() {
    let mut rec = fresh_record(1, T0);
    let r = rec.record_engagement(T0 + MAX_WINDOW_SECONDS);
    assert_eq!(r, Ok(vec![]));
    assert_eq!(rec.streak_count, 2);
}

#[test]
fn elapsed_one_past_window_resets() {
    let mut rec = fresh_record(1, T0);
    assert!(rec.record_engagement(T0 + MIN_INTERVAL_SECONDS).is_ok());
    let t1 = rec.last_interaction_ts;
    let r = rec.record_engagement(t1 + MAX_WINDOW_SECONDS + 1);
    assert_eq!(r, Ok(vec![]));
    assert_eq!(rec.streak_count, 1);
}

#[test]
fn count_floor_holds_along_a_run() {
    let mut rec = fresh_record(1, T0);
    let mut t = T0;
    let gaps: [i64; 6] = [90_000, 95_000, 86_400, 200_000, 172_800, 400_000];
    for gap in gaps {
        let _ = rec.record_engagement(t + gap);
        if rec.last_interaction_ts == t + gap {
            t += gap;
        }
        assert!(rec.streak_count >= 1);
    }
}

#[test]
fn seventh_engagement_reports_first_milestone() {
    let mut rec = fresh_record(1, T0);
    let mut t = T0;
    for expected in 2..=6u64 {
        t += 90_000;
        let r = rec.record_engagement(t);
        assert_eq!(r, Ok(vec![]));
        assert_eq!(rec.streak_count, expected);
    }
    t += 90_000;
    let r = rec.record_engagement(t);
    assert_eq!(r, Ok(vec![7]));
    assert_eq!(rec.streak_count, 7);
}

#[test]
fn milestone_scan_handles_jumps_generically() {
    assert_eq!(check_milestones(6, 7), vec![7]);
    assert_eq!(check_milestones(6, 8), vec![7]);
    assert_eq!(check_milestones(0, 100), vec![7, 14, 21, 30, 50, 100]);
    assert_eq!(check_milestones(10, 21), vec![14, 21]);
    assert_eq!(check_milestones(7, 7), vec![]);
    assert_eq!(check_milestones(30, 14), vec![]);
    assert_eq!(check_milestones(99, 100), vec![100]);
}

#[test]
fn milestone_scan_is_empty_in_the_common_case() {
    assert_eq!(check_milestones(1, 2), vec![]);
    assert_eq!(check_milestones(8, 9), vec![]);
    assert_eq!(check_milestones(50, 1), vec![]);
}

#[test]
fn thresholds_are_the_fixed_ascending_set() {
    assert_eq!(milestone_thresholds(), vec![7, 14, 21, 30, 50, 100]);
}

#[test]
fn badge_labels_are_fixed() {
    assert_eq!(badge_label(7), "Civic Starter Badge");
    assert_eq!(badge_label(14), "Consistent Citizen Badge");
    assert_eq!(badge_label(21), "Civic Champion Badge");
    assert_eq!(badge_label(30), "Democracy Hero Badge");
    assert_eq!(badge_label(50), "Civic Legend Badge");
    assert_eq!(badge_label(100), "Civic Grandmaster Badge");
    assert_eq!(badge_label(8), "Milestone Reward");
}

#[test]
fn store_creation_is_idempotent_guarded() {
    let mut st = StreakStore::new();
    let u = UserId { value: 9 };
    assert_eq!(st.initialize_user_streak(u, T0), Ok(()));
    assert_eq!(
        st.initialize_user_streak(u, T0 + 90_000),
        Err(StoreError::RecordAlreadyExists)
    );
    let rec = st.get_user_streak(u).unwrap();
    assert_eq!(rec.created_ts, T0);
    assert_eq!(rec.streak_count, 1);
}

#[test]
fn close_then_read_reports_record_not_found() {
    let mut st = StreakStore::new();
    let u = UserId { value: 3 };
    assert_eq!(st.initialize_user_streak(u, T0), Ok(()));
    assert!(st.get_user_streak(u).is_ok());
    assert_eq!(st.close_user_streak(u), Ok(()));
    assert_eq!(st.get_user_streak(u), Err(StoreError::RecordNotFound));
    assert_eq!(st.close_user_streak(u), Err(StoreError::RecordNotFound));
}

#[test]
fn store_engagement_reports_each_failure() {
    let mut st = StreakStore::new();
    let u = UserId { value: 4 };
    assert_eq!(
        st.record_daily_engagement(u, T0),
        Err(StreakFailure::Store(StoreError::RecordNotFound))
    );
    assert_eq!(st.initialize_user_streak(u, T0), Ok(()));
    assert_eq!(
        st.record_daily_engagement(u, T0 + 100),
        Err(StreakFailure::Engine(ErrorCode::AlreadyClaimedToday))
    );
    assert_eq!(st.record_daily_engagement(u, T0 + 90_000), Ok(vec![]));
    assert_eq!(st.get_user_streak(u).unwrap().streak_count, 2);
}

#[test]
fn store_keeps_other_users_untouched() {
    let mut st = StreakStore::new();
    let a = UserId { value: 1 };
    let b = UserId { value: 2 };
    assert_eq!(st.initialize_user_streak(a, T0), Ok(()));
    assert_eq!(st.initialize_user_streak(b, T0 + 5), Ok(()));
    assert_eq!(st.record_daily_engagement(a, T0 + 90_000), Ok(vec![]));
    let b_rec = st.get_user_streak(b).unwrap();
    assert_eq!(b_rec.streak_count, 1);
    assert_eq!(b_rec.last_interaction_ts, T0 + 5);
    assert_eq!(st.close_user_streak(a), Ok(()));
    assert!(st.get_user_streak(b).is_ok());
}
