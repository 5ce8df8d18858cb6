use laundry_optimizer::database::{
    recent_feedback_limit, recent_since, select_user_feedback, user_feedback_limit, FeedbackKey,
};

fn key(user_id: Option<u128>, created_at: i64) -> FeedbackKey {
    FeedbackKey { user_id, created_at }
}

#[test]
fn query_limits_have_defaults_and_caps() {
    assert_eq!(user_feedback_limit(None), 50);
    assert_eq!(user_feedback_limit(Some(7)), 7);
    assert_eq!(user_feedback_limit(Some(100)), 100);
    assert_eq!(user_feedback_limit(Some(101)), 100);
    assert_eq!(user_feedback_limit(Some(-3)), -3);
    assert_eq!(recent_feedback_limit(None), 100);
    assert_eq!(recent_feedback_limit(Some(499)), 499);
    assert_eq!(recent_feedback_limit(Some(i64::MAX)), 500);
}

#[test]
fn recent_records_count_from_whole_days_back() {
    assert_eq!(recent_since(1_700_000_000_000, 7), 1_700_000_000_000 - 7 * 86_400_000);
    assert_eq!(recent_since(1_700_000_000_000, 0), 1_700_000_000_000);
    assert_eq!(recent_since(0, -1), 86_400_000);
    assert_eq!(recent_since(i64::MIN, i32::MAX), i64::MIN);
    assert_eq!(recent_since(i64::MAX, i32::MIN), i64::MAX);
}

#[test]
fn user_feedback_comes_newest_first() {
    let keys = vec![
        key(Some(1), 30),
        key(Some(2), 99),
        key(Some(1), 50),
        key(None, 70),
        key(Some(1), 30),
        key(Some(1), 50),
        key(Some(1), 10),
    ];
    assert_eq!(select_user_feedback(&keys, 1, 50), vec![2, 5, 0, 4, 6]);
    assert_eq!(select_user_feedback(&keys, 1, 5), vec![2, 5, 0, 4, 6]);
    assert_eq!(select_user_feedback(&keys, 1, 3), vec![2, 5, 0]);
    assert_eq!(select_user_feedback(&keys, 1, 0), Vec::<usize>::new());
    assert_eq!(select_user_feedback(&keys, 2, 50), vec![1]);
    assert_eq!(select_user_feedback(&keys, 3, 50), Vec::<usize>::new());
    assert_eq!(select_user_feedback(&Vec::new(), 1, 50), Vec::<usize>::new());
}
