use async_playground::basics::{work_result, RESULT_FACTOR};

#[test]
fn work_result_is_ten_times_the_duration() {
    assert_eq!(work_result(1), 10);
    assert_eq!(work_result(2), 20);
    assert_eq!(work_result(3), 30);
    assert_eq!(work_result(0), 0);
    assert_eq!(RESULT_FACTOR, 10);
}

#[test]
fn work_result_at_the_largest_duration() {
    assert_eq!(work_result(u64::MAX / 10), (u64::MAX / 10) * 10);
}

#[test]
fn joined_tasks_give_their_own_results() {
    let (b, c) = (work_result(2), work_result(1));
    assert_eq!((b, c), (20, 10));
}
