use proxy_speedtest::latency::{
    reduce_latency, sort_ascending, AttemptOutcome, LatencyResult, Mean, ProbeFailure,
};

fn ok(micros: u64) -> AttemptOutcome {
    AttemptOutcome::Completed(micros)
}

fn failed() -> AttemptOutcome {
    AttemptOutcome::Failed(ProbeFailure::Timeout)
}

#[test]
fn no_attempts_reduce_to_all_failed() {
    assert_eq!(reduce_latency(&vec![]), LatencyResult::AllFailed);
}

#[test]
fn only_failures_reduce_to_all_failed() {
    let outcomes = vec![
        AttemptOutcome::Failed(ProbeFailure::Transport),
        AttemptOutcome::Failed(ProbeFailure::Status),
        AttemptOutcome::Failed(ProbeFailure::Timeout),
    ];
    assert_eq!(reduce_latency(&outcomes), LatencyResult::AllFailed);
}

#[test]
fn one_success_is_unstable() {
    let outcomes = vec![ok(12_000), failed()];
    assert_eq!(
        reduce_latency(&outcomes),
        LatencyResult::Unstable { valid_count: 1, total_count: 2 }
    );
}

#[test]
fn two_successes_are_unstable() {
    let outcomes = vec![ok(12_000), ok(13_000), failed()];
    assert_eq!(
        reduce_latency(&outcomes),
        LatencyResult::Unstable { valid_count: 2, total_count: 3 }
    );
}

#[test]
fn unstable_counts_the_attempts_made() {
    let outcomes = vec![failed(), ok(5), failed(), failed()];
    assert_eq!(
        reduce_latency(&outcomes),
        LatencyResult::Unstable { valid_count: 1, total_count: 4 }
    );
}

#[test]
fn three_successes_give_statistics() {
    let outcomes = vec![ok(30_000), ok(10_000), ok(20_000)];
    assert_eq!(
        reduce_latency(&outcomes),
        LatencyResult::Success {
            median: 20_000,
            average: Mean { total: 60_000, count: 3 },
            minimum: 10_000,
            maximum: 30_000,
        }
    );
}

#[test]
fn median_of_four_is_the_element_at_index_two() {
    let outcomes = vec![ok(10), ok(20), ok(30), ok(40)];
    match reduce_latency(&outcomes) {
        LatencyResult::Success { median, average, minimum, maximum } => {
            assert_eq!(median, 30);
            assert_eq!(minimum, 10);
            assert_eq!(maximum, 40);
            assert_eq!(average, Mean { total: 100, count: 4 });
        }
        other => panic!("unexpected {:?}", other),
    }
}

#[test]
fn median_of_five_is_the_middle_element() {
    let outcomes = vec![ok(50), ok(10), ok(40), ok(20), ok(30)];
    match reduce_latency(&outcomes) {
        LatencyResult::Success { median, .. } => assert_eq!(median, 30),
        other => panic!("unexpected {:?}", other),
    }
}

#[test]
fn failures_do_not_enter_the_statistics() {
    let outcomes = vec![ok(7), failed(), ok(9), ok(8), failed()];
    assert_eq!(
        reduce_latency(&outcomes),
        LatencyResult::Success {
            median: 8,
            average: Mean { total: 24, count: 3 },
            minimum: 7,
            maximum: 9,
        }
    );
}

#[test]
fn statistics_are_ordered_and_mean_lies_between_extremes() {
    let outcomes = vec![ok(900), ok(100), ok(450), ok(451), ok(100), ok(7_000)];
    match reduce_latency(&outcomes) {
        LatencyResult::Success { median, average, minimum, maximum } => {
            assert!(minimum <= median && median <= maximum);
            assert!((minimum as u128) * (average.count as u128) <= average.total);
            assert!(average.total <= (maximum as u128) * (average.count as u128));
            assert_eq!(average.count, 6);
            assert_eq!(average.total, 9_001);
            assert_eq!(median, 451);
        }
        other => panic!("unexpected {:?}", other),
    }
}

#[test]
fn largest_durations_do_not_overflow_the_sum() {
    let outcomes = vec![ok(u64::MAX), ok(u64::MAX), ok(u64::MAX)];
    assert_eq!(
        reduce_latency(&outcomes),
        LatencyResult::Success {
            median: u64::MAX,
            average: Mean { total: 3 * (u64::MAX as u128), count: 3 },
            minimum: u64::MAX,
            maximum: u64::MAX,
        }
    );
}

#[test]
fn reducing_twice_gives_the_same_result() {
    let outcomes = vec![ok(31), ok(11), ok(21), ok(41), failed()];
    let first = reduce_latency(&outcomes);
    let second = reduce_latency(&outcomes);
    assert_eq!(first, second);
    let few = vec![ok(1), failed()];
    assert_eq!(reduce_latency(&few), reduce_latency(&few));
}

#[test]
fn sort_ascending_orders_and_keeps_duplicates() {
    let mut samples = vec![5, 3, 9, 3, 1, 9, 0];
    sort_ascending(&mut samples);
    assert_eq!(samples, vec![0, 1, 3, 3, 5, 9, 9]);
    let mut empty: Vec<u64> = vec![];
    sort_ascending(&mut empty);
    assert!(empty.is_empty());
}
