use proxy_speedtest::evaluator::NodeResult;
use proxy_speedtest::latency::{LatencyResult, Mean};
use proxy_speedtest::ranker::{
    count_rated, has_better_latency, precedes, rank, successful_median, successful_rate,
};
use proxy_speedtest::throughput::{Rate, SpeedResult};

fn latency(median_micros: u64) -> LatencyResult {
    LatencyResult::Success {
        median: median_micros,
        average: Mean { total: 3 * median_micros as u128, count: 3 },
        minimum: median_micros,
        maximum: median_micros,
    }
}

/// A rate of `tenths` tenths of a megabit per second.
fn mbps(tenths: u64) -> Option<SpeedResult> {
    Some(SpeedResult::Success(Rate { bytes: tenths * 12_500, elapsed_nanos: 1_000_000_000 }))
}

fn failed() -> Option<SpeedResult> {
    Some(SpeedResult::Failed("Timeout".to_string()))
}

fn node(tag: &str, latency: LatencyResult, speed: Option<SpeedResult>) -> NodeResult {
    NodeResult { tag: tag.to_string(), port: 1080, latency, speed }
}

fn tags(nodes: &[NodeResult]) -> Vec<String> {
    nodes.iter().map(|n| n.tag.clone()).collect()
}

#[test]
fn higher_rate_first_then_failed_whatever_the_latency() {
    let mut nodes = vec![
        node("failed", latency(1_000), failed()),
        node("ten", latency(2_000), mbps(100)),
        node("fifty", LatencyResult::AllFailed, mbps(500)),
    ];
    assert_eq!(
        successful_rate(&nodes[2]).unwrap().bits_per_second(),
        Some(50_000_000)
    );
    rank(&mut nodes, true);
    assert_eq!(tags(&nodes), vec!["fifty", "ten", "failed"]);
}

#[test]
fn lower_median_first_then_all_failed() {
    let mut nodes = vec![
        node("dead", LatencyResult::AllFailed, None),
        node("forty", latency(40_000), None),
        node("fifteen", latency(15_000), None),
    ];
    rank(&mut nodes, false);
    assert_eq!(tags(&nodes), vec!["fifteen", "forty", "dead"]);
}

#[test]
fn rates_are_ignored_when_throughput_is_off() {
    let mut nodes = vec![
        node("fast-but-slow-ping", latency(90_000), mbps(900)),
        node("slow-but-quick-ping", latency(10_000), mbps(1)),
    ];
    rank(&mut nodes, false);
    assert_eq!(tags(&nodes), vec!["slow-but-quick-ping", "fast-but-slow-ping"]);
}

#[test]
fn nodes_without_rate_go_by_latency() {
    let mut nodes = vec![
        node("none-unstable", LatencyResult::Unstable { valid_count: 1, total_count: 2 }, None),
        node("failed-30", latency(30_000), failed()),
        node("absent-20", latency(20_000), None),
        node("rated", LatencyResult::SessionError("x".to_string()), mbps(1)),
        node("failed-10", latency(10_000), failed()),
    ];
    rank(&mut nodes, true);
    assert_eq!(
        tags(&nodes),
        vec!["rated", "failed-10", "absent-20", "failed-30", "none-unstable"]
    );
}

#[test]
fn ties_keep_the_order_they_came_in() {
    let mut nodes = vec![
        node("c", LatencyResult::AllFailed, None),
        node("a", LatencyResult::Unstable { valid_count: 2, total_count: 3 }, None),
        node("x", latency(5), None),
        node("b", LatencyResult::SessionError("e".to_string()), None),
        node("y", latency(5), None),
    ];
    rank(&mut nodes, false);
    assert_eq!(tags(&nodes), vec!["x", "y", "c", "a", "b"]);
    let mut rated = vec![
        node("first", latency(9), mbps(70)),
        node("second", latency(1), mbps(70)),
    ];
    rank(&mut rated, true);
    assert_eq!(tags(&rated), vec!["first", "second"]);
}

#[test]
fn ranking_keeps_every_node() {
    let mut nodes = vec![
        node("a", latency(3), mbps(3)),
        node("b", latency(2), failed()),
        node("c", latency(1), mbps(9)),
        node("d", LatencyResult::AllFailed, None),
        node("a", latency(3), mbps(3)),
    ];
    let mut before = tags(&nodes);
    rank(&mut nodes, true);
    let mut after = tags(&nodes);
    assert_eq!(after, vec!["c", "a", "a", "b", "d"]);
    before.sort();
    after.sort();
    assert_eq!(before, after);
}

#[test]
fn empty_and_single_rankings() {
    let mut none: Vec<NodeResult> = vec![];
    rank(&mut none, true);
    assert!(none.is_empty());
    let mut one = vec![node("only", LatencyResult::AllFailed, None)];
    rank(&mut one, false);
    assert_eq!(tags(&one), vec!["only"]);
}

#[test]
fn undefined_rate_does_not_stop_the_ranking() {
    let undefined = Some(SpeedResult::Success(Rate { bytes: 0, elapsed_nanos: 0 }));
    let mut nodes = vec![
        node("slow", latency(1), mbps(1)),
        node("undefined", latency(1), undefined),
        node("fast", latency(1), mbps(9)),
        node("failed", latency(1), failed()),
    ];
    rank(&mut nodes, true);
    assert_eq!(nodes.len(), 4);
    assert_eq!(nodes[3].tag, "failed");
}

#[test]
fn infinite_rate_ranks_first() {
    let burst = Some(SpeedResult::Success(Rate { bytes: 1, elapsed_nanos: 0 }));
    let mut nodes = vec![node("finite", latency(1), mbps(9_000)), node("burst", latency(1), burst)];
    rank(&mut nodes, true);
    assert_eq!(tags(&nodes), vec!["burst", "finite"]);
}

#[test]
fn precedes_is_strict() {
    let quick = node("q", latency(10), mbps(100));
    let slow = node("s", latency(20), mbps(100));
    assert!(!precedes(true, &quick, &slow));
    assert!(!precedes(true, &slow, &quick));
    assert!(precedes(false, &quick, &slow));
    assert!(!precedes(false, &slow, &quick));
    assert!(!precedes(false, &quick, &quick));
    assert!(has_better_latency(&quick, &slow));
    assert_eq!(successful_median(&quick), Some(10));
    assert_eq!(successful_median(&node("n", LatencyResult::AllFailed, None)), None);
    assert_eq!(successful_rate(&node("n", latency(1), failed())), None);
    assert_eq!(successful_rate(&node("n", latency(1), None)), None);
}

#[test]
fn count_rated_counts_successful_transfers() {
    let nodes = vec![
        node("a", latency(3), mbps(3)),
        node("b", latency(2), failed()),
        node("c", latency(1), None),
        node("d", LatencyResult::AllFailed, mbps(4)),
    ];
    assert_eq!(count_rated(&nodes), 2);
    assert_eq!(count_rated(&vec![]), 0);
}
