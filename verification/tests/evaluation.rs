use proxy_speedtest::evaluator::{
    requested_bytes, Action, Event, NodeEvaluation, NodeResult, ProxyEndpoint, RunSettings,
};
use proxy_speedtest::latency::{AttemptOutcome, LatencyResult, Mean, ProbeFailure};
use proxy_speedtest::sampler::SessionStage;
use proxy_speedtest::throughput::{Rate, SpeedResult, TransferOutcome};

fn node() -> ProxyEndpoint {
    ProxyEndpoint { tag: "tokyo".to_string(), port: 1081 }
}

fn sampled(settings: RunSettings, outcomes: &[AttemptOutcome]) -> NodeEvaluation {
    let mut evaluation = NodeEvaluation::begin(node(), settings)
        .advance(Event::SessionOpened)
        .advance(Event::WarmUpDone);
    for outcome in outcomes {
        assert_eq!(evaluation.next_action(), Action::TimedRequest);
        evaluation = evaluation.advance(Event::Attempt(*outcome));
    }
    evaluation
}

#[test]
fn standard_settings_allow_ten_attempts() {
    let settings = RunSettings::standard(Some(10));
    assert_eq!(settings.latency_attempts, 10);
    assert_eq!(settings.throughput_size_mb, Some(10));
    assert!(settings.measures_throughput());
    assert!(!RunSettings::standard(None).measures_throughput());
}

#[test]
fn evaluation_asks_for_session_then_warm_up_then_requests() {
    let evaluation = NodeEvaluation::begin(node(), RunSettings::standard(None));
    assert_eq!(evaluation.next_action(), Action::OpenSession);
    let evaluation = evaluation.advance(Event::SessionOpened);
    assert_eq!(evaluation.next_action(), Action::WarmUp);
    let evaluation = evaluation.advance(Event::WarmUpDone);
    assert_eq!(evaluation.next_action(), Action::TimedRequest);
}

#[test]
fn latency_only_run_finishes_after_ten_attempts() {
    let outcomes: Vec<AttemptOutcome> =
        (1..=10).map(|i| AttemptOutcome::Completed(i * 100)).collect();
    let evaluation = sampled(RunSettings::standard(None), &outcomes);
    assert_eq!(evaluation.next_action(), Action::Done);
    assert_eq!(
        evaluation.into_result(),
        Some(NodeResult {
            tag: "tokyo".to_string(),
            port: 1081,
            latency: LatencyResult::Success {
                median: 600,
                average: Mean { total: 5_500, count: 10 },
                minimum: 100,
                maximum: 1_000,
            },
            speed: None,
        })
    );
}

#[test]
fn failed_attempt_ends_the_sampling() {
    let outcomes = vec![
        AttemptOutcome::Completed(100),
        AttemptOutcome::Failed(ProbeFailure::Timeout),
    ];
    let evaluation = sampled(RunSettings::standard(None), &outcomes);
    assert_eq!(evaluation.next_action(), Action::Done);
    let result = evaluation.into_result().unwrap();
    assert_eq!(result.latency, LatencyResult::Unstable { valid_count: 1, total_count: 2 });
    assert_eq!(result.speed, None);
}

#[test]
fn unfinished_evaluation_has_no_result() {
    let evaluation = NodeEvaluation::begin(node(), RunSettings::standard(None));
    assert_eq!(evaluation.into_result(), None);
    let evaluation = sampled(RunSettings::standard(None), &[AttemptOutcome::Completed(1)]);
    assert_eq!(evaluation.next_action(), Action::TimedRequest);
    assert_eq!(evaluation.into_result(), None);
}

#[test]
fn download_follows_the_latency_probe() {
    let outcomes = vec![AttemptOutcome::Failed(ProbeFailure::Transport)];
    let evaluation = sampled(RunSettings::standard(Some(10)), &outcomes);
    assert_eq!(evaluation.next_action(), Action::Download { bytes: 10_485_760 });
    let evaluation = evaluation.advance(Event::Transfer(TransferOutcome::Completed {
        bytes: 10_485_760,
        elapsed_nanos: 2_000_000_000,
    }));
    assert_eq!(evaluation.next_action(), Action::Done);
    let result = evaluation.into_result().unwrap();
    assert_eq!(result.latency, LatencyResult::AllFailed);
    assert_eq!(
        result.speed,
        Some(SpeedResult::Success(Rate { bytes: 10_485_760, elapsed_nanos: 2_000_000_000 }))
    );
}

#[test]
fn failed_download_is_reported() {
    let evaluation =
        sampled(RunSettings::standard(Some(1)), &[AttemptOutcome::Failed(ProbeFailure::Status)])
            .advance(Event::Transfer(TransferOutcome::Timeout));
    let result = evaluation.into_result().unwrap();
    assert_eq!(result.speed, Some(SpeedResult::Failed("Timeout".to_string())));
}

#[test]
fn oversized_download_is_refused_without_a_request() {
    let outcomes = vec![AttemptOutcome::Failed(ProbeFailure::Timeout)];
    let evaluation = sampled(RunSettings::standard(Some(2000)), &outcomes);
    assert_eq!(evaluation.next_action(), Action::Done);
    let result = evaluation.into_result().unwrap();
    assert_eq!(result.speed, Some(SpeedResult::Failed("size too large".to_string())));
}

#[test]
fn requested_bytes_are_mebibytes_up_to_the_limit() {
    assert_eq!(requested_bytes(0), Some(0));
    assert_eq!(requested_bytes(1), Some(1_048_576));
    assert_eq!(requested_bytes(10), Some(10_485_760));
    assert_eq!(requested_bytes(1024), Some(1_073_741_824));
    assert_eq!(requested_bytes(1025), None);
    assert_eq!(requested_bytes(2000), None);
    assert_eq!(requested_bytes(u32::MAX), None);
}

#[test]
fn session_failure_ends_the_evaluation() {
    let evaluation = NodeEvaluation::begin(node(), RunSettings::standard(None)).advance(
        Event::SessionFailed { stage: SessionStage::Proxy, detail: "bad address".to_string() },
    );
    assert_eq!(evaluation.next_action(), Action::Done);
    let result = evaluation.into_result().unwrap();
    assert_eq!(
        result.latency,
        LatencyResult::SessionError("Failed to create proxy: bad address".to_string())
    );
    assert_eq!(result.speed, None);
}

#[test]
fn session_failure_skips_the_download() {
    let evaluation = NodeEvaluation::begin(node(), RunSettings::standard(Some(5))).advance(
        Event::SessionFailed { stage: SessionStage::Client, detail: "no runtime".to_string() },
    );
    assert_eq!(evaluation.next_action(), Action::Done);
    let result = evaluation.into_result().unwrap();
    assert_eq!(
        result.latency,
        LatencyResult::SessionError("Failed to create client: no runtime".to_string())
    );
    assert_eq!(
        result.speed,
        Some(SpeedResult::Failed("Failed to create client: no runtime".to_string()))
    );
}

#[test]
fn events_that_answer_nothing_change_nothing() {
    let evaluation = NodeEvaluation::begin(node(), RunSettings::standard(Some(1)))
        .advance(Event::WarmUpDone)
        .advance(Event::Attempt(AttemptOutcome::Completed(1)))
        .advance(Event::Transfer(TransferOutcome::Timeout));
    assert_eq!(evaluation.next_action(), Action::OpenSession);
    let evaluation = evaluation
        .advance(Event::SessionOpened)
        .advance(Event::Attempt(AttemptOutcome::Completed(1)))
        .advance(Event::SessionOpened);
    assert_eq!(evaluation.next_action(), Action::WarmUp);
    let evaluation = evaluation.advance(Event::WarmUpDone).advance(Event::WarmUpDone);
    assert_eq!(evaluation.next_action(), Action::TimedRequest);
}

#[test]
fn finished_evaluation_stays_finished() {
    let finished = sampled(
        RunSettings::standard(None),
        &[AttemptOutcome::Failed(ProbeFailure::Timeout)],
    );
    let again = finished
        .advance(Event::SessionOpened)
        .advance(Event::Attempt(AttemptOutcome::Completed(3)))
        .advance(Event::Transfer(TransferOutcome::Timeout));
    assert_eq!(again.next_action(), Action::Done);
    let result = again.into_result().unwrap();
    assert_eq!(result.latency, LatencyResult::AllFailed);
    assert_eq!(result.speed, None);
}

#[test]
fn no_budget_means_no_timed_request() {
    let settings = RunSettings { latency_attempts: 0, throughput_size_mb: None };
    let evaluation = NodeEvaluation::begin(node(), settings).advance(Event::SessionOpened);
    assert_eq!(evaluation.next_action(), Action::WarmUp);
    let evaluation = evaluation.advance(Event::WarmUpDone);
    assert_eq!(evaluation.next_action(), Action::Done);
    assert_eq!(evaluation.into_result().unwrap().latency, LatencyResult::AllFailed);
}
