//! The evaluation of one node, as a machine that the caller drives: it asks
//! for one action at a time and is told what came of it.

use vstd::prelude::*;
use vstd::string::*;
use crate::latency::{latency_of, AttemptOutcome, LatencyResult, LatencyView};
use crate::sampler::{
    lemma_failure_ends_sampling, policy, session_failure, session_failure_text, stops_at_failure,
    LatencyProbe, ProbeAction, SessionStage, LATENCY_ATTEMPTS,
};
use crate::throughput::{reduce_throughput, speed_of, SpeedResult, SpeedView, TransferOutcome};

verus! {

/// The largest download that a throughput probe may ask for, in megabytes.
pub const MAX_SIZE_MEGABYTES: u32 = 1024;

/// Bytes in a megabyte.
pub const BYTES_PER_MEGABYTE: u32 = 1_048_576;

/// A node to measure: a label, and the local port of its proxy.
#[derive(Clone, Debug, PartialEq, Eq)]
pub struct ProxyEndpoint {
    pub tag: String,
    pub port: u16,
}

/// A `ProxyEndpoint` with its tag as a sequence of characters.
pub struct EndpointView {
    pub tag: Seq<char>,
    pub port: u16,
}

impl View for ProxyEndpoint {
    type V = EndpointView;

    open spec fn view(&self) -> EndpointView {
        EndpointView { tag: self.tag@, port: self.port }
    }
}

/// What a run asks of every node.
#[derive(Clone, Copy, Debug, PartialEq, Eq, Structural)]
pub struct RunSettings {
    /// The number of timed latency requests allowed per node.
    pub latency_attempts: usize,
    /// The size of the download in megabytes, where throughput is measured.
    pub throughput_size_mb: Option<u32>,
}

impl RunSettings {
    /// Whether the run measures throughput.
    pub open spec fn with_throughput(self) -> bool {
        self.throughput_size_mb is Some
    }

    /// What a run asks where nothing else is said: ten latency attempts, and
    /// throughput where a size in megabytes is given.
    pub fn standard(throughput_size_mb: Option<u32>) -> (settings: RunSettings)
        ensures
            settings.latency_attempts == LATENCY_ATTEMPTS,
            settings.throughput_size_mb == throughput_size_mb,
    {
        RunSettings { latency_attempts: LATENCY_ATTEMPTS, throughput_size_mb }
    }

    /// Whether the run measures throughput.
    pub fn measures_throughput(&self) -> (measured: bool)
        ensures
            measured == self.with_throughput(),
    {
        self.throughput_size_mb.is_some()
    }
}

/// The measurements of one node.
#[derive(Clone, Debug, PartialEq, Eq)]
pub struct NodeResult {
    pub tag: String,
    pub port: u16,
    pub latency: LatencyResult,
    /// Absent where the run measured no throughput.
    pub speed: Option<SpeedResult>,
}

/// A `NodeResult` with its texts as sequences of characters.
pub struct NodeView {
    pub tag: Seq<char>,
    pub port: u16,
    pub latency: LatencyView,
    pub speed: Option<SpeedView>,
}

/// The view of a throughput result that may be absent.
pub open spec fn speed_view(speed: Option<SpeedResult>) -> Option<SpeedView> {
    match speed {
        Some(result) => Some(result@),
        None => None,
    }
}

impl View for NodeResult {
    type V = NodeView;

    open spec fn view(&self) -> NodeView {
        NodeView {
            tag: self.tag@,
            port: self.port,
            latency: self.latency@,
            speed: speed_view(self.speed),
        }
    }
}

/// What the caller is to do next for the node.
#[derive(Clone, Copy, Debug, PartialEq, Eq, Structural)]
pub enum Action {
    /// Set up the proxy and the client of the latency probe.
    OpenSession,
    /// Send the untimed warm-up request.
    WarmUp,
    /// Send one timed request.
    TimedRequest,
    /// Download this many bytes, once, and time the transfer.
    Download { bytes: u32 },
    /// Nothing: the node's result is complete.
    Done,
}

/// What came of the action that was asked for.
#[derive(Clone, Debug, PartialEq, Eq)]
pub enum Event {
    /// The latency session is set up.
    SessionOpened,
    /// The latency session could not be set up.
    SessionFailed { stage: SessionStage, detail: String },
    /// The warm-up request was made, with whatever outcome.
    WarmUpDone,
    /// A timed request ended.
    Attempt(AttemptOutcome),
    /// The download ended.
    Transfer(TransferOutcome),
}

/// How far the evaluation of a node has come.
pub enum Stage {
    /// No session yet.
    Connecting,
    /// Sampling latency.
    Sampling { warmed_up: bool, outcomes: Seq<AttemptOutcome> },
    /// Latency is settled and the download is under way.
    Transferring { latency: LatencyView, bytes: u32 },
    /// Both measurements are settled.
    Finished { latency: LatencyView, speed: Option<SpeedView> },
}

/// The reason given for a download that is larger than the probe allows.
pub open spec fn oversize_text() -> Seq<char> {
    "size too large"@
}

/// The bytes to download for a size in megabytes, where the size is allowed.
pub open spec fn bytes_for(size_mb: u32) -> Option<u32> {
    if size_mb <= MAX_SIZE_MEGABYTES {
        Some((size_mb * BYTES_PER_MEGABYTE) as u32)
    } else {
        None
    }
}

/// The stage that follows once latency is settled: finished where no
/// throughput is measured or the size is refused, else the download.
pub open spec fn after_latency(size_mb: Option<u32>, latency: LatencyView) -> Stage {
    match size_mb {
        None => Stage::Finished { latency, speed: None },
        Some(size) => match bytes_for(size) {
            Some(bytes) => Stage::Transferring { latency, bytes },
            None => Stage::Finished { latency, speed: Some(SpeedView::Failed(oversize_text())) },
        },
    }
}

/// The stage of a node whose latency session is open: sampling goes on while
/// the policy asks for more, and then latency is settled.
pub open spec fn sampling_or_settled(
    settings: RunSettings,
    warmed_up: bool,
    outcomes: Seq<AttemptOutcome>,
) -> Stage {
    if policy(settings.latency_attempts, warmed_up, outcomes) is Stop {
        after_latency(settings.throughput_size_mb, latency_of(outcomes)@)
    } else {
        Stage::Sampling { warmed_up, outcomes }
    }
}

/// The stage that an event leads to. An event that answers no action of the
/// stage changes nothing.
pub open spec fn step(settings: RunSettings, stage: Stage, event: Event) -> Stage {
    match (stage, event) {
        (Stage::Connecting, Event::SessionOpened) => Stage::Sampling {
            warmed_up: false,
            outcomes: Seq::empty(),
        },
        (Stage::Connecting, Event::SessionFailed { stage: failed, detail }) => Stage::Finished {
            latency: LatencyView::SessionError(session_failure_text(failed, detail@)),
            speed: match settings.throughput_size_mb {
                Some(_) => Some(SpeedView::Failed(session_failure_text(failed, detail@))),
                None => None,
            },
        },
        (Stage::Sampling { warmed_up: false, outcomes }, Event::WarmUpDone) => sampling_or_settled(
            settings,
            true,
            outcomes,
        ),
        (Stage::Sampling { warmed_up: true, outcomes }, Event::Attempt(outcome)) => {
            sampling_or_settled(settings, true, outcomes.push(outcome))
        },
        (Stage::Transferring { latency, bytes }, Event::Transfer(outcome)) => Stage::Finished {
            latency,
            speed: Some(speed_of(outcome)),
        },
        _ => stage,
    }
}

/// The action that a stage waits for.
pub open spec fn pending(stage: Stage) -> Action {
    match stage {
        Stage::Connecting => Action::OpenSession,
        Stage::Sampling { warmed_up, outcomes } => if warmed_up {
            Action::TimedRequest
        } else {
            Action::WarmUp
        },
        Stage::Transferring { latency, bytes } => Action::Download { bytes },
        Stage::Finished { latency, speed } => Action::Done,
    }
}

/// An `Unstable` latency counts one or two successes and at most one attempt
/// more, the failed one that ended the sampling, all within the budget.
pub open spec fn within_budget(settings: RunSettings, latency: LatencyView) -> bool {
    latency matches LatencyView::Unstable { valid_count, total_count } ==> {
        &&& 0 < valid_count < 3
        &&& valid_count <= total_count <= valid_count + 1
        &&& total_count <= settings.latency_attempts
    }
}

/// What holds of every stage that an evaluation under `settings` reaches.
pub open spec fn reachable(settings: RunSettings, stage: Stage) -> bool {
    match stage {
        Stage::Connecting => true,
        Stage::Sampling { warmed_up, outcomes } => {
            &&& !(policy(settings.latency_attempts, warmed_up, outcomes) is Stop)
            &&& stops_at_failure(outcomes)
            &&& !warmed_up ==> outcomes.len() == 0
        },
        Stage::Transferring { latency, bytes } => {
            &&& within_budget(settings, latency)
            &&& settings.throughput_size_mb is Some
            &&& bytes_for(settings.throughput_size_mb->Some_0) == Some(bytes)
        },
        Stage::Finished { latency, speed } => {
            &&& within_budget(settings, latency)
            &&& speed is Some <==> settings.throughput_size_mb is Some
            &&& speed is Some && bytes_for(settings.throughput_size_mb->Some_0) is None
                ==> speed->Some_0 is Failed
        },
    }
}

/// The latency that sampling settles on stays within the budget.
pub proof fn lemma_sampled_latency_within_budget(
    settings: RunSettings,
    outcomes: Seq<AttemptOutcome>,
)
    requires
        stops_at_failure(outcomes),
        outcomes.len() <= settings.latency_attempts,
    ensures
        within_budget(settings, latency_of(outcomes)@),
{
    lemma_failure_ends_sampling(outcomes);
}

/// Every event leads from a reachable stage to a reachable stage.
pub proof fn lemma_step_keeps_reachable(settings: RunSettings, stage: Stage, event: Event)
    requires
        reachable(settings, stage),
    ensures
        reachable(settings, step(settings, stage, event)),
{
    match (stage, event) {
        (Stage::Sampling { warmed_up: false, outcomes }, Event::WarmUpDone) => {
            lemma_sampled_latency_within_budget(settings, outcomes);
        },
        (Stage::Sampling { warmed_up: true, outcomes }, Event::Attempt(outcome)) => {
            let longer = outcomes.push(outcome);
            assert forall|i: int| 0 <= i < longer.len() - 1 implies longer[i] is Completed by {
                assert(longer[i] == outcomes[i]);
                if i == outcomes.len() - 1 {
                    assert(outcomes.last() is Completed);
                }
            }
            lemma_sampled_latency_within_budget(settings, longer);
        },
        _ => {},
    }
}

/// A session that cannot be set up ends the evaluation at once: the latency
/// is a `SessionError`, no download is asked for, and where throughput was
/// to be measured it is reported as failed.
pub proof fn lemma_session_failure_ends_evaluation(
    settings: RunSettings,
    failed: SessionStage,
    detail: String,
)
    ensures
        ({
            let end = step(
                settings,
                Stage::Connecting,
                (Event::SessionFailed { stage: failed, detail }),
            );
            &&& end is Finished
            &&& end->Finished_latency is SessionError
            &&& pending(end) == Action::Done
            &&& end->Finished_speed is Some <==> settings.throughput_size_mb is Some
            &&& end->Finished_speed is Some ==> end->Finished_speed->Some_0 is Failed
        }),
{
}

/// A size above the limit is refused without a download: once latency is
/// settled the node is finished, with a failed throughput that says so, and
/// no reachable stage waits for a download.
pub proof fn lemma_oversize_is_refused(settings: RunSettings, stage: Stage, latency: LatencyView)
    requires
        settings.throughput_size_mb is Some,
        settings.throughput_size_mb->Some_0 > MAX_SIZE_MEGABYTES,
        reachable(settings, stage),
    ensures
        after_latency(settings.throughput_size_mb, latency) == (Stage::Finished {
            latency,
            speed: Some(SpeedView::Failed(oversize_text())),
        }),
        !(pending(stage) is Download),
{
}

/// A finished evaluation stays as it is whatever it is told, and asks for
/// nothing more.
pub proof fn lemma_finished_is_final(settings: RunSettings, stage: Stage, event: Event)
    requires
        stage is Finished,
    ensures
        step(settings, stage, event) == stage,
        pending(stage) == Action::Done,
{
}

/// While a node is sampled, the attempts recorded are within the budget,
/// below it once the warm-up is done, and none of them has failed. A finished
/// node has a throughput result exactly where the run measures throughput,
/// and an `Unstable` latency counts no more attempts than the budget.
pub proof fn lemma_reachable_stage(settings: RunSettings, stage: Stage)
    requires
        reachable(settings, stage),
    ensures
        stage matches Stage::Sampling { warmed_up, outcomes } ==> {
            &&& outcomes.len() <= settings.latency_attempts
            &&& warmed_up ==> outcomes.len() < settings.latency_attempts
            &&& forall|i: int| 0 <= i < outcomes.len() ==> outcomes[i] is Completed
        },
        stage matches Stage::Finished { latency, speed } ==> (speed is Some
            <==> settings.throughput_size_mb is Some),
        stage matches Stage::Finished { latency, speed } ==> (latency matches LatencyView::Unstable {
            valid_count,
            total_count,
        } ==> total_count <= settings.latency_attempts),
{
    if let Stage::Sampling { warmed_up, outcomes } = stage {
        assert forall|i: int| 0 <= i < outcomes.len() implies outcomes[i] is Completed by {
            if i == outcomes.len() - 1 {
                assert(outcomes.last() is Completed);
            }
        }
    }
}

/// The bytes to download for a size in megabytes: `size_mb` times 1024 times
/// 1024 for a size up to 1024, and nothing for a larger one.
pub fn requested_bytes(size_mb: u32) -> (bytes: Option<u32>)
    ensures
        bytes == bytes_for(size_mb),
        bytes is Some <==> size_mb <= 1024,
        bytes is Some ==> bytes->Some_0 == size_mb * 1024 * 1024,
{
    if size_mb <= MAX_SIZE_MEGABYTES {
        Some(size_mb * BYTES_PER_MEGABYTE)
    } else {
        None
    }
}

enum Phase {
    Connecting,
    Sampling(LatencyProbe),
    Transferring { latency: LatencyResult, bytes: u32 },
    Finished { latency: LatencyResult, speed: Option<SpeedResult> },
}

impl Phase {
    spec fn stage(self) -> Stage {
        match self {
            Phase::Connecting => Stage::Connecting,
            Phase::Sampling(probe) => Stage::Sampling {
                warmed_up: probe.warmed_up(),
                outcomes: probe.recorded(),
            },
            Phase::Transferring { latency, bytes } => Stage::Transferring { latency: latency@, bytes },
            Phase::Finished { latency, speed } => Stage::Finished {
                latency: latency@,
                speed: speed_view(speed),
            },
        }
    }
}

/// The evaluation of one node, from the first action to the result.
pub struct NodeEvaluation {
    endpoint: ProxyEndpoint,
    settings: RunSettings,
    phase: Phase,
}

impl NodeEvaluation {
    /// The node under evaluation.
    pub closed spec fn endpoint(&self) -> ProxyEndpoint {
        self.endpoint
    }

    /// What the run asks of the node.
    pub closed spec fn settings(&self) -> RunSettings {
        self.settings
    }

    /// How far the evaluation has come.
    pub closed spec fn stage(&self) -> Stage {
        self.phase.stage()
    }

    /// The stage is one that an evaluation under these settings reaches.
    pub open spec fn well_formed(&self) -> bool {
        reachable(self.settings(), self.stage())
    }

    #[verifier::type_invariant]
    spec fn consistent(&self) -> bool {
        &&& self.well_formed()
        &&& self.phase matches Phase::Sampling(probe) ==> probe.well_formed() && probe.budget()
            == self.settings.latency_attempts
    }

    /// The evaluation of `endpoint`, with nothing done yet.
    pub fn begin(endpoint: ProxyEndpoint, settings: RunSettings) -> (evaluation: NodeEvaluation)
        ensures
            evaluation.well_formed(),
            evaluation.endpoint() == endpoint,
            evaluation.settings() == settings,
            evaluation.stage() == Stage::Connecting,
    {
        NodeEvaluation { endpoint, settings, phase: Phase::Connecting }
    }

    /// The action that the evaluation waits for.
    pub fn next_action(&self) -> (action: Action)
        ensures
            action == pending(self.stage()),
    {
        match &self.phase {
            Phase::Connecting => Action::OpenSession,
            Phase::Sampling(probe) => match probe.next_action() {
                ProbeAction::WarmUp => Action::WarmUp,
                _ => {
                    proof {
                        use_type_invariant(self);
                    }
                    Action::TimedRequest
                },
            },
            Phase::Transferring { latency, bytes } => Action::Download { bytes: *bytes },
            Phase::Finished { latency, speed } => Action::Done,
        }
    }

    /// Takes in what came of the pending action and moves to the next stage.
    pub fn advance(self, event: Event) -> (evaluation: NodeEvaluation)
        ensures
            evaluation.well_formed(),
            evaluation.endpoint() == self.endpoint(),
            evaluation.settings() == self.settings(),
            evaluation.stage() == step(self.settings(), self.stage(), event),
    {
        proof {
            use_type_invariant(&self);
        }
        let NodeEvaluation { endpoint, settings, phase } = self;
        let phase = match (phase, event) {
            (Phase::Connecting, Event::SessionOpened) => settle(
                &settings,
                LatencyProbe::new(settings.latency_attempts),
            ),
            (Phase::Connecting, Event::SessionFailed { stage, detail }) => Phase::Finished {
                latency: LatencyResult::SessionError(session_failure(stage, detail.as_str())),
                speed: match settings.throughput_size_mb {
                    Some(_) => Some(SpeedResult::Failed(session_failure(stage, detail.as_str()))),
                    None => None,
                },
            },
            (Phase::Sampling(probe), Event::WarmUpDone) => {
                if probe.is_warmed_up() {
                    Phase::Sampling(probe)
                } else {
                    settle(&settings, probe.warmed())
                }
            },
            (Phase::Sampling(probe), Event::Attempt(outcome)) => {
                if probe.is_warmed_up() {
                    settle(&settings, probe.record(outcome))
                } else {
                    Phase::Sampling(probe)
                }
            },
            (Phase::Transferring { latency, bytes }, Event::Transfer(outcome)) => Phase::Finished {
                latency,
                speed: Some(reduce_throughput(&outcome)),
            },
            (phase, _) => phase,
        };
        NodeEvaluation { endpoint, settings, phase }
    }

    /// The node under evaluation.
    pub fn node(&self) -> (endpoint: &ProxyEndpoint)
        ensures
            *endpoint == self.endpoint(),
    {
        &self.endpoint
    }

    /// What the run asks of the node.
    pub fn run_settings(&self) -> (settings: RunSettings)
        ensures
            settings == self.settings(),
    {
        self.settings
    }

    /// Whether both measurements are settled.
    pub fn is_finished(&self) -> (finished: bool)
        ensures
            finished == (self.stage() is Finished),
    {
        match &self.phase {
            Phase::Finished { latency, speed } => true,
            _ => false,
        }
    }

    /// The node's result, once the evaluation is finished. It carries a
    /// throughput result exactly where the run measures throughput.
    pub fn into_result(self) -> (result: Option<NodeResult>)
        ensures
            result is Some <==> self.stage() is Finished,
            result is Some ==> {
                &&& result->Some_0.tag == self.endpoint().tag
                &&& result->Some_0.port == self.endpoint().port
                &&& result->Some_0.latency@ == self.stage()->Finished_latency
                &&& speed_view(result->Some_0.speed) == self.stage()->Finished_speed
                &&& result->Some_0.speed is Some <==> self.settings().with_throughput()
            },
    {
        proof {
            use_type_invariant(&self);
        }
        let NodeEvaluation { endpoint, settings, phase } = self;
        match phase {
            Phase::Finished { latency, speed } => Some(
                NodeResult { tag: endpoint.tag, port: endpoint.port, latency, speed },
            ),
            _ => None,
        }
    }
}

/// The phase of a node whose latency session is open.
fn settle(settings: &RunSettings, probe: LatencyProbe) -> (phase: Phase)
    requires
        probe.well_formed(),
        probe.budget() == settings.latency_attempts,
    ensures
        phase.stage() == sampling_or_settled(*settings, probe.warmed_up(), probe.recorded()),
        phase matches Phase::Sampling(kept) ==> kept == probe,
        reachable(*settings, phase.stage()),
{
    match probe.next_action() {
        ProbeAction::Stop => {
            proof {
                lemma_sampled_latency_within_budget(*settings, probe.recorded());
            }
            let latency = probe.classify();
            match settings.throughput_size_mb {
                None => Phase::Finished { latency, speed: None },
                Some(size) => match requested_bytes(size) {
                    Some(bytes) => Phase::Transferring { latency, bytes },
                    None => Phase::Finished {
                        latency,
                        speed: Some(SpeedResult::Failed(String::from_str("size too large"))),
                    },
                },
            }
        },
        _ => Phase::Sampling(probe),
    }
}

} // verus!
