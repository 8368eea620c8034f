//! The sampling policy of the latency probe: one untimed warm-up request,
//! then timed requests until the budget is spent or one of them fails.

use vstd::prelude::*;
use vstd::string::*;
use crate::latency::{
    durations, latency_of, reduce_latency, AttemptOutcome, LatencyResult, ProbeFailure,
};
use crate::text::{append_decimal, decimal, prefixed};

verus! {

/// The number of timed requests made to each node unless one fails.
pub const LATENCY_ATTEMPTS: usize = 10;

/// Seconds allowed for connecting when latency is probed.
pub const LATENCY_CONNECT_TIMEOUT_SECS: u64 = 5;

/// Seconds allowed for one request when latency is probed.
pub const LATENCY_REQUEST_TIMEOUT_SECS: u64 = 10;

/// Seconds allowed for connecting when throughput is probed.
pub const THROUGHPUT_CONNECT_TIMEOUT_SECS: u64 = 10;

/// Seconds allowed for the request when throughput is probed.
pub const THROUGHPUT_REQUEST_TIMEOUT_SECS: u64 = 60;

/// Seconds allowed for the whole download, from connecting to the last byte.
pub const THROUGHPUT_DEADLINE_SECS: u64 = 120;

/// Which part of setting up a session failed.
#[derive(Clone, Copy, Debug, PartialEq, Eq, Structural)]
pub enum SessionStage {
    /// The proxy could not be described to the transport.
    Proxy,
    /// The client could not be built.
    Client,
}

/// What came back from one timed request.
#[derive(Clone, Copy, Debug, PartialEq, Eq, Structural)]
pub enum Exchange {
    /// A response with this status arrived after this many microseconds.
    Response { status: u16, elapsed_micros: u64 },
    /// The request could not be carried to the target or back.
    Transport,
    /// No response arrived within the time allowed.
    Timeout,
}

/// The status is one of success: 200 to 299.
pub open spec fn success_status(status: u16) -> bool {
    200 <= status < 300
}

/// The outcome that an exchange counts as: a duration where a response of
/// success arrived, a failure otherwise.
pub open spec fn outcome_of(exchange: Exchange) -> AttemptOutcome {
    match exchange {
        Exchange::Response { status, elapsed_micros } => if success_status(status) {
            AttemptOutcome::Completed(elapsed_micros)
        } else {
            AttemptOutcome::Failed(ProbeFailure::Status)
        },
        Exchange::Transport => AttemptOutcome::Failed(ProbeFailure::Transport),
        Exchange::Timeout => AttemptOutcome::Failed(ProbeFailure::Timeout),
    }
}

/// The reason given for a session that could not be set up.
pub open spec fn session_failure_text(stage: SessionStage, detail: Seq<char>) -> Seq<char> {
    match stage {
        SessionStage::Proxy => "Failed to create proxy: "@ + detail,
        SessionStage::Client => "Failed to create client: "@ + detail,
    }
}

/// The address of the proxy of a node: remote name resolution through a
/// SOCKS5 proxy on the local machine.
pub open spec fn proxy_address_text(port: u16) -> Seq<char> {
    "socks5h://127.0.0.1:"@ + decimal(port as nat)
}

/// The address that answers a download of `bytes` bytes.
pub open spec fn download_target_text(bytes: u32) -> Seq<char> {
    "https://speed.cloudflare.com/__down?bytes="@ + decimal(bytes as nat)
}

/// Whether the status is one of success.
pub fn is_success_status(status: u16) -> (success: bool)
    ensures
        success == success_status(status),
{
    200 <= status && status < 300
}

/// The outcome that an exchange counts as.
pub fn attempt_outcome(exchange: Exchange) -> (outcome: AttemptOutcome)
    ensures
        outcome == outcome_of(exchange),
{
    match exchange {
        Exchange::Response { status, elapsed_micros } => {
            if is_success_status(status) {
                AttemptOutcome::Completed(elapsed_micros)
            } else {
                AttemptOutcome::Failed(ProbeFailure::Status)
            }
        },
        Exchange::Transport => AttemptOutcome::Failed(ProbeFailure::Transport),
        Exchange::Timeout => AttemptOutcome::Failed(ProbeFailure::Timeout),
    }
}

/// The reason given for a session that could not be set up.
pub fn session_failure(stage: SessionStage, detail: &str) -> (text: String)
    ensures
        text@ == session_failure_text(stage, detail@),
{
    match stage {
        SessionStage::Proxy => prefixed("Failed to create proxy: ", detail),
        SessionStage::Client => prefixed("Failed to create client: ", detail),
    }
}

/// The address of the proxy of a node.
pub fn proxy_address(port: u16) -> (address: String)
    ensures
        address@ == proxy_address_text(port),
{
    let mut address = String::from_str("socks5h://127.0.0.1:");
    append_decimal(&mut address, port as u128);
    address
}

/// The address that latency is probed against.
pub fn latency_target() -> (address: String)
    ensures
        address@ == "https://www.cloudflare.com/cdn-cgi/trace"@,
{
    String::from_str("https://www.cloudflare.com/cdn-cgi/trace")
}

/// The address that answers a download of `bytes` bytes.
pub fn download_target(bytes: u32) -> (address: String)
    ensures
        address@ == download_target_text(bytes),
{
    let mut address = String::from_str("https://speed.cloudflare.com/__down?bytes=");
    append_decimal(&mut address, bytes as u128);
    address
}

/// What the prober is to do next.
#[derive(Clone, Copy, Debug, PartialEq, Eq, Structural)]
pub enum ProbeAction {
    /// Send the untimed warm-up request and discard whatever comes of it.
    WarmUp,
    /// Send one timed request and record its outcome.
    Attempt,
    /// Send nothing more.
    Stop,
}

/// The position of the first failed attempt, if any attempt failed.
pub open spec fn first_failure(outcomes: Seq<AttemptOutcome>) -> Option<int> {
    if exists|i: int| 0 <= i < outcomes.len() && outcomes[i] is Failed {
        Some(
            choose|i: int|
                0 <= i < outcomes.len() && outcomes[i] is Failed && forall|j: int|
                    0 <= j < i ==> outcomes[j] is Completed,
        )
    } else {
        None
    }
}

/// Only the last of the outcomes may be a failure.
pub open spec fn stops_at_failure(outcomes: Seq<AttemptOutcome>) -> bool {
    forall|i: int| 0 <= i < outcomes.len() - 1 ==> outcomes[i] is Completed
}

/// The action that the sampling policy asks for: the warm-up first, then an
/// attempt while the budget lasts and the last attempt did not fail.
pub open spec fn policy(budget: usize, warmed_up: bool, outcomes: Seq<AttemptOutcome>)
    -> ProbeAction {
    if !warmed_up {
        ProbeAction::WarmUp
    } else if outcomes.len() < budget && (outcomes.len() == 0 || outcomes.last() is Completed) {
        ProbeAction::Attempt
    } else {
        ProbeAction::Stop
    }
}

/// The attempts made on one node so far, and the budget they come from.
pub struct LatencyProbe {
    budget: usize,
    warmed_up: bool,
    outcomes: Vec<AttemptOutcome>,
}

impl LatencyProbe {
    /// The number of timed requests allowed.
    pub closed spec fn budget(&self) -> usize {
        self.budget
    }

    /// Whether the warm-up request has been made.
    pub closed spec fn warmed_up(&self) -> bool {
        self.warmed_up
    }

    /// The outcomes recorded so far, in the order they were made.
    pub closed spec fn recorded(&self) -> Seq<AttemptOutcome> {
        self.outcomes@
    }

    /// No attempt is recorded before the warm-up or beyond the budget, and
    /// none after a failure.
    pub open spec fn well_formed(&self) -> bool {
        &&& self.recorded().len() <= self.budget()
        &&& stops_at_failure(self.recorded())
        &&& !self.warmed_up() ==> self.recorded().len() == 0
    }

    #[verifier::type_invariant]
    spec fn holds_policy(&self) -> bool {
        self.well_formed()
    }

    /// The action that the policy asks for in this state.
    pub open spec fn next(&self) -> ProbeAction {
        policy(self.budget(), self.warmed_up(), self.recorded())
    }

    /// A probe that may make `budget` timed requests and has made none.
    pub fn new(budget: usize) -> (probe: LatencyProbe)
        ensures
            probe.well_formed(),
            probe.budget() == budget,
            !probe.warmed_up(),
            probe.recorded() == Seq::<AttemptOutcome>::empty(),
    {
        LatencyProbe { budget, warmed_up: false, outcomes: Vec::new() }
    }

    /// The action to take next.
    pub fn next_action(&self) -> (action: ProbeAction)
        ensures
            action == self.next(),
    {
        let made = self.outcomes.len();
        if !self.warmed_up {
            ProbeAction::WarmUp
        } else if made < self.budget && (made == 0 || self.is_completed(made - 1)) {
            ProbeAction::Attempt
        } else {
            ProbeAction::Stop
        }
    }

    fn is_completed(&self, index: usize) -> (completed: bool)
        requires
            index < self.recorded().len(),
        ensures
            completed == (self.recorded()[index as int] is Completed),
    {
        match self.outcomes[index] {
            AttemptOutcome::Completed(_) => true,
            AttemptOutcome::Failed(_) => false,
        }
    }

    /// Notes that the warm-up request was made; its outcome counts for nothing.
    pub fn warmed(self) -> (probe: LatencyProbe)
        ensures
            probe.well_formed(),
            probe.budget() == self.budget(),
            probe.warmed_up(),
            probe.recorded() == self.recorded(),
    {
        proof {
            use_type_invariant(&self);
        }
        LatencyProbe { budget: self.budget, warmed_up: true, outcomes: self.outcomes }
    }

    /// Records the outcome of a timed request.
    ///
    /// The outcome is kept where the policy asked for an attempt, and dropped
    /// where it did not: before the warm-up, after a failure, or with the
    /// budget spent.
    pub fn record(self, outcome: AttemptOutcome) -> (probe: LatencyProbe)
        ensures
            probe.well_formed(),
            probe.budget() == self.budget(),
            probe.warmed_up() == self.warmed_up(),
            probe.recorded() == if self.next() is Attempt {
                self.recorded().push(outcome)
            } else {
                self.recorded()
            },
    {
        proof {
            use_type_invariant(&self);
        }
        match self.next_action() {
            ProbeAction::Attempt => {
                let mut outcomes = self.outcomes;
                outcomes.push(outcome);
                LatencyProbe { budget: self.budget, warmed_up: self.warmed_up, outcomes }
            },
            _ => self,
        }
    }

    /// Whether the warm-up request has been made.
    pub fn is_warmed_up(&self) -> (warmed_up: bool)
        ensures
            warmed_up == self.warmed_up(),
    {
        self.warmed_up
    }

    /// The outcomes recorded so far, in the order they were made.
    pub fn outcomes(&self) -> (outcomes: &Vec<AttemptOutcome>)
        ensures
            outcomes@ == self.recorded(),
    {
        &self.outcomes
    }

    /// The number of timed requests made so far.
    pub fn attempts(&self) -> (made: usize)
        ensures
            made == self.recorded().len(),
            made <= self.budget(),
    {
        proof {
            use_type_invariant(self);
        }
        self.outcomes.len()
    }

    /// The latency classification of the attempts recorded so far.
    pub fn classify(&self) -> (result: LatencyResult)
        ensures
            result == latency_of(self.recorded()),
            result.well_formed(),
    {
        reduce_latency(&self.outcomes)
    }
}

/// In a sequence where only the last outcome may be a failure, a failure is
/// the first one and the sequence ends with it.
pub proof fn lemma_failure_ends_sampling(outcomes: Seq<AttemptOutcome>)
    requires
        stops_at_failure(outcomes),
    ensures
        first_failure(outcomes) is Some ==> first_failure(outcomes)->Some_0 + 1 == outcomes.len(),
        first_failure(outcomes) is None ==> durations(outcomes).len() == outcomes.len(),
        first_failure(outcomes) is Some ==> durations(outcomes).len() == outcomes.len() - 1,
{
    lemma_durations_of_completed(outcomes);
    if exists|i: int| 0 <= i < outcomes.len() && outcomes[i] is Failed {
        let i = choose|i: int| 0 <= i < outcomes.len() && outcomes[i] is Failed;
        assert(i == outcomes.len() - 1);
        assert(forall|j: int| 0 <= j < i ==> outcomes[j] is Completed);
    }
}

/// Where every outcome but possibly the last is a success, the successes are
/// all of them, or all but the last.
proof fn lemma_durations_of_completed(outcomes: Seq<AttemptOutcome>)
    requires
        stops_at_failure(outcomes),
    ensures
        durations(outcomes).len() == if outcomes.len() > 0 && outcomes.last() is Failed {
            outcomes.len() - 1
        } else {
            outcomes.len() as int
        },
    decreases outcomes.len(),
{
    if outcomes.len() > 0 {
        let earlier = outcomes.drop_last();
        assert forall|i: int| 0 <= i < earlier.len() implies earlier[i] is Completed by {
            assert(earlier[i] == outcomes[i]);
        }
        lemma_durations_of_completed(earlier);
    }
}

/// Early exit: in every state of a probe the attempts made do not exceed the
/// budget, and once an attempt has failed their number is the position of
/// that first failure, counted from one. An `Unstable` classification
/// carries that number as its total.
pub proof fn lemma_attempts_stop_at_first_failure(probe: LatencyProbe)
    requires
        probe.well_formed(),
    ensures
        probe.recorded().len() <= probe.budget(),
        first_failure(probe.recorded()) is Some ==> probe.recorded().len() == first_failure(
            probe.recorded(),
        )->Some_0 + 1 && probe.next() is Stop,
        latency_of(probe.recorded()) is Unstable ==> latency_of(probe.recorded())->total_count
            == probe.recorded().len(),
{
    lemma_failure_ends_sampling(probe.recorded());
}

} // verus!
