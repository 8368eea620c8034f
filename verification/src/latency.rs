//! Reduction of timed round trips to a latency classification.

use vstd::prelude::*;
use vstd::relations::*;
use vstd::seq_lib::*;

verus! {

/// Why a timed round trip produced no duration.
#[derive(Clone, Copy, Debug, PartialEq, Eq, Structural)]
pub enum ProbeFailure {
    /// The request could not be carried to the target or back.
    Transport,
    /// A response arrived, with a status outside the success range.
    Status,
    /// No response arrived within the time allowed.
    Timeout,
}

/// What one timed round trip gave.
#[derive(Clone, Copy, Debug, PartialEq, Eq, Structural)]
pub enum AttemptOutcome {
    /// The round trip succeeded and took this many microseconds.
    Completed(u64),
    /// The round trip failed.
    Failed(ProbeFailure),
}

/// An arithmetic mean, kept exactly as the sum of the samples and their number.
#[derive(Clone, Copy, Debug, PartialEq, Eq, Structural)]
pub struct Mean {
    /// Sum of the samples, in microseconds.
    pub total: u128,
    /// Number of samples.
    pub count: usize,
}

/// The latency classification of one node.
#[derive(Clone, Debug, PartialEq, Eq)]
pub enum LatencyResult {
    /// At least three round trips succeeded; all figures are in microseconds
    /// and derive from the successful round trips only.
    Success { median: u64, average: Mean, minimum: u64, maximum: u64 },
    /// One or two round trips succeeded, out of `total_count` that were made.
    Unstable { valid_count: usize, total_count: usize },
    /// No round trip succeeded.
    AllFailed,
    /// The measurement session could not be set up at all.
    SessionError(String),
}

/// A `LatencyResult` with its text as a sequence of characters.
pub enum LatencyView {
    Success { median: u64, average: Mean, minimum: u64, maximum: u64 },
    Unstable { valid_count: usize, total_count: usize },
    AllFailed,
    SessionError(Seq<char>),
}

impl View for LatencyResult {
    type V = LatencyView;

    open spec fn view(&self) -> LatencyView {
        match *self {
            LatencyResult::Success { median, average, minimum, maximum } => LatencyView::Success {
                median,
                average,
                minimum,
                maximum,
            },
            LatencyResult::Unstable { valid_count, total_count } => LatencyView::Unstable {
                valid_count,
                total_count,
            },
            LatencyResult::AllFailed => LatencyView::AllFailed,
            LatencyResult::SessionError(reason) => LatencyView::SessionError(reason@),
        }
    }
}

impl LatencyResult {
    /// What holds of every classification that a reduction gives: the
    /// statistics of a `Success` are ordered and its mean lies between the
    /// extremes, and an `Unstable` counts one or two successes among the
    /// attempts made.
    pub open spec fn well_formed(&self) -> bool {
        match *self {
            LatencyResult::Success { median, average, minimum, maximum } => {
                &&& minimum <= median <= maximum
                &&& average.count >= 3
                &&& minimum * average.count <= average.total <= maximum * average.count
            },
            LatencyResult::Unstable { valid_count, total_count } => {
                0 < valid_count < 3 && valid_count <= total_count
            },
            _ => true,
        }
    }
}

/// The order by which durations are arranged.
pub open spec fn at_most() -> spec_fn(u64, u64) -> bool {
    |a: u64, b: u64| a <= b
}

/// The durations of the successful attempts, in the order they were made.
pub open spec fn durations(outcomes: Seq<AttemptOutcome>) -> Seq<u64>
    decreases outcomes.len(),
{
    if outcomes.len() == 0 {
        Seq::empty()
    } else {
        let earlier = durations(outcomes.drop_last());
        match outcomes.last() {
            AttemptOutcome::Completed(d) => earlier.push(d),
            AttemptOutcome::Failed(_) => earlier,
        }
    }
}

/// The sum of a sequence of durations.
pub open spec fn sum(samples: Seq<u64>) -> int
    decreases samples.len(),
{
    if samples.len() == 0 {
        0
    } else {
        sum(samples.drop_last()) + samples.last()
    }
}

/// The samples arranged from the smallest to the largest.
pub open spec fn ascending(samples: Seq<u64>) -> Seq<u64> {
    samples.sort_by(at_most())
}

/// The classification that a sequence of attempt outcomes reduces to.
pub open spec fn latency_of(outcomes: Seq<AttemptOutcome>) -> LatencyResult {
    let valid = durations(outcomes);
    let n = valid.len();
    if n == 0 {
        LatencyResult::AllFailed
    } else if n < 3 {
        LatencyResult::Unstable { valid_count: n as usize, total_count: outcomes.len() as usize }
    } else {
        let sorted = ascending(valid);
        LatencyResult::Success {
            median: sorted[(n / 2) as int],
            average: Mean { total: sum(valid) as u128, count: n as usize },
            minimum: sorted[0],
            maximum: sorted[n - 1],
        }
    }
}

/// `ascending(samples)` is the one arrangement of `samples` in which no
/// element is followed by a smaller one.
pub proof fn lemma_ascending_is_unique(samples: Seq<u64>, arranged: Seq<u64>)
    requires
        arranged.to_multiset() == samples.to_multiset(),
        forall|i: int, j: int| 0 <= i < j < arranged.len() ==> arranged[i] <= arranged[j],
    ensures
        arranged == ascending(samples),
{
    assert(total_ordering(at_most()));
    samples.lemma_sort_by_ensures(at_most());
    assert(sorted_by(arranged, at_most()));
    lemma_sorted_unique(arranged, ascending(samples), at_most());
}

/// `ascending(samples)` holds the same samples, each as often, and is in
/// non-decreasing order.
pub proof fn lemma_ascending_arranges(samples: Seq<u64>)
    ensures
        ascending(samples).to_multiset() == samples.to_multiset(),
        ascending(samples).len() == samples.len(),
        forall|i: int, j: int|
            0 <= i < j < samples.len() ==> ascending(samples)[i] <= ascending(samples)[j],
{
    assert(total_ordering(at_most()));
    samples.lemma_sort_by_ensures(at_most());
    to_multiset_len(samples);
    to_multiset_len(ascending(samples));
    let sorted = ascending(samples);
    assert forall|i: int, j: int| 0 <= i < j < samples.len() implies sorted[i] <= sorted[j] by {
        assert(at_most()(sorted[i], sorted[j]));
    }
}

/// Moving the element at `from` to the position `to` keeps every element
/// as often as it was.
proof fn lemma_move_keeps_elements(s: Seq<u64>, from: int, to: int)
    requires
        0 <= to <= from < s.len(),
    ensures
        s.remove(from).insert(to, s[from]).to_multiset() == s.to_multiset(),
{
    broadcast use vstd::multiset::group_multiset_axioms;

    to_multiset_remove(s, from);
    to_multiset_insert(s.remove(from), to, s[from]);
    s.to_multiset_ensures();
    assert(s.to_multiset().count(s[from]) > 0);
    assert(s.to_multiset().remove(s[from]).insert(s[from]) =~= s.to_multiset());
}

/// Arranges the samples from the smallest to the largest.
pub fn sort_ascending(samples: &mut Vec<u64>)
    ensures
        final(samples)@ == ascending(old(samples)@),
{
    let n = samples.len();
    let mut i: usize = 0;
    while i < n
        invariant
            i <= n,
            samples.len() == n,
            samples@.to_multiset() == old(samples)@.to_multiset(),
            forall|a: int, b: int| 0 <= a < b < i ==> samples@[a] <= samples@[b],
        decreases n - i,
    {
        let x = samples[i];
        let mut j: usize = i;
        while j > 0 && samples[j - 1] > x
            invariant
                j <= i < n,
                samples.len() == n,
                x == samples@[i as int],
                forall|k: int| j <= k < i ==> samples@[k] > x,
            decreases j,
        {
            j -= 1;
        }
        let ghost before = samples@;
        samples.remove(i);
        samples.insert(j, x);
        proof {
            lemma_move_keeps_elements(before, i as int, j as int);
            assert forall|a: int, b: int| 0 <= a < b < i + 1 implies samples@[a] <= samples@[b] by {
                if a < j {
                    assert(samples@[a] == before[a]);
                    if j > 0 {
                        assert(before[a] <= before[j - 1]);
                    }
                }
                if b > j {
                    assert(samples@[b] == before[b - 1]);
                }
            }
        }
        i += 1;
    }
    proof {
        lemma_ascending_is_unique(old(samples)@, samples@);
    }
}

/// Gathers the durations of the successful attempts, in order.
fn collect_durations(outcomes: &Vec<AttemptOutcome>) -> (valid: Vec<u64>)
    ensures
        valid@ == durations(outcomes@),
{
    let mut valid: Vec<u64> = Vec::new();
    let mut i: usize = 0;
    while i < outcomes.len()
        invariant
            i <= outcomes.len(),
            valid@ == durations(outcomes@.take(i as int)),
        decreases outcomes.len() - i,
    {
        proof {
            assert(outcomes@.take(i + 1).drop_last() == outcomes@.take(i as int));
        }
        match outcomes[i] {
            AttemptOutcome::Completed(d) => valid.push(d),
            AttemptOutcome::Failed(_) => {},
        }
        i += 1;
    }
    proof {
        assert(outcomes@.take(i as int) == outcomes@);
    }
    valid
}

/// A sum of durations is at most as many times the largest value a duration can take.
pub proof fn lemma_sum_bounds(samples: Seq<u64>)
    ensures
        0 <= sum(samples) <= samples.len() * u64::MAX,
    decreases samples.len(),
{
    if samples.len() > 0 {
        lemma_sum_bounds(samples.drop_last());
        assert((samples.len() - 1) * u64::MAX + u64::MAX == samples.len() * u64::MAX)
            by (nonlinear_arith);
    }
}

/// Adds up the samples.
fn sum_durations(samples: &Vec<u64>) -> (total: u128)
    ensures
        total == sum(samples@),
{
    let mut total: u128 = 0;
    let mut i: usize = 0;
    while i < samples.len()
        invariant
            i <= samples.len(),
            total == sum(samples@.take(i as int)),
        decreases samples.len() - i,
    {
        proof {
            assert(samples@.take(i + 1).drop_last() == samples@.take(i as int));
            lemma_sum_bounds(samples@.take(i + 1));
            assert((i + 1) * u64::MAX <= usize::MAX * u64::MAX) by (nonlinear_arith)
                requires
                    i + 1 <= usize::MAX,
            ;
            assert(usize::MAX * u64::MAX < u128::MAX) by (nonlinear_arith)
                requires
                    usize::MAX <= u64::MAX,
            ;
        }
        total = total + samples[i] as u128;
        i += 1;
    }
    proof {
        assert(samples@.take(i as int) == samples@);
    }
    total
}

/// Reduces the outcomes of one node's timed attempts to its latency
/// classification.
///
/// No successful attempt gives `AllFailed`, one or two give `Unstable` with
/// the number of attempts made, and three or more give the statistics of the
/// successful attempts: the smallest, the largest, the one at position
/// `n / 2` of their ascending arrangement, and their exact mean.
pub fn reduce_latency(outcomes: &Vec<AttemptOutcome>) -> (result: LatencyResult)
    ensures
        result == latency_of(outcomes@),
        result.well_formed(),
{
    proof {
        assert(outcomes@.len() == outcomes.len());
        lemma_reduction_well_formed(outcomes@);
    }
    let mut valid = collect_durations(outcomes);
    let n = valid.len();
    if n == 0 {
        return LatencyResult::AllFailed;
    }
    if n < 3 {
        return LatencyResult::Unstable { valid_count: n, total_count: outcomes.len() };
    }
    let total = sum_durations(&valid);
    proof {
        lemma_ascending_arranges(valid@);
    }
    sort_ascending(&mut valid);
    LatencyResult::Success {
        median: valid[n / 2],
        average: Mean { total, count: n },
        minimum: valid[0],
        maximum: valid[n - 1],
    }
}

/// The successful attempts are no more than the attempts.
pub proof fn lemma_durations_len(outcomes: Seq<AttemptOutcome>)
    ensures
        durations(outcomes).len() <= outcomes.len(),
    decreases outcomes.len(),
{
    if outcomes.len() > 0 {
        lemma_durations_len(outcomes.drop_last());
    }
}

/// A sum of samples that all lie between two bounds lies between as many
/// times those bounds.
pub proof fn lemma_sum_between(samples: Seq<u64>, low: u64, high: u64)
    requires
        forall|i: int| 0 <= i < samples.len() ==> low <= #[trigger] samples[i] <= high,
    ensures
        low * samples.len() <= sum(samples) <= high * samples.len(),
    decreases samples.len(),
{
    if samples.len() > 0 {
        let rest = samples.drop_last();
        assert forall|i: int| 0 <= i < rest.len() implies low <= #[trigger] rest[i] <= high by {
            assert(rest[i] == samples[i]);
        }
        lemma_sum_between(rest, low, high);
        assert(low * (samples.len() - 1) + low == low * samples.len()) by (nonlinear_arith);
        assert(high * (samples.len() - 1) + high == high * samples.len()) by (nonlinear_arith);
    } else {
        assert(low * samples.len() == 0 && high * samples.len() == 0) by (nonlinear_arith)
            requires
                samples.len() == 0,
        ;
    }
}

/// The first and the last element of the ascending arrangement bound every
/// sample, and every element of the arrangement is one of the samples.
pub proof fn lemma_extremes_bound_samples(samples: Seq<u64>)
    requires
        samples.len() > 0,
    ensures
        forall|i: int|
            0 <= i < samples.len() ==> ascending(samples)[0] <= #[trigger] samples[i]
                <= ascending(samples)[samples.len() - 1],
        forall|k: int|
            0 <= k < samples.len() ==> samples.contains(#[trigger] ascending(samples)[k]),
{
    broadcast use vstd::multiset::group_multiset_axioms;

    let sorted = ascending(samples);
    lemma_ascending_arranges(samples);
    assert forall|i: int| 0 <= i < samples.len() implies sorted[0] <= #[trigger] samples[i]
        <= sorted[samples.len() - 1] by {
        to_multiset_contains(samples, samples[i]);
        to_multiset_contains(sorted, samples[i]);
        assert(samples.contains(samples[i]));
        let k = choose|k: int| 0 <= k < sorted.len() && sorted[k] == samples[i];
        assert(sorted[0] <= sorted[k] <= sorted[samples.len() - 1]);
    }
    assert forall|k: int| 0 <= k < samples.len() implies samples.contains(
        #[trigger] sorted[k],
    ) by {
        to_multiset_contains(samples, sorted[k]);
        to_multiset_contains(sorted, sorted[k]);
        assert(sorted.contains(sorted[k]));
    }
}

/// Every reduction is well formed: in a `Success` the minimum is at most the
/// median, the median at most the maximum, and the mean lies between the
/// minimum and the maximum; an `Unstable` counts one or two successes.
pub proof fn lemma_reduction_well_formed(outcomes: Seq<AttemptOutcome>)
    requires
        outcomes.len() <= usize::MAX,
    ensures
        latency_of(outcomes).well_formed(),
{
    let valid = durations(outcomes);
    let n = valid.len();
    lemma_durations_len(outcomes);
    if n >= 3 {
        let sorted = ascending(valid);
        lemma_ascending_arranges(valid);
        lemma_extremes_bound_samples(valid);
        lemma_sum_between(valid, sorted[0], sorted[n - 1]);
        lemma_sum_bounds(valid);
        assert(n * u64::MAX <= usize::MAX * u64::MAX) by (nonlinear_arith)
            requires
                n <= usize::MAX,
        ;
        assert(usize::MAX * u64::MAX < u128::MAX) by (nonlinear_arith)
            requires
                usize::MAX <= u64::MAX,
        ;
        assert(0 <= n / 2 < n);
    }
}

/// In a `Success` the minimum is the least and the maximum the greatest of
/// the successful durations, and the median is one of them.
pub proof fn lemma_success_statistics(outcomes: Seq<AttemptOutcome>)
    requires
        latency_of(outcomes) is Success,
    ensures
        forall|i: int|
            0 <= i < durations(outcomes).len() ==> latency_of(outcomes)->minimum
                <= #[trigger] durations(outcomes)[i] <= latency_of(outcomes)->maximum,
        durations(outcomes).contains(latency_of(outcomes)->minimum),
        durations(outcomes).contains(latency_of(outcomes)->median),
        durations(outcomes).contains(latency_of(outcomes)->maximum),
{
    let valid = durations(outcomes);
    lemma_extremes_bound_samples(valid);
    lemma_ascending_arranges(valid);
    assert(0 <= valid.len() / 2 < valid.len());
}

/// Which classification comes out is decided by the number of successful
/// attempts alone: none gives `AllFailed`, one or two give `Unstable`, three
/// or more give `Success`. A reduction never gives `SessionError`.
pub proof fn lemma_classification(outcomes: Seq<AttemptOutcome>)
    ensures
        latency_of(outcomes) is AllFailed <==> durations(outcomes).len() == 0,
        latency_of(outcomes) is Unstable <==> 0 < durations(outcomes).len() < 3,
        latency_of(outcomes) is Success <==> durations(outcomes).len() >= 3,
        !(latency_of(outcomes) is SessionError),
{
}

/// Once at least one attempt was made, `AllFailed` says that an attempt was
/// made and none succeeded, and `Unstable` carries the number of successes
/// and the number of attempts.
pub proof fn lemma_classification_of_attempts(outcomes: Seq<AttemptOutcome>)
    requires
        0 < outcomes.len() <= usize::MAX,
    ensures
        latency_of(outcomes) is AllFailed <==> durations(outcomes).len() == 0 && outcomes.len()
            >= 1,
        latency_of(outcomes) is Unstable <==> 0 < durations(outcomes).len() < 3,
        latency_of(outcomes) is Unstable ==> latency_of(outcomes)->valid_count == durations(
            outcomes,
        ).len() && latency_of(outcomes)->total_count == outcomes.len(),
{
}

/// Reducing the same outcomes again gives the same classification, field for
/// field.
pub proof fn lemma_reduction_repeats(
    outcomes: Seq<AttemptOutcome>,
    first: LatencyResult,
    second: LatencyResult,
)
    requires
        first == latency_of(outcomes),
        second == latency_of(outcomes),
    ensures
        first == second,
{
}

} // verus!
