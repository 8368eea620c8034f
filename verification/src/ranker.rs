//! The order in which measured nodes are presented.

use vstd::prelude::*;
use vstd::seq_lib::*;
use vstd::set_lib::*;
use crate::evaluator::NodeResult;
use crate::latency::LatencyResult;
use crate::throughput::{lemma_rate_order_transitive, Rate, SpeedResult};

verus! {

/// The rate of a node whose throughput was measured with success.
pub open spec fn rate_of(node: NodeResult) -> Option<Rate> {
    match node.speed {
        Some(SpeedResult::Success(rate)) => Some(rate),
        _ => None,
    }
}

/// The median of a node whose latency was measured with success.
pub open spec fn median_of(node: NodeResult) -> Option<u64> {
    match node.latency {
        LatencyResult::Success { median, average, minimum, maximum } => Some(median),
        _ => None,
    }
}

/// `a` is strictly better than `b` by latency: its median is lower, or it has
/// one and `b` has none.
pub open spec fn better_latency(a: NodeResult, b: NodeResult) -> bool {
    match (median_of(a), median_of(b)) {
        (Some(ours), Some(theirs)) => ours < theirs,
        (Some(_), None) => true,
        _ => false,
    }
}

/// `a` must stand before `b`.
///
/// By throughput, a node with a rate stands before every node without one;
/// two nodes with rates go by the higher rate, and two without go by latency.
/// Otherwise latency alone decides.
pub open spec fn ranks_before(by_throughput: bool, a: NodeResult, b: NodeResult) -> bool {
    if by_throughput {
        match (rate_of(a), rate_of(b)) {
            (Some(ours), Some(theirs)) => ours.exceeds(theirs),
            (Some(_), None) => true,
            (None, Some(_)) => false,
            (None, None) => better_latency(a, b),
        }
    } else {
        better_latency(a, b)
    }
}

/// Every rate among the nodes is a number, so that any two nodes compare.
pub open spec fn comparable(nodes: Seq<NodeResult>) -> bool {
    forall|i: int|
        0 <= i < nodes.len() ==> (#[trigger] rate_of(nodes[i]) matches Some(rate)
            ==> rate.defined())
}

/// No node stands behind one that it must stand before.
pub open spec fn ranked(by_throughput: bool, nodes: Seq<NodeResult>) -> bool {
    forall|i: int, j: int|
        0 <= i < j < nodes.len() ==> !ranks_before(by_throughput, nodes[j], nodes[i])
}

/// `after` holds the nodes of `before` in another order: the node at `i` of
/// `after` stood at `origin[i]` of `before`, and no position is used twice.
pub open spec fn rearranges(before: Seq<NodeResult>, after: Seq<NodeResult>, origin: Seq<int>)
    -> bool {
    &&& after.len() == before.len()
    &&& origin.len() == before.len()
    &&& forall|i: int|
        0 <= i < after.len() ==> 0 <= #[trigger] origin[i] < before.len() && after[i]
            == before[origin[i]]
    &&& forall|i: int, j: int| 0 <= i < j < after.len() ==> origin[i] != origin[j]
}

/// Two nodes of which neither must stand before the other stand as they
/// stood at first.
pub open spec fn keeps_ties(by_throughput: bool, after: Seq<NodeResult>, origin: Seq<int>)
    -> bool {
    forall|i: int, j: int|
        0 <= i < j < after.len() && !ranks_before(by_throughput, after[i], after[j])
            ==> origin[i] < origin[j]
}

/// The rate of a node whose throughput was measured with success.
pub fn successful_rate(node: &NodeResult) -> (rate: Option<Rate>)
    ensures
        rate == rate_of(*node),
{
    match &node.speed {
        Some(SpeedResult::Success(rate)) => Some(*rate),
        _ => None,
    }
}

/// The median of a node whose latency was measured with success.
pub fn successful_median(node: &NodeResult) -> (median: Option<u64>)
    ensures
        median == median_of(*node),
{
    match &node.latency {
        LatencyResult::Success { median, average, minimum, maximum } => Some(*median),
        _ => None,
    }
}

/// Whether `a` is strictly better than `b` by latency.
pub fn has_better_latency(a: &NodeResult, b: &NodeResult) -> (better: bool)
    ensures
        better == better_latency(*a, *b),
{
    match (successful_median(a), successful_median(b)) {
        (Some(ours), Some(theirs)) => ours < theirs,
        (Some(_), None) => true,
        _ => false,
    }
}

/// Whether `a` must stand before `b`.
pub fn precedes(by_throughput: bool, a: &NodeResult, b: &NodeResult) -> (before: bool)
    ensures
        before == ranks_before(by_throughput, *a, *b),
{
    if by_throughput {
        match (successful_rate(a), successful_rate(b)) {
            (Some(ours), Some(theirs)) => ours.faster_than(&theirs),
            (Some(_), None) => true,
            (None, Some(_)) => false,
            (None, None) => has_better_latency(a, b),
        }
    } else {
        has_better_latency(a, b)
    }
}

/// The number of nodes whose throughput was measured with success.
pub open spec fn rated(nodes: Seq<NodeResult>) -> nat
    decreases nodes.len(),
{
    if nodes.len() == 0 {
        0
    } else {
        rated(nodes.drop_last()) + if rate_of(nodes.last()) is Some {
            1nat
        } else {
            0nat
        }
    }
}

/// Counts the nodes whose throughput was measured with success.
pub fn count_rated(nodes: &Vec<NodeResult>) -> (count: usize)
    ensures
        count == rated(nodes@),
        count <= nodes@.len(),
{
    let mut count: usize = 0;
    let mut i: usize = 0;
    while i < nodes.len()
        invariant
            i <= nodes.len(),
            count == rated(nodes@.take(i as int)),
            count <= i,
        decreases nodes.len() - i,
    {
        proof {
            assert(nodes@.take(i + 1).drop_last() == nodes@.take(i as int));
        }
        if successful_rate(&nodes[i]).is_some() {
            count += 1;
        }
        i += 1;
    }
    proof {
        assert(nodes@.take(i as int) == nodes@);
    }
    count
}

/// Of two nodes at most one must stand before the other.
pub proof fn lemma_ranks_before_asymmetric(by_throughput: bool, a: NodeResult, b: NodeResult)
    ensures
        !(ranks_before(by_throughput, a, b) && ranks_before(by_throughput, b, a)),
{
}

/// If `a` need not stand before `b`, nor `b` before `c`, and the rate of `b`
/// is a number, then `a` need not stand before `c`.
pub proof fn lemma_ranks_chain(by_throughput: bool, a: NodeResult, b: NodeResult, c: NodeResult)
    requires
        rate_of(b) matches Some(rate) ==> rate.defined(),
        !ranks_before(by_throughput, a, b),
        !ranks_before(by_throughput, b, c),
    ensures
        !ranks_before(by_throughput, a, c),
{
    if by_throughput {
        if let (Some(first), Some(middle), Some(last)) = (rate_of(a), rate_of(b), rate_of(c)) {
            lemma_rate_order_transitive(first, middle, last);
        }
    }
}

/// By throughput, a node with a rate stands before every node without one,
/// whatever the latency of either, and of two nodes with rates the one with
/// the higher rate stands first.
pub proof fn lemma_rate_decides(a: NodeResult, b: NodeResult)
    requires
        rate_of(a) is Some,
    ensures
        rate_of(b) is None ==> ranks_before(true, a, b) && !ranks_before(true, b, a),
        rate_of(b) matches Some(theirs) ==> (ranks_before(true, a, b) <==> rate_of(
            a,
        )->Some_0.exceeds(theirs)),
{
}

/// Where no rate decides, latency does: a node with a median stands before
/// every node without one, and of two nodes with medians the one with the
/// lower median stands first. Without throughput no rate ever decides.
pub proof fn lemma_latency_decides(by_throughput: bool, a: NodeResult, b: NodeResult)
    requires
        !by_throughput || (rate_of(a) is None && rate_of(b) is None),
    ensures
        ranks_before(by_throughput, a, b) <==> better_latency(a, b),
        median_of(a) is Some && median_of(b) is None ==> ranks_before(by_throughput, a, b),
        median_of(a) is None ==> !ranks_before(by_throughput, a, b),
        median_of(a) is Some && median_of(b) is Some ==> (ranks_before(by_throughput, a, b)
            <==> median_of(a)->Some_0 < median_of(b)->Some_0),
{
}

/// In a ranked sequence a node that must stand before another does.
pub proof fn lemma_ranked_positions(by_throughput: bool, nodes: Seq<NodeResult>, i: int, j: int)
    requires
        ranked(by_throughput, nodes),
        0 <= i < nodes.len(),
        0 <= j < nodes.len(),
        ranks_before(by_throughput, nodes[i], nodes[j]),
    ensures
        i < j,
{
    lemma_ranks_before_asymmetric(by_throughput, nodes[i], nodes[j]);
}

/// Origins that are all different and all within the length name every
/// position.
proof fn lemma_origins_cover(origin: Seq<int>, position: int)
    requires
        forall|i: int| 0 <= i < origin.len() ==> 0 <= #[trigger] origin[i] < origin.len(),
        forall|i: int, j: int| 0 <= i < j < origin.len() ==> origin[i] != origin[j],
        0 <= position < origin.len(),
    ensures
        exists|p: int| 0 <= p < origin.len() && origin[p] == position,
{
    let n = origin.len() as int;
    let range = set_int_range(0, n);
    assert(origin.no_duplicates()) by {
        assert forall|i: int, j: int|
            0 <= i < origin.len() && 0 <= j < origin.len() && i != j implies origin[i]
            != origin[j] by {
            if i < j {
                assert(origin[i] != origin[j]);
            } else {
                assert(origin[j] != origin[i]);
            }
        }
    }
    origin.unique_seq_to_set();
    lemma_int_range(0, n);
    assert forall|a: int| origin.to_set().contains(a) implies range.contains(a) by {
        let p = choose|p: int| 0 <= p < origin.len() && origin[p] == a;
        assert(0 <= origin[p] < origin.len());
    }
    lemma_len_subset(origin.to_set(), range);
    lemma_subset_equality(origin.to_set(), range);
    assert(range.contains(position));
    assert(origin.contains(position));
}

/// Two ranked rearrangements of the same nodes that both keep ties in order
/// take their nodes from the same positions, up to any given length.
proof fn lemma_origins_agree(
    by_throughput: bool,
    before: Seq<NodeResult>,
    first: Seq<NodeResult>,
    first_origin: Seq<int>,
    second: Seq<NodeResult>,
    second_origin: Seq<int>,
    upto: int,
)
    requires
        rearranges(before, first, first_origin),
        ranked(by_throughput, first),
        keeps_ties(by_throughput, first, first_origin),
        rearranges(before, second, second_origin),
        ranked(by_throughput, second),
        keeps_ties(by_throughput, second, second_origin),
        0 <= upto <= before.len(),
    ensures
        forall|p: int| 0 <= p < upto ==> first_origin[p] == second_origin[p],
    decreases upto,
{
    if upto > 0 {
        lemma_origins_agree(
            by_throughput,
            before,
            first,
            first_origin,
            second,
            second_origin,
            upto - 1,
        );
        let p = upto - 1;
        let a = first_origin[p];
        let b = second_origin[p];
        if a != b {
            lemma_origins_cover(second_origin, a);
            let q = choose|q: int| 0 <= q < second_origin.len() && second_origin[q] == a;
            if q < p {
                assert(first_origin[q] == second_origin[q]);
                assert(first_origin[q] != first_origin[p]);
            }
            assert(p < q);
            lemma_origins_cover(first_origin, b);
            let r = choose|r: int| 0 <= r < first_origin.len() && first_origin[r] == b;
            if r < p {
                assert(first_origin[r] == second_origin[r]);
                assert(second_origin[r] != second_origin[p]);
            }
            assert(p < r);
            assert(first[p] == before[a] && first[r] == before[b]);
            assert(second[p] == before[b] && second[q] == before[a]);
            assert(!ranks_before(by_throughput, first[r], first[p]));
            assert(!ranks_before(by_throughput, second[q], second[p]));
            assert(second_origin[p] < second_origin[q]);
            assert(first_origin[p] < first_origin[r]);
        }
    }
}

/// The ranking is decided by the nodes and the order they came in: two
/// rearrangements of the same nodes in which no node stands behind one that
/// it must stand before, and in which ties stand as they stood, are equal.
pub proof fn lemma_ranking_is_unique(
    by_throughput: bool,
    before: Seq<NodeResult>,
    first: Seq<NodeResult>,
    first_origin: Seq<int>,
    second: Seq<NodeResult>,
    second_origin: Seq<int>,
)
    requires
        rearranges(before, first, first_origin),
        ranked(by_throughput, first),
        keeps_ties(by_throughput, first, first_origin),
        rearranges(before, second, second_origin),
        ranked(by_throughput, second),
        keeps_ties(by_throughput, second, second_origin),
    ensures
        first == second,
{
    lemma_origins_agree(
        by_throughput,
        before,
        first,
        first_origin,
        second,
        second_origin,
        before.len() as int,
    );
    assert forall|i: int| 0 <= i < first.len() implies first[i] == second[i] by {
        assert(first[i] == before[first_origin[i]]);
        assert(second[i] == before[second_origin[i]]);
    }
    assert(first =~= second);
}

/// Moving the element at `from` to the position `to` keeps every element as
/// often as it was.
proof fn lemma_move_keeps_nodes(s: Seq<NodeResult>, from: int, to: int)
    requires
        0 <= to <= from < s.len(),
    ensures
        s.remove(from).insert(to, s[from]).to_multiset() == s.to_multiset(),
{
    broadcast use vstd::multiset::group_multiset_axioms;

    to_multiset_remove(s, from);
    to_multiset_insert(s.remove(from), to, s[from]);
    s.to_multiset_ensures();
    assert(s.to_multiset().count(s[from]) > 0);
    assert(s.to_multiset().remove(s[from]).insert(s[from]) =~= s.to_multiset());
}

/// Puts the nodes in the order of presentation.
///
/// The nodes are the same afterwards, each as often as before. Where every
/// rate among them is a number, no node stands behind one that it must stand
/// before, and nodes of which neither must stand before the other keep the
/// order they came in. A rate that is no number compares as equal to every
/// other, and the order is then only a rearrangement.
pub fn rank(results: &mut Vec<NodeResult>, by_throughput: bool)
    ensures
        final(results)@.to_multiset() == old(results)@.to_multiset(),
        final(results)@.len() == old(results)@.len(),
        comparable(old(results)@) ==> ranked(by_throughput, final(results)@),
        exists|origin: Seq<int>| #[trigger]
            rearranges(old(results)@, final(results)@, origin) && (comparable(old(results)@)
                ==> keeps_ties(by_throughput, final(results)@, origin)),
{
    let n = results.len();
    let mut i: usize = 0;
    let ghost mut origin: Seq<int> = Seq::new(n as nat, |k: int| k);
    while i < n
        invariant
            i <= n,
            results.len() == n,
            n == old(results)@.len(),
            results@.to_multiset() == old(results)@.to_multiset(),
            rearranges(old(results)@, results@, origin),
            forall|k: int| i <= k < n ==> origin[k] == k,
            forall|k: int| 0 <= k < i ==> origin[k] < i,
            comparable(old(results)@) ==> forall|a: int, b: int|
                0 <= a < b < i && !ranks_before(by_throughput, results@[a], results@[b])
                    ==> origin[a] < origin[b],
            comparable(old(results)@) ==> comparable(results@),
            comparable(old(results)@) ==> forall|a: int, b: int|
                0 <= a < b < i ==> !ranks_before(by_throughput, results@[b], results@[a]),
        decreases n - i,
    {
        let mut j: usize = i;
        while j > 0 && precedes(by_throughput, &results[i], &results[j - 1])
            invariant
                j <= i < n,
                results.len() == n,
                forall|k: int|
                    j <= k < i ==> ranks_before(by_throughput, results@[i as int], results@[k]),
            decreases j,
        {
            j -= 1;
        }
        let ghost before = results@;
        let ghost origin_before = origin;
        let node = results.remove(i);
        results.insert(j, node);
        proof {
            origin = origin_before.remove(i as int).insert(j as int, i as int);
            lemma_move_keeps_nodes(before, i as int, j as int);
            assert forall|k: int| 0 <= k < n implies origin[k] == origin_before[if k < j {
                k
            } else if k == j {
                i as int
            } else if k <= i {
                k - 1
            } else {
                k
            }] && results@[k] == before[if k < j {
                k
            } else if k == j {
                i as int
            } else if k <= i {
                k - 1
            } else {
                k
            }] by {}
            assert(rearranges(old(results)@, results@, origin));
            if comparable(old(results)@) {
                assert forall|a: int, b: int|
                    0 <= a < b < i + 1 && !ranks_before(
                        by_throughput,
                        results@[a],
                        results@[b],
                    ) implies origin[a] < origin[b] by {
                    if a == j {
                        assert(results@[b] == before[b - 1]);
                    }
                }
            }
            if comparable(old(results)@) {
                assert forall|k: int| 0 <= k < results@.len() implies (#[trigger] rate_of(
                    results@[k],
                ) matches Some(rate) ==> rate.defined()) by {
                    if k < j {
                        assert(results@[k] == before[k]);
                    } else if k == j {
                        assert(results@[k] == before[i as int]);
                    } else if k <= i {
                        assert(results@[k] == before[k - 1]);
                    } else {
                        assert(results@[k] == before[k]);
                    }
                }
                assert forall|a: int, b: int| 0 <= a < b < i + 1 implies !ranks_before(
                    by_throughput,
                    results@[b],
                    results@[a],
                ) by {
                    let moved = before[i as int];
                    if b < j {
                        assert(results@[a] == before[a] && results@[b] == before[b]);
                    } else if b == j {
                        assert(results@[a] == before[a]);
                        if a < j - 1 {
                            assert(rate_of(before[j - 1]) matches Some(rate) ==> rate.defined());
                            lemma_ranks_chain(by_throughput, moved, before[j - 1], before[a]);
                        }
                    } else if a == j {
                        assert(results@[b] == before[b - 1]);
                        lemma_ranks_before_asymmetric(by_throughput, moved, before[b - 1]);
                    } else if a < j {
                        assert(results@[a] == before[a] && results@[b] == before[b - 1]);
                    } else {
                        assert(results@[a] == before[a - 1] && results@[b] == before[b - 1]);
                    }
                }
            }
        }
        i += 1;
    }
    proof {
        assert(rearranges(old(results)@, results@, origin));
        if comparable(old(results)@) {
            assert(keeps_ties(by_throughput, results@, origin));
        }
    }
}

} // verus!
