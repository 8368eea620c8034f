//! A run over the nodes of an inventory: one node after the other, in the
//! order of the inventory, and the ranking once at the end.

use vstd::prelude::*;
use vstd::string::*;
use crate::evaluator::{NodeEvaluation, NodeResult, ProxyEndpoint, RunSettings, Stage};
use crate::ranker::{comparable, keeps_ties, rank, ranked, rearranges};

verus! {

/// The nodes of a run and the results gathered so far.
pub struct Run {
    settings: RunSettings,
    endpoints: Vec<ProxyEndpoint>,
    results: Vec<NodeResult>,
}

/// The result is that of the endpoint, under the settings.
pub open spec fn result_of(settings: RunSettings, endpoint: ProxyEndpoint, result: NodeResult)
    -> bool {
    &&& result.tag@ == endpoint.tag@
    &&& result.port == endpoint.port
    &&& result.speed is Some <==> settings.with_throughput()
}

impl Run {
    /// What the run asks of every node.
    pub closed spec fn settings(&self) -> RunSettings {
        self.settings
    }

    /// The nodes to measure, in order.
    pub closed spec fn endpoints(&self) -> Seq<ProxyEndpoint> {
        self.endpoints@
    }

    /// The results gathered so far, in the order of the nodes.
    pub closed spec fn results(&self) -> Seq<NodeResult> {
        self.results@
    }

    /// There is one result for each of the first nodes, in their order.
    pub open spec fn well_formed(&self) -> bool {
        &&& self.results().len() <= self.endpoints().len()
        &&& forall|i: int|
            0 <= i < self.results().len() ==> result_of(
                self.settings(),
                self.endpoints()[i],
                #[trigger] self.results()[i],
            )
    }

    #[verifier::type_invariant]
    spec fn in_step(&self) -> bool {
        self.well_formed()
    }

    /// A run over `endpoints` with no node measured yet.
    pub fn new(endpoints: Vec<ProxyEndpoint>, settings: RunSettings) -> (run: Run)
        ensures
            run.well_formed(),
            run.settings() == settings,
            run.endpoints() == endpoints@,
            run.results().len() == 0,
    {
        Run { settings, endpoints, results: Vec::new() }
    }

    /// The number of nodes measured so far.
    pub fn measured(&self) -> (count: usize)
        ensures
            count == self.results().len(),
            count <= self.endpoints().len(),
    {
        proof {
            use_type_invariant(self);
        }
        self.results.len()
    }

    /// The results gathered so far, in the order of the nodes.
    pub fn gathered(&self) -> (results: &Vec<NodeResult>)
        ensures
            results@ == self.results(),
    {
        &self.results
    }

    /// The number of nodes of the run.
    pub fn node_count(&self) -> (count: usize)
        ensures
            count == self.endpoints().len(),
    {
        self.endpoints.len()
    }

    /// The evaluation of the next node, with nothing done yet; none once
    /// every node is measured.
    pub fn begin_next(&self) -> (next: Option<NodeEvaluation>)
        ensures
            next is Some <==> self.results().len() < self.endpoints().len(),
            next matches Some(evaluation) ==> {
                &&& evaluation.well_formed()
                &&& evaluation.endpoint()@ == self.endpoints()[self.results().len() as int]@
                &&& evaluation.settings() == self.settings()
                &&& evaluation.stage() == Stage::Connecting
            },
    {
        proof {
            use_type_invariant(self);
        }
        let done = self.results.len();
        if done < self.endpoints.len() {
            let endpoint = ProxyEndpoint {
                tag: self.endpoints[done].tag.clone(),
                port: self.endpoints[done].port,
            };
            Some(NodeEvaluation::begin(endpoint, self.settings))
        } else {
            None
        }
    }

    /// Whether the evaluation is the finished evaluation of the next node
    /// under the settings of the run.
    pub open spec fn awaits(&self, evaluation: NodeEvaluation) -> bool {
        &&& self.results().len() < self.endpoints().len()
        &&& evaluation.stage() is Finished
        &&& evaluation.settings() == self.settings()
        &&& evaluation.endpoint()@ == self.endpoints()[self.results().len() as int]@
    }

    /// Takes in the finished evaluation of the next node.
    ///
    /// An evaluation that is not finished, or is not that of the next node
    /// under the settings of the run, changes nothing.
    pub fn complete(self, evaluation: NodeEvaluation) -> (run: Run)
        ensures
            run.well_formed(),
            run.settings() == self.settings(),
            run.endpoints() == self.endpoints(),
            !self.awaits(evaluation) ==> run.results() == self.results(),
            self.awaits(evaluation) ==> {
                &&& run.results().len() == self.results().len() + 1
                &&& run.results().drop_last() == self.results()
                &&& run.results().last().tag == evaluation.endpoint().tag
                &&& run.results().last().port == evaluation.endpoint().port
                &&& run.results().last().latency@ == evaluation.stage()->Finished_latency
                &&& crate::evaluator::speed_view(run.results().last().speed)
                    == evaluation.stage()->Finished_speed
            },
    {
        proof {
            use_type_invariant(&self);
        }
        let done = self.results.len();
        if done >= self.endpoints.len() || !evaluation.is_finished() || evaluation.run_settings()
            != self.settings || evaluation.node().port != self.endpoints[done].port
            || evaluation.node().tag != self.endpoints[done].tag {
            return self;
        }
        match evaluation.into_result() {
            Some(result) => {
                let Run { settings, endpoints, results } = self;
                let mut results = results;
                let ghost before = results@;
                results.push(result);
                proof {
                    assert(results@.drop_last() =~= before);
                    assert forall|i: int| 0 <= i < results@.len() implies result_of(
                        settings,
                        endpoints@[i],
                        #[trigger] results@[i],
                    ) by {
                        if i < before.len() {
                            assert(results@[i] == before[i]);
                        }
                    }
                }
                Run { settings, endpoints, results }
            },
            None => self,
        }
    }

    /// Ends the run: the results gathered, in the order of presentation.
    ///
    /// The results are ranked by throughput where the run measures it, by
    /// latency otherwise; see `rank`.
    pub fn finish(self) -> (ranking: Vec<NodeResult>)
        ensures
            ranking@.to_multiset() == self.results().to_multiset(),
            comparable(self.results()) ==> ranked(self.settings().with_throughput(), ranking@),
            exists|origin: Seq<int>| #[trigger]
                rearranges(self.results(), ranking@, origin) && (comparable(self.results())
                    ==> keeps_ties(self.settings().with_throughput(), ranking@, origin)),
    {
        let Run { settings, endpoints, results } = self;
        let mut ranking = results;
        let ghost gathered = ranking@;
        rank(&mut ranking, settings.measures_throughput());
        proof {
            let origin = choose|origin: Seq<int>| #[trigger]
                rearranges(gathered, ranking@, origin) && (comparable(gathered) ==> keeps_ties(
                    settings.with_throughput(),
                    ranking@,
                    origin,
                ));
            assert(rearranges(self.results(), ranking@, origin));
        }
        ranking
    }
}

} // verus!
