//! Exact view of a cascade: the failure graph that an inference engine takes, and
//! the report on what it found.

use crate::names::copy_named;
use crate::rootcause::weight_views;
use crate::scalar::Scalar;
use crate::text;
use crate::text::views;
use crate::topology::{links, FailureGraph, Topology};
use vstd::prelude::*;

verus! {

/// Failure probability of each node, as the engine gives them.
#[derive(Debug, PartialEq, Eq)]
pub struct MarginalResult {
    /// Nodes and probabilities; the first entry of a node counts.
    pub values: Vec<(String, Scalar)>,
    /// True if the probabilities are exact.
    pub exact: bool,
}

/// How many nodes fail, as the engine gives it.
#[derive(Debug, PartialEq, Eq)]
pub struct BlastRadiusResult {
    /// Expected number of failures.
    pub expected: Scalar,
    /// Most probable number of failures.
    pub mode: u64,
    /// True if the distribution is exact.
    pub exact: bool,
}

/// The probability of a node, or zero if the list does not hold it.
pub open spec fn marginal_in(values: Seq<(Seq<char>, Scalar)>, node: Seq<char>) -> Scalar
    decreases values.len(),
{
    if values.len() == 0 {
        Scalar { bits: 0 }
    } else if values[0].0 == node {
        values[0].1
    } else {
        marginal_in(values.drop_first(), node)
    }
}

impl MarginalResult {
    /// The probability of a node, or zero if it is not known.
    pub fn get(&self, node: &str) -> (r: Scalar)
        ensures
            r == marginal_in(weight_views(self.values@), node@),
    {
        let ghost all = weight_views(self.values@);
        let mut i: usize = 0;
        assert(all.skip(0) =~= all);
        while i < self.values.len()
            invariant
                i <= self.values@.len(),
                all == weight_views(self.values@),
                marginal_in(all, node@) == marginal_in(all.skip(i as int), node@),
            decreases self.values@.len() - i,
        {
            assert(all.skip(i as int).drop_first() =~= all.skip(i + 1));
            if text::same(self.values[i].0.as_str(), node) {
                return self.values[i].1;
            }
            i += 1;
        }
        Scalar::zero()
    }
}

/// The analytic companion of a cascade fault.
#[derive(Debug)]
pub struct BayesianCascade {
    graph: FailureGraph,
}

/// Kind under which an analysis is reported.
pub const KIND: &'static str = "bayesian_cascade";

impl BayesianCascade {
    /// The nodes of the graph.
    pub closed spec fn nodes(self) -> Seq<Seq<char>> {
        views(self.graph.nodes@)
    }

    /// The failure graph.
    pub closed spec fn failure_graph(self) -> FailureGraph {
        self.graph
    }

    /// The cascade of a topology: each edge keeps its weight.
    pub fn from_topology(topology: &Topology) -> (r: Self)
        ensures
            r.nodes() == topology.node_list(),
            links(r.failure_graph().edges@) == topology.edge_list(),
    {
        BayesianCascade { graph: topology.to_failure_graph() }
    }

    /// The cascade of a failure graph.
    pub fn from_graph(graph: FailureGraph) -> (r: Self)
        ensures
            r.failure_graph() == graph,
            r.nodes() == views(graph.nodes@),
    {
        BayesianCascade { graph }
    }

    /// The failure graph.
    pub fn graph(&self) -> (r: &FailureGraph)
        ensures
            *r == self.failure_graph(),
    {
        &self.graph
    }

    /// The report on what the engine found: the probability of each node of the
    /// graph, in the order of the graph.
    pub fn analyse(&self, marginals: MarginalResult, blast_radius: BlastRadiusResult) -> (r:
        BayesianReport)
        ensures
            r.marginals == marginals,
            r.blast_radius == blast_radius,
            weight_views(r.per_node@) == Seq::new(
                self.nodes().len(),
                |i: int|
                    (
                        self.nodes()[i],
                        marginal_in(weight_views(marginals.values@), self.nodes()[i]),
                    ),
            ),
    {
        let mut per_node: Vec<(String, Scalar)> = Vec::new();
        let mut i: usize = 0;
        while i < self.graph.nodes.len()
            invariant
                i <= self.graph.nodes@.len(),
                per_node@.len() == i,
                forall|j: int|
                    0 <= j < i ==> (#[trigger] per_node@[j]).0@ == self.graph.nodes@[j]@
                        && per_node@[j].1 == marginal_in(
                        weight_views(marginals.values@),
                        self.graph.nodes@[j]@,
                    ),
            decreases self.graph.nodes@.len() - i,
        {
            let p: Scalar = marginals.get(self.graph.nodes[i].as_str());
            per_node.push((self.graph.nodes[i].clone(), p));
            i += 1;
        }
        assert(weight_views(per_node@) =~= Seq::new(
            self.nodes().len(),
            |i: int|
                (
                    self.nodes()[i],
                    marginal_in(weight_views(marginals.values@), self.nodes()[i]),
                ),
        ));
        BayesianReport { marginals, blast_radius, per_node }
    }
}

/// Result of an analysis.
#[derive(Debug, PartialEq, Eq)]
pub struct BayesianReport {
    /// The probabilities.
    pub marginals: MarginalResult,
    /// The number of failures.
    pub blast_radius: BlastRadiusResult,
    /// Probability of each node of the graph.
    pub per_node: Vec<(String, Scalar)>,
}

impl Clone for BayesianReport {
    fn clone(&self) -> (r: Self)
        ensures
            r.marginals.values@ == self.marginals.values@,
            r.marginals.exact == self.marginals.exact,
            r.blast_radius == self.blast_radius,
            r.per_node@ == self.per_node@,
    {
        BayesianReport {
            marginals: MarginalResult {
                values: copy_named(&self.marginals.values),
                exact: self.marginals.exact,
            },
            blast_radius: BlastRadiusResult {
                expected: self.blast_radius.expected,
                mode: self.blast_radius.mode,
                exact: self.blast_radius.exact,
            },
            per_node: copy_named(&self.per_node),
        }
    }
}

impl BayesianReport {
    /// True if the probabilities are exact.
    pub fn is_exact(&self) -> (r: bool)
        ensures
            r == self.marginals.exact,
    {
        self.marginals.exact
    }

    /// True if the distribution of the number of failures is exact.
    pub fn is_exact_blast_radius(&self) -> (r: bool)
        ensures
            r == self.blast_radius.exact,
    {
        self.blast_radius.exact
    }

    /// The probability of a node, or zero if it is not known.
    pub fn node_marginal(&self, node: &str) -> (r: Scalar)
        ensures
            r == marginal_in(weight_views(self.marginals.values@), node@),
    {
        self.marginals.get(node)
    }
}

} // verus!
