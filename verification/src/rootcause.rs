//! Root-cause analysis of a run: candidates, priors and observations for the
//! inference, and the report on what it found.
//!
//! Each node that an event of the run names is a candidate origin. A node counts as
//! failed if an event with a positive intensity hit it outside dry-run mode, and as
//! healthy otherwise. Later observations of a node replace earlier ones.

use crate::names::{ascends, copy_named, NameSet};
use crate::scalar::{Scalar, ONE_BITS};
use crate::scenario::{event_views, ScenarioEvent, ScenarioReport};
use crate::text;
use crate::text::views;
use crate::topology::{links, FailureGraph, Topology};
use crate::types::EventView;
use vstd::prelude::*;

verus! {

/// What is known of the nodes. No node is both failed and healthy.
#[derive(Debug, PartialEq, Eq)]
pub struct Observation {
    failed: NameSet,
    healthy: NameSet,
}

/// Model of an observation.
#[verifier::ext_equal]
pub struct ObservationView {
    pub failed: Set<Seq<char>>,
    pub healthy: Set<Seq<char>>,
}

/// Nothing is known.
pub open spec fn nothing_observed() -> ObservationView {
    ObservationView { failed: Set::empty(), healthy: Set::empty() }
}

impl ObservationView {
    /// The observation after one more node was seen.
    pub open spec fn seen(self, node: Seq<char>, failed: bool) -> ObservationView {
        if failed {
            ObservationView { failed: self.failed.insert(node), healthy: self.healthy.remove(node) }
        } else {
            ObservationView { failed: self.failed.remove(node), healthy: self.healthy.insert(node) }
        }
    }

    /// The observation after each of `nodes` was seen, in order.
    pub open spec fn seen_all(self, nodes: Seq<Seq<char>>, failed: bool) -> ObservationView
        decreases nodes.len(),
    {
        if nodes.len() == 0 {
            self
        } else {
            self.seen_all(nodes.drop_last(), failed).seen(nodes.last(), failed)
        }
    }

    /// The observation after the node of each event was seen, in order.
    pub open spec fn seen_events(self, events: Seq<EventView>) -> ObservationView
        decreases events.len(),
    {
        if events.len() == 0 {
            self
        } else {
            self.seen_events(events.drop_last()).seen(
                events.last().node_id,
                event_failed(events.last()),
            )
        }
    }
}

/// True if the event took its node down.
pub open spec fn event_failed(event: EventView) -> bool {
    (Scalar { bits: 0 }).below(event.intensity) && !event.dry_run
}

/// Tells whether the event took its node down.
pub fn took_down(event: &ScenarioEvent) -> (r: bool)
    ensures
        r == event_failed(event@),
{
    Scalar::zero().less(event.intensity) && !event.dry_run
}

impl View for Observation {
    type V = ObservationView;

    closed spec fn view(&self) -> ObservationView {
        ObservationView { failed: self.failed.set(), healthy: self.healthy.set() }
    }
}

impl Observation {
    /// The failed nodes in ascending order.
    pub closed spec fn failed_list(self) -> Seq<Seq<char>> {
        self.failed.list()
    }

    /// The healthy nodes in ascending order.
    pub closed spec fn healthy_list(self) -> Seq<Seq<char>> {
        self.healthy.list()
    }

    /// Nothing is known.
    pub fn new() -> (r: Self)
        ensures
            r@ == nothing_observed(),
    {
        let r = Observation { failed: NameSet::new(), healthy: NameSet::new() };
        assert(r@ =~= nothing_observed());
        r
    }

    /// Notes that a node has failed.
    pub fn add_failed(&mut self, node: &str)
        ensures
            final(self)@ == old(self)@.seen(node@, true),
    {
        self.failed.insert(node);
        self.healthy.remove(node);
    }

    /// Notes that a node is healthy.
    pub fn add_healthy(&mut self, node: &str)
        ensures
            final(self)@ == old(self)@.seen(node@, false),
    {
        self.failed.remove(node);
        self.healthy.insert(node);
    }

    /// The failed nodes in ascending order.
    pub fn failed(&self) -> (r: &Vec<String>)
        ensures
            views(r@) == self.failed_list(),
            ascends(self.failed_list()),
            self.failed_list().to_set() == self@.failed,
    {
        self.failed.items()
    }

    /// The healthy nodes in ascending order.
    pub fn healthy(&self) -> (r: &Vec<String>)
        ensures
            views(r@) == self.healthy_list(),
            ascends(self.healthy_list()),
            self.healthy_list().to_set() == self@.healthy,
    {
        self.healthy.items()
    }

    fn add_all(&mut self, nodes: &NameSet, failed: bool)
        ensures
            final(self)@ == old(self)@.seen_all(nodes.list(), failed),
    {
        let list = nodes.items();
        let ghost all = views(list@);
        let mut i: usize = 0;
        assert(all.take(0) =~= Seq::empty());
        while i < list.len()
            invariant
                i <= list@.len(),
                all == views(list@),
                self@ == old(self)@.seen_all(all.take(i as int), failed),
            decreases list@.len() - i,
        {
            proof {
                assert(all.take(i + 1).drop_last() =~= all.take(i as int));
                assert(all.take(i + 1).last() == list@[i as int]@);
            }
            if failed {
                self.add_failed(list[i].as_str());
            } else {
                self.add_healthy(list[i].as_str());
            }
            i += 1;
        }
        assert(all.take(all.len() as int) =~= all);
    }

    fn add_events(&mut self, events: &Vec<ScenarioEvent>)
        ensures
            final(self)@ == old(self)@.seen_events(event_views(events@)),
    {
        let ghost all = event_views(events@);
        let mut i: usize = 0;
        assert(all.take(0) =~= Seq::empty());
        while i < events.len()
            invariant
                i <= events@.len(),
                all == event_views(events@),
                self@ == old(self)@.seen_events(all.take(i as int)),
            decreases events@.len() - i,
        {
            proof {
                assert(all.take(i + 1).drop_last() =~= all.take(i as int));
                assert(all.take(i + 1).last() == events@[i as int]@);
            }
            if took_down(&events[i]) {
                self.add_failed(events[i].node_id.as_str());
            } else {
                self.add_healthy(events[i].node_id.as_str());
            }
            i += 1;
        }
        assert(all.take(all.len() as int) =~= all);
    }
}

/// No node is both failed and healthy, whatever was seen and in whatever order.
pub proof fn observations_stay_disjoint(o: ObservationView, node: Seq<char>, failed: bool)
    requires
        o.failed.disjoint(o.healthy),
    ensures
        o.seen(node, failed).failed.disjoint(o.seen(node, failed).healthy),
{
}

proof fn events_stay_disjoint(o: ObservationView, events: Seq<EventView>)
    requires
        o.failed.disjoint(o.healthy),
    ensures
        o.seen_events(events).failed.disjoint(o.seen_events(events).healthy),
    decreases events.len(),
{
    if events.len() > 0 {
        events_stay_disjoint(o, events.drop_last());
    }
}

proof fn nodes_stay_disjoint(o: ObservationView, nodes: Seq<Seq<char>>, failed: bool)
    requires
        o.failed.disjoint(o.healthy),
    ensures
        o.seen_all(nodes, failed).failed.disjoint(o.seen_all(nodes, failed).healthy),
    decreases nodes.len(),
{
    if nodes.len() > 0 {
        nodes_stay_disjoint(o, nodes.drop_last(), failed);
    }
}

/// What an analysis starts from beside the run.
#[derive(Debug)]
pub struct RootCauseConfig {
    /// Nodes seen as failed.
    pub observed_failed: NameSet,
    /// Nodes seen as healthy.
    pub observed_healthy: NameSet,
    /// Prior weights; the last entry of a node counts. What is not positive counts
    /// as one.
    pub prior_weights: Vec<(String, Scalar)>,
    /// Number of samples where the inference has to sample.
    pub sample_count: usize,
}

impl Clone for RootCauseConfig {
    fn clone(&self) -> (r: Self)
        ensures
            r.observed_failed.list() == self.observed_failed.list(),
            r.observed_healthy.list() == self.observed_healthy.list(),
            r.prior_weights@ == self.prior_weights@,
            r.sample_count == self.sample_count,
    {
        RootCauseConfig {
            observed_failed: self.observed_failed.clone(),
            observed_healthy: self.observed_healthy.clone(),
            prior_weights: copy_named(&self.prior_weights),
            sample_count: self.sample_count,
        }
    }
}

impl Default for RootCauseConfig {
    /// Equal weights, no observations and no samples.
    fn default() -> (r: Self)
        ensures
            r.observed_failed.list().len() == 0,
            r.observed_healthy.list().len() == 0,
            r.prior_weights@.len() == 0,
            r.sample_count == 0,
    {
        RootCauseConfig {
            observed_failed: NameSet::new(),
            observed_healthy: NameSet::new(),
            prior_weights: Vec::new(),
            sample_count: 0,
        }
    }
}

/// Models of a list of weights.
pub open spec fn weight_views(list: Seq<(String, Scalar)>) -> Seq<(Seq<char>, Scalar)> {
    Seq::new(list.len(), |i: int| (list[i].0@, list[i].1))
}

/// The prior weight of a node: the last one set, or one if none was set or it is
/// not positive.
pub open spec fn weight_of(weights: Seq<(Seq<char>, Scalar)>, node: Seq<char>) -> Scalar
    decreases weights.len(),
{
    if weights.len() == 0 {
        Scalar { bits: ONE_BITS }
    } else if weights.last().0 == node {
        if (Scalar { bits: 0 }).below(weights.last().1) {
            weights.last().1
        } else {
            Scalar { bits: ONE_BITS }
        }
    } else {
        weight_of(weights.drop_last(), node)
    }
}

/// Every prior weight is positive.
pub proof fn weights_are_positive(weights: Seq<(Seq<char>, Scalar)>, node: Seq<char>)
    ensures
        (Scalar { bits: 0 }).below(weight_of(weights, node)),
    decreases weights.len(),
{
    if weights.len() > 0 && weights.last().0 != node {
        weights_are_positive(weights.drop_last(), node);
    }
}

impl RootCauseConfig {
    /// Equal weights, no observations, ten thousand samples.
    pub fn new() -> (r: Self)
        ensures
            r.observed_failed.list().len() == 0,
            r.observed_healthy.list().len() == 0,
            r.prior_weights@.len() == 0,
            r.sample_count == 10_000,
    {
        RootCauseConfig {
            observed_failed: NameSet::new(),
            observed_healthy: NameSet::new(),
            prior_weights: Vec::new(),
            sample_count: 10_000,
        }
    }

    /// Notes that a node was seen as failed. Gives this configuration for further calls.
    pub fn add_failed(&mut self, node: &str) -> (r: &mut Self)
        ensures
            r.observed_failed.set() == old(self).observed_failed.set().insert(node@),
            r.observed_healthy == old(self).observed_healthy,
            r.prior_weights == old(self).prior_weights,
            r.sample_count == old(self).sample_count,
            *final(self) == *final(r),
    {
        self.observed_failed.insert(node);
        self
    }

    /// Notes that a node was seen as healthy. Gives this configuration for further calls.
    pub fn add_healthy(&mut self, node: &str) -> (r: &mut Self)
        ensures
            r.observed_healthy.set() == old(self).observed_healthy.set().insert(node@),
            r.observed_failed == old(self).observed_failed,
            r.prior_weights == old(self).prior_weights,
            r.sample_count == old(self).sample_count,
            *final(self) == *final(r),
    {
        self.observed_healthy.insert(node);
        self
    }

    /// Sets the prior weight of a node. Gives this configuration for further calls.
    pub fn set_prior(&mut self, origin: &str, weight: Scalar) -> (r: &mut Self)
        ensures
            weight_views(r.prior_weights@) == weight_views(old(self).prior_weights@).push(
                (origin@, weight),
            ),
            r.observed_failed == old(self).observed_failed,
            r.observed_healthy == old(self).observed_healthy,
            r.sample_count == old(self).sample_count,
            *final(self) == *final(r),
    {
        let ghost before = weight_views(self.prior_weights@);
        self.prior_weights.push((origin.to_owned(), weight));
        assert(weight_views(self.prior_weights@) =~= before.push((origin@, weight)));
        self
    }

    /// Sets the number of samples.
    pub fn with_sample_count(self, n: usize) -> (r: Self)
        ensures
            r == (RootCauseConfig { sample_count: n, ..self }),
    {
        RootCauseConfig { sample_count: n, ..self }
    }

    fn weight(&self, node: &str) -> (r: Scalar)
        ensures
            r == weight_of(weight_views(self.prior_weights@), node@),
    {
        let ghost all = weight_views(self.prior_weights@);
        let mut i: usize = self.prior_weights.len();
        assert(all.take(all.len() as int) =~= all);
        while i > 0
            invariant
                i <= self.prior_weights@.len(),
                all == weight_views(self.prior_weights@),
                weight_of(all, node@) == weight_of(all.take(i as int), node@),
            decreases i,
        {
            assert(all.take(i as int).drop_last() =~= all.take(i - 1));
            assert(all.take(i as int).last() == all[i - 1]);
            if text::same(self.prior_weights[i - 1].0.as_str(), node) {
                let w: Scalar = self.prior_weights[i - 1].1;
                return if Scalar::zero().less(w) {
                    w
                } else {
                    Scalar::one()
                };
            }
            i -= 1;
        }
        assert(all.take(0) =~= Seq::empty());
        Scalar::one()
    }
}

/// All that an inference is asked.
#[derive(Debug)]
pub struct RootCauseQuery {
    /// The graph.
    pub graph: FailureGraph,
    /// Candidates in ascending order, with their prior weights.
    pub prior: Vec<(String, Scalar)>,
    /// What is known of the nodes.
    pub observation: Observation,
}

/// The nodes that the events name.
pub open spec fn named_nodes(events: Seq<EventView>) -> Set<Seq<char>> {
    Set::new(|n: Seq<char>| exists|i: int| 0 <= i < events.len() && (#[trigger] events[i]).node_id == n)
}

/// What is known after a run, the observations of `config` and at most two more.
pub open spec fn observed(
    events: Seq<EventView>,
    failed: Seq<Seq<char>>,
    healthy: Seq<Seq<char>>,
    extra_failed: Option<Seq<char>>,
    extra_healthy: Option<Seq<char>>,
) -> ObservationView {
    let base = nothing_observed().seen_events(events).seen_all(failed, true).seen_all(
        healthy,
        false,
    );
    let next = match extra_failed {
        Some(n) => base.seen(n, true),
        None => base,
    };
    match extra_healthy {
        Some(n) => next.seen(n, false),
        None => next,
    }
}

/// What is known after a run holds no node as both failed and healthy.
pub proof fn observed_is_disjoint(
    events: Seq<EventView>,
    failed: Seq<Seq<char>>,
    healthy: Seq<Seq<char>>,
    extra_failed: Option<Seq<char>>,
    extra_healthy: Option<Seq<char>>,
)
    ensures
        observed(events, failed, healthy, extra_failed, extra_healthy).failed.disjoint(
            observed(events, failed, healthy, extra_failed, extra_healthy).healthy,
        ),
{
    let a = nothing_observed().seen_events(events);
    events_stay_disjoint(nothing_observed(), events);
    nodes_stay_disjoint(a, failed, true);
    nodes_stay_disjoint(a.seen_all(failed, true), healthy, false);
}

/// Model of an optional text.
pub open spec fn str_view(t: Option<&str>) -> Option<Seq<char>> {
    match t {
        Some(s) => Some(s@),
        None => None,
    }
}

/// The candidates of a run: the nodes that its events name, without repeats.
pub fn candidates_of(events: &Vec<ScenarioEvent>) -> (r: NameSet)
    ensures
        r.set() == named_nodes(event_views(events@)),
{
    let ghost all = event_views(events@);
    let mut r = NameSet::new();
    let mut i: usize = 0;
    assert(r.set() =~= named_nodes(all.take(0)));
    while i < events.len()
        invariant
            i <= events@.len(),
            all == event_views(events@),
            r.set() == named_nodes(all.take(i as int)),
        decreases events@.len() - i,
    {
        let ghost before = all.take(i as int);
        let ghost after = all.take(i + 1);
        let ghost node = events@[i as int].node_id@;
        r.insert(events[i].node_id.as_str());
        proof {
            assert forall|n: Seq<char>| named_nodes(after).contains(n) == named_nodes(
                before,
            ).insert(node).contains(n) by {
                if named_nodes(before).contains(n) {
                    let k = choose|k: int|
                        0 <= k < before.len() && (#[trigger] before[k]).node_id == n;
                    assert(after[k] == before[k]);
                }
                if n == node {
                    assert(after[i as int].node_id == n);
                }
                if named_nodes(after).contains(n) && n != node {
                    let k = choose|k: int|
                        0 <= k < after.len() && (#[trigger] after[k]).node_id == n;
                    assert(before[k] == after[k]);
                }
            }
            assert(r.set() =~= named_nodes(after));
        }
        i += 1;
    }
    assert(all.take(all.len() as int) =~= all);
    r
}

/// True if `query` is what the inference is asked after a run.
pub open spec fn is_query_of(
    query: RootCauseQuery,
    events: Seq<EventView>,
    topology: Topology,
    config: RootCauseConfig,
    extra_failed: Option<Seq<char>>,
    extra_healthy: Option<Seq<char>>,
) -> bool {
    &&& views(query.graph.nodes@) == topology.node_list()
    &&& links(query.graph.edges@) == topology.edge_list()
    &&& exists|names: Seq<Seq<char>>|
        {
            &&& #[trigger] ascends(names)
            &&& names.to_set() == named_nodes(events)
            &&& weight_views(query.prior@) == Seq::new(
                names.len(),
                |i: int| (names[i], weight_of(weight_views(config.prior_weights@), names[i])),
            )
        }
    &&& query.observation@ == observed(
        events,
        config.observed_failed.list(),
        config.observed_healthy.list(),
        extra_failed,
        extra_healthy,
    )
}

/// What the inference is asked after a run.
pub fn root_cause_from_scenario(
    report: &ScenarioReport,
    topology: &Topology,
    config: &RootCauseConfig,
) -> (r: RootCauseQuery)
    ensures
        is_query_of(r, report@.events, *topology, *config, None, None),
{
    root_cause_with_observation(report, topology, config, None, None)
}

/// What the inference is asked after a run, with at most one more failed and one
/// more healthy node.
pub fn root_cause_with_observation(
    report: &ScenarioReport,
    topology: &Topology,
    config: &RootCauseConfig,
    extra_failed: Option<&str>,
    extra_healthy: Option<&str>,
) -> (r: RootCauseQuery)
    ensures
        is_query_of(
            r,
            report@.events,
            *topology,
            *config,
            str_view(extra_failed),
            str_view(extra_healthy),
        ),
{
    let candidates = candidates_of(&report.events);
    let list = candidates.items();
    let ghost names = candidates.list();
    let mut prior: Vec<(String, Scalar)> = Vec::new();
    let mut i: usize = 0;
    while i < list.len()
        invariant
            i <= list@.len(),
            names == views(list@),
            prior@.len() == i,
            forall|j: int|
                0 <= j < i ==> (#[trigger] prior@[j]).0@ == names[j] && prior@[j].1 == weight_of(
                    weight_views(config.prior_weights@),
                    names[j],
                ),
        decreases list@.len() - i,
    {
        let w: Scalar = config.weight(list[i].as_str());
        prior.push((list[i].clone(), w));
        i += 1;
    }
    proof {
        assert(ascends(names));
        assert(weight_views(prior@) =~= Seq::new(
            names.len(),
            |i: int| (names[i], weight_of(weight_views(config.prior_weights@), names[i])),
        ));
    }
    let mut observation = Observation::new();
    observation.add_events(&report.events);
    observation.add_all(&config.observed_failed, true);
    observation.add_all(&config.observed_healthy, false);
    if let Some(n) = extra_failed {
        observation.add_failed(n);
    }
    if let Some(n) = extra_healthy {
        observation.add_healthy(n);
    }
    RootCauseQuery { graph: topology.to_failure_graph(), prior, observation }
}

/// One candidate as the inference ranks it.
#[derive(Debug, PartialEq, Eq)]
pub struct SerializableCandidate {
    /// The node.
    pub origin: String,
    /// Posterior probability.
    pub posterior: Scalar,
    /// Logarithm of the likelihood of the observation.
    pub log_likelihood: Scalar,
    /// Logarithm of the prior.
    pub log_prior: Scalar,
}

impl Clone for SerializableCandidate {
    fn clone(&self) -> (r: Self)
        ensures
            r == *self,
    {
        SerializableCandidate {
            origin: self.origin.clone(),
            posterior: self.posterior,
            log_likelihood: self.log_likelihood,
            log_prior: self.log_prior,
        }
    }
}

/// What an inference gives.
#[derive(Debug, PartialEq, Eq)]
pub struct SerializablePosterior {
    /// Candidates, most probable first.
    pub candidates: Vec<SerializableCandidate>,
    /// Entropy in nats.
    pub entropy: Scalar,
}

impl Clone for SerializablePosterior {
    fn clone(&self) -> (r: Self)
        ensures
            r.candidates@ == self.candidates@,
            r.entropy == self.entropy,
    {
        let candidates: Vec<SerializableCandidate> = self.candidates.clone();
        assert(candidates@ =~= self.candidates@);
        SerializablePosterior { candidates, entropy: self.entropy }
    }
}

/// The observation as the report lists it.
#[derive(Debug, PartialEq, Eq)]
pub struct SerializableObservation {
    /// Failed nodes in ascending order.
    pub failed: Vec<String>,
    /// Healthy nodes in ascending order.
    pub healthy: Vec<String>,
    /// Number of nodes of which nothing is known.
    pub unobserved_count: usize,
}

impl Clone for SerializableObservation {
    fn clone(&self) -> (r: Self)
        ensures
            views(r.failed@) == views(self.failed@),
            views(r.healthy@) == views(self.healthy@),
            r.unobserved_count == self.unobserved_count,
    {
        SerializableObservation {
            failed: copy_names(&self.failed),
            healthy: copy_names(&self.healthy),
            unobserved_count: self.unobserved_count,
        }
    }
}

/// Result of an analysis.
#[derive(Debug, PartialEq, Eq)]
pub struct RootCauseReport {
    /// The ranked candidates.
    pub posterior: SerializablePosterior,
    /// Number of nodes of the graph.
    pub graph_node_count: usize,
    /// Number of candidates.
    pub candidate_count: usize,
    /// What was known.
    pub observation: SerializableObservation,
}

fn copy_names(list: &Vec<String>) -> (out: Vec<String>)
    ensures
        views(out@) == views(list@),
{
    let out: Vec<String> = list.clone();
    assert(views(out@) =~= views(list@));
    out
}

impl Clone for RootCauseReport {
    fn clone(&self) -> (r: Self)
        ensures
            r.posterior.candidates@ == self.posterior.candidates@,
            r.posterior.entropy == self.posterior.entropy,
            r.graph_node_count == self.graph_node_count,
            r.candidate_count == self.candidate_count,
            views(r.observation.failed@) == views(self.observation.failed@),
            views(r.observation.healthy@) == views(self.observation.healthy@),
            r.observation.unobserved_count == self.observation.unobserved_count,
    {
        RootCauseReport {
            posterior: self.posterior.clone(),
            graph_node_count: self.graph_node_count,
            candidate_count: self.candidate_count,
            observation: self.observation.clone(),
        }
    }
}

impl RootCauseQuery {
    /// The report on this query, given what the inference found.
    pub fn report(&self, posterior: SerializablePosterior) -> (r: RootCauseReport)
        ensures
            r.posterior == posterior,
            r.graph_node_count == self.graph.nodes@.len(),
            r.candidate_count == self.prior@.len(),
            ascends(views(r.observation.failed@)),
            views(r.observation.failed@).to_set() == self.observation@.failed,
            ascends(views(r.observation.healthy@)),
            views(r.observation.healthy@).to_set() == self.observation@.healthy,
            r.observation.unobserved_count == {
                let known = r.observation.failed@.len() + r.observation.healthy@.len();
                if self.graph.nodes@.len() > known {
                    self.graph.nodes@.len() - known
                } else {
                    0
                }
            },
    {
        let failed = copy_names(self.observation.failed());
        let healthy = copy_names(self.observation.healthy());
        proof {
            assert(views(failed@).len() == failed@.len());
        }
        let nodes: usize = self.graph.nodes.len();
        let unobserved_count: usize = if nodes > failed.len() && nodes - failed.len()
            > healthy.len() {
            nodes - failed.len() - healthy.len()
        } else {
            0
        };
        RootCauseReport {
            posterior,
            graph_node_count: nodes,
            candidate_count: self.prior.len(),
            observation: SerializableObservation { failed, healthy, unobserved_count },
        }
    }
}

impl RootCauseReport {
    /// The most probable candidate.
    pub fn most_probable(&self) -> (r: Option<&SerializableCandidate>)
        ensures
            match r {
                Some(c) => self.posterior.candidates@.len() > 0 && *c
                    == self.posterior.candidates@[0],
                None => self.posterior.candidates@.len() == 0,
            },
    {
        if self.posterior.candidates.len() > 0 {
            Some(&self.posterior.candidates[0])
        } else {
            None
        }
    }

    /// The entropy in nats.
    pub fn entropy(&self) -> (r: Scalar)
        ensures
            r == self.posterior.entropy,
    {
        self.posterior.entropy
    }
}

} // verus!
