//! Laws of the query for a root cause: whose word counts last, and who is a candidate.

use crate::rootcause::{
    named_nodes, observed, weight_of, ObservationView, RootCauseConfig, RootCauseQuery,
};
use crate::rootcause::{is_query_of, nothing_observed, weight_views};
use crate::scalar::Scalar;
use crate::text::views;
use crate::topology::{links, Topology};
use crate::types::EventView;
use vstd::prelude::*;

verus! {

/// Every node of a list that was seen is known as seen, and of all other nodes nothing
/// changes.
pub proof fn every_listed_node_is_seen(o: ObservationView, nodes: Seq<Seq<char>>, node: Seq<char>)
    ensures
        o.seen_all(nodes, true).failed.contains(node) <==> nodes.contains(node)
            || o.failed.contains(node),
        o.seen_all(nodes, true).healthy.contains(node) <==> !nodes.contains(node)
            && o.healthy.contains(node),
        o.seen_all(nodes, false).healthy.contains(node) <==> nodes.contains(node)
            || o.healthy.contains(node),
        o.seen_all(nodes, false).failed.contains(node) <==> !nodes.contains(node)
            && o.failed.contains(node),
    decreases nodes.len(),
{
    if nodes.len() > 0 {
        let front = nodes.drop_last();
        every_listed_node_is_seen(o, front, node);
        assert(nodes.contains(node) <==> front.contains(node) || node == nodes.last()) by {
            if front.contains(node) {
                let k = choose|k: int| 0 <= k < front.len() && front[k] == node;
                assert(nodes[k] == node);
            }
            if nodes.contains(node) && node != nodes.last() {
                let k = choose|k: int| 0 <= k < nodes.len() && nodes[k] == node;
                assert(front[k] == node);
            }
            assert(nodes[nodes.len() - 1] == nodes.last());
        }
    }
}

/// True if the event at `k` is the last one on `node`.
pub open spec fn is_last_word(events: Seq<EventView>, node: Seq<char>, k: int) -> bool {
    &&& 0 <= k < events.len()
    &&& events[k].node_id == node
    &&& forall|j: int| k < j < events.len() ==> (#[trigger] events[j]).node_id != node
}

/// The last event on a node decides whether it counts as failed: it does if that event was
/// real and of an intensity above zero. Of a node without events nothing changes.
pub proof fn the_last_event_decides(
    o: ObservationView,
    events: Seq<EventView>,
    node: Seq<char>,
    k: int,
)
    ensures
        is_last_word(events, node, k) ==> {
            let down = !events[k].dry_run && (Scalar { bits: 0 }).below(events[k].intensity);
            &&& o.seen_events(events).failed.contains(node) <==> down
            &&& o.seen_events(events).healthy.contains(node) <==> !down
        },
        (forall|j: int| 0 <= j < events.len() ==> (#[trigger] events[j]).node_id != node) ==> {
            &&& o.seen_events(events).failed.contains(node) <==> o.failed.contains(node)
            &&& o.seen_events(events).healthy.contains(node) <==> o.healthy.contains(node)
        },
    decreases events.len(),
{
    if events.len() > 0 {
        let front = events.drop_last();
        the_last_event_decides(o, front, node, k);
        assert(forall|j: int| 0 <= j < front.len() ==> front[j] == #[trigger] events[j]);
        assert(events[events.len() - 1] == events.last());
        if is_last_word(events, node, k) && k < front.len() {
            assert(is_last_word(front, node, k));
        }
    }
}

/// What is known of a node after a run. The extra observations count last, the healthy one
/// last of all; before them what the settings list as healthy, then what they list as
/// failed; and before all the last event on the node. Each names every node in its list.
pub proof fn whose_word_counts(
    events: Seq<EventView>,
    failed: Seq<Seq<char>>,
    healthy: Seq<Seq<char>>,
    extra_failed: Option<Seq<char>>,
    extra_healthy: Option<Seq<char>>,
    node: Seq<char>,
    k: int,
)
    ensures
        ({
            let o = observed(events, failed, healthy, extra_failed, extra_healthy);
            let listed = failed.contains(node) || healthy.contains(node) || extra_failed == Some(
                node,
            ) || extra_healthy == Some(node);
            let down = !events[k].dry_run && (Scalar { bits: 0 }).below(events[k].intensity);
            &&& extra_healthy == Some(node) ==> o.healthy.contains(node)
            &&& extra_healthy != Some(node) && extra_failed == Some(node) ==> o.failed.contains(
                node,
            )
            &&& extra_healthy != Some(node) && extra_failed != Some(node) && healthy.contains(node)
                ==> o.healthy.contains(node)
            &&& extra_healthy != Some(node) && extra_failed != Some(node) && !healthy.contains(node)
                && failed.contains(node) ==> o.failed.contains(node)
            &&& !listed && is_last_word(events, node, k) && down ==> o.failed.contains(node)
            &&& !listed && is_last_word(events, node, k) && !down ==> o.healthy.contains(node)
            &&& !listed && (forall|j: int|
                0 <= j < events.len() ==> (#[trigger] events[j]).node_id != node)
                ==> !o.failed.contains(node) && !o.healthy.contains(node)
            &&& !(o.failed.contains(node) && o.healthy.contains(node))
        }),
{
    let start = nothing_observed();
    let a = start.seen_events(events);
    let b = a.seen_all(failed, true);
    the_last_event_decides(start, events, node, k);
    every_listed_node_is_seen(a, failed, node);
    every_listed_node_is_seen(b, healthy, node);
    crate::rootcause::observed_is_disjoint(events, failed, healthy, extra_failed, extra_healthy);
    let o = observed(events, failed, healthy, extra_failed, extra_healthy);
    if o.failed.contains(node) && o.healthy.contains(node) {
        assert(o.failed.disjoint(o.healthy));
    }
}

/// The weight of a node is the last one that was set for it, if that is above zero, and one
/// otherwise.
pub proof fn the_last_weight_counts(
    weights: Seq<(Seq<char>, Scalar)>,
    node: Seq<char>,
    k: int,
)
    ensures
        0 <= k < weights.len() && weights[k].0 == node && (forall|j: int|
            k < j < weights.len() ==> (#[trigger] weights[j]).0 != node) ==> weight_of(
            weights,
            node,
        ) == if (Scalar { bits: 0 }).below(weights[k].1) {
            weights[k].1
        } else {
            Scalar { bits: 0x3FF0_0000_0000_0000 }
        },
        (forall|j: int| 0 <= j < weights.len() ==> (#[trigger] weights[j]).0 != node) ==> weight_of(
            weights,
            node,
        ) == (Scalar { bits: 0x3FF0_0000_0000_0000 }),
    decreases weights.len(),
{
    if weights.len() > 0 {
        let front = weights.drop_last();
        the_last_weight_counts(front, node, k);
        assert(forall|j: int| 0 <= j < front.len() ==> front[j] == #[trigger] weights[j]);
        assert(weights[weights.len() - 1] == weights.last());
    }
}

/// The candidates of a query are the nodes that the events name, each once, with the weight
/// that was set last; the graph is that of the run.
pub proof fn candidates_are_the_named_nodes(
    query: RootCauseQuery,
    events: Seq<EventView>,
    topology: Topology,
    config: RootCauseConfig,
    extra_failed: Option<Seq<char>>,
    extra_healthy: Option<Seq<char>>,
    node: Seq<char>,
)
    requires
        is_query_of(query, events, topology, config, extra_failed, extra_healthy),
    ensures
        (exists|i: int| 0 <= i < query.prior@.len() && (#[trigger] query.prior@[i]).0@ == node)
            <==> exists|j: int| 0 <= j < events.len() && (#[trigger] events[j]).node_id == node,
        forall|i: int, j: int|
            0 <= i < j < query.prior@.len() ==> (#[trigger] query.prior@[i]).0@ != (
            #[trigger] query.prior@[j]).0@,
        forall|i: int|
            0 <= i < query.prior@.len() ==> (#[trigger] query.prior@[i]).1 == weight_of(
                weight_views(config.prior_weights@),
                query.prior@[i].0@,
            ),
        query.graph.nodes@.len() == topology.node_list().len(),
        forall|i: int|
            0 <= i < query.graph.nodes@.len() ==> (#[trigger] query.graph.nodes@[i])@
                == topology.node_list()[i],
        query.graph.edges@.len() == topology.edge_list().len(),
        forall|i: int|
            0 <= i < query.graph.edges@.len() ==> (#[trigger] query.graph.edges@[i]).0@
                == topology.edge_list()[i].from && query.graph.edges@[i].1@
                == topology.edge_list()[i].to && query.graph.edges@[i].2
                == topology.edge_list()[i].weight,
{
    let list = weight_views(query.prior@);
    let names = choose|names: Seq<Seq<char>>|
        {
            &&& #[trigger] crate::names::ascends(names)
            &&& names.to_set() == named_nodes(events)
            &&& list == Seq::new(
                names.len(),
                |i: int| (names[i], weight_of(weight_views(config.prior_weights@), names[i])),
            )
        };
    assert(list.len() == names.len());
    assert forall|i: int| 0 <= i < query.prior@.len() implies (#[trigger] query.prior@[i]).0@
        == names[i] && query.prior@[i].1 == weight_of(
        weight_views(config.prior_weights@),
        names[i],
    ) by {
        assert(list[i] == (query.prior@[i].0@, query.prior@[i].1));
    }
    assert(names.to_set().contains(node) <==> names.contains(node));
    assert(named_nodes(events).contains(node) <==> exists|j: int|
        0 <= j < events.len() && (#[trigger] events[j]).node_id == node);
    if names.contains(node) {
        let i = choose|i: int| 0 <= i < names.len() && names[i] == node;
        assert(query.prior@[i].0@ == node);
    }
    if exists|i: int| 0 <= i < query.prior@.len() && (#[trigger] query.prior@[i]).0@ == node {
        let i = choose|i: int| 0 <= i < query.prior@.len() && (#[trigger] query.prior@[i]).0@ == node;
        assert(names[i] == node);
    }
    assert forall|i: int, j: int| 0 <= i < j < query.prior@.len() implies (
    #[trigger] query.prior@[i]).0@ != (#[trigger] query.prior@[j]).0@ by {
        assert(crate::text::precedes(names[i], names[j]));
        crate::text::precedes_irreflexive(names[i]);
    }
    assert forall|i: int| 0 <= i < query.graph.nodes@.len() implies (
    #[trigger] query.graph.nodes@[i])@ == topology.node_list()[i] by {
        assert(views(query.graph.nodes@)[i] == query.graph.nodes@[i]@);
    }
    assert forall|i: int| 0 <= i < query.graph.edges@.len() implies (
    #[trigger] query.graph.edges@[i]).0@ == topology.edge_list()[i].from
        && query.graph.edges@[i].1@ == topology.edge_list()[i].to && query.graph.edges@[i].2
        == topology.edge_list()[i].weight by {
        assert(links(query.graph.edges@)[i].from == query.graph.edges@[i].0@);
    }
}

} // verus!
