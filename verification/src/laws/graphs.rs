//! Laws of dependency graphs: which edges a graph has, how they are listed and recorded, and
//! how a fault spreads along them.

use crate::message::PartView;
use crate::replay::{snapshot_of, TopologySnapshot};
use crate::scalar::{draw_is_below, Scalar};
use crate::text::{precedes, views};
use crate::topology::cascade::{
    path_of, pending_from, product, walk_run, walk_start, HopScale, HopView, PendingView, WalkView,
};
use crate::topology::{dot, dot_edges, dot_escaped, mermaid, mermaid_edges, mermaid_escaped};
use crate::topology::{
    collected, graph_of_nodes, is_closed, links_from, with_edges, EdgeView, Link, Topology,
};
use vstd::prelude::*;

verus! {

/// The first entry that names a weight gives its product, and a weight that no entry names
/// stands for itself.
pub proof fn first_entry_gives_the_product(table: Seq<(Scalar, Scalar)>, weight: Scalar, k: int)
    ensures
        0 <= k < table.len() && table[k].0 == weight && (forall|j: int|
            0 <= j < k ==> (#[trigger] table[j]).0 != weight) ==> product(table, weight)
            == table[k].1,
        (forall|j: int| 0 <= j < table.len() ==> (#[trigger] table[j]).0 != weight) ==> product(
            table,
            weight,
        ) == weight,
    decreases table.len(),
{
    if table.len() > 0 {
        let rest = table.skip(1);
        first_entry_gives_the_product(rest, weight, k - 1);
        assert(forall|j: int| 0 <= j < rest.len() ==> #[trigger] rest[j] == table[j + 1]);
        if forall|j: int| 0 <= j < table.len() ==> (#[trigger] table[j]).0 != weight {
            assert forall|j: int| 0 <= j < rest.len() implies (#[trigger] rest[j]).0 != weight by {
                assert(table[j + 1].0 != weight);
            }
        }
        if 0 < k < table.len() && table[k].0 == weight && (forall|j: int|
            0 <= j < k ==> (#[trigger] table[j]).0 != weight) {
            assert forall|j: int| 0 <= j < k - 1 implies (#[trigger] rest[j]).0 != weight by {
                assert(table[j + 1].0 != weight);
            }
        }
    }
}

/// An edge is crossed with the probability that the first entry for its weight lists, or with
/// its weight if no entry names it: zero if that is negative, one if it is above one, and that
/// number itself otherwise.
pub proof fn each_weight_has_its_own_probability(scale: HopScale, weight: Scalar, k: int, p: Scalar)
    requires
        ({
            ||| 0 <= k < scale.products@.len() && scale.products@[k] == (weight, p) && forall|j: int|
                0 <= j < k ==> (#[trigger] scale.products@[j]).0 != weight
            ||| p == weight && forall|j: int|
                0 <= j < scale.products@.len() ==> (#[trigger] scale.products@[j]).0 != weight
        }),
    ensures
        p.below(Scalar { bits: 0 }) ==> scale.probability(weight) == (Scalar { bits: 0 }),
        (Scalar { bits: 0x3FF0_0000_0000_0000 }).below(p) ==> scale.probability(weight) == (Scalar {
            bits: 0x3FF0_0000_0000_0000,
        }),
        !p.below(Scalar { bits: 0 }) && !(Scalar { bits: 0x3FF0_0000_0000_0000 }).below(p)
            ==> scale.probability(weight) == p,
{
    first_entry_gives_the_product(scale.products@, weight, k);
}

/// The edges of `edges` that leave `node`, in order, as a graph holds them.
pub open spec fn leaving(edges: Seq<Link>, node: Seq<char>) -> Seq<EdgeView> {
    edges.filter(|l: Link| l.from == node).map_values(
        |l: Link| EdgeView { to: l.to, weight: l.weight.unit_clamped() },
    )
}

/// A graph that was built holds the nodes that were added and the ends of all edges, and no
/// others; from each node lead exactly the edges that were added there, in order.
pub proof fn built_graph_has_what_was_added(
    nodes: Seq<Seq<char>>,
    edges: Seq<Link>,
    node: Seq<char>,
)
    ensures
        with_edges(graph_of_nodes(nodes), edges).contains_key(node) <==> nodes.contains(node)
            || exists|i: int|
            0 <= i < edges.len() && ((#[trigger] edges[i]).from == node || edges[i].to == node),
        with_edges(graph_of_nodes(nodes), edges).contains_key(node) ==> with_edges(
            graph_of_nodes(nodes),
            edges,
        )[node] == edges.filter(|l: Link| l.from == node).map_values(
            |l: Link| EdgeView { to: l.to, weight: l.weight.unit_clamped() },
        ),
    decreases edges.len(),
{
    if edges.len() == 0 {
        nodes_are_added(nodes, node);
        reveal(Seq::filter);
        assert(leaving(edges, node) =~= Seq::empty());
    } else {
        let front = edges.drop_last();
        let e = edges.last();
        built_graph_has_what_was_added(nodes, front, node);
        crate::laws::lists::filter_grows(edges, |l: Link| l.from == node);
        let before = with_edges(graph_of_nodes(nodes), front);
        let has = |l: Seq<Link>|
            exists|i: int| 0 <= i < l.len() && ((#[trigger] l[i]).from == node || l[i].to == node);
        assert(has(edges) <==> has(front) || e.from == node || e.to == node) by {
            if has(front) {
                let i = choose|i: int|
                    0 <= i < front.len() && ((#[trigger] front[i]).from == node || front[i].to
                        == node);
                assert(edges[i] == front[i]);
            }
            if has(edges) {
                let i = choose|i: int|
                    0 <= i < edges.len() && ((#[trigger] edges[i]).from == node || edges[i].to
                        == node);
                if i < front.len() {
                    assert(edges[i] == front[i]);
                }
            }
            assert(edges[edges.len() - 1] == e);
        }
        if !before.contains_key(node) {
            built_graph_has_what_was_added(nodes, front, node);
            assert forall|i: int| 0 <= i < front.len() implies (#[trigger] front[i]).from
                != node by {}
            crate::laws::lists::nothing_is_chosen(front, |l: Link| l.from == node);
            assert(leaving(front, node) =~= Seq::empty());
        }
        if e.from == node {
            assert(leaving(edges, node) =~= leaving(front, node).push(
                EdgeView { to: e.to, weight: e.weight.unit_clamped() },
            ));
        }
    }
}

proof fn nodes_are_added(nodes: Seq<Seq<char>>, node: Seq<char>)
    ensures
        graph_of_nodes(nodes).contains_key(node) <==> nodes.contains(node),
        graph_of_nodes(nodes).contains_key(node) ==> graph_of_nodes(nodes)[node] == Seq::<
            EdgeView,
        >::empty(),
    decreases nodes.len(),
{
    if nodes.len() > 0 {
        let front = nodes.drop_last();
        nodes_are_added(front, node);
        assert(nodes.contains(node) <==> front.contains(node) || node == nodes.last()) by {
            if front.contains(node) {
                let k = choose|k: int| 0 <= k < front.len() && front[k] == node;
                assert(nodes[k] == node);
            }
            if nodes.contains(node) && node != nodes.last() {
                let k = choose|k: int| 0 <= k < nodes.len() && nodes[k] == node;
                assert(front[k] == node);
            }
            assert(nodes[nodes.len() - 1] == nodes.last());
        }
    }
}

proof fn count_in_sum<A>(a: Seq<A>, b: Seq<A>, x: A)
    ensures
        (a + b).to_multiset().count(x) == a.to_multiset().count(x) + b.to_multiset().count(x),
{
    vstd::seq_lib::lemma_multiset_commutative(a, b);
}

proof fn count_in_push<A>(a: Seq<A>, y: A, x: A)
    ensures
        a.push(y).to_multiset().count(x) == a.to_multiset().count(x) + if x == y {
            1nat
        } else {
            0nat
        },
{
    a.to_multiset_ensures();
}

proof fn count_in_empty<A>(x: A)
    ensures
        Seq::<A>::empty().to_multiset().count(x) == 0,
{
    Seq::<A>::empty().to_multiset_ensures();
}

proof fn links_are_counted(from: Seq<char>, edges: Seq<EdgeView>, link: Link)
    ensures
        links_from(from, edges).to_multiset().count(link) == if link.from == from {
            edges.filter(|e: EdgeView| e.to == link.to && e.weight == link.weight).len()
        } else {
            0
        },
    decreases edges.len(),
{
    reveal(Seq::filter);
    if edges.len() == 0 {
        assert(links_from(from, edges) =~= Seq::empty());
        count_in_empty(link);
    } else {
        let e = edges.last();
        let l = Link { from, to: e.to, weight: e.weight };
        links_are_counted(from, edges.drop_last(), link);
        assert(links_from(from, edges) =~= links_from(from, edges.drop_last()).push(l));
        count_in_push(links_from(from, edges.drop_last()), l, link);
    }
}

proof fn collected_are_counted(
    nodes: Seq<Seq<char>>,
    graph: Map<Seq<char>, Seq<EdgeView>>,
    link: Link,
)
    requires
        nodes.no_duplicates(),
    ensures
        collected(nodes, graph).to_multiset().count(link) == if nodes.contains(link.from) {
            graph[link.from].filter(
                |e: EdgeView| e.to == link.to && e.weight == link.weight,
            ).len()
        } else {
            0
        },
    decreases nodes.len(),
{
    if nodes.len() == 0 {
        count_in_empty(link);
    } else {
        let front = nodes.drop_last();
        let n = nodes.last();
        collected_are_counted(front, graph, link);
        links_are_counted(n, graph[n], link);
        count_in_sum(collected(front, graph), links_from(n, graph[n]), link);
        assert(nodes[nodes.len() - 1] == n);
        if front.contains(link.from) {
            let k = choose|k: int| 0 <= k < front.len() && front[k] == link.from;
            assert(nodes[k] == link.from);
        } else if nodes.contains(link.from) {
            let k = choose|k: int| 0 <= k < nodes.len() && nodes[k] == link.from;
            if k < front.len() {
                assert(front[k] == link.from);
            }
        }
        if link.from == n {
            assert(!front.contains(n)) by {
                if front.contains(n) {
                    let k = choose|k: int| 0 <= k < front.len() && front[k] == n;
                    assert(nodes[k] == nodes[nodes.len() - 1]);
                }
            }
        }
    }
}

/// A graph lists every edge as often as it leaves its node, and no other edge.
pub proof fn every_edge_is_listed(topology: Topology, link: Link)
    requires
        topology.node_list().no_duplicates(),
    ensures
        topology.edge_list().to_multiset().count(link) == if topology.node_list().contains(
            link.from,
        ) {
            topology@[link.from].filter(
                |e: EdgeView| e.to == link.to && e.weight == link.weight,
            ).len()
        } else {
            0
        },
{
    crate::topology::edge_list_is_sorted(topology);
    collected_are_counted(topology.node_list(), topology@, link);
}

/// A graph lists its edges by their sources, those of one source by their ends, and those
/// between the same nodes by their weights.
pub proof fn edges_are_listed_in_order(topology: Topology, i: int, j: int)
    requires
        0 <= i < j < topology.edge_list().len(),
    ensures
        ({
            let a = topology.edge_list()[i];
            let b = topology.edge_list()[j];
            &&& !precedes(b.from, a.from)
            &&& a.from == b.from ==> !precedes(b.to, a.to)
            &&& a.from == b.from && a.to == b.to ==> !b.weight.below(a.weight)
        }),
{
    crate::topology::edge_list_is_sorted(topology);
    let a = topology.edge_list()[i];
    let b = topology.edge_list()[j];
    let leq = crate::topology::link_order();
    assert(leq(a, b));
    crate::text::precedes_irreflexive(a.from);
    crate::text::precedes_irreflexive(a.to);
    if precedes(a.from, b.from) && precedes(b.from, a.from) {
        crate::text::precedes_transitive(a.from, b.from, a.from);
    }
    if precedes(a.to, b.to) && precedes(b.to, a.to) {
        crate::text::precedes_transitive(a.to, b.to, a.to);
    }
}

proof fn leaving_is_counted(edges: Seq<Link>, node: Seq<char>, edge: EdgeView)
    requires
        forall|i: int|
            0 <= i < edges.len() ==> (#[trigger] edges[i]).weight.unit_clamped()
                == edges[i].weight,
    ensures
        leaving(edges, node).to_multiset().count(edge) == edges.to_multiset().count(
            Link { from: node, to: edge.to, weight: edge.weight },
        ),
    decreases edges.len(),
{
    let link = Link { from: node, to: edge.to, weight: edge.weight };
    if edges.len() == 0 {
        reveal(Seq::filter);
        assert(leaving(edges, node) =~= Seq::empty());
        assert(edges =~= Seq::empty());
        count_in_empty(edge);
        count_in_empty(link);
    } else {
        let front = edges.drop_last();
        let e = edges.last();
        assert forall|i: int| 0 <= i < front.len() implies (
        #[trigger] front[i]).weight.unit_clamped() == front[i].weight by {
            assert(edges[i] == front[i]);
        }
        leaving_is_counted(front, node, edge);
        crate::laws::lists::filter_grows(edges, |l: Link| l.from == node);
        assert(edges =~= front.push(e));
        count_in_push(front, e, link);
        assert(edges[edges.len() - 1] == e);
        if e.from == node {
            let last = EdgeView { to: e.to, weight: e.weight.unit_clamped() };
            assert(leaving(edges, node) =~= leaving(front, node).push(last));
            count_in_push(leaving(front, node), last, edge);
        }
    }
}

proof fn edges_are_counted(edges: Seq<EdgeView>, edge: EdgeView)
    ensures
        edges.to_multiset().count(edge) == edges.filter(
            |e: EdgeView| e.to == edge.to && e.weight == edge.weight,
        ).len(),
    decreases edges.len(),
{
    reveal(Seq::filter);
    if edges.len() == 0 {
        assert(edges =~= Seq::empty());
        count_in_empty(edge);
    } else {
        edges_are_counted(edges.drop_last(), edge);
        assert(edges =~= edges.drop_last().push(edges.last()));
        count_in_push(edges.drop_last(), edges.last(), edge);
    }
}

/// The edges that a recorded graph holds.
pub open spec fn recorded_edges(snapshot: TopologySnapshot) -> Seq<Link> {
    Seq::new(
        snapshot.edges@.len(),
        |i: int|
            Link {
                from: snapshot.edges@[i].from@,
                to: snapshot.edges@[i].to@,
                weight: snapshot.edges@[i].weight,
            },
    )
}

/// A record of a graph holds its name, its nodes and its edges as the graph lists them: each
/// recorded edge goes from where to where the listed one goes, with its weight.
pub proof fn recorded_edges_keep_their_direction(snapshot: TopologySnapshot, topology: Topology)
    requires
        snapshot@ == snapshot_of(topology),
    ensures
        snapshot.name@ == topology.title(),
        snapshot.nodes@.len() == topology.node_list().len(),
        forall|i: int|
            0 <= i < snapshot.nodes@.len() ==> (#[trigger] snapshot.nodes@[i])@
                == topology.node_list()[i],
        snapshot.edges@.len() == topology.edge_list().len(),
        forall|i: int|
            0 <= i < snapshot.edges@.len() ==> (#[trigger] snapshot.edges@[i]).from@
                == topology.edge_list()[i].from && snapshot.edges@[i].to@
                == topology.edge_list()[i].to && snapshot.edges@[i].weight
                == topology.edge_list()[i].weight,
{
    assert forall|i: int| 0 <= i < snapshot.nodes@.len() implies (#[trigger] snapshot.nodes@[i])@
        == topology.node_list()[i] by {
        assert(views(snapshot.nodes@)[i] == snapshot.nodes@[i]@);
    }
    assert forall|i: int| 0 <= i < snapshot.edges@.len() implies (
    #[trigger] snapshot.edges@[i]).from@ == topology.edge_list()[i].from && snapshot.edges@[i].to@
        == topology.edge_list()[i].to && snapshot.edges@[i].weight
        == topology.edge_list()[i].weight by {
        assert(snapshot@.edges[i] == snapshot.edges@[i]@);
    }
}

/// A graph that is built again from its record has the same nodes, and from each node lead the
/// same edges, each as often.
pub proof fn recorded_graph_can_be_built_again(
    snapshot: TopologySnapshot,
    topology: Topology,
    node: Seq<char>,
)
    requires
        snapshot@ == snapshot_of(topology),
        topology.node_list().no_duplicates(),
        topology.node_list().to_set() == topology@.dom(),
        is_closed(topology@),
    ensures
        ({
            let again = with_edges(
                graph_of_nodes(views(snapshot.nodes@)),
                recorded_edges(snapshot),
            );
            &&& again.contains_key(node) <==> topology@.contains_key(node)
            &&& topology@.contains_key(node) ==> again[node].to_multiset()
                == topology@[node].to_multiset()
        }),
{
    let nodes = views(snapshot.nodes@);
    let edges = recorded_edges(snapshot);
    recorded_edges_keep_their_direction(snapshot, topology);
    assert(nodes =~= topology.node_list());
    assert(edges =~= topology.edge_list());
    assert forall|i: int| 0 <= i < edges.len() implies topology@.contains_key(
        (#[trigger] edges[i]).from,
    ) && topology@.contains_key(edges[i].to) && edges[i].weight.unit_clamped()
        == edges[i].weight by {
        let link = edges[i];
        every_edge_is_listed(topology, link);
        edges.to_multiset_ensures();
        assert(edges.contains(link));
        assert(edges.to_multiset().count(link) > 0);
        assert(topology.node_list().to_set().contains(link.from));
        let p = |e: EdgeView| e.to == link.to && e.weight == link.weight;
        crate::laws::lists::nothing_is_chosen(topology@[link.from], p);
        let k = choose|k: int|
            0 <= k < topology@[link.from].len() && p(#[trigger] topology@[link.from][k]);
        assert(topology@.contains_key(topology@[link.from][k].to));
    }
    built_graph_has_what_was_added(nodes, edges, node);
    assert(topology.node_list().to_set().contains(node) <==> nodes.contains(node));
    if topology@.contains_key(node) {
        let again = with_edges(graph_of_nodes(nodes), edges);
        assert(again[node] == leaving(edges, node));
        assert forall|e: EdgeView| #[trigger] again[node].to_multiset().count(e)
            == topology@[node].to_multiset().count(e) by {
            leaving_is_counted(edges, node, e);
            every_edge_is_listed(
                topology,
                Link { from: node, to: e.to, weight: e.weight },
            );
            edges_are_counted(topology@[node], e);
        }
        assert(again[node].to_multiset() =~= topology@[node].to_multiset());
    }
}

/// Every hop tries an edge with the probability of the edge, and the random word of that hop
/// decides: it succeeds exactly if the draw falls below the probability.
pub proof fn each_word_decides_its_hop(
    graph: Map<Seq<char>, Seq<EdgeView>>,
    max_hops: usize,
    scale: HopScale,
    source: Seq<char>,
    words: Seq<u64>,
    k: int,
)
    ensures
        ({
            let walk = walk_run(
                graph,
                max_hops,
                scale,
                walk_start(graph, max_hops, source),
                words,
            );
            &&& walk.hops.len() <= words.len()
            &&& walk.pending.len() > 0 ==> walk.hops.len() == words.len()
            &&& 0 <= k < walk.hops.len() ==> (walk.hops[k].injected <==> draw_is_below(
                words[k],
                walk.hops[k].probability,
            ))
        }),
    decreases words.len(),
{
    if words.len() > 0 {
        let start = walk_start(graph, max_hops, source);
        let before = walk_run(graph, max_hops, scale, start, words.drop_last());
        each_word_decides_its_hop(graph, max_hops, scale, source, words.drop_last(), k);
        if before.pending.len() > 0 && 0 <= k < before.hops.len() {
            assert(words.drop_last()[k] == words[k]);
        }
    }
}

/// An edge of a cascade: where it leaves, where it ends, and how probably it is crossed.
pub open spec fn tried(hop: HopView) -> (Seq<char>, Seq<char>, Scalar) {
    (hop.from, hop.to, hop.probability)
}

/// An edge of a cascade that is yet to be tried.
pub open spec fn waiting(edge: PendingView, scale: HopScale) -> (Seq<char>, Seq<char>, Scalar) {
    (edge.from, edge.to, scale.probability(edge.weight))
}

/// The edges that leave a node, in the order of the graph.
pub open spec fn fan(
    graph: Map<Seq<char>, Seq<EdgeView>>,
    scale: HopScale,
    node: Seq<char>,
) -> Seq<(Seq<char>, Seq<char>, Scalar)> {
    if graph.contains_key(node) {
        graph[node].map_values(|e: EdgeView| (node, e.to, scale.probability(e.weight)))
    } else {
        Seq::empty()
    }
}

/// A fault that is not held up by the limit on hops tries the edges of the nodes in the order
/// in which it reached them, those of one node in the order of the graph, and each once: what
/// was tried and what is still to be tried are together all edges of the path.
pub proof fn edges_are_tried_in_order(
    graph: Map<Seq<char>, Seq<EdgeView>>,
    max_hops: usize,
    scale: HopScale,
    source: Seq<char>,
    words: Seq<u64>,
)
    requires
        path_of(
            source,
            walk_run(graph, max_hops, scale, walk_start(graph, max_hops, source), words).hops,
        ).len() <= max_hops,
    ensures
        ({
            let walk = walk_run(
                graph,
                max_hops,
                scale,
                walk_start(graph, max_hops, source),
                words,
            );
            walk.hops.map_values(|h: HopView| (h.from, h.to, h.probability))
                + walk.pending.map_values(
                |e: PendingView| (e.from, e.to, scale.probability(e.weight)),
            ) == path_of(source, walk.hops).map_values(
                |n: Seq<char>|
                    if graph.contains_key(n) {
                        graph[n].map_values(
                            |e: EdgeView| (n, e.to, scale.probability(e.weight)),
                        )
                    } else {
                        Seq::empty()
                    },
            ).flatten()
        }),
    decreases words.len(),
{
    let start = walk_start(graph, max_hops, source);
    let walk = walk_run(graph, max_hops, scale, start, words);
    walk_is_in_order(graph, max_hops, scale, source, words);
    let path = path_of(source, walk.hops);
    assert(walk.hops.map_values(|h: HopView| (h.from, h.to, h.probability))
        =~= walk.hops.map_values(|h: HopView| tried(h)));
    assert(walk.pending.map_values(|e: PendingView| (e.from, e.to, scale.probability(e.weight)))
        =~= walk.pending.map_values(|e: PendingView| waiting(e, scale)));
    assert(path.map_values(
        |n: Seq<char>|
            if graph.contains_key(n) {
                graph[n].map_values(|e: EdgeView| (n, e.to, scale.probability(e.weight)))
            } else {
                Seq::empty()
            },
    ) =~= path.map_values(|n: Seq<char>| fan(graph, scale, n)));
}

spec fn in_order(
    graph: Map<Seq<char>, Seq<EdgeView>>,
    scale: HopScale,
    source: Seq<char>,
    walk: WalkView,
) -> bool {
    walk.hops.map_values(|h: HopView| tried(h)) + walk.pending.map_values(
        |e: PendingView| waiting(e, scale),
    ) == path_of(source, walk.hops).map_values(|n: Seq<char>| fan(graph, scale, n)).flatten()
}

proof fn walk_is_in_order(
    graph: Map<Seq<char>, Seq<EdgeView>>,
    max_hops: usize,
    scale: HopScale,
    source: Seq<char>,
    words: Seq<u64>,
)
    requires
        path_of(
            source,
            walk_run(graph, max_hops, scale, walk_start(graph, max_hops, source), words).hops,
        ).len() <= max_hops,
    ensures
        ({
            let walk = walk_run(
                graph,
                max_hops,
                scale,
                walk_start(graph, max_hops, source),
                words,
            );
            &&& in_order(graph, scale, source, walk)
            &&& forall|i: int|
                0 <= i < walk.pending.len() ==> (#[trigger] walk.pending[i]).depth < path_of(
                    source,
                    walk.hops,
                ).len()
        }),
    decreases words.len(),
{
    let start = walk_start(graph, max_hops, source);
    let walk = walk_run(graph, max_hops, scale, start, words);
    let path = path_of(source, walk.hops);
    let f = |n: Seq<char>| fan(graph, scale, n);
    let t = |h: HopView| tried(h);
    let w = |e: PendingView| waiting(e, scale);
    if words.len() == 0 {
        assert(path =~= seq![source]);
        assert(path.drop_last() =~= Seq::empty());
        crate::laws::lists::flat_images_grow(path, f);
        assert(path.drop_last().map_values(f) =~= Seq::empty());
        assert(start.pending.map_values(w) =~= fan(graph, scale, source));
        assert(start.hops.map_values(t) + start.pending.map_values(w) =~= path.map_values(
            f,
        ).flatten());
    } else {
        let before = walk_run(graph, max_hops, scale, start, words.drop_last());
        let front = path_of(source, before.hops);
        if before.pending.len() == 0 {
            walk_is_in_order(graph, max_hops, scale, source, words.drop_last());
        } else {
            let edge = before.pending[0];
            assert(walk.hops.drop_last() =~= before.hops);
            assert(path == front || path == front.push(edge.to));
            walk_is_in_order(graph, max_hops, scale, source, words.drop_last());
            crate::topology::cascade::hops_leave_reached_nodes(
                graph,
                max_hops,
                scale,
                source,
                words.drop_last(),
            );
            assert(front.to_set().contains(edge.to) <==> front.contains(edge.to));
            assert(before.pending =~= seq![edge] + before.pending.skip(1));
            let rest = before.pending.skip(1);
            assert(walk.hops.map_values(t) =~= before.hops.map_values(t).push(w(edge)));
            assert(walk.hops.map_values(t) + rest.map_values(w) =~= before.hops.map_values(t)
                + before.pending.map_values(w));
            if walk.hops.last().injected && !front.contains(edge.to) {
                let more = pending_from(graph, max_hops, edge.to, edge.depth + 1);
                assert(walk.pending == rest + more);
                assert(path.drop_last() =~= front);
                crate::laws::lists::flat_images_grow(path, f);
                assert(edge.depth + 1 < max_hops);
                assert(more.map_values(w) =~= fan(graph, scale, edge.to));
                assert(walk.pending.map_values(w) =~= rest.map_values(w) + more.map_values(w));
                assert(walk.hops.map_values(t) + walk.pending.map_values(w)
                    =~= path.map_values(f).flatten());
                assert forall|i: int| 0 <= i < walk.pending.len() implies (
                #[trigger] walk.pending[i]).depth < path.len() by {
                    if i < rest.len() {
                        assert(walk.pending[i] == before.pending[i + 1]);
                    } else {
                        assert(walk.pending[i] == more[i - rest.len()]);
                    }
                }
            } else {
                assert(walk.pending == rest);
                assert forall|i: int| 0 <= i < walk.pending.len() implies (
                #[trigger] walk.pending[i]).depth < path.len() by {
                    assert(walk.pending[i] == before.pending[i + 1]);
                }
            }
        }
    }
}

/// A path names the nodes in the order in which the fault first reached them: a node that a
/// later hop reached for the first time stands behind those that earlier hops reached.
pub proof fn paths_follow_the_hops(
    source: Seq<char>,
    hops: Seq<HopView>,
    i: int,
    j: int,
    a: int,
    b: int,
)
    requires
        0 <= i < j < hops.len(),
        hops[i].injected,
        hops[j].injected,
        hops[j].to != source,
        forall|k: int| 0 <= k < j && hops[k].injected ==> (#[trigger] hops[k]).to != hops[j].to,
        0 <= a < path_of(source, hops).len(),
        0 <= b < path_of(source, hops).len(),
        path_of(source, hops)[a] == hops[i].to,
        path_of(source, hops)[b] == hops[j].to,
    ensures
        a < b,
    decreases hops.len(),
{
    let front = hops.drop_last();
    let path = path_of(source, hops);
    let earlier = path_of(source, front);
    crate::topology::cascade::path_is_exact(source, hops);
    crate::topology::cascade::path_is_exact(source, front);
    assert(front[i] == hops[i]);
    assert(earlier.contains(hops[i].to)) by {
        assert(front[i].to == hops[i].to);
    }
    let at = choose|at: int| 0 <= at < earlier.len() && earlier[at] == hops[i].to;
    assert(path[at] == hops[i].to);
    assert(a == at);
    if j == hops.len() - 1 {
        assert(!earlier.contains(hops[j].to)) by {
            if earlier.contains(hops[j].to) {
                let k = choose|k: int|
                    0 <= k < front.len() && front[k].injected && #[trigger] front[k].to
                        == hops[j].to;
                assert(hops[k].to == hops[j].to);
            }
        }
        if b < earlier.len() {
            assert(earlier[b] == hops[j].to);
        }
    } else {
        assert(front[j] == hops[j]);
        assert(earlier.contains(hops[j].to)) by {
            assert(front[j].to == hops[j].to);
        }
        let bt = choose|bt: int| 0 <= bt < earlier.len() && earlier[bt] == hops[j].to;
        assert(path[bt] == hops[j].to);
        assert(b == bt);
        assert forall|k: int| 0 <= k < j && front[k].injected implies (#[trigger] front[k]).to
            != front[j].to by {
            assert(front[k] == hops[k]);
        }
        paths_follow_the_hops(source, front, i, j, a, b);
    }
}

/// The edges of a drawn graph are drawn one after the other, each from where it leaves to where
/// it ends, with its weight.
pub proof fn every_edge_is_drawn(list: Seq<Link>)
    ensures
        dot_edges(list) == list.map_values(
            |l: Link|
                seq![
                    PartView::Text(
                        "  \""@ + dot_escaped(l.from) + "\" -> \""@ + dot_escaped(l.to)
                            + "\" [label=\""@,
                    ),
                    PartView::BoundedPercent { value: l.weight },
                    PartView::Text("%\", weight=\""@),
                    PartView::Fixed { value: l.weight, decimals: 3 },
                    PartView::Text("\"];\n"@),
                ],
        ).flatten(),
        mermaid_edges(list) == list.map_values(
            |l: Link|
                seq![
                    PartView::Text("  "@ + mermaid_escaped(l.from) + " -->|"@),
                    PartView::BoundedPercent { value: l.weight },
                    PartView::Text("%| "@ + mermaid_escaped(l.to) + "\n"@),
                ],
        ).flatten(),
    decreases list.len(),
{
    if list.len() > 0 {
        every_edge_is_drawn(list.drop_last());
        crate::laws::lists::flat_images_grow(
            list,
            |l: Link|
                seq![
                    PartView::Text(
                        "  \""@ + dot_escaped(l.from) + "\" -> \""@ + dot_escaped(l.to)
                            + "\" [label=\""@,
                    ),
                    PartView::BoundedPercent { value: l.weight },
                    PartView::Text("%\", weight=\""@),
                    PartView::Fixed { value: l.weight, decimals: 3 },
                    PartView::Text("\"];\n"@),
                ],
        );
        crate::laws::lists::flat_images_grow(
            list,
            |l: Link|
                seq![
                    PartView::Text("  "@ + mermaid_escaped(l.from) + " -->|"@),
                    PartView::BoundedPercent { value: l.weight },
                    PartView::Text("%| "@ + mermaid_escaped(l.to) + "\n"@),
                ],
        );
    }
}

/// A drawn graph has one line for each node, in order, and between its first and its last lines
/// the nodes come before the edges.
pub proof fn every_node_is_drawn(
    title: Seq<char>,
    nodes: Seq<Seq<char>>,
    edges: Seq<Link>,
    i: int,
)
    requires
        0 <= i < nodes.len(),
    ensures
        dot(title, nodes, edges).len() == 3 + nodes.len() + dot_edges(edges).len() + 1,
        dot(title, nodes, edges)[0] == PartView::Text(
            "digraph \""@ + dot_escaped(title) + "\" {\n"@,
        ),
        dot(title, nodes, edges)[3 + i] == PartView::Text(
            "  \""@ + dot_escaped(nodes[i]) + "\";\n"@,
        ),
        dot(title, nodes, edges).subrange(
            3 + nodes.len() as int,
            3 + nodes.len() + dot_edges(edges).len() as int,
        ) == dot_edges(edges),
        dot(title, nodes, edges).last() == PartView::Text("}\n"@),
        mermaid(nodes, edges).len() == 1 + nodes.len() + mermaid_edges(edges).len(),
        mermaid(nodes, edges)[0] == PartView::Text("graph TD\n"@),
        mermaid(nodes, edges)[1 + i] == PartView::Text(
            "  "@ + mermaid_escaped(nodes[i]) + "[\""@ + mermaid_escaped(nodes[i]) + "\"]\n"@,
        ),
        mermaid(nodes, edges).skip(1 + nodes.len() as int) == mermaid_edges(edges),
{
    let d = dot(title, nodes, edges);
    assert(d.subrange(
        3 + nodes.len() as int,
        3 + nodes.len() + dot_edges(edges).len() as int,
    ) =~= dot_edges(edges));
    assert(mermaid(nodes, edges).skip(1 + nodes.len() as int) =~= mermaid_edges(edges));
}

/// In a quoted name only quotes, backslashes and line breaks are written otherwise, each with a
/// backslash before it; in a chart every character that is no letter and no digit becomes an
/// underscore.
pub proof fn drawn_names_are_harmless(s: Seq<char>)
    ensures
        dot_escaped(s) == s.map_values(
            |c: char|
                if c == '"' || c == '\\' {
                    seq!['\\', c]
                } else if c == '\n' {
                    seq!['\\', 'n']
                } else {
                    seq![c]
                },
        ).flatten(),
        mermaid_escaped(s).len() == s.len(),
        forall|i: int|
            0 <= i < s.len() ==> #[trigger] mermaid_escaped(s)[i] == if ('0' <= s[i] <= '9') || (
            'A' <= s[i] <= 'Z') || ('a' <= s[i] <= 'z') {
                s[i]
            } else {
                '_'
            },
{
    crate::laws::words::replacements_stand_in_a_row(s, |c: char| crate::topology::dot_char(c));
    assert(s.map_values(|c: char| crate::topology::dot_char(c)) =~= s.map_values(
        |c: char|
            if c == '"' || c == '\\' {
                seq!['\\', c]
            } else if c == '\n' {
                seq!['\\', 'n']
            } else {
                seq![c]
            },
    ));
}

} // verus!
