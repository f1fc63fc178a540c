//! Named node graphs and fault cascades across them.

pub mod bayesian;
pub mod cascade;
pub mod reach;

pub use crate::topology::cascade::{CascadeFault, HopScale, PropagationHop};

use crate::message::{Message, Part, PartView};
use crate::scalar::Scalar;
use crate::text;
use crate::text::{expanded, precedes, views};
use vstd::prelude::*;
use vstd::relations::{sorted_by, total_ordering};

verus! {

/// One directed weighted edge, stored with the node that it leaves.
#[derive(Debug, PartialEq, Eq)]
pub struct Edge {
    /// Destination node.
    pub to: String,
    /// Propagation weight in `[0, 1]`.
    pub weight: Scalar,
}

impl Clone for Edge {
    fn clone(&self) -> (r: Self)
        ensures
            r == *self,
    {
        Edge { to: self.to.clone(), weight: self.weight }
    }
}

/// Model of an [`Edge`].
pub struct EdgeView {
    pub to: Seq<char>,
    pub weight: Scalar,
}

impl View for Edge {
    type V = EdgeView;

    open spec fn view(&self) -> EdgeView {
        EdgeView { to: self.to@, weight: self.weight }
    }
}

/// Models of a list of edges.
pub open spec fn edge_views(edges: Seq<Edge>) -> Seq<EdgeView> {
    Seq::new(edges.len(), |i: int| edges[i]@)
}

/// A whole edge: source, destination and weight.
pub struct Link {
    pub from: Seq<char>,
    pub to: Seq<char>,
    pub weight: Scalar,
}

/// Models of a list of whole edges.
pub open spec fn links(edges: Seq<(String, String, Scalar)>) -> Seq<Link> {
    Seq::new(
        edges.len(),
        |i: int| Link { from: edges[i].0@, to: edges[i].1@, weight: edges[i].2 },
    )
}

/// Order of whole edges: by source, then by destination, then by weight.
pub open spec fn link_leq(a: Link, b: Link) -> bool {
    ||| precedes(a.from, b.from)
    ||| a.from == b.from && precedes(a.to, b.to)
    ||| a.from == b.from && a.to == b.to && a.weight.total_rank() <= b.weight.total_rank()
}

/// [`link_leq`] as a value.
pub open spec fn link_order() -> spec_fn(Link, Link) -> bool {
    |a: Link, b: Link| link_leq(a, b)
}

/// The edges that leave `from`, as whole edges.
pub open spec fn links_from(from: Seq<char>, edges: Seq<EdgeView>) -> Seq<Link> {
    Seq::new(edges.len(), |i: int| Link { from, to: edges[i].to, weight: edges[i].weight })
}

/// The edges that leave the nodes of `nodes`, in that order.
pub open spec fn collected(nodes: Seq<Seq<char>>, graph: Map<Seq<char>, Seq<EdgeView>>) -> Seq<Link>
    decreases nodes.len(),
{
    if nodes.len() == 0 {
        Seq::empty()
    } else {
        collected(nodes.drop_last(), graph) + links_from(nodes.last(), graph[nodes.last()])
    }
}

/// True if each element comes before all later ones.
pub open spec fn ascending(list: Seq<Seq<char>>) -> bool {
    forall|i: int, j: int|
        0 <= i < j < list.len() ==> precedes(#[trigger] list[i], #[trigger] list[j])
}

/// `graph` with `node` in it.
pub open spec fn with_node(
    graph: Map<Seq<char>, Seq<EdgeView>>,
    node: Seq<char>,
) -> Map<Seq<char>, Seq<EdgeView>> {
    if graph.contains_key(node) {
        graph
    } else {
        graph.insert(node, Seq::empty())
    }
}

/// `graph` with one more edge, and with both of its ends.
pub open spec fn with_edge(
    graph: Map<Seq<char>, Seq<EdgeView>>,
    from: Seq<char>,
    to: Seq<char>,
    weight: Scalar,
) -> Map<Seq<char>, Seq<EdgeView>> {
    let both = with_node(with_node(graph, to), from);
    both.insert(from, both[from].push(EdgeView { to, weight: weight.unit_clamped() }))
}

/// True if every edge of `graph` ends at one of its nodes and has a weight that
/// needs no bounding.
pub open spec fn is_closed(graph: Map<Seq<char>, Seq<EdgeView>>) -> bool {
    forall|node: Seq<char>, i: int|
        graph.contains_key(node) && 0 <= i < graph[node].len() ==> {
            &&& graph.contains_key((#[trigger] graph[node][i]).to)
            &&& graph[node][i].weight == graph[node][i].weight.unit_clamped()
        }
}

/// A directed graph with a name.
#[derive(Debug, Default, PartialEq, Eq)]
pub struct Topology {
    name: String,
    /// Nodes in ascending order, each with its edges in the order of insertion.
    nodes: Vec<(String, Vec<Edge>)>,
}

spec fn keys(nodes: Seq<(String, Vec<Edge>)>) -> Seq<Seq<char>> {
    Seq::new(nodes.len(), |i: int| nodes[i].0@)
}

spec fn graph_of(nodes: Seq<(String, Vec<Edge>)>) -> Map<Seq<char>, Seq<EdgeView>> {
    Map::new(
        |k: Seq<char>| keys(nodes).contains(k),
        |k: Seq<char>| edge_views(nodes[keys(nodes).index_of(k)].1@),
    )
}

proof fn ascending_is_unique(list: Seq<Seq<char>>)
    requires
        ascending(list),
    ensures
        list.no_duplicates(),
        forall|i: int| 0 <= i < list.len() ==> list.index_of(#[trigger] list[i]) == i,
{
    assert forall|i: int, j: int| 0 <= i < list.len() && 0 <= j < list.len() && i != j implies list[i]
        != list[j] by {
        text::precedes_irreflexive(list[i]);
        if i < j {
            assert(precedes(list[i], list[j]));
        } else {
            assert(precedes(list[j], list[i]));
        }
    }
    assert forall|i: int| 0 <= i < list.len() implies list.index_of(#[trigger] list[i]) == i by {
        let j = list.index_of(list[i]);
        assert(list.contains(list[i]));
        assert(0 <= j < list.len() && list[j] == list[i]);
    }
}

impl Topology {
    #[verifier::type_invariant]
    spec fn well_formed(self) -> bool {
        &&& ascending(keys(self.nodes@))
        &&& is_closed(graph_of(self.nodes@))
    }

    /// The name.
    pub closed spec fn title(self) -> Seq<char> {
        self.name@
    }

    /// The nodes in ascending order.
    pub closed spec fn node_list(self) -> Seq<Seq<char>> {
        keys(self.nodes@)
    }

    /// All edges in ascending order.
    pub open spec fn edge_list(self) -> Seq<Link> {
        collected(self.node_list(), self@).sort_by(link_order())
    }

    /// An empty graph with the given name.
    pub fn named(name: &str) -> (r: Self)
        ensures
            r.title() == name@,
            r@ == Map::<Seq<char>, Seq<EdgeView>>::empty(),
            r.node_list() == Seq::<Seq<char>>::empty(),
    {
        let nodes: Vec<(String, Vec<Edge>)> = Vec::new();
        assert(graph_of(nodes@) =~= Map::empty());
        assert(keys(nodes@) =~= Seq::empty());
        let r = Topology { name: name.to_owned(), nodes };
        r
    }

    /// The name.
    pub fn name(&self) -> (r: &str)
        ensures
            r@ == self.title(),
    {
        self.name.as_str()
    }
}

impl View for Topology {
    type V = Map<Seq<char>, Seq<EdgeView>>;

    /// Each node with the edges that leave it, in the order of insertion.
    closed spec fn view(&self) -> Map<Seq<char>, Seq<EdgeView>> {
        graph_of(self.nodes@)
    }
}

/// Position of the first node that does not precede `id`.
fn lower_bound(nodes: &Vec<(String, Vec<Edge>)>, id: &str) -> (i: usize)
    requires
        ascending(keys(nodes@)),
    ensures
        i <= nodes@.len(),
        forall|j: int| 0 <= j < i ==> precedes(#[trigger] keys(nodes@)[j], id@),
        forall|j: int|
            i <= j < nodes@.len() ==> #[trigger] keys(nodes@)[j] == id@ || precedes(
                id@,
                keys(nodes@)[j],
            ),
        keys(nodes@).contains(id@) <==> i < nodes@.len() && keys(nodes@)[i as int] == id@,
{
    let mut i: usize = 0;
    while i < nodes.len() && text::less(nodes[i].0.as_str(), id)
        invariant
            i <= nodes@.len(),
            forall|j: int| 0 <= j < i ==> precedes(#[trigger] keys(nodes@)[j], id@),
        decreases nodes@.len() - i,
    {
        assert(keys(nodes@)[i as int] == nodes@[i as int].0@);
        i += 1;
    }
    proof {
        let list = keys(nodes@);
        if i < nodes@.len() {
            assert(list[i as int] == nodes@[i as int].0@);
            text::precedes_total(list[i as int], id@);
        }
        assert forall|j: int| i <= j < nodes@.len() implies #[trigger] list[j] == id@ || precedes(
            id@,
            list[j],
        ) by {
            if j > i {
                assert(precedes(list[i as int], list[j]));
                if list[i as int] != id@ {
                    text::precedes_transitive(id@, list[i as int], list[j]);
                }
            }
        }
        if list.contains(id@) {
            let j = choose|j: int| 0 <= j < list.len() && list[j] == id@;
            text::precedes_irreflexive(id@);
            if j > i {
                assert(precedes(list[i as int], list[j]));
                if list[i as int] != id@ {
                    text::precedes_transitive(id@, list[i as int], id@);
                }
            }
        }
    }
    i
}

proof fn graph_insert(
    nodes: Seq<(String, Vec<Edge>)>,
    i: int,
    entry: (String, Vec<Edge>),
)
    requires
        ascending(keys(nodes)),
        0 <= i <= nodes.len(),
        forall|j: int| 0 <= j < i ==> precedes(#[trigger] keys(nodes)[j], entry.0@),
        forall|j: int| i <= j < nodes.len() ==> precedes(entry.0@, #[trigger] keys(nodes)[j]),
    ensures
        ascending(keys(nodes.insert(i, entry))),
        !graph_of(nodes).contains_key(entry.0@),
        graph_of(nodes.insert(i, entry)) == graph_of(nodes).insert(
            entry.0@,
            edge_views(entry.1@),
        ),
{
    let list = keys(nodes);
    let after = nodes.insert(i, entry);
    let grown = keys(after);
    assert(grown =~= list.insert(i, entry.0@));
    assert(ascending(grown)) by {
        assert forall|a: int, b: int| 0 <= a < b < grown.len() implies precedes(
            #[trigger] grown[a],
            #[trigger] grown[b],
        ) by {
            if a < i && b > i {
                assert(list[a] == grown[a] && list[b - 1] == grown[b]);
            } else if a < i && b < i {
                assert(list[a] == grown[a] && list[b] == grown[b]);
            } else if a > i {
                assert(list[a - 1] == grown[a] && list[b - 1] == grown[b]);
            } else if b == i {
                assert(list[a] == grown[a]);
            } else {
                assert(list[b - 1] == grown[b]);
            }
        }
    }
    ascending_is_unique(list);
    ascending_is_unique(grown);
    text::precedes_irreflexive(entry.0@);
    assert forall|k: Seq<char>| list.contains(k) implies k != entry.0@ && grown.contains(k)
        && after[grown.index_of(k)] == nodes[list.index_of(k)] by {
        let j = list.index_of(k);
        assert(list[j] == k);
        let j2 = if j < i {
            j
        } else {
            j + 1
        };
        assert(grown[j2] == k);
        assert(grown.index_of(grown[j2]) == j2);
    }
    assert forall|k: Seq<char>| grown.contains(k) implies k == entry.0@ || list.contains(k) by {
        let j = grown.index_of(k);
        assert(grown[j] == k);
        if j < i {
            assert(list[j] == k);
        } else if j > i {
            assert(list[j - 1] == k);
        }
    }
    assert(grown[i] == entry.0@);
    assert(grown.index_of(grown[i]) == i);
    assert(grown.contains(entry.0@));
    assert(graph_of(after) =~= graph_of(nodes).insert(entry.0@, edge_views(entry.1@)));
}

proof fn graph_update(
    before: Seq<(String, Vec<Edge>)>,
    after: Seq<(String, Vec<Edge>)>,
    i: int,
)
    requires
        ascending(keys(before)),
        0 <= i < before.len(),
        after.len() == before.len(),
        after[i].0@ == before[i].0@,
        forall|j: int| 0 <= j < before.len() && j != i ==> after[j] == before[j],
    ensures
        keys(after) == keys(before),
        graph_of(after) == graph_of(before).insert(before[i].0@, edge_views(after[i].1@)),
{
    let list = keys(before);
    assert(keys(after) =~= list);
    ascending_is_unique(list);
    assert(list[i] == before[i].0@);
    assert(list.index_of(list[i]) == i);
    assert(list.contains(before[i].0@));
    assert forall|k: Seq<char>| list.contains(k) && k != before[i].0@ implies after[list.index_of(
        k,
    )] == before[list.index_of(k)] by {
        assert(list[list.index_of(k)] == k);
    }
    assert(graph_of(after) =~= graph_of(before).insert(before[i].0@, edge_views(after[i].1@)));
}

proof fn lookup(nodes: Seq<(String, Vec<Edge>)>, i: int)
    requires
        ascending(keys(nodes)),
        0 <= i < nodes.len(),
    ensures
        graph_of(nodes).contains_key(nodes[i].0@),
        graph_of(nodes)[nodes[i].0@] == edge_views(nodes[i].1@),
{
    ascending_is_unique(keys(nodes));
    assert(keys(nodes)[i] == nodes[i].0@);
    assert(keys(nodes).contains(nodes[i].0@));
}

/// Makes sure that `id` is a node, and gives its position.
fn ensure_node(nodes: &mut Vec<(String, Vec<Edge>)>, id: &str) -> (i: usize)
    requires
        ascending(keys(old(nodes)@)),
    ensures
        ascending(keys(final(nodes)@)),
        graph_of(final(nodes)@) == with_node(graph_of(old(nodes)@), id@),
        i < final(nodes)@.len(),
        final(nodes)@[i as int].0@ == id@,
{
    let i: usize = lower_bound(nodes, id);
    let ghost before = nodes@;
    let present: bool = i < nodes.len() && text::same(nodes[i].0.as_str(), id);
    assert(i < before.len() ==> keys(before)[i as int] == before[i as int].0@);
    if !present {
        let edges: Vec<Edge> = Vec::new();
        let entry = (id.to_owned(), edges);
        proof {
            assert forall|j: int| i <= j < before.len() implies precedes(
                id@,
                #[trigger] keys(before)[j],
            ) by {
                assert(keys(before)[j] == id@ ==> keys(before).contains(id@));
            }
            graph_insert(before, i as int, entry);
            assert(edge_views(entry.1@) =~= Seq::empty());
        }
        nodes.insert(i, entry);
    } else {
        proof {
            lookup(before, i as int);
        }
    }
    i
}

impl Topology {
    /// Adds a node, unless it is there already.
    pub fn add_node(&mut self, node_id: &str)
        ensures
            final(self)@ == with_node(old(self)@, node_id@),
            final(self).title() == old(self).title(),
    {
        proof {
            use_type_invariant(&*self);
        }
        let mut nodes: Vec<(String, Vec<Edge>)> = Vec::new();
        assert(graph_of(nodes@) =~= Map::empty());
        assert(keys(nodes@) =~= Seq::empty());
        std::mem::swap(&mut nodes, &mut self.nodes);
        ensure_node(&mut nodes, node_id);
        self.nodes = nodes;
    }

    /// Adds a directed edge with its weight bounded to `[0, 1]`, and both of its
    /// ends.
    pub fn add_edge(&mut self, from: &str, to: &str, weight: Scalar)
        ensures
            final(self)@ == with_edge(old(self)@, from@, to@, weight),
            final(self).title() == old(self).title(),
    {
        proof {
            use_type_invariant(&*self);
        }
        let mut nodes: Vec<(String, Vec<Edge>)> = Vec::new();
        assert(graph_of(nodes@) =~= Map::empty());
        assert(keys(nodes@) =~= Seq::empty());
        std::mem::swap(&mut nodes, &mut self.nodes);
        ensure_node(&mut nodes, to);
        let i: usize = ensure_node(&mut nodes, from);
        let ghost before = nodes@;
        let edge = Edge { to: to.to_owned(), weight: weight.clamp_unit() };
        proof {
            lookup(before, i as int);
        }
        nodes[i].1.push(edge);
        proof {
            graph_update(before, nodes@, i as int);
            assert(edge_views(nodes@[i as int].1@) =~= edge_views(before[i as int].1@).push(
                EdgeView { to: to@, weight: weight.unit_clamped() },
            ));
            with_edge_is_closed(old(self)@, from@, to@, weight);
        }
        self.nodes = nodes;
    }
}


/// Adding a node keeps a graph closed.
pub proof fn with_node_is_closed(graph: Map<Seq<char>, Seq<EdgeView>>, node: Seq<char>)
    requires
        is_closed(graph),
    ensures
        is_closed(with_node(graph, node)),
{
}

/// Adding an edge keeps a graph closed: every edge ends at a node of the graph
/// and carries a weight between zero and one.
pub proof fn with_edge_is_closed(
    graph: Map<Seq<char>, Seq<EdgeView>>,
    from: Seq<char>,
    to: Seq<char>,
    weight: Scalar,
)
    requires
        is_closed(graph),
    ensures
        is_closed(with_edge(graph, from, to, weight)),
{
    crate::scalar::unit_clamped_is_bounded(weight);
}

proof fn link_order_is_total()
    ensures
        total_ordering(link_order()),
{
    let r = link_order();
    assert forall|a: Link| #[trigger] r(a, a) by {}
    assert forall|a: Link, b: Link| #[trigger] r(a, b) && #[trigger] r(b, a) implies a == b by {
        text::precedes_irreflexive(a.from);
        text::precedes_irreflexive(a.to);
        if precedes(a.from, b.from) && precedes(b.from, a.from) {
            text::precedes_transitive(a.from, b.from, a.from);
        }
        if precedes(a.to, b.to) && precedes(b.to, a.to) {
            text::precedes_transitive(a.to, b.to, a.to);
        }
        crate::scalar::total_rank_is_injective(a.weight, b.weight);
    }
    assert forall|a: Link, b: Link, c: Link| #[trigger] r(a, b) && #[trigger] r(b, c) implies r(
        a,
        c,
    ) by {
        if precedes(a.from, b.from) && precedes(b.from, c.from) {
            text::precedes_transitive(a.from, b.from, c.from);
        }
        if precedes(a.to, b.to) && precedes(b.to, c.to) {
            text::precedes_transitive(a.to, b.to, c.to);
        }
    }
    assert forall|a: Link, b: Link| #[trigger] r(a, b) || #[trigger] r(b, a) by {
        text::precedes_total(a.from, b.from);
        text::precedes_total(a.to, b.to);
    }
}

/// The edges of a graph are listed in ascending order, each as often as it was
/// added.
pub proof fn edge_list_is_sorted(topology: Topology)
    ensures
        sorted_by(topology.edge_list(), link_order()),
        topology.edge_list().to_multiset() == collected(
            topology.node_list(),
            topology@,
        ).to_multiset(),
{
    link_order_is_total();
    collected(topology.node_list(), topology@).lemma_sort_by_ensures(link_order());
}

fn link_less(a: &(String, String, Scalar), b: &(String, String, Scalar)) -> (r: bool)
    ensures
        r == !link_leq(
            Link { from: b.0@, to: b.1@, weight: b.2 },
            Link { from: a.0@, to: a.1@, weight: a.2 },
        ),
{
    proof {
        text::precedes_total(a.0@, b.0@);
        text::precedes_total(a.1@, b.1@);
        text::precedes_irreflexive(a.0@);
        text::precedes_irreflexive(a.1@);
        if precedes(a.0@, b.0@) && precedes(b.0@, a.0@) {
            text::precedes_transitive(a.0@, b.0@, a.0@);
        }
        if precedes(a.1@, b.1@) && precedes(b.1@, a.1@) {
            text::precedes_transitive(a.1@, b.1@, a.1@);
        }
    }
    if a.0 == b.0 {
        if a.1 == b.1 {
            a.2.total_less(b.2)
        } else {
            text::less(a.1.as_str(), b.1.as_str())
        }
    } else {
        text::less(a.0.as_str(), b.0.as_str())
    }
}

proof fn insert_keeps_contents<A>(s: Seq<A>, i: int, a: A)
    requires
        0 <= i <= s.len(),
    ensures
        s.insert(i, a).to_multiset() == s.push(a).to_multiset(),
{
    let front = s.take(i);
    let back = s.skip(i);
    assert(s =~= front + back);
    assert(s.insert(i, a) =~= (front + seq![a]) + back);
    assert(s.push(a) =~= (front + back) + seq![a]);
    vstd::seq_lib::lemma_multiset_commutative(front, seq![a]);
    vstd::seq_lib::lemma_multiset_commutative(front + seq![a], back);
    vstd::seq_lib::lemma_multiset_commutative(front, back);
    vstd::seq_lib::lemma_multiset_commutative(front + back, seq![a]);
    assert(s.insert(i, a).to_multiset() =~= s.push(a).to_multiset());
}

/// Puts `edge` into an ascending list, behind the edges that equal it.
fn insert_link(sorted: &mut Vec<(String, String, Scalar)>, edge: (String, String, Scalar))
    requires
        sorted_by(links(old(sorted)@), link_order()),
    ensures
        sorted_by(links(final(sorted)@), link_order()),
        links(final(sorted)@).to_multiset() == links(old(sorted)@).push(
            Link { from: edge.0@, to: edge.1@, weight: edge.2 },
        ).to_multiset(),
{
    let ghost link = Link { from: edge.0@, to: edge.1@, weight: edge.2 };
    let ghost list = links(sorted@);
    let ghost r = link_order();
    let mut i: usize = sorted.len();
    while i > 0 && link_less(&edge, &sorted[i - 1])
        invariant
            i <= sorted@.len(),
            links(sorted@) == list,
            link == (Link { from: edge.0@, to: edge.1@, weight: edge.2 }),
            forall|j: int| i <= j < list.len() ==> !link_leq(#[trigger] list[j], link),
        decreases i,
    {
        assert(list[i - 1] == Link {
            from: sorted@[i - 1].0@,
            to: sorted@[i - 1].1@,
            weight: sorted@[i - 1].2,
        });
        i -= 1;
    }
    proof {
        link_order_is_total();
        insert_keeps_contents(list, i as int, link);
        if i > 0 {
            assert(list[i - 1] == Link {
                from: sorted@[i - 1].0@,
                to: sorted@[i - 1].1@,
                weight: sorted@[i - 1].2,
            });
            assert(link_leq(list[i - 1], link));
        }
        let grown = list.insert(i as int, link);
        assert forall|a: int, b: int| 0 <= a < b < grown.len() implies #[trigger] r(
            grown[a],
            grown[b],
        ) by {
            if a < i && b < i {
                assert(r(list[a], list[b]));
            } else if a > i {
                assert(r(list[a - 1], list[b - 1]));
            } else if a == i {
                assert(!link_leq(list[b - 1], link));
                assert(r(list[b - 1], link) || r(link, list[b - 1]));
            } else if b == i {
                assert(r(list[i - 1], link));
                if a < i - 1 {
                    assert(r(list[a], list[i - 1]));
                    assert(r(list[a], link));
                }
            } else {
                assert(r(list[a], list[b - 1]));
            }
        }
    }
    sorted.insert(i, edge);
    assert(links(sorted@) =~= list.insert(i as int, link));
}

impl Topology {
    /// Every edge ends at a node of the graph.
    pub(crate) fn check_closed(&self)
        ensures
            is_closed(self@),
            self@.dom().finite(),
    {
        proof {
            use_type_invariant(self);
            assert(self@.dom() =~= keys(self.nodes@).to_set());
        }
    }

    /// Edges that leave one node; nothing if there is no such node.
    pub fn neighbors(&self, node_id: &str) -> (r: Option<&Vec<Edge>>)
        ensures
            match r {
                Some(edges) => self@.contains_key(node_id@) && edge_views(edges@) == self@[node_id@],
                None => !self@.contains_key(node_id@),
            },
    {
        proof {
            use_type_invariant(self);
        }
        let i: usize = lower_bound(&self.nodes, node_id);
        if i < self.nodes.len() && text::same(self.nodes[i].0.as_str(), node_id) {
            proof {
                lookup(self.nodes@, i as int);
            }
            Some(&self.nodes[i].1)
        } else {
            assert(i < self.nodes@.len() ==> keys(self.nodes@)[i as int] == self.nodes@[i as int].0@);
            None
        }
    }

    /// Number of nodes.
    pub fn node_count(&self) -> (n: usize)
        ensures
            n == self@.dom().len(),
            n == self.node_list().len(),
    {
        proof {
            use_type_invariant(self);
            ascending_is_unique(keys(self.nodes@));
            keys(self.nodes@).unique_seq_to_set();
            assert(self@.dom() =~= keys(self.nodes@).to_set());
        }
        self.nodes.len()
    }

    /// All nodes in ascending order.
    pub fn node_ids(&self) -> (out: Vec<String>)
        ensures
            views(out@) == self.node_list(),
            ascending(views(out@)),
            forall|k: Seq<char>| views(out@).contains(k) <==> self@.contains_key(k),
    {
        proof {
            use_type_invariant(self);
        }
        let mut out: Vec<String> = Vec::new();
        let mut i: usize = 0;
        while i < self.nodes.len()
            invariant
                i <= self.nodes@.len(),
                out@.len() == i,
                forall|j: int| 0 <= j < i ==> #[trigger] out@[j]@ == self.nodes@[j].0@,
            decreases self.nodes@.len() - i,
        {
            out.push(self.nodes[i].0.clone());
            i += 1;
        }
        assert(views(out@) =~= keys(self.nodes@));
        out
    }

    /// All edges in ascending order.
    pub fn edges(&self) -> (out: Vec<(String, String, Scalar)>)
        ensures
            links(out@) == self.edge_list(),
    {
        proof {
            use_type_invariant(self);
            link_order_is_total();
        }
        let ghost list = keys(self.nodes@);
        let mut out: Vec<(String, String, Scalar)> = Vec::new();
        let mut i: usize = 0;
        assert(links(out@) =~= Seq::empty());
        assert(list.take(0) =~= Seq::empty());
        while i < self.nodes.len()
            invariant
                i <= self.nodes@.len(),
                list == keys(self.nodes@),
                ascending(list),
                sorted_by(links(out@), link_order()),
                links(out@).to_multiset() == collected(list.take(i as int), self@).to_multiset(),
            decreases self.nodes@.len() - i,
        {
            let ghost done = collected(list.take(i as int), self@);
            let ghost mine = links_from(list[i as int], self@[list[i as int]]);
            proof {
                lookup(self.nodes@, i as int);
            }
            let edges: &Vec<Edge> = &self.nodes[i].1;
            let mut j: usize = 0;
            assert(done + mine.take(0) =~= done);
            while j < edges.len()
                invariant
                    i < self.nodes@.len(),
                    j <= edges@.len(),
                    edges == self.nodes@[i as int].1,
                    list == keys(self.nodes@),
                    mine == links_from(list[i as int], edge_views(edges@)),
                    sorted_by(links(out@), link_order()),
                    links(out@).to_multiset() == (done + mine.take(j as int)).to_multiset(),
                decreases edges@.len() - j,
            {
                let ghost before = links(out@);
                let ghost link = mine[j as int];
                let from: String = self.nodes[i].0.clone();
                insert_link(&mut out, (from, edges[j].to.clone(), edges[j].weight));
                proof {
                    broadcast use vstd::seq_lib::group_to_multiset_ensures;

                    assert(done + mine.take(j + 1) =~= (done + mine.take(j as int)).push(link));
                    assert(before.push(link).to_multiset() =~= (done + mine.take(
                        j as int,
                    )).push(link).to_multiset());
                }
                j += 1;
            }
            proof {
                assert(mine.take(mine.len() as int) =~= mine);
                assert(list.take(i + 1).drop_last() =~= list.take(i as int));
            }
            i += 1;
        }
        proof {
            assert(list.take(list.len() as int) =~= list);
            edge_list_is_sorted(*self);
            vstd::seq_lib::lemma_sorted_unique(links(out@), self.edge_list(), link_order());
        }
        out
    }
}


impl Clone for Topology {
    fn clone(&self) -> (r: Self)
        ensures
            r@ == self@,
            r.title() == self.title(),
            r.node_list() == self.node_list(),
    {
        proof {
            use_type_invariant(self);
        }
        let mut nodes: Vec<(String, Vec<Edge>)> = Vec::new();
        let mut i: usize = 0;
        while i < self.nodes.len()
            invariant
                i <= self.nodes@.len(),
                nodes@.len() == i,
                forall|j: int|
                    0 <= j < i ==> (#[trigger] nodes@[j]).0@ == self.nodes@[j].0@ && nodes@[j].1@
                        == self.nodes@[j].1@,
            decreases self.nodes@.len() - i,
        {
            nodes.push((self.nodes[i].0.clone(), self.nodes[i].1.clone()));
            i += 1;
        }
        proof {
            assert(keys(nodes@) =~= keys(self.nodes@));
            assert forall|k: Seq<char>| keys(nodes@).contains(k) implies edge_views(
                nodes@[keys(nodes@).index_of(k)].1@,
            ) == edge_views(self.nodes@[keys(nodes@).index_of(k)].1@) by {
                let j = keys(nodes@).index_of(k);
                assert(keys(nodes@)[j] == k);
                assert(nodes@[j].1@ == self.nodes@[j].1@);
            }
            assert(graph_of(nodes@) =~= graph_of(self.nodes@));
        }
        Topology { name: self.name.clone(), nodes }
    }
}

/// Nodes and weighted edges of a graph in which failures spread, as an inference
/// engine takes them. No node fails by itself.
#[derive(Debug, PartialEq, Eq)]
pub struct FailureGraph {
    /// All nodes in ascending order.
    pub nodes: Vec<String>,
    /// All edges in ascending order.
    pub edges: Vec<(String, String, Scalar)>,
}

/// How one character appears inside a quoted DOT string.
pub open spec fn dot_char(c: char) -> Seq<char> {
    if c == '\\' {
        seq!['\\', '\\']
    } else if c == '"' {
        seq!['\\', '"']
    } else if c == '\n' {
        seq!['\\', 'n']
    } else {
        seq![c]
    }
}

/// `s` as the inside of a quoted DOT string.
pub open spec fn dot_escaped(s: Seq<char>) -> Seq<char> {
    expanded(s, |c: char| dot_char(c))
}

/// `s` as the inside of a quoted DOT string.
pub fn escape_dot(s: &str) -> (out: String)
    ensures
        out@ == dot_escaped(s@),
{
    let chars: Vec<char> = text::chars_of(s);
    let mut out: String = String::new();
    let mut i: usize = 0;
    assert(chars@.take(0) =~= Seq::empty());
    while i < chars.len()
        invariant
            i <= chars@.len(),
            out@ == dot_escaped(chars@.take(i as int)),
        decreases chars@.len() - i,
    {
        let c: char = chars[i];
        proof {
            assert(chars@.take(i + 1).drop_last() =~= chars@.take(i as int));
        }
        let ghost before = out@;
        if c == '\\' {
            out.push('\\');
            out.push('\\');
        } else if c == '"' {
            out.push('\\');
            out.push('"');
        } else if c == '\n' {
            out.push('\\');
            out.push('n');
        } else {
            out.push(c);
        }
        assert(out@ =~= before + dot_char(c));
        i += 1;
    }
    assert(chars@.take(chars@.len() as int) =~= chars@);
    out
}

/// True for ASCII letters and digits.
pub open spec fn is_alphanumeric(c: char) -> bool {
    ('0' <= c <= '9') || ('A' <= c <= 'Z') || ('a' <= c <= 'z')
}

/// `s` as a Mermaid identifier: what is no ASCII letter or digit becomes an
/// underscore.
pub open spec fn mermaid_escaped(s: Seq<char>) -> Seq<char> {
    Seq::new(
        s.len(),
        |i: int|
            if is_alphanumeric(s[i]) {
                s[i]
            } else {
                '_'
            },
    )
}

/// `s` as a Mermaid identifier.
pub fn escape_mermaid(s: &str) -> (out: String)
    ensures
        out@ == mermaid_escaped(s@),
{
    let chars: Vec<char> = text::chars_of(s);
    let mut out: String = String::new();
    let mut i: usize = 0;
    while i < chars.len()
        invariant
            i <= chars@.len(),
            out@ =~= mermaid_escaped(chars@.take(i as int)),
        decreases chars@.len() - i,
    {
        let c: char = chars[i];
        if ('0' <= c && c <= '9') || ('A' <= c && c <= 'Z') || ('a' <= c && c <= 'z') {
            out.push(c);
        } else {
            out.push('_');
        }
        i += 1;
    }
    assert(chars@.take(chars@.len() as int) =~= chars@);
    out
}

/// The line of one node in a DOT graph.
pub open spec fn dot_node(node: Seq<char>) -> PartView {
    PartView::Text("  \""@ + dot_escaped(node) + "\";\n"@)
}

/// The line of one edge in a DOT graph: the weight as a percentage, and as a
/// number with three decimals.
pub open spec fn dot_edge(link: Link) -> Seq<PartView> {
    seq![
        PartView::Text(
            "  \""@ + dot_escaped(link.from) + "\" -> \""@ + dot_escaped(link.to)
                + "\" [label=\""@,
        ),
        PartView::BoundedPercent { value: link.weight },
        PartView::Text("%\", weight=\""@),
        PartView::Fixed { value: link.weight, decimals: 3 },
        PartView::Text("\"];\n"@),
    ]
}

/// The edge lines of a DOT graph.
pub open spec fn dot_edges(list: Seq<Link>) -> Seq<PartView>
    decreases list.len(),
{
    if list.len() == 0 {
        Seq::empty()
    } else {
        dot_edges(list.drop_last()) + dot_edge(list.last())
    }
}

/// A graph in the DOT language.
pub open spec fn dot(title: Seq<char>, nodes: Seq<Seq<char>>, edges: Seq<Link>) -> Seq<PartView> {
    seq![
        PartView::Text("digraph \""@ + dot_escaped(title) + "\" {\n"@),
        PartView::Text("  rankdir=LR;\n"@),
        PartView::Text("  node [shape=circle, style=filled, fillcolor=\"#dde6f3\"];\n"@),
    ] + nodes.map_values(|n: Seq<char>| dot_node(n)) + dot_edges(edges) + seq![
        PartView::Text("}\n"@),
    ]
}

/// The line of one node in a Mermaid chart.
pub open spec fn mermaid_node(node: Seq<char>) -> PartView {
    PartView::Text(
        "  "@ + mermaid_escaped(node) + "[\""@ + mermaid_escaped(node) + "\"]\n"@,
    )
}

/// The line of one edge in a Mermaid chart.
pub open spec fn mermaid_edge(link: Link) -> Seq<PartView> {
    seq![
        PartView::Text("  "@ + mermaid_escaped(link.from) + " -->|"@),
        PartView::BoundedPercent { value: link.weight },
        PartView::Text("%| "@ + mermaid_escaped(link.to) + "\n"@),
    ]
}

/// The edge lines of a Mermaid chart.
pub open spec fn mermaid_edges(list: Seq<Link>) -> Seq<PartView>
    decreases list.len(),
{
    if list.len() == 0 {
        Seq::empty()
    } else {
        mermaid_edges(list.drop_last()) + mermaid_edge(list.last())
    }
}

/// A graph as a Mermaid flow chart.
pub open spec fn mermaid(nodes: Seq<Seq<char>>, edges: Seq<Link>) -> Seq<PartView> {
    seq![PartView::Text("graph TD\n"@)] + nodes.map_values(|n: Seq<char>| mermaid_node(n))
        + mermaid_edges(edges)
}

impl Topology {
    /// The graph as an inference engine takes it: every node and every edge, with
    /// the same weights.
    pub fn to_failure_graph(&self) -> (g: FailureGraph)
        ensures
            views(g.nodes@) == self.node_list(),
            links(g.edges@) == self.edge_list(),
    {
        FailureGraph { nodes: self.node_ids(), edges: self.edges() }
    }

    /// The graph in the DOT language of Graphviz. Edge labels carry the weight.
    pub fn to_dot(&self) -> (out: Message)
        ensures
            out@ == dot(self.title(), self.node_list(), self.edge_list()),
    {
        let mut out = Message::new();
        let title: String = escape_dot(self.name());
        let header: String = text::concat3("digraph \"", title.as_str(), "\" {\n");
        out.push_text(header.as_str());
        out.push_text("  rankdir=LR;\n");
        out.push_text("  node [shape=circle, style=filled, fillcolor=\"#dde6f3\"];\n");
        let ghost head = out@;
        let nodes: Vec<String> = self.node_ids();
        let mut i: usize = 0;
        while i < nodes.len()
            invariant
                i <= nodes@.len(),
                out@ =~= head + views(nodes@).take(i as int).map_values(
                    |n: Seq<char>| dot_node(n),
                ),
            decreases nodes@.len() - i,
        {
            let id: String = escape_dot(nodes[i].as_str());
            let line: String = text::concat3("  \"", id.as_str(), "\";\n");
            out.push_text(line.as_str());
            i += 1;
        }
        assert(views(nodes@).take(nodes@.len() as int) =~= views(nodes@));
        let ghost listed = out@;
        let edges: Vec<(String, String, Scalar)> = self.edges();
        let mut j: usize = 0;
        assert(links(edges@).take(0) =~= Seq::empty());
        while j < edges.len()
            invariant
                j <= edges@.len(),
                out@ =~= listed + dot_edges(links(edges@).take(j as int)),
            decreases edges@.len() - j,
        {
            proof {
                assert(links(edges@).take(j + 1).drop_last() =~= links(edges@).take(j as int));
            }
            let from: String = escape_dot(edges[j].0.as_str());
            let to: String = escape_dot(edges[j].1.as_str());
            let mut line: String = text::concat3("  \"", from.as_str(), "\" -> \"");
            line.append(to.as_str());
            line.append("\" [label=\"");
            out.push_text(line.as_str());
            out.push(Part::BoundedPercent { value: edges[j].2 });
            out.push_text("%\", weight=\"");
            out.push(Part::Fixed { value: edges[j].2, decimals: 3 });
            out.push_text("\"];\n");
            j += 1;
        }
        assert(links(edges@).take(edges@.len() as int) =~= links(edges@));
        out.push_text("}\n");
        assert(out@ =~= dot(self.title(), self.node_list(), self.edge_list()));
        out
    }

    /// The graph as a Mermaid flow chart.
    pub fn to_mermaid(&self) -> (out: Message)
        ensures
            out@ == mermaid(self.node_list(), self.edge_list()),
    {
        let mut out = Message::text("graph TD\n");
        let ghost head = out@;
        let nodes: Vec<String> = self.node_ids();
        let mut i: usize = 0;
        while i < nodes.len()
            invariant
                i <= nodes@.len(),
                out@ =~= head + views(nodes@).take(i as int).map_values(
                    |n: Seq<char>| mermaid_node(n),
                ),
            decreases nodes@.len() - i,
        {
            let id: String = escape_mermaid(nodes[i].as_str());
            let mut line: String = text::concat3("  ", id.as_str(), "[\"");
            line.append(id.as_str());
            line.append("\"]\n");
            out.push_text(line.as_str());
            i += 1;
        }
        assert(views(nodes@).take(nodes@.len() as int) =~= views(nodes@));
        let ghost listed = out@;
        let edges: Vec<(String, String, Scalar)> = self.edges();
        let mut j: usize = 0;
        assert(links(edges@).take(0) =~= Seq::empty());
        while j < edges.len()
            invariant
                j <= edges@.len(),
                out@ =~= listed + mermaid_edges(links(edges@).take(j as int)),
            decreases edges@.len() - j,
        {
            proof {
                assert(links(edges@).take(j + 1).drop_last() =~= links(edges@).take(j as int));
            }
            let from: String = escape_mermaid(edges[j].0.as_str());
            let to: String = escape_mermaid(edges[j].1.as_str());
            let front: String = text::concat3("  ", from.as_str(), " -->|");
            out.push_text(front.as_str());
            out.push(Part::BoundedPercent { value: edges[j].2 });
            let back: String = text::concat3("%| ", to.as_str(), "\n");
            out.push_text(back.as_str());
            j += 1;
        }
        assert(links(edges@).take(edges@.len() as int) =~= links(edges@));
        assert(out@ =~= mermaid(self.node_list(), self.edge_list()));
        out
    }
}

/// The graph with the nodes of `nodes` and no edges.
pub open spec fn graph_of_nodes(nodes: Seq<Seq<char>>) -> Map<Seq<char>, Seq<EdgeView>>
    decreases nodes.len(),
{
    if nodes.len() == 0 {
        Map::empty()
    } else {
        with_node(graph_of_nodes(nodes.drop_last()), nodes.last())
    }
}

/// `graph` with all edges of `edges`, added in that order.
pub open spec fn with_edges(
    graph: Map<Seq<char>, Seq<EdgeView>>,
    edges: Seq<Link>,
) -> Map<Seq<char>, Seq<EdgeView>>
    decreases edges.len(),
{
    if edges.len() == 0 {
        graph
    } else {
        let e = edges.last();
        with_edge(with_edges(graph, edges.drop_last()), e.from, e.to, e.weight)
    }
}

/// Builder for [`Topology`].
#[derive(Debug, Default)]
pub struct TopologyBuilder {
    name: Option<String>,
    nodes: Vec<String>,
    edges: Vec<(String, String, Scalar)>,
}

impl TopologyBuilder {
    /// The name that was set.
    pub closed spec fn set_name(self) -> Option<Seq<char>> {
        match self.name {
            Some(s) => Some(s@),
            None => None,
        }
    }

    /// The nodes that were added by themselves, in order.
    pub closed spec fn set_nodes(self) -> Seq<Seq<char>> {
        views(self.nodes@)
    }

    /// The edges that were added, in order.
    pub closed spec fn set_edges(self) -> Seq<Link> {
        links(self.edges@)
    }

    /// Sets the name.
    pub fn name(self, name: &str) -> (r: Self)
        ensures
            r.set_name() == Some(name@),
            r.set_nodes() == self.set_nodes(),
            r.set_edges() == self.set_edges(),
    {
        TopologyBuilder { name: Some(name.to_owned()), nodes: self.nodes, edges: self.edges }
    }

    /// Adds a node.
    pub fn add_node(self, node_id: &str) -> (r: Self)
        ensures
            r.set_name() == self.set_name(),
            r.set_nodes() == self.set_nodes().push(node_id@),
            r.set_edges() == self.set_edges(),
    {
        let mut nodes: Vec<String> = self.nodes;
        let ghost before = views(nodes@);
        nodes.push(node_id.to_owned());
        assert(views(nodes@) =~= before.push(node_id@));
        TopologyBuilder { name: self.name, nodes, edges: self.edges }
    }

    /// Adds a directed edge with its propagation weight, and both of its ends.
    pub fn add_edge(self, from: &str, to: &str, weight: Scalar) -> (r: Self)
        ensures
            r.set_name() == self.set_name(),
            r.set_nodes() == self.set_nodes(),
            r.set_edges() == self.set_edges().push(Link { from: from@, to: to@, weight }),
    {
        let mut edges: Vec<(String, String, Scalar)> = self.edges;
        let ghost before = links(edges@);
        edges.push((from.to_owned(), to.to_owned(), weight));
        assert(links(edges@) =~= before.push(Link { from: from@, to: to@, weight }));
        TopologyBuilder { name: self.name, nodes: self.nodes, edges }
    }

    /// Builds the graph.
    pub fn build(self) -> (r: Topology)
        ensures
            r.title() == match self.set_name() {
                Some(name) => name,
                None => "default-topology"@,
            },
            r@ == with_edges(graph_of_nodes(self.set_nodes()), self.set_edges()),
    {
        let mut topology = match &self.name {
            Some(name) => Topology::named(name.as_str()),
            None => Topology::named("default-topology"),
        };
        let ghost title = topology.title();
        let mut i: usize = 0;
        assert(views(self.nodes@).take(0) =~= Seq::empty());
        while i < self.nodes.len()
            invariant
                i <= self.nodes@.len(),
                topology@ == graph_of_nodes(views(self.nodes@).take(i as int)),
                topology.title() == title,
            decreases self.nodes@.len() - i,
        {
            proof {
                assert(views(self.nodes@).take(i + 1).drop_last() =~= views(self.nodes@).take(
                    i as int,
                ));
            }
            topology.add_node(self.nodes[i].as_str());
            i += 1;
        }
        assert(views(self.nodes@).take(self.nodes@.len() as int) =~= views(self.nodes@));
        let ghost base = topology@;
        let mut j: usize = 0;
        assert(links(self.edges@).take(0) =~= Seq::empty());
        while j < self.edges.len()
            invariant
                j <= self.edges@.len(),
                topology@ == with_edges(base, links(self.edges@).take(j as int)),
                topology.title() == title,
            decreases self.edges@.len() - j,
        {
            proof {
                assert(links(self.edges@).take(j + 1).drop_last() =~= links(self.edges@).take(
                    j as int,
                ));
            }
            let edge = &self.edges[j];
            topology.add_edge(edge.0.as_str(), edge.1.as_str(), edge.2);
            j += 1;
        }
        assert(links(self.edges@).take(self.edges@.len() as int) =~= links(self.edges@));
        topology
    }
}

impl Topology {
    /// Starts building a graph.
    pub fn builder() -> (r: TopologyBuilder)
        ensures
            r.set_name() is None,
            r.set_nodes() == Seq::<Seq<char>>::empty(),
            r.set_edges() == Seq::<Link>::empty(),
    {
        let r = TopologyBuilder { name: None, nodes: Vec::new(), edges: Vec::new() };
        assert(r.set_nodes() =~= Seq::empty());
        assert(r.set_edges() =~= Seq::empty());
        r
    }
}

} // verus!
