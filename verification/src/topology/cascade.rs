//! Faults that spread along the edges of a graph.

use crate::fault::{ContextView, Fault, FaultContext};
use crate::message::{Message, PartView};
use crate::rng;
use crate::rng::{first_words, follows, seed_words, upcoming};
use crate::scalar::{draw_below, draw_is_below, Scalar};
use crate::text;
use crate::text::views;
use crate::topology::{edge_views, is_closed, EdgeView, Topology};
use crate::types::{DryRunReport, DryRunView, FaultResult, ResultView};
use rand::rngs::SmallRng;
use vstd::prelude::*;

verus! {

/// Products of edge weights with the intensity of a fault.
///
/// A weight without an entry stands for itself, so that an empty table is that of
/// intensity one.
#[derive(Debug, Default)]
pub struct HopScale {
    /// Weights, each with its product.
    pub products: Vec<(Scalar, Scalar)>,
}

/// Product listed first for `weight`; `weight` itself if there is none.
pub open spec fn product(table: Seq<(Scalar, Scalar)>, weight: Scalar) -> Scalar
    decreases table.len(),
{
    if table.len() == 0 {
        weight
    } else if table[0].0 == weight {
        table[0].1
    } else {
        product(table.skip(1), weight)
    }
}

impl HopScale {
    /// The table of intensity one.
    pub fn unscaled() -> (r: Self)
        ensures
            r.products@.len() == 0,
    {
        HopScale { products: Vec::new() }
    }

    /// Probability that a fault crosses an edge of the given weight.
    pub open spec fn probability(self, weight: Scalar) -> Scalar {
        product(self.products@, weight).unit_clamped()
    }

    /// Probability that a fault crosses an edge of the given weight.
    pub fn hop_probability(&self, weight: Scalar) -> (r: Scalar)
        ensures
            r == self.probability(weight),
    {
        let mut i: usize = 0;
        assert(self.products@.skip(0) =~= self.products@);
        while i < self.products.len()
            invariant
                i <= self.products@.len(),
                product(self.products@, weight) == product(self.products@.skip(i as int), weight),
            decreases self.products@.len() - i,
        {
            assert(self.products@.skip(i as int).skip(1) =~= self.products@.skip(i + 1));
            if self.products[i].0 == weight {
                return self.products[i].1.clamp_unit();
            }
            i += 1;
        }
        weight.clamp_unit()
    }
}

/// One attempt of a fault to cross an edge.
#[derive(Debug, PartialEq, Eq)]
pub struct PropagationHop {
    /// Node that the fault comes from.
    pub from: String,
    /// Node that it tries to reach.
    pub to: String,
    /// Probability of success.
    pub probability: Scalar,
    /// Whether it succeeded.
    pub injected: bool,
}

/// Model of a [`PropagationHop`].
pub struct HopView {
    pub from: Seq<char>,
    pub to: Seq<char>,
    pub probability: Scalar,
    pub injected: bool,
}

impl View for PropagationHop {
    type V = HopView;

    open spec fn view(&self) -> HopView {
        HopView {
            from: self.from@,
            to: self.to@,
            probability: self.probability,
            injected: self.injected,
        }
    }
}

/// Models of a list of hops.
pub open spec fn hop_views(hops: Seq<PropagationHop>) -> Seq<HopView> {
    Seq::new(hops.len(), |i: int| hops[i]@)
}

/// An edge that a fault has yet to try.
pub struct PendingView {
    pub from: Seq<char>,
    pub to: Seq<char>,
    pub weight: Scalar,
    /// Number of hops from the source to `from`.
    pub depth: nat,
}

/// A cascade in progress.
pub struct WalkView {
    /// Edges to be tried, in order.
    pub pending: Seq<PendingView>,
    /// Nodes that the fault has reached.
    pub visited: Set<Seq<char>>,
    /// Edges tried so far.
    pub hops: Seq<HopView>,
}

/// The edges to be tried once the fault has reached `node` after `depth` hops.
pub open spec fn pending_from(
    graph: Map<Seq<char>, Seq<EdgeView>>,
    max_hops: usize,
    node: Seq<char>,
    depth: nat,
) -> Seq<PendingView> {
    if depth < max_hops && graph.contains_key(node) {
        Seq::new(
            graph[node].len(),
            |i: int|
                PendingView {
                    from: node,
                    to: graph[node][i].to,
                    weight: graph[node][i].weight,
                    depth,
                },
        )
    } else {
        Seq::empty()
    }
}

/// A cascade that starts at `source`.
pub open spec fn walk_start(
    graph: Map<Seq<char>, Seq<EdgeView>>,
    max_hops: usize,
    source: Seq<char>,
) -> WalkView {
    WalkView {
        pending: pending_from(graph, max_hops, source, 0),
        visited: set![source],
        hops: Seq::empty(),
    }
}

/// The cascade after the first pending edge has been tried with the random word
/// `word`. A node that is reached for the first time adds its edges to the end.
pub open spec fn walk_step(
    graph: Map<Seq<char>, Seq<EdgeView>>,
    max_hops: usize,
    scale: HopScale,
    walk: WalkView,
    word: u64,
) -> WalkView {
    if walk.pending.len() == 0 {
        walk
    } else {
        let edge = walk.pending[0];
        let probability = scale.probability(edge.weight);
        let injected = draw_is_below(word, probability);
        let fresh = injected && !walk.visited.contains(edge.to);
        WalkView {
            pending: if fresh {
                walk.pending.skip(1) + pending_from(graph, max_hops, edge.to, edge.depth + 1)
            } else {
                walk.pending.skip(1)
            },
            visited: if fresh {
                walk.visited.insert(edge.to)
            } else {
                walk.visited
            },
            hops: walk.hops.push(
                HopView { from: edge.from, to: edge.to, probability, injected },
            ),
        }
    }
}

/// The cascade after one step for each of `words`.
pub open spec fn walk_run(
    graph: Map<Seq<char>, Seq<EdgeView>>,
    max_hops: usize,
    scale: HopScale,
    start: WalkView,
    words: Seq<u64>,
) -> WalkView
    decreases words.len(),
{
    if words.len() == 0 {
        start
    } else {
        walk_step(
            graph,
            max_hops,
            scale,
            walk_run(graph, max_hops, scale, start, words.drop_last()),
            words.last(),
        )
    }
}

struct PendingEdge {
    from: String,
    to: String,
    weight: Scalar,
    depth: usize,
}

spec fn pending_views(list: Seq<PendingEdge>, from: int) -> Seq<PendingView> {
    Seq::new(
        (list.len() - from) as nat,
        |i: int|
            PendingView {
                from: list[from + i].from@,
                to: list[from + i].to@,
                weight: list[from + i].weight,
                depth: list[from + i].depth as nat,
            },
    )
}

/// State of a cascade.
struct Walk {
    pending: Vec<PendingEdge>,
    head: usize,
    visited: Vec<String>,
    hops: Vec<PropagationHop>,
}

impl Walk {
    spec fn valid(self) -> bool {
        self.head <= self.pending@.len()
    }

    spec fn model(self) -> WalkView {
        WalkView {
            pending: pending_views(self.pending@, self.head as int),
            visited: views(self.visited@).to_set(),
            hops: hop_views(self.hops@),
        }
    }

    fn reached(&self, node: &str) -> (r: bool)
        ensures
            r == self.model().visited.contains(node@),
    {
        text::contains(&self.visited, node)
    }

    /// Appends the edges to be tried from `node`.
    fn expand(&mut self, topology: &Topology, max_hops: usize, node: &str, depth: usize)
        requires
            old(self).valid(),
        ensures
            final(self).valid(),
            final(self).model() == (WalkView {
                pending: old(self).model().pending + pending_from(
                    topology@,
                    max_hops,
                    node@,
                    depth as nat,
                ),
                ..old(self).model()
            }),
    {
        let ghost before = self.model().pending;
        let ghost more = pending_from(topology@, max_hops, node@, depth as nat);
        if depth < max_hops {
            match topology.neighbors(node) {
                Some(edges) => {
                    let mut i: usize = 0;
                    assert(more.take(0) =~= Seq::empty());
                    while i < edges.len()
                        invariant
                            i <= edges@.len(),
                            depth < max_hops,
                            topology@.contains_key(node@),
                            edge_views(edges@) == topology@[node@],
                            more == pending_from(topology@, max_hops, node@, depth as nat),
                            more.len() == edges@.len(),
                            self.valid(),
                            self.head == old(self).head,
                            self.visited == old(self).visited,
                            self.hops == old(self).hops,
                            pending_views(self.pending@, self.head as int) =~= before + more.take(
                                i as int,
                            ),
                        decreases edges@.len() - i,
                    {
                        let ghost done = self.pending@;
                        self.pending.push(
                            PendingEdge {
                                from: node.to_owned(),
                                to: edges[i].to.clone(),
                                weight: edges[i].weight,
                                depth,
                            },
                        );
                        proof {
                            assert(edge_views(edges@)[i as int] == edges@[i as int]@);
                            assert(pending_views(self.pending@, self.head as int) =~= pending_views(
                                done,
                                self.head as int,
                            ).push(more[i as int]));
                            assert(more.take(i + 1) =~= more.take(i as int).push(more[i as int]));
                        }
                        i += 1;
                    }
                    assert(more.take(more.len() as int) =~= more);
                },
                None => {
                    assert(before + more =~= before);
                },
            }
        } else {
            assert(before + more =~= before);
        }
    }

    fn start(topology: &Topology, max_hops: usize, source: &str) -> (r: Self)
        ensures
            r.valid(),
            r.model() == walk_start(topology@, max_hops, source@),
    {
        let mut visited: Vec<String> = Vec::new();
        visited.push(source.to_owned());
        let mut r = Walk { pending: Vec::new(), head: 0, visited, hops: Vec::new() };
        proof {
            assert(views(visited@) =~= seq![source@]);
            assert(seq![source@].to_set() =~= set![source@]) by {
                assert(seq![source@][0] == source@);
            }
            assert(r.model().pending =~= Seq::empty());
            assert(r.model().hops =~= Seq::empty());
        }
        r.expand(topology, max_hops, source, 0);
        assert(r.model().pending =~= pending_from(topology@, max_hops, source@, 0));
        r
    }

    fn step(&mut self, topology: &Topology, max_hops: usize, scale: &HopScale, word: u64)
        requires
            old(self).valid(),
        ensures
            final(self).valid(),
            final(self).model() == walk_step(
                topology@,
                max_hops,
                *scale,
                old(self).model(),
                word,
            ),
    {
        if self.head >= self.pending.len() {
            return;
        }
        let ghost start = self.model();
        let from: String = self.pending[self.head].from.clone();
        let to: String = self.pending[self.head].to.clone();
        let weight: Scalar = self.pending[self.head].weight;
        let depth: usize = self.pending[self.head].depth;
        let probability: Scalar = scale.hop_probability(weight);
        let injected: bool = draw_below(word, probability);
        let fresh: bool = injected && !self.reached(to.as_str());
        self.head = self.head + 1;
        proof {
            assert(self.model().pending =~= start.pending.skip(1));
        }
        let ghost tried = self.hops@;
        let target: String = to.clone();
        self.hops.push(PropagationHop { from, to, probability, injected });
        proof {
            assert(hop_views(self.hops@) =~= hop_views(tried).push(
                HopView { from: from@, to: to@, probability, injected },
            ));
        }
        if fresh {
            let ghost known = views(self.visited@);
            self.visited.push(target.clone());
            proof {
                assert(views(self.visited@) =~= known.push(to@));
                assert(views(self.visited@).to_set() =~= known.to_set().insert(to@)) by {
                    broadcast use vstd::seq_lib::group_seq_properties;

                }
            }
            if depth < max_hops {
                self.expand(topology, max_hops, target.as_str(), depth + 1);
            } else {
                assert(pending_from(topology@, max_hops, to@, (depth + 1) as nat)
                    =~= Seq::empty());
                assert(self.model().pending =~= start.pending.skip(1) + pending_from(
                    topology@,
                    max_hops,
                    to@,
                    (depth + 1) as nat,
                ));
            }
        }
    }
}

/// Nodes of `graph` that the cascade has not reached.
spec fn beyond_reach(graph: Map<Seq<char>, Seq<EdgeView>>, walk: WalkView) -> Set<Seq<char>> {
    graph.dom().difference(walk.visited)
}

/// True if every pending edge ends at a node of `graph`.
spec fn stays_inside(graph: Map<Seq<char>, Seq<EdgeView>>, walk: WalkView) -> bool {
    forall|i: int|
        0 <= i < walk.pending.len() ==> graph.contains_key((#[trigger] walk.pending[i]).to)
}

proof fn step_makes_progress(
    graph: Map<Seq<char>, Seq<EdgeView>>,
    max_hops: usize,
    scale: HopScale,
    walk: WalkView,
    word: u64,
)
    requires
        graph.dom().finite(),
        is_closed(graph),
        stays_inside(graph, walk),
        walk.pending.len() > 0,
    ensures
        stays_inside(graph, walk_step(graph, max_hops, scale, walk, word)),
        ({
            let next = walk_step(graph, max_hops, scale, walk, word);
            ||| beyond_reach(graph, next).len() < beyond_reach(graph, walk).len()
            ||| beyond_reach(graph, next).len() == beyond_reach(graph, walk).len()
                && next.pending.len() < walk.pending.len()
        }),
{
    let next = walk_step(graph, max_hops, scale, walk, word);
    let edge = walk.pending[0];
    let more = pending_from(graph, max_hops, edge.to, edge.depth + 1);
    assert forall|i: int| 0 <= i < next.pending.len() implies graph.contains_key(
        (#[trigger] next.pending[i]).to,
    ) by {
        if i < walk.pending.len() - 1 {
            assert(next.pending[i] == walk.pending[i + 1]);
        } else {
            let j = i - (walk.pending.len() - 1);
            assert(next.pending[i] == more[j]);
            assert(graph.contains_key(graph[edge.to][j].to));
        }
    }
    if next.visited != walk.visited {
        assert(graph.contains_key(walk.pending[0].to));
        assert(beyond_reach(graph, next) =~= beyond_reach(graph, walk).remove(edge.to));
        assert(beyond_reach(graph, walk).contains(edge.to));
    }
}

/// The nodes that the fault has reached: `source`, then the ends of the successful
/// hops in order, each once.
pub open spec fn path_of(source: Seq<char>, hops: Seq<HopView>) -> Seq<Seq<char>>
    decreases hops.len(),
{
    if hops.len() == 0 {
        seq![source]
    } else {
        let front = path_of(source, hops.drop_last());
        if hops.last().injected && !front.contains(hops.last().to) {
            front.push(hops.last().to)
        } else {
            front
        }
    }
}

/// A path starts at its source, names no node twice, and holds besides the source
/// exactly the ends of the successful hops.
pub proof fn path_is_exact(source: Seq<char>, hops: Seq<HopView>)
    ensures
        path_of(source, hops).len() > 0,
        path_of(source, hops)[0] == source,
        path_of(source, hops).no_duplicates(),
        forall|node: Seq<char>|
            #[trigger] path_of(source, hops).contains(node) <==> node == source || exists|i: int|
                0 <= i < hops.len() && hops[i].injected && #[trigger] hops[i].to == node,
    decreases hops.len(),
{
    if hops.len() == 0 {
        assert(path_of(source, hops)[0] == source);
    } else {
        let front = path_of(source, hops.drop_last());
        let last = hops.last();
        let path = path_of(source, hops);
        path_is_exact(source, hops.drop_last());
        assert forall|node: Seq<char>| #[trigger] path.contains(node) implies node == source
            || exists|i: int|
            0 <= i < hops.len() && hops[i].injected && #[trigger] hops[i].to == node by {
            if front.contains(node) {
                if node != source {
                    let i = choose|i: int|
                        0 <= i < hops.drop_last().len() && hops.drop_last()[i].injected
                            && #[trigger] hops.drop_last()[i].to == node;
                    assert(hops[i].to == node);
                }
            } else {
                let k = choose|k: int| 0 <= k < path.len() && path[k] == node;
                if k < front.len() {
                    assert(front[k] == node);
                }
                assert(hops[hops.len() - 1].to == node);
            }
        }
        assert forall|node: Seq<char>|
            node == source || exists|i: int|
                0 <= i < hops.len() && hops[i].injected && #[trigger] hops[i].to
                    == node implies #[trigger] path.contains(node) by {
            if front.contains(node) {
                let k = choose|k: int| 0 <= k < front.len() && front[k] == node;
                assert(path[k] == node);
            } else {
                assert(node != source);
                let i = choose|i: int|
                    0 <= i < hops.len() && hops[i].injected && #[trigger] hops[i].to == node;
                if i < hops.len() - 1 {
                    assert(hops.drop_last()[i].to == node);
                }
                assert(path[path.len() - 1] == node);
            }
        }
    }
}

/// In every cascade each hop leaves a node that the fault has reached, and the
/// nodes reached are those of the path.
pub proof fn hops_leave_reached_nodes(
    graph: Map<Seq<char>, Seq<EdgeView>>,
    max_hops: usize,
    scale: HopScale,
    source: Seq<char>,
    words: Seq<u64>,
)
    ensures
        ({
            let walk = walk_run(
                graph,
                max_hops,
                scale,
                walk_start(graph, max_hops, source),
                words,
            );
            &&& forall|i: int|
                0 <= i < walk.hops.len() ==> walk.visited.contains((#[trigger] walk.hops[i]).from)
            &&& forall|i: int|
                0 <= i < walk.pending.len() ==> walk.visited.contains(
                    (#[trigger] walk.pending[i]).from,
                )
            &&& walk.visited == path_of(source, walk.hops).to_set()
        }),
    decreases words.len(),
{
    let start = walk_start(graph, max_hops, source);
    if words.len() == 0 {
        assert(start.visited =~= path_of(source, start.hops).to_set()) by {
            assert(path_of(source, start.hops)[0] == source);
        }
    } else {
        let before = walk_run(graph, max_hops, scale, start, words.drop_last());
        let after = walk_run(graph, max_hops, scale, start, words);
        hops_leave_reached_nodes(graph, max_hops, scale, source, words.drop_last());
        if before.pending.len() > 0 {
            let edge = before.pending[0];
            assert(before.visited.contains(edge.from));
            assert(after.hops.drop_last() =~= before.hops);
            let front = path_of(source, before.hops);
            assert(front.to_set().contains(edge.to) <==> front.contains(edge.to));
            assert(after.visited =~= path_of(source, after.hops).to_set()) by {
                broadcast use vstd::seq_lib::group_seq_properties;

            }
            assert forall|i: int| 0 <= i < after.hops.len() implies after.visited.contains(
                (#[trigger] after.hops[i]).from,
            ) by {
                if i < before.hops.len() {
                    assert(after.hops[i] == before.hops[i]);
                }
            }
            assert forall|i: int| 0 <= i < after.pending.len() implies after.visited.contains(
                (#[trigger] after.pending[i]).from,
            ) by {
                if i < before.pending.len() - 1 {
                    assert(after.pending[i] == before.pending[i + 1]);
                }
            }
        }
    }
}

/// Wraps another fault and spreads it across the edges of a graph.
pub struct CascadeFault {
    /// The fault that is injected at the source.
    pub inner: Box<dyn Fault>,
    /// The graph.
    pub topology: Topology,
    /// Seed of the random draws.
    pub seed: u64,
    /// Largest number of hops from the source.
    pub max_hops: usize,
}

impl CascadeFault {
    /// A cascade without a limit on the number of hops.
    pub fn new(inner: Box<dyn Fault>, topology: Topology, seed: u64) -> (r: Self)
        ensures
            r == (CascadeFault { inner, topology, seed, max_hops: usize::MAX }),
    {
        CascadeFault { inner, topology, seed, max_hops: usize::MAX }
    }

    /// Limits the number of hops from the source.
    pub fn with_max_hops(self, max_hops: usize) -> (r: Self)
        ensures
            r == (CascadeFault { max_hops, ..self }),
    {
        CascadeFault { max_hops, ..self }
    }

    /// The cascade from `source` that the given random words decide.
    pub open spec fn cascade(self, source: Seq<char>, scale: HopScale, words: Seq<u64>) -> WalkView {
        walk_run(
            self.topology@,
            self.max_hops,
            scale,
            walk_start(self.topology@, self.max_hops, source),
            words,
        )
    }

    /// The hops that the given random words decide, one word for each; it stops
    /// when no edge is left or when the words are used up.
    pub fn hops_for_words(
        &self,
        source: &str,
        scale: &HopScale,
        words: &Vec<u64>,
    ) -> (hops: Vec<PropagationHop>)
        ensures
            hop_views(hops@) == self.cascade(source@, *scale, words@).hops,
    {
        let mut walk = Walk::start(&self.topology, self.max_hops, source);
        let mut i: usize = 0;
        assert(words@.take(0) =~= Seq::empty());
        while i < words.len()
            invariant
                i <= words@.len(),
                walk.valid(),
                walk.model() == self.cascade(source@, *scale, words@.take(i as int)),
            decreases words@.len() - i,
        {
            assert(words@.take(i + 1).drop_last() =~= words@.take(i as int));
            walk.step(&self.topology, self.max_hops, scale, words[i]);
            i += 1;
        }
        assert(words@.take(words@.len() as int) =~= words@);
        walk.hops
    }

    /// The cascade from `source` that the first `count` words under this fault's seed
    /// decide.
    pub open spec fn seeded_cascade(
        self,
        source: Seq<char>,
        scale: HopScale,
        count: nat,
    ) -> WalkView {
        self.cascade(source, scale, first_words(seed_words(self.seed), count))
    }

    /// All hops of a cascade from `source`, with the random words under this fault's
    /// seed: as many as it takes until no edge is left.
    pub fn propagation_hops(&self, source: &str, scale: &HopScale) -> (hops: Vec<PropagationHop>)
        ensures
            exists|count: nat|
                {
                    &&& (#[trigger] self.seeded_cascade(source@, *scale, count)).pending.len()
                        == 0
                    &&& hop_views(hops@) == self.seeded_cascade(source@, *scale, count).hops
                },
    {
        let mut rng: SmallRng = rng::seeded(self.seed);
        let mut walk = Walk::start(&self.topology, self.max_hops, source);
        let ghost graph = self.topology@;
        let ghost supply = seed_words(self.seed);
        let ghost mut count: nat = 0;
        assert(first_words(supply, 0) =~= Seq::empty());
        self.topology.check_closed();
        while walk.head < walk.pending.len()
            invariant
                walk.valid(),
                graph == self.topology@,
                graph.dom().finite(),
                is_closed(graph),
                stays_inside(graph, walk.model()),
                supply == seed_words(self.seed),
                follows(upcoming(rng), supply, count),
                walk.model() == self.seeded_cascade(source@, *scale, count),
            decreases beyond_reach(graph, walk.model()).len(), walk.model().pending.len(),
        {
            let ghost before = upcoming(rng);
            let word: u64 = rng::next_word(&mut rng);
            proof {
                step_makes_progress(graph, self.max_hops, *scale, walk.model(), word);
                assert(before[0] == supply[0 + count]);
                assert(first_words(supply, count + 1).drop_last() =~= first_words(supply, count));
                assert(first_words(supply, count + 1).last() == word);
                assert forall|i: nat| #[trigger] upcoming(rng)[i] == supply[i + (count + 1)] by {
                    assert(before[i + 1] == supply[(i + 1) + count]);
                }
                count = count + 1;
            }
            walk.step(&self.topology, self.max_hops, scale, word);
        }
        assert(self.seeded_cascade(source@, *scale, count).pending.len() == 0);
        walk.hops
    }

    /// The nodes reached from `source`, in the order in which the fault reached
    /// them.
    pub fn propagation_path(&self, source: &str, scale: &HopScale) -> (path: Vec<String>)
        ensures
            exists|count: nat|
                {
                    &&& (#[trigger] self.seeded_cascade(source@, *scale, count)).pending.len()
                        == 0
                    &&& views(path@) == path_of(
                        source@,
                        self.seeded_cascade(source@, *scale, count).hops,
                    )
                },
    {
        let hops = self.propagation_hops(source, scale);
        path_from(source, &hops)
    }
}

/// A cascade that no edge is left of stays as it is, however many words follow.
proof fn settled_cascade_stays(
    fault: CascadeFault,
    source: Seq<char>,
    scale: HopScale,
    count: nat,
    more: nat,
)
    requires
        fault.seeded_cascade(source, scale, count).pending.len() == 0,
    ensures
        fault.seeded_cascade(source, scale, count + more) == fault.seeded_cascade(
            source,
            scale,
            count,
        ),
    decreases more,
{
    if more > 0 {
        settled_cascade_stays(fault, source, scale, count, (more - 1) as nat);
        let supply = seed_words(fault.seed);
        assert(first_words(supply, count + more).drop_last() =~= first_words(
            supply,
            (count + more - 1) as nat,
        ));
    }
}

/// A seed decides a cascade: whenever no edge is left, the hops are the same.
pub proof fn seed_decides_the_cascade(
    fault: CascadeFault,
    source: Seq<char>,
    scale: HopScale,
    a: nat,
    b: nat,
)
    requires
        fault.seeded_cascade(source, scale, a).pending.len() == 0,
        fault.seeded_cascade(source, scale, b).pending.len() == 0,
    ensures
        fault.seeded_cascade(source, scale, a).hops == fault.seeded_cascade(
            source,
            scale,
            b,
        ).hops,
{
    if a <= b {
        settled_cascade_stays(fault, source, scale, a, (b - a) as nat);
    } else {
        settled_cascade_stays(fault, source, scale, b, (a - b) as nat);
    }
}

/// The nodes that a list of hops reaches from `source`.
pub fn path_from(source: &str, hops: &Vec<PropagationHop>) -> (path: Vec<String>)
    ensures
        views(path@) == path_of(source@, hop_views(hops@)),
{
    let mut path: Vec<String> = Vec::new();
    path.push(source.to_owned());
    let mut i: usize = 0;
    assert(views(path@) =~= seq![source@]);
    assert(hop_views(hops@).take(0) =~= Seq::empty());
    while i < hops.len()
        invariant
            i <= hops@.len(),
            views(path@) == path_of(source@, hop_views(hops@).take(i as int)),
        decreases hops@.len() - i,
    {
        proof {
            assert(hop_views(hops@).take(i + 1).drop_last() =~= hop_views(hops@).take(i as int));
        }
        if hops[i].injected && !text::contains(&path, hops[i].to.as_str()) {
            let ghost before = views(path@);
            path.push(hops[i].to.clone());
            assert(views(path@) =~= before.push(hops@[i as int].to@));
        }
        i += 1;
    }
    assert(hop_views(hops@).take(hops@.len() as int) =~= hop_views(hops@));
    path
}

impl CascadeFault {
    /// The dry-run report of a cascade, given that of the wrapped fault.
    pub open spec fn preview_of(self, node_id: Seq<char>, inner: DryRunView) -> DryRunView {
        DryRunView {
            fault_type: "cascade_fault"@,
            node_id,
            would_inject: inner.would_inject,
            reason: seq![
                PartView::Text(
                    "cascade dry-run on topology '"@ + self.topology.title() + "' for node "@
                        + node_id + " (inner: "@,
                ),
            ] + inner.reason + seq![PartView::Text(")"@)],
        }
    }
}

impl Fault for CascadeFault {
    open spec fn injects(&self, ctx: ContextView, result: ResultView) -> bool {
        self.inner.injects(ctx, result)
    }

    open spec fn previews(&self, ctx: ContextView, report: DryRunView) -> bool {
        exists|inner: DryRunView|
            #[trigger] self.inner.previews(ctx, inner) && report == self.preview_of(
                ctx.node_id,
                inner,
            )
    }

    open spec fn is_kind(&self, kind: Seq<char>) -> bool {
        kind == "cascade_fault"@
    }

    fn inject(&self, ctx: &FaultContext) -> (r: FaultResult) {
        self.inner.inject(ctx)
    }

    fn dry_run(&self, ctx: &FaultContext) -> (r: DryRunReport) {
        let inner = self.inner.dry_run(ctx);
        let mut words: String = text::concat3(
            "cascade dry-run on topology '",
            self.topology.name(),
            "' for node ",
        );
        words.append(ctx.node_id.as_str());
        words.append(" (inner: ");
        let mut reason = Message::text(words.as_str());
        reason.extend(&inner.reason);
        reason.push_text(")");
        assert(reason@ =~= self.preview_of(ctx@.node_id, inner@).reason);
        DryRunReport {
            fault_type: "cascade_fault".to_owned(),
            node_id: ctx.node_id.clone(),
            would_inject: inner.would_inject,
            reason,
        }
    }

    fn fault_type(&self) -> (r: &'static str) {
        "cascade_fault"
    }
}

} // verus!
