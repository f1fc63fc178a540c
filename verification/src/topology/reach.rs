//! How far a cascade gets.
//!
//! A fault only enters a node by an edge that it has a chance to cross. With no chance
//! on any edge it stays where it is, and with certainty on every edge it gets as far as
//! the hops allow.

use crate::scalar::{draw_is_below, Scalar, ONE_BITS};
use crate::topology::cascade::{
    path_of, pending_from, walk_run, walk_start, walk_step, HopScale, WalkView,
};
use crate::topology::EdgeView;
use vstd::prelude::*;

verus! {

/// True if `graph` has an edge from one node to the other.
pub open spec fn has_edge(
    graph: Map<Seq<char>, Seq<EdgeView>>,
    from: Seq<char>,
    to: Seq<char>,
) -> bool {
    graph.contains_key(from) && exists|i: int|
        0 <= i < graph[from].len() && (#[trigger] graph[from][i]).to == to
}

/// True if at most `hops` edges in a row lead from `source` to `node`.
pub open spec fn within(
    graph: Map<Seq<char>, Seq<EdgeView>>,
    source: Seq<char>,
    hops: nat,
    node: Seq<char>,
) -> bool
    decreases hops,
{
    if hops == 0 {
        node == source
    } else {
        ||| within(graph, source, (hops - 1) as nat, node)
        ||| exists|via: Seq<char>|
            within(graph, source, (hops - 1) as nat, via) && #[trigger] has_edge(graph, via, node)
    }
}

/// True if every edge of `graph` has the probability `p`.
pub open spec fn all_edges_have(
    graph: Map<Seq<char>, Seq<EdgeView>>,
    scale: HopScale,
    p: Scalar,
) -> bool {
    forall|node: Seq<char>, i: int|
        graph.contains_key(node) && 0 <= i < graph[node].len() ==> scale.probability(
            (#[trigger] graph[node][i]).weight,
        ) == p
}

/// True if every pending edge of a cascade has the probability `p`.
spec fn pending_have(walk: WalkView, scale: HopScale, p: Scalar) -> bool {
    forall|i: int|
        0 <= i < walk.pending.len() ==> scale.probability((#[trigger] walk.pending[i]).weight) == p
}

proof fn pending_keep(
    graph: Map<Seq<char>, Seq<EdgeView>>,
    max_hops: usize,
    scale: HopScale,
    source: Seq<char>,
    words: Seq<u64>,
    p: Scalar,
)
    requires
        all_edges_have(graph, scale, p),
    ensures
        pending_have(
            walk_run(graph, max_hops, scale, walk_start(graph, max_hops, source), words),
            scale,
            p,
        ),
    decreases words.len(),
{
    let start = walk_start(graph, max_hops, source);
    if words.len() == 0 {
        assert forall|i: int| 0 <= i < start.pending.len() implies scale.probability(
            (#[trigger] start.pending[i]).weight,
        ) == p by {
            assert(start.pending[i].weight == graph[source][i].weight);
        }
    } else {
        let before = walk_run(graph, max_hops, scale, start, words.drop_last());
        let after = walk_run(graph, max_hops, scale, start, words);
        pending_keep(graph, max_hops, scale, source, words.drop_last(), p);
        if before.pending.len() > 0 {
            let edge = before.pending[0];
            let more = pending_from(graph, max_hops, edge.to, edge.depth + 1);
            assert forall|i: int| 0 <= i < after.pending.len() implies scale.probability(
                (#[trigger] after.pending[i]).weight,
            ) == p by {
                if i < before.pending.len() - 1 {
                    assert(after.pending[i] == before.pending[i + 1]);
                } else {
                    let j = i - (before.pending.len() - 1);
                    assert(after.pending[i] == more[j]);
                    assert(more[j].weight == graph[edge.to][j].weight);
                }
            }
        }
    }
}

/// A fault never leaves its source if every edge has the probability zero.
pub proof fn zero_probability_stays(
    graph: Map<Seq<char>, Seq<EdgeView>>,
    max_hops: usize,
    scale: HopScale,
    source: Seq<char>,
    words: Seq<u64>,
    zero: Scalar,
)
    requires
        zero.magnitude() == 0,
        all_edges_have(graph, scale, zero),
    ensures
        path_of(
            source,
            walk_run(graph, max_hops, scale, walk_start(graph, max_hops, source), words).hops,
        ) == seq![source],
    decreases words.len(),
{
    let start = walk_start(graph, max_hops, source);
    if words.len() > 0 {
        let before = walk_run(graph, max_hops, scale, start, words.drop_last());
        let after = walk_run(graph, max_hops, scale, start, words);
        zero_probability_stays(graph, max_hops, scale, source, words.drop_last(), zero);
        pending_keep(graph, max_hops, scale, source, words.drop_last(), zero);
        if before.pending.len() > 0 {
            assert(scale.probability(before.pending[0].weight) == zero);
            crate::scalar::scaled_of_zero(zero);
            vstd::arithmetic::power2::lemma_pow2_pos(1022);
            assert((words.last() / 2048) * vstd::arithmetic::power2::pow2(1022) >= 0)
                by (nonlinear_arith);
            assert(after.hops.drop_last() =~= before.hops);
        }
    }
}

proof fn within_grows(
    graph: Map<Seq<char>, Seq<EdgeView>>,
    source: Seq<char>,
    a: nat,
    b: nat,
    node: Seq<char>,
)
    requires
        a <= b,
        within(graph, source, a, node),
    ensures
        within(graph, source, b, node),
    decreases b - a,
{
    if a < b {
        within_grows(graph, source, a, (b - 1) as nat, node);
    }
}

/// A cascade in which every hop succeeds, while it tries the edges that leave the
/// nodes `d` hops away: all nodes up to that distance are reached, and each edge that
/// leaves them is pending or done.
spec fn reaches_level(
    graph: Map<Seq<char>, Seq<EdgeView>>,
    max_hops: nat,
    source: Seq<char>,
    walk: WalkView,
    d: nat,
) -> bool {
    &&& d <= max_hops
    &&& forall|i: int|
        0 <= i < walk.pending.len() ==> {
            let e = #[trigger] walk.pending[i];
            &&& e.depth == d || e.depth == d + 1
            &&& e.depth < max_hops
            &&& within(graph, source, e.depth, e.from)
            &&& has_edge(graph, e.from, e.to)
        }
    &&& forall|i: int, j: int|
        0 <= i < j < walk.pending.len() ==> (#[trigger] walk.pending[i]).depth <= (
        #[trigger] walk.pending[j]).depth
    &&& forall|v: Seq<char>| within(graph, source, d, v) ==> #[trigger] walk.visited.contains(v)
    &&& forall|v: Seq<char>| #[trigger]
        walk.visited.contains(v) ==> within(graph, source, d + 1, v) && within(
            graph,
            source,
            max_hops,
            v,
        )
    &&& d < max_hops ==> forall|v: Seq<char>, t: Seq<char>|
        within(graph, source, d, v) && #[trigger] has_edge(graph, v, t) ==> walk.visited.contains(t)
            || is_pending(walk, d, v, t)
    &&& d + 1 < max_hops ==> forall|v: Seq<char>, t: Seq<char>|
        walk.visited.contains(v) && !within(graph, source, d, v) && #[trigger] has_edge(
            graph,
            v,
            t,
        ) ==> is_pending(walk, d + 1, v, t)
}

/// True if an edge between the two nodes is pending at the given depth.
spec fn is_pending(walk: WalkView, depth: nat, from: Seq<char>, to: Seq<char>) -> bool {
    exists|j: int|
        0 <= j < walk.pending.len() && (#[trigger] walk.pending[j]).depth == depth
            && walk.pending[j].from == from && walk.pending[j].to == to
}

proof fn pending_from_lists(
    graph: Map<Seq<char>, Seq<EdgeView>>,
    max_hops: usize,
    node: Seq<char>,
    depth: nat,
    to: Seq<char>,
) -> (i: int)
    requires
        depth < max_hops,
        has_edge(graph, node, to),
    ensures
        0 <= i < pending_from(graph, max_hops, node, depth).len(),
        pending_from(graph, max_hops, node, depth)[i].from == node,
        pending_from(graph, max_hops, node, depth)[i].to == to,
        pending_from(graph, max_hops, node, depth)[i].depth == depth,
{
    choose|i: int| 0 <= i < graph[node].len() && (#[trigger] graph[node][i]).to == to
}

proof fn start_reaches_level(
    graph: Map<Seq<char>, Seq<EdgeView>>,
    max_hops: usize,
    source: Seq<char>,
)
    ensures
        reaches_level(graph, max_hops as nat, source, walk_start(graph, max_hops, source), 0),
{
    let walk = walk_start(graph, max_hops, source);
    within_grows(graph, source, 0, 1, source);
    within_grows(graph, source, 0, max_hops as nat, source);
    assert forall|i: int| 0 <= i < walk.pending.len() implies has_edge(
        graph,
        (#[trigger] walk.pending[i]).from,
        walk.pending[i].to,
    ) by {
        assert(graph[source][i].to == walk.pending[i].to);
    }
    if 0 < max_hops {
        assert forall|v: Seq<char>, t: Seq<char>|
            within(graph, source, 0, v) && #[trigger] has_edge(graph, v, t) implies is_pending(
            walk,
            0,
            v,
            t,
        ) by {
            let i = pending_from_lists(graph, max_hops, source, 0, t);
            assert(walk.pending[i].to == t);
        }
    }
}

/// When no edge of depth `d` is pending, the next level has begun.
proof fn level_rises(
    graph: Map<Seq<char>, Seq<EdgeView>>,
    max_hops: usize,
    source: Seq<char>,
    walk: WalkView,
    d: nat,
)
    requires
        reaches_level(graph, max_hops as nat, source, walk, d),
        d < max_hops,
        walk.pending.len() > 0 ==> walk.pending[0].depth == d + 1,
    ensures
        reaches_level(graph, max_hops as nat, source, walk, d + 1),
{
    assert forall|i: int| 0 <= i < walk.pending.len() implies (#[trigger] walk.pending[i]).depth
        == d + 1 by {
        if i > 0 {
            assert(walk.pending[0].depth <= walk.pending[i].depth);
        }
    }
    assert forall|v: Seq<char>| within(graph, source, d + 1, v) implies #[trigger]
        walk.visited.contains(v) by {
        if within(graph, source, d, v) {
        } else {
            let via = choose|via: Seq<char>|
                within(graph, source, d, via) && #[trigger] has_edge(graph, via, v);
            assert(walk.visited.contains(v) || is_pending(walk, d, via, v));
        }
    }
    assert forall|v: Seq<char>| #[trigger] walk.visited.contains(v) implies within(
        graph,
        source,
        d + 2,
        v,
    ) by {
        within_grows(graph, source, d + 1, d + 2, v);
    }
    if d + 1 < max_hops {
        assert forall|v: Seq<char>, t: Seq<char>|
            within(graph, source, d + 1, v) && #[trigger] has_edge(
                graph,
                v,
                t,
            ) implies walk.visited.contains(t) || is_pending(walk, d + 1, v, t) by {
            assert(walk.visited.contains(v));
            if within(graph, source, d, v) {
                assert(walk.visited.contains(t) || is_pending(walk, d, v, t));
            }
        }
    }
}

/// Trying an edge of depth `d` keeps the level.
proof fn step_keeps_level(
    graph: Map<Seq<char>, Seq<EdgeView>>,
    max_hops: usize,
    scale: HopScale,
    source: Seq<char>,
    walk: WalkView,
    word: u64,
    d: nat,
)
    requires
        reaches_level(graph, max_hops as nat, source, walk, d),
        pending_have(walk, scale, Scalar { bits: ONE_BITS }),
        walk.pending.len() > 0,
        walk.pending[0].depth == d,
    ensures
        reaches_level(
            graph,
            max_hops as nat,
            source,
            walk_step(graph, max_hops, scale, walk, word),
            d,
        ),
{
    let edge = walk.pending[0];
    let next = walk_step(graph, max_hops, scale, walk, word);
    let more = pending_from(graph, max_hops, edge.to, d + 1);
    let fresh = !walk.visited.contains(edge.to);
    crate::scalar::every_draw_is_below_one(word);
    assert(draw_is_below(word, scale.probability(edge.weight)));
    assert(next.visited.contains(edge.to));
    assert(within(graph, source, d + 1, edge.to));
    within_grows(graph, source, d + 1, max_hops as nat, edge.to);
    let kept = walk.pending.len() - 1;
    assert forall|i: int| 0 <= i < next.pending.len() implies {
        let e = #[trigger] next.pending[i];
        &&& i < kept ==> e == walk.pending[i + 1]
        &&& i >= kept ==> fresh && e == more[i - kept] && e.depth == d + 1 && d + 1 < max_hops
            && e.from == edge.to && has_edge(graph, e.from, e.to)
    } by {
        if i >= kept {
            let j = i - kept;
            assert(more[j].to == graph[edge.to][j].to);
        }
    }
    assert forall|i: int, j: int| 0 <= i < j < next.pending.len() implies (
    #[trigger] next.pending[i]).depth <= (#[trigger] next.pending[j]).depth by {
        if j < kept {
            assert(walk.pending[i + 1].depth <= walk.pending[j + 1].depth);
        } else if i < kept {
            assert(walk.pending[i + 1].depth <= d + 1);
        }
    }
    assert forall|depth: nat, from: Seq<char>, to: Seq<char>|
        is_pending(walk, depth, from, to) && !(depth == d && to == edge.to) implies #[trigger]
        is_pending(next, depth, from, to) by {
        let j = choose|j: int|
            0 <= j < walk.pending.len() && (#[trigger] walk.pending[j]).depth == depth
                && walk.pending[j].from == from && walk.pending[j].to == to;
        assert(j > 0);
        assert(next.pending[j - 1] == walk.pending[j]);
    }
    if d < max_hops {
        assert forall|v: Seq<char>, t: Seq<char>|
            within(graph, source, d, v) && #[trigger] has_edge(
                graph,
                v,
                t,
            ) implies next.visited.contains(t) || is_pending(next, d, v, t) by {
            assert(walk.visited.contains(t) || is_pending(walk, d, v, t));
        }
    }
    if d + 1 < max_hops {
        assert forall|v: Seq<char>, t: Seq<char>|
            next.visited.contains(v) && !within(graph, source, d, v) && #[trigger] has_edge(
                graph,
                v,
                t,
            ) implies is_pending(next, d + 1, v, t) by {
            if walk.visited.contains(v) {
                assert(is_pending(walk, d + 1, v, t));
            } else {
                let i = pending_from_lists(graph, max_hops, edge.to, d + 1, t);
                assert(next.pending[kept + i] == more[i]);
            }
        }
    }
}

proof fn run_has_level(
    graph: Map<Seq<char>, Seq<EdgeView>>,
    max_hops: usize,
    scale: HopScale,
    source: Seq<char>,
    words: Seq<u64>,
) -> (d: nat)
    requires
        all_edges_have(graph, scale, Scalar { bits: ONE_BITS }),
    ensures
        reaches_level(
            graph,
            max_hops as nat,
            source,
            walk_run(graph, max_hops, scale, walk_start(graph, max_hops, source), words),
            d,
        ),
    decreases words.len(),
{
    let start = walk_start(graph, max_hops, source);
    if words.len() == 0 {
        start_reaches_level(graph, max_hops, source);
        0
    } else {
        let before = walk_run(graph, max_hops, scale, start, words.drop_last());
        let d = run_has_level(graph, max_hops, scale, source, words.drop_last());
        pending_keep(
            graph,
            max_hops,
            scale,
            source,
            words.drop_last(),
            Scalar { bits: ONE_BITS },
        );
        if before.pending.len() == 0 {
            d
        } else if before.pending[0].depth == d {
            step_keeps_level(graph, max_hops, scale, source, before, words.last(), d);
            d
        } else {
            level_rises(graph, max_hops, source, before, d);
            step_keeps_level(graph, max_hops, scale, source, before, words.last(), d + 1);
            d + 1
        }
    }
}

proof fn empty_level_rises_to(
    graph: Map<Seq<char>, Seq<EdgeView>>,
    max_hops: usize,
    source: Seq<char>,
    walk: WalkView,
    d: nat,
)
    requires
        reaches_level(graph, max_hops as nat, source, walk, d),
        walk.pending.len() == 0,
    ensures
        reaches_level(graph, max_hops as nat, source, walk, max_hops as nat),
    decreases max_hops - d,
{
    if d < max_hops {
        level_rises(graph, max_hops, source, walk, d);
        empty_level_rises_to(graph, max_hops, source, walk, d + 1);
    }
}

/// With probability one on every edge, a cascade that no edge is left of has reached
/// exactly the nodes that at most `max_hops` edges in a row lead to.
pub proof fn full_probability_reaches_all(
    graph: Map<Seq<char>, Seq<EdgeView>>,
    max_hops: usize,
    scale: HopScale,
    source: Seq<char>,
    words: Seq<u64>,
    node: Seq<char>,
)
    requires
        all_edges_have(graph, scale, Scalar { bits: ONE_BITS }),
        walk_run(
            graph,
            max_hops,
            scale,
            walk_start(graph, max_hops, source),
            words,
        ).pending.len() == 0,
    ensures
        path_of(
            source,
            walk_run(graph, max_hops, scale, walk_start(graph, max_hops, source), words).hops,
        ).contains(node) <==> within(graph, source, max_hops as nat, node),
{
    let walk = walk_run(graph, max_hops, scale, walk_start(graph, max_hops, source), words);
    let d = run_has_level(graph, max_hops, scale, source, words);
    empty_level_rises_to(graph, max_hops, source, walk, d);
    crate::topology::cascade::hops_leave_reached_nodes(graph, max_hops, scale, source, words);
    let path = path_of(source, walk.hops);
    assert(path.to_set().contains(node) <==> path.contains(node));
    assert(walk.visited.contains(node) <==> within(graph, source, max_hops as nat, node));
}

/// True if an edge leads from one node to the other that a fault crosses with a
/// probability above zero.
pub open spec fn can_cross(
    graph: Map<Seq<char>, Seq<EdgeView>>,
    scale: HopScale,
    from: Seq<char>,
    to: Seq<char>,
) -> bool {
    graph.contains_key(from) && exists|i: int|
        0 <= i < graph[from].len() && (#[trigger] graph[from][i]).to == to && (Scalar {
            bits: 0,
        }).below(scale.probability(graph[from][i].weight))
}

/// True if at most `hops` edges in a row that a fault can cross lead from `source` to
/// `node`.
pub open spec fn can_reach(
    graph: Map<Seq<char>, Seq<EdgeView>>,
    scale: HopScale,
    source: Seq<char>,
    hops: nat,
    node: Seq<char>,
) -> bool
    decreases hops,
{
    if hops == 0 {
        node == source
    } else {
        ||| can_reach(graph, scale, source, (hops - 1) as nat, node)
        ||| exists|via: Seq<char>|
            can_reach(graph, scale, source, (hops - 1) as nat, via) && #[trigger] can_cross(
                graph,
                scale,
                via,
                node,
            )
    }
}

proof fn can_reach_grows(
    graph: Map<Seq<char>, Seq<EdgeView>>,
    scale: HopScale,
    source: Seq<char>,
    a: nat,
    b: nat,
    node: Seq<char>,
)
    requires
        a <= b,
        can_reach(graph, scale, source, a, node),
    ensures
        can_reach(graph, scale, source, b, node),
    decreases b - a,
{
    if a < b {
        can_reach_grows(graph, scale, source, a, (b - 1) as nat, node);
    }
}

/// True if each pending edge is one of the graph, and leaves a node that a fault can
/// reach in as many hops as the edge says, which are fewer than `max_hops`.
spec fn pending_are_reachable(
    graph: Map<Seq<char>, Seq<EdgeView>>,
    max_hops: usize,
    scale: HopScale,
    source: Seq<char>,
    walk: WalkView,
) -> bool {
    forall|i: int|
        0 <= i < walk.pending.len() ==> {
            let e = #[trigger] walk.pending[i];
            &&& e.depth < max_hops
            &&& can_reach(graph, scale, source, e.depth, e.from)
            &&& graph.contains_key(e.from)
            &&& exists|j: int|
                0 <= j < graph[e.from].len() && (#[trigger] graph[e.from][j]).to == e.to
                    && graph[e.from][j].weight == e.weight
        }
}

proof fn pending_from_are_reachable(
    graph: Map<Seq<char>, Seq<EdgeView>>,
    max_hops: usize,
    node: Seq<char>,
    depth: nat,
    i: int,
)
    requires
        0 <= i < pending_from(graph, max_hops, node, depth).len(),
    ensures
        ({
            let e = pending_from(graph, max_hops, node, depth)[i];
            &&& e.depth == depth
            &&& depth < max_hops
            &&& e.from == node
            &&& graph.contains_key(node)
            &&& exists|j: int|
                0 <= j < graph[node].len() && (#[trigger] graph[node][j]).to == e.to
                    && graph[node][j].weight == e.weight
        }),
{
    let e = pending_from(graph, max_hops, node, depth)[i];
    assert(graph[node][i].to == e.to);
}

/// A draw below a probability shows that the probability is above zero.
proof fn success_has_a_chance(word: u64, p: Scalar)
    requires
        draw_is_below(word, p),
    ensures
        (Scalar { bits: 0 }).below(p),
{
    let zero = Scalar { bits: 0 };
    if p.is_finite() {
        crate::scalar::scaled_of_zero(zero);
        assert((word / 2048) * vstd::arithmetic::power2::pow2(1022) >= 0) by (nonlinear_arith);
        crate::scalar::below_is_numeric(zero, p);
    }
}

/// True if a fault can enter the node at `k` in `path` from an earlier node of it.
pub open spec fn is_entered(
    graph: Map<Seq<char>, Seq<EdgeView>>,
    scale: HopScale,
    path: Seq<Seq<char>>,
    k: int,
) -> bool {
    exists|j: int| 0 <= j < k && can_cross(graph, scale, #[trigger] path[j], path[k])
}

proof fn run_is_entered(
    graph: Map<Seq<char>, Seq<EdgeView>>,
    max_hops: usize,
    scale: HopScale,
    source: Seq<char>,
    words: Seq<u64>,
)
    ensures
        ({
            let walk = walk_run(
                graph,
                max_hops,
                scale,
                walk_start(graph, max_hops, source),
                words,
            );
            let path = path_of(source, walk.hops);
            &&& pending_are_reachable(graph, max_hops, scale, source, walk)
            &&& forall|k: int| 0 < k < path.len() ==> #[trigger] is_entered(graph, scale, path, k)
            &&& forall|k: int|
                0 <= k < path.len() ==> can_reach(
                    graph,
                    scale,
                    source,
                    max_hops as nat,
                    #[trigger] path[k],
                )
        }),
    decreases words.len(),
{
    let start = walk_start(graph, max_hops, source);
    let walk = walk_run(graph, max_hops, scale, start, words);
    let path = path_of(source, walk.hops);
    if words.len() == 0 {
        can_reach_grows(graph, scale, source, 0, max_hops as nat, source);
        assert forall|i: int| 0 <= i < walk.pending.len() implies {
            let e = #[trigger] walk.pending[i];
            &&& e.depth < max_hops
            &&& can_reach(graph, scale, source, e.depth, e.from)
            &&& graph.contains_key(e.from)
            &&& exists|j: int|
                0 <= j < graph[e.from].len() && (#[trigger] graph[e.from][j]).to == e.to
                    && graph[e.from][j].weight == e.weight
        } by {
            pending_from_are_reachable(graph, max_hops, source, 0, i);
        }
    } else {
        let before = walk_run(graph, max_hops, scale, start, words.drop_last());
        let front = path_of(source, before.hops);
        run_is_entered(graph, max_hops, scale, source, words.drop_last());
        crate::topology::cascade::hops_leave_reached_nodes(
            graph,
            max_hops,
            scale,
            source,
            words.drop_last(),
        );
        if before.pending.len() > 0 {
            let edge = before.pending[0];
            let p = scale.probability(edge.weight);
            assert(walk.hops.drop_last() =~= before.hops);
            assert(front.to_set().contains(edge.from));
            let at = choose|at: int| 0 <= at < front.len() && front[at] == edge.from;
            if draw_is_below(words.last(), p) {
                success_has_a_chance(words.last(), p);
                assert(can_cross(graph, scale, edge.from, edge.to));
                assert(can_reach(graph, scale, source, edge.depth + 1, edge.to));
                can_reach_grows(graph, scale, source, edge.depth + 1, max_hops as nat, edge.to);
            }
            assert forall|k: int| 0 < k < path.len() implies #[trigger] is_entered(
                graph,
                scale,
                path,
                k,
            ) by {
                if k < front.len() {
                    assert(is_entered(graph, scale, front, k));
                    let j = choose|j: int|
                        0 <= j < k && can_cross(graph, scale, #[trigger] front[j], front[k]);
                    assert(can_cross(graph, scale, path[j], path[k]));
                } else {
                    assert(can_cross(graph, scale, path[at], path[k]));
                }
            }
            assert forall|k: int| 0 <= k < path.len() implies can_reach(
                graph,
                scale,
                source,
                max_hops as nat,
                #[trigger] path[k],
            ) by {
                if k < front.len() {
                    assert(front[k] == path[k]);
                }
            }
            assert forall|i: int| 0 <= i < walk.pending.len() implies {
                let e = #[trigger] walk.pending[i];
                &&& e.depth < max_hops
                &&& can_reach(graph, scale, source, e.depth, e.from)
                &&& graph.contains_key(e.from)
                &&& exists|j: int|
                    0 <= j < graph[e.from].len() && (#[trigger] graph[e.from][j]).to == e.to
                        && graph[e.from][j].weight == e.weight
            } by {
                let kept = before.pending.len() - 1;
                if i < kept {
                    assert(walk.pending[i] == before.pending[i + 1]);
                } else {
                    let more = pending_from(graph, max_hops, edge.to, edge.depth + 1);
                    assert(walk.pending[i] == more[i - kept]);
                    pending_from_are_reachable(
                        graph,
                        max_hops,
                        edge.to,
                        edge.depth + 1,
                        i - kept,
                    );
                }
            }
        }
    }
}

/// Whatever the probabilities and the draws, each node of a path but the source was
/// entered from an earlier node of the path by an edge with a probability above zero, and
/// at most `max_hops` such edges in a row lead to it from the source.
pub proof fn every_node_was_entered(
    graph: Map<Seq<char>, Seq<EdgeView>>,
    max_hops: usize,
    scale: HopScale,
    source: Seq<char>,
    words: Seq<u64>,
    k: int,
)
    requires
        0 <= k < path_of(
            source,
            walk_run(graph, max_hops, scale, walk_start(graph, max_hops, source), words).hops,
        ).len(),
    ensures
        ({
            let path = path_of(
                source,
                walk_run(graph, max_hops, scale, walk_start(graph, max_hops, source), words).hops,
            );
            &&& k == 0 <==> path[k] == source
            &&& k > 0 ==> is_entered(graph, scale, path, k)
            &&& can_reach(graph, scale, source, max_hops as nat, path[k])
        }),
{
    let walk = walk_run(graph, max_hops, scale, walk_start(graph, max_hops, source), words);
    run_is_entered(graph, max_hops, scale, source, words);
    crate::topology::cascade::path_is_exact(source, walk.hops);
    assert(path_of(source, walk.hops)[0] == source);
}

} // verus!
