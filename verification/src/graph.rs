//! Dependency graphs over the nodes `0..n`, and the order in which their nodes can be carried out.
//!
//! A graph is a sequence `g` in which `g[v]` lists the nodes that node `v` waits for. The same
//! node may be listed more than once; each listing counts as one edge.

use vstd::prelude::*;
use std::collections::VecDeque;
use crate::graph_lemmas::{
    lemma_children, lemma_distinct_is_short, lemma_enqueue, lemma_latest,
    lemma_occurrences_contains, lemma_occurrences_prefix, lemma_occurrences_take,
    lemma_open_edges_none, lemma_open_edges_push, lemma_order_is_free, lemma_pigeonhole,
    lemma_rest_is_stuck, lemma_roots_open, lemma_same_start, lemma_waiting_push,
    lemma_waiting_update, lemma_walk, walk,
};

verus! {

/// Every entry of every list names a node of the graph.
pub open spec fn well_formed(g: Seq<Seq<int>>) -> bool {
    forall|v: int, k: int|
        0 <= v < g.len() && 0 <= k < g[v].len() ==> 0 <= #[trigger] g[v][k] < g.len()
}

/// The graph that the executable adjacency lists stand for.
pub open spec fn graph_of(deps: Seq<Vec<usize>>) -> Seq<Seq<int>> {
    Seq::new(deps.len(), |v: int| Seq::new(deps[v]@.len(), |k: int| deps[v]@[k] as int))
}

/// The numbers of an executable list of nodes.
pub open spec fn ints(s: Seq<usize>) -> Seq<int> {
    Seq::new(s.len(), |i: int| s[i] as int)
}

/// Node `v` of the graph waits for a member of `s`.
pub open spec fn waits_inside(g: Seq<Seq<int>>, s: Set<int>, v: int) -> bool {
    0 <= v < g.len() && exists|k: int| 0 <= k < g[v].len() && s.contains(#[trigger] g[v][k])
}

/// A set of nodes each of which waits for another member of the set: none of them can ever
/// start.
pub open spec fn closed(g: Seq<Seq<int>>, s: Set<int>) -> bool {
    forall|v: int| s.contains(v) ==> #[trigger] waits_inside(g, s, v)
}

/// Node `v` belongs to some closed set.
pub open spec fn stuck(g: Seq<Seq<int>>, v: int) -> bool {
    exists|s: Set<int>| closed(g, s) && s.contains(v)
}

/// The position after `t` on a round trip of `len` stops.
pub open spec fn next_stop(t: int, len: int) -> int {
    if t + 1 < len {
        t + 1
    } else {
        0
    }
}

/// The node at stop `t` of the round trip `c` waits for the node at the next stop.
pub open spec fn waits_for_next(g: Seq<Seq<int>>, c: Seq<int>, t: int) -> bool {
    g[c[t]].contains(c[next_stop(t, c.len() as int)])
}

/// `c` is a round trip: each of its nodes waits for the next one, and the last for the first.
pub open spec fn is_cycle(g: Seq<Seq<int>>, c: Seq<int>) -> bool {
    &&& c.len() > 0
    &&& forall|t: int| 0 <= t < c.len() ==> 0 <= #[trigger] c[t] < g.len()
    &&& forall|t: int| 0 <= t < c.len() ==> #[trigger] waits_for_next(g, c, t)
}

/// Some round trip leads through the graph.
pub open spec fn has_cycle(g: Seq<Seq<int>>) -> bool {
    exists|c: Seq<int>| is_cycle(g, c)
}

/// Every entry of `order` names one of the nodes `0..n`.
pub open spec fn in_range(order: Seq<int>, n: int) -> bool {
    forall|i: int| 0 <= i < order.len() ==> 0 <= #[trigger] order[i] < n
}

/// No node stands twice in `order`.
pub open spec fn distinct(order: Seq<int>) -> bool {
    forall|i: int, j: int| 0 <= i < j < order.len() ==> order[i] != order[j]
}

/// Every node of `order` comes after all the nodes it waits for.
pub open spec fn respects(g: Seq<Seq<int>>, order: Seq<int>) -> bool {
    forall|i: int, k: int|
        0 <= i < order.len() && 0 <= k < g[order[i]].len() ==> order.take(i).contains(
            #[trigger] g[order[i]][k],
        )
}

/// The position in `order` of the last node that is among `deps`, or -1 where there is none.
pub open spec fn latest(order: Seq<int>, deps: Seq<int>) -> int
    decreases order.len(),
{
    if order.len() == 0 {
        -1
    } else if deps.contains(order.last()) {
        order.len() - 1
    } else {
        latest(order.drop_last(), deps)
    }
}

/// The node at position `a` became ready before the one at position `b`, or together with it
/// while standing before it in the graph.
pub open spec fn comes_first(g: Seq<Seq<int>>, order: Seq<int>, a: int, b: int) -> bool {
    let ra = latest(order, g[order[a]]);
    let rb = latest(order, g[order[b]]);
    ra < rb || (ra == rb && order[a] < order[b])
}

/// Nodes stand in the order in which they became ready; nodes that became ready together
/// stand as in the graph.
pub open spec fn first_ready_first(g: Seq<Seq<int>>, order: Seq<int>) -> bool {
    forall|a: int, b: int| 0 <= a < b < order.len() ==> comes_first(g, order, a, b)
}

/// `order` is the arrangement of the nodes of `g` that can be carried out.
pub open spec fn is_arrangement(g: Seq<Seq<int>>, order: Seq<int>) -> bool {
    &&& in_range(order, g.len() as int)
    &&& distinct(order)
    &&& respects(g, order)
    &&& first_ready_first(g, order)
    &&& forall|v: int| 0 <= v < g.len() ==> (order.contains(v) <==> !stuck(g, v))
}

/// Each entry is less than the entries behind it.
pub open spec fn ascending(s: Seq<int>) -> bool {
    forall|i: int, j: int| 0 <= i < j < s.len() ==> s[i] < s[j]
}

/// `pending` lists, in rising order, the nodes of `g` that can never start.
pub open spec fn is_pending(g: Seq<Seq<int>>, pending: Seq<int>) -> bool {
    &&& ascending(pending)
    &&& forall|v: int| pending.contains(v) <==> (0 <= v < g.len() && stuck(g, v))
}

/// The arrangement of the nodes of `g`.
pub open spec fn arrangement_of(g: Seq<Seq<int>>) -> Seq<int> {
    choose|order: Seq<int>| is_arrangement(g, order)
}

/// The nodes of `g` that can never start, in rising order.
pub open spec fn pending_of(g: Seq<Seq<int>>) -> Seq<int> {
    choose|pending: Seq<int>| is_pending(g, pending)
}

/// How often `x` occurs in `s`.
pub open spec fn occurrences(s: Seq<int>, x: int) -> nat
    decreases s.len(),
{
    if s.len() == 0 {
        0
    } else {
        occurrences(s.drop_last(), x) + if s.last() == x {
            1nat
        } else {
            0nat
        }
    }
}

/// How many entries of `deps` are not among `done`.
pub open spec fn open_edges(deps: Seq<int>, done: Seq<int>) -> nat
    decreases deps.len(),
{
    if deps.len() == 0 {
        0
    } else {
        open_edges(deps.drop_last(), done) + if done.contains(deps.last()) {
            0nat
        } else {
            1nat
        }
    }
}

/// One `c` for each entry of `row` that names `p`.
pub open spec fn row_children(row: Seq<int>, p: int, c: int) -> Seq<int>
    decreases row.len(),
{
    if row.len() == 0 {
        Seq::empty()
    } else {
        row_children(row.drop_last(), p, c) + if row.last() == p {
            seq![c]
        } else {
            Seq::empty()
        }
    }
}

/// The nodes below `upto` that wait for `p`, in rising order, one entry for each edge.
pub open spec fn children(g: Seq<Seq<int>>, p: int, upto: int) -> Seq<int>
    decreases upto,
{
    if upto <= 0 {
        Seq::empty()
    } else {
        children(g, p, upto - 1) + row_children(g[upto - 1], p, upto - 1)
    }
}

/// How many entries of `counts` are not zero.
pub open spec fn waiting(counts: Seq<usize>) -> nat
    decreases counts.len(),
{
    if counts.len() == 0 {
        0
    } else {
        waiting(counts.drop_last()) + if counts.last() > 0 {
            1nat
        } else {
            0nat
        }
    }
}

/// The executable list holds the numbers of `b`.
pub open spec fn same_ints(a: Seq<usize>, b: Seq<int>) -> bool {
    &&& a.len() == b.len()
    &&& forall|i: int| 0 <= i < a.len() ==> a[i] as int == b[i]
}

/// Every node of a round trip is stuck.
pub proof fn lemma_cycle_is_stuck(g: Seq<Seq<int>>, c: Seq<int>)
    requires
        is_cycle(g, c),
    ensures
        forall|t: int| 0 <= t < c.len() ==> stuck(g, #[trigger] c[t]),
{
    let s = Set::new(|x: int| c.contains(x));
    assert forall|v: int| s.contains(v) implies #[trigger] waits_inside(g, s, v) by {
        let t = choose|t: int| 0 <= t < c.len() && c[t] == v;
        let next = c[next_stop(t, c.len() as int)];
        assert(waits_for_next(g, c, t));
        let k = choose|k: int| 0 <= k < g[v].len() && g[v][k] == next;
        assert(c.contains(next));
        assert(s.contains(g[v][k]));
    }
    assert(closed(g, s));
    assert forall|t: int| 0 <= t < c.len() implies stuck(g, #[trigger] c[t]) by {
        assert(c.contains(c[t]));
        assert(s.contains(c[t]));
    }
}

/// From a stuck node a round trip can be reached.
pub proof fn lemma_stuck_has_cycle(g: Seq<Seq<int>>, v: int)
    requires
        stuck(g, v),
    ensures
        has_cycle(g),
{
    let s = choose|s: Set<int>| closed(g, s) && s.contains(v);
    let n = g.len() as int;
    let w = Seq::new((n + 1) as nat, |i: int| walk(g, s, v, i as nat));
    assert forall|i: int| 0 <= i < w.len() implies 0 <= #[trigger] w[i] < n by {
        lemma_walk(g, s, v, i as nat);
    }
    lemma_pigeonhole(w, n);
    let (i, j) = choose|i: int, j: int| 0 <= i < j < w.len() && w[i] == w[j];
    let c = Seq::new((j - i) as nat, |t: int| walk(g, s, v, (i + t) as nat));
    assert forall|t: int| 0 <= t < c.len() implies 0 <= #[trigger] c[t] < g.len() by {
        lemma_walk(g, s, v, (i + t) as nat);
    }
    assert forall|t: int| 0 <= t < c.len() implies #[trigger] waits_for_next(g, c, t) by {
        lemma_walk(g, s, v, (i + t) as nat);
        let next = walk(g, s, v, (i + t) as nat + 1);
        assert(g[c[t]].contains(next));
        if t + 1 < c.len() {
            assert(c[t + 1] == next);
        } else {
            assert(next == w[j]);
            assert(c[0] == w[i]);
        }
    }
    assert(is_cycle(g, c));
}

/// A graph has a round trip exactly where one of its nodes is stuck.
pub proof fn lemma_cycle_iff_stuck(g: Seq<Seq<int>>)
    ensures
        has_cycle(g) <==> exists|v: int| stuck(g, v),
{
    if has_cycle(g) {
        let c = choose|c: Seq<int>| is_cycle(g, c);
        lemma_cycle_is_stuck(g, c);
        assert(stuck(g, c[0]));
    }
    if exists|v: int| stuck(g, v) {
        let v = choose|v: int| stuck(g, v);
        lemma_stuck_has_cycle(g, v);
    }
}

/// A graph has one arrangement only.
pub proof fn lemma_arrangement_unique(g: Seq<Seq<int>>, a: Seq<int>, b: Seq<int>)
    requires
        is_arrangement(g, a),
        is_arrangement(g, b),
    ensures
        a == b,
{
    lemma_same_start(g, a, b, a.len() as int);
    lemma_same_start(g, b, a, b.len() as int);
    assert(a.take(a.len() as int) =~= a);
    assert(b.take(b.len() as int) =~= b);
}

/// An arrangement of `g` is the one that `arrangement_of` names.
pub proof fn lemma_arrangement_of(g: Seq<Seq<int>>, order: Seq<int>)
    requires
        is_arrangement(g, order),
    ensures
        arrangement_of(g) == order,
{
    lemma_arrangement_unique(g, arrangement_of(g), order);
}

/// Two rising lists with the same members are the same list.
pub proof fn lemma_ascending_unique(a: Seq<int>, b: Seq<int>)
    requires
        ascending(a),
        ascending(b),
        forall|v: int| a.contains(v) <==> b.contains(v),
    ensures
        a == b,
    decreases a.len(),
{
    if a.len() == 0 {
        if b.len() > 0 {
            assert(b.contains(b[0]));
        }
        assert(a =~= b);
    } else {
        assert(a.contains(a.last()));
        assert(b.contains(a.last()));
        assert(b.contains(b.last()));
        assert(a.contains(b.last()));
        let i = choose|i: int| 0 <= i < b.len() && b[i] == a.last();
        let j = choose|j: int| 0 <= j < a.len() && a[j] == b.last();
        assert(a.last() == b.last());
        let a0 = a.drop_last();
        let b0 = b.drop_last();
        assert forall|v: int| a0.contains(v) <==> b0.contains(v) by {
            if a0.contains(v) {
                let x = choose|x: int| 0 <= x < a0.len() && a0[x] == v;
                assert(a[x] == v);
                assert(a.contains(v));
                let y = choose|y: int| 0 <= y < b.len() && b[y] == v;
                assert(b0[y] == v);
            }
            if b0.contains(v) {
                let y = choose|y: int| 0 <= y < b0.len() && b0[y] == v;
                assert(b[y] == v);
                assert(b.contains(v));
                let x = choose|x: int| 0 <= x < a.len() && a[x] == v;
                assert(a0[x] == v);
            }
        }
        lemma_ascending_unique(a0, b0);
        assert(a =~= a0.push(a.last()));
        assert(b =~= b0.push(b.last()));
    }
}

/// A rising list of the stuck nodes of `g` is the one that `pending_of` names.
pub proof fn lemma_pending_of(g: Seq<Seq<int>>, pending: Seq<int>)
    requires
        is_pending(g, pending),
    ensures
        pending_of(g) == pending,
{
    lemma_ascending_unique(pending_of(g), pending);
}

/// The arrangement of a graph holds every node exactly where the graph has no round trip.
pub proof fn lemma_arrangement_complete(g: Seq<Seq<int>>, order: Seq<int>)
    requires
        well_formed(g),
        is_arrangement(g, order),
    ensures
        order.len() <= g.len(),
        order.len() == g.len() <==> !has_cycle(g),
{
    let n = g.len() as int;
    lemma_cycle_iff_stuck(g);
    lemma_distinct_is_short(order, n);
    if !has_cycle(g) {
        let all = Seq::new(n as nat, |i: int| i);
        if order.len() < n {
            // every node is placed, so their positions are n numbers below the length
            let pos = Seq::new(n as nat, |v: int| order.index_of(v));
            assert forall|v: int| 0 <= v < n implies 0 <= #[trigger] pos[v] < order.len()
                && order[pos[v]] == v by {
                assert(!stuck(g, v));
                assert(order.contains(v));
            }
            assert(in_range(pos, order.len() as int));
            lemma_pigeonhole(pos, order.len() as int);
            let (i, j) = choose|i: int, j: int| 0 <= i < j < pos.len() && pos[i] == pos[j];
            assert(order[pos[i]] == i);
            assert(order[pos[j]] == j);
        }
    }
    if order.len() == n && has_cycle(g) {
        let v = choose|v: int| stuck(g, v);
        let s = choose|s: Set<int>| closed(g, s) && s.contains(v);
        assert(waits_inside(g, s, v));
        assert(!order.contains(v));
        // n different nodes, none of them v, among the n - 1 others
        let shifted = Seq::new(n as nat, |i: int| if order[i] > v { order[i] - 1 } else { order[i] });
        assert forall|i: int| 0 <= i < shifted.len() implies 0 <= #[trigger] shifted[i] < n - 1 by {
            assert(order.contains(order[i]));
            assert(0 <= order[i] < n);
        }
        lemma_pigeonhole(shifted, n - 1);
        let (i, j) = choose|i: int, j: int| 0 <= i < j < shifted.len() && shifted[i] == shifted[j];
        assert(order.contains(order[i]));
        assert(order.contains(order[j]));
        assert(order[i] != order[j]);
    }
}

/// What `arrange` found: the nodes that can be carried out, in order, and those that cannot.
pub struct Arrangement {
    pub order: Vec<usize>,
    pub pending: Vec<usize>,
}

/// For each node, the number of entries in its list.
fn count_edges(deps: &Vec<Vec<usize>>) -> (indeg: Vec<usize>)
    ensures
        indeg@.len() == deps@.len(),
        forall|v: int| 0 <= v < deps@.len() ==> indeg@[v] == deps@[v]@.len(),
{
    let mut indeg: Vec<usize> = Vec::new();
    let mut v: usize = 0;
    while v < deps.len()
        invariant
            v <= deps.len(),
            indeg@.len() == v,
            forall|i: int| 0 <= i < v ==> indeg@[i] == deps@[i]@.len(),
        decreases deps.len() - v,
    {
        indeg.push(deps[v].len());
        v += 1;
    }
    indeg
}

/// For each node, the nodes that wait for it.
fn invert(deps: &Vec<Vec<usize>>) -> (dependents: Vec<Vec<usize>>)
    requires
        well_formed(graph_of(deps@)),
    ensures
        dependents@.len() == deps@.len(),
        forall|p: int|
            0 <= p < deps@.len() ==> same_ints(
                #[trigger] dependents@[p]@,
                children(graph_of(deps@), p, deps@.len() as int),
            ),
{
    let n = deps.len();
    let ghost g = graph_of(deps@);
    let mut dependents: Vec<Vec<usize>> = Vec::new();
    let mut v: usize = 0;
    while v < n
        invariant
            v <= n,
            dependents@.len() == v,
            forall|p: int| 0 <= p < v ==> (#[trigger] dependents@[p])@.len() == 0,
        decreases n - v,
    {
        dependents.push(Vec::new());
        v += 1;
    }
    let mut c: usize = 0;
    while c < n
        invariant
            n == deps@.len(),
            g == graph_of(deps@),
            well_formed(g),
            c <= n,
            dependents@.len() == n,
            forall|p: int|
                0 <= p < n ==> same_ints(#[trigger] dependents@[p]@, children(g, p, c as int)),
        decreases n - c,
    {
        let mut k: usize = 0;
        while k < deps[c].len()
            invariant
                n == deps@.len(),
                g == graph_of(deps@),
                well_formed(g),
                c < n,
                k <= deps@[c as int]@.len(),
                dependents@.len() == n,
                forall|p: int|
                    0 <= p < n ==> same_ints(
                        #[trigger] dependents@[p]@,
                        children(g, p, c as int) + row_children(g[c as int].take(k as int), p, c as int),
                    ),
            decreases deps@[c as int]@.len() - k,
        {
            let parent = deps[c][k];
            assert(g[c as int][k as int] == parent);
            proof {
                assert forall|p: int| 0 <= p < n implies row_children(
                    g[c as int].take(k + 1),
                    p,
                    c as int,
                ) == row_children(g[c as int].take(k as int), p, c as int) + if p == parent {
                    seq![c as int]
                } else {
                    Seq::<int>::empty()
                } by {
                    assert(g[c as int].take(k + 1).drop_last() =~= g[c as int].take(k as int));
                }
            }
            dependents[parent].push(c);
            k += 1;
        }
        proof {
            assert(g[c as int].take(k as int) =~= g[c as int]);
        }
        c += 1;
    }
    dependents
}

/// The nodes whose count is not zero, in rising order.
fn collect_waiting(indeg: &Vec<usize>) -> (pending: Vec<usize>)
    ensures
        ascending(ints(pending@)),
        forall|v: int| ints(pending@).contains(v) <==> (0 <= v < indeg@.len() && indeg@[v] > 0),
        pending@.len() == waiting(indeg@),
{
    let mut pending: Vec<usize> = Vec::new();
    let mut v: usize = 0;
    while v < indeg.len()
        invariant
            v <= indeg.len(),
            ascending(ints(pending@)),
            forall|i: int| 0 <= i < pending@.len() ==> pending@[i] < v,
            forall|x: int| ints(pending@).contains(x) <==> (0 <= x < v && indeg@[x] > 0),
            pending@.len() == waiting(indeg@.take(v as int)),
        decreases indeg.len() - v,
    {
        proof {
            assert(indeg@.take(v + 1) =~= indeg@.take(v as int).push(indeg@[v as int]));
            lemma_waiting_push(indeg@.take(v as int), indeg@[v as int]);
        }
        if indeg[v] > 0 {
            let ghost before = ints(pending@);
            pending.push(v);
            proof {
                assert(ints(pending@) =~= before.push(v as int));
                assert forall|x: int| ints(pending@).contains(x) <==> (0 <= x < v + 1 && indeg@[x]
                    > 0) by {
                    if before.contains(x) {
                        let i = choose|i: int| 0 <= i < before.len() && before[i] == x;
                        assert(ints(pending@)[i] == x);
                    }
                    if x == v {
                        assert(ints(pending@)[before.len() as int] == x);
                    }
                    if ints(pending@).contains(x) && x != v {
                        let i = choose|i: int| 0 <= i < ints(pending@).len() && ints(pending@)[i] == x;
                        assert(before[i] == x);
                    }
                }
            }
        }
        v += 1;
    }
    proof {
        assert(indeg@.take(v as int) =~= indeg@);
    }
    pending
}

/// Arranges the nodes of a graph so that each comes after the nodes it waits for.
///
/// The nodes that wait for nothing come first, as they stand in the graph. Every other node
/// follows as soon as the last node it waits for has been placed; nodes that become ready
/// together keep the order of the graph. The nodes of a round trip, and those that wait for
/// one, are never placed: they are returned as `pending`.
pub fn arrange(deps: &Vec<Vec<usize>>) -> (r: Arrangement)
    requires
        well_formed(graph_of(deps@)),
    ensures
        is_arrangement(graph_of(deps@), ints(r.order@)),
        is_pending(graph_of(deps@), ints(r.pending@)),
        r.order@.len() + r.pending@.len() == deps@.len(),
{
    let n = deps.len();
    let ghost g = graph_of(deps@);
    let mut indeg = count_edges(deps);
    let dependents = invert(deps);
    let mut queue: VecDeque<usize> = VecDeque::new();
    let ghost mut e: Seq<int> = Seq::empty();
    let mut v: usize = 0;
    while v < n
        invariant
            n == deps@.len(),
            g == graph_of(deps@),
            v <= n,
            indeg@.len() == n,
            forall|i: int| 0 <= i < n ==> indeg@[i] == g[i].len(),
            same_ints(queue@, e),
            ascending(e),
            forall|x: int| e.contains(x) <==> (0 <= x < v && indeg@[x] == 0),
            e.len() + waiting(indeg@.take(v as int)) == v,
        decreases n - v,
    {
        proof {
            assert(indeg@.take(v + 1) =~= indeg@.take(v as int).push(indeg@[v as int]));
            lemma_waiting_push(indeg@.take(v as int), indeg@[v as int]);
        }
        if indeg[v] == 0 {
            let ghost before = e;
            queue.push_back(v);
            proof {
                e = e.push(v as int);
                assert forall|x: int| e.contains(x) <==> (0 <= x < v + 1 && indeg@[x] == 0) by {
                    if before.contains(x) {
                        let i = choose|i: int| 0 <= i < before.len() && before[i] == x;
                        assert(e[i] == x);
                    }
                    if x == v {
                        assert(e[before.len() as int] == x);
                    }
                    if e.contains(x) && x != v {
                        let i = choose|i: int| 0 <= i < e.len() && e[i] == x;
                        assert(before[i] == x);
                    }
                }
                assert forall|i: int, j: int| 0 <= i < j < e.len() implies e[i] < e[j] by {
                    if j == before.len() {
                        assert(before.contains(before[i]));
                    }
                }
            }
        }
        v += 1;
    }
    proof {
        assert(indeg@.take(v as int) =~= indeg@);
        assert(e.take(0) =~= Seq::<int>::empty());
        assert forall|x: int| 0 <= x < n implies #[trigger] indeg@[x] == open_edges(
            g[x],
            e.take(0),
        ) by {
            lemma_roots_open(g[x]);
        }
        assert forall|i: int| 0 <= i < e.len() implies latest(e, #[trigger] g[e[i]]) < 0 by {
            assert(e.contains(e[i]));
            lemma_latest(e, g[e[i]]);
        }
        assert forall|a: int, b: int| 0 <= a < b < e.len() implies comes_first(g, e, a, b) by {
            assert(e.contains(e[a]));
            assert(e.contains(e[b]));
            lemma_latest(e, g[e[a]]);
            lemma_latest(e, g[e[b]]);
        }
        assert forall|i: int| 0 <= i < e.len() implies 0 <= #[trigger] e[i] < n by {
            assert(e.contains(e[i]));
        }
        assert(respects(g, e)) by {
            assert forall|i: int, k: int|
                0 <= i < e.len() && 0 <= k < g[e[i]].len() implies e.take(i).contains(
                #[trigger] g[e[i]][k],
            ) by {
                assert(e.contains(e[i]));
            }
        }
    }
    let mut order: Vec<usize> = Vec::new();
    while queue.len() > 0
        invariant
            n == deps@.len(),
            g == graph_of(deps@),
            well_formed(g),
            dependents@.len() == n,
            forall|p: int|
                0 <= p < n ==> same_ints(#[trigger] dependents@[p]@, children(g, p, n as int)),
            indeg@.len() == n,
            order@.len() <= e.len(),
            same_ints(order@, e.take(order@.len() as int)),
            same_ints(queue@, e.skip(order@.len() as int)),
            in_range(e, n as int),
            distinct(e),
            respects(g, e),
            first_ready_first(g, e),
            forall|x: int| 0 <= x < n ==> (indeg@[x] == 0 <==> e.contains(x)),
            e.len() + waiting(indeg@) == n,
            forall|x: int|
                0 <= x < n ==> #[trigger] indeg@[x] == open_edges(g[x], e.take(order@.len() as int)),
            forall|i: int| 0 <= i < e.len() ==> latest(e, #[trigger] g[e[i]]) < order@.len(),
        decreases n - order@.len(),
    {
        let ghost t0 = order@.len() as int;
        let ghost len0 = e.len() as int;
        let ghost done0 = e.take(t0);
        let idx = match queue.pop_front() {
            Some(idx) => idx,
            None => 0,
        };
        assert(idx as int == e[t0]) by {
            assert(e.skip(t0)[0] == e[t0]);
        }
        order.push(idx);
        proof {
            assert(e.take(t0 + 1) =~= e.take(t0).push(e[t0]));
            assert(same_ints(queue@, e.skip(t0 + 1))) by {
                assert forall|i: int| 0 <= i < queue@.len() implies queue@[i] as int == e.skip(
                    t0 + 1,
                )[i] by {
                    assert(e.skip(t0)[i + 1] == e[t0 + 1 + i]);
                }
            }
            lemma_children(g, idx as int, n as int);
            assert(!done0.contains(e[t0])) by {
                if done0.contains(e[t0]) {
                    let i = choose|i: int| 0 <= i < done0.len() && done0[i] == e[t0];
                    assert(e[i] == e[t0]);
                }
            }
        }
        let ghost ch = children(g, idx as int, n as int);
        let mut j: usize = 0;
        while j < dependents[idx].len()
            invariant
                n == deps@.len(),
                g == graph_of(deps@),
                well_formed(g),
                dependents@.len() == n,
                idx < n,
                idx as int == e[t0],
                ch == children(g, idx as int, n as int),
                same_ints(dependents@[idx as int]@, ch),
                forall|i: int| 0 <= i < ch.len() ==> 0 <= #[trigger] ch[i] < n,
                forall|i: int, i2: int| 0 <= i <= i2 < ch.len() ==> #[trigger] ch[i] <= #[trigger] ch[i2],
                forall|x: int|
                    occurrences(ch, x) == if 0 <= x < n {
                        occurrences(g[x], idx as int)
                    } else {
                        0nat
                    },
                j <= ch.len(),
                indeg@.len() == n,
                0 <= t0 < len0 <= e.len(),
                order@.len() == t0 + 1,
                done0 == e.take(t0),
                !done0.contains(e[t0]),
                same_ints(order@, e.take(t0 + 1)),
                same_ints(queue@, e.skip(t0 + 1)),
                in_range(e, n as int),
                distinct(e),
                respects(g, e),
                first_ready_first(g, e),
                forall|x: int| 0 <= x < n ==> (indeg@[x] == 0 <==> e.contains(x)),
                e.len() + waiting(indeg@) == n,
                forall|x: int|
                    0 <= x < n ==> #[trigger] indeg@[x] + occurrences(ch.take(j as int), x)
                        == open_edges(g[x], done0),
                forall|i: int| 0 <= i < len0 ==> latest(e, #[trigger] g[e[i]]) < t0,
                forall|i: int| len0 <= i < e.len() ==> latest(e, #[trigger] g[e[i]]) == t0,
                forall|i: int, j2: int|
                    len0 <= i < e.len() && j <= j2 < ch.len() ==> #[trigger] e[i] <= #[trigger] ch[j2],
            decreases ch.len() - j,
        {
            let child = dependents[idx][j];
            assert(child as int == ch[j as int]);
            proof {
                lemma_occurrences_take(ch, j as int, child as int);
                lemma_occurrences_prefix(ch, j + 1, child as int);
                lemma_open_edges_push(g[child as int], done0, e[t0]);
                assert forall|x: int| 0 <= x < n implies #[trigger] indeg@[x] + occurrences(
                    ch.take(j + 1),
                    x,
                ) == open_edges(g[x], done0) + if x == child {
                    1int
                } else {
                    0int
                } by {
                    lemma_occurrences_take(ch, j as int, x);
                }
                assert(!e.contains(child as int));
                lemma_waiting_update(indeg@, child as int, (indeg@[child as int] - 1) as usize);
            }
            indeg[child] -= 1;
            if indeg[child] == 0 {
                proof {
                    assert(open_edges(g[child as int], done0.push(e[t0])) == 0);
                    assert(done0.push(e[t0]) =~= e.take(t0 + 1));
                    lemma_open_edges_none(g[child as int], e.take(t0 + 1));
                    assert(occurrences(g[child as int], idx as int) > 0);
                    lemma_occurrences_contains(g[child as int], idx as int);
                    lemma_enqueue(g, e, t0, len0, child as int);
                }
                let ghost before = e;
                queue.push_back(child);
                proof {
                    e = e.push(child as int);
                    assert(e.take(t0) =~= done0);
                    assert(e.take(t0 + 1) =~= before.take(t0 + 1));
                    assert(e.skip(t0 + 1) =~= before.skip(t0 + 1).push(child as int));
                    assert forall|x: int| 0 <= x < n implies (indeg@[x] == 0 <==> e.contains(x)) by {
                        if before.contains(x) {
                            let i = choose|i: int| 0 <= i < before.len() && before[i] == x;
                            assert(e[i] == x);
                        }
                        if x == child {
                            assert(e[before.len() as int] == x);
                        }
                        if e.contains(x) && x != child {
                            let i = choose|i: int| 0 <= i < e.len() && e[i] == x;
                            assert(before[i] == x);
                        }
                    }
                }
            }
            j += 1;
        }
        proof {
            assert(ch.take(j as int) =~= ch);
            assert forall|x: int| 0 <= x < n implies #[trigger] indeg@[x] == open_edges(
                g[x],
                e.take(t0 + 1),
            ) by {
                lemma_open_edges_push(g[x], done0, e[t0]);
                assert(done0.push(e[t0]) =~= e.take(t0 + 1));
            }
        }
    }
    proof {
        assert(e.skip(order@.len() as int).len() == 0);
        assert(e.take(order@.len() as int) =~= e);
        assert(ints(order@) =~= e);
        lemma_order_is_free(g, e);
        assert forall|u: int| 0 <= u < n && !e.contains(u) implies open_edges(g[u], e) > 0 by {
            assert(indeg@[u] == open_edges(g[u], e.take(order@.len() as int)));
        }
        lemma_rest_is_stuck(g, e);
        assert forall|x: int| 0 <= x < n implies (e.contains(x) <==> !stuck(g, x)) by {
            if e.contains(x) {
                let i = choose|i: int| 0 <= i < e.len() && e[i] == x;
            }
        }
    }
    let pending = collect_waiting(&indeg);
    Arrangement { order, pending }
}

} // verus!
