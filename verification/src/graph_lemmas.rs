//! Facts about the counting functions of the graph module.

use vstd::prelude::*;
use crate::graph::{
    children, closed, comes_first, distinct, first_ready_first, in_range, is_arrangement, latest,
    occurrences, open_edges, respects, row_children, stuck, waiting, waits_inside, well_formed,
};
use vstd::set_lib::{lemma_int_range, lemma_len_subset, set_int_range};

verus! {

pub proof fn lemma_occurrences_push(s: Seq<int>, x: int, v: int)
    ensures
        occurrences(s.push(x), v) == occurrences(s, v) + if x == v {
            1nat
        } else {
            0nat
        },
{
    assert(s.push(x).drop_last() =~= s);
}

pub proof fn lemma_occurrences_take(s: Seq<int>, j: int, v: int)
    requires
        0 <= j < s.len(),
    ensures
        occurrences(s.take(j + 1), v) == occurrences(s.take(j), v) + if s[j] == v {
            1nat
        } else {
            0nat
        },
{
    assert(s.take(j + 1) =~= s.take(j).push(s[j]));
    lemma_occurrences_push(s.take(j), s[j], v);
}

pub proof fn lemma_occurrences_prefix(s: Seq<int>, j: int, v: int)
    requires
        0 <= j <= s.len(),
    ensures
        occurrences(s.take(j), v) <= occurrences(s, v),
    decreases s.len() - j,
{
    if j == s.len() {
        assert(s.take(j) =~= s);
    } else {
        lemma_occurrences_take(s, j, v);
        lemma_occurrences_prefix(s, j + 1, v);
    }
}

pub proof fn lemma_occurrences_add(a: Seq<int>, b: Seq<int>, v: int)
    ensures
        occurrences(a + b, v) == occurrences(a, v) + occurrences(b, v),
    decreases b.len(),
{
    if b.len() == 0 {
        assert(a + b =~= a);
    } else {
        assert((a + b).drop_last() =~= a + b.drop_last());
        lemma_occurrences_add(a, b.drop_last(), v);
    }
}

pub proof fn lemma_occurrences_contains(s: Seq<int>, v: int)
    ensures
        occurrences(s, v) > 0 <==> s.contains(v),
    decreases s.len(),
{
    if s.len() > 0 {
        lemma_occurrences_contains(s.drop_last(), v);
        if s.drop_last().contains(v) {
            let i = choose|i: int| 0 <= i < s.drop_last().len() && s.drop_last()[i] == v;
            assert(s[i] == v);
        }
        if s.contains(v) {
            let i = choose|i: int| 0 <= i < s.len() && s[i] == v;
            if i < s.len() - 1 {
                assert(s.drop_last()[i] == v);
            }
        }
    }
}

/// Marking `x` as done closes exactly the edges that lead to `x`.
pub proof fn lemma_open_edges_push(deps: Seq<int>, done: Seq<int>, x: int)
    requires
        !done.contains(x),
    ensures
        open_edges(deps, done.push(x)) + occurrences(deps, x) == open_edges(deps, done),
    decreases deps.len(),
{
    if deps.len() > 0 {
        lemma_open_edges_push(deps.drop_last(), done, x);
        let d = deps.last();
        if done.contains(d) {
            let i = choose|i: int| 0 <= i < done.len() && done[i] == d;
            assert(done.push(x)[i] == d);
        }
        if d == x {
            assert(done.push(x)[done.len() as int] == x);
        }
        if done.push(x).contains(d) && d != x {
            let i = choose|i: int| 0 <= i < done.push(x).len() && done.push(x)[i] == d;
            assert(done[i] == d);
        }
    }
}

pub proof fn lemma_open_edges_none(deps: Seq<int>, done: Seq<int>)
    ensures
        open_edges(deps, done) == 0 <==> forall|k: int|
            0 <= k < deps.len() ==> done.contains(#[trigger] deps[k]),
    decreases deps.len(),
{
    if deps.len() > 0 {
        lemma_open_edges_none(deps.drop_last(), done);
        if open_edges(deps, done) == 0 {
            assert forall|k: int| 0 <= k < deps.len() implies done.contains(#[trigger] deps[k]) by {
                if k < deps.len() - 1 {
                    assert(deps.drop_last()[k] == deps[k]);
                }
            }
        }
        if forall|k: int| 0 <= k < deps.len() ==> done.contains(#[trigger] deps[k]) {
            assert(done.contains(deps[deps.len() - 1]));
            assert forall|k: int| 0 <= k < deps.drop_last().len() implies done.contains(
                #[trigger] deps.drop_last()[k],
            ) by {
                assert(deps.drop_last()[k] == deps[k]);
            }
        }
    }
}

pub proof fn lemma_row_children(row: Seq<int>, p: int, c: int)
    ensures
        forall|i: int|
            0 <= i < row_children(row, p, c).len() ==> #[trigger] row_children(row, p, c)[i] == c,
        forall|v: int|
            occurrences(row_children(row, p, c), v) == if v == c {
                occurrences(row, p)
            } else {
                0nat
            },
    decreases row.len(),
{
    if row.len() > 0 {
        lemma_row_children(row.drop_last(), p, c);
        let tail = if row.last() == p {
            seq![c]
        } else {
            Seq::<int>::empty()
        };
        let head = row_children(row.drop_last(), p, c);
        assert(row_children(row, p, c) == head + tail);
        assert forall|i: int| 0 <= i < row_children(row, p, c).len() implies #[trigger] row_children(
            row,
            p,
            c,
        )[i] == c by {
            if i < head.len() {
                assert(head[i] == c);
            } else {
                assert(tail[i - head.len()] == c);
            }
        }
        assert forall|v: int|
            occurrences(row_children(row, p, c), v) == if v == c {
                occurrences(row, p)
            } else {
                0nat
            } by {
            lemma_occurrences_add(row_children(row.drop_last(), p, c), tail, v);
            if row.last() == p {
                assert(seq![c] =~= Seq::<int>::empty().push(c));
                lemma_occurrences_push(Seq::<int>::empty(), c, v);
            }
        }
    }
}

/// `children` holds node `v` once for each edge from `v` to `p`, in rising order.
pub proof fn lemma_children(g: Seq<Seq<int>>, p: int, upto: int)
    requires
        0 <= upto <= g.len(),
    ensures
        forall|i: int|
            0 <= i < children(g, p, upto).len() ==> 0 <= #[trigger] children(g, p, upto)[i] < upto,
        forall|i: int, j: int|
            0 <= i <= j < children(g, p, upto).len() ==> #[trigger] children(g, p, upto)[i]
                <= #[trigger] children(g, p, upto)[j],
        forall|v: int|
            occurrences(children(g, p, upto), v) == if 0 <= v < upto {
                occurrences(g[v], p)
            } else {
                0nat
            },
    decreases upto,
{
    if upto > 0 {
        lemma_children(g, p, upto - 1);
        lemma_row_children(g[upto - 1], p, upto - 1);
        assert forall|v: int|
            occurrences(children(g, p, upto), v) == if 0 <= v < upto {
                occurrences(g[v], p)
            } else {
                0nat
            } by {
            lemma_occurrences_add(
                children(g, p, upto - 1),
                row_children(g[upto - 1], p, upto - 1),
                v,
            );
        }
    }
}

pub proof fn lemma_latest(order: Seq<int>, deps: Seq<int>)
    ensures
        -1 <= latest(order, deps) < order.len(),
        latest(order, deps) >= 0 ==> deps.contains(order[latest(order, deps)]),
        forall|i: int| latest(order, deps) < i < order.len() ==> !deps.contains(#[trigger] order[i]),
    decreases order.len(),
{
    if order.len() > 0 && !deps.contains(order.last()) {
        lemma_latest(order.drop_last(), deps);
        assert forall|i: int| latest(order, deps) < i < order.len() implies !deps.contains(
            #[trigger] order[i],
        ) by {
            if i < order.len() - 1 {
                assert(order.drop_last()[i] == order[i]);
            }
        }
    }
}

/// The position that `latest` gives is the only one with its two properties.
pub proof fn lemma_latest_is(order: Seq<int>, deps: Seq<int>, t: int)
    requires
        -1 <= t < order.len(),
        t >= 0 ==> deps.contains(order[t]),
        forall|i: int| t < i < order.len() ==> !deps.contains(#[trigger] order[i]),
    ensures
        latest(order, deps) == t,
{
    lemma_latest(order, deps);
}

pub proof fn lemma_latest_push(order: Seq<int>, deps: Seq<int>, x: int)
    requires
        !deps.contains(x),
    ensures
        latest(order.push(x), deps) == latest(order, deps),
{
    assert(order.push(x).drop_last() =~= order);
}

pub proof fn lemma_waiting_push(counts: Seq<usize>, x: usize)
    ensures
        waiting(counts.push(x)) == waiting(counts) + if x > 0 {
            1nat
        } else {
            0nat
        },
{
    assert(counts.push(x).drop_last() =~= counts);
}

pub proof fn lemma_waiting_update(counts: Seq<usize>, i: int, x: usize)
    requires
        0 <= i < counts.len(),
    ensures
        waiting(counts.update(i, x)) + (if counts[i] > 0 {
            1nat
        } else {
            0nat
        }) == waiting(counts) + if x > 0 {
            1nat
        } else {
            0nat
        },
    decreases counts.len(),
{
    if i == counts.len() - 1 {
        assert(counts.update(i, x).drop_last() =~= counts.drop_last());
    } else {
        assert(counts.update(i, x).drop_last() =~= counts.drop_last().update(i, x));
        lemma_waiting_update(counts.drop_last(), i, x);
    }
}

/// No node of an order that respects the graph belongs to a closed set.
pub proof fn lemma_placed_is_free(g: Seq<Seq<int>>, order: Seq<int>, s: Set<int>, i: int)
    requires
        respects(g, order),
        closed(g, s),
        0 <= i < order.len(),
    ensures
        !s.contains(order[i]),
    decreases i,
{
    if s.contains(order[i]) {
        assert(waits_inside(g, s, order[i]));
        let k = choose|k: int| 0 <= k < g[order[i]].len() && s.contains(#[trigger] g[order[i]][k]);
        assert(order.take(i).contains(g[order[i]][k]));
        let j = choose|j: int| 0 <= j < order.take(i).len() && order.take(i)[j] == g[order[i]][k];
        lemma_placed_is_free(g, order, s, j);
    }
}

/// No node of an order that respects the graph is stuck.
pub proof fn lemma_order_is_free(g: Seq<Seq<int>>, order: Seq<int>)
    requires
        respects(g, order),
    ensures
        forall|i: int| 0 <= i < order.len() ==> !stuck(g, #[trigger] order[i]),
{
    assert forall|i: int| 0 <= i < order.len() implies !stuck(g, #[trigger] order[i]) by {
        if stuck(g, order[i]) {
            let s = choose|s: Set<int>| closed(g, s) && s.contains(order[i]);
            lemma_placed_is_free(g, order, s, i);
        }
    }
}

/// Where every node outside `order` still waits for a node outside it, all of them are stuck.
pub proof fn lemma_rest_is_stuck(g: Seq<Seq<int>>, order: Seq<int>)
    requires
        well_formed(g),
        forall|u: int| 0 <= u < g.len() && !order.contains(u) ==> open_edges(g[u], order) > 0,
    ensures
        forall|u: int| 0 <= u < g.len() && !order.contains(u) ==> stuck(g, u),
{
    let rest = Set::new(|u: int| 0 <= u < g.len() && !order.contains(u));
    assert forall|v: int| rest.contains(v) implies #[trigger] waits_inside(g, rest, v) by {
        lemma_open_edges_none(g[v], order);
        let k = choose|k: int| 0 <= k < g[v].len() && !order.contains(#[trigger] g[v][k]);
        assert(rest.contains(g[v][k]));
    }
    assert(closed(g, rest));
    assert forall|u: int| 0 <= u < g.len() && !order.contains(u) implies stuck(g, u) by {
        assert(rest.contains(u));
    }
}

/// A node with no entries has no open edges.
pub proof fn lemma_roots_open(deps: Seq<int>)
    ensures
        open_edges(deps, Seq::<int>::empty()) == deps.len(),
    decreases deps.len(),
{
    if deps.len() > 0 {
        lemma_roots_open(deps.drop_last());
    }
}

/// Placing `child` behind the nodes of `e`, once the node at `t0` has closed its last open
/// edge, keeps the order one that `arrange` may return.
pub proof fn lemma_enqueue(g: Seq<Seq<int>>, e: Seq<int>, t0: int, len0: int, child: int)
    requires
        well_formed(g),
        in_range(e, g.len() as int),
        distinct(e),
        respects(g, e),
        first_ready_first(g, e),
        0 <= t0 < len0 <= e.len(),
        0 <= child < g.len(),
        !e.contains(child),
        forall|k: int| 0 <= k < g[child].len() ==> e.take(t0 + 1).contains(#[trigger] g[child][k]),
        g[child].contains(e[t0]),
        forall|i: int| 0 <= i < len0 ==> latest(e, #[trigger] g[e[i]]) < t0,
        forall|i: int| len0 <= i < e.len() ==> latest(e, #[trigger] g[e[i]]) == t0,
        forall|i: int| len0 <= i < e.len() ==> #[trigger] e[i] <= child,
    ensures
        in_range(e.push(child), g.len() as int),
        distinct(e.push(child)),
        respects(g, e.push(child)),
        first_ready_first(g, e.push(child)),
        forall|i: int| 0 <= i < len0 ==> latest(e.push(child), #[trigger] g[e.push(child)[i]]) < t0,
        forall|i: int|
            len0 <= i < e.push(child).len() ==> latest(e.push(child), #[trigger] g[e.push(child)[i]])
                == t0,
{
    let e2 = e.push(child);
    assert forall|i: int, j: int| 0 <= i < j < e2.len() implies e2[i] != e2[j] by {
        if j == e.len() {
            assert(e.contains(e[i]));
        }
    }
    assert forall|i: int| 0 <= i < e.len() implies latest(e2, #[trigger] g[e2[i]]) == latest(
        e,
        g[e[i]],
    ) by {
        if g[e[i]].contains(child) {
            let k = choose|k: int| 0 <= k < g[e[i]].len() && g[e[i]][k] == child;
            assert(e.take(i).contains(g[e[i]][k]));
            let j = choose|j: int| 0 <= j < e.take(i).len() && e.take(i)[j] == child;
            assert(e[j] == child);
        }
        lemma_latest_push(e, g[e[i]], child);
    }
    assert(latest(e2, g[child]) == t0) by {
        assert forall|i: int| t0 < i < e2.len() implies !g[child].contains(#[trigger] e2[i]) by {
            if g[child].contains(e2[i]) {
                let k = choose|k: int| 0 <= k < g[child].len() && g[child][k] == e2[i];
                let done = e.take(t0 + 1);
                assert(done.contains(g[child][k]));
                let j = choose|j: int| 0 <= j < done.len() && done[j] == e2[i];
                assert(e[j] == e2[i]);
                if i < e.len() {
                    assert(e[j] != e[i]);
                } else {
                    assert(e.contains(child));
                }
            }
        }
        lemma_latest_is(e2, g[child], t0);
    }
    assert forall|i: int, k: int| 0 <= i < e2.len() && 0 <= k < g[e2[i]].len() implies e2.take(
        i,
    ).contains(#[trigger] g[e2[i]][k]) by {
        if i < e.len() {
            assert(e2.take(i) =~= e.take(i));
            assert(e.take(i).contains(g[e[i]][k]));
        } else {
            assert(e2.take(i) =~= e);
            let done = e.take(t0 + 1);
            assert(done.contains(g[child][k]));
            let j = choose|j: int| 0 <= j < done.len() && done[j] == g[child][k];
            assert(e[j] == g[child][k]);
        }
    }
    assert forall|a: int, b: int| 0 <= a < b < e2.len() implies comes_first(g, e2, a, b) by {
        if b < e.len() {
            assert(comes_first(g, e, a, b));
        } else {
            if a >= len0 {
                assert(e[a] <= child);
                assert(e.contains(e[a]));
            }
        }
    }
}

/// More than `n` numbers below `n` cannot all differ.
pub proof fn lemma_pigeonhole(s: Seq<int>, n: int)
    requires
        0 <= n < s.len(),
        in_range(s, n),
    ensures
        exists|i: int, j: int| 0 <= i < j < s.len() && s[i] == s[j],
{
    if s.no_duplicates() {
        s.unique_seq_to_set();
        lemma_int_range(0, n);
        assert(s.to_set().subset_of(set_int_range(0, n))) by {
            assert forall|x: int| s.to_set().contains(x) implies set_int_range(0, n).contains(x) by {
                let i = choose|i: int| 0 <= i < s.len() && s[i] == x;
                assert(0 <= s[i] < n);
            }
        }
        lemma_len_subset(s.to_set(), set_int_range(0, n));
    } else {
        let (i, j) = choose|i: int, j: int|
            0 <= i < s.len() && 0 <= j < s.len() && i != j && s[i] == s[j];
        if i < j {
            assert(0 <= i < j < s.len() && s[i] == s[j]);
        } else {
            assert(0 <= j < i < s.len() && s[j] == s[i]);
        }
    }
}

/// A list of different nodes is no longer than the graph.
pub proof fn lemma_distinct_is_short(order: Seq<int>, n: int)
    requires
        0 <= n,
        in_range(order, n),
        distinct(order),
    ensures
        order.len() <= n,
{
    if order.len() > n {
        lemma_pigeonhole(order, n);
    }
}

/// The node reached from `v` after `i` steps, each to a node of `s` that the last one waits for.
pub open spec fn walk(g: Seq<Seq<int>>, s: Set<int>, v: int, i: nat) -> int
    decreases i,
{
    if i == 0 {
        v
    } else {
        let u = walk(g, s, v, (i - 1) as nat);
        let k = choose|k: int| 0 <= k < g[u].len() && s.contains(#[trigger] g[u][k]);
        g[u][k]
    }
}

pub proof fn lemma_walk(g: Seq<Seq<int>>, s: Set<int>, v: int, i: nat)
    requires
        closed(g, s),
        s.contains(v),
    ensures
        s.contains(walk(g, s, v, i)),
        0 <= walk(g, s, v, i) < g.len(),
        g[walk(g, s, v, i)].contains(walk(g, s, v, i + 1)),
    decreases i,
{
    if i > 0 {
        lemma_walk(g, s, v, (i - 1) as nat);
        let before = walk(g, s, v, (i - 1) as nat);
        assert(waits_inside(g, s, before));
    }
    let u = walk(g, s, v, i);
    assert(s.contains(u));
    assert(waits_inside(g, s, u));
    let k = choose|k: int| 0 <= k < g[u].len() && s.contains(#[trigger] g[u][k]);
    assert(g[u][k] == walk(g, s, v, i + 1));
}

/// The position that `latest` gives lies before the node itself in an order that respects the
/// graph, and is the same in every such order that starts alike.
pub proof fn lemma_latest_agrees(g: Seq<Seq<int>>, a: Seq<int>, b: Seq<int>, m: int, p: int)
    requires
        distinct(a),
        distinct(b),
        respects(g, a),
        respects(g, b),
        0 <= m < a.len(),
        m <= p < b.len(),
        a.take(m) == b.take(m),
        b[p] == a[m],
    ensures
        latest(a, g[a[m]]) == latest(b, g[a[m]]),
{
    let u = a[m];
    let r = latest(a, g[u]);
    lemma_latest(a, g[u]);
    if r >= m {
        let k = choose|k: int| 0 <= k < g[u].len() && g[u][k] == a[r];
        let before = a.take(m);
        assert(before.contains(g[a[m]][k]));
        let j = choose|j: int| 0 <= j < before.len() && before[j] == a[r];
        assert(a[j] == a[r]);
    }
    if r >= 0 {
        assert(a.take(m)[r] == b.take(m)[r]);
    }
    assert forall|i: int| r < i < b.len() implies !g[u].contains(#[trigger] b[i]) by {
        if g[u].contains(b[i]) {
            let k = choose|k: int| 0 <= k < g[u].len() && g[u][k] == b[i];
            let before = a.take(m);
            assert(before.contains(g[a[m]][k]));
            let j = choose|j: int| 0 <= j < before.len() && before[j] == b[i];
            assert(b.take(m)[j] == b[i]);
            assert(b[j] == b[i]);
            assert(i == j);
            assert(a.take(m)[i] == b.take(m)[i]);
        }
    }
    lemma_latest_is(b, g[u], r);
}

/// Two arrangements of one graph start alike, as far as the first of them reaches.
pub proof fn lemma_same_start(g: Seq<Seq<int>>, a: Seq<int>, b: Seq<int>, m: int)
    requires
        is_arrangement(g, a),
        is_arrangement(g, b),
        0 <= m <= a.len(),
    ensures
        m <= b.len(),
        a.take(m) == b.take(m),
    decreases m,
{
    if m == 0 {
        assert(a.take(0) =~= b.take(0));
    } else {
        let i = m - 1;
        lemma_same_start(g, a, b, i);
        let u = a[i];
        lemma_order_is_free(g, a);
        assert(b.contains(u));
        let p = choose|p: int| 0 <= p < b.len() && b[p] == u;
        if p < i {
            assert(a.take(i)[p] == b.take(i)[p]);
        }
        let v = b[i];
        lemma_order_is_free(g, b);
        assert(a.contains(v));
        let q = choose|q: int| 0 <= q < a.len() && a[q] == v;
        if q < i {
            assert(a.take(i)[q] == b.take(i)[q]);
        }
        if u != v {
            lemma_latest_agrees(g, a, b, i, p);
            assert(b.take(i) == a.take(i));
            lemma_latest_agrees(g, b, a, i, q);
            assert(comes_first(g, a, i, q));
            assert(comes_first(g, b, i, p));
        }
        assert(a.take(m) =~= a.take(i).push(u));
        assert(b.take(m) =~= b.take(i).push(v));
    }
}

} // verus!
