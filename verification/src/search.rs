//! The first place in a list at which something holds.

use vstd::prelude::*;

verus! {

/// The least number below `n` of which `p` holds, or `n` where there is none.
pub open spec fn first_where(n: int, p: spec_fn(int) -> bool) -> int
    decreases n,
{
    if n <= 0 {
        0
    } else {
        let f = first_where(n - 1, p);
        if f < n - 1 {
            f
        } else if p(n - 1) {
            n - 1
        } else {
            n
        }
    }
}

/// `first_where` names a number of which `p` holds, where it names one below `n`, and `p`
/// holds of no number below it.
pub proof fn lemma_first_where(n: int, p: spec_fn(int) -> bool)
    requires
        0 <= n,
    ensures
        0 <= first_where(n, p) <= n,
        first_where(n, p) < n ==> p(first_where(n, p)),
        forall|i: int| 0 <= i < first_where(n, p) ==> !#[trigger] p(i),
    decreases n,
{
    if n > 0 {
        lemma_first_where(n - 1, p);
    }
}

/// A number of which `p` holds, and of none below it, is the one that `first_where` names.
pub proof fn lemma_first_where_is(n: int, p: spec_fn(int) -> bool, j: int)
    requires
        0 <= j <= n,
        j < n ==> p(j),
        forall|i: int| 0 <= i < j ==> !#[trigger] p(i),
    ensures
        first_where(n, p) == j,
{
    lemma_first_where(n, p);
}

/// Whether the text at a place is `x`.
pub open spec fn is_text(ids: Seq<Seq<char>>, x: Seq<char>) -> spec_fn(int) -> bool {
    |i: int| ids[i] == x
}

/// The position of the first of `ids` that equals `x`, or -1 where none does.
pub open spec fn position(ids: Seq<Seq<char>>, x: Seq<char>) -> int {
    let f = first_where(ids.len() as int, is_text(ids, x));
    if f < ids.len() {
        f
    } else {
        -1
    }
}

/// The position of a text is a place at which it stands, and the first of them.
pub proof fn lemma_position(ids: Seq<Seq<char>>, x: Seq<char>)
    ensures
        -1 <= position(ids, x) < ids.len(),
        position(ids, x) >= 0 ==> ids[position(ids, x)] == x,
        forall|i: int| 0 <= i < ids.len() && #[trigger] ids[i] == x ==> 0 <= position(ids, x) <= i,
{
    let p = is_text(ids, x);
    lemma_first_where(ids.len() as int, p);
    assert forall|i: int| 0 <= i < ids.len() && #[trigger] ids[i] == x implies 0 <= position(
        ids,
        x,
    ) <= i by {
        assert(p(i));
    }
}

/// A place at which a text stands, and before which it does not, is its position; and so is
/// -1 where it stands nowhere.
pub proof fn lemma_position_is(ids: Seq<Seq<char>>, x: Seq<char>, at: int)
    requires
        -1 <= at < ids.len(),
        at >= 0 ==> ids[at] == x,
        forall|i: int| 0 <= i < (if at >= 0 { at } else { ids.len() as int }) ==> #[trigger] ids[i] != x,
    ensures
        position(ids, x) == at,
{
    lemma_position(ids, x);
}

} // verus!
