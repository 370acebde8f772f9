//! Character-level text routines shared by the rest of the crate.
//!
//! Contracts speak of a text as the sequence of its characters.

use vstd::prelude::*;
use vstd::seq_lib::{to_multiset_build, to_multiset_insert};
use vstd::string::*;

verus! {

/// `String::push` appends the character to the end of the string and changes nothing else
/// of it.
pub assume_specification[ String::push ](s: &mut String, c: char)
    ensures
        final(s)@ == old(s)@.push(c),
;

/// The lowercase form that `str::to_lowercase` gives a text.
pub uninterp spec fn lowercase_of(s: Seq<char>) -> Seq<char>;

/// Calls `str::to_lowercase`: the text with each character replaced by its lowercase form
/// as Unicode defines it.
#[verifier::external_body]
pub(crate) fn lowercase(s: &str) -> (r: String)
    ensures
        r@ == lowercase_of(s@),
{
    s.to_lowercase()
}

/// The uppercase form that `str::to_uppercase` gives a text.
pub uninterp spec fn uppercase_of(s: Seq<char>) -> Seq<char>;

/// Calls `str::to_uppercase`: the text with each character replaced by its uppercase form
/// as Unicode defines it.
#[verifier::external_body]
pub(crate) fn uppercase(s: &str) -> (r: String)
    ensures
        r@ == uppercase_of(s@),
{
    s.to_uppercase()
}

/// The texts of a list of strings.
pub open spec fn texts(v: Seq<String>) -> Seq<Seq<char>> {
    Seq::new(v.len(), |i: int| v[i]@)
}

/// The text of an optional string.
pub open spec fn opt_text(o: Option<String>) -> Option<Seq<char>> {
    match o {
        Some(s) => Some(s@),
        None => None,
    }
}

/// The text of an optional string slice.
pub open spec fn opt_str(o: Option<&str>) -> Option<Seq<char>> {
    match o {
        Some(s) => Some(s@),
        None => None,
    }
}

/// The texts of an optional list of strings.
pub open spec fn opt_texts(o: Option<Vec<String>>) -> Option<Seq<Seq<char>>> {
    match o {
        Some(v) => Some(texts(v@)),
        None => None,
    }
}

/// The characters of `s`, in order.
pub fn chars_of(s: &str) -> (r: Vec<char>)
    ensures
        r@ == s@,
{
    let mut out: Vec<char> = Vec::new();
    for c in it: s.chars()
        invariant
            it.seq() == s@,
            out@ == it.seq().take(it.index()),
    {
        out.push(c);
    }
    out
}

/// The string whose characters are `v`.
pub fn string_of(v: &Vec<char>) -> (r: String)
    ensures
        r@ == v@,
{
    let mut out = String::new();
    let mut i: usize = 0;
    while i < v.len()
        invariant
            i <= v.len(),
            out@ == v@.take(i as int),
        decreases v.len() - i,
    {
        out.push(v[i]);
        i += 1;
    }
    out
}

/// Whether two texts are the same.
pub fn same_text(a: &str, b: &str) -> (r: bool)
    ensures
        r == (a@ == b@),
{
    let x = String::from_str(a);
    let y = String::from_str(b);
    x == y
}

/// `a` followed by `b`.
pub fn concat(a: &str, b: &str) -> (r: String)
    ensures
        r@ == a@ + b@,
{
    let mut out = String::from_str(a);
    out.append(b);
    out
}

/// `a`, `b` and `c` in a row.
pub fn concat3(a: &str, b: &str, c: &str) -> (r: String)
    ensures
        r@ == a@ + b@ + c@,
{
    let mut out = String::from_str(a);
    out.append(b);
    out.append(c);
    out
}

/// A copy of a list of strings.
pub fn copy_texts(v: &Vec<String>) -> (r: Vec<String>)
    ensures
        texts(r@) == texts(v@),
{
    let mut out: Vec<String> = Vec::new();
    let mut i: usize = 0;
    while i < v.len()
        invariant
            i <= v.len(),
            texts(out@) == texts(v@).take(i as int),
        decreases v.len() - i,
    {
        let ghost before = texts(out@);
        out.push(v[i].clone());
        assert(texts(out@) =~= before.push(v@[i as int]@));
        assert(texts(v@).take(i + 1) =~= texts(v@).take(i as int).push(v@[i as int]@));
        i += 1;
    }
    assert(texts(v@).take(v@.len() as int) =~= texts(v@));
    out
}

/// A copy of an optional string.
pub fn copy_opt_text(o: &Option<String>) -> (r: Option<String>)
    ensures
        opt_text(r) == opt_text(*o),
{
    match o {
        Some(s) => Some(s.clone()),
        None => None,
    }
}

/// Whether `needle` is one of `items`.
pub fn contains_text(items: &Vec<String>, needle: &str) -> (r: bool)
    ensures
        r == texts(items@).contains(needle@),
{
    let mut i: usize = 0;
    while i < items.len()
        invariant
            i <= items.len(),
            forall|j: int| 0 <= j < i ==> texts(items@)[j] != needle@,
        decreases items.len() - i,
    {
        if same_text(items[i].as_str(), needle) {
            assert(texts(items@)[i as int] == needle@);
            return true;
        }
        i += 1;
    }
    false
}

/// The items in a row, with `sep` between each two.
pub open spec fn joined(items: Seq<Seq<char>>, sep: Seq<char>) -> Seq<char>
    decreases items.len(),
{
    if items.len() == 0 {
        Seq::empty()
    } else if items.len() == 1 {
        items[0]
    } else {
        joined(items.drop_last(), sep) + sep + items.last()
    }
}

/// Joins the items with `sep` between each two.
pub fn join(items: &Vec<String>, sep: &str) -> (r: String)
    ensures
        r@ == joined(texts(items@), sep@),
{
    let mut out = String::new();
    let mut i: usize = 0;
    while i < items.len()
        invariant
            i <= items.len(),
            out@ == joined(texts(items@).take(i as int), sep@),
        decreases items.len() - i,
    {
        proof {
            assert(texts(items@).take(i + 1).drop_last() =~= texts(items@).take(i as int));
            assert(texts(items@).take(i + 1).last() == items@[i as int]@);
            if i == 0 {
                assert(out@ + items@[0]@ =~= items@[0]@);
            }
        }
        if i > 0 {
            out.append(sep);
        }
        out.append(items[i].as_str());
        i += 1;
    }
    assert(texts(items@).take(items@.len() as int) =~= texts(items@));
    out
}

/// `a` comes before `b` in the order of a dictionary that goes by the numbers of the
/// characters.
pub open spec fn text_lt(a: Seq<char>, b: Seq<char>) -> bool
    decreases a.len(),
{
    if b.len() == 0 {
        false
    } else if a.len() == 0 {
        true
    } else if (a[0] as u32) < (b[0] as u32) {
        true
    } else if (a[0] as u32) > (b[0] as u32) {
        false
    } else {
        text_lt(a.drop_first(), b.drop_first())
    }
}

/// No text comes before an earlier one.
pub open spec fn sorted_texts(s: Seq<Seq<char>>) -> bool {
    forall|i: int, j: int| 0 <= i < j < s.len() ==> !text_lt(s[j], s[i])
}

/// What comes before a text comes before everything that the text comes before.
pub proof fn lemma_text_lt_transitive(a: Seq<char>, b: Seq<char>, c: Seq<char>)
    requires
        text_lt(a, b),
        text_lt(b, c),
    ensures
        text_lt(a, c),
    decreases a.len(),
{
    if a.len() > 0 && (a[0] as u32) == (b[0] as u32) && (b[0] as u32) == (c[0] as u32) {
        lemma_text_lt_transitive(a.drop_first(), b.drop_first(), c.drop_first());
    }
}

/// No text comes before itself.
pub proof fn lemma_text_lt_irreflexive(a: Seq<char>)
    ensures
        !text_lt(a, a),
    decreases a.len(),
{
    if a.len() > 0 {
        lemma_text_lt_irreflexive(a.drop_first());
    }
}

/// Of two texts that differ one comes before the other.
pub proof fn lemma_text_lt_connected(a: Seq<char>, b: Seq<char>)
    requires
        a != b,
    ensures
        text_lt(a, b) || text_lt(b, a),
    decreases a.len(),
{
    if a.len() > 0 && b.len() > 0 && (a[0] as u32) == (b[0] as u32) {
        if a.drop_first() == b.drop_first() {
            vstd::utf8::char_u32_cast(a[0], a[0] as u32);
            vstd::utf8::char_u32_cast(b[0], b[0] as u32);
            assert(a =~= seq![a[0]] + a.drop_first());
            assert(b =~= seq![b[0]] + b.drop_first());
        } else {
            lemma_text_lt_connected(a.drop_first(), b.drop_first());
        }
    } else if a.len() == 0 && b.len() == 0 {
        assert(a =~= b);
    }
}

/// Whether `a` comes before `b`.
pub fn comes_before(a: &str, b: &str) -> (r: bool)
    ensures
        r == text_lt(a@, b@),
{
    let x = chars_of(a);
    let y = chars_of(b);
    let mut i: usize = 0;
    assert(x@.skip(0) =~= x@ && y@.skip(0) =~= y@);
    while i < x.len() && i < y.len()
        invariant
            i <= x.len(),
            i <= y.len(),
            x@ == a@,
            y@ == b@,
            text_lt(a@, b@) == text_lt(x@.skip(i as int), y@.skip(i as int)),
        decreases x.len() - i,
    {
        proof {
            assert(x@.skip(i as int).drop_first() =~= x@.skip(i + 1));
            assert(y@.skip(i as int).drop_first() =~= y@.skip(i + 1));
            assert(x@.skip(i as int)[0] == x@[i as int]);
            assert(y@.skip(i as int)[0] == y@[i as int]);
        }
        let c = x[i] as u32;
        let d = y[i] as u32;
        if c < d {
            return true;
        }
        if c > d {
            return false;
        }
        i += 1;
    }
    i < y.len()
}

/// The place at which `x` goes into a sorted list: before the first text that comes after it.
pub open spec fn insert_point(sorted: Seq<Seq<char>>, x: Seq<char>) -> int
    decreases sorted.len(),
{
    if sorted.len() == 0 {
        0
    } else if text_lt(x, sorted[0]) {
        0
    } else {
        1 + insert_point(sorted.drop_first(), x)
    }
}

/// The texts in order; texts that are equal keep their places among each other.
pub open spec fn sorted_of(s: Seq<Seq<char>>) -> Seq<Seq<char>>
    decreases s.len(),
{
    if s.len() == 0 {
        Seq::empty()
    } else {
        let head = sorted_of(s.drop_last());
        head.insert(insert_point(head, s.last()), s.last())
    }
}

/// The insert point lies behind the texts that do not come after `x`, and before one that
/// does.
pub proof fn lemma_insert_point(sorted: Seq<Seq<char>>, x: Seq<char>)
    ensures
        0 <= insert_point(sorted, x) <= sorted.len(),
        forall|j: int| 0 <= j < insert_point(sorted, x) ==> !text_lt(x, #[trigger] sorted[j]),
        insert_point(sorted, x) < sorted.len() ==> text_lt(x, sorted[insert_point(sorted, x)]),
    decreases sorted.len(),
{
    if sorted.len() > 0 && !text_lt(x, sorted[0]) {
        lemma_insert_point(sorted.drop_first(), x);
        let p = insert_point(sorted.drop_first(), x);
        assert forall|j: int| 0 <= j < p + 1 implies !text_lt(x, #[trigger] sorted[j]) by {
            if j > 0 {
                assert(sorted.drop_first()[j - 1] == sorted[j]);
            }
        }
        if p + 1 < sorted.len() {
            assert(sorted.drop_first()[p] == sorted[p + 1]);
        }
    }
}

/// Putting a text into a sorted list at its place leaves the list sorted.
pub proof fn lemma_insert_keeps_sorted(sorted: Seq<Seq<char>>, x: Seq<char>)
    requires
        sorted_texts(sorted),
    ensures
        sorted_texts(sorted.insert(insert_point(sorted, x), x)),
{
    let p = insert_point(sorted, x);
    lemma_insert_point(sorted, x);
    let after = sorted.insert(p, x);
    assert forall|a: int, b: int| 0 <= a < b < after.len() implies !text_lt(after[b], after[a]) by {
        if b < p {
            assert(after[a] == sorted[a] && after[b] == sorted[b]);
        } else if b == p {
            assert(after[a] == sorted[a]);
        } else if a < p {
            assert(after[a] == sorted[a] && after[b] == sorted[b - 1]);
        } else if a == p {
            assert(after[b] == sorted[b - 1]);
            if text_lt(sorted[b - 1], x) {
                lemma_text_lt_transitive(sorted[b - 1], x, sorted[p]);
                lemma_text_lt_irreflexive(sorted[p]);
            }
        } else {
            assert(after[a] == sorted[a - 1] && after[b] == sorted[b - 1]);
        }
    }
}

/// `sorted_of` gives the same texts, each as often as before, with none before an earlier one.
pub proof fn lemma_sorted_of(s: Seq<Seq<char>>)
    ensures
        sorted_texts(sorted_of(s)),
        sorted_of(s).to_multiset() == s.to_multiset(),
        sorted_of(s).len() == s.len(),
    decreases s.len(),
{
    if s.len() == 0 {
        assert(sorted_of(s) =~= s);
    } else {
        let head = sorted_of(s.drop_last());
        lemma_sorted_of(s.drop_last());
        lemma_insert_point(head, s.last());
        lemma_insert_keeps_sorted(head, s.last());
        to_multiset_insert(head, insert_point(head, s.last()), s.last());
        assert(s =~= s.drop_last().push(s.last()));
        to_multiset_build(s.drop_last(), s.last());
    }
}

/// The texts of the list in order.
pub fn sort_texts(v: &Vec<String>) -> (r: Vec<String>)
    ensures
        texts(r@) == sorted_of(texts(v@)),
        sorted_texts(texts(r@)),
        texts(r@).to_multiset() == texts(v@).to_multiset(),
{
    let mut out: Vec<String> = Vec::new();
    let mut i: usize = 0;
    assert(texts(out@) =~= sorted_of(texts(v@).take(0)));
    while i < v.len()
        invariant
            i <= v.len(),
            texts(out@) == sorted_of(texts(v@).take(i as int)),
        decreases v.len() - i,
    {
        let ghost before = texts(out@);
        let ghost x = v@[i as int]@;
        let mut p: usize = 0;
        proof {
            assert(before.skip(0) =~= before);
            lemma_sorted_of(texts(v@).take(i as int));
        }
        while p < out.len() && !comes_before(v[i].as_str(), out[p].as_str())
            invariant
                i < v.len(),
                p <= out.len(),
                before == texts(out@),
                x == v@[i as int]@,
                insert_point(before, x) == p + insert_point(before.skip(p as int), x),
            decreases out.len() - p,
        {
            proof {
                assert(before.skip(p as int).drop_first() =~= before.skip(p + 1));
                assert(before.skip(p as int)[0] == before[p as int]);
            }
            p += 1;
        }
        proof {
            if p < out.len() {
                assert(before.skip(p as int)[0] == before[p as int]);
            }
            assert(insert_point(before, x) == p);
        }
        out.insert(p, v[i].clone());
        proof {
            assert(texts(out@) =~= before.insert(p as int, x));
            assert(texts(v@).take(i + 1).drop_last() =~= texts(v@).take(i as int));
            assert(texts(v@).take(i + 1).last() == x);
        }
        i += 1;
    }
    proof {
        assert(texts(v@).take(v@.len() as int) =~= texts(v@));
        lemma_sorted_of(texts(v@));
    }
    out
}

/// The keys at the given places.
pub open spec fn keys_at(keys: Seq<Seq<char>>, order: Seq<int>) -> Seq<Seq<char>> {
    Seq::new(order.len(), |i: int| keys[order[i]])
}

/// The places of the keys in the order of the keys; places with equal keys keep their order.
pub open spec fn order_of(keys: Seq<Seq<char>>) -> Seq<int>
    decreases keys.len(),
{
    if keys.len() == 0 {
        Seq::empty()
    } else {
        let head = order_of(keys.drop_last());
        head.insert(
            insert_point(keys_at(keys.drop_last(), head), keys.last()),
            keys.len() - 1,
        )
    }
}

/// `order_of` names each place once, and the keys at its places are in order.
pub proof fn lemma_order_of(keys: Seq<Seq<char>>)
    ensures
        order_of(keys).len() == keys.len(),
        forall|i: int| 0 <= i < keys.len() ==> 0 <= #[trigger] order_of(keys)[i] < keys.len(),
        forall|i: int, j: int|
            0 <= i < j < keys.len() ==> order_of(keys)[i] != order_of(keys)[j],
        sorted_texts(keys_at(keys, order_of(keys))),
    decreases keys.len(),
{
    if keys.len() > 0 {
        let short = keys.drop_last();
        let head = order_of(short);
        lemma_order_of(short);
        let picked = keys_at(short, head);
        let p = insert_point(picked, keys.last());
        lemma_insert_point(picked, keys.last());
        lemma_insert_keeps_sorted(picked, keys.last());
        let all = order_of(keys);
        assert(all == head.insert(p, keys.len() - 1));
        assert forall|i: int| 0 <= i < keys.len() implies 0 <= #[trigger] all[i] < keys.len() by {
            if i < p {
                assert(all[i] == head[i]);
            } else if i > p {
                assert(all[i] == head[i - 1]);
            }
        }
        assert forall|i: int, j: int| 0 <= i < j < keys.len() implies all[i] != all[j] by {
            let a = if i < p { head[i] } else if i == p { keys.len() - 1 } else { head[i - 1] };
            let b = if j < p { head[j] } else if j == p { keys.len() - 1 } else { head[j - 1] };
            assert(all[i] == a && all[j] == b);
        }
        assert(keys_at(keys, all) =~= picked.insert(p, keys.last())) by {
            assert forall|i: int| 0 <= i < all.len() implies keys_at(keys, all)[i] == picked.insert(
                p,
                keys.last(),
            )[i] by {
                if i < p {
                    assert(all[i] == head[i]);
                    assert(short[head[i]] == keys[head[i]]);
                } else if i > p {
                    assert(all[i] == head[i - 1]);
                    assert(short[head[i - 1]] == keys[head[i - 1]]);
                }
            }
        }
    }
}

/// The places of the keys in the order of the keys.
pub fn stable_order(keys: &Vec<String>) -> (r: Vec<usize>)
    ensures
        r@.len() == keys@.len(),
        forall|i: int| 0 <= i < r@.len() ==> r@[i] as int == order_of(texts(keys@))[i],
        forall|i: int| 0 <= i < r@.len() ==> (#[trigger] r@[i]) < keys@.len(),
{
    let ghost all = texts(keys@);
    let mut out: Vec<usize> = Vec::new();
    let mut i: usize = 0;
    assert(all.take(0) =~= Seq::<Seq<char>>::empty());
    while i < keys.len()
        invariant
            i <= keys.len(),
            all == texts(keys@),
            out@.len() == i,
            forall|k: int| 0 <= k < i ==> out@[k] as int == order_of(all.take(i as int))[k],
            forall|k: int| 0 <= k < i ==> (#[trigger] out@[k]) < i,
        decreases keys.len() - i,
    {
        let ghost short = all.take(i as int);
        let ghost head = order_of(short);
        let ghost picked = keys_at(short, head);
        let ghost x = keys@[i as int]@;
        proof {
            lemma_order_of(short);
            assert(picked.skip(0) =~= picked);
            assert(all.take(i + 1).drop_last() =~= short);
            assert(all.take(i + 1).last() == x);
        }
        let mut p: usize = 0;
        while p < out.len() && !comes_before(keys[i].as_str(), keys[out[p]].as_str())
            invariant
                i < keys.len(),
                p <= out.len(),
                out@.len() == i,
                all == texts(keys@),
                short == all.take(i as int),
                head == order_of(short),
                head.len() == i,
                picked == keys_at(short, head),
                x == keys@[i as int]@,
                forall|k: int| 0 <= k < i ==> out@[k] as int == head[k],
                forall|k: int| 0 <= k < i ==> (#[trigger] out@[k]) < i,
                insert_point(picked, x) == p + insert_point(picked.skip(p as int), x),
            decreases out.len() - p,
        {
            proof {
                assert(picked.skip(p as int).drop_first() =~= picked.skip(p + 1));
                assert(picked.skip(p as int)[0] == picked[p as int]);
                assert(picked[p as int] == short[head[p as int]]);
                assert(short[out@[p as int] as int] == keys@[out@[p as int] as int]@);
            }
            p += 1;
        }
        proof {
            if p < out.len() {
                assert(picked.skip(p as int)[0] == picked[p as int]);
                assert(picked[p as int] == short[head[p as int]]);
                assert(short[out@[p as int] as int] == keys@[out@[p as int] as int]@);
            }
            assert(insert_point(picked, x) == p);
        }
        let ghost before = out@;
        out.insert(p, i);
        proof {
            let next = order_of(all.take(i + 1));
            assert(next == head.insert(p as int, i as int));
            assert forall|k: int| 0 <= k < i + 1 implies out@[k] as int == next[k] by {
                if k < p {
                    assert(out@[k] == before[k]);
                } else if k > p {
                    assert(out@[k] == before[k - 1]);
                }
            }
            assert forall|k: int| 0 <= k < i + 1 implies (#[trigger] out@[k]) < i + 1 by {
                if k < p {
                    assert(out@[k] == before[k]);
                } else if k > p {
                    assert(out@[k] == before[k - 1]);
                }
            }
        }
        i += 1;
    }
    proof {
        assert(all.take(keys@.len() as int) =~= all);
    }
    out
}

/// The characters that Unicode calls white space.
pub open spec fn white_space(c: char) -> bool {
    let n = c as u32;
    ||| (0x09 <= n && n <= 0x0D)
    ||| n == 0x20
    ||| n == 0x85
    ||| n == 0xA0
    ||| n == 0x1680
    ||| (0x2000 <= n && n <= 0x200A)
    ||| n == 0x2028
    ||| n == 0x2029
    ||| n == 0x202F
    ||| n == 0x205F
    ||| n == 0x3000
}

/// Whether the character is white space.
pub fn is_white_space(c: char) -> (r: bool)
    ensures
        r == white_space(c),
{
    let n = c as u32;
    (0x09 <= n && n <= 0x0D) || n == 0x20 || n == 0x85 || n == 0xA0 || n == 0x1680 || (0x2000 <= n
        && n <= 0x200A) || n == 0x2028 || n == 0x2029 || n == 0x202F || n == 0x205F || n == 0x3000
}

/// The text without the white space at its start.
pub open spec fn trim_start_of(s: Seq<char>) -> Seq<char>
    decreases s.len(),
{
    if s.len() > 0 && white_space(s[0]) {
        trim_start_of(s.drop_first())
    } else {
        s
    }
}

/// The text without the white space at its end.
pub open spec fn trim_end_of(s: Seq<char>) -> Seq<char>
    decreases s.len(),
{
    if s.len() > 0 && white_space(s.last()) {
        trim_end_of(s.drop_last())
    } else {
        s
    }
}

/// The text without the white space at its start and at its end.
pub open spec fn trimmed(s: Seq<char>) -> Seq<char> {
    trim_end_of(trim_start_of(s))
}

/// The number of white space characters at the start of the text.
fn leading_space(v: &Vec<char>) -> (r: usize)
    ensures
        r <= v@.len(),
        trim_start_of(v@) == v@.skip(r as int),
{
    let mut i: usize = 0;
    assert(v@.skip(0) =~= v@);
    while i < v.len() && is_white_space(v[i])
        invariant
            i <= v.len(),
            trim_start_of(v@) == trim_start_of(v@.skip(i as int)),
        decreases v.len() - i,
    {
        proof {
            assert(v@.skip(i as int).drop_first() =~= v@.skip(i + 1));
            assert(v@.skip(i as int)[0] == v@[i as int]);
        }
        i += 1;
    }
    proof {
        if i < v.len() {
            assert(v@.skip(i as int)[0] == v@[i as int]);
        }
    }
    i
}

/// The end of the text without the white space at its end, for the part from `from` on.
fn trailing_space(v: &Vec<char>, from: usize) -> (r: usize)
    requires
        from <= v@.len(),
    ensures
        from <= r <= v@.len(),
        trim_end_of(v@.skip(from as int)) == v@.subrange(from as int, r as int),
{
    let mut j: usize = v.len();
    assert(v@.subrange(from as int, j as int) =~= v@.skip(from as int));
    while j > from && is_white_space(v[j - 1])
        invariant
            from <= j <= v.len(),
            trim_end_of(v@.skip(from as int)) == trim_end_of(v@.subrange(from as int, j as int)),
        decreases j,
    {
        proof {
            assert(v@.subrange(from as int, j as int).drop_last() =~= v@.subrange(
                from as int,
                j - 1,
            ));
            assert(v@.subrange(from as int, j as int).last() == v@[j - 1]);
        }
        j -= 1;
    }
    proof {
        if j > from {
            assert(v@.subrange(from as int, j as int).last() == v@[j - 1]);
        }
    }
    j
}

/// The text without the white space at its start and at its end.
pub fn trim<'a>(s: &'a str) -> (r: &'a str)
    ensures
        r@ == trimmed(s@),
{
    let v = chars_of(s);
    let from = leading_space(&v);
    let to = trailing_space(&v, from);
    s.substring_char(from, to)
}

/// The text without the white space at its start.
pub fn trim_start<'a>(s: &'a str) -> (r: &'a str)
    ensures
        r@ == trim_start_of(s@),
{
    let v = chars_of(s);
    let from = leading_space(&v);
    assert(v@.subrange(from as int, v@.len() as int) =~= v@.skip(from as int));
    s.substring_char(from, v.len())
}

/// The first character of the text, where it has one.
pub fn first_char(s: &str) -> (r: Option<char>)
    ensures
        r == if s@.len() > 0 {
            Some(s@[0])
        } else {
            None
        },
{
    let v = chars_of(s);
    if v.len() > 0 {
        Some(v[0])
    } else {
        None
    }
}

/// The last character of the text, where it has one.
pub fn last_char(s: &str) -> (r: Option<char>)
    ensures
        r == if s@.len() > 0 {
            Some(s@.last())
        } else {
            None
        },
{
    let v = chars_of(s);
    if v.len() > 0 {
        Some(v[v.len() - 1])
    } else {
        None
    }
}

/// Whether the text starts with the character.
pub fn starts_with_char(s: &str, c: char) -> (r: bool)
    ensures
        r == (s@.len() > 0 && s@[0] == c),
{
    match first_char(s) {
        Some(f) => f == c,
        None => false,
    }
}

/// Whether the text ends with the character.
pub fn ends_with_char(s: &str, c: char) -> (r: bool)
    ensures
        r == (s@.len() > 0 && s@.last() == c),
{
    match last_char(s) {
        Some(f) => f == c,
        None => false,
    }
}

} // verus!
