//! Taking texts apart: lines, words, the place of a character, and replacing one text by
//! another.

use vstd::prelude::*;
use vstd::string::*;
use crate::text::{chars_of, is_white_space, string_of, texts, trim_start_of, white_space};

verus! {

/// The place of the first `c` in the text, or its length where there is none.
pub open spec fn first_index(s: Seq<char>, c: char) -> int
    decreases s.len(),
{
    if s.len() == 0 {
        0
    } else if s[0] == c {
        0
    } else {
        1 + first_index(s.drop_first(), c)
    }
}

/// The place of the last `c` in the text, or -1 where there is none.
pub open spec fn last_index(s: Seq<char>, c: char) -> int
    decreases s.len(),
{
    if s.len() == 0 {
        -1
    } else if s.last() == c {
        s.len() - 1
    } else {
        last_index(s.drop_last(), c)
    }
}

/// The first index is a place of `c`, or the length, and `c` stands at no place before it.
pub proof fn lemma_first_index(s: Seq<char>, c: char)
    ensures
        0 <= first_index(s, c) <= s.len(),
        first_index(s, c) < s.len() ==> s[first_index(s, c)] == c,
        forall|i: int| 0 <= i < first_index(s, c) ==> s[i] != c,
    decreases s.len(),
{
    if s.len() > 0 && s[0] != c {
        lemma_first_index(s.drop_first(), c);
        assert forall|i: int| 0 <= i < first_index(s, c) implies s[i] != c by {
            if i > 0 {
                assert(s.drop_first()[i - 1] == s[i]);
            }
        }
    }
}

/// The last index is a place of `c`, or -1, and `c` stands at no place behind it.
pub proof fn lemma_last_index(s: Seq<char>, c: char)
    ensures
        -1 <= last_index(s, c) < s.len(),
        last_index(s, c) >= 0 ==> s[last_index(s, c)] == c,
        forall|i: int| last_index(s, c) < i < s.len() ==> s[i] != c,
    decreases s.len(),
{
    if s.len() > 0 && s.last() != c {
        lemma_last_index(s.drop_last(), c);
        assert forall|i: int| last_index(s, c) < i < s.len() implies s[i] != c by {
            if i < s.len() - 1 {
                assert(s.drop_last()[i] == s[i]);
            }
        }
    }
}

/// The place of the first `c` in the characters from `from` on.
pub fn find_from(v: &Vec<char>, from: usize, c: char) -> (r: usize)
    requires
        from <= v@.len(),
    ensures
        from <= r <= v@.len(),
        r - from == first_index(v@.skip(from as int), c),
{
    let mut i: usize = from;
    let ghost body = v@.skip(from as int);
    assert(body.skip(0) =~= body);
    while i < v.len() && v[i] != c
        invariant
            from <= i <= v.len(),
            body == v@.skip(from as int),
            first_index(body, c) == (i - from) + first_index(body.skip(i - from), c),
        decreases v.len() - i,
    {
        proof {
            assert(body.skip(i - from).drop_first() =~= body.skip(i - from + 1));
            assert(body.skip(i - from)[0] == v@[i as int]);
        }
        i += 1;
    }
    proof {
        if i < v.len() {
            assert(body.skip(i - from)[0] == v@[i as int]);
        }
    }
    i
}

/// The place of the first `c` in the text, where there is one.
pub fn find_char(s: &str, c: char) -> (r: Option<usize>)
    ensures
        r == if first_index(s@, c) < s@.len() {
            Some(first_index(s@, c) as usize)
        } else {
            None
        },
{
    let v = chars_of(s);
    assert(v@.skip(0) =~= v@);
    let i = find_from(&v, 0, c);
    if i < v.len() {
        Some(i)
    } else {
        None
    }
}

/// The place of the last `c` in the text, where there is one.
pub fn find_last_char(v: &Vec<char>, c: char) -> (r: Option<usize>)
    ensures
        r == if last_index(v@, c) >= 0 {
            Some(last_index(v@, c) as usize)
        } else {
            None
        },
{
    let mut j: usize = v.len();
    assert(v@.take(j as int) =~= v@);
    while j > 0 && v[j - 1] != c
        invariant
            j <= v.len(),
            last_index(v@, c) == last_index(v@.take(j as int), c),
        decreases j,
    {
        proof {
            assert(v@.take(j as int).drop_last() =~= v@.take(j - 1));
            assert(v@.take(j as int).last() == v@[j - 1]);
        }
        j -= 1;
    }
    proof {
        if j > 0 {
            assert(v@.take(j as int).last() == v@[j - 1]);
        }
    }
    if j > 0 {
        Some(j - 1)
    } else {
        None
    }
}

/// The characters from `from` to `to`.
pub fn slice_chars(v: &Vec<char>, from: usize, to: usize) -> (r: Vec<char>)
    requires
        from <= to <= v@.len(),
    ensures
        r@ == v@.subrange(from as int, to as int),
{
    let mut out: Vec<char> = Vec::new();
    let mut i: usize = from;
    while i < to
        invariant
            from <= i <= to <= v@.len(),
            out@ == v@.subrange(from as int, i as int),
        decreases to - i,
    {
        out.push(v[i]);
        assert(out@ =~= v@.subrange(from as int, i + 1));
        i += 1;
    }
    out
}

/// `p` stands at the start of `s`.
pub open spec fn has_prefix(s: Seq<char>, p: Seq<char>) -> bool {
    p.len() <= s.len() && s.take(p.len() as int) == p
}

/// `p` stands at the end of `s`.
pub open spec fn has_suffix(s: Seq<char>, p: Seq<char>) -> bool {
    p.len() <= s.len() && s.skip(s.len() - p.len()) == p
}

/// Whether `p` stands in `v` at the place `at`.
pub fn matches_at(v: &Vec<char>, at: usize, p: &Vec<char>) -> (r: bool)
    requires
        at <= v@.len(),
    ensures
        r == has_prefix(v@.skip(at as int), p@),
{
    if p.len() > v.len() - at {
        return false;
    }
    let mut i: usize = 0;
    while i < p.len()
        invariant
            at <= v.len(),
            at + p.len() <= v.len(),
            i <= p.len(),
            forall|k: int| 0 <= k < i ==> v@[at + k] == p@[k],
        decreases p.len() - i,
    {
        if v[at + i] != p[i] {
            assert(v@.skip(at as int).take(p@.len() as int)[i as int] != p@[i as int]);
            return false;
        }
        i += 1;
    }
    assert(v@.skip(at as int).take(p@.len() as int) =~= p@);
    true
}

/// Whether the text starts with `prefix`.
pub fn starts_with(s: &str, prefix: &str) -> (r: bool)
    ensures
        r == has_prefix(s@, prefix@),
{
    let v = chars_of(s);
    let p = chars_of(prefix);
    assert(v@.skip(0) =~= v@);
    matches_at(&v, 0, &p)
}

/// Whether the text ends with `suffix`.
pub fn ends_with(s: &str, suffix: &str) -> (r: bool)
    ensures
        r == has_suffix(s@, suffix@),
{
    let v = chars_of(s);
    let p = chars_of(suffix);
    if p.len() > v.len() {
        return false;
    }
    let at = v.len() - p.len();
    let found = matches_at(&v, at, &p);
    assert(v@.skip(at as int).take(p@.len() as int) =~= v@.skip(at as int));
    found
}

/// `p` stands somewhere in `s`.
pub open spec fn has_part(s: Seq<char>, p: Seq<char>) -> bool {
    exists|at: int| 0 <= at <= s.len() && has_prefix(#[trigger] s.skip(at), p)
}

/// Whether `part` stands somewhere in the text.
pub fn contains(s: &str, part: &str) -> (r: bool)
    ensures
        r == has_part(s@, part@),
{
    let v = chars_of(s);
    let p = chars_of(part);
    let mut at: usize = 0;
    while at <= v.len()
        invariant
            at <= v.len() + 1,
            v@ == s@,
            p@ == part@,
            forall|k: int| 0 <= k < at ==> !has_prefix(#[trigger] v@.skip(k), p@),
        decreases v.len() + 1 - at,
    {
        if matches_at(&v, at, &p) {
            return true;
        }
        if at == v.len() {
            return false;
        }
        at += 1;
    }
    false
}

/// The text with `to` in the place of each `pat`, taken from the left.
pub open spec fn replaced(s: Seq<char>, pat: Seq<char>, to: Seq<char>) -> Seq<char>
    decreases s.len(),
{
    if pat.len() == 0 || s.len() < pat.len() {
        s
    } else if has_prefix(s, pat) {
        to + replaced(s.skip(pat.len() as int), pat, to)
    } else {
        seq![s[0]] + replaced(s.drop_first(), pat, to)
    }
}

/// Puts `to` in the place of each `pat`, taken from the left. With an empty `pat` the text
/// stays as it is.
pub fn replace(s: &str, pat: &str, to: &str) -> (r: String)
    ensures
        r@ == replaced(s@, pat@, to@),
{
    let v = chars_of(s);
    let p = chars_of(pat);
    let t = chars_of(to);
    if p.len() == 0 {
        return string_of(&v);
    }
    let mut out: Vec<char> = Vec::new();
    let mut i: usize = 0;
    assert(v@.skip(0) =~= v@);
    while i < v.len()
        invariant
            i <= v.len(),
            p@.len() > 0,
            out@ + replaced(v@.skip(i as int), p@, t@) == replaced(v@, p@, t@),
        decreases v.len() - i,
    {
        let ghost before = out@;
        let ghost rest = v@.skip(i as int);
        if matches_at(&v, i, &p) {
            let mut k: usize = 0;
            while k < t.len()
                invariant
                    k <= t.len(),
                    out@ == before + t@.take(k as int),
                decreases t.len() - k,
            {
                out.push(t[k]);
                assert(out@ =~= before + t@.take(k + 1));
                k += 1;
            }
            proof {
                assert(t@.take(t@.len() as int) =~= t@);
                assert(rest.skip(p@.len() as int) =~= v@.skip(i + p@.len()));
                assert(before + t@ + replaced(v@.skip(i + p@.len()), p@, t@) =~= before + replaced(
                    rest,
                    p@,
                    t@,
                ));
            }
            i += p.len();
        } else {
            out.push(v[i]);
            proof {
                assert(rest.drop_first() =~= v@.skip(i + 1));
                assert(rest[0] == v@[i as int]);
                if rest.len() < p@.len() {
                    lemma_short_rest(rest, p@, t@);
                    lemma_short_rest(rest.drop_first(), p@, t@);
                    assert(seq![rest[0]] + rest.drop_first() =~= rest);
                }
                assert(before.push(v@[i as int]) + replaced(v@.skip(i + 1), p@, t@) =~= before
                    + replaced(rest, p@, t@));
            }
            i += 1;
        }
    }
    proof {
        assert(v@.skip(v@.len() as int) =~= Seq::<char>::empty());
        assert(out@ + Seq::<char>::empty() =~= out@);
    }
    string_of(&out)
}

/// A text shorter than the pattern stays as it is.
pub proof fn lemma_short_rest(s: Seq<char>, pat: Seq<char>, to: Seq<char>)
    requires
        s.len() < pat.len(),
    ensures
        replaced(s, pat, to) == s,
{
}

/// The line without a carriage return at its end.
pub open spec fn without_return(line: Seq<char>) -> Seq<char> {
    if line.len() > 0 && line.last() == '\r' {
        line.drop_last()
    } else {
        line
    }
}

/// The lines of a text. A line ends with a line feed, which is left out together with a
/// carriage return before it; what follows the last line feed is a line too where it is not
/// empty.
pub open spec fn lines_of(s: Seq<char>) -> Seq<Seq<char>>
    decreases s.len(),
    via lines_decrease
{
    if s.len() == 0 {
        Seq::empty()
    } else {
        let i = first_index(s, '\n');
        if i < s.len() {
            seq![without_return(s.take(i))] + lines_of(s.skip(i + 1))
        } else {
            seq![s]
        }
    }
}

#[via_fn]
proof fn lines_decrease(s: Seq<char>) {
    lemma_first_index(s, '\n');
}

/// The lines of a text.
pub fn lines(s: &str) -> (r: Vec<String>)
    ensures
        texts(r@) == lines_of(s@),
{
    let v = chars_of(s);
    let mut out: Vec<String> = Vec::new();
    let mut at: usize = 0;
    assert(v@.skip(0) =~= v@);
    assert(texts(out@) =~= Seq::<Seq<char>>::empty());
    while at < v.len()
        invariant
            at <= v.len(),
            texts(out@) + lines_of(v@.skip(at as int)) == lines_of(v@),
        decreases v.len() - at,
    {
        let ghost rest = v@.skip(at as int);
        let ghost before = texts(out@);
        let end = find_from(&v, at, '\n');
        proof {
            lemma_first_index(rest, '\n');
        }
        if end < v.len() {
            let stop = if end > at && v[end - 1] == '\r' {
                end - 1
            } else {
                end
            };
            let line = string_of(&slice_chars(&v, at, stop));
            proof {
                assert(rest.take(end - at) =~= v@.subrange(at as int, end as int));
                if end > at {
                    assert(rest.take(end - at).last() == v@[end - 1]);
                }
                assert(line@ =~= without_return(rest.take(end - at)));
                assert(rest.skip(end - at + 1) =~= v@.skip(end + 1));
            }
            out.push(line);
            proof {
                assert(texts(out@) =~= before.push(without_return(rest.take(end - at))));
                assert(before.push(without_return(rest.take(end - at))) + lines_of(v@.skip(end + 1))
                    =~= before + lines_of(rest));
            }
            at = end + 1;
        } else {
            let line = string_of(&slice_chars(&v, at, v.len()));
            proof {
                assert(v@.subrange(at as int, v@.len() as int) =~= rest);
            }
            out.push(line);
            proof {
                assert(texts(out@) =~= before.push(rest));
                assert(v@.skip(v@.len() as int) =~= Seq::<char>::empty());
                assert(before.push(rest) + lines_of(Seq::<char>::empty()) =~= before + lines_of(
                    rest,
                ));
            }
            at = v.len();
        }
    }
    proof {
        assert(v@.skip(v@.len() as int) =~= Seq::<char>::empty());
        assert(texts(out@) + Seq::<Seq<char>>::empty() =~= texts(out@));
    }
    out
}

/// The parts of a text that stand between the occurrences of `c`. A text without `c` is
/// one part, the empty text too.
pub open spec fn parts_of(s: Seq<char>, c: char) -> Seq<Seq<char>>
    decreases s.len(),
    via parts_decrease
{
    let i = first_index(s, c);
    if i < s.len() {
        seq![s.take(i)] + parts_of(s.skip(i + 1), c)
    } else {
        seq![s]
    }
}

#[via_fn]
proof fn parts_decrease(s: Seq<char>, c: char) {
    lemma_first_index(s, c);
}

/// The parts of a text that stand between the occurrences of `c`.
pub fn split_char(s: &str, c: char) -> (r: Vec<String>)
    ensures
        texts(r@) == parts_of(s@, c),
{
    let v = chars_of(s);
    let mut out: Vec<String> = Vec::new();
    let mut at: usize = 0;
    let mut done = false;
    assert(v@.skip(0) =~= v@);
    assert(texts(out@) =~= Seq::<Seq<char>>::empty());
    while !done
        invariant
            at <= v.len(),
            !done ==> texts(out@) + parts_of(v@.skip(at as int), c) == parts_of(v@, c),
            done ==> texts(out@) == parts_of(v@, c),
        decreases
                if done {
                    0
                } else {
                    v.len() - at + 1
                },
    {
        let ghost rest = v@.skip(at as int);
        let ghost before = texts(out@);
        let end = find_from(&v, at, c);
        proof {
            lemma_first_index(rest, c);
        }
        let part = string_of(&slice_chars(&v, at, end));
        proof {
            assert(part@ =~= rest.take(end - at));
        }
        out.push(part);
        if end < v.len() {
            proof {
                assert(rest.skip(end - at + 1) =~= v@.skip(end + 1));
                assert(texts(out@) =~= before.push(rest.take(end - at)));
                assert(before.push(rest.take(end - at)) + parts_of(v@.skip(end + 1), c) =~= before
                    + parts_of(rest, c));
            }
            at = end + 1;
        } else {
            proof {
                assert(rest.take(end - at) =~= rest);
                assert(texts(out@) =~= before.push(rest));
                assert(before.push(rest) =~= before + parts_of(rest, c));
            }
            done = true;
        }
    }
    out
}

/// The number of characters at the start of the text that are not white space.
pub open spec fn word_len(s: Seq<char>) -> int
    decreases s.len(),
{
    if s.len() == 0 || white_space(s[0]) {
        0
    } else {
        1 + word_len(s.drop_first())
    }
}

pub proof fn lemma_word_len(s: Seq<char>)
    ensures
        0 <= word_len(s) <= s.len(),
        s.len() > 0 && !white_space(s[0]) ==> word_len(s) > 0,
    decreases s.len(),
{
    if s.len() > 0 && !white_space(s[0]) {
        lemma_word_len(s.drop_first());
    }
}

pub proof fn lemma_trim_start(s: Seq<char>)
    ensures
        trim_start_of(s).len() <= s.len(),
        trim_start_of(s).len() > 0 ==> !white_space(trim_start_of(s)[0]),
    decreases s.len(),
{
    if s.len() > 0 && white_space(s[0]) {
        lemma_trim_start(s.drop_first());
    }
}

/// The words of a text: its parts without white space, in order.
pub open spec fn words_of(s: Seq<char>) -> Seq<Seq<char>>
    decreases s.len(),
    via words_decrease
{
    let t = trim_start_of(s);
    if t.len() == 0 {
        Seq::empty()
    } else {
        seq![t.take(word_len(t))] + words_of(t.skip(word_len(t)))
    }
}

#[via_fn]
proof fn words_decrease(s: Seq<char>) {
    let t = trim_start_of(s);
    lemma_trim_start(s);
    lemma_word_len(t);
}

/// The words of a text.
pub fn words(s: &str) -> (r: Vec<String>)
    ensures
        texts(r@) == words_of(s@),
{
    let v = chars_of(s);
    let mut out: Vec<String> = Vec::new();
    let mut at: usize = 0;
    assert(v@.skip(0) =~= v@);
    assert(texts(out@) =~= Seq::<Seq<char>>::empty());
    loop
        invariant
            at <= v.len(),
            texts(out@) + words_of(v@.skip(at as int)) == words_of(v@),
        ensures
            texts(out@) == words_of(v@),
        decreases v.len() - at,
    {
        let ghost rest = v@.skip(at as int);
        let ghost before = texts(out@);
        let mut from: usize = at;
        assert(rest.skip(0) =~= rest);
        while from < v.len() && is_white_space(v[from])
            invariant
                at <= from <= v.len(),
                rest == v@.skip(at as int),
                trim_start_of(rest) == trim_start_of(v@.skip(from as int)),
            decreases v.len() - from,
        {
            proof {
                assert(v@.skip(from as int).drop_first() =~= v@.skip(from + 1));
                assert(v@.skip(from as int)[0] == v@[from as int]);
            }
            from += 1;
        }
        let ghost t = v@.skip(from as int);
        proof {
            if from < v.len() {
                assert(t[0] == v@[from as int]);
            }
            assert(trim_start_of(rest) == t);
        }
        if from == v.len() {
            proof {
                assert(texts(out@) + Seq::<Seq<char>>::empty() =~= texts(out@));
            }
            break;
        }
        let mut to: usize = from;
        assert(t.skip(0) =~= t);
        while to < v.len() && !is_white_space(v[to])
            invariant
                from <= to <= v.len(),
                t == v@.skip(from as int),
                word_len(t) == (to - from) + word_len(v@.skip(to as int)),
            decreases v.len() - to,
        {
            proof {
                assert(v@.skip(to as int).drop_first() =~= v@.skip(to + 1));
                assert(v@.skip(to as int)[0] == v@[to as int]);
            }
            to += 1;
        }
        proof {
            if to < v.len() {
                assert(v@.skip(to as int)[0] == v@[to as int]);
            }
            assert(word_len(t) == to - from);
            assert(t.take(to - from) =~= v@.subrange(from as int, to as int));
            assert(t.skip(to - from) =~= v@.skip(to as int));
        }
        let word = string_of(&slice_chars(&v, from, to));
        out.push(word);
        proof {
            assert(texts(out@) =~= before.push(t.take(word_len(t))));
            assert(before.push(t.take(word_len(t))) + words_of(v@.skip(to as int)) =~= before
                + words_of(rest));
        }
        at = to;
    }
    out
}

} // verus!
