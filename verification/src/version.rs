//! Versions of three numbers: finding the version in the header of a file, and raising it.

use vstd::prelude::*;
use vstd::string::*;
use crate::numbers::{all_digits, decimal, digits_value, format_u64, is_digit, lemma_digits_grow};
use crate::split::{has_prefix, matches_at, slice_chars};
use crate::text::{chars_of, is_white_space, opt_text, same_text, string_of, white_space};

verus! {

/// The number of digits at the start of the text.
pub open spec fn digit_run(s: Seq<char>) -> int
    decreases s.len(),
{
    if s.len() == 0 || !is_digit(s[0]) {
        0
    } else {
        1 + digit_run(s.drop_first())
    }
}

/// The number of white space characters at the start of the text.
pub open spec fn space_run(s: Seq<char>) -> int
    decreases s.len(),
{
    if s.len() == 0 || !white_space(s[0]) {
        0
    } else {
        1 + space_run(s.drop_first())
    }
}

pub proof fn lemma_digit_run(s: Seq<char>)
    ensures
        0 <= digit_run(s) <= s.len(),
        all_digits(s.take(digit_run(s))),
        digit_run(s) < s.len() ==> !is_digit(s[digit_run(s)]),
    decreases s.len(),
{
    if s.len() > 0 && is_digit(s[0]) {
        lemma_digit_run(s.drop_first());
        let n = digit_run(s.drop_first());
        assert forall|i: int| 0 <= i < s.take(n + 1).len() implies is_digit(
            #[trigger] s.take(n + 1)[i],
        ) by {
            if i > 0 {
                assert(s.drop_first().take(n)[i - 1] == s[i]);
            }
        }
        if n + 1 < s.len() {
            assert(s.drop_first()[n] == s[n + 1]);
        }
    }
}

pub proof fn lemma_space_run(s: Seq<char>)
    ensures
        0 <= space_run(s) <= s.len(),
    decreases s.len(),
{
    if s.len() > 0 && white_space(s[0]) {
        lemma_space_run(s.drop_first());
    }
}

/// The length of the version at the start of the text: digits, a dot, digits, a dot,
/// digits, each run as long as it goes. None where the text starts with no version.
pub open spec fn version_len(s: Seq<char>) -> Option<int> {
    let a = digit_run(s);
    let rest1 = s.skip(a + 1);
    let b = digit_run(rest1);
    let rest2 = rest1.skip(b + 1);
    let c = digit_run(rest2);
    if a > 0 && a < s.len() && s[a] == '.' && b > 0 && b < rest1.len() && rest1[b] == '.' && c > 0 {
        Some(a + 1 + b + 1 + c)
    } else {
        None
    }
}

/// The version that follows the word `Version:` at the start of the text, after any white
/// space.
pub open spec fn header_version(s: Seq<char>) -> Option<Seq<char>> {
    if !has_prefix(s, "Version:"@) {
        None
    } else {
        let body = s.skip(8);
        let from = space_run(body);
        match version_len(body.skip(from)) {
            Some(n) => Some(body.skip(from).take(n)),
            None => None,
        }
    }
}

/// The version of the first `Version:` header in the text that gives one.
pub open spec fn found_version(s: Seq<char>) -> Option<Seq<char>>
    decreases s.len(),
{
    if s.len() == 0 {
        None
    } else if header_version(s) is Some {
        header_version(s)
    } else {
        found_version(s.drop_first())
    }
}

/// The end of the digits that start at `from`.
fn skip_digits(v: &Vec<char>, from: usize) -> (r: usize)
    requires
        from <= v@.len(),
    ensures
        from <= r <= v@.len(),
        r - from == digit_run(v@.skip(from as int)),
{
    let mut i: usize = from;
    let ghost body = v@.skip(from as int);
    assert(body.skip(0) =~= body);
    while i < v.len() && v[i] >= '0' && v[i] <= '9'
        invariant
            from <= i <= v.len(),
            body == v@.skip(from as int),
            digit_run(body) == (i - from) + digit_run(body.skip(i - from)),
        decreases v.len() - i,
    {
        proof {
            assert(body.skip(i - from).drop_first() =~= body.skip(i - from + 1));
            assert(body.skip(i - from)[0] == v@[i as int]);
        }
        i += 1;
    }
    proof {
        if i < v.len() {
            assert(body.skip(i - from)[0] == v@[i as int]);
        }
    }
    i
}

/// The end of the white space that starts at `from`.
fn skip_spaces(v: &Vec<char>, from: usize) -> (r: usize)
    requires
        from <= v@.len(),
    ensures
        from <= r <= v@.len(),
        r - from == space_run(v@.skip(from as int)),
{
    let mut i: usize = from;
    let ghost body = v@.skip(from as int);
    assert(body.skip(0) =~= body);
    while i < v.len() && is_white_space(v[i])
        invariant
            from <= i <= v.len(),
            body == v@.skip(from as int),
            space_run(body) == (i - from) + space_run(body.skip(i - from)),
        decreases v.len() - i,
    {
        proof {
            assert(body.skip(i - from).drop_first() =~= body.skip(i - from + 1));
            assert(body.skip(i - from)[0] == v@[i as int]);
        }
        i += 1;
    }
    proof {
        if i < v.len() {
            assert(body.skip(i - from)[0] == v@[i as int]);
        }
    }
    i
}

/// The end of the version that starts at `from`, where one starts there.
fn version_end(v: &Vec<char>, from: usize) -> (r: Option<usize>)
    requires
        from <= v@.len(),
    ensures
        match r {
            Some(end) => from <= end <= v@.len() && version_len(v@.skip(from as int)) == Some(
                end - from,
            ),
            None => version_len(v@.skip(from as int)) is None,
        },
{
    let ghost s = v@.skip(from as int);
    let a = skip_digits(v, from);
    if a == from || a >= v.len() || v[a] != '.' {
        assert(a < v.len() ==> s[a - from] == v@[a as int]);
        return None;
    }
    assert(s[a - from] == v@[a as int]);
    let ghost rest1 = s.skip(a - from + 1);
    assert(rest1 =~= v@.skip(a + 1));
    let b = skip_digits(v, a + 1);
    if b == a + 1 || b >= v.len() || v[b] != '.' {
        assert(b < v.len() ==> rest1[b - a - 1] == v@[b as int]);
        return None;
    }
    assert(rest1[b - a - 1] == v@[b as int]);
    let ghost rest2 = rest1.skip(b - a - 1 + 1);
    assert(rest2 =~= v@.skip(b + 1));
    let c = skip_digits(v, b + 1);
    if c == b + 1 {
        return None;
    }
    Some(c)
}

/// Finds the version in the header of a file: the first `Version:` that is followed, after
/// any white space, by three numbers with dots between them.
pub fn parse_component_version(content: &str) -> (r: Option<String>)
    ensures
        opt_text(r) == found_version(content@),
{
    let v = chars_of(content);
    let word = chars_of("Version:");
    proof {
        reveal_strlit("Version:");
    }
    let mut at: usize = 0;
    assert(v@.skip(0) =~= v@);
    while at < v.len()
        invariant
            at <= v.len(),
            v@ == content@,
            word@ == "Version:"@,
            word@.len() == 8,
            found_version(v@) == found_version(v@.skip(at as int)),
        decreases v.len() - at,
    {
        let ghost s = v@.skip(at as int);
        proof {
            assert(s.drop_first() =~= v@.skip(at + 1));
        }
        if matches_at(&v, at, &word) {
            assert(at + 8 <= v.len());
            let ghost body = s.skip(8);
            assert(body =~= v@.skip(at + 8));
            let from = skip_spaces(&v, at + 8);
            assert(body.skip(from - at - 8) =~= v@.skip(from as int));
            match version_end(&v, from) {
                Some(end) => {
                    let found = string_of(&slice_chars(&v, from, end));
                    assert(found@ =~= v@.skip(from as int).take(end - from));
                    return Some(found);
                },
                None => {},
            }
        }
        at += 1;
    }
    proof {
        assert(v@.skip(v@.len() as int).len() == 0);
    }
    None
}

/// Which part of a version is raised.
#[derive(Clone, Copy, Debug, PartialEq, Eq, Structural)]
pub enum Bump {
    Patch,
    Minor,
    Major,
}

/// The part that a word names.
pub open spec fn bump_of(word: Seq<char>) -> Option<Bump> {
    if word == "patch"@ {
        Some(Bump::Patch)
    } else if word == "minor"@ {
        Some(Bump::Minor)
    } else if word == "major"@ {
        Some(Bump::Major)
    } else {
        None
    }
}

/// The three numbers of a version: the whole text must be digits, a dot, digits, a dot,
/// digits, and each number must fit 64 bits.
pub open spec fn version_parts(s: Seq<char>) -> Option<(nat, nat, nat)> {
    let a = digit_run(s);
    let rest1 = s.skip(a + 1);
    let b = digit_run(rest1);
    let rest2 = rest1.skip(b + 1);
    let c = digit_run(rest2);
    if version_len(s) == Some(s.len() as int) && digits_value(s.take(a)) <= u64::MAX
        && digits_value(rest1.take(b)) <= u64::MAX && digits_value(rest2.take(c)) <= u64::MAX {
        Some((digits_value(s.take(a)), digits_value(rest1.take(b)), digits_value(rest2.take(c))))
    } else {
        None
    }
}

/// The numbers of the version after the part is raised: the parts behind it start again at
/// zero.
pub open spec fn raised(parts: (nat, nat, nat), bump: Bump) -> (nat, nat, nat) {
    match bump {
        Bump::Patch => (parts.0, parts.1, parts.2 + 1),
        Bump::Minor => (parts.0, parts.1 + 1, 0nat),
        Bump::Major => (parts.0 + 1, 0nat, 0nat),
    }
}

/// The text of a version.
pub open spec fn version_text(parts: (nat, nat, nat)) -> Seq<char> {
    decimal(parts.0) + "."@ + decimal(parts.1) + "."@ + decimal(parts.2)
}

/// The version after the part that the word names is raised. There is none where the text
/// is no version, the word names no part, or the raised number does not fit 64 bits.
pub open spec fn incremented(version: Seq<char>, bump: Seq<char>) -> Option<Seq<char>> {
    match (version_parts(version), bump_of(bump)) {
        (Some(parts), Some(b)) => {
            let next = raised(parts, b);
            if next.0 <= u64::MAX && next.1 <= u64::MAX && next.2 <= u64::MAX {
                Some(version_text(next))
            } else {
                None
            }
        },
        _ => None,
    }
}

/// The number that the digits from `from` to `to` stand for, where it fits 64 bits.
fn read_number(v: &Vec<char>, from: usize, to: usize) -> (r: Option<u64>)
    requires
        from <= to <= v@.len(),
        all_digits(v@.subrange(from as int, to as int)),
    ensures
        match r {
            Some(n) => n == digits_value(v@.subrange(from as int, to as int)),
            None => digits_value(v@.subrange(from as int, to as int)) > u64::MAX,
        },
{
    let ghost s = v@.subrange(from as int, to as int);
    let mut acc: u64 = 0;
    let mut i: usize = from;
    assert(s.take(0) =~= Seq::<char>::empty());
    while i < to
        invariant
            from <= i <= to <= v@.len(),
            s == v@.subrange(from as int, to as int),
            all_digits(s),
            acc == digits_value(s.take(i - from)),
        decreases to - i,
    {
        let c = v[i];
        assert(s[i - from] == c);
        assert(is_digit(c));
        proof {
            assert(s.take(i - from + 1).drop_last() =~= s.take(i - from));
            assert(s.take(i - from + 1).last() == c);
        }
        let d = (c as u32 - '0' as u32) as u64;
        let next: u128 = acc as u128 * 10 + d as u128;
        if next > u64::MAX as u128 {
            proof {
                lemma_digits_grow(s, i - from + 1);
            }
            return None;
        }
        acc = next as u64;
        i += 1;
    }
    proof {
        assert(s.take(to - from) =~= s);
    }
    Some(acc)
}

/// The three numbers of a version.
fn parse_parts(version: &str) -> (r: Option<(u64, u64, u64)>)
    ensures
        match r {
            Some((a, b, c)) => version_parts(version@) == Some((a as nat, b as nat, c as nat)),
            None => version_parts(version@) is None,
        },
{
    let v = chars_of(version);
    assert(v@.skip(0) =~= v@);
    let end = match version_end(&v, 0) {
        Some(e) => e,
        None => {
            return None;
        },
    };
    if end != v.len() {
        return None;
    }
    let a = skip_digits(&v, 0);
    let ghost rest1 = v@.skip(a + 1);
    let b = skip_digits(&v, a + 1);
    let ghost rest2 = rest1.skip(b - a - 1 + 1);
    assert(rest2 =~= v@.skip(b + 1));
    let c = skip_digits(&v, b + 1);
    proof {
        lemma_digit_run(v@);
        lemma_digit_run(rest1);
        lemma_digit_run(rest2);
        assert(v@.subrange(0, a as int) =~= v@.take(a as int));
        assert(v@.subrange(a + 1, b as int) =~= rest1.take(b - a - 1));
        assert(v@.subrange(b + 1, c as int) =~= rest2.take(c - b - 1));
    }
    let major = match read_number(&v, 0, a) {
        Some(n) => n,
        None => {
            return None;
        },
    };
    let minor = match read_number(&v, a + 1, b) {
        Some(n) => n,
        None => {
            return None;
        },
    };
    let patch = match read_number(&v, b + 1, c) {
        Some(n) => n,
        None => {
            return None;
        },
    };
    Some((major, minor, patch))
}

/// Raises the part of a version that the word names: `patch`, `minor` or `major`.
pub fn increment_version(version: &str, bump: &str) -> (r: Option<String>)
    ensures
        opt_text(r) == incremented(version@, bump@),
{
    let (major, minor, patch) = match parse_parts(version) {
        Some(p) => p,
        None => {
            return None;
        },
    };
    let (a, b, c) = if same_text(bump, "patch") {
        match patch.checked_add(1) {
            Some(n) => (major, minor, n),
            None => {
                return None;
            },
        }
    } else if same_text(bump, "minor") {
        match minor.checked_add(1) {
            Some(n) => (major, n, 0),
            None => {
                return None;
            },
        }
    } else if same_text(bump, "major") {
        match major.checked_add(1) {
            Some(n) => (n, 0, 0),
            None => {
                return None;
            },
        }
    } else {
        return None;
    };
    let mut out = format_u64(a);
    out.append(".");
    out.append(format_u64(b).as_str());
    out.append(".");
    out.append(format_u64(c).as_str());
    Some(out)
}

} // verus!
