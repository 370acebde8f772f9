//! Whole numbers as decimal text.

use vstd::prelude::*;
use vstd::string::*;
use crate::text::{chars_of, string_of};

verus! {

/// The character is one of `0` to `9`.
pub open spec fn is_digit(c: char) -> bool {
    '0' <= c && c <= '9'
}

/// The number that a digit stands for.
pub open spec fn digit_value(c: char) -> nat {
    (c as u32 - '0' as u32) as nat
}

/// Every character of the text is a digit.
pub open spec fn all_digits(s: Seq<char>) -> bool {
    forall|i: int| 0 <= i < s.len() ==> is_digit(#[trigger] s[i])
}

/// The number that a text of digits stands for.
pub open spec fn digits_value(s: Seq<char>) -> nat
    decreases s.len(),
{
    if s.len() == 0 {
        0
    } else {
        digits_value(s.drop_last()) * 10 + digit_value(s.last())
    }
}

/// The text without a plus sign at its start.
pub open spec fn without_plus(s: Seq<char>) -> Seq<char> {
    if s.len() > 0 && s[0] == '+' {
        s.drop_first()
    } else {
        s
    }
}

/// The number that a text stands for: digits, with a plus sign before them or none, and no
/// more than `max`.
pub open spec fn parsed_unsigned(s: Seq<char>, max: nat) -> Option<nat> {
    let body = without_plus(s);
    if body.len() > 0 && all_digits(body) && digits_value(body) <= max {
        Some(digits_value(body))
    } else {
        None
    }
}

/// The number that a text stands for: digits, with a sign before them or none, and within
/// the range of 64 bits.
pub open spec fn parsed_i64(s: Seq<char>) -> Option<int> {
    if s.len() > 0 && s[0] == '-' {
        let body = s.drop_first();
        if body.len() > 0 && all_digits(body) && digits_value(body) <= 0x8000_0000_0000_0000 {
            Some(-(digits_value(body) as int))
        } else {
            None
        }
    } else {
        match parsed_unsigned(s, 0x7fff_ffff_ffff_ffff) {
            Some(n) => Some(n as int),
            None => None,
        }
    }
}

/// A longer text of digits stands for no smaller a number than its start.
pub proof fn lemma_digits_grow(s: Seq<char>, i: int)
    requires
        0 <= i <= s.len(),
    ensures
        digits_value(s.take(i)) <= digits_value(s),
    decreases s.len() - i,
{
    if i < s.len() {
        assert(s.take(i + 1).drop_last() =~= s.take(i));
        lemma_digits_grow(s, i + 1);
    } else {
        assert(s.take(i) =~= s);
    }
}

/// The number that the digits from `from` on stand for, where they are digits, there is at
/// least one, and the number is no more than `max`.
fn read_digits(v: &Vec<char>, from: usize, max: u64) -> (r: Option<u64>)
    requires
        from <= v@.len(),
    ensures
        r == match parsed_unsigned(v@.skip(from as int), max as nat) {
            Some(n) => if v@.len() > from && v@[from as int] == '+' {
                None
            } else {
                Some(n as u64)
            },
            None => None,
        },
        r is Some ==> r->Some_0 <= max,
{
    let ghost body = v@.skip(from as int);
    if from == v.len() {
        return None;
    }
    let mut acc: u64 = 0;
    let mut i: usize = from;
    assert(body.take(0) =~= Seq::<char>::empty());
    while i < v.len()
        invariant
            from <= i <= v.len(),
            from < v@.len(),
            body == v@.skip(from as int),
            all_digits(body.take(i - from)),
            acc == digits_value(body.take(i - from)),
            acc <= max,
        decreases v.len() - i,
    {
        let c = v[i];
        assert(body[i - from] == c);
        proof {
            assert(body.take(i - from + 1).drop_last() =~= body.take(i - from));
            assert(body.take(i - from + 1).last() == c);
        }
        if !(c >= '0' && c <= '9') {
            assert(!is_digit(body[i - from]));
            assert(without_plus(body) == body || without_plus(body) == body.drop_first());
            proof {
                if c == '+' && i == from {
                } else if body[0] == '+' {
                    if i > from {
                        assert(body.drop_first()[i - from - 1] == c);
                    }
                }
            }
            return None;
        }
        let d = (c as u32 - '0' as u32) as u64;
        let next: u128 = acc as u128 * 10 + d as u128;
        if next > max as u128 {
            proof {
                lemma_digits_grow(body, i - from + 1);
                if body[0] == '+' {
                    assert(!is_digit(body.take(i - from + 1)[0]));
                }
            }
            return None;
        }
        acc = next as u64;
        proof {
            assert forall|k: int| 0 <= k < body.take(i - from + 1).len() implies is_digit(
                #[trigger] body.take(i - from + 1)[k],
            ) by {
                if k < i - from {
                    assert(body.take(i - from)[k] == body[k]);
                }
            }
        }
        i += 1;
    }
    proof {
        assert(body.take(i - from) =~= body);
        assert(is_digit(body[0]));
    }
    Some(acc)
}

/// Reads a number of at most 32 bits.
pub fn parse_u32(s: &str) -> (r: Option<u32>)
    ensures
        r == match parsed_unsigned(s@, u32::MAX as nat) {
            Some(n) => Some(n as u32),
            None => None,
        },
{
    let v = chars_of(s);
    let from: usize = if v.len() > 0 && v[0] == '+' {
        1
    } else {
        0
    };
    proof {
        if from == 1 {
            assert(v@.skip(1) =~= v@.drop_first());
            lemma_signed_body(v@.drop_first());
        } else {
            assert(v@.skip(0) =~= v@);
        }
    }
    match read_digits(&v, from, u32::MAX as u64) {
        Some(n) => Some(n as u32),
        None => None,
    }
}

/// Reads a number that fits the machine's word.
pub fn parse_usize(s: &str) -> (r: Option<usize>)
    ensures
        r == match parsed_unsigned(s@, usize::MAX as nat) {
            Some(n) => Some(n as usize),
            None => None,
        },
{
    let v = chars_of(s);
    let from: usize = if v.len() > 0 && v[0] == '+' {
        1
    } else {
        0
    };
    proof {
        if from == 1 {
            assert(v@.skip(1) =~= v@.drop_first());
            lemma_signed_body(v@.drop_first());
        } else {
            assert(v@.skip(0) =~= v@);
        }
    }
    match read_digits(&v, from, usize::MAX as u64) {
        Some(n) => Some(n as usize),
        None => None,
    }
}

/// Reads a number of at most 64 bits with a sign.
pub fn parse_i64(s: &str) -> (r: Option<i64>)
    ensures
        r == match parsed_i64(s@) {
            Some(n) => Some(n as i64),
            None => None,
        },
{
    let v = chars_of(s);
    if v.len() > 0 && v[0] == '-' {
        proof {
            assert(v@.skip(1) =~= v@.drop_first());
            lemma_signed_body(v@.drop_first());
        }
        match read_digits(&v, 1, 0x8000_0000_0000_0000) {
            Some(n) => {
                if n == 0x8000_0000_0000_0000 {
                    Some(i64::MIN)
                } else {
                    Some(-(n as i64))
                }
            },
            None => None,
        }
    } else {
        let from: usize = if v.len() > 0 && v[0] == '+' {
            1
        } else {
            0
        };
        proof {
            if from == 1 {
                assert(v@.skip(1) =~= v@.drop_first());
                lemma_signed_body(v@.drop_first());
            } else {
                assert(v@.skip(0) =~= v@);
            }
        }
        match read_digits(&v, from, 0x7fff_ffff_ffff_ffff) {
            Some(n) => Some(n as i64),
            None => None,
        }
    }
}

/// A text that starts with a plus sign is no text of digits.
pub proof fn lemma_signed_body(body: Seq<char>)
    ensures
        body.len() > 0 && body[0] == '+' ==> !all_digits(body),
        body.len() > 0 && body[0] == '+' ==> !(without_plus(body).len() > 0 && all_digits(body)),
{
}

/// The digit for a number below ten.
pub open spec fn digit_char(d: nat) -> char {
    if d == 0 {
        '0'
    } else if d == 1 {
        '1'
    } else if d == 2 {
        '2'
    } else if d == 3 {
        '3'
    } else if d == 4 {
        '4'
    } else if d == 5 {
        '5'
    } else if d == 6 {
        '6'
    } else if d == 7 {
        '7'
    } else if d == 8 {
        '8'
    } else {
        '9'
    }
}

/// The decimal text of a number.
pub open spec fn decimal(n: nat) -> Seq<char>
    decreases n,
{
    if n < 10 {
        seq![digit_char(n)]
    } else {
        decimal(n / 10).push(digit_char(n % 10))
    }
}

/// The decimal text of a number with a sign.
pub open spec fn signed_decimal(n: int) -> Seq<char> {
    if n < 0 {
        seq!['-'] + decimal((-n) as nat)
    } else {
        decimal(n as nat)
    }
}

/// The digit for a number below ten.
fn digit_of(d: u64) -> (r: char)
    requires
        d < 10,
    ensures
        r == digit_char(d as nat),
{
    if d == 0 {
        '0'
    } else if d == 1 {
        '1'
    } else if d == 2 {
        '2'
    } else if d == 3 {
        '3'
    } else if d == 4 {
        '4'
    } else if d == 5 {
        '5'
    } else if d == 6 {
        '6'
    } else if d == 7 {
        '7'
    } else if d == 8 {
        '8'
    } else {
        '9'
    }
}

/// The digits of a number, the last one first.
pub open spec fn digits_backwards(n: nat) -> Seq<char>
    decreases n,
{
    if n < 10 {
        seq![digit_char(n)]
    } else {
        seq![digit_char(n % 10)] + digits_backwards(n / 10)
    }
}

pub proof fn lemma_digits_backwards(n: nat)
    ensures
        digits_backwards(n).reverse() == decimal(n),
    decreases n,
{
    if n < 10 {
        assert(digits_backwards(n).reverse() =~= decimal(n));
    } else {
        lemma_digits_backwards(n / 10);
        let tail = digits_backwards(n / 10);
        assert((seq![digit_char(n % 10)] + tail).reverse() =~= tail.reverse().push(
            digit_char(n % 10),
        ));
    }
}

/// The decimal digits of a number.
fn decimal_chars(n: u64) -> (r: Vec<char>)
    ensures
        r@ == decimal(n as nat),
{
    let mut back: Vec<char> = Vec::new();
    let mut rest = n;
    while rest >= 10
        invariant
            back@ + digits_backwards(rest as nat) == digits_backwards(n as nat),
        decreases rest,
    {
        let ghost before = back@;
        back.push(digit_of(rest % 10));
        proof {
            assert(before.push(digit_char((rest % 10) as nat)) + digits_backwards((rest / 10) as nat)
                =~= before + digits_backwards(rest as nat));
        }
        rest = rest / 10;
    }
    let ghost before = back@;
    back.push(digit_of(rest));
    proof {
        assert(back@ =~= before + digits_backwards(rest as nat));
        lemma_digits_backwards(n as nat);
    }
    let mut out: Vec<char> = Vec::new();
    let mut i: usize = back.len();
    while i > 0
        invariant
            i <= back.len(),
            out@.len() == back.len() - i,
            forall|k: int| 0 <= k < out@.len() ==> out@[k] == back@[back@.len() - 1 - k],
        decreases i,
    {
        i -= 1;
        out.push(back[i]);
    }
    assert(out@ =~= back@.reverse());
    out
}

/// The decimal text of a number.
pub fn format_u64(n: u64) -> (r: String)
    ensures
        r@ == decimal(n as nat),
{
    string_of(&decimal_chars(n))
}

/// The decimal text of a number.
pub fn format_u32(n: u32) -> (r: String)
    ensures
        r@ == decimal(n as nat),
{
    format_u64(n as u64)
}

/// The decimal text of a number.
pub fn format_u16(n: u16) -> (r: String)
    ensures
        r@ == decimal(n as nat),
{
    format_u64(n as u64)
}

/// The decimal text of a number.
pub fn format_usize(n: usize) -> (r: String)
    ensures
        r@ == decimal(n as nat),
{
    format_u64(n as u64)
}

/// The decimal text of a number with a sign.
pub fn format_i64(n: i64) -> (r: String)
    ensures
        r@ == signed_decimal(n as int),
{
    if n < 0 {
        let magnitude: u64 = if n == i64::MIN {
            0x8000_0000_0000_0000
        } else {
            (-n) as u64
        };
        let mut out = String::from_str("-");
        proof {
            reveal_strlit("-");
            assert("-"@ =~= seq!['-']);
        }
        let digits = format_u64(magnitude);
        out.append(digits.as_str());
        out
    } else {
        format_u64(n as u64)
    }
}

/// The decimal text of a number with a sign.
pub fn format_i32(n: i32) -> (r: String)
    ensures
        r@ == signed_decimal(n as int),
{
    format_i64(n as i64)
}

} // verus!
