//! Decimal numbers as text: reading one from the bytes of an argument, and
//! writing one out.

use vstd::prelude::*;
use vstd::string::StringExecFns;
use vstd::string::StringSliceAdditionalSpecFns;

verus! {

broadcast use vstd::seq::group_seq_axioms;

/// The byte `0`.
pub const ZERO: u8 = 48;

/// The byte `9`.
pub const NINE: u8 = 57;

/// The byte `+`.
pub const PLUS: u8 = 43;

/// Whether `b` is a decimal digit.
pub open spec fn is_digit(b: u8) -> bool {
    ZERO <= b <= NINE
}

/// The number that a run of decimal digits writes, most significant digit
/// first; nothing if a byte of the run is no digit. The empty run writes
/// zero.
pub open spec fn digits_value(digits: Seq<u8>) -> Option<nat>
    decreases digits.len(),
{
    if digits.len() == 0 {
        Some(0nat)
    } else if !is_digit(digits.last()) {
        None
    } else {
        match digits_value(digits.drop_last()) {
            Some(v) => Some((10 * v + (digits.last() - ZERO)) as nat),
            None => None,
        }
    }
}

/// The digits of a number as written: the text itself, less a plus sign in
/// front.
pub open spec fn unsigned_digits(text: Seq<u8>) -> Seq<u8> {
    if text.len() > 0 && text[0] == PLUS {
        text.drop_first()
    } else {
        text
    }
}

/// The number that `text` writes: at least one decimal digit, after at most
/// one plus sign, with a value that a `usize` can hold. Any other text writes
/// no number.
pub open spec fn parsed_usize(text: Seq<u8>) -> Option<usize> {
    let digits = unsigned_digits(text);
    if digits.len() == 0 {
        None
    } else {
        match digits_value(digits) {
            Some(v) => if v <= usize::MAX {
                Some(v as usize)
            } else {
                None
            },
            None => None,
        }
    }
}

/// A run of digits writes a number only if each shorter run from the same
/// start does, and that number is no larger.
pub proof fn lemma_digits_value_grows(digits: Seq<u8>, n: int)
    requires
        0 <= n <= digits.len(),
    ensures
        digits_value(digits) is Some ==> digits_value(digits.subrange(0, n)) is Some
            && digits_value(digits.subrange(0, n))->0 <= digits_value(digits)->0,
    decreases digits.len(),
{
    if n == digits.len() {
        assert(digits.subrange(0, n) =~= digits);
    } else {
        assert(digits.drop_last().subrange(0, n) =~= digits.subrange(0, n));
        lemma_digits_value_grows(digits.drop_last(), n);
    }
}

/// The number that a run of digits writes, where it writes one that is no
/// larger than `limit`.
pub open spec fn bounded_value(digits: Seq<u8>, limit: u64) -> Option<u64> {
    match digits_value(digits) {
        Some(v) => if v <= limit {
            Some(v as u64)
        } else {
            None
        },
        None => None,
    }
}

/// Reads the digits that stand in `raw` from `start` on.
fn parse_digits(raw: &[u8], start: usize, limit: u64) -> (res: Option<u64>)
    requires
        start <= raw@.len(),
    ensures
        res == bounded_value(raw@.subrange(start as int, raw@.len() as int), limit),
{
    let ghost digits = raw@.subrange(start as int, raw@.len() as int);
    let mut value: u64 = 0;
    let mut i: usize = start;
    assert(digits.subrange(0, 0) =~= Seq::<u8>::empty());
    while i < raw.len()
        invariant
            start <= i <= raw@.len(),
            digits == raw@.subrange(start as int, raw@.len() as int),
            digits_value(digits.subrange(0, i - start)) == Some(value as nat),
            value <= limit,
        decreases raw@.len() - i,
    {
        let b = raw[i];
        let ghost seen = digits.subrange(0, i - start);
        let ghost next = digits.subrange(0, i - start + 1);
        proof {
            assert(next.drop_last() =~= seen);
            assert(next.last() == b);
            lemma_digits_value_grows(digits, i - start + 1);
        }
        if b < ZERO || b > NINE {
            assert(digits_value(next) is None);
            return None;
        }
        let d: u64 = (b - ZERO) as u64;
        assert(digits_value(next) == Some((10 * value + d) as nat));
        if d > limit || value > (limit - d) / 10 {
            assert(10 * value + d > limit);
            return None;
        }
        value = value * 10 + d;
        i += 1;
    }
    assert(digits.subrange(0, i - start) =~= digits);
    Some(value)
}

/// The number that `text` writes, if it writes one.
pub fn parse_usize(text: &str) -> (res: Option<usize>)
    ensures
        res == parsed_usize(text.spec_bytes()),
{
    let raw = text.as_bytes();
    let start: usize = if raw.len() > 0 && raw[0] == PLUS {
        1
    } else {
        0
    };
    if start == raw.len() {
        return None;
    }
    assert(unsigned_digits(raw@) =~= raw@.subrange(start as int, raw@.len() as int));
    match parse_digits(raw, start, usize::MAX as u64) {
        Some(value) => Some(value as usize),
        None => None,
    }
}

/// The byte `-`.
pub const MINUS: u8 = 45;

/// The largest `i32`, and the size of the smallest.
pub const I32_MAX: u64 = 2147483647;

/// The digits of a number as written: the text itself, less a sign in front.
pub open spec fn signed_digits(text: Seq<u8>) -> Seq<u8> {
    if text.len() > 0 && (text[0] == PLUS || text[0] == MINUS) {
        text.drop_first()
    } else {
        text
    }
}

/// The number that `text` writes: at least one decimal digit, after at most
/// one sign, with a value that an `i32` can hold. Any other text writes no
/// number.
pub open spec fn parsed_i32(text: Seq<u8>) -> Option<i32> {
    let digits = signed_digits(text);
    let negative = text.len() > 0 && text[0] == MINUS;
    if digits.len() == 0 {
        None
    } else {
        match digits_value(digits) {
            Some(v) => if negative && v <= I32_MAX + 1 {
                Some((-v) as i32)
            } else if !negative && v <= I32_MAX {
                Some(v as i32)
            } else {
                None
            },
            None => None,
        }
    }
}

/// The number that `text` writes, if it writes one.
pub fn parse_i32(text: &str) -> (res: Option<i32>)
    ensures
        res == parsed_i32(text.spec_bytes()),
{
    let raw = text.as_bytes();
    let negative = raw.len() > 0 && raw[0] == MINUS;
    let start: usize = if raw.len() > 0 && (raw[0] == PLUS || raw[0] == MINUS) {
        1
    } else {
        0
    };
    if start == raw.len() {
        return None;
    }
    assert(signed_digits(raw@) =~= raw@.subrange(start as int, raw@.len() as int));
    let limit: u64 = if negative {
        I32_MAX + 1
    } else {
        I32_MAX
    };
    match parse_digits(raw, start, limit) {
        Some(value) => {
            let wide: i64 = value as i64;
            if negative {
                Some((0 - wide) as i32)
            } else {
                Some(wide as i32)
            }
        },
        None => None,
    }
}

/// The decimal digits of `n`, most significant first; zero is written `0`.
pub open spec fn decimal(n: nat) -> Seq<char>
    decreases n,
{
    if n < 10 {
        seq![digit_char(n)]
    } else {
        decimal(n / 10).push(digit_char(n % 10))
    }
}

/// The character that writes a digit.
pub open spec fn digit_char(d: nat) -> char {
    if d == 0 {
        '0'
    } else if d == 1 {
        '1'
    } else if d == 2 {
        '2'
    } else if d == 3 {
        '3'
    } else if d == 4 {
        '4'
    } else if d == 5 {
        '5'
    } else if d == 6 {
        '6'
    } else if d == 7 {
        '7'
    } else if d == 8 {
        '8'
    } else {
        '9'
    }
}

/// The text that writes a digit.
fn digit_text(d: usize) -> (res: &'static str)
    requires
        d < 10,
    ensures
        res@ == seq![digit_char(d as nat)],
{
    proof {
        reveal_strlit("0");
        reveal_strlit("1");
        reveal_strlit("2");
        reveal_strlit("3");
        reveal_strlit("4");
        reveal_strlit("5");
        reveal_strlit("6");
        reveal_strlit("7");
        reveal_strlit("8");
        reveal_strlit("9");
    }
    let res = if d == 0 {
        "0"
    } else if d == 1 {
        "1"
    } else if d == 2 {
        "2"
    } else if d == 3 {
        "3"
    } else if d == 4 {
        "4"
    } else if d == 5 {
        "5"
    } else if d == 6 {
        "6"
    } else if d == 7 {
        "7"
    } else if d == 8 {
        "8"
    } else {
        "9"
    };
    assert(res@ =~= seq![digit_char(d as nat)]);
    res
}

/// Writes `n` out in decimal digits.
pub fn to_decimal(n: usize) -> (res: String)
    ensures
        res@ == decimal(n as nat),
    decreases n,
{
    if n < 10 {
        digit_text(n).to_owned()
    } else {
        let mut res = to_decimal(n / 10);
        res.append(digit_text(n % 10));
        assert(res@ =~= decimal(n as nat));
        res
    }
}

} // verus!
