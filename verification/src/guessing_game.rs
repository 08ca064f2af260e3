//! A guessing game: a secret number is drawn from a range, and a guess is
//! told too small, too big, or right.

use crate::numbers::{parse_i32, parsed_i32};
use rand::Rng;
use vstd::prelude::*;
use vstd::utf8::encode_utf8;

verus! {

/// The least secret, where the arguments name none.
pub const DEFAULT_LOWER: i32 = 1;

/// The bound that every secret stays below, where the arguments name none.
pub const DEFAULT_UPPER: i32 = 101;

/// What a guess is told.
#[derive(Clone, Copy, Debug, PartialEq, Eq, Structural)]
pub enum Verdict {
    TooSmall,
    TooBig,
    Win,
}

/// What `guess` is told when the secret is `secret`.
pub open spec fn verdict_for(guess: i32, secret: i32) -> Verdict {
    if guess < secret {
        Verdict::TooSmall
    } else if guess > secret {
        Verdict::TooBig
    } else {
        Verdict::Win
    }
}

/// Tells `guess` how it stands to `secret`.
pub fn judge(guess: i32, secret: i32) -> (verdict: Verdict)
    ensures
        verdict == verdict_for(guess, secret),
{
    if guess < secret {
        Verdict::TooSmall
    } else if guess > secret {
        Verdict::TooBig
    } else {
        Verdict::Win
    }
}

/// The range that stands where the bounds are out of order.
pub open spec fn ordered(lower: i32, upper: i32) -> (i32, i32) {
    if lower > upper {
        (DEFAULT_LOWER, DEFAULT_UPPER)
    } else {
        (lower, upper)
    }
}

/// The number that an argument writes.
pub open spec fn number_in(arg: String) -> Option<i32> {
    parsed_i32(encode_utf8(arg@))
}

/// Whether the arguments can be read: one argument behind the program's
/// name is a number, and so is each of two.
pub open spec fn readable(args: Seq<String>) -> bool {
    &&& (args.len() == 2 || args.len() == 3 ==> number_in(args[1]) is Some)
    &&& (args.len() == 3 ==> number_in(args[2]) is Some)
}

/// The range that the arguments ask for, the program's own name first: one
/// argument is the least secret, two are the least secret and the bound
/// above. Bounds out of order, no arguments, and more than two give the
/// default range.
pub open spec fn range_for(args: Seq<String>) -> (i32, i32) {
    if args.len() == 2 {
        ordered(number_in(args[1]).unwrap_or(DEFAULT_LOWER), DEFAULT_UPPER)
    } else if args.len() == 3 {
        ordered(
            number_in(args[1]).unwrap_or(DEFAULT_LOWER),
            number_in(args[2]).unwrap_or(DEFAULT_UPPER),
        )
    } else {
        (DEFAULT_LOWER, DEFAULT_UPPER)
    }
}

/// Whether [`range_from`] can read `args`.
pub fn can_read(args: &Vec<String>) -> (res: bool)
    ensures
        res == readable(args@),
{
    if args.len() == 2 {
        parse_i32(args[1].as_str()).is_some()
    } else if args.len() == 3 {
        parse_i32(args[1].as_str()).is_some() && parse_i32(args[2].as_str()).is_some()
    } else {
        true
    }
}

/// The range that the arguments ask for.
pub fn range_from(args: &Vec<String>) -> (range: (i32, i32))
    requires
        readable(args@),
    ensures
        range == range_for(args@),
{
    let mut lower = DEFAULT_LOWER;
    let mut upper = DEFAULT_UPPER;
    if args.len() == 2 || args.len() == 3 {
        if let Some(n) = parse_i32(args[1].as_str()) {
            lower = n;
        }
    }
    if args.len() == 3 {
        if let Some(n) = parse_i32(args[2].as_str()) {
            upper = n;
        }
    }
    if lower > upper {
        (DEFAULT_LOWER, DEFAULT_UPPER)
    } else {
        (lower, upper)
    }
}

/// `rand::thread_rng` and `Rng::gen_range` on the half-open range from
/// `lower` to `upper`: the number drawn is at least `lower` and less than
/// `upper`. Which number it is depends on chance, so nothing more is said of
/// it. The range must not be empty, or the draw panics; the draw also fails
/// where the system has no source of randomness to offer.
#[verifier::external_body]
fn draw(lower: i32, upper: i32) -> (secret: i32)
    requires
        lower < upper,
    ensures
        lower <= secret < upper,
{
    rand::thread_rng().gen_range(lower..upper)
}

/// Draws the secret: a number that is at least `lower` and less than
/// `upper`. Where no such number exists, none is drawn.
pub fn pick_secret(lower: i32, upper: i32) -> (secret: Option<i32>)
    ensures
        secret is Some <==> lower < upper,
        secret matches Some(s) ==> lower <= s < upper,
{
    if lower < upper {
        Some(draw(lower, upper))
    } else {
        None
    }
}

/// Plays one round: draws the secret from the range and tells the guess how
/// it stands to it. Where the range is empty, there is no round.
pub fn play(guess: i32, lower: i32, upper: i32) -> (round: Option<(i32, Verdict)>)
    ensures
        round is Some <==> lower < upper,
        round matches Some(r) ==> lower <= r.0 < upper && r.1 == verdict_for(guess, r.0),
{
    match pick_secret(lower, upper) {
        Some(secret) => Some((secret, judge(guess, secret))),
        None => None,
    }
}

} // verus!
