//! The Fibonacci numbers, as far as sixty-four bits hold them.

use vstd::prelude::*;

verus! {

/// The Fibonacci number at `n`: 0, 1, and from there on the sum of the two
/// before.
pub open spec fn fib(n: nat) -> nat
    decreases n,
{
    if n == 0 {
        0
    } else if n == 1 {
        1
    } else {
        fib((n - 1) as nat) + fib((n - 2) as nat)
    }
}

/// The Fibonacci numbers never fall: once one of them no longer fits in
/// sixty-four bits, none of the later ones does.
pub proof fn law_fib_never_falls(i: nat, j: nat)
    requires
        i <= j,
    ensures
        fib(i) <= fib(j),
    decreases j,
{
    if i < j {
        if j >= 2 {
            law_fib_never_falls(i, (j - 1) as nat);
        }
    }
}

/// The Fibonacci numbers up to index `index`, from the first on, and whether
/// the sequence was cut short.
///
/// The sequence is cut short as soon as the number two places ahead of the
/// next one no longer fits in sixty-four bits; until then nothing is left
/// out. So the numbers given are the first `index`, or fewer if and only if
/// the sequence was cut short.
pub fn sequence(index: u32) -> (res: (Vec<u64>, bool))
    ensures
        res.0@.len() <= index,
        forall|k: int| 0 <= k < res.0@.len() ==> res.0@[k] == fib(k as nat),
        res.1 <==> res.0@.len() < index,
        res.1 ==> fib(res.0@.len() + 2) > u64::MAX,
        res.0@.len() > 0 ==> fib(res.0@.len() + 1) <= u64::MAX,
{
    let mut shown: Vec<u64> = Vec::new();
    let mut first: u64 = 0;
    let mut second: u64 = 1;
    let mut third: u64 = 1;
    let mut overflow = false;
    let mut i: u32 = 0;
    assert(fib(2) == 1) by {
        reveal_with_fuel(fib, 3);
    }
    while i < index
        invariant
            i <= index,
            shown@.len() == i,
            forall|k: int| 0 <= k < i ==> shown@[k] == fib(k as nat),
            first == fib(i as nat),
            second == fib((i + 1) as nat),
            !overflow ==> third == fib((i + 2) as nat),
            overflow ==> fib((i + 2) as nat) > u64::MAX,
        decreases index - i,
    {
        if overflow {
            return (shown, true);
        }
        shown.push(first);
        first = second;
        second = third;
        if second > u64::MAX - first {
            overflow = true;
        } else {
            third = first + second;
        }
        i += 1;
    }
    (shown, false)
}

} // verus!
