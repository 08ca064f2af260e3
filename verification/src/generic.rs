//! The largest item of a list, for numbers, for characters, and for any type
//! that can be compared.

use std::cmp::Ordering;
use vstd::prelude::*;
use vstd::std_specs::cmp::PartialOrdSpec;

verus! {

/// The largest number of a list that is not empty.
pub fn largest_i32(list: &[i32]) -> (largest: &i32)
    requires
        list@.len() > 0,
    ensures
        list@.contains(*largest),
        forall|i: int| 0 <= i < list@.len() ==> list@[i] <= *largest,
{
    let mut largest = &list[0];
    let mut i: usize = 1;
    while i < list.len()
        invariant
            1 <= i <= list@.len(),
            list@.contains(*largest),
            forall|j: int| 0 <= j < i ==> list@[j] <= *largest,
        decreases list@.len() - i,
    {
        let item = &list[i];
        if *item > *largest {
            largest = item;
        }
        i += 1;
    }
    largest
}

/// The largest character of a list that is not empty, by code point.
pub fn largest_char(list: &[char]) -> (largest: &char)
    requires
        list@.len() > 0,
    ensures
        list@.contains(*largest),
        forall|i: int| 0 <= i < list@.len() ==> list@[i] <= *largest,
{
    let mut largest = &list[0];
    let mut i: usize = 1;
    while i < list.len()
        invariant
            1 <= i <= list@.len(),
            list@.contains(*largest),
            forall|j: int| 0 <= j < i ==> list@[j] <= *largest,
        decreases list@.len() - i,
    {
        let item = &list[i];
        if *item > *largest {
            largest = item;
        }
        i += 1;
    }
    largest
}

/// Whether comparisons on `T` are specified, so that `>` on two items says
/// what [`exceeds`] says of them.
pub open spec fn comparable<T: PartialOrd>() -> bool {
    T::obeys_partial_cmp_spec()
}

/// Whether `a` compares greater than `b`.
pub open spec fn exceeds<T: PartialOrd>(a: T, b: T) -> bool {
    a.partial_cmp_spec(&b) == Some(Ordering::Greater)
}

/// Where the largest of the first `n` items stands: the first item, replaced
/// in turn by every later item that compares greater than the largest so
/// far.
pub open spec fn largest_among<T: PartialOrd>(list: Seq<T>, n: int) -> int
    decreases n,
{
    if n <= 1 {
        0
    } else {
        let best = largest_among(list, n - 1);
        if exceeds(list[n - 1], list[best]) {
            n - 1
        } else {
            best
        }
    }
}

/// The running largest always stands among the items seen.
pub proof fn lemma_largest_among_in_range<T: PartialOrd>(list: Seq<T>, n: int)
    requires
        1 <= n,
    ensures
        0 <= largest_among(list, n) < n,
    decreases n,
{
    if n > 1 {
        lemma_largest_among_in_range(list, n - 1);
    }
}

/// The largest item of a list that is not empty, for a type whose comparison
/// is specified: the first item, replaced in turn by every later item that
/// compares greater than the largest so far.
pub fn largest<T>(list: &[T]) -> (largest: &T) where T: PartialOrd
    requires
        list@.len() > 0,
    ensures
        0 <= largest_among(list@, list@.len() as int) < list@.len(),
        comparable::<T>() ==> *largest == list@[largest_among(list@, list@.len() as int)],
        list@.contains(*largest),
{
    proof {
        lemma_largest_among_in_range(list@, list@.len() as int);
    }
    let mut largest = &list[0];
    let mut i: usize = 1;
    let ghost mut at: int = 0;
    while i < list.len()
        invariant
            1 <= i <= list@.len(),
            0 <= at < i,
            *largest == list@[at],
            comparable::<T>() ==> at == largest_among(list@, i as int),
        decreases list@.len() - i,
    {
        let item = &list[i];
        if *item > *largest {
            largest = item;
            proof {
                at = i as int;
            }
        }
        i += 1;
    }
    largest
}

} // verus!
