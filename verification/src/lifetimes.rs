//! Choosing between two borrowed texts.

use vstd::prelude::*;
use vstd::string::StringSliceAdditionalSpecFns;

verus! {

/// The longer of two texts, by length in bytes; the second where they are
/// equally long.
pub fn longest_string<'a>(x: &'a str, y: &'a str) -> (longest: &'a str)
    ensures
        longest@ == if x.spec_bytes().len() > y.spec_bytes().len() {
            x@
        } else {
            y@
        },
{
    if x.as_bytes().len() > y.as_bytes().len() {
        x
    } else {
        y
    }
}

} // verus!
