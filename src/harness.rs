//! Cross-checking the results of three decoding strategies on one input.

use vstd::prelude::*;
use crate::escape::DecodeError;

verus! {

/// How three decoding results relate to one another.
#[derive(Clone, Copy, Debug, PartialEq, Eq, Structural)]
pub enum Agreement {
    /// All succeeded with the same text.
    Identical,
    /// All succeeded, not all with the same text.
    Differ,
    /// All failed.
    AllFailed,
    /// Some succeeded and some failed.
    Mixed,
}

/// How the results `a`, `b` and `c` relate.
pub open spec fn agreement_of(
    a: Result<String, DecodeError>,
    b: Result<String, DecodeError>,
    c: Result<String, DecodeError>,
) -> Agreement {
    match (a, b, c) {
        (Ok(x), Ok(y), Ok(z)) => if x@ == y@ && y@ == z@ {
            Agreement::Identical
        } else {
            Agreement::Differ
        },
        (Err(_), Err(_), Err(_)) => Agreement::AllFailed,
        _ => Agreement::Mixed,
    }
}

/// Compares three decoding results.
pub fn classify(
    a: &Result<String, DecodeError>,
    b: &Result<String, DecodeError>,
    c: &Result<String, DecodeError>,
) -> (r: Agreement)
    ensures
        r == agreement_of(*a, *b, *c),
{
    match (a, b, c) {
        (Ok(x), Ok(y), Ok(z)) => {
            if *x == *y && *y == *z {
                Agreement::Identical
            } else {
                Agreement::Differ
            }
        },
        (Err(_), Err(_), Err(_)) => Agreement::AllFailed,
        _ => Agreement::Mixed,
    }
}

} // verus!
