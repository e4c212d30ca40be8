//! The native-extension entry boundary. The host invokes the single entry
//! symbol with an output count, an input count, and the two raw argument
//! sequences; the adapter around the library turns each count into the
//! exact length of the sequence handed to user logic. Negative raw counts
//! wrap to empty sequences rather than huge ones.

use vstd::prelude::*;

verus! {

/// The length a raw argument count stands for: the count itself when it is
/// non-negative, and zero otherwise.
pub open spec fn spec_wrap_count(n: i32) -> nat {
    if n >= 0 {
        n as nat
    } else {
        0
    }
}

/// Turn a raw argument count into the length of the wrapped sequence:
/// exactly the count for every non-negative count — zero included — and
/// zero for a negative count.
pub fn wrap_count(n: i32) -> (r: usize)
    ensures
        r as nat == spec_wrap_count(n),
{
    if n < 0 {
        0
    } else {
        n as usize
    }
}

/// The two sequence lengths of one entry invocation: outputs first, inputs
/// second, each exactly its raw count when non-negative.
pub fn entry_lengths(nlhs: i32, nrhs: i32) -> (r: (usize, usize))
    ensures
        r.0 as nat == spec_wrap_count(nlhs),
        r.1 as nat == spec_wrap_count(nrhs),
{
    (wrap_count(nlhs), wrap_count(nrhs))
}

} // verus!
