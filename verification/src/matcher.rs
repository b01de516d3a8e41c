//! Constant-time equality over byte sequences.
//!
//! Both authorization paths (administrator credential and per-comment
//! capability) compare secrets with [`equals`], never with an ordinary
//! equality check, so that the comparison time does not depend on where
//! the inputs first differ.

use vstd::prelude::*;

verus! {

/// Relies on subtle's `ConstantTimeEq` for byte slices: the result is true
/// exactly when the two slices hold the same bytes (false on a length
/// mismatch), and the bytes are compared without an early exit at the
/// first difference.
#[verifier::external_body]
fn ct_eq_bytes(a: &[u8], b: &[u8]) -> (r: bool)
    ensures
        r == (a@ == b@),
{
    bool::from(subtle::ConstantTimeEq::ct_eq(a, b))
}

/// Timing-safe equality: true exactly when `a` and `b` hold the same bytes.
///
/// Equal inputs always compare true, and any two distinct byte sequences
/// compare false; the comparison runs in time independent of where the
/// inputs first differ.
pub fn equals(a: &[u8], b: &[u8]) -> (r: bool)
    ensures
        r == (a@ == b@),
{
    ct_eq_bytes(a, b)
}

} // verus!
