//! A deterministic engine for rental-property investment analysis.
//!
//! Every quantity is a fixed-point number: an integer carrying the value
//! scaled by one billion, so that the whole computation is exact integer
//! arithmetic.  The engine validates a snapshot of deal inputs, derives the
//! standard cash-flow and return metrics, and speaks to its host through a
//! small JSON request/response boundary.

use vstd::prelude::*;

pub mod fixed;
pub mod inputs;
pub mod engine;
pub mod codec;
pub mod decode;
pub mod adapter;

verus! {

/// Smoke-test helper: the sum of two machine words.
pub fn add(left: u64, right: u64) -> (r: u64)
    requires
        left + right <= u64::MAX,
    ensures
        r == left + right,
{
    left + right
}

} // verus!
