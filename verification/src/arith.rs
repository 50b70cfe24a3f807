//! Saturating block-number arithmetic.
//!
//! Block numbers and balances never panic on overflow: every addition,
//! subtraction and multiplication the engine performs on them saturates.

use vstd::prelude::*;

verus! {

/// Mathematical value of a saturating `u64` addition.
pub open spec fn spec_sat_add(a: u64, b: u64) -> u64 {
    if a + b > u64::MAX {
        u64::MAX
    } else {
        (a + b) as u64
    }
}

/// Mathematical value of a saturating `u64` subtraction.
pub open spec fn spec_sat_sub(a: u64, b: u64) -> u64 {
    if a >= b {
        (a - b) as u64
    } else {
        0
    }
}

/// Saturating addition on block numbers and balances.
pub fn sat_add(a: u64, b: u64) -> (r: u64)
    ensures
        r == spec_sat_add(a, b),
{
    if a > u64::MAX - b {
        u64::MAX
    } else {
        a + b
    }
}

/// Saturating subtraction on block numbers and balances.
pub fn sat_sub(a: u64, b: u64) -> (r: u64)
    ensures
        r == spec_sat_sub(a, b),
{
    if a >= b {
        a - b
    } else {
        0
    }
}

} // verus!
