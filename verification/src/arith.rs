//! Arithmetic guard: checked addition and subtraction over balance values.
//!
//! No mutation of the ledger may use unchecked arithmetic on balances or
//! allowances; every engine computes new values through these two functions
//! (or under a proof that the operation cannot wrap) before anything is
//! written.

use vstd::prelude::*;

verus! {

/// Checked addition: `Some` exactly when the mathematical sum fits the
/// balance type, `None` on overflow.
pub fn checked_add(a: u128, b: u128) -> (r: Option<u128>)
    ensures
        r == if a + b <= u128::MAX {
            Some((a + b) as u128)
        } else {
            None::<u128>
        },
{
    a.checked_add(b)
}

/// Checked subtraction: `Some` exactly when the mathematical difference is
/// not negative, `None` on underflow.
pub fn checked_sub(a: u128, b: u128) -> (r: Option<u128>)
    ensures
        r == if a >= b {
            Some((a - b) as u128)
        } else {
            None::<u128>
        },
{
    a.checked_sub(b)
}

} // verus!
