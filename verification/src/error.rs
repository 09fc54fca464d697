//! Errors of the pool instructions.

use vstd::prelude::*;

verus! {

/// Why a pool instruction was refused.
#[derive(Clone, Copy, Debug, PartialEq, Eq, Structural)]
pub enum ErrorCode {
    /// The fee is above 100%.
    FeeLimit,
    /// The tick spacing is above the largest one that a fee tier may have.
    TickSpacingLimit,
    /// The pool is locked by an instruction that has not finished.
    Locked,
}

} // verus!
