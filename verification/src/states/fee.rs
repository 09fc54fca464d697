//! Fee tiers: a fee and the tick spacing of the pools that charge it.

use crate::error::ErrorCode;
use vstd::prelude::*;

verus! {

/// The largest fee, in hundredths of a basis point: 100%.
pub const MAX_FEE: u32 = 1_000_000;

/// The largest tick spacing of a fee tier.
pub const MAX_TICK_SPACING: u16 = 16384;

/// A fee tier that has been enabled.
#[derive(Clone, Copy, Debug, PartialEq, Eq, Structural)]
pub struct FeeState {
    /// Bump of the tier's address.
    pub bump: u8,
    /// The fee, in hundredths of a basis point.
    pub fee: u32,
    /// The tick spacing of pools of this tier.
    pub tick_spacing: u16,
}

/// Enables a fee tier.
///
/// A fee above `MAX_FEE` is refused with `FeeLimit`; otherwise a tick spacing
/// above `MAX_TICK_SPACING` is refused with `TickSpacingLimit`. For the others
/// the state of the new tier is returned.
pub fn enable_fee_amount(fee: u32, tick_spacing: u16, fee_bump: u8) -> (r: Result<
    FeeState,
    ErrorCode,
>)
    ensures
        fee > MAX_FEE ==> r == Err::<FeeState, ErrorCode>(ErrorCode::FeeLimit),
        fee <= MAX_FEE && tick_spacing > MAX_TICK_SPACING ==> r == Err::<FeeState, ErrorCode>(
            ErrorCode::TickSpacingLimit,
        ),
        fee <= MAX_FEE && tick_spacing <= MAX_TICK_SPACING ==> r == Ok::<FeeState, ErrorCode>(
            (FeeState { bump: fee_bump, fee, tick_spacing }),
        ),
{
    if fee > MAX_FEE {
        return Err(ErrorCode::FeeLimit);
    }
    if tick_spacing > MAX_TICK_SPACING {
        return Err(ErrorCode::TickSpacingLimit);
    }
    Ok(FeeState { bump: fee_bump, fee, tick_spacing })
}

} // verus!
