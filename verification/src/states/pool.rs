//! Protocol fees of a pool.
//!
//! The protocol fee of a token is given by a denominator `N`: 0 for no fee, or
//! `1/N` of the swap fee, with `N` meant to lie in `[4, 10]`. Both denominators
//! are packed in one byte: that of token 1 in the high four bits, that of
//! token 0 in the low four bits. Nothing here holds a denominator to that
//! range; what is asked is that the two fit in the byte.

use crate::error::ErrorCode;
use vstd::prelude::*;

verus! {

/// The part of a pool's state that the protocol fee instructions read and write.
#[derive(Clone, Copy, Debug, PartialEq, Eq, Structural)]
pub struct PoolState {
    /// Both protocol fee denominators, packed.
    pub fee_protocol: u8,
    /// Protocol fees of token 0 that have accrued and not been collected.
    pub protocol_fees_token_0: u64,
    /// Protocol fees of token 1 that have accrued and not been collected.
    pub protocol_fees_token_1: u64,
    /// Whether no instruction holds the pool.
    pub unlocked: bool,
}

/// The protocol fee denominators of a pool before and after they were set.
#[derive(Clone, Copy, Debug, PartialEq, Eq, Structural)]
pub struct FeeProtocolChange {
    /// Denominator of token 0 before.
    pub fee_protocol_0_old: u8,
    /// Denominator of token 1 before.
    pub fee_protocol_1_old: u8,
    /// Denominator of token 0 now.
    pub fee_protocol_0: u8,
    /// Denominator of token 1 now.
    pub fee_protocol_1: u8,
}

/// What a collection of protocol fees pays out.
///
/// A token is paid out where something was requested and something had
/// accrued, also where the amount is then 0.
#[derive(Clone, Copy, Debug, PartialEq, Eq, Structural)]
pub struct ProtocolFeeCollection {
    /// Amount of token 0 taken off the accrued fees.
    pub amount_0: u64,
    /// Whether token 0 is paid out.
    pub pays_0: bool,
    /// Amount of token 1 taken off the accrued fees.
    pub amount_1: u64,
    /// Whether token 1 is paid out.
    pub pays_1: bool,
}

/// The byte that holds both denominators: the low four bits of
/// `fee_protocol_1` above `fee_protocol_0`.
pub open spec fn packed_fee_protocol(fee_protocol_0: u8, fee_protocol_1: u8) -> int {
    (fee_protocol_1 * 16) % 256 + fee_protocol_0
}

/// The denominator of token 0 in a packed byte.
pub open spec fn fee_protocol_0_of(fee_protocol: u8) -> u8 {
    fee_protocol % 16
}

/// The denominator of token 1 in a packed byte.
pub open spec fn fee_protocol_1_of(fee_protocol: u8) -> u8 {
    fee_protocol / 16
}

/// What a collection pays out of `accrued` when `requested` is asked for: the
/// smaller of the two, less one unit where that would empty the accrued fees.
pub open spec fn collected_amount(requested: u64, accrued: u64) -> int {
    let amount = if requested > accrued {
        accrued
    } else {
        requested
    };
    if amount > 0 && amount == accrued {
        amount - 1
    } else {
        amount as int
    }
}

/// Two denominators that fit in four bits each are read back from the byte
/// that packs them.
pub proof fn lemma_fee_protocol_round_trip(fee_protocol_0: u8, fee_protocol_1: u8)
    requires
        fee_protocol_0 < 16,
        fee_protocol_1 < 16,
    ensures
        packed_fee_protocol(fee_protocol_0, fee_protocol_1) == fee_protocol_1 * 16 + fee_protocol_0,
        packed_fee_protocol(fee_protocol_0, fee_protocol_1) <= 255,
        fee_protocol_0_of(packed_fee_protocol(fee_protocol_0, fee_protocol_1) as u8)
            == fee_protocol_0,
        fee_protocol_1_of(packed_fee_protocol(fee_protocol_0, fee_protocol_1) as u8)
            == fee_protocol_1,
{
}

/// Sets the protocol fee denominators of both tokens of a pool.
///
/// A locked pool refuses with `Locked` and stays as it was. Otherwise the two
/// denominators are packed into `fee_protocol`, and the old and the new ones
/// are returned. On an unlocked pool the packed byte must fit in eight bits,
/// which it does whenever both denominators fit in four.
pub fn set_fee_protocol(pool_state: &mut PoolState, fee_protocol_0: u8, fee_protocol_1: u8) -> (r:
    Result<FeeProtocolChange, ErrorCode>)
    requires
        old(pool_state).unlocked ==> packed_fee_protocol(fee_protocol_0, fee_protocol_1) <= 255,
    ensures
        !old(pool_state).unlocked ==> r == Err::<FeeProtocolChange, ErrorCode>(ErrorCode::Locked)
            && *final(pool_state) == *old(pool_state),
        old(pool_state).unlocked ==> r == Ok::<FeeProtocolChange, ErrorCode>(
            (FeeProtocolChange {
                fee_protocol_0_old: fee_protocol_0_of(old(pool_state).fee_protocol),
                fee_protocol_1_old: fee_protocol_1_of(old(pool_state).fee_protocol),
                fee_protocol_0,
                fee_protocol_1,
            }),
        ) && *final(pool_state) == (PoolState {
            fee_protocol: packed_fee_protocol(fee_protocol_0, fee_protocol_1) as u8,
            ..*old(pool_state)
        }),
{
    if !pool_state.unlocked {
        return Err(ErrorCode::Locked);
    }
    let fee_protocol_old = pool_state.fee_protocol;
    let high: u8 = fee_protocol_1 << 4;
    assert(fee_protocol_1 << 4 == (fee_protocol_1 * 16) % 256) by (bit_vector);
    assert(fee_protocol_old >> 4 == fee_protocol_old / 16) by (bit_vector);
    pool_state.fee_protocol = high + fee_protocol_0;
    Ok(
        FeeProtocolChange {
            fee_protocol_0_old: fee_protocol_old % 16,
            fee_protocol_1_old: fee_protocol_old >> 4,
            fee_protocol_0,
            fee_protocol_1,
        },
    )
}

/// Collects protocol fees of both tokens of a pool.
///
/// A locked pool refuses with `Locked` and stays as it was. Otherwise each
/// amount paid out is the smaller of what was requested and what has accrued,
/// less one unit where that would empty the accrued fees; it is taken off the
/// accrued fees and returned.
pub fn collect_protocol(
    pool_state: &mut PoolState,
    amount_0_requested: u64,
    amount_1_requested: u64,
) -> (r: Result<ProtocolFeeCollection, ErrorCode>)
    ensures
        !old(pool_state).unlocked ==> r == Err::<ProtocolFeeCollection, ErrorCode>(
            ErrorCode::Locked,
        ) && *final(pool_state) == *old(pool_state),
        old(pool_state).unlocked ==> r == Ok::<ProtocolFeeCollection, ErrorCode>(
            (ProtocolFeeCollection {
                amount_0: collected_amount(
                    amount_0_requested,
                    old(pool_state).protocol_fees_token_0,
                ) as u64,
                pays_0: amount_0_requested > 0 && old(pool_state).protocol_fees_token_0 > 0,
                amount_1: collected_amount(
                    amount_1_requested,
                    old(pool_state).protocol_fees_token_1,
                ) as u64,
                pays_1: amount_1_requested > 0 && old(pool_state).protocol_fees_token_1 > 0,
            }),
        ) && *final(pool_state) == (PoolState {
            protocol_fees_token_0: (old(pool_state).protocol_fees_token_0 - collected_amount(
                amount_0_requested,
                old(pool_state).protocol_fees_token_0,
            )) as u64,
            protocol_fees_token_1: (old(pool_state).protocol_fees_token_1 - collected_amount(
                amount_1_requested,
                old(pool_state).protocol_fees_token_1,
            )) as u64,
            ..*old(pool_state)
        }),
{
    if !pool_state.unlocked {
        return Err(ErrorCode::Locked);
    }
    let pays_0 = amount_0_requested > 0 && pool_state.protocol_fees_token_0 > 0;
    let pays_1 = amount_1_requested > 0 && pool_state.protocol_fees_token_1 > 0;
    let amount_0 = collect_amount(amount_0_requested, pool_state.protocol_fees_token_0);
    let amount_1 = collect_amount(amount_1_requested, pool_state.protocol_fees_token_1);
    pool_state.protocol_fees_token_0 = pool_state.protocol_fees_token_0 - amount_0;
    pool_state.protocol_fees_token_1 = pool_state.protocol_fees_token_1 - amount_1;
    Ok(ProtocolFeeCollection { amount_0, pays_0, amount_1, pays_1 })
}

/// What a collection pays out of `accrued` when `requested` is asked for.
pub fn collect_amount(requested: u64, accrued: u64) -> (amount: u64)
    ensures
        amount == collected_amount(requested, accrued),
        amount <= requested,
        amount <= accrued,
{
    let amount = if requested > accrued {
        accrued
    } else {
        requested
    };
    if amount > 0 && amount == accrued {
        amount - 1
    } else {
        amount
    }
}

} // verus!
