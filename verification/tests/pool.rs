use cyclos_core::error::ErrorCode;
use cyclos_core::states::fee::{enable_fee_amount, FeeState, MAX_FEE, MAX_TICK_SPACING};
use cyclos_core::states::pool::{
    collect_amount, collect_protocol, set_fee_protocol, FeeProtocolChange, PoolState,
    ProtocolFeeCollection,
};

fn pool(fee_protocol: u8, fees_0: u64, fees_1: u64, unlocked: bool) -> PoolState {
    PoolState {
        fee_protocol,
        protocol_fees_token_0: fees_0,
        protocol_fees_token_1: fees_1,
        unlocked,
    }
}

#[test]
fn fee_tier_within_limits() {
    assert_eq!(MAX_FEE, 1_000_000);
    assert_eq!(MAX_TICK_SPACING, 16_384);
    assert_eq!(enable_fee_amount(500, 10, 254), Ok(FeeState { bump: 254, fee: 500, tick_spacing: 10 }));
    assert_eq!(
        enable_fee_amount(1_000_000, 16_384, 0),
        Ok(FeeState { bump: 0, fee: 1_000_000, tick_spacing: 16_384 })
    );
    assert_eq!(enable_fee_amount(0, 0, 1), Ok(FeeState { bump: 1, fee: 0, tick_spacing: 0 }));
}

#[test]
fn fee_tier_beyond_limits() {
    assert_eq!(enable_fee_amount(1_000_001, 10, 0), Err(ErrorCode::FeeLimit));
    assert_eq!(enable_fee_amount(500, 16_385, 0), Err(ErrorCode::TickSpacingLimit));
    assert_eq!(enable_fee_amount(u32::MAX, u16::MAX, 0), Err(ErrorCode::FeeLimit));
}

#[test]
fn set_fee_protocol_packs_both_denominators() {
    let mut state = pool(0, 11, 12, true);
    assert_eq!(
        set_fee_protocol(&mut state, 4, 10),
        Ok(FeeProtocolChange {
            fee_protocol_0_old: 0,
            fee_protocol_1_old: 0,
            fee_protocol_0: 4,
            fee_protocol_1: 10,
        })
    );
    assert_eq!(state, pool(0xa4, 11, 12, true));
    assert_eq!(
        set_fee_protocol(&mut state, 0, 5),
        Ok(FeeProtocolChange {
            fee_protocol_0_old: 4,
            fee_protocol_1_old: 10,
            fee_protocol_0: 0,
            fee_protocol_1: 5,
        })
    );
    assert_eq!(state, pool(0x50, 11, 12, true));
}

#[test]
fn set_fee_protocol_on_a_locked_pool() {
    let mut state = pool(0x44, 1, 2, false);
    assert_eq!(set_fee_protocol(&mut state, 5, 5), Err(ErrorCode::Locked));
    assert_eq!(state, pool(0x44, 1, 2, false));
}

#[test]
fn collect_amounts() {
    assert_eq!(collect_amount(0, 100), 0);
    assert_eq!(collect_amount(40, 100), 40);
    assert_eq!(collect_amount(99, 100), 99);
    assert_eq!(collect_amount(100, 100), 99);
    assert_eq!(collect_amount(u64::MAX, 100), 99);
    assert_eq!(collect_amount(5, 0), 0);
    assert_eq!(collect_amount(5, 1), 0);
    assert_eq!(collect_amount(0, 0), 0);
}

#[test]
fn collect_protocol_takes_the_amounts_off() {
    let mut state = pool(0x44, 100, 7, true);
    assert_eq!(
        collect_protocol(&mut state, 40, 1_000),
        Ok(ProtocolFeeCollection { amount_0: 40, pays_0: true, amount_1: 6, pays_1: true })
    );
    assert_eq!(state, pool(0x44, 60, 1, true));
    assert_eq!(
        collect_protocol(&mut state, 0, 1),
        Ok(ProtocolFeeCollection { amount_0: 0, pays_0: false, amount_1: 0, pays_1: true })
    );
    assert_eq!(state, pool(0x44, 60, 1, true));
}

#[test]
fn collect_protocol_on_a_locked_pool() {
    let mut state = pool(0x44, 100, 7, false);
    assert_eq!(collect_protocol(&mut state, 40, 1), Err(ErrorCode::Locked));
    assert_eq!(state, pool(0x44, 100, 7, false));
}
