use bitmaps::Bitmap;
use cyclos_core::states::tick_bitmap::{TickBitmapError, TickBitmapState};

#[test]
fn bitmap_test() {
    let mut bitmap = Bitmap::<256>::new();
    println!("Bitmap length {}", bitmap.len());

    bitmap.set(0, true);
    let converted_bitmap = bitmap.as_value() as &[u128; 2];
    println!("Converted bitmap {:?}", converted_bitmap);

    let arr = [10_u128, 50];
    let decoded_bitmap = Bitmap::<256>::from(arr);
    println!("Decoded bitmap {:?}", decoded_bitmap.into_value());
}

#[test]
fn flip_start_of_first_item() {
    let mut tb_state = TickBitmapState::default();

    tb_state.flip_tick(0);
    assert_eq!(tb_state.bitmap, [1, 0]);

    tb_state.flip_tick(0);
    assert_eq!(tb_state.bitmap, [0, 0]);
}

#[test]
fn flip_end_of_first_item() {
    let mut tb_state = TickBitmapState::default();
    tb_state.flip_tick(127);
    assert_eq!(tb_state.bitmap, [u128::pow(2, 127), 0]);
    tb_state.flip_tick(127);
    assert_eq!(tb_state.bitmap, [0, 0]);
}

#[test]
fn flip_start_of_second_item() {
    let mut tb_state = TickBitmapState::default();
    tb_state.flip_tick(128);
    assert_eq!(tb_state.bitmap, [0, 1]);
    tb_state.flip_tick(128);
    assert_eq!(tb_state.bitmap, [0, 0]);
}

#[test]
fn flip_end_of_second_item() {
    let mut tb_state = TickBitmapState::default();
    tb_state.flip_tick(255);
    assert_eq!(tb_state.bitmap, [0, u128::pow(2, 127)]);
    tb_state.flip_tick(255);
    assert_eq!(tb_state.bitmap, [0, 0]);
}

#[test]
fn default_record_is_all_zero() {
    let state = TickBitmapState::default();
    assert_eq!(state.bump, 0);
    assert_eq!(state.token_0, [0u8; 32]);
    assert_eq!(state.token_1, [0u8; 32]);
    assert_eq!(state.fee, [0u8; 32]);
    assert_eq!(state.left_16_bits_of_tick, 0);
    assert_eq!(state.bitmap, [0, 0]);
    for bit_pos in 0..=255u8 {
        assert!(!state.is_set(bit_pos));
    }
}

#[test]
fn decode_bitmap_reads_both_words() {
    let mut state = TickBitmapState::default();
    state.bitmap = [10, 50];
    let bitmap = state.decode_bitmap();
    // 10 = 0b1010 in word 0, 50 = 0b110010 in word 1
    let set: Vec<u8> = (0..=255u8).filter(|b| bitmap.get(*b)).collect();
    assert_eq!(set, vec![1, 3, 129, 132, 133]);
}

#[test]
fn is_set_reads_the_bit_that_was_flipped() {
    for bit_pos in 0..=255u8 {
        let mut state = TickBitmapState::default();
        state.flip_tick(bit_pos);
        for other in 0..=255u8 {
            assert_eq!(state.is_set(other), other == bit_pos);
        }
    }
}

#[test]
fn flip_twice_restores_any_record() {
    let mut start = TickBitmapState::default();
    start.bump = 7;
    start.token_0 = [1u8; 32];
    start.token_1 = [2u8; 32];
    start.fee = [3u8; 32];
    start.left_16_bits_of_tick = 0xfffe;
    start.bitmap = [0x0123_4567_89ab_cdef_0011_2233_4455_6677, u128::MAX - 5];
    for bit_pos in 0..=255u8 {
        let mut state = start;
        state.flip_tick(bit_pos);
        assert_ne!(state.bitmap, start.bitmap);
        state.flip_tick(bit_pos);
        assert_eq!(state.bitmap, start.bitmap);
        assert_eq!(state.bump, start.bump);
        assert_eq!(state.token_0, start.token_0);
        assert_eq!(state.token_1, start.token_1);
        assert_eq!(state.fee, start.fee);
        assert_eq!(state.left_16_bits_of_tick, start.left_16_bits_of_tick);
    }
}

#[test]
fn flip_changes_one_bit_only() {
    let mut start = TickBitmapState::default();
    start.bitmap = [0xdead_beef_0000_0000_ffff_0000_1234_5678, 0x8000_0000_0000_0000_0000_0000_0000_0001];
    for bit_pos in [0u8, 1, 63, 64, 127, 128, 129, 200, 254, 255] {
        let mut state = start;
        state.flip_tick(bit_pos);
        for other in 0..=255u8 {
            if other == bit_pos {
                assert_eq!(state.is_set(other), !start.is_set(other));
            } else {
                assert_eq!(state.is_set(other), start.is_set(other));
            }
        }
    }
}

#[test]
fn flip_on_a_set_bit_clears_it() {
    let mut state = TickBitmapState::default();
    state.bitmap = [0b1010, 0b1];
    state.flip_tick(1);
    assert_eq!(state.bitmap, [0b1000, 0b1]);
    state.flip_tick(128);
    assert_eq!(state.bitmap, [0b1000, 0]);
    state.flip_tick(2);
    assert_eq!(state.bitmap, [0b1100, 0]);
}

#[test]
fn flip_of_a_tick_toggles_its_bit() {
    let mut state = TickBitmapState::default();
    // 770 / 10 = 77 = 0 * 256 + 77
    assert_eq!(state.flip(770, 10), Ok(()));
    assert_eq!(state.bitmap, [1u128 << 77, 0]);
    // -30 / 10 = -3 = -1 * 256 + 253
    assert_eq!(state.flip(-30, 10), Ok(()));
    assert_eq!(state.bitmap, [1u128 << 77, 1u128 << 125]);
    assert_eq!(state.flip(770, 10), Ok(()));
    assert_eq!(state.bitmap, [0, 1u128 << 125]);
}

#[test]
fn flip_of_a_bad_tick_leaves_the_record() {
    let mut state = TickBitmapState::default();
    state.bitmap = [5, 9];
    assert_eq!(state.flip(7, 3), Err(TickBitmapError::InvalidTickAlignment));
    assert_eq!(state.bitmap, [5, 9]);
    assert_eq!(state.flip(500_000, 1), Err(TickBitmapError::OutOfRange));
    assert_eq!(state.bitmap, [5, 9]);
    assert_eq!(state.flip(-429_773, 1), Err(TickBitmapError::OutOfRange));
    assert_eq!(state.bitmap, [5, 9]);
}
