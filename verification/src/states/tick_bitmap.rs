//! Tick bitmap index.
//!
//! A tick is valid when it is a multiple of the pool's tick spacing. The
//! quotient `tick / spacing` is split in two: the bits above bit 7 are the word
//! position, which selects one bitmap record, and the low 8 bits are the bit
//! position inside that record's 256-bit word.

use crate::states::bitmap::bit_of_words;
use crate::states::bitmap::bitmap_words;
use crate::states::bitmap::bits_of_words;
use crate::states::bitmap::word_has_bit;
use crate::states::bitmap::DecodedBitmap;
use vstd::arithmetic::div_mod::lemma_fundamental_div_mod;
use vstd::arithmetic::div_mod::lemma_fundamental_div_mod_converse;
use vstd::prelude::*;

verus! {

/// Smallest `tick / spacing` value that has a word and bit position.
pub const MIN_TICK_DIV_SPACING: i32 = -429772;

/// Largest `tick / spacing` value that has a word and bit position.
pub const MAX_TICK_DIV_SPACING: i32 = 429772;

/// Why a tick could not be addressed.
#[derive(Clone, Copy, Debug, PartialEq, Eq, Structural)]
pub enum TickBitmapError {
    /// The tick is not a multiple of the tick spacing.
    InvalidTickAlignment,
    /// A value lies outside the domain that the bitmap can represent.
    OutOfRange,
}

/// Whether `tick` is a multiple of `spacing`.
pub open spec fn is_aligned(tick: int, spacing: int) -> bool {
    tick % spacing == 0
}

/// Whether a `tick / spacing` value has a word and bit position.
pub open spec fn is_addressable(tick_div_spacing: int) -> bool {
    MIN_TICK_DIV_SPACING <= tick_div_spacing <= MAX_TICK_DIV_SPACING
}

/// The word position of a `tick / spacing` value: the 256-wide window it falls in.
pub open spec fn word_pos_of(tick_div_spacing: int) -> int {
    tick_div_spacing / 256
}

/// The bit position of a `tick / spacing` value: its offset inside its window.
pub open spec fn bit_pos_of(tick_div_spacing: int) -> int {
    tick_div_spacing % 256
}

/// The `tick / spacing` value that a word position and a bit position stand for.
pub open spec fn tick_div_spacing_at(word_pos: int, bit_pos: int) -> int {
    word_pos * 256 + bit_pos
}

/// What `get_tick_div_spacing` returns.
pub open spec fn tick_div_spacing_of(tick: int, spacing: int) -> Result<i32, TickBitmapError> {
    if is_aligned(tick, spacing) {
        Ok((tick / spacing) as i32)
    } else {
        Err(TickBitmapError::InvalidTickAlignment)
    }
}

/// What `get_word_and_bit_pos` returns.
pub open spec fn word_and_bit_pos_of(tick_div_spacing: int) -> Result<(i16, u8), TickBitmapError> {
    if is_addressable(tick_div_spacing) {
        Ok((word_pos_of(tick_div_spacing) as i16, bit_pos_of(tick_div_spacing) as u8))
    } else {
        Err(TickBitmapError::OutOfRange)
    }
}

/// The word and bit position of a tick, or why it has none.
pub open spec fn tick_position_of(tick: int, spacing: int) -> Result<(i16, u8), TickBitmapError> {
    match tick_div_spacing_of(tick, spacing) {
        Ok(tick_div_spacing) => word_and_bit_pos_of(tick_div_spacing as int),
        Err(e) => Err(e),
    }
}

/// The tick that a word position and a bit position stand for under `spacing`;
/// `OutOfRange` if it does not fit in 32 bits.
pub open spec fn tick_at_of(word_pos: int, bit_pos: int, spacing: int) -> Result<
    i32,
    TickBitmapError,
> {
    let tick = tick_div_spacing_at(word_pos, bit_pos) * spacing;
    if i32::MIN <= tick <= i32::MAX {
        Ok(tick as i32)
    } else {
        Err(TickBitmapError::OutOfRange)
    }
}

/// Divides a tick by the tick spacing.
///
/// The tick must be a multiple of the spacing: any other tick is refused with
/// `InvalidTickAlignment`. The quotient is exact.
pub fn get_tick_div_spacing(tick: i32, spacing: i32) -> (r: Result<i32, TickBitmapError>)
    requires
        spacing > 0,
    ensures
        r == tick_div_spacing_of(tick as int, spacing as int),
        r is Ok <==> is_aligned(tick as int, spacing as int),
        r matches Ok(q) ==> q == tick as int / spacing as int && q * spacing == tick,
        r matches Err(e) ==> e == TickBitmapError::InvalidTickAlignment,
{
    proof {
        lemma_negated_division(tick as int, spacing as int);
    }
    if tick % spacing != 0 {
        return Err(TickBitmapError::InvalidTickAlignment);
    }
    Ok(tick / spacing)
}

/// Splits a `tick / spacing` value into its word position and its bit position.
///
/// Values outside `[MIN_TICK_DIV_SPACING, MAX_TICK_DIV_SPACING]` are refused
/// with `OutOfRange`. For the others the word position is the value's bits above
/// bit 7, sign-extended, and the bit position is its low 8 bits, so that
/// `word_pos * 256 + bit_pos` gives the value back.
pub fn get_word_and_bit_pos(tick_div_spacing: i32) -> (r: Result<(i16, u8), TickBitmapError>)
    ensures
        r == word_and_bit_pos_of(tick_div_spacing as int),
        r is Ok <==> is_addressable(tick_div_spacing as int),
        r matches Ok((word_pos, bit_pos)) ==> tick_div_spacing_at(word_pos as int, bit_pos as int)
            == tick_div_spacing,
        r matches Err(e) ==> e == TickBitmapError::OutOfRange,
{
    if tick_div_spacing < MIN_TICK_DIV_SPACING || tick_div_spacing > MAX_TICK_DIV_SPACING {
        return Err(TickBitmapError::OutOfRange);
    }
    let word: i32 = tick_div_spacing >> 8;
    let bit: i32 = tick_div_spacing & 0xff;
    assert((tick_div_spacing >> 8) * 256 + (tick_div_spacing & 0xff) == tick_div_spacing
        && 0 <= (tick_div_spacing & 0xff) < 256 && -1679 <= (tick_div_spacing >> 8) <= 1678)
        by (bit_vector)
        requires
            -429772 <= tick_div_spacing <= 429772,
    ;
    proof {
        lemma_fundamental_div_mod_converse(tick_div_spacing as int, 256, word as int, bit as int);
    }
    Ok((word as i16, bit as u8))
}

/// The word and bit position of a tick of a pool with the given tick spacing.
///
/// The word position tells which record holds the tick, the bit position which
/// of its bits.
pub fn get_tick_position(tick: i32, spacing: i32) -> (r: Result<(i16, u8), TickBitmapError>)
    requires
        spacing > 0,
    ensures
        r == tick_position_of(tick as int, spacing as int),
        r is Ok <==> is_aligned(tick as int, spacing as int) && is_addressable(
            tick as int / spacing as int,
        ),
        r matches Ok((word_pos, bit_pos)) ==> tick_div_spacing_at(word_pos as int, bit_pos as int)
            * spacing == tick,
{
    match get_tick_div_spacing(tick, spacing) {
        Ok(tick_div_spacing) => get_word_and_bit_pos(tick_div_spacing),
        Err(e) => Err(e),
    }
}

/// The tick at `bit_pos` of the record at `word_pos`, for a pool with the given
/// tick spacing: `(word_pos * 256 + bit_pos) * spacing`.
///
/// A tick that does not fit in 32 bits is refused with `OutOfRange`.
pub fn get_tick_at(word_pos: i16, bit_pos: u8, spacing: i32) -> (r: Result<i32, TickBitmapError>)
    ensures
        r == tick_at_of(word_pos as int, bit_pos as int, spacing as int),
        r matches Ok(tick) ==> tick == (word_pos * 256 + bit_pos) * spacing,
        r matches Err(e) ==> e == TickBitmapError::OutOfRange,
{
    let tick_div_spacing: i64 = (word_pos as i64) * 256 + (bit_pos as i64);
    assert(-0x40_0000_0000_0000 <= tick_div_spacing * spacing <= 0x40_0000_0000_0000)
        by (nonlinear_arith)
        requires
            -0x80_0000 <= tick_div_spacing <= 0x80_0000,
            -0x8000_0000 <= spacing <= 0x8000_0000,
    ;
    let tick: i64 = tick_div_spacing * (spacing as i64);
    if tick < -0x8000_0000 || tick > 0x7fff_ffff {
        return Err(TickBitmapError::OutOfRange);
    }
    Ok(tick as i32)
}

/// An aligned negative tick divides as its absolute value does, with the sign put back.
proof fn lemma_negated_division(tick: int, spacing: int)
    requires
        spacing > 0,
    ensures
        is_aligned(tick, spacing) <==> is_aligned(-tick, spacing),
        is_aligned(tick, spacing) ==> tick / spacing == -((-tick) / spacing),
        is_aligned(tick, spacing) ==> (tick / spacing) * spacing == tick,
{
    lemma_fundamental_div_mod(tick, spacing);
    lemma_fundamental_div_mod(-tick, spacing);
    if is_aligned(tick, spacing) {
        let q = tick / spacing;
        assert(-tick == (-q) * spacing + 0) by (nonlinear_arith)
            requires
                tick == spacing * q,
        ;
        lemma_fundamental_div_mod_converse(-tick, spacing, -q, 0);
        assert(q * spacing == tick) by (nonlinear_arith)
            requires
                tick == spacing * q,
        ;
    }
    if is_aligned(-tick, spacing) {
        let q = (-tick) / spacing;
        assert(tick == (-q) * spacing + 0) by (nonlinear_arith)
            requires
                -tick == spacing * q,
        ;
        lemma_fundamental_div_mod_converse(tick, spacing, -q, 0);
    }
}

/// Bitmap state of the ticks of one word position of a pool.
///
/// Bit `b` of the record stands for the `tick / spacing` value
/// `word_pos * 256 + b`. The 256 bits are stored as two 128-bit words: word 0
/// holds bits 0 to 127, word 1 holds bits 128 to 255. As a sequence of 256
/// booleans the record is written `record@`.
#[derive(Clone, Copy, Debug)]
pub struct TickBitmapState {
    /// Bump of the record's address.
    pub bump: u8,
    /// First token of the pool that owns the record.
    pub token_0: [u8; 32],
    /// Second token of the pool that owns the record.
    pub token_1: [u8; 32],
    /// Fee tier of the pool that owns the record.
    pub fee: [u8; 32],
    /// The record's word position, as the 16 bits that its address holds.
    pub left_16_bits_of_tick: u16,
    /// The 256 bits: bits 0 to 127 in word 0, bits 128 to 255 in word 1.
    pub bitmap: [u128; 2],
}

impl View for TickBitmapState {
    type V = Seq<bool>;

    open spec fn view(&self) -> Seq<bool> {
        bits_of_words(self.bitmap@)
    }
}

/// The two-word mask that has only bit `bit_pos` set.
pub open spec fn flip_mask(bit_pos: u8) -> Seq<u128> {
    if bit_pos < 128 {
        seq![1u128 << bit_pos, 0u128]
    } else {
        seq![0u128, 1u128 << ((bit_pos - 128) as u8)]
    }
}

/// The two words `words` with bit `bit_pos` toggled.
pub open spec fn flipped_words(words: Seq<u128>, bit_pos: u8) -> Seq<u128> {
    seq![words[0] ^ flip_mask(bit_pos)[0], words[1] ^ flip_mask(bit_pos)[1]]
}

/// Whether `(pos, found)` is the answer to a search in `bits` from `start`.
///
/// Looking left (`lte`), the search covers `start, start - 1, .., 0` and
/// answers with the first set position it meets, or with `(0, false)`.
/// Looking right, it covers `start + 1, .., 255` and answers with the first set
/// position it meets, or with `(255, false)`.
pub open spec fn is_next_initialized(
    bits: Seq<bool>,
    start: int,
    lte: bool,
    pos: int,
    found: bool,
) -> bool {
    if lte {
        if found {
            &&& 0 <= pos <= start
            &&& bits[pos]
            &&& forall|j: int| pos < j <= start ==> !bits[j]
        } else {
            &&& pos == 0
            &&& forall|j: int| 0 <= j <= start ==> !bits[j]
        }
    } else {
        if found {
            &&& start < pos <= 255
            &&& bits[pos]
            &&& forall|j: int| start < j < pos ==> !bits[j]
        } else {
            &&& pos == 255
            &&& forall|j: int| start < j <= 255 ==> !bits[j]
        }
    }
}

/// The first set position among `start, start - 1, .., 0`, if there is one.
pub open spec fn nearest_at_or_below(bits: Seq<bool>, start: int) -> Option<int>
    recommends
        start < bits.len(),
    decreases start + 1,
{
    if start < 0 {
        None
    } else if bits[start] {
        Some(start)
    } else {
        nearest_at_or_below(bits, start - 1)
    }
}

/// The first set position among `start + 1, .., 255`, if there is one.
pub open spec fn nearest_above(bits: Seq<bool>, start: int) -> Option<int>
    recommends
        0 <= start + 1,
        bits.len() == 256,
    decreases 255 - start,
{
    if start >= 255 {
        None
    } else if bits[start + 1] {
        Some(start + 1)
    } else {
        nearest_above(bits, start + 1)
    }
}

/// The answer to a search in `bits` from `start`: the nearest set position in
/// the direction searched, with `true`, or the end of the word on that side,
/// with `false`.
pub open spec fn next_initialized_of(bits: Seq<bool>, start: int, lte: bool) -> (int, bool) {
    if lte {
        match nearest_at_or_below(bits, start) {
            Some(pos) => (pos, true),
            None => (0, false),
        }
    } else {
        match nearest_above(bits, start) {
            Some(pos) => (pos, true),
            None => (255, false),
        }
    }
}

/// What `find_next` returns on a record whose bits are `bits`.
pub open spec fn find_next_of(bits: Seq<bool>, tick: int, spacing: int, lte: bool) -> Result<
    (i32, bool),
    TickBitmapError,
> {
    match tick_position_of(tick, spacing) {
        Ok((word_pos, bit_pos)) => {
            let next = next_initialized_of(bits, bit_pos as int, lte);
            match tick_at_of(word_pos as int, next.0, spacing) {
                Ok(next_tick) => Ok((next_tick, next.1)),
                Err(e) => Err(e),
            }
        },
        Err(e) => Err(e),
    }
}

impl Default for TickBitmapState {
    /// The record of a window in which no tick is initialized.
    fn default() -> (state: TickBitmapState)
        ensures
            state.bump == 0,
            state.token_0@ == Seq::new(32, |i: int| 0u8),
            state.token_1@ == Seq::new(32, |i: int| 0u8),
            state.fee@ == Seq::new(32, |i: int| 0u8),
            state.left_16_bits_of_tick == 0,
            state.bitmap@ == seq![0u128, 0u128],
            state@ == Seq::new(256, |i: int| false),
    {
        let state = TickBitmapState {
            bump: 0,
            token_0: [0u8; 32],
            token_1: [0u8; 32],
            fee: [0u8; 32],
            left_16_bits_of_tick: 0,
            bitmap: [0u128, 0u128],
        };
        proof {
            lemma_zero_words_bits(state.bitmap@);
        }
        state
    }
}

impl TickBitmapState {
    /// Whether `self` is `before` with bit `bit_pos` toggled and nothing else changed.
    pub open spec fn is_flip_of(&self, before: TickBitmapState, bit_pos: u8) -> bool {
        &&& self.bitmap@ == flipped_words(before.bitmap@, bit_pos)
        &&& self.bump == before.bump
        &&& self.token_0 == before.token_0
        &&& self.token_1 == before.token_1
        &&& self.fee == before.fee
        &&& self.left_16_bits_of_tick == before.left_16_bits_of_tick
    }

    /// The bitmap of the record's two words.
    pub fn decode_bitmap(&self) -> (bitmap: DecodedBitmap)
        ensures
            bitmap_words(bitmap) == self.bitmap@,
    {
        DecodedBitmap::from_value(self.bitmap)
    }

    /// Whether the tick at `bit_pos` is initialized.
    pub fn is_set(&self, bit_pos: u8) -> (bit: bool)
        ensures
            bit == self@[bit_pos as int],
    {
        self.decode_bitmap().get(bit_pos)
    }

    /// Flips the tick at `bit_pos`: an initialized tick becomes uninitialized
    /// and the other way round. No other tick changes.
    pub fn flip_tick(&mut self, bit_pos: u8)
        ensures
            final(self).is_flip_of(*old(self), bit_pos),
            final(self)@ == old(self)@.update(bit_pos as int, !old(self)@[bit_pos as int]),
    {
        let bitmap = self.decode_bitmap();
        let mask = DecodedBitmap::from_value(
            if bit_pos < 128 {
                [1u128 << bit_pos, 0]
            } else {
                [0, 1u128 << (bit_pos - 128)]
            },
        );
        proof {
            lemma_flip_toggles_one_bit(self.bitmap@, bit_pos);
        }
        self.bitmap = bitmap.bitxor(mask).as_value();
    }

    /// The next initialized tick in this word, seen from `current_bit_pos`.
    ///
    /// With `lte` the search goes left and includes `current_bit_pos` itself:
    /// it answers with the nearest set position at or below it, or with
    /// `(0, false)` if there is none. Without `lte` it goes right and excludes
    /// `current_bit_pos`: it answers with the nearest set position above it, or
    /// with `(255, false)` if there is none. The search never leaves the word.
    #[verifier::loop_isolation(false)]
    pub fn next_initialized_tick_within_one_word(&self, current_bit_pos: u8, lte: bool) -> (next: (
        u8,
        bool,
    ))
        ensures
            (next.0 as int, next.1) == next_initialized_of(self@, current_bit_pos as int, lte),
            is_next_initialized(self@, current_bit_pos as int, lte, next.0 as int, next.1),
    {
        let bitmap = self.decode_bitmap();
        proof {
            lemma_next_initialized_of(self@, current_bit_pos as int, lte);
        }
        if lte {
            let mut i: u8 = current_bit_pos;
            loop
                invariant
                    i <= current_bit_pos,
                    nearest_at_or_below(self@, i as int) == nearest_at_or_below(
                        self@,
                        current_bit_pos as int,
                    ),
                decreases i,
            {
                if bitmap.get(i) {
                    return (i, true);
                }
                if i == 0 {
                    assert(nearest_at_or_below(self@, -1) is None);
                    return (0, false);
                }
                i = i - 1;
            }
        } else {
            let mut i: u8 = current_bit_pos;
            while i < 255
                invariant
                    current_bit_pos <= i,
                    nearest_above(self@, i as int) == nearest_above(self@, current_bit_pos as int),
                decreases 255 - i,
            {
                i = i + 1;
                if bitmap.get(i) {
                    return (i, true);
                }
            }
            (255, false)
        }
    }

    /// Flips the bit of `tick` in this record, which is the record at the
    /// tick's word position.
    ///
    /// A tick that is no multiple of `spacing` is refused with
    /// `InvalidTickAlignment`, one whose `tick / spacing` has no word and bit
    /// position with `OutOfRange`; the record is then left as it was.
    pub fn flip(&mut self, tick: i32, spacing: i32) -> (r: Result<(), TickBitmapError>)
        requires
            spacing > 0,
        ensures
            match tick_position_of(tick as int, spacing as int) {
                Ok((word_pos, bit_pos)) => {
                    &&& r is Ok
                    &&& final(self).is_flip_of(*old(self), bit_pos)
                    &&& final(self)@ == old(self)@.update(
                        bit_pos as int,
                        !old(self)@[bit_pos as int],
                    )
                },
                Err(e) => r == Err::<(), TickBitmapError>(e) && *final(self) == *old(self),
            },
    {
        match get_tick_position(tick, spacing) {
            Ok((_, bit_pos)) => {
                self.flip_tick(bit_pos);
                Ok(())
            },
            Err(e) => Err(e),
        }
    }

    /// The next initialized tick of this record, seen from `tick`. The record
    /// is the one at the tick's word position.
    ///
    /// The search is that of `next_initialized_tick_within_one_word` from the
    /// tick's bit position; the position it answers with is given back as a
    /// tick, `(word_pos * 256 + bit_pos) * spacing`, with the search's flag.
    /// Where the flag is `false` the tick is the end of this word on the side
    /// searched, and the search may go on in the neighbouring record.
    ///
    /// A tick that is no multiple of `spacing` is refused with
    /// `InvalidTickAlignment`; one whose `tick / spacing` has no word and bit
    /// position, and an answer that does not fit in 32 bits, with `OutOfRange`.
    pub fn find_next(&self, tick: i32, spacing: i32, lte: bool) -> (r: Result<
        (i32, bool),
        TickBitmapError,
    >)
        requires
            spacing > 0,
        ensures
            r == find_next_of(self@, tick as int, spacing as int, lte),
    {
        match get_tick_position(tick, spacing) {
            Ok((word_pos, bit_pos)) => {
                let (next_bit_pos, initialized) = self.next_initialized_tick_within_one_word(
                    bit_pos,
                    lte,
                );
                match get_tick_at(word_pos, next_bit_pos, spacing) {
                    Ok(next_tick) => Ok((next_tick, initialized)),
                    Err(e) => Err(e),
                }
            },
            Err(e) => Err(e),
        }
    }
}

/// Two zero words hold no set bit.
pub proof fn lemma_zero_words_bits(words: Seq<u128>)
    requires
        words.len() == 2,
        words[0] == 0,
        words[1] == 0,
    ensures
        bits_of_words(words) == Seq::new(256, |i: int| false),
{
    assert forall|i: int| 0 <= i < 256 implies !bit_of_words(words, i) by {
        let k = (i % 128) as u32;
        assert(!word_has_bit(0u128, k)) by (bit_vector);
    }
}

/// Flipping `bit_pos` changes what is read at `bit_pos` and at no other position.
pub proof fn lemma_flip_toggles_one_bit(words: Seq<u128>, bit_pos: u8)
    requires
        words.len() == 2,
    ensures
        bits_of_words(flipped_words(words, bit_pos)) == bits_of_words(words).update(
            bit_pos as int,
            !bits_of_words(words)[bit_pos as int],
        ),
{
    let flipped = flipped_words(words, bit_pos);
    assert forall|i: int| 0 <= i < 256 implies bit_of_words(flipped, i) == (bit_of_words(words, i)
        != (i == bit_pos)) by {
        let j = (i % 128) as u32;
        if i / 128 == bit_pos as int / 128 {
            let k = (bit_pos as int % 128) as u32;
            lemma_toggle_word_bit(words[i / 128], k, j);
        } else {
            lemma_toggle_no_bit(words[i / 128]);
        }
    }
}

/// Toggling bit `k` of a word changes bit `k` and no other.
proof fn lemma_toggle_word_bit(word: u128, k: u32, j: u32)
    by (bit_vector)
    requires
        k < 128,
        j < 128,
    ensures
        word_has_bit(word ^ (1u128 << k), j) == (word_has_bit(word, j) != (j == k)),
{
}

/// A word is left as it is by a mask with no bit set.
proof fn lemma_toggle_no_bit(word: u128)
    by (bit_vector)
    ensures
        word ^ 0u128 == word,
{
}

/// The search's answer is the nearest set position in the direction searched:
/// it is set, and no position between it and the start is. Where the answer
/// comes with `false`, no position searched is set.
pub proof fn lemma_next_initialized_of(bits: Seq<bool>, start: int, lte: bool)
    requires
        0 <= start <= 255,
    ensures
        is_next_initialized(
            bits,
            start,
            lte,
            next_initialized_of(bits, start, lte).0,
            next_initialized_of(bits, start, lte).1,
        ),
{
    if lte {
        lemma_nearest_at_or_below(bits, start);
    } else {
        lemma_nearest_above(bits, start);
    }
}

/// `nearest_at_or_below` gives a set position with no set position between
/// it and the start, or `None` where none of `0, .., start` is set.
proof fn lemma_nearest_at_or_below(bits: Seq<bool>, start: int)
    requires
        -1 <= start,
    ensures
        match nearest_at_or_below(bits, start) {
            Some(pos) => 0 <= pos <= start && bits[pos] && forall|j: int|
                pos < j <= start ==> !bits[j],
            None => forall|j: int| 0 <= j <= start ==> !bits[j],
        },
    decreases start + 1,
{
    if start >= 0 && !bits[start] {
        lemma_nearest_at_or_below(bits, start - 1);
    }
}

/// `nearest_above` gives a set position with no set position between the
/// start and it, or `None` where none of `start + 1, .., 255` is set.
proof fn lemma_nearest_above(bits: Seq<bool>, start: int)
    requires
        start <= 255,
    ensures
        match nearest_above(bits, start) {
            Some(pos) => start < pos <= 255 && bits[pos] && forall|j: int|
                start < j < pos ==> !bits[j],
            None => forall|j: int| start < j <= 255 ==> !bits[j],
        },
    decreases 255 - start,
{
    if start < 255 && !bits[start + 1] {
        lemma_nearest_above(bits, start + 1);
    }
}

} // verus!
