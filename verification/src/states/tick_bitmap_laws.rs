//! Laws of the tick bitmap index.
//!
//! Each law is stated over the spec functions that the contracts of
//! `tick_bitmap` use, so it holds of every call of the functions there.

use crate::states::tick_bitmap::bit_pos_of;
use crate::states::tick_bitmap::flip_mask;
use crate::states::tick_bitmap::flipped_words;
use crate::states::tick_bitmap::is_addressable;
use crate::states::tick_bitmap::is_next_initialized;
use crate::states::tick_bitmap::lemma_flip_toggles_one_bit;
use crate::states::tick_bitmap::lemma_next_initialized_of;
use crate::states::tick_bitmap::next_initialized_of;
use crate::states::tick_bitmap::tick_div_spacing_at;
use crate::states::tick_bitmap::word_and_bit_pos_of;
use crate::states::tick_bitmap::word_pos_of;
use crate::states::tick_bitmap::TickBitmapState;
use vstd::arithmetic::div_mod::lemma_fundamental_div_mod;
use vstd::arithmetic::div_mod::lemma_fundamental_div_mod_converse;
use vstd::prelude::*;

verus! {

/// Round trip: every addressable `tick / spacing` value has a word and bit
/// position, and `word_pos * 256 + bit_pos` gives the value back.
pub proof fn lemma_position_round_trip(tick_div_spacing: int)
    requires
        is_addressable(tick_div_spacing),
    ensures
        word_and_bit_pos_of(tick_div_spacing) matches Ok((word_pos, bit_pos))
            && tick_div_spacing_at(word_pos as int, bit_pos as int) == tick_div_spacing
            && word_pos == word_pos_of(tick_div_spacing)
            && bit_pos == bit_pos_of(tick_div_spacing),
{
    lemma_fundamental_div_mod(tick_div_spacing, 256);
}

/// The split is one to one: a word position and a bit position in `[0, 255]`
/// are the positions of the value they stand for, and of no other.
pub proof fn lemma_position_unique(word_pos: int, bit_pos: int)
    requires
        0 <= bit_pos <= 255,
    ensures
        word_pos_of(tick_div_spacing_at(word_pos, bit_pos)) == word_pos,
        bit_pos_of(tick_div_spacing_at(word_pos, bit_pos)) == bit_pos,
{
    lemma_fundamental_div_mod_converse(
        tick_div_spacing_at(word_pos, bit_pos),
        256,
        word_pos,
        bit_pos,
    );
}

/// The split keeps the order: of two values in one word, the smaller has the
/// smaller bit position.
pub proof fn lemma_position_order(a: int, b: int)
    requires
        a < b,
        word_pos_of(a) == word_pos_of(b),
    ensures
        bit_pos_of(a) < bit_pos_of(b),
{
    lemma_fundamental_div_mod(a, 256);
    lemma_fundamental_div_mod(b, 256);
}

/// The value after `tick_div_spacing` is at the next bit position of the same
/// word, or, after bit position 255, at bit position 0 of the next word.
pub proof fn lemma_position_successor(tick_div_spacing: int)
    ensures
        bit_pos_of(tick_div_spacing) < 255 ==> word_pos_of(tick_div_spacing + 1) == word_pos_of(
            tick_div_spacing,
        ) && bit_pos_of(tick_div_spacing + 1) == bit_pos_of(tick_div_spacing) + 1,
        bit_pos_of(tick_div_spacing) == 255 ==> word_pos_of(tick_div_spacing + 1) == word_pos_of(
            tick_div_spacing,
        ) + 1 && bit_pos_of(tick_div_spacing + 1) == 0,
{
    lemma_fundamental_div_mod(tick_div_spacing, 256);
    let word_pos = word_pos_of(tick_div_spacing);
    let bit_pos = bit_pos_of(tick_div_spacing);
    if bit_pos < 255 {
        lemma_fundamental_div_mod_converse(tick_div_spacing + 1, 256, word_pos, bit_pos + 1);
    } else {
        lemma_fundamental_div_mod_converse(tick_div_spacing + 1, 256, word_pos + 1, 0);
    }
}

/// Flipping one bit of two words twice gives the two words back.
pub proof fn lemma_flipped_words_involution(words: Seq<u128>, bit_pos: u8)
    requires
        words.len() == 2,
    ensures
        flipped_words(flipped_words(words, bit_pos), bit_pos) == words,
{
    let m0 = flip_mask(bit_pos)[0];
    let m1 = flip_mask(bit_pos)[1];
    let w0 = words[0];
    let w1 = words[1];
    assert((w0 ^ m0) ^ m0 == w0) by (bit_vector);
    assert((w1 ^ m1) ^ m1 == w1) by (bit_vector);
}

/// Flip involution: flipping the same tick of a record twice gives the record back.
pub proof fn lemma_flip_involution(
    before: TickBitmapState,
    once: TickBitmapState,
    twice: TickBitmapState,
    bit_pos: u8,
)
    requires
        once.is_flip_of(before, bit_pos),
        twice.is_flip_of(once, bit_pos),
    ensures
        twice == before,
{
    lemma_flipped_words_involution(before.bitmap@, bit_pos);
    assert(twice.bitmap@ == before.bitmap@);
    assert(twice.bitmap =~= before.bitmap);
}

/// Flip isolation: a flip at `bit_pos` changes what is read at `bit_pos`, and
/// what is read at any other position stays as it was.
pub proof fn lemma_flip_isolation(
    before: TickBitmapState,
    after: TickBitmapState,
    bit_pos: u8,
    other: u8,
)
    requires
        after.is_flip_of(before, bit_pos),
    ensures
        after@[bit_pos as int] == !before@[bit_pos as int],
        other != bit_pos ==> after@[other as int] == before@[other as int],
{
    lemma_flip_toggles_one_bit(before.bitmap@, bit_pos);
}

/// A search has one answer only.
pub proof fn lemma_next_initialized_unique(
    bits: Seq<bool>,
    start: int,
    lte: bool,
    pos: int,
    found: bool,
)
    requires
        0 <= start <= 255,
        is_next_initialized(bits, start, lte, pos, found),
    ensures
        (pos, found) == next_initialized_of(bits, start, lte),
{
    lemma_next_initialized_of(bits, start, lte);
}

/// Search monotonicity: a search to the left from a set position answers with
/// that position.
pub proof fn lemma_search_left_from_set_position(bits: Seq<bool>, start: int)
    requires
        0 <= start <= 255,
        bits[start],
    ensures
        next_initialized_of(bits, start, true) == (start, true),
{
}

/// Boundary behaviour: in a word with no set position a search to the left
/// answers `(0, false)` and a search to the right `(255, false)`, wherever it
/// starts.
pub proof fn lemma_search_in_empty_word(bits: Seq<bool>, start: int)
    requires
        0 <= start <= 255,
        forall|i: int| 0 <= i <= 255 ==> !bits[i],
    ensures
        next_initialized_of(bits, start, true) == (0int, false),
        next_initialized_of(bits, start, false) == (255int, false),
{
    lemma_next_initialized_of(bits, start, true);
    lemma_next_initialized_of(bits, start, false);
}

} // verus!
