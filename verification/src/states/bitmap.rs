//! The 256-bit bitmap that a tick bitmap record decodes to.
//!
//! The bitmap is a `bitmaps::Bitmap<256>`, whose backing store is two 128-bit
//! words: word 0 holds bits 0 to 127, word 1 holds bits 128 to 255. Verus sees
//! nothing inside it. What this library knows of a bitmap is its two words,
//! `bitmap_words`, and the functions below that call into `bitmaps` are taken
//! on trust: their contracts say what that crate's code does to the words,
//! and no proof stands behind them.

use bitmaps::Bitmap;
use std::ops::BitXor;
use vstd::prelude::*;

verus! {

/// Whether bit `k` of `word` is set.
pub open spec fn word_has_bit(word: u128, k: u32) -> bool {
    word & (1u128 << k) != 0
}

/// Whether bit `i` of the 256 bits stored in `words` is set.
pub open spec fn bit_of_words(words: Seq<u128>, i: int) -> bool {
    word_has_bit(words[i / 128], (i % 128) as u32)
}

/// The 256 bits stored in two 128-bit words, lowest bit first.
pub open spec fn bits_of_words(words: Seq<u128>) -> Seq<bool> {
    Seq::new(256, |i: int| bit_of_words(words, i))
}

/// A `bitmaps::Bitmap<256>`, held in a field that Verus does not look into.
#[verifier::external_body]
pub struct DecodedBitmap {
    inner: Bitmap<256>,
}

/// The backing store of a bitmap: its two 128-bit words.
pub uninterp spec fn bitmap_words(bitmap: DecodedBitmap) -> Seq<u128>;

impl DecodedBitmap {
    /// Calls `Bitmap::<256>::from_value`, which makes the bitmap whose backing
    /// store is `words`.
    #[verifier::external_body]
    pub(crate) fn from_value(words: [u128; 2]) -> (bitmap: DecodedBitmap)
        ensures
            bitmap_words(bitmap) == words@,
    {
        DecodedBitmap { inner: Bitmap::<256>::from_value(words) }
    }

    /// Calls `Bitmap::as_value`, which lends the backing store, and copies it.
    #[verifier::external_body]
    pub(crate) fn as_value(&self) -> (words: [u128; 2])
        ensures
            words@ == bitmap_words(*self),
    {
        *self.inner.as_value()
    }

    /// Calls `BitXor::bitxor` on two bitmaps: each word of the result is the
    /// exclusive or of the operands' words at that index.
    #[verifier::external_body]
    pub(crate) fn bitxor(self, rhs: DecodedBitmap) -> (out: DecodedBitmap)
        ensures
            bitmap_words(out) == seq![
                bitmap_words(self)[0] ^ bitmap_words(rhs)[0],
                bitmap_words(self)[1] ^ bitmap_words(rhs)[1],
            ],
    {
        DecodedBitmap { inner: self.inner.bitxor(rhs.inner) }
    }

    /// Calls `Bitmap::get`, which reads bit `index % 128` of word
    /// `index / 128`. An index of 256 or more lies outside the store, where
    /// `get` panics.
    #[verifier::external_body]
    pub(crate) fn get_index(&self, index: usize) -> (bit: bool)
        requires
            index < 256,
        ensures
            bit == bit_of_words(bitmap_words(*self), index as int),
    {
        self.inner.get(index)
    }

    /// The bit at `bit_pos`.
    pub fn get(&self, bit_pos: u8) -> (bit: bool)
        ensures
            bit == bit_of_words(bitmap_words(*self), bit_pos as int),
    {
        self.get_index(bit_pos as usize)
    }
}

} // verus!
