//! The form in which a buffer is stored as bytes: its width, its height and
//! then its pixels row by row, each a `u32` with the lowest byte first.

use vstd::bytes::{
    lemma_auto_spec_u32_to_from_le_bytes,
    spec_u32_from_le_bytes,
    spec_u32_to_le_bytes,
    u32_from_le_bytes,
    u32_to_le_bytes,
};
use vstd::prelude::*;
use vstd::slice::slice_subrange;

use crate::geom::Size;

verus! {

/// The bytes of all the words, one word after the other.
pub open spec fn words_encoded(words: Seq<u32>) -> Seq<u8>
    decreases words.len(),
{
    if words.len() == 0 {
        Seq::empty()
    } else {
        words_encoded(words.drop_last()) + spec_u32_to_le_bytes(words.last())
    }
}

/// The bytes that a buffer of the size with the pixels is stored as.
pub open spec fn encoded(size: Size, pixels: Seq<u32>) -> Seq<u8> {
    words_encoded(seq![size.width, size.height] + pixels)
}

/// The word with the number `index` of the bytes.
pub open spec fn word_at(bytes: Seq<u8>, index: int) -> u32 {
    spec_u32_from_le_bytes(bytes.subrange(4 * index, 4 * index + 4))
}

/// The words that the bytes are made of, as many as they hold in full.
pub open spec fn words_decoded(bytes: Seq<u8>) -> Seq<u32> {
    Seq::new((bytes.len() / 4) as nat, |i: int| word_at(bytes, i))
}

/// The size that the bytes tell.
pub open spec fn decoded_size(bytes: Seq<u8>) -> Size {
    Size { width: word_at(bytes, 0), height: word_at(bytes, 1) }
}

/// The pixels that the bytes hold behind the size.
pub open spec fn decoded_pixels(bytes: Seq<u8>) -> Seq<u32> {
    Seq::new(((bytes.len() - 8) / 4) as nat, |i: int| word_at(bytes, i + 2))
}

/// Whether the bytes have the layout of a stored buffer: a width and a
/// height above zero, and as many pixels behind them as the two tell.
pub open spec fn is_encoding(bytes: Seq<u8>) -> bool {
    &&& bytes.len() >= 8
    &&& decoded_size(bytes).width > 0
    &&& decoded_size(bytes).height > 0
    &&& bytes.len() == 8 + 4 * decoded_size(bytes).area()
}

/// The bytes of words are four for each word, and each word can be read back
/// from its place.
pub proof fn lemma_words_encoded(words: Seq<u32>)
    ensures
        words_encoded(words).len() == 4 * words.len(),
        forall|i: int| 0 <= i < words.len() ==> #[trigger] word_at(words_encoded(words), i) == words[i],
    decreases words.len(),
{
    lemma_auto_spec_u32_to_from_le_bytes();
    if words.len() > 0 {
        let front = words.drop_last();
        lemma_words_encoded(front);
        let bytes = words_encoded(words);
        assert forall|i: int| 0 <= i < words.len() implies #[trigger] word_at(bytes, i)
            == words[i] by {
            if i < front.len() {
                assert(bytes.subrange(4 * i, 4 * i + 4) =~= words_encoded(front).subrange(
                    4 * i,
                    4 * i + 4,
                ));
                assert(word_at(words_encoded(front), i) == front[i]);
            } else {
                assert(bytes.subrange(4 * i, 4 * i + 4) =~= spec_u32_to_le_bytes(words.last()));
            }
        }
    }
}

/// Bytes that hold nothing but full words are the bytes of their words.
pub proof fn lemma_words_decoded(bytes: Seq<u8>)
    requires
        bytes.len() % 4 == 0,
    ensures
        words_encoded(words_decoded(bytes)) == bytes,
    decreases bytes.len(),
{
    lemma_auto_spec_u32_to_from_le_bytes();
    let words = words_decoded(bytes);
    if bytes.len() == 0 {
        assert(words_encoded(words) =~= bytes);
    } else {
        let count = words.len() as int;
        let front = bytes.subrange(0, bytes.len() - 4);
        lemma_words_decoded(front);
        assert(words.drop_last() =~= words_decoded(front)) by {
            assert forall|i: int| 0 <= i < count - 1 implies words[i] == words_decoded(front)[i] by {
                assert(bytes.subrange(4 * i, 4 * i + 4) =~= front.subrange(4 * i, 4 * i + 4));
            }
        }
        let tail = bytes.subrange(4 * (count - 1), 4 * (count - 1) + 4);
        assert(spec_u32_to_le_bytes(words.last()) == tail);
        assert(front + tail =~= bytes);
    }
}

/// What is stored can be read back: the bytes of a buffer have the layout
/// of a stored buffer, and they tell its size and each of its pixels.
pub proof fn lemma_round_trip(size: Size, pixels: Seq<u32>)
    requires
        size.width > 0,
        size.height > 0,
        pixels.len() == size.area(),
    ensures
        is_encoding(encoded(size, pixels)),
        decoded_size(encoded(size, pixels)) == size,
        decoded_pixels(encoded(size, pixels)) == pixels,
{
    let words = seq![size.width, size.height] + pixels;
    lemma_words_encoded(words);
    let bytes = encoded(size, pixels);
    assert(word_at(bytes, 0) == words[0]);
    assert(word_at(bytes, 1) == words[1]);
    assert forall|i: int| 0 <= i < pixels.len() implies decoded_pixels(bytes)[i] == pixels[i] by {
        assert(word_at(bytes, i + 2) == words[i + 2]);
    }
    assert(decoded_pixels(bytes) =~= pixels);
}

/// Bytes with the layout of a stored buffer are the bytes of the buffer
/// that is read from them, and of no other.
pub proof fn lemma_encoding_unique(bytes: Seq<u8>, size: Size, pixels: Seq<u32>)
    requires
        is_encoding(bytes),
    ensures
        encoded(decoded_size(bytes), decoded_pixels(bytes)) == bytes,
        encoded(size, pixels) == bytes ==> size == decoded_size(bytes) && pixels
            == decoded_pixels(bytes),
{
    lemma_words_decoded(bytes);
    let words = words_decoded(bytes);
    assert(words =~= seq![decoded_size(bytes).width, decoded_size(bytes).height]
        + decoded_pixels(bytes));
    if encoded(size, pixels) == bytes {
        let other = seq![size.width, size.height] + pixels;
        lemma_words_encoded(other);
        assert(other.len() == words.len());
        assert forall|i: int| 0 <= i < words.len() implies other[i] == words[i] by {
            assert(word_at(bytes, i) == other[i]);
        }
        assert(other =~= words);
        assert(size.width == other[0] && size.height == other[1]);
        assert(pixels =~= other.subrange(2, other.len() as int));
        assert(decoded_pixels(bytes) =~= words.subrange(2, words.len() as int));
    }
}

/// Add the bytes of the word to the bytes.
pub fn push_word(bytes: &mut Vec<u8>, word: u32)
    ensures
        final(bytes)@ == old(bytes)@ + spec_u32_to_le_bytes(word),
{
    let word_bytes = u32_to_le_bytes(word);
    bytes.push(word_bytes[0]);
    bytes.push(word_bytes[1]);
    bytes.push(word_bytes[2]);
    bytes.push(word_bytes[3]);
    proof {
        assert(bytes@ =~= old(bytes)@ + word_bytes@);
    }
}

/// Read the word with the number `index` from the bytes.
pub fn read_word(bytes: &[u8], index: usize) -> (word: u32)
    requires
        4 * index + 4 <= bytes@.len(),
    ensures
        word == word_at(bytes@, index as int),
{
    let length: usize = bytes.len();
    u32_from_le_bytes(slice_subrange(bytes, 4 * index, 4 * index + 4))
}

} // verus!
