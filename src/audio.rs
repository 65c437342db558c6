//! Framing of the audio pipe: each sample travels as the four little-endian
//! bytes of its 32-bit pattern. Turning patterns into float samples is the
//! host's part.

use vstd::prelude::*;

verus! {

/// Number of samples moved per block.
pub const BUFFER_SIZE: usize = 256;

/// The 32-bit word whose little-endian bytes are `b0..b3`.
pub open spec fn le_word(b0: u8, b1: u8, b2: u8, b3: u8) -> int {
    b0 + 256 * b1 + 65536 * b2 + 16777216 * b3
}

/// Byte `k` (0 = least significant) of a 32-bit word.
pub open spec fn word_byte(w: u32, k: int) -> int {
    let v = w as int;
    if k == 0 {
        v % 256
    } else if k == 1 {
        (v / 256) % 256
    } else if k == 2 {
        (v / 65536) % 256
    } else {
        v / 16777216
    }
}

/// The words framed by `bytes`: one per complete group of four, in order;
/// a trailing partial group is left out.
pub fn words_from_le_bytes(bytes: &[u8]) -> (r: Vec<u32>)
    ensures
        r.len() == bytes.len() / 4,
        forall|i: int|
            0 <= i < r.len() ==> #[trigger] r[i] as int == le_word(
                bytes[4 * i],
                bytes[4 * i + 1],
                bytes[4 * i + 2],
                bytes[4 * i + 3],
            ),
{
    let n = bytes.len() / 4;
    let mut r: Vec<u32> = Vec::new();
    let mut i: usize = 0;
    while i < n
        invariant
            i <= n,
            n == bytes.len() / 4,
            r.len() == i,
            forall|j: int|
                0 <= j < i ==> #[trigger] r[j] as int == le_word(
                    bytes[4 * j],
                    bytes[4 * j + 1],
                    bytes[4 * j + 2],
                    bytes[4 * j + 3],
                ),
        decreases n - i,
    {
        let k = 4 * i;
        let w: u32 = bytes[k] as u32 + (bytes[k + 1] as u32) * 256 + (bytes[k + 2] as u32) * 65536
            + (bytes[k + 3] as u32) * 16777216;
        r.push(w);
        i = i + 1;
    }
    r
}

/// The little-endian bytes of `words`, four per word, in order.
pub fn le_bytes_from_words(words: &[u32]) -> (r: Vec<u8>)
    requires
        words.len() * 4 <= usize::MAX,
    ensures
        r.len() == 4 * words.len(),
        forall|i: int, k: int|
            0 <= i < words.len() && 0 <= k < 4 ==> #[trigger] r[4 * i + k] as int == word_byte(
                #[trigger] words[i],
                k,
            ),
{
    let mut r: Vec<u8> = Vec::new();
    let mut i: usize = 0;
    while i < words.len()
        invariant
            i <= words.len(),
            words.len() * 4 <= usize::MAX,
            r.len() == 4 * i,
            forall|j: int, k: int|
                0 <= j < i && 0 <= k < 4 ==> #[trigger] r[4 * j + k] as int == word_byte(
                    #[trigger] words[j],
                    k,
                ),
        decreases words.len() - i,
    {
        let w = words[i];
        r.push((w % 256) as u8);
        r.push(((w / 256) % 256) as u8);
        r.push(((w / 65536) % 256) as u8);
        r.push((w / 16777216) as u8);
        assert forall|j: int, k: int| 0 <= j < i + 1 && 0 <= k < 4 implies #[trigger] r[4 * j
            + k] as int == word_byte(#[trigger] words[j], k) by {
            if j == i {
                assert(4 * j + k == 4 * i + k);
            }
        }
        i = i + 1;
    }
    r
}

/// Framing a word as bytes and reading it back gives the word.
pub proof fn lemma_word_round_trip(w: u32)
    ensures
        le_word(
            word_byte(w, 0) as u8,
            word_byte(w, 1) as u8,
            word_byte(w, 2) as u8,
            word_byte(w, 3) as u8,
        ) == w,
{
    let v = w as int;
    assert(v == v % 256 + 256 * ((v / 256) % 256) + 65536 * ((v / 65536) % 256) + 16777216 * (v
        / 16777216)) by (nonlinear_arith)
        requires
            0 <= v < 0x1_0000_0000,
    ;
}

} // verus!
