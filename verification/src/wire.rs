//! Endianness-pinned conversion between 16-bit protocol words and the
//! bytes that cross the wire.  The device exchanges whole words; on the
//! wire each word travels low byte first.

use vstd::prelude::*;

verus! {

/// The little-endian byte image of a word sequence: byte `2*i` is the
/// low byte of word `i`, byte `2*i + 1` its high byte.
pub open spec fn le_bytes_of(words: Seq<u16>) -> Seq<u8> {
    Seq::new(
        words.len() * 2,
        |i: int|
            if i % 2 == 0 {
                (words[i / 2] & 0xff) as u8
            } else {
                (words[i / 2] >> 8) as u8
            },
    )
}

/// The words read from a little-endian byte sequence, two bytes per
/// word, low byte first.
pub open spec fn words_of_le_bytes(bytes: Seq<u8>) -> Seq<u16> {
    Seq::new(
        bytes.len() / 2,
        |i: int| (bytes[2 * i] as u16) | ((bytes[2 * i + 1] as u16) << 8),
    )
}

/// Serialise a word buffer into its little-endian byte image.
pub fn words_to_le_bytes(words: &Vec<u16>) -> (r: Vec<u8>)
    requires
        words@.len() * 2 <= usize::MAX,
    ensures
        r@ == le_bytes_of(words@),
{
    let mut r: Vec<u8> = Vec::new();
    let mut i: usize = 0;
    while i < words.len()
        invariant
            i <= words@.len(),
            words@.len() * 2 <= usize::MAX,
            r@.len() == 2 * i,
            forall|k: int| 0 <= k < r@.len() ==> r@[k] == le_bytes_of(words@)[k],
        decreases words@.len() - i,
    {
        let w = words[i];
        r.push((w & 0xff) as u8);
        r.push((w >> 8) as u8);
        i = i + 1;
    }
    proof {
        assert(r@ =~= le_bytes_of(words@));
    }
    r
}

/// Parse a little-endian byte buffer of even length back into words.
pub fn le_bytes_to_words(bytes: &Vec<u8>) -> (r: Vec<u16>)
    requires
        bytes@.len() % 2 == 0,
    ensures
        r@ == words_of_le_bytes(bytes@),
{
    let mut r: Vec<u16> = Vec::new();
    let n = bytes.len() / 2;
    let mut i: usize = 0;
    while i < n
        invariant
            i <= n,
            n == bytes@.len() / 2,
            bytes@.len() % 2 == 0,
            bytes@.len() <= usize::MAX,
            r@.len() == i,
            forall|k: int| 0 <= k < i ==> r@[k] == words_of_le_bytes(bytes@)[k],
        decreases n - i,
    {
        let lo = bytes[2 * i];
        let hi = bytes[2 * i + 1];
        let w = (lo as u16) | ((hi as u16) << 8);
        r.push(w);
        i = i + 1;
    }
    proof {
        assert(r@ =~= words_of_le_bytes(bytes@));
    }
    r
}

} // verus!
