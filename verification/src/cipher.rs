//! The rotating-key obfuscation cipher.
//!
//! The device hands over a raw 32-word key table once per session.  The
//! host unscrambles it: word 0 becomes its bitwise complement, and every
//! later word is XORed with the already-unscrambled previous word.
//! Words 0..16 of the result are the encode key, words 16..32 the decode
//! key.  Each direction then XORs data words against its key under a
//! cursor that advances by one per word and wraps modulo 16, persisting
//! across calls within a session.

use vstd::prelude::*;
use vstd::pervasive::VecAdditionalExecFns;

verus! {

/// Word `i` of the unscrambled key table: word 0 is the bitwise
/// complement of raw word 0; every later word is the raw word XORed
/// with the already-unscrambled previous word.
pub open spec fn decoded_word(raw: Seq<u16>, i: int) -> u16
    decreases i,
{
    if i <= 0 {
        !raw[0]
    } else {
        raw[i] ^ decoded_word(raw, i - 1)
    }
}

/// The unscrambled key table.
pub open spec fn decoded_table(raw: Seq<u16>) -> Seq<u16> {
    Seq::new(raw.len(), |i: int| decoded_word(raw, i))
}

/// One direction of the rotating-key cipher: data word `i` is XORed
/// with the key word at cursor position `(start + i) % 16`.
pub open spec fn xor_stream(key: Seq<u16>, start: int, data: Seq<u16>) -> Seq<u16> {
    Seq::new(data.len(), |i: int| data[i] ^ key[(start + i) % 16])
}

/// Unscramble the raw key table fetched from the device, in place.
pub fn decode_encrypt_table(encrypt_table: &mut Vec<u16>)
    requires
        old(encrypt_table)@.len() >= 1,
    ensures
        final(encrypt_table)@ == decoded_table(old(encrypt_table)@),
{
    let ghost raw = encrypt_table@;
    let first = encrypt_table[0];
    encrypt_table.set(0, !first);
    let mut i: usize = 1;
    while i < encrypt_table.len()
        invariant
            1 <= i <= raw.len(),
            encrypt_table@.len() == raw.len(),
            forall|k: int| 0 <= k < i ==> encrypt_table@[k] == decoded_word(raw, k),
            forall|k: int| i <= k < raw.len() ==> encrypt_table@[k] == raw[k],
        decreases raw.len() - i,
    {
        let prev = encrypt_table[i - 1];
        let cur = encrypt_table[i];
        encrypt_table.set(i, cur ^ prev);
        proof {
            assert(decoded_word(raw, i as int) == raw[i as int] ^ decoded_word(raw, i as int - 1));
        }
        i = i + 1;
    }
    proof {
        assert(encrypt_table@ =~= decoded_table(raw));
    }
}

/// Law: decoding inverts encoding.  For any word sequence and any key,
/// when the decode key equals the encode key and both cursors start at
/// the same position, `Decode(Encode(data))` reproduces `data` exactly.
/// (With the device's table the two directions use different key halves,
/// so this holds between one host direction and the device's matching
/// inverse, not between the host's own encode and decode.)
pub proof fn lemma_cipher_roundtrip(
    encode_key: Seq<u16>,
    decode_key: Seq<u16>,
    start: int,
    data: Seq<u16>,
)
    requires
        encode_key.len() == 16,
        decode_key == encode_key,
        0 <= start < 16,
    ensures
        xor_stream(decode_key, start, xor_stream(encode_key, start, data)) == data,
{
    let once = xor_stream(encode_key, start, data);
    let twice = xor_stream(decode_key, start, once);
    assert forall|i: int| 0 <= i < data.len() implies twice[i] == data[i] by {
        let k = encode_key[(start + i) % 16];
        let d = data[i];
        assert((d ^ k) ^ k == d) by (bit_vector);
    }
    assert(twice =~= data);
}

/// Law: the key-table transform is one-way unscrambling, not an
/// involution.  Applying it twice never reproduces a table of at least
/// two words: word 1 of the double transform is the complement of the
/// original word 1.
pub proof fn lemma_decode_table_not_involution(raw: Seq<u16>)
    requires
        raw.len() >= 2,
    ensures
        decoded_table(decoded_table(raw)) != raw,
        decoded_table(decoded_table(raw))[1] == !raw[1],
{
    let d = decoded_table(raw);
    let dd = decoded_table(d);
    let a = raw[0];
    let b = raw[1];
    assert(decoded_word(raw, 0) == !a);
    assert(decoded_word(raw, 1) == b ^ decoded_word(raw, 0));
    assert(decoded_word(d, 0) == !d[0]);
    assert(decoded_word(d, 1) == d[1] ^ decoded_word(d, 0));
    assert(dd[1] == (b ^ !a) ^ !(!a));
    assert((b ^ !a) ^ !(!a) == !b && !b != b) by (bit_vector);
    assert(dd[1] != raw[1]);
}

/// Law: a direction's cursor position after processing `n` words is
/// `(start + n) % 16`; after exactly 16 words it returns to its starting
/// value, and a cursor that started at zero sits at `n % 16` after `n`
/// words.
pub proof fn lemma_cursor_period(start: int, n: int)
    requires
        0 <= start < 16,
        0 <= n,
    ensures
        n % 16 == 0 ==> (start + n) % 16 == start,
        (start + 16) % 16 == start,
        start == 0 ==> (start + n) % 16 == n % 16,
{
    assert(n % 16 == 0 ==> (start + n) % 16 == start) by (nonlinear_arith)
        requires
            0 <= start < 16,
            0 <= n,
    ;
}

} // verus!
