//! The XOR cipher: each plaintext byte is combined with a key byte by
//! exclusive-or, except that line-terminator bytes are preserved and never
//! introduced.

use vstd::prelude::*;

use crate::CrypterError;

verus! {

/// ASCII line feed.
pub const LINE_FEED: u8 = 10;

/// ASCII carriage return.
pub const CARRIAGE_RETURN: u8 = 13;

/// How one `(key, plain)` pair is transformed: a plaintext CR or LF is kept
/// as it is; otherwise the pair is XORed, and if that would produce a CR or
/// LF the plaintext byte is emitted instead.
pub open spec fn xor_byte(key: u8, b: u8) -> u8 {
    if b == LINE_FEED || b == CARRIAGE_RETURN {
        b
    } else {
        let x = b ^ key;
        if x == LINE_FEED || x == CARRIAGE_RETURN {
            b
        } else {
            x
        }
    }
}

/// The whole stream of `(key, plain)` pairs transformed pair by pair.
pub open spec fn xor_seq(pairs: Seq<(u8, u8)>) -> Seq<u8> {
    Seq::new(pairs.len(), |i: int| xor_byte(pairs[i].0, pairs[i].1))
}

/// Applies the XOR cipher to the stream of `(key, plain)` pairs, appending
/// one transformed byte per pair to `os`.
pub fn encrypt(key_is: &[(u8, u8)], os: &mut Vec<u8>) -> (r: Result<(), CrypterError>)
    ensures
        r is Ok,
        final(os)@ == old(os)@ + xor_seq(key_is@),
{
    let ghost orig = os@;
    let mut i: usize = 0;
    while i < key_is.len()
        invariant
            i <= key_is.len(),
            os@ == orig + xor_seq(key_is@.take(i as int)),
        decreases key_is.len() - i,
    {
        let (key, b) = key_is[i];
        let mut out = b;
        if b != LINE_FEED && b != CARRIAGE_RETURN {
            out = b ^ key;
            if out == LINE_FEED || out == CARRIAGE_RETURN {
                out = b;
            }
        }
        os.push(out);
        proof {
            assert(out == xor_byte(key_is@[i as int].0, key_is@[i as int].1));
            assert(xor_seq(key_is@.take(i + 1)) =~= xor_seq(key_is@.take(i as int)).push(
                xor_byte(key_is@[i as int].0, key_is@[i as int].1),
            ));
        }
        i = i + 1;
    }
    proof {
        assert(key_is@.take(key_is@.len() as int) =~= key_is@);
    }
    Ok(())
}

/// This function is provided for consistency: XOR is self-inverse, so it
/// simply calls [`encrypt`].
pub fn decrypt(key_is: &[(u8, u8)], os: &mut Vec<u8>) -> (r: Result<(), CrypterError>)
    ensures
        r is Ok,
        final(os)@ == old(os)@ + xor_seq(key_is@),
{
    encrypt(key_is, os)
}

/// Zips the plaintext against the key cycled indefinitely, producing the
/// stream of `(key, plain)` pairs that [`encrypt`] consumes.
pub fn make_pairs(key: &[u8], plain: &[u8]) -> (r: Vec<(u8, u8)>)
    requires
        key.len() > 0,
    ensures
        r@.len() == plain@.len(),
        forall|i: int|
            0 <= i < plain@.len() ==> r@[i] == (key@[i % key@.len() as int], plain@[i]),
{
    let mut pairs: Vec<(u8, u8)> = Vec::new();
    let mut i: usize = 0;
    while i < plain.len()
        invariant
            key.len() > 0,
            i <= plain.len(),
            pairs@.len() == i,
            forall|j: int|
                0 <= j < i ==> pairs@[j] == (key@[j % key@.len() as int], plain@[j]),
        decreases plain.len() - i,
    {
        let k = key[i % key.len()];
        pairs.push((k, plain[i]));
        i = i + 1;
    }
    pairs
}

/// For a key stream of zero bytes the transform is the identity: XOR with
/// zero changes no byte, and the line-terminator special case never differs
/// from the plaintext.
pub proof fn lemma_xor_zero_key(pairs: Seq<(u8, u8)>)
    requires
        forall|i: int| 0 <= i < pairs.len() ==> (#[trigger] pairs[i]).0 == 0,
    ensures
        xor_seq(pairs) == Seq::new(pairs.len(), |i: int| pairs[i].1),
{
    assert forall|i: int| 0 <= i < pairs.len() implies xor_seq(pairs)[i] == pairs[i].1 by {
        let b = pairs[i].1;
        assert(b ^ 0 == b) by (bit_vector);
    }
    assert(xor_seq(pairs) =~= Seq::new(pairs.len(), |i: int| pairs[i].1));
}

/// The transform never emits a raw CR or LF byte unless the corresponding
/// plaintext byte was itself that CR or LF.
pub proof fn lemma_xor_preserves_line_structure(pairs: Seq<(u8, u8)>)
    ensures
        forall|i: int|
            0 <= i < pairs.len() && (#[trigger] xor_seq(pairs)[i] == LINE_FEED || xor_seq(
                pairs,
            )[i] == CARRIAGE_RETURN) ==> pairs[i].1 == xor_seq(pairs)[i],
{
}

} // verus!
