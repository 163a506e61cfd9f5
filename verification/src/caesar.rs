//! The Caesar Shift cipher: each ASCII letter is normalized to uppercase and
//! rotated by a fixed key within `A`-`Z`; every other byte passes through.

use vstd::prelude::*;

use crate::CrypterError;

verus! {

/// The maximum `key` value for this cipher.
pub const MAX_KEY: u8 = 25;

/// The length of the alphabet being encrypted (`A`-`Z`).
const ALPHA_LEN: u8 = 26;

/// True of the bytes `A`-`Z` and `a`-`z`.
pub open spec fn is_ascii_letter(b: u8) -> bool {
    (65 <= b && b <= 90) || (97 <= b && b <= 122)
}

/// Maps `a`-`z` to `A`-`Z` and leaves every other byte alone.
pub open spec fn to_upper(b: u8) -> u8 {
    if 97 <= b && b <= 122 {
        (b - 32) as u8
    } else {
        b
    }
}

/// How one byte is encrypted: letters are uppercased and rotated forward by
/// `key` within `A`-`Z`; any other byte passes through unchanged.
pub open spec fn encrypt_byte(key: u8, b: u8) -> u8 {
    if is_ascii_letter(b) {
        (((to_upper(b) - 65) + key) % 26 + 65) as u8
    } else {
        b
    }
}

/// How one byte is decrypted: letters are uppercased and rotated backward by
/// `key` within `A`-`Z`; any other byte passes through unchanged.
pub open spec fn decrypt_byte(key: u8, b: u8) -> u8 {
    if is_ascii_letter(b) {
        (((to_upper(b) - 65) + 26 - key) % 26 + 65) as u8
    } else {
        b
    }
}

/// The whole input encrypted byte for byte.
pub open spec fn encrypt_seq(key: u8, s: Seq<u8>) -> Seq<u8> {
    Seq::new(s.len(), |i: int| encrypt_byte(key, s[i]))
}

/// The whole input decrypted byte for byte.
pub open spec fn decrypt_seq(key: u8, s: Seq<u8>) -> Seq<u8> {
    Seq::new(s.len(), |i: int| decrypt_byte(key, s[i]))
}

/// The input with every letter uppercased and every other byte unchanged.
pub open spec fn upper_seq(s: Seq<u8>) -> Seq<u8> {
    Seq::new(s.len(), |i: int| to_upper(s[i]))
}

/// Applies the Caesar Shift cipher to the input, appending the transformed
/// bytes to `os`.
///
/// Only bytes from the range `a`-`z` or `A`-`Z` are affected; values of
/// `a`-`z` are converted to `A`-`Z` before encryption. A key outside
/// `[0, MAX_KEY]` is rejected before any byte is processed, and nothing is
/// written.
pub fn encrypt(key: u8, is: &[u8], os: &mut Vec<u8>) -> (r: Result<(), CrypterError>)
    ensures
        key <= MAX_KEY ==> r is Ok && final(os)@ == old(os)@ + encrypt_seq(key, is@),
        key > MAX_KEY ==> r == Err::<(), CrypterError>(CrypterError::InvalidKey) && final(os)@
            == old(os)@,
{
    if key >= ALPHA_LEN {
        return Err(CrypterError::InvalidKey);
    }
    let ghost orig = os@;
    let mut i: usize = 0;
    while i < is.len()
        invariant
            key < 26,
            i <= is.len(),
            os@ == orig + encrypt_seq(key, is@.take(i as int)),
        decreases is.len() - i,
    {
        let b = is[i];
        let mut out = b;
        if (65 <= b && b <= 90) || (97 <= b && b <= 122) {
            out = if b >= 97 {
                b - 32
            } else {
                b
            };
            out = out + key;
            if out > 90 {
                out = out - ALPHA_LEN;
            }
        }
        os.push(out);
        proof {
            assert(out == encrypt_byte(key, is@[i as int]));
            assert(encrypt_seq(key, is@.take(i + 1)) =~= encrypt_seq(key, is@.take(i as int)).push(
                encrypt_byte(key, is@[i as int]),
            ));
        }
        i = i + 1;
    }
    proof {
        assert(is@.take(is@.len() as int) =~= is@);
    }
    Ok(())
}

/// The inverse of [`encrypt`] on its own output: letters are uppercased and
/// rotated backward by `key`; every other byte passes through. A key outside
/// `[0, MAX_KEY]` is rejected before any byte is processed, and nothing is
/// written.
pub fn decrypt(key: u8, is: &[u8], os: &mut Vec<u8>) -> (r: Result<(), CrypterError>)
    ensures
        key <= MAX_KEY ==> r is Ok && final(os)@ == old(os)@ + decrypt_seq(key, is@),
        key > MAX_KEY ==> r == Err::<(), CrypterError>(CrypterError::InvalidKey) && final(os)@
            == old(os)@,
{
    if key >= ALPHA_LEN {
        return Err(CrypterError::InvalidKey);
    }
    let ghost orig = os@;
    let mut i: usize = 0;
    while i < is.len()
        invariant
            key < 26,
            i <= is.len(),
            os@ == orig + decrypt_seq(key, is@.take(i as int)),
        decreases is.len() - i,
    {
        let b = is[i];
        let mut out = b;
        if (65 <= b && b <= 90) || (97 <= b && b <= 122) {
            out = if b >= 97 {
                b - 32
            } else {
                b
            };
            if out - 65 >= key {
                out = out - key;
            } else {
                out = out + ALPHA_LEN - key;
            }
        }
        os.push(out);
        proof {
            assert(out == decrypt_byte(key, is@[i as int]));
            assert(decrypt_seq(key, is@.take(i + 1)) =~= decrypt_seq(key, is@.take(i as int)).push(
                decrypt_byte(key, is@[i as int]),
            ));
        }
        i = i + 1;
    }
    proof {
        assert(is@.take(is@.len() as int) =~= is@);
    }
    Ok(())
}

/// One letter's round trip: decrypting an encrypted letter with the same key
/// restores the letter's uppercase form.
pub proof fn lemma_caesar_byte_round_trip(key: u8, b: u8)
    requires
        key <= MAX_KEY,
        is_ascii_letter(b),
    ensures
        decrypt_byte(key, encrypt_byte(key, b)) == to_upper(b),
{
    let u = to_upper(b);
    assert(65 <= u && u <= 90);
    if u - 65 + key < 26 {
        assert((u - 65 + key) % 26 == u - 65 + key);
    } else {
        assert((u - 65 + key) % 26 == u - 65 + key - 26);
    }
}

/// For every key in range and every plaintext of ASCII letters only,
/// decrypting the encryption yields the uppercased plaintext.
pub proof fn lemma_caesar_round_trip(key: u8, p: Seq<u8>)
    requires
        key <= MAX_KEY,
        forall|i: int| 0 <= i < p.len() ==> is_ascii_letter(#[trigger] p[i]),
    ensures
        decrypt_seq(key, encrypt_seq(key, p)) == upper_seq(p),
{
    assert forall|i: int| 0 <= i < p.len() implies decrypt_seq(key, encrypt_seq(key, p))[i]
        == to_upper(p[i]) by {
        lemma_caesar_byte_round_trip(key, p[i]);
    }
    assert(decrypt_seq(key, encrypt_seq(key, p)) =~= upper_seq(p));
}

/// A key of zero is the identity shift: encryption only normalizes the case
/// of the input.
pub proof fn lemma_caesar_zero_key(p: Seq<u8>)
    ensures
        encrypt_seq(0, p) == upper_seq(p),
{
    assert forall|i: int| 0 <= i < p.len() implies encrypt_seq(0, p)[i] == to_upper(p[i]) by {
        if is_ascii_letter(p[i]) {
            let u = to_upper(p[i]);
            assert((u - 65) % 26 == u - 65);
        }
    }
    assert(encrypt_seq(0, p) =~= upper_seq(p));
}

/// Non-alphabetic bytes pass through both transforms unchanged, whatever the
/// key.
pub proof fn lemma_caesar_passthrough(key: u8, p: Seq<u8>)
    ensures
        forall|i: int|
            0 <= i < p.len() && !is_ascii_letter(p[i]) ==> #[trigger] encrypt_seq(key, p)[i]
                == p[i],
        forall|i: int|
            0 <= i < p.len() && !is_ascii_letter(p[i]) ==> #[trigger] decrypt_seq(key, p)[i]
                == p[i],
{
}

} // verus!
