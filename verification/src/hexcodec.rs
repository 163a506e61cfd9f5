//! The hex wire codec around the XOR cipher: keys arrive as hex strings,
//! input arrives as ASCII hex digit pairs with other bytes silently ignored,
//! and output is re-encoded as hex digit pairs.

use vstd::prelude::*;

use crate::CrypterError;

verus! {

/// True of the ASCII hex digits `0`-`9`, `a`-`f` and `A`-`F`.
pub open spec fn is_hex_digit(b: u8) -> bool {
    (48 <= b && b <= 57) || (97 <= b && b <= 102) || (65 <= b && b <= 70)
}

/// The value of one ASCII hex digit (zero on any other byte).
pub open spec fn hex_digit_value(b: u8) -> u8 {
    if 48 <= b && b <= 57 {
        (b - 48) as u8
    } else if 97 <= b && b <= 102 {
        (b - 97 + 10) as u8
    } else if 65 <= b && b <= 70 {
        (b - 65 + 10) as u8
    } else {
        0
    }
}

/// The lowercase ASCII hex digit for a value below 16.
pub open spec fn hex_digit_of(v: u8) -> u8 {
    if v < 10 {
        (48 + v) as u8
    } else {
        (87 + v) as u8
    }
}

/// Each byte encoded as two lowercase hex digits, high nibble first.
pub open spec fn hex_encoding_of(s: Seq<u8>) -> Seq<u8> {
    Seq::new(
        2 * s.len(),
        |i: int|
            if i % 2 == 0 {
                hex_digit_of((s[i / 2] / 16) as u8)
            } else {
                hex_digit_of((s[i / 2] % 16) as u8)
            },
    )
}

/// Each pair of hex digits decoded to one byte, high nibble first.
pub open spec fn hex_decoding_of(s: Seq<u8>) -> Seq<u8> {
    Seq::new(
        s.len() / 2,
        |i: int| (hex_digit_value(s[2 * i]) * 16 + hex_digit_value(s[2 * i + 1])) as u8,
    )
}

/// True of byte strings that decode as hex: even length, hex digits only.
pub open spec fn is_hex_encoding(s: Seq<u8>) -> bool {
    s.len() % 2 == 0 && (forall|i: int| 0 <= i < s.len() ==> is_hex_digit(#[trigger] s[i]))
}

/// The subsequence of ASCII hex digit bytes, in order.
pub open spec fn hex_digits_of(s: Seq<u8>) -> Seq<u8>
    decreases s.len(),
{
    if s.len() == 0 {
        Seq::empty()
    } else if is_hex_digit(s.last()) {
        hex_digits_of(s.drop_last()).push(s.last())
    } else {
        hex_digits_of(s.drop_last())
    }
}

/// The longest even-length prefix: what remains once a trailing unpaired hex
/// digit is dropped.
pub open spec fn even_prefix(s: Seq<u8>) -> Seq<u8> {
    s.take(s.len() - (s.len() % 2))
}

#[verifier::external_type_specification]
#[verifier::external_body]
pub struct ExFromHexError(hex::FromHexError);

/// Relies on hex::encode: every input byte becomes two lowercase hex digits,
/// high nibble first.
#[verifier::external_body]
fn hex_encode_raw(data: &[u8]) -> (r: Vec<u8>)
    ensures
        r@ == hex_encoding_of(data@),
{
    hex::encode(data).into_bytes()
}

/// Relies on hex::decode: an even-length input of hex digits (either case)
/// decodes to one byte per digit pair, high nibble first; an odd length or a
/// non-digit byte is refused.
#[verifier::external_body]
fn hex_decode_raw(data: &[u8]) -> (r: Result<Vec<u8>, hex::FromHexError>)
    ensures
        r is Ok <==> is_hex_encoding(data@),
        r matches Ok(v) ==> v@ == hex_decoding_of(data@),
{
    hex::decode(data)
}

/// Encodes bytes as a lowercase hex string, the form in which transformed
/// XOR output is written out.
pub fn encode_hex(data: &[u8]) -> (r: Vec<u8>)
    ensures
        r@ == hex_encoding_of(data@),
{
    hex_encode_raw(data)
}

/// Decodes a hex-encoded XOR key to its raw bytes. The key string must be an
/// even number of hex digits and nothing else; any other string is rejected
/// as [`CrypterError::InvalidKeyEncoding`].
pub fn decode_key(data: &[u8]) -> (r: Result<Vec<u8>, CrypterError>)
    ensures
        is_hex_encoding(data@) ==> (r matches Ok(v) && v@ == hex_decoding_of(data@)),
        !is_hex_encoding(data@) ==> r == Err::<Vec<u8>, CrypterError>(
            CrypterError::InvalidKeyEncoding,
        ),
{
    match hex_decode_raw(data) {
        Ok(v) => Ok(v),
        Err(_) => Err(CrypterError::InvalidKeyEncoding),
    }
}

/// Decodes the XOR wire input: bytes other than ASCII hex digits are
/// silently ignored, the digits that remain are paired in order, a trailing
/// unpaired digit is dropped, and each pair becomes one plaintext byte.
pub fn decode_hex_input(data: &[u8]) -> (r: Vec<u8>)
    ensures
        r@ == hex_decoding_of(even_prefix(hex_digits_of(data@))),
{
    let mut digits: Vec<u8> = Vec::new();
    let mut i: usize = 0;
    while i < data.len()
        invariant
            i <= data.len(),
            digits@ == hex_digits_of(data@.take(i as int)),
            forall|j: int| 0 <= j < digits@.len() ==> is_hex_digit(#[trigger] digits@[j]),
        decreases data.len() - i,
    {
        let b = data[i];
        proof {
            assert(data@.take(i + 1).drop_last() =~= data@.take(i as int));
            assert(data@.take(i + 1).last() == data@[i as int]);
        }
        if (48 <= b && b <= 57) || (97 <= b && b <= 102) || (65 <= b && b <= 70) {
            digits.push(b);
        }
        i = i + 1;
    }
    proof {
        assert(data@.take(data@.len() as int) =~= data@);
    }
    if digits.len() % 2 == 1 {
        digits.pop();
    }
    proof {
        assert(digits@ =~= even_prefix(hex_digits_of(data@)));
    }
    match hex_decode_raw(digits.as_slice()) {
        Ok(v) => v,
        Err(_) => {
            proof {
                assert(false);
            }
            Vec::new()
        },
    }
}

} // verus!
