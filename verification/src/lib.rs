//! Classical byte-stream ciphers: a Caesar (additive alphabetic) shift and a
//! stream XOR cipher, together with the hex wire codec their command line uses.

use vstd::prelude::*;

pub mod caesar;
pub mod hexcodec;
pub mod xor;

verus! {

/// The errors a transform can report before any byte is processed.
#[derive(Clone, Copy, Debug, PartialEq, Eq, Structural)]
pub enum CrypterError {
    /// A Caesar key outside the accepted range.
    InvalidKey,
    /// An XOR key hex string that does not decode to bytes.
    InvalidKeyEncoding,
}

} // verus!
