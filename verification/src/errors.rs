use vstd::prelude::*;

verus! {

/// Error in the byte or hex framing of a container.
#[derive(Clone, Copy, Debug, PartialEq, Eq, Structural)]
pub enum FormatError {
    /// The input does not hold a full header followed by a non-empty ciphertext.
    TooShort,
    /// The input is not a valid hexadecimal encoding.
    InvalidHex,
}

/// Error in the cryptographic operations over a parsed container.
#[derive(Clone, Copy, Debug, PartialEq, Eq, Structural)]
pub enum CryptoError {
    /// A key does not have the length the primitive demands.
    InvalidKeyLength,
    /// The computed HMAC-SHA256 tag differs from the stored one.
    InvalidHmac,
    /// The decrypted data does not end in valid PKCS#7 padding.
    UnpadError,
}

/// Error of the top-level decryption entry point.
#[derive(Clone, Copy, Debug, PartialEq, Eq, Structural)]
pub enum DecryptError {
    /// The input could not be framed as a container.
    Format(FormatError),
    /// The container was framed but could not be validated or decrypted.
    Crypto(CryptoError),
}

} // verus!
