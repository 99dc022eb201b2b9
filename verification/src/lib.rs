//! Decrypt encrypted Android log containers.
//!
//! A container is a fixed 64-byte header — a 16-byte AES-CBC initialization
//! vector, a 16-byte HMAC-key field and a stored 32-byte HMAC-SHA256 tag —
//! followed by AES-256-CBC ciphertext with PKCS#7 padding. The HMAC is keyed
//! by the hex text of the key field and authenticates the hex text of the IV,
//! the ciphertext and the caller's AES key.

use vstd::prelude::*;
use vstd::string::StringSliceAdditionalSpecFns;

mod crypto;
mod encrypted_log;
mod errors;
mod header;
mod hexcode;

pub use crypto::{aes256_cbc_decrypt, hmac_sha256};
pub use encrypted_log::{
    lemma_round_trip_bytes, lemma_round_trip_hex, lemma_tamper_detected,
    lemma_validate_deterministic, pkcs7_unpadded, pkcs7_valid, spec_decrypt, spec_hmac_key,
    spec_hmac_message, spec_hmac_valid, spec_parse, spec_parse_hex, spec_serialize,
    spec_serialize_hex, EncryptedLog, LogV,
};
pub use errors::{CryptoError, DecryptError, FormatError};
pub use header::{Header, HeaderV};
pub use hexcode::{decode_hex, encode_hex, hex_decode, hex_decode_ok, hex_of};

verus! {

/// What the top-level decryption returns for hex text whose UTF-8 bytes are
/// `s` and AES key `key`: the plaintext when the input frames as a container,
/// the HMAC validates and the decryption unpads — else the exact error.
pub open spec fn spec_decrypt_log(s: Seq<u8>, key: Seq<u8>) -> Result<Seq<u8>, DecryptError> {
    if s.len() <= 128 {
        Err(DecryptError::Format(FormatError::TooShort))
    } else if !hex_decode_ok(s) {
        Err(DecryptError::Format(FormatError::InvalidHex))
    } else {
        let l = spec_parse(hex_decode(s)).unwrap();
        if !spec_hmac_valid(l, key) {
            Err(DecryptError::Crypto(CryptoError::InvalidHmac))
        } else {
            match spec_decrypt(l, key) {
                Ok(v) => Ok(v),
                Err(e) => Err(DecryptError::Crypto(e)),
            }
        }
    }
}

/// Decrypt an encrypted log given in hex text form with the 32-byte AES key
/// `key`: parse the container, refuse it unless the stored HMAC validates
/// against `key`, then decrypt. Never returns plaintext from a container whose
/// integrity check failed.
pub fn decrypt(ciphertext: &str, key: &[u8]) -> (r: Result<Vec<u8>, DecryptError>)
    ensures
        match (r, spec_decrypt_log(ciphertext.spec_bytes(), key@)) {
            (Ok(v), Ok(s)) => v@ == s,
            (Err(e), Err(se)) => e == se,
            _ => false,
        },
{
    let bytes = ciphertext.as_bytes();
    let log = match EncryptedLog::from_hex(bytes) {
        Ok(l) => l,
        Err(e) => {
            return Err(DecryptError::Format(e));
        },
    };
    let valid = match log.is_hmac_valid(key) {
        Ok(v) => v,
        Err(e) => {
            return Err(DecryptError::Crypto(e));
        },
    };
    if !valid {
        return Err(DecryptError::Crypto(CryptoError::InvalidHmac));
    }
    match log.decrypt(key) {
        Ok(v) => Ok(v),
        Err(e) => Err(DecryptError::Crypto(e)),
    }
}

} // verus!
