//! Trusted interface to the cryptographic primitives.
//!
//! The two primitives are deterministic functions of their byte inputs; each
//! gets an uninterpreted name and one wrapper whose contract ties the call to
//! that name. Everything around the calls is verified against the names.

use vstd::prelude::*;

use aes::Aes256;
use cbc::Decryptor;
use cbc::cipher::block_padding::NoPadding;
use cbc::cipher::{BlockModeDecrypt, KeyIvInit};
use hmac::{Hmac, KeyInit, Mac};
use sha2::Sha256;

verus! {

/// The HMAC-SHA256 tag of `msg` under `key`: a function of the two alone.
pub uninterp spec fn hmac_sha256(key: Seq<u8>, msg: Seq<u8>) -> Seq<u8>;

/// The raw AES-256-CBC block decryption of `ct` under `key` and `iv`
/// (no padding removed): a function of the three alone.
pub uninterp spec fn aes256_cbc_decrypt(key: Seq<u8>, iv: Seq<u8>, ct: Seq<u8>) -> Seq<u8>;

/// Relies on hmac's `Hmac<Sha256>`: `new_from_slice` accepts a key of any
/// length (it never errs for an HMAC), `update` then `finalize` produce the
/// 32-byte HMAC-SHA256 tag, a deterministic function of key and message.
#[verifier::external_body]
pub(crate) fn hmac_sha256_tag(key: &[u8], msg: &[u8]) -> (r: Vec<u8>)
    ensures
        r@ == hmac_sha256(key@, msg@),
        r@.len() == 32,
{
    let mut mac = <Hmac<Sha256> as KeyInit>::new_from_slice(key)
        .expect("an HMAC accepts keys of any length");
    mac.update(msg);
    mac.finalize().into_bytes().to_vec()
}

/// Relies on cbc's `Decryptor<Aes256>`: `new_from_slices` succeeds exactly for
/// a 32-byte key and a 16-byte IV, and `decrypt_padded` with `NoPadding`
/// decrypts the buffer in place and returns it whole whenever its length is a
/// multiple of the block size; the result is a deterministic function of key,
/// IV and input.
#[verifier::external_body]
pub(crate) fn aes256_cbc_decrypt_bytes(key: &[u8], iv: &[u8], ct: &[u8]) -> (r: Vec<u8>)
    requires
        key@.len() == 32,
        iv@.len() == 16,
        ct@.len() % 16 == 0,
    ensures
        r@ == aes256_cbc_decrypt(key@, iv@, ct@),
        r@.len() == ct@.len(),
{
    let mut buf = ct.to_vec();
    let dec: Decryptor<Aes256> = Decryptor::new_from_slices(key, iv)
        .expect("the caller checks the key and IV lengths");
    dec.decrypt_padded::<NoPadding>(&mut buf)
        .expect("the caller checks that the length is a whole number of blocks");
    buf
}

} // verus!
