//! Tests of HMAC validation, AES decryption and the top-level entry point,
//! cross-checked against independent computations of the primitives.

use aes::Aes256;
use android_log_decrypt::{decrypt, CryptoError, DecryptError, EncryptedLog, Header};
use cbc::cipher::block_padding::Pkcs7;
use cbc::cipher::{BlockModeEncrypt, KeyIvInit};
use cbc::Encryptor;
use hmac::{Hmac, KeyInit, Mac};
use sha2::Sha256;

/// Hex text of `bytes`, written independently of the library.
fn hex_string(bytes: &[u8]) -> String {
    let mut out = String::new();
    for b in bytes {
        out.push_str(&format!("{b:02x}"));
    }
    out
}

/// The tag the container format stores: HMAC-SHA256 keyed by the hex text of
/// the key field, over the hex text of the IV, the ciphertext and the key.
fn expected_tag(key_field: &[u8], iv: &[u8], ciphertext: &[u8], key: &[u8]) -> Vec<u8> {
    let mut mac =
        <Hmac<Sha256> as KeyInit>::new_from_slice(hex_string(key_field).as_bytes()).unwrap();
    mac.update(hex_string(iv).as_bytes());
    mac.update(hex_string(ciphertext).as_bytes());
    mac.update(hex_string(key).as_bytes());
    mac.finalize().into_bytes().to_vec()
}

/// AES-256-CBC encryption with PKCS#7 padding, done outside the library.
fn aes_encrypt(key: &[u8; 32], iv: &[u8; 16], plaintext: &[u8]) -> Vec<u8> {
    let padded_len = (plaintext.len() / 16 + 1) * 16;
    let mut buf = vec![0u8; padded_len];
    buf[..plaintext.len()].copy_from_slice(plaintext);
    let enc = Encryptor::<Aes256>::new_from_slices(key, iv).unwrap();
    let ct = enc.encrypt_padded::<Pkcs7>(&mut buf, plaintext.len()).unwrap();
    ct.to_vec()
}

/// A container serialized from its four parts.
fn container_bytes(iv: &[u8; 16], key_field: &[u8; 16], tag: &[u8], ct: &[u8]) -> Vec<u8> {
    let mut bytes = Vec::new();
    bytes.extend_from_slice(iv);
    bytes.extend_from_slice(key_field);
    bytes.extend_from_slice(tag);
    bytes.extend_from_slice(ct);
    bytes
}

const KEY: [u8; 32] = [0; 32];
const IV: [u8; 16] = [0; 16];
const KEY_FIELD: [u8; 16] = [0x5a; 16];

fn sample_container(plaintext: &[u8]) -> EncryptedLog {
    let ct = aes_encrypt(&KEY, &IV, plaintext);
    let tag = expected_tag(&KEY_FIELD, &IV, &ct, &KEY);
    EncryptedLog::from_bytes(&container_bytes(&IV, &KEY_FIELD, &tag, &ct)).unwrap()
}

#[test]
fn validate_accepts_correct_tag_and_is_deterministic() {
    let log = sample_container(b"hello world");
    assert_eq!(log.is_hmac_valid(&KEY), Ok(true));
    assert_eq!(log.is_hmac_valid(&KEY), Ok(true));
    let other_key = [1u8; 32];
    assert_eq!(log.is_hmac_valid(&other_key), Ok(false));
    assert_eq!(log.is_hmac_valid(&other_key), Ok(false));
}

#[test]
fn validate_detects_bit_flips() {
    let ct = aes_encrypt(&KEY, &IV, b"hello world");
    let tag = expected_tag(&KEY_FIELD, &IV, &ct, &KEY);
    let good = container_bytes(&IV, &KEY_FIELD, &tag, &ct);
    // Offsets into the IV, the key field and the ciphertext; never the tag.
    let offsets = [0usize, 15, 16, 31, 64, good.len() - 1];
    for &offset in &offsets {
        for bit in 0..8 {
            let mut tampered = good.clone();
            tampered[offset] ^= 1 << bit;
            let log = EncryptedLog::from_bytes(&tampered).unwrap();
            assert_eq!(log.is_hmac_valid(&KEY), Ok(false));
        }
    }
}

#[test]
fn decrypt_known_vector() {
    let log = sample_container(b"hello world");
    assert_eq!(log.decrypt(&KEY), Ok(b"hello world".to_vec()));
}

#[test]
fn decrypt_multi_block() {
    let plaintext = b"a plaintext that spans several AES blocks to cover chaining";
    let log = sample_container(plaintext);
    assert_eq!(log.decrypt(&KEY), Ok(plaintext.to_vec()));
}

#[test]
fn decrypt_with_wrong_key_fails_unpad() {
    let log = sample_container(b"hello world");
    let wrong_key = [7u8; 32];
    assert_eq!(log.decrypt(&wrong_key), Err(CryptoError::UnpadError));
}

#[test]
fn decrypt_rejects_wrong_key_length() {
    for len in [0usize, 16, 31, 33, 48] {
        let log = sample_container(b"hello world");
        let key = vec![0u8; len];
        assert_eq!(log.decrypt(&key), Err(CryptoError::InvalidKeyLength));
    }
}

#[test]
fn decrypt_rejects_ciphertext_that_is_no_whole_block() {
    let header = Header::parse(&container_bytes(&IV, &KEY_FIELD, &[0u8; 32], &[])).unwrap();
    let log = EncryptedLog::new(header.clone(), Vec::new());
    assert_eq!(log.decrypt(&KEY), Err(CryptoError::UnpadError));
    let log = EncryptedLog::new(header, vec![0u8; 17]);
    assert_eq!(log.decrypt(&KEY), Err(CryptoError::UnpadError));
}

#[test]
fn end_to_end_decrypts_with_the_right_key_only() {
    let log = sample_container(b"hello world");
    let text = String::from_utf8(log.to_hex()).unwrap();
    assert_eq!(decrypt(&text, &KEY), Ok(b"hello world".to_vec()));
    let other_key = [0xa5u8; 32];
    assert_eq!(
        decrypt(&text, &other_key),
        Err(DecryptError::Crypto(CryptoError::InvalidHmac))
    );
}

#[test]
fn end_to_end_reports_format_errors() {
    assert_eq!(
        decrypt("00", &KEY),
        Err(DecryptError::Format(
            android_log_decrypt::FormatError::TooShort
        ))
    );
    let log = sample_container(b"hello world");
    let mut text = String::from_utf8(log.to_hex()).unwrap();
    text.replace_range(0..1, "x");
    assert_eq!(
        decrypt(&text, &KEY),
        Err(DecryptError::Format(
            android_log_decrypt::FormatError::InvalidHex
        ))
    );
}

#[test]
fn end_to_end_refuses_tampered_containers() {
    let ct = aes_encrypt(&KEY, &IV, b"hello world");
    let tag = expected_tag(&KEY_FIELD, &IV, &ct, &KEY);
    let mut tampered = container_bytes(&IV, &KEY_FIELD, &tag, &ct);
    let last = tampered.len() - 1;
    tampered[last] ^= 0x80;
    let text = hex_string(&tampered);
    assert_eq!(
        decrypt(&text, &KEY),
        Err(DecryptError::Crypto(CryptoError::InvalidHmac))
    );
}

#[test]
fn uppercase_hex_input_is_accepted() {
    let log = sample_container(b"hello world");
    let text = String::from_utf8(log.to_hex()).unwrap().to_uppercase();
    assert_eq!(decrypt(&text, &KEY), Ok(b"hello world".to_vec()));
}
