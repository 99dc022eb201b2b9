//! The encrypted log container: one header plus the raw ciphertext.
//!
//! The container offers the two security-critical operations, integrity
//! validation and decryption, both pure functions of the header, the
//! ciphertext and a caller-supplied key. Decryption does not validate: the
//! caller must check the HMAC first, as the top-level entry point does.

use vstd::prelude::*;
use vstd::slice::{slice_subrange, slice_to_vec};

use crate::crypto::{aes256_cbc_decrypt, aes256_cbc_decrypt_bytes, hmac_sha256, hmac_sha256_tag};
use crate::errors::{CryptoError, FormatError};
use crate::header::{Header, HeaderV};
use crate::hexcode::{decode_hex, encode_hex, hex_decode, hex_decode_ok, hex_of};

verus! {

/// Mathematical view of a container: header view plus ciphertext bytes.
#[verifier::ext_equal]
pub ghost struct LogV {
    /// View of the parsed header.
    pub header: HeaderV,
    /// The raw ciphertext that follows the header.
    pub ciphertext: Seq<u8>,
}

/// The raw-byte serialization: 64 header bytes, then the ciphertext.
pub open spec fn spec_serialize(l: LogV) -> Seq<u8> {
    l.header.bytes() + l.ciphertext
}

/// The container encoded by raw bytes `b`: a full header plus non-empty
/// ciphertext, or nothing if `b` is too short.
pub open spec fn spec_parse(b: Seq<u8>) -> Option<LogV> {
    if b.len() > 64 {
        Some(
            LogV {
                header: HeaderV {
                    iv: b.subrange(0, 16),
                    key: b.subrange(16, 32),
                    hmac: b.subrange(32, 64),
                },
                ciphertext: b.subrange(64, b.len() as int),
            },
        )
    } else {
        None
    }
}

/// The hex-text serialization: the hex encoding of the raw bytes.
pub open spec fn spec_serialize_hex(l: LogV) -> Seq<u8> {
    hex_of(spec_serialize(l))
}

/// The container encoded by hex text `s`: more than 128 hex digits decoded
/// through the byte form, or nothing.
pub open spec fn spec_parse_hex(s: Seq<u8>) -> Option<LogV> {
    if s.len() > 128 && hex_decode_ok(s) {
        spec_parse(hex_decode(s))
    } else {
        None
    }
}

/// An encrypted log container.
#[derive(Clone, Debug, PartialEq, Eq)]
pub struct EncryptedLog {
    header: Header,
    ciphertext: Vec<u8>,
}

impl View for EncryptedLog {
    type V = LogV;

    closed spec fn view(&self) -> LogV {
        LogV { header: self.header@, ciphertext: self.ciphertext@ }
    }
}

impl EncryptedLog {
    /// Couple a header with its ciphertext; nothing is validated here.
    pub fn new(header: Header, ciphertext: Vec<u8>) -> (r: Self)
        ensures
            r@.header == header@,
            r@.ciphertext == ciphertext@,
    {
        EncryptedLog { header, ciphertext }
    }

    /// Read-only view of the header.
    pub fn header(&self) -> (r: &Header)
        ensures
            r@ == self@.header,
    {
        &self.header
    }

    /// Read-only view of the ciphertext.
    pub fn ciphertext(&self) -> (r: &[u8])
        ensures
            r@ == self@.ciphertext,
    {
        self.ciphertext.as_slice()
    }

    /// Split raw bytes into a header and the non-empty remainder as
    /// ciphertext; 64 bytes or fewer are a format error.
    pub fn from_bytes(bytes: &[u8]) -> (r: Result<Self, FormatError>)
        ensures
            bytes@.len() > 64 ==> (r matches Ok(log) && Some(log@) == spec_parse(bytes@)
                && log@.header.wf()),
            bytes@.len() <= 64 ==> r == Err::<EncryptedLog, FormatError>(FormatError::TooShort),
    {
        if bytes.len() <= 64 {
            return Err(FormatError::TooShort);
        }
        let header = match Header::parse(bytes) {
            Ok(h) => h,
            Err(e) => {
                return Err(e);
            },
        };
        let ciphertext = slice_to_vec(slice_subrange(bytes, 64, bytes.len()));
        let log = EncryptedLog { header, ciphertext };
        proof {
            assert(log@ =~= spec_parse(bytes@).unwrap());
        }
        Ok(log)
    }

    /// Split hex text into a header and ciphertext through the byte form;
    /// 128 digits or fewer are too short, and any other decoding failure is
    /// an invalid hex encoding.
    pub fn from_hex(hex: &[u8]) -> (r: Result<Self, FormatError>)
        ensures
            hex@.len() > 128 && hex_decode_ok(hex@) ==> (r matches Ok(log) && Some(log@)
                == spec_parse_hex(hex@) && log@.header.wf()),
            hex@.len() <= 128 ==> r == Err::<EncryptedLog, FormatError>(FormatError::TooShort),
            hex@.len() > 128 && !hex_decode_ok(hex@) ==> r == Err::<EncryptedLog, FormatError>(
                FormatError::InvalidHex,
            ),
    {
        if hex.len() <= 128 {
            return Err(FormatError::TooShort);
        }
        let bytes = match decode_hex(hex) {
            Ok(b) => b,
            Err(e) => {
                return Err(e);
            },
        };
        Self::from_bytes(bytes.as_slice())
    }

    /// Whether the stored HMAC-SHA256 tag is valid for this container and
    /// `key`. The tag is keyed by the hex text of the header's key field and
    /// computed over the hex text of the IV, the ciphertext and `key`. Pure:
    /// the result depends on the container and `key` alone.
    pub fn is_hmac_valid(&self, key: &[u8]) -> (r: Result<bool, CryptoError>)
        ensures
            r == Ok::<bool, CryptoError>(spec_hmac_valid(self@, key@)),
    {
        let hmac_key = encode_hex(self.header.key());
        let mut msg = encode_hex(self.header.iv());
        let mut ct_hex = encode_hex(self.ciphertext.as_slice());
        msg.append(&mut ct_hex);
        let mut key_hex = encode_hex(key);
        msg.append(&mut key_hex);
        let tag = hmac_sha256_tag(hmac_key.as_slice(), msg.as_slice());
        Ok(bytes_eq(tag.as_slice(), self.header.hmac()))
    }

    /// Decrypt the ciphertext with the 32-byte AES-256 key `key` and the
    /// header's IV, and remove the PKCS#7 padding. No integrity check is done
    /// here: the caller must validate the HMAC first. A key of any other
    /// length is rejected before any AES work; a ciphertext that is empty or
    /// no whole number of blocks, or a decryption that does not end in valid
    /// padding, is an unpadding error.
    pub fn decrypt(self, key: &[u8]) -> (r: Result<Vec<u8>, CryptoError>)
        requires
            self@.header.wf(),
        ensures
            match (r, spec_decrypt(self@, key@)) {
                (Ok(v), Ok(s)) => v@ == s,
                (Err(e), Err(se)) => e == se,
                _ => false,
            },
    {
        if key.len() != 32 {
            return Err(CryptoError::InvalidKeyLength);
        }
        if self.ciphertext.len() == 0 || self.ciphertext.len() % 16 != 0 {
            return Err(CryptoError::UnpadError);
        }
        let raw = aes256_cbc_decrypt_bytes(key, self.header.iv(), self.ciphertext.as_slice());
        pkcs7_unpad(raw)
    }

    /// Serialize the container back into its raw-byte form.
    pub fn to_bytes(&self) -> (r: Vec<u8>)
        ensures
            r@ == spec_serialize(self@),
    {
        let mut out = self.header.to_bytes();
        out.extend_from_slice(self.ciphertext.as_slice());
        out
    }

    /// Serialize the container into its lowercase hex-text form.
    pub fn to_hex(&self) -> (r: Vec<u8>)
        ensures
            r@ == spec_serialize_hex(self@),
    {
        let bytes = self.to_bytes();
        encode_hex(bytes.as_slice())
    }
}

/// The HMAC key of a container: the hex text of the header's key field.
pub open spec fn spec_hmac_key(l: LogV) -> Seq<u8> {
    hex_of(l.header.key)
}

/// The authenticated message: hex text of the IV, the ciphertext and the
/// caller's key, concatenated.
pub open spec fn spec_hmac_message(l: LogV, key: Seq<u8>) -> Seq<u8> {
    hex_of(l.header.iv) + hex_of(l.ciphertext) + hex_of(key)
}

/// Whether the stored tag equals the HMAC-SHA256 tag computed over the
/// container and the caller's key.
pub open spec fn spec_hmac_valid(l: LogV, key: Seq<u8>) -> bool {
    hmac_sha256(spec_hmac_key(l), spec_hmac_message(l, key)) == l.header.hmac
}

/// Whether two byte slices hold the same bytes.
fn bytes_eq(a: &[u8], b: &[u8]) -> (r: bool)
    ensures
        r == (a@ == b@),
{
    if a.len() != b.len() {
        return false;
    }
    let n = a.len();
    for i in 0..n
        invariant
            n == a@.len(),
            n == b@.len(),
            forall|j: int| 0 <= j < i ==> a@[j] == b@[j],
    {
        if a[i] != b[i] {
            return false;
        }
    }
    proof {
        assert(a@ =~= b@);
    }
    true
}

/// What decrypting container `l` with `key` returns: the AES-256-CBC
/// decryption with the PKCS#7 padding removed, or the exact error — a key
/// that is not 32 bytes long is rejected before any AES work, and a
/// ciphertext that is empty, no whole number of blocks, or decrypts to
/// invalid padding is an unpadding error.
pub open spec fn spec_decrypt(l: LogV, key: Seq<u8>) -> Result<Seq<u8>, CryptoError> {
    if key.len() != 32 {
        Err(CryptoError::InvalidKeyLength)
    } else if l.ciphertext.len() > 0 && l.ciphertext.len() % 16 == 0 && pkcs7_valid(
        aes256_cbc_decrypt(key, l.header.iv, l.ciphertext),
    ) {
        Ok(pkcs7_unpadded(aes256_cbc_decrypt(key, l.header.iv, l.ciphertext)))
    } else {
        Err(CryptoError::UnpadError)
    }
}

/// Whether `p` ends in valid PKCS#7 padding for 16-byte blocks: the last byte
/// `k` lies in 1..=16 and the last `k` bytes all equal `k`.
pub open spec fn pkcs7_valid(p: Seq<u8>) -> bool {
    &&& p.len() > 0
    &&& 1 <= p.last() <= 16
    &&& p.last() <= p.len()
    &&& forall|i: int| p.len() - p.last() <= i < p.len() ==> p[i] == p.last()
}

/// `p` with its PKCS#7 padding removed (meaningful when `pkcs7_valid(p)`).
pub open spec fn pkcs7_unpadded(p: Seq<u8>) -> Seq<u8> {
    p.take(p.len() - p.last())
}

/// Remove the PKCS#7 padding from `data`, or reject it as invalid.
fn pkcs7_unpad(data: Vec<u8>) -> (r: Result<Vec<u8>, CryptoError>)
    ensures
        pkcs7_valid(data@) ==> (r matches Ok(v) && v@ == pkcs7_unpadded(data@)),
        !pkcs7_valid(data@) ==> r == Err::<Vec<u8>, CryptoError>(CryptoError::UnpadError),
{
    let n = data.len();
    if n == 0 {
        return Err(CryptoError::UnpadError);
    }
    let pad = data[n - 1];
    if pad == 0 || pad > 16 || (pad as usize) > n {
        return Err(CryptoError::UnpadError);
    }
    let start = n - (pad as usize);
    let mut i: usize = start;
    while i < n
        invariant
            n == data@.len(),
            n > 0,
            pad == data@.last(),
            1 <= pad <= 16,
            pad <= n,
            start == n - pad,
            start <= i <= n,
            forall|j: int| start <= j < i ==> data@[j] == pad,
        decreases n - i,
    {
        if data[i] != pad {
            return Err(CryptoError::UnpadError);
        }
        i = i + 1;
    }
    let mut out = data;
    out.truncate(start);
    proof {
        assert(out@ =~= pkcs7_unpadded(data@));
    }
    Ok(out)
}

/// Law: validation is deterministic. Its result is a function of the
/// container and the external key alone, so any two calls of `is_hmac_valid`
/// on the same pair — whose contracts are this lemma's premises — return the
/// same result.
pub proof fn lemma_validate_deterministic(
    r1: Result<bool, CryptoError>,
    r2: Result<bool, CryptoError>,
    l: LogV,
    key: Seq<u8>,
)
    requires
        r1 == Ok::<bool, CryptoError>(spec_hmac_valid(l, key)),
        r2 == Ok::<bool, CryptoError>(spec_hmac_valid(l, key)),
    ensures
        r1 == r2,
{
}

/// Law: tampering cannot pass validation short of an HMAC collision. If two
/// well-formed containers share the stored tag and the ciphertext length but
/// differ anywhere in the IV, the key field or the ciphertext — as after any
/// bit flip in those — and both validate under the same external key, then
/// HMAC-SHA256 maps two distinct key/message pairs to the same tag.
pub proof fn lemma_tamper_detected(l1: LogV, l2: LogV, key: Seq<u8>)
    requires
        l1.header.wf(),
        l2.header.wf(),
        l1.ciphertext.len() == l2.ciphertext.len(),
        l1.header.hmac == l2.header.hmac,
        l1 != l2,
        spec_hmac_valid(l1, key),
        spec_hmac_valid(l2, key),
    ensures
        hmac_sha256(spec_hmac_key(l1), spec_hmac_message(l1, key)) == hmac_sha256(
            spec_hmac_key(l2),
            spec_hmac_message(l2, key),
        ),
        spec_hmac_key(l1) != spec_hmac_key(l2) || spec_hmac_message(l1, key) != spec_hmac_message(
            l2,
            key,
        ),
{
    if spec_hmac_key(l1) == spec_hmac_key(l2) && spec_hmac_message(l1, key) == spec_hmac_message(
        l2,
        key,
    ) {
        crate::hexcode::lemma_hex_of_injective(l1.header.key, l2.header.key);
        let a1 = hex_of(l1.header.iv);
        let a2 = hex_of(l2.header.iv);
        let b1 = hex_of(l1.ciphertext);
        let b2 = hex_of(l2.ciphertext);
        let c = hex_of(key);
        assert(a1 =~= (a1 + b1 + c).subrange(0, 32));
        assert(a2 =~= (a2 + b2 + c).subrange(0, 32));
        assert(b1 =~= (a1 + b1 + c).subrange(32, 32 + b1.len() as int));
        assert(b2 =~= (a2 + b2 + c).subrange(32, 32 + b2.len() as int));
        crate::hexcode::lemma_hex_of_injective(l1.header.iv, l2.header.iv);
        crate::hexcode::lemma_hex_of_injective(l1.ciphertext, l2.ciphertext);
        assert(l1.header =~= l2.header);
        assert(l1 =~= l2);
    }
}

/// Law: parsing the raw-byte serialization of a well-formed container with
/// non-empty ciphertext returns that container.
pub proof fn lemma_round_trip_bytes(l: LogV)
    requires
        l.header.wf(),
        l.ciphertext.len() > 0,
    ensures
        spec_parse(spec_serialize(l)) == Some(l),
{
    let b = spec_serialize(l);
    assert(b.subrange(0, 16) =~= l.header.iv);
    assert(b.subrange(16, 32) =~= l.header.key);
    assert(b.subrange(32, 64) =~= l.header.hmac);
    assert(b.subrange(64, b.len() as int) =~= l.ciphertext);
    assert(spec_parse(b).unwrap() =~= l);
}

/// Law: parsing the hex-text serialization of a well-formed container with
/// non-empty ciphertext returns that container.
pub proof fn lemma_round_trip_hex(l: LogV)
    requires
        l.header.wf(),
        l.ciphertext.len() > 0,
    ensures
        spec_parse_hex(spec_serialize_hex(l)) == Some(l),
{
    crate::hexcode::lemma_hex_round_trip(spec_serialize(l));
    lemma_round_trip_bytes(l);
}

} // verus!
