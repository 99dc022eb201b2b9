//! The fixed-size container header.
//!
//! Sixty-four bytes: a 16-byte AES-CBC initialization vector, a 16-byte
//! HMAC-key field and a stored 32-byte HMAC-SHA256 tag. A header is immutable
//! once parsed; excess input bytes are left to the caller as ciphertext.

use vstd::prelude::*;
use vstd::slice::{slice_subrange, slice_to_vec};

use crate::errors::FormatError;
use crate::hexcode::{decode_hex, hex_decode, hex_decode_ok};

verus! {

/// Mathematical view of a header: its three fields as byte sequences.
#[verifier::ext_equal]
pub ghost struct HeaderV {
    /// AES-CBC initialization vector.
    pub iv: Seq<u8>,
    /// Secret material whose hex text keys the HMAC (not the AES key).
    pub key: Seq<u8>,
    /// Stored HMAC-SHA256 tag, the expected checksum.
    pub hmac: Seq<u8>,
}

impl HeaderV {
    /// A well-formed header holds exactly 16 IV bytes, 16 key-field bytes and
    /// a 32-byte tag.
    pub open spec fn wf(self) -> bool {
        self.iv.len() == 16 && self.key.len() == 16 && self.hmac.len() == 32
    }

    /// The 64-byte serialized layout: IV, then key field, then tag.
    pub open spec fn bytes(self) -> Seq<u8> {
        self.iv + self.key + self.hmac
    }
}

/// Fixed-size header of an encrypted log container.
#[derive(Clone, Debug, PartialEq, Eq)]
pub struct Header {
    iv: Vec<u8>,
    key: Vec<u8>,
    hmac: Vec<u8>,
}

impl View for Header {
    type V = HeaderV;

    closed spec fn view(&self) -> HeaderV {
        HeaderV { iv: self.iv@, key: self.key@, hmac: self.hmac@ }
    }
}

impl Header {
    /// The serialized size of a header in bytes.
    pub fn size() -> (n: usize)
        ensures
            n == 64,
    {
        64
    }

    /// Split the first 64 bytes of `bytes` into the three header fields;
    /// shorter input is a format error. Excess bytes are not consumed.
    pub fn parse(bytes: &[u8]) -> (r: Result<Header, FormatError>)
        ensures
            bytes@.len() >= 64 ==> (r matches Ok(h) && h@.wf() && h@.iv == bytes@.subrange(0, 16)
                && h@.key == bytes@.subrange(16, 32) && h@.hmac == bytes@.subrange(32, 64)),
            bytes@.len() < 64 ==> r == Err::<Header, FormatError>(FormatError::TooShort),
    {
        if bytes.len() < 64 {
            return Err(FormatError::TooShort);
        }
        let iv = slice_to_vec(slice_subrange(bytes, 0, 16));
        let key = slice_to_vec(slice_subrange(bytes, 16, 32));
        let hmac = slice_to_vec(slice_subrange(bytes, 32, 64));
        Ok(Header { iv, key, hmac })
    }

    /// Decode the first 128 hex digits of `text` and split them into the
    /// three header fields; shorter input is too short, and a non-digit among
    /// the first 128 characters is an invalid hex encoding. Excess characters
    /// are not consumed.
    pub fn parse_hex(text: &[u8]) -> (r: Result<Header, FormatError>)
        ensures
            text@.len() >= 128 && hex_decode_ok(text@.subrange(0, 128)) ==> (r matches Ok(h)
                && h@.wf() && h@.bytes() == hex_decode(text@.subrange(0, 128))),
            text@.len() < 128 ==> r == Err::<Header, FormatError>(FormatError::TooShort),
            text@.len() >= 128 && !hex_decode_ok(text@.subrange(0, 128)) ==> r == Err::<
                Header,
                FormatError,
            >(FormatError::InvalidHex),
    {
        if text.len() < 128 {
            return Err(FormatError::TooShort);
        }
        let prefix = slice_subrange(text, 0, 128);
        let bytes = match decode_hex(prefix) {
            Ok(b) => b,
            Err(e) => {
                return Err(e);
            },
        };
        let header = match Header::parse(bytes.as_slice()) {
            Ok(h) => h,
            Err(e) => {
                return Err(e);
            },
        };
        proof {
            assert(header@.bytes() =~= bytes@);
        }
        Ok(header)
    }

    /// Read-only view of the initialization vector.
    pub fn iv(&self) -> (r: &[u8])
        ensures
            r@ == self@.iv,
    {
        self.iv.as_slice()
    }

    /// Read-only view of the HMAC-key field.
    pub fn key(&self) -> (r: &[u8])
        ensures
            r@ == self@.key,
    {
        self.key.as_slice()
    }

    /// Read-only view of the stored HMAC-SHA256 tag.
    pub fn hmac(&self) -> (r: &[u8])
        ensures
            r@ == self@.hmac,
    {
        self.hmac.as_slice()
    }

    /// Serialize the header back into its 64-byte layout.
    pub fn to_bytes(&self) -> (r: Vec<u8>)
        ensures
            r@ == self@.bytes(),
    {
        let mut out: Vec<u8> = Vec::new();
        out.extend_from_slice(self.iv.as_slice());
        out.extend_from_slice(self.key.as_slice());
        out.extend_from_slice(self.hmac.as_slice());
        assert(out@ =~= self@.bytes());
        out
    }
}

} // verus!
