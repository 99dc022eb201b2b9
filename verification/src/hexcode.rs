//! Hexadecimal text form of byte sequences.
//!
//! The container's text form renders each byte as two lowercase hex digits,
//! concatenated without separators; decoding accepts both cases.

use vstd::prelude::*;

use crate::errors::FormatError;

verus! {

/// The ASCII byte of the lowercase hex digit with value `n`.
pub open spec fn nibble_char(n: int) -> u8 {
    if n < 10 {
        (48 + n) as u8
    } else {
        (87 + n) as u8
    }
}

/// Whether `b` is the ASCII byte of a hex digit, either case.
pub open spec fn is_hex_digit(b: u8) -> bool {
    (48 <= b <= 57) || (97 <= b <= 102) || (65 <= b <= 70)
}

/// The value of the hex digit whose ASCII byte is `b`.
pub open spec fn nibble_val(b: u8) -> int {
    if 48 <= b <= 57 {
        b - 48
    } else if 97 <= b <= 102 {
        b - 87
    } else if 65 <= b <= 70 {
        b - 55
    } else {
        0
    }
}

/// The lowercase hex encoding of `bs`: two digits per byte, high nibble first.
pub open spec fn hex_of(bs: Seq<u8>) -> Seq<u8> {
    Seq::new(
        bs.len() * 2,
        |i: int|
            if i % 2 == 0 {
                nibble_char(bs[i / 2] as int / 16)
            } else {
                nibble_char(bs[i / 2] as int % 16)
            },
    )
}

/// Whether `s` is a well-formed hex encoding: even length, hex digits only.
pub open spec fn hex_decode_ok(s: Seq<u8>) -> bool {
    s.len() % 2 == 0 && (forall|i: int| 0 <= i < s.len() ==> is_hex_digit(#[trigger] s[i]))
}

/// The bytes encoded by the hex text `s` (meaningful when `hex_decode_ok(s)`).
pub open spec fn hex_decode(s: Seq<u8>) -> Seq<u8> {
    Seq::new(s.len() / 2, |i: int| (nibble_val(s[2 * i]) * 16 + nibble_val(s[2 * i + 1])) as u8)
}

/// The ASCII byte of the lowercase hex digit with value `n`.
fn nibble_to_char(n: u8) -> (c: u8)
    requires
        n < 16,
    ensures
        c == nibble_char(n as int),
{
    if n < 10 {
        48 + n
    } else {
        87 + n
    }
}

/// The value of the hex digit `b`, or `None` if `b` is no hex digit.
fn nibble_of_char(b: u8) -> (r: Option<u8>)
    ensures
        match r {
            Some(v) => is_hex_digit(b) && v as int == nibble_val(b) && v < 16,
            None => !is_hex_digit(b),
        },
{
    if 48 <= b && b <= 57 {
        Some(b - 48)
    } else if 97 <= b && b <= 102 {
        Some(b - 87)
    } else if 65 <= b && b <= 70 {
        Some(b - 55)
    } else {
        None
    }
}

/// Encode `bytes` as lowercase hexadecimal text.
pub fn encode_hex(bytes: &[u8]) -> (r: Vec<u8>)
    ensures
        r@ == hex_of(bytes@),
{
    let n = bytes.len();
    let mut out: Vec<u8> = Vec::new();
    for i in 0..n
        invariant
            n == bytes@.len(),
            out@.len() == 2 * i,
            forall|j: int| 0 <= j < out@.len() ==> out@[j] == hex_of(bytes@)[j],
    {
        let b = bytes[i];
        out.push(nibble_to_char(b / 16));
        out.push(nibble_to_char(b % 16));
    }
    assert(out@ =~= hex_of(bytes@));
    out
}

/// Decode hexadecimal text into bytes; either digit case is accepted.
pub fn decode_hex(s: &[u8]) -> (r: Result<Vec<u8>, FormatError>)
    ensures
        hex_decode_ok(s@) ==> (r matches Ok(v) && v@ == hex_decode(s@)),
        !hex_decode_ok(s@) ==> r == Err::<Vec<u8>, FormatError>(FormatError::InvalidHex),
{
    let n = s.len();
    if n % 2 != 0 {
        return Err(FormatError::InvalidHex);
    }
    let mut out: Vec<u8> = Vec::with_capacity(n / 2);
    let mut i: usize = 0;
    while i < n
        invariant
            n == s@.len(),
            n % 2 == 0,
            i % 2 == 0,
            i <= n,
            out@.len() == i / 2,
            forall|j: int| 0 <= j < i ==> is_hex_digit(#[trigger] s@[j]),
            forall|j: int| 0 <= j < out@.len() ==> out@[j] == hex_decode(s@)[j],
        decreases n - i,
    {
        let hi = match nibble_of_char(s[i]) {
            Some(v) => v,
            None => {
                return Err(FormatError::InvalidHex);
            },
        };
        let lo = match nibble_of_char(s[i + 1]) {
            Some(v) => v,
            None => {
                return Err(FormatError::InvalidHex);
            },
        };
        out.push(hi * 16 + lo);
        i = i + 2;
    }
    assert(hex_decode_ok(s@));
    assert(out@ =~= hex_decode(s@));
    Ok(out)
}

/// Law: decoding inverts encoding, so the hex text form loses nothing.
pub proof fn lemma_hex_round_trip(bs: Seq<u8>)
    ensures
        hex_decode_ok(hex_of(bs)),
        hex_decode(hex_of(bs)) == bs,
{
    assert forall|i: int| 0 <= i < hex_of(bs).len() implies is_hex_digit(#[trigger] hex_of(bs)[i]) by {
        let v = bs[i / 2] as int;
        assert(0 <= v / 16 < 16);
        assert(0 <= v % 16 < 16);
    }
    assert forall|i: int| 0 <= i < bs.len() implies hex_decode(hex_of(bs))[i] == bs[i] by {
        let v = bs[i] as int;
        assert(hex_of(bs)[2 * i] == nibble_char(v / 16));
        assert(hex_of(bs)[2 * i + 1] == nibble_char(v % 16));
        assert(nibble_val(nibble_char(v / 16)) == v / 16);
        assert(nibble_val(nibble_char(v % 16)) == v % 16);
        assert((v / 16) * 16 + v % 16 == v);
    }
    assert(hex_decode(hex_of(bs)) =~= bs);
}

/// Law: the hex text form is injective — distinct byte sequences never share it.
pub proof fn lemma_hex_of_injective(a: Seq<u8>, b: Seq<u8>)
    requires
        hex_of(a) == hex_of(b),
    ensures
        a == b,
{
    lemma_hex_round_trip(a);
    lemma_hex_round_trip(b);
}

} // verus!
