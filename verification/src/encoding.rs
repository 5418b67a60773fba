//! Byte encodings: base64 (through the `base64` crate), big-endian bytes of
//! a 128-bit number, and the random bytes of a nonce.
use vstd::prelude::*;
use base64::Engine;

verus! {

/// The character of the standard base64 alphabet for a six-bit value.
pub open spec fn b64_char(v: int) -> char {
    if v < 26 {
        (65 + v) as char
    } else if v < 52 {
        (97 + v - 26) as char
    } else if v < 62 {
        (48 + v - 52) as char
    } else if v == 62 {
        '+'
    } else {
        '/'
    }
}

/// Base64 with the standard alphabet (RFC 4648), every three bytes giving
/// four characters; a final one or two bytes give two or three characters,
/// followed by `=` signs to a multiple of four when `padded`.
pub open spec fn base64_text(bytes: Seq<u8>, padded: bool) -> Seq<char>
    decreases bytes.len(),
{
    if bytes.len() == 0 {
        Seq::empty()
    } else if bytes.len() == 1 {
        let b0 = bytes[0] as int;
        seq![b64_char(b0 / 4), b64_char((b0 % 4) * 16)]
            + (if padded { seq!['=', '='] } else { Seq::empty() })
    } else if bytes.len() == 2 {
        let b0 = bytes[0] as int;
        let b1 = bytes[1] as int;
        seq![b64_char(b0 / 4), b64_char((b0 % 4) * 16 + b1 / 16), b64_char((b1 % 16) * 4)]
            + (if padded { seq!['='] } else { Seq::empty() })
    } else {
        let b0 = bytes[0] as int;
        let b1 = bytes[1] as int;
        let b2 = bytes[2] as int;
        seq![b64_char(b0 / 4), b64_char((b0 % 4) * 16 + b1 / 16), b64_char((b1 % 16) * 4 + b2 / 64), b64_char(b2 % 64)]
            + base64_text(bytes.skip(3), padded)
    }
}

/// Base64-encodes bytes with `Engine::encode` of the `base64` crate's
/// `STANDARD` engine. Trusted: the contract claims the standard RFC 4648
/// encoding with padding, as that engine is configured; the bound on the
/// length keeps the crate's computation of the output size from overflowing.
#[verifier::external_body]
fn base64_standard(bytes: &[u8]) -> (res: String)
    requires
        bytes@.len() <= usize::MAX / 2,
    ensures
        res@ == base64_text(bytes@, true),
{
    base64::engine::general_purpose::STANDARD.encode(bytes)
}

/// Base64-encodes bytes with `Engine::encode` of the `base64` crate's
/// `STANDARD_NO_PAD` engine. Trusted: the contract claims the standard
/// RFC 4648 encoding without padding, as that engine is configured; the
/// bound on the length keeps the crate's computation of the output size
/// from overflowing.
#[verifier::external_body]
fn base64_standard_no_pad(bytes: &[u8]) -> (res: String)
    requires
        bytes@.len() <= usize::MAX / 2,
    ensures
        res@ == base64_text(bytes@, false),
{
    base64::engine::general_purpose::STANDARD_NO_PAD.encode(bytes)
}

/// Base64 of bytes with the standard alphabet, padded with `=` or not.
pub fn base64_encode(bytes: &[u8], padded: bool) -> (res: String)
    requires
        bytes@.len() <= usize::MAX / 2,
    ensures
        res@ == base64_text(bytes@, padded),
{
    if padded {
        base64_standard(bytes)
    } else {
        base64_standard_no_pad(bytes)
    }
}

/// The big-endian bytes of a 128-bit number, as `u128::to_be_bytes` gives them.
pub open spec fn be_bytes(x: u128) -> Seq<u8> {
    Seq::new(16, |i: int| ((x >> ((15 - i) * 8) as u128) as u8))
}

/// The sixteen big-endian bytes of a 128-bit number.
pub fn to_be_bytes(x: u128) -> (res: Vec<u8>)
    ensures
        res@ == be_bytes(x),
{
    let mut res: Vec<u8> = Vec::new();
    let mut i: u32 = 0;
    while i < 16
        invariant
            i <= 16,
            res@.len() == i,
            forall|j: int| 0 <= j < i ==> res@[j] == ((x >> ((15 - j) * 8) as u128) as u8),
        decreases 16 - i,
    {
        let shift: u128 = ((15 - i) * 8) as u128;
        res.push((x >> shift) as u8);
        i = i + 1;
    }
    assert(res@ =~= be_bytes(x));
    res
}

/// Sixteen bytes from the operating system's random source (`OsRng` of
/// `rand`, `RngCore::fill_bytes`). Trusted: nothing is claimed of the
/// bytes but their number.
#[verifier::external_body]
pub fn random_16_bytes() -> (res: Vec<u8>)
    ensures
        res@.len() == 16,
{
    let mut bytes = [0u8; 16];
    rand::RngCore::fill_bytes(&mut rand::rngs::OsRng, &mut bytes);
    bytes.to_vec()
}

/// A fresh nonce for the inline-style policy of a page: sixteen random
/// bytes, base64-encoded with padding.
pub fn nonce() -> (res: String)
    ensures
        exists|bytes: Seq<u8>| bytes.len() == 16 && res@ == base64_text(bytes, true),
{
    let bytes = random_16_bytes();
    base64_encode(bytes.as_slice(), true)
}

} // verus!
