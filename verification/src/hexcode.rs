//! Lowercase hex encoding and decoding of byte strings, as used by the
//! checkpoint records.  The encoding and the decoding themselves are done by
//! the `hex` crate; both calls carry exact specifications, and decoding is
//! proved to invert encoding.

use vstd::prelude::*;

verus! {

/// The bytes the decoder accepts as one hex digit: `0`-`9`, `a`-`f`, `A`-`F`.
pub open spec fn is_hex_digit(c: u8) -> bool {
    (48 <= c && c <= 57) || (97 <= c && c <= 102) || (65 <= c && c <= 70)
}

/// Numeric value of one hex digit.
pub open spec fn hex_digit_value(c: u8) -> u8
    recommends
        is_hex_digit(c),
{
    if 48 <= c && c <= 57 {
        (c - 48) as u8
    } else if 97 <= c && c <= 102 {
        (c - 87) as u8
    } else {
        (c - 55) as u8
    }
}

/// Lowercase hex digit for a nibble value.
pub open spec fn hex_digit_of(v: u8) -> u8
    recommends
        v < 16,
{
    if v < 10 {
        (48 + v) as u8
    } else {
        (87 + v) as u8
    }
}

/// The lowercase hex encoding of a byte string: two digits per byte, high
/// nibble first.
pub open spec fn spec_hex_encode(s: Seq<u8>) -> Seq<u8> {
    Seq::new(
        2 * s.len(),
        |i: int|
            if i % 2 == 0 {
                hex_digit_of(s[i / 2] / 16)
            } else {
                hex_digit_of(s[i / 2] % 16)
            },
    )
}

/// The strings the decoder accepts: an even count of hex digits.
pub open spec fn valid_hex(s: Seq<u8>) -> bool {
    s.len() % 2 == 0 && (forall|i: int| 0 <= i < s.len() ==> is_hex_digit(s[i]))
}

/// The bytes a valid hex string decodes to.
pub open spec fn spec_hex_decode(s: Seq<u8>) -> Seq<u8>
    recommends
        valid_hex(s),
{
    Seq::new(
        s.len() / 2,
        |i: int| (hex_digit_value(s[2 * i]) * 16 + hex_digit_value(s[2 * i + 1])) as u8,
    )
}

/// Relies on `hex::encode`: lowercase hex, two digits per byte, high nibble
/// first.
#[verifier::external_body]
pub(crate) fn hex_encode_bytes(b: &Vec<u8>) -> (r: Vec<u8>)
    ensures
        r@ == spec_hex_encode(b@),
{
    hex::encode(b).into_bytes()
}

/// Relies on `hex::decode`: succeeds exactly on an even count of hex digits
/// (either case) and returns the decoded bytes.
#[verifier::external_body]
pub(crate) fn hex_decode_bytes(b: &Vec<u8>) -> (r: Result<Vec<u8>, ()>)
    ensures
        r is Ok <==> valid_hex(b@),
        r matches Ok(v) ==> v@ == spec_hex_decode(b@),
{
    match hex::decode(b) {
        Ok(v) => Ok(v),
        Err(_) => Err(()),
    }
}

/// An encoding consists of hex digits alone, so it is always a valid hex
/// string.
pub proof fn lemma_hex_encode_valid(s: Seq<u8>)
    ensures
        valid_hex(spec_hex_encode(s)),
{
    let e = spec_hex_encode(s);
    assert forall|i: int| 0 <= i < e.len() implies is_hex_digit(e[i]) by {
        assert(s[i / 2] / 16 < 16);
        assert(s[i / 2] % 16 < 16);
    }
}

/// Decoding gives back exactly the bytes that were encoded.
pub proof fn lemma_hex_round_trip(s: Seq<u8>)
    ensures
        valid_hex(spec_hex_encode(s)),
        spec_hex_decode(spec_hex_encode(s)) == s,
{
    lemma_hex_encode_valid(s);
    let e = spec_hex_encode(s);
    let d = spec_hex_decode(e);
    assert forall|i: int| 0 <= i < s.len() implies d[i] == s[i] by {
        assert(e[2 * i] == hex_digit_of(s[i] / 16));
        assert(e[2 * i + 1] == hex_digit_of(s[i] % 16));
        assert(hex_digit_value(hex_digit_of(s[i] / 16)) == s[i] / 16);
        assert(hex_digit_value(hex_digit_of(s[i] % 16)) == s[i] % 16);
        assert(d[i] == (s[i] / 16) * 16 + s[i] % 16);
    }
    assert(d =~= s);
}

} // verus!
