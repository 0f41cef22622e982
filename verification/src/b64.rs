//! Base64url (RFC 4648 section 5, unpadded) as the token codec uses it.
//!
//! The encoding and the decoding themselves are outside calls; this module
//! states their exact behaviour as spec functions and proves the facts the
//! token codec needs: the output stays inside the base64url alphabet, its
//! length is never 1 modulo 4, and decoding an encoding gives the input back.

use vstd::prelude::*;

verus! {

/// A byte of the base64url alphabet: `A-Z a-z 0-9 - _`.
pub open spec fn is_b64u_byte(c: u8) -> bool {
    (0x41 <= c <= 0x5a) || (0x61 <= c <= 0x7a) || (0x30 <= c <= 0x39) || c == 0x2d || c == 0x5f
}

/// The alphabet byte standing for a six-bit value.
pub open spec fn b64u_byte_of(v: u8) -> u8 {
    if v < 26 {
        (0x41 + v) as u8
    } else if v < 52 {
        (0x61 + (v - 26)) as u8
    } else if v < 62 {
        (0x30 + (v - 52)) as u8
    } else if v == 62 {
        0x2d
    } else {
        0x5f
    }
}

/// The six-bit value of an alphabet byte (meaningful under `is_b64u_byte`).
pub open spec fn b64u_value_of(c: u8) -> u8 {
    if 0x41 <= c <= 0x5a {
        (c - 0x41) as u8
    } else if 0x61 <= c <= 0x7a {
        (c - 0x61 + 26) as u8
    } else if 0x30 <= c <= 0x39 {
        (c - 0x30 + 52) as u8
    } else if c == 0x2d {
        62
    } else {
        63
    }
}

/// Base64url without padding: three input bytes become four alphabet
/// bytes; a tail of one or two bytes becomes two or three.
pub open spec fn spec_b64u_encode(s: Seq<u8>) -> Seq<u8>
    decreases s.len(),
{
    if s.len() == 0 {
        Seq::empty()
    } else if s.len() == 1 {
        let b0 = s[0];
        seq![b64u_byte_of(b0 >> 2), b64u_byte_of((b0 & 3) << 4)]
    } else if s.len() == 2 {
        let b0 = s[0];
        let b1 = s[1];
        seq![
            b64u_byte_of(b0 >> 2),
            b64u_byte_of((b0 & 3) << 4 | b1 >> 4),
            b64u_byte_of((b1 & 15) << 2),
        ]
    } else {
        let b0 = s[0];
        let b1 = s[1];
        let b2 = s[2];
        seq![
            b64u_byte_of(b0 >> 2),
            b64u_byte_of((b0 & 3) << 4 | b1 >> 4),
            b64u_byte_of((b1 & 15) << 2 | b2 >> 6),
            b64u_byte_of(b2 & 63),
        ] + spec_b64u_encode(s.skip(3))
    }
}

/// Base64url text that the decoder accepts: alphabet bytes only, and a
/// length that is not 1 modulo 4.
pub open spec fn b64u_text(s: Seq<u8>) -> bool {
    (forall|i: int| 0 <= i < s.len() ==> is_b64u_byte(s[i])) && s.len() % 4 != 1
}

/// The decoding: four alphabet bytes give three output bytes; a tail of
/// two or three gives one or two, spare low bits dropped.
pub open spec fn spec_b64u_decode(s: Seq<u8>) -> Seq<u8>
    decreases s.len(),
{
    if s.len() < 2 {
        Seq::empty()
    } else if s.len() == 2 {
        let v0 = b64u_value_of(s[0]);
        let v1 = b64u_value_of(s[1]);
        seq![v0 << 2 | v1 >> 4]
    } else if s.len() == 3 {
        let v0 = b64u_value_of(s[0]);
        let v1 = b64u_value_of(s[1]);
        let v2 = b64u_value_of(s[2]);
        seq![v0 << 2 | v1 >> 4, (v1 & 15) << 4 | v2 >> 2]
    } else {
        let v0 = b64u_value_of(s[0]);
        let v1 = b64u_value_of(s[1]);
        let v2 = b64u_value_of(s[2]);
        let v3 = b64u_value_of(s[3]);
        seq![v0 << 2 | v1 >> 4, (v1 & 15) << 4 | v2 >> 2, (v2 & 3) << 6 | v3]
            + spec_b64u_decode(s.skip(4))
    }
}

/// Encoding a six-bit value lands in the alphabet and decodes back to it.
proof fn lemma_byte_of_value(v: u8)
    requires
        v < 64,
    ensures
        is_b64u_byte(b64u_byte_of(v)),
        b64u_value_of(b64u_byte_of(v)) == v,
{
}

/// Every byte of an encoding is an alphabet byte, and the length of an
/// encoding is never 1 modulo 4; together: an encoding is `b64u_text`.
pub proof fn lemma_encode_is_b64u_text(s: Seq<u8>)
    ensures
        b64u_text(spec_b64u_encode(s)),
        spec_b64u_encode(s).len() == 4 * (s.len() / 3) + (if s.len() % 3 == 0 {
            0int
        } else {
            s.len() % 3 + 1int
        }),
    decreases s.len(),
{
    if s.len() == 0 {
    } else if s.len() == 1 {
        let b0 = s[0];
        assert(b0 >> 2 < 64 && (b0 & 3) << 4 < 64) by (bit_vector);
        lemma_byte_of_value(b0 >> 2);
        lemma_byte_of_value((b0 & 3) << 4);
    } else if s.len() == 2 {
        let b0 = s[0];
        let b1 = s[1];
        assert(b0 >> 2 < 64 && (b0 & 3) << 4 | b1 >> 4 < 64 && (b1 & 15) << 2 < 64)
            by (bit_vector);
        lemma_byte_of_value(b0 >> 2);
        lemma_byte_of_value((b0 & 3) << 4 | b1 >> 4);
        lemma_byte_of_value((b1 & 15) << 2);
    } else {
        let b0 = s[0];
        let b1 = s[1];
        let b2 = s[2];
        assert(b0 >> 2 < 64 && (b0 & 3) << 4 | b1 >> 4 < 64 && (b1 & 15) << 2 | b2 >> 6 < 64
            && b2 & 63 < 64) by (bit_vector);
        lemma_byte_of_value(b0 >> 2);
        lemma_byte_of_value((b0 & 3) << 4 | b1 >> 4);
        lemma_byte_of_value((b1 & 15) << 2 | b2 >> 6);
        lemma_byte_of_value(b2 & 63);
        lemma_encode_is_b64u_text(s.skip(3));
    }
}

/// Decoding inverts encoding.
pub proof fn lemma_decode_of_encode(s: Seq<u8>)
    ensures
        spec_b64u_decode(spec_b64u_encode(s)) == s,
    decreases s.len(),
{
    if s.len() == 0 {
        assert(spec_b64u_decode(spec_b64u_encode(s)) =~= s);
    } else if s.len() == 1 {
        let b0 = s[0];
        assert(b0 >> 2 < 64 && (b0 & 3) << 4 < 64) by (bit_vector);
        lemma_byte_of_value(b0 >> 2);
        lemma_byte_of_value((b0 & 3) << 4);
        assert((b0 >> 2) << 2 | ((b0 & 3) << 4) >> 4 == b0) by (bit_vector);
        assert(spec_b64u_decode(spec_b64u_encode(s)) =~= s);
    } else if s.len() == 2 {
        let b0 = s[0];
        let b1 = s[1];
        assert(b0 >> 2 < 64 && (b0 & 3) << 4 | b1 >> 4 < 64 && (b1 & 15) << 2 < 64)
            by (bit_vector);
        lemma_byte_of_value(b0 >> 2);
        lemma_byte_of_value((b0 & 3) << 4 | b1 >> 4);
        lemma_byte_of_value((b1 & 15) << 2);
        assert((b0 >> 2) << 2 | ((b0 & 3) << 4 | b1 >> 4) >> 4 == b0) by (bit_vector);
        assert((((b0 & 3) << 4 | b1 >> 4) & 15) << 4 | ((b1 & 15) << 2) >> 2 == b1)
            by (bit_vector);
        assert(spec_b64u_decode(spec_b64u_encode(s)) =~= s);
    } else {
        let b0 = s[0];
        let b1 = s[1];
        let b2 = s[2];
        assert(b0 >> 2 < 64 && (b0 & 3) << 4 | b1 >> 4 < 64 && (b1 & 15) << 2 | b2 >> 6 < 64
            && b2 & 63 < 64) by (bit_vector);
        lemma_byte_of_value(b0 >> 2);
        lemma_byte_of_value((b0 & 3) << 4 | b1 >> 4);
        lemma_byte_of_value((b1 & 15) << 2 | b2 >> 6);
        lemma_byte_of_value(b2 & 63);
        assert((b0 >> 2) << 2 | ((b0 & 3) << 4 | b1 >> 4) >> 4 == b0) by (bit_vector);
        assert((((b0 & 3) << 4 | b1 >> 4) & 15) << 4 | (((b1 & 15) << 2 | b2 >> 6)) >> 2 == b1)
            by (bit_vector);
        assert(((((b1 & 15) << 2 | b2 >> 6)) & 3) << 6 | (b2 & 63) == b2) by (bit_vector);
        lemma_decode_of_encode(s.skip(3));
        lemma_encode_is_b64u_text(s.skip(3));
        let e = spec_b64u_encode(s);
        let tail = spec_b64u_encode(s.skip(3));
        assert(e.skip(4) =~= tail);
        assert(spec_b64u_decode(e) =~= seq![s[0], s[1], s[2]] + spec_b64u_decode(tail));
        assert(spec_b64u_decode(spec_b64u_encode(s)) =~= s);
    }
}

/// Encoding is injective: two inputs with one encoding are one input.
pub proof fn lemma_encode_injective(a: Seq<u8>, b: Seq<u8>)
    requires
        spec_b64u_encode(a) == spec_b64u_encode(b),
    ensures
        a == b,
{
    lemma_decode_of_encode(a);
    lemma_decode_of_encode(b);
}

/// Runtime check for `b64u_text`.
pub fn is_b64u_text(s: &[u8]) -> (r: bool)
    ensures
        r <==> b64u_text(s@),
{
    if s.len() % 4 == 1 {
        return false;
    }
    let mut i: usize = 0;
    while i < s.len()
        invariant
            0 <= i <= s@.len(),
            s@.len() % 4 != 1,
            forall|j: int| 0 <= j < i ==> is_b64u_byte(s@[j]),
        decreases s@.len() - i,
    {
        let c = s[i];
        let ok = (0x41 <= c && c <= 0x5a) || (0x61 <= c && c <= 0x7a) || (0x30 <= c && c <= 0x39)
            || c == 0x2d || c == 0x5f;
        if !ok {
            assert(!is_b64u_byte(s@[i as int]));
            return false;
        }
        i += 1;
    }
    true
}

/// Relies on `rustc_serialize::base64::ToBase64` for `[u8]` with the
/// `URL_SAFE` configuration: base64url alphabet, no padding, no line
/// breaks — three input bytes per four output bytes, a tail of one or two
/// input bytes giving two or three, exactly `spec_b64u_encode`.
#[verifier::external_body]
pub(crate) fn b64u_encode(data: &[u8]) -> (r: Vec<u8>)
    ensures
        r@ == spec_b64u_encode(data@),
{
    rustc_serialize::base64::ToBase64::to_base64(data, rustc_serialize::base64::URL_SAFE)
        .into_bytes()
}

/// Relies on `rustc_serialize::base64::FromBase64` for `[u8]`: on input
/// made of base64url alphabet bytes whose length is not 1 modulo 4, it
/// takes six bits per byte, emits three bytes per group of four, one or
/// two bytes for a tail of two or three, spare low bits dropped — exactly
/// `spec_b64u_decode` — and no error is possible.
#[verifier::external_body]
pub(crate) fn b64u_decode(data: &[u8]) -> (r: Vec<u8>)
    requires
        b64u_text(data@),
    ensures
        r@ == spec_b64u_decode(data@),
{
    match rustc_serialize::base64::FromBase64::from_base64(data) {
        Ok(v) => v,
        Err(_) => Vec::new(),
    }
}

} // verus!
