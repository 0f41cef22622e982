//! The token codec: compact signed bearer tokens carrying one claim, the
//! subject.
//!
//! A token is `b64u(header) "." b64u(claims) "." b64u(tag)`, where the
//! header is the fixed JSON text naming the algorithm, the claims are the
//! JSON object `{"sub":"<email>"}`, and the tag is HMAC-SHA-256 of the
//! first two parts under the shared secret. `verify` splits a presented
//! token at its dots, recomputes the tag over the first two parts, and
//! admits the token only when the recomputed signature part agrees;
//! it then returns the subject.

use vstd::prelude::*;
use vstd::slice::slice_subrange;
use vstd::slice::slice_to_vec;

use crate::b64::b64u_decode;
use crate::b64::b64u_encode;
use crate::b64::b64u_text;
use crate::b64::is_b64u_text;
use crate::b64::is_b64u_byte;
use crate::b64::lemma_decode_of_encode;
use crate::b64::lemma_encode_injective;
use crate::b64::lemma_encode_is_b64u_text;
use crate::b64::spec_b64u_decode;
use crate::b64::spec_b64u_encode;
use crate::sign::hmac_sha256;
use crate::sign::hmac_sha256_of;
use crate::util::bytes_eq;
use crate::util::find_byte;
use crate::util::is_plain_text;
use crate::util::lemma_find_is;
use crate::util::lemma_find_none;
use crate::util::lemma_find_props;
use crate::util::plain_text;
use crate::util::spec_find;

verus! {

broadcast use vstd::slice::group_slice_axioms;

/// The separator of the three token parts.
pub const DOT: u8 = 0x2e;

/// The fixed token header: the JSON text `{"alg":"HS256","typ":"JWT"}`.
pub open spec fn header_json() -> Seq<u8> {
    seq![
        0x7bu8, 0x22, 0x61, 0x6c, 0x67, 0x22, 0x3a, 0x22, 0x48, 0x53, 0x32, 0x35, 0x36, 0x22,
        0x2c, 0x22, 0x74, 0x79, 0x70, 0x22, 0x3a, 0x22, 0x4a, 0x57, 0x54, 0x22, 0x7d,
    ]
}

/// The opening of the claim set: the JSON text `{"sub":"`.
pub open spec fn claims_prefix() -> Seq<u8> {
    seq![0x7bu8, 0x22, 0x73, 0x75, 0x62, 0x22, 0x3a, 0x22]
}

/// The closing of the claim set: the JSON text `"}`.
pub open spec fn claims_suffix() -> Seq<u8> {
    seq![0x22u8, 0x7d]
}

/// The claim set carrying one subject: `{"sub":"<email>"}`.
pub open spec fn claims_json(email: Seq<u8>) -> Seq<u8> {
    claims_prefix() + email + claims_suffix()
}

/// The two encoded parts that are signed: `b64u(header) "." b64u(claims)`.
pub open spec fn spec_signing_input(email: Seq<u8>) -> Seq<u8> {
    spec_b64u_encode(header_json()) + seq![DOT] + spec_b64u_encode(claims_json(email))
}

/// The full token issued for a subject under a secret.
pub open spec fn spec_issue(secret: Seq<u8>, email: Seq<u8>) -> Seq<u8> {
    spec_signing_input(email) + seq![DOT] + spec_b64u_encode(
        hmac_sha256_of(secret, spec_signing_input(email)),
    )
}

/// Reading a subject back out of a decoded claim set: the text must be
/// exactly `{"sub":"<subject>"}` with a subject that needs no escaping.
pub open spec fn spec_parse_claims(c: Seq<u8>) -> Option<Seq<u8>> {
    if c.len() >= 10 && c.subrange(0, 8) == claims_prefix() && c.subrange(
        c.len() - 2,
        c.len() as int,
    ) == claims_suffix() && plain_text(c.subrange(8, c.len() - 2)) {
        Some(c.subrange(8, c.len() - 2))
    } else {
        None
    }
}

/// What verification returns for a presented token: the subject when the
/// token splits into three parts at its first two dots, the third part
/// equals the encoded tag recomputed over the first two under `secret`,
/// and the claims decode to a well-formed claim set; nothing otherwise.
pub open spec fn spec_verify(secret: Seq<u8>, token: Seq<u8>) -> Option<Seq<u8>> {
    match spec_find(token, DOT) {
        None => None,
        Some(i) => {
            let rest = token.skip(i + 1);
            match spec_find(rest, DOT) {
                None => None,
                Some(j) => {
                    let signing_input = token.take(i + 1 + j);
                    let claims_b64 = rest.take(j);
                    let sig = rest.skip(j + 1);
                    if spec_find(sig, DOT) is Some {
                        None
                    } else if sig != spec_b64u_encode(hmac_sha256_of(secret, signing_input)) {
                        None
                    } else if !b64u_text(claims_b64) {
                        None
                    } else {
                        spec_parse_claims(spec_b64u_decode(claims_b64))
                    }
                },
            }
        },
    }
}

/// The fixed header as bytes.
fn header_json_vec() -> (v: Vec<u8>)
    ensures
        v@ == header_json(),
{
    let mut v: Vec<u8> = Vec::new();
    v.push(0x7b);
    v.push(0x22);
    v.push(0x61);
    v.push(0x6c);
    v.push(0x67);
    v.push(0x22);
    v.push(0x3a);
    v.push(0x22);
    v.push(0x48);
    v.push(0x53);
    v.push(0x32);
    v.push(0x35);
    v.push(0x36);
    v.push(0x22);
    v.push(0x2c);
    v.push(0x22);
    v.push(0x74);
    v.push(0x79);
    v.push(0x70);
    v.push(0x22);
    v.push(0x3a);
    v.push(0x22);
    v.push(0x4a);
    v.push(0x57);
    v.push(0x54);
    v.push(0x22);
    v.push(0x7d);
    proof {
        assert(v@ =~= header_json());
    }
    v
}

/// The claim set for a subject, as bytes.
fn claims_json_vec(email: &[u8]) -> (v: Vec<u8>)
    ensures
        v@ == claims_json(email@),
{
    let mut v: Vec<u8> = Vec::new();
    v.push(0x7b);
    v.push(0x22);
    v.push(0x73);
    v.push(0x75);
    v.push(0x62);
    v.push(0x22);
    v.push(0x3a);
    v.push(0x22);
    v.extend_from_slice(email);
    v.push(0x22);
    v.push(0x7d);
    proof {
        assert(v@ =~= claims_json(email@));
    }
    v
}

/// Issue a token for a subject under a secret.
///
/// The subject must be text that can stand in a JSON string unescaped;
/// `crate::util::is_plain_text` checks this at runtime.
pub fn issue(email: &[u8], secret: &[u8]) -> (r: Vec<u8>)
    requires
        plain_text(email@),
    ensures
        r@ == spec_issue(secret@, email@),
{
    let header = header_json_vec();
    let claims = claims_json_vec(email);
    let eh = b64u_encode(header.as_slice());
    let ec = b64u_encode(claims.as_slice());
    let mut token: Vec<u8> = Vec::new();
    token.extend_from_slice(eh.as_slice());
    token.push(DOT);
    token.extend_from_slice(ec.as_slice());
    proof {
        assert(token@ =~= spec_signing_input(email@));
    }
    let tag = hmac_sha256(secret, token.as_slice());
    let es = b64u_encode(tag.as_slice());
    token.push(DOT);
    token.extend_from_slice(es.as_slice());
    proof {
        assert(token@ =~= spec_issue(secret@, email@));
    }
    token
}

/// Read a subject back out of a decoded claim set.
fn parse_claims(c: &[u8]) -> (r: Option<Vec<u8>>)
    ensures
        match r {
            Some(v) => spec_parse_claims(c@) == Some(v@),
            None => spec_parse_claims(c@) is None,
        },
{
    if c.len() < 10 {
        return None;
    }
    let prefix = slice_subrange(c, 0, 8);
    let mut expected_prefix: Vec<u8> = Vec::new();
    expected_prefix.push(0x7b);
    expected_prefix.push(0x22);
    expected_prefix.push(0x73);
    expected_prefix.push(0x75);
    expected_prefix.push(0x62);
    expected_prefix.push(0x22);
    expected_prefix.push(0x3a);
    expected_prefix.push(0x22);
    proof {
        assert(expected_prefix@ =~= claims_prefix());
    }
    if !bytes_eq(prefix, expected_prefix.as_slice()) {
        return None;
    }
    let suffix = slice_subrange(c, c.len() - 2, c.len());
    let mut expected_suffix: Vec<u8> = Vec::new();
    expected_suffix.push(0x22);
    expected_suffix.push(0x7d);
    proof {
        assert(expected_suffix@ =~= claims_suffix());
    }
    if !bytes_eq(suffix, expected_suffix.as_slice()) {
        return None;
    }
    let middle = slice_subrange(c, 8, c.len() - 2);
    if !is_plain_text(middle) {
        return None;
    }
    Some(slice_to_vec(middle))
}

/// Verify a presented token against a secret and return its subject.
pub fn verify(token: &[u8], secret: &[u8]) -> (r: Option<Vec<u8>>)
    ensures
        match r {
            Some(v) => spec_verify(secret@, token@) == Some(v@),
            None => spec_verify(secret@, token@) is None,
        },
{
    let n = token.len();
    let i = match find_byte(token, DOT) {
        Some(i) => i,
        None => {
            return None;
        },
    };
    proof {
        lemma_find_props(token@, DOT);
    }
    let rest = slice_subrange(token, i + 1, n);
    proof {
        assert(rest@ =~= token@.skip(i + 1));
    }
    let m = rest.len();
    let j = match find_byte(rest, DOT) {
        Some(j) => j,
        None => {
            return None;
        },
    };
    proof {
        lemma_find_props(rest@, DOT);
    }
    let sig = slice_subrange(rest, j + 1, m);
    proof {
        assert(sig@ =~= rest@.skip(j + 1));
    }
    match find_byte(sig, DOT) {
        Some(_) => {
            return None;
        },
        None => {},
    }
    let signing_input = slice_subrange(token, 0, i + 1 + j);
    proof {
        assert(signing_input@ =~= token@.take(i + 1 + j));
    }
    let tag = hmac_sha256(secret, signing_input);
    let expected = b64u_encode(tag.as_slice());
    if !bytes_eq(expected.as_slice(), sig) {
        return None;
    }
    let claims_b64 = slice_subrange(rest, 0, j);
    proof {
        assert(claims_b64@ =~= rest@.take(j as int));
    }
    if !is_b64u_text(claims_b64) {
        return None;
    }
    let decoded = b64u_decode(claims_b64);
    parse_claims(decoded.as_slice())
}

/// An issued token splits at its first two dots into the three parts it
/// was assembled from.
proof fn lemma_issued_token_split(secret: Seq<u8>, email: Seq<u8>)
    ensures
        ({
            let eh = spec_b64u_encode(header_json());
            let ec = spec_b64u_encode(claims_json(email));
            let es = spec_b64u_encode(hmac_sha256_of(secret, spec_signing_input(email)));
            let token = spec_issue(secret, email);
            spec_find(token, DOT) == Some(eh.len() as int) && token.skip(eh.len() + 1int) =~= ec
                + seq![DOT] + es && spec_find(ec + seq![DOT] + es, DOT) == Some(ec.len() as int)
                && (ec + seq![DOT] + es).skip(ec.len() + 1int) =~= es && (ec + seq![DOT] + es).take(
                ec.len() as int,
            ) =~= ec && spec_find(es, DOT) is None && token.take(
                eh.len() + 1int + ec.len(),
            ) =~= spec_signing_input(email)
        }),
{
    let eh = spec_b64u_encode(header_json());
    let ec = spec_b64u_encode(claims_json(email));
    let tag = hmac_sha256_of(secret, spec_signing_input(email));
    let es = spec_b64u_encode(tag);
    let token = spec_issue(secret, email);
    lemma_encode_is_b64u_text(header_json());
    lemma_encode_is_b64u_text(claims_json(email));
    lemma_encode_is_b64u_text(tag);
    assert(token =~= eh + seq![DOT] + ec + seq![DOT] + es);
    assert(!is_b64u_byte(DOT));
    assert(forall|k: int| 0 <= k < eh.len() ==> token[k] == eh[k]);
    lemma_find_is(token, DOT, eh.len() as int);
    let rest = ec + seq![DOT] + es;
    assert(token.skip(eh.len() + 1int) =~= rest);
    lemma_find_is(rest, DOT, ec.len() as int);
    assert(rest.skip(ec.len() + 1int) =~= es);
    assert(rest.take(ec.len() as int) =~= ec);
    lemma_find_none(es, DOT);
    assert(token.take(eh.len() + 1int + ec.len()) =~= spec_signing_input(email));
}

/// The claim set built for a plain subject parses back to that subject.
proof fn lemma_parse_of_claims(email: Seq<u8>)
    requires
        plain_text(email),
    ensures
        spec_parse_claims(claims_json(email)) == Some(email),
{
    let c = claims_json(email);
    assert(c.subrange(0, 8) =~= claims_prefix());
    assert(c.subrange(c.len() - 2, c.len() as int) =~= claims_suffix());
    assert(c.subrange(8, c.len() - 2) =~= email);
}

/// Verifying an issued token under the secret it was issued with
/// succeeds and recovers the subject it was issued for.
pub proof fn lemma_verify_of_issued(secret: Seq<u8>, email: Seq<u8>)
    requires
        plain_text(email),
    ensures
        spec_verify(secret, spec_issue(secret, email)) == Some(email),
{
    let token = spec_issue(secret, email);
    lemma_issued_token_split(secret, email);
    lemma_encode_is_b64u_text(claims_json(email));
    lemma_decode_of_encode(claims_json(email));
    lemma_parse_of_claims(email);
}

/// Verifying a token under any secret whose tag over the token's signed
/// part differs from the issuing secret's tag fails. (Two secrets whose
/// HMAC-SHA-256 tags over this input collide are left out: for them no
/// verifier keyed only on the tag could tell the tokens apart.)
pub proof fn lemma_verify_other_secret(secret: Seq<u8>, other: Seq<u8>, email: Seq<u8>)
    requires
        hmac_sha256_of(other, spec_signing_input(email)) != hmac_sha256_of(
            secret,
            spec_signing_input(email),
        ),
    ensures
        spec_verify(other, spec_issue(secret, email)) is None,
{
    let si = spec_signing_input(email);
    let token = spec_issue(secret, email);
    lemma_issued_token_split(secret, email);
    if spec_b64u_encode(hmac_sha256_of(secret, si)) == spec_b64u_encode(
        hmac_sha256_of(other, si),
    ) {
        lemma_encode_injective(hmac_sha256_of(secret, si), hmac_sha256_of(other, si));
    }
}

} // verus!
