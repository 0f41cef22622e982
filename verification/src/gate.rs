//! The per-request authentication gate.
//!
//! Every inbound request passes here first. Preflight requests and the
//! login route are admitted unconditionally; any other route needs an
//! `Authorization: Bearer <token>` header whose token verifies against
//! the shared secret. A missing header is rejected (not a crash), a bad
//! token is rejected with 403 Forbidden and the fixed denial text.

use vstd::prelude::*;
use vstd::slice::slice_subrange;

use crate::token::spec_verify;
use crate::token::verify;
use crate::util::bytes_eq;

verus! {

broadcast use vstd::slice::group_slice_axioms;

/// Per-request outcome: either the handler is reached, or the request is
/// answered with a rejection and the handler is never invoked.
#[derive(PartialEq, Eq, Structural, Clone, Copy, Debug)]
pub enum Decision {
    /// The request goes on to its route handler.
    Admitted,
    /// A protected route was asked for without an authorization header.
    RejectedMissingAuth,
    /// The authorization header did not carry a verifying bearer token.
    RejectedBadToken,
}

/// The preflight method name `OPTIONS`.
pub open spec fn options_method() -> Seq<u8> {
    seq![0x4fu8, 0x50, 0x54, 0x49, 0x4f, 0x4e, 0x53]
}

/// The exempt route `/login`.
pub open spec fn login_path() -> Seq<u8> {
    seq![0x2fu8, 0x6c, 0x6f, 0x67, 0x69, 0x6e]
}

/// The authorization scheme prefix `Bearer ` (seven bytes).
pub open spec fn bearer_prefix() -> Seq<u8> {
    seq![0x42u8, 0x65, 0x61, 0x72, 0x65, 0x72, 0x20]
}

/// The body of a rejection response.
pub open spec fn access_denied_msg() -> Seq<u8> {
    seq![0x41u8, 0x63, 0x63, 0x65, 0x73, 0x73, 0x20, 0x64, 0x65, 0x6e, 0x69, 0x65, 0x64]
}

/// The view of an optional header value.
pub open spec fn opt_bytes_view(o: Option<&[u8]>) -> Option<Seq<u8>> {
    match o {
        Some(h) => Some(h@),
        None => None,
    }
}

/// The decision for one request: preflight bypass first, then the
/// login bypass, then the bearer token check.
pub open spec fn spec_gate(
    method: Seq<u8>,
    path: Seq<u8>,
    auth: Option<Seq<u8>>,
    secret: Seq<u8>,
) -> Decision {
    if method == options_method() {
        Decision::Admitted
    } else if path == login_path() {
        Decision::Admitted
    } else {
        match auth {
            None => Decision::RejectedMissingAuth,
            Some(h) => {
                if h.len() >= 7 && h.subrange(0, 7) == bearer_prefix() {
                    if spec_verify(secret, h.skip(7)) is Some {
                        Decision::Admitted
                    } else {
                        Decision::RejectedBadToken
                    }
                } else {
                    Decision::RejectedBadToken
                }
            },
        }
    }
}

/// The method name `OPTIONS` as bytes.
fn options_method_vec() -> (v: Vec<u8>)
    ensures
        v@ == options_method(),
{
    let mut v: Vec<u8> = Vec::new();
    v.push(0x4f);
    v.push(0x50);
    v.push(0x54);
    v.push(0x49);
    v.push(0x4f);
    v.push(0x4e);
    v.push(0x53);
    proof {
        assert(v@ =~= options_method());
    }
    v
}

/// The route `/login` as bytes.
fn login_path_vec() -> (v: Vec<u8>)
    ensures
        v@ == login_path(),
{
    let mut v: Vec<u8> = Vec::new();
    v.push(0x2f);
    v.push(0x6c);
    v.push(0x6f);
    v.push(0x67);
    v.push(0x69);
    v.push(0x6e);
    proof {
        assert(v@ =~= login_path());
    }
    v
}

/// The scheme prefix `Bearer ` as bytes.
fn bearer_prefix_vec() -> (v: Vec<u8>)
    ensures
        v@ == bearer_prefix(),
{
    let mut v: Vec<u8> = Vec::new();
    v.push(0x42);
    v.push(0x65);
    v.push(0x61);
    v.push(0x72);
    v.push(0x65);
    v.push(0x72);
    v.push(0x20);
    proof {
        assert(v@ =~= bearer_prefix());
    }
    v
}

/// Decide a request: method, path, the raw value of its authorization
/// header if one came, and the shared secret.
pub fn gate(method: &[u8], path: &[u8], auth: Option<&[u8]>, secret: &[u8]) -> (r: Decision)
    ensures
        r == spec_gate(method@, path@, opt_bytes_view(auth), secret@),
{
    let om = options_method_vec();
    if bytes_eq(method, om.as_slice()) {
        return Decision::Admitted;
    }
    let lp = login_path_vec();
    if bytes_eq(path, lp.as_slice()) {
        return Decision::Admitted;
    }
    match auth {
        None => Decision::RejectedMissingAuth,
        Some(h) => {
            if h.len() < 7 {
                return Decision::RejectedBadToken;
            }
            let scheme = slice_subrange(h, 0, 7);
            let bp = bearer_prefix_vec();
            if !bytes_eq(scheme, bp.as_slice()) {
                return Decision::RejectedBadToken;
            }
            let tok = slice_subrange(h, 7, h.len());
            proof {
                assert(tok@ =~= h@.skip(7));
            }
            match verify(tok, secret) {
                Some(_) => Decision::Admitted,
                None => Decision::RejectedBadToken,
            }
        },
    }
}

/// The HTTP status a rejection is answered with: 401 for a missing
/// header, 403 Forbidden for a bad token.
pub fn decision_status(d: &Decision) -> (r: u16)
    requires
        *d != Decision::Admitted,
    ensures
        *d == Decision::RejectedMissingAuth ==> r == 401,
        *d == Decision::RejectedBadToken ==> r == 403,
{
    match d {
        Decision::RejectedMissingAuth => 401,
        _ => 403,
    }
}

/// The body a rejection is answered with.
pub fn decision_body(d: &Decision) -> (r: Vec<u8>)
    requires
        *d != Decision::Admitted,
    ensures
        r@ == access_denied_msg(),
{
    let mut v: Vec<u8> = Vec::new();
    v.push(0x41);
    v.push(0x63);
    v.push(0x63);
    v.push(0x65);
    v.push(0x73);
    v.push(0x73);
    v.push(0x20);
    v.push(0x64);
    v.push(0x65);
    v.push(0x6e);
    v.push(0x69);
    v.push(0x65);
    v.push(0x64);
    proof {
        assert(v@ =~= access_denied_msg());
    }
    v
}

/// A request to a protected route that carries no authorization header
/// is never admitted: the downstream handler is not reached.
pub proof fn lemma_no_header_never_admitted(method: Seq<u8>, path: Seq<u8>, secret: Seq<u8>)
    requires
        method != options_method(),
        path != login_path(),
    ensures
        spec_gate(method, path, None, secret) != Decision::Admitted,
{
}

} // verus!
