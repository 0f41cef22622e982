//! The login handler's credential check.
//!
//! A login attempt carries an email and a password. The password must
//! equal the fixed constant; then a token is issued for the email and
//! returned as the response body. Otherwise the response body is the
//! fixed mismatch text, under an explicit unauthorized status (the
//! reference answered 200 even then; the message is kept, the status is
//! corrected).

use vstd::prelude::*;

use crate::token::issue;
use crate::token::spec_issue;
use crate::util::bytes_eq;
use crate::util::plain_text;

verus! {

/// The fixed password a login attempt must present.
pub open spec fn password_fixed() -> Seq<u8> {
    seq![0x73u8, 0x65, 0x63, 0x72, 0x65, 0x74]
}

/// The body answered on a failed credential check:
/// `Incorrect username or password`.
pub open spec fn mismatch_msg() -> Seq<u8> {
    seq![
        0x49u8, 0x6e, 0x63, 0x6f, 0x72, 0x72, 0x65, 0x63, 0x74, 0x20, 0x75, 0x73, 0x65, 0x72,
        0x6e, 0x61, 0x6d, 0x65, 0x20, 0x6f, 0x72, 0x20, 0x70, 0x61, 0x73, 0x73, 0x77, 0x6f,
        0x72, 0x64,
    ]
}

/// What the login handler answers: a status and a body.
pub struct LoginResponse {
    pub status: u16,
    pub body: Vec<u8>,
}

/// The status of a login answer: 200 on the fixed password, 401 else.
pub open spec fn spec_login_status(password: Seq<u8>) -> u16 {
    if password == password_fixed() {
        200
    } else {
        401
    }
}

/// The body of a login answer: the issued token on the fixed password,
/// the fixed mismatch text on any other password.
pub open spec fn spec_login_body(secret: Seq<u8>, email: Seq<u8>, password: Seq<u8>) -> Seq<u8> {
    if password == password_fixed() {
        spec_issue(secret, email)
    } else {
        mismatch_msg()
    }
}

/// Answer a login attempt.
///
/// When the password is going to pass the check, the email must be text
/// that can stand in a JSON string unescaped (`crate::util::is_plain_text`
/// checks this); on any other password the email is unconstrained.
pub fn login(email: &[u8], password: &[u8], secret: &[u8]) -> (r: LoginResponse)
    requires
        password@ == password_fixed() ==> plain_text(email@),
    ensures
        r.status == spec_login_status(password@),
        r.body@ == spec_login_body(secret@, email@, password@),
{
    let mut pw: Vec<u8> = Vec::new();
    pw.push(0x73);
    pw.push(0x65);
    pw.push(0x63);
    pw.push(0x72);
    pw.push(0x65);
    pw.push(0x74);
    proof {
        assert(pw@ =~= password_fixed());
    }
    if bytes_eq(password, pw.as_slice()) {
        LoginResponse { status: 200, body: issue(email, secret) }
    } else {
        let mut body: Vec<u8> = Vec::new();
        body.push(0x49);
        body.push(0x6e);
        body.push(0x63);
        body.push(0x6f);
        body.push(0x72);
        body.push(0x72);
        body.push(0x65);
        body.push(0x63);
        body.push(0x74);
        body.push(0x20);
        body.push(0x75);
        body.push(0x73);
        body.push(0x65);
        body.push(0x72);
        body.push(0x6e);
        body.push(0x61);
        body.push(0x6d);
        body.push(0x65);
        body.push(0x20);
        body.push(0x6f);
        body.push(0x72);
        body.push(0x20);
        body.push(0x70);
        body.push(0x61);
        body.push(0x73);
        body.push(0x73);
        body.push(0x77);
        body.push(0x6f);
        body.push(0x72);
        body.push(0x64);
        proof {
            assert(body@ =~= mismatch_msg());
        }
        LoginResponse { status: 401, body }
    }
}

/// On any password other than the fixed one, whatever the email and the
/// secret, the answer is the fixed mismatch text, never a token.
pub proof fn lemma_wrong_password_fixed_answer(
    secret: Seq<u8>,
    email: Seq<u8>,
    password: Seq<u8>,
)
    requires
        password != password_fixed(),
    ensures
        spec_login_body(secret, email, password) == mismatch_msg(),
        spec_login_status(password) == 401,
{
}

} // verus!
