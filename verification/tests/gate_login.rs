//! The authentication gate and the login handler, as a request sees them.

use user_auth::gate::{decision_body, decision_status, gate, Decision};
use user_auth::login::login;
use user_auth::token::issue;

const SECRET: &[u8] = b"your_secret_key";

#[test]
fn preflight_bypasses_gate() {
    let d = gate(b"OPTIONS", b"/users", None, SECRET);
    assert_eq!(d, Decision::Admitted);
}

#[test]
fn login_route_bypasses_gate() {
    let d = gate(b"POST", b"/login", None, SECRET);
    assert_eq!(d, Decision::Admitted);
}

#[test]
fn missing_header_is_rejected_not_admitted() {
    let d = gate(b"GET", b"/users", None, SECRET);
    assert_eq!(d, Decision::RejectedMissingAuth);
    assert_eq!(decision_status(&d), 401);
    assert_eq!(decision_body(&d).as_slice(), b"Access denied");
}

#[test]
fn valid_bearer_token_is_admitted() {
    let token = issue(b"a@b.com", SECRET);
    let mut header = b"Bearer ".to_vec();
    header.extend_from_slice(token.as_slice());
    let d = gate(b"GET", b"/users", Some(header.as_slice()), SECRET);
    assert_eq!(d, Decision::Admitted);
}

#[test]
fn bad_token_is_rejected_with_forbidden() {
    let d = gate(b"GET", b"/users", Some(b"Bearer garbage"), SECRET);
    assert_eq!(d, Decision::RejectedBadToken);
    assert_eq!(decision_status(&d), 403);
    assert_eq!(decision_body(&d).as_slice(), b"Access denied");
}

#[test]
fn token_under_other_secret_is_rejected() {
    let token = issue(b"a@b.com", b"other_secret");
    let mut header = b"Bearer ".to_vec();
    header.extend_from_slice(token.as_slice());
    let d = gate(b"GET", b"/users", Some(header.as_slice()), SECRET);
    assert_eq!(d, Decision::RejectedBadToken);
}

#[test]
fn header_without_bearer_scheme_is_rejected() {
    let d = gate(b"DELETE", b"/users/0123", Some(b"Basic abc"), SECRET);
    assert_eq!(d, Decision::RejectedBadToken);
    let d = gate(b"GET", b"/users", Some(b"Bear"), SECRET);
    assert_eq!(d, Decision::RejectedBadToken);
}

#[test]
fn login_with_fixed_password_returns_signed_token() {
    let r = login(b"a@b.com", b"secret", SECRET);
    assert_eq!(r.status, 200);
    assert_eq!(r.body, issue(b"a@b.com", SECRET));
}

#[test]
fn login_with_wrong_password_returns_fixed_message() {
    let r = login(b"a@b.com", b"Secret", SECRET);
    assert_eq!(r.status, 401);
    assert_eq!(r.body.as_slice(), b"Incorrect username or password");
    let r = login(b"someone@else.net", b"", SECRET);
    assert_eq!(r.body.as_slice(), b"Incorrect username or password");
}

#[test]
fn issued_token_admits_follow_up_requests() {
    let r = login(b"a@b.com", b"secret", SECRET);
    assert_eq!(r.status, 200);
    let mut header = b"Bearer ".to_vec();
    header.extend_from_slice(r.body.as_slice());
    assert_eq!(gate(b"GET", b"/users", Some(header.as_slice()), SECRET), Decision::Admitted);
    assert_eq!(gate(b"POST", b"/users/new", Some(header.as_slice()), SECRET), Decision::Admitted);
}
