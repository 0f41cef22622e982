//! One full session: log in, list, create, delete with a malformed
//! identifier — each step answered as the service contracts promise.

use user_auth::gate::{gate, Decision};
use user_auth::login::login;
use user_auth::store::{
    create_user_reply, delete_user_reply, list_users_reply, parse_object_id, store_error_body,
    DocResult, StoreAck,
};
use user_auth::token::verify;

const SECRET: &[u8] = b"your_secret_key";

#[test]
fn full_session_against_the_contracts() {
    // POST /login {"email":"a@b.com","password":"secret"} -> 200, signed token.
    let r = login(b"a@b.com", b"secret", SECRET);
    assert_eq!(r.status, 200);
    let token = r.body;
    assert_eq!(verify(token.as_slice(), SECRET).unwrap().as_slice(), b"a@b.com");

    // GET /users with the bearer token -> admitted, {"data":[...]}.
    let mut header = b"Bearer ".to_vec();
    header.extend_from_slice(token.as_slice());
    assert_eq!(gate(b"GET", b"/users", Some(header.as_slice()), SECRET), Decision::Admitted);
    let results = vec![DocResult::Doc(b"{\"firstname\":\"A\"}".to_vec())];
    let listing = list_users_reply(&results);
    assert_eq!(listing.status, 200);
    assert_eq!(listing.body.as_slice(), b"{\"data\":[{\"firstname\":\"A\"}]}".as_slice());

    // POST /users/new with the token -> "Item saved!".
    assert_eq!(gate(b"POST", b"/users/new", Some(header.as_slice()), SECRET), Decision::Admitted);
    let saved = create_user_reply(&StoreAck::Done);
    assert_eq!(saved.body.as_slice(), b"Item saved!");

    // DELETE /users/<bad-id-format> with the token -> malformed id error.
    assert_eq!(
        gate(b"DELETE", b"/users/oops", Some(header.as_slice()), SECRET),
        Decision::Admitted
    );
    let err = parse_object_id(b"oops").unwrap_err();
    assert_eq!(store_error_body(&err).as_slice(), b"Malformed id");

    // DELETE with a well-formed id -> "Item deleted!".
    assert!(parse_object_id(b"0123456789abcdef01234567").is_ok());
    let deleted = delete_user_reply(&StoreAck::Done);
    assert_eq!(deleted.status, 200);
    assert_eq!(deleted.body.as_slice(), b"Item deleted!");
}
