//! The request-reading helpers and the route table.

use user_auth::http::{
    auth_header_value, parse_content_length, parse_request_line, path_user_id, route_of, Route,
};

#[test]
fn request_line_splits_into_method_and_path() {
    let (method, path) = parse_request_line(b"GET /users HTTP/1.1").expect("well-formed line");
    assert_eq!(method.as_slice(), b"GET");
    assert_eq!(path.as_slice(), b"/users");
}

#[test]
fn request_line_without_two_spaces_is_refused() {
    assert!(parse_request_line(b"GET").is_none());
    assert!(parse_request_line(b"GET /users").is_none());
    assert!(parse_request_line(b"").is_none());
}

#[test]
fn authorization_header_yields_its_value() {
    let v = auth_header_value(b"Authorization: Bearer abc.def.ghi").expect("auth header");
    assert_eq!(v.as_slice(), b"Bearer abc.def.ghi");
}

#[test]
fn authorization_header_name_is_case_insensitive() {
    let v = auth_header_value(b"AUTHORIZATION:Bearer t").expect("auth header");
    assert_eq!(v.as_slice(), b"Bearer t");
    let v = auth_header_value(b"authorization:   Bearer t").expect("auth header");
    assert_eq!(v.as_slice(), b"Bearer t");
}

#[test]
fn other_headers_are_not_authorization() {
    assert!(auth_header_value(b"Content-Type: text/plain").is_none());
    assert!(auth_header_value(b"Authorization").is_none());
    assert!(auth_header_value(b"Authorizatio: x").is_none());
}

#[test]
fn content_length_reads_decimal_digits() {
    assert_eq!(parse_content_length(b"0"), Some(0));
    assert_eq!(parse_content_length(b"123"), Some(123));
    assert_eq!(parse_content_length(b"007"), Some(7));
}

#[test]
fn content_length_refuses_junk_and_huge_values() {
    assert_eq!(parse_content_length(b""), None);
    assert_eq!(parse_content_length(b"12a"), None);
    assert_eq!(parse_content_length(b"-5"), None);
    assert_eq!(parse_content_length(b"99999999999999999999"), None);
}

#[test]
fn routes_match_the_served_table() {
    assert_eq!(route_of(b"POST", b"/login"), Route::Login);
    assert_eq!(route_of(b"GET", b"/users"), Route::ListUsers);
    assert_eq!(route_of(b"POST", b"/users/new"), Route::CreateUser);
    assert_eq!(route_of(b"DELETE", b"/users/0123456789abcdef01234567"), Route::DeleteUser);
    assert_eq!(route_of(b"GET", b"/login"), Route::Other);
    assert_eq!(route_of(b"DELETE", b"/users/"), Route::Other);
    assert_eq!(route_of(b"PUT", b"/users"), Route::Other);
}

#[test]
fn path_user_id_takes_what_follows_the_prefix() {
    let id = path_user_id(b"/users/abc123").expect("id present");
    assert_eq!(id.as_slice(), b"abc123");
    assert!(path_user_id(b"/users/").is_none());
    assert!(path_user_id(b"/users").is_none());
    assert!(path_user_id(b"/login").is_none());
}
