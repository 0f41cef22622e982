//! The store adapter's pure side: identifiers, listing bodies, and the
//! collection model.

use user_auth::store::{
    list_body, list_users_body, parse_object_id, store_error_body, Collection, DocResult,
    StoreError, UserDoc,
};

fn doc(id: &[u8], first: &[u8], last: &[u8], email: &[u8]) -> UserDoc {
    UserDoc {
        id: id.to_vec(),
        firstname: first.to_vec(),
        lastname: last.to_vec(),
        email: email.to_vec(),
    }
}

#[test]
fn object_id_of_24_hex_digits_parses() {
    let id = parse_object_id(b"0123456789abcdefABCDEF01").expect("well-formed id");
    assert_eq!(id.digits().as_slice(), b"0123456789abcdefABCDEF01");
}

#[test]
fn malformed_object_ids_are_refused() {
    assert!(matches!(parse_object_id(b""), Err(StoreError::MalformedId)));
    assert!(matches!(parse_object_id(b"0123456789abcdef"), Err(StoreError::MalformedId)));
    assert!(matches!(parse_object_id(b"0123456789abcdefABCDEF0g"), Err(StoreError::MalformedId)));
    assert!(matches!(
        parse_object_id(b"0123456789abcdefABCDEF012"),
        Err(StoreError::MalformedId)
    ));
    let e = parse_object_id(b"not-an-id").unwrap_err();
    assert_eq!(store_error_body(&e).as_slice(), b"Malformed id");
}

#[test]
fn listing_of_no_documents_is_empty_array() {
    let docs: Vec<Vec<u8>> = Vec::new();
    assert_eq!(list_body(&docs).as_slice(), b"{\"data\":[]}");
}

#[test]
fn listing_joins_documents_with_commas_in_order() {
    let docs = vec![b"{\"a\":1}".to_vec(), b"{\"b\":2}".to_vec(), b"{\"c\":3}".to_vec()];
    assert_eq!(list_body(&docs).as_slice(), b"{\"data\":[{\"a\":1},{\"b\":2},{\"c\":3}]}".as_slice());
}

#[test]
fn listing_outcome_collects_all_documents() {
    let results = vec![DocResult::Doc(b"{\"a\":1}".to_vec()), DocResult::Doc(b"{\"b\":2}".to_vec())];
    let body = list_users_body(&results).expect("all documents serialized");
    assert_eq!(body.as_slice(), b"{\"data\":[{\"a\":1},{\"b\":2}]}".as_slice());
}

#[test]
fn listing_outcome_aborts_on_first_error() {
    let results = vec![
        DocResult::Doc(b"{\"a\":1}".to_vec()),
        DocResult::Failed(b"cursor error".to_vec()),
        DocResult::Failed(b"later error".to_vec()),
    ];
    let err = list_users_body(&results).unwrap_err();
    assert_eq!(err.as_slice(), b"cursor error");
}

#[test]
fn created_user_appears_in_listing() {
    let mut c = Collection::new();
    c.insert(doc(b"000000000000000000000001", b"A", b"B", b"a@b.com"));
    c.insert(doc(b"000000000000000000000002", b"C", b"D", b"c@d.com"));
    let all = c.find_all();
    assert!(all.iter().any(|d| {
        d.firstname.as_slice() == b"C" && d.lastname.as_slice() == b"D"
            && d.email.as_slice() == b"c@d.com"
    }));
}

#[test]
fn deleted_user_disappears_from_listing() {
    let mut c = Collection::new();
    c.insert(doc(b"000000000000000000000001", b"A", b"B", b"a@b.com"));
    c.insert(doc(b"000000000000000000000002", b"C", b"D", b"c@d.com"));
    let removed = c.delete_by_id(b"000000000000000000000001");
    assert!(removed);
    let all = c.find_all();
    assert_eq!(all.len(), 1);
    assert!(all.iter().all(|d| d.id.as_slice() != b"000000000000000000000001"));
}

#[test]
fn deleting_an_absent_id_changes_nothing() {
    let mut c = Collection::new();
    c.insert(doc(b"000000000000000000000001", b"A", b"B", b"a@b.com"));
    let removed = c.delete_by_id(b"0000000000000000000000ff");
    assert!(!removed);
    assert_eq!(c.find_all().len(), 1);
}
