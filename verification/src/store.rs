//! The pure side of the user-store adapter.
//!
//! The document store itself is an outside collaborator; the adapter's
//! contractual behaviour lives here: validating a store identifier taken
//! from a request path, assembling the listing body
//! `{"data":[doc,doc,...]}` in cursor order, aborting a listing on the
//! first per-document failure, and the collection model (insert,
//! delete-by-identifier, find-all) under its unique-identifier invariant.

use vstd::prelude::*;
use vstd::slice::slice_to_vec;

use crate::util::bytes_eq;

verus! {

broadcast use vstd::slice::group_slice_axioms;

/// A hexadecimal digit, either case.
pub open spec fn is_hex_digit(b: u8) -> bool {
    (0x30 <= b <= 0x39) || (0x61 <= b <= 0x66) || (0x41 <= b <= 0x46)
}

/// A well-formed store identifier: exactly 24 hexadecimal digits.
pub open spec fn object_id_text(s: Seq<u8>) -> bool {
    s.len() == 24 && forall|i: int| 0 <= i < s.len() ==> is_hex_digit(s[i])
}

/// A store-assigned identifier, kept as its 24 hexadecimal digits.
#[derive(Debug)]
pub struct ObjectIdHex {
    hex: Vec<u8>,
}

impl View for ObjectIdHex {
    type V = Seq<u8>;

    closed spec fn view(&self) -> Seq<u8> {
        self.hex@
    }
}

impl ObjectIdHex {
    /// The invariant every constructed identifier carries.
    pub open spec fn wf(&self) -> bool {
        object_id_text(self@)
    }

    /// The digits, for handing to the store.
    pub fn digits(&self) -> (r: &Vec<u8>)
        ensures
            r@ == self@,
    {
        &self.hex
    }
}

/// Why a store request was refused before reaching the store.
#[derive(PartialEq, Eq, Structural, Clone, Copy, Debug)]
pub enum StoreError {
    /// The path parameter was not a well-formed identifier.
    MalformedId,
}

/// The error text for a malformed identifier.
pub open spec fn malformed_id_msg() -> Seq<u8> {
    seq![0x4du8, 0x61, 0x6c, 0x66, 0x6f, 0x72, 0x6d, 0x65, 0x64, 0x20, 0x69, 0x64]
}

/// The error text `Malformed id`, as bytes.
pub fn store_error_body(e: &StoreError) -> (r: Vec<u8>)
    ensures
        r@ == malformed_id_msg(),
{
    let mut v: Vec<u8> = Vec::new();
    v.push(0x4d);
    v.push(0x61);
    v.push(0x6c);
    v.push(0x66);
    v.push(0x6f);
    v.push(0x72);
    v.push(0x6d);
    v.push(0x65);
    v.push(0x64);
    v.push(0x20);
    v.push(0x69);
    v.push(0x64);
    proof {
        assert(v@ =~= malformed_id_msg());
    }
    v
}

/// Parse a path parameter into a store identifier: it succeeds exactly
/// on 24 hexadecimal digits, and keeps them unchanged.
pub fn parse_object_id(s: &[u8]) -> (r: Result<ObjectIdHex, StoreError>)
    ensures
        match r {
            Ok(o) => object_id_text(s@) && o@ == s@,
            Err(e) => !object_id_text(s@) && e == StoreError::MalformedId,
        },
{
    if s.len() != 24 {
        return Err(StoreError::MalformedId);
    }
    let mut i: usize = 0;
    while i < s.len()
        invariant
            0 <= i <= s@.len(),
            s@.len() == 24,
            forall|j: int| 0 <= j < i ==> is_hex_digit(s@[j]),
        decreases s@.len() - i,
    {
        let b = s[i];
        let ok = (0x30 <= b && b <= 0x39) || (0x61 <= b && b <= 0x66) || (0x41 <= b && b
            <= 0x46);
        if !ok {
            assert(!is_hex_digit(s@[i as int]));
            return Err(StoreError::MalformedId);
        }
        i += 1;
    }
    Ok(ObjectIdHex { hex: slice_to_vec(s) })
}

/// The opening of a listing body: `{"data":[`.
pub open spec fn list_open() -> Seq<u8> {
    seq![0x7bu8, 0x22, 0x64, 0x61, 0x74, 0x61, 0x22, 0x3a, 0x5b]
}

/// The closing of a listing body: `]}`.
pub open spec fn list_close() -> Seq<u8> {
    seq![0x5du8, 0x7d]
}

/// The serialized documents joined with commas, in cursor order.
pub open spec fn spec_join_docs(docs: Seq<Seq<u8>>) -> Seq<u8>
    decreases docs.len(),
{
    if docs.len() == 0 {
        Seq::empty()
    } else if docs.len() == 1 {
        docs[0]
    } else {
        docs[0] + seq![0x2cu8] + spec_join_docs(docs.skip(1))
    }
}

/// The whole listing body for a sequence of serialized documents.
pub open spec fn spec_list_body(docs: Seq<Seq<u8>>) -> Seq<u8> {
    list_open() + spec_join_docs(docs) + list_close()
}

/// Joining after appending one document: a comma is placed exactly
/// between neighbours.
proof fn lemma_join_snoc(docs: Seq<Seq<u8>>, d: Seq<u8>)
    ensures
        spec_join_docs(docs.push(d)) == if docs.len() == 0 {
            d
        } else {
            spec_join_docs(docs) + seq![0x2cu8] + d
        },
    decreases docs.len(),
{
    if docs.len() == 0 {
        assert(docs.push(d) =~= seq![d]);
    } else {
        assert(docs.push(d).skip(1) =~= docs.skip(1).push(d));
        lemma_join_snoc(docs.skip(1), d);
        assert(spec_join_docs(docs.push(d)) =~= spec_join_docs(docs) + seq![0x2cu8] + d);
    }
}

/// Assemble the listing body from serialized documents, order kept.
pub fn list_body(docs: &Vec<Vec<u8>>) -> (r: Vec<u8>)
    ensures
        r@ == spec_list_body(docs.deep_view()),
{
    let ghost dv = docs.deep_view();
    let mut out: Vec<u8> = Vec::new();
    out.push(0x7b);
    out.push(0x22);
    out.push(0x64);
    out.push(0x61);
    out.push(0x74);
    out.push(0x61);
    out.push(0x22);
    out.push(0x3a);
    out.push(0x5b);
    proof {
        assert(out@ =~= list_open());
        assert(dv.take(0) =~= Seq::<Seq<u8>>::empty());
    }
    let mut i: usize = 0;
    while i < docs.len()
        invariant
            0 <= i <= docs@.len(),
            dv == docs.deep_view(),
            dv.len() == docs@.len(),
            out@ == list_open() + spec_join_docs(dv.take(i as int)),
        decreases docs@.len() - i,
    {
        if i > 0 {
            out.push(0x2c);
        }
        out.extend_from_slice(docs[i].as_slice());
        proof {
            assert(dv.take(i + 1) =~= dv.take(i as int).push(dv[i as int]));
            lemma_join_snoc(dv.take(i as int), dv[i as int]);
            assert(dv[i as int] == docs@[i as int]@);
            assert(out@ =~= list_open() + spec_join_docs(dv.take(i + 1)));
        }
        i += 1;
    }
    out.push(0x5d);
    out.push(0x7d);
    proof {
        assert(dv.take(dv.len() as int) =~= dv);
        assert(out@ =~= spec_list_body(dv));
    }
    out
}

/// What the store handed back for one document of a listing cursor.
pub enum DocResult {
    /// The document, serialized to JSON.
    Doc(Vec<u8>),
    /// The store's error text for this document.
    Failed(Vec<u8>),
}

/// The listing outcome over the cursor results, in order: the serialized
/// documents when every one came back, else the first error.
pub open spec fn spec_list_outcome(rs: Seq<DocResult>) -> Result<Seq<Seq<u8>>, Seq<u8>>
    decreases rs.len(),
{
    if rs.len() == 0 {
        Ok(Seq::empty())
    } else {
        match rs[0] {
            DocResult::Failed(e) => Err(e@),
            DocResult::Doc(d) => match spec_list_outcome(rs.skip(1)) {
                Err(e) => Err(e),
                Ok(ds) => Ok(seq![d@] + ds),
            },
        }
    }
}

/// A failure preceded only by documents decides the outcome.
proof fn lemma_outcome_first_err(rs: Seq<DocResult>, k: int, e0: Vec<u8>)
    requires
        0 <= k < rs.len(),
        forall|j: int| 0 <= j < k ==> rs[j] is Doc,
        rs[k] == DocResult::Failed(e0),
    ensures
        spec_list_outcome(rs) == Err::<Seq<Seq<u8>>, Seq<u8>>(e0@),
    decreases k,
{
    if k == 0 {
    } else {
        assert(rs[0] is Doc);
        assert(forall|j: int| 0 <= j < k - 1 ==> rs.skip(1)[j] == rs[j + 1]);
        lemma_outcome_first_err(rs.skip(1), k - 1, e0);
    }
}

/// When every cursor result is a document, the outcome is their list.
proof fn lemma_outcome_all_docs(rs: Seq<DocResult>, ds: Seq<Seq<u8>>)
    requires
        rs.len() == ds.len(),
        forall|j: int|
            0 <= j < rs.len() ==> ((#[trigger] rs[j]) matches DocResult::Doc(d) && d@ == ds[j]),
    ensures
        spec_list_outcome(rs) == Ok::<Seq<Seq<u8>>, Seq<u8>>(ds),
    decreases rs.len(),
{
    if rs.len() == 0 {
        assert(ds =~= Seq::<Seq<u8>>::empty());
    } else {
        assert(forall|j: int| 0 <= j < rs.len() - 1 ==> rs.skip(1)[j] == rs[j + 1]);
        lemma_outcome_all_docs(rs.skip(1), ds.skip(1));
        assert(rs[0] matches DocResult::Doc(d) && d@ == ds[0]);
        assert(seq![ds[0]] + ds.skip(1) =~= ds);
    }
}

/// Turn the cursor results of a listing into the response body: the
/// assembled `{"data":[...]}` when every document serialized, else the
/// first error text, the rest of the listing abandoned.
pub fn list_users_body(results: &Vec<DocResult>) -> (r: Result<Vec<u8>, Vec<u8>>)
    ensures
        match spec_list_outcome(results@) {
            Ok(ds) => r matches Ok(b) && b@ == spec_list_body(ds),
            Err(e) => r matches Err(b) && b@ == e,
        },
{
    let mut docs: Vec<Vec<u8>> = Vec::new();
    let mut i: usize = 0;
    while i < results.len()
        invariant
            0 <= i <= results@.len(),
            docs@.len() == i,
            forall|j: int|
                0 <= j < i ==> ((#[trigger] results@[j]) matches DocResult::Doc(d) && d@
                    == docs.deep_view()[j]),
        decreases results@.len() - i,
    {
        let ghost k = i as int;
        match &results[i] {
            DocResult::Failed(e) => {
                proof {
                    assert(results@[k] == DocResult::Failed(*e));
                    assert(forall|j: int| 0 <= j < k ==> results@[j] is Doc);
                    lemma_outcome_first_err(results@, k, *e);
                }
                return Err(slice_to_vec(e.as_slice()));
            },
            DocResult::Doc(d) => {
                let copy = slice_to_vec(d.as_slice());
                proof {
                    assert(results@[k] == DocResult::Doc(*d));
                    assert(copy@ == d@);
                }
                docs.push(copy);
                proof {
                    assert(docs.deep_view()[k] == copy@);
                }
            },
        }
        i += 1;
    }
    proof {
        assert(forall|j: int|
            0 <= j < results@.len() ==> ((#[trigger] results@[j]) matches DocResult::Doc(d)
                && d@ == docs.deep_view()[j]));
        lemma_outcome_all_docs(results@, docs.deep_view());
    }
    Ok(list_body(&docs))
}

/// What the outside store answered to an insert or a delete.
pub enum StoreAck {
    /// The operation went through.
    Done,
    /// The store's error text.
    Failed(Vec<u8>),
}

/// A handler's answer: a status and a body.
pub struct StoreReply {
    pub status: u16,
    pub body: Vec<u8>,
}

/// The acknowledgement text `Item saved!`.
pub open spec fn item_saved_msg() -> Seq<u8> {
    seq![0x49u8, 0x74, 0x65, 0x6d, 0x20, 0x73, 0x61, 0x76, 0x65, 0x64, 0x21]
}

/// The acknowledgement text `Item deleted!`.
pub open spec fn item_deleted_msg() -> Seq<u8> {
    seq![0x49u8, 0x74, 0x65, 0x6d, 0x20, 0x64, 0x65, 0x6c, 0x65, 0x74, 0x65, 0x64, 0x21]
}

/// The creation handler's answer: `Item saved!` under 201 when the
/// store took the document, the store's error text under 500 otherwise.
pub fn create_user_reply(ack: &StoreAck) -> (r: StoreReply)
    ensures
        match ack {
            StoreAck::Done => r.status == 201 && r.body@ == item_saved_msg(),
            StoreAck::Failed(e) => r.status == 500 && r.body@ == e@,
        },
{
    match ack {
        StoreAck::Done => {
            let mut v: Vec<u8> = Vec::new();
            v.push(0x49);
            v.push(0x74);
            v.push(0x65);
            v.push(0x6d);
            v.push(0x20);
            v.push(0x73);
            v.push(0x61);
            v.push(0x76);
            v.push(0x65);
            v.push(0x64);
            v.push(0x21);
            proof {
                assert(v@ =~= item_saved_msg());
            }
            StoreReply { status: 201, body: v }
        },
        StoreAck::Failed(e) => StoreReply { status: 500, body: slice_to_vec(e.as_slice()) },
    }
}

/// The deletion handler's answer: `Item deleted!` under 200 when the
/// store answered, whether or not a document matched (the delete count
/// is not inspected, as the adapter always behaved), the store's error
/// text under 500 otherwise.
pub fn delete_user_reply(ack: &StoreAck) -> (r: StoreReply)
    ensures
        match ack {
            StoreAck::Done => r.status == 200 && r.body@ == item_deleted_msg(),
            StoreAck::Failed(e) => r.status == 500 && r.body@ == e@,
        },
{
    match ack {
        StoreAck::Done => {
            let mut v: Vec<u8> = Vec::new();
            v.push(0x49);
            v.push(0x74);
            v.push(0x65);
            v.push(0x6d);
            v.push(0x20);
            v.push(0x64);
            v.push(0x65);
            v.push(0x6c);
            v.push(0x65);
            v.push(0x74);
            v.push(0x65);
            v.push(0x64);
            v.push(0x21);
            proof {
                assert(v@ =~= item_deleted_msg());
            }
            StoreReply { status: 200, body: v }
        },
        StoreAck::Failed(e) => StoreReply { status: 500, body: slice_to_vec(e.as_slice()) },
    }
}

/// The listing handler's answer: the assembled listing under 200, or
/// the first per-document error text under 500.
pub fn list_users_reply(results: &Vec<DocResult>) -> (r: StoreReply)
    ensures
        match spec_list_outcome(results@) {
            Ok(ds) => r.status == 200 && r.body@ == spec_list_body(ds),
            Err(e) => r.status == 500 && r.body@ == e,
        },
{
    match list_users_body(results) {
        Ok(body) => StoreReply { status: 200, body },
        Err(body) => StoreReply { status: 500, body },
    }
}

/// One user document of the collection: the store-assigned identifier
/// and the three user fields.
pub struct UserDoc {
    pub id: Vec<u8>,
    pub firstname: Vec<u8>,
    pub lastname: Vec<u8>,
    pub email: Vec<u8>,
}

/// Two documents carrying the same user fields, identifier ignored.
pub open spec fn same_person(a: UserDoc, b: UserDoc) -> bool {
    a.firstname@ == b.firstname@ && a.lastname@ == b.lastname@ && a.email@ == b.email@
}

/// No document of `docs` carries the identifier `id`.
pub open spec fn id_fresh(docs: Seq<UserDoc>, id: Seq<u8>) -> bool {
    forall|j: int| 0 <= j < docs.len() ==> (#[trigger] docs[j]).id@ != id
}

/// The collection invariant: store-assigned identifiers are unique.
pub open spec fn unique_ids(docs: Seq<UserDoc>) -> bool {
    forall|i: int, j: int| 0 <= i < j < docs.len() ==> docs[i].id@ != docs[j].id@
}

/// The position of the first document carrying `id`, if any.
pub open spec fn spec_find_id(docs: Seq<UserDoc>, id: Seq<u8>) -> Option<int>
    decreases docs.len(),
{
    if docs.len() == 0 {
        None
    } else if docs[0].id@ == id {
        Some(0int)
    } else {
        match spec_find_id(docs.skip(1), id) {
            Some(i) => Some(i + 1),
            None => None,
        }
    }
}

/// `spec_find_id` returns the first carrier of the identifier; `None`
/// means no document carries it.
pub proof fn lemma_find_id_props(docs: Seq<UserDoc>, id: Seq<u8>)
    ensures
        match spec_find_id(docs, id) {
            Some(i) => 0 <= i < docs.len() && docs[i].id@ == id && forall|j: int|
                0 <= j < i ==> (#[trigger] docs[j]).id@ != id,
            None => id_fresh(docs, id),
        },
    decreases docs.len(),
{
    if docs.len() == 0 {
    } else if docs[0].id@ == id {
    } else {
        lemma_find_id_props(docs.skip(1), id);
        assert(forall|j: int| 1 <= j < docs.len() ==> docs[j] == docs.skip(1)[j - 1]);
    }
}

/// A first carrier determines `spec_find_id`.
proof fn lemma_find_id_is(docs: Seq<UserDoc>, id: Seq<u8>, k: int)
    requires
        0 <= k < docs.len(),
        docs[k].id@ == id,
        forall|j: int| 0 <= j < k ==> (#[trigger] docs[j]).id@ != id,
    ensures
        spec_find_id(docs, id) == Some(k),
{
    lemma_find_id_props(docs, id);
    match spec_find_id(docs, id) {
        Some(i) => {
            if i < k {
                assert(docs[i].id@ != id);
            }
            if k < i {
                assert(docs[k].id@ != id);
            }
        },
        None => {
            assert(docs[k].id@ != id);
        },
    }
}

/// The users collection, modelled in memory: what the adapter relies on
/// of the outside store's insert-one, delete-one and find-all, under the
/// store's unique-identifier guarantee.
pub struct Collection {
    docs: Vec<UserDoc>,
}

impl Collection {
    /// The documents, in insertion order.
    pub closed spec fn docs_view(&self) -> Seq<UserDoc> {
        self.docs@
    }

    /// The collection invariant.
    pub open spec fn wf(&self) -> bool {
        unique_ids(self.docs_view())
    }

    /// An empty collection.
    pub fn new() -> (c: Collection)
        ensures
            c.docs_view() == Seq::<UserDoc>::empty(),
            c.wf(),
    {
        let c = Collection { docs: Vec::new() };
        proof {
            assert(c.docs_view() =~= Seq::<UserDoc>::empty());
        }
        c
    }

    /// Insert one document whose store-assigned identifier is fresh; it
    /// is appended, everything else kept.
    pub fn insert(&mut self, doc: UserDoc)
        requires
            old(self).wf(),
            id_fresh(old(self).docs_view(), doc.id@),
        ensures
            final (self).docs_view() == old(self).docs_view().push(doc),
            final (self).wf(),
    {
        let ghost d = doc;
        self.docs.push(doc);
        proof {
            assert forall|i: int, j: int|
                0 <= i < j < self.docs@.len() implies self.docs@[i].id@ != self.docs@[j].id@ by {
                if j < old(self).docs@.len() {
                    assert(old(self).docs@[i].id@ != old(self).docs@[j].id@);
                } else {
                    assert(self.docs@[j] == d);
                    assert(old(self).docs@[i].id@ != d.id@);
                }
            }
        }
    }

    /// Delete the document carrying `id`: when one does, it leaves and
    /// the others keep their order; when none does, nothing changes.
    /// Whether one did is returned.
    pub fn delete_by_id(&mut self, id: &[u8]) -> (removed: bool)
        requires
            old(self).wf(),
        ensures
            match spec_find_id(old(self).docs_view(), id@) {
                Some(k) => removed && final (self).docs_view() == old(self).docs_view().remove(k),
                None => !removed && final (self).docs_view() == old(self).docs_view(),
            },
            final (self).wf(),
    {
        let mut i: usize = 0;
        while i < self.docs.len()
            invariant
                0 <= i <= self.docs@.len(),
                self.docs@ == old(self).docs@,
                unique_ids(old(self).docs@),
                forall|j: int| 0 <= j < i ==> (#[trigger] old(self).docs@[j]).id@ != id@,
            decreases self.docs@.len() - i,
        {
            if bytes_eq(self.docs[i].id.as_slice(), id) {
                proof {
                    assert(old(self).docs@[i as int].id@ == id@);
                    lemma_find_id_is(old(self).docs@, id@, i as int);
                }
                self.docs.remove(i);
                proof {
                    old(self).docs@.remove_ensures(i as int);
                    assert forall|p: int, q: int|
                        0 <= p < q < self.docs@.len() implies self.docs@[p].id@
                        != self.docs@[q].id@ by {
                        let p0 = if p < i { p } else { p + 1 };
                        let q0 = if q < i { q } else { q + 1 };
                        assert(self.docs@[p] == old(self).docs@[p0]);
                        assert(self.docs@[q] == old(self).docs@[q0]);
                        assert(old(self).docs@[p0].id@ != old(self).docs@[q0].id@);
                    }
                }
                return true;
            }
            i += 1;
        }
        proof {
            lemma_find_id_props(old(self).docs@, id@);
            if let Some(k) = spec_find_id(old(self).docs@, id@) {
                assert(old(self).docs@[k].id@ != id@);
            }
        }
        false
    }

    /// All documents, in insertion order, as the listing reads them.
    pub fn find_all(&self) -> (r: &Vec<UserDoc>)
        ensures
            r@ == self.docs_view(),
    {
        &self.docs
    }
}

/// Creating a user then listing users yields a list containing a
/// document with the same firstname, lastname and email; the
/// store-assigned identifier is ignored.
pub proof fn lemma_created_user_is_listed(docs: Seq<UserDoc>, doc: UserDoc)
    ensures
        exists|k: int|
            0 <= k < docs.push(doc).len() && same_person(#[trigger] docs.push(doc)[k], doc),
{
    assert(same_person(docs.push(doc)[docs.len() as int], doc));
}

/// Deleting a previously created user's identifier then listing users
/// yields a list without that identifier.
pub proof fn lemma_deleted_id_not_listed(docs: Seq<UserDoc>, id: Seq<u8>)
    requires
        unique_ids(docs),
    ensures
        match spec_find_id(docs, id) {
            Some(k) => id_fresh(docs.remove(k), id),
            None => id_fresh(docs, id),
        },
{
    lemma_find_id_props(docs, id);
    match spec_find_id(docs, id) {
        Some(k) => {
            docs.remove_ensures(k);
            assert forall|j: int| 0 <= j < docs.remove(k).len() implies (#[trigger] docs.remove(
                k,
            )[j]).id@ != id by {
                if j < k {
                    assert(docs.remove(k)[j] == docs[j]);
                } else {
                    assert(docs.remove(k)[j] == docs[j + 1]);
                    assert(docs[k].id@ != docs[j + 1].id@);
                }
            }
        },
        None => {},
    }
}

} // verus!
