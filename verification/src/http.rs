//! The request-reading helpers the surrounding process leans on: taking
//! method and path out of a request line, reading the authorization
//! header's value, reading a decimal content length, and naming the
//! route a request asks for.

use vstd::prelude::*;
use vstd::slice::slice_subrange;
use vstd::slice::slice_to_vec;

use crate::util::bytes_eq;
use crate::util::find_byte;
use crate::util::lemma_find_props;
use crate::util::spec_find;

verus! {

broadcast use vstd::slice::group_slice_axioms;

/// The space that separates the parts of a request line.
pub const SP: u8 = 0x20;

/// Method and path of a request line `METHOD SP PATH SP VERSION`: the
/// text before the first space, and the text between the first two
/// spaces. A line with fewer than two spaces has neither.
pub open spec fn spec_request_parts(line: Seq<u8>) -> Option<(Seq<u8>, Seq<u8>)> {
    match spec_find(line, SP) {
        None => None,
        Some(i) => {
            let rest = line.skip(i + 1);
            match spec_find(rest, SP) {
                None => None,
                Some(j) => Some((line.take(i), rest.take(j))),
            }
        },
    }
}

/// Take method and path out of a request line.
pub fn parse_request_line(line: &[u8]) -> (r: Option<(Vec<u8>, Vec<u8>)>)
    ensures
        match r {
            Some(p) => spec_request_parts(line@) == Some((p.0@, p.1@)),
            None => spec_request_parts(line@) is None,
        },
{
    let n = line.len();
    let i = match find_byte(line, SP) {
        Some(i) => i,
        None => {
            return None;
        },
    };
    proof {
        lemma_find_props(line@, SP);
    }
    let rest = slice_subrange(line, i + 1, n);
    proof {
        assert(rest@ =~= line@.skip(i + 1));
    }
    let m = rest.len();
    let j = match find_byte(rest, SP) {
        Some(j) => j,
        None => {
            return None;
        },
    };
    proof {
        lemma_find_props(rest@, SP);
    }
    let method = slice_to_vec(slice_subrange(line, 0, i));
    let path = slice_to_vec(slice_subrange(rest, 0, j));
    proof {
        assert(method@ =~= line@.take(i as int));
        assert(path@ =~= rest@.take(j as int));
    }
    Some((method, path))
}

/// A byte lowered to its ASCII lower case.
pub open spec fn ascii_lower(b: u8) -> u8 {
    if 0x41 <= b <= 0x5a {
        (b + 0x20) as u8
    } else {
        b
    }
}

/// The header name `authorization`, lower case.
pub open spec fn authorization_name() -> Seq<u8> {
    seq![0x61u8, 0x75, 0x74, 0x68, 0x6f, 0x72, 0x69, 0x7a, 0x61, 0x74, 0x69, 0x6f, 0x6e]
}

/// Leading spaces removed.
pub open spec fn spec_trim_front(s: Seq<u8>) -> Seq<u8>
    decreases s.len(),
{
    if s.len() > 0 && s[0] == SP {
        spec_trim_front(s.skip(1))
    } else {
        s
    }
}

/// Where the first run of spaces ends, trimming is skipping.
proof fn lemma_trim_at(s: Seq<u8>, k: int)
    requires
        0 <= k <= s.len(),
        forall|j: int| 0 <= j < k ==> s[j] == SP,
        k == s.len() || s[k] != SP,
    ensures
        spec_trim_front(s) == s.skip(k),
    decreases k,
{
    if k == 0 {
        assert(s.skip(0) =~= s);
    } else {
        assert(s[0] == SP);
        assert(forall|j: int| 0 <= j < k - 1 ==> s.skip(1)[j] == s[j + 1]);
        lemma_trim_at(s.skip(1), k - 1);
        assert(s.skip(1).skip(k - 1) =~= s.skip(k));
    }
}

/// The value of a header line `Name: <value>`, the name matched without
/// regard to case against its lower-case form and the value's leading
/// spaces dropped; a line naming any other header has none.
pub open spec fn spec_header_value(line: Seq<u8>, name: Seq<u8>) -> Option<Seq<u8>> {
    if line.len() > name.len() && (forall|j: int|
        0 <= j < name.len() ==> ascii_lower(line[j]) == name[j]) && line[name.len() as int]
        == 0x3a {
        Some(spec_trim_front(line.skip(name.len() + 1int)))
    } else {
        None
    }
}

/// Read a named header's value out of a header line; the wanted name is
/// given in lower case.
pub fn header_value(line: &[u8], name: &[u8]) -> (r: Option<Vec<u8>>)
    ensures
        match r {
            Some(v) => spec_header_value(line@, name@) == Some(v@),
            None => spec_header_value(line@, name@) is None,
        },
{
    let n = line.len();
    let m = name.len();
    if n <= m {
        return None;
    }
    let mut j: usize = 0;
    while j < m
        invariant
            0 <= j <= m,
            m == name@.len(),
            n == line@.len(),
            n > m,
            forall|t: int| 0 <= t < j ==> ascii_lower(line@[t]) == name@[t],
        decreases m - j,
    {
        let b = line[j];
        let low = if 0x41 <= b && b <= 0x5a {
            b + 0x20
        } else {
            b
        };
        assert(low == ascii_lower(line@[j as int]));
        if low != name[j] {
            assert(ascii_lower(line@[j as int]) != name@[j as int]);
            return None;
        }
        j += 1;
    }
    if line[m] != 0x3a {
        return None;
    }
    let mut k: usize = m + 1;
    while k < n && line[k] == SP
        invariant
            m + 1 <= k <= n,
            n == line@.len(),
            forall|t: int| m + 1 <= t < k ==> line@[t] == SP,
        decreases n - k,
    {
        k += 1;
    }
    let value = slice_to_vec(slice_subrange(line, k, n));
    proof {
        let tail = line@.skip(m + 1);
        assert(forall|t: int| 0 <= t < k - m - 1 ==> tail[t] == line@[t + m + 1]);
        lemma_trim_at(tail, k - m - 1);
        assert(value@ =~= tail.skip(k - m - 1));
    }
    Some(value)
}

/// Read the value out of an authorization header line.
pub fn auth_header_value(line: &[u8]) -> (r: Option<Vec<u8>>)
    ensures
        match r {
            Some(v) => spec_header_value(line@, authorization_name()) == Some(v@),
            None => spec_header_value(line@, authorization_name()) is None,
        },
{
    let mut name: Vec<u8> = Vec::new();
    name.push(0x61);
    name.push(0x75);
    name.push(0x74);
    name.push(0x68);
    name.push(0x6f);
    name.push(0x72);
    name.push(0x69);
    name.push(0x7a);
    name.push(0x61);
    name.push(0x74);
    name.push(0x69);
    name.push(0x6f);
    name.push(0x6e);
    proof {
        assert(name@ =~= authorization_name());
    }
    header_value(line, name.as_slice())
}

/// A decimal digit.
pub open spec fn is_digit(b: u8) -> bool {
    0x30 <= b <= 0x39
}

/// Decimal digit text.
pub open spec fn digit_text(s: Seq<u8>) -> bool {
    s.len() > 0 && forall|j: int| 0 <= j < s.len() ==> is_digit(s[j])
}

/// The number the digit text stands for.
pub open spec fn spec_dec_value(s: Seq<u8>) -> int
    decreases s.len(),
{
    if s.len() == 0 {
        0
    } else {
        spec_dec_value(s.take(s.len() - 1)) * 10 + (s[s.len() - 1] - 0x30)
    }
}

/// The bound a content length is accepted under.
pub const BODY_LIMIT: usize = 0x100000;

/// Digit text never stands for a negative number.
proof fn lemma_dec_value_nonneg(s: Seq<u8>)
    requires
        forall|j: int| 0 <= j < s.len() ==> is_digit(s[j]),
    ensures
        spec_dec_value(s) >= 0,
    decreases s.len(),
{
    if s.len() > 0 {
        lemma_dec_value_nonneg(s.take(s.len() - 1));
    }
}

/// A longer digit text never stands for a smaller number.
proof fn lemma_dec_value_extends(s: Seq<u8>, i: int)
    requires
        0 <= i <= s.len(),
        forall|j: int| 0 <= j < s.len() ==> is_digit(s[j]),
    ensures
        spec_dec_value(s) >= spec_dec_value(s.take(i)),
    decreases s.len() - i,
{
    if i == s.len() {
        assert(s.take(i) =~= s);
    } else {
        assert(s.take(i + 1).take(i) =~= s.take(i));
        assert(spec_dec_value(s.take(i + 1)) == spec_dec_value(s.take(i)) * 10 + (s.take(
            i + 1,
        )[i] - 0x30));
        lemma_dec_value_nonneg(s.take(i));
        lemma_dec_value_extends(s, i + 1);
    }
}

/// Read a decimal content length: the digits' value, accepted when it
/// stays under the body limit.
pub fn parse_content_length(s: &[u8]) -> (r: Option<usize>)
    ensures
        match r {
            Some(v) => digit_text(s@) && v == spec_dec_value(s@) && v < BODY_LIMIT,
            None => !(digit_text(s@) && spec_dec_value(s@) < BODY_LIMIT),
        },
{
    let n = s.len();
    if n == 0 {
        return None;
    }
    let mut value: usize = 0;
    let mut i: usize = 0;
    while i < n
        invariant
            0 <= i <= n,
            n == s@.len(),
            n > 0,
            forall|j: int| 0 <= j < i ==> is_digit(s@[j]),
            value == spec_dec_value(s@.take(i as int)),
            value < BODY_LIMIT,
        decreases n - i,
    {
        let b = s[i];
        if b < 0x30 || b > 0x39 {
            assert(!is_digit(s@[i as int]));
            return None;
        }
        let d = (b - 0x30) as usize;
        proof {
            assert(s@.take(i + 1).take(i as int) =~= s@.take(i as int));
        }
        if value > (BODY_LIMIT - 1 - d) / 10 {
            proof {
                if digit_text(s@) {
                    lemma_dec_value_extends(s@, i + 1);
                    assert(spec_dec_value(s@.take(i + 1)) == value * 10 + d);
                }
            }
            return None;
        }
        value = value * 10 + d;
        i += 1;
    }
    proof {
        assert(s@.take(n as int) =~= s@);
    }
    Some(value)
}

/// The method name `GET`.
pub open spec fn get_method() -> Seq<u8> {
    seq![0x47u8, 0x45, 0x54]
}

/// The method name `POST`.
pub open spec fn post_method() -> Seq<u8> {
    seq![0x50u8, 0x4f, 0x53, 0x54]
}

/// The method name `DELETE`.
pub open spec fn delete_method() -> Seq<u8> {
    seq![0x44u8, 0x45, 0x4c, 0x45, 0x54, 0x45]
}

/// The listing route `/users`.
pub open spec fn users_path() -> Seq<u8> {
    seq![0x2fu8, 0x75, 0x73, 0x65, 0x72, 0x73]
}

/// The creation route `/users/new`.
pub open spec fn users_new_path() -> Seq<u8> {
    seq![0x2fu8, 0x75, 0x73, 0x65, 0x72, 0x73, 0x2f, 0x6e, 0x65, 0x77]
}

/// The prefix of the deletion route `/users/:id`.
pub open spec fn users_prefix() -> Seq<u8> {
    seq![0x2fu8, 0x75, 0x73, 0x65, 0x72, 0x73, 0x2f]
}

/// The path parameter of a deletion route: what follows `/users/`, when
/// anything does.
pub open spec fn spec_path_user_id(path: Seq<u8>) -> Option<Seq<u8>> {
    if path.len() > 7 && path.take(7) == users_prefix() {
        Some(path.skip(7))
    } else {
        None
    }
}

/// The routes the service serves.
#[derive(PartialEq, Eq, Structural, Clone, Copy, Debug)]
pub enum Route {
    /// `POST /login`
    Login,
    /// `GET /users`
    ListUsers,
    /// `POST /users/new`
    CreateUser,
    /// `DELETE /users/:id`; `path_user_id` yields the identifier text.
    DeleteUser,
    /// Anything else.
    Other,
}

/// Which route a method and a path ask for. The creation route is
/// matched before the deletion prefix, as the router registered it.
pub open spec fn spec_route(method: Seq<u8>, path: Seq<u8>) -> Route {
    if method == post_method() && path == crate::gate::login_path() {
        Route::Login
    } else if method == get_method() && path == users_path() {
        Route::ListUsers
    } else if method == post_method() && path == users_new_path() {
        Route::CreateUser
    } else if method == delete_method() && spec_path_user_id(path) is Some {
        Route::DeleteUser
    } else {
        Route::Other
    }
}

/// The method name `GET` as bytes.
fn get_method_vec() -> (v: Vec<u8>)
    ensures
        v@ == get_method(),
{
    let mut v: Vec<u8> = Vec::new();
    v.push(0x47);
    v.push(0x45);
    v.push(0x54);
    proof {
        assert(v@ =~= get_method());
    }
    v
}

/// The method name `POST` as bytes.
fn post_method_vec() -> (v: Vec<u8>)
    ensures
        v@ == post_method(),
{
    let mut v: Vec<u8> = Vec::new();
    v.push(0x50);
    v.push(0x4f);
    v.push(0x53);
    v.push(0x54);
    proof {
        assert(v@ =~= post_method());
    }
    v
}

/// The method name `DELETE` as bytes.
fn delete_method_vec() -> (v: Vec<u8>)
    ensures
        v@ == delete_method(),
{
    let mut v: Vec<u8> = Vec::new();
    v.push(0x44);
    v.push(0x45);
    v.push(0x4c);
    v.push(0x45);
    v.push(0x54);
    v.push(0x45);
    proof {
        assert(v@ =~= delete_method());
    }
    v
}

/// The route `/login` as bytes.
fn login_path_vec() -> (v: Vec<u8>)
    ensures
        v@ == crate::gate::login_path(),
{
    let mut v: Vec<u8> = Vec::new();
    v.push(0x2f);
    v.push(0x6c);
    v.push(0x6f);
    v.push(0x67);
    v.push(0x69);
    v.push(0x6e);
    proof {
        assert(v@ =~= crate::gate::login_path());
    }
    v
}

/// The route `/users` as bytes.
fn users_path_vec() -> (v: Vec<u8>)
    ensures
        v@ == users_path(),
{
    let mut v: Vec<u8> = Vec::new();
    v.push(0x2f);
    v.push(0x75);
    v.push(0x73);
    v.push(0x65);
    v.push(0x72);
    v.push(0x73);
    proof {
        assert(v@ =~= users_path());
    }
    v
}

/// The route `/users/new` as bytes.
fn users_new_path_vec() -> (v: Vec<u8>)
    ensures
        v@ == users_new_path(),
{
    let mut v: Vec<u8> = Vec::new();
    v.push(0x2f);
    v.push(0x75);
    v.push(0x73);
    v.push(0x65);
    v.push(0x72);
    v.push(0x73);
    v.push(0x2f);
    v.push(0x6e);
    v.push(0x65);
    v.push(0x77);
    proof {
        assert(v@ =~= users_new_path());
    }
    v
}

/// The path parameter of a deletion route.
pub fn path_user_id(path: &[u8]) -> (r: Option<Vec<u8>>)
    ensures
        match r {
            Some(v) => spec_path_user_id(path@) == Some(v@),
            None => spec_path_user_id(path@) is None,
        },
{
    let n = path.len();
    if n <= 7 {
        return None;
    }
    let mut prefix: Vec<u8> = Vec::new();
    prefix.push(0x2f);
    prefix.push(0x75);
    prefix.push(0x73);
    prefix.push(0x65);
    prefix.push(0x72);
    prefix.push(0x73);
    prefix.push(0x2f);
    proof {
        assert(prefix@ =~= users_prefix());
    }
    let head = slice_subrange(path, 0, 7);
    proof {
        assert(head@ =~= path@.take(7));
    }
    if !bytes_eq(head, prefix.as_slice()) {
        return None;
    }
    let id = slice_to_vec(slice_subrange(path, 7, n));
    proof {
        assert(id@ =~= path@.skip(7));
    }
    Some(id)
}

/// Which route a method and a path ask for.
pub fn route_of(method: &[u8], path: &[u8]) -> (r: Route)
    ensures
        r == spec_route(method@, path@),
{
    let post = post_method_vec();
    if bytes_eq(method, post.as_slice()) {
        let lp = login_path_vec();
        if bytes_eq(path, lp.as_slice()) {
            return Route::Login;
        }
        let np = users_new_path_vec();
        if bytes_eq(path, np.as_slice()) {
            return Route::CreateUser;
        }
        return Route::Other;
    }
    let get = get_method_vec();
    if bytes_eq(method, get.as_slice()) {
        let up = users_path_vec();
        if bytes_eq(path, up.as_slice()) {
            return Route::ListUsers;
        }
        return Route::Other;
    }
    let del = delete_method_vec();
    if bytes_eq(method, del.as_slice()) {
        match path_user_id(path) {
            Some(_) => {
                return Route::DeleteUser;
            },
            None => {
                return Route::Other;
            },
        }
    }
    Route::Other
}

} // verus!
