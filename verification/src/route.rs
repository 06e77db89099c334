//! From method and path to the operation that a request asks for.

use crate::bytes::{occurs_at, same_bytes};
use crate::decimal::{
    decimal_digits, decimal_value, is_numeral, lemma_decimal_round_trip, parse_decimal,
};
use crate::user::{FieldsView, UserFields};
use vstd::prelude::*;
use vstd::slice::slice_subrange;
use vstd::utf8::{encode_utf8, is_ascii_chars_encode_utf8};

verus! {

/// The method of a request.
#[derive(Clone, Copy, Debug, PartialEq, Eq, Structural)]
pub enum Method {
    Get,
    Post,
    Put,
    Delete,
    /// Any method token other than the four above.
    Unsupported,
}

/// The shape of a request path.
#[derive(Clone, Copy, Debug, PartialEq, Eq, Structural)]
pub enum Target {
    /// The collection path itself.
    Collection,
    /// The collection path, a slash, and the id of one user.
    Item(i32),
    /// Any other path.
    Unknown,
}

/// What a method and a path shape resolve to.
#[derive(Clone, Copy, Debug, PartialEq, Eq, Structural)]
pub enum Route {
    List,
    Fetch,
    Create,
    Update,
    Delete,
    NotFound,
}

/// An operation on the store, with its arguments.
#[derive(Clone, Debug, PartialEq, Eq)]
pub enum Operation {
    List,
    Fetch(i32),
    Create(UserFields),
    Update(i32, UserFields),
    Delete(i32),
}

/// The mathematical content of an [`Operation`].
pub enum OperationView {
    List,
    Fetch(int),
    Create(FieldsView),
    Update(int, FieldsView),
    Delete(int),
}

impl View for Operation {
    type V = OperationView;

    open spec fn view(&self) -> OperationView {
        match *self {
            Operation::List => OperationView::List,
            Operation::Fetch(id) => OperationView::Fetch(id as int),
            Operation::Create(fields) => OperationView::Create(fields@),
            Operation::Update(id, fields) => OperationView::Update(id as int, fields@),
            Operation::Delete(id) => OperationView::Delete(id as int),
        }
    }
}

/// The method that a method token names. Tokens are case-sensitive.
pub open spec fn method_of(token: Seq<u8>) -> Method {
    if token == encode_utf8("GET"@) {
        Method::Get
    } else if token == encode_utf8("POST"@) {
        Method::Post
    } else if token == encode_utf8("PUT"@) {
        Method::Put
    } else if token == encode_utf8("DELETE"@) {
        Method::Delete
    } else {
        Method::Unsupported
    }
}

/// The bytes that follow the collection path and a slash in `path`, where
/// `path` begins with these two.
pub open spec fn item_segment(path: Seq<u8>, base: Seq<char>) -> Option<Seq<u8>> {
    let prefix = encode_utf8(base) + encode_utf8("/"@);
    if occurs_at(path, prefix, 0) {
        Some(path.subrange(prefix.len() as int, path.len() as int))
    } else {
        None
    }
}

/// The shape of `path` under the collection path `base`. An item path ends
/// in a numeral that is no larger than `i32::MAX`, the largest id that the
/// store assigns.
pub open spec fn target_of(path: Seq<u8>, base: Seq<char>) -> Target {
    if path == encode_utf8(base) {
        Target::Collection
    } else {
        match item_segment(path, base) {
            Some(segment) => if is_numeral(segment) && decimal_value(segment) <= i32::MAX {
                Target::Item(decimal_value(segment) as i32)
            } else {
                Target::Unknown
            },
            None => Target::Unknown,
        }
    }
}

/// The routing table. The path shape is looked at first: under an unknown
/// path every method resolves to `NotFound`, and so does every method that a
/// known shape does not offer.
pub open spec fn route_of(method: Method, target: Target) -> Route {
    match target {
        Target::Collection => match method {
            Method::Get => Route::List,
            Method::Post => Route::Create,
            _ => Route::NotFound,
        },
        Target::Item(_) => match method {
            Method::Get => Route::Fetch,
            Method::Put => Route::Update,
            Method::Delete => Route::Delete,
            _ => Route::NotFound,
        },
        Target::Unknown => Route::NotFound,
    }
}

/// Whether the operation under `route` reads a payload from the request body.
pub open spec fn needs_payload(route: Route) -> bool {
    route == Route::Create || route == Route::Update
}

/// The four method tokens name four different methods, and a token such as
/// `PATCH` names none of them.
pub proof fn lemma_method_tokens()
    ensures
        method_of(encode_utf8("GET"@)) == Method::Get,
        method_of(encode_utf8("POST"@)) == Method::Post,
        method_of(encode_utf8("PUT"@)) == Method::Put,
        method_of(encode_utf8("DELETE"@)) == Method::Delete,
        method_of(encode_utf8("PATCH"@)) == Method::Unsupported,
{
    reveal_strlit("GET");
    reveal_strlit("POST");
    reveal_strlit("PUT");
    reveal_strlit("DELETE");
    reveal_strlit("PATCH");
    is_ascii_chars_encode_utf8("GET"@);
    is_ascii_chars_encode_utf8("POST"@);
    is_ascii_chars_encode_utf8("PUT"@);
    is_ascii_chars_encode_utf8("DELETE"@);
    is_ascii_chars_encode_utf8("PATCH"@);
    assert(encode_utf8("PUT"@)[0] != encode_utf8("GET"@)[0]);
}

/// An id that is written after the collection path and a slash is read back
/// out of the path: the path that a client makes of an id it was given names
/// that id.
pub proof fn lemma_item_path_round_trip(base: Seq<char>, id: int)
    requires
        0 <= id <= i32::MAX,
    ensures
        target_of(encode_utf8(base) + encode_utf8("/"@) + decimal_digits(id as nat), base)
            == Target::Item(id as i32),
{
    let stem = encode_utf8(base);
    let prefix = stem + encode_utf8("/"@);
    let digits = decimal_digits(id as nat);
    let path = prefix + digits;
    lemma_decimal_round_trip(id as nat);
    assert(encode_utf8("/"@).len() == 1) by {
        reveal_strlit("/");
        is_ascii_chars_encode_utf8("/"@);
    }
    assert(path.len() > stem.len());
    assert(path.subrange(0, prefix.len() as int) =~= prefix);
    assert(path.subrange(prefix.len() as int, path.len() as int) =~= digits);
}

/// Under the routing table a method that is none of the four resolves to
/// `NotFound` whatever the path, and so does every method under a path of
/// unknown shape.
pub proof fn lemma_no_route(method: Method, target: Target)
    requires
        method == Method::Unsupported || target == Target::Unknown,
    ensures
        route_of(method, target) == Route::NotFound,
{
}

impl Target {
    /// The id that an item path names.
    pub open spec fn id_of(self) -> Option<i32> {
        match self {
            Target::Item(id) => Some(id),
            _ => None,
        }
    }

    /// The id that an item path names.
    pub fn id(&self) -> (r: Option<i32>)
        ensures
            r == self.id_of(),
    {
        match self {
            Target::Item(id) => Some(*id),
            _ => None,
        }
    }
}

impl Route {
    /// Whether the operation under this route reads a payload from the
    /// request body.
    pub fn takes_payload(&self) -> (r: bool)
        ensures
            r == needs_payload(*self),
    {
        match self {
            Route::Create => true,
            Route::Update => true,
            _ => false,
        }
    }
}

/// Reads a method token.
pub fn method_from(token: &[u8]) -> (r: Method)
    ensures
        r == method_of(token@),
{
    if same_bytes(token, "GET".as_bytes()) {
        Method::Get
    } else if same_bytes(token, "POST".as_bytes()) {
        Method::Post
    } else if same_bytes(token, "PUT".as_bytes()) {
        Method::Put
    } else if same_bytes(token, "DELETE".as_bytes()) {
        Method::Delete
    } else {
        Method::Unsupported
    }
}

/// Finds the shape of `path` under the collection path `base`.
pub fn classify(path: &[u8], base: &str) -> (r: Target)
    ensures
        r == target_of(path@, base@),
{
    let stem = base.as_bytes();
    if same_bytes(path, stem) {
        return Target::Collection;
    }
    let slash = "/".as_bytes();
    let n = path.len();
    let k = stem.len();
    let m = slash.len();
    if k > n || m > n - k {
        assert(item_segment(path@, base@) is None);
        return Target::Unknown;
    }
    let ghost prefix = encode_utf8(base@) + encode_utf8("/"@);
    let head = slice_subrange(path, 0, k);
    let mid = slice_subrange(path, k, k + m);
    if !same_bytes(head, stem) || !same_bytes(mid, slash) {
        proof {
            if occurs_at(path@, prefix, 0) {
                assert(path@.subrange(0, k + m).subrange(0, k as int) =~= head@);
                assert(path@.subrange(0, k + m).subrange(k as int, k + m) =~= mid@);
                assert(prefix.subrange(0, k as int) =~= stem@);
                assert(prefix.subrange(k as int, k + m) =~= slash@);
            }
        }
        return Target::Unknown;
    }
    assert(path@.subrange(0, k + m) =~= prefix);
    let segment = slice_subrange(path, k + m, n);
    match parse_decimal(segment) {
        Some(id) => Target::Item(id),
        None => Target::Unknown,
    }
}

/// Resolves a method and a path shape by the routing table.
pub fn route(method: Method, target: Target) -> (r: Route)
    ensures
        r == route_of(method, target),
{
    match target {
        Target::Collection => match method {
            Method::Get => Route::List,
            Method::Post => Route::Create,
            _ => Route::NotFound,
        },
        Target::Item(_) => match method {
            Method::Get => Route::Fetch,
            Method::Put => Route::Update,
            Method::Delete => Route::Delete,
            _ => Route::NotFound,
        },
        Target::Unknown => Route::NotFound,
    }
}

} // verus!
