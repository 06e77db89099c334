//! Reading one HTTP request out of the bytes that came in on a connection.
//!
//! A request is a head, a blank line, and a body. The head is a request line
//! (`METHOD SP TARGET SP VERSION`) and after it any number of header lines,
//! each ended by CR LF. The body is everything after the blank line.

use crate::bytes::{
    cut, find, first_occurrence, lemma_cut_parts, lemma_first_occurrence_absent,
    lemma_first_occurrence_at, same_bytes, split_once,
};
use crate::error::ServiceError;
use crate::json::{decode_fields, payload_of};
use crate::route::{
    classify, method_from, method_of, needs_payload, route, route_of, target_of, Method, Operation,
    OperationView, Route, Target,
};
use crate::user::{FieldsView, UserFields};
use vstd::prelude::*;
use vstd::slice::slice_to_vec;
use vstd::utf8::{encode_utf8, is_ascii_chars_encode_utf8};

verus! {

/// The largest request, head and body together, that is read at all.
pub const MAX_REQUEST_BYTES: usize = 8192;

/// Carriage return and line feed: the end of a line.
pub open spec fn crlf() -> Seq<u8> {
    seq![13u8, 10u8]
}

/// Two line ends in a row: the end of the head.
pub open spec fn blank_line() -> Seq<u8> {
    seq![13u8, 10u8, 13u8, 10u8]
}

/// One space.
pub open spec fn space() -> Seq<u8> {
    seq![32u8]
}

/// One colon.
pub open spec fn colon() -> Seq<u8> {
    seq![58u8]
}

/// One question mark.
pub open spec fn question_mark() -> Seq<u8> {
    seq![63u8]
}

/// A header line holds a colon, with at least one byte of name before it.
pub open spec fn field_ok(line: Seq<u8>) -> bool {
    first_occurrence(line, colon()) matches Some(i) && i > 0
}

/// Every line of the header section is a header line. The lines are
/// separated by CR LF; the section of a request without headers is empty.
pub open spec fn fields_ok(fields: Seq<u8>) -> bool
    decreases fields.len(),
{
    if fields.len() == 0 {
        true
    } else {
        match cut(fields, crlf()) {
            Some((line, rest)) => {
                proof {
                    lemma_cut_parts(fields, crlf());
                }
                field_ok(line) && fields_ok(rest)
            },
            None => field_ok(fields),
        }
    }
}

/// The protocol versions that are answered.
pub open spec fn version_ok(version: Seq<u8>) -> bool {
    version == encode_utf8("HTTP/1.1"@) || version == encode_utf8("HTTP/1.0"@)
}

/// The three parts of a request line: what stands before the first space,
/// between the first and the second, and after the second.
pub open spec fn request_line_parts(line: Seq<u8>) -> Option<(Seq<u8>, Seq<u8>, Seq<u8>)> {
    match cut(line, space()) {
        Some((method, rest)) => match cut(rest, space()) {
            Some((target, version)) => Some((method, target, version)),
            None => None,
        },
        None => None,
    }
}

/// The pieces of a well-framed request that the service looks at.
pub struct FrameView {
    pub method: Seq<u8>,
    pub target: Seq<u8>,
    pub body: Seq<u8>,
}

/// The framing of a request: `None` where `bytes` has no blank line, where
/// the first line of the head is not a method token, a target and a supported
/// version with one space between neighbours, or where a line after it is no
/// header line.
pub open spec fn framed(bytes: Seq<u8>) -> Option<FrameView> {
    match cut(bytes, blank_line()) {
        Some((head, body)) => {
            let (line, fields) = match cut(head, crlf()) {
                Some(parts) => parts,
                None => (head, Seq::<u8>::empty()),
            };
            match request_line_parts(line) {
                Some((method, target, version)) => if method.len() > 0 && target.len() > 0
                    && version_ok(version) && fields_ok(fields) {
                    Some(FrameView { method, target, body })
                } else {
                    None
                },
                None => None,
            }
        },
        None => None,
    }
}

/// The path of a request target: the target without its query, which begins
/// at the first question mark.
pub open spec fn path_of(target: Seq<u8>) -> Seq<u8> {
    match cut(target, question_mark()) {
        Some((path, _)) => path,
        None => target,
    }
}

/// A request as the service understands it.
#[derive(Clone, Debug, PartialEq, Eq)]
pub struct Request {
    pub method: Method,
    /// The request target without its query.
    pub path: Vec<u8>,
    /// The shape of `path`, with the id that an item path names.
    pub target: Target,
    /// The payload, where the operation that the request asks for reads one.
    pub body: Option<UserFields>,
}

/// The mathematical content of a [`Request`].
pub struct RequestView {
    pub method: Method,
    pub path: Seq<u8>,
    pub target: Target,
    pub body: Option<FieldsView>,
}

impl View for Request {
    type V = RequestView;

    open spec fn view(&self) -> RequestView {
        RequestView {
            method: self.method,
            path: self.path@,
            target: self.target,
            body: match self.body {
                Some(fields) => Some(fields@),
                None => None,
            },
        }
    }
}

/// What `bytes` say as a request to the collection under `base`.
///
/// Too many bytes, or bytes without the framing of a request, are a
/// `MalformedRequest`. The body is read only where method and path resolve to
/// an operation that takes a payload; a body that holds none is then a
/// `BadRequest`. Under every other route the body is ignored.
pub open spec fn parsed(bytes: Seq<u8>, base: Seq<char>) -> Result<RequestView, ServiceError> {
    if bytes.len() > MAX_REQUEST_BYTES {
        Err(ServiceError::MalformedRequest)
    } else {
        match framed(bytes) {
            None => Err(ServiceError::MalformedRequest),
            Some(frame) => {
                let method = method_of(frame.method);
                let path = path_of(frame.target);
                let target = target_of(path, base);
                if needs_payload(route_of(method, target)) {
                    match payload_of(frame.body) {
                        Some(fields) => Ok(RequestView { method, path, target, body: Some(fields) }),
                        None => Err(ServiceError::BadRequest),
                    }
                } else {
                    Ok(RequestView { method, path, target, body: None })
                }
            },
        }
    }
}

/// The operation that a request asks for. Method and path shape decide by
/// the routing table; an item path gives the id, the body gives the payload.
/// Where the table has no entry the request is refused as `NotFound`. A
/// request that lacks the payload its operation needs is a `BadRequest`;
/// `parsed` never yields such a request.
pub open spec fn operation_of(request: RequestView) -> Result<OperationView, ServiceError> {
    let id = match request.target {
        Target::Item(id) => id as int,
        _ => 0,
    };
    match route_of(request.method, request.target) {
        Route::List => Ok(OperationView::List),
        Route::Fetch => Ok(OperationView::Fetch(id)),
        Route::Create => match request.body {
            Some(fields) => Ok(OperationView::Create(fields)),
            None => Err(ServiceError::BadRequest),
        },
        Route::Update => match request.body {
            Some(fields) => Ok(OperationView::Update(id, fields)),
            None => Err(ServiceError::BadRequest),
        },
        Route::Delete => Ok(OperationView::Delete(id)),
        Route::NotFound => Err(ServiceError::NotFound),
    }
}

/// What `bytes` ask of the store, or why they ask nothing of it.
pub open spec fn planned(bytes: Seq<u8>, base: Seq<char>) -> Result<OperationView, ServiceError> {
    match parsed(bytes, base) {
        Ok(request) => operation_of(request),
        Err(e) => Err(e),
    }
}

/// A non-empty byte string without space, CR and LF: what a method token
/// or a request target is made of.
pub open spec fn is_token(s: Seq<u8>) -> bool {
    &&& s.len() > 0
    &&& forall|i: int| 0 <= i < s.len() ==> s[i] != 32 && s[i] != 13 && s[i] != 10
}

/// The bytes of a request without header lines: the request line for
/// `method` and `target` under HTTP/1.1, the blank line, and `body`.
pub open spec fn request_bytes(method: Seq<u8>, target: Seq<u8>, body: Seq<u8>) -> Seq<u8> {
    method + space() + target + space() + encode_utf8("HTTP/1.1"@) + blank_line() + body
}

/// A head without CR, a blank line and a body are cut apart at the blank
/// line.
proof fn lemma_cut_at_blank_line(head: Seq<u8>, body: Seq<u8>)
    requires
        forall|i: int| 0 <= i < head.len() ==> head[i] != 13,
    ensures
        cut(head + blank_line() + body, blank_line()) == Some((head, body)),
{
    let bytes = head + blank_line() + body;
    let n = head.len() as int;
    assert(bytes.subrange(n, n + 4) =~= blank_line());
    assert forall|j: int| 0 <= j < n implies bytes[j] != blank_line()[0] by {
        assert(bytes[j] == head[j]);
    }
    lemma_first_occurrence_at(bytes, blank_line(), n);
    assert(bytes.subrange(0, n) =~= head);
    assert(bytes.subrange(n + 4, bytes.len() as int) =~= body);
}

/// A token without a space, a space and what follows are cut apart at the
/// space.
proof fn lemma_cut_at_space(token: Seq<u8>, rest: Seq<u8>)
    requires
        forall|i: int| 0 <= i < token.len() ==> token[i] != 32,
    ensures
        cut(token + space() + rest, space()) == Some((token, rest)),
{
    let bytes = token + space() + rest;
    let n = token.len() as int;
    assert(bytes.subrange(n, n + 1) =~= space());
    assert forall|j: int| 0 <= j < n implies bytes[j] != space()[0] by {
        assert(bytes[j] == token[j]);
    }
    lemma_first_occurrence_at(bytes, space(), n);
    assert(bytes.subrange(0, n) =~= token);
    assert(bytes.subrange(n + 1, bytes.len() as int) =~= rest);
}

/// The bytes of `HTTP/1.1` hold neither a space nor a CR.
proof fn lemma_version_bytes()
    ensures
        forall|i: int|
            0 <= i < encode_utf8("HTTP/1.1"@).len() ==> encode_utf8("HTTP/1.1"@)[i] != 32
                && encode_utf8("HTTP/1.1"@)[i] != 13,
{
    reveal_strlit("HTTP/1.1");
    is_ascii_chars_encode_utf8("HTTP/1.1"@);
}

/// A request that is written as `request_bytes` writes it is framed, and
/// its parts are read back as they were written, whatever the body holds.
#[verifier::rlimit(40)]
pub proof fn lemma_request_is_framed(method: Seq<u8>, target: Seq<u8>, body: Seq<u8>)
    requires
        is_token(method),
        is_token(target),
    ensures
        framed(request_bytes(method, target, body)) == Some(FrameView { method, target, body }),
{
    let version = encode_utf8("HTTP/1.1"@);
    let rest = target + space() + version;
    let line = method + space() + rest;
    lemma_version_bytes();
    assert(request_bytes(method, target, body) =~= line + blank_line() + body);
    assert(cut(line + blank_line() + body, blank_line()) == Some((line, body))) by {
        lemma_cut_at_blank_line(line, body);
    }
    assert(cut(line, crlf()) is None) by {
        lemma_first_occurrence_absent(line, crlf());
    }
    assert(cut(line, space()) == Some((method, rest))) by {
        lemma_cut_at_space(method, rest);
    }
    assert(cut(rest, space()) == Some((target, version))) by {
        lemma_cut_at_space(target, version);
    }
    assert(request_line_parts(line) == Some((method, target, version)));
    assert(fields_ok(Seq::<u8>::empty()));
}

/// How a request without header lines and without a query is understood:
/// the method token and the target decide the route, and the body is read
/// where the route takes a payload.
#[verifier::rlimit(40)]
pub proof fn lemma_plain_request(method: Seq<u8>, target: Seq<u8>, body: Seq<u8>, base: Seq<char>)
    requires
        is_token(method),
        is_token(target),
        forall|i: int| 0 <= i < target.len() ==> target[i] != 63,
        request_bytes(method, target, body).len() <= MAX_REQUEST_BYTES,
    ensures
        parsed(request_bytes(method, target, body), base) == (if needs_payload(
            route_of(method_of(method), target_of(target, base)),
        ) {
            match payload_of(body) {
                Some(fields) => Ok(
                    RequestView {
                        method: method_of(method),
                        path: target,
                        target: target_of(target, base),
                        body: Some(fields),
                    },
                ),
                None => Err(ServiceError::BadRequest),
            }
        } else {
            Ok(
                RequestView {
                    method: method_of(method),
                    path: target,
                    target: target_of(target, base),
                    body: None,
                },
            )
        }),
{
    lemma_request_is_framed(method, target, body);
    lemma_path_without_query(target);
}

/// A target without a question mark is its own path.
pub proof fn lemma_path_without_query(target: Seq<u8>)
    requires
        forall|i: int| 0 <= i < target.len() ==> target[i] != 63,
    ensures
        path_of(target) == target,
{
    lemma_first_occurrence_absent(target, question_mark());
}

/// Whether `line` is a header line.
fn field_is_ok(line: &[u8]) -> (r: bool)
    ensures
        r == field_ok(line@),
{
    let sep: [u8; 1] = [58];
    assert(sep@ =~= colon());
    match find(line, sep.as_slice()) {
        Some(i) => i > 0,
        None => false,
    }
}

/// Whether every line of a header section is a header line.
fn fields_are_ok(fields: &[u8]) -> (r: bool)
    ensures
        r == fields_ok(fields@),
{
    let sep: [u8; 2] = [13, 10];
    assert(sep@ =~= crlf());
    let mut rest = fields;
    loop
        invariant
            sep@ == crlf(),
            fields_ok(fields@) == fields_ok(rest@),
        decreases rest.len(),
    {
        if rest.len() == 0 {
            return true;
        }
        match split_once(rest, sep.as_slice()) {
            Some((line, tail)) => {
                proof {
                    lemma_cut_parts(rest@, crlf());
                }
                if !field_is_ok(line) {
                    return false;
                }
                rest = tail;
            },
            None => {
                return field_is_ok(rest);
            },
        }
    }
}

/// Whether `version` names a protocol version that is answered.
fn version_is_ok(version: &[u8]) -> (r: bool)
    ensures
        r == version_ok(version@),
{
    same_bytes(version, "HTTP/1.1".as_bytes()) || same_bytes(version, "HTTP/1.0".as_bytes())
}

/// Takes a request apart into method token, target and body.
pub fn frame<'a>(bytes: &'a [u8]) -> (r: Option<(&'a [u8], &'a [u8], &'a [u8])>)
    ensures
        match r {
            Some((method, target, body)) => framed(bytes@) == Some(
                FrameView { method: method@, target: target@, body: body@ },
            ),
            None => framed(bytes@) is None,
        },
{
    let end: [u8; 4] = [13, 10, 13, 10];
    let eol: [u8; 2] = [13, 10];
    let sp: [u8; 1] = [32];
    assert(end@ =~= blank_line());
    assert(eol@ =~= crlf());
    assert(sp@ =~= space());
    let (head, body) = match split_once(bytes, end.as_slice()) {
        Some(parts) => parts,
        None => {
            return None;
        },
    };
    let empty: [u8; 0] = [];
    assert(empty@ =~= Seq::<u8>::empty());
    let (line, fields) = match split_once(head, eol.as_slice()) {
        Some(parts) => parts,
        None => (head, empty.as_slice()),
    };
    let (method, rest) = match split_once(line, sp.as_slice()) {
        Some(parts) => parts,
        None => {
            return None;
        },
    };
    let (target, version) = match split_once(rest, sp.as_slice()) {
        Some(parts) => parts,
        None => {
            return None;
        },
    };
    if method.len() > 0 && target.len() > 0 && version_is_ok(version) && fields_are_ok(fields) {
        Some((method, target, body))
    } else {
        None
    }
}

/// The path of a request target.
pub fn path_in<'a>(target: &'a [u8]) -> (r: &'a [u8])
    ensures
        r@ == path_of(target@),
{
    let mark: [u8; 1] = [63];
    assert(mark@ =~= question_mark());
    match split_once(target, mark.as_slice()) {
        Some((path, _)) => path,
        None => target,
    }
}

/// Reads a request to the collection under `base` out of `bytes`.
pub fn parse_request(bytes: &[u8], base: &str) -> (r: Result<Request, ServiceError>)
    ensures
        match r {
            Ok(request) => parsed(bytes@, base@) == Ok::<RequestView, ServiceError>(request@),
            Err(e) => parsed(bytes@, base@) == Err::<RequestView, ServiceError>(e),
        },
{
    if bytes.len() > MAX_REQUEST_BYTES {
        return Err(ServiceError::MalformedRequest);
    }
    let (token, target_bytes, body) = match frame(bytes) {
        Some(parts) => parts,
        None => {
            return Err(ServiceError::MalformedRequest);
        },
    };
    let method = method_from(token);
    let path = path_in(target_bytes);
    let target = classify(path, base);
    if route(method, target).takes_payload() {
        match decode_fields(body) {
            Some(fields) => Ok(Request { method, path: slice_to_vec(path), target, body: Some(fields) }),
            None => Err(ServiceError::BadRequest),
        }
    } else {
        Ok(Request { method, path: slice_to_vec(path), target, body: None })
    }
}

impl Request {
    /// The id that the path names, where it is an item path.
    pub fn id(&self) -> (r: Option<i32>)
        ensures
            r == self.target.id_of(),
    {
        self.target.id()
    }

    /// The operation that the request asks for.
    pub fn operation(self) -> (r: Result<Operation, ServiceError>)
        ensures
            match r {
                Ok(op) => operation_of(self@) == Ok::<OperationView, ServiceError>(op@),
                Err(e) => operation_of(self@) == Err::<OperationView, ServiceError>(e),
            },
    {
        let id = match self.target {
            Target::Item(id) => id,
            _ => 0,
        };
        match route(self.method, self.target) {
            Route::List => Ok(Operation::List),
            Route::Fetch => Ok(Operation::Fetch(id)),
            Route::Create => match self.body {
                Some(fields) => Ok(Operation::Create(fields)),
                None => Err(ServiceError::BadRequest),
            },
            Route::Update => match self.body {
                Some(fields) => Ok(Operation::Update(id, fields)),
                None => Err(ServiceError::BadRequest),
            },
            Route::Delete => Ok(Operation::Delete(id)),
            Route::NotFound => Err(ServiceError::NotFound),
        }
    }
}

/// Reads a request to the collection under `base` out of `bytes` and finds
/// the operation that it asks for.
pub fn plan(bytes: &[u8], base: &str) -> (r: Result<Operation, ServiceError>)
    ensures
        match r {
            Ok(op) => planned(bytes@, base@) == Ok::<OperationView, ServiceError>(op@),
            Err(e) => planned(bytes@, base@) == Err::<OperationView, ServiceError>(e),
        },
{
    match parse_request(bytes, base) {
        Ok(request) => request.operation(),
        Err(e) => Err(e),
    }
}

} // verus!
