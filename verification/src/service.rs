//! One request from bytes to bytes against a table in memory, and what holds
//! of requests that follow one another.

use crate::error::ServiceError;
use crate::decimal::{decimal_digits, is_digit, lemma_decimal_round_trip};
use crate::request::{
    is_token, lemma_plain_request, parsed, plan, planned, request_bytes, RequestView,
    MAX_REQUEST_BYTES,
};
use crate::response::{
    answer, encode, encoded, refusal, refuse, respond, PayloadView, Response, ResponseView, Status,
};
use crate::route::{
    lemma_item_path_round_trip, lemma_method_tokens, method_of, target_of, Method, Operation,
    OperationView, Target,
};
use crate::store::{StoreReply, Table, TableView};
use crate::user::{FieldsView, UserView};
use vstd::prelude::*;
use vstd::utf8::{encode_utf8, is_ascii_chars_encode_utf8};

verus! {

/// The table after the request in `bytes`, and the response to it. A request
/// that asks nothing of the store leaves the table as it is.
pub open spec fn handled(table: TableView, bytes: Seq<u8>, base: Seq<char>) -> (
    TableView,
    ResponseView,
) {
    match planned(bytes, base) {
        Ok(op) => {
            let (next, reply) = table.apply(op);
            (next, answer(op, reply))
        },
        Err(e) => (table, refusal(e)),
    }
}

/// The table after each of `requests` in turn.
pub open spec fn after_all(table: TableView, requests: Seq<Seq<u8>>, base: Seq<char>) -> TableView
    decreases requests.len(),
{
    if requests.len() == 0 {
        table
    } else {
        handled(after_all(table, requests.drop_last(), base), requests.last(), base).0
    }
}

/// The rows that `fields` make under the ids from `first` on, in order.
pub open spec fn numbered(fields: Seq<FieldsView>, first: int) -> Seq<UserView> {
    Seq::new(fields.len(), |i: int| fields[i].with_id(first + i))
}

/// Serves the request in `bytes` against `table`.
pub fn handle(table: &mut Table, bytes: &[u8], base: &str) -> (r: Response)
    requires
        old(table).wf(),
    ensures
        final(table).wf(),
        (final(table)@, r@) == handled(old(table)@, bytes@, base@),
{
    match plan(bytes, base) {
        Ok(op) => {
            let reply = table.execute(&op);
            respond(&op, reply)
        },
        Err(e) => refuse(e),
    }
}

/// Serves the request in `bytes` against `table` and writes the response out.
pub fn serve(table: &mut Table, bytes: &[u8], base: &str) -> (r: Vec<u8>)
    requires
        old(table).wf(),
    ensures
        final(table).wf(),
        final(table)@ == handled(old(table)@, bytes@, base@).0,
        r@ == encoded(handled(old(table)@, bytes@, base@).1),
{
    let response = handle(table, bytes, base);
    encode(&response)
}

/// Serves the request in `bytes` against any store: `run` carries out the
/// operation that the request asks for and hands back the store's answer.
/// Where the request asks nothing of the store, `run` is not called.
pub fn serve_with<F: FnOnce(&Operation) -> StoreReply>(bytes: &[u8], base: &str, run: F) -> (r:
    Vec<u8>)
    requires
        forall|op: &Operation| call_requires(run, (op,)),
    ensures
        match planned(bytes@, base@) {
            Ok(asked) => exists|op: Operation, reply: StoreReply|
                op@ == asked && call_ensures(run, (&op,), reply) && r@ == encoded(
                    answer(asked, reply@),
                ),
            Err(e) => r@ == encoded(refusal(e)),
        },
{
    let response = match plan(bytes, base) {
        Ok(op) => {
            let reply = run(&op);
            respond(&op, reply)
        },
        Err(e) => refuse(e),
    };
    encode(&response)
}

/// Serving a request leaves a well-formed table well-formed.
pub proof fn lemma_handled_wf(table: TableView, bytes: Seq<u8>, base: Seq<char>)
    requires
        table.wf(),
    ensures
        handled(table, bytes, base).0.wf(),
{
    if let Ok(op) = planned(bytes, base) {
        table.lemma_apply_wf(op);
    }
}

/// A user that was created is fetched as it was created: a request that
/// creates a user from `fields`, on a table that has an id left, is answered
/// with 201 and the user under its new id, and a request for the id in that
/// answer, with nothing in between, is answered with 200 and the same user:
/// the posted name and email and the id that the table gave.
pub proof fn lemma_created_user_is_fetched(
    table: TableView,
    fields: FieldsView,
    post: Seq<u8>,
    get: Seq<u8>,
    base: Seq<char>,
)
    requires
        table.wf(),
        table.next_id <= i32::MAX,
        planned(post, base) == Ok::<OperationView, ServiceError>(OperationView::Create(fields)),
        handled(table, post, base).1.payload matches PayloadView::One(user) ==> planned(get, base)
            == Ok::<OperationView, ServiceError>(OperationView::Fetch(user.id)),
    ensures
        handled(table, post, base).1 == (ResponseView {
            status: Status::Created,
            payload: PayloadView::One(fields.with_id(table.next_id)),
        }),
        handled(handled(table, post, base).0, get, base) == (
            handled(table, post, base).0,
            ResponseView {
                status: Status::Success,
                payload: PayloadView::One(fields.with_id(table.next_id)),
            },
        ),
{
    let next = handled(table, post, base).0;
    table.lemma_apply_wf(OperationView::Create(fields));
    assert(next.at(table.next_id, table.rows.len() as int));
    next.lemma_position_unique(table.next_id, table.rows.len() as int);
}

/// Deleting is not repeated with success: whatever the first request to
/// delete a user was answered, a second one for the same id right after it
/// is answered with 404 and changes nothing.
pub proof fn lemma_second_delete_not_found(
    table: TableView,
    id: int,
    delete: Seq<u8>,
    base: Seq<char>,
)
    requires
        table.wf(),
        planned(delete, base) == Ok::<OperationView, ServiceError>(OperationView::Delete(id)),
    ensures
        handled(handled(table, delete, base).0, delete, base) == (
            handled(table, delete, base).0,
            ResponseView { status: Status::NotFound, payload: PayloadView::Empty },
        ),
{
    let next = handled(table, delete, base).0;
    if table.holds(id) {
        let k = table.position(id);
        assert(table.at(id, k));
        if next.holds(id) {
            let i = next.position(id);
            assert(next.at(id, i));
            let a = if i < k {
                i
            } else {
                i + 1
            };
            assert(next.rows[i] == table.rows[a]);
            assert(table.at(id, a));
            table.lemma_position_unique(id, a);
        }
    }
}

/// An update never creates: a request to update a user that does not exist
/// is answered with 404 and leaves the table as it is.
pub proof fn lemma_update_of_missing_user(
    table: TableView,
    id: int,
    fields: FieldsView,
    put: Seq<u8>,
    base: Seq<char>,
)
    requires
        planned(put, base) == Ok::<OperationView, ServiceError>(OperationView::Update(id, fields)),
        !table.holds(id),
    ensures
        handled(table, put, base) == (
            table,
            ResponseView { status: Status::NotFound, payload: PayloadView::Empty },
        ),
{
}

/// The list holds what was created: after requests that create users from
/// `fields[0]`, `fields[1]` and so on, with ids left for all of them, the
/// table holds its old rows and after them one row for each request, in the
/// order of the requests, with the fields of that request and the next free
/// id. A request for the list is then answered with 200 and exactly these
/// rows: on a table that was empty, as many users as were created.
#[verifier::rlimit(40)]
pub proof fn lemma_list_after_creates(
    table: TableView,
    fields: Seq<FieldsView>,
    posts: Seq<Seq<u8>>,
    list: Seq<u8>,
    base: Seq<char>,
)
    requires
        table.wf(),
        posts.len() == fields.len(),
        forall|i: int|
            0 <= i < posts.len() ==> planned(#[trigger] posts[i], base) == Ok::<
                OperationView,
                ServiceError,
            >(OperationView::Create(fields[i])),
        table.next_id + fields.len() <= i32::MAX + 1,
        planned(list, base) == Ok::<OperationView, ServiceError>(OperationView::List),
    ensures
        after_all(table, posts, base).wf(),
        after_all(table, posts, base).next_id == table.next_id + fields.len(),
        after_all(table, posts, base).rows == table.rows + numbered(fields, table.next_id),
        after_all(table, posts, base).rows.len() == table.rows.len() + posts.len(),
        handled(after_all(table, posts, base), list, base) == (
            after_all(table, posts, base),
            ResponseView {
                status: Status::Success,
                payload: PayloadView::Many(table.rows + numbered(fields, table.next_id)),
            },
        ),
    decreases posts.len(),
{
    if posts.len() == 0 {
        assert(table.rows + numbered(fields, table.next_id) =~= table.rows);
    } else {
        let before = after_all(table, posts.drop_last(), base);
        lemma_list_after_creates(table, fields.drop_last(), posts.drop_last(), list, base);
        before.lemma_apply_wf(OperationView::Create(fields.last()));
        assert(after_all(table, posts, base).rows =~= table.rows + numbered(
            fields,
            table.next_id,
        ));
    }
}

/// A method that is none of GET, POST, PUT and DELETE is answered with 404
/// under every path, the collection path included, and changes nothing.
pub proof fn lemma_unsupported_method_not_found(
    table: TableView,
    bytes: Seq<u8>,
    base: Seq<char>,
)
    requires
        parsed(bytes, base) matches Ok(request) && request.method == Method::Unsupported,
    ensures
        handled(table, bytes, base) == (
            table,
            ResponseView { status: Status::NotFound, payload: PayloadView::Empty },
        ),
{
}

/// A collection path that can stand in a request line as it is: its bytes
/// hold no space, no line end and no question mark.
pub open spec fn is_plain_path(base: Seq<char>) -> bool {
    &&& is_token(encode_utf8(base))
    &&& forall|i: int| 0 <= i < encode_utf8(base).len() ==> encode_utf8(base)[i] != 63
}

/// The collection path, a slash and an id in decimal make a target that
/// can stand in a request line as it is.
proof fn lemma_item_target_is_plain(base: Seq<char>, id: nat)
    requires
        is_plain_path(base),
    ensures
        is_token(encode_utf8(base) + encode_utf8("/"@) + decimal_digits(id)),
        forall|i: int|
            0 <= i < (encode_utf8(base) + encode_utf8("/"@) + decimal_digits(id)).len() ==> (
            encode_utf8(base) + encode_utf8("/"@) + decimal_digits(id))[i] != 63,
{
    let stem = encode_utf8(base);
    let digits = decimal_digits(id);
    let target = stem + encode_utf8("/"@) + digits;
    assert(encode_utf8("/"@) =~= seq![47u8]) by {
        reveal_strlit("/");
        is_ascii_chars_encode_utf8("/"@);
    }
    lemma_decimal_round_trip(id);
    assert forall|i: int| 0 <= i < target.len() implies target[i] != 32 && target[i] != 13
        && target[i] != 10 && target[i] != 63 by {
        if i < stem.len() {
            assert(target[i] == stem[i]);
        } else if i == stem.len() {
            assert(target[i] == 47);
        } else {
            assert(target[i] == digits[i - stem.len() - 1]);
            assert(is_digit(digits[i - stem.len() - 1]));
        }
    }
}

/// The request that a client makes of an id it was given, `GET`, the
/// collection path, a slash and the id in decimal, asks for the user under
/// that id.
#[verifier::rlimit(40)]
pub proof fn lemma_get_by_id_is_a_fetch(base: Seq<char>, id: int, body: Seq<u8>)
    requires
        is_plain_path(base),
        0 <= id <= i32::MAX,
        request_bytes(
            encode_utf8("GET"@),
            encode_utf8(base) + encode_utf8("/"@) + decimal_digits(id as nat),
            body,
        ).len() <= MAX_REQUEST_BYTES,
    ensures
        planned(
            request_bytes(
                encode_utf8("GET"@),
                encode_utf8(base) + encode_utf8("/"@) + decimal_digits(id as nat),
                body,
            ),
            base,
        ) == Ok::<OperationView, ServiceError>(OperationView::Fetch(id)),
{
    let method = encode_utf8("GET"@);
    let target = encode_utf8(base) + encode_utf8("/"@) + decimal_digits(id as nat);
    let bytes = request_bytes(method, target, body);
    assert(is_token(method)) by {
        reveal_strlit("GET");
        is_ascii_chars_encode_utf8("GET"@);
    }
    lemma_item_target_is_plain(base, id as nat);
    assert(method_of(method) == Method::Get) by {
        lemma_method_tokens();
    }
    assert(target_of(target, base) == Target::Item(id as i32)) by {
        lemma_item_path_round_trip(base, id);
    }
    assert(parsed(bytes, base) == Ok::<RequestView, ServiceError>(
        RequestView { method: Method::Get, path: target, target: Target::Item(id as i32), body: None },
    )) by {
        lemma_plain_request(method, target, body, base);
    }
}

/// Create, then fetch by the path of the new id: after a request that
/// creates a user from `fields`, on a table that has an id left, the request
/// `GET`, collection path, slash, the new id in decimal is answered with 200
/// and the user that the first answer carried.
pub proof fn lemma_created_user_is_fetched_by_path(
    table: TableView,
    fields: FieldsView,
    post: Seq<u8>,
    base: Seq<char>,
    body: Seq<u8>,
)
    requires
        table.wf(),
        table.next_id <= i32::MAX,
        is_plain_path(base),
        planned(post, base) == Ok::<OperationView, ServiceError>(OperationView::Create(fields)),
        request_bytes(
            encode_utf8("GET"@),
            encode_utf8(base) + encode_utf8("/"@) + decimal_digits(table.next_id as nat),
            body,
        ).len() <= MAX_REQUEST_BYTES,
    ensures
        handled(table, post, base).1 == (ResponseView {
            status: Status::Created,
            payload: PayloadView::One(fields.with_id(table.next_id)),
        }),
        handled(
            handled(table, post, base).0,
            request_bytes(
                encode_utf8("GET"@),
                encode_utf8(base) + encode_utf8("/"@) + decimal_digits(table.next_id as nat),
                body,
            ),
            base,
        ).1 == (ResponseView {
            status: Status::Success,
            payload: PayloadView::One(fields.with_id(table.next_id)),
        }),
{
    let get = request_bytes(
        encode_utf8("GET"@),
        encode_utf8(base) + encode_utf8("/"@) + decimal_digits(table.next_id as nat),
        body,
    );
    lemma_get_by_id_is_a_fetch(base, table.next_id, body);
    lemma_created_user_is_fetched(table, fields, post, get, base);
}

/// `PATCH` on the collection path is answered with 404 and changes nothing.
#[verifier::rlimit(40)]
pub proof fn lemma_patch_on_collection_not_found(table: TableView, base: Seq<char>, body: Seq<u8>)
    requires
        is_plain_path(base),
        request_bytes(encode_utf8("PATCH"@), encode_utf8(base), body).len() <= MAX_REQUEST_BYTES,
    ensures
        target_of(encode_utf8(base), base) == Target::Collection,
        handled(table, request_bytes(encode_utf8("PATCH"@), encode_utf8(base), body), base) == (
            table,
            ResponseView { status: Status::NotFound, payload: PayloadView::Empty },
        ),
{
    let method = encode_utf8("PATCH"@);
    let target = encode_utf8(base);
    let bytes = request_bytes(method, target, body);
    assert(is_token(method)) by {
        reveal_strlit("PATCH");
        is_ascii_chars_encode_utf8("PATCH"@);
    }
    assert(method_of(method) == Method::Unsupported) by {
        lemma_method_tokens();
    }
    assert(parsed(bytes, base) == Ok::<RequestView, ServiceError>(
        RequestView {
            method: Method::Unsupported,
            path: target,
            target: Target::Collection,
            body: None,
        },
    )) by {
        lemma_plain_request(method, target, body, base);
    }
}

} // verus!
