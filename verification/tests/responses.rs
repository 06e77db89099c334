use rust_crud_api::error::{ServiceError, StoreError};
use rust_crud_api::json::{write_text, write_user, write_users};
use rust_crud_api::response::{encode, refuse, respond, Payload, Response, Status};
use rust_crud_api::route::Operation;
use rust_crud_api::store::StoreReply;
use rust_crud_api::user::{User, UserFields};

fn user(id: i32, name: &str, email: &str) -> User {
    User { id, name: name.to_string(), email: email.to_string() }
}

fn fields(name: &str, email: &str) -> UserFields {
    UserFields { name: name.to_string(), email: email.to_string() }
}

fn text(bytes: Vec<u8>) -> String {
    String::from_utf8(bytes).unwrap()
}

#[test]
fn status_codes_and_reason_phrases() {
    assert_eq!((Status::Success.code(), Status::Success.reason()), (200, "OK"));
    assert_eq!((Status::Created.code(), Status::Created.reason()), (201, "Created"));
    assert_eq!((Status::BadRequest.code(), Status::BadRequest.reason()), (400, "Bad Request"));
    assert_eq!((Status::NotFound.code(), Status::NotFound.reason()), (404, "Not Found"));
    assert_eq!(
        (Status::InternalServerError.code(), Status::InternalServerError.reason()),
        (500, "Internal Server Error")
    );
}

#[test]
fn each_error_has_its_status() {
    assert_eq!(
        refuse(ServiceError::MalformedRequest),
        Response { status: Status::BadRequest, payload: Payload::Empty }
    );
    assert_eq!(
        refuse(ServiceError::BadRequest),
        Response { status: Status::BadRequest, payload: Payload::Empty }
    );
    assert_eq!(
        refuse(ServiceError::NotFound),
        Response { status: Status::NotFound, payload: Payload::Empty }
    );
    assert_eq!(
        refuse(ServiceError::Store(StoreError::Unavailable)),
        Response { status: Status::InternalServerError, payload: Payload::Empty }
    );
    assert_eq!(
        refuse(ServiceError::Store(StoreError::Rejected)),
        Response { status: Status::InternalServerError, payload: Payload::Empty }
    );
}

#[test]
fn a_response_without_a_body_is_a_status_line_and_a_blank_line() {
    let encoded = encode(&Response { status: Status::NotFound, payload: Payload::Empty });
    assert_eq!(text(encoded), "HTTP/1.1 404 Not Found\r\n\r\n");
    let encoded = encode(&Response { status: Status::Success, payload: Payload::Empty });
    assert_eq!(text(encoded), "HTTP/1.1 200 OK\r\n\r\n");
    let encoded = encode(&Response { status: Status::BadRequest, payload: Payload::Empty });
    assert_eq!(text(encoded), "HTTP/1.1 400 Bad Request\r\n\r\n");
    let encoded =
        encode(&Response { status: Status::InternalServerError, payload: Payload::Empty });
    assert_eq!(text(encoded), "HTTP/1.1 500 Internal Server Error\r\n\r\n");
}

#[test]
fn a_response_with_a_user_names_the_content_type() {
    let encoded = encode(&Response {
        status: Status::Created,
        payload: Payload::One(user(1, "Ana", "ana@x.com")),
    });
    assert_eq!(
        text(encoded),
        "HTTP/1.1 201 Created\r\nContent-Type: application/json\r\n\r\n{\"id\":1,\"name\":\"Ana\",\"email\":\"ana@x.com\"}"
    );
}

#[test]
fn a_response_with_a_list_is_a_json_array() {
    let encoded = encode(&Response {
        status: Status::Success,
        payload: Payload::Many(vec![user(1, "Ana", "ana@x.com"), user(2, "Bo", "bo@y.org")]),
    });
    assert_eq!(
        text(encoded),
        "HTTP/1.1 200 OK\r\nContent-Type: application/json\r\n\r\n[{\"id\":1,\"name\":\"Ana\",\"email\":\"ana@x.com\"},{\"id\":2,\"name\":\"Bo\",\"email\":\"bo@y.org\"}]"
    );
}

#[test]
fn an_empty_list_still_has_a_body() {
    let encoded = encode(&Response { status: Status::Success, payload: Payload::Many(vec![]) });
    assert_eq!(text(encoded), "HTTP/1.1 200 OK\r\nContent-Type: application/json\r\n\r\n[]");
}

#[test]
fn no_other_header_is_written() {
    let encoded =
        text(encode(&Response { status: Status::Success, payload: Payload::One(user(5, "a", "b")) }));
    let head = encoded.split("\r\n\r\n").next().unwrap();
    assert_eq!(head.lines().count(), 2);
    assert!(!encoded.contains("Content-Length"));
    assert!(!encoded.contains("Connection"));
}

#[test]
fn texts_are_written_as_json_strings() {
    let mut out = Vec::new();
    write_user(&mut out, &user(-3, "a\"b\\c", "line\nbreak\ttab\u{1}"));
    assert_eq!(
        text(out),
        "{\"id\":-3,\"name\":\"a\\\"b\\\\c\",\"email\":\"line\\nbreak\\ttab\\u0001\"}"
    );
    let mut out = Vec::new();
    write_user(&mut out, &user(2147483647, "Zoë", ""));
    assert_eq!(text(out), "{\"id\":2147483647,\"name\":\"Zoë\",\"email\":\"\"}");
}

#[test]
fn write_users_separates_with_commas() {
    let mut out = b">".to_vec();
    write_users(&mut out, &vec![]);
    assert_eq!(out, b">[]".to_vec());
    let mut out = b">".to_vec();
    write_users(&mut out, &vec![user(1, "a", "b")]);
    assert_eq!(text(out), ">[{\"id\":1,\"name\":\"a\",\"email\":\"b\"}]");
    let mut out = Vec::new();
    write_users(&mut out, &vec![user(1, "a", "b"), user(2, "c", "d"), user(3, "e", "f")]);
    assert_eq!(
        text(out),
        "[{\"id\":1,\"name\":\"a\",\"email\":\"b\"},{\"id\":2,\"name\":\"c\",\"email\":\"d\"},{\"id\":3,\"name\":\"e\",\"email\":\"f\"}]"
    );
}

#[test]
fn write_text_appends_utf8() {
    let mut out = b"a".to_vec();
    write_text(&mut out, "bö");
    assert_eq!(out, vec![b'a', b'b', 0xc3, 0xb6]);
}

#[test]
fn respond_to_a_list() {
    let users = vec![user(1, "a", "b")];
    assert_eq!(
        respond(&Operation::List, StoreReply::Listed(users.clone())),
        Response { status: Status::Success, payload: Payload::Many(users) }
    );
}

#[test]
fn respond_to_a_fetch() {
    assert_eq!(
        respond(&Operation::Fetch(1), StoreReply::Fetched(Some(user(1, "a", "b")))),
        Response { status: Status::Success, payload: Payload::One(user(1, "a", "b")) }
    );
    assert_eq!(
        respond(&Operation::Fetch(1), StoreReply::Fetched(None)),
        Response { status: Status::NotFound, payload: Payload::Empty }
    );
}

#[test]
fn respond_to_a_create() {
    assert_eq!(
        respond(&Operation::Create(fields("Ana", "ana@x.com")), StoreReply::Created(12)),
        Response { status: Status::Created, payload: Payload::One(user(12, "Ana", "ana@x.com")) }
    );
}

#[test]
fn respond_to_an_update_and_a_delete() {
    let done = Response { status: Status::Success, payload: Payload::Empty };
    let missing = Response { status: Status::NotFound, payload: Payload::Empty };
    assert_eq!(respond(&Operation::Update(1, fields("a", "b")), StoreReply::Updated(true)), done);
    assert_eq!(respond(&Operation::Update(1, fields("a", "b")), StoreReply::Updated(false)), missing);
    assert_eq!(respond(&Operation::Delete(1), StoreReply::Deleted(true)), done);
    assert_eq!(respond(&Operation::Delete(1), StoreReply::Deleted(false)), missing);
}

#[test]
fn a_failure_of_the_store_is_a_500_without_a_body() {
    let failure = Response { status: Status::InternalServerError, payload: Payload::Empty };
    for op in [
        Operation::List,
        Operation::Fetch(1),
        Operation::Create(fields("a", "b")),
        Operation::Update(1, fields("a", "b")),
        Operation::Delete(1),
    ] {
        assert_eq!(respond(&op, StoreReply::Failed(StoreError::Unavailable)), failure);
        assert_eq!(respond(&op, StoreReply::Failed(StoreError::Rejected)), failure);
    }
}

#[test]
fn an_answer_to_another_operation_is_a_500() {
    let failure = Response { status: Status::InternalServerError, payload: Payload::Empty };
    assert_eq!(respond(&Operation::List, StoreReply::Created(1)), failure);
    assert_eq!(respond(&Operation::Fetch(1), StoreReply::Listed(vec![])), failure);
    assert_eq!(respond(&Operation::Create(fields("a", "b")), StoreReply::Updated(true)), failure);
    assert_eq!(respond(&Operation::Update(1, fields("a", "b")), StoreReply::Deleted(true)), failure);
    assert_eq!(respond(&Operation::Delete(1), StoreReply::Fetched(None)), failure);
}
