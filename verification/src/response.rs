//! From the store's answer to a response, and from a response to the bytes
//! that go out on the connection.

use crate::decimal::{decimal_digits, write_decimal};
use crate::error::{ServiceError, StoreError};
use crate::json::{user_json, users_json, write_text, write_user, write_users};
use crate::request::crlf;
use crate::route::{Operation, OperationView};
use crate::store::{StoreReply, StoreReplyView};
use crate::user::{rows_of, User, UserView};
use vstd::prelude::*;
use vstd::utf8::encode_utf8;

verus! {

/// The status of a response.
#[derive(Clone, Copy, Debug, PartialEq, Eq, Structural)]
pub enum Status {
    Success,
    Created,
    BadRequest,
    NotFound,
    InternalServerError,
}

impl Status {
    /// The status code.
    pub open spec fn code_of(self) -> nat {
        match self {
            Status::Success => 200,
            Status::Created => 201,
            Status::BadRequest => 400,
            Status::NotFound => 404,
            Status::InternalServerError => 500,
        }
    }

    /// The reason phrase that goes with the status code.
    pub open spec fn reason_of(self) -> Seq<char> {
        match self {
            Status::Success => "OK"@,
            Status::Created => "Created"@,
            Status::BadRequest => "Bad Request"@,
            Status::NotFound => "Not Found"@,
            Status::InternalServerError => "Internal Server Error"@,
        }
    }

    /// The status code.
    pub fn code(&self) -> (r: u16)
        ensures
            r == self.code_of(),
    {
        match self {
            Status::Success => 200,
            Status::Created => 201,
            Status::BadRequest => 400,
            Status::NotFound => 404,
            Status::InternalServerError => 500,
        }
    }

    /// The reason phrase that goes with the status code.
    pub fn reason(&self) -> (r: &'static str)
        ensures
            r@ == self.reason_of(),
    {
        match self {
            Status::Success => "OK",
            Status::Created => "Created",
            Status::BadRequest => "Bad Request",
            Status::NotFound => "Not Found",
            Status::InternalServerError => "Internal Server Error",
        }
    }
}

/// What a response carries in its body.
#[derive(Clone, Debug, PartialEq, Eq)]
pub enum Payload {
    /// No body.
    Empty,
    /// One user, written as a JSON object.
    One(User),
    /// A list of users, written as a JSON array.
    Many(Vec<User>),
}

/// The mathematical content of a [`Payload`].
pub enum PayloadView {
    Empty,
    One(UserView),
    Many(Seq<UserView>),
}

impl View for Payload {
    type V = PayloadView;

    open spec fn view(&self) -> PayloadView {
        match *self {
            Payload::Empty => PayloadView::Empty,
            Payload::One(user) => PayloadView::One(user@),
            Payload::Many(users) => PayloadView::Many(rows_of(users@)),
        }
    }
}

/// A response before it is written out.
#[derive(Clone, Debug, PartialEq, Eq)]
pub struct Response {
    pub status: Status,
    pub payload: Payload,
}

/// The mathematical content of a [`Response`].
pub struct ResponseView {
    pub status: Status,
    pub payload: PayloadView,
}

impl View for Response {
    type V = ResponseView;

    open spec fn view(&self) -> ResponseView {
        ResponseView { status: self.status, payload: self.payload@ }
    }
}

/// The status that reports `e`.
pub open spec fn status_of(e: ServiceError) -> Status {
    match e {
        ServiceError::MalformedRequest => Status::BadRequest,
        ServiceError::BadRequest => Status::BadRequest,
        ServiceError::NotFound => Status::NotFound,
        ServiceError::Store(_) => Status::InternalServerError,
    }
}

/// The response that reports `e`: its status, and no body.
pub open spec fn refusal(e: ServiceError) -> ResponseView {
    ResponseView { status: status_of(e), payload: PayloadView::Empty }
}

/// The response to `op` once the store has answered `reply`.
///
/// A failure of the store is a 500 without a body. A user that is not there
/// is a 404 without a body. A list or a user that was found is a 200 with
/// that body, a new user a 201 with the user as the store now holds it, a
/// change or a removal a 200 without a body. An answer that belongs to
/// another kind of operation counts as a failure of the store.
pub open spec fn answer(op: OperationView, reply: StoreReplyView) -> ResponseView {
    match (op, reply) {
        (_, StoreReplyView::Failed(e)) => refusal(ServiceError::Store(e)),
        (OperationView::List, StoreReplyView::Listed(users)) => ResponseView {
            status: Status::Success,
            payload: PayloadView::Many(users),
        },
        (OperationView::Fetch(_), StoreReplyView::Fetched(Some(user))) => ResponseView {
            status: Status::Success,
            payload: PayloadView::One(user),
        },
        (OperationView::Fetch(_), StoreReplyView::Fetched(None)) => refusal(
            ServiceError::NotFound,
        ),
        (OperationView::Create(fields), StoreReplyView::Created(id)) => ResponseView {
            status: Status::Created,
            payload: PayloadView::One(fields.with_id(id)),
        },
        (OperationView::Update(_, _), StoreReplyView::Updated(done)) => if done {
            ResponseView { status: Status::Success, payload: PayloadView::Empty }
        } else {
            refusal(ServiceError::NotFound)
        },
        (OperationView::Delete(_), StoreReplyView::Deleted(done)) => if done {
            ResponseView { status: Status::Success, payload: PayloadView::Empty }
        } else {
            refusal(ServiceError::NotFound)
        },
        _ => refusal(ServiceError::Store(StoreError::Unavailable)),
    }
}

/// The status line: protocol version, status code, reason phrase, CR LF.
pub open spec fn status_line(status: Status) -> Seq<u8> {
    encode_utf8("HTTP/1.1 "@) + decimal_digits(status.code_of()) + encode_utf8(" "@) + encode_utf8(
        status.reason_of(),
    ) + crlf()
}

/// The body that stands for `payload`, if it has one.
pub open spec fn body_of(payload: PayloadView) -> Option<Seq<u8>> {
    match payload {
        PayloadView::Empty => None,
        PayloadView::One(user) => Some(user_json(user)),
        PayloadView::Many(users) => Some(users_json(users)),
    }
}

/// The bytes of a response: the status line, the content type where there is
/// a body, a blank line, and the body. Without a body the response ends with
/// the blank line and names no content type.
pub open spec fn encoded(response: ResponseView) -> Seq<u8> {
    match body_of(response.payload) {
        Some(body) => status_line(response.status) + encode_utf8(
            "Content-Type: application/json"@,
        ) + crlf() + crlf() + body,
        None => status_line(response.status) + crlf(),
    }
}

/// The response that reports `e`.
pub fn refuse(e: ServiceError) -> (r: Response)
    ensures
        r@ == refusal(e),
{
    let status = match e {
        ServiceError::MalformedRequest => Status::BadRequest,
        ServiceError::BadRequest => Status::BadRequest,
        ServiceError::NotFound => Status::NotFound,
        ServiceError::Store(_) => Status::InternalServerError,
    };
    Response { status, payload: Payload::Empty }
}

/// Makes the response to `op` out of the store's answer.
pub fn respond(op: &Operation, reply: StoreReply) -> (r: Response)
    ensures
        r@ == answer(op@, reply@),
{
    let failure = Response { status: Status::InternalServerError, payload: Payload::Empty };
    let missing = Response { status: Status::NotFound, payload: Payload::Empty };
    let done = Response { status: Status::Success, payload: Payload::Empty };
    match reply {
        StoreReply::Failed(_) => failure,
        StoreReply::Listed(users) => match op {
            Operation::List => Response { status: Status::Success, payload: Payload::Many(users) },
            _ => failure,
        },
        StoreReply::Fetched(found) => match op {
            Operation::Fetch(_) => match found {
                Some(user) => Response { status: Status::Success, payload: Payload::One(user) },
                None => missing,
            },
            _ => failure,
        },
        StoreReply::Created(id) => match op {
            Operation::Create(fields) => Response {
                status: Status::Created,
                payload: Payload::One(fields.duplicate().with_id(id)),
            },
            _ => failure,
        },
        StoreReply::Updated(changed) => match op {
            Operation::Update(_, _) => if changed {
                done
            } else {
                missing
            },
            _ => failure,
        },
        StoreReply::Deleted(removed) => match op {
            Operation::Delete(_) => if removed {
                done
            } else {
                missing
            },
            _ => failure,
        },
    }
}

/// Appends CR LF.
fn write_line_end(out: &mut Vec<u8>)
    ensures
        final(out)@ == old(out)@ + crlf(),
{
    out.push(13);
    out.push(10);
    assert(out@ =~= old(out)@ + crlf());
}

/// Writes a response out as bytes.
pub fn encode(response: &Response) -> (r: Vec<u8>)
    ensures
        r@ == encoded(response@),
{
    let mut out: Vec<u8> = Vec::new();
    write_text(&mut out, "HTTP/1.1 ");
    write_decimal(&mut out, response.status.code() as u32);
    write_text(&mut out, " ");
    write_text(&mut out, response.status.reason());
    write_line_end(&mut out);
    assert(out@ =~= status_line(response@.status));
    match &response.payload {
        Payload::Empty => {
            write_line_end(&mut out);
        },
        Payload::One(user) => {
            write_text(&mut out, "Content-Type: application/json");
            write_line_end(&mut out);
            write_line_end(&mut out);
            write_user(&mut out, user);
        },
        Payload::Many(users) => {
            write_text(&mut out, "Content-Type: application/json");
            write_line_end(&mut out);
            write_line_end(&mut out);
            write_users(&mut out, users);
        },
    }
    assert(out@ =~= encoded(response@));
    out
}

} // verus!
