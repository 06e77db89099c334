//! JSON at the edge of the service: the payload of a request body and the
//! text of a response body.
//!
//! Reading and escaping JSON is the work of `serde_json`. What this module
//! believes of it is stated in the three names below and in the contracts of
//! the private functions that make the calls; everything else is proved.

use crate::decimal::{signed_decimal, write_signed};
use crate::user::{rows_of, FieldsView, User, UserFields, UserView};
use vstd::prelude::*;
use vstd::utf8::encode_utf8;

verus! {

/// `serde_json::Value`, a parsed JSON value. Nothing is known of what is
/// inside one but what `value_texts` names.
#[verifier::external_type_specification]
#[verifier::external_body]
pub struct ExValue(serde_json::Value);

/// The members of a parsed JSON value that are strings, by key: the map is
/// empty unless the value is an object, and holds a key of the object exactly
/// when the value under that key is a JSON string.
pub uninterp spec fn value_texts(doc: serde_json::Value) -> Map<Seq<char>, Seq<char>>;

/// What `serde_json` reads out of `body`: `None` where `body` is not one
/// complete JSON text, else the string members of the value it holds.
pub uninterp spec fn document_texts(body: Seq<u8>) -> Option<Map<Seq<char>, Seq<char>>>;

/// The JSON string literal that `serde_json` writes for `text`: the text
/// between double quotes, with the escapes that JSON asks for.
pub uninterp spec fn json_string(text: Seq<char>) -> Seq<u8>;

/// Calls `serde_json::from_slice` for a `serde_json::Value`. Believed: the
/// call fails or succeeds by the bytes alone, and on success the string
/// members of the value are those that `document_texts` names for the bytes.
#[verifier::external_body]
fn parse_document(body: &[u8]) -> (r: Option<serde_json::Value>)
    ensures
        match r {
            Some(doc) => document_texts(body@) == Some(value_texts(doc)),
            None => document_texts(body@) is None,
        },
{
    match serde_json::from_slice::<serde_json::Value>(body) {
        Ok(doc) => Some(doc),
        Err(_) => None,
    }
}

/// Calls `serde_json::Value::get` with a string key. Believed: the result is
/// the member under `key` where the value is an object that holds a string
/// there, which is what `value_texts` collects, and `None` in every other case.
#[verifier::external_body]
fn text_member(doc: &serde_json::Value, key: &str) -> (r: Option<String>)
    ensures
        match r {
            Some(text) => value_texts(*doc).contains_key(key@) && value_texts(*doc)[key@] == text@,
            None => !value_texts(*doc).contains_key(key@),
        },
{
    match doc.get(key) {
        Some(serde_json::Value::String(text)) => Some(text.clone()),
        Some(_) => None,
        None => None,
    }
}

/// Calls `serde_json::to_vec` on a string slice. Believed: the bytes written
/// depend on the text alone. Writing a string into a byte vector cannot fail.
#[verifier::external_body]
fn quote(text: &str) -> (r: Vec<u8>)
    ensures
        r@ == json_string(text@),
{
    serde_json::to_vec(text).unwrap_or_default()
}

/// The text under `key` in a map of string members, if there is one.
pub open spec fn member(texts: Map<Seq<char>, Seq<char>>, key: Seq<char>) -> Option<Seq<char>> {
    if texts.contains_key(key) {
        Some(texts[key])
    } else {
        None
    }
}

/// The content of an optional string.
pub open spec fn text_of(text: Option<String>) -> Option<Seq<char>> {
    match text {
        Some(t) => Some(t@),
        None => None,
    }
}

/// The payload that a name and an email make: both must be there and both
/// must be non-empty.
pub open spec fn accepted(name: Option<Seq<char>>, email: Option<Seq<char>>) -> Option<
    FieldsView,
> {
    match (name, email) {
        (Some(n), Some(e)) => if n.len() > 0 && e.len() > 0 {
            Some(FieldsView { name: n, email: e })
        } else {
            None
        },
        _ => None,
    }
}

/// The payload that the request body `body` carries: `body` must be a JSON
/// text whose value is an object with non-empty string members `name` and
/// `email`. Other members, an `id` among them, are ignored.
pub open spec fn payload_of(body: Seq<u8>) -> Option<FieldsView> {
    match document_texts(body) {
        Some(texts) => accepted(member(texts, "name"@), member(texts, "email"@)),
        None => None,
    }
}

/// The JSON object that stands for a user in a response body.
pub open spec fn user_json(u: UserView) -> Seq<u8> {
    encode_utf8("{\"id\":"@) + signed_decimal(u.id) + encode_utf8(",\"name\":"@) + json_string(
        u.name,
    ) + encode_utf8(",\"email\":"@) + json_string(u.email) + encode_utf8("}"@)
}

/// The JSON objects of `users`, in order, with a comma between neighbours.
pub open spec fn users_joined(users: Seq<UserView>) -> Seq<u8>
    decreases users.len(),
{
    if users.len() == 0 {
        Seq::empty()
    } else if users.len() == 1 {
        user_json(users[0])
    } else {
        users_joined(users.drop_last()) + encode_utf8(","@) + user_json(users.last())
    }
}

/// The JSON array that stands for a list of users in a response body.
pub open spec fn users_json(users: Seq<UserView>) -> Seq<u8> {
    encode_utf8("["@) + users_joined(users) + encode_utf8("]"@)
}

/// Makes a payload of a name and an email where both are there and non-empty.
pub fn accept_fields(name: Option<String>, email: Option<String>) -> (r: Option<UserFields>)
    ensures
        match r {
            Some(fields) => accepted(text_of(name), text_of(email)) == Some(fields@),
            None => accepted(text_of(name), text_of(email)) is None,
        },
{
    match (name, email) {
        (Some(n), Some(e)) => {
            let fields = UserFields { name: n, email: e };
            if fields.is_valid() {
                Some(fields)
            } else {
                None
            }
        },
        _ => None,
    }
}

/// Reads the payload out of a request body.
pub fn decode_fields(body: &[u8]) -> (r: Option<UserFields>)
    ensures
        match r {
            Some(fields) => payload_of(body@) == Some(fields@),
            None => payload_of(body@) is None,
        },
{
    match parse_document(body) {
        Some(doc) => {
            let name = text_member(&doc, "name");
            let email = text_member(&doc, "email");
            accept_fields(name, email)
        },
        None => None,
    }
}

/// Appends the UTF-8 bytes of `text`.
pub fn write_text(out: &mut Vec<u8>, text: &str)
    ensures
        final(out)@ == old(out)@ + encode_utf8(text@),
{
    out.extend_from_slice(text.as_bytes());
}

/// Appends the JSON object of one user.
pub fn write_user(out: &mut Vec<u8>, user: &User)
    ensures
        final(out)@ == old(out)@ + user_json(user@),
{
    write_text(out, "{\"id\":");
    write_signed(out, user.id);
    write_text(out, ",\"name\":");
    let mut name = quote(user.name.as_str());
    out.append(&mut name);
    write_text(out, ",\"email\":");
    let mut email = quote(user.email.as_str());
    out.append(&mut email);
    write_text(out, "}");
    assert(out@ =~= old(out)@ + user_json(user@));
}

/// Appends the JSON array of a list of users.
pub fn write_users(out: &mut Vec<u8>, users: &Vec<User>)
    ensures
        final(out)@ == old(out)@ + users_json(rows_of(users@)),
{
    write_text(out, "[");
    let ghost start = out@;
    let mut i: usize = 0;
    while i < users.len()
        invariant
            i <= users.len(),
            out@ == start + users_joined(rows_of(users@).take(i as int)),
        decreases users.len() - i,
    {
        if i > 0 {
            write_text(out, ",");
        }
        write_user(out, &users[i]);
        proof {
            let rows = rows_of(users@);
            assert(rows.take(i + 1).drop_last() =~= rows.take(i as int));
            assert(rows.take(i + 1).last() == users@[i as int]@);
            if i == 0 {
                assert(rows.take(0) =~= Seq::<UserView>::empty());
                assert(users_joined(rows.take(0)) =~= Seq::<u8>::empty());
                assert(rows.take(1)[0] == users@[0]@);
            }
            assert(out@ =~= start + users_joined(rows.take(i + 1)));
        }
        i += 1;
    }
    assert(rows_of(users@).take(i as int) =~= rows_of(users@));
    write_text(out, "]");
    assert(out@ =~= old(out)@ + users_json(rows_of(users@)));
}

} // verus!
