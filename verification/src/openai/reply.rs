//! HTTP replies as plain data.

use vstd::prelude::*;

use crate::json::{Json, JsonV};
use crate::text::views;

verus! {

/// A header of a reply.
#[derive(Debug)]
pub struct Header {
    pub name: String,
    pub value: String,
}

impl View for Header {
    type V = (Seq<char>, Seq<char>);

    open spec fn view(&self) -> (Seq<char>, Seq<char>) {
        (self.name@, self.value@)
    }
}

/// A reply with a JSON body.
#[derive(Debug)]
pub struct Reply {
    pub status: u16,
    pub headers: Vec<Header>,
    pub body: Json,
}

pub struct ReplyV {
    pub status: u16,
    pub headers: Seq<(Seq<char>, Seq<char>)>,
    pub body: JsonV,
}

impl View for Reply {
    type V = ReplyV;

    open spec fn view(&self) -> ReplyV {
        ReplyV { status: self.status, headers: views(self.headers@), body: self.body@ }
    }
}

/// A reply without headers.
pub open spec fn plain_reply(status: u16, body: JsonV) -> ReplyV {
    ReplyV { status, headers: Seq::empty(), body }
}

/// A reply that tells the client to retry after five seconds.
pub open spec fn retry_reply(status: u16, body: JsonV) -> ReplyV {
    ReplyV { status, headers: seq![("Retry-After"@, "5"@)], body }
}

impl Reply {
    /// A reply without headers.
    pub fn plain(status: u16, body: Json) -> (r: Reply)
        ensures
            r@ == plain_reply(status, body@),
    {
        let r = Reply { status, headers: Vec::new(), body };
        proof {
            assert(views(r.headers@) =~= Seq::empty());
        }
        r
    }

    /// A reply that tells the client to retry after five seconds.
    pub fn retry(status: u16, body: Json) -> (r: Reply)
        ensures
            r@ == retry_reply(status, body@),
    {
        let mut headers: Vec<Header> = Vec::new();
        headers.push(Header { name: "Retry-After".to_owned(), value: "5".to_owned() });
        let r = Reply { status, headers, body };
        proof {
            assert(views(r.headers@) =~= seq![("Retry-After"@, "5"@)]);
        }
        r
    }
}

/// The body of an error: its message and its type.
pub open spec fn error_body(error_type: Seq<char>, message: Seq<char>) -> JsonV {
    JsonV::object().with(
        "error"@,
        JsonV::object().with("message"@, JsonV::Str(message)).with(
            "type"@,
            JsonV::Str(error_type),
        ),
    )
}

/// The body of an error: its message and its type.
pub fn make_error_body(error_type: &str, message: &str) -> (r: Json)
    ensures
        r@ == error_body(error_type@, message@),
{
    Json::object().with(
        "error",
        Json::object().with("message", Json::string(message)).with(
            "type",
            Json::string(error_type),
        ),
    )
}

/// An error reply.
pub open spec fn error_reply(status: u16, error_type: Seq<char>, message: Seq<char>) -> ReplyV {
    plain_reply(status, error_body(error_type, message))
}

/// The reply to an invalid request.
pub open spec fn bad_request_reply(message: Seq<char>) -> ReplyV {
    error_reply(400, "invalid_request_error"@, message)
}

/// The reply when a model cannot serve.
pub open spec fn unavailable_reply(message: Seq<char>) -> ReplyV {
    error_reply(503, "service_unavailable"@, message)
}

/// The reply to an internal failure.
pub open spec fn internal_reply(message: Seq<char>) -> ReplyV {
    error_reply(500, "internal_error"@, message)
}

/// An error reply.
pub fn error_response(status: u16, error_type: &str, message: &str) -> (r: Reply)
    ensures
        r@ == error_reply(status, error_type@, message@),
{
    Reply::plain(status, make_error_body(error_type, message))
}

/// The reply to an invalid request.
pub fn bad_request(message: &str) -> (r: Reply)
    ensures
        r@ == bad_request_reply(message@),
{
    error_response(400, "invalid_request_error", message)
}

/// The reply when a model cannot serve.
pub fn service_unavailable(message: &str) -> (r: Reply)
    ensures
        r@ == unavailable_reply(message@),
{
    error_response(503, "service_unavailable", message)
}

/// The reply to an internal failure.
pub fn internal_error(message: &str) -> (r: Reply)
    ensures
        r@ == internal_reply(message@),
{
    error_response(500, "internal_error", message)
}

/// A reply to be retried says so in one header, of five seconds; a plain one has none.
pub proof fn law_retries_are_announced(status: u16, body: Json, plain: Reply, retry: Reply)
    requires
        call_ensures(Reply::plain, (status, body), plain),
        call_ensures(Reply::retry, (status, body), retry),
    ensures
        plain.status == status,
        plain.headers@.len() == 0,
        plain.body@ == body@,
        retry.status == status,
        retry.body@ == body@,
        retry.headers@.len() == 1,
        retry.headers@[0].name@ == "Retry-After"@,
        retry.headers@[0].value@ == "5"@,
{
    assert(views(plain.headers@).len() == plain.headers@.len());
    assert(views(retry.headers@).len() == retry.headers@.len());
    assert(views(retry.headers@)[0] == retry.headers@[0]@);
}

} // verus!
