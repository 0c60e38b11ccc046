//! HTTP replies as plain values.
use vstd::prelude::*;

use crate::bindings::{header_value_error, is_header_value, pair_texts};
use crate::json::{Json, JsonView};

verus! {

pub const OK: u16 = 200;

pub const FOUND: u16 = 302;

pub const TEMPORARY_REDIRECT: u16 = 307;

pub const BAD_REQUEST: u16 = 400;

pub const UNAUTHORIZED: u16 = 401;

pub const PAYMENT_REQUIRED: u16 = 402;

pub const NOT_FOUND: u16 = 404;

pub const INTERNAL_SERVER_ERROR: u16 = 500;

pub const BAD_GATEWAY: u16 = 502;

pub const SERVICE_UNAVAILABLE: u16 = 503;

pub const GATEWAY_TIMEOUT: u16 = 504;

/// The body of a reply.
#[derive(Debug)]
pub enum Body {
    Empty,
    Text(String),
    Json(Json),
}

/// What a [`Body`] stands for.
pub enum BodyView {
    Empty,
    Text(Seq<char>),
    Json(JsonView),
}

impl View for Body {
    type V = BodyView;

    open spec fn view(&self) -> BodyView {
        match self {
            Body::Empty => BodyView::Empty,
            Body::Text(text) => BodyView::Text(text@),
            Body::Json(document) => BodyView::Json(document@),
        }
    }
}

/// A reply: its status, its headers and its body.
#[derive(Debug)]
pub struct Response {
    pub status: u16,
    pub headers: Vec<(String, String)>,
    pub body: Body,
}

/// What a [`Response`] stands for.
pub struct ResponseView {
    pub status: u16,
    pub headers: Seq<(Seq<char>, Seq<char>)>,
    pub body: BodyView,
}

impl View for Response {
    type V = ResponseView;

    open spec fn view(&self) -> ResponseView {
        ResponseView {
            status: self.status,
            headers: pair_texts(self.headers@),
            body: self.body@,
        }
    }
}

/// A header list of one header.
fn one_header(name: &str, value: &str) -> (r: Vec<(String, String)>)
    ensures
        pair_texts(r@) == seq![(name@, value@)],
{
    let mut r: Vec<(String, String)> = Vec::new();
    r.push((name.to_owned(), value.to_owned()));
    proof {
        assert(pair_texts(r@) == seq![(name@, value@)]);
    }
    r
}

/// A reply with a status and a JSON document.
pub open spec fn json_response(status: u16, document: JsonView) -> ResponseView {
    ResponseView {
        status,
        headers: seq![("content-type"@, "application/json"@)],
        body: BodyView::Json(document),
    }
}

/// Answers with a JSON document.
pub fn json_reply(status: u16, document: Json) -> (r: Response)
    ensures
        r@ == json_response(status, document@),
{
    Response {
        status,
        headers: one_header("content-type", "application/json"),
        body: Body::Json(document),
    }
}

/// A reply with a status and plain text.
pub open spec fn text_response(status: u16, text: Seq<char>) -> ResponseView {
    ResponseView {
        status,
        headers: seq![("content-type"@, "text/plain; charset=utf-8"@)],
        body: BodyView::Text(text),
    }
}

/// Answers with plain text.
pub fn text_reply(status: u16, text: &str) -> (r: Response)
    ensures
        r@ == text_response(status, text@),
{
    Response {
        status,
        headers: one_header("content-type", "text/plain; charset=utf-8"),
        body: Body::Text(text.to_owned()),
    }
}

/// A redirect to a location. A location that no header can carry is an
/// internal error.
pub open spec fn redirect_response(status: u16, location: Seq<char>) -> ResponseView {
    if is_header_value(location) {
        ResponseView { status, headers: seq![("location"@, location)], body: BodyView::Empty }
    } else {
        text_response(INTERNAL_SERVER_ERROR, "failed to parse header value"@)
    }
}

/// Redirects to a location.
pub fn redirect(status: u16, location: &str) -> (r: Response)
    ensures
        r@ == redirect_response(status, location@),
{
    match header_value_error(location) {
        None => Response { status, headers: one_header("location", location), body: Body::Empty },
        Some(message) => text_reply(INTERNAL_SERVER_ERROR, &message),
    }
}

/// A reply with one more header, where a header can carry the value.
pub open spec fn with_header(
    reply: ResponseView,
    name: Seq<char>,
    value: Seq<char>,
) -> ResponseView {
    if is_header_value(value) {
        ResponseView { headers: reply.headers.push((name, value)), ..reply }
    } else {
        reply
    }
}

/// Adds a header, unless no header can carry the value.
pub fn add_header(reply: Response, name: &str, value: &str) -> (r: Response)
    ensures
        r@ == with_header(reply@, name@, value@),
{
    match header_value_error(value) {
        None => {
            let mut headers = reply.headers;
            let ghost before = headers@;
            headers.push((name.to_owned(), value.to_owned()));
            proof {
                assert(pair_texts(headers@) == pair_texts(before).push((name@, value@)));
            }
            Response { status: reply.status, headers, body: reply.body }
        },
        Some(_) => reply,
    }
}

/// A playlist, which nobody may keep.
pub open spec fn playlist_response(text: Seq<char>) -> ResponseView {
    ResponseView {
        status: OK,
        headers: seq![
            ("content-type"@, "application/vnd.apple.mpegurl"@),
            ("cache-control"@, "no-store"@),
        ],
        body: BodyView::Text(text),
    }
}

/// Answers with a playlist.
pub fn playlist_reply(text: String) -> (r: Response)
    ensures
        r@ == playlist_response(text@),
{
    let mut headers = one_header("content-type", "application/vnd.apple.mpegurl");
    let ghost before = headers@;
    headers.push(("cache-control".to_owned(), "no-store".to_owned()));
    proof {
        assert(pair_texts(headers@) == pair_texts(before).push(("cache-control"@, "no-store"@)));
        assert(pair_texts(headers@) == seq![
            ("content-type"@, "application/vnd.apple.mpegurl"@),
            ("cache-control"@, "no-store"@),
        ]);
    }
    Response { status: OK, headers, body: Body::Text(text) }
}

} // verus!
