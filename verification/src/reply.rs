//! What a request is answered.
use vstd::prelude::*;

use crate::model;
use crate::registry;

use crate::model::StreamResponse;

verus! {

/// The body of a reply. `Untyped` is text that is sent without a type; the
/// last four are sent as JSON.
pub enum Body {
    Empty,
    Text(String),
    Untyped(String),
    Html(String),
    Bytes(Vec<u8>),
    Initialized(bool),
    Deleted,
    Stream(StreamResponse),
    Streams(Vec<StreamResponse>),
}

/// The content of a [`Body`].
pub enum BodyView {
    Empty,
    Text(Seq<char>),
    Untyped(Seq<char>),
    Html(Seq<char>),
    Bytes(Seq<u8>),
    Initialized(bool),
    Deleted,
    Stream(model::ResponseView),
    Streams(Seq<model::ResponseView>),
}

impl View for Body {
    type V = BodyView;

    open spec fn view(&self) -> BodyView {
        match self {
            Body::Empty => BodyView::Empty,
            Body::Text(chars) => BodyView::Text(chars@),
            Body::Untyped(chars) => BodyView::Untyped(chars@),
            Body::Html(chars) => BodyView::Html(chars@),
            Body::Bytes(bytes) => BodyView::Bytes(bytes@),
            Body::Initialized(ready) => BodyView::Initialized(*ready),
            Body::Deleted => BodyView::Deleted,
            Body::Stream(stream) => BodyView::Stream(stream@),
            Body::Streams(streams) => BodyView::Streams(registry::response_views(streams@)),
        }
    }
}

/// A reply: its status code, the headers that are set on it, its body.
pub struct Reply {
    pub status: u16,
    pub set_cookie: Option<String>,
    pub content_type: Option<String>,
    pub body: Body,
}

/// The content of a [`Reply`].
pub struct ReplyView {
    pub status: u16,
    pub set_cookie: Option<Seq<char>>,
    pub content_type: Option<Seq<char>>,
    pub body: BodyView,
}

/// The characters of a text that may be missing.
pub open spec fn optional(text: Option<String>) -> Option<Seq<char>> {
    match text {
        Some(chars) => Some(chars@),
        None => None,
    }
}

impl View for Reply {
    type V = ReplyView;

    open spec fn view(&self) -> ReplyView {
        ReplyView {
            status: self.status,
            set_cookie: optional(self.set_cookie),
            content_type: optional(self.content_type),
            body: self.body@,
        }
    }
}

pub const OK: u16 = 200;

pub const UNAUTHORIZED: u16 = 401;

pub const FORBIDDEN: u16 = 403;

pub const NOT_FOUND: u16 = 404;

pub const INTERNAL_SERVER_ERROR: u16 = 500;

/// A reply that sets no header.
pub open spec fn bare(status: u16, body: BodyView) -> ReplyView {
    ReplyView { status, set_cookie: None, content_type: None, body }
}

/// A reply of a status code alone.
pub fn status_only(status: u16) -> (reply: Reply)
    ensures
        reply@ == bare(status, BodyView::Empty),
{
    Reply { status, set_cookie: None, content_type: None, body: Body::Empty }
}

/// A reply of a status code and a text.
pub fn text_reply(status: u16, text: &str) -> (reply: Reply)
    ensures
        reply@ == bare(status, BodyView::Text(text@)),
{
    Reply { status, set_cookie: None, content_type: None, body: Body::Text(text.to_owned()) }
}

} // verus!
