//! Who counts as logged in: a request whose cookie carries the session mark.
use vstd::prelude::*;

use crate::text;

use axum::http::header::ToStrError;
use axum::http::{HeaderMap, HeaderValue};

verus! {

/// The headers of a request.
#[verifier::external_type_specification]
#[verifier::external_body]
#[verifier::reject_recursive_types(T)]
pub struct ExHeaderMap<T>(HeaderMap<T>);

/// The value of one header.
#[verifier::external_type_specification]
#[verifier::external_body]
pub struct ExHeaderValue(HeaderValue);

/// Why the value of a header is no text.
#[verifier::external_type_specification]
#[verifier::external_body]
pub struct ExToStrError(ToStrError);

/// What a `HeaderMap` holds: under the name of each header, in small letters,
/// its values in the order in which they came.
pub uninterp spec fn header_fields(headers: HeaderMap<HeaderValue>) -> Map<
    Seq<char>,
    Seq<Seq<u8>>,
>;

/// The bytes that a `HeaderValue` holds.
pub uninterp spec fn header_bytes(value: HeaderValue) -> Seq<u8>;

/// The byte stands for a visible character, a blank or a tab.
pub open spec fn is_visible(byte: u8) -> bool {
    32 <= byte < 127 || byte == 9
}

/// The value of a header as text, if all of it is visible.
pub open spec fn visible_text(bytes: Seq<u8>) -> Option<Seq<char>> {
    if forall|i: int| 0 <= i < bytes.len() ==> is_visible(#[trigger] bytes[i]) {
        Some(bytes.map_values(|byte: u8| byte as char))
    } else {
        None
    }
}

/// The text of the first cookie header, if there is one and it is text.
pub open spec fn cookie_text(fields: Map<Seq<char>, Seq<Seq<u8>>>) -> Option<Seq<char>> {
    if fields.contains_key("cookie"@) {
        visible_text(fields["cookie"@][0])
    } else {
        None
    }
}

/// The mark that a cookie carries in a session.
pub open spec fn session_mark() -> Seq<char> {
    "login_session=true"@
}

/// A request with this cookie, if any, counts as logged in.
pub open spec fn opens_session(cookie: Option<Seq<char>>) -> bool {
    match cookie {
        Some(chars) => text::has_part(chars, session_mark()),
        None => false,
    }
}

/// A request with these headers counts as logged in.
pub open spec fn logged_in(fields: Map<Seq<char>, Seq<Seq<u8>>>) -> bool {
    opens_session(cookie_text(fields))
}

/// `HeaderMap::get` with `axum::http::header::COOKIE` as the key: the first
/// value of the cookie header, and nothing where the request has none.
#[verifier::external_body]
fn first_cookie(headers: &HeaderMap) -> (value: Option<&HeaderValue>)
    ensures
        match value {
            Some(found) => {
                &&& header_fields(*headers).contains_key("cookie"@)
                &&& header_fields(*headers)["cookie"@].len() > 0
                &&& header_bytes(*found) == header_fields(*headers)["cookie"@][0]
            },
            None => !header_fields(*headers).contains_key("cookie"@),
        },
{
    headers.get(axum::http::header::COOKIE)
}

/// `HeaderValue::to_str`: the value as text, byte for character, where every
/// byte is a visible ASCII character, a blank or a tab; an error otherwise.
pub assume_specification[ HeaderValue::to_str ](value: &HeaderValue) -> (string: Result<
    &str,
    ToStrError,
>)
    ensures
        match string {
            Ok(chars) => visible_text(header_bytes(*value)) == Some(chars@),
            Err(_) => visible_text(header_bytes(*value)) is None,
        },
;

/// Whether a request with this cookie, if any, counts as logged in.
pub fn cookie_opens_session(cookie: Option<&str>) -> (open: bool)
    ensures
        open == opens_session(
            match cookie {
                Some(chars) => Some(chars@),
                None => None,
            },
        ),
{
    match cookie {
        Some(chars) => text::contains(chars, "login_session=true"),
        None => false,
    }
}

/// Whether a request counts as logged in.
pub fn is_authenticated(headers: &HeaderMap) -> (open: bool)
    ensures
        open == logged_in(header_fields(*headers)),
{
    match first_cookie(headers) {
        Some(value) => match value.to_str() {
            Ok(chars) => cookie_opens_session(Some(chars)),
            Err(_) => cookie_opens_session(None),
        },
        None => cookie_opens_session(None),
    }
}

} // verus!
