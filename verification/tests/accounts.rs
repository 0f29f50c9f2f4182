use axum::http::header::{COOKIE, HOST};
use axum::http::{HeaderMap, HeaderValue};
use serde_json::Value;
use stream_hub::auth::{self, Credentials, InitStep};
use stream_hub::reply::{Body, Reply};
use stream_hub::session;

fn document(text: &str) -> Value {
    serde_json::from_str(text).unwrap()
}

fn text_of(reply: &Reply) -> &str {
    match &reply.body {
        Body::Text(text) => text,
        Body::Untyped(text) => text,
        _ => panic!("no text"),
    }
}

fn stored(step: InitStep) -> (String, String) {
    match step {
        InitStep::Store { user, pass, reply } => {
            assert_eq!(reply.status, 200);
            assert!(matches!(reply.body, Body::Empty));
            (user, pass)
        }
        InitStep::Refuse(_) => panic!("refused"),
    }
}

#[test]
fn cookies_that_open_a_session() {
    assert!(session::cookie_opens_session(Some("login_session=true")));
    assert!(session::cookie_opens_session(Some("a=1; login_session=true; b=2")));
    assert!(!session::cookie_opens_session(Some("login_session=")));
    assert!(!session::cookie_opens_session(Some("login_session=tru")));
    assert!(!session::cookie_opens_session(Some("LOGIN_SESSION=true")));
    assert!(!session::cookie_opens_session(Some("")));
    assert!(!session::cookie_opens_session(None));
}

#[test]
fn headers_that_open_a_session() {
    let mut headers = HeaderMap::new();
    assert!(!session::is_authenticated(&headers));
    headers.insert(HOST, HeaderValue::from_static("login_session=true"));
    assert!(!session::is_authenticated(&headers));
    headers.insert(COOKIE, HeaderValue::from_static("a=b;\tlogin_session=true"));
    assert!(session::is_authenticated(&headers));
}

#[test]
fn only_the_first_cookie_header_counts() {
    let mut headers = HeaderMap::new();
    headers.append(COOKIE, HeaderValue::from_static("a=b"));
    headers.append(COOKIE, HeaderValue::from_static("login_session=true"));
    assert!(!session::is_authenticated(&headers));
    let mut headers = HeaderMap::new();
    headers.append(COOKIE, HeaderValue::from_static("login_session=true"));
    headers.append(COOKIE, HeaderValue::from_static("a=b"));
    assert!(session::is_authenticated(&headers));
}

#[test]
fn a_cookie_that_is_no_text_opens_nothing() {
    let mut headers = HeaderMap::new();
    let value = HeaderValue::from_bytes(b"login_session=true; x=\xe4").unwrap();
    headers.insert(COOKIE, value);
    assert!(!session::is_authenticated(&headers));
}

#[test]
fn status_tells_whether_an_account_exists() {
    assert!(matches!(auth::auth_status(0).body, Body::Initialized(false)));
    assert!(matches!(auth::auth_status(1).body, Body::Initialized(true)));
    assert_eq!(auth::auth_status(3).status, 200);
}

#[test]
fn account_is_set_up_from_the_payload() {
    let payload = document(r#"{"username":"root","password":"s3"}"#);
    assert_eq!(stored(auth::init_admin(0, &payload)), ("root".to_string(), "s3".to_string()));
    let defaults = ("admin".to_string(), "".to_string());
    assert_eq!(stored(auth::init_admin(0, &document("{}"))), defaults);
    assert_eq!(stored(auth::init_admin(0, &document("[1,2]"))), defaults);
    let payload = document(r#"{"username":7,"password":null}"#);
    assert_eq!(stored(auth::init_admin(0, &payload)), defaults);
}

#[test]
fn a_second_account_is_refused() {
    let payload = document(r#"{"username":"root","password":"s3"}"#);
    match auth::init_admin(1, &payload) {
        InitStep::Refuse(reply) => {
            assert_eq!(reply.status, 403);
            assert!(matches!(reply.body, Body::Empty));
        }
        InitStep::Store { .. } => panic!("stored"),
    }
    let credentials = Credentials { username: None, password: None };
    assert!(matches!(auth::set_up_account(2, credentials), InitStep::Refuse(_)));
}

#[test]
fn login_with_the_account() {
    let payload = document(r#"{"username":"root","password":"s3"}"#);
    let (user, pass) = stored(auth::init_admin(0, &payload));
    let (claimed, given) = auth::login_handler(&payload);
    assert_eq!(claimed, user);
    let reply = auth::login_reply(Some(&pass), &given);
    assert_eq!(reply.status, 200);
    assert_eq!(text_of(&reply), "Success");
    assert_eq!(
        reply.set_cookie.as_deref(),
        Some("login_session=true; Path=/; HttpOnly; SameSite=Lax")
    );
    let sent = reply.set_cookie.unwrap();
    let pair = sent.split(';').next().unwrap();
    assert!(session::cookie_opens_session(Some(pair)));
}

#[test]
fn login_is_refused() {
    for reply in [auth::login_reply(Some("s3"), "s4"), auth::login_reply(None, "")] {
        assert_eq!(reply.status, 401);
        assert_eq!(text_of(&reply), "Fail");
        assert!(reply.set_cookie.is_none());
    }
}

#[test]
fn a_login_without_a_name_claims_the_empty_name() {
    let (user, pass) = auth::login_handler(&document("{}"));
    assert_eq!((user.as_str(), pass.as_str()), ("", ""));
    let credentials = auth::read_credentials(&document(r#"{"password":"p"}"#));
    assert!(credentials.username.is_none());
    assert_eq!(auth::login_claim(credentials), ("".to_string(), "p".to_string()));
}

#[test]
fn logout_takes_the_cookie_back() {
    let reply = auth::logout_handler();
    assert_eq!(reply.status, 200);
    assert!(matches!(&reply.body, Body::Untyped(text) if text == "Logged out"));
    let cookie = reply.set_cookie.unwrap();
    assert_eq!(
        cookie,
        "login_session=; Path=/; HttpOnly; SameSite=Lax; Max-Age=0; Expires=Thu, 01 Jan 1970 00:00:00 GMT"
    );
    assert!(!session::cookie_opens_session(cookie.split(';').next()));
}

#[test]
fn the_default_name_must_be_given_to_log_in() {
    let (user, pass) = stored(auth::init_admin(0, &document("{}")));
    let named = auth::login_handler(&document(r#"{"username":"admin"}"#));
    assert_eq!((named.0, named.1.clone()), (user.clone(), pass.clone()));
    assert_eq!(auth::login_reply(Some(&pass), &named.1).status, 200);
    let unnamed = auth::login_handler(&document("{}"));
    assert_ne!(unnamed.0, user);
}
