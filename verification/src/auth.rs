//! The administrator's account: setting it up, logging in and out.
use vstd::prelude::*;

use crate::json;
use crate::reply;
use crate::text;

use crate::reply::{Body, Reply};

verus! {

/// What a client sent as a name and a password, where it sent a text.
#[derive(Debug)]
pub struct Credentials {
    pub username: Option<String>,
    pub password: Option<String>,
}

/// The content of [`Credentials`].
pub struct CredentialsView {
    pub username: Option<Seq<char>>,
    pub password: Option<Seq<char>>,
}

impl View for Credentials {
    type V = CredentialsView;

    open spec fn view(&self) -> CredentialsView {
        CredentialsView {
            username: reply::optional(self.username),
            password: reply::optional(self.password),
        }
    }
}

/// The credentials that stand in a document.
pub open spec fn credentials_in(document: json::JsonView) -> CredentialsView {
    CredentialsView {
        username: json::text_of(json::field_of(document, "username"@)),
        password: json::text_of(json::field_of(document, "password"@)),
    }
}

/// A text, or another one in its place where it is missing.
pub open spec fn or_else(chars: Option<Seq<char>>, default: Seq<char>) -> Seq<char> {
    match chars {
        Some(given) => given,
        None => default,
    }
}

/// The account that these credentials set up: its name and its password.
pub open spec fn account_of(credentials: CredentialsView) -> (Seq<char>, Seq<char>) {
    (or_else(credentials.username, "admin"@), or_else(credentials.password, ""@))
}

/// The name and the password with which these credentials log in.
pub open spec fn claim_of(credentials: CredentialsView) -> (Seq<char>, Seq<char>) {
    (or_else(credentials.username, ""@), or_else(credentials.password, ""@))
}

/// What is to be done to set up an account: refuse, or keep an account and
/// reply.
pub enum InitStep {
    Refuse(Reply),
    Store { user: String, pass: String, reply: Reply },
}

/// The content of an [`InitStep`].
pub enum InitView {
    Refuse(reply::ReplyView),
    Store { user: Seq<char>, pass: Seq<char>, reply: reply::ReplyView },
}

impl View for InitStep {
    type V = InitView;

    open spec fn view(&self) -> InitView {
        match self {
            InitStep::Refuse(reply) => InitView::Refuse(reply@),
            InitStep::Store { user, pass, reply } => InitView::Store {
                user: user@,
                pass: pass@,
                reply: reply@,
            },
        }
    }
}

/// What is to be done where `accounts` accounts are kept: one is set up only
/// where there is none.
pub open spec fn init_step(accounts: u64, credentials: CredentialsView) -> InitView {
    if accounts > 0 {
        InitView::Refuse(reply::bare(reply::FORBIDDEN, reply::BodyView::Empty))
    } else {
        InitView::Store {
            user: account_of(credentials).0,
            pass: account_of(credentials).1,
            reply: reply::bare(reply::OK, reply::BodyView::Empty),
        }
    }
}

/// The cookie that opens a session.
pub open spec fn login_cookie() -> Seq<char> {
    "login_session=true; Path=/; HttpOnly; SameSite=Lax"@
}

/// The cookie that ends a session.
pub open spec fn logout_cookie() -> Seq<char> {
    "login_session=; Path=/; HttpOnly; SameSite=Lax; Max-Age=0; Expires=Thu, 01 Jan 1970 00:00:00 GMT"@
}

/// What a login is answered, where `stored` is the password that is kept under
/// the name that was given, if there is one.
pub open spec fn login_answer(stored: Option<Seq<char>>, pass: Seq<char>) -> reply::ReplyView {
    if stored == Some(pass) {
        reply::ReplyView {
            status: reply::OK,
            set_cookie: Some(login_cookie()),
            content_type: None,
            body: reply::BodyView::Text("Success"@),
        }
    } else {
        reply::bare(reply::UNAUTHORIZED, reply::BodyView::Text("Fail"@))
    }
}

/// What a logout is answered.
pub open spec fn logout_answer() -> reply::ReplyView {
    reply::ReplyView {
        status: reply::OK,
        set_cookie: Some(logout_cookie()),
        content_type: None,
        body: reply::BodyView::Untyped("Logged out"@),
    }
}

/// What a client is told of the account, where `accounts` are kept.
pub open spec fn status_answer(accounts: u64) -> reply::ReplyView {
    reply::bare(reply::OK, reply::BodyView::Initialized(accounts > 0))
}

/// Tells a client whether an account is set up, where `accounts` are kept.
pub fn auth_status(accounts: u64) -> (reply: Reply)
    ensures
        reply@ == status_answer(accounts),
{
    Reply {
        status: reply::OK,
        set_cookie: None,
        content_type: None,
        body: Body::Initialized(accounts > 0),
    }
}

fn read_optional(document: &serde_json::Value, key: &str) -> (chars: Option<String>)
    ensures
        reply::optional(chars) == json::text_of(json::field_of(json::json_view(*document), key@)),
{
    match json::field(document, key).as_str() {
        Some(chars) => Some(chars.to_owned()),
        None => None,
    }
}

/// The credentials that stand in a document.
pub fn read_credentials(document: &serde_json::Value) -> (credentials: Credentials)
    ensures
        credentials@ == credentials_in(json::json_view(*document)),
{
    Credentials {
        username: read_optional(document, "username"),
        password: read_optional(document, "password"),
    }
}

fn with_default(chars: Option<String>, default: &str) -> (given: String)
    ensures
        given@ == or_else(reply::optional(chars), default@),
{
    match chars {
        Some(given) => given,
        None => default.to_owned(),
    }
}

/// What is to be done to set up an account, where `accounts` are kept.
pub fn set_up_account(accounts: u64, credentials: Credentials) -> (step: InitStep)
    ensures
        step@ == init_step(accounts, credentials@),
{
    if accounts > 0 {
        InitStep::Refuse(reply::status_only(reply::FORBIDDEN))
    } else {
        InitStep::Store {
            user: with_default(credentials.username, "admin"),
            pass: with_default(credentials.password, ""),
            reply: reply::status_only(reply::OK),
        }
    }
}

/// What is to be done with a request to set up an account, where `accounts`
/// are kept.
pub fn init_admin(accounts: u64, payload: &serde_json::Value) -> (step: InitStep)
    ensures
        step@ == init_step(accounts, credentials_in(json::json_view(*payload))),
{
    set_up_account(accounts, read_credentials(payload))
}

/// The name and the password with which credentials log in.
pub fn login_claim(credentials: Credentials) -> (claim: (String, String))
    ensures
        (claim.0@, claim.1@) == claim_of(credentials@),
{
    (with_default(credentials.username, ""), with_default(credentials.password, ""))
}

/// The name and the password of a request to log in.
pub fn login_handler(payload: &serde_json::Value) -> (claim: (String, String))
    ensures
        (claim.0@, claim.1@) == claim_of(credentials_in(json::json_view(*payload))),
{
    login_claim(read_credentials(payload))
}

/// What a login is answered, where `stored` is the password that is kept under
/// the name that was given, if there is one.
pub fn login_reply(stored: Option<&str>, pass: &str) -> (reply: Reply)
    ensures
        reply@ == login_answer(
            match stored {
                Some(chars) => Some(chars@),
                None => None,
            },
            pass@,
        ),
{
    let admitted = match stored {
        Some(chars) => text::same(chars, pass),
        None => false,
    };
    if admitted {
        Reply {
            status: reply::OK,
            set_cookie: Some("login_session=true; Path=/; HttpOnly; SameSite=Lax".to_owned()),
            content_type: None,
            body: Body::Text("Success".to_owned()),
        }
    } else {
        reply::text_reply(reply::UNAUTHORIZED, "Fail")
    }
}

/// What a logout is answered.
pub fn logout_handler() -> (reply: Reply)
    ensures
        reply@ == logout_answer(),
{
    Reply {
        status: reply::OK,
        set_cookie: Some(
            "login_session=; Path=/; HttpOnly; SameSite=Lax; Max-Age=0; Expires=Thu, 01 Jan 1970 00:00:00 GMT".to_owned(),
        ),
        content_type: None,
        body: Body::Untyped("Logged out".to_owned()),
    }
}

} // verus!
