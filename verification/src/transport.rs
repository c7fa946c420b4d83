//! What the engine shows to HTTP: which operation a request asks for, and
//! the status and body that an outcome is answered with.

use crate::error::EngineError;
use crate::model::Text;
use vstd::prelude::*;
use vstd::string::*;

verus! {

/// The method of a request, as far as the service tells methods apart.
#[derive(Clone, Copy, Debug, PartialEq, Eq, Structural)]
pub enum Method {
    Get,
    Post,
    Delete,
    Other,
}

/// The operation that a request asks for.
pub enum Route {
    /// Shorten the URI that the parameters name.
    Insert,
    /// Redirect to the original URI of this token.
    Read { token: String },
    /// Delete the token that the parameters name.
    Delete,
    /// Nothing that the service offers.
    Unknown,
}

/// A route with its token as text.
pub enum Target {
    Insert,
    Read(Text),
    Delete,
    Unknown,
}

impl View for Route {
    type V = Target;

    open spec fn view(&self) -> Target {
        match self {
            Route::Insert => Target::Insert,
            Route::Read { token } => Target::Read(token@),
            Route::Delete => Target::Delete,
            Route::Unknown => Target::Unknown,
        }
    }
}

/// A GET or a POST of the root inserts, a DELETE of the root deletes, a GET
/// of anything else below the root reads the token that follows the first
/// `/`, and nothing else is offered.
pub open spec fn target_of(method: Method, path: Text) -> Target {
    if path == seq!['/'] {
        match method {
            Method::Get | Method::Post => Target::Insert,
            Method::Delete => Target::Delete,
            Method::Other => Target::Unknown,
        }
    } else if method == Method::Get && path.len() > 0 && path[0] == '/' {
        Target::Read(path.skip(1))
    } else {
        Target::Unknown
    }
}

/// The operation that a request asks for.
pub fn route(method: Method, path: &str) -> (route: Route)
    ensures
        route@ == target_of(method, path@),
{
    let length = path.unicode_len();
    if length == 0 || path.get_char(0) != '/' {
        return Route::Unknown;
    }
    if length == 1 {
        assert(path@ =~= seq!['/']);
        match method {
            Method::Get | Method::Post => Route::Insert,
            Method::Delete => Route::Delete,
            Method::Other => Route::Unknown,
        }
    } else {
        match method {
            Method::Get => {
                let token = path.substring_char(1, length).to_owned();
                assert(token@ =~= path@.skip(1));
                Route::Read { token }
            },
            _ => Route::Unknown,
        }
    }
}

/// The HTTP status that an error is answered with.
pub open spec fn status_of(error: EngineError) -> u16 {
    match error {
        EngineError::MalformedInput => 400,
        EngineError::RecordNotFound => 404,
        EngineError::StorageFault => 500,
        EngineError::ConfigurationError => 500,
        EngineError::EncodingInvariantViolation => 500,
    }
}

/// The HTTP status that an error is answered with.
pub fn status(error: EngineError) -> (code: u16)
    ensures
        code == status_of(error),
{
    match error {
        EngineError::MalformedInput => 400,
        EngineError::RecordNotFound => 404,
        EngineError::StorageFault => 500,
        EngineError::ConfigurationError => 500,
        EngineError::EncodingInvariantViolation => 500,
    }
}

/// An answer to a request: its status, whether its body is JSON, the
/// address to redirect to, and its body.
pub struct Reply {
    pub status: u16,
    pub json: bool,
    pub location: Option<String>,
    pub body: String,
}

/// The body that tells of an error on the way to an insert or a delete.
pub open spec fn failure_text(error: EngineError) -> Text {
    match error {
        EngineError::MalformedInput => r#"{"ok":false,"desc":"uri is empty"}"#@,
        EngineError::RecordNotFound => r#"{"ok":false,"desc":"not found"}"#@,
        EngineError::StorageFault => r#"{"ok":false,"desc":"storage fault"}"#@,
        EngineError::ConfigurationError => r#"{"ok":false,"desc":"not configured"}"#@,
        EngineError::EncodingInvariantViolation => r#"{"ok":false,"desc":"encoding fault"}"#@,
    }
}

/// The answer to a failed insert or delete: the error's status, and a JSON
/// body that names it.
pub fn failure(error: EngineError) -> (reply: Reply)
    ensures
        reply.status == status_of(error),
        reply.json,
        reply.location is None,
        reply.body@ == failure_text(error),
{
    let body = match error {
        EngineError::MalformedInput => r#"{"ok":false,"desc":"uri is empty"}"#,
        EngineError::RecordNotFound => r#"{"ok":false,"desc":"not found"}"#,
        EngineError::StorageFault => r#"{"ok":false,"desc":"storage fault"}"#,
        EngineError::ConfigurationError => r#"{"ok":false,"desc":"not configured"}"#,
        EngineError::EncodingInvariantViolation => r#"{"ok":false,"desc":"encoding fault"}"#,
    };
    Reply { status: status(error), json: true, location: None, body: body.to_owned() }
}

/// The answer to an insert: the token as the body of a 200, or the failure.
pub fn insert_reply(outcome: Result<String, EngineError>) -> (reply: Reply)
    ensures
        match outcome {
            Ok(token) => {
                &&& reply.status == 200
                &&& !reply.json
                &&& reply.location is None
                &&& reply.body@ == token@
            },
            Err(error) => {
                &&& reply.status == status_of(error)
                &&& reply.json
                &&& reply.location is None
                &&& reply.body@ == failure_text(error)
            },
        },
{
    match outcome {
        Ok(token) => Reply { status: 200, json: false, location: None, body: token },
        Err(error) => failure(error),
    }
}

/// The answer to a read: a 302 to the original URI, with an empty body, or
/// the failure; a malformed token is told that its URI is invalid.
pub fn read_reply(outcome: Result<String, EngineError>) -> (reply: Reply)
    ensures
        match outcome {
            Ok(uri) => {
                &&& reply.status == 302
                &&& !reply.json
                &&& reply.location matches Some(to) && to@ == uri@
                &&& reply.body@.len() == 0
            },
            Err(error) => {
                &&& reply.status == status_of(error)
                &&& reply.json
                &&& reply.location is None
                &&& reply.body@ == if error == EngineError::MalformedInput {
                    r#"{"ok":false,"desc":"invalid uri"}"#@
                } else {
                    failure_text(error)
                }
            },
        },
{
    match outcome {
        Ok(uri) => Reply { status: 302, json: false, location: Some(uri), body: String::new() },
        Err(EngineError::MalformedInput) => Reply {
            status: 400,
            json: true,
            location: None,
            body: r#"{"ok":false,"desc":"invalid uri"}"#.to_owned(),
        },
        Err(error) => failure(error),
    }
}

/// The answer to a delete: a 200 that says so in JSON, or the failure.
pub fn delete_reply(outcome: Result<bool, EngineError>) -> (reply: Reply)
    ensures
        match outcome {
            Ok(_) => {
                &&& reply.status == 200
                &&& reply.json
                &&& reply.location is None
                &&& reply.body@ == r#"{"ok":true}"#@
            },
            Err(error) => {
                &&& reply.status == status_of(error)
                &&& reply.json
                &&& reply.location is None
                &&& reply.body@ == failure_text(error)
            },
        },
{
    match outcome {
        Ok(_) => Reply {
            status: 200,
            json: true,
            location: None,
            body: r#"{"ok":true}"#.to_owned(),
        },
        Err(error) => failure(error),
    }
}

/// The answer to a request for something that the service does not offer.
pub fn unknown_reply() -> (reply: Reply)
    ensures
        reply.status == 404,
        !reply.json,
        reply.location is None,
        reply.body@ == "Invald Request"@,
{
    Reply { status: 404, json: false, location: None, body: "Invald Request".to_owned() }
}

} // verus!
