//! Messages of the control socket: one JSON request per line, answered by
//! one JSON response per line. JSON encoding is done by the caller.
use vstd::prelude::*;

verus! {

/// JSON values travel through the protocol unexamined.
#[verifier::external_type_specification]
#[verifier::external_body]
pub struct ExJsonValue(serde_json::Value);

/// A request, tagged by its operation.
#[derive(Debug, PartialEq, Eq)]
pub enum Request {
    Cd { cwd: String },
    Ls {},
    Start { key: String },
    Stop { key: String },
    Status {},
    Heartbeat { key: String },
}

/// A response: data on success, a message on failure. On the wire both are
/// untagged objects with an `ok` flag.
#[derive(Debug)]
pub enum Response {
    Success { ok: bool, data: serde_json::Value },
    Failure { ok: bool, error: String },
}

impl Response {
    pub fn ok(data: serde_json::Value) -> (r: Self)
        ensures
            r == (Response::Success { ok: true, data }),
    {
        Response::Success { ok: true, data }
    }

    pub fn err(msg: String) -> (r: Self)
        ensures
            r == (Response::Failure { ok: false, error: msg }),
    {
        Response::Failure { ok: false, error: msg }
    }

    /// The response to a line that is not a request; `cause` is the parser's
    /// message.
    pub fn bad_request(cause: &String) -> (r: Self)
        ensures
            r matches Response::Failure { ok, error } && !ok && error@ == "bad request: "@ + cause@,
    {
        let mut msg = String::from_str("bad request: ");
        msg.append(cause.as_str());
        Response::err(msg)
    }
}

} // verus!
