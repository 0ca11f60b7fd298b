//! The client side of a request: naming the operation in errors and turning
//! the daemon's reply line into data or an error. Connecting, writing the
//! request and reading the reply are done by the caller.
use vstd::prelude::*;

verus! {

/// Operations of the control socket.
#[derive(Debug, Clone, Copy, PartialEq, Eq)]
pub enum Op {
    Cd,
    Ls,
    Start,
    Stop,
    Status,
    Heartbeat,
}

pub open spec fn op_name(op: Op) -> Seq<char> {
    match op {
        Op::Cd => "cd"@,
        Op::Ls => "ls"@,
        Op::Start => "start"@,
        Op::Stop => "stop"@,
        Op::Status => "status"@,
        Op::Heartbeat => "heartbeat"@,
    }
}

impl Op {
    /// The operation's name on the wire.
    pub fn name(&self) -> (r: &'static str)
        ensures
            r@ == op_name(*self),
    {
        match self {
            Op::Cd => "cd",
            Op::Ls => "ls",
            Op::Start => "start",
            Op::Stop => "stop",
            Op::Status => "status",
            Op::Heartbeat => "heartbeat",
        }
    }
}

/// A reply line, decoded.
#[derive(Debug)]
pub enum Reply {
    Success { data: serde_json::Value },
    Failure { error: String },
}

/// What went wrong in a step of a request; `cause` is the underlying message.
#[derive(Debug, PartialEq, Eq)]
pub enum Failure {
    Connect { socket: String, cause: String },
    Write { cause: String },
    CloseWrite { cause: String },
    Read { cause: String },
    NoResponse,
    Malformed { cause: String },
    Decode { cause: String },
    Remote { error: String },
}

/// A failed request.
#[derive(Debug, PartialEq, Eq)]
pub struct RpcError {
    pub op: Op,
    pub failure: Failure,
}

pub open spec fn failure_detail(f: Failure) -> Seq<char> {
    match f {
        Failure::Connect { socket, cause } => "connecting to "@ + socket@ + ": "@ + cause@,
        Failure::Write { cause } => "writing request: "@ + cause@,
        Failure::CloseWrite { cause } => "closing write half: "@ + cause@,
        Failure::Read { cause } => "reading response: "@ + cause@,
        Failure::NoResponse => "daemon closed connection without responding"@,
        Failure::Malformed { cause } => "malformed response from daemon: "@ + cause@,
        Failure::Decode { cause } => "decoding response: "@ + cause@,
        Failure::Remote { error } => error@,
    }
}

impl RpcError {
    /// `rpc <op>: <what failed>`.
    pub open spec fn spec_message(&self) -> Seq<char> {
        "rpc "@ + op_name(self.op) + ": "@ + failure_detail(self.failure)
    }

    pub fn message(&self) -> (m: String)
        ensures
            m@ == self.spec_message(),
    {
        let mut m = String::from_str("rpc ");
        m.append(self.op.name());
        m.append(": ");
        match &self.failure {
            Failure::Connect { socket, cause } => {
                m.append("connecting to ");
                m.append(socket.as_str());
                m.append(": ");
                m.append(cause.as_str());
            },
            Failure::Write { cause } => {
                m.append("writing request: ");
                m.append(cause.as_str());
            },
            Failure::CloseWrite { cause } => {
                m.append("closing write half: ");
                m.append(cause.as_str());
            },
            Failure::Read { cause } => {
                m.append("reading response: ");
                m.append(cause.as_str());
            },
            Failure::NoResponse => {
                m.append("daemon closed connection without responding");
            },
            Failure::Malformed { cause } => {
                m.append("malformed response from daemon: ");
                m.append(cause.as_str());
            },
            Failure::Decode { cause } => {
                m.append("decoding response: ");
                m.append(cause.as_str());
            },
            Failure::Remote { error } => {
                m.append(error.as_str());
            },
        }
        m
    }
}

/// The result of request `op` whose reply line was `bytes_read` bytes long
/// and decoded to `parsed` (or failed to decode with that message): nothing
/// read means the daemon hung up; a failure reply carries the daemon's error.
pub fn interpret_reply(op: Op, bytes_read: usize, parsed: Result<Reply, String>) -> (r: Result<
    serde_json::Value,
    RpcError,
>)
    ensures
        bytes_read == 0 ==> r == Err::<serde_json::Value, RpcError>(RpcError { op, failure: Failure::NoResponse }),
        bytes_read != 0 ==> match parsed {
            Err(cause) => r == Err::<serde_json::Value, RpcError>(
                RpcError { op, failure: Failure::Malformed { cause } },
            ),
            Ok(Reply::Success { data }) => r == Ok::<serde_json::Value, RpcError>(data),
            Ok(Reply::Failure { error }) => r == Err::<serde_json::Value, RpcError>(
                RpcError { op, failure: Failure::Remote { error } },
            ),
        },
{
    if bytes_read == 0 {
        return Err(RpcError { op, failure: Failure::NoResponse });
    }
    match parsed {
        Err(cause) => Err(RpcError { op, failure: Failure::Malformed { cause } }),
        Ok(Reply::Success { data }) => Ok(data),
        Ok(Reply::Failure { error }) => Err(RpcError { op, failure: Failure::Remote { error } }),
    }
}

} // verus!
