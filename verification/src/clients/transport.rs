//! What a node client sends and what comes back, as plain values.

use vstd::prelude::*;
use vstd::string::*;
use crate::text::{decimal, decimal_string, quote, quoted};

verus! {

/// Seconds after which a call to a node is given up.
pub const REQUEST_TIMEOUT_SECS: u64 = 10;

#[derive(Debug, Clone, Copy, PartialEq, Eq, Structural)]
pub enum Method {
    Get,
    Post,
    Delete,
}

/// One HTTP call to a node agent.
#[derive(Debug, Clone)]
pub struct Request {
    pub method: Method,
    pub url: String,
    /// Whether the call asks for JSON in the answer.
    pub accept_json: bool,
    /// Whether the call carries a JSON body.
    pub json_body: bool,
}

impl Request {
    /// The request is the call of `method` on `url` with these two marks.
    pub open spec fn is_call(self, method: Method, url: Seq<char>, accept_json: bool, json_body: bool)
        -> bool {
        &&& self.method == method
        &&& self.url@ == url
        &&& self.accept_json == accept_json
        &&& self.json_body == json_body
    }
}

/// Why an operation failed.
#[derive(Debug, Clone)]
pub enum ClusterError {
    /// The node could not be reached, or did not answer in time.
    Unreachable,
    /// The node answered with an error of its own.
    UpstreamError { status: u16, body: String },
    /// No client is registered under the name.
    NodeNotFound { name: String },
    /// No node reports the pod.
    PodNotFound { namespace: String, name: String },
    /// Scheduling found no node to place the pod on.
    NoHealthyNodes,
}

impl ClusterError {
    /// The error in words.
    pub open spec fn message_text(self) -> Seq<char> {
        match self {
            ClusterError::Unreachable => "node unreachable"@,
            ClusterError::UpstreamError { status, body } => "node returned error "@ + decimal(
                status as nat,
            ) + ": "@ + body@,
            ClusterError::NodeNotFound { name } => "node "@ + quoted(name@) + " not found"@,
            ClusterError::PodNotFound { namespace, name } => "pod "@ + namespace@ + "/"@ + name@
                + " not found on any node"@,
            ClusterError::NoHealthyNodes => "no healthy nodes available"@,
        }
    }

    /// Whether the error says that the thing asked for does not exist.
    pub open spec fn is_not_found(self) -> bool {
        self is NodeNotFound || self is PodNotFound
    }

    /// The error in words, with the node's own text where it sent one.
    pub fn message(&self) -> (text: String)
        ensures
            text@ == self.message_text(),
    {
        match self {
            ClusterError::Unreachable => String::from_str("node unreachable"),
            ClusterError::UpstreamError { status, body } => {
                let mut text = String::from_str("node returned error ");
                let code = decimal_string(*status as u64);
                text.append(code.as_str());
                text.append(": ");
                text.append(body.as_str());
                text
            },
            ClusterError::NodeNotFound { name } => {
                let mut text = String::from_str("node ");
                let q = quote(name.as_str());
                text.append(q.as_str());
                text.append(" not found");
                text
            },
            ClusterError::PodNotFound { namespace, name } => {
                let mut text = String::from_str("pod ");
                text.append(namespace.as_str());
                text.append("/");
                text.append(name.as_str());
                text.append(" not found on any node");
                text
            },
            ClusterError::NoHealthyNodes => String::from_str("no healthy nodes available"),
        }
    }

    /// The HTTP status that answers a caller after this error: 404 where
    /// the thing asked for does not exist, 500 for everything else.
    pub fn status_code(&self) -> (code: u16)
        ensures
            code == if self.is_not_found() {
                404u16
            } else {
                500u16
            },
    {
        match self {
            ClusterError::NodeNotFound { .. } => 404,
            ClusterError::PodNotFound { .. } => 404,
            _ => 500,
        }
    }
}

/// What came back from one call.
#[derive(Debug, Clone)]
pub enum Reply {
    /// Nothing came back: the connection failed or the call timed out.
    Lost,
    /// The node answered.
    Answer { status: u16, body: String },
}

/// A reply together with its body decoded, where the body could be decoded.
#[derive(Debug, Clone)]
pub struct JsonReply<T> {
    pub reply: Reply,
    pub value: Option<T>,
}

/// Statuses from 400 on are errors of the node.
pub open spec fn is_error_status(status: u16) -> bool {
    status >= 400
}

/// Statuses from 200 to 299 are successes.
pub open spec fn is_success_status(status: u16) -> bool {
    200 <= status < 300
}

/// Whether `status` is an error of the node.
pub fn status_is_error(status: u16) -> (b: bool)
    ensures
        b == is_error_status(status),
{
    status >= 400
}

impl Reply {
    /// Whether the node answered with a success status.
    pub open spec fn succeeded(self) -> bool {
        match self {
            Reply::Lost => false,
            Reply::Answer { status, .. } => is_success_status(status),
        }
    }

    /// The body of an answer that is not an error, or the failure.
    pub open spec fn text_outcome(self) -> Result<String, ClusterError> {
        match self {
            Reply::Lost => Err(ClusterError::Unreachable),
            Reply::Answer { status, body } => if is_error_status(status) {
                Err(ClusterError::UpstreamError { status, body })
            } else {
                Ok(body)
            },
        }
    }

    /// Whether the node answered with a success status.
    pub fn is_success(&self) -> (b: bool)
        ensures
            b == self.succeeded(),
    {
        match self {
            Reply::Lost => false,
            Reply::Answer { status, .. } => *status >= 200 && *status < 300,
        }
    }

    /// Reads a reply whose body is text.
    pub fn read_text(self) -> (r: Result<String, ClusterError>)
        ensures
            r == self.text_outcome(),
    {
        match self {
            Reply::Lost => Err(ClusterError::Unreachable),
            Reply::Answer { status, body } => if status >= 400 {
                Err(ClusterError::UpstreamError { status, body })
            } else {
                Ok(body)
            },
        }
    }
}

impl<T> JsonReply<T> {
    /// The decoded value of an answer that is not an error, or the failure. An
    /// answer whose body could not be decoded counts as not having arrived.
    pub open spec fn outcome(self) -> Result<T, ClusterError> {
        match self.reply {
            Reply::Lost => Err(ClusterError::Unreachable),
            Reply::Answer { status, body } => if is_error_status(status) {
                Err(ClusterError::UpstreamError { status, body })
            } else {
                match self.value {
                    Some(v) => Ok(v),
                    None => Err(ClusterError::Unreachable),
                }
            },
        }
    }

    /// Reads a reply whose body is JSON.
    pub fn read_json(self) -> (r: Result<T, ClusterError>)
        ensures
            r == self.outcome(),
    {
        match self.reply {
            Reply::Lost => Err(ClusterError::Unreachable),
            Reply::Answer { status, body } => if status >= 400 {
                Err(ClusterError::UpstreamError { status, body })
            } else {
                match self.value {
                    Some(v) => Ok(v),
                    None => Err(ClusterError::Unreachable),
                }
            },
        }
    }
}

} // verus!
