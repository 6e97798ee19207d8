//! Errors that a client of the proxy is answered with.

use axum::http::StatusCode;
use serde_json::{Map as JsonMap, Value};
use vstd::prelude::*;

use crate::json::{object_value, text_value};
#[allow(unused_imports)]
use crate::json::{document, no_members, Json};
use crate::text::join;
#[allow(unused_imports)]
use crate::text::{decimal, joined, texts};

verus! {

/// Whether a number is an HTTP status code.
pub open spec fn is_status(code: u16) -> bool {
    100 <= code <= 999
}

/// The reason phrase that goes with a status code where it is written out.
pub uninterp spec fn reason_phrase(code: u16) -> Seq<char>;

/// The `Display` of `http::StatusCode`: the code in decimal, a space and the
/// reason phrase.
#[verifier::external_body]
fn write_status(code: u16) -> (written: String)
    requires
        is_status(code),
    ensures
        written@ == decimal(code as nat) + " "@ + reason_phrase(code),
{
    format!("{}", StatusCode::from_u16(code).unwrap())
}

/// The text that describes an answer of the upstream with the given status line
/// and body.
pub open spec fn upstream_description(status_line: Seq<char>, body: Seq<char>) -> Seq<char> {
    "Upstream returned "@ + status_line + ": "@ + body
}

/// Describes an answer of the upstream with the given status line and body.
pub fn describe_upstream(status_line: &str, body: &str) -> (text: String)
    ensures
        text@ == upstream_description(status_line@, body@),
{
    "Upstream returned ".to_owned().concat(status_line).concat(": ").concat(body)
}

/// Unified error type for the LLM Proxy.
///
/// Each variant maps to an appropriate HTTP status code and error message.
#[derive(Debug)]
pub enum ProxyError {
    /// The requested model is not in the allowlist.
    ModelNotAllowed {
        /// The model the client requested.
        model: String,
        /// The allowed models (from configuration).
        allowed: Vec<String>,
    },
    /// The `Authorization` header is missing or invalid.
    Unauthorized,
    /// The upstream request exceeded the configured timeout.
    UpstreamTimeout,
    /// A network-level failure when connecting to the upstream.
    UpstreamConnection(String),
    /// The upstream returned a non-200 status.
    UpstreamResponse { status: u16, body: String },
    /// An error occurred while reading the upstream SSE stream.
    StreamRead(String),
}

impl ProxyError {
    /// Whether the status that an upstream error carries is one.
    pub open spec fn wf(&self) -> bool {
        self matches ProxyError::UpstreamResponse { status, .. } ==> is_status(*status)
    }

    /// The status of the answer to the client.
    pub open spec fn status_code(&self) -> u16 {
        match self {
            ProxyError::ModelNotAllowed { .. } => 400,
            ProxyError::Unauthorized => 401,
            ProxyError::UpstreamTimeout => 504,
            ProxyError::UpstreamConnection(_) => 502,
            ProxyError::UpstreamResponse { status, .. } => *status,
            ProxyError::StreamRead(_) => 502,
        }
    }

    /// The text that describes the error to the client.
    pub open spec fn description(&self) -> Seq<char> {
        match self {
            ProxyError::ModelNotAllowed { model, allowed } => "Model '"@ + model@ + "' not allowed. Allowed: "@ + joined(
                texts(allowed@),
                ", "@,
            ),
            ProxyError::Unauthorized => "Missing or invalid Authorization header"@,
            ProxyError::UpstreamTimeout => "Upstream request timed out"@,
            ProxyError::UpstreamConnection(cause) => "Upstream connection error: "@ + cause@,
            ProxyError::UpstreamResponse { status, body } => upstream_description(
                decimal(*status as nat) + " "@ + reason_phrase(*status),
                body@,
            ),
            ProxyError::StreamRead(cause) => "Stream read error: "@ + cause@,
        }
    }

    /// Describes the error.
    pub fn message(&self) -> (text: String)
        requires
            self.wf(),
        ensures
            text@ == self.description(),
    {
        match self {
            ProxyError::ModelNotAllowed { model, allowed } => "Model '".to_owned().concat(model.as_str()).concat(
                "' not allowed. Allowed: ",
            ).concat(join(allowed, ", ").as_str()),
            ProxyError::Unauthorized => "Missing or invalid Authorization header".to_owned(),
            ProxyError::UpstreamTimeout => "Upstream request timed out".to_owned(),
            ProxyError::UpstreamConnection(cause) => "Upstream connection error: ".to_owned().concat(cause.as_str()),
            ProxyError::UpstreamResponse { status, body } => describe_upstream(
                write_status(*status).as_str(),
                body.as_str(),
            ),
            ProxyError::StreamRead(cause) => "Stream read error: ".to_owned().concat(cause.as_str()),
        }
    }

    /// The answer to the client: a status, and a JSON body with the message.
    pub fn into_response(self) -> (answer: (u16, Value))
        requires
            self.wf(),
        ensures
            answer.0 == self.status_code(),
            is_status(answer.0),
            document(answer.1) == Json::Object(no_members().insert("error"@, Json::Text(self.description()))),
    {
        let status: u16 = match &self {
            ProxyError::ModelNotAllowed { .. } => 400,
            ProxyError::Unauthorized => 401,
            ProxyError::UpstreamTimeout => 504,
            ProxyError::UpstreamConnection(_) => 502,
            ProxyError::UpstreamResponse { status, .. } => *status,
            ProxyError::StreamRead(_) => 502,
        };
        let mut fields: JsonMap<String, Value> = JsonMap::new();
        fields.insert("error".to_owned(), text_value(self.message()));
        (status, object_value(fields))
    }
}

} // verus!
