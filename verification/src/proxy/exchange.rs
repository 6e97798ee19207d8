//! The exchange with the upstream: what to do at each thing that happens.

use axum::http::{HeaderMap, HeaderValue};
use vstd::prelude::*;
#[allow(unused_imports)]
use vstd::utf8::{encode_utf8, is_ascii_chars_encode_utf8};

#[allow(unused_imports)]
use crate::error::proxy::is_status;
use crate::error::proxy::ProxyError;
use crate::headers::insert_header;
#[allow(unused_imports)]
use crate::headers::{all_visible, header_fields, is_plain_name, lower_case, no_fields};
#[allow(unused_imports)]
use crate::json::{member, Json};
#[allow(unused_imports)]
use crate::proxy::request::wants_stream;

verus! {

/// What happens in an exchange with the upstream.
pub enum UpstreamEvent {
    /// The request could not be sent, or no answer came.
    SendFailed { timed_out: bool, cause: String },
    /// The status and the header fields of the answer have arrived.
    Answered { status: u16 },
    /// The body of an answer with the given status has been read as text;
    /// `None` where it could not be read.
    ErrorBody { status: u16, body: Option<String> },
    /// Reading the stream of an answer failed.
    ReadFailed { cause: String },
}

/// What to do next in an exchange with the upstream.
pub enum NextStep {
    /// Answer the client with an error.
    Fail(ProxyError),
    /// Read the body of the answer, which describes an error.
    ReadErrorBody { status: u16 },
    /// Pass the stream on to the client as it is.
    PassThrough,
    /// Collect the stream and answer the client with one document.
    Collect,
}

impl UpstreamEvent {
    /// Whether the statuses of the event are statuses.
    pub open spec fn wf(&self) -> bool {
        match self {
            UpstreamEvent::Answered { status } => is_status(*status),
            UpstreamEvent::ErrorBody { status, .. } => is_status(*status),
            _ => true,
        }
    }
}

/// The step that follows an answer with the given status.
pub open spec fn step_on_answer(client_wants_stream: bool, status: u16) -> NextStep {
    if status != 200 {
        NextStep::ReadErrorBody { status }
    } else if client_wants_stream {
        NextStep::PassThrough
    } else {
        NextStep::Collect
    }
}

/// The status with which the client is told of an event that ends the exchange;
/// `None` where the exchange goes on.
pub open spec fn failure_status(event: UpstreamEvent) -> Option<u16> {
    match event {
        UpstreamEvent::SendFailed { timed_out, .. } => Some(
            if timed_out {
                504
            } else {
                502
            },
        ),
        UpstreamEvent::Answered { .. } => None,
        UpstreamEvent::ErrorBody { status, .. } => Some(status),
        UpstreamEvent::ReadFailed { .. } => Some(502),
    }
}

/// The client is answered as it asked: with the upstream's stream as it is if
/// the request has `stream` set to `true`, with one collected document if not,
/// and with an error for any status but 200.
pub proof fn lemma_answered_as_asked(body: Json, status: u16)
    ensures
        step_on_answer(wants_stream(body), status) is PassThrough <==> status == 200 && member(body, "stream"@) == Some(
            Json::Bool(true),
        ),
        step_on_answer(wants_stream(body), status) is Collect <==> status == 200 && member(body, "stream"@) != Some(
            Json::Bool(true),
        ),
        step_on_answer(wants_stream(body), status) is ReadErrorBody <==> status != 200,
{
}

/// The step that follows an event. An answer other than 200 is an error, and
/// its body is read for the client to see; a 200 is passed on as a stream or
/// collected, as the client wants it.
pub fn next_step(client_wants_stream: bool, event: UpstreamEvent) -> (step: NextStep)
    ensures
        match event {
            UpstreamEvent::SendFailed { timed_out, cause } => if timed_out {
                step == NextStep::Fail(ProxyError::UpstreamTimeout)
            } else {
                step == NextStep::Fail(ProxyError::UpstreamConnection(cause))
            },
            UpstreamEvent::Answered { status } => step == step_on_answer(client_wants_stream, status),
            UpstreamEvent::ErrorBody { status, body } => {
                &&& step matches NextStep::Fail(ProxyError::UpstreamResponse { status: given, body: shown })
                &&& given == status
                &&& shown@ == (match body {
                    Some(text) => text@,
                    None => seq![],
                })
            },
            UpstreamEvent::ReadFailed { cause } => step == NextStep::Fail(ProxyError::StreamRead(cause)),
        },
        match step {
            NextStep::Fail(failure) => failure_status(event) == Some(failure.status_code()),
            _ => failure_status(event) is None,
        },
        event.wf() ==> (step matches NextStep::Fail(failure) ==> failure.wf()),
{
    match event {
        UpstreamEvent::SendFailed { timed_out, cause } => {
            if timed_out {
                NextStep::Fail(ProxyError::UpstreamTimeout)
            } else {
                NextStep::Fail(ProxyError::UpstreamConnection(cause))
            }
        },
        UpstreamEvent::Answered { status } => {
            if status != 200 {
                NextStep::ReadErrorBody { status }
            } else if client_wants_stream {
                NextStep::PassThrough
            } else {
                NextStep::Collect
            }
        },
        UpstreamEvent::ErrorBody { status, body } => {
            let body = match body {
                Some(text) => text,
                None => String::new(),
            };
            NextStep::Fail(ProxyError::UpstreamResponse { status, body })
        },
        UpstreamEvent::ReadFailed { cause } => NextStep::Fail(ProxyError::StreamRead(cause)),
    }
}

/// The header fields of a stream that is passed on.
pub open spec fn passthrough_fields() -> Map<Seq<char>, Seq<Seq<u8>>> {
    no_fields().insert(
        lower_case("Content-Type"@),
        seq![encode_utf8("text/event-stream; charset=utf-8"@)],
    ).insert(lower_case("Cache-Control"@), seq![encode_utf8("no-cache"@)]).insert(
        lower_case("Connection"@),
        seq![encode_utf8("keep-alive"@)],
    ).insert(lower_case("X-Accel-Buffering"@), seq![encode_utf8("no"@)])
}

proof fn lemma_passthrough_names()
    ensures
        is_plain_name("Content-Type"@),
        is_plain_name("Cache-Control"@),
        is_plain_name("Connection"@),
        is_plain_name("X-Accel-Buffering"@),
{
    reveal_strlit("Content-Type");
    reveal_strlit("Cache-Control");
    reveal_strlit("Connection");
    reveal_strlit("X-Accel-Buffering");
}

proof fn lemma_passthrough_values()
    ensures
        all_visible(encode_utf8("text/event-stream; charset=utf-8"@)),
        all_visible(encode_utf8("no-cache"@)),
        all_visible(encode_utf8("keep-alive"@)),
        all_visible(encode_utf8("no"@)),
{
    reveal_strlit("text/event-stream; charset=utf-8");
    reveal_strlit("no-cache");
    reveal_strlit("keep-alive");
    reveal_strlit("no");
    is_ascii_chars_encode_utf8("text/event-stream; charset=utf-8"@);
    is_ascii_chars_encode_utf8("no-cache"@);
    is_ascii_chars_encode_utf8("keep-alive"@);
    is_ascii_chars_encode_utf8("no"@);
}

/// The status and the header fields with which a stream is passed on; the body
/// is the upstream's stream as it comes.
pub fn passthrough_stream() -> (head: (u16, HeaderMap<HeaderValue>))
    ensures
        head.0 == 200,
        header_fields(head.1) == passthrough_fields(),
{
    proof {
        lemma_passthrough_names();
        lemma_passthrough_values();
    }
    let mut headers: HeaderMap<HeaderValue> = HeaderMap::new();
    insert_header(&mut headers, "Content-Type", HeaderValue::from_static("text/event-stream; charset=utf-8"));
    insert_header(&mut headers, "Cache-Control", HeaderValue::from_static("no-cache"));
    insert_header(&mut headers, "Connection", HeaderValue::from_static("keep-alive"));
    insert_header(&mut headers, "X-Accel-Buffering", HeaderValue::from_static("no"));
    (200, headers)
}

} // verus!
