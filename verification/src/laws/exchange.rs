//! Laws of the exchange with the upstream.

use axum::http::{HeaderMap, HeaderValue};
use vstd::prelude::*;
#[allow(unused_imports)]
use vstd::utf8::encode_utf8;

#[allow(unused_imports)]
use crate::error::proxy::ProxyError;
#[allow(unused_imports)]
use crate::headers::{header_fields, lower_case};
#[allow(unused_imports)]
use crate::proxy::exchange::{failure_status, next_step, passthrough_stream, NextStep, UpstreamEvent};

verus! {

/// A client sees the stream only of an answer of status 200, and only if it
/// asked for it; one that did not gets a 200 collected; and of any other status
/// the body is read, with that status.
pub proof fn lemma_step_on_answer(client_wants_stream: bool, status: u16, step: NextStep)
    requires
        call_ensures(next_step, (client_wants_stream, UpstreamEvent::Answered { status }), step),
    ensures
        step is PassThrough <==> status == 200 && client_wants_stream,
        step is Collect <==> status == 200 && !client_wants_stream,
        step is ReadErrorBody <==> status != 200,
        step matches NextStep::ReadErrorBody { status: kept } ==> kept == status,
        !(step is Fail),
{
}

/// A request that could not be sent fails with its cause, or as timed out.
pub proof fn lemma_step_on_send_failure(client_wants_stream: bool, timed_out: bool, cause: String, step: NextStep)
    requires
        call_ensures(next_step, (client_wants_stream, UpstreamEvent::SendFailed { timed_out, cause }), step),
    ensures
        timed_out ==> step == NextStep::Fail(ProxyError::UpstreamTimeout),
        !timed_out ==> (step matches NextStep::Fail(ProxyError::UpstreamConnection(told)) && told@ == cause@),
        failure_status(UpstreamEvent::SendFailed { timed_out, cause }) == Some(
            if timed_out {
                504u16
            } else {
                502u16
            },
        ),
{
}

/// An error of the upstream reaches the client with its status and its body, as
/// they are; a body that could not be read is empty.
pub proof fn lemma_step_on_error_body(client_wants_stream: bool, status: u16, body: Option<String>, step: NextStep)
    requires
        call_ensures(next_step, (client_wants_stream, UpstreamEvent::ErrorBody { status, body }), step),
    ensures
        step matches NextStep::Fail(ProxyError::UpstreamResponse { status: told, body: shown }) && told == status && (body
            matches Some(given) ==> shown@ == given@) && (body is None ==> shown@.len() == 0),
        failure_status(UpstreamEvent::ErrorBody { status, body }) == Some(status),
{
}

/// A stream that could not be read fails with its cause.
pub proof fn lemma_step_on_read_failure(client_wants_stream: bool, cause: String, step: NextStep)
    requires
        call_ensures(next_step, (client_wants_stream, UpstreamEvent::ReadFailed { cause }), step),
    ensures
        step matches NextStep::Fail(ProxyError::StreamRead(told)) && told@ == cause@,
        failure_status(UpstreamEvent::ReadFailed { cause }) == Some(502u16),
{
}

/// A stream that is passed on has status 200 and these header fields, and no
/// other: it is an event stream, not to be cached or buffered on its way.
pub proof fn lemma_stream_head(head: (u16, HeaderMap<HeaderValue>))
    requires
        call_ensures(passthrough_stream, (), head),
    ensures
        head.0 == 200,
        header_fields(head.1).dom() =~= set![
            "content-type"@,
            "cache-control"@,
            "connection"@,
            "x-accel-buffering"@,
        ],
        header_fields(head.1)["content-type"@] == seq![encode_utf8("text/event-stream; charset=utf-8"@)],
        header_fields(head.1)["cache-control"@] == seq![encode_utf8("no-cache"@)],
        header_fields(head.1)["connection"@] == seq![encode_utf8("keep-alive"@)],
        header_fields(head.1)["x-accel-buffering"@] == seq![encode_utf8("no"@)],
{
    reveal_strlit("Content-Type");
    reveal_strlit("content-type");
    reveal_strlit("Cache-Control");
    reveal_strlit("cache-control");
    reveal_strlit("Connection");
    reveal_strlit("connection");
    reveal_strlit("X-Accel-Buffering");
    reveal_strlit("x-accel-buffering");
    assert(lower_case("Content-Type"@) =~= "content-type"@);
    assert(lower_case("Cache-Control"@) =~= "cache-control"@);
    assert(lower_case("Connection"@) =~= "connection"@);
    assert(lower_case("X-Accel-Buffering"@) =~= "x-accel-buffering"@);
    assert("content-type"@.len() == 12 && "cache-control"@.len() == 13);
    assert("connection"@.len() == 10 && "x-accel-buffering"@.len() == 17);
}

} // verus!
