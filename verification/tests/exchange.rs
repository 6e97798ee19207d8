use llm_proxy::error::proxy::ProxyError;
use llm_proxy::proxy::exchange::{next_step, passthrough_stream, NextStep, UpstreamEvent};

fn failure(event: UpstreamEvent) -> ProxyError {
    match next_step(false, event) {
        NextStep::Fail(failure) => failure,
        _ => panic!("the exchange should end"),
    }
}

#[test]
fn answer_is_passed_on_or_collected() {
    let answered = |status: u16| UpstreamEvent::Answered { status };
    assert!(matches!(next_step(true, answered(200)), NextStep::PassThrough));
    assert!(matches!(next_step(false, answered(200)), NextStep::Collect));
    for stream in [true, false] {
        for status in [100, 199, 201, 204, 301, 400, 503] {
            match next_step(stream, answered(status)) {
                NextStep::ReadErrorBody { status: read } => assert_eq!(read, status),
                _ => panic!("the body should be read"),
            }
        }
    }
}

#[test]
fn failures_to_send() {
    let event = |timed_out: bool| UpstreamEvent::SendFailed {
        timed_out,
        cause: "no route".to_string(),
    };
    assert!(matches!(failure(event(true)), ProxyError::UpstreamTimeout));
    match failure(event(false)) {
        ProxyError::UpstreamConnection(cause) => assert_eq!(cause, "no route"),
        _ => panic!("a connection failure"),
    }
}

#[test]
fn error_bodies_are_shown() {
    let shown = |body: Option<&str>| {
        let event = UpstreamEvent::ErrorBody {
            status: 503,
            body: body.map(str::to_string),
        };
        match failure(event) {
            ProxyError::UpstreamResponse { status, body } => (status, body),
            _ => panic!("an upstream response"),
        }
    };
    assert_eq!(shown(Some("busy")), (503, "busy".to_string()));
    assert_eq!(shown(None), (503, String::new()));
}

#[test]
fn failures_to_read() {
    let event = UpstreamEvent::ReadFailed {
        cause: "reset".to_string(),
    };
    match failure(event) {
        ProxyError::StreamRead(cause) => assert_eq!(cause, "reset"),
        _ => panic!("a read failure"),
    }
}

#[test]
fn head_of_a_passed_on_stream() {
    let (status, headers) = passthrough_stream();
    assert_eq!(status, 200);
    assert_eq!(headers.len(), 4);
    assert_eq!(headers.get("content-type").unwrap(), "text/event-stream; charset=utf-8");
    assert_eq!(headers.get("cache-control").unwrap(), "no-cache");
    assert_eq!(headers.get("connection").unwrap(), "keep-alive");
    assert_eq!(headers.get("x-accel-buffering").unwrap(), "no");
}
