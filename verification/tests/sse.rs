use llm_proxy::proxy::sse::{read_payload, read_text_payload, EventBuffer};

fn payloads(pieces: &[&str]) -> Vec<String> {
    let mut buffer = EventBuffer::new();
    let mut all = Vec::new();
    for piece in pieces {
        all.extend(buffer.feed(piece.as_bytes()));
    }
    all
}

#[test]
fn payload_of_a_line() {
    assert_eq!(read_payload(b"data: abc"), Some("abc".to_string()));
    assert_eq!(read_payload(b"  data:   a b  \r"), Some("a b".to_string()));
    assert_eq!(read_payload("data: \u{3000}x\u{2003}".as_bytes()), Some("x".to_string()));
    assert_eq!(read_payload("\u{a0}data: h\u{e9}".as_bytes()), Some("h\u{e9}".to_string()));
    assert_eq!(read_payload(b"data: a\xffb"), Some("a\u{fffd}b".to_string()));
}

#[test]
fn payload_of_a_text() {
    assert_eq!(read_text_payload("\t data: x y \n"), Some("x y".to_string()));
    assert_eq!(read_text_payload("x data: y"), None);
}

#[test]
fn lines_without_payload() {
    assert_eq!(read_payload(b""), None);
    assert_eq!(read_payload(b"   \r"), None);
    assert_eq!(read_payload(b": data: comment"), None);
    assert_eq!(read_payload(b"data:abc"), None);
    assert_eq!(read_payload(b"data: "), None);
    assert_eq!(read_payload(b"event: x"), None);
    assert_eq!(read_payload(b"Data: x"), None);
}

#[test]
fn complete_lines_are_read_in_order() {
    assert_eq!(payloads(&["data: a\n\ndata: b\n: c\ndata: d"]), ["a", "b"]);
}

#[test]
fn partial_lines_wait_for_the_rest() {
    assert_eq!(payloads(&["da", "ta: a", "b\nda", "ta: c\n"]), ["ab", "c"]);
}

#[test]
fn cutting_inside_a_character_does_not_matter() {
    let bytes = "data: \u{4f60}\n".as_bytes();
    let mut buffer = EventBuffer::new();
    assert!(buffer.feed(&bytes[..7]).is_empty());
    assert_eq!(buffer.feed(&bytes[7..]), ["\u{4f60}"]);
}

#[test]
fn every_cut_gives_the_same_payloads() {
    let stream = "data: a\n\n: note\ndata: bc\r\n\ndata: [DONE]\n\n: end\n";
    for cut in 0..stream.len() {
        for second in cut..stream.len() {
            let pieces = [&stream[..cut], &stream[cut..second], &stream[second..]];
            assert_eq!(payloads(&pieces), ["a", "bc"]);
        }
    }
}

#[test]
fn lines_behind_an_end_marker_wait_for_a_further_piece() {
    let mut buffer = EventBuffer::new();
    assert_eq!(buffer.feed(b"data: a\ndata: [DONE]\ndata: b\n"), ["a"]);
    assert_eq!(buffer.feed(b"data: c\n"), ["b", "c"]);
}

#[test]
fn end_marker_itself_is_no_payload() {
    assert!(payloads(&["data: [DONE]\n", "data:   [DONE]  \n", "\n"]).is_empty());
    assert_eq!(payloads(&["data: [DONE] \n", "data: [done]\n"]), ["[done]"]);
}
