use llm_proxy::proxy::completion::{Choice, Chunk, Collector, Delta};
use serde_json::Value;

fn choice(content: &str, reasoning: &str, finish: Option<&str>) -> Choice {
    Choice {
        delta: Delta {
            content: content.to_string(),
            reasoning_content: reasoning.to_string(),
        },
        finish_reason: finish.map(str::to_string),
    }
}

fn chunk(id: &str, choices: Vec<Choice>) -> Chunk {
    Chunk {
        id: id.to_string(),
        choices,
    }
}

fn completed(chunks: Vec<Chunk>) -> String {
    let mut collector = Collector::new();
    for chunk in chunks {
        collector.absorb(chunk);
    }
    collector.complete("m", 1700000000).to_string()
}

/// Reads `id|content|finish`; anything without an id is no chunk.
fn reader(payload: &str) -> Option<Chunk> {
    let parts: Vec<&str> = payload.split('|').collect();
    if parts.len() < 2 {
        return None;
    }
    let finish = parts.get(2).copied();
    Some(chunk(parts[0], vec![choice(parts[1], "", finish)]))
}

fn streamed(pieces: &[&str]) -> String {
    let mut collector = Collector::new();
    for piece in pieces {
        collector.take_in(piece.as_bytes(), reader);
    }
    collector.complete("m", 5).to_string()
}

#[test]
fn nothing_collected() {
    assert_eq!(
        completed(vec![]),
        "{\"choices\":[{\"finish_reason\":\"stop\",\"index\":0,\"message\":{\"content\":\"\",\
         \"role\":\"assistant\"}}],\"created\":1700000000,\"id\":\"proxy-1700000000\",\
         \"model\":\"m\",\"object\":\"chat.completion\"}"
    );
}

#[test]
fn dates_in_full() {
    let id = |created: u64| {
        let answer = Collector::new().complete("m", created);
        answer.get("id").unwrap().as_str().unwrap().to_string()
    };
    assert_eq!(id(0), "proxy-0");
    assert_eq!(id(90), "proxy-90");
    assert_eq!(id(u64::MAX), "proxy-18446744073709551615");
    let answer = Collector::new().complete("m", u64::MAX);
    assert_eq!(answer.get("created").unwrap().as_u64(), Some(u64::MAX));
}

#[test]
fn chunks_are_put_together() {
    assert_eq!(
        completed(vec![
            chunk("one", vec![choice("He", "th", None)]),
            chunk("two", vec![choice("llo", "ink", Some("length")), choice("other", "x", None)]),
            chunk("three", vec![]),
            chunk("four", vec![choice("!", "", Some("stop"))]),
        ]),
        "{\"choices\":[{\"finish_reason\":\"length\",\"index\":0,\"message\":{\"content\":\"Hello!\",\
         \"reasoning_content\":\"think\",\"role\":\"assistant\"}}],\"created\":1700000000,\
         \"id\":\"one\",\"model\":\"m\",\"object\":\"chat.completion\"}"
    );
}

#[test]
fn first_chunk_names_the_answer_even_without_choices() {
    let answer = completed(vec![chunk("", vec![]), chunk("b", vec![choice("x", "", None)])]);
    assert!(answer.contains("\"id\":\"\""));
    assert!(answer.contains("\"content\":\"x\""));
}

#[test]
fn stream_is_read_and_absorbed() {
    let expected = "{\"choices\":[{\"finish_reason\":\"f\",\"index\":0,\"message\":{\"content\":\"xyz\",\
                    \"role\":\"assistant\"}}],\"created\":5,\"id\":\"a\",\"model\":\"m\",\
                    \"object\":\"chat.completion\"}";
    let stream = "data: a|x\n\ndata: junk\ndata: b|y|f\n\ndata: c|z|g\ndata: [DONE]\n\n";
    for cut in 0..=stream.len() {
        assert_eq!(streamed(&[&stream[..cut], &stream[cut..]]), expected);
    }
}

#[test]
fn unfinished_line_is_left_out() {
    assert!(streamed(&["data: a|x\ndata: b|y"]).contains("\"content\":\"x\""));
}

#[test]
fn completion_is_dated_now() {
    let answer: Value = Collector::new().complete_now("m");
    let created = answer.get("created").unwrap().as_u64().unwrap();
    assert!(created > 1_600_000_000);
    assert_eq!(
        answer.get("id").unwrap().as_str().unwrap(),
        format!("proxy-{created}")
    );
}
