use xingdu::json::{parse, Json};
use xingdu::server::stream::{
    anthropic_event, broken_chunk_event, chunk_lines, lines_of_text, openai_chunk_event,
    openai_event,
};

#[test]
fn openai_chunks() {
    let lines = chunk_lines(b"\n\ndata: {\"a\":1}\n\ndata: [DONE]\n", false);
    assert_eq!(lines, vec!["data: {\"a\":1}", "data: [DONE]"]);
    assert_eq!(openai_event(&lines), Some("{\"a\":1}".to_string()));
    assert_eq!(openai_event(&chunk_lines(b"data: [DONE]\r\n", false)), Some("[DONE]".to_string()));
    assert_eq!(openai_event(&chunk_lines(b": ping\n", false)), Some(": ping".to_string()));
    assert_eq!(openai_event(&chunk_lines(b"event: x\n", false)), Some("event: x".to_string()));
    assert_eq!(openai_event(&chunk_lines(b"data: ", false)), Some(String::new()));
    assert_eq!(openai_event(&chunk_lines(b"\n\r\n", false)), None);
    assert_eq!(openai_event(&chunk_lines(b"", false)), None);
}

#[test]
fn anthropic_chunks() {
    let text = "event: message_start\ndata: {}\n\nevent: ping\ndata: 2\n";
    assert_eq!(lines_of_text(text, true), vec!["data: {}", "data: 2"]);
    assert_eq!(lines_of_text(text, false).len(), 4);
    assert_eq!(lines_of_text("event:\n event: x", true), vec![" event: x"]);
    let converted = vec![None, parse("{\"b\": [], \"a\": 1}").ok(), Some(Json::text("second"))];
    assert_eq!(anthropic_event(&converted), Some("{\"a\":1,\"b\":[]}".to_string()));
    assert_eq!(anthropic_event(&vec![None, None]), None);
    assert_eq!(anthropic_event(&Vec::new()), None);
}

#[test]
fn chunks_that_are_not_utf8() {
    let bytes = [b'd', 0xff, b'\n', 0xe6, 0x98];
    let expected = String::from_utf8_lossy(&bytes).into_owned();
    assert_eq!(expected, "d\u{fffd}\n\u{fffd}");
    assert_eq!(chunk_lines(&bytes, false), vec!["d\u{fffd}", "\u{fffd}"]);
    assert_eq!(chunk_lines("data: 星渡🚀".as_bytes(), false), vec!["data: 星渡🚀"]);
}

#[test]
fn chunks_that_break() {
    assert_eq!(broken_chunk_event(), "[DONE]");
}

#[test]
fn events_pass_through() {
    for payload in ["{\"id\":1}", "[DONE]", "", "data: twice", "a\rb", " 星渡"] {
        let chunk = format!("data: {payload}\n\n");
        assert_eq!(openai_chunk_event(chunk.as_bytes()), Some(payload.to_string()));
    }
    assert_eq!(openai_chunk_event(b"data: 1\n\ndata: 2\n\n"), Some("1".to_string()));
    assert_eq!(openai_chunk_event(b"\n"), None);
    assert_eq!(openai_chunk_event(&[0xff]), Some("\u{fffd}".to_string()));
}
