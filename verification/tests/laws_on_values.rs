use resident_ai::acp::{build_request, is_response};
use resident_ai::session::{build_message, extract_tagged};
use resident_ai::json::Json;

#[test]
fn wrapped_answer_comes_back_trimmed() {
    for (noise, content, rest) in [
        ("", "x", ""),
        ("<R>old</R> and <R> stray ", "  new answer\n", " trailing <R> junk"),
        ("✦✦", "\u{3000}答え ", "─"),
    ] {
        let text = format!("{}<R>{}</R>{}", noise, content, rest);
        assert_eq!(extract_tagged(&text, "<R>", "</R>"), Some(content.trim().to_string()));
    }
}

#[test]
fn extracted_answer_has_no_outer_white_space() {
    for t in ["<R> a </R>", "<R>\n\tb c\r\n</R>", "x<R>\u{a0}d\u{a0}</R>y"] {
        let got = extract_tagged(t, "<R>", "</R>").unwrap();
        assert!(!got.is_empty());
        assert_eq!(got.trim(), got);
    }
}

#[test]
fn request_id_is_recognized_in_reply() {
    for id in [0u64, 1, 42, u64::MAX] {
        let msg = build_request(id, "m", Json::Null);
        let parsed: serde_json::Value = serde_json::from_str(&msg).unwrap();
        let reply = Json::Object(vec![(
            "id".to_string(),
            Json::Number(parsed["id"].to_string()),
        )]);
        assert!(is_response(&reply, id));
        assert!(!is_response(&reply, id.wrapping_add(1)));
    }
}

#[test]
fn message_asks_for_the_tags_that_extraction_reads() {
    let msg = build_message("q", None, "<R>", "</R>");
    let answer = format!("{} ... <R> 4 </R>", msg);
    assert_eq!(extract_tagged(&answer, "<R>", "</R>"), Some("4".to_string()));
}
