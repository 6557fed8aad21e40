use resident_ai::session::{
    tagged_answer, wait_step, WaitAction,
    build_message, extract_tagged, poll_step, timeout_message, PollStep, DEFAULT_TAG_CLOSE,
    DEFAULT_TAG_OPEN, DEFAULT_TIMEOUT_SECS,
};

#[test]
fn simple_extract() {
    assert_eq!(
        extract_tagged("noise <RESULT>hello</RESULT> noise", "<RESULT>", "</RESULT>"),
        Some("hello".into())
    );
}

#[test]
fn multiline() {
    assert_eq!(
        extract_tagged("<RESULT>\nline1\nline2\n</RESULT>", "<RESULT>", "</RESULT>"),
        Some("line1\nline2".into())
    );
}

#[test]
fn no_tags() {
    assert_eq!(extract_tagged("no tags here", "<RESULT>", "</RESULT>"), None);
}

#[test]
fn incomplete() {
    assert_eq!(extract_tagged("<RESULT>partial", "<RESULT>", "</RESULT>"), None);
}

#[test]
fn last_wins() {
    assert_eq!(
        extract_tagged(
            "<RESULT>old</RESULT> junk <RESULT>new</RESULT>",
            "<RESULT>",
            "</RESULT>"
        ),
        Some("new".into())
    );
}

#[test]
fn with_tui_noise() {
    let buf = "▀▀▀▀▀\n > prompt\n▄▄▄▄▄\n✦ <RESULT>\n4\n</RESULT>\n────\n? for shortcuts";
    assert_eq!(extract_tagged(buf, "<RESULT>", "</RESULT>"), Some("4".into()));
}

#[test]
fn build_message_no_files() {
    let msg = build_message("hello", None, "<R>", "</R>");
    assert!(msg.contains("hello"));
    assert!(msg.contains("結果を<R>と</R>で囲んで返せ"));
    assert!(!msg.contains('@'));
}

#[test]
fn build_message_with_files() {
    let msg = build_message("analyze", Some(&["a.jpg", "b.pdf"]), "<R>", "</R>");
    assert!(msg.starts_with("@a.jpg @b.pdf "), "got: {:?}", msg);
}

#[test]
fn build_message_tag_instruction() {
    let msg = build_message("x", None, "<R>", "</R>");
    assert!(msg.contains("結果を<R>と</R>で囲んで返せ"));
    assert!(msg.ends_with('\r'));
}

#[test]
fn build_message_preserves_prompt_with_model() {
    let msg = build_message("--model flash analyze this", None, "<R>", "</R>");
    assert!(msg.contains("--model flash"));
}

#[test]
fn build_message_empty_prompt() {
    let msg = build_message("", None, "<R>", "</R>");
    assert!(msg.contains("結果を<R>と</R>で囲んで返せ"));
}

#[test]
fn build_message_unicode_prompt() {
    let msg = build_message("日本語テスト", None, "<R>", "</R>");
    assert!(msg.contains("日本語テスト"));
}

#[test]
fn custom_tags_in_message() {
    let msg = build_message("test", None, "<OUT>", "</OUT>");
    assert!(msg.contains("結果を<OUT>と</OUT>で囲んで返せ"));
}

#[test]
fn extract_custom_tags() {
    let result = extract_tagged("...<OUT>data</OUT>...", "<OUT>", "</OUT>");
    assert_eq!(result, Some("data".into()));
}

#[test]
fn extract_mismatched_tags_returns_none() {
    // "</B>" is the last closing tag and "<A>" stands before it, so the content
    // between them is extracted.
    let result = extract_tagged("<A>data</B>", "<A>", "</B>");
    assert_eq!(result, Some("data".into()));
}

#[test]
fn build_message_single_file() {
    let msg = build_message("p", Some(&["photo.jpg"]), "<R>", "</R>");
    assert!(msg.contains("@photo.jpg "), "got: {:?}", msg);
}

#[test]
fn build_message_many_files() {
    let files = ["f1.jpg", "f2.jpg", "f3.jpg", "f4.jpg", "f5.jpg"];
    let msg = build_message("p", Some(&files), "<R>", "</R>");
    for f in &files {
        assert!(msg.contains(&format!("@{} ", f)), "missing @{} in {:?}", f, msg);
    }
    let pos1 = msg.find("@f1.jpg").unwrap();
    let pos5 = msg.find("@f5.jpg").unwrap();
    assert!(pos1 < pos5);
}

#[test]
fn build_message_file_with_spaces() {
    let msg = build_message("p", Some(&["my file.jpg"]), "<R>", "</R>");
    assert!(msg.contains("@my file.jpg "), "got: {:?}", msg);
}

#[test]
fn sequential_extraction_from_growing_buffer() {
    let buf1 = "noise <RESULT>first</RESULT> more noise";
    assert_eq!(extract_tagged(buf1, "<RESULT>", "</RESULT>"), Some("first".into()));

    let buf2 = "noise <RESULT>first</RESULT> more noise <RESULT>second</RESULT> end";
    let baseline = buf1.len();
    let new_content = &buf2[baseline..];
    assert_eq!(extract_tagged(new_content, "<RESULT>", "</RESULT>"), Some("second".into()));
}

#[test]
fn baseline_prevents_re_extraction() {
    let full = "<RESULT>old</RESULT>gap<RESULT>new</RESULT>";
    let baseline = full.find("gap").unwrap();
    let new_content = &full[baseline..];
    assert_eq!(extract_tagged(new_content, "<RESULT>", "</RESULT>"), Some("new".into()));
}

#[test]
fn empty_new_content_returns_none() {
    let full = "<RESULT>data</RESULT>";
    let baseline = full.len();
    let new_content = &full[baseline..];
    assert_eq!(extract_tagged(new_content, "<RESULT>", "</RESULT>"), None);
}

#[test]
fn extract_from_empty_string() {
    assert_eq!(extract_tagged("", "<RESULT>", "</RESULT>"), None);
}

#[test]
fn default_timeout_value() {
    assert_eq!(DEFAULT_TIMEOUT_SECS, 180, "default timeout should be 180 seconds");
}

#[test]
fn timeout_error_contains_tag() {
    let tag_close = "</RESULT>";
    let timeout_secs = 180u64;
    let msg = format!("timeout waiting for {} after {}s", tag_close, timeout_secs);
    assert!(msg.contains("</RESULT>"), "timeout error should contain the close tag");
}

#[test]
fn extract_returns_none_triggers_timeout_path() {
    let result = extract_tagged("no tags here", "<RESULT>", "</RESULT>");
    assert_eq!(result, None, "no tags should return None, triggering timeout path");
}

#[test]
fn extract_returns_some_avoids_timeout() {
    let result = extract_tagged("<RESULT>answer</RESULT>", "<RESULT>", "</RESULT>");
    assert_eq!(result, Some("answer".to_string()), "valid tags should return Some, avoiding timeout");
}

#[test]
fn extract_with_ansi_escapes() {
    let result = extract_tagged("\x1b[32m<RESULT>green</RESULT>\x1b[0m", "<RESULT>", "</RESULT>");
    assert_eq!(result, Some("green".to_string()));
}

#[test]
fn extract_with_cursor_positioning() {
    let result = extract_tagged("\x1b[H\x1b[2J<RESULT>cleared</RESULT>", "<RESULT>", "</RESULT>");
    assert_eq!(result, Some("cleared".to_string()));
}

#[test]
fn extract_with_mixed_unicode_and_ansi() {
    let result = extract_tagged(
        "✦ \x1b[1m<RESULT>\ndata\n</RESULT>\x1b[0m ────",
        "<RESULT>",
        "</RESULT>",
    );
    assert_eq!(result, Some("data".to_string()));
}

#[test]
fn session_default_tags() {
    assert_eq!(DEFAULT_TAG_OPEN, "<RESULT>");
    assert_eq!(DEFAULT_TAG_CLOSE, "</RESULT>");
}

// === further cases ===

#[test]
fn build_message_exact_text() {
    let msg = build_message("q", Some(&["a", "b c"]), "<R>", "</R>");
    assert_eq!(msg, "@a @b c q 結果を<R>と</R>で囲んで返せ\r");
    let plain = build_message("q", Some(&[]), "<R>", "</R>");
    assert_eq!(plain, "q 結果を<R>と</R>で囲んで返せ\r");
}

#[test]
fn extract_blank_content_is_none() {
    assert_eq!(extract_tagged("<RESULT> \n\t </RESULT>", "<RESULT>", "</RESULT>"), None);
    assert_eq!(extract_tagged("<RESULT></RESULT>", "<RESULT>", "</RESULT>"), None);
}

#[test]
fn extract_trims_unicode_white_space() {
    let result = extract_tagged("<R>\u{3000}\u{a0}答え\u{2003}\r\n</R>", "<R>", "</R>");
    assert_eq!(result, Some("答え".to_string()));
}

#[test]
fn extract_open_tag_after_close_is_ignored() {
    assert_eq!(extract_tagged("</R> x <R>", "<R>", "</R>"), None);
    assert_eq!(extract_tagged("<R>a</R> b <R>", "<R>", "</R>"), Some("a".into()));
}

#[test]
fn extract_innermost_open_tag() {
    assert_eq!(extract_tagged("<R>outer <R>inner</R>", "<R>", "</R>"), Some("inner".into()));
}

#[test]
fn extract_empty_tags() {
    assert_eq!(extract_tagged(" x ", "", ""), None);
    assert_eq!(extract_tagged(" x ]", "", "]"), None);
    assert_eq!(extract_tagged("[ x ]", "[", "]"), Some("x".into()));
}

#[test]
fn timeout_message_text() {
    assert_eq!(timeout_message("</RESULT>", 180), "timeout waiting for </RESULT> after 180s");
    assert_eq!(timeout_message("</R>", 0), "timeout waiting for </R> after 0s");
}

#[test]
fn poll_step_decisions() {
    let buf = "old <R>a</R> new <R>b</R>";
    match poll_step(true, buf, 0, "<R>", "</R>", 5) {
        PollStep::TimedOut(m) => assert_eq!(m, "timeout waiting for </R> after 5s"),
        _ => panic!("expected a timeout"),
    }
    assert!(matches!(poll_step(false, buf, buf.len(), "<R>", "</R>", 5), PollStep::Wait));
    match poll_step(false, buf, 0, "<R>", "</R>", 5) {
        PollStep::Found(s) => assert_eq!(s, "b"),
        _ => panic!("expected an answer"),
    }
    let later = buf.find(" new").unwrap();
    match poll_step(false, "<R>a</R> new", later, "<R>", "</R>", 5) {
        PollStep::Wait => {}
        _ => panic!("the answer before the baseline must not count"),
    }
    let uni = "✦ <R>ok</R>";
    let after_star = "✦".len();
    match poll_step(false, uni, after_star, "<R>", "</R>", 5) {
        PollStep::Found(s) => assert_eq!(s, "ok"),
        _ => panic!("expected an answer"),
    }
}

#[test]
fn poll_step_skips_echoed_instruction() {
    let msg = build_message("2+2は？ 数字だけ答えろ", None, "<RESULT>", "</RESULT>");
    let echo_only = format!("> {}\n", msg);
    assert!(matches!(poll_step(false, &echo_only, 0, "<RESULT>", "</RESULT>", 5), PollStep::Wait));
    let answered = format!("> {}\n✦ <RESULT>\n4\n</RESULT>\n", msg);
    match poll_step(false, &answered, 0, "<RESULT>", "</RESULT>", 5) {
        PollStep::Found(s) => assert_eq!(s, "4"),
        other => panic!("expected the answer, got {:?}", other),
    }
    let answer_is_to = format!("{}<RESULT>と</RESULT>", msg);
    match poll_step(false, &answer_is_to, 0, "<RESULT>", "</RESULT>", 5) {
        PollStep::Found(s) => assert_eq!(s, "と"),
        other => panic!("expected the answer, got {:?}", other),
    }
}

#[test]
fn tagged_answer_without_echo_is_extraction() {
    assert_eq!(tagged_answer("x <R>a</R>", "<R>", "</R>"), Some("a".to_string()));
    assert_eq!(tagged_answer("<R>と</R>で囲んで返せ", "<R>", "</R>"), None);
}

#[test]
fn wait_step_decisions() {
    assert_eq!(wait_step("C:\\>", ">", 0, 10), WaitAction::Done);
    assert_eq!(wait_step("booting", ">", 3, 10), WaitAction::Wait);
    assert_eq!(wait_step("booting", ">", 10, 10), WaitAction::TimedOut);
    assert_eq!(wait_step("late >", ">", 99, 10), WaitAction::Done);
    assert_eq!(wait_step("", "", 99, 10), WaitAction::Done);
}
