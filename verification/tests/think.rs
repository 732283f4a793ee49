use rmlx_server::engine::think::{prompt_leaves_think_open, ThinkSplitter};

fn run_splitter(mut sm: ThinkSplitter, pieces: &[&str]) -> Vec<(String, bool)> {
    pieces.iter().map(|p| sm.step(p)).collect()
}

#[test]
fn splitter_plain_text_stays_on_content_channel() {
    let out = run_splitter(ThinkSplitter::new(), &["Hello", " world"]);
    assert_eq!(out, vec![("Hello".into(), false), (" world".into(), false)]);
}

#[test]
fn splitter_qwen3_prefilled_routes_thinking_then_content() {
    let out = run_splitter(
        ThinkSplitter::new_qwen3_prefilled(),
        &["Let me think...", "</think>", "The answer", " is 221."],
    );
    assert_eq!(
        out,
        vec![
            ("Let me think...".to_owned(), true),
            (String::new(), false),
            ("The answer".to_owned(), false),
            (" is 221.".to_owned(), false),
        ]
    );
}

#[test]
fn splitter_inline_open_close() {
    let out = run_splitter(
        ThinkSplitter::new(),
        &["<think>", "deliberate", "</think>", "answer"],
    );
    assert_eq!(
        out,
        vec![
            (String::new(), true),
            ("deliberate".to_owned(), true),
            (String::new(), false),
            ("answer".to_owned(), false),
        ]
    );
}

#[test]
fn splitter_close_tag_midpiece() {
    let mut sm = ThinkSplitter::new_qwen3_prefilled();
    let (text, is_thinking) = sm.step("thinking text</think>answer");
    assert_eq!(text, "thinking textanswer");
    assert!(!is_thinking);
    // Subsequent piece stays on content channel.
    let (text2, is_thinking2) = sm.step(" more");
    assert_eq!(text2, " more");
    assert!(!is_thinking2);
}

#[test]
fn splitter_lone_close_tag_emits_empty_visible() {
    let mut sm = ThinkSplitter::new_qwen3_prefilled();
    let (text, is_thinking) = sm.step("</think>");
    assert!(text.is_empty());
    assert!(!is_thinking);
}

#[test]
fn splitter_budget_force_close_fires_on_overflow() {
    let mut sm = ThinkSplitter::new_for_request(true, Some(5), None, None);
    for i in 1..=5 {
        let (_text, is_thinking) = sm.step("reason");
        assert!(is_thinking, "piece {i} should route to thinking channel");
        assert!(
            !sm.take_force_close(),
            "force_close must NOT fire within budget (piece {i})"
        );
    }
    let (_text, is_thinking) = sm.step("reason");
    assert!(
        is_thinking,
        "6th piece is still emitted on thinking channel"
    );
    assert!(
        sm.take_force_close(),
        "force_close must fire on the 6th thinking piece (budget=5)"
    );
    assert!(
        !sm.take_force_close(),
        "force_close is one-shot — must not re-fire after being taken"
    );
}

#[test]
fn splitter_no_budget_never_force_closes() {
    let mut sm = ThinkSplitter::new_for_request(true, None, None, None);
    for _ in 0..50 {
        let _ = sm.step("reason");
        assert!(!sm.take_force_close());
    }
}

#[test]
fn splitter_enable_thinking_false_starts_on_content() {
    let mut sm = ThinkSplitter::new_for_request(false, None, None, None);
    let (text, is_thinking) = sm.step("Hello");
    assert_eq!(text, "Hello");
    assert!(
        !is_thinking,
        "enable_thinking=false must route the first piece to content"
    );
}

#[test]
fn splitter_enable_thinking_true_starts_on_thinking() {
    let mut sm = ThinkSplitter::new_for_request(true, None, None, None);
    let (text, is_thinking) = sm.step("reason");
    assert_eq!(text, "reason");
    assert!(
        is_thinking,
        "enable_thinking=true must start on thinking channel"
    );
}

#[test]
fn splitter_custom_end_token_routes_correctly() {
    let mut sm = ThinkSplitter::new_for_request(
        true,
        None,
        Some("<custom_think>".to_owned()),
        Some("</custom>".to_owned()),
    );

    let (text, is_thinking) = sm.step("deep thought");
    assert_eq!(text, "deep thought");
    assert!(is_thinking, "pre-delimiter text must route to reasoning");

    let (text, is_thinking) = sm.step("</custom>");
    assert!(text.is_empty(), "the delimiter itself must be stripped");
    assert!(!is_thinking, "post-delimiter state must be content");

    let (text, is_thinking) = sm.step("answer text");
    assert_eq!(text, "answer text");
    assert!(
        !is_thinking,
        "subsequent pieces must stay on content channel"
    );

    let (text, is_thinking) = sm.step("</think>");
    assert_eq!(
        text, "</think>",
        "default end delimiter must be treated as plain text"
    );
    assert!(
        !is_thinking,
        "default delimiter must not flip state on custom-delimiter splitter"
    );
}

#[test]
fn splitter_custom_start_token_routes_correctly() {
    let mut sm = ThinkSplitter::new_for_request(
        false,
        None,
        Some("<custom_think>".to_owned()),
        Some("</custom>".to_owned()),
    );

    let (text, is_thinking) = sm.step("<think>");
    assert_eq!(text, "<think>", "default start delimiter is plain text");
    assert!(
        !is_thinking,
        "default start delimiter must not open thinking"
    );

    let (text, is_thinking) = sm.step("<custom_think>");
    assert!(text.is_empty(), "custom start delimiter must be stripped");
    assert!(
        is_thinking,
        "custom start delimiter must open thinking channel"
    );

    let (text, is_thinking) = sm.step("thoughts");
    assert_eq!(text, "thoughts");
    assert!(is_thinking);

    let (text, is_thinking) = sm.step("</custom>");
    assert!(text.is_empty());
    assert!(!is_thinking);
}

#[test]
fn splitter_empty_delimiter_counts_as_absent() {
    let mut sm =
        ThinkSplitter::new_for_request(true, None, Some(String::new()), Some(String::new()));
    let (text, is_thinking) = sm.step("a</think>b<think>c");
    assert_eq!(text, "abc");
    assert!(is_thinking);
}

#[test]
fn splitter_greatest_budget_does_not_fire() {
    let mut sm = ThinkSplitter::new_for_request(true, Some(u32::MAX), None, None);
    for _ in 0..10 {
        let _ = sm.step("reason");
        assert!(!sm.take_force_close());
    }
}

#[test]
fn splitter_zero_budget_fires_at_once_and_only_once() {
    let mut sm = ThinkSplitter::new_for_request(true, Some(0), None, None);
    let _ = sm.step("x");
    assert!(sm.take_force_close());
    for _ in 0..5 {
        let _ = sm.step("x");
        assert!(!sm.take_force_close());
    }
}

#[test]
fn prompt_is_open_by_its_last_delimiter() {
    assert!(prompt_leaves_think_open("a<think>\n", "<think>", "</think>"));
    assert!(!prompt_leaves_think_open(
        "<think></think>",
        "<think>",
        "</think>"
    ));
    assert!(prompt_leaves_think_open(
        "<think></think>é<think>",
        "<think>",
        "</think>"
    ));
    assert!(!prompt_leaves_think_open("plain", "<think>", "</think>"));
    assert!(!prompt_leaves_think_open("<think>", "", "</think>"));
    assert!(!prompt_leaves_think_open("<think>", "<think>", ""));
}

#[test]
fn only_reasoning_pieces_count_against_the_budget() {
    let mut s = ThinkSplitter::new_for_request(false, Some(1), None, None);
    for piece in ["answer", " more", "<think>a", "</think>b", " c", "<think>"] {
        s.step(piece);
        assert_eq!(s.take_force_close(), piece == "<think>", "{piece}");
    }
}
