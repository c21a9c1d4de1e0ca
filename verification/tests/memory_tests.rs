use jetson_discord_bot::memory::{sanitize_memory_content, trim_head_chars, trim_tail_chars};

#[test]
fn trim_tail_chars_keeps_end() {
    assert_eq!(trim_tail_chars("abcdef", 3), "def");
}

#[test]
fn trim_head_chars_keeps_start() {
    assert_eq!(trim_head_chars("abcdef", 3), "abc");
}

#[test]
fn sanitize_memory_content_redacts_sensitive_values() {
    let sanitized =
        sanitize_memory_content("DISCORD_TOKEN=abc.def.ghi password=secret", 200).unwrap();

    assert_eq!(sanitized, "[REDACTED] [REDACTED]");
}

#[test]
fn sanitize_memory_content_trims_entries() {
    assert_eq!(
        sanitize_memory_content("hello\nworld", 8).as_deref(),
        Some("hello wo")
    );
}

use jetson_discord_bot::config::Config;
use jetson_discord_bot::memory::{
    looks_like_discord_token, looks_like_email, looks_like_long_secret, looks_like_url_with_query,
    next_count, redact_sensitive_text, redact_token, sanitize_summary, stored_count, Memory,
};

fn memory(pairs: &[(&str, &str)]) -> Memory {
    let mut env = vec![("DISCORD_TOKEN".to_string(), "t".to_string())];
    env.extend(pairs.iter().map(|(k, v)| (k.to_string(), v.to_string())));
    Memory::new(&Config::from_env(&env, &None).unwrap())
}

#[test]
fn sensitive_tokens_are_recognized() {
    assert!(looks_like_email("me@example.com,"));
    assert!(!looks_like_email("@handle"));
    assert!(looks_like_url_with_query("https://a.com/?key=1"));
    assert!(!looks_like_url_with_query("https://a.com/"));
    assert!(looks_like_long_secret(&"a1".repeat(20)));
    assert!(!looks_like_long_secret("short"));
    assert!(looks_like_discord_token(
        "MTIzNDU2Nzg5MDEyMzQ1Njc4OQ.GaBcDe.abcdefghijklmnopqrstuvwxyz0123"
    ));
    assert_eq!(redact_token("hello"), "hello");
    assert_eq!(redact_token("api_key=xyz"), "[REDACTED]");
    assert_eq!(
        redact_sensitive_text("mail me@example.com now"),
        "mail [REDACTED] now"
    );
}

#[test]
fn log_lines_and_paths() {
    let m = memory(&[("MEMORY_ENABLED", "1"), ("MEMORY_DIR", "mem"), ("MEMORY_ENTRY_CHARS", "5")]);
    assert_eq!(m.memory_author("Alice"), "user");
    let a = m.append_question("Alice", "hello\nworld").unwrap();
    assert_eq!(a.path, "mem/questions.log");
    assert_eq!(a.line, "- user: hello\n");
    assert!(m.append_chat("Alice", "   ").is_none());
    assert_eq!(m.summary_path(), "mem/summary.md");
    assert_eq!(m.state_path(), "mem/state.txt");
    let named = memory(&[("MEMORY_ENABLED", "1"), ("MEMORY_STORE_AUTHOR_NAMES", "1")]);
    assert_eq!(named.log_line("Alice", "hi").as_deref(), Some("- Alice: hi\n"));
}

#[test]
fn counting_and_summaries() {
    let m = memory(&[("MEMORY_ENABLED", "1"), ("MEMORY_SUMMARIZE_EVERY", "3"), ("MEMORY_SUMMARY_CHARS", "4")]);
    assert!(m.records_question());
    assert!(m.counts_question());
    assert!(!m.records_chat("hi"));
    assert!(m.should_summarize(6));
    assert!(!m.should_summarize(7));
    assert_eq!(stored_count(Some(" 41 \n")), 41);
    assert_eq!(stored_count(Some("x")), 0);
    assert_eq!(stored_count(None), 0);
    assert_eq!(next_count(Some("41")), 42);
    assert_eq!(m.summary(Some("  ")), None);
    assert_eq!(m.summary(Some(" - likes math ")).as_deref(), Some("- likes math"));
    assert_eq!(memory(&[]).summary(Some("x")), None);
    let p = m.summary_prompt(None, "abcdef", "xy");
    assert!(p.contains("Keep the summary under 4 characters."));
    assert!(p.contains("Existing summary:\n(none)\n\nRecent direct questions:\ncdef\n\nRecent general chat:\nxy"));
    assert_eq!(m.summary_to_store("  "), "");
    assert_eq!(sanitize_summary("a\tb c d", 4), "a b");
    assert!(m.clears_raw_logs());
}

#[test]
fn logs_are_compacted_past_the_limit() {
    let m = memory(&[("MEMORY_ENABLED", "1"), ("MEMORY_MAX_LOG_CHARS", "3")]);
    assert_eq!(m.compacted_log("abcdef", 6).as_deref(), Some("def"));
    assert_eq!(m.compacted_log("abc", 3), None);
    let kept = memory(&[("MEMORY_ENABLED", "1"), ("MEMORY_MAX_LOG_CHARS", "3"), ("MEMORY_RETAIN_RAW_LOGS", "1")]);
    assert_eq!(kept.compacted_log("abcdef", 6), None);
}

#[test]
fn sanitized_entries_are_single_lines_within_budget() {
    let long = "line one\r\nline two\tand\u{2028}three ".repeat(10);
    let s = sanitize_memory_content(&long, 30).unwrap();
    assert!(s.chars().count() <= 30);
    assert!(!s.contains('\n') && !s.contains('\r'));
    assert_eq!(sanitize_memory_content(" \n\t ", 10), None);
}

#[test]
fn the_redaction_marker_is_kept_as_it_is() {
    assert_eq!(redact_token("[REDACTED]"), "[REDACTED]");
    let once = redact_sensitive_text("token=abc me@example.com fine");
    assert_eq!(once, "[REDACTED] [REDACTED] fine");
    assert_eq!(redact_sensitive_text(&once), once);
}
