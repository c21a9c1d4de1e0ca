use jetson_discord_bot::bot::{
    attachment_requested, content_has_http_link, explicit_message_reference,
    format_prompt_with_context, latest_attachment_index, mentioned_prompt, natural_dev_task,
    trim_context_lines, trim_discord, ExplicitMessageReference,
};

#[test]
fn trim_discord_trims_whitespace() {
    assert_eq!(trim_discord("  pong\n", 10), "pong");
}

#[test]
fn trim_discord_adds_ellipsis_when_needed() {
    assert_eq!(trim_discord("abcdef", 3), "abc\n...");
}

#[test]
fn mentioned_prompt_extracts_discord_mention() {
    assert_eq!(
        mentioned_prompt("<@42> 안녕", 42, "Elise_Bot", &[]).as_deref(),
        Some("안녕")
    );
}

#[test]
fn mentioned_prompt_uses_default_for_empty_mentions() {
    assert_eq!(
        mentioned_prompt("<@!42>", 42, "Elise_Bot", &[]).as_deref(),
        Some("무슨 일이야?")
    );
}

#[test]
fn mentioned_prompt_detects_bot_name() {
    assert_eq!(
        mentioned_prompt("elise_bot 지금 돼?", 42, "Elise_Bot", &[]).as_deref(),
        Some("elise_bot 지금 돼?")
    );
}

#[test]
fn mentioned_prompt_ignores_unrelated_messages() {
    assert_eq!(mentioned_prompt("안녕", 42, "Elise_Bot", &[]), None);
}

#[test]
fn mentioned_prompt_detects_extra_trigger_names() {
    let triggers = vec!["코미".to_string()];
    assert_eq!(
        mentioned_prompt("코미 이거 봐줘", 42, "Elise_Bot", &triggers).as_deref(),
        Some("코미 이거 봐줘")
    );
}

#[test]
fn trim_context_lines_respects_character_budget() {
    assert_eq!(trim_context_lines(&["a: 123", "b: 456"], 7), "a: 123");
}

#[test]
fn format_prompt_with_context_includes_memory_and_channel_context() {
    let prompt = format_prompt_with_context(Some("- likes math"), "A: hi", "help");

    assert!(prompt.contains("Long-term memory summary"));
    assert!(prompt.contains("Recent channel context"));
    assert!(prompt.contains("User request:\nhelp"));
}

#[test]
fn attachment_requested_detects_korean_image_reference() {
    assert!(attachment_requested("이 사진 설명해봐"));
}

#[test]
fn attachment_requested_detects_recent_upload_reference() {
    assert!(attachment_requested("방금 올린 문서 요약해줘"));
}

#[test]
fn latest_attachment_index_uses_latest_matching_author() {
    let candidates = [(10, true), (20, true), (10, false), (10, true)];

    assert_eq!(latest_attachment_index(&candidates, 10), Some(3));
    assert_eq!(latest_attachment_index(&candidates, 20), Some(1));
    assert_eq!(latest_attachment_index(&candidates, 30), None);
}

#[test]
fn explicit_message_reference_accepts_bare_message_id() {
    assert_eq!(
        explicit_message_reference("코미야 메시지 123456789012345678 읽어줘", 42),
        Some(ExplicitMessageReference {
            channel_id: 42,
            message_id: 123456789012345678,
        })
    );
}

#[test]
fn explicit_message_reference_accepts_discord_link() {
    assert_eq!(
        explicit_message_reference(
            "https://discord.com/channels/111/222/333333333333333333",
            42
        ),
        Some(ExplicitMessageReference {
            channel_id: 222,
            message_id: 333333333333333333,
        })
    );
}

#[test]
fn explicit_message_reference_ignores_short_numbers() {
    assert_eq!(explicit_message_reference("코미야 123번 읽어줘", 42), None);
}

#[test]
fn content_has_http_link_detects_message_links() {
    assert!(content_has_http_link("자료: https://example.com/page"));
    assert!(!content_has_http_link("링크 없는 일반 메시지"));
}

#[test]
fn natural_dev_task_detects_explicit_korean_request() {
    assert_eq!(
        natural_dev_task("코미야 개발 컨테이너 써서 hello.py 만들어").as_deref(),
        Some("코미야 hello.py 만들어")
    );
}

#[test]
fn natural_dev_task_ignores_general_container_discussion() {
    assert_eq!(natural_dev_task("개발 컨테이너 보안 설정이 어떻게 돼?"), None);
}

#[test]
fn natural_dev_task_detects_english_request_case_insensitively() {
    assert_eq!(
        natural_dev_task("DEV CONTAINER에서 cargo test 돌려").as_deref(),
        Some("cargo test 돌려")
    );
}

use jetson_discord_bot::attachments::AttachmentInfo;
use jetson_discord_bot::bot::discord_message_link_reference;
use jetson_discord_bot::bot::{
    answer_reply, answer_with_attachment_failure, attachments_all_failed, channel_reply,
    command_failed_reply, dev_outcome_reply, explicit_message_prompt, format_channel_context,
    memory_attachment_note, mention_prompt, plan_mention, prompt_with_channel_context,
    prompt_with_web_context, resolve_attachments, selected_message_is_empty,
    should_handle_message, status_reply, unknown_command_reply, web_query, AttachmentSource,
    BotReply, ContextMessage, MentionPlan, SelectedMessage,
};

#[test]
fn mentions_are_planned() {
    let triggers = vec!["코미".to_string()];
    assert!(matches!(plan_mention("안녕", 42, "Bot", &triggers, 7), MentionPlan::Ignore));
    match plan_mention("코미야 개발 컨테이너 써서 hello.py 만들어", 42, "Bot", &triggers, 7) {
        MentionPlan::DevTask(t) => assert_eq!(t, "코미야 hello.py 만들어"),
        _ => panic!("expected a development task"),
    }
    match plan_mention("<@42> 메시지 123456789012345678 요약해줘", 42, "Bot", &triggers, 7) {
        MentionPlan::Answer(q) => {
            assert_eq!(q.prompt, "메시지 123456789012345678 요약해줘");
            assert_eq!(q.reference.map(|r| (r.channel_id, r.message_id)), Some((7, 123456789012345678)));
            assert!(q.attachment_intent);
        }
        _ => panic!("expected an answer"),
    }
    match plan_mention("코미 안녕", 42, "Bot", &triggers, 7) {
        MentionPlan::Answer(q) => {
            assert!(q.reference.is_none());
            assert!(!q.attachment_intent);
        }
        _ => panic!("expected an answer"),
    }
    assert!(should_handle_message(true, false));
    assert!(!should_handle_message(true, true));
    assert!(!should_handle_message(false, false));
}

#[test]
fn attachments_follow_their_priority() {
    let recent = [(5, true), (6, true), (5, false)];
    assert_eq!(resolve_attachments(true, false, true, Some((5, true)), 5, &recent), AttachmentSource::Current);
    assert_eq!(resolve_attachments(false, false, true, Some((5, true)), 5, &recent), AttachmentSource::Nothing);
    assert_eq!(resolve_attachments(false, true, true, Some((5, true)), 5, &recent), AttachmentSource::Explicit);
    assert_eq!(resolve_attachments(false, true, false, Some((5, true)), 5, &recent), AttachmentSource::Referenced);
    assert_eq!(resolve_attachments(false, true, false, Some((6, true)), 5, &recent), AttachmentSource::Recent(0));
    assert_eq!(resolve_attachments(false, true, false, None, 7, &recent), AttachmentSource::Nothing);
}

#[test]
fn replies_fit_discord() {
    assert_eq!(channel_reply(9, "  hi "), "<@9> hi");
    let long = "가".repeat(5000);
    let reply = channel_reply(u64::MAX, &long);
    assert!(reply.chars().count() <= 1900);
    assert!(reply.ends_with("\n..."));
    assert_eq!(answer_reply(&Err("down".to_string())), "llama-server request failed: down");
    assert_eq!(answer_reply(&Ok(" yes ".to_string())), "yes");
    assert_eq!(status_reply(&Ok("".to_string())), "llama-server online: ");
    assert_eq!(status_reply(&Err("e".to_string())), "llama-server check failed: e");
    assert_eq!(dev_outcome_reply(&Ok("done".to_string())), "개발 작업 완료:\ndone");
    assert_eq!(dev_outcome_reply(&Err("x".to_string())), "개발 작업 실패: x");
    assert_eq!(unknown_command_reply("foo"), "unknown command: foo");
    assert_eq!(command_failed_reply("boom"), "Command failed: boom");
    assert_eq!(BotReply::Pong.text(), "pong");
    assert_eq!(BotReply::NoPermission.text(), "이 개발 컨테이너를 사용할 권한이 없어.");
}

#[test]
fn failed_attachments_are_reported() {
    assert!(attachments_all_failed(2, 0, 2));
    assert!(!attachments_all_failed(0, 0, 0));
    assert!(!attachments_all_failed(2, 1, 1));
    assert!(answer_with_attachment_failure(true, true, false));
    assert!(!answer_with_attachment_failure(true, true, true));
    assert!(selected_message_is_empty("  ", 0));
    assert!(!selected_message_is_empty("  ", 1));
}

fn msg(author: &str, content: &str) -> ContextMessage {
    ContextMessage { author_name: author.to_string(), content: content.to_string() }
}

#[test]
fn prompts_gather_their_context() {
    let history = vec![msg("A", "hi\nthere"), msg("B", "  "), msg("C", "ok")];
    assert_eq!(format_channel_context(&history, 100), "A: hi there\nC: ok");
    assert_eq!(prompt_with_channel_context(&[], 100, None, "q"), "q");
    assert_eq!(
        prompt_with_channel_context(&history, 100, None, "q"),
        "Recent channel context before the user's message:\nA: hi there\nC: ok\n\nUser request:\nq"
    );
    assert_eq!(
        prompt_with_channel_context(&[], 100, Some("m"), "q"),
        "Long-term memory summary:\nm\n\nUser request:\nq"
    );
    assert_eq!(prompt_with_web_context(Some("W"), "q"), "W\n\nUser request:\nq");
    assert_eq!(prompt_with_web_context(None, "q"), "q");
    assert_eq!(
        memory_attachment_note("look", &vec!["a.png".to_string(), "b.txt".to_string()]),
        "look [User attached file(s): a.png, b.txt]"
    );
    assert_eq!(memory_attachment_note("look", &vec![]), "look");
}

#[test]
fn selected_messages_are_described() {
    let m = SelectedMessage {
        author_name: "Kim".to_string(),
        content: " see https://a.com ".to_string(),
        attachments: vec![
            AttachmentInfo { filename: "p.png".to_string(), content_type: None, size: 1 },
            AttachmentInfo { filename: "x.bin".to_string(), content_type: None, size: 1 },
        ],
    };
    let p = explicit_message_prompt(&m, "요약");
    assert!(p.starts_with(
        "You are analyzing an explicitly selected Discord message.\nDetected content types: text, link, image, unsupported attachment\nMessage author: Kim\nMessage text:\nsee https://a.com\nAttachment filenames: p.png, x.bin\n\n"
    ));
    assert!(p.ends_with("\n\nUser request:\n요약"));
    let empty = SelectedMessage { author_name: "K".to_string(), content: "".to_string(), attachments: vec![] };
    assert!(explicit_message_prompt(&empty, "q").contains("Message text:\n(none)\nAttachment filenames: (none)"));
    assert_eq!(mention_prompt(Some(&m), "요약", true, "ctx"), p);
    assert_eq!(mention_prompt(None, "q", true, "ctx"), "q");
    assert_eq!(mention_prompt(None, "q", false, "ctx"), "ctx");
    assert_eq!(web_query(Some(&m), "q"), " see https://a.com ");
    assert_eq!(web_query(None, "q"), "q");
}

#[test]
fn message_references_in_links_and_ids() {
    let r = explicit_message_reference("see <https://discord.com/channels/1/2/3>!", 9);
    assert_eq!(r, Some(ExplicitMessageReference { channel_id: 2, message_id: 3 }));
    assert_eq!(
        discord_message_link_reference("http://discordapp.com/channels/1/2/3/extra"),
        Some(ExplicitMessageReference { channel_id: 2, message_id: 3 })
    );
    assert_eq!(discord_message_link_reference("https://discord.com/channels/1/x/3"), None);
    assert_eq!(discord_message_link_reference("https://discord.com/channels/1/2"), None);
    assert_eq!(explicit_message_reference("123456789012345678901", 9), None);
    assert_eq!(explicit_message_reference("99999999999999999999 123456789012345678", 9), None);
    assert_eq!(
        explicit_message_reference("https://discord.com/channels/1/x/3 12345678901234567", 9),
        Some(ExplicitMessageReference { channel_id: 9, message_id: 12345678901234567 })
    );
}
