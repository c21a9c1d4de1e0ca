use jetson_discord_bot::llama::{
    clean_discord_output, should_enable_thinking, trim_prompt, ChatChoiceMessage,
};

#[test]
fn message_content_returns_visible_answer() {
    let message = ChatChoiceMessage {
        content: Some("answer".to_string()),
    };

    assert_eq!(message.content().as_deref(), Some("answer"));
}

#[test]
fn message_content_rejects_empty_content() {
    let message = ChatChoiceMessage {
        content: Some(String::new()),
    };

    assert_eq!(message.content(), None);
}

#[test]
fn message_content_rejects_missing_content() {
    let message = ChatChoiceMessage { content: None };

    assert_eq!(message.content(), None);
}

#[test]
fn thinking_auto_stays_off_for_simple_prompts() {
    assert!(!should_enable_thinking("Say only: ok"));
}

#[test]
fn thinking_auto_turns_on_for_reasoning_prompts() {
    assert!(should_enable_thinking("이 에러 원인 분석해줘"));
}

#[test]
fn clean_discord_output_removes_latex_markers() {
    let output = clean_discord_output(
        "$P = \\epsilon_0 (\\epsilon_r - 1) E$ = $8.855 \\times 10^{-12}$ F/m".to_string(),
    );

    assert_eq!(
        output,
        "P = epsilon0 (epsilon_r - 1) E = 8.855 * 10^{-12} F/m"
    );
}

#[test]
fn trim_prompt_keeps_tail_when_over_budget() {
    let prompt = trim_prompt("abcdef", 3);

    assert!(prompt.ends_with("def"));
    assert!(prompt.contains("truncated"));
}

use jetson_discord_bot::attachments::ImageInput;
use jetson_discord_bot::config::{Config, ThinkingMode};
use jetson_discord_bot::llama::{
    braces_reversed, completion_answer, dev_action_json, dev_action_prompt, health_text,
    ContentPart, LlamaClient, LlamaError, MessageContent,
};

fn client(pairs: &[(&str, &str)]) -> LlamaClient {
    let mut env = vec![("DISCORD_TOKEN".to_string(), "t".to_string())];
    env.extend(pairs.iter().map(|(k, v)| (k.to_string(), v.to_string())));
    LlamaClient::new(&Config::from_env(&env, &None).unwrap())
}

#[test]
fn chat_requests_carry_prompt_and_images() {
    let c = client(&[("LLAMA_BASE_URL", "http://h:1/"), ("LLAMA_SYSTEM_PROMPT", "sys")]);
    let image = ImageInput {
        filename: "a.png".to_string(),
        mime: "image/png".to_string(),
        data_base64: "QUJD".to_string(),
    };
    let r = c.chat_request("hi", &[image], c.answer_options());
    assert_eq!(r.url, "http://h:1/v1/chat/completions");
    assert_eq!(r.model, "local-gemma");
    assert_eq!(r.max_tokens, 512);
    assert_eq!(r.messages.len(), 3);
    assert_eq!(r.messages[0].role, "system");
    assert!(matches!(&r.messages[0].content, MessageContent::Text(t) if t == "sys"));
    assert!(matches!(&r.messages[1].content, MessageContent::Text(t) if t.starts_with("Format replies")));
    match &r.messages[2].content {
        MessageContent::Parts(parts) => {
            assert!(matches!(&parts[0], ContentPart::Text(t) if t == "hi"));
            assert!(matches!(&parts[1], ContentPart::ImageUrl(u) if u == "data:image/png;base64,QUJD"));
        }
        _ => panic!("expected parts"),
    }
    assert!(!r.enable_thinking);
    assert!(!r.dev_step);
}

#[test]
fn long_prompts_are_cut_and_thinking_follows_the_mode() {
    let c = client(&[("LLAMA_PROMPT_CHARS", "4"), ("DISCORD_MARKDOWN_OUTPUT", "0"), ("LLAMA_THINKING_MODE", "on")]);
    let r = c.chat_request("abcdefgh", &[], c.answer_options());
    assert_eq!(r.messages.len(), 2);
    assert!(matches!(
        &r.messages[1].content,
        MessageContent::Text(t) if t == "Earlier context was truncated to fit the model context window.\n\nefgh"
    ));
    assert!(r.enable_thinking);
    assert_eq!(c.thinking_mode, ThinkingMode::On);
    let auto = client(&[("LLAMA_THINKING_MODE", "auto")]);
    assert!(auto.enable_thinking_for("이 에러 원인 분석해줘"));
    assert!(!auto.enable_thinking_for("hello"));
    let d = auto.dev_action_request("make it", "", 1, 8);
    assert!(d.dev_step);
    assert_eq!(d.messages.len(), 2);
}

#[test]
fn answers_are_cleaned_or_refused() {
    let m = |c: Option<&str>| ChatChoiceMessage { content: c.map(str::to_string) };
    assert_eq!(completion_answer(Some(m(Some(" $x$ \n"))), true), Ok("x".to_string()));
    assert_eq!(completion_answer(Some(m(Some(" $x$ \n"))), false), Ok("$x$".to_string()));
    assert_eq!(completion_answer(Some(m(Some("  "))), true), Err(LlamaError::NoVisibleAnswer));
    assert_eq!(completion_answer(None, true), Err(LlamaError::NoVisibleAnswer));
    assert_eq!(LlamaError::NoVisibleAnswer.message(), "llama server returned no visible answer");
    assert_eq!(health_text("  ".to_string()), "healthy");
    assert_eq!(health_text("ok".to_string()), "ok");
}

#[test]
fn development_actions_are_cut_out_of_the_answer() {
    let fenced = "result:\n```json\n{\"command\":\"ls\",\"done\":false}\n```";
    assert!(!braces_reversed(fenced));
    assert_eq!(
        dev_action_json(fenced),
        Ok("{\"command\":\"ls\",\"done\":false}".to_string())
    );
    let vars = r#"{"command":"printf '%s\n' \"$HOME\"","done":false}"#;
    assert_eq!(dev_action_json(vars), Ok(vars.to_string()));
    assert_eq!(dev_action_json("no json"), Err(LlamaError::NoJsonAction));
    assert_eq!(dev_action_json("{ open"), Err(LlamaError::IncompleteJsonAction));
    assert!(braces_reversed("} x {"));
    assert!(!braces_reversed("}{"));
    let p = dev_action_prompt("task", "log", 2, 8);
    assert!(p.contains("User task:\ntask\n\nPrevious command transcript:\nlog"));
    assert!(p.contains("- You are on step 2 of at most 8."));
}

#[test]
fn cleaned_answers_hold_no_dollar_signs() {
    let output = clean_discord_output("  $$x$$ costs $5 \\times 2  \n\n".to_string());
    assert_eq!(output, "x costs 5 * 2");
    assert!(!output.contains('$'));
}
