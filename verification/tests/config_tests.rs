use jetson_discord_bot::config::{
    parse_bool_env, parse_env_or, parse_list, parse_u64_list_env, parse_system_prompt,
    require_nonzero, required_env, Config, ConfigError, ThinkingMode,
};
use jetson_discord_bot::env_key::EnvKey;

fn env(pairs: &[(&str, &str)]) -> Vec<(String, String)> {
    pairs
        .iter()
        .map(|(k, v)| (k.to_string(), v.to_string()))
        .collect()
}

fn config(pairs: &[(&str, &str)]) -> Result<Config, ConfigError> {
    Config::from_env(&env(pairs), &None)
}

#[test]
fn from_env_uses_defaults_with_only_a_token() {
    let c = config(&[("DISCORD_TOKEN", "  secret  ")]).unwrap();
    assert_eq!(c.discord_token, "secret");
    assert_eq!(c.discord_guild_id, None);
    assert!(!c.discord_chat_listener);
    assert!(c.discord_markdown_output);
    assert_eq!(c.discord_context_messages, 8);
    assert_eq!(c.discord_context_chars, 2400);
    assert!(c.discord_trigger_names.is_empty());
    assert!(!c.memory_enabled);
    assert_eq!(c.memory_dir, "memory");
    assert_eq!(c.memory_summarize_every, 20);
    assert_eq!(c.web_search_results, 5);
    assert!(c.web_fetch_links);
    assert_eq!(c.web_fetch_body_bytes, 524288);
    assert!(c.attachments_enabled);
    assert_eq!(c.attachment_max_bytes, 8388608);
    assert_eq!(c.attachment_download_timeout_secs, 20);
    assert!(!c.dev_sandbox_enabled);
    assert_eq!(c.dev_sandbox_runtime, "podman");
    assert_eq!(c.dev_sandbox_image, "localhost/komi-dev:latest");
    assert_eq!(c.dev_sandbox_timeout_secs, 60);
    assert_eq!(c.llama_base_url, "http://100.79.59.49:8080");
    assert_eq!(c.llama_model, "local-gemma");
    assert_eq!(
        c.llama_system_prompt,
        "You are a concise Discord assistant running locally on a Jetson."
    );
    assert_eq!(c.llama_timeout_secs, 120);
    assert_eq!(c.llama_max_tokens, 512);
    assert_eq!(c.llama_prompt_chars, 5000);
    assert_eq!(c.llama_thinking_mode, ThinkingMode::Off);
}

#[test]
fn from_env_requires_a_token() {
    assert_eq!(
        config(&[("DISCORD_TOKEN", "   ")]).unwrap_err(),
        ConfigError::Missing(EnvKey::DiscordToken)
    );
    assert_eq!(
        config(&[]).unwrap_err().message(),
        "missing required environment variable: DISCORD_TOKEN"
    );
}

#[test]
fn from_env_reads_values() {
    let c = config(&[
        ("DISCORD_TOKEN", "t"),
        ("DISCORD_GUILD_ID", "123"),
        ("DISCORD_CHAT_LISTENER", "YES"),
        ("DISCORD_CONTEXT_MESSAGES", "150"),
        ("DISCORD_TRIGGER_NAMES", " 코미, ,komi "),
        ("LLAMA_BASE_URL", "http://host:8080///"),
        ("LLAMA_SYSTEM_PROMPT", "line one\\nline two"),
        ("LLAMA_THINKING_MODE", "Auto"),
        ("DEV_SANDBOX_ENABLED", "on"),
        ("DEV_SANDBOX_ALLOWED_USER_IDS", "1, x, 3"),
    ])
    .unwrap();
    assert_eq!(c.discord_guild_id, Some(123));
    assert!(c.discord_chat_listener);
    assert_eq!(c.discord_context_messages, 100);
    assert_eq!(c.discord_trigger_names, vec!["코미".to_string(), "komi".to_string()]);
    assert_eq!(c.llama_base_url, "http://host:8080");
    assert_eq!(c.llama_system_prompt, "line one\nline two");
    assert_eq!(c.llama_thinking_mode, ThinkingMode::Auto);
    assert!(c.dev_sandbox_enabled);
    assert_eq!(c.dev_sandbox_allowed_user_ids, vec![1, 3]);
}

#[test]
fn from_env_refuses_invalid_numbers() {
    assert_eq!(
        config(&[("DISCORD_TOKEN", "t"), ("DISCORD_GUILD_ID", "abc")]).unwrap_err(),
        ConfigError::Invalid(EnvKey::DiscordGuildId)
    );
    assert_eq!(
        config(&[("DISCORD_TOKEN", "t"), ("DISCORD_CONTEXT_MESSAGES", "300")]).unwrap_err(),
        ConfigError::Invalid(EnvKey::DiscordContextMessages)
    );
    assert_eq!(
        ConfigError::Invalid(EnvKey::LlamaMaxTokens).message(),
        "LLAMA_MAX_TOKENS is invalid"
    );
}

#[test]
fn from_env_refuses_invalid_booleans() {
    let e = config(&[("DISCORD_TOKEN", "t"), ("MEMORY_ENABLED", "maybe")]).unwrap_err();
    assert_eq!(e, ConfigError::InvalidBool(EnvKey::MemoryEnabled));
    assert_eq!(
        e.message(),
        "MEMORY_ENABLED must be one of: 1, 0, true, false, yes, no, on, off"
    );
}

#[test]
fn lenient_settings_fall_back_on_defaults() {
    let c = config(&[
        ("DISCORD_TOKEN", "t"),
        ("ATTACHMENTS_ENABLED", "sometimes"),
        ("ATTACHMENT_MAX_IMAGES", "0"),
        ("ATTACHMENT_MAX_BYTES", "lots"),
        ("DEV_SANDBOX_MAX_STEPS", "4"),
    ])
    .unwrap();
    assert!(c.attachments_enabled);
    assert_eq!(c.attachment_max_images, 3);
    assert_eq!(c.attachment_max_bytes, 8388608);
    assert_eq!(c.dev_sandbox_max_steps, 4);
}

#[test]
fn from_env_refuses_zero_limits_of_enabled_features() {
    assert_eq!(
        config(&[("DISCORD_TOKEN", "t"), ("LLAMA_TIMEOUT_SECS", "0")]).unwrap_err(),
        ConfigError::NotPositive(EnvKey::LlamaTimeoutSecs)
    );
    let e = config(&[
        ("DISCORD_TOKEN", "t"),
        ("MEMORY_ENABLED", "1"),
        ("MEMORY_SUMMARY_CHARS", "0"),
    ])
    .unwrap_err();
    assert_eq!(e, ConfigError::NotPositive(EnvKey::MemorySummaryChars));
    assert_eq!(
        e.message(),
        "MEMORY_SUMMARY_CHARS must be greater than 0 when memory is enabled"
    );
    assert!(config(&[("DISCORD_TOKEN", "t"), ("MEMORY_SUMMARY_CHARS", "0")]).is_ok());
    assert_eq!(
        config(&[("DISCORD_TOKEN", "t"), ("DISCORD_CONTEXT_CHARS", "0")]).unwrap_err(),
        ConfigError::NotPositive(EnvKey::DiscordContextChars)
    );
    assert!(config(&[
        ("DISCORD_TOKEN", "t"),
        ("DISCORD_CONTEXT_CHARS", "0"),
        ("DISCORD_CONTEXT_MESSAGES", "0"),
    ])
    .is_ok());
    assert_eq!(
        ConfigError::NotPositive(EnvKey::LlamaPromptChars).message(),
        "LLAMA_PROMPT_CHARS must be greater than 0"
    );
}

#[test]
fn from_env_requires_sandbox_users() {
    let e = config(&[("DISCORD_TOKEN", "t"), ("DEV_SANDBOX_ENABLED", "1")]).unwrap_err();
    assert_eq!(e, ConfigError::NoSandboxUsers);
    assert_eq!(
        e.message(),
        "DEV_SANDBOX_ALLOWED_USER_IDS must contain at least one Discord user ID"
    );
    assert_eq!(
        config(&[
            ("DISCORD_TOKEN", "t"),
            ("DEV_SANDBOX_ENABLED", "1"),
            ("DEV_SANDBOX_ALLOWED_USER_IDS", "x,y"),
        ])
        .unwrap_err(),
        ConfigError::NoSandboxUsers
    );
}

#[test]
fn thinking_mode_words() {
    assert_eq!("off".parse::<ThinkingMode>(), Ok(ThinkingMode::Off));
    assert_eq!("1".parse::<ThinkingMode>(), Ok(ThinkingMode::On));
    assert_eq!("AUTO".parse::<ThinkingMode>(), Ok(ThinkingMode::Auto));
    assert_eq!(
        "maybe".parse::<ThinkingMode>(),
        Err(ConfigError::InvalidThinkingMode)
    );
    let c = config(&[("DISCORD_TOKEN", "t"), ("LLAMA_ENABLE_THINKING", "true")]).unwrap();
    assert_eq!(c.llama_thinking_mode, ThinkingMode::On);
    assert_eq!(
        config(&[("DISCORD_TOKEN", "t"), ("LLAMA_ENABLE_THINKING", "auto")]).unwrap_err(),
        ConfigError::InvalidEnableThinking
    );
    assert_eq!(
        config(&[("DISCORD_TOKEN", "t"), ("LLAMA_THINKING_MODE", "x")]).unwrap_err(),
        ConfigError::InvalidThinkingMode
    );
}

#[test]
fn system_prompt_file_takes_precedence() {
    let e = env(&[("LLAMA_SYSTEM_PROMPT_FILE", "p.txt"), ("LLAMA_SYSTEM_PROMPT", "inline")]);
    assert_eq!(
        parse_system_prompt(&e, &Some("  from file \n".to_string())),
        Ok("from file".to_string())
    );
    assert_eq!(
        parse_system_prompt(&e, &None),
        Err(ConfigError::PromptFileUnreadable)
    );
}

#[test]
fn list_and_number_helpers() {
    assert_eq!(parse_list(" a, ,b ,"), vec!["a".to_string(), "b".to_string()]);
    let e = env(&[("DEV_SANDBOX_ALLOWED_USER_IDS", "7,,8"), ("WEB_SEARCH_RESULTS", "x")]);
    assert_eq!(
        parse_u64_list_env(&e, EnvKey::DevSandboxAllowedUserIds),
        Some(vec![7, 8])
    );
    assert_eq!(parse_u64_list_env(&e, EnvKey::DiscordTriggerNames), None);
    assert_eq!(parse_env_or(&e, EnvKey::WebSearchResults, 5, u64::MAX), 5);
    assert_eq!(parse_bool_env(&e, EnvKey::WebSearchEnabled, true), Ok(true));
    assert_eq!(
        required_env(&e, EnvKey::DiscordToken),
        Err(ConfigError::Missing(EnvKey::DiscordToken))
    );
    assert_eq!(require_nonzero(EnvKey::WebFetchChars, 0, false), Ok(()));
    assert_eq!(
        require_nonzero(EnvKey::WebFetchChars, 0, true),
        Err(ConfigError::NotPositive(EnvKey::WebFetchChars))
    );
}

#[test]
fn a_consistent_configuration_has_positive_limits() {
    let c = config(&[
        ("DISCORD_TOKEN", "t"),
        ("MEMORY_ENABLED", "1"),
        ("WEB_SEARCH_ENABLED", "1"),
        ("WEB_CRAWL_LINKS", "1"),
        ("DEV_SANDBOX_ENABLED", "1"),
        ("DEV_SANDBOX_ALLOWED_USER_IDS", "5"),
    ])
    .unwrap();
    assert!(c.memory_summarize_every > 0 && c.memory_entry_chars > 0);
    assert!(c.web_search_results > 0 && c.web_crawl_max_pages > 0);
    assert!(!c.dev_sandbox_allowed_user_ids.is_empty());
}
