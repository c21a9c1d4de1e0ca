//! Names of the environment variables the configuration reads.

use vstd::prelude::*;

verus! {

/// An environment variable that the configuration reads.
#[derive(Clone, Copy, Debug, PartialEq, Eq, Structural)]
pub enum EnvKey {
    DiscordToken,
    DiscordGuildId,
    DiscordChatListener,
    DiscordMarkdownOutput,
    DiscordContextMessages,
    DiscordContextChars,
    DiscordTriggerNames,
    MemoryEnabled,
    MemoryCaptureAllChat,
    MemoryDir,
    MemorySummarizeEvery,
    MemorySummaryChars,
    MemoryRetainRawLogs,
    MemoryMaxLogChars,
    MemoryEntryChars,
    MemoryStoreAuthorNames,
    WebSearchEnabled,
    WebSearchAlways,
    WebSearchResults,
    WebFetchLinks,
    WebFetchMaxUrls,
    WebFetchChars,
    WebFetchBodyBytes,
    WebCrawlLinks,
    WebCrawlMaxPages,
    WebCrawlChars,
    AttachmentsEnabled,
    AttachmentMaxBytes,
    AttachmentMaxImages,
    AttachmentMaxTextChars,
    AttachmentDownloadTimeoutSecs,
    DevSandboxEnabled,
    DevSandboxAllowedUserIds,
    DevSandboxRuntime,
    DevSandboxImage,
    DevSandboxContainer,
    DevSandboxWorkspace,
    DevSandboxTimeoutSecs,
    DevSandboxMaxSteps,
    DevSandboxOutputChars,
    LlamaBaseUrl,
    LlamaModel,
    LlamaSystemPromptFile,
    LlamaSystemPrompt,
    LlamaTimeoutSecs,
    LlamaMaxTokens,
    LlamaPromptChars,
    LlamaThinkingMode,
    LlamaEnableThinking,
}

impl EnvKey {
    /// The variable's name.
    pub open spec fn spec_name(self) -> Seq<char> {
        match self {
            EnvKey::DiscordToken => "DISCORD_TOKEN"@,
            EnvKey::DiscordGuildId => "DISCORD_GUILD_ID"@,
            EnvKey::DiscordChatListener => "DISCORD_CHAT_LISTENER"@,
            EnvKey::DiscordMarkdownOutput => "DISCORD_MARKDOWN_OUTPUT"@,
            EnvKey::DiscordContextMessages => "DISCORD_CONTEXT_MESSAGES"@,
            EnvKey::DiscordContextChars => "DISCORD_CONTEXT_CHARS"@,
            EnvKey::DiscordTriggerNames => "DISCORD_TRIGGER_NAMES"@,
            EnvKey::MemoryEnabled => "MEMORY_ENABLED"@,
            EnvKey::MemoryCaptureAllChat => "MEMORY_CAPTURE_ALL_CHAT"@,
            EnvKey::MemoryDir => "MEMORY_DIR"@,
            EnvKey::MemorySummarizeEvery => "MEMORY_SUMMARIZE_EVERY"@,
            EnvKey::MemorySummaryChars => "MEMORY_SUMMARY_CHARS"@,
            EnvKey::MemoryRetainRawLogs => "MEMORY_RETAIN_RAW_LOGS"@,
            EnvKey::MemoryMaxLogChars => "MEMORY_MAX_LOG_CHARS"@,
            EnvKey::MemoryEntryChars => "MEMORY_ENTRY_CHARS"@,
            EnvKey::MemoryStoreAuthorNames => "MEMORY_STORE_AUTHOR_NAMES"@,
            EnvKey::WebSearchEnabled => "WEB_SEARCH_ENABLED"@,
            EnvKey::WebSearchAlways => "WEB_SEARCH_ALWAYS"@,
            EnvKey::WebSearchResults => "WEB_SEARCH_RESULTS"@,
            EnvKey::WebFetchLinks => "WEB_FETCH_LINKS"@,
            EnvKey::WebFetchMaxUrls => "WEB_FETCH_MAX_URLS"@,
            EnvKey::WebFetchChars => "WEB_FETCH_CHARS"@,
            EnvKey::WebFetchBodyBytes => "WEB_FETCH_BODY_BYTES"@,
            EnvKey::WebCrawlLinks => "WEB_CRAWL_LINKS"@,
            EnvKey::WebCrawlMaxPages => "WEB_CRAWL_MAX_PAGES"@,
            EnvKey::WebCrawlChars => "WEB_CRAWL_CHARS"@,
            EnvKey::AttachmentsEnabled => "ATTACHMENTS_ENABLED"@,
            EnvKey::AttachmentMaxBytes => "ATTACHMENT_MAX_BYTES"@,
            EnvKey::AttachmentMaxImages => "ATTACHMENT_MAX_IMAGES"@,
            EnvKey::AttachmentMaxTextChars => "ATTACHMENT_MAX_TEXT_CHARS"@,
            EnvKey::AttachmentDownloadTimeoutSecs => "ATTACHMENT_DOWNLOAD_TIMEOUT_SECS"@,
            EnvKey::DevSandboxEnabled => "DEV_SANDBOX_ENABLED"@,
            EnvKey::DevSandboxAllowedUserIds => "DEV_SANDBOX_ALLOWED_USER_IDS"@,
            EnvKey::DevSandboxRuntime => "DEV_SANDBOX_RUNTIME"@,
            EnvKey::DevSandboxImage => "DEV_SANDBOX_IMAGE"@,
            EnvKey::DevSandboxContainer => "DEV_SANDBOX_CONTAINER"@,
            EnvKey::DevSandboxWorkspace => "DEV_SANDBOX_WORKSPACE"@,
            EnvKey::DevSandboxTimeoutSecs => "DEV_SANDBOX_TIMEOUT_SECS"@,
            EnvKey::DevSandboxMaxSteps => "DEV_SANDBOX_MAX_STEPS"@,
            EnvKey::DevSandboxOutputChars => "DEV_SANDBOX_OUTPUT_CHARS"@,
            EnvKey::LlamaBaseUrl => "LLAMA_BASE_URL"@,
            EnvKey::LlamaModel => "LLAMA_MODEL"@,
            EnvKey::LlamaSystemPromptFile => "LLAMA_SYSTEM_PROMPT_FILE"@,
            EnvKey::LlamaSystemPrompt => "LLAMA_SYSTEM_PROMPT"@,
            EnvKey::LlamaTimeoutSecs => "LLAMA_TIMEOUT_SECS"@,
            EnvKey::LlamaMaxTokens => "LLAMA_MAX_TOKENS"@,
            EnvKey::LlamaPromptChars => "LLAMA_PROMPT_CHARS"@,
            EnvKey::LlamaThinkingMode => "LLAMA_THINKING_MODE"@,
            EnvKey::LlamaEnableThinking => "LLAMA_ENABLE_THINKING"@,
        }
    }

    /// The variable's name.
    pub fn name(&self) -> (r: &'static str)
        ensures
            r@ == self.spec_name(),
    {
        match self {
            EnvKey::DiscordToken => "DISCORD_TOKEN",
            EnvKey::DiscordGuildId => "DISCORD_GUILD_ID",
            EnvKey::DiscordChatListener => "DISCORD_CHAT_LISTENER",
            EnvKey::DiscordMarkdownOutput => "DISCORD_MARKDOWN_OUTPUT",
            EnvKey::DiscordContextMessages => "DISCORD_CONTEXT_MESSAGES",
            EnvKey::DiscordContextChars => "DISCORD_CONTEXT_CHARS",
            EnvKey::DiscordTriggerNames => "DISCORD_TRIGGER_NAMES",
            EnvKey::MemoryEnabled => "MEMORY_ENABLED",
            EnvKey::MemoryCaptureAllChat => "MEMORY_CAPTURE_ALL_CHAT",
            EnvKey::MemoryDir => "MEMORY_DIR",
            EnvKey::MemorySummarizeEvery => "MEMORY_SUMMARIZE_EVERY",
            EnvKey::MemorySummaryChars => "MEMORY_SUMMARY_CHARS",
            EnvKey::MemoryRetainRawLogs => "MEMORY_RETAIN_RAW_LOGS",
            EnvKey::MemoryMaxLogChars => "MEMORY_MAX_LOG_CHARS",
            EnvKey::MemoryEntryChars => "MEMORY_ENTRY_CHARS",
            EnvKey::MemoryStoreAuthorNames => "MEMORY_STORE_AUTHOR_NAMES",
            EnvKey::WebSearchEnabled => "WEB_SEARCH_ENABLED",
            EnvKey::WebSearchAlways => "WEB_SEARCH_ALWAYS",
            EnvKey::WebSearchResults => "WEB_SEARCH_RESULTS",
            EnvKey::WebFetchLinks => "WEB_FETCH_LINKS",
            EnvKey::WebFetchMaxUrls => "WEB_FETCH_MAX_URLS",
            EnvKey::WebFetchChars => "WEB_FETCH_CHARS",
            EnvKey::WebFetchBodyBytes => "WEB_FETCH_BODY_BYTES",
            EnvKey::WebCrawlLinks => "WEB_CRAWL_LINKS",
            EnvKey::WebCrawlMaxPages => "WEB_CRAWL_MAX_PAGES",
            EnvKey::WebCrawlChars => "WEB_CRAWL_CHARS",
            EnvKey::AttachmentsEnabled => "ATTACHMENTS_ENABLED",
            EnvKey::AttachmentMaxBytes => "ATTACHMENT_MAX_BYTES",
            EnvKey::AttachmentMaxImages => "ATTACHMENT_MAX_IMAGES",
            EnvKey::AttachmentMaxTextChars => "ATTACHMENT_MAX_TEXT_CHARS",
            EnvKey::AttachmentDownloadTimeoutSecs => "ATTACHMENT_DOWNLOAD_TIMEOUT_SECS",
            EnvKey::DevSandboxEnabled => "DEV_SANDBOX_ENABLED",
            EnvKey::DevSandboxAllowedUserIds => "DEV_SANDBOX_ALLOWED_USER_IDS",
            EnvKey::DevSandboxRuntime => "DEV_SANDBOX_RUNTIME",
            EnvKey::DevSandboxImage => "DEV_SANDBOX_IMAGE",
            EnvKey::DevSandboxContainer => "DEV_SANDBOX_CONTAINER",
            EnvKey::DevSandboxWorkspace => "DEV_SANDBOX_WORKSPACE",
            EnvKey::DevSandboxTimeoutSecs => "DEV_SANDBOX_TIMEOUT_SECS",
            EnvKey::DevSandboxMaxSteps => "DEV_SANDBOX_MAX_STEPS",
            EnvKey::DevSandboxOutputChars => "DEV_SANDBOX_OUTPUT_CHARS",
            EnvKey::LlamaBaseUrl => "LLAMA_BASE_URL",
            EnvKey::LlamaModel => "LLAMA_MODEL",
            EnvKey::LlamaSystemPromptFile => "LLAMA_SYSTEM_PROMPT_FILE",
            EnvKey::LlamaSystemPrompt => "LLAMA_SYSTEM_PROMPT",
            EnvKey::LlamaTimeoutSecs => "LLAMA_TIMEOUT_SECS",
            EnvKey::LlamaMaxTokens => "LLAMA_MAX_TOKENS",
            EnvKey::LlamaPromptChars => "LLAMA_PROMPT_CHARS",
            EnvKey::LlamaThinkingMode => "LLAMA_THINKING_MODE",
            EnvKey::LlamaEnableThinking => "LLAMA_ENABLE_THINKING",
        }
    }
}

} // verus!
