//! Settings of the AI backends.

use vstd::prelude::*;

verus! {

/// Which AI backend answers by default.
#[derive(Debug, Clone, Copy, PartialEq, Eq, Structural)]
pub enum AiBackendType {
    LmStudio,
    OpenAi,
    Claude,
    Local,
}

/// AI feature configuration. The sampling temperatures of autocomplete and
/// command queries are floating point and are held by the application.
#[derive(Debug, Clone)]
pub struct AiConfig {
    pub enabled: bool,
    pub default_backend: AiBackendType,
    pub autocomplete: AutocompleteConfig,
    pub command_query: CommandQueryConfig,
    pub backends: AiBackends,
}

/// Inline autocomplete settings.
#[derive(Debug, Clone, Copy, PartialEq, Eq, Structural)]
pub struct AutocompleteConfig {
    pub enabled: bool,
    pub debounce_ms: u32,
    pub max_tokens: u32,
    pub context_lines: usize,
}

/// Natural-language command query settings.
#[derive(Debug, Clone, Copy, PartialEq, Eq, Structural)]
pub struct CommandQueryConfig {
    pub enabled: bool,
    pub max_suggestions: u8,
    pub max_tokens: u32,
}

impl Default for AutocompleteConfig {
    fn default() -> (r: Self)
        ensures
            r == (AutocompleteConfig {
                enabled: true,
                debounce_ms: 250,
                max_tokens: 64,
                context_lines: 10,
            }),
    {
        AutocompleteConfig { enabled: true, debounce_ms: 250, max_tokens: 64, context_lines: 10 }
    }
}

impl Default for CommandQueryConfig {
    fn default() -> (r: Self)
        ensures
            r == (CommandQueryConfig { enabled: true, max_suggestions: 3, max_tokens: 256 }),
    {
        CommandQueryConfig { enabled: true, max_suggestions: 3, max_tokens: 256 }
    }
}

/// Settings of each backend.
#[derive(Debug, Clone)]
pub struct AiBackends {
    pub lm_studio: LmStudioConfig,
    pub openai: OpenAiConfig,
    pub claude: ClaudeConfig,
    pub local: LocalModelConfig,
}

#[derive(Debug, Clone)]
pub struct LmStudioConfig {
    pub base_url: String,
    pub api_key: String,
    pub model: String,
    pub timeout_secs: u64,
}

#[derive(Debug, Clone)]
pub struct OpenAiConfig {
    pub api_key: String,
    pub model: String,
    pub timeout_secs: u64,
}

#[derive(Debug, Clone)]
pub struct ClaudeConfig {
    pub api_key: String,
    pub model: String,
    pub max_tokens: u32,
}

#[derive(Debug, Clone)]
pub struct LocalModelConfig {
    pub model_repo: String,
    pub quantization: String,
    pub device: String,
    pub context_length: u32,
}

pub open spec fn default_lm_studio(c: LmStudioConfig) -> bool {
    &&& c.base_url@ == "http://localhost:1234/v1"@
    &&& c.api_key@ == "lm-studio"@
    &&& c.model@.len() == 0
    &&& c.timeout_secs == 30
}

pub open spec fn default_openai(c: OpenAiConfig) -> bool {
    &&& c.api_key@.len() == 0
    &&& c.model@ == "gpt-4o-mini"@
    &&& c.timeout_secs == 30
}

pub open spec fn default_local(c: LocalModelConfig) -> bool {
    &&& c.model_repo@.len() == 0
    &&& c.quantization@ == "Q4_K"@
    &&& c.device@ == "auto"@
    &&& c.context_length == 2048
}

impl Default for LmStudioConfig {
    fn default() -> (r: Self)
        ensures
            default_lm_studio(r),
    {
        LmStudioConfig {
            base_url: "http://localhost:1234/v1".to_owned(),
            api_key: "lm-studio".to_owned(),
            model: String::new(),
            timeout_secs: 30,
        }
    }
}

impl Default for OpenAiConfig {
    fn default() -> (r: Self)
        ensures
            default_openai(r),
    {
        OpenAiConfig { api_key: String::new(), model: "gpt-4o-mini".to_owned(), timeout_secs: 30 }
    }
}

impl Default for LocalModelConfig {
    fn default() -> (r: Self)
        ensures
            default_local(r),
    {
        LocalModelConfig {
            model_repo: String::new(),
            quantization: "Q4_K".to_owned(),
            device: "auto".to_owned(),
            context_length: 2048,
        }
    }
}

} // verus!
