//! Runtime configuration: API keys, the AI provider and the OCR mode.
use vstd::prelude::*;
use crate::text;

verus! {

/// Runtime configuration loaded from the environment and the settings panel.
#[derive(Clone, Debug)]
pub struct AppConfig {
    pub ch_api_key: Option<String>,
    pub ai_provider: AiProviderConfig,
    pub kanon2_api_key: Option<String>,
    pub ocr_mode: OcrMode,
}

#[derive(Clone, Debug)]
pub enum AiProviderConfig {
    Anthropic { api_key: String, model: String },
    OpenAi { api_key: String, model: String },
    Custom { api_key: String, model: String, base_url: String },
    Unconfigured,
}

#[derive(Clone, Copy, Debug, PartialEq, Eq, Structural)]
pub enum OcrMode {
    /// Only attempt native PDF text extraction
    NativeOnly,
    /// Native + ocrs ML fallback
    WithOcrs,
    /// Native + Docling sidecar fallback
    WithDocling,
}

impl Default for OcrMode {
    fn default() -> (r: Self)
        ensures
            r == OcrMode::NativeOnly,
    {
        OcrMode::NativeOnly
    }
}

/// The provider selected by the environment: Anthropic when its key is set, else OpenAI
/// when its key is set (an empty key selecting no provider), else none. A model that
/// is not set is the default: `gpt-4o` for OpenAI, `default_anthropic_model` for Anthropic.
pub open spec fn env_provider_matches(
    r: AiProviderConfig,
    anthropic_key: Option<String>,
    anthropic_model: Option<String>,
    default_anthropic_model: Seq<char>,
    openai_key: Option<String>,
    openai_model: Option<String>,
) -> bool {
    match anthropic_key {
        Some(k) => if k@.len() > 0 {
            r matches AiProviderConfig::Anthropic { api_key, model } && api_key@ == k@ && model@
                == text::opt_or(anthropic_model, default_anthropic_model)
        } else {
            r is Unconfigured
        },
        None => match openai_key {
            Some(k) => if k@.len() > 0 {
                r matches AiProviderConfig::OpenAi { api_key, model } && api_key@ == k@ && model@
                    == text::opt_or(openai_model, "gpt-4o"@)
            } else {
                r is Unconfigured
            },
            None => r is Unconfigured,
        },
    }
}

fn string_or(o: Option<String>, default: &str) -> (r: String)
    ensures
        r@ == text::opt_or(o, default@),
{
    match o {
        Some(s) => s,
        None => text::owned(default),
    }
}

impl AppConfig {
    /// The configuration described by the values of the environment variables
    /// `ANTHROPIC_API_KEY`, `ANTHROPIC_MODEL`, `OPENAI_API_KEY`, `OPENAI_MODEL`,
    /// `CH_API_KEY` and `KANON2_API_KEY` (each `None` when unset), with the
    /// Anthropic model that applies when `ANTHROPIC_MODEL` is unset.
    pub fn from_env_values(
        anthropic_key: Option<String>,
        anthropic_model: Option<String>,
        default_anthropic_model: &str,
        openai_key: Option<String>,
        openai_model: Option<String>,
        ch_api_key: Option<String>,
        kanon2_api_key: Option<String>,
    ) -> (r: Self)
        ensures
            env_provider_matches(r.ai_provider, anthropic_key, anthropic_model, default_anthropic_model@, openai_key, openai_model),
            r.ch_api_key == ch_api_key,
            r.kanon2_api_key == kanon2_api_key,
            r.ocr_mode == OcrMode::NativeOnly,
    {
        let ai_provider = match anthropic_key {
            Some(key) => {
                if !key.as_str().is_empty() {
                    AiProviderConfig::Anthropic {
                        api_key: key,
                        model: string_or(anthropic_model, default_anthropic_model),
                    }
                } else {
                    AiProviderConfig::Unconfigured
                }
            },
            None => match openai_key {
                Some(key) => {
                    if !key.as_str().is_empty() {
                        AiProviderConfig::OpenAi { api_key: key, model: string_or(openai_model, "gpt-4o") }
                    } else {
                        AiProviderConfig::Unconfigured
                    }
                },
                None => AiProviderConfig::Unconfigured,
            },
        };
        AppConfig { ch_api_key, ai_provider, kanon2_api_key, ocr_mode: OcrMode::default() }
    }

    /// A non-empty Companies House API key is configured.
    pub open spec fn spec_has_ch_key(&self) -> bool {
        match self.ch_api_key {
            Some(k) => k@.len() > 0,
            None => false,
        }
    }

    pub fn has_ch_key(&self) -> (r: bool)
        ensures
            r == self.spec_has_ch_key(),
    {
        match &self.ch_api_key {
            Some(k) => !k.as_str().is_empty(),
            None => false,
        }
    }

    /// An AI provider is configured.
    pub fn has_ai(&self) -> (r: bool)
        ensures
            r == !(self.ai_provider is Unconfigured),
    {
        !matches!(self.ai_provider, AiProviderConfig::Unconfigured)
    }
}

/// The provider chosen in the settings panel: `anthropic`, `openai` or `custom`
/// with the given key and model (and base URL for `custom`); anything else is none.
pub open spec fn settings_provider_matches(
    r: AiProviderConfig,
    provider: Seq<char>,
    key: Seq<char>,
    model: Seq<char>,
    base_url: Seq<char>,
) -> bool {
    if provider == "anthropic"@ {
        r matches AiProviderConfig::Anthropic { api_key, model: m } && api_key@ == key && m@ == model
    } else if provider == "openai"@ {
        r matches AiProviderConfig::OpenAi { api_key, model: m } && api_key@ == key && m@ == model
    } else if provider == "custom"@ {
        r matches AiProviderConfig::Custom { api_key, model: m, base_url: b } && api_key@ == key
            && m@ == model && b@ == base_url
    } else {
        r is Unconfigured
    }
}

/// The AI provider described by the settings-panel fields.
pub fn provider_from_settings(provider: &str, key: &str, model: &str, base_url: &str) -> (r: AiProviderConfig)
    ensures
        settings_provider_matches(r, provider@, key@, model@, base_url@),
{
    if text::str_eq(provider, "anthropic") {
        AiProviderConfig::Anthropic { api_key: text::owned(key), model: text::owned(model) }
    } else if text::str_eq(provider, "openai") {
        AiProviderConfig::OpenAi { api_key: text::owned(key), model: text::owned(model) }
    } else if text::str_eq(provider, "custom") {
        AiProviderConfig::Custom {
            api_key: text::owned(key),
            model: text::owned(model),
            base_url: text::owned(base_url),
        }
    } else {
        AiProviderConfig::Unconfigured
    }
}

/// Apply the settings-panel fields to a configuration: the provider is replaced, and the
/// Kanon 2 key is replaced when the field is not empty.
pub fn apply_settings(config: &mut AppConfig, provider: &str, key: &str, model: &str, base_url: &str, kanon2_key: &str)
    ensures
        settings_provider_matches(final(config).ai_provider, provider@, key@, model@, base_url@),
        final(config).ch_api_key == old(config).ch_api_key,
        final(config).ocr_mode == old(config).ocr_mode,
        kanon2_key@.len() > 0 ==> (final(config).kanon2_api_key matches Some(k) && k@ == kanon2_key@),
        kanon2_key@.len() == 0 ==> final(config).kanon2_api_key == old(config).kanon2_api_key,
{
    config.ai_provider = provider_from_settings(provider, key, model, base_url);
    if !kanon2_key.is_empty() {
        config.kanon2_api_key = Some(text::owned(kanon2_key));
    }
}

} // verus!
