//! AI provider requests: which messages each API is sent, where they go,
//! and how an answer is read. The HTTP exchange and the cost in dollars are
//! the caller's.
use vstd::prelude::*;
use crate::text;
use crate::config::AiProviderConfig;

verus! {

/// A single message in a conversation.
#[derive(Debug, Clone)]
pub struct ChatMessage {
    /// `user`, `assistant` or `system`.
    pub role: String,
    pub content: String,
}

/// Token usage reported by an AI API call.
#[derive(Debug, Clone, Copy)]
pub struct TokenUsage {
    pub input_tokens: u32,
    pub output_tokens: u32,
}

impl Default for TokenUsage {
    fn default() -> (r: Self)
        ensures
            r.input_tokens == 0 && r.output_tokens == 0,
    {
        TokenUsage { input_tokens: 0, output_tokens: 0 }
    }
}

/// The result of an AI API call: the text, the token usage and the model.
#[derive(Debug, Clone)]
pub struct ChatResult {
    pub text: String,
    pub usage: TokenUsage,
    pub model: String,
}

/// Messages as `(role, content)` views.
pub open spec fn messages_view(v: Seq<ChatMessage>) -> Seq<(Seq<char>, Seq<char>)> {
    v.map_values(|m: ChatMessage| (m.role@, m.content@))
}

/// The messages other than system messages, in order.
pub open spec fn non_system(v: Seq<(Seq<char>, Seq<char>)>) -> Seq<(Seq<char>, Seq<char>)>
    decreases v.len(),
{
    if v.len() == 0 {
        Seq::empty()
    } else {
        let prev = non_system(v.drop_last());
        if v.last().0 == "system"@ { prev } else { prev.push(v.last()) }
    }
}

/// No system message is left in the conversation sent on, and every message
/// sent on comes from the conversation.
pub proof fn no_system_messages_sent(v: Seq<(Seq<char>, Seq<char>)>)
    ensures
        forall|i: int| 0 <= i < non_system(v).len() ==> (#[trigger] non_system(v)[i]).0 != "system"@,
        forall|i: int| 0 <= i < non_system(v).len() ==> v.contains(#[trigger] non_system(v)[i]),
    decreases v.len(),
{
    if v.len() > 0 {
        no_system_messages_sent(v.drop_last());
        let prev = non_system(v.drop_last());
        assert forall|i: int| 0 <= i < non_system(v).len() implies v.contains(#[trigger] non_system(v)[i]) by {
            if i < prev.len() {
                assert(non_system(v)[i] == prev[i]);
                let j = choose|j: int| 0 <= j < v.drop_last().len() && v.drop_last()[j] == prev[i];
                assert(v[j] == prev[i]);
            } else {
                assert(v[v.len() - 1] == v.last());
            }
        }
        assert forall|i: int| 0 <= i < non_system(v).len() implies (#[trigger] non_system(v)[i]).0 != "system"@ by {
            if i < prev.len() {
                assert(non_system(v)[i] == prev[i]);
            }
        }
    }
}

fn copy_message(m: &ChatMessage) -> (r: ChatMessage)
    ensures
        r.role@ == m.role@ && r.content@ == m.content@,
{
    ChatMessage { role: m.role.clone(), content: m.content.clone() }
}

/// The messages sent to the Anthropic Messages API: the conversation without
/// system messages (the system prompt travels separately).
pub fn anthropic_messages(messages: &[ChatMessage]) -> (r: Vec<ChatMessage>)
    ensures
        messages_view(r@) == non_system(messages_view(messages@)),
{
    let ghost mv = messages_view(messages@);
    let mut r: Vec<ChatMessage> = Vec::new();
    let mut i: usize = 0;
    while i < messages.len()
        invariant
            i <= messages@.len(),
            mv == messages_view(messages@),
            messages_view(r@) == non_system(mv.take(i as int)),
        decreases messages@.len() - i,
    {
        proof {
            assert(mv.take(i + 1).drop_last() =~= mv.take(i as int));
            assert(mv.take(i + 1).last() == mv[i as int]);
        }
        if !text::str_eq(messages[i].role.as_str(), "system") {
            let ghost before = messages_view(r@);
            r.push(copy_message(&messages[i]));
            assert(messages_view(r@) =~= before.push(mv[i as int]));
        }
        i = i + 1;
    }
    assert(mv.take(messages@.len() as int) =~= mv);
    r
}

/// The messages sent to an OpenAI-compatible API: the system prompt as a
/// system message, then the conversation without system messages.
pub fn openai_messages(system_prompt: &str, messages: &[ChatMessage]) -> (r: Vec<ChatMessage>)
    ensures
        messages_view(r@) == seq![("system"@, system_prompt@)] + non_system(messages_view(messages@)),
{
    let mut r: Vec<ChatMessage> = Vec::new();
    r.push(ChatMessage { role: text::owned("system"), content: text::owned(system_prompt) });
    let rest = anthropic_messages(messages);
    let mut i: usize = 0;
    while i < rest.len()
        invariant
            i <= rest@.len(),
            messages_view(r@) == seq![("system"@, system_prompt@)] + messages_view(rest@).take(i as int),
        decreases rest@.len() - i,
    {
        let ghost before = messages_view(r@);
        let ghost rv = messages_view(rest@);
        r.push(copy_message(&rest[i]));
        assert(rv[i as int] == (rest@[i as int].role@, rest@[i as int].content@));
        assert(messages_view(r@) =~= before.push(rv[i as int]));
        assert(rv.take(i + 1) =~= rv.take(i as int).push(rv[i as int]));
        assert(messages_view(r@) =~= seq![("system"@, system_prompt@)] + rv.take(i + 1));
        i = i + 1;
    }
    assert(messages_view(rest@).take(rest@.len() as int) =~= messages_view(rest@));
    r
}

/// The chat-completions URL under an API base URL (trailing slashes dropped).
pub fn chat_completions_url(base_url: &str) -> (u: String)
    ensures
        u@ == text::strip_trailing_char(base_url@, '/') + "/chat/completions"@,
{
    let v = text::chars_of(base_url);
    let mut n: usize = v.len();
    proof {
        assert(v@.take(n as int) =~= v@);
    }
    while n > 0 && v[n - 1] == '/'
        invariant
            n <= v.len(),
            v@ == base_url@,
            text::strip_trailing_char(v@, '/') == text::strip_trailing_char(v@.take(n as int), '/'),
        decreases n,
    {
        proof {
            assert(v@.take(n as int).drop_last() =~= v@.take(n - 1));
        }
        n = n - 1;
    }
    proof {
        let t = v@.take(n as int);
        if t.len() > 0 {
            assert(t.last() == v@[n - 1]);
        }
        assert(v@.subrange(0, n as int) =~= t);
    }
    let mut u = text::string_of(&v, 0, n);
    text::push_str(&mut u, "/chat/completions");
    u
}

/// The default base URL of the OpenAI API.
pub const OPENAI_API_BASE: &'static str = "https://api.openai.com/v1";

/// Where a conversation is sent: the Anthropic Messages API, or an
/// OpenAI-compatible chat-completions API under a base URL.
#[derive(Clone, Debug)]
pub enum ChatRoute {
    Anthropic { api_key: String, model: String },
    OpenAiCompatible { api_key: String, model: String, base_url: String },
}

/// The route for a provider configuration: Anthropic's own API, OpenAI's
/// API at its default base URL, a custom OpenAI-compatible API at its own
/// base URL; an unconfigured provider is refused.
pub fn chat_route(config: &AiProviderConfig) -> (r: Result<ChatRoute, String>)
    ensures
        match *config {
            AiProviderConfig::Anthropic { api_key, model } => r matches Ok(ChatRoute::Anthropic { api_key: k, model: m })
                && k@ == api_key@ && m@ == model@,
            AiProviderConfig::OpenAi { api_key, model } => r matches Ok(
                ChatRoute::OpenAiCompatible { api_key: k, model: m, base_url: b },
            ) && k@ == api_key@ && m@ == model@ && b@ == OPENAI_API_BASE@,
            AiProviderConfig::Custom { api_key, model, base_url } => r matches Ok(
                ChatRoute::OpenAiCompatible { api_key: k, model: m, base_url: b },
            ) && k@ == api_key@ && m@ == model@ && b@ == base_url@,
            AiProviderConfig::Unconfigured => r matches Err(e) && e@ == "No AI provider configured"@,
        },
{
    match config {
        AiProviderConfig::Anthropic { api_key, model } => Ok(
            ChatRoute::Anthropic { api_key: api_key.clone(), model: model.clone() },
        ),
        AiProviderConfig::OpenAi { api_key, model } => Ok(
            ChatRoute::OpenAiCompatible {
                api_key: api_key.clone(),
                model: model.clone(),
                base_url: text::owned(OPENAI_API_BASE),
            },
        ),
        AiProviderConfig::Custom { api_key, model, base_url } => Ok(
            ChatRoute::OpenAiCompatible { api_key: api_key.clone(), model: model.clone(), base_url: base_url.clone() },
        ),
        AiProviderConfig::Unconfigured => Err(text::owned("No AI provider configured")),
    }
}

/// The `Authorization` header value for a bearer token.
pub fn bearer_value(api_key: &str) -> (v: String)
    ensures
        v@ == "Bearer "@ + api_key@,
{
    let mut v = text::owned("Bearer ");
    text::push_str(&mut v, api_key);
    v
}

/// The text of an answer: the text of its first content block (or first
/// choice), or `No response text` when there is none.
pub fn response_text(first: Option<Option<String>>) -> (t: String)
    ensures
        t@ == (match first {
            Some(Some(s)) => s@,
            _ => "No response text"@,
        }),
{
    match first {
        Some(Some(s)) => s,
        _ => text::owned("No response text"),
    }
}

/// Token usage from the counts an answer reports (missing counts read as 0).
pub fn usage_from(input: Option<u32>, output: Option<u32>) -> (u: TokenUsage)
    ensures
        u.input_tokens == (match input { Some(n) => n, None => 0 }),
        u.output_tokens == (match output { Some(n) => n, None => 0 }),
{
    TokenUsage {
        input_tokens: match input { Some(n) => n, None => 0 },
        output_tokens: match output { Some(n) => n, None => 0 },
    }
}

/// The price band of a model, by its name.
#[derive(Debug, Clone, Copy, PartialEq, Eq, Structural)]
pub enum PriceTier {
    Haiku,
    Sonnet,
    Opus,
    Gpt4oMini,
    Gpt4o,
    /// Anything else (a default estimate).
    Other,
}

pub open spec fn price_tier_of(model: Seq<char>) -> PriceTier {
    if text::contains(model, "haiku"@) {
        PriceTier::Haiku
    } else if text::contains(model, "sonnet"@) {
        PriceTier::Sonnet
    } else if text::contains(model, "opus"@) {
        PriceTier::Opus
    } else if text::contains(model, "gpt-4o-mini"@) {
        PriceTier::Gpt4oMini
    } else if text::contains(model, "gpt-4o"@) {
        PriceTier::Gpt4o
    } else {
        PriceTier::Other
    }
}

/// The price band of a model: the first of `haiku`, `sonnet`, `opus`,
/// `gpt-4o-mini`, `gpt-4o` that its name contains.
pub fn price_tier(model: &str) -> (t: PriceTier)
    ensures
        t == price_tier_of(model@),
{
    if text::str_contains(model, "haiku") {
        PriceTier::Haiku
    } else if text::str_contains(model, "sonnet") {
        PriceTier::Sonnet
    } else if text::str_contains(model, "opus") {
        PriceTier::Opus
    } else if text::str_contains(model, "gpt-4o-mini") {
        PriceTier::Gpt4oMini
    } else if text::str_contains(model, "gpt-4o") {
        PriceTier::Gpt4o
    } else {
        PriceTier::Other
    }
}

} // verus!
