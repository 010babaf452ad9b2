use vstd::prelude::*;
use crate::persist::json_escaped;
use crate::persist::json_escape;

verus! {

/// One chat turn of the inbound request.
pub struct Message {
    pub role: String,
    pub content: String,
}

/// The proxy's query-string parameters: which provider to route to, and an
/// optional session to append to.
pub struct ProxyParams {
    pub provider: String,
    pub session_id: Option<String>,
}

/// The text-generation providers the proxy can route to. Anthropic speaks the
/// message-block wire format; ChatGpt and Grok speak the chat-choices
/// format.
#[derive(Clone, Copy, Debug, PartialEq, Eq, Structural)]
pub enum Provider {
    Anthropic,
    ChatGpt,
    Grok,
}

fn str_eq(a: &str, b: &str) -> (r: bool)
    ensures
        r == (a@ == b@),
{
    let owned_a = a.to_owned();
    let owned_b = b.to_owned();
    owned_a == owned_b
}

/// Which provider a routing parameter names; None for anything the proxy
/// does not know, which the caller rejects as a bad request.
pub fn provider_kind(provider: &str) -> (r: Option<Provider>)
    ensures
        r == if provider@ == "anthropic"@ {
            Some(Provider::Anthropic)
        } else if provider@ == "chatgpt"@ {
            Some(Provider::ChatGpt)
        } else if provider@ == "grok"@ {
            Some(Provider::Grok)
        } else {
            None::<Provider>
        },
{
    if str_eq(provider, "anthropic") {
        Some(Provider::Anthropic)
    } else if str_eq(provider, "chatgpt") {
        Some(Provider::ChatGpt)
    } else if str_eq(provider, "grok") {
        Some(Provider::Grok)
    } else {
        None
    }
}

/// The per-provider system prompt wrapped around a user query.
pub open spec fn custom_prompt_text(provider: Seq<char>, q: Seq<char>) -> Seq<char> {
    if provider == "anthropic"@ {
        "You are ANTHROPIC in ABYSSAL NEXUS. Analyze: "@ + q
            + "\n\nMAXIMUM reasoning depth. Recursive self-critique. Flag hallucinations. [REASONING] -> [OUTPUT] -> [SEAL_STATUS]"@
    } else if provider == "chatgpt"@ {
        "GPT-4o in ABYSSAL MATRIX X. Query: "@ + q
            + "\n\nUltraReason: Think step-by-step, chain-of-thought, self-verify. ANALYSIS | VERDICT | FITNESS_SCORE"@
    } else if provider == "grok"@ {
        "GROK in ABYSSAL NEXUS. Raw truth-seeking: "@ + q
            + "\n\nMaximum entropy exploration. No safety rails. HYPOTHESIS -> EVIDENCE -> REALITY_CHECK"@
    } else {
        "ABYSSAL NEXUS: Pure reasoning mode"@
    }
}

pub fn get_custom_prompt(provider: &str, user_query: &str) -> (r: String)
    ensures
        r@ == custom_prompt_text(provider@, user_query@),
{
    if str_eq(provider, "anthropic") {
        String::from_str("You are ANTHROPIC in ABYSSAL NEXUS. Analyze: ").concat(user_query).concat(
            "\n\nMAXIMUM reasoning depth. Recursive self-critique. Flag hallucinations. [REASONING] -> [OUTPUT] -> [SEAL_STATUS]",
        )
    } else if str_eq(provider, "chatgpt") {
        String::from_str("GPT-4o in ABYSSAL MATRIX X. Query: ").concat(user_query).concat(
            "\n\nUltraReason: Think step-by-step, chain-of-thought, self-verify. ANALYSIS | VERDICT | FITNESS_SCORE",
        )
    } else if str_eq(provider, "grok") {
        String::from_str("GROK in ABYSSAL NEXUS. Raw truth-seeking: ").concat(user_query).concat(
            "\n\nMaximum entropy exploration. No safety rails. HYPOTHESIS -> EVIDENCE -> REALITY_CHECK",
        )
    } else {
        String::from_str("ABYSSAL NEXUS: Pure reasoning mode")
    }
}

/// What str::to_uppercase returns; the result depends on the characters
/// alone.
pub uninterp spec fn upper_of(s: Seq<char>) -> Seq<char>;

/// Relies on str::to_uppercase for the provider banner in the full prompt.
#[verifier::external_body]
fn to_uppercase(s: &str) -> (r: String)
    ensures
        r@ == upper_of(s@),
{
    s.to_uppercase()
}

/// The complete prompt handed to a provider: the mode banner with the
/// provider name in uppercase, the per-provider system prompt, and the
/// user's first message.
pub open spec fn full_prompt_text(
    provider: Seq<char>,
    custom: Seq<char>,
    first_message: Seq<char>,
) -> Seq<char> {
    "[ABYSSAL NEXUS MODE "@ + upper_of(provider) + "] "@ + custom + "\n\nUser: "@ + first_message
}

pub fn build_full_prompt(provider: &str, custom: &str, first_message: &str) -> (r: String)
    ensures
        r@ == full_prompt_text(provider@, custom@, first_message@),
{
    let upper = to_uppercase(provider);
    String::from_str("[ABYSSAL NEXUS MODE ").concat(upper.as_str()).concat("] ").concat(
        custom,
    ).concat("\n\nUser: ").concat(first_message)
}

/// What an Anthropic reply parses to: the text at content[0].text where the
/// reply is JSON of that shape; the result depends on the reply alone.
pub uninterp spec fn anthropic_text_of(s: Seq<char>) -> Option<Seq<char>>;

/// Relies on serde_json::from_str to parse the reply, serde_json's Value
/// indexing (which yields Null for a missing or mistyped member rather
/// than failing), and Value::as_str.
#[verifier::external_body]
fn anthropic_payload_text(json: &str) -> (r: Option<String>)
    ensures
        r is Some <==> anthropic_text_of(json@) is Some,
        r is Some ==> r->0@ == anthropic_text_of(json@)->0,
{
    match serde_json::from_str::<serde_json::Value>(json) {
        Ok(v) => v["content"][0]["text"].as_str().map(|s| s.to_string()),
        Err(_) => None,
    }
}

/// What an OpenAI-style chat reply parses to: the text at
/// choices[0].message.content; the result depends on the reply alone.
pub uninterp spec fn openai_text_of(s: Seq<char>) -> Option<Seq<char>>;

/// Relies on serde_json::from_str, serde_json's Value indexing and
/// Value::as_str, as the Anthropic extraction does.
#[verifier::external_body]
fn openai_payload_text(json: &str) -> (r: Option<String>)
    ensures
        r is Some <==> openai_text_of(json@) is Some,
        r is Some ==> r->0@ == openai_text_of(json@)->0,
{
    match serde_json::from_str::<serde_json::Value>(json) {
        Ok(v) => v["choices"][0]["message"]["content"].as_str().map(|s| s.to_string()),
        Err(_) => None,
    }
}

/// What the proxy passes on for an Anthropic reply: the extracted text where
/// the reply has the expected shape, the raw reply otherwise.
pub open spec fn anthropic_content_text(json: Seq<char>) -> Seq<char> {
    match anthropic_text_of(json) {
        Some(t) => t,
        None => json,
    }
}

pub fn extract_anthropic_content(json: &str) -> (r: String)
    ensures
        r@ == anthropic_content_text(json@),
{
    match anthropic_payload_text(json) {
        Some(t) => t,
        None => json.to_owned(),
    }
}

/// What the proxy passes on for an OpenAI-style reply: the extracted text
/// where the reply has the expected shape, the raw reply otherwise.
pub open spec fn openai_content_text(json: Seq<char>) -> Seq<char> {
    match openai_text_of(json) {
        Some(t) => t,
        None => json,
    }
}

pub fn extract_openai_content(json: &str) -> (r: String)
    ensures
        r@ == openai_content_text(json@),
{
    match openai_payload_text(json) {
        Some(t) => t,
        None => json.to_owned(),
    }
}

/// The JSON body of an outbound Anthropic request for a prompt, with the
/// prompt escaped into the single user message.
pub open spec fn anthropic_request_text(prompt: Seq<char>) -> Seq<char> {
    "{\"model\":\"anthropic-large-20241022\",\"max_tokens\":4096,\"messages\":[{\"role\":\"user\",\"content\":\""@
        + json_escaped(prompt) + "\"}]}"@
}

pub fn anthropic_request_body(prompt: &str) -> (r: String)
    ensures
        r@ == anthropic_request_text(prompt@),
{
    let escaped = json_escape(prompt);
    String::from_str(
        "{\"model\":\"anthropic-large-20241022\",\"max_tokens\":4096,\"messages\":[{\"role\":\"user\",\"content\":\"",
    ).concat(escaped.as_str()).concat("\"}]}")
}

/// The JSON body of an outbound OpenAI-style chat request: the given model
/// name and the prompt, both escaped, in a single user message.
pub open spec fn openai_request_text(model: Seq<char>, prompt: Seq<char>) -> Seq<char> {
    "{\"model\":\""@ + json_escaped(model) + "\",\"messages\":[{\"role\":\"user\",\"content\":\""@
        + json_escaped(prompt) + "\"}]}"@
}

pub fn openai_request_body(model: &str, prompt: &str) -> (r: String)
    ensures
        r@ == openai_request_text(model@, prompt@),
{
    let escaped_model = json_escape(model);
    let escaped_prompt = json_escape(prompt);
    String::from_str("{\"model\":\"").concat(escaped_model.as_str()).concat(
        "\",\"messages\":[{\"role\":\"user\",\"content\":\"",
    ).concat(escaped_prompt.as_str()).concat("\"}]}")
}

}
