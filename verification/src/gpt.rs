//! What a chat model is asked and what it answers, whatever the provider.

pub mod chatgpt;

use vstd::prelude::*;

verus! {

/// The role of a message in a chat exchange.
#[derive(Debug, Clone, Copy, PartialEq, Eq, Structural)]
pub enum GptMessageRole {
    System,
    User,
    Assistant,
    Tool,
}

/// The name of a role as providers write it.
pub open spec fn role_name(role: GptMessageRole) -> Seq<char> {
    match role {
        GptMessageRole::System => "system"@,
        GptMessageRole::User => "user"@,
        GptMessageRole::Assistant => "assistant"@,
        GptMessageRole::Tool => "tool"@,
    }
}

/// The role that a provider's name stands for; a name that is not known
/// stands for the assistant.
pub open spec fn role_of(name: Seq<char>) -> GptMessageRole {
    if name == "system"@ {
        GptMessageRole::System
    } else if name == "user"@ {
        GptMessageRole::User
    } else if name == "tool"@ {
        GptMessageRole::Tool
    } else {
        GptMessageRole::Assistant
    }
}

impl GptMessageRole {
    /// The name of the role as providers write it.
    pub fn as_str(&self) -> (name: &'static str)
        ensures
            name@ == role_name(*self),
    {
        match self {
            GptMessageRole::System => "system",
            GptMessageRole::User => "user",
            GptMessageRole::Assistant => "assistant",
            GptMessageRole::Tool => "tool",
        }
    }
}

/// One message that is sent to a model or comes from it.
#[derive(Debug, PartialEq, Eq)]
pub struct GptMessage {
    pub role: GptMessageRole,
    pub content: String,
}

impl Clone for GptMessage {
    fn clone(&self) -> (r: Self)
        ensures
            r == *self,
    {
        GptMessage { role: self.role, content: self.content.clone() }
    }
}

/// The tokens that a request has cost.
#[derive(Debug, Clone, Copy, PartialEq, Eq)]
pub struct GptUsage {
    pub prompt_tokens: u32,
    pub completion_tokens: u32,
    pub total_tokens: u32,
}

/// One answer of a chat model.
#[derive(Debug, PartialEq, Eq)]
pub struct GptChatChoice {
    pub message: GptMessage,
    pub finish_reason: Option<String>,
}

/// What a chat model answers.
#[derive(Debug, PartialEq, Eq)]
pub struct GptChatResponse {
    pub choices: Vec<GptChatChoice>,
    pub usage: Option<GptUsage>,
    pub provider_request_id: Option<String>,
}

impl GptChatResponse {
    /// The response that holds `message` as its one answer, and nothing else.
    pub fn single(message: GptMessage) -> (r: Self)
        ensures
            r.choices@ == seq![GptChatChoice { message, finish_reason: None }],
            r.usage.is_none(),
            r.provider_request_id.is_none(),
    {
        let mut choices: Vec<GptChatChoice> = Vec::new();
        choices.push(GptChatChoice { message, finish_reason: None });
        assert(choices@ =~= seq![GptChatChoice { message, finish_reason: None }]);
        GptChatResponse { choices, usage: None, provider_request_id: None }
    }
}

/// One answer of a completion model.
#[derive(Debug, PartialEq, Eq)]
pub struct GptCompletionChoice {
    pub text: String,
    pub finish_reason: Option<String>,
}

/// What a completion model answers.
#[derive(Debug, PartialEq, Eq)]
pub struct GptCompletionResponse {
    pub choices: Vec<GptCompletionChoice>,
    pub usage: Option<GptUsage>,
    pub provider_request_id: Option<String>,
}

impl GptCompletionResponse {
    /// The response that holds `text` as its one answer, and nothing else.
    pub fn single(text: &str) -> (r: Self)
        ensures
            r.choices@.len() == 1,
            r.choices@[0].text@ == text@,
            r.choices@[0].finish_reason.is_none(),
            r.usage.is_none(),
            r.provider_request_id.is_none(),
    {
        let mut choices: Vec<GptCompletionChoice> = Vec::new();
        choices.push(GptCompletionChoice { text: String::from_str(text), finish_reason: None });
        GptCompletionResponse { choices, usage: None, provider_request_id: None }
    }
}

/// Why a request to a model failed.
#[derive(Debug, PartialEq, Eq)]
pub enum GptClientError {
    Transport(String),
    InvalidRequest(String),
    Provider(String),
}

impl GptClientError {
    /// The failure in words: its kind and what was said of it.
    pub open spec fn text(self) -> Seq<char> {
        match self {
            GptClientError::Transport(msg) => "transport error: "@ + msg@,
            GptClientError::InvalidRequest(msg) => "invalid request: "@ + msg@,
            GptClientError::Provider(msg) => "provider error: "@ + msg@,
        }
    }

    /// The failure in words.
    pub fn message(&self) -> (text: String)
        ensures
            text@ == self.text(),
    {
        match self {
            GptClientError::Transport(msg) => String::from_str("transport error: ").concat(
                msg.as_str(),
            ),
            GptClientError::InvalidRequest(msg) => String::from_str("invalid request: ").concat(
                msg.as_str(),
            ),
            GptClientError::Provider(msg) => String::from_str("provider error: ").concat(
                msg.as_str(),
            ),
        }
    }
}

/// The usage figures as a provider sends them.
#[derive(Debug, Clone, Copy, PartialEq, Eq)]
pub struct OpenAiUsage {
    pub prompt_tokens: u32,
    pub completion_tokens: u32,
    pub total_tokens: u32,
}

/// The usage figures of a provider's answer, where it sent any.
pub fn map_usage(usage: Option<OpenAiUsage>) -> (r: Option<GptUsage>)
    ensures
        r == match usage {
            Some(u) => Some(
                GptUsage {
                    prompt_tokens: u.prompt_tokens,
                    completion_tokens: u.completion_tokens,
                    total_tokens: u.total_tokens,
                },
            ),
            None => None,
        },
{
    match usage {
        Some(usage) => Some(
            GptUsage {
                prompt_tokens: usage.prompt_tokens,
                completion_tokens: usage.completion_tokens,
                total_tokens: usage.total_tokens,
            },
        ),
        None => None,
    }
}

/// The role that a provider's name stands for.
pub fn map_role(value: String) -> (role: GptMessageRole)
    ensures
        role == role_of(value@),
{
    if value == String::from_str("system") {
        GptMessageRole::System
    } else if value == String::from_str("user") {
        GptMessageRole::User
    } else if value == String::from_str("tool") {
        GptMessageRole::Tool
    } else {
        GptMessageRole::Assistant
    }
}

} // verus!
