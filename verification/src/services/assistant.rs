//! What the bridge to the assistant reports and answers.

use vstd::prelude::*;
use crate::gpt::GptUsage;

verus! {

/// Why the bridge could not be set up.
#[derive(Debug, PartialEq, Eq)]
pub enum ChatBridgeInitError {
    MissingApiKey,
    Client(String),
}

impl ChatBridgeInitError {
    /// The failure in words.
    pub open spec fn text(self) -> Seq<char> {
        match self {
            ChatBridgeInitError::MissingApiKey => "OPENAI_TIM_API_KEY environment variable is not set"@,
            ChatBridgeInitError::Client(err) => err@,
        }
    }

    /// The failure in words.
    pub fn message(&self) -> (text: String)
        ensures
            text@ == self.text(),
    {
        match self {
            ChatBridgeInitError::MissingApiKey => String::from_str(
                "OPENAI_TIM_API_KEY environment variable is not set",
            ),
            ChatBridgeInitError::Client(err) => err.clone(),
        }
    }
}

/// What the assistant answered.
#[derive(Debug, PartialEq, Eq)]
pub struct ChatBridgeReply {
    pub text: String,
    pub usage: Option<GptUsage>,
    pub provider_request_id: Option<String>,
}

} // verus!
