use std::time::Duration;
use tim_code::gpt::chatgpt::ChatGptClientBuilder;
use tim_code::gpt::chatgpt::DEFAULT_BASE_URL;
use tim_code::gpt::chatgpt::DEFAULT_USER_AGENT;
use tim_code::gpt::map_role;
use tim_code::gpt::map_usage;
use tim_code::gpt::GptChatChoice;
use tim_code::gpt::GptChatResponse;
use tim_code::gpt::GptClientError;
use tim_code::gpt::GptCompletionResponse;
use tim_code::gpt::GptMessage;
use tim_code::gpt::GptMessageRole;
use tim_code::gpt::GptUsage;
use tim_code::gpt::OpenAiUsage;

#[test]
fn roles_have_their_provider_names() {
    assert_eq!(GptMessageRole::System.as_str(), "system");
    assert_eq!(GptMessageRole::User.as_str(), "user");
    assert_eq!(GptMessageRole::Assistant.as_str(), "assistant");
    assert_eq!(GptMessageRole::Tool.as_str(), "tool");
    for role in [
        GptMessageRole::System,
        GptMessageRole::User,
        GptMessageRole::Assistant,
        GptMessageRole::Tool,
    ] {
        assert_eq!(map_role(role.as_str().to_string()), role);
    }
    assert_eq!(map_role("developer".into()), GptMessageRole::Assistant);
    assert_eq!(map_role("".into()), GptMessageRole::Assistant);
}

#[test]
fn single_responses_hold_one_choice() {
    let message = GptMessage { role: GptMessageRole::Assistant, content: "hello".into() };
    let chat = GptChatResponse::single(message.clone());
    assert_eq!(chat.choices, vec![GptChatChoice { message, finish_reason: None }]);
    assert_eq!(chat.usage, None);
    assert_eq!(chat.provider_request_id, None);
    let completion = GptCompletionResponse::single("text");
    assert_eq!(completion.choices.len(), 1);
    assert_eq!(completion.choices[0].text, "text");
    assert_eq!(completion.choices[0].finish_reason, None);
    assert_eq!(completion.usage, None);
}

#[test]
fn usage_and_errors_are_carried_over() {
    assert_eq!(map_usage(None), None);
    assert_eq!(
        map_usage(Some(OpenAiUsage { prompt_tokens: 1, completion_tokens: 2, total_tokens: 3 })),
        Some(GptUsage { prompt_tokens: 1, completion_tokens: 2, total_tokens: 3 })
    );
    assert_eq!(GptClientError::Transport("down".into()).message(), "transport error: down");
    assert_eq!(GptClientError::InvalidRequest("x".into()).message(), "invalid request: x");
    assert_eq!(GptClientError::Provider("429: slow".into()).message(), "provider error: 429: slow");
}

#[test]
fn builder_keeps_what_it_is_given() {
    let plain = ChatGptClientBuilder::new("sk-test");
    assert_eq!(plain.api_key_text(), "sk-test");
    assert_eq!(plain.base_url_text(), DEFAULT_BASE_URL);
    assert_eq!(plain.user_agent_text(), DEFAULT_USER_AGENT);
    assert_eq!(plain.organization_text(), None);
    assert_eq!(plain.timeout_value(), None);
    let full = plain
        .base_url("http://localhost:1/v1/")
        .organization("org")
        .http_timeout(Duration::from_secs(3))
        .user_agent("ua");
    assert_eq!(full.api_key_text(), "sk-test");
    assert_eq!(full.base_url_text(), "http://localhost:1/v1/");
    assert_eq!(full.organization_text(), Some("org"));
    assert_eq!(full.timeout_value(), Some(Duration::from_secs(3)));
    assert_eq!(full.user_agent_text(), "ua");
}
