//! How a client of the OpenAI chat service is set up.

use vstd::prelude::*;
use std::time::Duration;

verus! {

pub const DEFAULT_BASE_URL: &'static str = "https://api.openai.com/v1";

pub const DEFAULT_USER_AGENT: &'static str = "tim-code-chatgpt-client";

pub const CHAT_PATH: &'static str = "chat/completions";

pub const COMPLETION_PATH: &'static str = "completions";

/// The settings of a client, gathered one by one.
pub struct ChatGptClientBuilder {
    api_key: String,
    base_url: String,
    organization: Option<String>,
    http_timeout: Option<Duration>,
    user_agent: String,
}

impl ChatGptClientBuilder {
    /// The key that the client presents.
    pub closed spec fn key(&self) -> Seq<char> {
        self.api_key@
    }

    /// The address of the service.
    pub closed spec fn url(&self) -> Seq<char> {
        self.base_url@
    }

    /// The organization in whose name the client asks, if any.
    pub closed spec fn org(&self) -> Option<Seq<char>> {
        match self.organization {
            Some(name) => Some(name@),
            None => None,
        }
    }

    /// How long the client waits for an answer, if it gives up at all.
    pub closed spec fn timeout(&self) -> Option<Duration> {
        self.http_timeout
    }

    /// The name under which the client asks.
    pub closed spec fn agent(&self) -> Seq<char> {
        self.user_agent@
    }

    /// The settings of a client with the key `api_key`: the public address
    /// of the service, the library's own name, no organization, no timeout.
    pub fn new(api_key: &str) -> (builder: Self)
        ensures
            builder.key() == api_key@,
            builder.url() == DEFAULT_BASE_URL@,
            builder.org().is_none(),
            builder.timeout().is_none(),
            builder.agent() == DEFAULT_USER_AGENT@,
    {
        ChatGptClientBuilder {
            api_key: String::from_str(api_key),
            base_url: String::from_str(DEFAULT_BASE_URL),
            organization: None,
            http_timeout: None,
            user_agent: String::from_str(DEFAULT_USER_AGENT),
        }
    }

    /// The same settings with another address of the service.
    pub fn base_url(self, base_url: &str) -> (builder: Self)
        ensures
            builder.url() == base_url@,
            builder.key() == self.key(),
            builder.org() == self.org(),
            builder.timeout() == self.timeout(),
            builder.agent() == self.agent(),
    {
        let mut builder = self;
        builder.base_url = String::from_str(base_url);
        builder
    }

    /// The same settings with an organization.
    pub fn organization(self, organization: &str) -> (builder: Self)
        ensures
            builder.org() == Some(organization@),
            builder.key() == self.key(),
            builder.url() == self.url(),
            builder.timeout() == self.timeout(),
            builder.agent() == self.agent(),
    {
        let mut builder = self;
        builder.organization = Some(String::from_str(organization));
        builder
    }

    /// The same settings with a timeout.
    pub fn http_timeout(self, timeout: Duration) -> (builder: Self)
        ensures
            builder.timeout() == Some(timeout),
            builder.key() == self.key(),
            builder.url() == self.url(),
            builder.org() == self.org(),
            builder.agent() == self.agent(),
    {
        let mut builder = self;
        builder.http_timeout = Some(timeout);
        builder
    }

    /// The same settings with another name of the client.
    pub fn user_agent(self, user_agent: &str) -> (builder: Self)
        ensures
            builder.agent() == user_agent@,
            builder.key() == self.key(),
            builder.url() == self.url(),
            builder.org() == self.org(),
            builder.timeout() == self.timeout(),
    {
        let mut builder = self;
        builder.user_agent = String::from_str(user_agent);
        builder
    }

    /// The key that the client presents.
    pub fn api_key_text(&self) -> (r: &str)
        ensures
            r@ == self.key(),
    {
        self.api_key.as_str()
    }

    /// The address of the service.
    pub fn base_url_text(&self) -> (r: &str)
        ensures
            r@ == self.url(),
    {
        self.base_url.as_str()
    }

    /// The organization in whose name the client asks, if any.
    pub fn organization_text(&self) -> (r: Option<&str>)
        ensures
            match r {
                Some(name) => self.org() == Some(name@),
                None => self.org().is_none(),
            },
    {
        match &self.organization {
            Some(name) => Some(name.as_str()),
            None => None,
        }
    }

    /// How long the client waits for an answer, if it gives up at all.
    pub fn timeout_value(&self) -> (r: Option<Duration>)
        ensures
            r == self.timeout(),
    {
        self.http_timeout
    }

    /// The name under which the client asks.
    pub fn user_agent_text(&self) -> (r: &str)
        ensures
            r@ == self.agent(),
    {
        self.user_agent.as_str()
    }
}

} // verus!
