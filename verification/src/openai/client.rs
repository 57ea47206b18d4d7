//! A client of an OpenAI-compatible provider.

use crate::custom_headers::{headers_answer, headers_of, parse_extra_headers, result_view};
use crate::error::{AdkError, ErrorCategory, ErrorComponent, ErrorView};
use crate::http::{api_error, category_of, coded, provider_error};
use crate::json::{Json, JsonView};
use crate::openai::config::{ConfigView, OpenAICompatibleConfig, ReasoningEffort};
use crate::openai::request::{
    build_request_json, built_fields, completed_body, config_of, is_object_of, ChatInput,
};
use reqwest::header::{HeaderMap, HeaderValue};
use vstd::prelude::*;
use vstd::string::*;

verus! {

/// A client. `R` stands for the policy by which requests are tried again.
pub struct OpenAICompatible<R> {
    pub api_key: String,
    pub base_url: String,
    pub model: String,
    pub provider_name: String,
    pub retry_config: R,
    pub reasoning_effort: Option<ReasoningEffort>,
    pub organization_id: Option<String>,
    pub parallel_tool_calls: bool,
    pub extra_headers: HeaderMap<HeaderValue>,
}

/// Where the API is found, if nothing is set.
pub open spec fn base_url_of(config: ConfigView) -> Seq<char> {
    match config.base_url {
        Some(url) => url,
        None => "https://api.openai.com/v1"@,
    }
}

impl<R> OpenAICompatible<R> {
    /// The client has what the configuration says, and those headers.
    pub open spec fn is_made_from(&self, config: ConfigView, headers: Map<Seq<char>, Seq<u8>>) -> bool {
        &&& self.api_key@ == config.api_key
        &&& self.base_url@ == base_url_of(config)
        &&& self.model@ == config.model
        &&& self.provider_name@ == config.provider_name
        &&& self.reasoning_effort == config.reasoning_effort
        &&& crate::text::opt_text(self.organization_id) == config.organization_id
        &&& self.parallel_tool_calls == config.parallel_tool_calls
        &&& headers_of(self.extra_headers) == headers
    }
}

impl<R: Default> OpenAICompatible<R> {
    /// Makes a client. It fails exactly where the extra headers cannot be read.
    pub fn new(config: OpenAICompatibleConfig) -> (r: Result<OpenAICompatible<R>, AdkError>)
        ensures
            exists|read: Result<Map<Seq<char>, Seq<u8>>, ErrorView>| #[trigger]
                headers_answer(config@.extra_headers, read) && match read {
                    Ok(headers) => r matches Ok(client) && client.is_made_from(config@, headers)
                        && call_ensures(R::default, (), client.retry_config),
                    Err(e) => r matches Err(error) && error@ == e,
                },
    {
        let read = parse_extra_headers(config.extra_headers.as_slice());
        assert(headers_answer(config@.extra_headers, result_view(read)));
        let extra_headers: HeaderMap<HeaderValue> = match read {
            Ok(map) => map,
            Err(e) => {
                return Err(e);
            },
        };
        let base_url: String = match config.base_url {
            Some(url) => url,
            None => "https://api.openai.com/v1".to_owned(),
        };
        Ok(
            OpenAICompatible {
                api_key: config.api_key,
                base_url,
                model: config.model,
                provider_name: config.provider_name,
                retry_config: R::default(),
                reasoning_effort: config.reasoning_effort,
                organization_id: config.organization_id,
                parallel_tool_calls: config.parallel_tool_calls,
                extra_headers,
            },
        )
    }
}

impl<R> OpenAICompatible<R> {
    /// Sets the policy by which requests are tried again.
    #[must_use]
    pub fn with_retry_config(self, retry_config: R) -> (c: OpenAICompatible<R>)
        ensures
            c == (OpenAICompatible { retry_config, ..self }),
    {
        let mut c = self;
        c.retry_config = retry_config;
        c
    }

    /// Sets the policy by which requests are tried again.
    pub fn set_retry_config(&mut self, retry_config: R)
        ensures
            *final(self) == (OpenAICompatible { retry_config, ..*old(self) }),
    {
        self.retry_config = retry_config;
    }

    /// The policy by which requests are tried again.
    pub fn retry_config(&self) -> (r: &R)
        ensures
            *r == self.retry_config,
    {
        &self.retry_config
    }

    /// The model that the client asks.
    pub fn name(&self) -> (name: &str)
        ensures
            name@ == self.model@,
    {
        self.model.as_str()
    }

    /// Where chat completions are asked for.
    pub fn chat_url(&self) -> (url: String)
        ensures
            url@ == self.base_url@ + "/chat/completions"@,
    {
        self.base_url.clone().concat("/chat/completions")
    }

    /// The body of a request of this client.
    pub fn request_body(&self, input: ChatInput) -> (r: Result<Json, AdkError>)
        ensures
            r matches Ok(j) && exists|body: JsonView| #[trigger]
                is_object_of(
                    body,
                    built_fields(
                        self.model@,
                        input,
                        self.reasoning_effort,
                        self.parallel_tool_calls,
                    ),
                ) && j@ == completed_body(body, config_of(input)),
    {
        build_request_json(
            self.model.as_str(),
            input,
            &self.reasoning_effort,
            self.parallel_tool_calls,
        )
    }

    /// The request could not be sent.
    pub fn request_error(&self, text: &str) -> (e: AdkError)
        ensures
            e@ == provider_error(
                ErrorCategory::Unavailable,
                "model.openai_compat.request"@,
                self.provider_name@ + " request error: "@ + text@,
                self.provider_name@,
                None,
            ),
    {
        let message: String = self.provider_name.clone().concat(" request error: ").concat(text);
        coded(
            ErrorCategory::Unavailable,
            "model.openai_compat.request",
            message,
            self.provider_name.as_str(),
            None,
        )
    }

    /// The provider answered with an error.
    pub fn api_error(&self, status: u16, reason: &str, body: &str) -> (e: AdkError)
        ensures
            e@ == provider_error(
                category_of(status),
                "model.openai_compat.api_error"@,
                self.provider_name@ + " API error (HTTP "@ + reason@ + "): "@ + body@,
                self.provider_name@,
                Some(status),
            ),
    {
        api_error(
            self.provider_name.as_str(),
            self.provider_name.as_str(),
            "model.openai_compat.api_error",
            status,
            reason,
            body,
        )
    }

    /// The answer could not be read.
    pub fn parse_error(&self, text: &str) -> (e: AdkError)
        ensures
            e@ == provider_error(
                ErrorCategory::Internal,
                "model.openai_compat.parse"@,
                self.provider_name@ + " response parse error: "@ + text@,
                self.provider_name@,
                None,
            ),
    {
        let message: String = self.provider_name.clone().concat(" response parse error: ").concat(
            text,
        );
        coded(
            ErrorCategory::Internal,
            "model.openai_compat.parse",
            message,
            self.provider_name.as_str(),
            None,
        )
    }
}

/// The API is found where the configuration says, or else at OpenAI.
pub proof fn law_where_the_api_is_found(config: ConfigView)
    ensures
        match config.base_url {
            Some(url) => base_url_of(config) == url,
            None => base_url_of(config) == "https://api.openai.com/v1"@,
        },
{
}

/// A client made from a configuration has each of its settings.
pub proof fn law_a_client_has_its_configuration<R>(
    client: OpenAICompatible<R>,
    config: ConfigView,
    headers: Map<Seq<char>, Seq<u8>>,
)
    requires
        client.is_made_from(config, headers),
    ensures
        client.api_key@ == config.api_key,
        client.model@ == config.model,
        client.provider_name@ == config.provider_name,
        client.reasoning_effort == config.reasoning_effort,
        client.parallel_tool_calls == config.parallel_tool_calls,
        headers_of(client.extra_headers) == headers,
        match config.base_url {
            Some(url) => client.base_url@ == url,
            None => client.base_url@ == "https://api.openai.com/v1"@,
        },
        match client.organization_id {
            Some(id) => config.organization_id == Some(id@),
            None => config.organization_id is None,
        },
{
}

/// Completions are asked for right below where the API is found.
pub proof fn law_where_completions_are_asked_for<R>(client: OpenAICompatible<R>, url: String)
    requires
        call_ensures(OpenAICompatible::<R>::chat_url, (&client,), url),
    ensures
        url@ == client.base_url@ + "/chat/completions"@,
{
}

/// An error of the provider's, under the name that it goes by.
pub open spec fn reported<R>(
    client: OpenAICompatible<R>,
    e: AdkError,
    category: ErrorCategory,
    code: Seq<char>,
    message: Seq<char>,
    status: Option<u16>,
) -> bool {
    e@ == (ErrorView::Coded {
        component: ErrorComponent::Model,
        category,
        code,
        message: client.provider_name@ + message,
        provider: Some(client.provider_name@),
        upstream_status: status,
        should_retry: None,
    })
}

/// What went wrong with a request is reported under the provider's name, in the
/// words of what went wrong, and with the status where there is one.
pub proof fn law_errors_go_by_the_providers_name<R>(
    client: OpenAICompatible<R>,
    status: u16,
    text: &str,
    body: &str,
    sent: AdkError,
    answered: AdkError,
    read: AdkError,
)
    requires
        call_ensures(OpenAICompatible::<R>::request_error, (&client, text), sent),
        call_ensures(OpenAICompatible::<R>::api_error, (&client, status, text, body), answered),
        call_ensures(OpenAICompatible::<R>::parse_error, (&client, text), read),
    ensures
        reported(
            client,
            sent,
            ErrorCategory::Unavailable,
            "model.openai_compat.request"@,
            " request error: "@ + text@,
            None,
        ),
        reported(
            client,
            answered,
            category_of(status),
            "model.openai_compat.api_error"@,
            " API error (HTTP "@ + text@ + "): "@ + body@,
            Some(status),
        ),
        reported(
            client,
            read,
            ErrorCategory::Internal,
            "model.openai_compat.parse"@,
            " response parse error: "@ + text@,
            None,
        ),
{
    let name = client.provider_name@;
    assert(name + " request error: "@ + text@ =~= name + (" request error: "@ + text@));
    assert(name + " API error (HTTP "@ + text@ + "): "@ + body@ =~= name + (" API error (HTTP "@
        + text@ + "): "@ + body@));
    assert(name + " response parse error: "@ + text@ =~= name + (" response parse error: "@
        + text@));
}

} // verus!
