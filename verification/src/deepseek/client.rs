//! A DeepSeek client.

use crate::deepseek::config::{plain_config, ConfigView, DeepSeekConfig, ThinkingMode};
use crate::deepseek::request::{
    build_request, request_of, schema_of, schema_text, ChatCompletionRequest, ChatInput,
};
use crate::deepseek::stream::{stream_start, StreamDecoder, StreamView};
use crate::error::{AdkError, ErrorCategory, ErrorComponent, ErrorView};
use crate::http::{api_error, category_of, coded, plain_error, provider_error};
use crate::text::{chars_of, string_from_chars};
use vstd::prelude::*;
use vstd::string::*;

verus! {

/// A client. `R` stands for the policy by which requests are tried again.
pub struct DeepSeekClient<R> {
    pub config: DeepSeekConfig,
    pub retry_config: R,
}

/// `s` without the slashes at its end.
pub open spec fn without_slashes(s: Seq<char>) -> Seq<char>
    decreases s.len(),
{
    if s.len() > 0 && s.last() == '/' {
        without_slashes(s.drop_last())
    } else {
        s
    }
}

proof fn lemma_without_slashes(s: Seq<char>, n: int)
    requires
        0 <= n <= s.len(),
        forall|i: int| n <= i < s.len() ==> #[trigger] s[i] == '/',
        n > 0 ==> s[n - 1] != '/',
    ensures
        without_slashes(s) == s.take(n),
    decreases s.len(),
{
    if n < s.len() {
        assert(s[s.len() - 1] == '/');
        let less = s.drop_last();
        assert forall|i: int| n <= i < less.len() implies #[trigger] less[i] == '/' by {
            assert(s[i] == '/');
        }
        lemma_without_slashes(less, n);
        assert(less.take(n) =~= s.take(n));
    } else {
        assert(s.take(n) =~= s);
    }
}

fn trim_slashes(s: &str) -> (t: String)
    ensures
        t@ == without_slashes(s@),
{
    let chars: Vec<char> = chars_of(s);
    let mut n: usize = chars.len();
    while n > 0 && chars[n - 1] == '/'
        invariant
            n <= chars@.len(),
            chars@ == s@,
            forall|i: int| n <= i < s@.len() ==> #[trigger] s@[i] == '/',
        decreases n,
    {
        n -= 1;
    }
    proof {
        lemma_without_slashes(s@, n as int);
        assert(chars@.subrange(0, n as int) =~= s@.take(n as int));
    }
    string_from_chars(vstd::slice::slice_subrange(chars.as_slice(), 0, n))
}

/// What the decoder of a client remembers at the start of a stream. It does not
/// depend on what the client asked for: the server may think though it was not
/// told to.
pub open spec fn decoder_start(config: ConfigView) -> StreamView {
    stream_start()
}

impl<R: Default> DeepSeekClient<R> {
    /// Makes a client.
    pub fn new(config: DeepSeekConfig) -> (c: DeepSeekClient<R>)
        ensures
            c.config == config,
            call_ensures(R::default, (), c.retry_config),
    {
        DeepSeekClient { config, retry_config: R::default() }
    }

    /// A client for `deepseek-v4-pro`, which reasons best; it is asked to
    /// think.
    pub fn v4_pro(api_key: &str) -> (c: DeepSeekClient<R>)
        ensures
            c.config@ == (ConfigView {
                thinking: Some(ThinkingMode::Enabled),
                ..plain_config(api_key@, "deepseek-v4-pro"@)
            }),
            call_ensures(R::default, (), c.retry_config),
    {
        DeepSeekClient::new(
            DeepSeekConfig::new(api_key, "deepseek-v4-pro").with_thinking_mode(
                ThinkingMode::Enabled,
            ),
        )
    }

    /// A client for `deepseek-v4-flash`, which is fast.
    pub fn v4_flash(api_key: &str) -> (c: DeepSeekClient<R>)
        ensures
            c.config@ == plain_config(api_key@, "deepseek-v4-flash"@),
            call_ensures(R::default, (), c.retry_config),
    {
        DeepSeekClient::new(DeepSeekConfig::new(api_key, "deepseek-v4-flash"))
    }

    /// A client for the older `deepseek-chat`.
    pub fn chat(api_key: &str) -> (c: DeepSeekClient<R>)
        ensures
            c.config@ == plain_config(api_key@, "deepseek-chat"@),
            call_ensures(R::default, (), c.retry_config),
    {
        DeepSeekClient::new(DeepSeekConfig::new(api_key, "deepseek-chat"))
    }

    /// A client for the older `deepseek-reasoner`, with thinking switched on.
    pub fn reasoner(api_key: &str) -> (c: DeepSeekClient<R>)
        ensures
            c.config@ == (ConfigView {
                thinking_enabled: true,
                ..plain_config(api_key@, "deepseek-reasoner"@)
            }),
            call_ensures(R::default, (), c.retry_config),
    {
        let mut config: DeepSeekConfig = DeepSeekConfig::new(api_key, "deepseek-reasoner");
        config.thinking_enabled = true;
        DeepSeekClient::new(config)
    }
}

impl<R> DeepSeekClient<R> {
    /// Sets the policy by which requests are tried again.
    #[must_use]
    pub fn with_retry_config(self, retry_config: R) -> (c: DeepSeekClient<R>)
        ensures
            c == (DeepSeekClient { retry_config, ..self }),
    {
        let mut c = self;
        c.retry_config = retry_config;
        c
    }

    /// Sets the policy by which requests are tried again.
    pub fn set_retry_config(&mut self, retry_config: R)
        ensures
            *final(self) == (DeepSeekClient { retry_config, ..*old(self) }),
    {
        self.retry_config = retry_config;
    }

    /// The policy by which requests are tried again.
    pub fn retry_config(&self) -> (r: &R)
        ensures
            *r == self.retry_config,
    {
        &self.retry_config
    }

    /// The model that the client asks.
    pub fn name(&self) -> (name: &str)
        ensures
            name@ == self.config.model@,
    {
        self.config.model.as_str()
    }

    /// Where chat completions are asked for, given where the API is found.
    pub fn api_url(&self, base_url: &str) -> (url: String)
        ensures
            url@ == without_slashes(base_url@) + "/chat/completions"@,
    {
        trim_slashes(base_url).concat("/chat/completions")
    }

    /// The request for an input.
    pub fn build_request(&self, input: ChatInput, stream: bool) -> (r: ChatCompletionRequest)
        ensures
            r@ == request_of(self.config@, input@, schema_text(schema_of(input@)), stream),
            input.messages@.is_suffix_of(r.messages@),
            input.messages@.len() <= r.messages@.len() <= input.messages@.len() + 1,
            input.tool_count > 0 ==> r.tools == Some(input.tools),
    {
        build_request(&self.config, input, stream)
    }

    /// A decoder for a streamed answer to this client.
    pub fn decoder(&self) -> (d: StreamDecoder)
        ensures
            d@ == decoder_start(self.config@),
    {
        StreamDecoder::new()
    }
}

/// The HTTP client could not be set up.
pub fn http_client_error(text: &str) -> (e: AdkError)
    ensures
        e@ == (ErrorView::Model { message: "failed to create HTTP client: "@ + text@ }),
{
    plain_error("failed to create HTTP client: ", text)
}

/// The request could not be sent.
pub fn request_error(text: &str) -> (e: AdkError)
    ensures
        e@ == provider_error(
            ErrorCategory::Unavailable,
            "model.deepseek.request"@,
            "DeepSeek API request failed: "@ + text@,
            "deepseek"@,
            None,
        ),
{
    coded(
        ErrorCategory::Unavailable,
        "model.deepseek.request",
        "DeepSeek API request failed: ".to_owned().concat(text),
        "deepseek",
        None,
    )
}

/// DeepSeek answered with an error.
pub fn response_error(status: u16, reason: &str, body: &str) -> (e: AdkError)
    ensures
        e@ == provider_error(
            category_of(status),
            "model.deepseek.api_error"@,
            "DeepSeek"@ + " API error (HTTP "@ + reason@ + "): "@ + body@,
            "deepseek"@,
            Some(status),
        ),
{
    api_error("DeepSeek", "deepseek", "model.deepseek.api_error", status, reason, body)
}

/// The answer could not be received whole.
pub fn read_error(text: &str) -> (e: AdkError)
    ensures
        e@ == (ErrorView::Model { message: "failed to read response: "@ + text@ }),
{
    plain_error("failed to read response: ", text)
}

/// The answer could not be understood.
pub fn parse_error(text: &str, response: &str) -> (e: AdkError)
    ensures
        e@ == (ErrorView::Model {
            message: "failed to parse response: "@ + text@ + " - "@ + response@,
        }),
{
    AdkError::Model {
        message: "failed to parse response: ".to_owned().concat(text).concat(" - ").concat(response),
    }
}

/// Of an address nothing but the slashes at its end is cut, and all of those.
pub proof fn law_only_slashes_are_cut(s: Seq<char>)
    ensures
        without_slashes(s).is_prefix_of(s),
        without_slashes(s).len() > 0 ==> without_slashes(s).last() != '/',
        forall|i: int| without_slashes(s).len() <= i < s.len() ==> #[trigger] s[i] == '/',
    decreases s.len(),
{
    if s.len() > 0 && s.last() == '/' {
        let less = s.drop_last();
        law_only_slashes_are_cut(less);
        assert forall|i: int| without_slashes(s).len() <= i < s.len() implies #[trigger] s[i]
            == '/' by {
            if i < less.len() {
                assert(less[i] == s[i]);
            }
        }
        assert(less.is_prefix_of(s));
    }
}

/// Whatever a client was set up with, its decoder starts with nothing.
pub proof fn law_a_decoder_starts_with_nothing(config: ConfigView)
    ensures
        decoder_start(config).unread.len() == 0,
        decoder_start(config).reasoning.len() == 0,
        decoder_start(config).text.len() == 0,
        decoder_start(config).calls.len() == 0,
{
}

/// Completions are asked for below the address that was given, whether or not
/// it ends in slashes.
pub proof fn law_where_completions_are_asked_for<R>(
    client: DeepSeekClient<R>,
    base_url: &str,
    url: String,
)
    requires
        call_ensures(DeepSeekClient::<R>::api_url, (&client, base_url), url),
    ensures
        exists|base: Seq<char>|
            {
                &&& url@ == #[trigger] (base + "/chat/completions"@)
                &&& base.is_prefix_of(base_url@)
                &&& base.len() > 0 ==> base.last() != '/'
                &&& forall|i: int| base.len() <= i < base_url@.len() ==> #[trigger] base_url@[i]
                    == '/'
            },
{
    law_only_slashes_are_cut(base_url@);
    let base = without_slashes(base_url@);
    assert(url@ == base + "/chat/completions"@);
}

/// An error of the provider's, as a client reports it.
pub open spec fn reported(
    e: AdkError,
    category: ErrorCategory,
    code: Seq<char>,
    message: Seq<char>,
    status: Option<u16>,
) -> bool {
    e@ == (ErrorView::Coded {
        component: ErrorComponent::Model,
        category,
        code,
        message,
        provider: Some("deepseek"@),
        upstream_status: status,
        should_retry: None,
    })
}

/// A request that could not be sent is reported as such, in the words of what
/// went wrong.
pub proof fn law_an_unsent_request_is_reported(text: &str, e: AdkError)
    requires
        call_ensures(request_error, (text,), e),
    ensures
        reported(
            e,
            ErrorCategory::Unavailable,
            "model.deepseek.request"@,
            "DeepSeek API request failed: "@ + text@,
            None,
        ),
{
}

/// An error that DeepSeek answered with is reported with its status and with
/// all that DeepSeek said.
pub proof fn law_an_error_answer_is_reported(status: u16, reason: &str, body: &str, e: AdkError)
    requires
        call_ensures(response_error, (status, reason, body), e),
    ensures
        reported(
            e,
            category_of(status),
            "model.deepseek.api_error"@,
            "DeepSeek API error (HTTP "@ + reason@ + "): "@ + body@,
            Some(status),
        ),
{
    reveal_strlit("DeepSeek");
    reveal_strlit(" API error (HTTP ");
    reveal_strlit("DeepSeek API error (HTTP ");
    assert("DeepSeek"@ + " API error (HTTP "@ =~= "DeepSeek API error (HTTP "@);
}

} // verus!
