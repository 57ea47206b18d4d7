//! What a client of an OpenAI-compatible provider is set up with.

use crate::custom_headers::pairs_view;
use crate::text::opt_text;
use vstd::prelude::*;

verus! {

/// How hard a reasoning model is to think.
#[derive(Clone, Copy, Debug, PartialEq, Eq, Structural)]
pub enum ReasoningEffort {
    /// It is not to think at all; the wire's word is `none`.
    Off,
    Minimal,
    Low,
    Medium,
    High,
    Xhigh,
    Max,
}

/// The word that stands for an effort on the wire.
pub open spec fn effort_word(effort: ReasoningEffort) -> Seq<char> {
    match effort {
        ReasoningEffort::Off => "none"@,
        ReasoningEffort::Minimal => "minimal"@,
        ReasoningEffort::Low => "low"@,
        ReasoningEffort::Medium => "medium"@,
        ReasoningEffort::High => "high"@,
        ReasoningEffort::Xhigh => "xhigh"@,
        ReasoningEffort::Max => "max"@,
    }
}

#[derive(Clone, Debug)]
pub struct OpenAICompatibleConfig {
    /// The name that the provider goes by in errors.
    pub provider_name: String,
    pub api_key: String,
    pub model: String,
    pub base_url: Option<String>,
    pub organization_id: Option<String>,
    pub project_id: Option<String>,
    pub reasoning_effort: Option<ReasoningEffort>,
    /// Whether the model may call several tools in one turn.
    pub parallel_tool_calls: bool,
    /// Headers that are stamped on every request, as `(name, value)` pairs.
    pub extra_headers: Vec<(String, String)>,
}

#[verifier::ext_equal]
pub struct ConfigView {
    pub provider_name: Seq<char>,
    pub api_key: Seq<char>,
    pub model: Seq<char>,
    pub base_url: Option<Seq<char>>,
    pub organization_id: Option<Seq<char>>,
    pub project_id: Option<Seq<char>>,
    pub reasoning_effort: Option<ReasoningEffort>,
    pub parallel_tool_calls: bool,
    pub extra_headers: Seq<(Seq<char>, Seq<char>)>,
}

impl View for OpenAICompatibleConfig {
    type V = ConfigView;

    open spec fn view(&self) -> ConfigView {
        ConfigView {
            provider_name: self.provider_name@,
            api_key: self.api_key@,
            model: self.model@,
            base_url: opt_text(self.base_url),
            organization_id: opt_text(self.organization_id),
            project_id: opt_text(self.project_id),
            reasoning_effort: self.reasoning_effort,
            parallel_tool_calls: self.parallel_tool_calls,
            extra_headers: pairs_view(self.extra_headers@),
        }
    }
}

/// A configuration that sets nothing but the key and the model.
pub open spec fn plain_config(api_key: Seq<char>, model: Seq<char>) -> ConfigView {
    ConfigView {
        provider_name: "openai-compatible"@,
        api_key,
        model,
        base_url: None,
        organization_id: None,
        project_id: None,
        reasoning_effort: None,
        parallel_tool_calls: true,
        extra_headers: Seq::empty(),
    }
}

/// A configuration for a provider that is known by name.
pub open spec fn preset(
    api_key: Seq<char>,
    model: Seq<char>,
    provider: Seq<char>,
    base_url: Seq<char>,
) -> ConfigView {
    ConfigView {
        provider_name: provider,
        base_url: Some(base_url),
        ..plain_config(api_key, model)
    }
}

impl OpenAICompatibleConfig {
    /// A configuration for that model.
    pub fn new(api_key: &str, model: &str) -> (c: OpenAICompatibleConfig)
        ensures
            c@ == plain_config(api_key@, model@),
    {
        let c = OpenAICompatibleConfig {
            provider_name: "openai-compatible".to_owned(),
            api_key: api_key.to_owned(),
            model: model.to_owned(),
            base_url: None,
            organization_id: None,
            project_id: None,
            reasoning_effort: None,
            parallel_tool_calls: true,
            extra_headers: Vec::new(),
        };
        assert(c@ =~= plain_config(api_key@, model@));
        c
    }

    /// Sets the name that the provider goes by in errors.
    pub fn with_provider_name(self, provider_name: &str) -> (c: OpenAICompatibleConfig)
        ensures
            c@ == (ConfigView { provider_name: provider_name@, ..self@ }),
    {
        let mut c = self;
        c.provider_name = provider_name.to_owned();
        c
    }

    /// Sets where the API is found.
    pub fn with_base_url(self, base_url: &str) -> (c: OpenAICompatibleConfig)
        ensures
            c@ == (ConfigView { base_url: Some(base_url@), ..self@ }),
    {
        let mut c = self;
        c.base_url = Some(base_url.to_owned());
        c
    }

    /// Sets the organization that requests are made for.
    pub fn with_organization(self, organization_id: &str) -> (c: OpenAICompatibleConfig)
        ensures
            c@ == (ConfigView { organization_id: Some(organization_id@), ..self@ }),
    {
        let mut c = self;
        c.organization_id = Some(organization_id.to_owned());
        c
    }

    /// Sets the project that requests are made for.
    pub fn with_project(self, project_id: &str) -> (c: OpenAICompatibleConfig)
        ensures
            c@ == (ConfigView { project_id: Some(project_id@), ..self@ }),
    {
        let mut c = self;
        c.project_id = Some(project_id.to_owned());
        c
    }

    /// Sets the headers that are stamped on every request. A bad one is an
    /// error when a client is made.
    #[must_use]
    pub fn with_extra_headers(self, headers: Vec<(String, String)>) -> (c: OpenAICompatibleConfig)
        ensures
            c@ == (ConfigView { extra_headers: pairs_view(headers@), ..self@ }),
    {
        let mut c = self;
        c.extra_headers = headers;
        c
    }

    /// Sets how hard a reasoning model is to think.
    pub fn with_reasoning_effort(self, effort: ReasoningEffort) -> (c: OpenAICompatibleConfig)
        ensures
            c@ == (ConfigView { reasoning_effort: Some(effort), ..self@ }),
    {
        let mut c = self;
        c.reasoning_effort = Some(effort);
        c
    }

    /// Sets whether the model may call several tools in one turn.
    pub fn with_parallel_tool_calls(self, parallel_tool_calls: bool) -> (c: OpenAICompatibleConfig)
        ensures
            c@ == (ConfigView { parallel_tool_calls, ..self@ }),
    {
        let mut c = self;
        c.parallel_tool_calls = parallel_tool_calls;
        c
    }

    /// Fireworks AI. A common model is `accounts/fireworks/models/llama-v3p1-8b-instruct`.
    pub fn fireworks(api_key: &str, model: &str) -> (c: OpenAICompatibleConfig)
        ensures
            c@ == preset(api_key@, model@, "fireworks"@, "https://api.fireworks.ai/inference/v1"@),
    {
        OpenAICompatibleConfig::new(api_key, model).with_provider_name("fireworks").with_base_url(
            "https://api.fireworks.ai/inference/v1",
        )
    }

    /// Together AI. A common model is `meta-llama/Llama-3.3-70B-Instruct-Turbo`.
    pub fn together(api_key: &str, model: &str) -> (c: OpenAICompatibleConfig)
        ensures
            c@ == preset(api_key@, model@, "together"@, "https://api.together.xyz/v1"@),
    {
        OpenAICompatibleConfig::new(api_key, model).with_provider_name("together").with_base_url(
            "https://api.together.xyz/v1",
        )
    }

    /// Mistral AI. A common model is `mistral-small-latest`.
    pub fn mistral(api_key: &str, model: &str) -> (c: OpenAICompatibleConfig)
        ensures
            c@ == preset(api_key@, model@, "mistral"@, "https://api.mistral.ai/v1"@),
    {
        OpenAICompatibleConfig::new(api_key, model).with_provider_name("mistral").with_base_url(
            "https://api.mistral.ai/v1",
        )
    }

    /// Perplexity. A common model is `sonar`.
    pub fn perplexity(api_key: &str, model: &str) -> (c: OpenAICompatibleConfig)
        ensures
            c@ == preset(api_key@, model@, "perplexity"@, "https://api.perplexity.ai"@),
    {
        OpenAICompatibleConfig::new(api_key, model).with_provider_name("perplexity").with_base_url(
            "https://api.perplexity.ai",
        )
    }

    /// Cerebras. A common model is `llama-3.3-70b`.
    pub fn cerebras(api_key: &str, model: &str) -> (c: OpenAICompatibleConfig)
        ensures
            c@ == preset(api_key@, model@, "cerebras"@, "https://api.cerebras.ai/v1"@),
    {
        OpenAICompatibleConfig::new(api_key, model).with_provider_name("cerebras").with_base_url(
            "https://api.cerebras.ai/v1",
        )
    }

    /// SambaNova. A common model is `Meta-Llama-3.3-70B-Instruct`.
    pub fn sambanova(api_key: &str, model: &str) -> (c: OpenAICompatibleConfig)
        ensures
            c@ == preset(api_key@, model@, "sambanova"@, "https://api.sambanova.ai/v1"@),
    {
        OpenAICompatibleConfig::new(api_key, model).with_provider_name("sambanova").with_base_url(
            "https://api.sambanova.ai/v1",
        )
    }

    /// xAI (Grok). A common model is `grok-3-mini`.
    pub fn xai(api_key: &str, model: &str) -> (c: OpenAICompatibleConfig)
        ensures
            c@ == preset(api_key@, model@, "xai"@, "https://api.x.ai/v1"@),
    {
        OpenAICompatibleConfig::new(api_key, model).with_provider_name("xai").with_base_url(
            "https://api.x.ai/v1",
        )
    }

    /// Google Gemini, through its OpenAI-compatible endpoint. A common model is `gemini-3.5-flash`.
    pub fn gemini(api_key: &str, model: &str) -> (c: OpenAICompatibleConfig)
        ensures
            c@ == preset(api_key@, model@, "gemini"@, "https://generativelanguage.googleapis.com/v1beta/openai"@),
    {
        OpenAICompatibleConfig::new(api_key, model).with_provider_name("gemini").with_base_url(
            "https://generativelanguage.googleapis.com/v1beta/openai",
        )
    }

    /// MiniMax. A common model is `minimax-m2.7`.
    pub fn minimax(api_key: &str, model: &str) -> (c: OpenAICompatibleConfig)
        ensures
            c@ == preset(api_key@, model@, "minimax"@, "https://api.minimax.chat/v1"@),
    {
        OpenAICompatibleConfig::new(api_key, model).with_provider_name("minimax").with_base_url(
            "https://api.minimax.chat/v1",
        )
    }

    /// ByteDance Doubao (Volcano Engine Ark). A common model is `doubao-1-5-pro-256k`.
    pub fn bytedance(api_key: &str, model: &str) -> (c: OpenAICompatibleConfig)
        ensures
            c@ == preset(api_key@, model@, "bytedance"@, "https://ark.cn-beijing.volces.com/api/v3"@),
    {
        OpenAICompatibleConfig::new(api_key, model).with_provider_name("bytedance").with_base_url(
            "https://ark.cn-beijing.volces.com/api/v3",
        )
    }

    /// Zhipu AI (GLM). A common model is `glm-5.1`.
    pub fn zhipu(api_key: &str, model: &str) -> (c: OpenAICompatibleConfig)
        ensures
            c@ == preset(api_key@, model@, "zhipu"@, "https://open.bigmodel.cn/api/paas/v4"@),
    {
        OpenAICompatibleConfig::new(api_key, model).with_provider_name("zhipu").with_base_url(
            "https://open.bigmodel.cn/api/paas/v4",
        )
    }

    /// Baidu ERNIE (Qianfan), through its OpenAI-compatible endpoint. A common model is `ernie-5`.
    pub fn baidu(api_key: &str, model: &str) -> (c: OpenAICompatibleConfig)
        ensures
            c@ == preset(api_key@, model@, "baidu"@, "https://qianfan.baidubce.com/v2"@),
    {
        OpenAICompatibleConfig::new(api_key, model).with_provider_name("baidu").with_base_url(
            "https://qianfan.baidubce.com/v2",
        )
    }

    /// Cohere, through its OpenAI-compatible endpoint. A common model is `command-a-plus-05-2026`.
    pub fn cohere(api_key: &str, model: &str) -> (c: OpenAICompatibleConfig)
        ensures
            c@ == preset(api_key@, model@, "cohere"@, "https://api.cohere.com/compatibility/v1"@),
    {
        OpenAICompatibleConfig::new(api_key, model).with_provider_name("cohere").with_base_url(
            "https://api.cohere.com/compatibility/v1",
        )
    }
}

/// A configuration names the key and the model and, for a provider that is
/// known by name, the provider and where it is found; nothing else is set, and
/// calls may run in parallel.
pub proof fn law_what_a_configuration_sets(
    api_key: Seq<char>,
    model: Seq<char>,
    provider: Seq<char>,
    base_url: Seq<char>,
)
    ensures
        plain_config(api_key, model) == (ConfigView {
            provider_name: "openai-compatible"@,
            api_key,
            model,
            base_url: None,
            organization_id: None,
            project_id: None,
            reasoning_effort: None,
            parallel_tool_calls: true,
            extra_headers: Seq::empty(),
        }),
        preset(api_key, model, provider, base_url) == (ConfigView {
            provider_name: provider,
            api_key,
            model,
            base_url: Some(base_url),
            organization_id: None,
            project_id: None,
            reasoning_effort: None,
            parallel_tool_calls: true,
            extra_headers: Seq::empty(),
        }),
{
}

} // verus!
