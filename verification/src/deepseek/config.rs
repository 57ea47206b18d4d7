//! What a DeepSeek client is set up with.

use crate::text::opt_text;
use vstd::prelude::*;

verus! {

/// Whether the model is asked to think.
#[derive(Clone, Copy, Debug, PartialEq, Eq, Structural)]
pub enum ThinkingMode {
    Enabled,
    Disabled,
}

#[derive(Clone, Debug)]
pub struct DeepSeekConfig {
    pub api_key: String,
    pub model: String,
    pub base_url: Option<String>,
    pub max_tokens: Option<u32>,
    /// What is asked of the server about thinking; its own default where unset.
    pub thinking: Option<ThinkingMode>,
    /// The older switch, heeded where `thinking` is unset.
    pub thinking_enabled: bool,
    /// The word for the effort, as it goes on the wire.
    pub reasoning_effort: Option<String>,
    pub strict_tools: bool,
}

#[verifier::ext_equal]
pub struct ConfigView {
    pub api_key: Seq<char>,
    pub model: Seq<char>,
    pub base_url: Option<Seq<char>>,
    pub max_tokens: Option<u32>,
    pub thinking: Option<ThinkingMode>,
    pub thinking_enabled: bool,
    pub reasoning_effort: Option<Seq<char>>,
    pub strict_tools: bool,
}

impl View for DeepSeekConfig {
    type V = ConfigView;

    open spec fn view(&self) -> ConfigView {
        ConfigView {
            api_key: self.api_key@,
            model: self.model@,
            base_url: opt_text(self.base_url),
            max_tokens: self.max_tokens,
            thinking: self.thinking,
            thinking_enabled: self.thinking_enabled,
            reasoning_effort: opt_text(self.reasoning_effort),
            strict_tools: self.strict_tools,
        }
    }
}

/// A configuration that leaves everything to the server.
pub open spec fn plain_config(api_key: Seq<char>, model: Seq<char>) -> ConfigView {
    ConfigView {
        api_key,
        model,
        base_url: None,
        max_tokens: None,
        thinking: None,
        thinking_enabled: false,
        reasoning_effort: None,
        strict_tools: false,
    }
}

impl DeepSeekConfig {
    /// A configuration for that model.
    pub fn new(api_key: &str, model: &str) -> (c: DeepSeekConfig)
        ensures
            c@ == plain_config(api_key@, model@),
    {
        DeepSeekConfig {
            api_key: api_key.to_owned(),
            model: model.to_owned(),
            base_url: None,
            max_tokens: None,
            thinking: None,
            thinking_enabled: false,
            reasoning_effort: None,
            strict_tools: false,
        }
    }

    /// Sets where the API is found.
    pub fn with_base_url(self, base_url: &str) -> (c: DeepSeekConfig)
        ensures
            c@ == (ConfigView { base_url: Some(base_url@), ..self@ }),
    {
        let mut c = self;
        c.base_url = Some(base_url.to_owned());
        c
    }

    /// Asks for thinking, or for none.
    pub fn with_thinking_mode(self, mode: ThinkingMode) -> (c: DeepSeekConfig)
        ensures
            c@ == (ConfigView { thinking: Some(mode), ..self@ }),
    {
        let mut c = self;
        c.thinking = Some(mode);
        c
    }

    /// Sets the effort, by its word on the wire.
    pub fn with_reasoning_effort(self, effort: &str) -> (c: DeepSeekConfig)
        ensures
            c@ == (ConfigView { reasoning_effort: Some(effort@), ..self@ }),
    {
        let mut c = self;
        c.reasoning_effort = Some(effort.to_owned());
        c
    }
}

/// A plain configuration names the key and the model, and sets nothing else.
pub proof fn law_a_plain_configuration_sets_nothing_else(api_key: Seq<char>, model: Seq<char>)
    ensures
        ({
            let c = plain_config(api_key, model);
            &&& c.api_key == api_key
            &&& c.model == model
            &&& c.base_url is None
            &&& c.max_tokens is None
            &&& c.thinking is None
            &&& !c.thinking_enabled
            &&& c.reasoning_effort is None
            &&& !c.strict_tools
        }),
{
}

} // verus!
