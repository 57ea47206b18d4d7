//! What a model client hands back: responses, their content and token counts.

use crate::json::{opt_json, Json, JsonObject, JsonView};
use crate::text::opt_text;
use vstd::prelude::*;

verus! {

/// Why the model stopped.
#[derive(Clone, Copy, Debug, PartialEq, Eq, Structural)]
pub enum FinishReason {
    Stop,
    MaxTokens,
    Safety,
}

/// Token counts of a whole turn.
#[derive(Clone, Copy, Debug, PartialEq, Eq)]
pub struct UsageMetadata {
    pub prompt_token_count: i32,
    pub candidates_token_count: i32,
    pub total_token_count: i32,
    pub cache_read_input_token_count: Option<i32>,
    pub cache_creation_input_token_count: Option<i32>,
    pub thinking_token_count: Option<i32>,
    pub audio_input_token_count: Option<i32>,
    pub audio_output_token_count: Option<i32>,
}

/// One piece of content.
#[derive(Debug)]
pub enum Part {
    Text { text: String },
    InlineData { mime_type: String, data: Vec<u8> },
    Thinking { thinking: String, signature: Option<String> },
    FunctionCall {
        name: String,
        args: Json,
        id: Option<String>,
        thought_signature: Option<String>,
    },
}

/// A message: who speaks, and what is said.
#[derive(Debug)]
pub struct Content {
    pub role: String,
    pub parts: Vec<Part>,
}

/// One response of a stream. Fields that no client here ever fills
/// (citations, error codes, provider data) are left to their defaults by
/// whoever passes the response on.
#[derive(Debug)]
pub struct LlmResponse {
    pub content: Option<Content>,
    pub usage_metadata: Option<UsageMetadata>,
    pub finish_reason: Option<FinishReason>,
    pub partial: bool,
    pub turn_complete: bool,
    pub interrupted: bool,
}

#[verifier::ext_equal]
pub enum PartView {
    Text { text: Seq<char> },
    InlineData { mime_type: Seq<char>, data: Seq<u8> },
    Thinking { thinking: Seq<char>, signature: Option<Seq<char>> },
    FunctionCall {
        name: Seq<char>,
        args: JsonView,
        id: Option<Seq<char>>,
        thought_signature: Option<Seq<char>>,
    },
}

#[verifier::ext_equal]
pub struct ContentView {
    pub role: Seq<char>,
    pub parts: Seq<PartView>,
}

#[verifier::ext_equal]
pub struct ResponseView {
    pub content: Option<ContentView>,
    pub usage_metadata: Option<UsageMetadata>,
    pub finish_reason: Option<FinishReason>,
    pub partial: bool,
    pub turn_complete: bool,
    pub interrupted: bool,
}

impl View for Part {
    type V = PartView;

    open spec fn view(&self) -> PartView {
        match *self {
            Part::Text { text } => PartView::Text { text: text@ },
            Part::InlineData { mime_type, data } => PartView::InlineData {
                mime_type: mime_type@,
                data: data@,
            },
            Part::Thinking { thinking, signature } => PartView::Thinking {
                thinking: thinking@,
                signature: opt_text(signature),
            },
            Part::FunctionCall { name, args, id, thought_signature } => PartView::FunctionCall {
                name: name@,
                args: args@,
                id: opt_text(id),
                thought_signature: opt_text(thought_signature),
            },
        }
    }
}

pub open spec fn parts_view(parts: Seq<Part>) -> Seq<PartView> {
    Seq::new(parts.len(), |i: int| parts[i]@)
}

impl View for Content {
    type V = ContentView;

    open spec fn view(&self) -> ContentView {
        ContentView { role: self.role@, parts: parts_view(self.parts@) }
    }
}

impl View for LlmResponse {
    type V = ResponseView;

    open spec fn view(&self) -> ResponseView {
        ResponseView {
            content: match self.content {
                Some(c) => Some(c@),
                None => None,
            },
            usage_metadata: self.usage_metadata,
            finish_reason: self.finish_reason,
            partial: self.partial,
            turn_complete: self.turn_complete,
            interrupted: self.interrupted,
        }
    }
}

pub open spec fn responses_view(responses: Seq<LlmResponse>) -> Seq<ResponseView> {
    Seq::new(responses.len(), |i: int| responses[i]@)
}

/// The role under which a model speaks.
pub open spec fn model_role() -> Seq<char> {
    "model"@
}

/// A response that carries one part of the turn, ahead of its end.
pub open spec fn single_part(part: PartView, partial: bool) -> ResponseView {
    ResponseView {
        content: Some(ContentView { role: model_role(), parts: seq![part] }),
        usage_metadata: None,
        finish_reason: None,
        partial,
        turn_complete: false,
        interrupted: false,
    }
}

/// A response that carries `part` alone, ahead of the turn's end.
pub fn single_part_response(part: Part, partial: bool) -> (r: LlmResponse)
    ensures
        r@ == single_part(part@, partial),
{
    let ghost view = part@;
    let mut parts: Vec<Part> = Vec::new();
    parts.push(part);
    assert(parts_view(parts@) =~= seq![view]);
    LlmResponse {
        content: Some(Content { role: "model".to_owned(), parts }),
        usage_metadata: None,
        finish_reason: None,
        partial,
        turn_complete: false,
        interrupted: false,
    }
}

impl PartView {
    /// The part asks for a tool to be called.
    pub open spec fn is_call(self) -> bool {
        self is FunctionCall
    }
}

impl Part {
    /// The part asks for a tool to be called.
    pub fn is_call(&self) -> (b: bool)
        ensures
            b == self@.is_call(),
    {
        match self {
            Part::FunctionCall { .. } => true,
            _ => false,
        }
    }
}

impl Content {
    /// Some part asks for a tool to be called.
    pub fn has_function_calls(&self) -> (b: bool)
        ensures
            b == exists|i: int| 0 <= i < self@.parts.len() && (#[trigger] self@.parts[i]).is_call(),
    {
        let mut i: usize = 0;
        while i < self.parts.len()
            invariant
                i <= self.parts@.len(),
                forall|k: int| 0 <= k < i ==> !(#[trigger] self@.parts[k]).is_call(),
            decreases self.parts@.len() - i,
        {
            if self.parts[i].is_call() {
                assert(self@.parts[i as int].is_call());
                return true;
            }
            i += 1;
        }
        false
    }
}

/// How the model is asked to generate. Fractions are JSON numbers.
#[derive(Debug)]
pub struct GenerateConfig {
    pub temperature: Option<Json>,
    pub top_p: Option<Json>,
    pub max_output_tokens: Option<i32>,
    pub response_schema: Option<Json>,
    /// Fields that only some providers know, by provider.
    pub extensions: JsonObject,
}

#[verifier::ext_equal]
pub struct GenerateConfigView {
    pub temperature: Option<JsonView>,
    pub top_p: Option<JsonView>,
    pub max_output_tokens: Option<i32>,
    pub response_schema: Option<JsonView>,
    pub extensions: Seq<(Seq<char>, JsonView)>,
}

impl View for GenerateConfig {
    type V = GenerateConfigView;

    open spec fn view(&self) -> GenerateConfigView {
        GenerateConfigView {
            temperature: opt_json(self.temperature),
            top_p: opt_json(self.top_p),
            max_output_tokens: self.max_output_tokens,
            response_schema: opt_json(self.response_schema),
            extensions: self.extensions@,
        }
    }
}

/// A view leaves no part and no response out.
pub proof fn law_views_leave_nothing_out(parts: Seq<Part>, responses: Seq<LlmResponse>, i: int)
    ensures
        parts_view(parts).len() == parts.len(),
        0 <= i < parts.len() ==> parts_view(parts)[i] == parts[i]@,
        responses_view(responses).len() == responses.len(),
        0 <= i < responses.len() ==> responses_view(responses)[i] == responses[i]@,
{
}

} // verus!
