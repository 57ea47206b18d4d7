//! Building the body of a chat-completion request.

use crate::error::{AdkError, ErrorView};
use crate::json::{
    copy_opt_json, last_of, law_set_then_get, law_setting_an_optional_member, law_setting_several,
    lookup, tree, with_entries, with_entry, with_opt, Json, JsonObject, JsonView,
};
use crate::llm::{GenerateConfig, GenerateConfigView};
use crate::number::{i32_as_u32, wrap_u32};
use crate::openai::config::{effort_word, ReasoningEffort};
use crate::table::as_map;
use crate::text::{chars_of, string_from_chars};
use async_openai::error::OpenAIError;
use async_openai::types::chat::{
    ChatCompletionRequestMessage, ChatCompletionTools, CreateChatCompletionRequest,
    CreateChatCompletionRequestArgs, ResponseFormat, ResponseFormatJsonSchema,
};
use vstd::prelude::*;
use vstd::string::*;

verus! {

// ---------------------------------------------------------------------
// The request builder of async-openai
// ---------------------------------------------------------------------

/// A builder of chat-completion requests.
#[verifier::external_type_specification]
#[verifier::external_body]
pub struct ExCreateChatCompletionRequestArgs(
    async_openai::types::chat::CreateChatCompletionRequestArgs,
);

/// A chat-completion request.
#[verifier::external_type_specification]
#[verifier::external_body]
pub struct ExCreateChatCompletionRequest(async_openai::types::chat::CreateChatCompletionRequest);

/// A message of the conversation.
#[verifier::external_type_specification]
#[verifier::external_body]
pub struct ExChatCompletionRequestMessage(async_openai::types::chat::ChatCompletionRequestMessage);

/// A tool that the model may call.
#[verifier::external_type_specification]
#[verifier::external_body]
pub struct ExChatCompletionTools(async_openai::types::chat::ChatCompletionTools);

/// An error of async-openai.
#[verifier::external_type_specification]
#[verifier::external_body]
pub struct ExOpenAIError(async_openai::error::OpenAIError);

/// The members of the JSON object that a request serialises to, for the
/// request that a builder describes.
pub uninterp spec fn fields_of(args: CreateChatCompletionRequestArgs) -> Map<Seq<char>, JsonView>;

/// The members of the JSON object that a request serialises to.
pub uninterp spec fn request_fields(request: CreateChatCompletionRequest) -> Map<
    Seq<char>,
    JsonView,
>;

/// The JSON that a message serialises to.
pub uninterp spec fn message_json(message: ChatCompletionRequestMessage) -> JsonView;

/// The JSON that a tool serialises to.
pub uninterp spec fn tool_json(tool: ChatCompletionTools) -> JsonView;

/// What `Display` of an error of async-openai prints.
pub uninterp spec fn openai_error_text(e: OpenAIError) -> Seq<char>;

/// What `Display` of an error of `serde_json` prints.
pub uninterp spec fn serde_error_text(e: serde_json::Error) -> Seq<char>;

/// The members of a request of which nothing has been set: the two that have
/// no absent form.
pub open spec fn unset_fields() -> Map<Seq<char>, JsonView> {
    map!["messages"@ => JsonView::Array(Seq::empty()), "model"@ => JsonView::Str(Seq::empty())]
}

/// `CreateChatCompletionRequestArgs::default`: nothing is set.
#[verifier::external_body]
fn new_args() -> (args: CreateChatCompletionRequestArgs)
    ensures
        fields_of(args) == unset_fields(),
{
    CreateChatCompletionRequestArgs::default()
}

/// `CreateChatCompletionRequestArgs::model` sets the member `model`.
#[verifier::external_body]
fn set_model(args: &mut CreateChatCompletionRequestArgs, model: &str)
    ensures
        fields_of(*final(args)) == fields_of(*old(args)).insert("model"@, JsonView::Str(model@)),
{
    args.model(model);
}

pub open spec fn messages_json(messages: Seq<ChatCompletionRequestMessage>) -> JsonView {
    JsonView::Array(Seq::new(messages.len(), |i: int| message_json(messages[i])))
}

/// `CreateChatCompletionRequestArgs::messages` sets the member `messages`.
#[verifier::external_body]
fn set_messages(
    args: &mut CreateChatCompletionRequestArgs,
    messages: Vec<ChatCompletionRequestMessage>,
)
    ensures
        fields_of(*final(args)) == fields_of(*old(args)).insert(
            "messages"@,
            JsonView::Array(messages@.map_values(|m: ChatCompletionRequestMessage| message_json(m))),
        ),
{
    args.messages(messages);
}

pub open spec fn tools_json(tools: Seq<ChatCompletionTools>) -> JsonView {
    JsonView::Array(Seq::new(tools.len(), |i: int| tool_json(tools[i])))
}

/// `CreateChatCompletionRequestArgs::tools` sets the member `tools`.
#[verifier::external_body]
fn set_tools(args: &mut CreateChatCompletionRequestArgs, tools: Vec<ChatCompletionTools>)
    ensures
        fields_of(*final(args)) == fields_of(*old(args)).insert(
            "tools"@,
            JsonView::Array(tools@.map_values(|t: ChatCompletionTools| tool_json(t))),
        ),
{
    args.tools(tools);
}

/// `CreateChatCompletionRequestArgs::parallel_tool_calls` sets the member
/// `parallel_tool_calls`.
#[verifier::external_body]
fn set_parallel(args: &mut CreateChatCompletionRequestArgs, parallel: bool)
    ensures
        fields_of(*final(args)) == fields_of(*old(args)).insert(
            "parallel_tool_calls"@,
            JsonView::Bool(parallel),
        ),
{
    args.parallel_tool_calls(parallel);
}

/// `CreateChatCompletionRequestArgs::reasoning_effort` sets the member
/// `reasoning_effort`, to the effort's name in lower case.
#[verifier::external_body]
fn set_effort(args: &mut CreateChatCompletionRequestArgs, effort: ReasoningEffort)
    ensures
        fields_of(*final(args)) == fields_of(*old(args)).insert(
            "reasoning_effort"@,
            JsonView::Str(effort_word(effort)),
        ),
{
    args.reasoning_effort(match effort {
        ReasoningEffort::Off => async_openai::types::chat::ReasoningEffort::None,
        ReasoningEffort::Minimal => async_openai::types::chat::ReasoningEffort::Minimal,
        ReasoningEffort::Low => async_openai::types::chat::ReasoningEffort::Low,
        ReasoningEffort::Medium => async_openai::types::chat::ReasoningEffort::Medium,
        ReasoningEffort::High => async_openai::types::chat::ReasoningEffort::High,
        ReasoningEffort::Xhigh => async_openai::types::chat::ReasoningEffort::Xhigh,
        ReasoningEffort::Max => async_openai::types::chat::ReasoningEffort::Max,
    });
}

/// `CreateChatCompletionRequestArgs::max_completion_tokens` sets the member
/// `max_completion_tokens`.
#[verifier::external_body]
fn set_limit(args: &mut CreateChatCompletionRequestArgs, limit: u32)
    ensures
        fields_of(*final(args)) == fields_of(*old(args)).insert(
            "max_completion_tokens"@,
            JsonView::Int(limit as int),
        ),
{
    args.max_completion_tokens(limit);
}

/// A response format that asks for a reply of that schema.
pub open spec fn schema_format(name: Seq<char>, schema: JsonView, strict: bool) -> JsonView {
    JsonView::Object(
        seq![
            ("type"@, JsonView::Str("json_schema"@)),
            (
                "json_schema"@,
                JsonView::Object(
                    seq![
                        ("name"@, JsonView::Str(name)),
                        ("schema"@, schema),
                        ("strict"@, JsonView::Bool(strict)),
                    ],
                ),
            ),
        ],
    )
}

/// `CreateChatCompletionRequestArgs::response_format`, given a
/// `ResponseFormat::JsonSchema` without a description, sets the member
/// `response_format`.
#[verifier::external_body]
fn set_schema_format(
    args: &mut CreateChatCompletionRequestArgs,
    name: String,
    schema: serde_json::Value,
    strict: bool,
)
    ensures
        fields_of(*final(args)) == fields_of(*old(args)).insert(
            "response_format"@,
            schema_format(name@, tree(schema), strict),
        ),
{
    let strict = Some(strict);
    let json_schema = ResponseFormatJsonSchema { name, description: None, schema, strict };
    args.response_format(ResponseFormat::JsonSchema { json_schema });
}

/// `CreateChatCompletionRequestArgs::build`: the request that the builder
/// describes. It always gives one: the builder has a default for every field,
/// so that none can be missing, and checks nothing else.
#[verifier::external_body]
fn build_args(args: &CreateChatCompletionRequestArgs) -> (r: Result<
    CreateChatCompletionRequest,
    OpenAIError,
>)
    ensures
        r is Ok,
        request_fields(r->Ok_0) == fields_of(*args),
{
    args.build()
}

/// `v` is an object with those members, in whatever order.
pub open spec fn is_object_of(v: JsonView, fields: Map<Seq<char>, JsonView>) -> bool {
    v matches JsonView::Object(entries) && as_map(entries) == fields
}

/// `serde_json::to_value` on a request: an object with its members. It always
/// gives one: it fails on maps whose keys are no strings and on types that
/// refuse to be serialised, and a request holds neither.
#[verifier::external_body]
fn request_value(request: &CreateChatCompletionRequest) -> (r: Result<
    serde_json::Value,
    serde_json::Error,
>)
    ensures
        r is Ok,
        is_object_of(tree(r->Ok_0), request_fields(*request)),
{
    serde_json::to_value(request)
}

/// `Display` of an error of async-openai, through `to_string`.
#[verifier::external_body]
fn openai_message(e: &OpenAIError) -> (s: String)
    ensures
        s@ == openai_error_text(*e),
{
    e.to_string()
}

/// `Display` of an error of `serde_json`, through `to_string`.
#[verifier::external_body]
fn serde_message(e: &serde_json::Error) -> (s: String)
    ensures
        s@ == serde_error_text(*e),
{
    e.to_string()
}

// ---------------------------------------------------------------------
// The body, mathematically
// ---------------------------------------------------------------------

/// What the model is asked: the conversation, the tools it may call, and how
/// it is to generate. `model` is the model that the caller named.
pub struct ChatInput {
    pub model: String,
    pub messages: Vec<ChatCompletionRequestMessage>,
    /// How many tools the caller offers.
    pub tool_count: usize,
    pub tools: Vec<ChatCompletionTools>,
    pub config: Option<GenerateConfig>,
}

/// The character that stands for `c` in the name of a schema.
pub open spec fn name_char(c: char) -> char {
    if c == '-' || c == '.' || c == '/' {
        '_'
    } else {
        c
    }
}

/// The name of the schema that a model is to follow.
pub open spec fn schema_name(model: Seq<char>) -> Seq<char> {
    Seq::new(model.len(), |i: int| name_char(model[i]))
}

/// A schema that allows no properties but those it names.
pub open spec fn closed_schema(schema: JsonView) -> JsonView {
    match schema {
        JsonView::Object(entries) => JsonView::Object(
            with_entry(entries, "additionalProperties"@, JsonView::Bool(false)),
        ),
        other => other,
    }
}

pub open spec fn with_field(
    fields: Map<Seq<char>, JsonView>,
    name: Seq<char>,
    value: Option<JsonView>,
) -> Map<Seq<char>, JsonView> {
    match value {
        Some(v) => fields.insert(name, v),
        None => fields,
    }
}

pub open spec fn config_of(input: ChatInput) -> Option<GenerateConfigView> {
    match input.config {
        Some(c) => Some(c@),
        None => None,
    }
}

/// The members of the body that the builder sets.
pub open spec fn built_fields(
    model: Seq<char>,
    input: ChatInput,
    effort: Option<ReasoningEffort>,
    parallel: bool,
) -> Map<Seq<char>, JsonView> {
    let base = unset_fields().insert("model"@, JsonView::Str(model)).insert(
        "messages"@,
        messages_json(input.messages@),
    );
    let tooled = if input.tool_count > 0 {
        base.insert("tools"@, tools_json(input.tools@)).insert(
            "parallel_tool_calls"@,
            JsonView::Bool(parallel),
        )
    } else {
        base
    };
    let reasoned = with_field(
        tooled,
        "reasoning_effort"@,
        match effort {
            Some(e) => Some(JsonView::Str(effort_word(e))),
            None => None,
        },
    );
    match config_of(input) {
        Some(c) => with_field(
            with_field(
                reasoned,
                "max_completion_tokens"@,
                match c.max_output_tokens {
                    Some(n) => Some(JsonView::Int(wrap_u32(n as int))),
                    None => None,
                },
            ),
            "response_format"@,
            match c.response_schema {
                Some(schema) => Some(
                    schema_format(schema_name(input.model@), closed_schema(schema), true),
                ),
                None => None,
            },
        ),
        None => reasoned,
    }
}

/// The members of a body with the sampling parameters and then the fields that
/// the caller meant for this kind of provider, which win.
pub open spec fn completed(
    entries: Seq<(Seq<char>, JsonView)>,
    config: Option<GenerateConfigView>,
) -> Seq<(Seq<char>, JsonView)> {
    match config {
        Some(c) => {
            let sampled = with_opt(
                with_opt(entries, "temperature"@, c.temperature),
                "top_p"@,
                c.top_p,
            );
            match lookup(c.extensions, "openai"@) {
                Some(JsonView::Object(more)) => with_entries(sampled, more),
                _ => sampled,
            }
        },
        None => entries,
    }
}

/// The body once it is complete; what is not an object stays as it is.
pub open spec fn completed_body(body: JsonView, config: Option<GenerateConfigView>) -> JsonView {
    match body {
        JsonView::Object(entries) => JsonView::Object(completed(entries, config)),
        other => other,
    }
}

/// The body of a request whose reply is to be streamed, with token counts.
pub open spec fn streamed_body(body: JsonView) -> JsonView {
    match body {
        JsonView::Object(entries) => JsonView::Object(
            with_entry(
                with_entry(entries, "stream"@, JsonView::Bool(true)),
                "stream_options"@,
                JsonView::Object(
                    with_entry(Seq::empty(), "include_usage"@, JsonView::Bool(true)),
                ),
            ),
        ),
        other => other,
    }
}

// ---------------------------------------------------------------------
// The body at run time
// ---------------------------------------------------------------------

fn read_schema_name(model: &str) -> (s: String)
    ensures
        s@ == schema_name(model@),
{
    let chars: Vec<char> = chars_of(model);
    let mut out: Vec<char> = Vec::new();
    let mut i: usize = 0;
    while i < chars.len()
        invariant
            i <= chars@.len(),
            chars@ == model@,
            out@.len() == i,
            forall|k: int| 0 <= k < i ==> out@[k] == name_char(model@[k]),
        decreases chars@.len() - i,
    {
        let c: char = chars[i];
        if c == '-' || c == '.' || c == '/' {
            out.push('_');
        } else {
            out.push(c);
        }
        i += 1;
    }
    assert(out@ =~= schema_name(model@));
    string_from_chars(out.as_slice())
}

fn close_schema(schema: &Json) -> (j: Json)
    ensures
        j@ == closed_schema(schema@),
{
    match schema {
        Json::Object(o) => {
            let mut object: JsonObject = o.copy();
            object.insert("additionalProperties".to_owned(), Json::Bool(false));
            Json::Object(object)
        },
        other => other.copy(),
    }
}

/// Completes a body: sampling parameters, then the fields that the caller
/// meant for this kind of provider.
pub fn complete_body(body: Json, config: &Option<GenerateConfig>) -> (j: Json)
    ensures
        j@ == completed_body(
            body@,
            match config {
                Some(c) => Some(c@),
                None => None,
            },
        ),
{
    match body {
        Json::Object(o) => {
            let mut object: JsonObject = o;
            match config {
                Some(c) => {
                    object.insert_opt("temperature", copy_opt_json(&c.temperature));
                    object.insert_opt("top_p", copy_opt_json(&c.top_p));
                    match c.extensions.get("openai") {
                        Some(Json::Object(more)) => {
                            object.insert_all(more);
                        },
                        _ => {},
                    }
                },
                None => {},
            }
            Json::Object(object)
        },
        other => other,
    }
}

/// Asks for the reply to be streamed, with token counts.
pub fn streaming_body(body: Json) -> (j: Json)
    ensures
        j@ == streamed_body(body@),
{
    match body {
        Json::Object(o) => {
            let mut object: JsonObject = o;
            object.insert("stream".to_owned(), Json::Bool(true));
            let mut options: JsonObject = JsonObject::new();
            options.insert("include_usage".to_owned(), Json::Bool(true));
            object.insert("stream_options".to_owned(), Json::Object(options));
            Json::Object(object)
        },
        other => other,
    }
}

fn describe(
    model: &str,
    input: ChatInput,
    effort: &Option<ReasoningEffort>,
    parallel_tool_calls: bool,
) -> (args: CreateChatCompletionRequestArgs)
    ensures
        fields_of(args) == built_fields(model@, input, *effort, parallel_tool_calls),
{
    let mut args: CreateChatCompletionRequestArgs = new_args();
    set_model(&mut args, model);
    assert(messages_json(input.messages@)->Array_0 =~= input.messages@.map_values(
        |m: ChatCompletionRequestMessage| message_json(m),
    ));
    set_messages(&mut args, input.messages);
    if input.tool_count > 0 {
        assert(tools_json(input.tools@)->Array_0 =~= input.tools@.map_values(
            |t: ChatCompletionTools| tool_json(t),
        ));
        set_tools(&mut args, input.tools);
        set_parallel(&mut args, parallel_tool_calls);
    }
    match effort {
        Some(e) => {
            set_effort(&mut args, *e);
        },
        None => {},
    }
    match &input.config {
        Some(c) => {
            match c.max_output_tokens {
                Some(n) => {
                    set_limit(&mut args, i32_as_u32(n));
                },
                None => {},
            }
            match &c.response_schema {
                Some(schema) => {
                    let name: String = read_schema_name(input.model.as_str());
                    let closed: Json = close_schema(schema);
                    set_schema_format(&mut args, name, closed.to_value(), true);
                },
                None => {},
            }
        },
        None => {},
    }
    args
}

/// The error that says what could not be done.
pub open spec fn model_error(doing: Seq<char>, text: Seq<char>) -> ErrorView {
    ErrorView::Model { message: doing + text }
}

/// The error for a request that the builder refuses.
pub fn build_failure(e: &OpenAIError) -> (error: AdkError)
    ensures
        error@ == model_error("failed to build request: "@, openai_error_text(*e)),
{
    AdkError::Model {
        message: "failed to build request: ".to_owned().concat(openai_message(e).as_str()),
    }
}

/// The error for a request that cannot be serialised.
pub fn serialize_failure(e: &serde_json::Error) -> (error: AdkError)
    ensures
        error@ == model_error("failed to serialize request: "@, serde_error_text(*e)),
{
    AdkError::Model {
        message: "failed to serialize request: ".to_owned().concat(serde_message(e).as_str()),
    }
}

/// Builds the body of a request. It is the same whether the reply is streamed
/// or not.
pub fn build_request_json(
    model: &str,
    input: ChatInput,
    reasoning_effort: &Option<ReasoningEffort>,
    parallel_tool_calls: bool,
) -> (r: Result<Json, AdkError>)
    ensures
        r matches Ok(j) && exists|body: JsonView| #[trigger]
            is_object_of(
                body,
                built_fields(model@, input, *reasoning_effort, parallel_tool_calls),
            ) && j@ == completed_body(body, config_of(input)),
{
    let ghost given = input;
    let config: Option<GenerateConfig> = match &input.config {
        Some(c) => Some(copy_config(c)),
        None => None,
    };
    let args: CreateChatCompletionRequestArgs = describe(
        model,
        input,
        reasoning_effort,
        parallel_tool_calls,
    );
    let request: CreateChatCompletionRequest = match build_args(&args) {
        Ok(request) => request,
        Err(e) => {
            return Err(build_failure(&e));
        },
    };
    match request_value(&request) {
        Ok(value) => {
            let body: Json = Json::from_value(value);
            assert(is_object_of(
                body@,
                built_fields(model@, given, *reasoning_effort, parallel_tool_calls),
            ));
            Ok(complete_body(body, &config))
        },
        Err(e) => Err(serialize_failure(&e)),
    }
}

fn copy_config(c: &GenerateConfig) -> (r: GenerateConfig)
    ensures
        r@ == c@,
{
    GenerateConfig {
        temperature: copy_opt_json(&c.temperature),
        top_p: copy_opt_json(&c.top_p),
        max_output_tokens: c.max_output_tokens,
        response_schema: copy_opt_json(&c.response_schema),
        extensions: c.extensions.copy(),
    }
}

// ---------------------------------------------------------------------
// Laws
// ---------------------------------------------------------------------

/// The value that the last of several members of one name has.
pub open spec fn last_value(entries: Seq<(Seq<char>, JsonView)>, name: Seq<char>) -> Option<
    JsonView,
>
    decreases entries.len(),
{
    if entries.len() == 0 {
        None
    } else if entries.last().0 == name {
        Some(entries.last().1)
    } else {
        last_value(entries.drop_last(), name)
    }
}

proof fn lemma_with_entries(
    entries: Seq<(Seq<char>, JsonView)>,
    more: Seq<(Seq<char>, JsonView)>,
    name: Seq<char>,
)
    ensures
        lookup(with_entries(entries, more), name) == (if last_value(more, name) is Some {
            last_value(more, name)
        } else {
            lookup(entries, name)
        }),
    decreases more.len(),
{
    if more.len() > 0 {
        lemma_with_entries(entries, more.drop_last(), name);
        law_set_then_get(
            with_entries(entries, more.drop_last()),
            more.last().0,
            more.last().1,
            name,
        );
    }
}

/// A field that the caller meant for this kind of provider reaches the wire as
/// it is, whatever else sets it. Every other field is what it is without such
/// fields: `bare` is the same configuration with none of them.
pub proof fn law_provider_fields_win(
    entries: Seq<(Seq<char>, JsonView)>,
    config: GenerateConfigView,
    bare: GenerateConfigView,
    more: Seq<(Seq<char>, JsonView)>,
    name: Seq<char>,
)
    requires
        lookup(config.extensions, "openai"@) == Some(JsonView::Object(more)),
        lookup(bare.extensions, "openai"@) is None,
        config == (GenerateConfigView { extensions: config.extensions, ..bare }),
    ensures
        last_value(more, name) is Some ==> lookup(completed(entries, Some(config)), name)
            == last_value(more, name),
        last_value(more, name) is None ==> lookup(completed(entries, Some(config)), name)
            == lookup(completed(entries, Some(bare)), name),
        last_value(more, name) is None && name != "temperature"@ && name != "top_p"@ ==> lookup(
            completed(entries, Some(config)),
            name,
        ) == lookup(entries, name),
{
    let t = with_opt(entries, "temperature"@, config.temperature);
    let p = with_opt(t, "top_p"@, config.top_p);
    if config.temperature is Some {
        law_set_then_get(entries, "temperature"@, config.temperature->Some_0, name);
    }
    if config.top_p is Some {
        law_set_then_get(t, "top_p"@, config.top_p->Some_0, name);
    }
    lemma_with_entries(p, more, name);
}

/// Asking for a stream leaves every field of the body but two as it is, so
/// that both ways of replying are asked the same.
pub proof fn law_streaming_only_adds_its_own_fields(
    entries: Seq<(Seq<char>, JsonView)>,
    name: Seq<char>,
)
    requires
        name != "stream"@,
        name != "stream_options"@,
    ensures
        streamed_body(JsonView::Object(entries)).get(name) == lookup(entries, name),
        streamed_body(JsonView::Object(entries)).get("stream"@) == Some(JsonView::Bool(true)),
{
    let options = JsonView::Object(
        with_entry(Seq::empty(), "include_usage"@, JsonView::Bool(true)),
    );
    let s = with_entry(entries, "stream"@, JsonView::Bool(true));
    law_set_then_get(entries, "stream"@, JsonView::Bool(true), name);
    law_set_then_get(entries, "stream"@, JsonView::Bool(true), "stream"@);
    law_set_then_get(s, "stream_options"@, options, name);
    law_set_then_get(s, "stream_options"@, options, "stream"@);
    assert("stream"@ != "stream_options"@) by {
        reveal_strlit("stream");
        reveal_strlit("stream_options");
        assert("stream"@.len() == 6);
        assert("stream_options"@.len() == 14);
    }
}

/// The names of the members are different.
proof fn lemma_names()
    ensures
        "model"@.len() == 5,
        "model"@[0] == 'm',
        "messages"@.len() == 8,
        "tools"@.len() == 5,
        "tools"@[0] == 't',
        "parallel_tool_calls"@.len() == 19,
        "reasoning_effort"@.len() == 16,
        "max_completion_tokens"@.len() == 21,
        "response_format"@.len() == 15,
{
    reveal_strlit("model");
    reveal_strlit("messages");
    reveal_strlit("tools");
    reveal_strlit("parallel_tool_calls");
    reveal_strlit("reasoning_effort");
    reveal_strlit("max_completion_tokens");
    reveal_strlit("response_format");
}

/// The value of a member, where it is set.
pub open spec fn member(fields: Map<Seq<char>, JsonView>, name: Seq<char>) -> Option<JsonView> {
    if fields.dom().contains(name) {
        Some(fields[name])
    } else {
        None
    }
}

/// The whole conversation is sent: the member `messages` is an array as long as
/// the conversation, and each of its items is the JSON of the message at its
/// place. The tools are sent in the same way, with the setting for calls in
/// parallel, exactly where tools are offered.
pub proof fn law_every_message_and_tool_is_sent(
    model: Seq<char>,
    input: ChatInput,
    effort: Option<ReasoningEffort>,
    parallel: bool,
)
    ensures
        ({
            let fields = built_fields(model, input, effort, parallel);
            &&& member(fields, "messages"@) matches Some(JsonView::Array(sent)) && {
                &&& sent.len() == input.messages@.len()
                &&& forall|i: int|
                    0 <= i < sent.len() ==> #[trigger] sent[i] == message_json(input.messages@[i])
            }
            &&& input.tool_count > 0 ==> {
                &&& member(fields, "tools"@) matches Some(JsonView::Array(sent)) && {
                    &&& sent.len() == input.tools@.len()
                    &&& forall|i: int|
                        0 <= i < sent.len() ==> #[trigger] sent[i] == tool_json(input.tools@[i])
                }
                &&& member(fields, "parallel_tool_calls"@) == Some(JsonView::Bool(parallel))
            }
            &&& input.tool_count == 0 ==> {
                &&& member(fields, "tools"@) is None
                &&& member(fields, "parallel_tool_calls"@) is None
            }
        }),
{
    lemma_names();
}

/// The effort as it is written.
pub open spec fn effort_as_written(effort: ReasoningEffort) -> Seq<char> {
    match effort {
        ReasoningEffort::Off => "none"@,
        ReasoningEffort::Minimal => "minimal"@,
        ReasoningEffort::Low => "low"@,
        ReasoningEffort::Medium => "medium"@,
        ReasoningEffort::High => "high"@,
        ReasoningEffort::Xhigh => "xhigh"@,
        ReasoningEffort::Max => "max"@,
    }
}

/// Every setting reaches the member of its own name, exactly where it is set:
/// the model, the effort, the limit, of which a negative one keeps its 32 bits,
/// and the schema. No member is sent that nothing asks for.
pub proof fn law_every_setting_reaches_its_member(
    model: Seq<char>,
    input: ChatInput,
    effort: Option<ReasoningEffort>,
    parallel: bool,
    other: Seq<char>,
)
    ensures
        ({
            let fields = built_fields(model, input, effort, parallel);
            &&& member(fields, "model"@) == Some(JsonView::Str(model))
            &&& match effort {
                Some(e) => member(fields, "reasoning_effort"@) == Some(
                    JsonView::Str(effort_as_written(e)),
                ),
                None => member(fields, "reasoning_effort"@) is None,
            }
            &&& match input.config {
                Some(c) => {
                    &&& match c.max_output_tokens {
                        Some(n) => member(fields, "max_completion_tokens"@) == Some(
                            JsonView::Int(
                                if n >= 0 {
                                    n as int
                                } else {
                                    n + 0x1_0000_0000
                                },
                            ),
                        ),
                        None => member(fields, "max_completion_tokens"@) is None,
                    }
                    &&& c.response_schema is Some <==> member(fields, "response_format"@) is Some
                },
                None => {
                    &&& member(fields, "max_completion_tokens"@) is None
                    &&& member(fields, "response_format"@) is None
                },
            }
            &&& other != "model"@ && other != "messages"@ && other != "tools"@ && other
                != "parallel_tool_calls"@ && other != "reasoning_effort"@ && other
                != "max_completion_tokens"@ && other != "response_format"@ ==> member(
                fields,
                other,
            ) is None
        }),
{
    lemma_names();
}

/// A schema is sent as the format of the reply, to be kept strictly. It is
/// named after the model that the caller named, with underscores for hyphens,
/// dots and slashes and every other character as it is. It keeps all its
/// members, but allows no properties beyond those it names.
pub proof fn law_the_schema_is_sent_closed(
    model: Seq<char>,
    input: ChatInput,
    effort: Option<ReasoningEffort>,
    parallel: bool,
    name: Seq<char>,
    i: int,
)
    requires
        input.config is Some,
        input.config->Some_0.response_schema is Some,
    ensures
        ({
            let schema = input.config->Some_0.response_schema->Some_0@;
            let format = member(built_fields(model, input, effort, parallel), "response_format"@);
            &&& format matches Some(JsonView::Object(outer))
            &&& outer.len() == 2
            &&& outer[0] == ("type"@, JsonView::Str("json_schema"@))
            &&& outer[1].0 == "json_schema"@
            &&& outer[1].1 matches JsonView::Object(inner)
            &&& inner.len() == 3
            &&& inner[0].0 == "name"@
            &&& inner[0].1 matches JsonView::Str(named)
            &&& named.len() == input.model@.len()
            &&& 0 <= i < named.len() ==> {
                let c = input.model@[i];
                &&& c == '-' || c == '.' || c == '/' ==> named[i] == '_'
                &&& c != '-' && c != '.' && c != '/' ==> named[i] == c
            }
            &&& inner[2] == ("strict"@, JsonView::Bool(true))
            &&& inner[1].0 == "schema"@
            &&& match schema {
                JsonView::Object(members) => {
                    &&& inner[1].1 matches JsonView::Object(closed)
                    &&& name == "additionalProperties"@ ==> lookup(closed, name) == Some(
                        JsonView::Bool(false),
                    )
                    &&& name != "additionalProperties"@ ==> lookup(closed, name) == lookup(
                        members,
                        name,
                    )
                },
                other => inner[1].1 == other,
            }
        }),
{
    lemma_names();
    let schema = input.config->Some_0.response_schema->Some_0@;
    match schema {
        JsonView::Object(members) => {
            law_set_then_get(members, "additionalProperties"@, JsonView::Bool(false), name);
        },
        _ => {},
    }
}

/// The members that the caller meant for this kind of provider.
pub open spec fn provider_fields(config: GenerateConfigView) -> Seq<(Seq<char>, JsonView)> {
    match lookup(config.extensions, "openai"@) {
        Some(JsonView::Object(more)) => more,
        _ => Seq::empty(),
    }
}

/// Completing a body keeps all its members but those that the caller sets: the
/// fields for this kind of provider, then the sampling parameters. What is no
/// object stays as it is.
pub proof fn law_completing_keeps_the_body(
    body: JsonView,
    config: Option<GenerateConfigView>,
    name: Seq<char>,
)
    ensures
        match (body, config) {
            (JsonView::Object(entries), Some(c)) => {
                let given = last_of(provider_fields(c), name);
                &&& completed_body(body, config) is Object
                &&& given is Some ==> completed_body(body, config).get(name) == given
                &&& given is None && name == "temperature"@ ==> completed_body(body, config).get(
                    name,
                ) == (if c.temperature is Some {
                    c.temperature
                } else {
                    lookup(entries, name)
                })
                &&& given is None && name == "top_p"@ ==> completed_body(body, config).get(name)
                    == (if c.top_p is Some {
                    c.top_p
                } else {
                    lookup(entries, name)
                })
                &&& given is None && name != "temperature"@ && name != "top_p"@ ==> completed_body(
                    body,
                    config,
                ).get(name) == lookup(entries, name)
            },
            _ => completed_body(body, config) == body,
        },
{
    if body is Object && config is Some {
        let entries = body->Object_0;
        let c = config->Some_0;
        let t = with_opt(entries, "temperature"@, c.temperature);
        let p = with_opt(t, "top_p"@, c.top_p);
        law_setting_an_optional_member(entries, "temperature"@, c.temperature, name);
        law_setting_an_optional_member(t, "top_p"@, c.top_p, name);
        law_setting_several(p, provider_fields(c), name);
        reveal_strlit("temperature");
        reveal_strlit("top_p");
        assert("temperature"@.len() == 11);
        assert("top_p"@.len() == 5);
    }
}

/// A stream is asked for with token counts; what is no object stays as it is.
pub proof fn law_a_stream_is_asked_for_with_counts(body: JsonView)
    ensures
        body is Object ==> {
            &&& streamed_body(body).get("stream"@) == Some(JsonView::Bool(true))
            &&& streamed_body(body).get("stream_options"@) == Some(
                JsonView::Object(seq![("include_usage"@, JsonView::Bool(true))]),
            )
        },
        !(body is Object) ==> streamed_body(body) == body,
{
    if body is Object {
        let entries = body->Object_0;
        let none: Seq<(Seq<char>, JsonView)> = Seq::empty();
        let inner = with_entry(none, "include_usage"@, JsonView::Bool(true));
        assert(inner =~= seq![("include_usage"@, JsonView::Bool(true))]);
        let s = with_entry(entries, "stream"@, JsonView::Bool(true));
        law_set_then_get(s, "stream_options"@, JsonView::Object(inner), "stream_options"@);
        reveal_strlit("stream");
        reveal_strlit("stream_options");
        assert("stream"@.len() == 6);
        assert("stream_options"@.len() == 14);
        law_streaming_only_adds_its_own_fields(entries, Seq::empty());
    }
}

/// What could not be built or serialised is reported in the words of the one
/// who could not.
pub proof fn law_failures_are_told(
    e: &OpenAIError,
    f: &serde_json::Error,
    built: AdkError,
    serialised: AdkError,
)
    requires
        call_ensures(build_failure, (e,), built),
        call_ensures(serialize_failure, (f,), serialised),
    ensures
        built@ == (ErrorView::Model {
            message: "failed to build request: "@ + openai_error_text(*e),
        }),
        serialised@ == (ErrorView::Model {
            message: "failed to serialize request: "@ + serde_error_text(*f),
        }),
{
}

/// The body that goes out carries the conversation: unless the caller's fields
/// for this kind of provider say otherwise, its member `messages` is an array
/// as long as the conversation, and each of its items is the JSON of the
/// message at its place.
pub proof fn law_the_body_carries_the_conversation(
    model: &str,
    input: ChatInput,
    effort: &Option<ReasoningEffort>,
    parallel: bool,
    r: Result<Json, AdkError>,
)
    requires
        call_ensures(build_request_json, (model, input, effort, parallel), r),
        match input.config {
            Some(c) => last_of(provider_fields(c@), "messages"@) is None && last_of(
                provider_fields(c@),
                "model"@,
            ) is None,
            None => true,
        },
    ensures
        r matches Ok(body) && {
            &&& body@.get("model"@) == Some(JsonView::Str(model@))
            &&& body@.get("messages"@) matches Some(JsonView::Array(sent)) && {
                &&& sent.len() == input.messages@.len()
                &&& forall|i: int|
                    0 <= i < sent.len() ==> #[trigger] sent[i] == message_json(input.messages@[i])
            }
        },
{
    let fields = built_fields(model@, input, *effort, parallel);
    let config = config_of(input);
    let body = choose|body: JsonView| #[trigger]
        is_object_of(body, fields) && r->Ok_0@ == completed_body(body, config);
    law_every_message_and_tool_is_sent(model@, input, *effort, parallel);
    law_every_setting_reaches_its_member(model@, input, *effort, parallel, Seq::empty());
    law_completing_keeps_the_body(body, config, "messages"@);
    law_completing_keeps_the_body(body, config, "model"@);
    let entries = body->Object_0;
    assert(as_map(entries).dom().contains("messages"@));
    assert(as_map(entries).dom().contains("model"@));
    assert(as_map(entries)["messages"@] == fields["messages"@]);
    assert(lookup(entries, "messages"@) == Some(fields["messages"@]));
    assert(lookup(entries, "model"@) == Some(fields["model"@]));
    lemma_names();
    reveal_strlit("temperature");
    reveal_strlit("top_p");
    assert("temperature"@.len() == 11);
    assert("top_p"@.len() == 5);
    assert("top_p"@[0] == 't');
}

} // verus!
