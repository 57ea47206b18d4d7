//! Building a DeepSeek chat-completion request.

use crate::deepseek::config::{ConfigView, DeepSeekConfig, ThinkingMode};
use crate::custom_headers::{lower, lower_char};
use crate::json::{
    copy_opt_json, last_of, law_set_then_get, law_setting_an_optional_member, law_setting_several,
    lookup, opt_json, rendered, with_entries, with_entry, with_opt, Json, JsonObject, JsonView,
};
use crate::llm::{GenerateConfig, GenerateConfigView};
use crate::number::{i32_as_u32, wrap_u32};
use crate::text::{chars_of, opt_text};
use vstd::prelude::*;
use vstd::string::*;

verus! {

/// A message of the conversation: who speaks, what is said, and the other
/// fields that it has on the wire.
#[derive(Debug)]
pub struct Message {
    pub role: String,
    pub content: Option<String>,
    pub extra: JsonObject,
}

#[verifier::ext_equal]
pub struct MessageView {
    pub role: Seq<char>,
    pub content: Option<Seq<char>>,
    pub extra: Seq<(Seq<char>, JsonView)>,
}

impl View for Message {
    type V = MessageView;

    open spec fn view(&self) -> MessageView {
        MessageView { role: self.role@, content: opt_text(self.content), extra: self.extra@ }
    }
}

pub open spec fn messages_view(messages: Seq<Message>) -> Seq<MessageView> {
    Seq::new(messages.len(), |i: int| messages[i]@)
}

pub open spec fn jsons_view(values: Seq<Json>) -> Seq<JsonView> {
    Seq::new(values.len(), |i: int| values[i]@)
}

/// What the model is asked: the conversation, the tools it may call, and how
/// it is to generate.
pub struct ChatInput {
    pub messages: Vec<Message>,
    /// How many tools the caller offers.
    pub tool_count: usize,
    /// The tools as they go on the wire.
    pub tools: Vec<Json>,
    pub config: Option<GenerateConfig>,
}

#[verifier::ext_equal]
pub struct ChatInputView {
    pub messages: Seq<MessageView>,
    pub tool_count: nat,
    pub tools: Seq<JsonView>,
    pub config: Option<GenerateConfigView>,
}

impl View for ChatInput {
    type V = ChatInputView;

    open spec fn view(&self) -> ChatInputView {
        ChatInputView {
            messages: messages_view(self.messages@),
            tool_count: self.tool_count as nat,
            tools: jsons_view(self.tools@),
            config: match self.config {
                Some(c) => Some(c@),
                None => None,
            },
        }
    }
}

/// A chat-completion request.
#[derive(Debug)]
pub struct ChatCompletionRequest {
    pub model: String,
    pub messages: Vec<Message>,
    pub temperature: Option<Json>,
    pub top_p: Option<Json>,
    pub max_tokens: Option<u32>,
    pub stream: Option<bool>,
    pub tools: Option<Vec<Json>>,
    /// The type of the response format.
    pub response_format: Option<String>,
    pub thinking: Option<ThinkingMode>,
    pub reasoning_effort: Option<String>,
}

#[verifier::ext_equal]
pub struct RequestView {
    pub model: Seq<char>,
    pub messages: Seq<MessageView>,
    pub temperature: Option<JsonView>,
    pub top_p: Option<JsonView>,
    pub max_tokens: Option<u32>,
    pub stream: Option<bool>,
    pub tools: Option<Seq<JsonView>>,
    pub response_format: Option<Seq<char>>,
    pub thinking: Option<ThinkingMode>,
    pub reasoning_effort: Option<Seq<char>>,
}

impl View for ChatCompletionRequest {
    type V = RequestView;

    open spec fn view(&self) -> RequestView {
        RequestView {
            model: self.model@,
            messages: messages_view(self.messages@),
            temperature: opt_json(self.temperature),
            top_p: opt_json(self.top_p),
            max_tokens: self.max_tokens,
            stream: self.stream,
            tools: match self.tools {
                Some(t) => Some(jsons_view(t@)),
                None => None,
            },
            response_format: opt_text(self.response_format),
            thinking: self.thinking,
            reasoning_effort: opt_text(self.reasoning_effort),
        }
    }
}

// ---------------------------------------------------------------------
// The keyword that JSON output asks for
// ---------------------------------------------------------------------

/// The word "json" stands at `i`, in capitals or not.
pub open spec fn json_at(text: Seq<char>, i: int) -> bool {
    &&& 0 <= i
    &&& i + 4 <= text.len()
    &&& text[i] == 'j' || text[i] == 'J'
    &&& text[i + 1] == 's' || text[i + 1] == 'S'
    &&& text[i + 2] == 'o' || text[i + 2] == 'O'
    &&& text[i + 3] == 'n' || text[i + 3] == 'N'
}

/// The word "json" occurs, in capitals or not.
pub open spec fn text_mentions_json(text: Seq<char>) -> bool {
    exists|i: int| json_at(text, i)
}

/// Some message has content that mentions JSON.
pub open spec fn some_mention_json(messages: Seq<MessageView>) -> bool {
    exists|i: int|
        0 <= i < messages.len() && ((#[trigger] messages[i]).content matches Some(text)
            && text_mentions_json(text))
}

fn mentions(text: &str) -> (b: bool)
    ensures
        b == text_mentions_json(text@),
{
    let chars: Vec<char> = chars_of(text);
    if chars.len() < 4 {
        return false;
    }
    let mut i: usize = 0;
    while i <= chars.len() - 4
        invariant
            4 <= chars@.len(),
            i <= chars@.len() - 3,
            chars@ == text@,
            forall|k: int| 0 <= k < i ==> !json_at(text@, k),
        decreases chars@.len() - i,
    {
        if (chars[i] == 'j' || chars[i] == 'J') && (chars[i + 1] == 's' || chars[i + 1] == 'S') && (
        chars[i + 2] == 'o' || chars[i + 2] == 'O') && (chars[i + 3] == 'n' || chars[i + 3]
            == 'N') {
            assert(json_at(text@, i as int));
            return true;
        }
        i += 1;
    }
    false
}

/// Whether the conversation has the word "json" in it, in capitals or not, as
/// DeepSeek requires where JSON output is asked for. No characters but these
/// eight are the letters of the word once they are put in lower case.
pub fn mentions_json(messages: &[Message]) -> (b: bool)
    ensures
        b == some_mention_json(messages_view(messages@)),
{
    let ghost all = messages_view(messages@);
    let mut i: usize = 0;
    while i < messages.len()
        invariant
            i <= messages@.len(),
            all == messages_view(messages@),
            forall|k: int|
                0 <= k < i ==> !((#[trigger] all[k]).content matches Some(text)
                    && text_mentions_json(text)),
        decreases messages@.len() - i,
    {
        match &messages[i].content {
            Some(text) => if mentions(text.as_str()) {
                assert(all[i as int].content == Some(text@));
                return true;
            },
            None => {},
        }
        i += 1;
    }
    false
}

// ---------------------------------------------------------------------
// The request
// ---------------------------------------------------------------------

/// The instruction that brings the word "json" into a conversation.
pub open spec fn json_instruction(schema_text: Seq<char>) -> MessageView {
    MessageView {
        role: "system"@,
        content: Some("Respond with a single json object matching this schema: "@ + schema_text),
        extra: Seq::empty(),
    }
}

/// The conversation, with the instruction in front where JSON output is asked
/// for and no message mentions JSON.
pub open spec fn instructed(messages: Seq<MessageView>, schema_text: Option<Seq<char>>) -> Seq<
    MessageView,
> {
    match schema_text {
        Some(text) => if some_mention_json(messages) {
            messages
        } else {
            seq![json_instruction(text)] + messages
        },
        None => messages,
    }
}

/// The schema that the reply must match, where there is one.
pub open spec fn schema_of(input: ChatInputView) -> Option<JsonView> {
    match input.config {
        Some(c) => c.response_schema,
        None => None,
    }
}

/// What is asked about thinking: the newer setting, or else the older one.
pub open spec fn thinking_of(config: ConfigView) -> Option<ThinkingMode> {
    match config.thinking {
        Some(mode) => Some(mode),
        None => if config.thinking_enabled {
            Some(ThinkingMode::Enabled)
        } else {
            None
        },
    }
}

/// The limit on the reply: the caller's, cut to 32 bits, or else the client's.
pub open spec fn limit_of(config: ConfigView, input: ChatInputView) -> Option<u32> {
    match input.config {
        Some(c) => match c.max_output_tokens {
            Some(n) => Some(wrap_u32(n as int) as u32),
            None => config.max_tokens,
        },
        None => config.max_tokens,
    }
}

/// The request for an input, given the text of its schema.
pub open spec fn request_of(
    config: ConfigView,
    input: ChatInputView,
    schema_text: Option<Seq<char>>,
    stream: bool,
) -> RequestView {
    RequestView {
        model: config.model,
        messages: instructed(input.messages, schema_text),
        temperature: match input.config {
            Some(c) => c.temperature,
            None => None,
        },
        top_p: match input.config {
            Some(c) => c.top_p,
            None => None,
        },
        max_tokens: limit_of(config, input),
        stream: Some(stream),
        tools: if input.tool_count == 0 {
            None
        } else {
            Some(input.tools)
        },
        response_format: match schema_text {
            Some(_) => Some("json_object"@),
            None => None,
        },
        thinking: thinking_of(config),
        reasoning_effort: config.reasoning_effort,
    }
}

/// A message of the system.
pub fn system_message(text: String) -> (m: Message)
    ensures
        m@ == (MessageView { role: "system"@, content: Some(text@), extra: Seq::empty() }),
{
    Message { role: "system".to_owned(), content: Some(text), extra: JsonObject::new() }
}

/// Builds a request, given the text of the schema that the reply must match.
///
/// DeepSeek knows the response format `json_object` only, and wants the word
/// "json" in the conversation where it is asked for: an instruction in front
/// of the conversation brings it in, unless it is there.
pub fn build_request_with(
    config: &DeepSeekConfig,
    input: ChatInput,
    schema_text: Option<String>,
    stream: bool,
) -> (r: ChatCompletionRequest)
    ensures
        r@ == request_of(config@, input@, opt_text(schema_text), stream),
        input.messages@.is_suffix_of(r.messages@),
        input.messages@.len() <= r.messages@.len() <= input.messages@.len() + 1,
        input.tool_count > 0 ==> r.tools == Some(input.tools),
{
    let ghost said = input.messages@;
    let ghost given = input@;
    let ghost text_view = opt_text(schema_text);
    let mut messages: Vec<Message> = input.messages;
    let response_format: Option<String> = match schema_text {
        Some(text) => {
            if !mentions_json(messages.as_slice()) {
                let instruction: String =
                    "Respond with a single json object matching this schema: ".to_owned().concat(
                    text.as_str(),
                );
                let message: Message = system_message(instruction);
                let ghost view = message@;
                messages.insert(0, message);
                assert(messages_view(messages@) =~= seq![view] + given.messages);
            }
            Some("json_object".to_owned())
        },
        None => None,
    };
    assert(messages_view(messages@) =~= instructed(given.messages, text_view));
    assert(said.is_suffix_of(messages@)) by {
        assert(said =~= messages@.subrange(messages@.len() - said.len(), messages@.len() as int));
    }
    let tools: Option<Vec<Json>> = if input.tool_count == 0 {
        None
    } else {
        Some(input.tools)
    };
    let max_tokens: Option<u32> = match &input.config {
        Some(c) => match c.max_output_tokens {
            Some(n) => Some(i32_as_u32(n)),
            None => config.max_tokens,
        },
        None => config.max_tokens,
    };
    let temperature: Option<Json> = match &input.config {
        Some(c) => copy_opt_json(&c.temperature),
        None => None,
    };
    let top_p: Option<Json> = match &input.config {
        Some(c) => copy_opt_json(&c.top_p),
        None => None,
    };
    let thinking: Option<ThinkingMode> = match config.thinking {
        Some(mode) => Some(mode),
        None => if config.thinking_enabled {
            Some(ThinkingMode::Enabled)
        } else {
            None
        },
    };
    let reasoning_effort: Option<String> = match &config.reasoning_effort {
        Some(effort) => Some(effort.clone()),
        None => None,
    };
    ChatCompletionRequest {
        model: config.model.clone(),
        messages,
        temperature,
        top_p,
        max_tokens,
        stream: Some(stream),
        tools,
        response_format,
        thinking,
        reasoning_effort,
    }
}

/// The text of a schema.
pub open spec fn schema_text(schema: Option<JsonView>) -> Option<Seq<char>> {
    match schema {
        Some(s) => Some(rendered(s)),
        None => None,
    }
}

/// Builds a request.
pub fn build_request(config: &DeepSeekConfig, input: ChatInput, stream: bool) -> (r:
    ChatCompletionRequest)
    ensures
        r@ == request_of(config@, input@, schema_text(schema_of(input@)), stream),
        input.messages@.is_suffix_of(r.messages@),
        input.messages@.len() <= r.messages@.len() <= input.messages@.len() + 1,
        input.tool_count > 0 ==> r.tools == Some(input.tools),
{
    let text: Option<String> = match &input.config {
        Some(c) => match &c.response_schema {
            Some(schema) => Some(schema.to_text()),
            None => None,
        },
        None => None,
    };
    build_request_with(config, input, text, stream)
}

// ---------------------------------------------------------------------
// The request on the wire
// ---------------------------------------------------------------------

pub open spec fn opt_str(s: Option<Seq<char>>) -> Option<JsonView> {
    match s {
        Some(t) => Some(JsonView::Str(t)),
        None => None,
    }
}

pub open spec fn message_entries(m: MessageView) -> Seq<(Seq<char>, JsonView)> {
    with_entries(
        with_opt(
            with_entry(Seq::empty(), "role"@, JsonView::Str(m.role)),
            "content"@,
            opt_str(m.content),
        ),
        m.extra,
    )
}

pub open spec fn typed_object(kind: Seq<char>) -> JsonView {
    JsonView::Object(with_entry(Seq::empty(), "type"@, JsonView::Str(kind)))
}

pub open spec fn thinking_word(mode: ThinkingMode) -> Seq<char> {
    match mode {
        ThinkingMode::Enabled => "enabled"@,
        ThinkingMode::Disabled => "disabled"@,
    }
}

/// The body of a request: a field that is unset is left out.
pub open spec fn wire_entries(r: RequestView) -> Seq<(Seq<char>, JsonView)> {
    let e1 = with_entry(Seq::empty(), "model"@, JsonView::Str(r.model));
    let e2 = with_entry(
        e1,
        "messages"@,
        JsonView::Array(
            Seq::new(r.messages.len(), |i: int| JsonView::Object(message_entries(r.messages[i]))),
        ),
    );
    let e3 = with_opt(e2, "temperature"@, r.temperature);
    let e4 = with_opt(e3, "top_p"@, r.top_p);
    let e5 = with_opt(
        e4,
        "max_tokens"@,
        match r.max_tokens {
            Some(n) => Some(JsonView::Int(n as int)),
            None => None,
        },
    );
    let e6 = with_opt(
        e5,
        "stream"@,
        match r.stream {
            Some(b) => Some(JsonView::Bool(b)),
            None => None,
        },
    );
    let e7 = with_opt(
        e6,
        "tools"@,
        match r.tools {
            Some(t) => Some(JsonView::Array(t)),
            None => None,
        },
    );
    let e8 = with_opt(
        e7,
        "response_format"@,
        match r.response_format {
            Some(kind) => Some(typed_object(kind)),
            None => None,
        },
    );
    let e9 = with_opt(
        e8,
        "thinking"@,
        match r.thinking {
            Some(mode) => Some(typed_object(thinking_word(mode))),
            None => None,
        },
    );
    with_opt(e9, "reasoning_effort"@, opt_str(r.reasoning_effort))
}

fn typed(kind: &str) -> (j: Json)
    ensures
        j@ == typed_object(kind@),
{
    let mut object: JsonObject = JsonObject::new();
    object.insert("type".to_owned(), Json::string(kind));
    Json::Object(object)
}

impl Message {
    /// The message as it goes on the wire.
    pub fn to_json(&self) -> (j: Json)
        ensures
            j@ == JsonView::Object(message_entries(self@)),
    {
        let mut object: JsonObject = JsonObject::new();
        object.insert("role".to_owned(), Json::string(self.role.as_str()));
        match &self.content {
            Some(text) => {
                object.insert("content".to_owned(), Json::string(text.as_str()));
            },
            None => {},
        }
        object.insert_all(&self.extra);
        Json::Object(object)
    }
}

impl ChatCompletionRequest {
    /// The request as it goes on the wire.
    pub fn to_json(&self) -> (j: Json)
        ensures
            j@ == JsonView::Object(wire_entries(self@)),
    {
        let ghost r = self@;
        let mut object: JsonObject = JsonObject::new();
        object.insert("model".to_owned(), Json::string(self.model.as_str()));
        let mut messages: Vec<Json> = Vec::new();
        let mut i: usize = 0;
        while i < self.messages.len()
            invariant
                i <= self.messages@.len(),
                r == self@,
                messages@.len() == i,
                forall|k: int|
                    0 <= k < i ==> (#[trigger] messages@[k])@ == JsonView::Object(
                        message_entries(r.messages[k]),
                    ),
            decreases self.messages@.len() - i,
        {
            let j: Json = self.messages[i].to_json();
            assert(self.messages@[i as int]@ == r.messages[i as int]);
            messages.push(j);
            i += 1;
        }
        let listed = Json::Array(messages);
        assert(listed@->Array_0 =~= Seq::new(
            r.messages.len(),
            |i: int| JsonView::Object(message_entries(r.messages[i])),
        ));
        object.insert("messages".to_owned(), listed);
        object.insert_opt("temperature", copy_opt_json(&self.temperature));
        object.insert_opt("top_p", copy_opt_json(&self.top_p));
        let max_tokens: Option<Json> = match self.max_tokens {
            Some(n) => Some(Json::PosInt(n as u64)),
            None => None,
        };
        object.insert_opt("max_tokens", max_tokens);
        let stream: Option<Json> = match self.stream {
            Some(b) => Some(Json::Bool(b)),
            None => None,
        };
        object.insert_opt("stream", stream);
        let tools: Option<Json> = match &self.tools {
            Some(t) => {
                let copied: Json = copy_array(t);
                Some(copied)
            },
            None => None,
        };
        object.insert_opt("tools", tools);
        let response_format: Option<Json> = match &self.response_format {
            Some(kind) => Some(typed(kind.as_str())),
            None => None,
        };
        object.insert_opt("response_format", response_format);
        let thinking: Option<Json> = match self.thinking {
            Some(ThinkingMode::Enabled) => Some(typed("enabled")),
            Some(ThinkingMode::Disabled) => Some(typed("disabled")),
            None => None,
        };
        object.insert_opt("thinking", thinking);
        let effort: Option<Json> = match &self.reasoning_effort {
            Some(word) => Some(Json::string(word.as_str())),
            None => None,
        };
        object.insert_opt("reasoning_effort", effort);
        Json::Object(object)
    }
}

fn copy_array(values: &Vec<Json>) -> (j: Json)
    ensures
        j@ == JsonView::Array(jsons_view(values@)),
{
    let mut out: Vec<Json> = Vec::new();
    let mut i: usize = 0;
    while i < values.len()
        invariant
            i <= values@.len(),
            out@.len() == i,
            forall|k: int| 0 <= k < i ==> (#[trigger] out@[k])@ == values@[k]@,
        decreases values@.len() - i,
    {
        out.push(values[i].copy());
        i += 1;
    }
    let j = Json::Array(out);
    assert(j@->Array_0 =~= jsons_view(values@));
    j
}

// ---------------------------------------------------------------------
// Laws
// ---------------------------------------------------------------------

/// Wherever JSON output is asked for, the conversation mentions JSON.
pub proof fn law_json_output_has_its_keyword(
    config: ConfigView,
    input: ChatInputView,
    schema_text: Seq<char>,
    stream: bool,
)
    ensures
        request_of(config, input, Some(schema_text), stream).response_format == Some(
            "json_object"@,
        ),
        some_mention_json(request_of(config, input, Some(schema_text), stream).messages),
{
    let messages = request_of(config, input, Some(schema_text), stream).messages;
    if !some_mention_json(input.messages) {
        reveal_strlit("Respond with a single json object matching this schema: ");
        let text = json_instruction(schema_text).content->Some_0;
        assert(json_at(text, 22));
        assert(messages[0] == json_instruction(schema_text));
    }
}

/// A conversation that mentions JSON is sent as it is.
pub proof fn law_existing_mention_is_not_duplicated(
    config: ConfigView,
    input: ChatInputView,
    schema_text: Option<Seq<char>>,
    stream: bool,
)
    requires
        some_mention_json(input.messages) || schema_text is None,
    ensures
        request_of(config, input, schema_text, stream).messages == input.messages,
{
}

/// A text spells the word "json" somewhere, once it is put in lower case.
pub open spec fn spells_json(text: Seq<char>) -> bool {
    exists|i: int|
        0 <= i && i + 4 <= text.len() && lower(#[trigger] text.subrange(i, i + 4)) == "json"@
}

proof fn lemma_lower(c: char)
    ensures
        lower_char(c) == 'j' <==> c == 'j' || c == 'J',
        lower_char(c) == 's' <==> c == 's' || c == 'S',
        lower_char(c) == 'o' <==> c == 'o' || c == 'O',
        lower_char(c) == 'n' <==> c == 'n' || c == 'N',
{
}

/// A text mentions JSON exactly where it spells the word, in capitals or not.
pub proof fn law_a_mention_is_the_word(text: Seq<char>)
    ensures
        text_mentions_json(text) <==> spells_json(text),
{
    reveal_strlit("json");
    assert forall|i: int| 0 <= i && i + 4 <= text.len() implies (json_at(text, i) <==> lower(
        #[trigger] text.subrange(i, i + 4),
    ) == "json"@) by {
        let word = text.subrange(i, i + 4);
        lemma_lower(text[i]);
        lemma_lower(text[i + 1]);
        lemma_lower(text[i + 2]);
        lemma_lower(text[i + 3]);
        assert(word[0] == text[i] && word[1] == text[i + 1] && word[2] == text[i + 2] && word[3]
            == text[i + 3]);
        assert(lower(word).len() == 4);
        if json_at(text, i) {
            assert(lower(word) =~= "json"@);
        }
        if lower(word) == "json"@ {
            assert(lower(word)[0] == 'j');
            assert(lower(word)[1] == 's');
            assert(lower(word)[2] == 'o');
            assert(lower(word)[3] == 'n');
        }
    }
    if text_mentions_json(text) {
        let i = choose|i: int| json_at(text, i);
        assert(lower(text.subrange(i, i + 4)) == "json"@);
    }
    if spells_json(text) {
        let i = choose|i: int|
            0 <= i && i + 4 <= text.len() && lower(#[trigger] text.subrange(i, i + 4)) == "json"@;
        assert(json_at(text, i));
    }
}

/// The whole conversation is sent, in order and unchanged, at the end of the
/// messages. At most one message stands before it, and one does exactly where
/// JSON output is asked for and no message has the word: a message of the
/// system, with the schema in it.
pub proof fn law_the_conversation_is_sent(
    config: ConfigView,
    input: ChatInputView,
    schema_text: Option<Seq<char>>,
    stream: bool,
)
    ensures
        ({
            let sent = request_of(config, input, schema_text, stream).messages;
            let n: int = input.messages.len() as int;
            let silent = forall|i: int|
                0 <= i < n ==> !((#[trigger] input.messages[i]).content matches Some(text)
                    && spells_json(text));
            &&& n <= sent.len() <= n + 1
            &&& sent.subrange(sent.len() - n, sent.len() as int) == input.messages
            &&& sent.len() == n + 1 <==> schema_text is Some && silent
            &&& sent.len() == n + 1 ==> {
                &&& sent[0].role == "system"@
                &&& sent[0].content == Some(
                    "Respond with a single json object matching this schema: "@
                        + schema_text->Some_0,
                )
                &&& sent[0].extra.len() == 0
            }
        }),
{
    let sent = request_of(config, input, schema_text, stream).messages;
    let n: int = input.messages.len() as int;
    assert forall|text: Seq<char>| text_mentions_json(text) <==> spells_json(text) by {
        law_a_mention_is_the_word(text);
    }
    assert(sent.subrange(sent.len() - n, sent.len() as int) =~= input.messages);
}

/// Every setting reaches the field of its own name, as it is. Tools are offered
/// where there are any; the caller's limit goes before the client's, and a
/// negative one keeps its 32 bits.
pub proof fn law_every_setting_reaches_its_field(
    config: ConfigView,
    input: ChatInputView,
    schema_text: Option<Seq<char>>,
    stream: bool,
)
    ensures
        ({
            let r = request_of(config, input, schema_text, stream);
            &&& r.model == config.model
            &&& r.stream == Some(stream)
            &&& input.tool_count > 0 ==> r.tools == Some(input.tools)
            &&& input.tool_count == 0 ==> r.tools is None
            &&& schema_text is Some ==> r.response_format == Some("json_object"@)
            &&& schema_text is None ==> r.response_format is None
            &&& config.thinking is Some ==> r.thinking == config.thinking
            &&& config.thinking is None && config.thinking_enabled ==> r.thinking == Some(
                ThinkingMode::Enabled,
            )
            &&& config.thinking is None && !config.thinking_enabled ==> r.thinking is None
            &&& r.reasoning_effort == config.reasoning_effort
            &&& match input.config {
                Some(c) => {
                    &&& r.temperature == c.temperature
                    &&& r.top_p == c.top_p
                    &&& match c.max_output_tokens {
                        Some(n) => {
                            &&& r.max_tokens is Some
                            &&& n >= 0 ==> r.max_tokens->Some_0 as int == n as int
                            &&& n < 0 ==> r.max_tokens->Some_0 as int == n + 0x1_0000_0000
                        },
                        None => r.max_tokens == config.max_tokens,
                    }
                },
                None => {
                    &&& r.temperature is None
                    &&& r.top_p is None
                    &&& r.max_tokens == config.max_tokens
                },
            }
        }),
{
}

/// The schema of the request is the caller's, in full.
pub proof fn law_the_schema_is_the_callers(input: ChatInputView)
    ensures
        schema_text(schema_of(input)) is Some <==> input.config is Some
            && input.config->Some_0.response_schema is Some,
        match input.config {
            Some(c) => match c.response_schema {
                Some(s) => schema_text(schema_of(input)) == Some(rendered(s)),
                None => true,
            },
            None => true,
        },
{
}

/// A message shows who speaks and what is said, and its other fields, each of
/// which wins over the two.
pub proof fn law_a_message_on_the_wire(m: MessageView, name: Seq<char>)
    ensures
        last_of(m.extra, name) is Some ==> lookup(message_entries(m), name) == last_of(
            m.extra,
            name,
        ),
        last_of(m.extra, name) is None && name == "role"@ ==> lookup(message_entries(m), name)
            == Some(JsonView::Str(m.role)),
        last_of(m.extra, name) is None && name == "content"@ ==> lookup(message_entries(m), name)
            == (match m.content {
            Some(text) => Some(JsonView::Str(text)),
            None => None,
        }),
        last_of(m.extra, name) is None && name != "role"@ && name != "content"@ ==> lookup(
            message_entries(m),
            name,
        ) is None,
{
    let none: Seq<(Seq<char>, JsonView)> = Seq::empty();
    let role = with_entry(none, "role"@, JsonView::Str(m.role));
    law_set_then_get(none, "role"@, JsonView::Str(m.role), name);
    law_setting_an_optional_member(role, "content"@, opt_str(m.content), name);
    law_setting_several(with_opt(role, "content"@, opt_str(m.content)), m.extra, name);
    assert(lookup(none, name) is None);
    assert("role"@ != "content"@) by {
        reveal_strlit("role");
        reveal_strlit("content");
        assert("role"@.len() == 4);
        assert("content"@.len() == 7);
    }
}

/// The names of the fields are different.
proof fn lemma_names()
    ensures
        "model"@.len() == 5,
        "model"@[0] == 'm',
        "messages"@.len() == 8,
        "messages"@[0] == 'm',
        "temperature"@.len() == 11,
        "top_p"@.len() == 5,
        "top_p"@[0] == 't',
        "top_p"@[2] == 'p',
        "max_tokens"@.len() == 10,
        "stream"@.len() == 6,
        "tools"@.len() == 5,
        "tools"@[0] == 't',
        "tools"@[2] == 'o',
        "response_format"@.len() == 15,
        "thinking"@.len() == 8,
        "thinking"@[0] == 't',
        "reasoning_effort"@.len() == 16,
{
    reveal_strlit("model");
    reveal_strlit("messages");
    reveal_strlit("temperature");
    reveal_strlit("top_p");
    reveal_strlit("max_tokens");
    reveal_strlit("stream");
    reveal_strlit("tools");
    reveal_strlit("response_format");
    reveal_strlit("thinking");
    reveal_strlit("reasoning_effort");
}

/// An object of one member, its type.
pub open spec fn is_typed(v: Option<JsonView>, kind: Seq<char>) -> bool {
    v == Some(JsonView::Object(seq![("type"@, JsonView::Str(kind))]))
}

/// The value of a field of the body.
pub open spec fn sent_as(r: RequestView, name: Seq<char>) -> Option<JsonView> {
    lookup(wire_entries(r), name)
}

/// On the wire every field of a request stands under its own name, and nothing
/// else does: the messages are all there, in order, and a field that is unset
/// is left out.
pub proof fn law_the_wire_carries_the_request(r: RequestView, other: Seq<char>)
    ensures
        sent_as(r, "model"@) == Some(JsonView::Str(r.model)),
        sent_as(r, "messages"@) matches Some(JsonView::Array(items)) && {
            &&& items.len() == r.messages.len()
            &&& forall|i: int|
                0 <= i < items.len() ==> #[trigger] items[i] == JsonView::Object(
                    message_entries(r.messages[i]),
                )
        },
        sent_as(r, "temperature"@) == r.temperature,
        sent_as(r, "top_p"@) == r.top_p,
        match r.max_tokens {
            Some(n) => sent_as(r, "max_tokens"@) == Some(JsonView::Int(n as int)),
            None => sent_as(r, "max_tokens"@) is None,
        },
        match r.stream {
            Some(b) => sent_as(r, "stream"@) == Some(JsonView::Bool(b)),
            None => sent_as(r, "stream"@) is None,
        },
        match r.tools {
            Some(t) => sent_as(r, "tools"@) == Some(JsonView::Array(t)),
            None => sent_as(r, "tools"@) is None,
        },
        match r.response_format {
            Some(kind) => is_typed(sent_as(r, "response_format"@), kind),
            None => sent_as(r, "response_format"@) is None,
        },
        match r.thinking {
            Some(ThinkingMode::Enabled) => is_typed(sent_as(r, "thinking"@), "enabled"@),
            Some(ThinkingMode::Disabled) => is_typed(sent_as(r, "thinking"@), "disabled"@),
            None => sent_as(r, "thinking"@) is None,
        },
        match r.reasoning_effort {
            Some(word) => sent_as(r, "reasoning_effort"@) == Some(JsonView::Str(word)),
            None => sent_as(r, "reasoning_effort"@) is None,
        },
        other != "model"@ && other != "messages"@ && other != "temperature"@ && other != "top_p"@
            && other != "max_tokens"@ && other != "stream"@ && other != "tools"@ && other
            != "response_format"@ && other != "thinking"@ && other != "reasoning_effort"@
            ==> sent_as(r, other) is None,
{
    lemma_names();
    lemma_sent(r, "model"@);
    lemma_sent(r, "messages"@);
    lemma_sent(r, "temperature"@);
    lemma_sent(r, "top_p"@);
    lemma_sent(r, "max_tokens"@);
    lemma_sent(r, "stream"@);
    lemma_sent(r, "tools"@);
    lemma_sent(r, "response_format"@);
    lemma_sent(r, "thinking"@);
    lemma_sent(r, "reasoning_effort"@);
    lemma_sent(r, other);
    let none: Seq<(Seq<char>, JsonView)> = Seq::empty();
    assert forall|kind: Seq<char>| #[trigger]
        typed_object(kind) == JsonView::Object(seq![("type"@, JsonView::Str(kind))]) by {
        assert(with_entry(none, "type"@, JsonView::Str(kind)) =~= seq![
            ("type"@, JsonView::Str(kind)),
        ]);
    }
}

/// What the body has under a name: the last field that sets it decides.
spec fn sent_value(r: RequestView, name: Seq<char>) -> Option<JsonView> {
    if name == "reasoning_effort"@ && r.reasoning_effort is Some {
        Some(JsonView::Str(r.reasoning_effort->Some_0))
    } else if name == "thinking"@ && r.thinking is Some {
        Some(typed_object(thinking_word(r.thinking->Some_0)))
    } else if name == "response_format"@ && r.response_format is Some {
        Some(typed_object(r.response_format->Some_0))
    } else if name == "tools"@ && r.tools is Some {
        Some(JsonView::Array(r.tools->Some_0))
    } else if name == "stream"@ && r.stream is Some {
        Some(JsonView::Bool(r.stream->Some_0))
    } else if name == "max_tokens"@ && r.max_tokens is Some {
        Some(JsonView::Int(r.max_tokens->Some_0 as int))
    } else if name == "top_p"@ && r.top_p is Some {
        r.top_p
    } else if name == "temperature"@ && r.temperature is Some {
        r.temperature
    } else if name == "messages"@ {
        Some(
            JsonView::Array(
                Seq::new(
                    r.messages.len(),
                    |i: int| JsonView::Object(message_entries(r.messages[i])),
                ),
            ),
        )
    } else if name == "model"@ {
        Some(JsonView::Str(r.model))
    } else {
        None
    }
}

proof fn lemma_sent(r: RequestView, name: Seq<char>)
    ensures
        sent_as(r, name) == sent_value(r, name),
{
    let none: Seq<(Seq<char>, JsonView)> = Seq::empty();
    let e1 = with_entry(none, "model"@, JsonView::Str(r.model));
    let listed = JsonView::Array(
        Seq::new(r.messages.len(), |i: int| JsonView::Object(message_entries(r.messages[i]))),
    );
    let e2 = with_entry(e1, "messages"@, listed);
    let e3 = with_opt(e2, "temperature"@, r.temperature);
    let e4 = with_opt(e3, "top_p"@, r.top_p);
    let limit = match r.max_tokens {
        Some(n) => Some(JsonView::Int(n as int)),
        None => None,
    };
    let e5 = with_opt(e4, "max_tokens"@, limit);
    let stream = match r.stream {
        Some(b) => Some(JsonView::Bool(b)),
        None => None,
    };
    let e6 = with_opt(e5, "stream"@, stream);
    let tools = match r.tools {
        Some(t) => Some(JsonView::Array(t)),
        None => None,
    };
    let e7 = with_opt(e6, "tools"@, tools);
    let format = match r.response_format {
        Some(kind) => Some(typed_object(kind)),
        None => None,
    };
    let e8 = with_opt(e7, "response_format"@, format);
    let thinking = match r.thinking {
        Some(mode) => Some(typed_object(thinking_word(mode))),
        None => None,
    };
    let e9 = with_opt(e8, "thinking"@, thinking);
    assert(lookup(none, name) is None);
    law_set_then_get(none, "model"@, JsonView::Str(r.model), name);
    law_set_then_get(e1, "messages"@, listed, name);
    law_setting_an_optional_member(e2, "temperature"@, r.temperature, name);
    law_setting_an_optional_member(e3, "top_p"@, r.top_p, name);
    law_setting_an_optional_member(e4, "max_tokens"@, limit, name);
    law_setting_an_optional_member(e5, "stream"@, stream, name);
    law_setting_an_optional_member(e6, "tools"@, tools, name);
    law_setting_an_optional_member(e7, "response_format"@, format, name);
    law_setting_an_optional_member(e8, "thinking"@, thinking, name);
    law_setting_an_optional_member(e9, "reasoning_effort"@, opt_str(r.reasoning_effort), name);
}

/// A view leaves nothing out: every message and every tool of an input or a
/// request shows in it, in order.
pub proof fn law_views_leave_nothing_out(messages: Seq<Message>, values: Seq<Json>, i: int)
    ensures
        messages_view(messages).len() == messages.len(),
        0 <= i < messages.len() ==> {
            &&& messages_view(messages)[i].role == messages[i].role@
            &&& messages_view(messages)[i].extra == messages[i].extra@
            &&& match messages[i].content {
                Some(text) => messages_view(messages)[i].content == Some(text@),
                None => messages_view(messages)[i].content is None,
            }
        },
        jsons_view(values).len() == values.len(),
        0 <= i < values.len() ==> jsons_view(values)[i] == values[i]@,
{
}

} // verus!
