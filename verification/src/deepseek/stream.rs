//! Decoding a streamed DeepSeek completion.
//!
//! Reasoning and text go out as they arrive and are kept, so that the response
//! that ends the turn carries them whole. A tool call whose name never arrived
//! fails the turn: passed on, it could not be resolved, and strict upstreams
//! would refuse the next request, which replays it.

use crate::error::{AdkError, ErrorCategory, ErrorComponent, ErrorView};
use crate::json::{Json, JsonView};
use crate::llm::{
    model_role, parts_view, single_part, single_part_response, Content, ContentView, FinishReason,
    LlmResponse, Part, PartView, ResponseView, UsageMetadata,
};
use crate::number::{u32_as_i32, wrap_i32};
use crate::openai::stream::{call_args, finish_reason_of, parse_finish_reason, read_call_args};
use crate::sse::{classify, classify_line, line_end, lossy_text, Line, LineBuffer};
use crate::text::{blank, decimal, decimal_text, empty_text, is_blank, opt_text, trimmed};
use crate::tool_calls::{call_at, lemma_take_then_set, with_call, CallTable, CallView, ToolCall};
use vstd::prelude::*;
use vstd::string::*;
use vstd::utf8::*;

verus! {

// ---------------------------------------------------------------------
// Chunks
// ---------------------------------------------------------------------

/// The function of a tool-call fragment.
pub struct FunctionDelta {
    pub name: Option<String>,
    pub arguments: Option<String>,
}

/// A fragment of a tool call.
pub struct ToolCallDelta {
    pub index: u32,
    pub id: Option<String>,
    pub function: Option<FunctionDelta>,
}

/// What a chunk adds to the reply.
pub struct Delta {
    pub reasoning_content: Option<String>,
    pub content: Option<String>,
    pub tool_calls: Option<Vec<ToolCallDelta>>,
}

pub struct Choice {
    pub delta: Option<Delta>,
    pub finish_reason: Option<String>,
}

/// Token counts as DeepSeek reports them.
pub struct Usage {
    pub prompt_tokens: u32,
    pub completion_tokens: u32,
    pub total_tokens: u32,
    pub reasoning_tokens: Option<u32>,
    pub prompt_cache_hit_tokens: Option<u32>,
    pub prompt_cache_miss_tokens: Option<u32>,
}

/// One chunk of the stream.
pub struct Chunk {
    pub choices: Vec<Choice>,
    pub usage: Option<Usage>,
}

// ---------------------------------------------------------------------
// The decoder, mathematically
// ---------------------------------------------------------------------

/// What a decoder remembers.
#[verifier::ext_equal]
pub struct StreamView {
    /// Text of which no complete line has been cut yet.
    pub unread: Seq<char>,
    /// The tool calls that have arrived so far.
    pub calls: Seq<(u32, CallView)>,
    /// The reasoning handed out since the last turn ended.
    pub reasoning: Seq<char>,
    /// The text handed out since the last turn that ended without tool calls.
    pub text: Seq<char>,
}

/// What a decoder remembers at the start of a stream.
pub open spec fn stream_start() -> StreamView {
    StreamView {
        unread: Seq::empty(),
        calls: Seq::empty(),
        reasoning: Seq::empty(),
        text: Seq::empty(),
    }
}

/// A tool call of which nothing is missing.
#[verifier::ext_equal]
pub struct ReadyCallView {
    pub id: Seq<char>,
    pub name: Seq<char>,
    pub args: JsonView,
}

#[verifier::ext_equal]
pub enum ItemView {
    Response(ResponseView),
    ToolCalls {
        calls: Seq<ReadyCallView>,
        finish_reason: Option<FinishReason>,
        reasoning: Option<Seq<char>>,
    },
}

/// What a chunk leads to: items to hand out, then perhaps an error, with which
/// the stream ends.
#[verifier::ext_equal]
pub struct OutcomeView {
    pub items: Seq<ItemView>,
    pub error: Option<ErrorView>,
}

pub open spec fn text_or_empty(s: Option<String>) -> Seq<char> {
    match s {
        Some(t) => t@,
        None => Seq::empty(),
    }
}

/// The identifier of a call that came without one.
pub open spec fn default_id(index: u32) -> Seq<char> {
    "call_"@ + decimal(index as nat)
}

/// A tool call once a fragment has been added: an identifier replaces the
/// earlier one, and so does a name that is not blank; arguments are appended.
pub open spec fn extended(call: Option<CallView>, fragment: ToolCallDelta) -> CallView {
    let base = match call {
        Some(c) => c,
        None => CallView {
            id: default_id(fragment.index),
            name: Seq::empty(),
            arguments: Seq::empty(),
        },
    };
    CallView {
        id: match fragment.id {
            Some(id) => id@,
            None => base.id,
        },
        name: match fragment.function {
            Some(f) => if is_blank(text_or_empty(f.name)) {
                base.name
            } else {
                text_or_empty(f.name)
            },
            None => base.name,
        },
        arguments: base.arguments + match fragment.function {
            Some(f) => text_or_empty(f.arguments),
            None => Seq::empty(),
        },
    }
}

pub open spec fn with_fragment(calls: Seq<(u32, CallView)>, fragment: ToolCallDelta) -> Seq<
    (u32, CallView),
> {
    with_call(calls, fragment.index, extended(call_at(calls, fragment.index), fragment))
}

/// The calls once all fragments have been added, in order.
pub open spec fn with_fragments(
    calls: Seq<(u32, CallView)>,
    fragments: Seq<ToolCallDelta>,
) -> Seq<(u32, CallView)>
    decreases fragments.len(),
{
    if fragments.len() == 0 {
        calls
    } else {
        with_fragment(with_fragments(calls, fragments.drop_last()), fragments.last())
    }
}

pub open spec fn with_delta_calls(calls: Seq<(u32, CallView)>, delta: Option<Delta>) -> Seq<
    (u32, CallView),
> {
    match delta {
        Some(d) => match d.tool_calls {
            Some(fragments) => with_fragments(calls, fragments@),
            None => calls,
        },
        None => calls,
    }
}

pub open spec fn delta_reasoning(delta: Option<Delta>) -> Seq<char> {
    match delta {
        Some(d) => text_or_empty(d.reasoning_content),
        None => Seq::empty(),
    }
}

pub open spec fn delta_text(delta: Option<Delta>) -> Seq<char> {
    match delta {
        Some(d) => text_or_empty(d.content),
        None => Seq::empty(),
    }
}

/// Text or reasoning that goes out at once, where there is any.
pub open spec fn partials(part: PartView, text: Seq<char>) -> Seq<ItemView> {
    if text.len() > 0 {
        seq![ItemView::Response(single_part(part, true))]
    } else {
        Seq::empty()
    }
}

/// The position of the first call without a name, or the number of calls.
pub open spec fn first_unnamed(calls: Seq<(u32, CallView)>) -> int
    decreases calls.len(),
{
    if calls.len() == 0 || is_blank(calls[0].1.name) {
        0
    } else {
        1 + first_unnamed(calls.skip(1))
    }
}

pub open spec fn unnamed_error(id: Seq<char>) -> ErrorView {
    ErrorView::Coded {
        component: ErrorComponent::Model,
        category: ErrorCategory::Unavailable,
        code: "model.deepseek.empty_tool_name"@,
        message: "upstream streamed tool call `"@ + id
            + "` with an empty function.name; retry the turn"@,
        provider: Some("deepseek"@),
        upstream_status: None,
        should_retry: Some(true),
    }
}

pub open spec fn ready(calls: Seq<(u32, CallView)>) -> Seq<ReadyCallView> {
    Seq::new(
        calls.len(),
        |i: int|
            ReadyCallView {
                id: calls[i].1.id,
                name: calls[i].1.name,
                args: call_args(calls[i].1.arguments),
            },
    )
}

pub open spec fn as_count(n: u32) -> i32 {
    wrap_i32(n as int) as i32
}

pub open spec fn opt_count(n: Option<u32>) -> Option<i32> {
    match n {
        Some(v) => Some(as_count(v)),
        None => None,
    }
}

pub open spec fn usage_counts(usage: Option<Usage>) -> Option<UsageMetadata> {
    match usage {
        Some(u) => Some(
            UsageMetadata {
                prompt_token_count: as_count(u.prompt_tokens),
                candidates_token_count: as_count(u.completion_tokens),
                total_token_count: as_count(u.total_tokens),
                cache_read_input_token_count: opt_count(u.prompt_cache_hit_tokens),
                cache_creation_input_token_count: opt_count(u.prompt_cache_miss_tokens),
                thinking_token_count: opt_count(u.reasoning_tokens),
                audio_input_token_count: None,
                audio_output_token_count: None,
            },
        ),
        None => None,
    }
}

/// The parts of the response that ends a turn: its reasoning, then its text.
pub open spec fn final_parts(reasoning: Seq<char>, text: Seq<char>) -> Seq<PartView> {
    (if reasoning.len() > 0 {
        seq![PartView::Thinking { thinking: reasoning, signature: None }]
    } else {
        Seq::empty()
    }) + (if text.len() > 0 {
        seq![PartView::Text { text }]
    } else {
        Seq::empty()
    })
}

/// The response that ends a turn without tool calls.
pub open spec fn plain_final(
    reasoning: Seq<char>,
    text: Seq<char>,
    word: Seq<char>,
    usage: Option<Usage>,
) -> ResponseView {
    let parts = final_parts(reasoning, text);
    ResponseView {
        content: if parts.len() > 0 {
            Some(ContentView { role: model_role(), parts })
        } else {
            None
        },
        usage_metadata: usage_counts(usage),
        finish_reason: Some(finish_reason_of(word)),
        partial: false,
        turn_complete: true,
        interrupted: false,
    }
}

/// The turn ends.
pub open spec fn end_turn(s: StreamView, word: Seq<char>, usage: Option<Usage>) -> (
    StreamView,
    OutcomeView,
) {
    if s.calls.len() == 0 {
        (
            StreamView { reasoning: Seq::empty(), text: Seq::empty(), ..s },
            OutcomeView {
                items: seq![ItemView::Response(plain_final(s.reasoning, s.text, word, usage))],
                error: None,
            },
        )
    } else if first_unnamed(s.calls) < s.calls.len() {
        (
            StreamView { calls: Seq::empty(), ..s },
            OutcomeView {
                items: Seq::empty(),
                error: Some(unnamed_error(s.calls[first_unnamed(s.calls)].1.id)),
            },
        )
    } else {
        (
            StreamView { calls: Seq::empty(), reasoning: Seq::empty(), ..s },
            OutcomeView {
                items: seq![
                    ItemView::ToolCalls {
                        calls: ready(s.calls),
                        finish_reason: Some(finish_reason_of(word)),
                        reasoning: if s.reasoning.len() > 0 {
                            Some(s.reasoning)
                        } else {
                            None
                        },
                    },
                ],
                error: None,
            },
        )
    }
}

/// The first choice of a chunk.
pub open spec fn choice_step(s: StreamView, choice: Choice, usage: Option<Usage>) -> (
    StreamView,
    OutcomeView,
) {
    let reasoning = delta_reasoning(choice.delta);
    let thinking = partials(PartView::Thinking { thinking: reasoning, signature: None }, reasoning);
    let s1 = StreamView {
        reasoning: s.reasoning + reasoning,
        calls: with_delta_calls(s.calls, choice.delta),
        ..s
    };
    match choice.finish_reason {
        Some(word) => {
            let (s2, ended) = end_turn(s1, word@, usage);
            (s2, OutcomeView { items: thinking + ended.items, error: ended.error })
        },
        None => {
            let text = delta_text(choice.delta);
            (
                StreamView { text: s1.text + text, ..s1 },
                OutcomeView {
                    items: thinking + partials(PartView::Text { text }, text),
                    error: None,
                },
            )
        },
    }
}

/// One chunk of the stream: what is remembered after it, and what it leads to.
pub open spec fn chunk_step(s: StreamView, chunk: Chunk) -> (StreamView, OutcomeView) {
    if chunk.choices@.len() > 0 {
        choice_step(s, chunk.choices@[0], chunk.usage)
    } else {
        (s, OutcomeView { items: Seq::empty(), error: None })
    }
}

/// The first call without a name is just that.
pub proof fn lemma_first_unnamed(calls: Seq<(u32, CallView)>)
    ensures
        0 <= first_unnamed(calls) <= calls.len(),
        first_unnamed(calls) < calls.len() ==> is_blank(calls[first_unnamed(calls)].1.name),
        forall|i: int|
            0 <= i < first_unnamed(calls) ==> !is_blank((#[trigger] calls[i]).1.name),
    decreases calls.len(),
{
    if calls.len() > 0 && !is_blank(calls[0].1.name) {
        lemma_first_unnamed(calls.skip(1));
        assert forall|i: int| 0 <= i < first_unnamed(calls) implies !is_blank(
            (#[trigger] calls[i]).1.name,
        ) by {
            if i > 0 {
                assert(calls[i] == calls.skip(1)[i - 1]);
            }
        }
    }
}

proof fn lemma_first_unnamed_is(calls: Seq<(u32, CallView)>, at: int)
    requires
        0 <= at <= calls.len(),
        at < calls.len() ==> is_blank(calls[at].1.name),
        forall|i: int| 0 <= i < at ==> !is_blank((#[trigger] calls[i]).1.name),
    ensures
        first_unnamed(calls) == at,
{
    lemma_first_unnamed(calls);
    let f = first_unnamed(calls);
    if f < at {
        assert(is_blank(calls[f].1.name));
    }
    if at < f {
        assert(is_blank(calls[at].1.name));
    }
}

// ---------------------------------------------------------------------
// The decoder at run time
// ---------------------------------------------------------------------

/// A tool call of which nothing is missing.
#[derive(Debug)]
pub struct ReadyCall {
    pub id: String,
    pub name: String,
    pub args: Json,
}

impl View for ReadyCall {
    type V = ReadyCallView;

    open spec fn view(&self) -> ReadyCallView {
        ReadyCallView { id: self.id@, name: self.name@, args: self.args@ }
    }
}

pub open spec fn ready_view(calls: Seq<ReadyCall>) -> Seq<ReadyCallView> {
    Seq::new(calls.len(), |i: int| calls[i]@)
}

/// Something to hand out: a response, or the tool calls that end a turn.
#[derive(Debug)]
pub enum StreamItem {
    Response(LlmResponse),
    ToolCalls {
        calls: Vec<ReadyCall>,
        finish_reason: Option<FinishReason>,
        reasoning: Option<String>,
    },
}

impl View for StreamItem {
    type V = ItemView;

    open spec fn view(&self) -> ItemView {
        match *self {
            StreamItem::Response(r) => ItemView::Response(r@),
            StreamItem::ToolCalls { calls, finish_reason, reasoning } => ItemView::ToolCalls {
                calls: ready_view(calls@),
                finish_reason,
                reasoning: opt_text(reasoning),
            },
        }
    }
}

/// What a chunk leads to: items to hand out, then perhaps an error, with which
/// the stream ends.
#[derive(Debug)]
pub struct Outcome {
    pub items: Vec<StreamItem>,
    pub error: Option<AdkError>,
}

pub open spec fn items_view(items: Seq<StreamItem>) -> Seq<ItemView> {
    Seq::new(items.len(), |i: int| items[i]@)
}

impl View for Outcome {
    type V = OutcomeView;

    open spec fn view(&self) -> OutcomeView {
        OutcomeView {
            items: items_view(self.items@),
            error: match self.error {
                Some(e) => Some(e@),
                None => None,
            },
        }
    }
}

/// Decodes one streamed completion.
pub struct StreamDecoder {
    lines: LineBuffer,
    calls: CallTable,
    reasoning: String,
    text: String,
}

impl View for StreamDecoder {
    type V = StreamView;

    closed spec fn view(&self) -> StreamView {
        StreamView {
            unread: self.lines@,
            calls: self.calls@,
            reasoning: self.reasoning@,
            text: self.text@,
        }
    }
}

fn add_fragment(calls: &mut CallTable, fragment: &ToolCallDelta)
    ensures
        final(calls)@ == with_fragment(old(calls)@, *fragment),
{
    let index: u32 = fragment.index;
    let ghost before = calls@;
    let ghost known = call_at(before, index);
    let mut call: ToolCall = match calls.take(index) {
        Some(c) => c,
        None => {
            let id: String = "call_".to_owned().concat(decimal_text(index as u64).as_str());
            ToolCall { id, name: String::new(), arguments: String::new() }
        },
    };
    match &fragment.id {
        Some(id) => {
            call.id = id.clone();
        },
        None => {},
    }
    match &fragment.function {
        Some(f) => {
            match &f.name {
                Some(name) => if !blank(name.as_str()) {
                    call.name = name.clone();
                },
                None => {},
            }
            match &f.arguments {
                Some(arguments) => {
                    call.arguments.append(arguments.as_str());
                },
                None => {},
            }
        },
        None => {},
    }
    assert(call@ =~= extended(known, *fragment));
    proof {
        if known is Some {
            lemma_take_then_set(before, index, call@);
        }
    }
    calls.set(index, call);
}

fn add_delta_calls(calls: &mut CallTable, delta: &Option<Delta>)
    ensures
        final(calls)@ == with_delta_calls(old(calls)@, *delta),
{
    match delta {
        Some(d) => match &d.tool_calls {
            Some(fragments) => {
                let ghost before = calls@;
                let mut i: usize = 0;
                assert(fragments@.take(0) =~= Seq::<ToolCallDelta>::empty());
                while i < fragments.len()
                    invariant
                        i <= fragments@.len(),
                        calls@ == with_fragments(before, fragments@.take(i as int)),
                    decreases fragments@.len() - i,
                {
                    assert(fragments@.take(i + 1).drop_last() =~= fragments@.take(i as int));
                    add_fragment(calls, &fragments[i]);
                    i += 1;
                }
                assert(fragments@.take(i as int) =~= fragments@);
            },
            None => {},
        },
        None => {},
    }
}

fn read_opt_count(n: Option<u32>) -> (r: Option<i32>)
    ensures
        r == opt_count(n),
{
    match n {
        Some(v) => Some(u32_as_i32(v)),
        None => None,
    }
}

fn read_usage(usage: &Option<Usage>) -> (r: Option<UsageMetadata>)
    ensures
        r == usage_counts(*usage),
{
    match usage {
        Some(u) => Some(
            UsageMetadata {
                prompt_token_count: u32_as_i32(u.prompt_tokens),
                candidates_token_count: u32_as_i32(u.completion_tokens),
                total_token_count: u32_as_i32(u.total_tokens),
                cache_read_input_token_count: read_opt_count(u.prompt_cache_hit_tokens),
                cache_creation_input_token_count: read_opt_count(u.prompt_cache_miss_tokens),
                thinking_token_count: read_opt_count(u.reasoning_tokens),
                audio_input_token_count: None,
                audio_output_token_count: None,
            },
        ),
        None => None,
    }
}

fn unnamed_tool_error(id: &str) -> (e: AdkError)
    ensures
        e@ == unnamed_error(id@),
{
    let message: String = "upstream streamed tool call `".to_owned().concat(id).concat(
        "` with an empty function.name; retry the turn",
    );
    AdkError::Coded {
        component: ErrorComponent::Model,
        category: ErrorCategory::Unavailable,
        code: "model.deepseek.empty_tool_name".to_owned(),
        message,
        provider: Some("deepseek".to_owned()),
        upstream_status: None,
        should_retry: Some(true),
    }
}

impl StreamDecoder {
    /// A decoder at the start of a stream.
    pub fn new() -> (d: StreamDecoder)
        ensures
            d@ == stream_start(),
    {
        StreamDecoder {
            lines: LineBuffer::new(),
            calls: CallTable::new(),
            reasoning: String::new(),
            text: String::new(),
        }
    }

    /// Takes bytes of the stream as they came from the network.
    pub fn push_bytes(&mut self, bytes: &[u8])
        ensures
            final(self)@ == (StreamView {
                unread: old(self)@.unread + lossy_text(bytes@),
                ..old(self)@
            }),
            valid_utf8(bytes@) ==> final(self)@ == (StreamView {
                unread: old(self)@.unread + decode_utf8(bytes@),
                ..old(self)@
            }),
    {
        self.lines.push_bytes(bytes);
    }

    /// Takes the next complete line and tells what it is. The end marker leads
    /// to nothing here, since no response waits for it.
    pub fn next_line(&mut self) -> (line: Option<Line>)
        ensures
            match line {
                Some(l) => {
                    let end = line_end(old(self)@.unread) as int;
                    &&& end < old(self)@.unread.len()
                    &&& l@ == classify(trimmed(old(self)@.unread.take(end)))
                    &&& final(self)@ == (StreamView {
                        unread: old(self)@.unread.skip(end + 1),
                        ..old(self)@
                    })
                },
                None => {
                    &&& line_end(old(self)@.unread) == old(self)@.unread.len()
                    &&& final(self)@ == old(self)@
                },
            },
    {
        match self.lines.next_line() {
            Some(line) => Some(classify_line(line.as_str())),
            None => None,
        }
    }

    /// Acts on one chunk.
    pub fn on_chunk(&mut self, chunk: &Chunk) -> (outcome: Outcome)
        ensures
            (final(self)@, outcome@) == chunk_step(old(self)@, *chunk),
    {
        if chunk.choices.len() == 0 {
            let items: Vec<StreamItem> = Vec::new();
            assert(items_view(items@) =~= Seq::<ItemView>::empty());
            return Outcome { items, error: None };
        }
        self.on_choice(&chunk.choices[0], &chunk.usage)
    }

    fn on_choice(&mut self, choice: &Choice, usage: &Option<Usage>) -> (outcome: Outcome)
        ensures
            (final(self)@, outcome@) == choice_step(old(self)@, *choice, *usage),
    {
        let ghost before = self@;
        let ghost reasoning = delta_reasoning(choice.delta);
        let ghost thinking = partials(
            PartView::Thinking { thinking: reasoning, signature: None },
            reasoning,
        );
        let mut items: Vec<StreamItem> = Vec::new();
        match &choice.delta {
            Some(d) => match &d.reasoning_content {
                Some(r) => if !empty_text(r.as_str()) {
                    self.reasoning.append(r.as_str());
                    let part = Part::Thinking { thinking: r.clone(), signature: None };
                    let response: LlmResponse = single_part_response(part, true);
                    items.push(StreamItem::Response(response));
                },
                None => {},
            },
            None => {},
        }
        assert(self@.reasoning =~= before.reasoning + reasoning);
        assert(items_view(items@) =~= thinking);
        add_delta_calls(&mut self.calls, &choice.delta);
        let ghost s1 = self@;
        assert(s1 =~= (StreamView {
            reasoning: before.reasoning + reasoning,
            calls: with_delta_calls(before.calls, choice.delta),
            ..before
        }));
        match &choice.finish_reason {
            Some(word) => {
                let ended: Outcome = self.end_turn(word.as_str(), usage);
                let ghost ended_view = ended@;
                let mut more: Vec<StreamItem> = ended.items;
                let ghost more_view = items_view(more@);
                items.append(&mut more);
                assert(items_view(items@) =~= thinking + more_view);
                Outcome { items, error: ended.error }
            },
            None => {
                let ghost text = delta_text(choice.delta);
                match &choice.delta {
                    Some(d) => match &d.content {
                        Some(t) => if !empty_text(t.as_str()) {
                            self.text.append(t.as_str());
                            let part = Part::Text { text: t.clone() };
                            let response: LlmResponse = single_part_response(part, true);
                            items.push(StreamItem::Response(response));
                        },
                        None => {},
                    },
                    None => {},
                }
                assert(self@ =~= (StreamView { text: s1.text + text, ..s1 }));
                assert(items_view(items@) =~= thinking + partials(PartView::Text { text }, text));
                Outcome { items, error: None }
            },
        }
    }

    fn end_turn(&mut self, word: &str, usage: &Option<Usage>) -> (outcome: Outcome)
        ensures
            (final(self)@, outcome@) == end_turn(old(self)@, word@, *usage),
    {
        let ghost before = self@;
        let reason: FinishReason = parse_finish_reason(word);
        let mut items: Vec<StreamItem> = Vec::new();
        if self.calls.is_empty() {
            let mut reasoning: String = String::new();
            std::mem::swap(&mut reasoning, &mut self.reasoning);
            let mut text: String = String::new();
            std::mem::swap(&mut text, &mut self.text);
            let mut parts: Vec<Part> = Vec::new();
            if !empty_text(reasoning.as_str()) {
                parts.push(Part::Thinking { thinking: reasoning, signature: None });
            }
            if !empty_text(text.as_str()) {
                parts.push(Part::Text { text });
            }
            assert(parts_view(parts@) =~= final_parts(before.reasoning, before.text));
            let content: Option<Content> = if parts.len() == 0 {
                None
            } else {
                Some(Content { role: "model".to_owned(), parts })
            };
            let response = LlmResponse {
                content,
                usage_metadata: read_usage(usage),
                finish_reason: Some(reason),
                partial: false,
                turn_complete: true,
                interrupted: false,
            };
            assert(response@ =~= plain_final(before.reasoning, before.text, word@, *usage));
            let ghost view = response@;
            items.push(StreamItem::Response(response));
            assert(items_view(items@) =~= seq![ItemView::Response(view)]);
            assert(self@ =~= end_turn(before, word@, *usage).0);
            return Outcome { items, error: None };
        }
        let calls: Vec<ToolCall> = self.calls.drain();
        let mut i: usize = 0;
        while i < calls.len()
            invariant
                i <= calls@.len(),
                calls@.len() == before.calls.len(),
                forall|k: int|
                    0 <= k < calls@.len() ==> (#[trigger] calls@[k])@ == before.calls[k].1,
                forall|k: int| 0 <= k < i ==> !is_blank((#[trigger] before.calls[k]).1.name),
                before.calls.len() > 0,
                self@ == (StreamView { calls: Seq::empty(), ..before }),
                items@.len() == 0,
                before == old(self)@,
            decreases calls@.len() - i,
        {
            assert(calls@[i as int]@ == before.calls[i as int].1);
            if blank(calls[i].name.as_str()) {
                proof {
                    lemma_first_unnamed_is(before.calls, i as int);
                }
                assert(items_view(items@) =~= Seq::<ItemView>::empty());
                return Outcome { items, error: Some(unnamed_tool_error(calls[i].id.as_str())) };
            }
            i += 1;
        }
        proof {
            lemma_first_unnamed_is(before.calls, i as int);
        }
        let mut listed: Vec<ReadyCall> = Vec::new();
        let mut j: usize = 0;
        while j < calls.len()
            invariant
                j <= calls@.len(),
                calls@.len() == before.calls.len(),
                forall|k: int|
                    0 <= k < calls@.len() ==> (#[trigger] calls@[k])@ == before.calls[k].1,
                ready_view(listed@) == ready(before.calls).take(j as int),
            decreases calls@.len() - j,
        {
            let ghost so_far = ready_view(listed@);
            let call = ReadyCall {
                id: calls[j].id.clone(),
                name: calls[j].name.clone(),
                args: read_call_args(calls[j].arguments.as_str()),
            };
            assert(calls@[j as int]@ == before.calls[j as int].1);
            assert(call@ =~= ready(before.calls)[j as int]);
            listed.push(call);
            assert(ready_view(listed@) =~= so_far.push(ready(before.calls)[j as int]));
            assert(ready_view(listed@) =~= ready(before.calls).take(j + 1));
            j += 1;
        }
        assert(ready(before.calls).take(j as int) =~= ready(before.calls));
        let mut reasoning: String = String::new();
        std::mem::swap(&mut reasoning, &mut self.reasoning);
        let kept: Option<String> = if empty_text(reasoning.as_str()) {
            None
        } else {
            Some(reasoning)
        };
        let item = StreamItem::ToolCalls {
            calls: listed,
            finish_reason: Some(reason),
            reasoning: kept,
        };
        let ghost view = item@;
        items.push(item);
        assert(items_view(items@) =~= seq![view]);
        assert(self@ =~= end_turn(before, word@, *usage).0);
        Outcome { items, error: None }
    }
}

// ---------------------------------------------------------------------
// Laws
// ---------------------------------------------------------------------

/// A tool call without a name is never handed out.
pub proof fn law_no_unnamed_call(s: StreamView, chunk: Chunk, i: int, j: int)
    requires
        0 <= i < chunk_step(s, chunk).1.items.len(),
    ensures
        chunk_step(s, chunk).1.items[i] matches ItemView::ToolCalls { calls, .. } ==> (0 <= j
            < calls.len() ==> !is_blank(calls[j].name)),
{
    if chunk.choices@.len() > 0 {
        let choice = chunk.choices@[0];
        let calls = with_delta_calls(s.calls, choice.delta);
        lemma_first_unnamed(calls);
        if first_unnamed(calls) == calls.len() && 0 <= j < calls.len() {
            assert(!is_blank(calls[j].1.name));
        }
    }
}

/// A call that has a name keeps it through fragments with a blank name.
pub proof fn law_blank_name_keeps_the_name(call: CallView, fragment: ToolCallDelta)
    requires
        fragment.function matches Some(f) ==> is_blank(text_or_empty(f.name)),
    ensures
        extended(Some(call), fragment).name == call.name,
{
}

} // verus!
