//! Decoding a streamed chat completion.
//!
//! The response that ends a turn is held back until its token counts are
//! known: they may ride the same chunk, or follow on a chunk of their own. It
//! goes out when counts arrive, at the end marker, or when the stream ends.

use crate::json::{parsed, Json, JsonObject, JsonView};
use crate::llm::{
    model_role, parts_view, responses_view, single_part, single_part_response, Content,
    ContentView, FinishReason, LlmResponse, Part, PartView, ResponseView, UsageMetadata,
};
use crate::number::{low_u32, wrap_u32};
use crate::openai::usage::{chunk_usage, parse_usage_from_chunk};
use crate::sse::{classify, classify_line, line_end, lossy_text, Line, LineBuffer, LineView};
use crate::text::{empty_text, same_text, trimmed};
use crate::tool_calls::{call_at, lemma_take_then_set, with_call, CallTable, CallView, ToolCall};
use vstd::prelude::*;
use vstd::string::*;
use vstd::utf8::*;

verus! {

// ---------------------------------------------------------------------
// The decoder, mathematically
// ---------------------------------------------------------------------

/// What a decoder remembers.
#[verifier::ext_equal]
pub struct StreamView {
    /// Text of which no complete line has been cut yet.
    pub unread: Seq<char>,
    /// The tool calls that have arrived so far.
    pub calls: Seq<(u32, CallView)>,
    /// The text handed out since the last turn that ended in tool calls.
    pub text: Seq<char>,
    /// The largest token counts seen and not yet handed out.
    pub pending: Option<UsageMetadata>,
    /// The response that ends the turn, while it waits for its counts.
    pub held: Option<ResponseView>,
}

/// What a decoder remembers at the start of a stream.
pub open spec fn stream_start() -> StreamView {
    StreamView {
        unread: Seq::empty(),
        calls: Seq::empty(),
        text: Seq::empty(),
        pending: None,
        held: None,
    }
}

/// What one line of the stream leads to.
#[verifier::ext_equal]
pub struct OutcomeView {
    /// Responses to hand out.
    pub responses: Seq<ResponseView>,
    /// Text to look for tool calls in, before it is handed out.
    pub text: Option<Seq<char>>,
}

pub open spec fn no_outcome() -> OutcomeView {
    OutcomeView { responses: Seq::empty(), text: None }
}

/// The reason that the wire's word stands for.
pub open spec fn finish_reason_of(word: Seq<char>) -> FinishReason {
    if word == "length"@ {
        FinishReason::MaxTokens
    } else if word == "content_filter"@ {
        FinishReason::Safety
    } else {
        FinishReason::Stop
    }
}

/// The counts of the larger turn.
pub open spec fn larger(
    before: Option<UsageMetadata>,
    now: UsageMetadata,
) -> UsageMetadata {
    match before {
        Some(b) => if b.total_token_count >= now.total_token_count {
            b
        } else {
            now
        },
        None => now,
    }
}

/// A response with those counts, unless it has some.
pub open spec fn with_usage(r: ResponseView, usage: Option<UsageMetadata>) -> ResponseView {
    ResponseView {
        usage_metadata: if r.usage_metadata is Some {
            r.usage_metadata
        } else {
            usage
        },
        ..r
    }
}

/// The held response goes out, with whatever counts there are.
pub open spec fn release(s: StreamView) -> (StreamView, Seq<ResponseView>) {
    match s.held {
        Some(h) => (
            StreamView { held: None, pending: None, ..s },
            seq![with_usage(h, s.pending)],
        ),
        None => (s, Seq::empty()),
    }
}

/// Counts on a chunk are kept where they are the larger ones, and release the
/// held response.
pub open spec fn take_usage(s: StreamView, chunk: JsonView) -> (StreamView, Seq<ResponseView>) {
    match chunk_usage(chunk) {
        Some(u) => release(StreamView { pending: Some(larger(s.pending, u)), ..s }),
        None => (s, Seq::empty()),
    }
}

pub open spec fn str_at(object: JsonView, name: Seq<char>) -> Option<Seq<char>> {
    match object.get(name) {
        Some(v) => v.as_str(),
        None => None,
    }
}

pub open spec fn str_or_empty(s: Option<Seq<char>>) -> Seq<char> {
    match s {
        Some(t) => t,
        None => Seq::empty(),
    }
}

/// The index that a fragment of a tool call names, cut to 32 bits; zero where
/// it names none.
pub open spec fn fragment_index(fragment: JsonView) -> u32 {
    match fragment.get("index"@) {
        Some(v) => match v.as_u64() {
            Some(n) => wrap_u32(n) as u32,
            None => 0,
        },
        None => 0,
    }
}

/// A tool call once a fragment has been added: an identifier that is not empty
/// and a name replace the earlier ones, arguments are appended.
pub open spec fn extended(call: Option<CallView>, fragment: JsonView) -> CallView {
    let base = match call {
        Some(c) => c,
        None => CallView { id: Seq::empty(), name: Seq::empty(), arguments: Seq::empty() },
    };
    let id = str_or_empty(str_at(fragment, "id"@));
    let (name, arguments) = match fragment.get("function"@) {
        Some(f) => (str_at(f, "name"@), str_or_empty(str_at(f, "arguments"@))),
        None => (None, Seq::empty()),
    };
    CallView {
        id: if id.len() > 0 {
            id
        } else {
            base.id
        },
        name: match name {
            Some(n) => n,
            None => base.name,
        },
        arguments: base.arguments + arguments,
    }
}

pub open spec fn with_fragment(calls: Seq<(u32, CallView)>, fragment: JsonView) -> Seq<
    (u32, CallView),
> {
    let index = fragment_index(fragment);
    with_call(calls, index, extended(call_at(calls, index), fragment))
}

/// The calls once all fragments have been added, in order.
pub open spec fn with_fragments(calls: Seq<(u32, CallView)>, fragments: Seq<JsonView>) -> Seq<
    (u32, CallView),
>
    decreases fragments.len(),
{
    if fragments.len() == 0 {
        calls
    } else {
        with_fragment(with_fragments(calls, fragments.drop_last()), fragments.last())
    }
}

/// The calls once the fragments of a delta have been added.
pub open spec fn with_delta_calls(calls: Seq<(u32, CallView)>, delta: JsonView) -> Seq<
    (u32, CallView),
> {
    match delta.get("tool_calls"@) {
        Some(JsonView::Array(fragments)) => with_fragments(calls, fragments),
        _ => calls,
    }
}

/// The arguments of a tool call: what its text reads as, or an empty object
/// where it is not JSON.
pub open spec fn call_args(text: Seq<char>) -> JsonView {
    match parsed(text) {
        Some(v) => v,
        None => JsonView::Object(Seq::empty()),
    }
}

pub open spec fn call_part(call: CallView) -> PartView {
    PartView::FunctionCall {
        name: call.name,
        args: call_args(call.arguments),
        id: Some(call.id),
        thought_signature: None,
    }
}

pub open spec fn call_parts(calls: Seq<(u32, CallView)>) -> Seq<PartView> {
    Seq::new(calls.len(), |i: int| call_part(calls[i].1))
}

/// The text as one part, or no part where there is none.
pub open spec fn text_parts(text: Seq<char>) -> Seq<PartView> {
    if text.len() > 0 {
        seq![PartView::Text { text }]
    } else {
        Seq::empty()
    }
}

/// The content of a delta.
pub open spec fn delta_text(delta: JsonView) -> Seq<char> {
    str_or_empty(str_at(delta, "content"@))
}

/// The reasoning of a delta, under either of its two names.
pub open spec fn delta_reasoning(delta: JsonView) -> Seq<char> {
    if delta.get("reasoning_content"@) is Some {
        str_or_empty(str_at(delta, "reasoning_content"@))
    } else {
        str_or_empty(str_at(delta, "reasoning"@))
    }
}

/// The response that ends a turn in tool calls: the text of the turn as one
/// part, then the calls in the order of their index. The turn stays open for
/// the results of the calls.
pub open spec fn calls_final(
    text: Seq<char>,
    calls: Seq<(u32, CallView)>,
    word: Seq<char>,
    usage: Option<UsageMetadata>,
) -> ResponseView {
    ResponseView {
        content: Some(
            ContentView { role: model_role(), parts: text_parts(text) + call_parts(calls) },
        ),
        usage_metadata: usage,
        finish_reason: Some(finish_reason_of(word)),
        partial: false,
        turn_complete: false,
        interrupted: false,
    }
}

/// The response that ends a turn without tool calls.
pub open spec fn plain_final(
    tail: Seq<char>,
    word: Seq<char>,
    usage: Option<UsageMetadata>,
) -> ResponseView {
    ResponseView {
        content: if tail.len() > 0 {
            Some(ContentView { role: model_role(), parts: text_parts(tail) })
        } else {
            None
        },
        usage_metadata: usage,
        finish_reason: Some(finish_reason_of(word)),
        partial: false,
        turn_complete: true,
        interrupted: false,
    }
}

/// The turn ends: its response is held.
pub open spec fn end_turn(s: StreamView, delta: JsonView, word: Seq<char>) -> StreamView {
    if s.calls.len() > 0 {
        StreamView {
            calls: Seq::empty(),
            text: Seq::empty(),
            pending: None,
            held: Some(calls_final(s.text + delta_text(delta), s.calls, word, s.pending)),
            ..s
        }
    } else {
        StreamView {
            pending: None,
            held: Some(plain_final(delta_text(delta), word, s.pending)),
            ..s
        }
    }
}

/// The turn goes on: reasoning goes out at once, text is looked through first.
pub open spec fn delta_outcome(delta: JsonView) -> OutcomeView {
    OutcomeView {
        responses: if delta_reasoning(delta).len() > 0 {
            seq![
                single_part(
                    PartView::Thinking { thinking: delta_reasoning(delta), signature: None },
                    true,
                ),
            ]
        } else {
            Seq::empty()
        },
        text: if delta_text(delta).len() > 0 {
            Some(delta_text(delta))
        } else {
            None
        },
    }
}

/// The first choice of a chunk.
pub open spec fn first_choice(chunk: JsonView) -> Option<JsonView> {
    match chunk.get("choices"@) {
        Some(c) => c.at(0),
        None => None,
    }
}

pub open spec fn choice_delta(chunk: JsonView) -> Option<JsonView> {
    match first_choice(chunk) {
        Some(c) => c.get("delta"@),
        None => None,
    }
}

/// The word with which a chunk ends the turn, where it does.
pub open spec fn finish_word(chunk: JsonView) -> Option<Seq<char>> {
    if choice_delta(chunk) is Some {
        str_at(first_choice(chunk)->Some_0, "finish_reason"@)
    } else {
        None
    }
}

/// One chunk of the stream: what is remembered after it, and what it leads to.
pub open spec fn chunk_step(s: StreamView, chunk: JsonView) -> (StreamView, OutcomeView) {
    let (s1, released) = take_usage(s, chunk);
    match choice_delta(chunk) {
        None => (s1, OutcomeView { responses: released, text: None }),
        Some(delta) => {
            let s2 = StreamView { calls: with_delta_calls(s1.calls, delta), ..s1 };
            match finish_word(chunk) {
                Some(word) => (
                    end_turn(s2, delta, word),
                    OutcomeView { responses: released, text: None },
                ),
                None => (
                    s2,
                    OutcomeView {
                        responses: released + delta_outcome(delta).responses,
                        text: delta_outcome(delta).text,
                    },
                ),
            }
        },
    }
}

/// One line of the stream.
pub open spec fn line_step(s: StreamView, line: Seq<char>) -> (StreamView, OutcomeView) {
    match classify(line) {
        LineView::Other => (s, no_outcome()),
        LineView::Done => (
            release(s).0,
            OutcomeView { responses: release(s).1, text: None },
        ),
        LineView::Data(data) => match parsed(data) {
            Some(chunk) => chunk_step(s, chunk),
            None => (s, no_outcome()),
        },
    }
}

/// The text of text parts, in order.
pub open spec fn text_of(parts: Seq<PartView>) -> Seq<char>
    decreases parts.len(),
{
    if parts.len() == 0 {
        Seq::empty()
    } else {
        text_of(parts.drop_last()) + match parts.last() {
            PartView::Text { text } => text,
            _ => Seq::empty(),
        }
    }
}

/// Text that has been looked through goes out, part by part.
pub open spec fn emitted(parts: Seq<PartView>) -> Seq<ResponseView> {
    Seq::new(parts.len(), |i: int| single_part(parts[i], !parts[i].is_call()))
}

/// What is left to look through when the stream ends goes out, part by part;
/// a tool call ends the turn.
pub open spec fn leftover(part: PartView) -> ResponseView {
    ResponseView {
        finish_reason: if part.is_call() {
            Some(FinishReason::Stop)
        } else {
            None
        },
        turn_complete: part.is_call(),
        ..single_part(part, !part.is_call())
    }
}

pub open spec fn leftovers(parts: Seq<PartView>) -> Seq<ResponseView> {
    Seq::new(parts.len(), |i: int| leftover(parts[i]))
}

// ---------------------------------------------------------------------
// The decoder at run time
// ---------------------------------------------------------------------

/// What one line of the stream leads to.
#[derive(Debug)]
pub struct Outcome {
    /// Responses to hand out.
    pub responses: Vec<LlmResponse>,
    /// Text to look for tool calls in, before it is handed out.
    pub text: Option<String>,
}

impl View for Outcome {
    type V = OutcomeView;

    open spec fn view(&self) -> OutcomeView {
        OutcomeView {
            responses: responses_view(self.responses@),
            text: crate::text::opt_text(self.text),
        }
    }
}

/// Decodes one streamed completion.
pub struct StreamDecoder {
    lines: LineBuffer,
    calls: CallTable,
    text: String,
    pending: Option<UsageMetadata>,
    held: Option<LlmResponse>,
}

impl View for StreamDecoder {
    type V = StreamView;

    closed spec fn view(&self) -> StreamView {
        StreamView {
            unread: self.lines@,
            calls: self.calls@,
            text: self.text@,
            pending: self.pending,
            held: match self.held {
                Some(r) => Some(r@),
                None => None,
            },
        }
    }
}

/// Reads the word with which a provider ends a turn.
pub fn parse_finish_reason(word: &str) -> (r: FinishReason)
    ensures
        r == finish_reason_of(word@),
{
    if same_text(word, "length") {
        FinishReason::MaxTokens
    } else if same_text(word, "content_filter") {
        FinishReason::Safety
    } else {
        FinishReason::Stop
    }
}

fn read_str<'a>(object: &'a Json, name: &str) -> (s: Option<&'a str>)
    ensures
        match s {
            Some(v) => str_at(object@, name@) == Some(v@),
            None => str_at(object@, name@) is None,
        },
{
    match object.get(name) {
        Some(v) => v.as_str(),
        None => None,
    }
}

fn read_str_or_empty<'a>(object: &'a Json, name: &str) -> (s: &'a str)
    ensures
        s@ == str_or_empty(str_at(object@, name@)),
{
    match read_str(object, name) {
        Some(v) => v,
        None => {
            proof {
                reveal_strlit("");
                assert(""@ =~= Seq::<char>::empty());
            }
            ""
        },
    }
}

fn read_index(fragment: &Json) -> (index: u32)
    ensures
        index == fragment_index(fragment@),
{
    match fragment.get("index") {
        Some(v) => match v.as_u64() {
            Some(n) => low_u32(n),
            None => 0,
        },
        None => 0,
    }
}

fn add_fragment(calls: &mut CallTable, fragment: &Json)
    ensures
        final(calls)@ == with_fragment(old(calls)@, fragment@),
{
    let index: u32 = read_index(fragment);
    let ghost before = calls@;
    let taken = calls.take(index);
    let ghost known = call_at(before, index);
    let mut call: ToolCall = match taken {
        Some(c) => c,
        None => {
            proof {
                reveal_strlit("");
                assert(""@ =~= Seq::<char>::empty());
            }
            ToolCall { id: "".to_owned(), name: "".to_owned(), arguments: "".to_owned() }
        },
    };
    let id: &str = read_str_or_empty(fragment, "id");
    if !empty_text(id) {
        call.id = id.to_owned();
    }
    match fragment.get("function") {
        Some(f) => {
            match read_str(f, "name") {
                Some(name) => {
                    call.name = name.to_owned();
                },
                None => {},
            }
            call.arguments.append(read_str_or_empty(f, "arguments"));
        },
        None => {},
    }
    assert(call@ =~= extended(known, fragment@));
    proof {
        if known is Some {
            lemma_take_then_set(before, index, call@);
        }
    }
    calls.set(index, call);
}

fn add_delta_calls(calls: &mut CallTable, delta: &Json)
    ensures
        final(calls)@ == with_delta_calls(old(calls)@, delta@),
{
    match delta.get("tool_calls") {
        Some(Json::Array(fragments)) => {
            let ghost before = calls@;
            let ghost all = (Json::Array(*fragments))@->Array_0;
            let mut i: usize = 0;
            assert(all.take(0) =~= Seq::<JsonView>::empty());
            while i < fragments.len()
                invariant
                    i <= fragments@.len(),
                    all == (Json::Array(*fragments))@->Array_0,
                    all.len() == fragments@.len(),
                    calls@ == with_fragments(before, all.take(i as int)),
                decreases fragments@.len() - i,
            {
                assert(all.take(i + 1).drop_last() =~= all.take(i as int));
                assert(all.take(i + 1).last() == fragments@[i as int]@);
                add_fragment(calls, &fragments[i]);
                i += 1;
            }
            assert(all.take(i as int) =~= all);
        },
        _ => {},
    }
}

/// The arguments that a call's text stands for.
pub fn read_call_args(text: &str) -> (args: Json)
    ensures
        args@ == call_args(text@),
{
    match Json::parse(text) {
        Some(v) => v,
        None => Json::Object(JsonObject::new()),
    }
}

fn text_part(text: String) -> (parts: Vec<Part>)
    ensures
        parts_view(parts@) == text_parts(text@),
{
    let mut parts: Vec<Part> = Vec::new();
    let ghost view = text@;
    if !empty_text(text.as_str()) {
        parts.push(Part::Text { text });
        assert(parts_view(parts@) =~= text_parts(view));
    } else {
        assert(parts_view(parts@) =~= text_parts(view));
    }
    parts
}

impl StreamDecoder {
    /// A decoder at the start of a stream.
    pub fn new() -> (d: StreamDecoder)
        ensures
            d@ == stream_start(),
    {
        StreamDecoder {
            lines: LineBuffer::new(),
            calls: CallTable::new(),
            text: String::new(),
            pending: None,
            held: None,
        }
    }

    /// Takes bytes of the stream as they came from the network.
    pub fn push_bytes(&mut self, bytes: &[u8])
        ensures
            final(self)@ == (StreamView {
                unread: old(self)@.unread + lossy_text(bytes@),
                ..old(self)@
            }),
            valid_utf8(bytes@) ==> final(self)@ == (StreamView {
                unread: old(self)@.unread + decode_utf8(bytes@),
                ..old(self)@
            }),
    {
        self.lines.push_bytes(bytes);
    }

    /// Takes the next complete line and acts on it.
    pub fn next(&mut self) -> (outcome: Option<Outcome>)
        ensures
            match outcome {
                Some(o) => {
                    let end = line_end(old(self)@.unread) as int;
                    &&& end < old(self)@.unread.len()
                    &&& (final(self)@, o@) == line_step(
                        StreamView { unread: old(self)@.unread.skip(end + 1), ..old(self)@ },
                        trimmed(old(self)@.unread.take(end)),
                    )
                },
                None => {
                    &&& line_end(old(self)@.unread) == old(self)@.unread.len()
                    &&& final(self)@ == old(self)@
                },
            },
    {
        match self.lines.next_line() {
            Some(line) => Some(self.on_line(line.as_str())),
            None => None,
        }
    }

    /// Acts on one line.
    pub fn on_line(&mut self, line: &str) -> (outcome: Outcome)
        ensures
            (final(self)@, outcome@) == line_step(old(self)@, line@),
    {
        match classify_line(line) {
            Line::Done => {
                let responses: Vec<LlmResponse> = self.finish();
                Outcome { responses, text: None }
            },
            Line::Data(data) => match Json::parse(data.as_str()) {
                Some(chunk) => self.on_chunk(&chunk),
                None => {
                    let responses: Vec<LlmResponse> = Vec::new();
                    assert(responses_view(responses@) =~= Seq::<ResponseView>::empty());
                    Outcome { responses, text: None }
                },
            },
            Line::Other => {
                let responses: Vec<LlmResponse> = Vec::new();
                assert(responses_view(responses@) =~= Seq::<ResponseView>::empty());
                Outcome { responses, text: None }
            },
        }
    }

    /// The stream has ended, or says that it has: the held response goes out.
    pub fn finish(&mut self) -> (responses: Vec<LlmResponse>)
        ensures
            (final(self)@, responses_view(responses@)) == release(old(self)@),
    {
        let mut responses: Vec<LlmResponse> = Vec::new();
        match self.held.take() {
            Some(held) => {
                let mut response: LlmResponse = held;
                let pending = self.pending.take();
                let ghost view = response@;
                if response.usage_metadata.is_none() {
                    response.usage_metadata = pending;
                }
                assert(response@ =~= with_usage(view, old(self)@.pending));
                let ghost last = response@;
                responses.push(response);
                assert(responses_view(responses@) =~= seq![last]);
            },
            None => {
                assert(responses_view(responses@) =~= Seq::<ResponseView>::empty());
            },
        }
        assert(self@ =~= release(old(self)@).0);
        responses
    }

    fn take_usage(&mut self, chunk: &Json) -> (responses: Vec<LlmResponse>)
        ensures
            (final(self)@, responses_view(responses@)) == take_usage(old(self)@, chunk@),
    {
        match parse_usage_from_chunk(chunk) {
            Some(now) => {
                let kept: UsageMetadata = match self.pending {
                    Some(before) => if before.total_token_count >= now.total_token_count {
                        before
                    } else {
                        now
                    },
                    None => now,
                };
                self.pending = Some(kept);
                assert(self@ =~= (StreamView {
                    pending: Some(larger(old(self)@.pending, now)),
                    ..old(self)@
                }));
                self.finish()
            },
            None => {
                let responses: Vec<LlmResponse> = Vec::new();
                assert(responses_view(responses@) =~= Seq::<ResponseView>::empty());
                responses
            },
        }
    }

    fn end_turn(&mut self, delta: &Json, word: &str)
        ensures
            final(self)@ == end_turn(old(self)@, delta@, word@),
    {
        let usage = self.pending.take();
        let tail: &str = read_str_or_empty(delta, "content");
        let reason: FinishReason = parse_finish_reason(word);
        if !self.calls.is_empty() {
            let ghost calls_view = self.calls@;
            let calls: Vec<ToolCall> = self.calls.drain();
            let mut text: String = String::new();
            std::mem::swap(&mut text, &mut self.text);
            text.append(tail);
            let mut parts: Vec<Part> = text_part(text);
            let ghost lead = parts_view(parts@);
            let ghost listed = call_parts(calls_view);
            let mut i: usize = 0;
            assert(parts_view(parts@) =~= lead + listed.take(0));
            while i < calls.len()
                invariant
                    i <= calls@.len(),
                    calls@.len() == calls_view.len(),
                    listed == call_parts(calls_view),
                    forall|k: int|
                        0 <= k < calls@.len() ==> (#[trigger] calls@[k])@ == calls_view[k].1,
                    parts_view(parts@) == lead + listed.take(i as int),
                decreases calls@.len() - i,
            {
                let ghost so_far = parts_view(parts@);
                let part = Part::FunctionCall {
                    name: calls[i].name.clone(),
                    args: read_call_args(calls[i].arguments.as_str()),
                    id: Some(calls[i].id.clone()),
                    thought_signature: None,
                };
                assert(calls@[i as int]@ == calls_view[i as int].1);
                assert(part@ =~= call_part(calls_view[i as int].1));
                parts.push(part);
                assert(parts_view(parts@) =~= so_far.push(listed[i as int]));
                assert(parts_view(parts@) =~= lead + listed.take(i + 1));
                i += 1;
            }
            assert(listed.take(i as int) =~= listed);
            self.held = Some(
                LlmResponse {
                    content: Some(Content { role: "model".to_owned(), parts }),
                    usage_metadata: usage,
                    finish_reason: Some(reason),
                    partial: false,
                    turn_complete: false,
                    interrupted: false,
                },
            );
            assert(self@ =~= end_turn(old(self)@, delta@, word@));
        } else {
            let content: Option<Content> = if empty_text(tail) {
                None
            } else {
                let parts: Vec<Part> = text_part(tail.to_owned());
                Some(Content { role: "model".to_owned(), parts })
            };
            self.held = Some(
                LlmResponse {
                    content,
                    usage_metadata: usage,
                    finish_reason: Some(reason),
                    partial: false,
                    turn_complete: true,
                    interrupted: false,
                },
            );
            assert(self@ =~= end_turn(old(self)@, delta@, word@));
        }
    }

    /// Acts on one chunk.
    pub fn on_chunk(&mut self, chunk: &Json) -> (outcome: Outcome)
        ensures
            (final(self)@, outcome@) == chunk_step(old(self)@, chunk@),
    {
        let mut responses: Vec<LlmResponse> = self.take_usage(chunk);
        let ghost s1 = self@;
        let ghost released = responses_view(responses@);
        let choice = match chunk.get("choices") {
            Some(choices) => match choices.at(0) {
                Some(c) => c,
                None => {
                    return Outcome { responses, text: None };
                },
            },
            None => {
                return Outcome { responses, text: None };
            },
        };
        let delta = match choice.get("delta") {
            Some(d) => d,
            None => {
                return Outcome { responses, text: None };
            },
        };
        add_delta_calls(&mut self.calls, delta);
        assert(self@ =~= (StreamView { calls: with_delta_calls(s1.calls, delta@), ..s1 }));
        match read_str(choice, "finish_reason") {
            Some(word) => {
                self.end_turn(delta, word);
                return Outcome { responses, text: None };
            },
            None => {},
        }
        let reasoning: &str = match delta.get("reasoning_content") {
            Some(_) => read_str_or_empty(delta, "reasoning_content"),
            None => read_str_or_empty(delta, "reasoning"),
        };
        if !empty_text(reasoning) {
            let part = Part::Thinking { thinking: reasoning.to_owned(), signature: None };
            let response: LlmResponse = single_part_response(part, true);
            responses.push(response);
        }
        assert(responses_view(responses@) =~= released + delta_outcome(delta@).responses);
        let content: &str = read_str_or_empty(delta, "content");
        let text: Option<String> = if empty_text(content) {
            None
        } else {
            Some(content.to_owned())
        };
        Outcome { responses, text }
    }

    /// Takes the parts that text was found to consist of, and hands them out.
    pub fn on_parts(&mut self, parts: Vec<Part>) -> (responses: Vec<LlmResponse>)
        ensures
            responses_view(responses@) == emitted(parts_view(parts@)),
            final(self)@ == (StreamView {
                text: old(self)@.text + text_of(parts_view(parts@)),
                ..old(self)@
            }),
    {
        let ghost all = parts_view(parts@);
        let ghost before = self@;
        let ghost given = parts@;
        let mut remaining: Vec<Part> = parts;
        let mut responses: Vec<LlmResponse> = Vec::new();
        assert(all.take(0) =~= Seq::<PartView>::empty());
        assert(before.text + Seq::<char>::empty() =~= before.text);
        assert(self@ =~= (StreamView { text: before.text + text_of(all.take(0)), ..before }));
        while remaining.len() > 0
            invariant
                all == parts_view(given),
                responses@.len() + remaining@.len() == given.len(),
                remaining@ == given.skip(responses@.len() as int),
                responses_view(responses@) == emitted(all.take(responses@.len() as int)),
                self@ == (StreamView {
                    text: before.text + text_of(all.take(responses@.len() as int)),
                    ..before
                }),
            decreases remaining@.len(),
        {
            let ghost n = responses@.len() as int;
            let ghost shown = responses_view(responses@);
            let part: Part = remaining.remove(0);
            let ghost now = self@;
            proof {
                assert(part@ == all[n]);
                assert(all.take(n + 1).drop_last() =~= all.take(n));
                assert(all.take(n + 1).last() == part@);
            }
            let is_call: bool = part.is_call();
            match &part {
                Part::Text { text } => {
                    self.text.append(text.as_str());
                },
                _ => {},
            }
            assert(self@ =~= (StreamView {
                text: before.text + text_of(all.take(n + 1)),
                ..before
            }));
            let ghost view = part@;
            let response: LlmResponse = single_part_response(part, !is_call);
            responses.push(response);
            assert(responses_view(responses@) =~= shown.push(single_part(view, !view.is_call())));
            assert(responses_view(responses@) =~= emitted(all.take(n + 1)));
            assert(remaining@ =~= given.skip(n + 1));
        }
        assert(all.take(all.len() as int) =~= all);
        responses
    }

    /// Hands out the parts that were left to look through when the stream ended.
    pub fn on_leftover_parts(&self, parts: Vec<Part>) -> (responses: Vec<LlmResponse>)
        ensures
            responses_view(responses@) == leftovers(parts_view(parts@)),
    {
        let ghost all = parts_view(parts@);
        let ghost given = parts@;
        let mut remaining: Vec<Part> = parts;
        let mut responses: Vec<LlmResponse> = Vec::new();
        while remaining.len() > 0
            invariant
                all == parts_view(given),
                responses@.len() + remaining@.len() == given.len(),
                remaining@ == given.skip(responses@.len() as int),
                forall|k: int|
                    0 <= k < responses@.len() ==> (#[trigger] responses@[k])@ == leftover(all[k]),
            decreases remaining@.len(),
        {
            let ghost n = responses@.len() as int;
            let part: Part = remaining.remove(0);
            let is_call: bool = part.is_call();
            assert(part@ == all[n]);
            let mut response: LlmResponse = single_part_response(part, !is_call);
            if is_call {
                response.finish_reason = Some(FinishReason::Stop);
                response.turn_complete = true;
            }
            assert(response@ =~= leftover(all[n]));
            responses.push(response);
            assert(remaining@ =~= given.skip(n + 1));
        }
        assert(responses_view(responses@) =~= leftovers(all));
        responses
    }
}

} // verus!
