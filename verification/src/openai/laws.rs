//! What holds of a streamed completion as a whole.

use crate::json::{parsed, JsonView};
use crate::llm::{
    single_part, ContentView, FinishReason, PartView, ResponseView, UsageMetadata,
};
use crate::openai::stream::{
    call_parts, choice_delta, chunk_step, delta_outcome, delta_reasoning, delta_text, emitted,
    finish_reason_of, finish_word, larger, leftovers, line_step, release, stream_start, take_usage,
    text_of, text_parts, with_delta_calls, with_fragments, with_usage, StreamView,
};
use crate::openai::usage::chunk_usage;
use crate::sse::{
    all_utf8, body_of, law_reads_may_be_cut_anywhere, lemma_line_end, line_end, line_fold, lines,
    read_fold, rest,
};
use crate::text::trimmed;
use crate::tool_calls::{call_at, law_set_then_call_at, lemma_with_call_rising, rising, CallView};
use vstd::prelude::*;
use vstd::utf8::*;

verus! {

// ---------------------------------------------------------------------
// The response that ends a turn
// ---------------------------------------------------------------------

/// Several chunks, one after the other: what is remembered after them, and the
/// responses that they led to.
pub open spec fn chunk_run(s: StreamView, chunks: Seq<JsonView>) -> (StreamView, Seq<ResponseView>)
    decreases chunks.len(),
{
    if chunks.len() == 0 {
        (s, Seq::empty())
    } else {
        let (before, sent) = chunk_run(s, chunks.drop_last());
        let (after, outcome) = chunk_step(before, chunks.last());
        (after, sent + outcome.responses)
    }
}

/// The responses that are not partial.
pub open spec fn settled(responses: Seq<ResponseView>) -> Seq<ResponseView>
    decreases responses.len(),
{
    if responses.len() == 0 {
        Seq::empty()
    } else if responses.last().partial {
        settled(responses.drop_last())
    } else {
        settled(responses.drop_last()).push(responses.last())
    }
}

/// The first token counts on any of the chunks.
pub open spec fn first_usage(chunks: Seq<JsonView>) -> Option<UsageMetadata>
    decreases chunks.len(),
{
    if chunks.len() == 0 {
        None
    } else if first_usage(chunks.drop_last()) is Some {
        first_usage(chunks.drop_last())
    } else {
        chunk_usage(chunks.last())
    }
}

/// None of the chunks ends a turn.
pub open spec fn none_ends(chunks: Seq<JsonView>) -> bool {
    forall|i: int| 0 <= i < chunks.len() ==> finish_word(#[trigger] chunks[i]) is None
}

proof fn lemma_settled_add(a: Seq<ResponseView>, b: Seq<ResponseView>)
    ensures
        settled(a + b) == settled(a) + settled(b),
    decreases b.len(),
{
    if b.len() == 0 {
        assert(a + b =~= a);
        assert(settled(a) + settled(b) =~= settled(a));
    } else {
        assert((a + b).drop_last() =~= a + b.drop_last());
        lemma_settled_add(a, b.drop_last());
        if !b.last().partial {
            assert(settled(a) + settled(b) =~= (settled(a) + settled(b.drop_last())).push(
                b.last(),
            ));
        }
    }
}

proof fn lemma_settled_one(r: ResponseView)
    ensures
        settled(seq![r]) == (if r.partial {
            Seq::empty()
        } else {
            seq![r]
        }),
{
    assert(seq![r].drop_last() =~= Seq::<ResponseView>::empty());
    assert(settled(seq![r].drop_last()) =~= Seq::<ResponseView>::empty());
    assert(Seq::<ResponseView>::empty().push(r) =~= seq![r]);
}

proof fn lemma_delta_is_partial(delta: JsonView)
    ensures
        settled(delta_outcome(delta).responses) == Seq::<ResponseView>::empty(),
{
    if delta_reasoning(delta).len() > 0 {
        lemma_settled_one(
            single_part(
                PartView::Thinking { thinking: delta_reasoning(delta), signature: None },
                true,
            ),
        );
    }
}

/// Once a turn has ended, its response is handed out exactly once: when token
/// counts arrive, which it then carries, or at the end of the stream at the
/// latest, whatever chunks come between.
pub proof fn law_final_goes_out_once(s: StreamView, h: ResponseView, chunks: Seq<JsonView>)
    requires
        s.held == Some(h),
        s.pending is None,
        !h.partial,
        none_ends(chunks),
    ensures
        ({
            let (after, sent) = chunk_run(s, chunks);
            settled(sent + release(after).1) == seq![with_usage(h, first_usage(chunks))]
        }),
{
    lemma_final_goes_out_once(s, h, chunks);
    let (after, sent) = chunk_run(s, chunks);
    lemma_settled_add(sent, release(after).1);
    if first_usage(chunks) is Some {
        assert(settled(sent) + settled(release(after).1) =~= settled(sent));
    } else {
        lemma_settled_one(with_usage(h, None));
        assert(settled(sent) + settled(release(after).1) =~= settled(release(after).1));
    }
}

proof fn lemma_final_goes_out_once(s: StreamView, h: ResponseView, chunks: Seq<JsonView>)
    requires
        s.held == Some(h),
        s.pending is None,
        !h.partial,
        none_ends(chunks),
    ensures
        ({
            let (after, sent) = chunk_run(s, chunks);
            if first_usage(chunks) is Some {
                after.held is None && settled(sent) == seq![with_usage(h, first_usage(chunks))]
            } else {
                after.held == Some(h) && after.pending is None && settled(sent) == Seq::<
                    ResponseView,
                >::empty()
            }
        }),
    decreases chunks.len(),
{
    if chunks.len() > 0 {
        let less = chunks.drop_last();
        assert(none_ends(less)) by {
            assert forall|i: int| 0 <= i < less.len() implies finish_word(#[trigger] less[i])
                is None by {
                assert(less[i] == chunks[i]);
            }
        }
        lemma_final_goes_out_once(s, h, less);
        let chunk = chunks.last();
        assert(finish_word(chunks[chunks.len() - 1]) is None);
        let (before, sent) = chunk_run(s, less);
        let (s1, released) = take_usage(before, chunk);
        let (after, outcome) = chunk_step(before, chunk);
        match choice_delta(chunk) {
            Some(delta) => {
                lemma_delta_is_partial(delta);
                lemma_settled_add(released, delta_outcome(delta).responses);
                assert(settled(outcome.responses) =~= settled(released));
            },
            None => {},
        }
        lemma_settled_add(sent, outcome.responses);
        if first_usage(less) is Some {
            assert(settled(released) =~= Seq::<ResponseView>::empty());
            assert(settled(sent) + settled(outcome.responses) =~= settled(sent));
        } else if chunk_usage(chunk) is Some {
            assert(larger(before.pending, chunk_usage(chunk)->Some_0) == chunk_usage(
                chunk,
            )->Some_0);
            lemma_settled_one(with_usage(h, chunk_usage(chunk)));
            assert(settled(sent) + settled(outcome.responses) =~= settled(released));
        } else {
            assert(settled(sent) + settled(outcome.responses) =~= Seq::<ResponseView>::empty());
        }
    }
}

/// A turn that ends has its response held, neither partial nor sent; counts on
/// that chunk or before it are the response's own, unless they went out with
/// an earlier one.
pub proof fn law_an_ended_turn_is_held(s: StreamView, chunk: JsonView)
    requires
        finish_word(chunk) is Some,
    ensures
        chunk_step(s, chunk).0.held matches Some(h) && !h.partial && h.usage_metadata
            == take_usage(s, chunk).0.pending,
        chunk_step(s, chunk).0.pending is None,
        s.held is None ==> chunk_step(s, chunk).1.responses == Seq::<ResponseView>::empty(),
{
}

/// The counts that are kept never shrink, and are no smaller than those on any
/// chunk.
pub proof fn law_kept_counts_never_shrink(s: StreamView, chunk: JsonView)
    requires
        s.held is None,
        finish_word(chunk) is None,
    ensures
        ({
            let after = chunk_step(s, chunk).0.pending;
            &&& s.pending matches Some(p) ==> (after matches Some(q) && q.total_token_count
                >= p.total_token_count)
            &&& chunk_usage(chunk) matches Some(u) ==> (after matches Some(q)
                && q.total_token_count >= u.total_token_count)
        }),
{
}

// ---------------------------------------------------------------------
// The text of a turn
// ---------------------------------------------------------------------

/// Something that happens while a reply is streamed: a chunk arrives, or text
/// has been looked through.
#[verifier::ext_equal]
pub enum StreamEvent {
    Chunk(JsonView),
    Parts(Seq<PartView>),
}

pub open spec fn event_step(s: StreamView, event: StreamEvent) -> (StreamView, Seq<ResponseView>) {
    match event {
        StreamEvent::Chunk(chunk) => {
            let (after, outcome) = chunk_step(s, chunk);
            (after, outcome.responses)
        },
        StreamEvent::Parts(parts) => (
            StreamView { text: s.text + text_of(parts), ..s },
            emitted(parts),
        ),
    }
}

pub open spec fn event_run(s: StreamView, events: Seq<StreamEvent>) -> (
    StreamView,
    Seq<ResponseView>,
)
    decreases events.len(),
{
    if events.len() == 0 {
        (s, Seq::empty())
    } else {
        let (before, sent) = event_run(s, events.drop_last());
        let (after, more) = event_step(before, events.last());
        (after, sent + more)
    }
}

/// The text that a partial response carries.
pub open spec fn partial_text(r: ResponseView) -> Seq<char> {
    if r.partial {
        match r.content {
            Some(c) => text_of(c.parts),
            None => Seq::empty(),
        }
    } else {
        Seq::empty()
    }
}

/// The text that partial responses carry, in order.
pub open spec fn streamed_text(responses: Seq<ResponseView>) -> Seq<char>
    decreases responses.len(),
{
    if responses.len() == 0 {
        Seq::empty()
    } else {
        streamed_text(responses.drop_last()) + partial_text(responses.last())
    }
}

/// No chunk among the events ends a turn.
pub open spec fn no_event_ends(events: Seq<StreamEvent>) -> bool {
    forall|i: int|
        0 <= i < events.len() ==> ((#[trigger] events[i]) matches StreamEvent::Chunk(chunk)
            ==> finish_word(chunk) is None)
}

proof fn lemma_streamed_add(a: Seq<ResponseView>, b: Seq<ResponseView>)
    ensures
        streamed_text(a + b) == streamed_text(a) + streamed_text(b),
    decreases b.len(),
{
    if b.len() == 0 {
        assert(a + b =~= a);
        assert(streamed_text(a) + streamed_text(b) =~= streamed_text(a));
    } else {
        assert((a + b).drop_last() =~= a + b.drop_last());
        lemma_streamed_add(a, b.drop_last());
        assert(streamed_text(a + b) =~= streamed_text(a) + streamed_text(b));
    }
}

proof fn lemma_one_part(part: PartView)
    ensures
        text_of(seq![part]) == (match part {
            PartView::Text { text } => text,
            _ => Seq::empty(),
        }),
{
    assert(seq![part].drop_last() =~= Seq::<PartView>::empty());
    assert(text_of(seq![part].drop_last()) =~= Seq::<char>::empty());
    let text = match part {
        PartView::Text { text } => text,
        _ => Seq::empty(),
    };
    assert(Seq::<char>::empty() + text =~= text);
}

proof fn lemma_streamed_one(r: ResponseView)
    ensures
        streamed_text(seq![r]) == partial_text(r),
{
    assert(seq![r].drop_last() =~= Seq::<ResponseView>::empty());
    assert(streamed_text(seq![r].drop_last()) =~= Seq::<char>::empty());
    assert(Seq::<char>::empty() + partial_text(r) =~= partial_text(r));
}

proof fn lemma_emitted_text(parts: Seq<PartView>)
    ensures
        streamed_text(emitted(parts)) == text_of(parts),
    decreases parts.len(),
{
    if parts.len() > 0 {
        let less = parts.drop_last();
        lemma_emitted_text(less);
        assert(emitted(parts).drop_last() =~= emitted(less));
        lemma_one_part(parts.last());
        assert(emitted(parts).last() == single_part(parts.last(), !parts.last().is_call()));
        assert(single_part(parts.last(), !parts.last().is_call()).content->Some_0.parts =~= seq![
            parts.last(),
        ]);
    }
}

proof fn lemma_chunk_text(s: StreamView, chunk: JsonView)
    requires
        finish_word(chunk) is None,
        s.held matches Some(h) ==> !h.partial,
    ensures
        streamed_text(chunk_step(s, chunk).1.responses) == Seq::<char>::empty(),
        chunk_step(s, chunk).0.text == s.text,
        chunk_step(s, chunk).0.held matches Some(h) ==> !h.partial,
{
    let (s1, released) = take_usage(s, chunk);
    assert(streamed_text(released) =~= Seq::<char>::empty()) by {
        if s.held is Some && chunk_usage(chunk) is Some {
            lemma_streamed_one(
                with_usage(s.held->Some_0, Some(larger(s.pending, chunk_usage(chunk)->Some_0))),
            );
        }
    }
    match choice_delta(chunk) {
        Some(delta) => {
            let more = delta_outcome(delta).responses;
            assert(streamed_text(more) =~= Seq::<char>::empty()) by {
                if delta_reasoning(delta).len() > 0 {
                    let part = PartView::Thinking {
                        thinking: delta_reasoning(delta),
                        signature: None,
                    };
                    lemma_streamed_one(single_part(part, true));
                    lemma_one_part(part);
                }
            }
            lemma_streamed_add(released, more);
            assert(Seq::<char>::empty() + Seq::<char>::empty() =~= Seq::<char>::empty());
        },
        None => {},
    }
}

/// While a turn goes on, the text that is remembered is the text that has been
/// handed out, no more and no less.
pub proof fn law_remembered_text_is_what_was_streamed(s: StreamView, events: Seq<StreamEvent>)
    requires
        no_event_ends(events),
        s.held matches Some(h) ==> !h.partial,
    ensures
        event_run(s, events).0.text == s.text + streamed_text(event_run(s, events).1),
        event_run(s, events).0.held matches Some(h) ==> !h.partial,
    decreases events.len(),
{
    if events.len() == 0 {
        assert(s.text + Seq::<char>::empty() =~= s.text);
    } else {
        let less = events.drop_last();
        assert(no_event_ends(less)) by {
            assert forall|i: int| 0 <= i < less.len() implies ((
            #[trigger] less[i]) matches StreamEvent::Chunk(chunk) ==> finish_word(chunk)
                is None) by {
                assert(less[i] == events[i]);
            }
        }
        law_remembered_text_is_what_was_streamed(s, less);
        let (before, sent) = event_run(s, less);
        let (after, more) = event_step(before, events.last());
        lemma_streamed_add(sent, more);
        match events[events.len() - 1] {
            StreamEvent::Chunk(chunk) => {
                lemma_chunk_text(before, chunk);
                assert(s.text + (streamed_text(sent) + Seq::<char>::empty()) =~= s.text
                    + streamed_text(sent));
            },
            StreamEvent::Parts(parts) => {
                lemma_emitted_text(parts);
                assert(s.text + (streamed_text(sent) + text_of(parts)) =~= (s.text
                    + streamed_text(sent)) + text_of(parts));
            },
        }
    }
}

/// A turn that ends in tool calls restates the text that was streamed in it,
/// with what the last chunk adds, as one part ahead of the calls; the calls
/// come in the order of their index, and the turn stays open.
pub proof fn law_tool_call_final_restates_the_text(
    s: StreamView,
    events: Seq<StreamEvent>,
    chunk: JsonView,
)
    requires
        s.text.len() == 0,
        s.held is None,
        no_event_ends(events),
        finish_word(chunk) is Some,
        with_delta_calls(
            take_usage(event_run(s, events).0, chunk).0.calls,
            choice_delta(chunk)->Some_0,
        ).len() > 0,
    ensures
        ({
            let streamed = streamed_text(event_run(s, events).1) + delta_text(
                choice_delta(chunk)->Some_0,
            );
            let calls = with_delta_calls(
                take_usage(event_run(s, events).0, chunk).0.calls,
                choice_delta(chunk)->Some_0,
            );
            &&& chunk_step(event_run(s, events).0, chunk).0.held matches Some(h)
            &&& h.content matches Some(c)
            &&& c.parts == text_parts(streamed) + call_parts(calls)
            &&& !h.turn_complete
        }),
{
    law_remembered_text_is_what_was_streamed(s, events);
    let before = event_run(s, events).0;
    assert(s.text + streamed_text(event_run(s, events).1) =~= streamed_text(
        event_run(s, events).1,
    ));
}

/// Fragments keep the calls in the order of their index.
pub proof fn law_calls_stay_in_order(calls: Seq<(u32, CallView)>, delta: JsonView)
    requires
        rising(calls),
    ensures
        rising(with_delta_calls(calls, delta)),
{
    match delta.get("tool_calls"@) {
        Some(JsonView::Array(fragments)) => {
            lemma_fragments_in_order(calls, fragments);
        },
        _ => {},
    }
}

proof fn lemma_fragments_in_order(calls: Seq<(u32, CallView)>, fragments: Seq<JsonView>)
    requires
        rising(calls),
    ensures
        rising(with_fragments(calls, fragments)),
    decreases fragments.len(),
{
    if fragments.len() > 0 {
        lemma_fragments_in_order(calls, fragments.drop_last());
        let before = with_fragments(calls, fragments.drop_last());
        let fragment = fragments.last();
        let index = crate::openai::stream::fragment_index(fragment);
        lemma_with_call_rising(
            before,
            index,
            crate::openai::stream::extended(crate::tool_calls::call_at(before, index), fragment),
        );
    }
}

// ---------------------------------------------------------------------
// A reply as a whole
// ---------------------------------------------------------------------

/// A reply that is being streamed: what the decoder remembers, the texts that
/// have been handed over to be looked through, and the responses that have gone
/// out.
#[verifier::ext_equal]
pub struct ReplyView {
    pub stream: StreamView,
    pub given: Seq<Seq<char>>,
    pub sent: Seq<ResponseView>,
}

/// A line is acted on. `find` tells which parts are found once some texts have
/// been handed over, when the last of them is looked through.
pub open spec fn reply_line(
    find: spec_fn(Seq<Seq<char>>) -> Seq<PartView>,
    r: ReplyView,
    line: Seq<char>,
) -> ReplyView {
    let (after, outcome) = line_step(r.stream, line);
    match outcome.text {
        Some(text) => {
            let given = r.given.push(text);
            ReplyView {
                stream: StreamView { text: after.text + text_of(find(given)), ..after },
                given,
                sent: r.sent + outcome.responses + emitted(find(given)),
            }
        },
        None => ReplyView { stream: after, given: r.given, sent: r.sent + outcome.responses },
    }
}

pub open spec fn with_unread(r: ReplyView, unread: Seq<char>) -> ReplyView {
    ReplyView { stream: StreamView { unread, ..r.stream }, ..r }
}

/// A line that is acted on does not touch what is still unread.
pub proof fn lemma_line_leaves_unread(
    find: spec_fn(Seq<Seq<char>>) -> Seq<PartView>,
    r: ReplyView,
    line: Seq<char>,
    unread: Seq<char>,
)
    ensures
        reply_line(find, with_unread(r, unread), line) == with_unread(
            reply_line(find, r, line),
            unread,
        ),
{
    assert(reply_line(find, with_unread(r, unread), line) =~= with_unread(
        reply_line(find, r, line),
        unread,
    ));
}

/// All complete lines are acted on.
pub open spec fn reply_lines(find: spec_fn(Seq<Seq<char>>) -> Seq<PartView>, r: ReplyView) -> ReplyView
    decreases r.stream.unread.len(),
{
    let unread = r.stream.unread;
    if line_end(unread) < unread.len() {
        let end: int = line_end(unread) as int;
        let next = reply_line(
            find,
            with_unread(r, unread.skip(end + 1)),
            trimmed(unread.take(end)),
        );
        proof {
            lemma_line_leaves_unread(find, r, trimmed(unread.take(end)), unread.skip(end + 1));
        }
        reply_lines(find, next)
    } else {
        r
    }
}

/// Reads of a body are taken one after the other, from the start of a stream.
pub open spec fn reply_reads(
    find: spec_fn(Seq<Seq<char>>) -> Seq<PartView>,
    reads: Seq<Seq<u8>>,
) -> ReplyView
    decreases reads.len(),
{
    if reads.len() == 0 {
        ReplyView { stream: stream_start(), given: Seq::empty(), sent: Seq::empty() }
    } else {
        let before = reply_reads(find, reads.drop_last());
        reply_lines(
            find,
            with_unread(before, before.stream.unread + decode_utf8(reads.last())),
        )
    }
}

/// All responses to a body that has come to its end. `flush` tells which parts
/// are left to be found at the end, once some texts have been handed over.
pub open spec fn whole_reply(
    find: spec_fn(Seq<Seq<char>>) -> Seq<PartView>,
    flush: spec_fn(Seq<Seq<char>>) -> Seq<PartView>,
    reads: Seq<Seq<u8>>,
) -> Seq<ResponseView> {
    let r = reply_reads(find, reads);
    r.sent + release(r.stream).1 + leftovers(flush(r.given))
}

spec fn reply_step(find: spec_fn(Seq<Seq<char>>) -> Seq<PartView>) -> spec_fn(
    ReplyView,
    Seq<char>,
) -> ReplyView {
    |r: ReplyView, line: Seq<char>| reply_line(find, r, line)
}

proof fn lemma_reply_lines(
    find: spec_fn(Seq<Seq<char>>) -> Seq<PartView>,
    r: ReplyView,
    unread: Seq<char>,
)
    ensures
        reply_lines(find, with_unread(r, unread)) == with_unread(
            line_fold(reply_step(find), r, lines(unread)),
            rest(unread),
        ),
    decreases unread.len(),
{
    lemma_line_end(unread);
    let end: int = line_end(unread) as int;
    if end < unread.len() {
        let left = unread.skip(end + 1);
        let line = trimmed(unread.take(end));
        lemma_line_leaves_unread(find, r, line, left);
        assert(with_unread(with_unread(r, unread), left) =~= with_unread(r, left));
        lemma_reply_lines(find, reply_line(find, r, line), left);
        assert(lines(unread)[0] == line);
        assert(lines(unread).skip(1) =~= lines(left));
        assert(reply_step(find)(r, line) == reply_line(find, r, line));
    }
}

proof fn lemma_reply_reads(find: spec_fn(Seq<Seq<char>>) -> Seq<PartView>, reads: Seq<Seq<u8>>)
    ensures
        ({
            let start = reply_reads(find, Seq::empty());
            let (r, left) = read_fold(reply_step(find), start, reads);
            reply_reads(find, reads) == with_unread(r, left)
        }),
    decreases reads.len(),
{
    let start = reply_reads(find, Seq::empty());
    if reads.len() == 0 {
        assert(reads =~= Seq::<Seq<u8>>::empty());
        assert(with_unread(start, Seq::empty()) =~= start);
    } else {
        let less = reads.drop_last();
        lemma_reply_reads(find, less);
        let (r, left) = read_fold(reply_step(find), start, less);
        let text = left + decode_utf8(reads.last());
        assert(with_unread(with_unread(r, left), text) =~= with_unread(r, text));
        lemma_reply_lines(find, r, text);
    }
}

/// One body, cut into reads in two ways, leads to the same responses: they
/// depend on the body alone, as long as no cut falls within a character.
pub proof fn law_reply_depends_on_the_body_only(
    find: spec_fn(Seq<Seq<char>>) -> Seq<PartView>,
    flush: spec_fn(Seq<Seq<char>>) -> Seq<PartView>,
    a: Seq<Seq<u8>>,
    b: Seq<Seq<u8>>,
)
    requires
        all_utf8(a),
        all_utf8(b),
        body_of(a) == body_of(b),
    ensures
        reply_reads(find, a) == reply_reads(find, b),
        whole_reply(find, flush, a) == whole_reply(find, flush, b),
{
    lemma_reply_reads(find, a);
    lemma_reply_reads(find, b);
    law_reads_may_be_cut_anywhere(reply_step(find), reply_reads(find, Seq::empty()), a, b);
}

// ---------------------------------------------------------------------
// What a chunk says, and what comes of it
// ---------------------------------------------------------------------

/// The chunk's first choice, and what it adds to the reply.
pub open spec fn has_choice(chunk: JsonView, choice: JsonView, delta: JsonView) -> bool {
    &&& chunk.get("choices"@) matches Some(JsonView::Array(choices)) && choices.len() > 0
        && choices[0] == choice
    &&& choice.get("delta"@) == Some(delta)
}

/// The string under a name, where there is one.
pub open spec fn string_at(object: JsonView, name: Seq<char>) -> Option<Seq<char>> {
    match object.get(name) {
        Some(JsonView::Str(s)) => Some(s),
        _ => None,
    }
}

/// The string under a name; empty where there is none.
pub open spec fn string_or_empty(object: JsonView, name: Seq<char>) -> Seq<char> {
    match object.get(name) {
        Some(JsonView::Str(s)) => s,
        _ => Seq::empty(),
    }
}

/// A response ahead of the turn's end that carries one part.
pub open spec fn piece(part: PartView, partial: bool) -> ResponseView {
    ResponseView {
        content: Some(ContentView { role: "model"@, parts: seq![part] }),
        usage_metadata: None,
        finish_reason: None,
        partial,
        turn_complete: false,
        interrupted: false,
    }
}

/// While a turn goes on, the string under `content` is handed on character for
/// character, where it is not empty, and nothing else is.
pub proof fn law_content_is_handed_on_as_it_is(
    s: StreamView,
    chunk: JsonView,
    choice: JsonView,
    delta: JsonView,
)
    requires
        has_choice(chunk, choice, delta),
        string_at(choice, "finish_reason"@) is None,
    ensures
        chunk_step(s, chunk).1.text == (match string_at(delta, "content"@) {
            Some(t) => if t.len() > 0 {
                Some(t)
            } else {
                None
            },
            None => None,
        }),
{
}

/// While a turn goes on, reasoning goes out at once, character for character,
/// as the last of the responses. It stands under `reasoning_content`, or else
/// under `reasoning`. Without any, nothing goes out but what waited for counts.
pub proof fn law_reasoning_goes_out_as_it_is(
    s: StreamView,
    chunk: JsonView,
    choice: JsonView,
    delta: JsonView,
    thinking: Seq<char>,
)
    requires
        has_choice(chunk, choice, delta),
        string_at(choice, "finish_reason"@) is None,
        thinking == if delta.get("reasoning_content"@) is Some {
            string_or_empty(delta, "reasoning_content"@)
        } else {
            string_or_empty(delta, "reasoning"@)
        },
    ensures
        ({
            let sent = chunk_step(s, chunk).1.responses;
            let waited = s.held is Some && chunk_usage(chunk) is Some;
            let count: nat = if waited {
                1
            } else {
                0
            };
            if thinking.len() > 0 {
                &&& sent.len() == count + 1
                &&& sent.last() == piece(PartView::Thinking { thinking, signature: None }, true)
            } else {
                sent.len() == count
            }
        }),
{
    let expected = piece(PartView::Thinking { thinking, signature: None }, true);
    if thinking.len() > 0 {
        assert(chunk_step(s, chunk).1.responses.last().content->Some_0.parts
            =~= expected.content->Some_0.parts);
    }
}

/// A chunk that does not end the turn leaves alone what has been remembered:
/// the text, and the unread text. One without a choice leads to nothing beyond
/// what its counts release, and leaves the tool calls alone too.
pub proof fn law_a_chunk_forgets_nothing(s: StreamView, chunk: JsonView)
    ensures
        chunk_step(s, chunk).0.unread == s.unread,
        (forall|choice: JsonView, delta: JsonView| #[trigger]
            has_choice(chunk, choice, delta) ==> string_at(choice, "finish_reason"@) is None)
            ==> chunk_step(s, chunk).0.text == s.text,
        (forall|choice: JsonView, delta: JsonView| !#[trigger] has_choice(chunk, choice, delta))
            ==> {
            &&& chunk_step(s, chunk).1.text is None
            &&& chunk_step(s, chunk).0.calls == s.calls
            &&& chunk_step(s, chunk).0.text == s.text
            &&& chunk_usage(chunk) is None ==> chunk_step(s, chunk).0 == s && chunk_step(
                s,
                chunk,
            ).1.responses.len() == 0
        },
{
    if choice_delta(chunk) is Some {
        let choice = chunk.get("choices"@)->Some_0->Array_0[0];
        assert(has_choice(chunk, choice, choice_delta(chunk)->Some_0));
    }
}

/// The text that a chunk brings, where it does not end the turn.
pub open spec fn content_in(chunk: JsonView) -> Seq<char> {
    match chunk.get("choices"@) {
        Some(JsonView::Array(choices)) => if choices.len() > 0 {
            match choices[0].get("delta"@) {
                Some(delta) => string_or_empty(delta, "content"@),
                None => Seq::empty(),
            }
        } else {
            Seq::empty()
        },
        _ => Seq::empty(),
    }
}

/// The contents of chunks, joined.
pub open spec fn contents_in(chunks: Seq<JsonView>) -> Seq<char>
    decreases chunks.len(),
{
    if chunks.len() == 0 {
        Seq::empty()
    } else {
        contents_in(chunks.drop_last()) + content_in(chunks.last())
    }
}

/// The texts that chunks hand on one after the other, joined.
pub open spec fn handed_on(s: StreamView, chunks: Seq<JsonView>) -> Seq<char>
    decreases chunks.len(),
{
    if chunks.len() == 0 {
        Seq::empty()
    } else {
        handed_on(s, chunks.drop_last()) + match chunk_step(
            chunk_run(s, chunks.drop_last()).0,
            chunks.last(),
        ).1.text {
            Some(t) => t,
            None => Seq::empty(),
        }
    }
}

/// Over a turn, the texts handed on, joined, are the contents of its chunks,
/// joined: no character is added, lost or moved.
pub proof fn law_streamed_text_is_the_contents(s: StreamView, chunks: Seq<JsonView>)
    requires
        forall|i: int, choice: JsonView, delta: JsonView|
            0 <= i < chunks.len() && #[trigger] has_choice(chunks[i], choice, delta) ==> string_at(
                choice,
                "finish_reason"@,
            ) is None,
    ensures
        handed_on(s, chunks) == contents_in(chunks),
    decreases chunks.len(),
{
    if chunks.len() > 0 {
        let less = chunks.drop_last();
        let chunk = chunks.last();
        assert forall|i: int, choice: JsonView, delta: JsonView|
            0 <= i < less.len() && #[trigger] has_choice(less[i], choice, delta) implies string_at(
            choice,
            "finish_reason"@,
        ) is None by {
            assert(has_choice(chunks[i], choice, delta));
        }
        law_streamed_text_is_the_contents(s, less);
        let before = chunk_run(s, less).0;
        if choice_delta(chunk) is Some {
            let choice = chunk.get("choices"@)->Some_0->Array_0[0];
            let delta = choice_delta(chunk)->Some_0;
            assert(has_choice(chunks[chunks.len() - 1], choice, delta));
            law_content_is_handed_on_as_it_is(before, chunk, choice, delta);
        }
        assert(handed_on(s, chunks) =~= contents_in(chunks));
    }
}

// ---------------------------------------------------------------------
// Tool calls
// ---------------------------------------------------------------------

/// A fragment belongs to the call with that index: the index it names, of
/// which the low 32 bits count, or zero where it names none.
pub open spec fn belongs_to(fragment: JsonView, index: u32) -> bool {
    match fragment.get("index"@) {
        Some(JsonView::Int(n)) => if 0 <= n <= u64::MAX {
            (n - index) % 0x1_0000_0000 == 0
        } else {
            index == 0
        },
        _ => index == 0,
    }
}

/// The arguments text of a fragment.
pub open spec fn arguments_in(fragment: JsonView) -> Seq<char> {
    match fragment.get("function"@) {
        Some(f) => string_or_empty(f, "arguments"@),
        None => Seq::empty(),
    }
}

/// The name in a fragment, where it has one.
pub open spec fn name_in(fragment: JsonView) -> Option<Seq<char>> {
    match fragment.get("function"@) {
        Some(f) => string_at(f, "name"@),
        None => None,
    }
}

/// The arguments texts of the fragments that belong to a call, joined in the
/// order of their arrival.
pub open spec fn joined_arguments(fragments: Seq<JsonView>, index: u32) -> Seq<char>
    decreases fragments.len(),
{
    if fragments.len() == 0 {
        Seq::empty()
    } else if belongs_to(fragments.last(), index) {
        joined_arguments(fragments.drop_last(), index) + arguments_in(fragments.last())
    } else {
        joined_arguments(fragments.drop_last(), index)
    }
}

/// The last name among the fragments that belong to a call, or else `first`.
pub open spec fn latest_name(
    fragments: Seq<JsonView>,
    index: u32,
    first: Seq<char>,
) -> Seq<char>
    decreases fragments.len(),
{
    if fragments.len() == 0 {
        first
    } else if belongs_to(fragments.last(), index) && name_in(fragments.last()) is Some {
        name_in(fragments.last())->Some_0
    } else {
        latest_name(fragments.drop_last(), index, first)
    }
}

/// The last identifier among the fragments that belong to a call that is not
/// empty, or else `first`.
pub open spec fn latest_id(fragments: Seq<JsonView>, index: u32, first: Seq<char>) -> Seq<char>
    decreases fragments.len(),
{
    if fragments.len() == 0 {
        first
    } else if belongs_to(fragments.last(), index) && string_or_empty(
        fragments.last(),
        "id"@,
    ).len() > 0 {
        string_or_empty(fragments.last(), "id"@)
    } else {
        latest_id(fragments.drop_last(), index, first)
    }
}

/// After any fragments, the call at an index is there where it was there before
/// or a fragment belongs to it. Its arguments are those that it had, followed
/// by those of its fragments, joined in the order of their arrival; its name
/// and its identifier are the last that came. Calls to which no fragment
/// belongs stay as they were.
pub proof fn law_a_call_is_the_sum_of_its_fragments(
    calls: Seq<(u32, CallView)>,
    fragments: Seq<JsonView>,
    index: u32,
)
    requires
        rising(calls),
    ensures
        ({
            let before = match call_at(calls, index) {
                Some(c) => c,
                None => CallView { id: Seq::empty(), name: Seq::empty(), arguments: Seq::empty() },
            };
            let touched = exists|i: int|
                0 <= i < fragments.len() && #[trigger] belongs_to(fragments[i], index);
            &&& call_at(with_fragments(calls, fragments), index) is Some <==> call_at(
                calls,
                index,
            ) is Some || touched
            &&& call_at(with_fragments(calls, fragments), index) matches Some(c) ==> {
                &&& c.arguments == before.arguments + joined_arguments(fragments, index)
                &&& c.name == latest_name(fragments, index, before.name)
                &&& c.id == latest_id(fragments, index, before.id)
            }
        }),
    decreases fragments.len(),
{
    let before = match call_at(calls, index) {
        Some(c) => c,
        None => CallView { id: Seq::empty(), name: Seq::empty(), arguments: Seq::empty() },
    };
    if fragments.len() == 0 {
        assert(before.arguments + Seq::<char>::empty() =~= before.arguments);
    } else {
        let less = fragments.drop_last();
        let fragment = fragments.last();
        law_a_call_is_the_sum_of_its_fragments(calls, less, index);
        lemma_fragments_in_order(calls, less);
        let so_far = with_fragments(calls, less);
        let at = crate::openai::stream::fragment_index(fragment);
        let call = crate::openai::stream::extended(call_at(so_far, at), fragment);
        law_set_then_call_at(so_far, at, call, index);
        assert(belongs_to(fragment, index) <==> at == index);
        assert(belongs_to(fragments[fragments.len() - 1], index) <==> at == index);
        assert forall|i: int| 0 <= i < less.len() && #[trigger] belongs_to(
            less[i],
            index,
        ) implies belongs_to(fragments[i], index) by {}
        if exists|i: int| 0 <= i < fragments.len() && #[trigger] belongs_to(fragments[i], index) {
            let i = choose|i: int|
                0 <= i < fragments.len() && #[trigger] belongs_to(fragments[i], index);
            if i < less.len() {
                assert(belongs_to(less[i], index));
            }
        }
        if at == index {
            let old_arguments = before.arguments + joined_arguments(less, index);
            if call_at(so_far, index) is None {
                lemma_untouched(less, index, before);
                assert(before.arguments + joined_arguments(fragments, index) =~= arguments_in(
                    fragment,
                ));
                assert(call.arguments =~= arguments_in(fragment));
            } else {
                assert(call.arguments =~= old_arguments + arguments_in(fragment));
                assert(before.arguments + joined_arguments(fragments, index) =~= old_arguments
                    + arguments_in(fragment));
            }
        }
    }
}

proof fn lemma_untouched(fragments: Seq<JsonView>, index: u32, first: CallView)
    requires
        forall|i: int| 0 <= i < fragments.len() ==> !#[trigger] belongs_to(fragments[i], index),
    ensures
        joined_arguments(fragments, index).len() == 0,
        latest_name(fragments, index, first.name) == first.name,
        latest_id(fragments, index, first.id) == first.id,
    decreases fragments.len(),
{
    if fragments.len() > 0 {
        let less = fragments.drop_last();
        assert(!belongs_to(fragments[fragments.len() - 1], index));
        assert forall|i: int| 0 <= i < less.len() implies !#[trigger] belongs_to(
            less[i],
            index,
        ) by {
            assert(!belongs_to(fragments[i], index));
        }
        lemma_untouched(less, index, first);
    }
}

/// The fragments of a chunk's delta, all of them and in order.
pub open spec fn fragments_in(delta: JsonView) -> Seq<JsonView> {
    match delta.get("tool_calls"@) {
        Some(JsonView::Array(fragments)) => fragments,
        _ => Seq::empty(),
    }
}

/// While a turn goes on, every fragment on a chunk is added to the calls.
pub proof fn law_every_fragment_is_added(
    s: StreamView,
    chunk: JsonView,
    choice: JsonView,
    delta: JsonView,
)
    requires
        has_choice(chunk, choice, delta),
        string_at(choice, "finish_reason"@) is None,
    ensures
        chunk_step(s, chunk).0.calls == with_fragments(s.calls, fragments_in(delta)),
{
}

// ---------------------------------------------------------------------
// The end of a turn
// ---------------------------------------------------------------------

/// The counts that are kept once a chunk has been looked at: of two, those with
/// the larger total. Counts that a response waited for have gone out with it.
pub open spec fn counts_after(s: StreamView, chunk: JsonView) -> Option<UsageMetadata> {
    match chunk_usage(chunk) {
        Some(now) => if s.held is Some {
            None
        } else {
            match s.pending {
                Some(before) => if before.total_token_count < now.total_token_count {
                    Some(now)
                } else {
                    Some(before)
                },
                None => Some(now),
            }
        },
        None => s.pending,
    }
}

/// The part that hands a tool call on.
pub open spec fn handed_call(call: CallView) -> PartView {
    PartView::FunctionCall {
        name: call.name,
        args: match parsed(call.arguments) {
            Some(v) => v,
            None => JsonView::Object(Seq::empty()),
        },
        id: Some(call.id),
        thought_signature: None,
    }
}

/// A chunk with a finish word ends the turn. Its response is held back, with the
/// reason and the counts that there are; nothing but a response held earlier
/// goes out, and no text is handed on.
///
/// With tool calls, the response carries the text of the turn, where there is
/// any, and behind it every call in order; the turn stays open, and both are
/// forgotten. Without, it carries the text of the last chunk, where there is
/// any, and the turn is complete.
pub proof fn law_how_a_turn_ends(
    s: StreamView,
    chunk: JsonView,
    choice: JsonView,
    delta: JsonView,
    word: Seq<char>,
)
    requires
        has_choice(chunk, choice, delta),
        string_at(choice, "finish_reason"@) == Some(word),
    ensures
        ({
            let (after, outcome) = chunk_step(s, chunk);
            let calls = with_fragments(s.calls, fragments_in(delta));
            let tail = string_or_empty(delta, "content"@);
            let text = s.text + tail;
            &&& outcome.text is None
            &&& outcome.responses.len() == (if s.held is Some && chunk_usage(chunk) is Some {
                1nat
            } else {
                0nat
            })
            &&& after.unread == s.unread
            &&& after.pending is None
            &&& after.calls.len() == 0
            &&& after.held matches Some(h)
            &&& !h.partial
            &&& !h.interrupted
            &&& h.usage_metadata == counts_after(s, chunk)
            &&& h.finish_reason == Some(
                if word == "length"@ {
                    FinishReason::MaxTokens
                } else if word == "content_filter"@ {
                    FinishReason::Safety
                } else {
                    FinishReason::Stop
                },
            )
            &&& if calls.len() > 0 {
                let lead: int = if text.len() > 0 {
                    1
                } else {
                    0
                };
                &&& !h.turn_complete
                &&& after.text.len() == 0
                &&& h.content matches Some(c)
                &&& c.role == "model"@
                &&& c.parts.len() == lead + calls.len()
                &&& lead == 1 ==> c.parts[0] == (PartView::Text { text })
                &&& forall|k: int|
                    0 <= k < calls.len() ==> #[trigger] c.parts[lead + k] == handed_call(calls[k].1)
            } else {
                &&& h.turn_complete
                &&& after.text == s.text
                &&& match h.content {
                    Some(c) => tail.len() > 0 && c.role == "model"@ && c.parts == seq![
                        PartView::Text { text: tail },
                    ],
                    None => tail.len() == 0,
                }
            }
        }),
{
    let (after, outcome) = chunk_step(s, chunk);
    let calls = with_fragments(s.calls, fragments_in(delta));
    assert(calls =~= with_delta_calls(take_usage(s, chunk).0.calls, delta));
    if calls.len() > 0 {
        let c = after.held->Some_0.content->Some_0;
        let lead: int = if (s.text + string_or_empty(delta, "content"@)).len() > 0 {
            1
        } else {
            0
        };
        assert forall|k: int| 0 <= k < calls.len() implies #[trigger] c.parts[lead + k]
            == handed_call(calls[k].1) by {
            assert(c.parts[lead + k] == call_parts(calls)[k]);
        }
    }
}

/// A held response goes out once, as it is, with the counts that are kept where
/// it has none of its own; then neither is kept. Without one nothing happens.
pub proof fn law_release_hands_out_the_held_response(s: StreamView)
    ensures
        match s.held {
            Some(h) => {
                let (after, sent) = release(s);
                &&& sent.len() == 1
                &&& sent[0] == (ResponseView {
                    usage_metadata: if h.usage_metadata is Some {
                        h.usage_metadata
                    } else {
                        s.pending
                    },
                    ..h
                })
                &&& after == (StreamView { held: None, pending: None, ..s })
            },
            None => release(s) == (s, Seq::<ResponseView>::empty()),
        },
{
}

/// Counts on a chunk release the response that waits for them, with the larger
/// of them and those that were kept, unless it has its own.
pub proof fn law_counts_release_the_held_response(s: StreamView, chunk: JsonView, h: ResponseView)
    requires
        s.held == Some(h),
    ensures
        match chunk_usage(chunk) {
            Some(now) => {
                let sent = chunk_step(s, chunk).1.responses;
                let kept = match s.pending {
                    Some(before) => if before.total_token_count < now.total_token_count {
                        now
                    } else {
                        before
                    },
                    None => now,
                };
                &&& sent.len() > 0
                &&& sent[0] == (ResponseView {
                    usage_metadata: if h.usage_metadata is Some {
                        h.usage_metadata
                    } else {
                        Some(kept)
                    },
                    ..h
                })
            },
            None => (forall|choice: JsonView, delta: JsonView| #[trigger]
                has_choice(chunk, choice, delta) ==> string_at(choice, "finish_reason"@) is None)
                ==> chunk_step(s, chunk).0.held == Some(h) && chunk_step(s, chunk).0.pending
                == s.pending,
        },
{
    if choice_delta(chunk) is Some {
        let choice = chunk.get("choices"@)->Some_0->Array_0[0];
        assert(has_choice(chunk, choice, choice_delta(chunk)->Some_0));
    }
}

/// Of the counts on chunks those with the largest total are kept while no
/// response waits for them, the earlier ones where two are equal.
pub proof fn law_the_larger_counts_are_kept(s: StreamView, chunk: JsonView)
    requires
        s.held is None,
        forall|choice: JsonView, delta: JsonView| #[trigger]
            has_choice(chunk, choice, delta) ==> string_at(choice, "finish_reason"@) is None,
    ensures
        chunk_step(s, chunk).0.pending == counts_after(s, chunk),
        chunk_step(s, chunk).0.held is None,
{
    if choice_delta(chunk) is Some {
        let choice = chunk.get("choices"@)->Some_0->Array_0[0];
        assert(has_choice(chunk, choice, choice_delta(chunk)->Some_0));
    }
}

// ---------------------------------------------------------------------
// Lines and parts
// ---------------------------------------------------------------------

/// A line with data is acted on as the chunk that the data reads as, and passed
/// over where it is not JSON; the end marker releases what is held; all other
/// lines are passed over.
pub proof fn law_what_a_line_leads_to(s: StreamView, line: Seq<char>, data: Seq<char>)
    ensures
        line == "data: "@ + data && data != "[DONE]"@ ==> match parsed(data) {
            Some(chunk) => line_step(s, line) == chunk_step(s, chunk),
            None => line_step(s, line).0 == s && line_step(s, line).1.responses.len() == 0
                && line_step(s, line).1.text is None,
        },
        line == "data: [DONE]"@ ==> line_step(s, line).0 == release(s).0 && line_step(
            s,
            line,
        ).1.responses == release(s).1 && line_step(s, line).1.text is None,
        (forall|d: Seq<char>| line != #[trigger] ("data: "@ + d)) ==> line_step(s, line).0 == s
            && line_step(s, line).1.responses.len() == 0 && line_step(s, line).1.text is None,
{
    crate::sse::law_lines_are_told_apart(line, data);
}

/// Text that has been looked through goes out part by part, in order: a tool
/// call as it is, anything else as a partial response.
pub proof fn law_parts_go_out_one_by_one(parts: Seq<PartView>)
    ensures
        emitted(parts).len() == parts.len(),
        forall|i: int|
            0 <= i < parts.len() ==> #[trigger] emitted(parts)[i] == piece(
                parts[i],
                !(parts[i] is FunctionCall),
            ),
        leftovers(parts).len() == parts.len(),
        forall|i: int|
            0 <= i < parts.len() ==> #[trigger] leftovers(parts)[i] == (ResponseView {
                finish_reason: if parts[i] is FunctionCall {
                    Some(FinishReason::Stop)
                } else {
                    None
                },
                turn_complete: parts[i] is FunctionCall,
                ..piece(parts[i], !(parts[i] is FunctionCall))
            }),
{
    assert forall|i: int| 0 <= i < parts.len() implies #[trigger] emitted(parts)[i] == piece(
        parts[i],
        !(parts[i] is FunctionCall),
    ) by {
        assert(emitted(parts)[i] =~= piece(parts[i], !(parts[i] is FunctionCall)));
    }
    assert forall|i: int| 0 <= i < parts.len() implies #[trigger] leftovers(parts)[i] == (
    ResponseView {
        finish_reason: if parts[i] is FunctionCall {
            Some(FinishReason::Stop)
        } else {
            None
        },
        turn_complete: parts[i] is FunctionCall,
        ..piece(parts[i], !(parts[i] is FunctionCall))
    }) by {
        assert(leftovers(parts)[i].content->Some_0 =~= piece(parts[i], true).content->Some_0);
    }
}

/// The text of parts is the texts of the text parts among them, joined in
/// order, and nothing else.
pub proof fn law_text_of_parts_is_their_texts(parts: Seq<PartView>, part: PartView)
    ensures
        text_of(Seq::<PartView>::empty()).len() == 0,
        text_of(parts.push(part)) == match part {
            PartView::Text { text } => text_of(parts) + text,
            _ => text_of(parts),
        },
{
    assert(parts.push(part).drop_last() =~= parts);
    assert(text_of(parts) + Seq::<char>::empty() =~= text_of(parts));
}

/// The word with which a provider ends a turn.
pub proof fn law_finish_words(word: Seq<char>)
    ensures
        finish_reason_of(word) is MaxTokens <==> word == "length"@,
        finish_reason_of(word) is Safety <==> word == "content_filter"@,
{
    reveal_strlit("length");
    reveal_strlit("content_filter");
    assert("length"@.len() == 6 && "content_filter"@.len() == 14);
}

/// A decoder starts with nothing.
pub proof fn law_a_decoder_starts_with_nothing()
    ensures
        stream_start().unread.len() == 0,
        stream_start().text.len() == 0,
        stream_start().calls.len() == 0,
        stream_start().pending is None,
        stream_start().held is None,
{
}

} // verus!
