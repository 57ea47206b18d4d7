//! What holds of a streamed DeepSeek completion as a whole.

use crate::deepseek::client::decoder_start;
use crate::deepseek::config::ConfigView;
use crate::deepseek::stream::{
    as_count, chunk_step, delta_reasoning, delta_text, extended, final_parts, first_unnamed,
    items_view, lemma_first_unnamed, partials, ready, ready_view, usage_counts, with_delta_calls,
    with_fragments, Choice, Chunk, ItemView, ReadyCall, StreamItem, StreamView, ToolCallDelta,
    Usage,
};
use crate::error::{ErrorCategory, ErrorComponent, ErrorView};
use crate::json::{parsed, JsonView};
use crate::llm::{single_part, FinishReason, PartView, UsageMetadata};
use crate::openai::laws::piece;
use crate::openai::usage::handed_on_as;
use crate::sse::{
    all_utf8, body_of, classify, law_reads_may_be_cut_anywhere, lemma_line_end, line_end,
    line_fold, lines, read_fold, rest, LineView,
};
use crate::text::{decimal, is_blank, trimmed};
use crate::tool_calls::{call_at, law_set_then_call_at, lemma_with_call_rising, rising, CallView};
use vstd::prelude::*;
use vstd::utf8::*;

verus! {

/// The chunk ends the turn.
pub open spec fn ends(chunk: Chunk) -> bool {
    chunk.choices@.len() > 0 && chunk.choices@[0].finish_reason is Some
}

/// Several chunks, one after the other: what is remembered after them, and the
/// items that they led to.
pub open spec fn chunk_run(s: StreamView, chunks: Seq<Chunk>) -> (StreamView, Seq<ItemView>)
    decreases chunks.len(),
{
    if chunks.len() == 0 {
        (s, Seq::empty())
    } else {
        let (before, sent) = chunk_run(s, chunks.drop_last());
        let (after, outcome) = chunk_step(before, chunks.last());
        (after, sent + outcome.items)
    }
}

/// The text or the reasoning of a part.
pub open spec fn part_text(part: PartView, thinking: bool) -> Seq<char> {
    match part {
        PartView::Text { text } => if thinking {
            Seq::empty()
        } else {
            text
        },
        PartView::Thinking { thinking: t, .. } => if thinking {
            t
        } else {
            Seq::empty()
        },
        _ => Seq::empty(),
    }
}

/// The text or the reasoning of a partial response with one part.
pub open spec fn item_text(item: ItemView, thinking: bool) -> Seq<char> {
    match item {
        ItemView::Response(r) => if r.partial {
            match r.content {
                Some(c) => if c.parts.len() == 1 {
                    part_text(c.parts[0], thinking)
                } else {
                    Seq::empty()
                },
                None => Seq::empty(),
            }
        } else {
            Seq::empty()
        },
        _ => Seq::empty(),
    }
}

/// The text, or the reasoning, that was handed out piece by piece.
pub open spec fn streamed(items: Seq<ItemView>, thinking: bool) -> Seq<char>
    decreases items.len(),
{
    if items.len() == 0 {
        Seq::empty()
    } else {
        streamed(items.drop_last(), thinking) + item_text(items.last(), thinking)
    }
}

proof fn lemma_streamed_add(a: Seq<ItemView>, b: Seq<ItemView>, thinking: bool)
    ensures
        streamed(a + b, thinking) == streamed(a, thinking) + streamed(b, thinking),
    decreases b.len(),
{
    if b.len() == 0 {
        assert(a + b =~= a);
        assert(streamed(a, thinking) + streamed(b, thinking) =~= streamed(a, thinking));
    } else {
        assert((a + b).drop_last() =~= a + b.drop_last());
        lemma_streamed_add(a, b.drop_last(), thinking);
        assert(streamed(a + b, thinking) =~= streamed(a, thinking) + streamed(b, thinking));
    }
}

proof fn lemma_partials(part: PartView, text: Seq<char>, thinking: bool)
    requires
        part_text(part, thinking) == text || part_text(part, thinking).len() == 0,
    ensures
        streamed(partials(part, text), thinking) == (if part_text(part, thinking) == text {
            text
        } else {
            Seq::empty()
        }),
{
    if text.len() > 0 {
        let item = ItemView::Response(single_part(part, true));
        assert(partials(part, text) =~= seq![item]);
        assert(seq![item].drop_last() =~= Seq::<ItemView>::empty());
        assert(streamed(seq![item].drop_last(), thinking) =~= Seq::<char>::empty());
        assert(item_text(item, thinking) == part_text(part, thinking));
        assert(streamed(seq![item], thinking) =~= part_text(part, thinking));
    } else {
        assert(streamed(partials(part, text), thinking) =~= Seq::<char>::empty());
    }
}

proof fn lemma_open_chunk(s: StreamView, chunk: Chunk)
    requires
        !ends(chunk),
    ensures
        chunk_step(s, chunk).0.reasoning == s.reasoning + streamed(
            chunk_step(s, chunk).1.items,
            true,
        ),
        chunk_step(s, chunk).0.text == s.text + streamed(chunk_step(s, chunk).1.items, false),
{
    if chunk.choices@.len() > 0 {
        let choice = chunk.choices@[0];
        let r = delta_reasoning(choice.delta);
        let t = delta_text(choice.delta);
        let thinking = PartView::Thinking { thinking: r, signature: None };
        let text = PartView::Text { text: t };
        lemma_partials(thinking, r, true);
        lemma_partials(thinking, r, false);
        lemma_partials(text, t, true);
        lemma_partials(text, t, false);
        lemma_streamed_add(partials(thinking, r), partials(text, t), true);
        lemma_streamed_add(partials(thinking, r), partials(text, t), false);
        assert(streamed(chunk_step(s, chunk).1.items, true) =~= r);
        assert(streamed(chunk_step(s, chunk).1.items, false) =~= t);
    } else {
        assert(s.reasoning + Seq::<char>::empty() =~= s.reasoning);
        assert(s.text + Seq::<char>::empty() =~= s.text);
    }
}

/// While a turn goes on, the reasoning and the text that are remembered are
/// those that have been handed out, no more and no less.
pub proof fn law_remembered_is_what_was_streamed(s: StreamView, chunks: Seq<Chunk>)
    requires
        forall|i: int| 0 <= i < chunks.len() ==> !ends(#[trigger] chunks[i]),
    ensures
        chunk_run(s, chunks).0.reasoning == s.reasoning + streamed(chunk_run(s, chunks).1, true),
        chunk_run(s, chunks).0.text == s.text + streamed(chunk_run(s, chunks).1, false),
    decreases chunks.len(),
{
    if chunks.len() == 0 {
        assert(s.reasoning + Seq::<char>::empty() =~= s.reasoning);
        assert(s.text + Seq::<char>::empty() =~= s.text);
    } else {
        let less = chunks.drop_last();
        assert forall|i: int| 0 <= i < less.len() implies !ends(#[trigger] less[i]) by {
            assert(less[i] == chunks[i]);
        }
        law_remembered_is_what_was_streamed(s, less);
        let (before, sent) = chunk_run(s, less);
        assert(!ends(chunks[chunks.len() - 1]));
        lemma_open_chunk(before, chunks.last());
        let more = chunk_step(before, chunks.last()).1.items;
        lemma_streamed_add(sent, more, true);
        lemma_streamed_add(sent, more, false);
        assert(s.reasoning + (streamed(sent, true) + streamed(more, true)) =~= (s.reasoning
            + streamed(sent, true)) + streamed(more, true));
        assert(s.text + (streamed(sent, false) + streamed(more, false)) =~= (s.text + streamed(
            sent,
            false,
        )) + streamed(more, false));
    }
}

/// The response that ends a turn without tool calls carries all the reasoning
/// and all the text that were streamed in it. Reasoning on the last chunk
/// counts; text on it does not.
pub proof fn law_final_carries_what_was_streamed(s: StreamView, chunks: Seq<Chunk>, last: Chunk)
    requires
        s.reasoning.len() == 0,
        s.text.len() == 0,
        forall|i: int| 0 <= i < chunks.len() ==> !ends(#[trigger] chunks[i]),
        ends(last),
        with_delta_calls(chunk_run(s, chunks).0.calls, last.choices@[0].delta).len() == 0,
    ensures
        ({
            let sent = chunk_run(s, chunks).1;
            let items = chunk_step(chunk_run(s, chunks).0, last).1.items;
            let reasoning = streamed(sent, true) + delta_reasoning(last.choices@[0].delta);
            let parts = final_parts(reasoning, streamed(sent, false));
            &&& items.len() > 0
            &&& items.last() matches ItemView::Response(r)
            &&& !r.partial
            &&& r.turn_complete
            &&& match r.content {
                Some(c) => c.parts == parts,
                None => parts.len() == 0,
            }
        }),
{
    law_remembered_is_what_was_streamed(s, chunks);
    let sent = chunk_run(s, chunks).1;
    assert(s.reasoning + streamed(sent, true) =~= streamed(sent, true));
    assert(s.text + streamed(sent, false) =~= streamed(sent, false));
}

/// A turn that ends in tool calls, all of them named, keeps the reasoning that
/// was streamed in it.
pub proof fn law_tool_calls_carry_the_reasoning(s: StreamView, chunks: Seq<Chunk>, last: Chunk)
    requires
        s.reasoning.len() == 0,
        forall|i: int| 0 <= i < chunks.len() ==> !ends(#[trigger] chunks[i]),
        ends(last),
        with_delta_calls(chunk_run(s, chunks).0.calls, last.choices@[0].delta).len() > 0,
        chunk_step(chunk_run(s, chunks).0, last).1.error is None,
    ensures
        ({
            let sent = chunk_run(s, chunks).1;
            let items = chunk_step(chunk_run(s, chunks).0, last).1.items;
            let all = streamed(sent, true) + delta_reasoning(last.choices@[0].delta);
            &&& items.len() > 0
            &&& items.last() matches ItemView::ToolCalls { reasoning, .. }
            &&& reasoning == (if all.len() > 0 {
                Some(all)
            } else {
                None
            })
        }),
{
    law_remembered_is_what_was_streamed(s, chunks);
    let sent = chunk_run(s, chunks).1;
    assert(s.reasoning + streamed(sent, true) =~= streamed(sent, true));
}

/// Fragments keep the calls in the order of their index.
pub proof fn law_calls_stay_in_order(calls: Seq<(u32, CallView)>, fragments: Seq<ToolCallDelta>)
    requires
        rising(calls),
    ensures
        rising(with_fragments(calls, fragments)),
    decreases fragments.len(),
{
    if fragments.len() > 0 {
        law_calls_stay_in_order(calls, fragments.drop_last());
        let before = with_fragments(calls, fragments.drop_last());
        let fragment = fragments.last();
        lemma_with_call_rising(
            before,
            fragment.index,
            extended(call_at(before, fragment.index), fragment),
        );
    }
}

/// Reasoning on a chunk goes out at once, ahead of all else, as a partial
/// response of one part.
pub proof fn law_reasoning_goes_out_at_once(s: StreamView, chunk: Chunk)
    requires
        chunk.choices@.len() > 0,
        delta_reasoning(chunk.choices@[0].delta).len() > 0,
    ensures
        ({
            let thinking = delta_reasoning(chunk.choices@[0].delta);
            let items = chunk_step(s, chunk).1.items;
            &&& items.len() > 0
            &&& items[0] == ItemView::Response(
                single_part(PartView::Thinking { thinking, signature: None }, true),
            )
        }),
{
}

// ---------------------------------------------------------------------
// A reply as a whole
// ---------------------------------------------------------------------

/// A reply that is being streamed: what the decoder remembers, the items that
/// have gone out, and the error with which the reply ended, where it has.
#[verifier::ext_equal]
pub struct ReplyView {
    pub stream: StreamView,
    pub sent: Seq<ItemView>,
    pub failed: Option<ErrorView>,
}

/// A line is acted on, unless the reply has ended. `parse` tells which chunk
/// data stands for, where it does.
pub open spec fn reply_line(
    parse: spec_fn(Seq<char>) -> Option<Chunk>,
    r: ReplyView,
    line: Seq<char>,
) -> ReplyView {
    match classify(line) {
        LineView::Data(data) => match parse(data) {
            Some(chunk) => if r.failed is None {
                let (after, outcome) = chunk_step(r.stream, chunk);
                ReplyView { stream: after, sent: r.sent + outcome.items, failed: outcome.error }
            } else {
                r
            },
            None => r,
        },
        _ => r,
    }
}

pub open spec fn with_unread(r: ReplyView, unread: Seq<char>) -> ReplyView {
    ReplyView { stream: StreamView { unread, ..r.stream }, ..r }
}

/// A line that is acted on does not touch what is still unread.
pub proof fn lemma_line_leaves_unread(
    parse: spec_fn(Seq<char>) -> Option<Chunk>,
    r: ReplyView,
    line: Seq<char>,
    unread: Seq<char>,
)
    ensures
        reply_line(parse, with_unread(r, unread), line) == with_unread(
            reply_line(parse, r, line),
            unread,
        ),
{
    assert(reply_line(parse, with_unread(r, unread), line) =~= with_unread(
        reply_line(parse, r, line),
        unread,
    ));
}

/// All complete lines are acted on.
pub open spec fn reply_lines(parse: spec_fn(Seq<char>) -> Option<Chunk>, r: ReplyView) -> ReplyView
    decreases r.stream.unread.len(),
{
    let unread = r.stream.unread;
    if line_end(unread) < unread.len() {
        let end: int = line_end(unread) as int;
        let next = reply_line(
            parse,
            with_unread(r, unread.skip(end + 1)),
            trimmed(unread.take(end)),
        );
        proof {
            lemma_line_leaves_unread(parse, r, trimmed(unread.take(end)), unread.skip(end + 1));
        }
        reply_lines(parse, next)
    } else {
        r
    }
}

/// Reads of a body are taken one after the other, by a client with that
/// configuration.
pub open spec fn reply_reads(
    config: ConfigView,
    parse: spec_fn(Seq<char>) -> Option<Chunk>,
    reads: Seq<Seq<u8>>,
) -> ReplyView
    decreases reads.len(),
{
    if reads.len() == 0 {
        ReplyView { stream: decoder_start(config), sent: Seq::empty(), failed: None }
    } else {
        let before = reply_reads(config, parse, reads.drop_last());
        reply_lines(
            parse,
            with_unread(before, before.stream.unread + decode_utf8(reads.last())),
        )
    }
}

spec fn reply_step(parse: spec_fn(Seq<char>) -> Option<Chunk>) -> spec_fn(
    ReplyView,
    Seq<char>,
) -> ReplyView {
    |r: ReplyView, line: Seq<char>| reply_line(parse, r, line)
}

proof fn lemma_reply_lines(
    parse: spec_fn(Seq<char>) -> Option<Chunk>,
    r: ReplyView,
    unread: Seq<char>,
)
    ensures
        reply_lines(parse, with_unread(r, unread)) == with_unread(
            line_fold(reply_step(parse), r, lines(unread)),
            rest(unread),
        ),
    decreases unread.len(),
{
    lemma_line_end(unread);
    let end: int = line_end(unread) as int;
    if end < unread.len() {
        let left = unread.skip(end + 1);
        let line = trimmed(unread.take(end));
        lemma_line_leaves_unread(parse, r, line, left);
        assert(with_unread(with_unread(r, unread), left) =~= with_unread(r, left));
        lemma_reply_lines(parse, reply_line(parse, r, line), left);
        assert(lines(unread)[0] == line);
        assert(lines(unread).skip(1) =~= lines(left));
        assert(reply_step(parse)(r, line) == reply_line(parse, r, line));
    }
}

proof fn lemma_reply_reads(
    config: ConfigView,
    parse: spec_fn(Seq<char>) -> Option<Chunk>,
    reads: Seq<Seq<u8>>,
)
    ensures
        ({
            let start = reply_reads(config, parse, Seq::empty());
            let (r, left) = read_fold(reply_step(parse), start, reads);
            reply_reads(config, parse, reads) == with_unread(r, left)
        }),
    decreases reads.len(),
{
    let start = reply_reads(config, parse, Seq::empty());
    if reads.len() == 0 {
        assert(reads =~= Seq::<Seq<u8>>::empty());
        assert(with_unread(start, Seq::empty()) =~= start);
    } else {
        let less = reads.drop_last();
        lemma_reply_reads(config, parse, less);
        let (r, left) = read_fold(reply_step(parse), start, less);
        let text = left + decode_utf8(reads.last());
        assert(with_unread(with_unread(r, left), text) =~= with_unread(r, text));
        lemma_reply_lines(parse, r, text);
    }
}

/// One body, cut into reads in two ways, leads to the same items and the same
/// error: they depend on the body alone, as long as no cut falls within a
/// character.
pub proof fn law_reply_depends_on_the_body_only(
    config: ConfigView,
    parse: spec_fn(Seq<char>) -> Option<Chunk>,
    a: Seq<Seq<u8>>,
    b: Seq<Seq<u8>>,
)
    requires
        all_utf8(a),
        all_utf8(b),
        body_of(a) == body_of(b),
    ensures
        reply_reads(config, parse, a) == reply_reads(config, parse, b),
{
    lemma_reply_reads(config, parse, a);
    lemma_reply_reads(config, parse, b);
    law_reads_may_be_cut_anywhere(
        reply_step(parse),
        reply_reads(config, parse, Seq::empty()),
        a,
        b,
    );
}

/// What a client hands out does not depend on its own thinking settings: to
/// clients that differ in nothing else, one body gives the same items and the
/// same error.
pub proof fn law_reply_ignores_the_thinking_settings(
    one: ConfigView,
    other: ConfigView,
    parse: spec_fn(Seq<char>) -> Option<Chunk>,
    reads: Seq<Seq<u8>>,
)
    requires
        other == (ConfigView {
            thinking: other.thinking,
            thinking_enabled: other.thinking_enabled,
            ..one
        }),
    ensures
        reply_reads(one, parse, reads) == reply_reads(other, parse, reads),
    decreases reads.len(),
{
    if reads.len() > 0 {
        law_reply_ignores_the_thinking_settings(one, other, parse, reads.drop_last());
    }
}

// ---------------------------------------------------------------------
// What a chunk says, and what comes of it
// ---------------------------------------------------------------------

/// The characters of a string that may be missing.
pub open spec fn chars_in(s: Option<String>) -> Seq<char> {
    match s {
        Some(t) => t@,
        None => Seq::empty(),
    }
}

/// The reasoning that a choice brings.
pub open spec fn reasoning_in(choice: Choice) -> Seq<char> {
    match choice.delta {
        Some(d) => chars_in(d.reasoning_content),
        None => Seq::empty(),
    }
}

/// The text that a choice brings.
pub open spec fn text_in(choice: Choice) -> Seq<char> {
    match choice.delta {
        Some(d) => chars_in(d.content),
        None => Seq::empty(),
    }
}

/// The fragments of tool calls that a choice brings, all of them and in order.
pub open spec fn fragments_in(choice: Choice) -> Seq<ToolCallDelta> {
    match choice.delta {
        Some(d) => match d.tool_calls {
            Some(fragments) => fragments@,
            None => Seq::empty(),
        },
        None => Seq::empty(),
    }
}

/// While a turn goes on, the reasoning on a chunk goes out character for
/// character, then its text does, each where it is not empty, and nothing else.
/// Both are remembered behind what came before.
pub proof fn law_pieces_go_out_as_they_are(s: StreamView, chunk: Chunk)
    requires
        chunk.choices@.len() > 0,
        chunk.choices@[0].finish_reason is None,
    ensures
        ({
            let thinking = reasoning_in(chunk.choices@[0]);
            let text = text_in(chunk.choices@[0]);
            let (after, outcome) = chunk_step(s, chunk);
            let first: nat = if thinking.len() > 0 {
                1
            } else {
                0
            };
            let second: nat = if text.len() > 0 {
                1
            } else {
                0
            };
            &&& outcome.error is None
            &&& outcome.items.len() == first + second
            &&& first == 1 ==> outcome.items[0] == ItemView::Response(
                piece(PartView::Thinking { thinking, signature: None }, true),
            )
            &&& second == 1 ==> outcome.items[first as int] == ItemView::Response(
                piece(PartView::Text { text }, true),
            )
            &&& after.unread == s.unread
            &&& after.reasoning == s.reasoning + thinking
            &&& after.text == s.text + text
            &&& after.calls == with_fragments(s.calls, fragments_in(chunk.choices@[0]))
        }),
{
    let thinking = reasoning_in(chunk.choices@[0]);
    let text = text_in(chunk.choices@[0]);
    let part = PartView::Thinking { thinking, signature: None };
    let other = PartView::Text { text };
    assert(single_part(part, true) =~= piece(part, true));
    assert(single_part(other, true) =~= piece(other, true));
}

/// A chunk without a choice leads to nothing.
pub proof fn law_a_chunk_without_a_choice_does_nothing(s: StreamView, chunk: Chunk)
    requires
        chunk.choices@.len() == 0,
    ensures
        chunk_step(s, chunk).0 == s,
        chunk_step(s, chunk).1.items.len() == 0,
        chunk_step(s, chunk).1.error is None,
{
}

/// The texts of chunks, joined.
pub open spec fn texts_in(chunks: Seq<Chunk>) -> Seq<char>
    decreases chunks.len(),
{
    if chunks.len() == 0 {
        Seq::empty()
    } else if chunks.last().choices@.len() > 0 {
        texts_in(chunks.drop_last()) + text_in(chunks.last().choices@[0])
    } else {
        texts_in(chunks.drop_last())
    }
}

/// The reasonings of chunks, joined.
pub open spec fn reasonings_in(chunks: Seq<Chunk>) -> Seq<char>
    decreases chunks.len(),
{
    if chunks.len() == 0 {
        Seq::empty()
    } else if chunks.last().choices@.len() > 0 {
        reasonings_in(chunks.drop_last()) + reasoning_in(chunks.last().choices@[0])
    } else {
        reasonings_in(chunks.drop_last())
    }
}

/// While a turn goes on, the text and the reasoning that are remembered are
/// those of its chunks, joined: no character is added, lost or moved.
pub proof fn law_remembered_is_what_the_chunks_say(s: StreamView, chunks: Seq<Chunk>)
    requires
        forall|i: int|
            0 <= i < chunks.len() && (#[trigger] chunks[i]).choices@.len() > 0
                ==> chunks[i].choices@[0].finish_reason is None,
    ensures
        chunk_run(s, chunks).0.text == s.text + texts_in(chunks),
        chunk_run(s, chunks).0.reasoning == s.reasoning + reasonings_in(chunks),
    decreases chunks.len(),
{
    if chunks.len() == 0 {
        assert(s.text + Seq::<char>::empty() =~= s.text);
        assert(s.reasoning + Seq::<char>::empty() =~= s.reasoning);
    } else {
        let less = chunks.drop_last();
        assert forall|i: int|
            0 <= i < less.len() && (#[trigger] less[i]).choices@.len() > 0 implies less[i].choices@[0].finish_reason
            is None by {
            assert(less[i] == chunks[i]);
        }
        law_remembered_is_what_the_chunks_say(s, less);
        let chunk = chunks[chunks.len() - 1];
        let before = chunk_run(s, less).0;
        if chunk.choices@.len() > 0 {
            law_pieces_go_out_as_they_are(before, chunk);
        }
        assert(chunk_run(s, chunks).0.text =~= s.text + texts_in(chunks));
        assert(chunk_run(s, chunks).0.reasoning =~= s.reasoning + reasonings_in(chunks));
    }
}

// ---------------------------------------------------------------------
// Tool calls
// ---------------------------------------------------------------------

/// The arguments text of a fragment.
pub open spec fn arguments_in(fragment: ToolCallDelta) -> Seq<char> {
    match fragment.function {
        Some(f) => chars_in(f.arguments),
        None => Seq::empty(),
    }
}

/// The name in a fragment.
pub open spec fn name_in(fragment: ToolCallDelta) -> Seq<char> {
    match fragment.function {
        Some(f) => chars_in(f.name),
        None => Seq::empty(),
    }
}

/// The arguments texts of the fragments that name an index, joined in the order
/// of their arrival.
pub open spec fn joined_arguments(fragments: Seq<ToolCallDelta>, index: u32) -> Seq<char>
    decreases fragments.len(),
{
    if fragments.len() == 0 {
        Seq::empty()
    } else if fragments.last().index == index {
        joined_arguments(fragments.drop_last(), index) + arguments_in(fragments.last())
    } else {
        joined_arguments(fragments.drop_last(), index)
    }
}

/// The last name that is not blank among the fragments that name an index, or
/// else `first`.
pub open spec fn latest_name(
    fragments: Seq<ToolCallDelta>,
    index: u32,
    first: Seq<char>,
) -> Seq<char>
    decreases fragments.len(),
{
    if fragments.len() == 0 {
        first
    } else if fragments.last().index == index && !is_blank(name_in(fragments.last())) {
        name_in(fragments.last())
    } else {
        latest_name(fragments.drop_last(), index, first)
    }
}

/// The last identifier among the fragments that name an index, or else `first`.
pub open spec fn latest_id(
    fragments: Seq<ToolCallDelta>,
    index: u32,
    first: Seq<char>,
) -> Seq<char>
    decreases fragments.len(),
{
    if fragments.len() == 0 {
        first
    } else if fragments.last().index == index && fragments.last().id is Some {
        fragments.last().id->Some_0@
    } else {
        latest_id(fragments.drop_last(), index, first)
    }
}

/// A call of which nothing has arrived yet.
pub open spec fn bare_call(index: u32) -> CallView {
    CallView {
        id: "call_"@ + decimal(index as nat),
        name: Seq::empty(),
        arguments: Seq::empty(),
    }
}

/// After any fragments, the call at an index is there where it was there before
/// or a fragment names it. Its arguments are those that it had, followed by
/// those of its fragments, joined in the order of their arrival; its identifier
/// is the last that came, or else made from the index, and its name the last
/// that was not blank. Calls that no fragment names stay as they were.
pub proof fn law_a_call_is_the_sum_of_its_fragments(
    calls: Seq<(u32, CallView)>,
    fragments: Seq<ToolCallDelta>,
    index: u32,
)
    requires
        rising(calls),
    ensures
        ({
            let before = match call_at(calls, index) {
                Some(c) => c,
                None => bare_call(index),
            };
            let touched = exists|i: int|
                0 <= i < fragments.len() && (#[trigger] fragments[i]).index == index;
            &&& call_at(with_fragments(calls, fragments), index) is Some <==> call_at(
                calls,
                index,
            ) is Some || touched
            &&& call_at(with_fragments(calls, fragments), index) matches Some(c) ==> {
                &&& c.arguments == before.arguments + joined_arguments(fragments, index)
                &&& c.name == latest_name(fragments, index, before.name)
                &&& c.id == latest_id(fragments, index, before.id)
            }
        }),
    decreases fragments.len(),
{
    let before = match call_at(calls, index) {
        Some(c) => c,
        None => bare_call(index),
    };
    if fragments.len() == 0 {
        assert(before.arguments + Seq::<char>::empty() =~= before.arguments);
    } else {
        let less = fragments.drop_last();
        let fragment = fragments[fragments.len() - 1];
        law_a_call_is_the_sum_of_its_fragments(calls, less, index);
        law_calls_stay_in_order(calls, less);
        let so_far = with_fragments(calls, less);
        let call = extended(call_at(so_far, fragment.index), fragment);
        law_set_then_call_at(so_far, fragment.index, call, index);
        assert forall|i: int| 0 <= i < less.len() && (#[trigger] less[i]).index
            == index implies fragments[i].index == index by {}
        if exists|i: int| 0 <= i < fragments.len() && (#[trigger] fragments[i]).index == index {
            let i = choose|i: int|
                0 <= i < fragments.len() && (#[trigger] fragments[i]).index == index;
            if i < less.len() {
                assert(less[i].index == index);
            }
        }
        if fragment.index == index {
            let old_arguments = before.arguments + joined_arguments(less, index);
            if call_at(so_far, index) is None {
                lemma_untouched(less, index, before);
                assert(before.arguments + joined_arguments(fragments, index) =~= arguments_in(
                    fragment,
                ));
                assert(call.arguments =~= arguments_in(fragment));
            } else {
                assert(call.arguments =~= old_arguments + arguments_in(fragment));
                assert(before.arguments + joined_arguments(fragments, index) =~= old_arguments
                    + arguments_in(fragment));
            }
        }
    }
}

proof fn lemma_untouched(fragments: Seq<ToolCallDelta>, index: u32, first: CallView)
    requires
        forall|i: int| 0 <= i < fragments.len() ==> (#[trigger] fragments[i]).index != index,
    ensures
        joined_arguments(fragments, index).len() == 0,
        latest_name(fragments, index, first.name) == first.name,
        latest_id(fragments, index, first.id) == first.id,
    decreases fragments.len(),
{
    if fragments.len() > 0 {
        let less = fragments.drop_last();
        assert(fragments[fragments.len() - 1].index != index);
        assert forall|i: int| 0 <= i < less.len() implies (#[trigger] less[i]).index != index by {
            assert(fragments[i].index != index);
        }
        lemma_untouched(less, index, first);
    }
}

// ---------------------------------------------------------------------
// The end of a turn
// ---------------------------------------------------------------------

/// The reason that a finish word stands for.
pub open spec fn reason_for(word: Seq<char>) -> FinishReason {
    if word == "length"@ {
        FinishReason::MaxTokens
    } else if word == "content_filter"@ {
        FinishReason::Safety
    } else {
        FinishReason::Stop
    }
}

/// An optional count is handed on exactly where it is there.
pub open spec fn optional_count(n: Option<u32>, count: Option<i32>) -> bool {
    match (n, count) {
        (Some(a), Some(b)) => handed_on_as(a as int, b),
        (None, None) => true,
        _ => false,
    }
}

/// Each count that the server reports is handed on under its own field.
pub open spec fn same_counts(usage: Option<Usage>, counts: Option<UsageMetadata>) -> bool {
    match (usage, counts) {
        (Some(u), Some(c)) => {
            &&& handed_on_as(u.prompt_tokens as int, c.prompt_token_count)
            &&& handed_on_as(u.completion_tokens as int, c.candidates_token_count)
            &&& handed_on_as(u.total_tokens as int, c.total_token_count)
            &&& optional_count(u.prompt_cache_hit_tokens, c.cache_read_input_token_count)
            &&& optional_count(u.prompt_cache_miss_tokens, c.cache_creation_input_token_count)
            &&& optional_count(u.reasoning_tokens, c.thinking_token_count)
            &&& c.audio_input_token_count is None
            &&& c.audio_output_token_count is None
        },
        (None, None) => true,
        _ => false,
    }
}

proof fn lemma_handed_on(n: u32)
    ensures
        handed_on_as(n as int, as_count(n)),
{
    reveal(handed_on_as);
}

proof fn lemma_counts(usage: Option<Usage>)
    ensures
        same_counts(usage, usage_counts(usage)),
{
    if usage is Some {
        let u = usage->Some_0;
        lemma_handed_on(u.prompt_tokens);
        lemma_handed_on(u.completion_tokens);
        lemma_handed_on(u.total_tokens);
        if u.prompt_cache_hit_tokens is Some {
            lemma_handed_on(u.prompt_cache_hit_tokens->Some_0);
        }
        if u.prompt_cache_miss_tokens is Some {
            lemma_handed_on(u.prompt_cache_miss_tokens->Some_0);
        }
        if u.reasoning_tokens is Some {
            lemma_handed_on(u.reasoning_tokens->Some_0);
        }
    }
}

/// The chunk ends a turn, with that word.
pub open spec fn turn_end(chunk: Chunk, word: Seq<char>) -> bool {
    &&& chunk.choices@.len() > 0
    &&& chunk.choices@[0].finish_reason matches Some(w) && w@ == word
}

/// How many items go out ahead of the one that ends the turn: the reasoning on
/// the last chunk, where there is any.
pub open spec fn lead(chunk: Chunk) -> nat {
    if reasoning_in(chunk.choices@[0]).len() > 0 {
        1
    } else {
        0
    }
}

/// A turn that ends without tool calls is complete. Its response carries all
/// the reasoning and all the text of the turn, each as one part where there is
/// any, the reason, and the counts; then all is forgotten.
pub proof fn law_how_a_plain_turn_ends(s: StreamView, chunk: Chunk, word: Seq<char>)
    requires
        turn_end(chunk, word),
        with_fragments(s.calls, fragments_in(chunk.choices@[0])).len() == 0,
    ensures
        ({
            let thinking = s.reasoning + reasoning_in(chunk.choices@[0]);
            let (after, outcome) = chunk_step(s, chunk);
            &&& outcome.error is None
            &&& outcome.items.len() == lead(chunk) + 1
            &&& outcome.items.last() matches ItemView::Response(r)
            &&& !r.partial
            &&& r.turn_complete
            &&& !r.interrupted
            &&& r.finish_reason == Some(reason_for(word))
            &&& same_counts(chunk.usage, r.usage_metadata)
            &&& match r.content {
                Some(c) => {
                    &&& c.role == "model"@
                    &&& thinking.len() > 0 || s.text.len() > 0
                    &&& thinking.len() > 0 && s.text.len() > 0 ==> c.parts == seq![
                        PartView::Thinking { thinking, signature: None },
                        PartView::Text { text: s.text },
                    ]
                    &&& s.text.len() == 0 ==> c.parts == seq![
                        PartView::Thinking { thinking, signature: None },
                    ]
                    &&& thinking.len() == 0 ==> c.parts == seq![PartView::Text { text: s.text }]
                },
                None => thinking.len() == 0 && s.text.len() == 0,
            }
            &&& after.unread == s.unread
            &&& after.calls.len() == 0
            &&& after.reasoning.len() == 0
            &&& after.text.len() == 0
        }),
{
    lemma_counts(chunk.usage);
    let choice = chunk.choices@[0];
    assert(with_delta_calls(s.calls, choice.delta) =~= with_fragments(
        s.calls,
        fragments_in(choice),
    ));
    let thinking = s.reasoning + reasoning_in(choice);
    let parts = final_parts(thinking, s.text);
    assert(thinking.len() > 0 && s.text.len() > 0 ==> parts =~= seq![
        PartView::Thinking { thinking, signature: None },
        PartView::Text { text: s.text },
    ]);
    assert(thinking.len() > 0 && s.text.len() == 0 ==> parts =~= seq![
        PartView::Thinking { thinking, signature: None },
    ]);
    assert(thinking.len() == 0 && s.text.len() > 0 ==> parts =~= seq![
        PartView::Text { text: s.text },
    ]);
}

/// A turn that ends in tool calls hands them all on, in order, each with its
/// identifier, its name and what its arguments read as, together with the
/// reason and all the reasoning of the turn; then the calls and the reasoning
/// are forgotten.
pub proof fn law_how_a_turn_with_calls_ends(s: StreamView, chunk: Chunk, word: Seq<char>)
    requires
        turn_end(chunk, word),
        with_fragments(s.calls, fragments_in(chunk.choices@[0])).len() > 0,
        forall|k: int|
            0 <= k < with_fragments(s.calls, fragments_in(chunk.choices@[0])).len() ==> !is_blank(
                (#[trigger] with_fragments(s.calls, fragments_in(chunk.choices@[0]))[k]).1.name,
            ),
    ensures
        ({
            let known = with_fragments(s.calls, fragments_in(chunk.choices@[0]));
            let thinking = s.reasoning + reasoning_in(chunk.choices@[0]);
            let (after, outcome) = chunk_step(s, chunk);
            &&& outcome.error is None
            &&& outcome.items.len() == lead(chunk) + 1
            &&& outcome.items.last() matches ItemView::ToolCalls {
                calls,
                finish_reason,
                reasoning,
            }
            &&& calls.len() == known.len()
            &&& forall|k: int|
                0 <= k < known.len() ==> {
                    &&& (#[trigger] calls[k]).id == known[k].1.id
                    &&& calls[k].name == known[k].1.name
                    &&& calls[k].args == match parsed(known[k].1.arguments) {
                        Some(v) => v,
                        None => JsonView::Object(Seq::empty()),
                    }
                }
            &&& finish_reason == Some(reason_for(word))
            &&& reasoning == (if thinking.len() > 0 {
                Some(thinking)
            } else {
                None
            })
            &&& after.unread == s.unread
            &&& after.calls.len() == 0
            &&& after.reasoning.len() == 0
            &&& after.text == s.text
        }),
{
    let choice = chunk.choices@[0];
    let known = with_fragments(s.calls, fragments_in(choice));
    assert(with_delta_calls(s.calls, choice.delta) =~= known);
    lemma_first_unnamed(known);
    let thinking = s.reasoning + reasoning_in(choice);
    let items = chunk_step(s, chunk).1.items;
    assert(items.last()->calls == ready(known));
}

/// A turn that ends in tool calls of which one has no name fails, and hands
/// none of them on: the error names the first of them, and says that the turn
/// may be tried again.
pub proof fn law_a_call_without_a_name_fails_the_turn(
    s: StreamView,
    chunk: Chunk,
    word: Seq<char>,
    k: int,
)
    requires
        turn_end(chunk, word),
        0 <= k < with_fragments(s.calls, fragments_in(chunk.choices@[0])).len(),
        is_blank(with_fragments(s.calls, fragments_in(chunk.choices@[0]))[k].1.name),
        forall|i: int|
            0 <= i < k ==> !is_blank(
                (#[trigger] with_fragments(s.calls, fragments_in(chunk.choices@[0]))[i]).1.name,
            ),
    ensures
        ({
            let known = with_fragments(s.calls, fragments_in(chunk.choices@[0]));
            let (after, outcome) = chunk_step(s, chunk);
            &&& outcome.items.len() == lead(chunk)
            &&& outcome.error matches Some(ErrorView::Coded {
                component,
                category,
                code,
                message,
                provider,
                upstream_status,
                should_retry,
            })
            &&& component == ErrorComponent::Model
            &&& category == ErrorCategory::Unavailable
            &&& code == "model.deepseek.empty_tool_name"@
            &&& message == "upstream streamed tool call `"@ + known[k].1.id
                + "` with an empty function.name; retry the turn"@
            &&& provider == Some("deepseek"@)
            &&& upstream_status is None
            &&& should_retry == Some(true)
            &&& after.calls.len() == 0
            &&& after.unread == s.unread
            &&& after.text == s.text
            &&& after.reasoning == s.reasoning + reasoning_in(chunk.choices@[0])
        }),
{
    let choice = chunk.choices@[0];
    let known = with_fragments(s.calls, fragments_in(choice));
    assert(with_delta_calls(s.calls, choice.delta) =~= known);
    lemma_first_unnamed(known);
    let f = first_unnamed(known);
    assert(f == k) by {
        if f < k {
            assert(is_blank(known[f].1.name));
        }
        if k < f {
            assert(!is_blank(known[k].1.name));
        }
    }
}

/// Reasoning on the last chunk of a turn goes out ahead of the turn's end, as a
/// piece of its own, character for character.
pub proof fn law_last_reasoning_goes_out_first(s: StreamView, chunk: Chunk, word: Seq<char>)
    requires
        turn_end(chunk, word),
        reasoning_in(chunk.choices@[0]).len() > 0,
    ensures
        chunk_step(s, chunk).1.items.len() > 0,
        chunk_step(s, chunk).1.items[0] == ItemView::Response(
            piece(
                PartView::Thinking {
                    thinking: reasoning_in(chunk.choices@[0]),
                    signature: None,
                },
                true,
            ),
        ),
{
    let part = PartView::Thinking {
        thinking: reasoning_in(chunk.choices@[0]),
        signature: None,
    };
    assert(single_part(part, true) =~= piece(part, true));
}

/// Views leave no item and no call out.
pub proof fn law_views_leave_nothing_out(
    items: Seq<StreamItem>,
    calls: Seq<ReadyCall>,
    i: int,
)
    ensures
        items_view(items).len() == items.len(),
        0 <= i < items.len() ==> items_view(items)[i] == items[i]@,
        ready_view(calls).len() == calls.len(),
        0 <= i < calls.len() ==> ready_view(calls)[i] == calls[i]@,
{
}

} // verus!
