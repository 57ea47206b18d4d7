//! Cutting a stream of server-sent events into lines.

use crate::text::{chars_of, has_prefix, same_text, strip_prefix, trim_chars, trimmed};
use vstd::prelude::*;
use vstd::utf8::*;

verus! {

/// The text that `String::from_utf8_lossy` makes of bytes.
pub uninterp spec fn lossy_text(bytes: Seq<u8>) -> Seq<char>;

/// `String::from_utf8_lossy`: bytes that are UTF-8 are decoded; what is put in
/// place of other bytes depends on the bytes alone.
#[verifier::external_body]
fn decode_lossy(bytes: &[u8]) -> (s: String)
    ensures
        s@ == lossy_text(bytes@),
        valid_utf8(bytes@) ==> s@ == decode_utf8(bytes@),
{
    String::from_utf8_lossy(bytes).into_owned()
}

/// The position of the first line feed, or the length.
pub open spec fn line_end(text: Seq<char>) -> nat
    decreases text.len(),
{
    if text.len() == 0 || text[0] == '\n' {
        0
    } else {
        1 + line_end(text.skip(1))
    }
}

/// The lines that are complete, each without white space around it.
pub open spec fn lines(text: Seq<char>) -> Seq<Seq<char>>
    decreases text.len(),
{
    if line_end(text) < text.len() {
        seq![trimmed(text.take(line_end(text) as int))] + lines(text.skip(line_end(text) as int + 1))
    } else {
        Seq::empty()
    }
}

/// What follows the last line feed.
pub open spec fn rest(text: Seq<char>) -> Seq<char>
    decreases text.len(),
{
    if line_end(text) < text.len() {
        rest(text.skip(line_end(text) as int + 1))
    } else {
        text
    }
}

pub proof fn lemma_line_end(text: Seq<char>)
    ensures
        0 <= line_end(text) <= text.len(),
        line_end(text) < text.len() ==> text[line_end(text) as int] == '\n',
        forall|i: int| 0 <= i < line_end(text) ==> #[trigger] text[i] != '\n',
    decreases text.len(),
{
    if text.len() > 0 && text[0] != '\n' {
        lemma_line_end(text.skip(1));
        assert forall|i: int| 0 <= i < line_end(text) implies #[trigger] text[i] != '\n' by {
            if i > 0 {
                assert(text[i] == text.skip(1)[i - 1]);
            }
        }
    }
}

proof fn lemma_line_end_is(text: Seq<char>, at: int)
    requires
        0 <= at <= text.len(),
        at < text.len() ==> text[at] == '\n',
        forall|i: int| 0 <= i < at ==> #[trigger] text[i] != '\n',
    ensures
        line_end(text) == at,
{
    lemma_line_end(text);
    let e = line_end(text) as int;
    if e < at {
        assert(text[e] == '\n');
    }
    if at < e {
        assert(text[at] == '\n');
    }
}

/// Where the network cuts the stream makes no difference: text that arrives in
/// two pieces gives the lines, and leaves the rest, that it gives in one.
pub proof fn law_lines_ignore_chunk_boundaries(a: Seq<char>, b: Seq<char>)
    ensures
        lines(a + b) == lines(a) + lines(rest(a) + b),
        rest(a + b) == rest(rest(a) + b),
    decreases a.len(),
{
    lemma_line_end(a);
    let e = line_end(a) as int;
    if e < a.len() {
        let ab = a + b;
        assert forall|i: int| 0 <= i < e implies #[trigger] ab[i] != '\n' by {
            assert(a[i] != '\n');
        }
        lemma_line_end_is(ab, e);
        assert(ab.take(e) =~= a.take(e));
        assert(ab.skip(e + 1) =~= a.skip(e + 1) + b);
        law_lines_ignore_chunk_boundaries(a.skip(e + 1), b);
        assert(lines(ab) =~= lines(a) + lines(rest(a) + b));
    } else {
        assert(lines(a) + lines(a + b) =~= lines(a + b));
    }
}

/// The bytes of all reads, one after the other.
pub open spec fn body_of(reads: Seq<Seq<u8>>) -> Seq<u8>
    decreases reads.len(),
{
    if reads.len() == 0 {
        Seq::empty()
    } else {
        body_of(reads.drop_last()) + reads.last()
    }
}

/// Every read is UTF-8 by itself: none of them ends within a character.
pub open spec fn all_utf8(reads: Seq<Seq<u8>>) -> bool {
    forall|i: int| 0 <= i < reads.len() ==> valid_utf8(#[trigger] reads[i])
}

/// Lines that are acted on, one after the other.
pub open spec fn line_fold<S>(
    step: spec_fn(S, Seq<char>) -> S,
    s: S,
    lines: Seq<Seq<char>>,
) -> S
    decreases lines.len(),
{
    if lines.len() == 0 {
        s
    } else {
        line_fold(step, step(s, lines[0]), lines.skip(1))
    }
}

/// Reads that are taken one after the other, from the start of a stream: after
/// each, all lines that are complete by then are acted on. What comes of that,
/// and the text that is left.
pub open spec fn read_fold<S>(
    step: spec_fn(S, Seq<char>) -> S,
    s: S,
    reads: Seq<Seq<u8>>,
) -> (S, Seq<char>)
    decreases reads.len(),
{
    if reads.len() == 0 {
        (s, Seq::empty())
    } else {
        let (before, left) = read_fold(step, s, reads.drop_last());
        let text = left + decode_utf8(reads.last());
        (line_fold(step, before, lines(text)), rest(text))
    }
}

proof fn lemma_decode_add(a: Seq<u8>, b: Seq<u8>)
    requires
        valid_utf8(a),
        valid_utf8(b),
    ensures
        valid_utf8(a + b),
        decode_utf8(a + b) == decode_utf8(a) + decode_utf8(b),
    decreases a.len(),
{
    valid_utf8_concat(a, b);
    if a.len() == 0 {
        assert(a + b =~= b);
        assert(decode_utf8(a) + decode_utf8(b) =~= decode_utf8(b));
    } else {
        lemma_decode_add(pop_first_scalar(a), b);
        assert(pop_first_scalar(a + b) =~= pop_first_scalar(a) + b);
        assert(decode_first_scalar(a + b) == decode_first_scalar(a));
        assert(decode_utf8(a + b) =~= decode_utf8(a) + decode_utf8(b));
    }
}

proof fn lemma_fold_add<S>(
    step: spec_fn(S, Seq<char>) -> S,
    s: S,
    a: Seq<Seq<char>>,
    b: Seq<Seq<char>>,
)
    ensures
        line_fold(step, s, a + b) == line_fold(step, line_fold(step, s, a), b),
    decreases a.len(),
{
    if a.len() == 0 {
        assert(a + b =~= b);
    } else {
        assert((a + b).skip(1) =~= a.skip(1) + b);
        lemma_fold_add(step, step(s, a[0]), a.skip(1), b);
    }
}

proof fn lemma_read_fold<S>(step: spec_fn(S, Seq<char>) -> S, s: S, reads: Seq<Seq<u8>>)
    requires
        all_utf8(reads),
    ensures
        valid_utf8(body_of(reads)),
        read_fold(step, s, reads) == (
            line_fold(step, s, lines(decode_utf8(body_of(reads)))),
            rest(decode_utf8(body_of(reads))),
        ),
    decreases reads.len(),
{
    if reads.len() == 0 {
        assert(decode_utf8(body_of(reads)) =~= Seq::<char>::empty());
    } else {
        let less = reads.drop_last();
        assert(all_utf8(less)) by {
            assert forall|i: int| 0 <= i < less.len() implies valid_utf8(#[trigger] less[i]) by {
                assert(less[i] == reads[i]);
            }
        }
        lemma_read_fold(step, s, less);
        assert(valid_utf8(reads[reads.len() - 1]));
        lemma_decode_add(body_of(less), reads.last());
        let before = decode_utf8(body_of(less));
        let more = decode_utf8(reads.last());
        law_lines_ignore_chunk_boundaries(before, more);
        lemma_fold_add(step, s, lines(before), lines(rest(before) + more));
    }
}

/// Where the network cuts a body into reads makes no difference, as long as no
/// cut falls within a character: whatever is made of the lines, two ways to cut
/// one body lead to the same, and leave the same text.
pub proof fn law_reads_may_be_cut_anywhere<S>(
    step: spec_fn(S, Seq<char>) -> S,
    s: S,
    a: Seq<Seq<u8>>,
    b: Seq<Seq<u8>>,
)
    requires
        all_utf8(a),
        all_utf8(b),
        body_of(a) == body_of(b),
    ensures
        read_fold(step, s, a) == read_fold(step, s, b),
{
    lemma_read_fold(step, s, a);
    lemma_read_fold(step, s, b);
}

/// Text of the stream that no complete line has been cut from yet.
pub struct LineBuffer {
    chars: Vec<char>,
    consumed: usize,
}

impl View for LineBuffer {
    type V = Seq<char>;

    closed spec fn view(&self) -> Seq<char> {
        self.chars@.skip(self.consumed as int)
    }
}

impl LineBuffer {
    #[verifier::type_invariant]
    closed spec fn consumed_is_within(self) -> bool {
        self.consumed <= self.chars@.len()
    }

    /// The empty buffer.
    pub fn new() -> (b: LineBuffer)
        ensures
            b@ == Seq::<char>::empty(),
    {
        let b = LineBuffer { chars: Vec::new(), consumed: 0 };
        assert(b@ =~= Seq::<char>::empty());
        b
    }

    /// Appends text.
    pub fn push_text(&mut self, text: &str)
        ensures
            final(self)@ == old(self)@ + text@,
    {
        proof {
            use_type_invariant(&*self);
        }
        let mut more: Vec<char> = chars_of(text);
        let consumed: usize = self.consumed;
        let mut chars: Vec<char> = Vec::new();
        self.consumed = 0;
        std::mem::swap(&mut chars, &mut self.chars);
        let ghost before = chars@;
        chars.append(&mut more);
        assert(chars@.skip(consumed as int) =~= before.skip(consumed as int) + text@);
        self.chars = chars;
        self.consumed = consumed;
    }

    /// Appends bytes as they came from the network, bytes that are not UTF-8
    /// replaced.
    pub fn push_bytes(&mut self, bytes: &[u8])
        ensures
            final(self)@ == old(self)@ + lossy_text(bytes@),
            valid_utf8(bytes@) ==> final(self)@ == old(self)@ + decode_utf8(bytes@),
    {
        let text: String = decode_lossy(bytes);
        self.push_text(text.as_str());
    }

    /// Cuts the next complete line off, without white space around it.
    pub fn next_line(&mut self) -> (line: Option<String>)
        ensures
            match line {
                Some(l) => {
                    &&& line_end(old(self)@) < old(self)@.len()
                    &&& l@ == trimmed(old(self)@.take(line_end(old(self)@) as int))
                    &&& final(self)@ == old(self)@.skip(line_end(old(self)@) as int + 1)
                },
                None => line_end(old(self)@) == old(self)@.len() && final(self)@ == old(self)@,
            },
    {
        proof {
            use_type_invariant(&*self);
        }
        let ghost before = self@;
        let start: usize = self.consumed;
        let mut i: usize = start;
        while i < self.chars.len() && self.chars[i] != '\n'
            invariant
                start == self.consumed,
                before == self.chars@.skip(start as int),
                start <= i <= self.chars@.len(),
                forall|k: int| 0 <= k < i - start ==> #[trigger] before[k] != '\n',
            decreases self.chars@.len() - i,
        {
            assert(before[i - start] == self.chars@[i as int]);
            i += 1;
        }
        proof {
            assert(i < self.chars@.len() ==> before[i - start] == self.chars@[i as int]);
            lemma_line_end_is(before, i - start);
        }
        if i < self.chars.len() {
            let line: String = trim_chars(self.chars.as_slice(), start, i);
            assert(self.chars@.subrange(start as int, i as int) =~= before.take(i - start));
            self.consumed = i + 1;
            assert(self@ =~= before.skip(i - start + 1));
            Some(line)
        } else {
            // What has been cut off is dropped once, when no line is left.
            let mut kept: Vec<char> = Vec::new();
            self.consumed = 0;
            std::mem::swap(&mut kept, &mut self.chars);
            let remaining: Vec<char> = kept.split_off(start);
            assert(remaining@ =~= before);
            self.chars = remaining;
            assert(self@ =~= before);
            None
        }
    }
}

/// What a line of the stream is.
#[verifier::ext_equal]
pub enum LineView {
    /// Nothing to act on: an empty line, a comment, another field.
    Other,
    /// The end marker.
    Done,
    /// A `data` field and what it carries.
    Data(Seq<char>),
}

/// What a line without white space around it is.
pub open spec fn classify(line: Seq<char>) -> LineView {
    if line == "data: [DONE]"@ {
        LineView::Done
    } else if has_prefix(line, "data: "@) {
        LineView::Data(line.skip("data: "@.len() as int))
    } else {
        LineView::Other
    }
}

/// A line of the stream.
pub enum Line {
    Other,
    Done,
    Data(String),
}

impl View for Line {
    type V = LineView;

    open spec fn view(&self) -> LineView {
        match *self {
            Line::Other => LineView::Other,
            Line::Done => LineView::Done,
            Line::Data(s) => LineView::Data(s@),
        }
    }
}

/// Tells what a line is.
pub fn classify_line(line: &str) -> (l: Line)
    ensures
        l@ == classify(line@),
{
    if same_text(line, "data: [DONE]") {
        return Line::Done;
    }
    match strip_prefix(line, "data: ") {
        Some(data) => Line::Data(data),
        None => Line::Other,
    }
}

// ---------------------------------------------------------------------
// Laws
// ---------------------------------------------------------------------

/// What follows `data: ` is the line's data, character for character, unless it
/// is the end marker; a line that begins otherwise has none.
pub proof fn law_lines_are_told_apart(line: Seq<char>, data: Seq<char>)
    ensures
        line == "data: "@ + data && data != "[DONE]"@ ==> classify(line) == LineView::Data(data),
        line == "data: [DONE]"@ ==> classify(line) == LineView::Done,
        line == "data: "@ + "[DONE]"@ ==> classify(line) == LineView::Done,
        (forall|d: Seq<char>| line != #[trigger] ("data: "@ + d)) ==> classify(line)
            == LineView::Other,
{
    reveal_strlit("data: ");
    reveal_strlit("[DONE]");
    reveal_strlit("data: [DONE]");
    let head = "data: "@;
    assert("data: [DONE]"@ =~= head + "[DONE]"@);
    if line == head + data {
        assert(line.take(head.len() as int) =~= head);
        assert(line.skip(head.len() as int) =~= data);
        assert((head + "[DONE]"@).skip(head.len() as int) =~= "[DONE]"@);
    }
    if has_prefix(line, head) {
        assert(line =~= head + line.skip(head.len() as int));
    }
}

/// A line ends at a line feed: what stands before the first one is a line, and
/// what follows it is cut in the same way. Text without one is no line yet, and
/// none of it is lost.
pub proof fn law_lines_end_at_line_feeds(head: Seq<char>, tail: Seq<char>)
    requires
        forall|i: int| 0 <= i < head.len() ==> #[trigger] head[i] != '\n',
    ensures
        lines(head + seq!['\n'] + tail) == seq![trimmed(head)] + lines(tail),
        rest(head + seq!['\n'] + tail) == rest(tail),
        lines(head).len() == 0,
        rest(head) == head,
{
    let text = head + seq!['\n'] + tail;
    let at = head.len() as int;
    assert forall|i: int| 0 <= i < at implies #[trigger] text[i] != '\n' by {
        assert(text[i] == head[i]);
    }
    assert(text[at] == '\n');
    lemma_line_end_is(text, at);
    lemma_line_end_is(head, at);
    assert(text.take(at) =~= head);
    assert(text.skip(at + 1) =~= tail);
}

} // verus!
