//! Token counts as they arrive on the wire.

use crate::json::{Json, JsonView};
use crate::llm::UsageMetadata;
use crate::number::{low_i32, wrap_i32};
use vstd::prelude::*;

verus! {

/// The integer under `name`, where there is one that fits in 64 bits.
pub open spec fn count_at(object: JsonView, name: Seq<char>) -> Option<int> {
    match object.get(name) {
        Some(v) => v.as_i64(),
        None => None,
    }
}

/// The integer under `name` of the object under `outer`.
pub open spec fn nested_count(
    object: JsonView,
    outer: Seq<char>,
    name: Seq<char>,
) -> Option<int> {
    match object.get(outer) {
        Some(details) => count_at(details, name),
        None => None,
    }
}

/// `a`, or `b` where there is no `a`.
pub open spec fn or_count(a: Option<int>, b: Option<int>) -> Option<int> {
    if a is Some {
        a
    } else {
        b
    }
}

pub open spec fn count_or_zero(a: Option<int>) -> int {
    match a {
        Some(n) => n,
        None => 0,
    }
}

/// A count cut to 32 bits.
pub open spec fn as_count(n: int) -> i32 {
    wrap_i32(n) as i32
}

pub open spec fn opt_count(n: Option<int>) -> Option<i32> {
    match n {
        Some(v) => Some(as_count(v)),
        None => None,
    }
}

/// The prompt's count: `prompt_tokens`, or else `input_tokens`, or else zero.
pub open spec fn prompt_count(u: JsonView) -> int {
    count_or_zero(or_count(count_at(u, "prompt_tokens"@), count_at(u, "input_tokens"@)))
}

/// The reply's count: `completion_tokens`, or else `output_tokens`, or else zero.
pub open spec fn completion_count(u: JsonView) -> int {
    count_or_zero(or_count(count_at(u, "completion_tokens"@), count_at(u, "output_tokens"@)))
}

/// The count of the turn: `total_tokens`, or else the sum of the other two.
pub open spec fn total_count(u: JsonView) -> int {
    match count_at(u, "total_tokens"@) {
        Some(n) => n,
        None => prompt_count(u) + completion_count(u),
    }
}

/// What was read from the cache: `prompt_cache_hit_tokens`, or else what the
/// prompt's details say, or else what the input's details say.
pub open spec fn cache_read_count(u: JsonView) -> Option<int> {
    or_count(
        count_at(u, "prompt_cache_hit_tokens"@),
        or_count(
            nested_count(u, "prompt_tokens_details"@, "cached_tokens"@),
            nested_count(u, "input_tokens_details"@, "cached_tokens"@),
        ),
    )
}

/// The counts that a `usage` object states.
pub open spec fn usage_counts(u: JsonView) -> UsageMetadata {
    UsageMetadata {
        prompt_token_count: as_count(prompt_count(u)),
        candidates_token_count: as_count(completion_count(u)),
        total_token_count: as_count(total_count(u)),
        cache_read_input_token_count: opt_count(cache_read_count(u)),
        cache_creation_input_token_count: opt_count(count_at(u, "prompt_cache_miss_tokens"@)),
        thinking_token_count: opt_count(
            nested_count(u, "completion_tokens_details"@, "reasoning_tokens"@),
        ),
        audio_input_token_count: opt_count(
            nested_count(u, "prompt_tokens_details"@, "audio_tokens"@),
        ),
        audio_output_token_count: opt_count(
            nested_count(u, "completion_tokens_details"@, "audio_tokens"@),
        ),
    }
}

/// Not every count of a `usage` object is zero. One that is not stated counts
/// as zero.
pub open spec fn has_counts(u: JsonView) -> bool {
    ||| prompt_count(u) != 0
    ||| completion_count(u) != 0
    ||| total_count(u) != 0
    ||| count_or_zero(cache_read_count(u)) != 0
    ||| count_or_zero(count_at(u, "prompt_cache_miss_tokens"@)) != 0
    ||| count_or_zero(nested_count(u, "completion_tokens_details"@, "reasoning_tokens"@)) != 0
    ||| count_or_zero(nested_count(u, "prompt_tokens_details"@, "audio_tokens"@)) != 0
    ||| count_or_zero(nested_count(u, "completion_tokens_details"@, "audio_tokens"@)) != 0
}

/// The token counts on a chunk of the stream: those of its `usage` object,
/// where it has one and not every count in it is zero.
pub open spec fn chunk_usage(chunk: JsonView) -> Option<UsageMetadata> {
    match chunk.get("usage"@) {
        Some(u) => if u is Object && has_counts(u) {
            Some(usage_counts(u))
        } else {
            None
        },
        None => None,
    }
}

fn read_count(object: &Json, name: &str) -> (n: Option<i64>)
    ensures
        match n {
            Some(v) => count_at(object@, name@) == Some(v as int),
            None => count_at(object@, name@) is None,
        },
{
    match object.get(name) {
        Some(v) => v.as_i64(),
        None => None,
    }
}

fn read_nested(object: &Json, outer: &str, name: &str) -> (n: Option<i64>)
    ensures
        match n {
            Some(v) => nested_count(object@, outer@, name@) == Some(v as int),
            None => nested_count(object@, outer@, name@) is None,
        },
{
    match object.get(outer) {
        Some(details) => read_count(details, name),
        None => None,
    }
}

fn first_count(a: Option<i64>, b: Option<i64>) -> (r: Option<i64>)
    ensures
        r == if a is Some {
            a
        } else {
            b
        },
{
    match a {
        Some(n) => Some(n),
        None => b,
    }
}

fn count_or(a: Option<i64>, default: i64) -> (n: i64)
    ensures
        n == match a {
            Some(v) => v,
            None => default,
        },
{
    match a {
        Some(v) => v,
        None => default,
    }
}

fn cut(n: Option<i64>) -> (r: Option<i32>)
    ensures
        match n {
            Some(v) => r == Some(as_count(v as int)),
            None => r is None,
        },
{
    match n {
        Some(v) => Some(low_i32(v)),
        None => None,
    }
}

fn is_not_zero(n: Option<i64>) -> (b: bool)
    ensures
        b == (n matches Some(v) && v != 0),
{
    match n {
        Some(v) => v != 0,
        None => false,
    }
}

/// The low 32 bits of a sum of two 64-bit numbers.
fn low_sum(a: i64, b: i64) -> (r: i32)
    ensures
        r == as_count(a + b),
{
    low_i32(a).wrapping_add(low_i32(b))
}

/// Reads the token counts on a chunk of the stream.
///
/// Any chunk may carry them: some providers attach them to the chunk that
/// ends the turn, others send them on a chunk of their own after it. The
/// fields of several dialects are understood. A chunk whose `usage` is absent,
/// `null` or all zero has no counts.
pub fn parse_usage_from_chunk(chunk: &Json) -> (usage: Option<UsageMetadata>)
    ensures
        usage == chunk_usage(chunk@),
{
    let u = match chunk.get("usage") {
        Some(u) => u,
        None => {
            return None;
        },
    };
    if !u.is_object() {
        return None;
    }
    let prompt: i64 = count_or(
        first_count(read_count(u, "prompt_tokens"), read_count(u, "input_tokens")),
        0,
    );
    let completion: i64 = count_or(
        first_count(read_count(u, "completion_tokens"), read_count(u, "output_tokens")),
        0,
    );
    let stated_total: Option<i64> = read_count(u, "total_tokens");
    let total: i32 = match stated_total {
        Some(n) => low_i32(n),
        None => low_sum(prompt, completion),
    };
    let cache_read = first_count(
        read_count(u, "prompt_cache_hit_tokens"),
        first_count(
            read_nested(u, "prompt_tokens_details", "cached_tokens"),
            read_nested(u, "input_tokens_details", "cached_tokens"),
        ),
    );
    let cache_creation = read_count(u, "prompt_cache_miss_tokens");
    let thinking = read_nested(u, "completion_tokens_details", "reasoning_tokens");
    let audio_input = read_nested(u, "prompt_tokens_details", "audio_tokens");
    let audio_output = read_nested(u, "completion_tokens_details", "audio_tokens");
    let usage = UsageMetadata {
        prompt_token_count: low_i32(prompt),
        candidates_token_count: low_i32(completion),
        total_token_count: total,
        cache_read_input_token_count: cut(cache_read),
        cache_creation_input_token_count: cut(cache_creation),
        thinking_token_count: cut(thinking),
        audio_input_token_count: cut(audio_input),
        audio_output_token_count: cut(audio_output),
    };
    assert(usage == usage_counts(u@));
    if prompt != 0 || completion != 0 || is_not_zero(stated_total) || is_not_zero(cache_read)
        || is_not_zero(cache_creation) || is_not_zero(thinking) || is_not_zero(audio_input)
        || is_not_zero(audio_output) {
        Some(usage)
    } else {
        None
    }
}

/// Counts are handed on exactly where `usage` is an object that states one
/// other than zero: a placeholder never counts, and nothing else is passed over.
pub proof fn law_usage_is_never_empty(chunk: JsonView)
    ensures
        chunk_usage(chunk) is Some <==> (chunk.get("usage"@) matches Some(u) && u is Object
            && has_counts(u)),
        chunk_usage(chunk) matches Some(counts) ==> counts == usage_counts(
            chunk.get("usage"@)->Some_0,
        ),
{
}

/// The integer under a name, where there is one that fits in 64 bits.
pub open spec fn integer_at(object: JsonView, name: Seq<char>) -> Option<int> {
    match object.get(name) {
        Some(JsonView::Int(n)) => if i64::MIN <= n <= i64::MAX {
            Some(n)
        } else {
            None
        },
        _ => None,
    }
}

/// The integer under a name of a nested object.
pub open spec fn integer_within(object: JsonView, outer: Seq<char>, name: Seq<char>) -> Option<int> {
    match object.get(outer) {
        Some(inner) => integer_at(inner, name),
        None => None,
    }
}

/// A count is handed on: the same number where it fits in 32 bits, and its low
/// 32 bits otherwise.
#[verifier::opaque]
pub open spec fn handed_on_as(n: int, count: i32) -> bool {
    (count - n) % 0x1_0000_0000 == 0
}

proof fn lemma_handed_on(n: int)
    ensures
        handed_on_as(n, as_count(n)),
{
    reveal(handed_on_as);
}

proof fn lemma_optional(n: Option<int>)
    ensures
        optional_as(n, opt_count(n)),
{
    if n is Some {
        lemma_handed_on(n->Some_0);
    }
}

/// An optional count is handed on exactly where it is there.
pub open spec fn optional_as(n: Option<int>, count: Option<i32>) -> bool {
    match (n, count) {
        (Some(a), Some(b)) => handed_on_as(a, b),
        (None, None) => true,
        _ => false,
    }
}

/// Every count that a chunk states is handed on under its own field, whichever
/// dialect it is stated in.
pub proof fn law_every_count_reaches_its_field(chunk: JsonView, u: JsonView)
    requires
        chunk.get("usage"@) == Some(u),
        u is Object,
    ensures
        ({
            let prompt: int = match (
                integer_at(u, "prompt_tokens"@),
                integer_at(u, "input_tokens"@),
            ) {
                (Some(n), _) => n,
                (None, Some(n)) => n,
                (None, None) => 0,
            };
            let reply: int = match (
                integer_at(u, "completion_tokens"@),
                integer_at(u, "output_tokens"@),
            ) {
                (Some(n), _) => n,
                (None, Some(n)) => n,
                (None, None) => 0,
            };
            let cached = match (
                integer_at(u, "prompt_cache_hit_tokens"@),
                integer_within(u, "prompt_tokens_details"@, "cached_tokens"@),
            ) {
                (Some(n), _) => Some(n),
                (None, Some(n)) => Some(n),
                (None, None) => integer_within(u, "input_tokens_details"@, "cached_tokens"@),
            };
            chunk_usage(chunk) matches Some(c) ==> {
                &&& handed_on_as(prompt, c.prompt_token_count)
                &&& handed_on_as(reply, c.candidates_token_count)
                &&& match integer_at(u, "total_tokens"@) {
                    Some(n) => handed_on_as(n, c.total_token_count),
                    None => handed_on_as(prompt + reply, c.total_token_count),
                }
                &&& optional_as(cached, c.cache_read_input_token_count)
                &&& optional_as(
                    integer_at(u, "prompt_cache_miss_tokens"@),
                    c.cache_creation_input_token_count,
                )
                &&& optional_as(
                    integer_within(u, "completion_tokens_details"@, "reasoning_tokens"@),
                    c.thinking_token_count,
                )
                &&& optional_as(
                    integer_within(u, "prompt_tokens_details"@, "audio_tokens"@),
                    c.audio_input_token_count,
                )
                &&& optional_as(
                    integer_within(u, "completion_tokens_details"@, "audio_tokens"@),
                    c.audio_output_token_count,
                )
            }
        }),
{
    lemma_handed_on(prompt_count(u));
    lemma_handed_on(completion_count(u));
    lemma_handed_on(total_count(u));
    lemma_optional(cache_read_count(u));
    lemma_optional(count_at(u, "prompt_cache_miss_tokens"@));
    lemma_optional(nested_count(u, "completion_tokens_details"@, "reasoning_tokens"@));
    lemma_optional(nested_count(u, "prompt_tokens_details"@, "audio_tokens"@));
    lemma_optional(nested_count(u, "completion_tokens_details"@, "audio_tokens"@));
}

/// A chunk has counts where its `usage` states a number other than zero under
/// any of the names that are read; it has none where `usage` is not an object,
/// or states none.
pub proof fn law_a_stated_count_is_noticed(chunk: JsonView, u: JsonView, n: int)
    requires
        chunk.get("usage"@) == Some(u),
        n != 0,
    ensures
        !(u is Object) ==> chunk_usage(chunk) is None,
        integer_at(u, "prompt_tokens"@) == Some(n) ==> chunk_usage(chunk) is Some,
        integer_at(u, "completion_tokens"@) == Some(n) ==> chunk_usage(chunk) is Some,
        integer_at(u, "total_tokens"@) == Some(n) ==> chunk_usage(chunk) is Some,
        integer_at(u, "prompt_tokens"@) is None && integer_at(u, "input_tokens"@) == Some(n)
            ==> chunk_usage(chunk) is Some,
        integer_at(u, "completion_tokens"@) is None && integer_at(u, "output_tokens"@) == Some(n)
            ==> chunk_usage(chunk) is Some,
        integer_at(u, "prompt_cache_hit_tokens"@) == Some(n) ==> chunk_usage(chunk) is Some,
        integer_at(u, "prompt_cache_miss_tokens"@) == Some(n) ==> chunk_usage(chunk) is Some,
        integer_within(u, "completion_tokens_details"@, "reasoning_tokens"@) == Some(n)
            ==> chunk_usage(chunk) is Some,
        integer_within(u, "prompt_tokens_details"@, "audio_tokens"@) == Some(n) ==> chunk_usage(
            chunk,
        ) is Some,
        integer_within(u, "completion_tokens_details"@, "audio_tokens"@) == Some(n) ==> chunk_usage(
            chunk,
        ) is Some,
        (forall|name: Seq<char>| (#[trigger] integer_at(u, name)) matches Some(k) ==> k == 0) && (
        forall|outer: Seq<char>, name: Seq<char>|
            (#[trigger] integer_within(u, outer, name)) matches Some(k) ==> k == 0) ==> chunk_usage(
            chunk,
        ) is None,
{
    if (forall|name: Seq<char>| (#[trigger] integer_at(u, name)) matches Some(k) ==> k == 0) && (
    forall|outer: Seq<char>, name: Seq<char>|
        (#[trigger] integer_within(u, outer, name)) matches Some(k) ==> k == 0) {
        assert(integer_at(u, "prompt_tokens"@) == count_at(u, "prompt_tokens"@));
        assert(integer_at(u, "input_tokens"@) == count_at(u, "input_tokens"@));
        assert(integer_at(u, "completion_tokens"@) == count_at(u, "completion_tokens"@));
        assert(integer_at(u, "output_tokens"@) == count_at(u, "output_tokens"@));
        assert(integer_at(u, "total_tokens"@) == count_at(u, "total_tokens"@));
        assert(integer_at(u, "prompt_cache_hit_tokens"@) == count_at(
            u,
            "prompt_cache_hit_tokens"@,
        ));
        assert(integer_at(u, "prompt_cache_miss_tokens"@) == count_at(
            u,
            "prompt_cache_miss_tokens"@,
        ));
        lemma_within(u, "prompt_tokens_details"@, "cached_tokens"@);
        lemma_within(u, "input_tokens_details"@, "cached_tokens"@);
        lemma_within(u, "completion_tokens_details"@, "reasoning_tokens"@);
        lemma_within(u, "prompt_tokens_details"@, "audio_tokens"@);
        lemma_within(u, "completion_tokens_details"@, "audio_tokens"@);
    }
}

proof fn lemma_within(u: JsonView, outer: Seq<char>, name: Seq<char>)
    ensures
        integer_within(u, outer, name) == nested_count(u, outer, name),
{
}

/// A chunk without `usage` has no counts.
pub proof fn law_no_usage_no_counts(chunk: JsonView)
    requires
        chunk.get("usage"@) is None,
    ensures
        chunk_usage(chunk) is None,
{
}

} // verus!
