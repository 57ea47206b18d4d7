//! Extra headers that are stamped on every request.
//!
//! They are read once, when a client is made, so that a bad header is an error
//! there and not a panic at every request.

use crate::error::{AdkError, ErrorCategory, ErrorComponent, ErrorView};
use crate::text::{trim, trimmed};
use reqwest::header::{HeaderMap, HeaderName, HeaderValue, InvalidHeaderName, InvalidHeaderValue};
use vstd::prelude::*;
use vstd::string::*;
use vstd::utf8::*;

verus! {

// ---------------------------------------------------------------------
// The header types of reqwest
// ---------------------------------------------------------------------

/// A map from header names to values.
#[verifier::external_type_specification]
#[verifier::external_body]
#[verifier::reject_recursive_types(T)]
pub struct ExHeaderMap<T>(reqwest::header::HeaderMap<T>);

/// The name of a header.
#[verifier::external_type_specification]
#[verifier::external_body]
pub struct ExHeaderName(reqwest::header::HeaderName);

/// The value of a header.
#[verifier::external_type_specification]
#[verifier::external_body]
pub struct ExHeaderValue(reqwest::header::HeaderValue);

/// Says that a text is no header name.
#[verifier::external_type_specification]
#[verifier::external_body]
pub struct ExInvalidHeaderName(reqwest::header::InvalidHeaderName);

/// Says that a text is no header value.
#[verifier::external_type_specification]
#[verifier::external_body]
pub struct ExInvalidHeaderValue(reqwest::header::InvalidHeaderValue);

/// The value that a header map holds under each name.
pub uninterp spec fn headers_of(map: HeaderMap<HeaderValue>) -> Map<Seq<char>, Seq<u8>>;

/// The characters of a header name.
pub uninterp spec fn name_text(name: HeaderName) -> Seq<char>;

/// The bytes of a header value.
pub uninterp spec fn value_bytes(value: HeaderValue) -> Seq<u8>;

/// A character that a header name may hold.
pub open spec fn is_token_char(c: char) -> bool {
    ||| 'a' <= c <= 'z'
    ||| 'A' <= c <= 'Z'
    ||| '0' <= c <= '9'
    ||| c == '!'
    ||| c == '#'
    ||| c == '$'
    ||| c == '%'
    ||| c == '&'
    ||| c == '\''
    ||| c == '*'
    ||| c == '+'
    ||| c == '-'
    ||| c == '.'
    ||| c == '^'
    ||| c == '_'
    ||| c == '`'
    ||| c == '|'
    ||| c == '~'
}

/// A text that is a header name.
pub open spec fn is_header_name(s: Seq<char>) -> bool {
    &&& 1 <= s.len() <= 65535
    &&& forall|i: int| 0 <= i < s.len() ==> is_token_char(#[trigger] s[i])
}

/// A text that is a header value: no control character but the tab.
pub open spec fn is_header_value(s: Seq<char>) -> bool {
    forall|i: int|
        0 <= i < s.len() ==> ((#[trigger] s[i]) == '\t' || (s[i] as u32 >= 32 && s[i] as u32
            != 127))
}

/// The character in lower case, where it is an ASCII capital.
pub open spec fn lower_char(c: char) -> char {
    if 'A' <= c <= 'Z' {
        (c as u32 + 32) as char
    } else {
        c
    }
}

pub open spec fn lower(s: Seq<char>) -> Seq<char> {
    Seq::new(s.len(), |i: int| lower_char(s[i]))
}

/// `HeaderName::try_from` on a text: it succeeds exactly on one to 65535 token
/// characters, and the name is the text in lower case.
#[verifier::external_body]
fn header_name(text: &str) -> (r: Result<HeaderName, InvalidHeaderName>)
    ensures
        r is Ok <==> is_header_name(text@),
        r is Ok ==> name_text(r->Ok_0) == lower(text@),
{
    HeaderName::try_from(text)
}

/// `HeaderValue::try_from` on a text: it succeeds exactly where no byte is a
/// control character other than the tab, and the value is the text in UTF-8.
#[verifier::external_body]
fn header_value(text: &str) -> (r: Result<HeaderValue, InvalidHeaderValue>)
    ensures
        r is Ok <==> is_header_value(text@),
        r is Ok ==> value_bytes(r->Ok_0) == encode_utf8(text@),
{
    HeaderValue::try_from(text)
}

/// `Display` of `InvalidHeaderName`, which prints one fixed text.
#[verifier::external_body]
fn name_error_text(e: &InvalidHeaderName) -> (s: String)
    ensures
        s@ == "invalid HTTP header name"@,
{
    e.to_string()
}

/// `Display` of `InvalidHeaderValue`, which prints one fixed text.
#[verifier::external_body]
fn value_error_text(e: &InvalidHeaderValue) -> (s: String)
    ensures
        s@ == "failed to parse header value"@,
{
    e.to_string()
}

pub open spec fn no_headers() -> Map<Seq<char>, Seq<u8>> {
    Map::empty()
}

/// `HeaderMap::new`: a map that holds nothing.
#[verifier::external_body]
fn empty_map() -> (map: HeaderMap<HeaderValue>)
    ensures
        headers_of(map) == no_headers(),
{
    HeaderMap::new()
}

/// The number of names up to which a header map takes another header in any
/// case. Its table has at most 32768 places. Beyond this number a table of
/// that size may have to be doubled, which fails, because too many names
/// collide in it; a fifth of the places must be taken for that.
pub const SURE_NAMES: usize = 6553;

/// The number of names with which a header map is full: three quarters of
/// 32768 places are taken.
pub const MOST_NAMES: usize = 24576;

/// The names are few enough that a header map takes another header in any case.
pub open spec fn has_room(names: Set<Seq<char>>) -> bool {
    names.finite() && names.len() <= SURE_NAMES
}

/// The names are so many that a header map takes no further header.
pub open spec fn is_full(names: Set<Seq<char>>) -> bool {
    names.finite() && names.len() >= MOST_NAMES
}

/// `HeaderMap::try_insert`, and whether it succeeded: the value then stands
/// under the name, in place of any other that stood there, and otherwise the
/// map is as it was. It succeeds with few names, and fails with too many. In
/// between it rests on how the names collide in the map's table, under a hash
/// function that may be drawn at random; that is left open.
#[verifier::external_body]
fn insert_header(map: &mut HeaderMap<HeaderValue>, name: HeaderName, value: HeaderValue) -> (ok:
    bool)
    ensures
        ok ==> headers_of(*final(map)) == headers_of(*old(map)).insert(
            name_text(name),
            value_bytes(value),
        ),
        !ok ==> headers_of(*final(map)) == headers_of(*old(map)),
        has_room(headers_of(*old(map)).dom()) ==> ok,
        is_full(headers_of(*old(map)).dom()) ==> !ok,
{
    map.try_insert(name, value).is_ok()
}

// ---------------------------------------------------------------------
// Reading the pairs
// ---------------------------------------------------------------------

pub open spec fn pairs_view(pairs: Seq<(String, String)>) -> Seq<(Seq<char>, Seq<char>)> {
    Seq::new(pairs.len(), |i: int| (pairs[i].0@, pairs[i].1@))
}

pub open spec fn header_error(code: Seq<char>, message: Seq<char>) -> ErrorView {
    ErrorView::Coded {
        component: ErrorComponent::Model,
        category: ErrorCategory::InvalidInput,
        code,
        message,
        provider: None,
        upstream_status: None,
        should_retry: None,
    }
}

/// What is wrong with a pair. White space around either half does not count.
pub open spec fn pair_error(pair: (Seq<char>, Seq<char>)) -> Option<ErrorView> {
    let name = trimmed(pair.0);
    if !is_header_name(name) {
        Some(
            header_error(
                "model.headers.name"@,
                "invalid custom header name '"@ + name + "': "@ + "invalid HTTP header name"@,
            ),
        )
    } else if !is_header_value(trimmed(pair.1)) {
        Some(
            header_error(
                "model.headers.value"@,
                "invalid custom header value for '"@ + name + "': "@
                    + "failed to parse header value"@,
            ),
        )
    } else {
        None
    }
}

/// The name that a pair sets.
pub open spec fn pair_name(pair: (Seq<char>, Seq<char>)) -> Seq<char> {
    lower(trimmed(pair.0))
}

/// The value that a pair sets.
pub open spec fn pair_value(pair: (Seq<char>, Seq<char>)) -> Seq<u8> {
    encode_utf8(trimmed(pair.1))
}

/// The headers that pairs set one after the other, or the error of the first
/// pair that has one.
pub open spec fn headers_result(pairs: Seq<(Seq<char>, Seq<char>)>) -> Result<
    Map<Seq<char>, Seq<u8>>,
    ErrorView,
>
    decreases pairs.len(),
{
    if pairs.len() == 0 {
        Ok(Map::empty())
    } else {
        match headers_result(pairs.drop_last()) {
            Err(e) => Err(e),
            Ok(map) => match pair_error(pairs.last()) {
                Some(e) => Err(e),
                None => Ok(map.insert(pair_name(pairs.last()), pair_value(pairs.last()))),
            },
        }
    }
}

/// The names that pairs set.
pub open spec fn names_of(pairs: Seq<(Seq<char>, Seq<char>)>) -> Set<Seq<char>>
    decreases pairs.len(),
{
    if pairs.len() == 0 {
        Set::empty()
    } else {
        names_of(pairs.drop_last()).insert(pair_name(pairs.last()))
    }
}

/// The error of pairs that set more headers than a map takes.
pub open spec fn too_many_error() -> ErrorView {
    header_error("model.headers.count"@, "too many custom headers"@)
}

/// `r` can come of reading the pairs: the headers that they set, or the error
/// of the first pair that is wrong. The one other outcome is that the map takes
/// no further header at some pair, with none before it or at it wrong: that
/// happens only once there are more than [`SURE_NAMES`] names, and happens with
/// [`MOST_NAMES`] at the latest.
pub open spec fn headers_answer(
    pairs: Seq<(Seq<char>, Seq<char>)>,
    r: Result<Map<Seq<char>, Seq<u8>>, ErrorView>,
) -> bool {
    ||| r == headers_result(pairs) && (r is Ok ==> forall|n: int|
        0 <= n < pairs.len() ==> !is_full(names_of(#[trigger] pairs.take(n))))
    ||| r == Err::<Map<Seq<char>, Seq<u8>>, ErrorView>(too_many_error()) && exists|n: int|
        0 <= n < pairs.len() && !has_room(names_of(#[trigger] pairs.take(n))) && headers_result(
            pairs.take(n + 1),
        ) is Ok
}

proof fn lemma_names_of(pairs: Seq<(Seq<char>, Seq<char>)>, n: int)
    requires
        0 <= n <= pairs.len(),
    ensures
        names_of(pairs).finite(),
        names_of(pairs.take(n)).subset_of(names_of(pairs)),
        names_of(pairs.take(n)).finite(),
        headers_result(pairs.take(n)) matches Ok(map) ==> map.dom() == names_of(pairs.take(n)),
    decreases pairs.len(),
{
    if n < pairs.len() {
        lemma_names_of(pairs.drop_last(), n);
        assert(pairs.drop_last().take(n) =~= pairs.take(n));
    } else {
        assert(pairs.take(n) =~= pairs);
        if pairs.len() > 0 {
            lemma_names_of(pairs.drop_last(), pairs.len() - 1);
            assert(pairs.drop_last().take(pairs.len() - 1) =~= pairs.drop_last());
        }
        if headers_result(pairs) is Ok {
            assert(headers_result(pairs)->Ok_0.dom() =~= names_of(pairs));
        }
    }
}

/// Pairs set no more names than there are pairs.
proof fn lemma_no_more_names_than_pairs(pairs: Seq<(Seq<char>, Seq<char>)>)
    ensures
        names_of(pairs).finite(),
        names_of(pairs).len() <= pairs.len(),
    decreases pairs.len(),
{
    if pairs.len() > 0 {
        lemma_no_more_names_than_pairs(pairs.drop_last());
    }
}

proof fn lemma_first_error(pairs: Seq<(Seq<char>, Seq<char>)>, n: int, e: ErrorView)
    requires
        0 <= n <= pairs.len(),
        headers_result(pairs.take(n)) == Err::<Map<Seq<char>, Seq<u8>>, ErrorView>(e),
    ensures
        headers_result(pairs) == Err::<Map<Seq<char>, Seq<u8>>, ErrorView>(e),
    decreases pairs.len(),
{
    if n < pairs.len() {
        assert(pairs.drop_last().take(n) =~= pairs.take(n));
        lemma_first_error(pairs.drop_last(), n, e);
    } else {
        assert(pairs.take(n) =~= pairs);
    }
}

fn coded_error(code: &str, message: String) -> (e: AdkError)
    ensures
        e@ == header_error(code@, message@),
{
    AdkError::Coded {
        component: ErrorComponent::Model,
        category: ErrorCategory::InvalidInput,
        code: code.to_owned(),
        message,
        provider: None,
        upstream_status: None,
        should_retry: None,
    }
}

/// What a header map, or the error in its place, is.
pub open spec fn result_view(r: Result<HeaderMap<HeaderValue>, AdkError>) -> Result<
    Map<Seq<char>, Seq<u8>>,
    ErrorView,
> {
    match r {
        Ok(map) => Ok(headers_of(map)),
        Err(e) => Err(e@),
    }
}

/// Reads `(name, value)` pairs into a header map.
///
/// White space around a name or a value is dropped, and of several values for
/// one name the last counts. A bad name or value is an error, and so are more
/// names than a header map takes.
pub fn parse_extra_headers(pairs: &[(String, String)]) -> (r: Result<
    HeaderMap<HeaderValue>,
    AdkError,
>)
    ensures
        headers_answer(pairs_view(pairs@), result_view(r)),
{
    let ghost all = pairs_view(pairs@);
    let mut map: HeaderMap<HeaderValue> = empty_map();
    let mut i: usize = 0;
    assert(all.take(0) =~= Seq::<(Seq<char>, Seq<char>)>::empty());
    while i < pairs.len()
        invariant
            i <= pairs@.len(),
            all == pairs_view(pairs@),
            forall|n: int| 0 <= n < i ==> !is_full(names_of(#[trigger] all.take(n))),
            headers_result(all.take(i as int)) == Ok::<Map<Seq<char>, Seq<u8>>, ErrorView>(
                headers_of(map),
            ),
        decreases pairs@.len() - i,
    {
        let raw_name: String = trim(pairs[i].0.as_str());
        proof {
            assert(all.take(i + 1).drop_last() =~= all.take(i as int));
            assert(all.take(i + 1).last() == all[i as int]);
            lemma_names_of(all, i as int);
        }
        let name: HeaderName = match header_name(raw_name.as_str()) {
            Ok(n) => n,
            Err(e) => {
                let message: String = "invalid custom header name '".to_owned().concat(
                    raw_name.as_str(),
                ).concat("': ").concat(name_error_text(&e).as_str());
                let error: AdkError = coded_error("model.headers.name", message);
                proof {
                    lemma_first_error(all, i + 1, error@);
                }
                return Err(error);
            },
        };
        let value: HeaderValue = match header_value(trim(pairs[i].1.as_str()).as_str()) {
            Ok(v) => v,
            Err(e) => {
                let message: String = "invalid custom header value for '".to_owned().concat(
                    raw_name.as_str(),
                ).concat("': ").concat(value_error_text(&e).as_str());
                let error: AdkError = coded_error("model.headers.value", message);
                proof {
                    lemma_first_error(all, i + 1, error@);
                }
                return Err(error);
            },
        };
        if !insert_header(&mut map, name, value) {
            let error: AdkError = coded_error(
                "model.headers.count",
                "too many custom headers".to_owned(),
            );
            assert(!has_room(names_of(all.take(i as int))));
            assert(headers_result(all.take(i + 1)) is Ok);
            return Err(error);
        }
        i += 1;
    }
    assert(all.take(i as int) =~= all);
    Ok(map)
}

/// Up to [`SURE_NAMES`] pairs, or more that set no more names, are read in any
/// case: the outcome is the headers that they set, or the error of the first
/// that is wrong.
pub proof fn law_few_names_always_fit(
    pairs: Seq<(Seq<char>, Seq<char>)>,
    r: Result<Map<Seq<char>, Seq<u8>>, ErrorView>,
)
    requires
        pairs.len() <= SURE_NAMES || names_of(pairs).len() <= SURE_NAMES,
        headers_answer(pairs, r),
    ensures
        r == headers_result(pairs),
{
    lemma_no_more_names_than_pairs(pairs);
    assert forall|n: int| 0 <= n < pairs.len() implies has_room(
        names_of(#[trigger] pairs.take(n)),
    ) by {
        lemma_names_of(pairs, n);
        vstd::set_lib::lemma_len_subset(names_of(pairs.take(n)), names_of(pairs));
    }
}

/// Of several pairs for one name the last decides.
pub proof fn law_last_value_wins(pairs: Seq<(Seq<char>, Seq<char>)>, i: int)
    requires
        headers_result(pairs) is Ok,
        0 <= i < pairs.len(),
        forall|j: int| i < j < pairs.len() ==> pair_name(#[trigger] pairs[j]) != pair_name(pairs[i]),
    ensures
        headers_result(pairs)->Ok_0.dom().contains(pair_name(pairs[i])),
        headers_result(pairs)->Ok_0[pair_name(pairs[i])] == pair_value(pairs[i]),
    decreases pairs.len(),
{
    if i < pairs.len() - 1 {
        let less = pairs.drop_last();
        assert forall|j: int| i < j < less.len() implies pair_name(#[trigger] less[j]) != pair_name(
            less[i],
        ) by {
            assert(less[j] == pairs[j]);
        }
        law_last_value_wins(less, i);
        assert(pair_name(pairs[pairs.len() - 1]) != pair_name(pairs[i]));
    }
}

/// The pairs are accepted exactly where none of them is wrong.
pub proof fn law_accepted_iff_no_pair_is_wrong(pairs: Seq<(Seq<char>, Seq<char>)>)
    ensures
        headers_result(pairs) is Ok <==> (forall|i: int|
            0 <= i < pairs.len() ==> pair_error(#[trigger] pairs[i]) is None),
    decreases pairs.len(),
{
    if pairs.len() > 0 {
        let less = pairs.drop_last();
        law_accepted_iff_no_pair_is_wrong(less);
        if headers_result(pairs) is Ok {
            assert forall|i: int| 0 <= i < pairs.len() implies pair_error(#[trigger] pairs[i])
                is None by {
                if i < less.len() {
                    assert(less[i] == pairs[i]);
                }
            }
        } else if forall|i: int| 0 <= i < pairs.len() ==> pair_error(#[trigger] pairs[i]) is None {
            assert forall|i: int| 0 <= i < less.len() implies pair_error(#[trigger] less[i])
                is None by {
                assert(less[i] == pairs[i]);
            }
            assert(pair_error(pairs[pairs.len() - 1]) is None);
        }
    }
}

/// A pair sets the name in lower case, letter by letter, and the value in UTF-8,
/// both without the white space around them.
pub proof fn law_what_a_pair_sets(pair: (Seq<char>, Seq<char>), i: int)
    ensures
        pair_name(pair).len() == trimmed(pair.0).len(),
        0 <= i < pair_name(pair).len() ==> {
            let c = trimmed(pair.0)[i];
            &&& 'A' <= c <= 'Z' ==> pair_name(pair)[i] as int == c as int + ('a' as int
                - 'A' as int)
            &&& !('A' <= c <= 'Z') ==> pair_name(pair)[i] == c
        },
        pair_value(pair) == encode_utf8(trimmed(pair.1)),
{
}

/// The headers are those that the pairs set, and no others.
pub proof fn law_headers_are_those_that_are_set(
    pairs: Seq<(Seq<char>, Seq<char>)>,
    name: Seq<char>,
)
    requires
        headers_result(pairs) is Ok,
    ensures
        headers_result(pairs)->Ok_0.dom().contains(name) <==> exists|i: int|
            0 <= i < pairs.len() && pair_name(#[trigger] pairs[i]) == name,
    decreases pairs.len(),
{
    if pairs.len() > 0 {
        let less = pairs.drop_last();
        law_headers_are_those_that_are_set(less, name);
        if exists|i: int| 0 <= i < less.len() && pair_name(#[trigger] less[i]) == name {
            let i = choose|i: int| 0 <= i < less.len() && pair_name(#[trigger] less[i]) == name;
            assert(pair_name(pairs[i]) == name);
        }
        if exists|i: int| 0 <= i < pairs.len() && pair_name(#[trigger] pairs[i]) == name {
            let i = choose|i: int| 0 <= i < pairs.len() && pair_name(#[trigger] pairs[i]) == name;
            if i < less.len() {
                assert(pair_name(less[i]) == name);
            }
        }
        if pair_name(pairs.last()) == name {
            assert(pair_name(pairs[pairs.len() - 1]) == name);
        }
    }
}

/// An error about headers, as a model client reports it.
pub open spec fn is_header_error(e: ErrorView, code: Seq<char>, message: Seq<char>) -> bool {
    e == (ErrorView::Coded {
        component: ErrorComponent::Model,
        category: ErrorCategory::InvalidInput,
        code,
        message,
        provider: None,
        upstream_status: None,
        should_retry: None,
    })
}

/// A pair is wrong exactly where its name or its value is, without the white
/// space around them; a wrong name is reported before a wrong value.
pub proof fn law_which_pairs_are_wrong(pair: (Seq<char>, Seq<char>))
    ensures
        pair_error(pair) is None <==> is_header_name(trimmed(pair.0)) && is_header_value(
            trimmed(pair.1),
        ),
        !is_header_name(trimmed(pair.0)) ==> is_header_error(
            pair_error(pair)->Some_0,
            "model.headers.name"@,
            "invalid custom header name '"@ + trimmed(pair.0) + "': "@
                + "invalid HTTP header name"@,
        ),
        is_header_name(trimmed(pair.0)) && !is_header_value(trimmed(pair.1)) ==> is_header_error(
            pair_error(pair)->Some_0,
            "model.headers.value"@,
            "invalid custom header value for '"@ + trimmed(pair.0) + "': "@
                + "failed to parse header value"@,
        ),
        is_header_error(too_many_error(), "model.headers.count"@, "too many custom headers"@),
{
}

/// The first pair that is wrong is the one that is reported.
pub proof fn law_the_first_wrong_pair_is_reported(pairs: Seq<(Seq<char>, Seq<char>)>, k: int)
    requires
        0 <= k < pairs.len(),
        pair_error(pairs[k]) is Some,
        forall|i: int| 0 <= i < k ==> pair_error(#[trigger] pairs[i]) is None,
    ensures
        headers_result(pairs) == Err::<Map<Seq<char>, Seq<u8>>, ErrorView>(
            pair_error(pairs[k])->Some_0,
        ),
{
    let before = pairs.take(k);
    assert forall|i: int| 0 <= i < before.len() implies pair_error(#[trigger] before[i])
        is None by {
        assert(before[i] == pairs[i]);
    }
    law_accepted_iff_no_pair_is_wrong(before);
    let upto = pairs.take(k + 1);
    assert(upto.drop_last() =~= before);
    assert(upto.last() == pairs[k]);
    lemma_first_error(pairs, k + 1, pair_error(pairs[k])->Some_0);
}

/// A view leaves no pair out.
pub proof fn law_views_leave_nothing_out(pairs: Seq<(String, String)>, i: int)
    ensures
        pairs_view(pairs).len() == pairs.len(),
        0 <= i < pairs.len() ==> pairs_view(pairs)[i].0 == pairs[i].0@,
        0 <= i < pairs.len() ==> pairs_view(pairs)[i].1 == pairs[i].1@,
{
}

} // verus!
