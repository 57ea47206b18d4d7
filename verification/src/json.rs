//! JSON values as the library reads and builds them, and their link to
//! `serde_json`, which parses and prints them.

use crate::text::same_text;
use vstd::prelude::*;

verus! {

// ---------------------------------------------------------------------
// serde_json
// ---------------------------------------------------------------------

/// A parsed JSON value of `serde_json`.
#[verifier::external_type_specification]
#[verifier::external_body]
pub struct ExValue(serde_json::Value);

/// A JSON number of `serde_json`.
#[verifier::external_type_specification]
#[verifier::external_body]
pub struct ExNumber(serde_json::Number);

/// An error of `serde_json`.
#[verifier::external_type_specification]
#[verifier::external_body]
pub struct ExError(serde_json::Error);

/// What a `serde_json::Value` holds.
pub uninterp spec fn tree(value: serde_json::Value) -> JsonView;

/// What `serde_json::from_str` reads from a text: a value, or nothing where
/// the text is not JSON.
pub uninterp spec fn parsed(text: Seq<char>) -> Option<JsonView>;

/// What `Display` of `serde_json::Value` prints of a value.
pub uninterp spec fn rendered(value: JsonView) -> Seq<char>;

/// `serde_json::from_str` on a `Value`: it succeeds exactly on the texts that
/// `parsed` gives a value for, and the result holds that value.
#[verifier::external_body]
fn parse_value(text: &str) -> (r: Result<serde_json::Value, serde_json::Error>)
    ensures
        r is Ok <==> parsed(text@) is Some,
        r is Ok ==> tree(r->Ok_0) == parsed(text@)->Some_0,
{
    serde_json::from_str(text)
}

/// `Display` of `serde_json::Value`, through `to_string`: the text depends on
/// what the value holds, and on nothing else.
#[verifier::external_body]
fn value_text(value: &serde_json::Value) -> (text: String)
    ensures
        text@ == rendered(tree(*value)),
{
    value.to_string()
}

/// The outermost layer of a `serde_json::Value`.
pub enum Layer {
    Null,
    Bool(bool),
    Number(serde_json::Number),
    Str(String),
    Array(Vec<serde_json::Value>),
    Object(Vec<(String, serde_json::Value)>),
}

/// What `Number::as_u64` gives.
pub uninterp spec fn number_u64(n: serde_json::Number) -> Option<u64>;

/// What `Number::as_i64` gives.
pub uninterp spec fn number_i64(n: serde_json::Number) -> Option<i64>;

/// What a number holds: an integer where `serde_json` gives one.
pub open spec fn number_tree(n: serde_json::Number) -> JsonView {
    match (number_u64(n), number_i64(n)) {
        (Some(u), _) => JsonView::Int(u as int),
        (None, Some(i)) => JsonView::Int(i as int),
        (None, None) => JsonView::Float(n),
    }
}

/// `layer` is the outermost layer of a value that holds `view`. No name occurs
/// twice among the members of an object.
pub open spec fn is_layer_of(layer: Layer, view: JsonView) -> bool {
    match layer {
        Layer::Null => view == JsonView::Null,
        Layer::Bool(b) => view == JsonView::Bool(b),
        Layer::Number(n) => view == number_tree(n),
        Layer::Str(s) => view == JsonView::Str(s@),
        Layer::Array(items) => view matches JsonView::Array(all) && all == items@.map_values(
            |v: serde_json::Value| tree(v),
        ),
        Layer::Object(members) => view matches JsonView::Object(all) && all == members@.map_values(
            |m: (String, serde_json::Value)| (m.0@, tree(m.1)),
        ) && distinct_names(all),
    }
}

/// Takes the outermost layer off a `serde_json::Value`, variant by variant.
#[verifier::external_body]
fn take_layer(value: serde_json::Value) -> (layer: Layer)
    ensures
        is_layer_of(layer, tree(value)),
{
    match value {
        serde_json::Value::Null => Layer::Null,
        serde_json::Value::Bool(b) => Layer::Bool(b),
        serde_json::Value::Number(n) => Layer::Number(n),
        serde_json::Value::String(s) => Layer::Str(s),
        serde_json::Value::Array(items) => Layer::Array(items),
        serde_json::Value::Object(members) => Layer::Object(members.into_iter().collect()),
    }
}

/// Puts a `serde_json::Value` together from its outermost layer, variant by
/// variant. An object keeps the order of its members, since `serde_json` is
/// built with `preserve_order`, and loses none, since no name occurs twice.
#[verifier::external_body]
fn put_layer(layer: Layer) -> (value: serde_json::Value)
    requires
        layer matches Layer::Object(members) ==> distinct_names(
            members@.map_values(|m: (String, serde_json::Value)| (m.0@, tree(m.1))),
        ),
    ensures
        is_layer_of(layer, tree(value)),
{
    match layer {
        Layer::Null => serde_json::Value::Null,
        Layer::Bool(b) => serde_json::Value::Bool(b),
        Layer::Number(n) => serde_json::Value::Number(n),
        Layer::Str(s) => serde_json::Value::String(s),
        Layer::Array(items) => serde_json::Value::Array(items),
        Layer::Object(members) => serde_json::Value::Object(members.into_iter().collect()),
    }
}

/// `Number::as_u64`: the number as a `u64`, where it is one.
#[verifier::external_body]
fn as_unsigned(n: &serde_json::Number) -> (r: Option<u64>)
    ensures
        r == number_u64(*n),
{
    n.as_u64()
}

/// `Number::as_i64`: the number as an `i64`, where it is one.
#[verifier::external_body]
fn as_signed(n: &serde_json::Number) -> (r: Option<i64>)
    ensures
        r == number_i64(*n),
{
    n.as_i64()
}

/// `From<u64>` of `serde_json::Number`: a number that `as_u64` gives back.
#[verifier::external_body]
fn unsigned_number(n: u64) -> (r: serde_json::Number)
    ensures
        number_u64(r) == Some(n),
{
    serde_json::Number::from(n)
}

/// `From<i64>` of `serde_json::Number`: a number that `as_i64` gives back, and
/// that `as_u64` gives exactly where it is not negative.
#[verifier::external_body]
fn signed_number(n: i64) -> (r: serde_json::Number)
    ensures
        number_i64(r) == Some(n),
        number_u64(r) == (if n >= 0 {
            Some(n as u64)
        } else {
            None
        }),
{
    serde_json::Number::from(n)
}

/// `Clone` of `serde_json::Number`: the same number.
pub assume_specification[ <serde_json::Number as Clone>::clone ](
    n: &serde_json::Number,
) -> (r: serde_json::Number)
    ensures
        r == *n,
;

// ---------------------------------------------------------------------
// Values
// ---------------------------------------------------------------------

/// A JSON number that is no 64-bit integer, kept as `serde_json` holds it.
#[derive(Debug)]
pub struct JsonFloat {
    number: serde_json::Number,
}

/// The members of a JSON object, in order, no name occurring twice.
#[derive(Debug)]
pub struct JsonObject {
    entries: Vec<(String, Json)>,
}

/// A JSON value. `PosInt` and `NegInt` are the two ranges of 64-bit integers.
#[derive(Debug)]
pub enum Json {
    Null,
    Bool(bool),
    PosInt(u64),
    NegInt(i64),
    Float(JsonFloat),
    Str(String),
    Array(Vec<Json>),
    Object(JsonObject),
}

/// The mathematical JSON value: numbers are integers where they can be, and
/// an object is the sequence of its members.
#[verifier::ext_equal]
pub enum JsonView {
    Null,
    Bool(bool),
    Int(int),
    Float(serde_json::Number),
    Str(Seq<char>),
    Array(Seq<JsonView>),
    Object(Seq<(Seq<char>, JsonView)>),
}

impl View for JsonFloat {
    type V = serde_json::Number;

    closed spec fn view(&self) -> serde_json::Number {
        self.number
    }
}

pub open spec fn json_view(j: Json) -> JsonView
    decreases j,
{
    match j {
        Json::Null => JsonView::Null,
        Json::Bool(b) => JsonView::Bool(b),
        Json::PosInt(n) => JsonView::Int(n as int),
        Json::NegInt(n) => JsonView::Int(n as int),
        Json::Float(x) => JsonView::Float(x@),
        Json::Str(s) => JsonView::Str(s@),
        Json::Array(items) => JsonView::Array(
            Seq::new(
                items@.len(),
                |i: int|
                    if 0 <= i < items@.len() {
                        json_view(items@[i])
                    } else {
                        JsonView::Null
                    },
            ),
        ),
        Json::Object(o) => JsonView::Object(object_view(o)),
    }
}

pub closed spec fn object_view(o: JsonObject) -> Seq<(Seq<char>, JsonView)>
    decreases o,
{
    Seq::new(
        o.entries@.len(),
        |i: int|
            if 0 <= i < o.entries@.len() {
                (o.entries@[i].0@, json_view(o.entries@[i].1))
            } else {
                (Seq::empty(), JsonView::Null)
            },
    )
}

impl View for Json {
    type V = JsonView;

    open spec fn view(&self) -> JsonView {
        json_view(*self)
    }
}

impl View for JsonObject {
    type V = Seq<(Seq<char>, JsonView)>;

    open spec fn view(&self) -> Seq<(Seq<char>, JsonView)> {
        object_view(*self)
    }
}

// ---------------------------------------------------------------------
// Reading and changing values, mathematically
// ---------------------------------------------------------------------

/// No two members of an object have the same name.
pub open spec fn distinct_names<V>(entries: Seq<(Seq<char>, V)>) -> bool {
    forall|i: int, j: int|
        0 <= i < j < entries.len() ==> (#[trigger] entries[i]).0 != (#[trigger] entries[j]).0
}

/// The position of the first member called `name`, or the number of members.
pub open spec fn position<V>(entries: Seq<(Seq<char>, V)>, name: Seq<char>) -> int
    decreases entries.len(),
{
    if entries.len() == 0 {
        0
    } else if entries[0].0 == name {
        0
    } else {
        1 + position(entries.skip(1), name)
    }
}

/// The member of that name.
pub open spec fn lookup<V>(entries: Seq<(Seq<char>, V)>, name: Seq<char>) -> Option<V> {
    let i = position(entries, name);
    if i < entries.len() {
        Some(entries[i].1)
    } else {
        None
    }
}

/// The members with `name` set to `value`: a member of that name keeps its
/// place, a new one goes last.
pub open spec fn with_entry<V>(entries: Seq<(Seq<char>, V)>, name: Seq<char>, value: V) -> Seq<
    (Seq<char>, V),
> {
    let i = position(entries, name);
    if i < entries.len() {
        entries.update(i, (name, value))
    } else {
        entries.push((name, value))
    }
}

/// The members with all of `more` set, one after the other.
pub open spec fn with_entries<V>(
    entries: Seq<(Seq<char>, V)>,
    more: Seq<(Seq<char>, V)>,
) -> Seq<(Seq<char>, V)>
    decreases more.len(),
{
    if more.len() == 0 {
        entries
    } else {
        with_entry(with_entries(entries, more.drop_last()), more.last().0, more.last().1)
    }
}

/// The members with `name` set, where there is a value to set it to.
pub open spec fn with_opt<V>(
    entries: Seq<(Seq<char>, V)>,
    name: Seq<char>,
    value: Option<V>,
) -> Seq<(Seq<char>, V)> {
    match value {
        Some(v) => with_entry(entries, name, v),
        None => entries,
    }
}

/// What an optional value holds.
pub open spec fn opt_json(j: Option<Json>) -> Option<JsonView> {
    match j {
        Some(v) => Some(v@),
        None => None,
    }
}

impl JsonView {
    /// The member called `name`, where this is an object that has one.
    pub open spec fn get(self, name: Seq<char>) -> Option<JsonView> {
        match self {
            JsonView::Object(entries) => lookup(entries, name),
            _ => None,
        }
    }

    /// The item at `i`, where this is an array that is long enough.
    pub open spec fn at(self, i: int) -> Option<JsonView> {
        match self {
            JsonView::Array(items) => if 0 <= i < items.len() {
                Some(items[i])
            } else {
                None
            },
            _ => None,
        }
    }

    pub open spec fn as_i64(self) -> Option<int> {
        match self {
            JsonView::Int(n) => if i64::MIN <= n <= i64::MAX {
                Some(n)
            } else {
                None
            },
            _ => None,
        }
    }

    pub open spec fn as_u64(self) -> Option<int> {
        match self {
            JsonView::Int(n) => if 0 <= n <= u64::MAX {
                Some(n)
            } else {
                None
            },
            _ => None,
        }
    }

    pub open spec fn as_str(self) -> Option<Seq<char>> {
        match self {
            JsonView::Str(s) => Some(s),
            _ => None,
        }
    }
}

pub proof fn lemma_position<V>(entries: Seq<(Seq<char>, V)>, name: Seq<char>)
    ensures
        0 <= position(entries, name) <= entries.len(),
        position(entries, name) < entries.len() ==> entries[position(entries, name)].0 == name,
        forall|i: int|
            0 <= i < position(entries, name) ==> (#[trigger] entries[i]).0 != name,
    decreases entries.len(),
{
    if entries.len() > 0 && entries[0].0 != name {
        lemma_position(entries.skip(1), name);
        assert forall|i: int| 0 <= i < position(entries, name) implies (#[trigger] entries[i]).0
            != name by {
            if i > 0 {
                assert(entries[i] == entries.skip(1)[i - 1]);
            }
        }
    }
}

pub proof fn lemma_position_is<V>(entries: Seq<(Seq<char>, V)>, name: Seq<char>, at: int)
    requires
        0 <= at <= entries.len(),
        at < entries.len() ==> entries[at].0 == name,
        forall|i: int| 0 <= i < at ==> (#[trigger] entries[i]).0 != name,
    ensures
        position(entries, name) == at,
    decreases entries.len(),
{
    lemma_position(entries, name);
    let p = position(entries, name);
    if p < at {
        assert(entries[p].0 == name);
    }
    if at < p {
        assert(entries[at].0 == name);
    }
}

/// Setting a member keeps the names distinct.
pub proof fn lemma_with_entry_distinct<V>(
    entries: Seq<(Seq<char>, V)>,
    name: Seq<char>,
    value: V,
)
    requires
        distinct_names(entries),
    ensures
        distinct_names(with_entry(entries, name, value)),
{
    lemma_position(entries, name);
    let after = with_entry(entries, name, value);
    let p = position(entries, name);
    assert forall|i: int, j: int| 0 <= i < j < after.len() implies (#[trigger] after[i]).0 != (
    #[trigger] after[j]).0 by {
        assert(after[i].0 == if i == p { name } else { entries[i].0 });
        assert(after[j].0 == if j == p { name } else { entries[j].0 });
        if i != p && j < entries.len() {
            let a = entries[i];
            let b = entries[j];
            assert(a.0 != b.0);
        }
        if i == p && p < entries.len() {
            let a = entries[i];
            let b = entries[j];
            assert(a.0 != b.0);
        }
    }
}

/// A member that was set is found again, and no other member is touched.
pub proof fn law_set_then_get<V>(
    entries: Seq<(Seq<char>, V)>,
    name: Seq<char>,
    value: V,
    other: Seq<char>,
)
    ensures
        lookup(with_entry(entries, name, value), name) == Some(value),
        other != name ==> lookup(with_entry(entries, name, value), other) == lookup(entries, other),
{
    lemma_position(entries, name);
    lemma_position(entries, other);
    let p = position(entries, name);
    let q = position(entries, other);
    let after = with_entry(entries, name, value);
    assert forall|i: int| 0 <= i < p implies (#[trigger] after[i]).0 != name by {
        assert(entries[i].0 != name);
    }
    lemma_position_is(after, name, p);
    if other != name {
        let at = if q < entries.len() { q } else { after.len() as int };
        assert forall|i: int| 0 <= i < at implies (#[trigger] after[i]).0 != other by {
            if i < entries.len() {
                assert(i != p ==> entries[i].0 != other);
            }
        }
        lemma_position_is(after, other, at);
    }
}

// ---------------------------------------------------------------------
// Values at run time
// ---------------------------------------------------------------------

impl JsonObject {
    #[verifier::type_invariant]
    closed spec fn names_are_distinct(self) -> bool {
        distinct_names(object_view(self))
    }

    /// The object without members.
    pub fn new() -> (o: JsonObject)
        ensures
            o@ == Seq::<(Seq<char>, JsonView)>::empty(),
    {
        let o = JsonObject { entries: Vec::new() };
        assert(o@ =~= Seq::<(Seq<char>, JsonView)>::empty());
        o
    }

    /// The number of members.
    pub fn len(&self) -> (n: usize)
        ensures
            n == self@.len(),
    {
        self.entries.len()
    }

    /// The name of the member at `i`.
    pub fn name_at(&self, i: usize) -> (name: &String)
        requires
            i < self@.len(),
        ensures
            name@ == self@[i as int].0,
    {
        &self.entries[i].0
    }

    /// The value of the member at `i`.
    pub fn value_at(&self, i: usize) -> (value: &Json)
        requires
            i < self@.len(),
        ensures
            value@ == self@[i as int].1,
    {
        &self.entries[i].1
    }

    /// The position of the member called `name`, or the number of members.
    fn find(&self, name: &str) -> (at: usize)
        ensures
            at == position(self@, name@),
    {
        let mut i: usize = 0;
        while i < self.entries.len()
            invariant
                i <= self.entries@.len(),
                self@.len() == self.entries@.len(),
                forall|k: int| 0 <= k < i ==> (#[trigger] self@[k]).0 != name@,
            decreases self.entries@.len() - i,
        {
            if same_text(self.entries[i].0.as_str(), name) {
                proof {
                    lemma_position_is(self@, name@, i as int);
                }
                return i;
            }
            i += 1;
        }
        proof {
            lemma_position_is(self@, name@, i as int);
        }
        i
    }

    /// The member called `name`.
    pub fn get(&self, name: &str) -> (value: Option<&Json>)
        ensures
            match value {
                Some(v) => lookup(self@, name@) == Some(v@),
                None => lookup(self@, name@) is None,
            },
    {
        let at: usize = self.find(name);
        proof {
            lemma_position(self@, name@);
        }
        if at < self.entries.len() {
            Some(&self.entries[at].1)
        } else {
            None
        }
    }

    /// Sets the member called `name`.
    pub fn insert(&mut self, name: String, value: Json)
        ensures
            final(self)@ == with_entry(old(self)@, name@, value@),
    {
        let at: usize = self.find(name.as_str());
        proof {
            use_type_invariant(&*self);
            lemma_position(self@, name@);
            lemma_with_entry_distinct(self@, name@, value@);
        }
        let ghost before = self@;
        let ghost name_view = name@;
        let ghost value_view = value@;
        let mut entries: Vec<(String, Json)> = Vec::new();
        std::mem::swap(&mut entries, &mut self.entries);
        let ghost kept = entries@;
        if at < entries.len() {
            entries.set(at, (name, value));
        } else {
            entries.push((name, value));
        }
        assert(object_view(JsonObject { entries }) =~= with_entry(before, name_view, value_view));
        self.entries = entries;
    }
}

impl JsonFloat {
    #[verifier::type_invariant]
    closed spec fn is_no_integer(self) -> bool {
        number_u64(self.number) is None && number_i64(self.number) is None
    }

    fn copy(&self) -> (r: JsonFloat)
        ensures
            r@ == self@,
    {
        proof {
            use_type_invariant(self);
        }
        JsonFloat { number: self.number.clone() }
    }
}

/// The items from last to first.
fn reversed<T>(items: Vec<T>) -> (r: Vec<T>)
    ensures
        r@ == items@.reverse(),
{
    let ghost all = items@;
    let mut items: Vec<T> = items;
    let mut r: Vec<T> = Vec::new();
    while items.len() > 0
        invariant
            items@ == all.take(items@.len() as int),
            items@.len() <= all.len(),
            r@.len() == all.len() - items@.len(),
            forall|k: int| 0 <= k < r@.len() ==> #[trigger] r@[k] == all[all.len() - 1 - k],
        decreases items@.len(),
    {
        match items.pop() {
            Some(item) => {
                r.push(item);
                assert(items@ =~= all.take(items@.len() as int));
            },
            None => {},
        }
    }
    assert(r@ =~= all.reverse());
    r
}

fn read_value(value: serde_json::Value) -> (j: Json)
    ensures
        j@ == tree(value),
    decreases tree(value),
{
    let ghost whole = tree(value);
    match take_layer(value) {
        Layer::Null => Json::Null,
        Layer::Bool(b) => Json::Bool(b),
        Layer::Number(n) => match (as_unsigned(&n), as_signed(&n)) {
            (Some(u), _) => Json::PosInt(u),
            (None, Some(i)) => Json::NegInt(i),
            (None, None) => Json::Float(JsonFloat { number: n }),
        },
        Layer::Str(s) => Json::Str(s),
        Layer::Array(items) => {
            let ghost all = whole->Array_0;
            let mut remaining: Vec<serde_json::Value> = reversed(items);
            let mut out: Vec<Json> = Vec::new();
            while remaining.len() > 0
                invariant
                    whole == tree(value),
                    whole == JsonView::Array(all),
                    out@.len() + remaining@.len() == all.len(),
                    forall|k: int| 0 <= k < out@.len() ==> (#[trigger] out@[k])@ == all[k],
                    forall|k: int|
                        0 <= k < remaining@.len() ==> tree(#[trigger] remaining@[k]) == all[all.len()
                            - 1 - k],
                decreases remaining@.len(),
            {
                match remaining.pop() {
                    Some(item) => {
                        proof {
                            let i = out@.len() as int;
                            assert(tree(item) == all[i]);
                            assert(decreases_to!(whole => whole->Array_0));
                            assert(decreases_to!(whole->Array_0 => whole->Array_0[i]));
                        }
                        out.push(read_value(item));
                    },
                    None => {},
                }
            }
            let j = Json::Array(out);
            assert(j@->Array_0 =~= all);
            j
        },
        Layer::Object(members) => {
            let ghost all = whole->Object_0;
            let mut remaining: Vec<(String, serde_json::Value)> = reversed(members);
            let mut entries: Vec<(String, Json)> = Vec::new();
            while remaining.len() > 0
                invariant
                    whole == tree(value),
                    whole == JsonView::Object(all),
                    entries@.len() + remaining@.len() == all.len(),
                    forall|k: int|
                        0 <= k < entries@.len() ==> (#[trigger] entries@[k]).0@ == all[k].0
                            && entries@[k].1@ == all[k].1,
                    forall|k: int|
                        0 <= k < remaining@.len() ==> (#[trigger] remaining@[k]).0@ == all[all.len()
                            - 1 - k].0 && tree(remaining@[k].1) == all[all.len() - 1 - k].1,
                decreases remaining@.len(),
            {
                match remaining.pop() {
                    Some((name, item)) => {
                        proof {
                            let i = entries@.len() as int;
                            assert(tree(item) == all[i].1);
                            assert(decreases_to!(whole => whole->Object_0));
                            assert(decreases_to!(whole->Object_0 => whole->Object_0[i]));
                            assert(decreases_to!(whole->Object_0[i] => whole->Object_0[i].1));
                        }
                        entries.push((name, read_value(item)));
                    },
                    None => {},
                }
            }
            assert(object_view(JsonObject { entries }) =~= all);
            Json::Object(JsonObject { entries })
        },
    }
}

fn write_value(j: &Json) -> (value: serde_json::Value)
    ensures
        tree(value) == j@,
    decreases j,
{
    match j {
        Json::Null => put_layer(Layer::Null),
        Json::Bool(b) => put_layer(Layer::Bool(*b)),
        Json::PosInt(n) => put_layer(Layer::Number(unsigned_number(*n))),
        Json::NegInt(n) => put_layer(Layer::Number(signed_number(*n))),
        Json::Float(x) => {
            proof {
                use_type_invariant(x);
            }
            put_layer(Layer::Number(x.number.clone()))
        },
        Json::Str(s) => put_layer(Layer::Str(s.clone())),
        Json::Array(items) => {
            let mut out: Vec<serde_json::Value> = Vec::new();
            let mut i: usize = 0;
            while i < items.len()
                invariant
                    i <= items@.len(),
                    *items == j->Array_0,
                    j is Array,
                    out@.len() == i,
                    forall|k: int| 0 <= k < i ==> tree(#[trigger] out@[k]) == items@[k]@,
                decreases items@.len() - i,
            {
                assert(decreases_to!(j => j->Array_0));
                assert(decreases_to!(*items => items@));
                assert(decreases_to!(items@ => items@[i as int]));
                out.push(write_value(&items[i]));
                i += 1;
            }
            let ghost trees = out@.map_values(|v: serde_json::Value| tree(v));
            assert(trees =~= j@->Array_0);
            put_layer(Layer::Array(out))
        },
        Json::Object(o) => write_object(o),
    }
}

fn write_object(o: &JsonObject) -> (value: serde_json::Value)
    ensures
        tree(value) == JsonView::Object(o@),
    decreases o,
{
    let mut out: Vec<(String, serde_json::Value)> = Vec::new();
    let mut i: usize = 0;
    while i < o.entries.len()
        invariant
            i <= o.entries@.len(),
            out@.len() == i,
            forall|k: int|
                0 <= k < i ==> (#[trigger] out@[k]).0@ == o.entries@[k].0@ && tree(out@[k].1)
                    == o.entries@[k].1@,
        decreases o.entries@.len() - i,
    {
        assert(decreases_to!(o => o.entries));
        assert(decreases_to!(o.entries => o.entries@));
        assert(decreases_to!(o.entries@ => o.entries@[i as int]));
        assert(decreases_to!(o.entries@[i as int] => o.entries@[i as int].1));
        out.push((o.entries[i].0.clone(), write_value(&o.entries[i].1)));
        i += 1;
    }
    proof {
        use_type_invariant(o);
    }
    let ghost members = out@.map_values(|m: (String, serde_json::Value)| (m.0@, tree(m.1)));
    assert(members =~= o@);
    put_layer(Layer::Object(out))
}

impl Json {
    /// The value that a `serde_json::Value` holds.
    pub fn from_value(value: serde_json::Value) -> (j: Json)
        ensures
            j@ == tree(value),
    {
        read_value(value)
    }

    /// A `serde_json::Value` that holds this value.
    pub fn to_value(&self) -> (value: serde_json::Value)
        ensures
            tree(value) == self@,
    {
        write_value(self)
    }

    /// Reads a JSON text.
    pub fn parse(text: &str) -> (j: Option<Json>)
        ensures
            match j {
                Some(v) => parsed(text@) == Some(v@),
                None => parsed(text@) is None,
            },
    {
        match parse_value(text) {
            Ok(v) => Some(read_value(v)),
            Err(_) => None,
        }
    }

    /// The compact JSON text of this value.
    pub fn to_text(&self) -> (text: String)
        ensures
            text@ == rendered(self@),
    {
        value_text(&write_value(self))
    }

    /// A string value.
    pub fn string(text: &str) -> (j: Json)
        ensures
            j@ == JsonView::Str(text@),
    {
        Json::Str(text.to_owned())
    }

    /// The member called `name`, where this is an object that has one.
    pub fn get(&self, name: &str) -> (value: Option<&Json>)
        ensures
            match value {
                Some(v) => self@.get(name@) == Some(v@),
                None => self@.get(name@) is None,
            },
    {
        match self {
            Json::Object(o) => o.get(name),
            _ => None,
        }
    }

    /// The item at `i`, where this is an array that is long enough.
    pub fn at(&self, i: usize) -> (value: Option<&Json>)
        ensures
            match value {
                Some(v) => self@.at(i as int) == Some(v@),
                None => self@.at(i as int) is None,
            },
    {
        match self {
            Json::Array(items) => if i < items.len() {
                Some(&items[i])
            } else {
                None
            },
            _ => None,
        }
    }

    pub fn is_object(&self) -> (b: bool)
        ensures
            b == (self@ is Object),
    {
        match self {
            Json::Object(_) => true,
            _ => false,
        }
    }

    pub fn as_i64(&self) -> (n: Option<i64>)
        ensures
            match n {
                Some(v) => self@.as_i64() == Some(v as int),
                None => self@.as_i64() is None,
            },
    {
        match self {
            Json::PosInt(n) => if *n <= 0x7fff_ffff_ffff_ffff {
                Some(*n as i64)
            } else {
                None
            },
            Json::NegInt(n) => Some(*n),
            _ => None,
        }
    }

    pub fn as_u64(&self) -> (n: Option<u64>)
        ensures
            match n {
                Some(v) => self@.as_u64() == Some(v as int),
                None => self@.as_u64() is None,
            },
    {
        match self {
            Json::PosInt(n) => Some(*n),
            Json::NegInt(n) => if *n >= 0 {
                Some(*n as u64)
            } else {
                None
            },
            _ => None,
        }
    }

    pub fn as_str(&self) -> (s: Option<&str>)
        ensures
            match s {
                Some(v) => self@.as_str() == Some(v@),
                None => self@.as_str() is None,
            },
    {
        match self {
            Json::Str(s) => Some(s.as_str()),
            _ => None,
        }
    }

    /// A value that holds the same as this one.
    pub fn copy(&self) -> (r: Json)
        ensures
            r@ == self@,
        decreases self,
    {
        match self {
            Json::Null => Json::Null,
            Json::Bool(b) => Json::Bool(*b),
            Json::PosInt(n) => Json::PosInt(*n),
            Json::NegInt(n) => Json::NegInt(*n),
            Json::Float(x) => Json::Float(x.copy()),
            Json::Str(s) => Json::Str(s.clone()),
            Json::Array(items) => {
                let mut out: Vec<Json> = Vec::new();
                let mut i: usize = 0;
                while i < items.len()
                    invariant
                        i <= items@.len(),
                        *items == self->Array_0,
                        self is Array,
                        out@.len() == i,
                        forall|k: int| 0 <= k < i ==> (#[trigger] out@[k])@ == items@[k]@,
                    decreases items@.len() - i,
                {
                    assert(decreases_to!(self => self->Array_0));
                    assert(decreases_to!(*items => items@));
                    assert(decreases_to!(items@ => items@[i as int]));
                    out.push(items[i].copy());
                    i += 1;
                }
                let r = Json::Array(out);
                assert(r@->Array_0 =~= self@->Array_0);
                r
            },
            Json::Object(o) => Json::Object(o.copy()),
        }
    }
}

impl JsonObject {
    /// An object with the same members.
    pub fn copy(&self) -> (r: JsonObject)
        ensures
            r@ == self@,
        decreases self,
    {
        let mut out: Vec<(String, Json)> = Vec::new();
        let mut i: usize = 0;
        while i < self.entries.len()
            invariant
                i <= self.entries@.len(),
                out@.len() == i,
                forall|k: int|
                    0 <= k < i ==> (#[trigger] out@[k]).0@ == self.entries@[k].0@ && out@[k].1@
                        == self.entries@[k].1@,
            decreases self.entries@.len() - i,
        {
            assert(decreases_to!(self => self.entries));
            assert(decreases_to!(self.entries => self.entries@));
            assert(decreases_to!(self.entries@ => self.entries@[i as int]));
            assert(decreases_to!(self.entries@[i as int] => self.entries@[i as int].1));
            out.push((self.entries[i].0.clone(), self.entries[i].1.copy()));
            i += 1;
        }
        proof {
            use_type_invariant(self);
        }
        assert(object_view(JsonObject { entries: out }) =~= self@);
        JsonObject { entries: out }
    }

    /// Sets the member called `name`, where there is a value to set it to.
    pub fn insert_opt(&mut self, name: &str, value: Option<Json>)
        ensures
            final(self)@ == with_opt(old(self)@, name@, opt_json(value)),
    {
        match value {
            Some(v) => {
                self.insert(name.to_owned(), v);
            },
            None => {},
        }
    }

    /// Sets all members of `more`, one after the other.
    pub fn insert_all(&mut self, more: &JsonObject)
        ensures
            final(self)@ == with_entries(old(self)@, more@),
    {
        let ghost before = self@;
        let mut i: usize = 0;
        assert(more@.take(0) =~= Seq::<(Seq<char>, JsonView)>::empty());
        while i < more.len()
            invariant
                i <= more@.len(),
                self@ == with_entries(before, more@.take(i as int)),
            decreases more@.len() - i,
        {
            assert(more@.take(i + 1).drop_last() =~= more@.take(i as int));
            self.insert(more.name_at(i).clone(), more.value_at(i).copy());
            i += 1;
        }
        assert(more@.take(i as int) =~= more@);
    }
}

/// An optional value that holds the same.
pub fn copy_opt_json(j: &Option<Json>) -> (r: Option<Json>)
    ensures
        opt_json(r) == opt_json(*j),
{
    match j {
        Some(v) => Some(v.copy()),
        None => None,
    }
}

// ---------------------------------------------------------------------
// Laws
// ---------------------------------------------------------------------

/// A member is found under its name, and a name that no member has is not
/// found.
pub proof fn law_a_member_is_found_under_its_name<V>(
    entries: Seq<(Seq<char>, V)>,
    name: Seq<char>,
    i: int,
)
    requires
        distinct_names(entries),
    ensures
        0 <= i < entries.len() ==> lookup(entries, entries[i].0) == Some(entries[i].1),
        (forall|k: int| 0 <= k < entries.len() ==> (#[trigger] entries[k]).0 != name) ==> lookup(
            entries,
            name,
        ) is None,
{
    if 0 <= i < entries.len() {
        assert forall|k: int| 0 <= k < i implies (#[trigger] entries[k]).0 != entries[i].0 by {}
        lemma_position_is(entries, entries[i].0, i);
    }
    if forall|k: int| 0 <= k < entries.len() ==> (#[trigger] entries[k]).0 != name {
        lemma_position_is(entries, name, entries.len() as int);
    }
}

/// Setting a member leaves every other where it is; a new one goes last.
pub proof fn law_setting_keeps_the_order<V>(
    entries: Seq<(Seq<char>, V)>,
    name: Seq<char>,
    value: V,
)
    ensures
        ({
            let after = with_entry(entries, name, value);
            &&& forall|i: int|
                0 <= i < entries.len() ==> (#[trigger] after[i]).0 == entries[i].0 && (
                entries[i].0 != name ==> after[i].1 == entries[i].1)
            &&& if exists|i: int| 0 <= i < entries.len() && (#[trigger] entries[i]).0 == name {
                after.len() == entries.len()
            } else {
                after == entries.push((name, value))
            }
        }),
{
    lemma_position(entries, name);
    if exists|i: int| 0 <= i < entries.len() && (#[trigger] entries[i]).0 == name {
        let i = choose|i: int| 0 <= i < entries.len() && (#[trigger] entries[i]).0 == name;
        assert(entries[i].0 == name);
    }
}

/// The value that the last of several members of one name has.
pub open spec fn last_of<V>(entries: Seq<(Seq<char>, V)>, name: Seq<char>) -> Option<V>
    decreases entries.len(),
{
    if entries.len() == 0 {
        None
    } else if entries.last().0 == name {
        Some(entries.last().1)
    } else {
        last_of(entries.drop_last(), name)
    }
}

/// Setting several members sets each to the last value given for it, and leaves
/// the others alone.
pub proof fn law_setting_several<V>(
    entries: Seq<(Seq<char>, V)>,
    more: Seq<(Seq<char>, V)>,
    name: Seq<char>,
)
    ensures
        lookup(with_entries(entries, more), name) == (match last_of(more, name) {
            Some(v) => Some(v),
            None => lookup(entries, name),
        }),
    decreases more.len(),
{
    if more.len() > 0 {
        law_setting_several(entries, more.drop_last(), name);
        law_set_then_get(
            with_entries(entries, more.drop_last()),
            more.last().0,
            more.last().1,
            name,
        );
    }
}

/// An optional member is set exactly where there is a value.
pub proof fn law_setting_an_optional_member<V>(
    entries: Seq<(Seq<char>, V)>,
    name: Seq<char>,
    value: Option<V>,
    other: Seq<char>,
)
    ensures
        lookup(with_opt(entries, name, value), other) == (if other == name && value is Some {
            value
        } else {
            lookup(entries, other)
        }),
        value is None ==> with_opt(entries, name, value) == entries,
{
    if value is Some {
        law_set_then_get(entries, name, value->Some_0, other);
    }
}

/// A value is read as what it is, and as nothing else.
pub proof fn law_a_value_is_read_as_what_it_is(v: JsonView, name: Seq<char>, i: int)
    ensures
        v.as_str() == (match v {
            JsonView::Str(s) => Some(s),
            _ => None,
        }),
        v.as_i64() == (match v {
            JsonView::Int(n) => if -0x8000_0000_0000_0000 <= n < 0x8000_0000_0000_0000 {
                Some(n)
            } else {
                None
            },
            _ => None,
        }),
        v.as_u64() == (match v {
            JsonView::Int(n) => if 0 <= n < 0x1_0000_0000_0000_0000 {
                Some(n)
            } else {
                None
            },
            _ => None,
        }),
        v.at(i) == (match v {
            JsonView::Array(items) => if 0 <= i < items.len() {
                Some(items[i])
            } else {
                None
            },
            _ => None,
        }),
        v.get(name) == (match v {
            JsonView::Object(entries) => lookup(entries, name),
            _ => None,
        }),
{
}

} // verus!
