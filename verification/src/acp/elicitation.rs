//! Questions that an agent asks a client within a turn.

use crate::json::{distinct_names, with_entry};
use crate::text::{signed_decimal, signed_decimal_text, texts};
use vstd::prelude::*;

verus! {

/// One of the answers to choose from.
pub struct FieldOption {
    pub value: String,
    pub title: String,
}

pub enum FieldKind {
    Text,
    SingleSelect { options: Vec<FieldOption> },
    MultiSelect { options: Vec<FieldOption> },
}

/// A question.
pub struct ElicitationField {
    pub name: String,
    pub title: String,
    pub kind: FieldKind,
}

/// A property of the form that a client shows.
pub enum Property {
    /// A string, one of `one_of` where that is given.
    Text { title: String, one_of: Option<Vec<(String, String)>> },
    /// A list of strings, each one of the options.
    Selection { title: String, options: Vec<(String, String)> },
}

#[verifier::ext_equal]
pub enum PropertyView {
    Text { title: Seq<char>, one_of: Option<Seq<(Seq<char>, Seq<char>)>> },
    Selection { title: Seq<char>, options: Seq<(Seq<char>, Seq<char>)> },
}

pub open spec fn pairs_view(pairs: Seq<(String, String)>) -> Seq<(Seq<char>, Seq<char>)> {
    Seq::new(pairs.len(), |i: int| (pairs[i].0@, pairs[i].1@))
}

impl View for Property {
    type V = PropertyView;

    open spec fn view(&self) -> PropertyView {
        match *self {
            Property::Text { title, one_of } => PropertyView::Text {
                title: title@,
                one_of: match one_of {
                    Some(options) => Some(pairs_view(options@)),
                    None => None,
                },
            },
            Property::Selection { title, options } => PropertyView::Selection {
                title: title@,
                options: pairs_view(options@),
            },
        }
    }
}

/// A property of the form, under its name. All are required.
pub struct FormEntry {
    pub name: String,
    pub property: Property,
    pub required: bool,
}

#[verifier::ext_equal]
pub struct FormEntryView {
    pub name: Seq<char>,
    pub property: PropertyView,
    pub required: bool,
}

impl View for FormEntry {
    type V = FormEntryView;

    open spec fn view(&self) -> FormEntryView {
        FormEntryView { name: self.name@, property: self.property@, required: self.required }
    }
}

pub open spec fn option_pairs(options: Seq<FieldOption>) -> Seq<(Seq<char>, Seq<char>)> {
    Seq::new(options.len(), |i: int| (options[i].value@, options[i].title@))
}

/// The property that stands for a question.
pub open spec fn property_of(field: ElicitationField) -> PropertyView {
    match field.kind {
        FieldKind::Text => PropertyView::Text { title: field.title@, one_of: None },
        FieldKind::SingleSelect { options } => PropertyView::Text {
            title: field.title@,
            one_of: Some(option_pairs(options@)),
        },
        FieldKind::MultiSelect { options } => PropertyView::Selection {
            title: field.title@,
            options: option_pairs(options@),
        },
    }
}

pub open spec fn form_entry(field: ElicitationField) -> FormEntryView {
    FormEntryView { name: field.name@, property: property_of(field), required: true }
}

fn read_options(options: &Vec<FieldOption>) -> (pairs: Vec<(String, String)>)
    ensures
        pairs_view(pairs@) == option_pairs(options@),
{
    let mut pairs: Vec<(String, String)> = Vec::new();
    let mut i: usize = 0;
    while i < options.len()
        invariant
            i <= options@.len(),
            pairs@.len() == i,
            forall|k: int|
                0 <= k < i ==> (#[trigger] pairs@[k]).0@ == options@[k].value@ && pairs@[k].1@
                    == options@[k].title@,
        decreases options@.len() - i,
    {
        pairs.push((options[i].value.clone(), options[i].title.clone()));
        i += 1;
    }
    assert(pairs_view(pairs@) =~= option_pairs(options@));
    pairs
}

fn property(field: &ElicitationField) -> (p: Property)
    ensures
        p@ == property_of(*field),
{
    match &field.kind {
        FieldKind::Text => Property::Text { title: field.title.clone(), one_of: None },
        FieldKind::SingleSelect { options } => {
            let pairs: Vec<(String, String)> = read_options(options);
            Property::Text { title: field.title.clone(), one_of: Some(pairs) }
        },
        FieldKind::MultiSelect { options } => {
            let pairs: Vec<(String, String)> = read_options(options);
            Property::Selection { title: field.title.clone(), options: pairs }
        },
    }
}

/// The form that stands for questions: one required property for each, in
/// order.
pub fn elicit(fields: &Vec<ElicitationField>) -> (form: Vec<FormEntry>)
    ensures
        form@.len() == fields@.len(),
        forall|i: int| 0 <= i < form@.len() ==> (#[trigger] form@[i])@ == form_entry(fields@[i]),
{
    let mut form: Vec<FormEntry> = Vec::new();
    let mut i: usize = 0;
    while i < fields.len()
        invariant
            i <= fields@.len(),
            form@.len() == i,
            forall|k: int| 0 <= k < i ==> (#[trigger] form@[k])@ == form_entry(fields@[k]),
        decreases fields@.len() - i,
    {
        let entry = FormEntry {
            name: fields[i].name.clone(),
            property: property(&fields[i]),
            required: true,
        };
        assert(entry@ =~= form_entry(fields@[i as int]));
        form.push(entry);
        i += 1;
    }
    form
}

/// A value that a client filled in. `Number` is a fraction in decimal, and
/// `Other` a kind that is not understood.
pub enum AnswerValue {
    Text(String),
    List(Vec<String>),
    Integer(i64),
    Number(String),
    Boolean(bool),
    Other,
}

/// What a client did about the questions.
pub enum ElicitationAction {
    Accept { content: Option<Vec<(String, AnswerValue)>> },
    Decline,
    Cancel,
    Other,
}

/// An answer as the agent sees it.
#[derive(Debug, PartialEq)]
pub enum ElicitationValue {
    One(String),
    Many(Vec<String>),
}

#[verifier::ext_equal]
pub enum ElicitationValueView {
    One(Seq<char>),
    Many(Seq<Seq<char>>),
}

impl View for ElicitationValue {
    type V = ElicitationValueView;

    open spec fn view(&self) -> ElicitationValueView {
        match *self {
            ElicitationValue::One(s) => ElicitationValueView::One(s@),
            ElicitationValue::Many(l) => ElicitationValueView::Many(texts(l@)),
        }
    }
}

/// The answers, each under the name of its question.
#[derive(Debug)]
pub struct ElicitationResponse {
    pub declined: bool,
    pub values: Vec<(String, ElicitationValue)>,
}

pub open spec fn values_view(values: Seq<(String, ElicitationValue)>) -> Seq<
    (Seq<char>, ElicitationValueView),
> {
    Seq::new(values.len(), |i: int| (values[i].0@, values[i].1@))
}

pub open spec fn bool_text(b: bool) -> Seq<char> {
    if b {
        "true"@
    } else {
        "false"@
    }
}

/// The answer that a value stands for; a value that is not understood is none.
pub open spec fn answer_of(value: AnswerValue) -> Option<ElicitationValueView> {
    match value {
        AnswerValue::Text(s) => Some(ElicitationValueView::One(s@)),
        AnswerValue::List(l) => Some(ElicitationValueView::Many(texts(l@))),
        AnswerValue::Integer(n) => Some(ElicitationValueView::One(signed_decimal(n as int))),
        AnswerValue::Number(s) => Some(ElicitationValueView::One(s@)),
        AnswerValue::Boolean(b) => Some(ElicitationValueView::One(bool_text(b))),
        AnswerValue::Other => None,
    }
}

/// The answers among values: of several for one name the last counts.
pub open spec fn answers(content: Seq<(String, AnswerValue)>) -> Seq<
    (Seq<char>, ElicitationValueView),
>
    decreases content.len(),
{
    if content.len() == 0 {
        Seq::empty()
    } else {
        let before = answers(content.drop_last());
        match answer_of(content.last().1) {
            Some(answer) => with_entry(before, content.last().0@, answer),
            None => before,
        }
    }
}

/// The answers to questions: none where the client did not accept them.
pub open spec fn response_values(action: ElicitationAction) -> Seq<
    (Seq<char>, ElicitationValueView),
> {
    match action {
        ElicitationAction::Accept { content: Some(values) } => answers(values@),
        _ => Seq::empty(),
    }
}

fn read_answer(value: AnswerValue) -> (answer: Option<ElicitationValue>)
    ensures
        match answer {
            Some(a) => answer_of(value) == Some(a@),
            None => answer_of(value) is None,
        },
{
    match value {
        AnswerValue::Text(s) => Some(ElicitationValue::One(s)),
        AnswerValue::List(l) => Some(ElicitationValue::Many(l)),
        AnswerValue::Integer(n) => Some(ElicitationValue::One(signed_decimal_text(n))),
        AnswerValue::Number(s) => Some(ElicitationValue::One(s)),
        AnswerValue::Boolean(b) => Some(
            ElicitationValue::One(
                if b {
                    "true".to_owned()
                } else {
                    "false".to_owned()
                },
            ),
        ),
        AnswerValue::Other => None,
    }
}

fn set_answer(values: &mut Vec<(String, ElicitationValue)>, name: String, answer: ElicitationValue)
    ensures
        values_view(final(values)@) == with_entry(values_view(old(values)@), name@, answer@),
{
    let ghost before = values_view(values@);
    let ghost name_view = name@;
    let ghost answer_view = answer@;
    let mut at: usize = 0;
    while at < values.len() && !crate::text::same_text(values[at].0.as_str(), name.as_str())
        invariant
            at <= values@.len(),
            before == values_view(values@),
            name_view == name@,
            forall|k: int| 0 <= k < at ==> (#[trigger] before[k]).0 != name_view,
        decreases values@.len() - at,
    {
        assert(before[at as int].0 == values@[at as int].0@);
        at += 1;
    }
    proof {
        assert(at < values@.len() ==> before[at as int].0 == values@[at as int].0@);
        crate::json::lemma_position_is(before, name_view, at as int);
    }
    if at < values.len() {
        values.set(at, (name, answer));
    } else {
        values.push((name, answer));
    }
    assert(values_view(values@) =~= with_entry(before, name_view, answer_view));
}

/// Reads what a client did about the questions. Anything but acceptance counts
/// as a refusal.
pub fn map_elicitation_action(action: ElicitationAction) -> (r: Option<ElicitationResponse>)
    ensures
        r matches Some(response) && response.declined == !(action is Accept) && values_view(
            response.values@,
        ) == response_values(action),
{
    let mut values: Vec<(String, ElicitationValue)> = Vec::new();
    assert(values_view(values@) =~= Seq::<(Seq<char>, ElicitationValueView)>::empty());
    match action {
        ElicitationAction::Accept { content } => {
            match content {
                Some(filled) => {
                    let ghost all = filled@;
                    let ghost mut done: int = 0;
                    let mut remaining: Vec<(String, AnswerValue)> = filled;
                    assert(all.take(0) =~= Seq::<(String, AnswerValue)>::empty());
                    while remaining.len() > 0
                        invariant
                            0 <= done <= all.len(),
                            remaining@ == all.skip(done),
                            values_view(values@) == answers(all.take(done)),
                        decreases remaining@.len(),
                    {
                        assert(all.take(done + 1).drop_last() =~= all.take(done));
                        let (name, value) = remaining.remove(0);
                        assert(all.take(done + 1).last() == (name, value));
                        match read_answer(value) {
                            Some(answer) => {
                                set_answer(&mut values, name, answer);
                            },
                            None => {},
                        }
                        proof {
                            done = done + 1;
                        }
                        assert(remaining@ =~= all.skip(done));
                    }
                    assert(all.take(done) =~= all);
                },
                None => {},
            }
            Some(ElicitationResponse { declined: false, values })
        },
        _ => Some(ElicitationResponse { declined: true, values }),
    }
}

/// Each question has one answer at most.
pub proof fn law_each_question_has_one_answer(content: Seq<(String, AnswerValue)>)
    ensures
        distinct_names(answers(content)),
    decreases content.len(),
{
    if content.len() > 0 {
        law_each_question_has_one_answer(content.drop_last());
        if answer_of(content.last().1) is Some {
            crate::json::lemma_with_entry_distinct(
                answers(content.drop_last()),
                content.last().0@,
                answer_of(content.last().1)->Some_0,
            );
        }
    }
}

/// A question becomes a required property under its own name and title. One
/// that is answered freely has no options; any other has all its options, in
/// order, each with its value and its title.
pub proof fn law_a_question_becomes_a_property(field: ElicitationField, i: int)
    ensures
        form_entry(field).name == field.name@,
        form_entry(field).required,
        match field.kind {
            FieldKind::Text => form_entry(field).property == (PropertyView::Text {
                title: field.title@,
                one_of: None,
            }),
            FieldKind::SingleSelect { options } => form_entry(field).property matches PropertyView::Text {
                title,
                one_of: Some(pairs),
            } && {
                &&& title == field.title@
                &&& pairs.len() == options@.len()
                &&& 0 <= i < pairs.len() ==> pairs[i].0 == options@[i].value@ && pairs[i].1
                    == options@[i].title@
            },
            FieldKind::MultiSelect { options } => form_entry(field).property matches PropertyView::Selection {
                title,
                options: pairs,
            } && {
                &&& title == field.title@
                &&& pairs.len() == options@.len()
                &&& 0 <= i < pairs.len() ==> pairs[i].0 == options@[i].value@ && pairs[i].1
                    == options@[i].title@
            },
        },
{
}

/// A text or a number is handed on as it is written, a truth value by its word,
/// and a list item by item; what is not understood is no answer.
pub proof fn law_an_answer_is_what_was_filled_in(value: AnswerValue, i: int)
    ensures
        match value {
            AnswerValue::Text(s) => answer_of(value) == Some(ElicitationValueView::One(s@)),
            AnswerValue::List(l) => answer_of(value) matches Some(ElicitationValueView::Many(items))
                && items.len() == l@.len() && (0 <= i < items.len() ==> items[i] == l@[i]@),
            AnswerValue::Integer(n) => answer_of(value) == Some(
                ElicitationValueView::One(signed_decimal(n as int)),
            ),
            AnswerValue::Number(s) => answer_of(value) == Some(ElicitationValueView::One(s@)),
            AnswerValue::Boolean(true) => answer_of(value) == Some(
                ElicitationValueView::One("true"@),
            ),
            AnswerValue::Boolean(false) => answer_of(value) == Some(
                ElicitationValueView::One("false"@),
            ),
            AnswerValue::Other => answer_of(value) is None,
        },
{
}

/// The last value under a name that is understood.
pub open spec fn last_understood(content: Seq<(String, AnswerValue)>, name: Seq<char>) -> Option<
    ElicitationValueView,
>
    decreases content.len(),
{
    if content.len() == 0 {
        None
    } else if content.last().0@ == name && !(content.last().1 is Other) {
        answer_of(content.last().1)
    } else {
        last_understood(content.drop_last(), name)
    }
}

/// The answer to a question is the last value under its name that is
/// understood; there is none where there is no such value.
pub proof fn law_the_last_answer_counts(content: Seq<(String, AnswerValue)>, name: Seq<char>)
    ensures
        crate::json::lookup(answers(content), name) == last_understood(content, name),
    decreases content.len(),
{
    if content.len() > 0 {
        law_the_last_answer_counts(content.drop_last(), name);
        if answer_of(content.last().1) is Some {
            crate::json::law_set_then_get(
                answers(content.drop_last()),
                content.last().0@,
                answer_of(content.last().1)->Some_0,
                name,
            );
        }
    }
}

/// Only a client that accepts has answers, and those are all that it filled in.
pub proof fn law_only_acceptance_has_answers(action: ElicitationAction)
    ensures
        match action {
            ElicitationAction::Accept { content } => match content {
                Some(values) => response_values(action) == answers(values@),
                None => response_values(action).len() == 0,
            },
            ElicitationAction::Decline | ElicitationAction::Cancel | ElicitationAction::Other => {
                response_values(action).len() == 0
            },
        },
{
}

/// Every question stands in the form once, in order.
pub proof fn law_a_form_has_every_question(
    fields: &Vec<ElicitationField>,
    form: Vec<FormEntry>,
    i: int,
)
    requires
        call_ensures(elicit, (fields,), form),
    ensures
        form@.len() == fields@.len(),
        0 <= i < form@.len() ==> form@[i].name@ == fields@[i].name@ && form@[i].required,
{
}

/// A response is declined exactly where the client did not accept, and has all
/// the answers.
pub proof fn law_a_response_says_what_the_client_did(
    action: ElicitationAction,
    r: Option<ElicitationResponse>,
    i: int,
)
    requires
        call_ensures(map_elicitation_action, (action,), r),
    ensures
        r matches Some(response) && {
            &&& response.declined <==> !(action is Accept)
            &&& response.values@.len() == response_values(action).len()
            &&& 0 <= i < response.values@.len() ==> {
                &&& response.values@[i].0@ == response_values(action)[i].0
                &&& response.values@[i].1@ == response_values(action)[i].1
            }
        },
{
    assert(values_view(r->Some_0.values@).len() == r->Some_0.values@.len());
}

} // verus!
