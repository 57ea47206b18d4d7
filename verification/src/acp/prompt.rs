//! Turns: what a client says, and what it is sent back.

use crate::acp::error::{malformed, outcome, AcpErrorView, AcpServerError};
use crate::llm::{parts_view, Content, ContentView, Part};
use vstd::prelude::*;
use vstd::string::*;

verus! {

/// Why a turn stopped.
#[derive(Clone, Copy, Debug, PartialEq, Eq, Structural)]
pub enum StopReason {
    EndTurn,
    Cancelled,
}

/// The first block that could not be read, or the number of blocks.
pub open spec fn first_unread(blocks: Seq<Result<Part, String>>) -> int
    decreases blocks.len(),
{
    if blocks.len() == 0 || blocks[0] is Err {
        0
    } else {
        1 + first_unread(blocks.skip(1))
    }
}

/// The content of a prompt, given what each of its blocks reads as. Every block
/// must be readable, and there must be one.
pub open spec fn prompt_result(blocks: Seq<Result<Part, String>>) -> Result<
    ContentView,
    AcpErrorView,
> {
    if first_unread(blocks) < blocks.len() {
        malformed(blocks[first_unread(blocks)]->Err_0@)
    } else if blocks.len() == 0 {
        malformed("prompt must contain content"@)
    } else {
        Ok(
            ContentView {
                role: "user"@,
                parts: Seq::new(blocks.len(), |i: int| blocks[i]->Ok_0@),
            },
        )
    }
}

proof fn lemma_first_unread_is(blocks: Seq<Result<Part, String>>, at: int)
    requires
        0 <= at <= blocks.len(),
        at < blocks.len() ==> blocks[at] is Err,
        forall|i: int| 0 <= i < at ==> (#[trigger] blocks[i]) is Ok,
    ensures
        first_unread(blocks) == at,
    decreases blocks.len(),
{
    if at > 0 {
        assert(blocks[0] is Ok);
        let rest = blocks.skip(1);
        assert forall|i: int| 0 <= i < at - 1 implies (#[trigger] rest[i]) is Ok by {
            assert(rest[i] == blocks[i + 1]);
        }
        lemma_first_unread_is(rest, at - 1);
    }
}

/// Puts a prompt together from what its blocks read as.
pub fn prompt_content(blocks: Vec<Result<Part, String>>) -> (r: Result<Content, AcpServerError>)
    ensures
        match r {
            Ok(c) => prompt_result(blocks@) == Ok::<ContentView, AcpErrorView>(c@),
            Err(e) => prompt_result(blocks@) == Err::<ContentView, AcpErrorView>(e@),
        },
{
    let ghost all = blocks@;
    let mut remaining: Vec<Result<Part, String>> = blocks;
    let mut parts: Vec<Part> = Vec::new();
    while remaining.len() > 0
        invariant
            all == blocks@,
            parts@.len() + remaining@.len() == all.len(),
            remaining@ == all.skip(parts@.len() as int),
            forall|k: int|
                0 <= k < parts@.len() ==> all[k] == Ok::<Part, String>(#[trigger] parts@[k]),
        decreases remaining@.len(),
    {
        let ghost n = parts@.len() as int;
        let block: Result<Part, String> = remaining.remove(0);
        assert(block == all[n]);
        match block {
            Ok(part) => {
                parts.push(part);
                assert(remaining@ =~= all.skip(n + 1));
            },
            Err(message) => {
                proof {
                    assert forall|i: int| 0 <= i < n implies (#[trigger] all[i]) is Ok by {
                        assert(all[i] == Ok::<Part, String>(parts@[i]));
                    }
                    lemma_first_unread_is(all, n);
                    assert(all[n] == Err::<Part, String>(message));
                }
                return Err(AcpServerError::MalformedMessage(message));
            },
        }
    }
    proof {
        assert forall|i: int| 0 <= i < all.len() implies (#[trigger] all[i]) is Ok by {
            assert(all[i] == Ok::<Part, String>(parts@[i]));
        }
        lemma_first_unread_is(all, all.len() as int);
    }
    if parts.len() == 0 {
        return Err(AcpServerError::MalformedMessage("prompt must contain content".to_owned()));
    }
    assert(parts_view(parts@) =~= Seq::new(all.len(), |i: int| all[i]->Ok_0@)) by {
        assert forall|i: int| 0 <= i < all.len() implies parts@[i]@ == all[i]->Ok_0@ by {
            assert(all[i] == Ok::<Part, String>(parts@[i]));
        }
    }
    Ok(Content { role: "user".to_owned(), parts })
}

/// What is done about an event of a turn: nothing, or the client is sent what
/// it says. `WithoutSettledText` leaves out the text of a reply that the event
/// carries whole; the text of a piece is sent in any case.
#[derive(Clone, Copy, Debug, PartialEq, Eq, Structural)]
pub enum Forward {
    Nothing,
    All,
    WithoutSettledText,
}

/// An event of a turn: whether it asks for a confirmation, and whether it is a
/// piece of a reply that is still being made.
#[derive(Clone, Copy, Debug)]
pub struct TurnEvent {
    pub confirmation: bool,
    pub partial: bool,
}

/// A turn remembers whether pieces of the reply have been sent: the event that
/// ends the reply carries it whole, and the client has it by then.
pub open spec fn event_step(saw_partial: bool, event: TurnEvent) -> (bool, Forward) {
    if event.confirmation {
        (saw_partial, Forward::Nothing)
    } else {
        let saw = saw_partial || event.partial;
        (
            saw,
            if saw {
                Forward::WithoutSettledText
            } else {
                Forward::All
            },
        )
    }
}

/// A turn under way.
pub struct PromptTurn {
    pub saw_partial: bool,
}

impl PromptTurn {
    /// A turn of which nothing has been sent yet.
    pub fn new() -> (t: PromptTurn)
        ensures
            !t.saw_partial,
    {
        PromptTurn { saw_partial: false }
    }

    /// Decides what is done about an event.
    pub fn on_event(&mut self, event: TurnEvent) -> (f: Forward)
        ensures
            (final(self).saw_partial, f) == event_step(old(self).saw_partial, event),
    {
        if event.confirmation {
            return Forward::Nothing;
        }
        if event.partial {
            self.saw_partial = true;
        }
        if self.saw_partial {
            Forward::WithoutSettledText
        } else {
            Forward::All
        }
    }
}

/// The turn's memory after some events.
pub open spec fn after_events(saw_partial: bool, events: Seq<TurnEvent>) -> bool
    decreases events.len(),
{
    if events.len() == 0 {
        saw_partial
    } else {
        event_step(after_events(saw_partial, events.drop_last()), events.last()).0
    }
}

/// The text of a reply that is not a piece is left out exactly where a piece
/// has come earlier in the turn: the client has it by then.
pub proof fn law_text_is_sent_once(events: Seq<TurnEvent>, event: TurnEvent)
    requires
        !event.confirmation,
        !event.partial,
    ensures
        (event_step(after_events(false, events), event).1 is WithoutSettledText) <==> exists|i: int|
            0 <= i < events.len() && !(#[trigger] events[i]).confirmation && events[i].partial,
        (event_step(after_events(false, events), event).1 is All) <==> !exists|i: int|
            0 <= i < events.len() && !(#[trigger] events[i]).confirmation && events[i].partial,
{
    lemma_after_events(events);
}

proof fn lemma_after_events(events: Seq<TurnEvent>)
    ensures
        after_events(false, events) <==> exists|i: int|
            0 <= i < events.len() && !(#[trigger] events[i]).confirmation && events[i].partial,
    decreases events.len(),
{
    if events.len() > 0 {
        let less = events.drop_last();
        lemma_after_events(less);
        if after_events(false, less) {
            let i = choose|i: int|
                0 <= i < less.len() && !(#[trigger] less[i]).confirmation && less[i].partial;
            assert(!events[i].confirmation && events[i].partial);
        }
        if !events.last().confirmation && events.last().partial {
            let i = events.len() - 1;
            assert(!events[i].confirmation && events[i].partial);
        }
        if exists|i: int|
            0 <= i < events.len() && !(#[trigger] events[i]).confirmation && events[i].partial {
            let i = choose|i: int|
                0 <= i < events.len() && !(#[trigger] events[i]).confirmation && events[i].partial;
            if i < less.len() {
                assert(!less[i].confirmation && less[i].partial);
            }
        }
    }
}

pub open spec fn failed_event_outcome(cancelled: bool, message: Seq<char>) -> Result<
    StopReason,
    AcpErrorView,
> {
    if cancelled {
        Ok(StopReason::Cancelled)
    } else {
        Err(AcpErrorView::Execution(message))
    }
}

/// An event of a turn has failed: that ends the turn, as cancelled where it has
/// been.
pub fn event_failed(cancelled: bool, message: String) -> (r: Result<StopReason, AcpServerError>)
    ensures
        outcome(r) == failed_event_outcome(cancelled, message@),
{
    if cancelled {
        Ok(StopReason::Cancelled)
    } else {
        Err(AcpServerError::Execution(message))
    }
}

/// What a turn that is under way has come to: it has been cancelled, the agent
/// has nothing more to say, an event could not be had, or an event has come.
pub enum TurnInput {
    Cancelled,
    Ended,
    Failed(String),
    Event(TurnEvent),
}

/// What is done about it: the turn is over, or goes on once the client has been
/// sent something.
#[derive(Debug)]
pub enum TurnAction {
    Stop(Result<StopReason, AcpServerError>),
    Send(Forward),
}

#[verifier::ext_equal]
pub enum TurnActionView {
    Stop(Result<StopReason, AcpErrorView>),
    Send(Forward),
}

impl View for TurnAction {
    type V = TurnActionView;

    open spec fn view(&self) -> TurnActionView {
        match *self {
            TurnAction::Stop(r) => TurnActionView::Stop(outcome(r)),
            TurnAction::Send(f) => TurnActionView::Send(f),
        }
    }
}

/// One step of a turn; `cancelled` tells whether the turn has been cancelled by
/// then.
pub open spec fn turn_step(saw_partial: bool, input: TurnInput, cancelled: bool) -> (
    bool,
    TurnActionView,
) {
    match input {
        TurnInput::Cancelled => (saw_partial, TurnActionView::Stop(Ok(StopReason::Cancelled))),
        TurnInput::Ended => (saw_partial, TurnActionView::Stop(Ok(StopReason::EndTurn))),
        TurnInput::Failed(message) => (
            saw_partial,
            TurnActionView::Stop(failed_event_outcome(cancelled, message@)),
        ),
        TurnInput::Event(event) => {
            let (saw, forward) = event_step(saw_partial, event);
            (saw, TurnActionView::Send(forward))
        },
    }
}

impl PromptTurn {
    /// Decides how the turn goes on.
    pub fn on_input(&mut self, input: TurnInput, cancelled: bool) -> (action: TurnAction)
        ensures
            (final(self).saw_partial, action@) == turn_step(
                old(self).saw_partial,
                input,
                cancelled,
            ),
    {
        match input {
            TurnInput::Cancelled => TurnAction::Stop(Ok(StopReason::Cancelled)),
            TurnInput::Ended => TurnAction::Stop(Ok(StopReason::EndTurn)),
            TurnInput::Failed(message) => TurnAction::Stop(event_failed(cancelled, message)),
            TurnInput::Event(event) => TurnAction::Send(self.on_event(event)),
        }
    }
}

/// A turn goes on through every event, and through nothing else: it is over
/// once it is cancelled, the agent is done or an event fails. It ends as
/// cancelled only where it has been, and with an error only where an event
/// failed.
pub proof fn law_a_turn_ends_for_a_reason(saw_partial: bool, input: TurnInput, cancelled: bool)
    ensures
        turn_step(saw_partial, input, cancelled).1 is Send <==> input is Event,
        turn_step(saw_partial, input, cancelled).1 matches TurnActionView::Stop(r) ==> {
            &&& r == Ok::<StopReason, AcpErrorView>(StopReason::EndTurn) <==> input is Ended
            &&& r == Ok::<StopReason, AcpErrorView>(StopReason::Cancelled) <==> input is Cancelled
                || (input is Failed && cancelled)
            &&& r is Err <==> input is Failed && !cancelled
        },
{
}

/// The turn could not be set up.
pub fn runner_failed(stage: &str, message: &str) -> (e: AcpServerError)
    ensures
        e@ == AcpErrorView::Execution(stage@ + ": "@ + message@),
{
    AcpServerError::Execution(stage.to_owned().concat(": ").concat(message))
}

/// The outcome of a turn that is over: a turn that has been cancelled counts as
/// cancelled, whatever else became of it.
pub fn turn_outcome(cancelled: bool, result: Result<StopReason, AcpServerError>) -> (r: Result<
    StopReason,
    AcpServerError,
>)
    ensures
        outcome(r) == (if cancelled {
            Ok(StopReason::Cancelled)
        } else {
            outcome(result)
        }),
{
    if cancelled {
        Ok(StopReason::Cancelled)
    } else {
        result
    }
}

/// A prompt is taken exactly where it has a block and all its blocks could be
/// read. Its content is the user's, one part for each block, in order. Otherwise
/// the first block that could not be read says why.
pub proof fn law_a_prompt_is_all_its_blocks(blocks: Seq<Result<Part, String>>)
    ensures
        ({
            let read = forall|i: int| 0 <= i < blocks.len() ==> (#[trigger] blocks[i]) is Ok;
            &&& prompt_result(blocks) is Ok <==> blocks.len() > 0 && read
            &&& prompt_result(blocks) matches Ok(content) ==> {
                &&& content.role == "user"@
                &&& content.parts.len() == blocks.len()
                &&& forall|i: int|
                    0 <= i < blocks.len() ==> #[trigger] content.parts[i] == blocks[i]->Ok_0@
            }
            &&& blocks.len() == 0 ==> prompt_result(blocks) == Err::<ContentView, AcpErrorView>(
                AcpErrorView::MalformedMessage("prompt must contain content"@),
            )
        }),
        forall|k: int|
            0 <= k < blocks.len() && #[trigger] blocks[k] is Err && (forall|i: int|
                0 <= i < k ==> (#[trigger] blocks[i]) is Ok) ==> prompt_result(blocks) == Err::<
                ContentView,
                AcpErrorView,
            >(AcpErrorView::MalformedMessage(blocks[k]->Err_0@)),
{
    lemma_first_unread(blocks);
    let read = forall|i: int| 0 <= i < blocks.len() ==> (#[trigger] blocks[i]) is Ok;
    if read {
        lemma_first_unread_is(blocks, blocks.len() as int);
    }
    assert forall|k: int|
        0 <= k < blocks.len() && #[trigger] blocks[k] is Err && (forall|i: int|
            0 <= i < k ==> (#[trigger] blocks[i]) is Ok) implies prompt_result(blocks) == Err::<
        ContentView,
        AcpErrorView,
    >(AcpErrorView::MalformedMessage(blocks[k]->Err_0@)) by {
        lemma_first_unread_is(blocks, k);
    }
}

proof fn lemma_first_unread(blocks: Seq<Result<Part, String>>)
    ensures
        0 <= first_unread(blocks) <= blocks.len(),
        first_unread(blocks) < blocks.len() ==> blocks[first_unread(blocks)] is Err,
        forall|i: int| 0 <= i < first_unread(blocks) ==> (#[trigger] blocks[i]) is Ok,
    decreases blocks.len(),
{
    if blocks.len() > 0 && blocks[0] is Ok {
        let rest = blocks.skip(1);
        lemma_first_unread(rest);
        assert forall|i: int| 0 <= i < first_unread(blocks) implies (#[trigger] blocks[i]) is Ok by {
            if i > 0 {
                assert(rest[i - 1] == blocks[i]);
            }
        }
    }
}

/// A request for confirmation is not sent and changes nothing. Any other event
/// is sent: in full as long as no piece has come, and from the first piece on
/// without the text that comes whole.
pub proof fn law_what_is_sent_of_an_event(saw_partial: bool, event: TurnEvent)
    ensures
        event.confirmation ==> event_step(saw_partial, event) == (saw_partial, Forward::Nothing),
        !event.confirmation && !saw_partial && !event.partial ==> event_step(saw_partial, event)
            == (false, Forward::All),
        !event.confirmation && (saw_partial || event.partial) ==> event_step(saw_partial, event)
            == (true, Forward::WithoutSettledText),
{
}

/// A turn sends what its events lead to, and remembers no more than they do. What
/// an event failed with is the turn's error, unless the turn has been cancelled.
pub proof fn law_what_a_turn_does(saw_partial: bool, input: TurnInput, cancelled: bool)
    ensures
        match input {
            TurnInput::Event(event) => {
                &&& turn_step(saw_partial, input, cancelled).0 == event_step(saw_partial, event).0
                &&& turn_step(saw_partial, input, cancelled).1 == TurnActionView::Send(
                    event_step(saw_partial, event).1,
                )
            },
            TurnInput::Failed(message) => {
                &&& turn_step(saw_partial, input, cancelled).0 == saw_partial
                &&& !cancelled ==> turn_step(saw_partial, input, cancelled).1
                    == TurnActionView::Stop(Err(AcpErrorView::Execution(message@)))
                &&& cancelled ==> turn_step(saw_partial, input, cancelled).1
                    == TurnActionView::Stop(Ok(StopReason::Cancelled))
            },
            _ => turn_step(saw_partial, input, cancelled).0 == saw_partial,
        },
{
}

/// A failed event ends a turn as cancelled where it has been, and else with what
/// it failed with.
pub proof fn law_how_a_failed_event_ends_a_turn(cancelled: bool, message: Seq<char>)
    ensures
        cancelled ==> failed_event_outcome(cancelled, message) == Ok::<StopReason, AcpErrorView>(
            StopReason::Cancelled,
        ),
        !cancelled ==> failed_event_outcome(cancelled, message) == Err::<StopReason, AcpErrorView>(
            AcpErrorView::Execution(message),
        ),
{
}

/// A turn that has been cancelled counts as cancelled; any other ends as it
/// ended.
pub proof fn law_a_cancelled_turn_counts_as_cancelled(
    cancelled: bool,
    result: Result<StopReason, AcpServerError>,
    r: Result<StopReason, AcpServerError>,
)
    requires
        call_ensures(turn_outcome, (cancelled, result), r),
    ensures
        cancelled ==> r == Ok::<StopReason, AcpServerError>(StopReason::Cancelled),
        !cancelled ==> match result {
            Ok(reason) => r == Ok::<StopReason, AcpServerError>(reason),
            Err(e) => r matches Err(error) && error@ == e@,
        },
{
}

} // verus!
