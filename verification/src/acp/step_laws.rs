//! What each step answers, and what it does to the sessions.

use crate::acp::config::AgentFactory;
use crate::acp::error::AcpErrorView;
use crate::acp::handler::{
    agent_outcome, composed, create_step, cwd_answer, delete_outcome, entry_result, failure_of,
    fork_appended, fork_next, fork_state, fork_step, load_step, meta_entries, new_state,
    replay_next, replay_sent, resume_step, store_step, stored_cwd, AcpSessionHandler,
    ForkStepView, NewSessionRequest, ReplayStepView, SessionKeyView,
};
use crate::acp::laws::{is_fork_key, law_fork_state_is_the_sessions_settings};
use crate::acp::path::SessionPath;
use crate::acp::registry::{
    add_step, agent_at, attach_step, begin_step, close_step, end_step, register_step, servers_at,
    without_session, Ended, InFlightPrompt, PromptStart, RegistryView, SessionState,
};
use crate::json::{distinct_names, law_set_then_get, lookup, with_entry, JsonObject, JsonView};
use crate::text::has_prefix;
use vstd::prelude::*;
use vstd::string::*;

verus! {

// ---------------------------------------------------------------------
// The registry
// ---------------------------------------------------------------------

/// A session of that name is active.
pub open spec fn active(r: RegistryView, id: Seq<char>) -> bool {
    r.sessions.dom().contains(id)
}

/// No prompt runs in the session: it was given none, or the last is over.
pub open spec fn idle(s: SessionState) -> bool {
    match s.execution {
        Some(p) => !p.running,
        None => true,
    }
}

/// The limit and every session but one are as before.
pub open spec fn others_untouched(
    before: RegistryView,
    after: RegistryView,
    id: Seq<char>,
) -> bool {
    &&& after.max_sessions == before.max_sessions
    &&& forall|other: Seq<char>|
        other != id ==> {
            &&& #[trigger] after.sessions.dom().contains(other) <==> before.sessions.dom().contains(
                other,
            )
            &&& before.sessions.dom().contains(other) ==> after.sessions[other]
                == before.sessions[other]
        }
}

/// The session is now just that, and the others are as before.
pub open spec fn becomes(
    before: RegistryView,
    after: RegistryView,
    id: Seq<char>,
    s: SessionState,
) -> bool {
    &&& others_untouched(before, after, id)
    &&& after.sessions.dom().contains(id)
    &&& after.sessions[id] == s
}

/// A session's tool servers and agent are those it holds; one that is not
/// active has neither.
pub proof fn law_a_session_has_what_it_holds(r: RegistryView, id: Seq<char>)
    ensures
        active(r, id) ==> servers_at(r, id) == r.sessions[id].mcp,
        active(r, id) ==> agent_at(r, id) == r.sessions[id].agent,
        !active(r, id) ==> servers_at(r, id) is None,
        !active(r, id) ==> agent_at(r, id) is None,
{
}

/// A prompt is accepted exactly in an active session in which none is running.
/// Its turn works with the tool servers and the agent that the session has at
/// that moment; the session keeps both, and now runs that prompt.
pub proof fn law_a_turn_works_with_what_the_session_has(
    r: RegistryView,
    id: Seq<char>,
    token: u64,
)
    ensures
        begin_step(r, id, token).1 is Ok <==> active(r, id) && idle(r.sessions[id]),
        begin_step(r, id, token).1 matches Ok(start) ==> {
            &&& start.mcp == r.sessions[id].mcp
            &&& start.mcp == servers_at(r, id)
            &&& start.agent == r.sessions[id].agent
            &&& start.agent == agent_at(r, id)
            &&& becomes(
                r,
                begin_step(r, id, token).0,
                id,
                (SessionState {
                    execution: Some(InFlightPrompt { token, running: true }),
                    mcp: r.sessions[id].mcp,
                    agent: r.sessions[id].agent,
                }),
            )
        },
        begin_step(r, id, token).1 is Err ==> begin_step(r, id, token).0 == r,
        !active(r, id) ==> begin_step(r, id, token).1 == Err::<PromptStart, AcpErrorView>(
            AcpErrorView::SessionNotFound(id),
        ),
        active(r, id) && !idle(r.sessions[id]) ==> begin_step(r, id, token).1 == Err::<
            PromptStart,
            AcpErrorView,
        >(AcpErrorView::Execution("a prompt is already running in this session"@)),
{
}

/// Tool servers and an agent that are given to a session are those that the
/// next turn works with.
pub proof fn law_a_turn_works_with_what_was_attached(
    r: RegistryView,
    id: Seq<char>,
    mcp: Option<u64>,
    agent: u64,
    token: u64,
)
    requires
        active(r, id),
        idle(r.sessions[id]),
    ensures
        begin_step(attach_step(r, id, mcp, Some(agent)).0, id, token).1 matches Ok(start)
            && start.mcp == mcp && start.agent == Some(agent),
{
}

/// The end of a turn is noted in the session that still has its prompt, which
/// keeps its tool servers and its agent; otherwise nothing changes.
pub proof fn law_how_a_turn_is_ended(r: RegistryView, id: Seq<char>, token: u64)
    ensures
        ({
            let held = active(r, id) && match r.sessions[id].execution {
                Some(p) => p.token == token,
                None => false,
            };
            &&& held ==> becomes(
                r,
                end_step(r, id, token),
                id,
                (SessionState {
                    execution: Some(InFlightPrompt { token, running: false }),
                    mcp: r.sessions[id].mcp,
                    agent: r.sessions[id].agent,
                }),
            )
            &&& !held ==> end_step(r, id, token) == r
        }),
{
}

/// A new session is added exactly where there is room. It has the agent that it
/// was given, and neither a prompt nor tool servers; those that a session of
/// that name had are to be stopped.
pub proof fn law_how_a_session_is_added(r: RegistryView, id: Seq<char>, agent: Option<u64>)
    ensures
        add_step(r, id, agent).1 is Ok <==> r.sessions.dom().len() < r.max_sessions,
        add_step(r, id, agent).1 matches Ok(freed) ==> {
            &&& freed == (if active(r, id) {
                r.sessions[id].mcp
            } else {
                None
            })
            &&& becomes(
                r,
                add_step(r, id, agent).0,
                id,
                (SessionState { execution: None, mcp: None, agent }),
            )
        },
        add_step(r, id, agent).1 matches Err(e) ==> {
            &&& e == AcpErrorView::MaxSessionsReached(r.max_sessions)
            &&& add_step(r, id, agent).0 == r
        },
{
}

/// A stored session becomes active unless a prompt is running in it, or it is
/// not active and there is no room. It keeps its agent, and has neither a
/// prompt nor tool servers; those that it had are to be stopped.
pub proof fn law_how_a_session_is_bound(r: RegistryView, id: Seq<char>)
    ensures
        ({
            let busy = active(r, id) && !idle(r.sessions[id]);
            let full = !active(r, id) && r.sessions.dom().len() >= r.max_sessions;
            let (after, result) = register_step(r, id);
            &&& busy ==> result == Err::<Option<u64>, AcpErrorView>(
                AcpErrorView::Execution(
                    "the session is already active on this ACP connection: a prompt is running"@,
                ),
            )
            &&& full ==> result == Err::<Option<u64>, AcpErrorView>(
                AcpErrorView::MaxSessionsReached(r.max_sessions),
            )
            &&& busy || full ==> after == r
            &&& !busy && !full ==> {
                &&& result == Ok::<Option<u64>, AcpErrorView>(
                    if active(r, id) {
                        r.sessions[id].mcp
                    } else {
                        None
                    },
                )
                &&& becomes(
                    r,
                    after,
                    id,
                    (SessionState {
                        execution: None,
                        mcp: None,
                        agent: if active(r, id) {
                            r.sessions[id].agent
                        } else {
                            None
                        },
                    }),
                )
            }
        }),
{
}

/// An active session is given the tool servers and, where there is one, the
/// agent, and its prompt goes on; its earlier tool servers are to be stopped.
/// Where the session is gone, nothing changes, and the new ones are.
pub proof fn law_how_tool_servers_are_attached(
    r: RegistryView,
    id: Seq<char>,
    mcp: Option<u64>,
    agent: Option<u64>,
)
    ensures
        active(r, id) ==> {
            &&& attach_step(r, id, mcp, agent).1 == r.sessions[id].mcp
            &&& becomes(
                r,
                attach_step(r, id, mcp, agent).0,
                id,
                (SessionState {
                    execution: r.sessions[id].execution,
                    mcp,
                    agent: match agent {
                        Some(a) => Some(a),
                        None => r.sessions[id].agent,
                    },
                }),
            )
        },
        !active(r, id) ==> attach_step(r, id, mcp, agent) == (r, mcp),
{
}

/// A session that is closed is no longer active. The prompt that runs in it is
/// to be cancelled, and its tool servers are to be stopped.
pub proof fn law_how_a_session_is_closed(r: RegistryView, id: Seq<char>)
    ensures
        !close_step(r, id).0.sessions.dom().contains(id),
        others_untouched(r, close_step(r, id).0, id),
        active(r, id) ==> (close_step(r, id).1 matches Some(done) && {
            &&& done.freed == r.sessions[id].mcp
            &&& match r.sessions[id].execution {
                Some(p) => if p.running {
                    done.cancel == Some(p.token)
                } else {
                    done.cancel is None
                },
                None => done.cancel is None,
            }
        }),
        !active(r, id) ==> close_step(r, id) == (r, None::<Ended>),
        !without_session(r, id).sessions.dom().contains(id),
        others_untouched(r, without_session(r, id), id),
{
}

// ---------------------------------------------------------------------
// Requests
// ---------------------------------------------------------------------

/// A request is served exactly while the server is not shutting down and all
/// the directories that it names are absolute; else the first of these that
/// does not hold is reported.
pub proof fn law_what_a_request_must_bring(
    shutting_down: bool,
    cwd: SessionPath,
    dirs: Seq<SessionPath>,
)
    ensures
        ({
            let rooted = forall|i: int| 0 <= i < dirs.len() ==> (#[trigger] dirs[i]).absolute;
            let result = entry_result(shutting_down, cwd, dirs);
            &&& result is Ok <==> !shutting_down && cwd.absolute && rooted
            &&& shutting_down ==> result == Err::<(), AcpErrorView>(AcpErrorView::ShuttingDown)
            &&& !shutting_down && !cwd.absolute ==> result == Err::<(), AcpErrorView>(
                AcpErrorView::MalformedMessage("cwd must be an absolute path"@),
            )
            &&& !shutting_down && cwd.absolute && !rooted ==> result == Err::<(), AcpErrorView>(
                AcpErrorView::MalformedMessage("additionalDirectories must be an absolute path"@),
            )
        }),
{
    reveal_strlit("cwd");
    reveal_strlit("additionalDirectories");
    reveal_strlit(" must be an absolute path");
    reveal_strlit("cwd must be an absolute path");
    reveal_strlit("additionalDirectories must be an absolute path");
    assert("cwd"@ + " must be an absolute path"@ =~= "cwd must be an absolute path"@);
    assert("additionalDirectories"@ + " must be an absolute path"@
        =~= "additionalDirectories must be an absolute path"@);
}

/// The agent that a factory composes is the session's; what the factory says
/// against an extension map is handed on.
pub proof fn law_the_agent_is_the_factorys(built: Result<u64, String>)
    ensures
        match built {
            Ok(agent) => agent_outcome(built) == Ok::<Option<u64>, AcpErrorView>(Some(agent)),
            Err(e) => agent_outcome(built) == Err::<Option<u64>, AcpErrorView>(
                AcpErrorView::MalformedMessage("session _meta rejected: "@ + e@),
            ),
        },
{
}

/// Without a factory or an extension map no agent is composed, and nothing
/// fails.
pub proof fn law_no_factory_no_agent<F: AgentFactory>(
    factory: Option<F>,
    meta: Option<JsonObject>,
    cwd: SessionPath,
    r: Result<Option<u64>, AcpErrorView>,
)
    requires
        factory is None || meta is None,
    ensures
        composed(factory, meta, cwd, r) <==> r == Ok::<Option<u64>, AcpErrorView>(None),
{
}

/// The members of an extension map are handed on, all and in order; where there
/// is no map there are none.
pub proof fn law_an_extension_map_is_handed_on(meta: Option<JsonObject>)
    ensures
        match meta {
            Some(m) => meta_entries(meta) == m@,
            None => meta_entries(meta).len() == 0,
        },
{
}

/// A new session is stored with the directories that its request names, all of
/// them and in order, and with nothing else.
pub proof fn law_what_a_new_session_is_stored_with(
    cwd: SessionPath,
    dirs: Seq<SessionPath>,
    other: Seq<char>,
)
    ensures
        lookup(new_state(cwd, dirs), "acp:cwd"@) == Some(JsonView::Str(cwd.text@)),
        lookup(new_state(cwd, dirs), "acp:additional_directories"@) matches Some(
            JsonView::Array(items),
        ) && {
            &&& items.len() == dirs.len()
            &&& forall|i: int|
                0 <= i < items.len() ==> #[trigger] items[i] == JsonView::Str(dirs[i].text@)
        },
        other != "acp:cwd"@ && other != "acp:additional_directories"@ ==> lookup(
            new_state(cwd, dirs),
            other,
        ) is None,
{
    let none: Seq<(Seq<char>, JsonView)> = Seq::empty();
    let first = JsonView::Str(cwd.text@);
    let listed = crate::acp::handler::dirs_json(dirs);
    let one = with_entry(none, "acp:cwd"@, first);
    assert("acp:cwd"@ != "acp:additional_directories"@) by {
        reveal_strlit("acp:cwd");
        reveal_strlit("acp:additional_directories");
        assert("acp:cwd"@.len() == 7);
        assert("acp:additional_directories"@.len() == 26);
    }
    law_set_then_get(none, "acp:cwd"@, first, "acp:cwd"@);
    law_set_then_get(one, "acp:additional_directories"@, listed, "acp:cwd"@);
    law_set_then_get(
        one,
        "acp:additional_directories"@,
        listed,
        "acp:additional_directories"@,
    );
    law_set_then_get(none, "acp:cwd"@, first, other);
    law_set_then_get(one, "acp:additional_directories"@, listed, other);
    assert(lookup(none, other) is None);
}

/// A new session becomes active exactly where its agent could be composed and
/// there is room: under the identifier that was made for it, with that agent,
/// and to be stored with the directories that its request names. Otherwise
/// nothing changes, and the first failure is the answer.
pub proof fn law_how_a_session_is_created(
    r: RegistryView,
    request: NewSessionRequest,
    agent: Result<Option<u64>, AcpErrorView>,
    id: Seq<char>,
)
    ensures
        ({
            let (after, result) = create_step(r, request, agent, id);
            match agent {
                Err(e) => after == r && (result matches Err(error) && error == e),
                Ok(a) => if r.sessions.dom().len() < r.max_sessions {
                    &&& result matches Ok(made)
                    &&& made.session_id == id
                    &&& made.state == new_state(request.cwd, request.additional_directories@)
                    &&& made.freed == servers_at(r, id)
                    &&& becomes(
                        r,
                        after,
                        id,
                        (SessionState { execution: None, mcp: None, agent: a }),
                    )
                } else {
                    after == r && (result matches Err(error) && error
                        == AcpErrorView::MaxSessionsReached(r.max_sessions))
                },
            }
        }),
{
}

/// A stored session that is not found, or whose directory is another, is not
/// resumed; any other becomes active, or is bound again.
pub proof fn law_how_a_session_is_resumed(
    r: RegistryView,
    id: Seq<char>,
    found: bool,
    same_cwd: bool,
)
    ensures
        !found ==> resume_step(r, id, found, same_cwd) == (
            r,
            Err::<Option<u64>, AcpErrorView>(AcpErrorView::SessionNotFound(id)),
        ),
        found && !same_cwd ==> resume_step(r, id, found, same_cwd) == (
            r,
            Err::<Option<u64>, AcpErrorView>(
                AcpErrorView::MalformedMessage(
                    "resumed session cwd does not match its original cwd"@,
                ),
            ),
        ),
        found && same_cwd ==> resume_step(r, id, found, same_cwd) == register_step(r, id),
{
}

/// A stored session must be found and be of the directory that is named; else
/// the first of these that does not hold is reported.
pub proof fn law_what_a_stored_session_must_be(
    id: Seq<char>,
    found: bool,
    same_cwd: bool,
    message: Seq<char>,
)
    ensures
        ({
            let result = crate::acp::handler::stored_result(id, found, same_cwd, message);
            &&& result is Ok <==> found && same_cwd
            &&& !found ==> result == Err::<(), AcpErrorView>(AcpErrorView::SessionNotFound(id))
            &&& found && !same_cwd ==> result == Err::<(), AcpErrorView>(
                AcpErrorView::MalformedMessage(message),
            )
        }),
{
}

/// A session is loaded exactly where its agent could be composed and it can be
/// bound. The agent composed for it and the tool servers to stop are handed on.
pub proof fn law_how_a_session_is_loaded(
    r: RegistryView,
    id: Seq<char>,
    agent: Result<Option<u64>, AcpErrorView>,
)
    ensures
        match agent {
            Err(e) => load_step(r, id, agent).0 == r && (load_step(r, id, agent).1 matches Err(
                error,
            ) && error == e),
            Ok(rebuilt) => {
                &&& load_step(r, id, agent).0 == register_step(r, id).0
                &&& match register_step(r, id).1 {
                    Ok(freed) => load_step(r, id, agent).1 matches Ok(loaded) && loaded.rebuilt
                        == rebuilt && loaded.freed == freed,
                    Err(e) => load_step(r, id, agent).1 matches Err(error) && error == e,
                }
            },
        },
{
}

/// The directory that a session was stored with is the text under its key.
pub proof fn law_the_stored_directory(state: Seq<(Seq<char>, JsonView)>)
    ensures
        stored_cwd(state) == (match lookup(state, "acp:cwd"@) {
            Some(JsonView::Str(text)) => Some(text),
            _ => None,
        }),
{
}

/// A session that was stored with a directory is not taken for one of another:
/// the same text is the same directory, and without a stored one every
/// directory will do.
pub proof fn law_when_directories_agree(stored: Option<Seq<char>>, cwd: Seq<char>, m: bool)
    ensures
        stored is None ==> (cwd_answer(stored, cwd, m) <==> m),
        stored == Some(cwd) && cwd_answer(stored, cwd, m) ==> m,
        stored matches Some(c) ==> !crate::acp::path::may_be_same_path(c, cwd) ==> (cwd_answer(
            stored,
            cwd,
            m,
        ) ==> !m),
{
}

/// A fork of a session that is not found fails. Any other becomes active
/// exactly where there is room: under the identifier that was made for it and
/// with the agent that the source has.
pub proof fn law_how_a_session_is_forked(
    r: RegistryView,
    source: Seq<char>,
    state: Option<Seq<(Seq<char>, JsonView)>>,
    id: Seq<char>,
)
    ensures
        ({
            let (after, result) = fork_step(r, source, state, id);
            match state {
                None => after == r && (result matches Err(error) && error
                    == AcpErrorView::SessionNotFound(source)),
                Some(s) => if r.sessions.dom().len() < r.max_sessions {
                    &&& result matches Ok(made)
                    &&& made.session_id == id
                    &&& made.state == fork_state(s)
                    &&& made.freed == servers_at(r, id)
                    &&& becomes(
                        r,
                        after,
                        id,
                        (SessionState { execution: None, mcp: None, agent: agent_at(r, source) }),
                    )
                } else {
                    after == r && (result matches Err(error) && error
                        == AcpErrorView::MaxSessionsReached(r.max_sessions))
                },
            }
        }),
{
}

/// A fork takes its source's directories, mode and options over, each with its
/// value, and nothing else.
pub proof fn law_what_a_fork_takes_over(source: Seq<(Seq<char>, JsonView)>, key: Seq<char>)
    requires
        distinct_names(source),
    ensures
        ({
            let setting = key == "acp:cwd"@ || key == "acp:additional_directories"@ || key
                == "acp:mode"@ || "acp:config:"@.is_prefix_of(key);
            &&& setting ==> lookup(fork_state(source), key) == lookup(source, key)
            &&& !setting ==> lookup(fork_state(source), key) is None
        }),
{
    law_fork_state_is_the_sessions_settings(source, key);
    assert(has_prefix(key, "acp:config:"@) <==> "acp:config:"@.is_prefix_of(key));
    assert(is_fork_key(key) <==> (key == "acp:cwd"@ || key == "acp:additional_directories"@ || key
        == "acp:mode"@ || has_prefix(key, "acp:config:"@)));
}

/// The tool servers that may be there, in a list.
pub open spec fn listed(had: Option<u64>, given: Option<u64>) -> Seq<u64> {
    match (had, given) {
        (Some(a), Some(b)) => seq![a, b],
        (Some(a), None) => seq![a],
        (None, Some(b)) => seq![b],
        (None, None) => Seq::empty(),
    }
}

/// A session that has been stored is given its tool servers, and the answer is
/// its identifier. One that could not be stored is dropped: the message is the
/// answer, and the tool servers that it had and was to have are to be stopped.
pub proof fn law_what_comes_of_storing(
    r: RegistryView,
    id: Seq<char>,
    mcp: Option<u64>,
    failure: Option<Seq<char>>,
)
    ensures
        ({
            let (after, stored) = store_step(r, id, mcp, failure);
            match failure {
                Some(message) => {
                    &&& !after.sessions.dom().contains(id)
                    &&& others_untouched(r, after, id)
                    &&& stored.result == Err::<Seq<char>, AcpErrorView>(
                        AcpErrorView::Internal(message),
                    )
                    &&& stored.freed == listed(
                        if active(r, id) {
                            r.sessions[id].mcp
                        } else {
                            None
                        },
                        mcp,
                    )
                },
                None => {
                    &&& stored.result == Ok::<Seq<char>, AcpErrorView>(id)
                    &&& active(r, id) ==> {
                        &&& stored.freed == listed(r.sessions[id].mcp, None)
                        &&& becomes(
                            r,
                            after,
                            id,
                            (SessionState {
                                execution: r.sessions[id].execution,
                                mcp,
                                agent: r.sessions[id].agent,
                            }),
                        )
                    }
                    &&& !active(r, id) ==> after == r && stored.freed == listed(None, mcp)
                },
            }
        }),
{
    let (after, stored) = store_step(r, id, mcp, failure);
    let had: Option<u64> = if active(r, id) {
        r.sessions[id].mcp
    } else {
        None
    };
    if failure is Some {
        assert(stored.freed =~= listed(had, mcp));
    } else if active(r, id) {
        assert(stored.freed =~= listed(had, None));
    } else {
        assert(stored.freed =~= listed(None, mcp));
    }
}

/// A failure is reported behind what was being done.
pub proof fn law_a_failure_is_told(result: Result<(), String>, prefix: Seq<char>)
    ensures
        match result {
            Ok(()) => failure_of(result, prefix) is None,
            Err(e) => failure_of(result, prefix) == Some(prefix + e@),
        },
{
}

/// While events are left, the next of them is to be appended to the fork, and
/// nothing else changes; then the fork is stored.
pub proof fn law_how_a_fork_goes_on(
    r: RegistryView,
    id: Seq<char>,
    mcp: Option<u64>,
    total: nat,
    next: nat,
)
    ensures
        next < total ==> fork_next(r, id, mcp, total, next) == (
            r,
            ForkStepView::Append { session_id: id, mcp, total, next },
        ),
        next >= total ==> {
            &&& fork_next(r, id, mcp, total, next).0 == store_step(r, id, mcp, None).0
            &&& fork_next(r, id, mcp, total, next).1 == ForkStepView::Done(
                store_step(r, id, mcp, None).1,
            )
        },
{
}

/// A fork of which an event could not be appended is undone: it is dropped, what
/// is stored of it is to be deleted, the tool servers that it had and was to
/// have are to be stopped, and the answer says what failed. Otherwise the next
/// event is due.
pub proof fn law_what_comes_of_appending(
    r: RegistryView,
    key: SessionKeyView,
    mcp: Option<u64>,
    total: nat,
    next: nat,
    failure: Option<Seq<char>>,
)
    ensures
        ({
            let (after, step) = fork_appended(r, key, mcp, total, next, failure);
            match failure {
                Some(e) => {
                    &&& !after.sessions.dom().contains(key.session_id)
                    &&& others_untouched(r, after, key.session_id)
                    &&& step matches ForkStepView::Undo { delete, error, freed }
                    &&& delete == key
                    &&& error == AcpErrorView::Internal(
                        "failed to copy session history into fork: "@ + e,
                    )
                    &&& freed == listed(
                        if active(r, key.session_id) {
                            r.sessions[key.session_id].mcp
                        } else {
                            None
                        },
                        mcp,
                    )
                },
                None => (after, step) == fork_next(r, key.session_id, mcp, total, next + 1),
            }
        }),
{
    let had: Option<u64> = if active(r, key.session_id) {
        r.sessions[key.session_id].mcp
    } else {
        None
    };
    if failure is Some {
        let step = fork_appended(r, key, mcp, total, next, failure).1;
        assert(step->freed =~= listed(had, mcp));
    }
}

/// While events are left, the next of them is to be sent; then the session is
/// loaded. An event that could not be sent ends the request.
pub proof fn law_how_a_replay_goes_on(
    id: Seq<char>,
    total: nat,
    next: nat,
    result: Result<(), String>,
)
    ensures
        next < total ==> replay_next(id, total, next) == (ReplayStepView::Send {
            session_id: id,
            total,
            next,
        }),
        next >= total ==> replay_next(id, total, next) == ReplayStepView::Done(Ok(())),
        match result {
            Ok(()) => replay_sent(id, total, next, result) == replay_next(id, total, next + 1),
            Err(e) => replay_sent(id, total, next, result) matches ReplayStepView::Done(Err(_)),
        },
{
}

/// A session that was there is deleted; one that was not is not found.
pub proof fn law_what_comes_of_deleting(id: Seq<char>, deleted: bool)
    ensures
        deleted ==> delete_outcome(id, deleted) is Ok,
        !deleted ==> delete_outcome(id, deleted) == Err::<(), AcpErrorView>(
            AcpErrorView::SessionNotFound(id),
        ),
{
}

/// A session is stored under the server's application and user and its own
/// identifier.
pub proof fn law_where_a_session_is_stored<F>(h: AcpSessionHandler<F>, id: Seq<char>)
    ensures
        h.key(id).app_name == h.app_name@,
        h.key(id).user_id == h.user_id@,
        h.key(id).session_id == id,
{
}

} // verus!
