//! What holds of the session lifecycle as a whole.

use crate::acp::config::AgentFactory;
use crate::acp::error::AcpErrorView;
use crate::acp::handler::{
    composed, config_prefix, cwd_answer, cwd_key, dirs_key, entry_result, fork_appended, fork_next,
    fork_state, fork_step, load_step, mode_key, one_or_none, replay_next, replay_sent, store_step,
    stored_result, with_copied, with_options, ForkStepView, Loaded, ReplayStepView, SessionKeyView,
};
use crate::acp::path::SessionPath;
use crate::acp::registry::{
    add_step, agent_at, attach_step, begin_step, close_step, drains, end_step, fresh, register_step,
    registry_ok, running_at, running_token, servers_at, sessions_running, sessions_served,
    with_session, without_session, Drained, RegistryView, SessionState,
};
use crate::json::{
    distinct_names, law_set_then_get, lemma_position, lemma_position_is, lookup, position,
    JsonView,
};
use crate::text::has_prefix;
use vstd::prelude::*;

verus! {

// ---------------------------------------------------------------------
// The registry
// ---------------------------------------------------------------------

/// No step takes the sessions over the limit.
pub proof fn law_the_limit_is_kept(
    r: RegistryView,
    id: Seq<char>,
    mcp: Option<u64>,
    agent: Option<u64>,
    token: u64,
)
    requires
        registry_ok(r),
    ensures
        registry_ok(add_step(r, id, agent).0),
        registry_ok(register_step(r, id).0),
        registry_ok(attach_step(r, id, mcp, agent).0),
        registry_ok(begin_step(r, id, token).0),
        registry_ok(end_step(r, id, token)),
        registry_ok(close_step(r, id).0),
        registry_ok(without_session(r, id)),
{
    assert forall|s: SessionState|
        r.sessions.dom().contains(id) || r.sessions.dom().len() < r.max_sessions implies registry_ok(
        #[trigger] with_session(r, id, s),
    ) by {
        assert(with_session(r, id, s).sessions.dom() =~= r.sessions.dom().insert(id));
    }
    assert(without_session(r, id).sessions.dom() =~= r.sessions.dom().remove(id));
}

/// An active session in which no prompt runs can be bound again, however many
/// sessions there are. That takes no new place, and the session keeps its
/// agent.
pub proof fn law_idle_session_rebinds(r: RegistryView, id: Seq<char>)
    requires
        r.sessions.dom().contains(id),
        !running_at(r, id),
    ensures
        register_step(r, id).1 == Ok::<Option<u64>, AcpErrorView>(servers_at(r, id)),
        register_step(r, id).0.sessions.dom() == r.sessions.dom(),
        register_step(r, id).0.sessions[id] == fresh(r.sessions[id].agent),
{
    assert(r.sessions.insert(id, fresh(r.sessions[id].agent)).dom() =~= r.sessions.dom());
}

/// Binding is refused for two reasons only: a prompt is running in the
/// session, or the session is not active and there is no room. A refusal
/// changes nothing.
pub proof fn law_refused_only_while_running_or_full(r: RegistryView, id: Seq<char>)
    ensures
        register_step(r, id).1 is Err <==> running_at(r, id) || (!r.sessions.dom().contains(id)
            && r.sessions.dom().len() >= r.max_sessions),
        register_step(r, id).1 is Err ==> register_step(r, id).0 == r,
{
}

/// Two turns never run in one session at a time: a second prompt is refused
/// until the first is over, and so is binding the session again.
pub proof fn law_turns_are_serial(r: RegistryView, id: Seq<char>, token: u64, other: u64)
    requires
        begin_step(r, id, token).1 is Ok,
    ensures
        running_at(begin_step(r, id, token).0, id),
        begin_step(begin_step(r, id, token).0, id, other).1 is Err,
        register_step(begin_step(r, id, token).0, id).1 is Err,
{
}

/// Once a turn is over, however it ended, the session is free: it can be bound
/// again, and prompted again.
pub proof fn law_a_finished_turn_frees_the_session(
    r: RegistryView,
    id: Seq<char>,
    token: u64,
    other: u64,
)
    requires
        begin_step(r, id, token).1 is Ok,
    ensures
        ({
            let after = end_step(begin_step(r, id, token).0, id, token);
            &&& !running_at(after, id)
            &&& register_step(after, id).1 is Ok
            &&& begin_step(after, id, other).1 is Ok
        }),
{
}

/// The end of a turn does not touch a session that has been bound again since,
/// nor one that has been prompted again since.
pub proof fn law_a_late_end_touches_nothing(r: RegistryView, id: Seq<char>, late: u64, token: u64)
    requires
        late != token,
    ensures
        register_step(r, id).1 is Ok ==> end_step(register_step(r, id).0, id, late)
            == register_step(r, id).0,
        begin_step(r, id, token).1 is Ok ==> end_step(begin_step(r, id, token).0, id, late)
            == begin_step(r, id, token).0,
{
}

/// A session that was closed, even with a prompt running in it, can become
/// active again at once.
pub proof fn law_close_then_load_succeeds(r: RegistryView, id: Seq<char>)
    requires
        registry_ok(r),
        r.sessions.dom().contains(id),
    ensures
        close_step(r, id).1 is Some,
        register_step(close_step(r, id).0, id).1 is Ok,
{
    assert(close_step(r, id).0.sessions.dom() =~= r.sessions.dom().remove(id));
}

/// A new session that is dropped again leaves nothing behind.
pub proof fn law_a_failed_new_session_leaves_no_trace(
    r: RegistryView,
    id: Seq<char>,
    agent: Option<u64>,
    mcp: Option<u64>,
    message: Seq<char>,
)
    requires
        !r.sessions.dom().contains(id),
    ensures
        without_session(add_step(r, id, agent).0, id) == r,
        add_step(r, id, agent).1 is Ok ==> {
            let (after, stored) = store_step(add_step(r, id, agent).0, id, mcp, Some(message));
            &&& after == r
            &&& stored.result is Err
            &&& stored.freed == one_or_none(mcp)
        },
{
    assert(without_session(add_step(r, id, agent).0, id).sessions =~= r.sessions);
    assert(Seq::<u64>::empty() + one_or_none(mcp) =~= one_or_none(mcp));
}

/// Tool servers are never lost: those that a session had, or was to have, are
/// its own afterwards or are to be stopped.
pub proof fn law_tool_servers_are_kept_or_stopped(
    r: RegistryView,
    id: Seq<char>,
    mcp: Option<u64>,
    agent: Option<u64>,
    m: u64,
)
    ensures
        servers_at(r, id) == Some(m) && register_step(r, id).1 is Ok ==> register_step(r, id).1
            == Ok::<Option<u64>, AcpErrorView>(Some(m)),
        servers_at(r, id) == Some(m) && add_step(r, id, agent).1 is Ok ==> add_step(r, id, agent).1
            == Ok::<Option<u64>, AcpErrorView>(Some(m)),
        servers_at(r, id) == Some(m) ==> attach_step(r, id, mcp, agent).1 == Some(m),
        mcp == Some(m) ==> servers_at(attach_step(r, id, mcp, agent).0, id) == Some(m)
            || attach_step(r, id, mcp, agent).1 == Some(m),
        servers_at(r, id) == Some(m) ==> (close_step(r, id).1 matches Some(done) && done.freed
            == Some(m)),
        forall|token: u64| #[trigger]
            servers_at(begin_step(r, id, token).0, id) == servers_at(r, id),
        forall|token: u64| #[trigger]
            servers_at(end_step(r, id, token), id) == servers_at(r, id),
{
}

/// A shutdown reaches everything: the prompts that are cancelled are those that
/// are running in some session, and the tool servers that are stopped are those
/// of some session.
pub proof fn law_a_shutdown_reaches_every_session(
    r: RegistryView,
    done: Drained,
    token: u64,
    mcp: u64,
)
    requires
        registry_ok(r),
        drains(r, done),
    ensures
        done.cancel@.contains(token) <==> exists|id: Seq<char>| #[trigger]
            r.sessions.dom().contains(id) && running_token(r.sessions[id]) == Some(token),
        done.freed@.contains(mcp) <==> exists|id: Seq<char>| #[trigger]
            r.sessions.dom().contains(id) && r.sessions[id].mcp == Some(mcp),
{
    broadcast use vstd::seq_lib::group_to_multiset_ensures;

    let running = sessions_running(r, token);
    let served = sessions_served(r, mcp);
    assert(done.cancel@.to_multiset().count(token) == running.len());
    assert(done.freed@.to_multiset().count(mcp) == served.len());
    if running.len() > 0 {
        assert(running.contains(running.choose()));
        assert(r.sessions.dom().contains(running.choose()));
    }
    if served.len() > 0 {
        assert(served.contains(served.choose()));
        assert(r.sessions.dom().contains(served.choose()));
    }
    assert forall|id: Seq<char>| #[trigger] r.sessions.dom().contains(id) && running_token(
        r.sessions[id],
    ) == Some(token) implies running.len() > 0 by {
        assert(running.contains(id));
    }
    assert forall|id: Seq<char>| #[trigger] r.sessions.dom().contains(id) && r.sessions[id].mcp
        == Some(mcp) implies served.len() > 0 by {
        assert(served.contains(id));
    }
}

// ---------------------------------------------------------------------
// Loading and forking
// ---------------------------------------------------------------------

/// A session that is loaded without an extension map keeps its agent; one that
/// is loaded with one gets the agent composed for it.
pub proof fn law_load_keeps_or_replaces_the_agent(
    r: RegistryView,
    id: Seq<char>,
    rebuilt: Option<u64>,
    mcp: Option<u64>,
)
    requires
        load_step(r, id, Ok(rebuilt)).1 is Ok,
    ensures
        ({
            let after = attach_step(load_step(r, id, Ok(rebuilt)).0, id, mcp, rebuilt).0;
            agent_at(after, id) == (if rebuilt is Some {
                rebuilt
            } else {
                agent_at(r, id)
            })
        }),
{
}

/// An agent that could not be composed leaves the session as it was.
pub proof fn law_a_rejected_agent_changes_nothing(r: RegistryView, id: Seq<char>, e: AcpErrorView)
    ensures
        load_step(r, id, Err(e)) == (r, Err::<Loaded, AcpErrorView>(e)),
{
}

/// The events that are replayed from `next` on, each with the session that it is
/// sent for, as long as the client can be reached.
pub open spec fn replayed_events(id: Seq<char>, total: nat, next: nat) -> Seq<(Seq<char>, nat)>
    decreases total - next,
{
    match replay_next(id, total, next) {
        ReplayStepView::Send { session_id, next: event, .. } => if next < total {
            seq![(session_id, event)] + replayed_events(id, total, next + 1)
        } else {
            Seq::empty()
        },
        ReplayStepView::Done(_) => Seq::empty(),
    }
}

/// A loaded session has its history replayed: every event once, oldest first,
/// all of them for that session, and the request succeeds after the last.
pub proof fn law_load_replays_the_history_in_order(id: Seq<char>, total: nat, next: nat)
    requires
        next <= total,
    ensures
        replayed_events(id, total, next) == Seq::new(
            (total - next) as nat,
            |i: int| (id, (next + i) as nat),
        ),
        replay_next(id, total, total) == ReplayStepView::Done(Ok(())),
        next < total ==> replay_sent(id, total, next, Ok(())) == replay_next(id, total, next + 1),
    decreases total - next,
{
    if next < total {
        law_load_replays_the_history_in_order(id, total, next + 1);
    }
    assert(replayed_events(id, total, next) =~= Seq::new(
        (total - next) as nat,
        |i: int| (id, (next + i) as nat),
    ));
}

/// A stored session that is idle, or not active while there is room, is loaded
/// by a request that names its directory and has no extension map: it is active
/// then, with the agent that it had, its whole history has been replayed in
/// order, and a prompt is accepted.
pub proof fn law_a_stored_session_loads<F: AgentFactory>(
    r: RegistryView,
    id: Seq<char>,
    factory: Option<F>,
    cwd: SessionPath,
    same_cwd: bool,
    agent: Result<Option<u64>, AcpErrorView>,
    mcp: Option<u64>,
    total: nat,
    token: u64,
)
    requires
        cwd.absolute,
        !running_at(r, id),
        r.sessions.dom().contains(id) || r.sessions.dom().len() < r.max_sessions,
        cwd_answer(Some(cwd.text@), cwd.text@, same_cwd),
        composed(factory, None, cwd, agent),
    ensures
        entry_result(false, cwd, Seq::empty()) is Ok,
        stored_result(
            id,
            true,
            same_cwd,
            "loaded session cwd does not match its original cwd"@,
        ) is Ok,
        load_step(r, id, agent).1 is Ok,
        ({
            let rebuilt = load_step(r, id, agent).1->Ok_0.rebuilt;
            let after = attach_step(load_step(r, id, agent).0, id, mcp, rebuilt).0;
            &&& after.sessions.dom() == r.sessions.dom().insert(id)
            &&& agent_at(after, id) == agent_at(r, id)
            &&& servers_at(after, id) == mcp
            &&& begin_step(after, id, token).1 is Ok
        }),
        replayed_events(id, total, 0) == Seq::new(total, |i: int| (id, i as nat)),
        replay_next(id, total, total) == ReplayStepView::Done(Ok(())),
{
    law_load_replays_the_history_in_order(id, total, 0);
    assert(replayed_events(id, total, 0) =~= Seq::new(total, |i: int| (id, i as nat)));
    let after = attach_step(load_step(r, id, agent).0, id, mcp, None).0;
    assert(after.sessions.dom() =~= r.sessions.dom().insert(id));
}

/// A session that was closed, even with a prompt running in it, can be loaded
/// again at once: it is active then, its whole history has been replayed in
/// order, and a prompt is accepted.
pub proof fn law_a_closed_session_loads<F: AgentFactory>(
    r: RegistryView,
    id: Seq<char>,
    factory: Option<F>,
    cwd: SessionPath,
    same_cwd: bool,
    agent: Result<Option<u64>, AcpErrorView>,
    mcp: Option<u64>,
    total: nat,
    token: u64,
)
    requires
        registry_ok(r),
        r.sessions.dom().contains(id),
        cwd.absolute,
        cwd_answer(Some(cwd.text@), cwd.text@, same_cwd),
        composed(factory, None, cwd, agent),
    ensures
        close_step(r, id).1 is Some,
        ({
            let closed = close_step(r, id).0;
            let rebuilt = load_step(closed, id, agent).1->Ok_0.rebuilt;
            let after = attach_step(load_step(closed, id, agent).0, id, mcp, rebuilt).0;
            &&& load_step(closed, id, agent).1 is Ok
            &&& after.sessions.dom() == r.sessions.dom()
            &&& begin_step(after, id, token).1 is Ok
        }),
        replayed_events(id, total, 0) == Seq::new(total, |i: int| (id, i as nat)),
{
    let closed = close_step(r, id).0;
    assert(closed.sessions.dom() =~= r.sessions.dom().remove(id));
    law_a_stored_session_loads(closed, id, factory, cwd, same_cwd, agent, mcp, total, token);
    assert(r.sessions.dom().remove(id).insert(id) =~= r.sessions.dom());
}

/// A fork leaves its source as it is, and has the source's agent.
pub proof fn law_fork_leaves_its_source_alone(
    r: RegistryView,
    source: Seq<char>,
    state: Seq<(Seq<char>, JsonView)>,
    id: Seq<char>,
)
    requires
        id != source,
        fork_step(r, source, Some(state), id).1 is Ok,
    ensures
        ({
            let (after, forked) = fork_step(r, source, Some(state), id);
            &&& after.sessions.dom().contains(source) == r.sessions.dom().contains(source)
            &&& r.sessions.dom().contains(source) ==> after.sessions[source] == r.sessions[source]
            &&& agent_at(after, id) == agent_at(r, source)
            &&& forked->Ok_0.state == fork_state(state)
        }),
{
}

/// The state keys that a fork takes over.
pub open spec fn is_fork_key(key: Seq<char>) -> bool {
    key == cwd_key() || key == dirs_key() || key == mode_key() || has_prefix(key, config_prefix())
}

/// A fork has the source's directories, mode and options, and nothing else.
pub proof fn law_fork_state_is_the_sessions_settings(
    source: Seq<(Seq<char>, JsonView)>,
    key: Seq<char>,
)
    requires
        distinct_names(source),
    ensures
        lookup(fork_state(source), key) == (if is_fork_key(key) {
            lookup(source, key)
        } else {
            None
        }),
{
    let empty = Seq::<(Seq<char>, JsonView)>::empty();
    let a = with_copied(empty, source, cwd_key());
    let b = with_copied(a, source, dirs_key());
    let c = with_copied(b, source, mode_key());
    lemma_copied(empty, source, cwd_key(), key);
    lemma_copied(a, source, dirs_key(), key);
    lemma_copied(b, source, mode_key(), key);
    lemma_position(empty, key);
    lemma_options(c, source, key);
}

proof fn lemma_copied(
    entries: Seq<(Seq<char>, JsonView)>,
    source: Seq<(Seq<char>, JsonView)>,
    key: Seq<char>,
    other: Seq<char>,
)
    ensures
        lookup(with_copied(entries, source, key), other) == (if other == key && lookup(
            source,
            key,
        ) is Some {
            lookup(source, key)
        } else {
            lookup(entries, other)
        }),
{
    if lookup(source, key) is Some {
        law_set_then_get(entries, key, lookup(source, key)->Some_0, other);
    }
}

proof fn lemma_options(
    entries: Seq<(Seq<char>, JsonView)>,
    source: Seq<(Seq<char>, JsonView)>,
    key: Seq<char>,
)
    requires
        distinct_names(source),
    ensures
        lookup(with_options(entries, source), key) == (if has_prefix(key, config_prefix())
            && lookup(source, key) is Some {
            lookup(source, key)
        } else {
            lookup(entries, key)
        }),
    decreases source.len(),
{
    lemma_position(source, key);
    if source.len() > 0 {
        let less = source.drop_last();
        assert(distinct_names(less)) by {
            assert forall|i: int, j: int| 0 <= i < j < less.len() implies (#[trigger] less[i]).0
                != (#[trigger] less[j]).0 by {
                assert(source[i].0 != source[j].0);
            }
        }
        lemma_options(entries, less, key);
        lemma_position(less, key);
        law_set_then_get(with_options(entries, less), source.last().0, source.last().1, key);
        if source.last().0 == key {
            assert forall|i: int| 0 <= i < source.len() - 1 implies (#[trigger] source[i]).0
                != key by {
                assert(source[i].0 != source[source.len() - 1].0);
            }
            lemma_position_is(source, key, source.len() - 1);
            if position(less, key) < less.len() {
                assert(source[position(less, key)].0 != key);
            }
        } else {
            let p = position(less, key);
            let at = if p < less.len() {
                p
            } else {
                source.len() as int
            };
            assert forall|i: int| 0 <= i < at implies (#[trigger] source[i]).0 != key by {
                if i < less.len() {
                    assert(less[i].0 != key);
                }
            }
            lemma_position_is(source, key, at);
        }
    } else {
        lemma_position(entries, key);
    }
}

/// The events that are appended to a fork from `next` on, as long as none
/// fails.
pub open spec fn appended_events(
    r: RegistryView,
    key: SessionKeyView,
    mcp: Option<u64>,
    total: nat,
    next: nat,
) -> Seq<nat>
    decreases total - next,
{
    match fork_next(r, key.session_id, mcp, total, next).1 {
        ForkStepView::Append { next: event, .. } => if next < total {
            seq![event] + appended_events(r, key, mcp, total, next + 1)
        } else {
            Seq::empty()
        },
        _ => Seq::empty(),
    }
}

/// A fork is given every event of its source once, in the source's order, and
/// is done after the last.
pub proof fn law_fork_copies_the_history_in_order(
    r: RegistryView,
    key: SessionKeyView,
    mcp: Option<u64>,
    total: nat,
    next: nat,
)
    requires
        next <= total,
    ensures
        appended_events(r, key, mcp, total, next) == Seq::new(
            (total - next) as nat,
            |i: int| (next + i) as nat,
        ),
        fork_next(r, key.session_id, mcp, total, total).1 is Done,
        next < total ==> fork_appended(r, key, mcp, total, next, None) == fork_next(
            r,
            key.session_id,
            mcp,
            total,
            next + 1,
        ),
    decreases total - next,
{
    if next < total {
        law_fork_copies_the_history_in_order(r, key, mcp, total, next + 1);
    }
    assert(appended_events(r, key, mcp, total, next) =~= Seq::new(
        (total - next) as nat,
        |i: int| (next + i) as nat,
    ));
}

/// A fork whose history cannot be copied is undone: it is no longer active,
/// what is stored of it is to be deleted, and its tool servers are to be
/// stopped.
pub proof fn law_a_failed_copy_undoes_the_fork(
    r: RegistryView,
    key: SessionKeyView,
    mcp: Option<u64>,
    total: nat,
    next: nat,
    e: Seq<char>,
)
    ensures
        ({
            let (after, step) = fork_appended(r, key, mcp, total, next, Some(e));
            &&& !after.sessions.dom().contains(key.session_id)
            &&& step matches ForkStepView::Undo { delete, freed, .. } && delete == key
                && one_or_none(mcp).is_suffix_of(freed)
        }),
{
    let held = one_or_none(servers_at(r, key.session_id));
    let freed = held + one_or_none(mcp);
    assert(freed.subrange(held.len() as int, freed.len() as int) =~= one_or_none(mcp));
}

} // verus!
