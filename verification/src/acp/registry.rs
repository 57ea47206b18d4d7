//! The sessions that are active in this process.
//!
//! An entry marks a session as active; it belongs to no connection. A session
//! whose last turn is over may be bound again from any connection, and is
//! refused only while a prompt is running in it.

use crate::acp::error::{outcome, AcpErrorView, AcpServerError};
use crate::table::Table;
use vstd::prelude::*;

verus! {

/// The prompt that a session was last given. `token` tells prompts apart; the
/// caller picks a new one for each.
#[derive(Clone, Copy, Debug)]
pub struct InFlightPrompt {
    pub token: u64,
    pub running: bool,
}

/// An active session. `mcp` stands for the tool servers that run for it, and
/// `agent` for an agent of its own, where it has one.
#[derive(Clone, Copy, Debug)]
pub struct SessionState {
    pub execution: Option<InFlightPrompt>,
    pub mcp: Option<u64>,
    pub agent: Option<u64>,
}

#[verifier::ext_equal]
pub struct RegistryView {
    pub sessions: Map<Seq<char>, SessionState>,
    pub max_sessions: nat,
}

/// What a turn has to work with.
#[derive(Clone, Copy, Debug)]
pub struct PromptStart {
    pub mcp: Option<u64>,
    pub agent: Option<u64>,
}

/// What is to be done about a session that is no longer active: the prompt to
/// cancel and the tool servers to stop.
#[derive(Clone, Copy, Debug)]
pub struct Ended {
    pub cancel: Option<u64>,
    pub freed: Option<u64>,
}

/// What is to be done about all sessions.
pub struct Drained {
    pub cancel: Vec<u64>,
    pub freed: Vec<u64>,
}

// ---------------------------------------------------------------------
// The registry, mathematically
// ---------------------------------------------------------------------

/// A prompt is running in the session.
pub open spec fn is_running(s: SessionState) -> bool {
    s.execution matches Some(p) && p.running
}

pub open spec fn running_at(r: RegistryView, id: Seq<char>) -> bool {
    r.sessions.dom().contains(id) && is_running(r.sessions[id])
}

/// The token of the prompt that is running in the session.
pub open spec fn running_token(s: SessionState) -> Option<u64> {
    match s.execution {
        Some(p) => if p.running {
            Some(p.token)
        } else {
            None
        },
        None => None,
    }
}

/// The tool servers that run for the session of that name.
pub open spec fn servers_at(r: RegistryView, id: Seq<char>) -> Option<u64> {
    if r.sessions.dom().contains(id) {
        r.sessions[id].mcp
    } else {
        None
    }
}

/// The agent of the session of that name.
pub open spec fn agent_at(r: RegistryView, id: Seq<char>) -> Option<u64> {
    if r.sessions.dom().contains(id) {
        r.sessions[id].agent
    } else {
        None
    }
}

/// A session that has just become active.
pub open spec fn fresh(agent: Option<u64>) -> SessionState {
    SessionState { execution: None, mcp: None, agent }
}

pub open spec fn with_session(r: RegistryView, id: Seq<char>, s: SessionState) -> RegistryView {
    RegistryView { sessions: r.sessions.insert(id, s), ..r }
}

pub open spec fn without_session(r: RegistryView, id: Seq<char>) -> RegistryView {
    RegistryView { sessions: r.sessions.remove(id), ..r }
}

/// The limit is kept.
pub open spec fn registry_ok(r: RegistryView) -> bool {
    r.sessions.dom().finite() && r.sessions.dom().len() <= r.max_sessions
}

/// A new session, unless there are as many as there may be. On success the
/// result names tool servers that are to be stopped.
pub open spec fn add_step(r: RegistryView, id: Seq<char>, agent: Option<u64>) -> (
    RegistryView,
    Result<Option<u64>, AcpErrorView>,
) {
    if r.sessions.dom().len() >= r.max_sessions {
        (r, Err(AcpErrorView::MaxSessionsReached(r.max_sessions)))
    } else {
        (with_session(r, id, fresh(agent)), Ok(servers_at(r, id)))
    }
}

/// A stored session becomes active, or is bound again. It keeps its agent.
pub open spec fn register_step(r: RegistryView, id: Seq<char>) -> (
    RegistryView,
    Result<Option<u64>, AcpErrorView>,
) {
    if running_at(r, id) {
        (
            r,
            Err(
                AcpErrorView::Execution(
                    "the session is already active on this ACP connection: a prompt is running"@,
                ),
            ),
        )
    } else if !r.sessions.dom().contains(id) && r.sessions.dom().len() >= r.max_sessions {
        (r, Err(AcpErrorView::MaxSessionsReached(r.max_sessions)))
    } else {
        (with_session(r, id, fresh(agent_at(r, id))), Ok(servers_at(r, id)))
    }
}

/// Tool servers that have started are given to their session, and with them an
/// agent, where there is a new one. The result names those to be stopped: the
/// session's earlier ones, or these, where the session is gone.
pub open spec fn attach_step(
    r: RegistryView,
    id: Seq<char>,
    mcp: Option<u64>,
    agent: Option<u64>,
) -> (RegistryView, Option<u64>) {
    if r.sessions.dom().contains(id) {
        let s = r.sessions[id];
        (
            with_session(
                r,
                id,
                SessionState {
                    mcp,
                    agent: if agent is Some {
                        agent
                    } else {
                        s.agent
                    },
                    ..s
                },
            ),
            s.mcp,
        )
    } else {
        (r, mcp)
    }
}

/// A turn starts, unless one is running.
pub open spec fn begin_step(r: RegistryView, id: Seq<char>, token: u64) -> (
    RegistryView,
    Result<PromptStart, AcpErrorView>,
) {
    if !r.sessions.dom().contains(id) {
        (r, Err(AcpErrorView::SessionNotFound(id)))
    } else if is_running(r.sessions[id]) {
        (r, Err(AcpErrorView::Execution("a prompt is already running in this session"@)))
    } else {
        let s = r.sessions[id];
        (
            with_session(
                r,
                id,
                SessionState { execution: Some(InFlightPrompt { token, running: true }), ..s },
            ),
            Ok(PromptStart { mcp: s.mcp, agent: s.agent }),
        )
    }
}

/// The session still has the prompt with that token.
pub open spec fn holds_prompt(r: RegistryView, id: Seq<char>, token: u64) -> bool {
    r.sessions.dom().contains(id) && (r.sessions[id].execution matches Some(p) && p.token == token)
}

/// A turn is over, however it ended. A session that has been bound again since
/// is not touched.
pub open spec fn end_step(r: RegistryView, id: Seq<char>, token: u64) -> RegistryView {
    if holds_prompt(r, id, token) {
        with_session(
            r,
            id,
            SessionState {
                execution: Some(InFlightPrompt { token, running: false }),
                ..r.sessions[id]
            },
        )
    } else {
        r
    }
}

/// What is to be done about a session that is no longer active.
pub open spec fn ended(s: SessionState) -> Ended {
    Ended { cancel: running_token(s), freed: s.mcp }
}

/// A session is no longer active.
pub open spec fn close_step(r: RegistryView, id: Seq<char>) -> (RegistryView, Option<Ended>) {
    if r.sessions.dom().contains(id) {
        (without_session(r, id), Some(ended(r.sessions[id])))
    } else {
        (r, None)
    }
}

/// The sessions in which the prompt with that token is running.
pub open spec fn sessions_running(r: RegistryView, token: u64) -> Set<Seq<char>> {
    r.sessions.dom().filter(|id: Seq<char>| running_token(r.sessions[id]) == Some(token))
}

/// The sessions for which those tool servers run.
pub open spec fn sessions_served(r: RegistryView, mcp: u64) -> Set<Seq<char>> {
    r.sessions.dom().filter(|id: Seq<char>| r.sessions[id].mcp == Some(mcp))
}

/// What is to be done about all sessions: every running prompt is to be
/// cancelled and all tool servers are to be stopped, once for each session that
/// has them, in whatever order.
pub open spec fn drains(r: RegistryView, done: Drained) -> bool {
    &&& forall|token: u64| #[trigger]
        done.cancel@.to_multiset().count(token) == sessions_running(r, token).len()
    &&& forall|mcp: u64| #[trigger]
        done.freed@.to_multiset().count(mcp) == sessions_served(r, mcp).len()
}

// ---------------------------------------------------------------------
// The registry at run time
// ---------------------------------------------------------------------

/// The sessions that are active in this process.
pub struct Registry {
    sessions: Table<SessionState>,
    max_sessions: usize,
}

impl View for Registry {
    type V = RegistryView;

    closed spec fn view(&self) -> RegistryView {
        RegistryView { sessions: self.sessions@, max_sessions: self.max_sessions as nat }
    }
}

impl Registry {
    #[verifier::type_invariant]
    closed spec fn is_ok(self) -> bool {
        registry_ok(self@)
    }

    /// No session is active; `max_sessions` may be.
    pub fn new(max_sessions: usize) -> (r: Registry)
        ensures
            r@ == (RegistryView { sessions: Map::empty(), max_sessions: max_sessions as nat }),
    {
        Registry { sessions: Table::new(), max_sessions }
    }

    /// The number of active sessions.
    pub fn len(&self) -> (n: usize)
        ensures
            registry_ok(self@),
            n == self@.sessions.dom().len(),
            n <= self@.max_sessions,
    {
        proof {
            use_type_invariant(self);
        }
        self.sessions.len()
    }

    /// The session of that name.
    pub fn get(&self, id: &str) -> (s: Option<SessionState>)
        ensures
            match s {
                Some(v) => self@.sessions.dom().contains(id@) && self@.sessions[id@] == v,
                None => !self@.sessions.dom().contains(id@),
            },
    {
        self.sessions.get(id)
    }

    fn put(&mut self, id: String, s: SessionState)
        requires
            registry_ok(with_session(old(self)@, id@, s)),
        ensures
            final(self)@ == with_session(old(self)@, id@, s),
    {
        let mut sessions: Table<SessionState> = Table::new();
        proof {
            lemma_empty_ok(self@);
        }
        std::mem::swap(&mut sessions, &mut self.sessions);
        sessions.insert(id, s);
        self.sessions = sessions;
    }

    fn take(&mut self, id: &str) -> (s: Option<SessionState>)
        ensures
            match s {
                Some(v) => old(self)@.sessions.dom().contains(id@) && old(self)@.sessions[id@]
                    == v,
                None => !old(self)@.sessions.dom().contains(id@),
            },
            final(self)@ == without_session(old(self)@, id@),
    {
        proof {
            use_type_invariant(&*self);
            lemma_without_ok(self@, id@);
            lemma_empty_ok(self@);
        }
        let mut sessions: Table<SessionState> = Table::new();
        std::mem::swap(&mut sessions, &mut self.sessions);
        let s = sessions.remove(id);
        self.sessions = sessions;
        s
    }

    /// Makes a new session active.
    pub fn add_session(&mut self, id: &str, agent: Option<u64>) -> (r: Result<
        Option<u64>,
        AcpServerError,
    >)
        ensures
            (final(self)@, outcome(r)) == add_step(old(self)@, id@, agent),
    {
        if self.len() >= self.max_sessions {
            return Err(AcpServerError::MaxSessionsReached(self.max_sessions));
        }
        proof {
            use_type_invariant(&*self);
            lemma_with_ok(self@, id@, fresh(agent));
        }
        let freed: Option<u64> = match self.sessions.get(id) {
            Some(s) => s.mcp,
            None => None,
        };
        self.put(id.to_owned(), SessionState { execution: None, mcp: None, agent });
        Ok(freed)
    }

    /// Makes a stored session active, or binds it again.
    pub fn register_session_entry(&mut self, id: &str) -> (r: Result<Option<u64>, AcpServerError>)
        ensures
            (final(self)@, outcome(r)) == register_step(old(self)@, id@),
    {
        proof {
            use_type_invariant(&*self);
        }
        match self.sessions.get(id) {
            Some(s) => {
                if running(&s) {
                    return Err(
                        AcpServerError::Execution(
                            "the session is already active on this ACP connection: a prompt is running".to_owned(),
                        ),
                    );
                }
                proof {
                    lemma_with_ok(self@, id@, fresh(s.agent));
                }
                self.put(
                    id.to_owned(),
                    SessionState { execution: None, mcp: None, agent: s.agent },
                );
                Ok(s.mcp)
            },
            None => {
                if self.len() >= self.max_sessions {
                    return Err(AcpServerError::MaxSessionsReached(self.max_sessions));
                }
                proof {
                    lemma_with_ok(self@, id@, fresh(None));
                }
                self.put(id.to_owned(), SessionState { execution: None, mcp: None, agent: None });
                Ok(None)
            },
        }
    }

    /// Drops a session whose activation failed.
    pub fn discard(&mut self, id: &str) -> (freed: Option<u64>)
        ensures
            freed == servers_at(old(self)@, id@),
            final(self)@ == without_session(old(self)@, id@),
    {
        match self.take(id) {
            Some(s) => s.mcp,
            None => None,
        }
    }

    /// Gives a session the tool servers that have started for it.
    pub fn attach(&mut self, id: &str, mcp: Option<u64>, agent: Option<u64>) -> (freed: Option<u64>)
        ensures
            (final(self)@, freed) == attach_step(old(self)@, id@, mcp, agent),
    {
        proof {
            use_type_invariant(&*self);
        }
        match self.sessions.get(id) {
            Some(s) => {
                let now = SessionState {
                    execution: s.execution,
                    mcp,
                    agent: match agent {
                        Some(a) => Some(a),
                        None => s.agent,
                    },
                };
                proof {
                    lemma_with_ok(self@, id@, now);
                }
                self.put(id.to_owned(), now);
                s.mcp
            },
            None => mcp,
        }
    }

    /// Starts a turn.
    pub fn begin_prompt(&mut self, id: &str, token: u64) -> (r: Result<PromptStart, AcpServerError>)
        ensures
            (final(self)@, outcome(r)) == begin_step(old(self)@, id@, token),
    {
        proof {
            use_type_invariant(&*self);
        }
        match self.sessions.get(id) {
            None => Err(AcpServerError::SessionNotFound(id.to_owned())),
            Some(s) => {
                if running(&s) {
                    return Err(
                        AcpServerError::Execution(
                            "a prompt is already running in this session".to_owned(),
                        ),
                    );
                }
                let now = SessionState {
                    execution: Some(InFlightPrompt { token, running: true }),
                    mcp: s.mcp,
                    agent: s.agent,
                };
                proof {
                    lemma_with_ok(self@, id@, now);
                }
                self.put(id.to_owned(), now);
                Ok(PromptStart { mcp: s.mcp, agent: s.agent })
            },
        }
    }

    /// Ends a turn.
    pub fn end_prompt(&mut self, id: &str, token: u64)
        ensures
            final(self)@ == end_step(old(self)@, id@, token),
    {
        proof {
            use_type_invariant(&*self);
        }
        match self.sessions.get(id) {
            Some(s) => match s.execution {
                Some(p) => if p.token == token {
                    let now = SessionState {
                        execution: Some(InFlightPrompt { token, running: false }),
                        mcp: s.mcp,
                        agent: s.agent,
                    };
                    proof {
                        lemma_with_ok(self@, id@, now);
                    }
                    self.put(id.to_owned(), now);
                },
                None => {},
            },
            None => {},
        }
    }

    /// The token of the prompt that is running in a session.
    pub fn running_prompt(&self, id: &str) -> (token: Option<u64>)
        ensures
            token == if self@.sessions.dom().contains(id@) {
                running_token(self@.sessions[id@])
            } else {
                None
            },
    {
        match self.sessions.get(id) {
            Some(s) => token_of(&s),
            None => None,
        }
    }

    /// Tells whether an active session has that agent.
    pub fn uses_agent(&self, agent: u64) -> (b: bool)
        ensures
            b == exists|id: Seq<char>| #[trigger]
                self@.sessions.dom().contains(id) && self@.sessions[id].agent == Some(agent),
    {
        let values: Vec<SessionState> = self.sessions.values();
        let mut i: usize = 0;
        while i < values.len()
            invariant
                i <= values@.len(),
                values@.len() == self@.sessions.dom().len(),
                forall|k: int|
                    0 <= k < values@.len() ==> self@.sessions.dom().contains(
                        self.sessions.name_of(k),
                    ) && self@.sessions[#[trigger] self.sessions.name_of(k)] == values@[k],
                forall|k: int| 0 <= k < i ==> (#[trigger] values@[k]).agent != Some(agent),
            decreases values@.len() - i,
        {
            match values[i].agent {
                Some(a) => if a == agent {
                    assert(self@.sessions.dom().contains(self.sessions.name_of(i as int)));
                    return true;
                },
                None => {},
            }
            i += 1;
        }
        assert forall|id: Seq<char>| #[trigger] self@.sessions.dom().contains(
            id,
        ) implies self@.sessions[id].agent != Some(agent) by {
            let k = choose|k: int|
                0 <= k < values@.len() && #[trigger] self.sessions.name_of(k) == id;
            assert(values@[k].agent != Some(agent));
        }
        false
    }

    /// Makes a session inactive.
    pub fn close(&mut self, id: &str) -> (done: Option<Ended>)
        ensures
            (final(self)@, done) == close_step(old(self)@, id@),
    {
        match self.take(id) {
            Some(s) => Some(Ended { cancel: token_of(&s), freed: s.mcp }),
            None => {
                assert(old(self)@.sessions.remove(id@) =~= old(self)@.sessions);
                None
            },
        }
    }

    /// Makes all sessions inactive.
    pub fn drain(&mut self) -> (done: Drained)
        ensures
            final(self)@ == (RegistryView { sessions: Map::empty(), ..old(self)@ }),
            drains(old(self)@, done),
    {
        let ghost before = self@;
        let values: Vec<SessionState> = self.sessions.values();
        let mut cancel: Vec<u64> = Vec::new();
        let mut freed: Vec<u64> = Vec::new();
        let mut i: usize = 0;
        assert(values@.take(0) =~= Seq::<SessionState>::empty());
        while i < values.len()
            invariant
                i <= values@.len(),
                cancel@ == picked(values@.take(i as int), token_pick()),
                freed@ == picked(values@.take(i as int), servers_pick()),
            decreases values@.len() - i,
        {
            let s: SessionState = values[i];
            assert(values@.take(i + 1).drop_last() =~= values@.take(i as int));
            match token_of(&s) {
                Some(token) => {
                    cancel.push(token);
                },
                None => {},
            }
            match s.mcp {
                Some(mcp) => {
                    freed.push(mcp);
                },
                None => {},
            }
            i += 1;
        }
        let done = Drained { cancel, freed };
        proof {
            lemma_empty_ok(before);
            assert(values@.take(i as int) =~= values@);
            let names = Seq::new(values@.len(), |k: int| self.sessions.name_of(k));
            assert forall|id: Seq<char>| #[trigger] before.sessions.dom().contains(
                id,
            ) implies names.contains(id) by {
                let k = choose|k: int|
                    0 <= k < values@.len() && #[trigger] self.sessions.name_of(k) == id;
                assert(names[k] == id);
            }
            assert forall|token: u64| #[trigger] cancel@.to_multiset().count(token)
                == sessions_running(before, token).len() by {
                lemma_picked(before.sessions, names, values@, token_pick(), token);
                assert(sessions_running(before, token) =~= holders(
                    before.sessions,
                    token_pick(),
                    token,
                ));
            }
            assert forall|mcp: u64| #[trigger] freed@.to_multiset().count(mcp) == sessions_served(
                before,
                mcp,
            ).len() by {
                lemma_picked(before.sessions, names, values@, servers_pick(), mcp);
                assert(sessions_served(before, mcp) =~= holders(
                    before.sessions,
                    servers_pick(),
                    mcp,
                ));
            }
        }
        self.sessions = Table::new();
        done
    }
}

fn running(s: &SessionState) -> (b: bool)
    ensures
        b == is_running(*s),
{
    match s.execution {
        Some(p) => p.running,
        None => false,
    }
}

fn token_of(s: &SessionState) -> (t: Option<u64>)
    ensures
        t == running_token(*s),
{
    match s.execution {
        Some(p) => if p.running {
            Some(p.token)
        } else {
            None
        },
        None => None,
    }
}

spec fn token_pick() -> spec_fn(SessionState) -> Option<u64> {
    |s: SessionState| running_token(s)
}

spec fn servers_pick() -> spec_fn(SessionState) -> Option<u64> {
    |s: SessionState| s.mcp
}

/// What is picked from each session, where anything is, in order.
spec fn picked(values: Seq<SessionState>, pick: spec_fn(SessionState) -> Option<u64>) -> Seq<u64>
    decreases values.len(),
{
    if values.len() == 0 {
        Seq::empty()
    } else {
        match pick(values.last()) {
            Some(x) => picked(values.drop_last(), pick).push(x),
            None => picked(values.drop_last(), pick),
        }
    }
}

/// The sessions from which `x` is picked.
spec fn holders(
    sessions: Map<Seq<char>, SessionState>,
    pick: spec_fn(SessionState) -> Option<u64>,
    x: u64,
) -> Set<Seq<char>> {
    sessions.dom().filter(|id: Seq<char>| pick(sessions[id]) == Some(x))
}

proof fn lemma_picked(
    sessions: Map<Seq<char>, SessionState>,
    names: Seq<Seq<char>>,
    values: Seq<SessionState>,
    pick: spec_fn(SessionState) -> Option<u64>,
    x: u64,
)
    requires
        names.len() == values.len(),
        names.no_duplicates(),
        forall|k: int|
            0 <= k < names.len() ==> sessions.dom().contains(#[trigger] names[k])
                && sessions[names[k]] == values[k],
        forall|id: Seq<char>| #[trigger] sessions.dom().contains(id) ==> names.contains(id),
    ensures
        holders(sessions, pick, x).finite(),
        picked(values, pick).to_multiset().count(x) == holders(sessions, pick, x).len(),
    decreases names.len(),
{
    broadcast use vstd::seq_lib::group_to_multiset_ensures;

    if names.len() == 0 {
        assert(holders(sessions, pick, x) =~= Set::<Seq<char>>::empty()) by {
            assert forall|id: Seq<char>| !sessions.dom().contains(id) by {
                assert(!names.contains(id));
            }
        }
        assert(!picked(values, pick).contains(x));
    } else {
        let last = names.last();
        let less = sessions.remove(last);
        let fewer = names.drop_last();
        assert forall|k: int| 0 <= k < fewer.len() implies less.dom().contains(
            #[trigger] fewer[k],
        ) && less[fewer[k]] == values.drop_last()[k] by {
            assert(names[k] != names[names.len() - 1]);
        }
        assert forall|id: Seq<char>| #[trigger] less.dom().contains(id) implies fewer.contains(
            id,
        ) by {
            assert(sessions.dom().contains(id));
            let k = choose|k: int| 0 <= k < names.len() && names[k] == id;
            assert(fewer[k] == id);
        }
        lemma_picked(less, fewer, values.drop_last(), pick, x);
        assert(sessions[names[names.len() - 1]] == values.last());
        if pick(values.last()) == Some(x) {
            assert(holders(sessions, pick, x) =~= holders(less, pick, x).insert(last));
        } else {
            assert(holders(sessions, pick, x) =~= holders(less, pick, x));
        }
    }
}

proof fn lemma_with_ok(r: RegistryView, id: Seq<char>, s: SessionState)
    requires
        registry_ok(r),
        r.sessions.dom().contains(id) || r.sessions.dom().len() < r.max_sessions,
    ensures
        registry_ok(with_session(r, id, s)),
{
    assert(with_session(r, id, s).sessions.dom() =~= r.sessions.dom().insert(id));
}

proof fn lemma_without_ok(r: RegistryView, id: Seq<char>)
    requires
        registry_ok(r),
    ensures
        registry_ok(without_session(r, id)),
{
    assert(without_session(r, id).sessions.dom() =~= r.sessions.dom().remove(id));
}

proof fn lemma_empty_ok(r: RegistryView)
    ensures
        registry_ok(RegistryView { sessions: Map::empty(), ..r }),
{
}

} // verus!
