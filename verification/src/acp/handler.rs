//! Session lifecycle.
//!
//! A request that needs the outside world runs in steps. Each step decides
//! what holds for the request and changes the registry; between two steps the
//! caller reads or writes the store of sessions, starts tool servers or
//! notifies the client, and hands the result to the next step. Steps of
//! different requests may alternate.

use crate::acp::config::{AcpServerConfig, AgentFactory};
use crate::acp::controls::{notified, sent_outcome};
use crate::acp::error::{malformed, outcome, AcpErrorView, AcpServerError};
use crate::acp::mcp::McpServer;
use crate::acp::path::{
    may_be_same_path, paths_result, same_path, validate_paths, SessionPath,
};
use crate::acp::registry::{
    add_step, agent_at, attach_step, begin_step, close_step, drains, end_step, register_step,
    registry_ok, running_token, servers_at, without_session, Drained, Ended, PromptStart, Registry,
    RegistryView,
};
use crate::json::{lookup, with_entry, Json, JsonObject, JsonView};
use crate::text::{has_prefix, strip_prefix};
use vstd::prelude::*;
use vstd::string::*;

verus! {

// ---------------------------------------------------------------------
// Requests to the store of sessions
// ---------------------------------------------------------------------

/// Where a session is stored.
#[derive(Debug)]
pub struct SessionKey {
    pub app_name: String,
    pub user_id: String,
    pub session_id: String,
}

#[verifier::ext_equal]
pub struct SessionKeyView {
    pub app_name: Seq<char>,
    pub user_id: Seq<char>,
    pub session_id: Seq<char>,
}

impl View for SessionKey {
    type V = SessionKeyView;

    open spec fn view(&self) -> SessionKeyView {
        SessionKeyView {
            app_name: self.app_name@,
            user_id: self.user_id@,
            session_id: self.session_id@,
        }
    }
}

/// A request for a new session.
pub struct NewSessionRequest {
    pub cwd: SessionPath,
    pub additional_directories: Vec<SessionPath>,
    pub mcp_servers: Vec<McpServer>,
    /// The extension map, where the request has one.
    pub meta: Option<JsonObject>,
}

/// A session that has been made active and is not stored yet.
#[derive(Debug)]
pub struct NewSession {
    pub session_id: String,
    /// The state that it is to be stored with.
    pub state: JsonObject,
    /// Tool servers to stop.
    pub freed: Option<u64>,
}

#[verifier::ext_equal]
pub struct NewSessionView {
    pub session_id: Seq<char>,
    pub state: Seq<(Seq<char>, JsonView)>,
    pub freed: Option<u64>,
}

impl View for NewSession {
    type V = NewSessionView;

    open spec fn view(&self) -> NewSessionView {
        NewSessionView { session_id: self.session_id@, state: self.state@, freed: self.freed }
    }
}

pub open spec fn new_session_outcome(r: Result<NewSession, AcpServerError>) -> Result<
    NewSessionView,
    AcpErrorView,
> {
    match r {
        Ok(s) => Ok(s@),
        Err(e) => Err(e@),
    }
}

/// The state key of a session's working directory.
pub open spec fn cwd_key() -> Seq<char> {
    "acp:cwd"@
}

/// The state key of a session's further directories.
pub open spec fn dirs_key() -> Seq<char> {
    "acp:additional_directories"@
}

/// The state key of a session's mode.
pub open spec fn mode_key() -> Seq<char> {
    "acp:mode"@
}

/// What the state keys of a session's options begin with.
pub open spec fn config_prefix() -> Seq<char> {
    "acp:config:"@
}

/// The directories as JSON.
pub open spec fn dirs_json(dirs: Seq<SessionPath>) -> JsonView {
    JsonView::Array(Seq::new(dirs.len(), |i: int| JsonView::Str(dirs[i].text@)))
}

/// The state that a new session is stored with.
pub open spec fn new_state(cwd: SessionPath, dirs: Seq<SessionPath>) -> Seq<
    (Seq<char>, JsonView),
> {
    with_entry(
        with_entry(Seq::empty(), cwd_key(), JsonView::Str(cwd.text@)),
        dirs_key(),
        dirs_json(dirs),
    )
}

/// The entries with one more key taken over from `source`, where it has it.
pub open spec fn with_copied(
    entries: Seq<(Seq<char>, JsonView)>,
    source: Seq<(Seq<char>, JsonView)>,
    key: Seq<char>,
) -> Seq<(Seq<char>, JsonView)> {
    match lookup(source, key) {
        Some(v) => with_entry(entries, key, v),
        None => entries,
    }
}

/// The entries with all of `source` taken over that are session options.
pub open spec fn with_options(
    entries: Seq<(Seq<char>, JsonView)>,
    source: Seq<(Seq<char>, JsonView)>,
) -> Seq<(Seq<char>, JsonView)>
    decreases source.len(),
{
    if source.len() == 0 {
        entries
    } else {
        let before = with_options(entries, source.drop_last());
        if has_prefix(source.last().0, config_prefix()) {
            with_entry(before, source.last().0, source.last().1)
        } else {
            before
        }
    }
}

/// The state that a fork takes over: directories, mode and options.
pub open spec fn fork_state(source: Seq<(Seq<char>, JsonView)>) -> Seq<(Seq<char>, JsonView)> {
    with_options(
        with_copied(
            with_copied(with_copied(Seq::empty(), source, cwd_key()), source, dirs_key()),
            source,
            mode_key(),
        ),
        source,
    )
}

fn insert_copied(entries: &mut JsonObject, source: &JsonObject, key: &str)
    ensures
        final(entries)@ == with_copied(old(entries)@, source@, key@),
{
    match source.get(key) {
        Some(v) => {
            entries.insert(key.to_owned(), v.copy());
        },
        None => {},
    }
}

/// The state that a fork takes over.
pub fn copy_fork_state(source: &JsonObject) -> (state: JsonObject)
    ensures
        state@ == fork_state(source@),
{
    let mut state: JsonObject = JsonObject::new();
    insert_copied(&mut state, source, "acp:cwd");
    insert_copied(&mut state, source, "acp:additional_directories");
    insert_copied(&mut state, source, "acp:mode");
    let ghost seeded = state@;
    let mut i: usize = 0;
    assert(source@.take(0) =~= Seq::<(Seq<char>, JsonView)>::empty());
    while i < source.len()
        invariant
            i <= source@.len(),
            state@ == with_options(seeded, source@.take(i as int)),
        decreases source@.len() - i,
    {
        assert(source@.take(i + 1).drop_last() =~= source@.take(i as int));
        let name: &String = source.name_at(i);
        if strip_prefix(name.as_str(), "acp:config:").is_some() {
            state.insert(name.clone(), source.value_at(i).copy());
        }
        i += 1;
    }
    assert(source@.take(i as int) =~= source@);
    state
}

// ---------------------------------------------------------------------
// New identifiers
// ---------------------------------------------------------------------

pub open spec fn is_hex(c: char) -> bool {
    '0' <= c <= '9' || 'a' <= c <= 'f'
}

/// The text of a random UUID: 36 characters, hyphens at four places, lower
/// case hexadecimal digits elsewhere, and the digits that give the version and
/// the variant.
pub open spec fn is_uuid_v4(s: Seq<char>) -> bool {
    &&& s.len() == 36
    &&& forall|i: int|
        0 <= i < 36 ==> (if i == 8 || i == 13 || i == 18 || i == 23 {
            #[trigger] s[i] == '-'
        } else {
            is_hex(s[i])
        })
    &&& s[14] == '4'
    &&& s[19] == '8' || s[19] == '9' || s[19] == 'a' || s[19] == 'b'
}

/// `uuid::Uuid::new_v4` in its hyphenated form: the text of some random UUID.
/// Which one is left open.
#[verifier::external_body]
fn random_id() -> (s: String)
    ensures
        is_uuid_v4(s@),
{
    uuid::Uuid::new_v4().to_string()
}

// ---------------------------------------------------------------------
// Agents of sessions
// ---------------------------------------------------------------------

/// The agent of a session, given what the factory returned.
pub open spec fn agent_outcome(built: Result<u64, String>) -> Result<Option<u64>, AcpErrorView> {
    match built {
        Ok(agent) => Ok(Some(agent)),
        Err(e) => malformed("session _meta rejected: "@ + e@),
    }
}

/// The agent of a session, given what the factory returned.
pub fn agent_result(built: Result<u64, String>) -> (r: Result<Option<u64>, AcpServerError>)
    ensures
        outcome(r) == agent_outcome(built),
{
    match built {
        Ok(agent) => Ok(Some(agent)),
        Err(e) => Err(
            AcpServerError::MalformedMessage(
                "session _meta rejected: ".to_owned().concat(e.as_str()),
            ),
        ),
    }
}

/// `r` can come of composing an agent: there is none to compose without a
/// factory or an extension map, and otherwise the factory is asked, with just
/// that map and that directory.
pub open spec fn composed<F: AgentFactory>(
    factory: Option<F>,
    meta: Option<JsonObject>,
    cwd: SessionPath,
    r: Result<Option<u64>, AcpErrorView>,
) -> bool {
    if factory is None || meta is None {
        r == Ok::<Option<u64>, AcpErrorView>(None)
    } else {
        exists|built: Result<u64, String>| #[trigger]
            call_ensures(F::build, (&factory->Some_0, &meta->Some_0, &cwd), built) && r
                == agent_outcome(built)
    }
}

// ---------------------------------------------------------------------
// Steps, mathematically
// ---------------------------------------------------------------------

/// What has to hold before a request is looked at further.
pub open spec fn entry_result(
    shutting_down: bool,
    cwd: SessionPath,
    dirs: Seq<SessionPath>,
) -> Result<(), AcpErrorView> {
    if shutting_down {
        Err(AcpErrorView::ShuttingDown)
    } else {
        paths_result(cwd, dirs)
    }
}

/// A session with that identifier, agent and state becomes active.
pub open spec fn add_new(
    r: RegistryView,
    id: Seq<char>,
    agent: Option<u64>,
    state: Seq<(Seq<char>, JsonView)>,
) -> (RegistryView, Result<NewSessionView, AcpErrorView>) {
    let (after, added) = add_step(r, id, agent);
    (
        after,
        match added {
            Ok(freed) => Ok(NewSessionView { session_id: id, state, freed }),
            Err(e) => Err(e),
        },
    )
}

/// A new session once its agent is known: an agent that could not be composed
/// fails the request.
pub open spec fn create_step(
    r: RegistryView,
    request: NewSessionRequest,
    agent: Result<Option<u64>, AcpErrorView>,
    id: Seq<char>,
) -> (RegistryView, Result<NewSessionView, AcpErrorView>) {
    match agent {
        Err(e) => (r, Err(e)),
        Ok(a) => add_new(r, id, a, new_state(request.cwd, request.additional_directories@)),
    }
}

/// The working directory that a session was stored with.
pub open spec fn stored_cwd(state: Seq<(Seq<char>, JsonView)>) -> Option<Seq<char>> {
    match lookup(state, cwd_key()) {
        Some(v) => v.as_str(),
        None => None,
    }
}

/// `m` can be the answer to whether the stored directory is the named one. It
/// is where nothing is stored, and where the two texts are the same; it is not
/// where their parts differ. In between, where one directory is spelt in two
/// ways, the host decides.
pub open spec fn cwd_answer(stored: Option<Seq<char>>, cwd: Seq<char>, m: bool) -> bool {
    match stored {
        None => m,
        Some(c) => (c == cwd ==> m) && (m ==> may_be_same_path(c, cwd)),
    }
}

/// Why a stored session cannot become active as named, where it cannot.
pub open spec fn stored_result(
    id: Seq<char>,
    found: bool,
    same_cwd: bool,
    message: Seq<char>,
) -> Result<(), AcpErrorView> {
    if !found {
        Err(AcpErrorView::SessionNotFound(id))
    } else if !same_cwd {
        malformed(message)
    } else {
        Ok(())
    }
}

/// A stored session is resumed: it becomes active, or is bound again.
pub open spec fn resume_step(r: RegistryView, id: Seq<char>, found: bool, same_cwd: bool) -> (
    RegistryView,
    Result<Option<u64>, AcpErrorView>,
) {
    match stored_result(
        id,
        found,
        same_cwd,
        "resumed session cwd does not match its original cwd"@,
    ) {
        Err(e) => (r, Err(e)),
        Ok(()) => register_step(r, id),
    }
}

/// A stored session is loaded, once its agent is known: an agent that could
/// not be composed fails the request.
pub open spec fn load_step(
    r: RegistryView,
    id: Seq<char>,
    agent: Result<Option<u64>, AcpErrorView>,
) -> (RegistryView, Result<Loaded, AcpErrorView>) {
    match agent {
        Err(e) => (r, Err(e)),
        Ok(rebuilt) => {
            let (after, bound) = register_step(r, id);
            (
                after,
                match bound {
                    Ok(freed) => Ok(Loaded { rebuilt, freed }),
                    Err(e) => Err(e),
                },
            )
        },
    }
}

/// A session that is being loaded: the agent composed for it, and the tool
/// servers to stop.
#[derive(Clone, Copy, Debug)]
pub struct Loaded {
    pub rebuilt: Option<u64>,
    pub freed: Option<u64>,
}

/// A fork once its source has been read: it takes the source's agent over.
pub open spec fn fork_step(
    r: RegistryView,
    source: Seq<char>,
    state: Option<Seq<(Seq<char>, JsonView)>>,
    id: Seq<char>,
) -> (RegistryView, Result<NewSessionView, AcpErrorView>) {
    match state {
        None => (r, Err(AcpErrorView::SessionNotFound(source))),
        Some(s) => add_new(r, id, agent_at(r, source), fork_state(s)),
    }
}

/// What comes of storing a new session: the outcome of the request, and the
/// tool servers to stop.
#[verifier::ext_equal]
pub struct StoredView {
    pub result: Result<Seq<char>, AcpErrorView>,
    pub freed: Seq<u64>,
}

pub open spec fn one_or_none(mcp: Option<u64>) -> Seq<u64> {
    match mcp {
        Some(m) => seq![m],
        None => Seq::empty(),
    }
}

/// A new session has been stored, or could not be; in that case it is dropped,
/// and all tool servers that it had or was to have are stopped.
pub open spec fn store_step(
    r: RegistryView,
    id: Seq<char>,
    mcp: Option<u64>,
    failure: Option<Seq<char>>,
) -> (RegistryView, StoredView) {
    match failure {
        Some(message) => (
            without_session(r, id),
            StoredView {
                result: Err(AcpErrorView::Internal(message)),
                freed: one_or_none(servers_at(r, id)) + one_or_none(mcp),
            },
        ),
        None => {
            let (after, freed) = attach_step(r, id, mcp, None);
            (after, StoredView { result: Ok(id), freed: one_or_none(freed) })
        },
    }
}

// ---------------------------------------------------------------------
// Steps at run time
// ---------------------------------------------------------------------

/// What comes of storing a new session.
#[derive(Debug)]
pub struct Stored {
    pub result: Result<String, AcpServerError>,
    /// Tool servers to stop.
    pub freed: Vec<u64>,
}

impl View for Stored {
    type V = StoredView;

    open spec fn view(&self) -> StoredView {
        StoredView {
            result: match self.result {
                Ok(id) => Ok(id@),
                Err(e) => Err(e@),
            },
            freed: self.freed@,
        }
    }
}

/// A fork whose history is being copied, event by event.
#[derive(Debug)]
pub struct ForkCopy {
    pub session_id: String,
    pub mcp: Option<u64>,
    /// How many events there are.
    pub total: usize,
    /// The event that is to be appended next.
    pub next: usize,
}

/// What is to be done next about a fork.
#[derive(Debug)]
pub enum ForkStep {
    /// Append the event `copy.next` of the source to the fork.
    Append(ForkCopy),
    /// Delete what has been stored of the fork; then the request fails.
    Undo { delete: SessionKey, error: AcpServerError, freed: Vec<u64> },
    /// The request is done.
    Done(Stored),
}

#[verifier::ext_equal]
pub enum ForkStepView {
    Append { session_id: Seq<char>, mcp: Option<u64>, total: nat, next: nat },
    Undo { delete: SessionKeyView, error: AcpErrorView, freed: Seq<u64> },
    Done(StoredView),
}

impl View for ForkStep {
    type V = ForkStepView;

    open spec fn view(&self) -> ForkStepView {
        match *self {
            ForkStep::Append(c) => ForkStepView::Append {
                session_id: c.session_id@,
                mcp: c.mcp,
                total: c.total as nat,
                next: c.next as nat,
            },
            ForkStep::Undo { delete, error, freed } => ForkStepView::Undo {
                delete: delete@,
                error: error@,
                freed: freed@,
            },
            ForkStep::Done(s) => ForkStepView::Done(s@),
        }
    }
}

/// The next event is to be appended, or the fork is complete.
pub open spec fn fork_next(
    r: RegistryView,
    id: Seq<char>,
    mcp: Option<u64>,
    total: nat,
    next: nat,
) -> (RegistryView, ForkStepView) {
    if next < total {
        (r, ForkStepView::Append { session_id: id, mcp, total, next })
    } else {
        let (after, stored) = store_step(r, id, mcp, None);
        (after, ForkStepView::Done(stored))
    }
}

/// An event has been appended, or could not be; in that case the fork is
/// undone.
pub open spec fn fork_appended(
    r: RegistryView,
    key: SessionKeyView,
    mcp: Option<u64>,
    total: nat,
    next: nat,
    failure: Option<Seq<char>>,
) -> (RegistryView, ForkStepView) {
    match failure {
        Some(e) => (
            without_session(r, key.session_id),
            ForkStepView::Undo {
                delete: key,
                error: AcpErrorView::Internal(
                    "failed to copy session history into fork: "@ + e,
                ),
                freed: one_or_none(servers_at(r, key.session_id)) + one_or_none(mcp),
            },
        ),
        None => fork_next(r, key.session_id, mcp, total, next + 1),
    }
}

/// The history of a loaded session, which is replayed to the client event by
/// event.
#[derive(Debug)]
pub struct Replay {
    pub session_id: String,
    /// How many events there are.
    pub total: usize,
    /// The event that is to be replayed next.
    pub next: usize,
}

/// What is to be done next about a session that is being loaded.
#[derive(Debug)]
pub enum ReplayStep {
    /// Send the client what the stored event `replay.next` says, as updates of
    /// the session `replay.session_id`.
    Send(Replay),
    /// The request is done.
    Done(Result<(), AcpServerError>),
}

#[verifier::ext_equal]
pub enum ReplayStepView {
    Send { session_id: Seq<char>, total: nat, next: nat },
    Done(Result<(), AcpErrorView>),
}

impl View for ReplayStep {
    type V = ReplayStepView;

    open spec fn view(&self) -> ReplayStepView {
        match *self {
            ReplayStep::Send(r) => ReplayStepView::Send {
                session_id: r.session_id@,
                total: r.total as nat,
                next: r.next as nat,
            },
            ReplayStep::Done(r) => ReplayStepView::Done(outcome(r)),
        }
    }
}

/// The next event is to be replayed, or the session is loaded.
pub open spec fn replay_next(id: Seq<char>, total: nat, next: nat) -> ReplayStepView {
    if next < total {
        ReplayStepView::Send { session_id: id, total, next }
    } else {
        ReplayStepView::Done(Ok(()))
    }
}

/// An event has been replayed, or could not be; in that case the request fails,
/// and the session stays active.
pub open spec fn replay_sent(
    id: Seq<char>,
    total: nat,
    next: nat,
    result: Result<(), String>,
) -> ReplayStepView {
    match sent_outcome(result) {
        Ok(()) => replay_next(id, total, next + 1),
        Err(e) => ReplayStepView::Done(Err(e)),
    }
}

/// Serves sessions. `agent_factory` composes an agent for each, where it is
/// set; `registry` holds those that are active.
pub struct AcpSessionHandler<F> {
    pub agent_factory: Option<F>,
    pub app_name: String,
    pub user_id: String,
    pub registry: Registry,
}

impl<F> AcpSessionHandler<F> {
    /// Where a session of this server is stored.
    pub open spec fn key(&self, id: Seq<char>) -> SessionKeyView {
        SessionKeyView { app_name: self.app_name@, user_id: self.user_id@, session_id: id }
    }

    /// All but the registry stays as it was.
    pub open spec fn same_setup(&self, before: &Self) -> bool {
        &&& self.agent_factory == before.agent_factory
        &&& self.app_name == before.app_name
        &&& self.user_id == before.user_id
    }
}

fn failure_text(result: Result<(), String>, prefix: &str) -> (message: Option<String>)
    ensures
        match result {
            Ok(()) => message is None,
            Err(e) => message matches Some(m) && m@ == prefix@ + e@,
        },
{
    match result {
        Ok(()) => None,
        Err(e) => Some(prefix.to_owned().concat(e.as_str())),
    }
}

/// The message of a failure, put behind a prefix.
pub open spec fn failure_of(result: Result<(), String>, prefix: Seq<char>) -> Option<Seq<char>> {
    match result {
        Ok(()) => None,
        Err(e) => Some(prefix + e@),
    }
}

fn push_some(list: &mut Vec<u64>, mcp: Option<u64>)
    ensures
        final(list)@ == old(list)@ + one_or_none(mcp),
{
    match mcp {
        Some(m) => {
            list.push(m);
        },
        None => {},
    }
    assert(list@ =~= old(list)@ + one_or_none(mcp));
}

impl<F: AgentFactory> AcpSessionHandler<F> {
    /// A handler without active sessions.
    pub fn new<A, S, C>(config: &AcpServerConfig<A, S, C, F>) -> (h: AcpSessionHandler<F>) where
        F: Clone,

        ensures
            h.app_name@ == config.agent_name@,
            h.user_id@ == config.user_id@,
            h.registry@ == (RegistryView {
                sessions: Map::empty(),
                max_sessions: config.max_sessions as nat,
            }),
            match config.agent_factory {
                Some(f) => h.agent_factory matches Some(g) && cloned(f, g),
                None => h.agent_factory is None,
            },
    {
        AcpSessionHandler {
            agent_factory: match &config.agent_factory {
                Some(f) => Some(f.clone()),
                None => None,
            },
            app_name: config.agent_name.clone(),
            user_id: config.user_id.clone(),
            registry: Registry::new(config.max_sessions),
        }
    }

    fn key_of(&self, id: &str) -> (k: SessionKey)
        ensures
            k@ == self.key(id@),
    {
        SessionKey {
            app_name: self.app_name.clone(),
            user_id: self.user_id.clone(),
            session_id: id.to_owned(),
        }
    }

    /// Composes an agent for a session.
    ///
    /// Only an extension map leads to the factory; without one a session keeps
    /// the agent that it has.
    pub fn build_session_agent(&self, meta: Option<&JsonObject>, cwd: &SessionPath) -> (r: Result<
        Option<u64>,
        AcpServerError,
    >)
        ensures
            composed(
                self.agent_factory,
                match meta {
                    Some(m) => Some(*m),
                    None => None,
                },
                *cwd,
                outcome(r),
            ),
    {
        match (&self.agent_factory, meta) {
            (Some(factory), Some(map)) => {
                let built: Result<u64, String> = factory.build(map, cwd);
                agent_result(built)
            },
            _ => Ok(None),
        }
    }

    /// Makes a new session with that identifier active, given its agent.
    pub fn create_session_as(
        &mut self,
        request: &NewSessionRequest,
        agent: Result<Option<u64>, AcpServerError>,
        id: String,
    ) -> (r: Result<NewSession, AcpServerError>)
        ensures
            (final(self).registry@, new_session_outcome(r)) == create_step(
                old(self).registry@,
                *request,
                outcome(agent),
                id@,
            ),
            final(self).same_setup(old(self)),
    {
        let agent: Option<u64> = match agent {
            Err(e) => {
                return Err(e);
            },
            Ok(a) => a,
        };
        let mut state: JsonObject = JsonObject::new();
        state.insert("acp:cwd".to_owned(), Json::string(request.cwd.text.as_str()));
        let dirs: Json = paths_json(&request.additional_directories);
        state.insert("acp:additional_directories".to_owned(), dirs);
        match self.registry.add_session(id.as_str(), agent) {
            Ok(freed) => Ok(NewSession { session_id: id, state, freed }),
            Err(e) => Err(e),
        }
    }

    /// A client asks for a new session: it becomes active under a random
    /// identifier.
    ///
    /// Where there is a factory, every new session gets its agent from it; a
    /// request without an extension map counts as one with an empty map.
    pub fn create_session(&mut self, shutting_down: bool, request: &NewSessionRequest) -> (r: Result<
        NewSession,
        AcpServerError,
    >)
        ensures
            final(self).same_setup(old(self)),
            match entry_result(shutting_down, request.cwd, request.additional_directories@) {
                Err(e) => final(self).registry@ == old(self).registry@ && new_session_outcome(r)
                    == Err::<NewSessionView, AcpErrorView>(e),
                Ok(()) => exists|
                    m: JsonObject,
                    agent: Result<Option<u64>, AcpErrorView>,
                    id: Seq<char>,
                |
                    {
                        &&& m@ == meta_entries(request.meta)
                        &&& #[trigger] composed(
                            old(self).agent_factory,
                            Some(m),
                            request.cwd,
                            agent,
                        )
                        &&& #[trigger] is_uuid_v4(id)
                        &&& (final(self).registry@, new_session_outcome(r)) == create_step(
                            old(self).registry@,
                            *request,
                            agent,
                            id,
                        )
                    },
            },
    {
        match self.enter(shutting_down, &request.cwd, &request.additional_directories) {
            Err(e) => {
                return Err(e);
            },
            Ok(()) => {},
        }
        let meta: JsonObject = match &request.meta {
            Some(m) => m.copy(),
            None => JsonObject::new(),
        };
        let agent = self.build_session_agent(Some(&meta), &request.cwd);
        let ghost agent_view = outcome(agent);
        let id: String = random_id();
        let ghost id_view = id@;
        let r = self.create_session_as(request, agent, id);
        assert(composed(old(self).agent_factory, Some(meta), request.cwd, agent_view));
        assert(is_uuid_v4(id_view));
        r
    }

    fn enter(&self, shutting_down: bool, cwd: &SessionPath, dirs: &Vec<SessionPath>) -> (r: Result<
        (),
        AcpServerError,
    >)
        ensures
            outcome(r) == entry_result(shutting_down, *cwd, dirs@),
    {
        match ensure_running(shutting_down) {
            Err(e) => Err(e),
            Ok(()) => validate_paths(cwd, dirs),
        }
    }

    /// A client asks to resume a session: its state is to be read first.
    pub fn resume_session(
        &self,
        shutting_down: bool,
        session_id: &str,
        cwd: &SessionPath,
        additional_directories: &Vec<SessionPath>,
    ) -> (r: Result<SessionKey, AcpServerError>)
        ensures
            match entry_result(shutting_down, *cwd, additional_directories@) {
                Err(e) => r matches Err(error) && error@ == e,
                Ok(()) => r matches Ok(key) && key@ == self.key(session_id@),
            },
    {
        match self.enter(shutting_down, cwd, additional_directories) {
            Err(e) => Err(e),
            Ok(()) => Ok(self.key_of(session_id)),
        }
    }

    /// A client asks to load a session: its state is to be read first.
    pub fn load_session(
        &self,
        shutting_down: bool,
        session_id: &str,
        cwd: &SessionPath,
        additional_directories: &Vec<SessionPath>,
    ) -> (r: Result<SessionKey, AcpServerError>)
        ensures
            match entry_result(shutting_down, *cwd, additional_directories@) {
                Err(e) => r matches Err(error) && error@ == e,
                Ok(()) => r matches Ok(key) && key@ == self.key(session_id@),
            },
    {
        self.resume_session(shutting_down, session_id, cwd, additional_directories)
    }

    /// A client asks to fork a session: the source's state is to be read first.
    pub fn fork_session(
        &self,
        shutting_down: bool,
        source_session_id: &str,
        cwd: &SessionPath,
        additional_directories: &Vec<SessionPath>,
    ) -> (r: Result<SessionKey, AcpServerError>)
        ensures
            match entry_result(shutting_down, *cwd, additional_directories@) {
                Err(e) => r matches Err(error) && error@ == e,
                Ok(()) => r matches Ok(key) && key@ == self.key(source_session_id@),
            },
    {
        self.resume_session(shutting_down, source_session_id, cwd, additional_directories)
    }

    /// The state of a session that is to be resumed has been read, or there is
    /// no such session; `same_cwd` tells whether the request names the
    /// directory that the session was stored with.
    pub fn resume_as(&mut self, session_id: &str, found: bool, same_cwd: bool) -> (r: Result<
        Option<u64>,
        AcpServerError,
    >)
        ensures
            (final(self).registry@, outcome(r)) == resume_step(
                old(self).registry@,
                session_id@,
                found,
                same_cwd,
            ),
            final(self).same_setup(old(self)),
    {
        match check_stored(
            session_id,
            found,
            same_cwd,
            "resumed session cwd does not match its original cwd",
        ) {
            Err(e) => Err(e),
            Ok(()) => self.registry.register_session_entry(session_id),
        }
    }

    /// The state of a session that is to be resumed has been read, or there is
    /// no such session. On success the result names tool servers to stop.
    pub fn resume_found(&mut self, session_id: &str, cwd: &SessionPath, state: Option<&JsonObject>)
        -> (r: Result<Option<u64>, AcpServerError>)
        ensures
            final(self).same_setup(old(self)),
            exists|m: bool| #[trigger]
                cwd_answer(opt_stored_cwd(state), cwd.text@, m) && (
                final(self).registry@,
                outcome(r),
                ) == resume_step(old(self).registry@, session_id@, state is Some, m),
    {
        let same: bool = stored_here(state, cwd);
        let r = self.resume_as(session_id, state.is_some(), same);
        assert(cwd_answer(opt_stored_cwd(state), cwd.text@, same));
        r
    }

    /// A stored session is to be loaded, given its agent.
    pub fn load_as(&mut self, session_id: &str, agent: Result<Option<u64>, AcpServerError>) -> (r:
        Result<Loaded, AcpServerError>)
        ensures
            (final(self).registry@, outcome(r)) == load_step(
                old(self).registry@,
                session_id@,
                outcome(agent),
            ),
            final(self).same_setup(old(self)),
    {
        match agent {
            Err(e) => Err(e),
            Ok(rebuilt) => match self.registry.register_session_entry(session_id) {
                Ok(freed) => Ok(Loaded { rebuilt, freed }),
                Err(e) => Err(e),
            },
        }
    }

    /// The state of a session that is to be loaded has been read, or there is
    /// no such session.
    ///
    /// An extension map on the request has the session's agent composed anew;
    /// without one the session keeps the agent that it has. The agent comes
    /// first, so that a failure leaves the session as it is.
    pub fn load_found(
        &mut self,
        session_id: &str,
        cwd: &SessionPath,
        state: Option<&JsonObject>,
        meta: Option<&JsonObject>,
    ) -> (r: Result<Loaded, AcpServerError>)
        ensures
            final(self).same_setup(old(self)),
            exists|m: bool| #[trigger]
                cwd_answer(opt_stored_cwd(state), cwd.text@, m) && match stored_result(
                    session_id@,
                    state is Some,
                    m,
                    "loaded session cwd does not match its original cwd"@,
                ) {
                    Err(e) => final(self).registry@ == old(self).registry@ && outcome(r) == Err::<
                        Loaded,
                        AcpErrorView,
                    >(e),
                    Ok(()) => exists|agent: Result<Option<u64>, AcpErrorView>| #[trigger]
                        composed(old(self).agent_factory, opt_value(meta), *cwd, agent) && (
                        final(self).registry@,
                        outcome(r),
                        ) == load_step(old(self).registry@, session_id@, agent),
                },
    {
        let same: bool = stored_here(state, cwd);
        assert(cwd_answer(opt_stored_cwd(state), cwd.text@, same));
        match check_stored(
            session_id,
            state.is_some(),
            same,
            "loaded session cwd does not match its original cwd",
        ) {
            Err(e) => Err(e),
            Ok(()) => {
                let agent = self.build_session_agent(meta, cwd);
                let ghost agent_view = outcome(agent);
                let r = self.load_as(session_id, agent);
                assert(composed(old(self).agent_factory, opt_value(meta), *cwd, agent_view));
                r
            },
        }
    }

    /// The source of a fork has been read, or there is no such session: the
    /// fork becomes active under that identifier.
    pub fn fork_as(&mut self, source_session_id: &str, state: Option<&JsonObject>, id: String) -> (r:
        Result<NewSession, AcpServerError>)
        ensures
            (final(self).registry@, new_session_outcome(r)) == fork_step(
                old(self).registry@,
                source_session_id@,
                opt_entries(state),
                id@,
            ),
            final(self).same_setup(old(self)),
    {
        let source: &JsonObject = match state {
            None => {
                return Err(AcpServerError::SessionNotFound(source_session_id.to_owned()));
            },
            Some(s) => s,
        };
        let copied: JsonObject = copy_fork_state(source);
        let inherited: Option<u64> = match self.registry.get(source_session_id) {
            Some(s) => s.agent,
            None => None,
        };
        match self.registry.add_session(id.as_str(), inherited) {
            Ok(freed) => Ok(NewSession { session_id: id, state: copied, freed }),
            Err(e) => Err(e),
        }
    }

    /// The source of a fork has been read, or there is no such session: the
    /// fork becomes active under a random identifier.
    pub fn fork_found(&mut self, source_session_id: &str, state: Option<&JsonObject>) -> (r: Result<
        NewSession,
        AcpServerError,
    >)
        ensures
            final(self).same_setup(old(self)),
            exists|id: Seq<char>| #[trigger]
                is_uuid_v4(id) && (final(self).registry@, new_session_outcome(r)) == fork_step(
                    old(self).registry@,
                    source_session_id@,
                    opt_entries(state),
                    id,
                ),
    {
        let id: String = random_id();
        let ghost view = id@;
        let r = self.fork_as(source_session_id, state, id);
        assert(is_uuid_v4(view));
        r
    }

    /// The tool servers of a session could not be started: the session is
    /// dropped. The result names tool servers to stop.
    pub fn servers_failed(&mut self, session_id: &str) -> (freed: Option<u64>)
        ensures
            freed == servers_at(old(self).registry@, session_id@),
            final(self).registry@ == without_session(old(self).registry@, session_id@),
            final(self).same_setup(old(self)),
    {
        self.registry.discard(session_id)
    }

    /// The tool servers of a loaded session have started, and its history of
    /// `events` events is to be replayed, oldest first. The result names tool
    /// servers to stop.
    pub fn load_ready(
        &mut self,
        session_id: &str,
        mcp: Option<u64>,
        rebuilt: Option<u64>,
        events: usize,
    ) -> (r: (Option<u64>, ReplayStep))
        ensures
            (final(self).registry@, r.0) == attach_step(
                old(self).registry@,
                session_id@,
                mcp,
                rebuilt,
            ),
            r.1@ == replay_next(session_id@, events as nat, 0),
            final(self).same_setup(old(self)),
    {
        let freed: Option<u64> = self.servers_started(session_id, mcp, rebuilt);
        let replay = Replay { session_id: session_id.to_owned(), total: events, next: 0 };
        (freed, continue_replay(replay))
    }

    /// The tool servers of a resumed or loaded session have started. The
    /// result names tool servers to stop.
    pub fn servers_started(&mut self, session_id: &str, mcp: Option<u64>, rebuilt: Option<u64>) -> (
    freed: Option<u64>)
        ensures
            (final(self).registry@, freed) == attach_step(
                old(self).registry@,
                session_id@,
                mcp,
                rebuilt,
            ),
            final(self).same_setup(old(self)),
    {
        self.registry.attach(session_id, mcp, rebuilt)
    }

    fn stored(&mut self, session_id: &str, mcp: Option<u64>, failure: Option<String>) -> (s: Stored)
        ensures
            (final(self).registry@, s@) == store_step(
                old(self).registry@,
                session_id@,
                mcp,
                crate::text::opt_text(failure),
            ),
            final(self).same_setup(old(self)),
    {
        let mut freed: Vec<u64> = Vec::new();
        match failure {
            Some(message) => {
                let had: Option<u64> = self.registry.discard(session_id);
                push_some(&mut freed, had);
                push_some(&mut freed, mcp);
                assert(freed@ =~= one_or_none(servers_at(old(self).registry@, session_id@))
                    + one_or_none(mcp));
                Stored { result: Err(AcpServerError::Internal(message)), freed }
            },
            None => {
                let had: Option<u64> = self.registry.attach(session_id, mcp, None);
                push_some(&mut freed, had);
                assert(freed@ =~= one_or_none(had));
                Stored { result: Ok(session_id.to_owned()), freed }
            },
        }
    }

    /// A new session whose tool servers have started has been stored, or could
    /// not be.
    pub fn session_stored(
        &mut self,
        session_id: &str,
        mcp: Option<u64>,
        result: Result<(), String>,
    ) -> (s: Stored)
        ensures
            (final(self).registry@, s@) == store_step(
                old(self).registry@,
                session_id@,
                mcp,
                failure_of(result, "failed to create session: "@),
            ),
            final(self).same_setup(old(self)),
    {
        let failure: Option<String> = failure_text(result, "failed to create session: ");
        self.stored(session_id, mcp, failure)
    }

    /// A fork whose tool servers have started has been stored without its
    /// history, or could not be; `events` is the length of that history.
    pub fn fork_stored(
        &mut self,
        session_id: &str,
        mcp: Option<u64>,
        events: usize,
        result: Result<(), String>,
    ) -> (step: ForkStep)
        ensures
            match failure_of(result, "failed to create forked session: "@) {
                Some(message) => {
                    let (after, stored) = store_step(
                        old(self).registry@,
                        session_id@,
                        mcp,
                        Some(message),
                    );
                    final(self).registry@ == after && step@ == ForkStepView::Done(stored)
                },
                None => (final(self).registry@, step@) == fork_next(
                    old(self).registry@,
                    session_id@,
                    mcp,
                    events as nat,
                    0,
                ),
            },
            final(self).same_setup(old(self)),
    {
        match failure_text(result, "failed to create forked session: ") {
            Some(message) => ForkStep::Done(self.stored(session_id, mcp, Some(message))),
            None => self.continue_fork(
                ForkCopy { session_id: session_id.to_owned(), mcp, total: events, next: 0 },
            ),
        }
    }

    fn continue_fork(&mut self, copy: ForkCopy) -> (step: ForkStep)
        ensures
            (final(self).registry@, step@) == fork_next(
                old(self).registry@,
                copy.session_id@,
                copy.mcp,
                copy.total as nat,
                copy.next as nat,
            ),
            final(self).same_setup(old(self)),
    {
        if copy.next < copy.total {
            ForkStep::Append(copy)
        } else {
            ForkStep::Done(self.stored(copy.session_id.as_str(), copy.mcp, None))
        }
    }

    /// The event `copy.next` has been appended to a fork, or could not be.
    pub fn fork_event_appended(&mut self, copy: ForkCopy, result: Result<(), String>) -> (step:
        ForkStep)
        requires
            copy.next < copy.total,
        ensures
            (final(self).registry@, step@) == fork_appended(
                old(self).registry@,
                old(self).key(copy.session_id@),
                copy.mcp,
                copy.total as nat,
                copy.next as nat,
                failure_of(result, Seq::empty()),
            ),
            final(self).same_setup(old(self)),
    {
        match result {
            Err(e) => {
                let delete: SessionKey = self.key_of(copy.session_id.as_str());
                let mut freed: Vec<u64> = Vec::new();
                let had: Option<u64> = self.registry.discard(copy.session_id.as_str());
                push_some(&mut freed, had);
                push_some(&mut freed, copy.mcp);
                assert(freed@ =~= one_or_none(
                    servers_at(old(self).registry@, copy.session_id@),
                ) + one_or_none(copy.mcp));
                assert(Seq::<char>::empty() + e@ =~= e@);
                let message: String = "failed to copy session history into fork: ".to_owned().concat(
                    e.as_str(),
                );
                ForkStep::Undo { delete, error: AcpServerError::Internal(message), freed }
            },
            Ok(()) => {
                let mut copy = copy;
                copy.next = copy.next + 1;
                self.continue_fork(copy)
            },
        }
    }

    /// A client asks to delete a session: it is no longer active, and what is
    /// stored of it is to be deleted.
    pub fn delete_session(&mut self, session_id: &str) -> (r: (Option<Ended>, SessionKey))
        ensures
            (final(self).registry@, r.0) == close_step(old(self).registry@, session_id@),
            r.1@ == old(self).key(session_id@),
            final(self).same_setup(old(self)),
    {
        let key: SessionKey = self.key_of(session_id);
        (self.registry.close(session_id), key)
    }

    /// A client asks to close a session: it is no longer active, and stays
    /// stored.
    pub fn close_session(&mut self, session_id: &str) -> (r: Result<Ended, AcpServerError>)
        ensures
            match close_step(old(self).registry@, session_id@).1 {
                Some(done) => r == Ok::<Ended, AcpServerError>(done),
                None => r matches Err(e) && e@ == AcpErrorView::SessionNotFound(session_id@),
            },
            final(self).registry@ == close_step(old(self).registry@, session_id@).0,
            final(self).same_setup(old(self)),
    {
        match self.registry.close(session_id) {
            Some(done) => Ok(done),
            None => Err(AcpServerError::SessionNotFound(session_id.to_owned())),
        }
    }

    /// A client prompts a session: a turn starts in it under that token, unless
    /// one is running.
    pub fn handle_prompt(&mut self, shutting_down: bool, session_id: &str, token: u64) -> (r: Result<
        PromptStart,
        AcpServerError,
    >)
        ensures
            if shutting_down {
                final(self).registry@ == old(self).registry@ && outcome(r) == Err::<
                    PromptStart,
                    AcpErrorView,
                >(AcpErrorView::ShuttingDown)
            } else {
                (final(self).registry@, outcome(r)) == begin_step(
                    old(self).registry@,
                    session_id@,
                    token,
                )
            },
            final(self).same_setup(old(self)),
    {
        match ensure_running(shutting_down) {
            Err(e) => Err(e),
            Ok(()) => self.registry.begin_prompt(session_id, token),
        }
    }

    /// A turn is over, however it ended.
    pub fn prompt_finished(&mut self, session_id: &str, token: u64)
        ensures
            final(self).registry@ == end_step(old(self).registry@, session_id@, token),
            final(self).same_setup(old(self)),
    {
        self.registry.end_prompt(session_id, token);
    }

    /// A client cancels a session's turn: the token of the prompt to cancel.
    pub fn cancel_session(&self, session_id: &str) -> (token: Option<u64>)
        ensures
            token == if self.registry@.sessions.dom().contains(session_id@) {
                running_token(self.registry@.sessions[session_id@])
            } else {
                None
            },
    {
        self.registry.running_prompt(session_id)
    }

    /// The number of active sessions.
    pub fn active_session_count(&self) -> (n: usize)
        ensures
            registry_ok(self.registry@),
            n == self.registry@.sessions.dom().len(),
            n <= self.registry@.max_sessions,
    {
        self.registry.len()
    }

    /// The server shuts down: no session is active any longer.
    pub fn drain_sessions(&mut self) -> (done: Drained)
        ensures
            final(self).registry@ == (RegistryView {
                sessions: Map::empty(),
                ..old(self).registry@
            }),
            drains(old(self).registry@, done),
            final(self).same_setup(old(self)),
    {
        self.registry.drain()
    }
}

fn continue_replay(replay: Replay) -> (step: ReplayStep)
    ensures
        step@ == replay_next(replay.session_id@, replay.total as nat, replay.next as nat),
{
    if replay.next < replay.total {
        ReplayStep::Send(replay)
    } else {
        ReplayStep::Done(Ok(()))
    }
}

/// The event `replay.next` has been replayed to the client, or could not be.
pub fn event_replayed(replay: Replay, result: Result<(), String>) -> (step: ReplayStep)
    requires
        replay.next < replay.total,
    ensures
        step@ == replay_sent(
            replay.session_id@,
            replay.total as nat,
            replay.next as nat,
            result,
        ),
{
    match notified(result) {
        Err(e) => ReplayStep::Done(Err(e)),
        Ok(()) => {
            let mut replay = replay;
            replay.next = replay.next + 1;
            continue_replay(replay)
        },
    }
}

/// Requests are served until the server shuts down.
pub fn ensure_running(shutting_down: bool) -> (r: Result<(), AcpServerError>)
    ensures
        outcome(r) == (if shutting_down {
            Err(AcpErrorView::ShuttingDown)
        } else {
            Ok::<(), AcpErrorView>(())
        }),
{
    if shutting_down {
        Err(AcpServerError::ShuttingDown)
    } else {
        Ok(())
    }
}

pub open spec fn delete_outcome(id: Seq<char>, deleted: bool) -> Result<(), AcpErrorView> {
    if deleted {
        Ok(())
    } else {
        Err(AcpErrorView::SessionNotFound(id))
    }
}

/// What is stored of a session has been deleted, or there was no such session.
pub fn delete_result(session_id: &str, deleted: bool) -> (r: Result<(), AcpServerError>)
    ensures
        outcome(r) == delete_outcome(session_id@, deleted),
{
    if deleted {
        Ok(())
    } else {
        Err(AcpServerError::SessionNotFound(session_id.to_owned()))
    }
}

/// The members of an optional extension map.
pub open spec fn meta_entries(meta: Option<JsonObject>) -> Seq<(Seq<char>, JsonView)> {
    match meta {
        Some(m) => m@,
        None => Seq::empty(),
    }
}

pub open spec fn opt_value(meta: Option<&JsonObject>) -> Option<JsonObject> {
    match meta {
        Some(m) => Some(*m),
        None => None,
    }
}

pub open spec fn opt_entries(state: Option<&JsonObject>) -> Option<Seq<(Seq<char>, JsonView)>> {
    match state {
        Some(s) => Some(s@),
        None => None,
    }
}

/// The working directory that a session was stored with, where it was.
pub open spec fn opt_stored_cwd(state: Option<&JsonObject>) -> Option<Seq<char>> {
    match state {
        Some(s) => stored_cwd(s@),
        None => None,
    }
}

/// The working directory that a session was stored with.
pub fn read_stored_cwd(state: &JsonObject) -> (cwd: Option<&str>)
    ensures
        match cwd {
            Some(c) => stored_cwd(state@) == Some(c@),
            None => stored_cwd(state@) is None,
        },
{
    match state.get("acp:cwd") {
        Some(v) => v.as_str(),
        None => None,
    }
}

fn stored_here(state: Option<&JsonObject>, cwd: &SessionPath) -> (m: bool)
    ensures
        cwd_answer(opt_stored_cwd(state), cwd.text@, m),
{
    match state {
        Some(s) => match read_stored_cwd(s) {
            Some(stored) => same_path(stored, cwd.text.as_str()),
            None => true,
        },
        None => true,
    }
}

fn check_stored(id: &str, found: bool, same_cwd: bool, message: &str) -> (r: Result<
    (),
    AcpServerError,
>)
    ensures
        outcome(r) == stored_result(id@, found, same_cwd, message@),
{
    if !found {
        Err(AcpServerError::SessionNotFound(id.to_owned()))
    } else if !same_cwd {
        Err(AcpServerError::MalformedMessage(message.to_owned()))
    } else {
        Ok(())
    }
}

fn paths_json(dirs: &Vec<SessionPath>) -> (j: Json)
    ensures
        j@ == dirs_json(dirs@),
{
    let mut out: Vec<Json> = Vec::new();
    let mut i: usize = 0;
    while i < dirs.len()
        invariant
            i <= dirs@.len(),
            out@.len() == i,
            forall|k: int| 0 <= k < i ==> (#[trigger] out@[k])@ == JsonView::Str(dirs@[k].text@),
        decreases dirs@.len() - i,
    {
        out.push(Json::string(dirs[i].text.as_str()));
        i += 1;
    }
    let j = Json::Array(out);
    assert(j@->Array_0 =~= dirs_json(dirs@)->Array_0);
    j
}

} // verus!
