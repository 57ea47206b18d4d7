use agent_bridge::acp::config::{AcpServerConfigBuilder, AgentFactory, TransportConfig};
use agent_bridge::acp::error::AcpServerError;
use agent_bridge::acp::handler::{
    event_replayed, AcpSessionHandler, ForkStep, Loaded, NewSessionRequest, ReplayStep, SessionKey,
};
use agent_bridge::acp::path::SessionPath;
use agent_bridge::acp::prompt::{
    event_failed, prompt_content, turn_outcome, Forward, PromptTurn, StopReason, TurnAction,
    TurnEvent, TurnInput,
};
use agent_bridge::json::{Json, JsonObject};
use agent_bridge::llm::Part;
use std::collections::HashMap;
use std::sync::{Arc, Mutex};

const CWD: &str = "/work/project";

/// Records what it is asked and numbers the agents that it makes from 0.
#[derive(Clone)]
struct RecordingFactory {
    metas: Arc<Mutex<Vec<String>>>,
    cwds: Arc<Mutex<Vec<String>>>,
    fail: bool,
}

impl RecordingFactory {
    fn new() -> Self {
        RecordingFactory {
            metas: Arc::new(Mutex::new(Vec::new())),
            cwds: Arc::new(Mutex::new(Vec::new())),
            fail: false,
        }
    }
}

impl AgentFactory for RecordingFactory {
    fn build(&self, meta: &JsonObject, cwd: &SessionPath) -> Result<u64, String> {
        if self.fail {
            return Err("bad override value".to_string());
        }
        let index = self.metas.lock().unwrap().len() as u64;
        self.metas.lock().unwrap().push(Json::Object(meta.copy()).to_text());
        self.cwds.lock().unwrap().push(cwd.text.clone());
        Ok(index)
    }
}

/// A handler with a store of sessions in memory; every connection shares it.
/// Agents are told apart by the factory call that made them.
struct Server {
    handler: AcpSessionHandler<RecordingFactory>,
    store: HashMap<String, JsonObject>,
    served_by: Vec<String>,
    tokens: u64,
    /// How many events each session has stored.
    history: HashMap<String, usize>,
    /// The events that clients were sent on loading, each with its session.
    replayed: Vec<(String, usize)>,
}

impl Server {
    fn new(max_sessions: Option<usize>, factory: Option<RecordingFactory>) -> Self {
        let mut builder: AcpServerConfigBuilder<&str, &str, (), RecordingFactory> =
            AcpServerConfigBuilder::new()
                .agent("base")
                .session_service("store")
                .agent_name("test-agent");
        if let Some(max) = max_sessions {
            builder = builder.max_sessions(max);
        }
        if let Some(factory) = factory {
            builder = builder.agent_factory(factory);
        }
        let config = builder.build().expect("valid config");
        Server {
            handler: AcpSessionHandler::new(&config),
            store: HashMap::new(),
            served_by: Vec::new(),
            tokens: 0,
            history: HashMap::new(),
            replayed: Vec::new(),
        }
    }

    fn new_session(&mut self, meta: Option<JsonObject>) -> Result<String, AcpServerError> {
        let request = NewSessionRequest {
            cwd: SessionPath::new(CWD),
            additional_directories: Vec::new(),
            mcp_servers: Vec::new(),
            meta,
        };
        let made = self.handler.create_session(false, &request)?;
        assert_eq!(made.freed, None);
        self.store.insert(made.session_id.clone(), made.state);
        let stored = self.handler.session_stored(&made.session_id, None, Ok(()));
        assert!(stored.freed.is_empty());
        stored.result
    }

    fn load(&mut self, id: &str, meta: Option<JsonObject>) -> Result<(), AcpServerError> {
        let cwd = SessionPath::new(CWD);
        let key = self.handler.load_session(false, id, &cwd, &Vec::new())?;
        let state = self.store.get(&key.session_id);
        let loaded: Loaded = self.handler.load_found(id, &cwd, state, meta.as_ref())?;
        let events = self.history.get(id).copied().unwrap_or(0);
        let (freed, mut step) = self.handler.load_ready(id, None, loaded.rebuilt, events);
        assert_eq!(freed, None);
        loop {
            step = match step {
                ReplayStep::Send(replay) => {
                    self.replayed.push((replay.session_id.clone(), replay.next));
                    event_replayed(replay, Ok(()))
                }
                ReplayStep::Done(result) => return result,
            };
        }
    }

    fn resume(&mut self, id: &str) -> Result<(), AcpServerError> {
        let cwd = SessionPath::new(CWD);
        let key = self.handler.resume_session(false, id, &cwd, &Vec::new())?;
        self.handler.resume_found(id, &cwd, self.store.get(&key.session_id))?;
        assert_eq!(self.handler.servers_started(id, None, None), None);
        Ok(())
    }

    fn begin(&mut self, id: &str) -> Result<u64, AcpServerError> {
        self.tokens += 1;
        let start = self.handler.handle_prompt(false, id, self.tokens)?;
        self.served_by.push(match start.agent {
            Some(agent) => format!("call-{agent}"),
            None => "base".to_string(),
        });
        Ok(self.tokens)
    }

    /// A whole turn.
    fn prompt(&mut self, id: &str) -> Result<StopReason, AcpServerError> {
        let token = self.begin(id)?;
        self.handler.prompt_finished(id, token);
        // What was asked, and what was answered.
        *self.history.entry(id.to_string()).or_insert(0) += 2;
        turn_outcome(false, Ok(StopReason::EndTurn))
    }
}

fn override_meta(model: &str) -> JsonObject {
    let mut map = JsonObject::new();
    map.insert("agentx/model".to_string(), Json::string(model));
    map
}

fn execution(error: &AcpServerError) -> &str {
    match error {
        AcpServerError::Execution(message) => message,
        other => panic!("{other:?}"),
    }
}

fn malformed(error: &AcpServerError) -> &str {
    match error {
        AcpServerError::MalformedMessage(message) => message,
        other => panic!("{other:?}"),
    }
}

#[test]
fn unmappable_prompt_content_is_rejected_with_descriptive_error() {
    let bad_image = Err("invalid base64 data: not*valid*base64 (image/png)".to_string());
    let error = prompt_content(vec![bad_image]).expect_err("malformed content must be rejected");
    assert!(
        matches!(error, AcpServerError::MalformedMessage(_)),
        "expected a descriptive MalformedMessage error, got {error:?}"
    );
    assert_eq!(malformed(&error), "invalid base64 data: not*valid*base64 (image/png)");
}

#[test]
fn empty_prompt_is_rejected() {
    let error = prompt_content(Vec::new()).expect_err("empty prompt must be rejected");
    assert!(
        matches!(error, AcpServerError::MalformedMessage(message) if message.contains("content"))
    );
}

#[test]
fn advertised_prompt_capabilities_match_accepted_content_types() {
    let text = Ok(Part::Text { text: "hello".to_string() });
    let embedded = Ok(Part::Text { text: "fn main() {}".to_string() });
    prompt_content(vec![text, embedded])
        .expect("handler accepts text and embedded-resource content");

    let raw = vec![0x89, 0x50, 0x4E, 0x47];
    let image = Ok(Part::InlineData { mime_type: "image/png".to_string(), data: raw.clone() });
    let content = prompt_content(vec![image]).expect("handler accepts image content");
    assert!(
        matches!(&content.parts[0], Part::InlineData { mime_type, data }
            if mime_type == "image/png" && data == &raw),
        "image content must map to Part::InlineData"
    );

    let raw_audio = vec![1u8, 2, 3, 4, 5];
    let audio =
        Ok(Part::InlineData { mime_type: "audio/mp3".to_string(), data: raw_audio.clone() });
    let content = prompt_content(vec![audio]).expect("handler accepts audio content");
    assert!(
        matches!(&content.parts[0], Part::InlineData { mime_type, data }
            if mime_type == "audio/mp3" && data == &raw_audio),
        "audio content must map to Part::InlineData"
    );
}

#[test]
fn prompt_parts_are_kept_in_order() {
    let raw = vec![0x89, 0x50, 0x4E, 0x47];
    let content = prompt_content(vec![
        Ok(Part::Text { text: "hello".to_string() }),
        Ok(Part::InlineData { mime_type: "image/png".to_string(), data: raw.clone() }),
    ])
    .unwrap();
    assert_eq!(content.role, "user");
    match &content.parts[..] {
        [Part::Text { text }, Part::InlineData { mime_type, data }] => {
            assert_eq!(text, "hello");
            assert_eq!(mime_type, "image/png");
            assert_eq!(data, &raw);
        }
        other => panic!("{other:?}"),
    }
    let text = || Ok(Part::Text { text: "x".to_string() });
    let error = prompt_content(vec![text(), Err("a".to_string()), Err("b".to_string())]).unwrap_err();
    assert_eq!(malformed(&error), "a", "the first part that cannot be used decides");
}

#[test]
fn idle_session_rebinds_to_new_connections_without_close() {
    let mut server = Server::new(Some(1), None);
    let id = server.new_session(None).unwrap();
    assert_eq!(server.prompt(&id).unwrap(), StopReason::EndTurn);
    server.load(&id, None).expect("connection 2 load succeeded without session/close");
    server.resume(&id).expect("connection 3 resume succeeded without session/close");
    assert_eq!(server.handler.active_session_count(), 1);
}

#[test]
fn load_and_resume_are_refused_only_while_a_prompt_is_running() {
    let mut server = Server::new(None, None);
    let id = server.new_session(None).unwrap();
    let token = server.begin(&id).unwrap();
    let refused_load =
        server.load(&id, None).expect_err("load must be refused while the session's prompt is running");
    assert!(execution(&refused_load).contains("already active"));
    let refused_resume =
        server.resume(&id).expect_err("resume must be refused while the session's prompt is running");
    assert!(execution(&refused_resume).contains("already active"));
    server.handler.prompt_finished(&id, token);
    server.load(&id, None).expect("load must succeed once the turn finished");
}

#[test]
fn close_then_load_from_a_new_connection_succeeds() {
    let mut server = Server::new(None, None);
    let id = server.new_session(None).unwrap();
    assert_eq!(server.prompt(&id).unwrap(), StopReason::EndTurn);
    server.handler.close_session(&id).unwrap();
    assert_eq!(server.handler.active_session_count(), 0);
    server.load(&id, None).expect("connection 2 close+load succeeded");
    assert_eq!(server.replayed, vec![(id.clone(), 0), (id.clone(), 1)], "the turn is replayed");
    assert_eq!(server.prompt(&id).unwrap(), StopReason::EndTurn);
    assert_eq!(server.served_by.len(), 2);
}

#[test]
fn a_replay_stops_where_the_client_is_gone() {
    let mut server = Server::new(None, None);
    let id = server.new_session(None).unwrap();
    server.handler.load_found(&id, &SessionPath::new(CWD), server.store.get(&id), None).unwrap();
    let (_, step) = server.handler.load_ready(&id, None, None, 3);
    let ReplayStep::Send(replay) = step else { panic!("{step:?}") };
    let step = event_replayed(replay, Ok(()));
    let ReplayStep::Send(replay) = step else { panic!("{step:?}") };
    assert_eq!((replay.next, replay.total), (1, 3));
    match event_replayed(replay, Err("closed".to_string())) {
        ReplayStep::Done(Err(AcpServerError::Transport(message))) => assert_eq!(message, "closed"),
        other => panic!("{other:?}"),
    }
    assert_eq!(server.handler.active_session_count(), 1);
    let (_, step) = server.handler.load_ready(&id, None, None, 0);
    assert!(matches!(step, ReplayStep::Done(Ok(()))));
}

#[test]
fn abandoned_connection_mid_prompt_releases_the_session() {
    let mut server = Server::new(None, None);
    let id = server.new_session(None).unwrap();
    let abandoned = server.begin(&id).unwrap();
    // The connection dies: its turn is dropped, which ends it.
    server.handler.prompt_finished(&id, abandoned);
    server.load(&id, None).expect("load must succeed after the connection died");
    let takeover = server.begin(&id).expect("takeover prompt must start");
    // A second, late end of the abandoned turn leaves the new one alone.
    server.handler.prompt_finished(&id, abandoned);
    assert_eq!(server.handler.cancel_session(&id), Some(takeover));
    server.handler.prompt_finished(&id, takeover);
    assert_eq!(server.handler.cancel_session(&id), None);
}

#[test]
fn factory_meta_composes_the_serving_agent() {
    let factory = RecordingFactory::new();
    let metas = factory.metas.clone();
    let mut server = Server::new(None, Some(factory));
    let id = server.new_session(Some(override_meta("test-model"))).unwrap();
    assert_eq!(server.prompt(&id).unwrap(), StopReason::EndTurn);
    let metas = metas.lock().unwrap();
    assert_eq!(metas.len(), 1, "factory called exactly once");
    assert!(
        metas[0].contains("agentx/model") && metas[0].contains("test-model"),
        "factory received the _meta map verbatim: {}",
        metas[0]
    );
    assert_eq!(server.served_by, vec!["call-0".to_string()]);
}

#[test]
fn factory_without_meta_receives_empty_map_and_cwd() {
    let factory = RecordingFactory::new();
    let metas = factory.metas.clone();
    let cwds = factory.cwds.clone();
    let mut server = Server::new(None, Some(factory));
    let id = server.new_session(None).unwrap();
    assert_eq!(server.prompt(&id).unwrap(), StopReason::EndTurn);
    let metas = metas.lock().unwrap();
    assert_eq!(metas.len(), 1, "factory called even without _meta");
    assert_eq!(metas[0], "{}", "factory received an empty map: {}", metas[0]);
    let cwds = cwds.lock().unwrap();
    assert_eq!(cwds.len(), 1, "one build call records one cwd (metas/cwds stay paired)");
    assert_eq!(cwds[0], CWD, "factory received the session/new cwd verbatim: {}", cwds[0]);
    assert_eq!(server.served_by, vec!["call-0".to_string()]);
}

#[test]
fn load_without_meta_preserves_the_session_agent() {
    let factory = RecordingFactory::new();
    let metas = factory.metas.clone();
    let mut server = Server::new(None, Some(factory));
    let id = server.new_session(Some(override_meta("model-a"))).unwrap();
    assert_eq!(server.prompt(&id).unwrap(), StopReason::EndTurn);
    server.load(&id, None).expect("load without _meta must succeed");
    assert_eq!(server.prompt(&id).unwrap(), StopReason::EndTurn);
    assert_eq!(
        metas.lock().unwrap().len(),
        1,
        "no rebuild: load without _meta keeps the existing agent"
    );
    assert_eq!(
        server.served_by,
        vec!["call-0".to_string(), "call-0".to_string()],
        "both turns served by the same factory-composed agent"
    );
}

#[test]
fn load_with_meta_rebuilds_the_session_agent() {
    let factory = RecordingFactory::new();
    let metas = factory.metas.clone();
    let mut server = Server::new(None, Some(factory));
    let id = server.new_session(Some(override_meta("model-a"))).unwrap();
    server.load(&id, Some(override_meta("model-b"))).expect("load with _meta must succeed");
    assert_eq!(server.prompt(&id).unwrap(), StopReason::EndTurn);
    let metas = metas.lock().unwrap();
    assert_eq!(metas.len(), 2, "the load rebuilt through the factory");
    assert!(metas[1].contains("model-b"), "rebuild saw the fresh overrides: {}", metas[1]);
    assert_eq!(
        server.served_by,
        vec!["call-1".to_string()],
        "the post-load turn was served by the rebuilt agent"
    );
}

#[test]
fn factory_error_fails_session_new() {
    let mut factory = RecordingFactory::new();
    factory.fail = true;
    let mut server = Server::new(None, Some(factory));
    let error = server
        .new_session(Some(override_meta("bad")))
        .expect_err("session/new must fail when the factory rejects the overrides");
    assert_eq!(malformed(&error), "session _meta rejected: bad override value");
    assert_eq!(server.handler.active_session_count(), 0);
}

#[test]
fn no_factory_meta_is_ignored_and_base_agent_serves() {
    let mut server = Server::new(None, None);
    let id = server.new_session(Some(override_meta("ignored-model"))).unwrap();
    assert_eq!(server.prompt(&id).unwrap(), StopReason::EndTurn);
    assert_eq!(server.served_by, vec!["base"], "the config-level agent served the prompt");
}

#[test]
fn a_rejected_agent_leaves_a_loaded_session_alone() {
    let mut factory = RecordingFactory::new();
    let mut server = Server::new(None, Some(factory.clone()));
    let id = server.new_session(None).unwrap();
    factory.fail = true;
    server.handler.agent_factory = Some(factory);
    assert!(server.load(&id, Some(override_meta("bad"))).is_err());
    server.prompt(&id).unwrap();
    assert_eq!(server.served_by, vec!["call-0"]);
}

#[test]
fn the_session_limit_is_kept() {
    let mut server = Server::new(Some(2), None);
    let first = server.new_session(None).unwrap();
    server.new_session(None).unwrap();
    assert!(matches!(
        server.new_session(None),
        Err(AcpServerError::MaxSessionsReached(2))
    ));
    server.handler.close_session(&first).unwrap();
    server.new_session(None).unwrap();
    assert!(matches!(server.load(&first, None), Err(AcpServerError::MaxSessionsReached(2))));
    assert_eq!(server.handler.active_session_count(), 2);
}

#[test]
fn identifiers_are_random_uuids() {
    let mut server = Server::new(None, None);
    let a = server.new_session(None).unwrap();
    let b = server.new_session(None).unwrap();
    assert_ne!(a, b);
    for id in [a, b] {
        assert_eq!(uuid::Uuid::parse_str(&id).unwrap().get_version_num(), 4);
        assert_eq!(id, id.to_lowercase());
        assert_eq!(id.len(), 36);
    }
}

#[test]
fn turns_of_a_session_are_serial() {
    let mut server = Server::new(None, None);
    let id = server.new_session(None).unwrap();
    let token = server.begin(&id).unwrap();
    let error = server.begin(&id).unwrap_err();
    assert_eq!(execution(&error), "a prompt is already running in this session");
    server.handler.prompt_finished(&id, token);
    server.begin(&id).unwrap();
    assert!(matches!(server.begin("other"), Err(AcpServerError::SessionNotFound(s)) if s == "other"));
}

#[test]
fn requests_need_absolute_paths_and_a_running_server() {
    let mut server = Server::new(None, None);
    let id = server.new_session(None).unwrap();
    let cwd = SessionPath::new(CWD);
    let relative = SessionPath::new("work");
    assert!(cwd.absolute && !relative.absolute);
    let none = Vec::new();
    let error = server.handler.load_session(false, &id, &relative, &none).unwrap_err();
    assert_eq!(malformed(&error), "cwd must be an absolute path");
    let dirs = vec![SessionPath::new("/a"), SessionPath::new("b")];
    let error = server.handler.fork_session(false, &id, &cwd, &dirs).unwrap_err();
    assert_eq!(malformed(&error), "additionalDirectories must be an absolute path");
    assert!(matches!(
        server.handler.resume_session(true, &id, &relative, &none),
        Err(AcpServerError::ShuttingDown)
    ));
    assert!(matches!(server.handler.handle_prompt(true, &id, 1), Err(AcpServerError::ShuttingDown)));
    let SessionKey { app_name, user_id, session_id } =
        server.handler.resume_session(false, &id, &cwd, &none).unwrap();
    assert_eq!((app_name.as_str(), user_id.as_str()), ("test-agent", "acp-client"));
    assert_eq!(session_id, id);
}

#[test]
fn a_session_stays_in_its_directory() {
    let mut server = Server::new(None, None);
    let id = server.new_session(None).unwrap();
    let elsewhere = SessionPath::new("/work/other");
    let state = server.store.get(&id).unwrap();
    let error = server.handler.load_found(&id, &elsewhere, Some(state), None).unwrap_err();
    assert_eq!(malformed(&error), "loaded session cwd does not match its original cwd");
    let error = server.handler.resume_found(&id, &elsewhere, Some(state)).unwrap_err();
    assert_eq!(malformed(&error), "resumed session cwd does not match its original cwd");
    // Case counts.
    let capital = SessionPath::new("/work/Project");
    assert!(server.handler.load_found(&id, &capital, Some(state), None).is_err());
    // The same path, spelt otherwise.
    let spelt = SessionPath::new("/work//project/");
    assert!(server.handler.load_found(&id, &spelt, Some(state), None).is_ok());
    assert!(matches!(
        server.handler.load_found("gone", &elsewhere, None, None),
        Err(AcpServerError::SessionNotFound(s)) if s == "gone"
    ));
    // A state without a directory matches any.
    let empty = JsonObject::new();
    assert!(server.handler.resume_found(&id, &elsewhere, Some(&empty)).is_ok());
}

#[test]
fn tool_servers_are_kept_or_stopped() {
    let mut server = Server::new(None, None);
    let id = server.new_session(None).unwrap();
    assert_eq!(server.handler.servers_started(&id, Some(7), None), None);
    // Rebinding stops the old servers.
    let cwd = SessionPath::new(CWD);
    let state = server.store.get(&id).unwrap();
    let loaded = server.handler.load_found(&id, &cwd, Some(state), None).unwrap();
    assert_eq!(loaded.freed, Some(7));
    assert_eq!(server.handler.servers_started(&id, Some(8), loaded.rebuilt), None);
    let ended = server.handler.close_session(&id).unwrap();
    assert_eq!((ended.cancel, ended.freed), (None, Some(8)));
    // The session is gone: servers that start late are handed back.
    assert_eq!(server.handler.servers_started(&id, Some(9), None), Some(9));
    assert_eq!(server.handler.servers_failed(&id), None);
    assert!(matches!(server.handler.close_session(&id), Err(AcpServerError::SessionNotFound(_))));
}

#[test]
fn a_session_that_cannot_be_stored_is_dropped() {
    let mut server = Server::new(None, None);
    let request = NewSessionRequest {
        cwd: SessionPath::new(CWD),
        additional_directories: vec![SessionPath::new("/extra")],
        mcp_servers: Vec::new(),
        meta: None,
    };
    let made = server.handler.create_session(false, &request).unwrap();
    assert_eq!(
        Json::Object(made.state).to_text(),
        "{\"acp:cwd\":\"/work/project\",\"acp:additional_directories\":[\"/extra\"]}"
    );
    let stored = server.handler.session_stored(&made.session_id, Some(3), Err("disk".to_string()));
    assert!(matches!(stored.result, Err(AcpServerError::Internal(m)) if m == "failed to create session: disk"));
    assert_eq!(stored.freed, vec![3]);
    assert_eq!(server.handler.active_session_count(), 0);
}

#[test]
fn a_fork_takes_settings_history_and_agent() {
    let mut server = Server::new(None, Some(RecordingFactory::new()));
    let id = server.new_session(None).unwrap();
    let mut state = server.store.remove(&id).unwrap();
    state.insert("acp:config:speed".to_string(), Json::string("fast"));
    state.insert("other".to_string(), Json::PosInt(1));
    state.insert("acp:mode".to_string(), Json::string("plan"));
    let fork = server.handler.fork_found(&id, Some(&state)).unwrap();
    assert_eq!(
        Json::Object(fork.state).to_text(),
        "{\"acp:cwd\":\"/work/project\",\"acp:additional_directories\":[],\"acp:mode\":\"plan\",\"acp:config:speed\":\"fast\"}"
    );
    let mut step = server.handler.fork_stored(&fork.session_id, Some(5), 2, Ok(()));
    let mut appended = Vec::new();
    let stored = loop {
        step = match step {
            ForkStep::Append(copy) => {
                appended.push(copy.next);
                server.handler.fork_event_appended(copy, Ok(()))
            }
            ForkStep::Done(stored) => break stored,
            ForkStep::Undo { error, .. } => panic!("{error:?}"),
        };
    };
    assert_eq!(appended, vec![0, 1]);
    assert_eq!(stored.result.unwrap(), fork.session_id);
    assert_eq!(server.handler.registry.get(&fork.session_id).unwrap().mcp, Some(5));
    server.begin(&fork.session_id).unwrap();
    assert_eq!(server.served_by, vec!["call-0"]);
    assert!(matches!(server.handler.fork_found("gone", None), Err(AcpServerError::SessionNotFound(_))));
}

#[test]
fn a_failed_copy_undoes_the_fork() {
    let mut server = Server::new(None, None);
    let id = server.new_session(None).unwrap();
    let state = server.store.get(&id).unwrap();
    let fork = server.handler.fork_found(&id, Some(state)).unwrap();
    let step = server.handler.fork_stored(&fork.session_id, Some(5), 1, Ok(()));
    let ForkStep::Append(copy) = step else { panic!("{step:?}") };
    match server.handler.fork_event_appended(copy, Err("full".to_string())) {
        ForkStep::Undo { delete, error, freed } => {
            assert_eq!(delete.session_id, fork.session_id);
            assert!(matches!(error, AcpServerError::Internal(m) if m == "failed to copy session history into fork: full"));
            assert_eq!(freed, vec![5]);
        }
        other => panic!("{other:?}"),
    }
    assert_eq!(server.handler.active_session_count(), 1);
    let fork = server.handler.fork_found(&id, Some(state)).unwrap();
    match server.handler.fork_stored(&fork.session_id, None, 1, Err("disk".to_string())) {
        ForkStep::Done(stored) => {
            assert!(matches!(stored.result, Err(AcpServerError::Internal(m)) if m == "failed to create forked session: disk"));
        }
        other => panic!("{other:?}"),
    }
    assert_eq!(server.handler.active_session_count(), 1);
}

#[test]
fn delete_and_shutdown_end_running_turns() {
    let mut server = Server::new(None, None);
    let a = server.new_session(None).unwrap();
    let b = server.new_session(None).unwrap();
    server.handler.servers_started(&b, Some(4), None);
    let token_a = server.begin(&a).unwrap();
    let token_b = server.begin(&b).unwrap();
    let (ended, key) = server.handler.delete_session(&a);
    assert_eq!(ended.unwrap().cancel, Some(token_a));
    assert_eq!(key.session_id, a);
    let (ended, _) = server.handler.delete_session(&a);
    assert!(ended.is_none());
    assert!(server.handler.registry.get(&b).is_some());
    let drained = server.handler.drain_sessions();
    assert_eq!((drained.cancel, drained.freed), (vec![token_b], vec![4]));
    assert_eq!(server.handler.active_session_count(), 0);
}

#[test]
fn a_shutdown_reaches_every_session_once() {
    let mut server = Server::new(None, None);
    let ids: Vec<String> = (0..4).map(|_| server.new_session(None).unwrap()).collect();
    let running = vec![server.begin(&ids[1]).unwrap(), server.begin(&ids[3]).unwrap()];
    server.handler.servers_started(&ids[0], Some(7), None);
    server.handler.servers_started(&ids[1], Some(8), None);
    server.handler.servers_started(&ids[2], Some(8), None);
    let mut drained = server.handler.drain_sessions();
    drained.cancel.sort();
    drained.freed.sort();
    assert_eq!(drained.cancel, running);
    assert_eq!(drained.freed, vec![7, 8, 8]);
    let drained = server.handler.drain_sessions();
    assert!(drained.cancel.is_empty() && drained.freed.is_empty());
}

#[test]
fn streamed_text_is_not_sent_twice() {
    let event = |confirmation: bool, partial: bool| TurnEvent { confirmation, partial };
    let mut turn = PromptTurn::new();
    assert_eq!(turn.on_event(event(false, false)), Forward::All);
    assert_eq!(turn.on_event(event(true, true)), Forward::Nothing);
    assert_eq!(turn.on_event(event(false, false)), Forward::All);
    assert_eq!(turn.on_event(event(false, true)), Forward::WithoutSettledText);
    assert_eq!(turn.on_event(event(true, false)), Forward::Nothing);
    assert_eq!(turn.on_event(event(false, false)), Forward::WithoutSettledText);
}

#[test]
fn a_cancelled_turn_ends_as_cancelled() {
    assert_eq!(event_failed(true, "x".to_string()).unwrap(), StopReason::Cancelled);
    assert!(matches!(event_failed(false, "x".to_string()), Err(AcpServerError::Execution(m)) if m == "x"));
    assert_eq!(turn_outcome(true, Err(AcpServerError::ShuttingDown)).unwrap(), StopReason::Cancelled);
    assert!(turn_outcome(false, Err(AcpServerError::ShuttingDown)).is_err());
}

#[test]
fn a_turn_ends_for_a_reason() {
    let mut turn = PromptTurn::new();
    let seen = TurnEvent { confirmation: false, partial: true };
    assert!(matches!(
        turn.on_input(TurnInput::Event(seen), false),
        TurnAction::Send(Forward::WithoutSettledText)
    ));
    assert!(matches!(
        turn.on_input(TurnInput::Ended, true),
        TurnAction::Stop(Ok(StopReason::EndTurn))
    ));
    assert!(matches!(
        turn.on_input(TurnInput::Cancelled, true),
        TurnAction::Stop(Ok(StopReason::Cancelled))
    ));
    assert!(matches!(
        turn.on_input(TurnInput::Failed("x".to_string()), true),
        TurnAction::Stop(Ok(StopReason::Cancelled))
    ));
    assert!(matches!(
        turn.on_input(TurnInput::Failed("x".to_string()), false),
        TurnAction::Stop(Err(AcpServerError::Execution(m))) if m == "x"
    ));
}

#[test]
fn a_config_needs_an_agent_and_a_store() {
    type Builder = AcpServerConfigBuilder<u8, u8, (), RecordingFactory>;
    let message = |r: Result<_, AcpServerError>| match r {
        Err(AcpServerError::Internal(m)) => m,
        Err(other) => format!("{other:?}"),
        Ok(()) => "ok".to_string(),
    };
    assert_eq!(message(Builder::new().build().map(|_| ())), "agent is required");
    assert_eq!(message(Builder::new().agent(1).build().map(|_| ())), "session_service is required");
    let full = || Builder::new().agent(1).session_service(2);
    assert_eq!(
        message(full().max_sessions(0).build().map(|_| ())),
        "max_sessions must be greater than 0"
    );
    assert_eq!(
        message(full().shutdown_timeout(0).build().map(|_| ())),
        "shutdown_timeout must be greater than 0"
    );
    let config = full().build().unwrap();
    assert_eq!(config.agent_name, "adk-agent");
    assert_eq!(config.max_sessions, 16);
    assert_eq!(config.shutdown_timeout, 30_000_000_000);
    assert!(matches!(config.transport, TransportConfig::Stdio));
    let config = Builder::default()
        .agent(1)
        .session_service(2)
        .agent_description("d")
        .user_id("u")
        .shutdown_timeout(9)
        .transport(TransportConfig::Http { addr: "127.0.0.1:0".to_string() })
        .session_controls(())
        .build()
        .unwrap();
    assert_eq!((config.agent, config.session_service), (1, 2));
    assert_eq!((config.agent_description.as_str(), config.user_id.as_str()), ("d", "u"));
    assert_eq!(config.shutdown_timeout, 9);
    assert!(config.session_controls.is_some() && config.agent_factory.is_none());
    assert!(matches!(config.transport, TransportConfig::Http { addr } if addr == "127.0.0.1:0"));
}
