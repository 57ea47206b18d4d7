use agent_bridge::acp::config::{AcpServerConfigBuilder, AgentFactory};
use agent_bridge::acp::controls::{notified, write_session_state, Controls, ModeState};
use agent_bridge::acp::elicitation::{
    elicit, map_elicitation_action, AnswerValue, ElicitationAction, ElicitationField,
    ElicitationValue, FieldKind, FieldOption, Property,
};
use agent_bridge::acp::error::{to_protocol_error, AcpServerError, ProtocolError};
use agent_bridge::acp::handler::AcpSessionHandler;
use agent_bridge::acp::listing::{filtered_page, list_failed, read_cursor, StoredSession};
use agent_bridge::acp::mcp::{
    server_started, start_mcp_servers, start_order, start_result, toolset_name,
    validate_mcp_servers, EnvVariable, HttpHeader, HttpServer, McpServer, StartOrder,
    StartOutcome, StartStep, StdioServer,
};
use agent_bridge::acp::path::SessionPath;
use agent_bridge::acp::prompt::runner_failed;
use agent_bridge::acp::protocol::{answer, introduce, ProtocolVersion, RequestKind};
use agent_bridge::json::{Json, JsonObject};

#[derive(Clone)]
struct NoFactory;

impl AgentFactory for NoFactory {
    fn build(&self, _meta: &JsonObject, _cwd: &SessionPath) -> Result<u64, String> {
        Err("none".to_string())
    }
}

fn handler() -> AcpSessionHandler<NoFactory> {
    let builder: AcpServerConfigBuilder<(), (), (), NoFactory> = AcpServerConfigBuilder::new();
    AcpSessionHandler::new(&builder.agent(()).session_service(()).build().unwrap())
}

fn text_of(error: AcpServerError) -> String {
    match error {
        AcpServerError::MalformedMessage(m)
        | AcpServerError::Internal(m)
        | AcpServerError::Execution(m)
        | AcpServerError::Transport(m) => m,
        other => format!("{other:?}"),
    }
}

fn stdio(name: &str, env: &[(&str, &str)]) -> McpServer {
    McpServer::Stdio(StdioServer {
        name: name.to_string(),
        command: SessionPath::new("/bin/echo"),
        args: Vec::new(),
        env: env
            .iter()
            .map(|(n, v)| EnvVariable { name: n.to_string(), value: v.to_string() })
            .collect(),
    })
}

fn http(name: &str, url: &str) -> McpServer {
    McpServer::Http(HttpServer {
        name: name.to_string(),
        url: url.to_string(),
        headers: vec![HttpHeader { name: "X-A".to_string(), value: "1".to_string() }],
    })
}

#[test]
fn validates_session_mcp_configuration_before_process_start() {
    let duplicate_names = vec![stdio("tools", &[]), stdio("tools", &[])];
    assert!(text_of(validate_mcp_servers(&duplicate_names, false).expect_err("duplicate names"))
        .contains("duplicate MCP server name"));

    let duplicate_environment = vec![stdio("tools", &[("TOKEN", "one"), ("TOKEN", "two")])];
    assert!(text_of(
        validate_mcp_servers(&duplicate_environment, false).expect_err("duplicate environment")
    )
    .contains("repeats environment variable"));
}

#[test]
fn each_wrong_server_has_its_message() {
    let refused = |servers: &[McpServer], with_http: bool| {
        text_of(validate_mcp_servers(servers, with_http).unwrap_err())
    };
    let many: Vec<McpServer> = (0..17).map(|i| stdio(&format!("s{i}"), &[])).collect();
    assert_eq!(refused(&many, false), "at most 16 MCP servers may be attached to one ACP session");
    assert!(validate_mcp_servers(&many[..16], false).is_ok());
    assert_eq!(refused(&[stdio(" ", &[])], false), "MCP server names cannot be empty");
    assert_eq!(
        refused(&[stdio("a", &[]), stdio("b", &[]), stdio("a", &[])], false),
        "duplicate MCP server name: a"
    );
    assert_eq!(
        refused(&[stdio("a", &[("", "1")])], false),
        "MCP server 'a' has an empty environment variable name"
    );
    assert_eq!(
        refused(&[stdio("a", &[("X", "1"), ("Y", "1"), ("X", "2")])], false),
        "MCP server 'a' repeats environment variable 'X'"
    );
    assert_eq!(
        refused(&[http("h", "https://h")], false),
        "this ACP agent does not support the HTTP MCP transport"
    );
    assert!(validate_mcp_servers(&[http("h", "https://h")], true).is_ok());
    assert_eq!(refused(&[http("h", " ")], true), "MCP server 'h' has an empty url");
    assert_eq!(
        refused(&[McpServer::Sse { name: "s".to_string() }], true),
        "this ACP agent does not support the SSE MCP transport"
    );
    assert_eq!(
        refused(&[McpServer::Unknown], true),
        "this ACP agent does not support the unknown MCP transport"
    );
    assert!(validate_mcp_servers(&[], false).is_ok());
}

#[test]
fn servers_start_one_after_the_other() {
    let servers = vec![stdio("a", &[]), http("b", "https://b")];
    let step = start_mcp_servers(&servers, true);
    assert!(matches!(step, StartStep::Start { index: 0, order: StartOrder::Spawn }));
    let step = server_started(&servers, 0, StartOutcome::Started, true);
    assert!(matches!(step, StartStep::Start { index: 1, order: StartOrder::Connect }));
    assert!(matches!(server_started(&servers, 1, StartOutcome::Started, true), StartStep::Done));
    assert!(matches!(start_mcp_servers(&[], true), StartStep::Done));
    match server_started(&servers, 1, StartOutcome::TimedOut, true) {
        StartStep::Failed(e) => {
            assert_eq!(text_of(e), "MCP server 'b' did not initialize within 15 seconds");
        }
        other => panic!("{other:?}"),
    }
    assert!(matches!(start_mcp_servers(&servers, false), StartStep::Failed(_)));
}

#[test]
fn each_failed_start_has_its_message() {
    let failed = |o: StartOutcome| text_of(start_result("x", o).unwrap_err());
    assert_eq!(
        failed(StartOutcome::SpawnFailed("gone".to_string())),
        "failed to start MCP server 'x': gone"
    );
    assert_eq!(
        failed(StartOutcome::InitFailed("eof".to_string())),
        "failed to initialize MCP server 'x': eof"
    );
    assert_eq!(
        failed(StartOutcome::Cancelled),
        "ACP session creation was cancelled while starting MCP servers"
    );
    assert!(start_result("x", StartOutcome::Started).is_ok());
    let relative = McpServer::Stdio(StdioServer {
        name: "r".to_string(),
        command: SessionPath::new("bin/echo"),
        args: Vec::new(),
        env: Vec::new(),
    });
    assert_eq!(
        text_of(start_order(&relative, false).unwrap_err()),
        "MCP server 'r' command must be an absolute path"
    );
    assert_eq!(
        text_of(start_order(&McpServer::Unknown, false).unwrap_err()),
        "this ACP agent does not support the unknown MCP transport; only stdio was advertised"
    );
    assert_eq!(
        text_of(start_order(&McpServer::Sse { name: "s".to_string() }, true).unwrap_err()),
        "this ACP agent does not support the SSE MCP transport; only stdio and HTTP was advertised"
    );
    assert_eq!(toolset_name("x"), "acp:x");
}

fn stored(i: usize, cwd: Option<&str>) -> StoredSession {
    let mut state = JsonObject::new();
    if let Some(cwd) = cwd {
        state.insert("acp:cwd".to_string(), Json::string(cwd));
        let dirs = Json::parse("[\"/x\",\"/y\"]").unwrap();
        state.insert("acp:additional_directories".to_string(), dirs);
    } else {
        let dirs = Json::parse("[\"/x\",1]").unwrap();
        state.insert("acp:additional_directories".to_string(), dirs);
    }
    StoredSession { id: format!("s{i}"), state, updated_at: "t".to_string() }
}

#[test]
fn the_next_cursor_continues_the_listing() {
    let sessions: Vec<StoredSession> = (0..51).map(|i| stored(i, Some("/w"))).collect();
    let page = filtered_page(100, &sessions, None);
    assert_eq!(page.sessions.len(), 50);
    assert_eq!(page.sessions[49].session_id, "s49");
    assert_eq!(page.next_cursor.as_deref(), Some("150"));
    let request = handler().list_sessions(page.next_cursor.as_deref()).unwrap();
    assert_eq!((request.offset, request.limit), (150, 51));
    assert_eq!((request.app_name.as_str(), request.user_id.as_str()), ("adk-agent", "acp-client"));
    assert!(filtered_page(0, &sessions[..0].iter().map(|_| stored(0, None)).collect(), None)
        .next_cursor
        .is_none());
    assert_eq!(read_cursor(None).unwrap(), 0);
    assert_eq!(text_of(read_cursor(Some("x")).unwrap_err()), "invalid session cursor");
    assert_eq!(text_of(list_failed("db")), "failed to list sessions: db");
}

#[test]
fn a_listing_shows_what_is_stored() {
    let sessions = vec![stored(0, Some("/w")), stored(1, None), stored(2, Some("/w//"))];
    let page = filtered_page(0, &sessions, None);
    assert_eq!(page.sessions[0].additional_directories, vec!["/x", "/y"]);
    assert_eq!(page.sessions[0].updated_at, "t");
    assert_eq!(page.sessions[1].cwd, "/");
    assert!(page.sessions[1].additional_directories.is_empty());
    let path = SessionPath::new("/w");
    let page = filtered_page(0, &sessions, Some(&path));
    let ids: Vec<&str> = page.sessions.iter().map(|s| s.session_id.as_str()).collect();
    assert_eq!(ids, vec!["s0", "s2"]);
    assert_eq!(page.sessions[1].cwd, "/w//");
    for other in ["/", "/W", "/w/x", "w"] {
        let page = filtered_page(0, &sessions, Some(&SessionPath::new(other)));
        assert!(page.sessions.iter().all(|s| s.cwd == "/" && other == "/"), "{other}");
    }
}

#[test]
fn pages_join_to_the_whole_listing() {
    let all: Vec<usize> = (0..120).collect();
    let cwd = |i: usize| if i % 3 == 0 { "/other" } else { "/w" };
    for (filter, expected) in [
        (None, all.clone()),
        (Some("/w"), all.iter().copied().filter(|i| i % 3 != 0).collect()),
        (Some("/other"), all.iter().copied().filter(|i| i % 3 == 0).collect()),
        (Some("/none"), Vec::new()),
    ] {
        let filter = filter.map(SessionPath::new);
        let mut cursor: Option<String> = None;
        let mut shown: Vec<String> = Vec::new();
        let mut pages = 0;
        loop {
            let request = handler().list_sessions(cursor.as_deref()).unwrap();
            let read = all
                .iter()
                .skip(request.offset)
                .take(request.limit)
                .map(|i| stored(*i, Some(cwd(*i))))
                .collect();
            let page = filtered_page(request.offset, &read, filter.as_ref());
            assert!(page.sessions.len() <= 50);
            shown.extend(page.sessions.into_iter().map(|s| s.session_id));
            pages += 1;
            cursor = page.next_cursor;
            if cursor.is_none() {
                break;
            }
        }
        assert_eq!(pages, 3);
        let expected: Vec<String> = expected.iter().map(|i| format!("s{i}")).collect();
        assert_eq!(shown, expected);
    }
}

#[test]
fn a_relative_path_is_not_absolute() {
    for text in ["", "w", "w/x", ".", "../w", "c:w"] {
        assert!(!SessionPath::new(text).absolute, "{text}");
    }
}

fn modes() -> ModeState {
    ModeState {
        current_mode_id: "ask".to_string(),
        available_mode_ids: vec!["ask".to_string(), "plan".to_string()],
    }
}

#[test]
fn what_was_set_is_shown() {
    let h = handler();
    let mut state = JsonObject::new();
    let write = h.set_mode(false, Some(&modes()), "plan").unwrap();
    assert_eq!(write.key, "acp:mode");
    state.insert(write.key, write.value);
    let options = vec!["speed".to_string(), "depth".to_string()];
    let write = h.set_config_option(false, &options, "depth", true, Ok(Json::Bool(true))).unwrap();
    assert_eq!(write.key, "acp:config:depth");
    state.insert(write.key, write.value);
    let write = h.set_session_title(false, "My title").unwrap();
    state.insert(write.key, write.value);
    let controls = Controls { modes: Some(modes()), option_ids: options };
    let (shown, values) = h.session_controls_snapshot(Some(controls), Some(&state));
    assert_eq!(shown.unwrap().current_mode_id, "plan");
    let values = values.unwrap();
    assert!(matches!(&values[..], [None, Some(Json::Bool(true))]));
    assert_eq!(h.session_title(Some(&state)).as_deref(), Some("My title"));
    let updates = h.emit_session_activation_updates(2, Some(&state));
    assert!(updates.commands);
    assert_eq!(updates.title.as_deref(), Some("My title"));
    let updates = h.emit_session_activation_updates(0, None);
    assert!(!updates.commands && updates.title.is_none());
}

#[test]
fn defaults_are_shown_where_nothing_was_set() {
    let h = handler();
    let controls = Controls { modes: Some(modes()), option_ids: Vec::new() };
    let (shown, values) = h.session_controls_snapshot(Some(controls), None);
    assert_eq!(shown.unwrap().current_mode_id, "ask");
    assert!(values.is_none());
    let (shown, values) = h.session_controls_snapshot(None, None);
    assert!(shown.is_none() && values.is_none());
}

#[test]
fn refused_choices_write_nothing() {
    let h = handler();
    let options = vec!["speed".to_string()];
    assert_eq!(
        text_of(h.set_mode(false, Some(&modes()), "fly").unwrap_err()),
        "unknown session mode: fly"
    );
    assert_eq!(text_of(h.set_mode(false, None, "ask").unwrap_err()), "unknown session mode: ask");
    assert_eq!(
        text_of(h.set_config_option(false, &options, "x", true, Ok(Json::Null)).unwrap_err()),
        "unknown configuration option: x"
    );
    assert_eq!(
        text_of(h.set_config_option(false, &options, "speed", false, Ok(Json::Null)).unwrap_err()),
        "invalid value for configuration option: speed"
    );
    assert_eq!(
        text_of(
            h.set_config_option(false, &options, "speed", true, Err("enc".to_string())).unwrap_err()
        ),
        "enc"
    );
    assert!(matches!(h.set_session_title(true, "t"), Err(AcpServerError::ShuttingDown)));
    assert_eq!(
        text_of(write_session_state(Err("disk".to_string())).unwrap_err()),
        "failed to persist session state: disk"
    );
    assert!(matches!(notified(Err("gone".to_string())), Err(AcpServerError::Transport(m)) if m == "gone"));
    assert!(write_session_state(Ok(())).is_ok() && notified(Ok(())).is_ok());
}

#[test]
fn questions_become_a_form() {
    let option = |v: &str| FieldOption { value: v.to_string(), title: v.to_uppercase() };
    let field = |name: &str, kind: FieldKind| ElicitationField {
        name: name.to_string(),
        title: format!("{name}?"),
        kind,
    };
    let form = elicit(&vec![
        field("a", FieldKind::Text),
        field("b", FieldKind::SingleSelect { options: vec![option("x"), option("y")] }),
        field("c", FieldKind::MultiSelect { options: vec![option("z")] }),
    ]);
    assert_eq!(form.len(), 3);
    assert!(form.iter().all(|e| e.required));
    assert!(matches!(&form[0].property, Property::Text { title, one_of: None } if title == "a?"));
    let pair = |v: &str| (v.to_string(), v.to_uppercase());
    assert!(matches!(&form[1].property, Property::Text { one_of: Some(o), .. } if *o == vec![pair("x"), pair("y")]));
    assert!(matches!(&form[2].property, Property::Selection { title, options } if title == "c?" && *options == vec![pair("z")]));
}

#[test]
fn each_question_has_one_answer() {
    let content = vec![
        ("a".to_string(), AnswerValue::Text("one".to_string())),
        ("b".to_string(), AnswerValue::List(vec!["x".to_string(), "y".to_string()])),
        ("c".to_string(), AnswerValue::Integer(-7)),
        ("d".to_string(), AnswerValue::Number("0.5".to_string())),
        ("e".to_string(), AnswerValue::Boolean(true)),
        ("f".to_string(), AnswerValue::Other),
        ("a".to_string(), AnswerValue::Boolean(false)),
    ];
    let r = map_elicitation_action(ElicitationAction::Accept { content: Some(content) }).unwrap();
    assert!(!r.declined);
    let one = |n: &str, v: &str| (n.to_string(), ElicitationValue::One(v.to_string()));
    assert_eq!(
        r.values,
        vec![
            one("a", "false"),
            ("b".to_string(), ElicitationValue::Many(vec!["x".to_string(), "y".to_string()])),
            one("c", "-7"),
            one("d", "0.5"),
            one("e", "true"),
        ]
    );
    for action in [ElicitationAction::Decline, ElicitationAction::Cancel, ElicitationAction::Other] {
        let r = map_elicitation_action(action).unwrap();
        assert!(r.declined && r.values.is_empty());
    }
    let r = map_elicitation_action(ElicitationAction::Accept { content: None }).unwrap();
    assert!(!r.declined && r.values.is_empty());
}

#[test]
fn errors_are_put_to_the_client() {
    let invalid = |e: AcpServerError| match to_protocol_error(e) {
        ProtocolError::InvalidParams(m) => m,
        other => panic!("{other:?}"),
    };
    assert_eq!(invalid(AcpServerError::MalformedMessage("m".to_string())), "m");
    assert_eq!(invalid(AcpServerError::SessionNotFound("s".to_string())), "s");
    assert_eq!(
        invalid(AcpServerError::UnsupportedVersion {
            requested: "9".to_string(),
            supported: "1".to_string()
        }),
        "9"
    );
    assert_eq!(
        invalid(AcpServerError::MaxSessionsReached(16)),
        "maximum active sessions reached: 16"
    );
    for e in [
        AcpServerError::Internal("i".to_string()),
        AcpServerError::Execution("e".to_string()),
        AcpServerError::Transport("t".to_string()),
        AcpServerError::ShuttingDown,
    ] {
        assert!(matches!(to_protocol_error(e), ProtocolError::Internal(_)));
    }
    assert_eq!(text_of(runner_failed("runner.run failed", "x")), "runner.run failed: x");
}

#[test]
fn answers_say_what_follows() {
    let f = answer(RequestKind::NewSession, Ok(())).unwrap();
    assert!(f.announce && f.modes && f.options);
    let f = answer(RequestKind::SetConfigOption, Ok(())).unwrap();
    assert!(!f.announce && !f.modes && f.options);
    let f = answer(RequestKind::Prompt, Ok(())).unwrap();
    assert!(!f.announce && !f.modes && !f.options);
    assert!(matches!(
        answer(RequestKind::LoadSession, Err(AcpServerError::SessionNotFound("s".to_string()))),
        Err(ProtocolError::InvalidParams(m)) if m == "s"
    ));
    let i = introduce(ProtocolVersion::Other, "n".to_string(), String::new());
    assert_eq!((i.version, i.name.as_str(), i.title), (ProtocolVersion::V1, "n", None));
    let i = introduce(ProtocolVersion::V1, "n".to_string(), "T".to_string());
    assert_eq!(i.title.as_deref(), Some("T"));
}
