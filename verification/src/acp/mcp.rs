//! Tool servers that a client attaches to a session.

use crate::acp::error::{malformed, outcome, AcpErrorView, AcpServerError};
use crate::acp::path::SessionPath;
use crate::text::{blank, decimal, decimal_text, is_blank, same_text};
use vstd::prelude::*;
use vstd::string::*;

verus! {

/// The most servers that one session may have.
pub const MAX_MCP_SERVERS: usize = 16;

/// How long a server may take to start, in seconds.
pub const MCP_STARTUP_SECONDS: u64 = 15;

pub struct EnvVariable {
    pub name: String,
    pub value: String,
}

/// A server that runs as a child process.
pub struct StdioServer {
    pub name: String,
    pub command: SessionPath,
    pub args: Vec<String>,
    pub env: Vec<EnvVariable>,
}

pub struct HttpHeader {
    pub name: String,
    pub value: String,
}

/// A server that is reached over HTTP.
pub struct HttpServer {
    pub name: String,
    pub url: String,
    pub headers: Vec<HttpHeader>,
}

/// A tool server, by the way in which it is reached.
pub enum McpServer {
    Stdio(StdioServer),
    Http(HttpServer),
    Sse { name: String },
    Unknown,
}

pub open spec fn transport_word(server: McpServer) -> Seq<char> {
    match server {
        McpServer::Stdio(_) => "stdio"@,
        McpServer::Http(_) => "HTTP"@,
        McpServer::Sse { .. } => "SSE"@,
        McpServer::Unknown => "unknown"@,
    }
}

/// The name of a server's transport, for error messages.
pub fn transport_kind(server: &McpServer) -> (s: &'static str)
    ensures
        s@ == transport_word(*server),
{
    match server {
        McpServer::Stdio(_) => "stdio",
        McpServer::Http(_) => "HTTP",
        McpServer::Sse { .. } => "SSE",
        McpServer::Unknown => "unknown",
    }
}

/// The server can be reached: over stdio, and over HTTP where that is built in.
pub open spec fn is_supported(server: McpServer, http: bool) -> bool {
    server is Stdio || (http && server is Http)
}

pub open spec fn server_name(server: McpServer) -> Seq<char> {
    match server {
        McpServer::Stdio(s) => s.name@,
        McpServer::Http(s) => s.name@,
        McpServer::Sse { name } => name@,
        McpServer::Unknown => Seq::empty(),
    }
}

pub open spec fn server_env(server: McpServer) -> Seq<EnvVariable> {
    match server {
        McpServer::Stdio(s) => s.env@,
        _ => Seq::empty(),
    }
}

/// What is wrong with an environment variable, given those before it.
pub open spec fn variable_error(
    server: Seq<char>,
    env: Seq<EnvVariable>,
    i: int,
) -> Option<AcpErrorView> {
    if is_blank(env[i].name@) {
        Some(
            AcpErrorView::MalformedMessage(
                "MCP server '"@ + server + "' has an empty environment variable name"@,
            ),
        )
    } else if exists|j: int| 0 <= j < i && (#[trigger] env[j]).name@ == env[i].name@ {
        Some(
            AcpErrorView::MalformedMessage(
                "MCP server '"@ + server + "' repeats environment variable '"@ + env[i].name@
                    + "'"@,
            ),
        )
    } else {
        None
    }
}

/// What is wrong with the first of `n` variables that has something wrong.
pub open spec fn env_error(
    server: Seq<char>,
    env: Seq<EnvVariable>,
    n: nat,
) -> Option<AcpErrorView>
    decreases n,
{
    if n == 0 {
        None
    } else {
        match env_error(server, env, (n - 1) as nat) {
            Some(e) => Some(e),
            None => variable_error(server, env, n - 1),
        }
    }
}

/// What is wrong with a server, given those before it.
pub open spec fn server_error(servers: Seq<McpServer>, i: int, http: bool) -> Option<
    AcpErrorView,
> {
    let server = servers[i];
    let name = server_name(server);
    if !is_supported(server, http) {
        Some(
            AcpErrorView::MalformedMessage(
                "this ACP agent does not support the "@ + transport_word(server)
                    + " MCP transport"@,
            ),
        )
    } else if server matches McpServer::Http(s) && is_blank(s.url@) {
        Some(AcpErrorView::MalformedMessage("MCP server '"@ + name + "' has an empty url"@))
    } else if is_blank(name) {
        Some(AcpErrorView::MalformedMessage("MCP server names cannot be empty"@))
    } else if exists|j: int| 0 <= j < i && server_name(#[trigger] servers[j]) == name {
        Some(AcpErrorView::MalformedMessage("duplicate MCP server name: "@ + name))
    } else {
        env_error(name, server_env(server), server_env(server).len())
    }
}

/// What is wrong with the first of `n` servers that has something wrong.
pub open spec fn first_server_error(servers: Seq<McpServer>, n: nat, http: bool) -> Option<
    AcpErrorView,
>
    decreases n,
{
    if n == 0 {
        None
    } else {
        match first_server_error(servers, (n - 1) as nat, http) {
            Some(e) => Some(e),
            None => server_error(servers, n - 1, http),
        }
    }
}

/// The outcome of checking the servers that a session is to have.
pub open spec fn servers_result(servers: Seq<McpServer>, http: bool) -> Result<(), AcpErrorView> {
    if servers.len() > MAX_MCP_SERVERS {
        malformed("at most 16 MCP servers may be attached to one ACP session"@)
    } else {
        match first_server_error(servers, servers.len(), http) {
            Some(e) => Err(e),
            None => Ok(()),
        }
    }
}

proof fn lemma_error_stays(servers: Seq<McpServer>, n: nat, m: nat, http: bool)
    requires
        n <= m,
        first_server_error(servers, n, http) is Some,
    ensures
        first_server_error(servers, m, http) == first_server_error(servers, n, http),
    decreases m,
{
    if n < m {
        lemma_error_stays(servers, n, (m - 1) as nat, http);
    }
}

proof fn lemma_env_error_stays(server: Seq<char>, env: Seq<EnvVariable>, n: nat, m: nat)
    requires
        n <= m,
        env_error(server, env, n) is Some,
    ensures
        env_error(server, env, m) == env_error(server, env, n),
    decreases m,
{
    if n < m {
        lemma_env_error_stays(server, env, n, (m - 1) as nat);
    }
}

fn malformed_error(message: String) -> (e: AcpServerError)
    ensures
        e@ == AcpErrorView::MalformedMessage(message@),
{
    AcpServerError::MalformedMessage(message)
}

fn check_env(server: &str, env: &Vec<EnvVariable>) -> (r: Result<(), AcpServerError>)
    ensures
        match r {
            Ok(()) => env_error(server@, env@, env@.len()) is None,
            Err(e) => env_error(server@, env@, env@.len()) == Some(e@),
        },
{
    let mut i: usize = 0;
    while i < env.len()
        invariant
            i <= env@.len(),
            env_error(server@, env@, i as nat) is None,
        decreases env@.len() - i,
    {
        let name: &str = env[i].name.as_str();
        if blank(name) {
            let message: String = "MCP server '".to_owned().concat(server).concat(
                "' has an empty environment variable name",
            );
            proof {
                lemma_env_error_stays(server@, env@, (i + 1) as nat, env@.len());
            }
            return Err(malformed_error(message));
        }
        let mut j: usize = 0;
        while j < i
            invariant
                j <= i < env@.len(),
                name@ == env@[i as int].name@,
                !is_blank(name@),
                env_error(server@, env@, i as nat) is None,
                forall|k: int| 0 <= k < j ==> (#[trigger] env@[k]).name@ != name@,
            decreases i - j,
        {
            if same_text(env[j].name.as_str(), name) {
                let message: String = "MCP server '".to_owned().concat(server).concat(
                    "' repeats environment variable '",
                ).concat(name).concat("'");
                proof {
                    assert(env@[j as int].name@ == env@[i as int].name@);
                    lemma_env_error_stays(server@, env@, (i + 1) as nat, env@.len());
                }
                return Err(malformed_error(message));
            }
            j += 1;
        }
        i += 1;
    }
    Ok(())
}

fn check_server(servers: &[McpServer], i: usize, http: bool) -> (r: Result<(), AcpServerError>)
    requires
        i < servers@.len(),
        forall|k: int| 0 <= k < i ==> is_supported(#[trigger] servers@[k], http),
    ensures
        match r {
            Ok(()) => server_error(servers@, i as int, http) is None && is_supported(
                servers@[i as int],
                http,
            ),
            Err(e) => server_error(servers@, i as int, http) == Some(e@),
        },
{
    let server: &McpServer = &servers[i];
    let name: &String = match server {
        McpServer::Stdio(s) => &s.name,
        McpServer::Http(s) => {
            if !http {
                return Err(unsupported_error(server));
            }
            if blank(s.url.as_str()) {
                return Err(
                    malformed_error(
                        "MCP server '".to_owned().concat(s.name.as_str()).concat(
                            "' has an empty url",
                        ),
                    ),
                );
            }
            &s.name
        },
        _ => {
            return Err(unsupported_error(server));
        },
    };
    if blank(name.as_str()) {
        return Err(malformed_error("MCP server names cannot be empty".to_owned()));
    }
    let mut j: usize = 0;
    while j < i
        invariant
            j <= i < servers@.len(),
            *server == servers@[i as int],
            is_supported(*server, http),
            name@ == server_name(*server),
            !is_blank(name@),
            !(server matches McpServer::Http(s) && is_blank(s.url@)),
            forall|k: int| 0 <= k < i ==> is_supported(#[trigger] servers@[k], http),
            forall|k: int| 0 <= k < j ==> server_name(#[trigger] servers@[k]) != name@,
        decreases i - j,
    {
        assert(is_supported(servers@[j as int], http));
        let same: bool = match &servers[j] {
            McpServer::Stdio(s) => same_text(s.name.as_str(), name.as_str()),
            McpServer::Http(s) => same_text(s.name.as_str(), name.as_str()),
            _ => false,
        };
        if same {
            assert(server_name(servers@[j as int]) == name@);
            return Err(
                malformed_error("duplicate MCP server name: ".to_owned().concat(name.as_str())),
            );
        }
        j += 1;
    }
    match server {
        McpServer::Stdio(s) => check_env(s.name.as_str(), &s.env),
        _ => Ok(()),
    }
}

fn unsupported_error(server: &McpServer) -> (e: AcpServerError)
    ensures
        e@ == AcpErrorView::MalformedMessage(
            "this ACP agent does not support the "@ + transport_word(*server)
                + " MCP transport"@,
        ),
{
    malformed_error(
        "this ACP agent does not support the ".to_owned().concat(transport_kind(server)).concat(
            " MCP transport",
        ),
    )
}

/// Checks the servers that a session is to have, before any is started.
/// `http` says whether servers may be reached over HTTP.
pub fn validate_mcp_servers(servers: &[McpServer], http: bool) -> (r: Result<(), AcpServerError>)
    ensures
        outcome(r) == servers_result(servers@, http),
{
    if servers.len() > MAX_MCP_SERVERS {
        return Err(
            malformed_error("at most 16 MCP servers may be attached to one ACP session".to_owned()),
        );
    }
    let mut i: usize = 0;
    while i < servers.len()
        invariant
            i <= servers@.len() <= MAX_MCP_SERVERS,
            forall|k: int| 0 <= k < i ==> is_supported(#[trigger] servers@[k], http),
            first_server_error(servers@, i as nat, http) is None,
        decreases servers@.len() - i,
    {
        match check_server(servers, i, http) {
            Ok(()) => {},
            Err(e) => {
                proof {
                    lemma_error_stays(servers@, (i + 1) as nat, servers@.len(), http);
                }
                return Err(e);
            },
        }
        i += 1;
    }
    Ok(())
}

/// Servers that pass the check have names of their own.
pub proof fn law_accepted_servers_have_distinct_names(
    servers: Seq<McpServer>,
    http: bool,
    i: int,
    j: int,
)
    requires
        servers_result(servers, http) is Ok,
        0 <= i < j < servers.len(),
    ensures
        server_name(servers[i]) != server_name(servers[j]),
        !is_blank(server_name(servers[i])),
        is_supported(servers[i], http),
{
    lemma_no_error(servers, servers.len(), http, i);
    lemma_no_error(servers, servers.len(), http, j);
    if server_name(servers[i]) == server_name(servers[j]) {
        let witness = servers[i];
        assert(server_error(servers, j, http) is Some);
    }
}

proof fn lemma_no_error(servers: Seq<McpServer>, n: nat, http: bool, i: int)
    requires
        first_server_error(servers, n, http) is None,
        0 <= i < n,
    ensures
        server_error(servers, i, http) is None,
    decreases n,
{
    if i < n - 1 {
        lemma_no_error(servers, (n - 1) as nat, http, i);
    }
}

// ---------------------------------------------------------------------
// Starting servers
// ---------------------------------------------------------------------

/// How a server is to be started.
#[derive(Clone, Copy, Debug, PartialEq, Eq, Structural)]
pub enum StartOrder {
    Spawn,
    Connect,
}

/// What became of a server that was to be started.
pub enum StartOutcome {
    Started,
    /// The process could not be spawned.
    SpawnFailed(String),
    /// The client took its request back meanwhile.
    Cancelled,
    TimedOut,
    /// The server did not complete the handshake.
    InitFailed(String),
}

/// How a server is to be started, or why it is not.
pub open spec fn order_result(server: McpServer, http: bool) -> Result<
    StartOrder,
    AcpErrorView,
> {
    match server {
        McpServer::Stdio(s) => if s.command.absolute {
            Ok(StartOrder::Spawn)
        } else {
            malformed("MCP server '"@ + s.name@ + "' command must be an absolute path"@)
        },
        _ => if http && server is Http {
            Ok(StartOrder::Connect)
        } else {
            malformed(
                "this ACP agent does not support the "@ + transport_word(server)
                    + " MCP transport; only stdio"@ + (if http {
                    " and HTTP"@
                } else {
                    ""@
                }) + " was advertised"@,
            )
        },
    }
}

/// Decides how a server is to be started.
pub fn start_order(server: &McpServer, http: bool) -> (r: Result<StartOrder, AcpServerError>)
    ensures
        outcome(r) == order_result(*server, http),
{
    match server {
        McpServer::Stdio(s) => {
            if s.command.absolute {
                Ok(StartOrder::Spawn)
            } else {
                Err(
                    malformed_error(
                        "MCP server '".to_owned().concat(s.name.as_str()).concat(
                            "' command must be an absolute path",
                        ),
                    ),
                )
            }
        },
        McpServer::Http(_) if http => Ok(StartOrder::Connect),
        _ => {
            let advertised: &str = if http {
                " and HTTP"
            } else {
                ""
            };
            Err(
                malformed_error(
                    "this ACP agent does not support the ".to_owned().concat(
                        transport_kind(server),
                    ).concat(" MCP transport; only stdio").concat(advertised).concat(
                        " was advertised",
                    ),
                ),
            )
        },
    }
}

/// What became of a server, as the request's outcome.
pub open spec fn start_result_of(name: Seq<char>, result: StartOutcome) -> Result<
    (),
    AcpErrorView,
> {
    match result {
        StartOutcome::Started => Ok(()),
        StartOutcome::SpawnFailed(e) => Err(
            AcpErrorView::Execution("failed to start MCP server '"@ + name + "': "@ + e@),
        ),
        StartOutcome::Cancelled => Err(
            AcpErrorView::Execution(
                "ACP session creation was cancelled while starting MCP servers"@,
            ),
        ),
        StartOutcome::TimedOut => Err(
            AcpErrorView::Execution(
                "MCP server '"@ + name + "' did not initialize within "@ + decimal(
                    MCP_STARTUP_SECONDS as nat,
                ) + " seconds"@,
            ),
        ),
        StartOutcome::InitFailed(e) => Err(
            AcpErrorView::Execution("failed to initialize MCP server '"@ + name + "': "@ + e@),
        ),
    }
}

/// Reports what became of a server that was to be started.
pub fn start_result(name: &str, result: StartOutcome) -> (r: Result<(), AcpServerError>)
    ensures
        outcome(r) == start_result_of(name@, result),
{
    match result {
        StartOutcome::Started => Ok(()),
        StartOutcome::SpawnFailed(e) => Err(
            AcpServerError::Execution(
                "failed to start MCP server '".to_owned().concat(name).concat("': ").concat(
                    e.as_str(),
                ),
            ),
        ),
        StartOutcome::Cancelled => Err(
            AcpServerError::Execution(
                "ACP session creation was cancelled while starting MCP servers".to_owned(),
            ),
        ),
        StartOutcome::TimedOut => Err(
            AcpServerError::Execution(
                "MCP server '".to_owned().concat(name).concat("' did not initialize within ").concat(
                    decimal_text(MCP_STARTUP_SECONDS).as_str(),
                ).concat(" seconds"),
            ),
        ),
        StartOutcome::InitFailed(e) => Err(
            AcpServerError::Execution(
                "failed to initialize MCP server '".to_owned().concat(name).concat("': ").concat(
                    e.as_str(),
                ),
            ),
        ),
    }
}

/// What is to be done next about the servers of a session.
#[derive(Debug)]
pub enum StartStep {
    /// Start the server at `index`.
    Start { index: usize, order: StartOrder },
    /// Stop those that have started; then the request fails.
    Failed(AcpServerError),
    /// All have started.
    Done,
}

#[verifier::ext_equal]
pub enum StartStepView {
    Start { index: nat, order: StartOrder },
    Failed(AcpErrorView),
    Done,
}

impl View for StartStep {
    type V = StartStepView;

    open spec fn view(&self) -> StartStepView {
        match *self {
            StartStep::Start { index, order } => StartStepView::Start {
                index: index as nat,
                order,
            },
            StartStep::Failed(e) => StartStepView::Failed(e@),
            StartStep::Done => StartStepView::Done,
        }
    }
}

/// The next server is to be started, or none is left.
pub open spec fn next_start(servers: Seq<McpServer>, next: nat, http: bool) -> StartStepView {
    if next < servers.len() {
        match order_result(servers[next as int], http) {
            Ok(order) => StartStepView::Start { index: next, order },
            Err(e) => StartStepView::Failed(e),
        }
    } else {
        StartStepView::Done
    }
}

/// The servers of a session are to be started: first they are all checked.
pub open spec fn first_start(servers: Seq<McpServer>, http: bool) -> StartStepView {
    match servers_result(servers, http) {
        Err(e) => StartStepView::Failed(e),
        Ok(()) => next_start(servers, 0, http),
    }
}

/// A server has started, or has not: the next one follows only if it has.
pub open spec fn start_after(
    servers: Seq<McpServer>,
    index: nat,
    result: StartOutcome,
    http: bool,
) -> StartStepView {
    match start_result_of(server_name(servers[index as int]), result) {
        Err(e) => StartStepView::Failed(e),
        Ok(()) => next_start(servers, index + 1, http),
    }
}

fn start_from(servers: &[McpServer], next: usize, http: bool) -> (step: StartStep)
    ensures
        step@ == next_start(servers@, next as nat, http),
{
    if next < servers.len() {
        match start_order(&servers[next], http) {
            Ok(order) => StartStep::Start { index: next, order },
            Err(e) => StartStep::Failed(e),
        }
    } else {
        StartStep::Done
    }
}

/// The servers of a session are to be started.
pub fn start_mcp_servers(servers: &[McpServer], http: bool) -> (step: StartStep)
    ensures
        step@ == first_start(servers@, http),
{
    match validate_mcp_servers(servers, http) {
        Err(e) => StartStep::Failed(e),
        Ok(()) => start_from(servers, 0, http),
    }
}

/// The server at `index` has started, or has not.
pub fn server_started(servers: &[McpServer], index: usize, result: StartOutcome, http: bool) -> (step:
    StartStep)
    requires
        index < servers@.len(),
    ensures
        step@ == start_after(servers@, index as nat, result, http),
{
    let name: &str = match &servers[index] {
        McpServer::Stdio(s) => s.name.as_str(),
        McpServer::Http(s) => s.name.as_str(),
        McpServer::Sse { name } => name.as_str(),
        McpServer::Unknown => {
            proof {
                reveal_strlit("");
                assert(""@ =~= Seq::<char>::empty());
            }
            ""
        },
    };
    match start_result(name, result) {
        Err(e) => StartStep::Failed(e),
        Ok(()) => start_from(servers, index + 1, http),
    }
}

/// The steps as long as every server starts.
pub open spec fn successful_steps(servers: Seq<McpServer>, next: nat, http: bool) -> Seq<StartStepView>
    decreases servers.len() - next,
{
    let step = next_start(servers, next, http);
    match step {
        StartStepView::Start { .. } => if next < servers.len() {
            seq![step] + successful_steps(servers, next + 1, http)
        } else {
            seq![step]
        },
        _ => seq![step],
    }
}

/// Servers that pass the check and whose commands are absolute paths are all
/// started, each once, in order.
pub proof fn law_servers_start_in_order(servers: Seq<McpServer>, next: nat, http: bool)
    requires
        next <= servers.len(),
        forall|i: int| 0 <= i < servers.len() ==> order_result(#[trigger] servers[i], http) is Ok,
    ensures
        successful_steps(servers, next, http).len() == servers.len() - next + 1,
        successful_steps(servers, next, http).last() is Done,
        forall|i: int|
            0 <= i < servers.len() - next ==> ((#[trigger] successful_steps(
                servers,
                next,
                http,
            )[i]) matches StartStepView::Start { index, .. } && index == next + i),
    decreases servers.len() - next,
{
    if next < servers.len() {
        assert(order_result(servers[next as int], http) is Ok);
        law_servers_start_in_order(servers, next + 1, http);
        let rest = successful_steps(servers, next + 1, http);
        let all = successful_steps(servers, next, http);
        assert(all =~= seq![next_start(servers, next, http)] + rest);
        assert forall|i: int| 0 <= i < servers.len() - next implies ((
        #[trigger] all[i]) matches StartStepView::Start { index, .. } && index == next + i) by {
            if i > 0 {
                assert(all[i] == rest[i - 1]);
            }
        }
    }
}

/// A server that does not start ends the request: no other is started.
pub proof fn law_a_failed_server_ends_the_request(
    servers: Seq<McpServer>,
    index: nat,
    result: StartOutcome,
    http: bool,
)
    requires
        !(result is Started),
    ensures
        start_after(servers, index, result, http) is Failed,
{
}

/// The name under which a server's tools are offered.
pub fn toolset_name(server: &str) -> (s: String)
    ensures
        s@ == "acp:"@ + server@,
{
    "acp:".to_owned().concat(server)
}

// ---------------------------------------------------------------------
// Which servers are accepted
// ---------------------------------------------------------------------

/// What a server is called.
pub open spec fn called(server: McpServer) -> Seq<char> {
    match server {
        McpServer::Stdio(s) => s.name@,
        McpServer::Http(s) => s.name@,
        McpServer::Sse { name } => name@,
        McpServer::Unknown => Seq::empty(),
    }
}

/// A variable has a name, and no variable before it has the same.
pub open spec fn good_variable(env: Seq<EnvVariable>, i: int) -> bool {
    &&& !is_blank(env[i].name@)
    &&& forall|j: int| 0 <= j < i ==> (#[trigger] env[j]).name@ != env[i].name@
}

pub open spec fn good_env(env: Seq<EnvVariable>) -> bool {
    forall|i: int| 0 <= i < env.len() ==> good_variable(env, i)
}

/// A server can be reached, is named like none before it, and is described in
/// full.
pub open spec fn good_server(servers: Seq<McpServer>, i: int, http: bool) -> bool {
    &&& match servers[i] {
        McpServer::Stdio(s) => good_env(s.env@),
        McpServer::Http(s) => http && !is_blank(s.url@),
        _ => false,
    }
    &&& !is_blank(called(servers[i]))
    &&& forall|j: int| 0 <= j < i ==> called(#[trigger] servers[j]) != called(servers[i])
}

proof fn lemma_env_good(server: Seq<char>, env: Seq<EnvVariable>, n: nat)
    requires
        n <= env.len(),
    ensures
        env_error(server, env, n) is None <==> forall|i: int| 0 <= i < n ==> good_variable(env, i),
    decreases n,
{
    if n > 0 {
        lemma_env_good(server, env, (n - 1) as nat);
        assert(variable_error(server, env, n - 1) is None <==> good_variable(env, n - 1));
        if env_error(server, env, n) is Some && (forall|i: int| 0 <= i < n ==> good_variable(env, i)) {
            assert(good_variable(env, n - 1));
            assert forall|i: int| 0 <= i < n - 1 implies good_variable(env, i) by {}
        }
    }
}

proof fn lemma_server_good(servers: Seq<McpServer>, i: int, http: bool)
    requires
        0 <= i < servers.len(),
    ensures
        server_error(servers, i, http) is None <==> good_server(servers, i, http),
{
    let env = server_env(servers[i]);
    lemma_env_good(server_name(servers[i]), env, env.len());
    assert(forall|j: int| #![trigger servers[j]] server_name(servers[j]) == called(servers[j]));
    assert((exists|j: int|
        0 <= j < i && server_name(#[trigger] servers[j]) == server_name(servers[i])) <==> !(forall|
        j: int,
    |
        0 <= j < i ==> called(#[trigger] servers[j]) != called(servers[i])));
}

proof fn lemma_servers_good(servers: Seq<McpServer>, n: nat, http: bool)
    requires
        n <= servers.len(),
    ensures
        first_server_error(servers, n, http) is None <==> forall|i: int|
            0 <= i < n ==> good_server(servers, i, http),
    decreases n,
{
    if n > 0 {
        lemma_servers_good(servers, (n - 1) as nat, http);
        lemma_server_good(servers, n - 1, http);
        if first_server_error(servers, n, http) is Some && (forall|i: int|
            0 <= i < n ==> good_server(servers, i, http)) {
            assert(good_server(servers, n - 1, http));
            assert forall|i: int| 0 <= i < n - 1 implies good_server(servers, i, http) by {}
        }
    }
}

/// Servers are accepted exactly where there are at most sixteen and each can be
/// reached, has a name of its own and is described in full.
pub proof fn law_which_servers_are_accepted(servers: Seq<McpServer>, http: bool)
    ensures
        servers_result(servers, http) is Ok <==> servers.len() <= 16 && forall|i: int|
            0 <= i < servers.len() ==> good_server(servers, i, http),
        servers.len() > 16 ==> servers_result(servers, http) == Err::<(), AcpErrorView>(
            AcpErrorView::MalformedMessage(
                "at most 16 MCP servers may be attached to one ACP session"@,
            ),
        ),
{
    lemma_servers_good(servers, servers.len(), http);
}

/// What is said of a server that cannot be reached, has no url, has no name, or
/// has the name of another, in this order; `None` where none of these holds.
pub open spec fn complaint(servers: Seq<McpServer>, i: int, http: bool) -> Option<Seq<char>> {
    if servers[i] is Sse {
        Some("this ACP agent does not support the "@ + "SSE"@ + " MCP transport"@)
    } else if servers[i] is Unknown {
        Some("this ACP agent does not support the "@ + "unknown"@ + " MCP transport"@)
    } else if servers[i] is Http && !http {
        Some("this ACP agent does not support the "@ + "HTTP"@ + " MCP transport"@)
    } else if servers[i] matches McpServer::Http(s) && is_blank(s.url@) {
        Some("MCP server '"@ + called(servers[i]) + "' has an empty url"@)
    } else if is_blank(called(servers[i])) {
        Some("MCP server names cannot be empty"@)
    } else if !(forall|j: int| 0 <= j < i ==> called(#[trigger] servers[j]) != called(servers[i])) {
        Some("duplicate MCP server name: "@ + called(servers[i]))
    } else {
        None
    }
}

/// The first server that is not accepted is the one that is reported.
pub proof fn law_the_first_bad_server_is_reported(servers: Seq<McpServer>, k: int, http: bool)
    requires
        servers.len() <= 16,
        0 <= k < servers.len(),
        complaint(servers, k, http) is Some,
        forall|i: int| 0 <= i < k ==> good_server(servers, i, http),
    ensures
        servers_result(servers, http) == Err::<(), AcpErrorView>(
            AcpErrorView::MalformedMessage(complaint(servers, k, http)->Some_0),
        ),
{
    lemma_servers_good(servers, k as nat, http);
    assert((exists|j: int|
        0 <= j < k && server_name(#[trigger] servers[j]) == server_name(servers[k])) <==> !(forall|
        j: int,
    |
        0 <= j < k ==> called(#[trigger] servers[j]) != called(servers[k])));
    assert(server_error(servers, k, http) == Some(
        AcpErrorView::MalformedMessage(complaint(servers, k, http)->Some_0),
    ));
    lemma_error_stays(servers, (k + 1) as nat, servers.len(), http);
}

/// Of a server whose variables are at fault, the first of these is reported.
pub proof fn law_the_first_bad_variable_is_reported(
    servers: Seq<McpServer>,
    k: int,
    http: bool,
    s: StdioServer,
    v: int,
)
    requires
        servers.len() <= 16,
        0 <= k < servers.len(),
        servers[k] == McpServer::Stdio(s),
        complaint(servers, k, http) is None,
        forall|i: int| 0 <= i < k ==> good_server(servers, i, http),
        0 <= v < s.env@.len(),
        !good_variable(s.env@, v),
        forall|i: int| 0 <= i < v ==> good_variable(s.env@, i),
    ensures
        is_blank(s.env@[v].name@) ==> servers_result(servers, http) == Err::<(), AcpErrorView>(
            AcpErrorView::MalformedMessage(
                "MCP server '"@ + s.name@ + "' has an empty environment variable name"@,
            ),
        ),
        !is_blank(s.env@[v].name@) ==> servers_result(servers, http) == Err::<(), AcpErrorView>(
            AcpErrorView::MalformedMessage(
                "MCP server '"@ + s.name@ + "' repeats environment variable '"@ + s.env@[v].name@
                    + "'"@,
            ),
        ),
{
    lemma_servers_good(servers, k as nat, http);
    lemma_env_good(s.name@, s.env@, v as nat);
    assert((exists|j: int|
        0 <= j < k && server_name(#[trigger] servers[j]) == server_name(servers[k])) <==> !(forall|
        j: int,
    |
        0 <= j < k ==> called(#[trigger] servers[j]) != called(servers[k])));
    assert(variable_error(s.name@, s.env@, v) is Some);
    lemma_env_error_stays(s.name@, s.env@, (v + 1) as nat, s.env@.len());
    lemma_error_stays(servers, (k + 1) as nat, servers.len(), http);
}

/// A server on this machine is spawned where its command is an absolute path,
/// and one over HTTP is connected to where that is built in; no other is
/// started, and the answer says why not.
pub proof fn law_how_a_server_is_started(server: McpServer, http: bool)
    ensures
        match server {
            McpServer::Stdio(s) => if s.command.absolute {
                order_result(server, http) == Ok::<StartOrder, AcpErrorView>(StartOrder::Spawn)
            } else {
                order_result(server, http) == Err::<StartOrder, AcpErrorView>(
                    AcpErrorView::MalformedMessage(
                        "MCP server '"@ + s.name@ + "' command must be an absolute path"@,
                    ),
                )
            },
            McpServer::Http(_) => if http {
                order_result(server, http) == Ok::<StartOrder, AcpErrorView>(StartOrder::Connect)
            } else {
                order_result(server, http) == Err::<StartOrder, AcpErrorView>(
                    AcpErrorView::MalformedMessage(
                        "this ACP agent does not support the "@ + "HTTP"@
                            + " MCP transport; only stdio"@ + ""@ + " was advertised"@,
                    ),
                )
            },
            McpServer::Sse { name } => order_result(server, http) == Err::<
                StartOrder,
                AcpErrorView,
            >(
                AcpErrorView::MalformedMessage(
                    "this ACP agent does not support the "@ + "SSE"@
                        + " MCP transport; only stdio"@ + (if http {
                        " and HTTP"@
                    } else {
                        ""@
                    }) + " was advertised"@,
                ),
            ),
            McpServer::Unknown => order_result(server, http) == Err::<StartOrder, AcpErrorView>(
                AcpErrorView::MalformedMessage(
                    "this ACP agent does not support the "@ + "unknown"@
                        + " MCP transport; only stdio"@ + (if http {
                        " and HTTP"@
                    } else {
                        ""@
                    }) + " was advertised"@,
                ),
            ),
        },
{
}

/// A server that has started is no failure; any other is reported by its name
/// and by what became of it.
pub proof fn law_what_is_said_of_a_start(name: Seq<char>, result: StartOutcome)
    ensures
        match result {
            StartOutcome::Started => start_result_of(name, result) is Ok,
            StartOutcome::SpawnFailed(e) => start_result_of(name, result) == Err::<
                (),
                AcpErrorView,
            >(AcpErrorView::Execution("failed to start MCP server '"@ + name + "': "@ + e@)),
            StartOutcome::Cancelled => start_result_of(name, result) == Err::<(), AcpErrorView>(
                AcpErrorView::Execution(
                    "ACP session creation was cancelled while starting MCP servers"@,
                ),
            ),
            StartOutcome::TimedOut => start_result_of(name, result) == Err::<(), AcpErrorView>(
                AcpErrorView::Execution(
                    "MCP server '"@ + name + "' did not initialize within "@ + decimal(15)
                        + " seconds"@,
                ),
            ),
            StartOutcome::InitFailed(e) => start_result_of(name, result) == Err::<
                (),
                AcpErrorView,
            >(AcpErrorView::Execution("failed to initialize MCP server '"@ + name + "': "@ + e@)),
        },
{
}

/// Nothing is started before all servers have passed the check. Then they are
/// started one after the other, each under its own order; the first that
/// cannot be, or does not start, ends the request with what is said of it.
pub proof fn law_how_servers_are_started(
    servers: Seq<McpServer>,
    index: nat,
    result: StartOutcome,
    http: bool,
)
    requires
        index < servers.len(),
    ensures
        servers_result(servers, http) matches Err(e) ==> first_start(servers, http)
            == StartStepView::Failed(e),
        servers_result(servers, http) is Ok ==> first_start(servers, http) == next_start(
            servers,
            0,
            http,
        ),
        order_result(servers[index as int], http) matches Ok(order) ==> next_start(
            servers,
            index,
            http,
        ) == (StartStepView::Start { index, order }),
        order_result(servers[index as int], http) matches Err(e) ==> next_start(
            servers,
            index,
            http,
        ) == StartStepView::Failed(e),
        next_start(servers, servers.len(), http) == StartStepView::Done,
        result is Started ==> start_after(servers, index, result, http) == next_start(
            servers,
            index + 1,
            http,
        ),
        start_result_of(called(servers[index as int]), result) matches Err(e) ==> start_after(
            servers,
            index,
            result,
            http,
        ) == StartStepView::Failed(e),
{
}

/// Tools are offered under a name by which the servers are told apart.
pub proof fn law_toolsets_are_told_apart(a: &str, b: &str, first: String, second: String)
    requires
        call_ensures(toolset_name, (a,), first),
        call_ensures(toolset_name, (b,), second),
    ensures
        first@ == "acp:"@ + a@,
        a@ != b@ ==> first@ != second@,
{
    if first@ == second@ {
        let n = "acp:"@.len() as int;
        assert(first@.skip(n) =~= a@);
        assert(second@.skip(n) =~= b@);
    }
}

} // verus!
