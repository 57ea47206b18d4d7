//! Configuration of the server.

use crate::acp::error::{AcpErrorView, AcpServerError};
use crate::acp::path::SessionPath;
use crate::json::JsonObject;
use vstd::prelude::*;

verus! {

/// Composes an agent for one session from what the request says in its
/// extension map, which is empty where it says nothing, and from the session's
/// working directory. Both are handed on as they are. The result stands for
/// the agent; an error fails the request.
pub trait AgentFactory {
    fn build(&self, meta: &JsonObject, cwd: &SessionPath) -> Result<u64, String>;
}

/// How clients reach the server.
#[derive(Clone, Debug)]
pub enum TransportConfig {
    /// Lines of JSON on standard input and output.
    Stdio,
    /// HTTP and WebSocket on a TCP address.
    Http { addr: String },
}

impl Default for TransportConfig {
    fn default() -> (t: TransportConfig)
        ensures
            t is Stdio,
    {
        TransportConfig::Stdio
    }
}

/// A validated configuration: `A` stands for the agent, `S` for the store of
/// sessions, `C` for session controls and `F` for the agent factory.
#[derive(Clone)]
pub struct AcpServerConfig<A, S, C, F> {
    pub agent: A,
    pub session_service: S,
    pub agent_name: String,
    pub agent_description: String,
    pub user_id: String,
    pub max_sessions: usize,
    /// How long a graceful shutdown may take, in nanoseconds.
    pub shutdown_timeout: u128,
    pub transport: TransportConfig,
    pub session_controls: Option<C>,
    pub agent_factory: Option<F>,
}

/// A configuration in the making.
pub struct AcpServerConfigBuilder<A, S, C, F> {
    pub agent: Option<A>,
    pub session_service: Option<S>,
    pub agent_name: String,
    pub agent_description: String,
    pub user_id: String,
    pub max_sessions: usize,
    pub shutdown_timeout: u128,
    pub transport: TransportConfig,
    pub session_controls: Option<C>,
    pub agent_factory: Option<F>,
}

/// Thirty seconds, in nanoseconds.
pub const DEFAULT_SHUTDOWN_TIMEOUT: u128 = 30_000_000_000;

/// Why a configuration is refused.
pub open spec fn refusal<A, S, C, F>(b: AcpServerConfigBuilder<A, S, C, F>) -> Option<
    AcpErrorView,
> {
    if b.agent is None {
        Some(AcpErrorView::Internal("agent is required"@))
    } else if b.session_service is None {
        Some(AcpErrorView::Internal("session_service is required"@))
    } else if b.max_sessions == 0 {
        Some(AcpErrorView::Internal("max_sessions must be greater than 0"@))
    } else if b.shutdown_timeout == 0 {
        Some(AcpErrorView::Internal("shutdown_timeout must be greater than 0"@))
    } else {
        None
    }
}

/// The configuration that a builder describes.
pub open spec fn described<A, S, C, F>(b: AcpServerConfigBuilder<A, S, C, F>) -> AcpServerConfig<
    A,
    S,
    C,
    F,
> {
    AcpServerConfig {
        agent: b.agent->Some_0,
        session_service: b.session_service->Some_0,
        agent_name: b.agent_name,
        agent_description: b.agent_description,
        user_id: b.user_id,
        max_sessions: b.max_sessions,
        shutdown_timeout: b.shutdown_timeout,
        transport: b.transport,
        session_controls: b.session_controls,
        agent_factory: b.agent_factory,
    }
}

/// The builder has set nothing beyond the defaults.
pub open spec fn is_default<A, S, C, F>(b: AcpServerConfigBuilder<A, S, C, F>) -> bool {
    &&& b.agent is None
    &&& b.session_service is None
    &&& b.agent_name@ == "adk-agent"@
    &&& b.agent_description@ == Seq::<char>::empty()
    &&& b.user_id@ == "acp-client"@
    &&& b.max_sessions == 16
    &&& b.shutdown_timeout == DEFAULT_SHUTDOWN_TIMEOUT
    &&& b.transport is Stdio
    &&& b.session_controls is None
    &&& b.agent_factory is None
}

impl<A, S, C, F> Default for AcpServerConfigBuilder<A, S, C, F> {
    fn default() -> (b: AcpServerConfigBuilder<A, S, C, F>)
        ensures
            is_default(b),
    {
        AcpServerConfigBuilder::new()
    }
}

impl<A, S, C, F> AcpServerConfigBuilder<A, S, C, F> {
    /// A builder with defaults for all that has one.
    pub fn new() -> (b: AcpServerConfigBuilder<A, S, C, F>)
        ensures
            is_default(b),
    {
        AcpServerConfigBuilder {
            agent: None,
            session_service: None,
            agent_name: "adk-agent".to_owned(),
            agent_description: String::new(),
            user_id: "acp-client".to_owned(),
            max_sessions: 16,
            shutdown_timeout: DEFAULT_SHUTDOWN_TIMEOUT,
            transport: TransportConfig::Stdio,
            session_controls: None,
            agent_factory: None,
        }
    }

    /// Sets the agent that the server exposes. It must be set.
    pub fn agent(self, agent: A) -> (b: AcpServerConfigBuilder<A, S, C, F>)
        ensures
            b == (AcpServerConfigBuilder { agent: Some(agent), ..self }),
    {
        let mut b = self;
        b.agent = Some(agent);
        b
    }

    /// Sets the store of sessions. It must be set.
    pub fn session_service(self, service: S) -> (b: AcpServerConfigBuilder<A, S, C, F>)
        ensures
            b == (AcpServerConfigBuilder { session_service: Some(service), ..self }),
    {
        let mut b = self;
        b.session_service = Some(service);
        b
    }

    /// Sets the name that the server goes by.
    pub fn agent_name(self, name: &str) -> (b: AcpServerConfigBuilder<A, S, C, F>)
        ensures
            b.agent_name@ == name@,
            b == (AcpServerConfigBuilder { agent_name: b.agent_name, ..self }),
    {
        let mut b = self;
        b.agent_name = name.to_owned();
        b
    }

    /// Sets the description that the server gives of itself.
    pub fn agent_description(self, description: &str) -> (b: AcpServerConfigBuilder<A, S, C, F>)
        ensures
            b.agent_description@ == description@,
            b == (AcpServerConfigBuilder { agent_description: b.agent_description, ..self }),
    {
        let mut b = self;
        b.agent_description = description.to_owned();
        b
    }

    /// Sets the user that sessions belong to.
    pub fn user_id(self, user_id: &str) -> (b: AcpServerConfigBuilder<A, S, C, F>)
        ensures
            b.user_id@ == user_id@,
            b == (AcpServerConfigBuilder { user_id: b.user_id, ..self }),
    {
        let mut b = self;
        b.user_id = user_id.to_owned();
        b
    }

    /// Sets how many sessions may be active at once.
    pub fn max_sessions(self, max: usize) -> (b: AcpServerConfigBuilder<A, S, C, F>)
        ensures
            b == (AcpServerConfigBuilder { max_sessions: max, ..self }),
    {
        let mut b = self;
        b.max_sessions = max;
        b
    }

    /// Sets how long a graceful shutdown may take, in nanoseconds.
    pub fn shutdown_timeout(self, timeout: u128) -> (b: AcpServerConfigBuilder<A, S, C, F>)
        ensures
            b == (AcpServerConfigBuilder { shutdown_timeout: timeout, ..self }),
    {
        let mut b = self;
        b.shutdown_timeout = timeout;
        b
    }

    /// Sets how clients reach the server.
    pub fn transport(self, transport: TransportConfig) -> (b: AcpServerConfigBuilder<A, S, C, F>)
        ensures
            b == (AcpServerConfigBuilder { transport, ..self }),
    {
        let mut b = self;
        b.transport = transport;
        b
    }

    /// Sets the provider of session modes and options.
    pub fn session_controls(self, controls: C) -> (b: AcpServerConfigBuilder<A, S, C, F>)
        ensures
            b == (AcpServerConfigBuilder { session_controls: Some(controls), ..self }),
    {
        let mut b = self;
        b.session_controls = Some(controls);
        b
    }

    /// Sets the factory that composes an agent for each session.
    pub fn agent_factory(self, factory: F) -> (b: AcpServerConfigBuilder<A, S, C, F>)
        ensures
            b == (AcpServerConfigBuilder { agent_factory: Some(factory), ..self }),
    {
        let mut b = self;
        b.agent_factory = Some(factory);
        b
    }

    /// Validates the configuration. The agent and the store must be set, and
    /// neither the limit nor the timeout may be zero.
    pub fn build(self) -> (r: Result<AcpServerConfig<A, S, C, F>, AcpServerError>)
        ensures
            match refusal(self) {
                Some(e) => r matches Err(error) && error@ == e,
                None => r matches Ok(config) && config == described(self),
            },
    {
        let agent: A = match self.agent {
            Some(a) => a,
            None => {
                return Err(AcpServerError::Internal("agent is required".to_owned()));
            },
        };
        let session_service: S = match self.session_service {
            Some(s) => s,
            None => {
                return Err(AcpServerError::Internal("session_service is required".to_owned()));
            },
        };
        if self.max_sessions == 0 {
            return Err(AcpServerError::Internal("max_sessions must be greater than 0".to_owned()));
        }
        if self.shutdown_timeout == 0 {
            return Err(
                AcpServerError::Internal("shutdown_timeout must be greater than 0".to_owned()),
            );
        }
        Ok(
            AcpServerConfig {
                agent,
                session_service,
                agent_name: self.agent_name,
                agent_description: self.agent_description,
                user_id: self.user_id,
                max_sessions: self.max_sessions,
                shutdown_timeout: self.shutdown_timeout,
                transport: self.transport,
                session_controls: self.session_controls,
                agent_factory: self.agent_factory,
            },
        )
    }
}

/// A configuration is accepted exactly where it has an agent and a store, and
/// neither the limit nor the time for a shutdown is zero. It then says what was
/// set, all of it; else the first of these that does not hold is reported.
pub proof fn law_which_configurations_are_accepted<A, S, C, F>(
    b: AcpServerConfigBuilder<A, S, C, F>,
)
    ensures
        refusal(b) is None <==> b.agent is Some && b.session_service is Some && b.max_sessions > 0
            && b.shutdown_timeout > 0,
        b.agent is None ==> refusal(b) == Some(AcpErrorView::Internal("agent is required"@)),
        b.agent is Some && b.session_service is None ==> refusal(b) == Some(
            AcpErrorView::Internal("session_service is required"@),
        ),
        b.agent is Some && b.session_service is Some && b.max_sessions == 0 ==> refusal(b) == Some(
            AcpErrorView::Internal("max_sessions must be greater than 0"@),
        ),
        b.agent is Some && b.session_service is Some && b.max_sessions > 0 && b.shutdown_timeout
            == 0 ==> refusal(b) == Some(
            AcpErrorView::Internal("shutdown_timeout must be greater than 0"@),
        ),
        refusal(b) is None ==> {
            let c = described(b);
            &&& b.agent == Some(c.agent)
            &&& b.session_service == Some(c.session_service)
            &&& c.agent_name == b.agent_name
            &&& c.agent_description == b.agent_description
            &&& c.user_id == b.user_id
            &&& c.max_sessions == b.max_sessions
            &&& c.shutdown_timeout == b.shutdown_timeout
            &&& c.transport == b.transport
            &&& c.session_controls == b.session_controls
            &&& c.agent_factory == b.agent_factory
        },
{
}

/// What is set where nothing is said.
pub proof fn law_what_the_defaults_are<A, S, C, F>(b: AcpServerConfigBuilder<A, S, C, F>)
    requires
        is_default(b),
    ensures
        b.agent is None,
        b.session_service is None,
        b.session_controls is None,
        b.agent_factory is None,
        b.agent_name@ == "adk-agent"@,
        b.agent_description@.len() == 0,
        b.user_id@ == "acp-client"@,
        b.max_sessions == 16,
        b.shutdown_timeout == 30_000_000_000,
        b.transport is Stdio,
{
}

} // verus!
