//! The errors of the server, and how a client sees them.

use crate::text::{decimal, decimal_text};
use vstd::prelude::*;
use vstd::string::*;

verus! {

/// What can go wrong while a request is served.
#[derive(Debug)]
pub enum AcpServerError {
    MalformedMessage(String),
    SessionNotFound(String),
    UnsupportedVersion { requested: String, supported: String },
    MaxSessionsReached(usize),
    Internal(String),
    Execution(String),
    Transport(String),
    ShuttingDown,
}

#[verifier::ext_equal]
pub enum AcpErrorView {
    MalformedMessage(Seq<char>),
    SessionNotFound(Seq<char>),
    UnsupportedVersion { requested: Seq<char>, supported: Seq<char> },
    MaxSessionsReached(nat),
    Internal(Seq<char>),
    Execution(Seq<char>),
    Transport(Seq<char>),
    ShuttingDown,
}

impl View for AcpServerError {
    type V = AcpErrorView;

    open spec fn view(&self) -> AcpErrorView {
        match *self {
            AcpServerError::MalformedMessage(m) => AcpErrorView::MalformedMessage(m@),
            AcpServerError::SessionNotFound(id) => AcpErrorView::SessionNotFound(id@),
            AcpServerError::UnsupportedVersion { requested, supported } => {
                AcpErrorView::UnsupportedVersion { requested: requested@, supported: supported@ }
            },
            AcpServerError::MaxSessionsReached(n) => AcpErrorView::MaxSessionsReached(n as nat),
            AcpServerError::Internal(m) => AcpErrorView::Internal(m@),
            AcpServerError::Execution(m) => AcpErrorView::Execution(m@),
            AcpServerError::Transport(m) => AcpErrorView::Transport(m@),
            AcpServerError::ShuttingDown => AcpErrorView::ShuttingDown,
        }
    }
}

/// A result with the error taken by its view.
pub open spec fn outcome<T>(r: Result<T, AcpServerError>) -> Result<T, AcpErrorView> {
    match r {
        Ok(v) => Ok(v),
        Err(e) => Err(e@),
    }
}

pub open spec fn malformed<T>(message: Seq<char>) -> Result<T, AcpErrorView> {
    Err(AcpErrorView::MalformedMessage(message))
}

/// An error as the protocol reports it: the fault lies with the request, or
/// with the server.
#[derive(Debug)]
pub enum ProtocolError {
    InvalidParams(String),
    Internal(AcpServerError),
}

#[verifier::ext_equal]
pub enum ProtocolErrorView {
    InvalidParams(Seq<char>),
    Internal(AcpErrorView),
}

impl View for ProtocolError {
    type V = ProtocolErrorView;

    open spec fn view(&self) -> ProtocolErrorView {
        match *self {
            ProtocolError::InvalidParams(m) => ProtocolErrorView::InvalidParams(m@),
            ProtocolError::Internal(e) => ProtocolErrorView::Internal(e@),
        }
    }
}

pub open spec fn protocol_error(error: AcpErrorView) -> ProtocolErrorView {
    match error {
        AcpErrorView::MalformedMessage(m) => ProtocolErrorView::InvalidParams(m),
        AcpErrorView::SessionNotFound(id) => ProtocolErrorView::InvalidParams(id),
        AcpErrorView::UnsupportedVersion { requested, .. } => ProtocolErrorView::InvalidParams(
            requested,
        ),
        AcpErrorView::MaxSessionsReached(n) => ProtocolErrorView::InvalidParams(
            "maximum active sessions reached: "@ + decimal(n),
        ),
        other => ProtocolErrorView::Internal(other),
    }
}

/// Tells the client what went wrong.
pub fn to_protocol_error(error: AcpServerError) -> (e: ProtocolError)
    ensures
        e@ == protocol_error(error@),
{
    match error {
        AcpServerError::MalformedMessage(m) => ProtocolError::InvalidParams(m),
        AcpServerError::SessionNotFound(id) => ProtocolError::InvalidParams(id),
        AcpServerError::UnsupportedVersion { requested, .. } => ProtocolError::InvalidParams(
            requested,
        ),
        AcpServerError::MaxSessionsReached(n) => ProtocolError::InvalidParams(
            "maximum active sessions reached: ".to_owned().concat(
                decimal_text(n as u64).as_str(),
            ),
        ),
        other => ProtocolError::Internal(other),
    }
}

/// The client is told of a fault of its request in the words for it, and of any
/// other as the server's.
pub proof fn law_whose_fault_it_is(error: AcpErrorView)
    ensures
        match error {
            AcpErrorView::MalformedMessage(m) => protocol_error(error)
                == ProtocolErrorView::InvalidParams(m),
            AcpErrorView::SessionNotFound(id) => protocol_error(error)
                == ProtocolErrorView::InvalidParams(id),
            AcpErrorView::UnsupportedVersion { requested, supported } => protocol_error(error)
                == ProtocolErrorView::InvalidParams(requested),
            AcpErrorView::MaxSessionsReached(n) => protocol_error(error)
                == ProtocolErrorView::InvalidParams(
                "maximum active sessions reached: "@ + decimal(n),
            ),
            AcpErrorView::Internal(_) | AcpErrorView::Execution(_) | AcpErrorView::Transport(_)
            | AcpErrorView::ShuttingDown => protocol_error(error) == ProtocolErrorView::Internal(
                error,
            ),
        },
{
}

/// An outcome is a success exactly where the result is, and hands its value or
/// its error on.
pub proof fn law_an_outcome_is_the_result<T>(
    r: Result<T, AcpServerError>,
    message: Seq<char>,
)
    ensures
        match r {
            Ok(v) => outcome(r) == Ok::<T, AcpErrorView>(v),
            Err(e) => outcome(r) == Err::<T, AcpErrorView>(e@),
        },
        malformed::<T>(message) == Err::<T, AcpErrorView>(AcpErrorView::MalformedMessage(message)),
{
}

} // verus!
