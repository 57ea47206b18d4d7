//! How requests of the protocol are answered.

use crate::acp::error::{protocol_error, to_protocol_error, AcpServerError, ProtocolError};
use crate::text::{empty_text, opt_text};
use vstd::prelude::*;

verus! {

/// A version of the protocol.
#[derive(Clone, Copy, Debug, PartialEq, Eq, Structural)]
pub enum ProtocolVersion {
    V1,
    Other,
}

/// What the server says of itself.
pub struct Introduction {
    pub version: ProtocolVersion,
    pub name: String,
    pub title: Option<String>,
}

/// Introduces the server: the one version it speaks, whatever the client asked
/// for, its name, and its title where it has one.
pub fn introduce(_requested: ProtocolVersion, name: String, title: String) -> (i: Introduction)
    ensures
        i.version == ProtocolVersion::V1,
        i.name@ == name@,
        opt_text(i.title) == (if title@.len() == 0 {
            None
        } else {
            Some(title@)
        }),
{
    Introduction {
        version: ProtocolVersion::V1,
        name,
        title: if empty_text(title.as_str()) {
            None
        } else {
            Some(title)
        },
    }
}

/// The requests of the protocol.
#[derive(Clone, Copy, Debug, PartialEq, Eq, Structural)]
pub enum RequestKind {
    Initialize,
    NewSession,
    LoadSession,
    ResumeSession,
    ForkSession,
    CloseSession,
    DeleteSession,
    ListSessions,
    Prompt,
    SetMode,
    SetConfigOption,
}

/// The request makes a session active.
pub open spec fn activates(kind: RequestKind) -> bool {
    kind is NewSession || kind is LoadSession || kind is ResumeSession || kind is ForkSession
}

/// What follows a request that has been served: whether the client is told
/// about the session's commands and title, whether the answer shows modes, and
/// whether it shows options.
#[derive(Clone, Copy, Debug)]
pub struct FollowUp {
    pub announce: bool,
    pub modes: bool,
    pub options: bool,
}

/// What follows a request that succeeded.
pub open spec fn follow_up(kind: RequestKind) -> FollowUp {
    FollowUp {
        announce: activates(kind),
        modes: activates(kind),
        options: activates(kind) || kind is SetConfigOption,
    }
}

/// Decides how a request is answered: what follows it where it succeeded, or
/// else the error for the client.
pub fn answer(kind: RequestKind, result: Result<(), AcpServerError>) -> (r: Result<
    FollowUp,
    ProtocolError,
>)
    ensures
        match result {
            Ok(()) => r == Ok::<FollowUp, ProtocolError>(follow_up(kind)),
            Err(e) => r matches Err(error) && error@ == protocol_error(e@),
        },
{
    match result {
        Err(e) => Err(to_protocol_error(e)),
        Ok(()) => {
            let active: bool = match kind {
                RequestKind::NewSession | RequestKind::LoadSession | RequestKind::ResumeSession
                | RequestKind::ForkSession => true,
                _ => false,
            };
            let options: bool = match kind {
                RequestKind::SetConfigOption => true,
                _ => active,
            };
            Ok(FollowUp { announce: active, modes: active, options })
        },
    }
}

/// A session that a request has made active is announced and shown with its
/// modes and options; an option that was set is shown with the others. Nothing
/// follows any other request.
pub proof fn law_what_follows_a_request(kind: RequestKind)
    ensures
        match kind {
            RequestKind::NewSession | RequestKind::LoadSession | RequestKind::ResumeSession
            | RequestKind::ForkSession => follow_up(kind) == (FollowUp {
                announce: true,
                modes: true,
                options: true,
            }),
            RequestKind::SetConfigOption => follow_up(kind) == (FollowUp {
                announce: false,
                modes: false,
                options: true,
            }),
            RequestKind::Initialize | RequestKind::CloseSession | RequestKind::DeleteSession
            | RequestKind::ListSessions | RequestKind::Prompt | RequestKind::SetMode => {
                follow_up(kind) == (FollowUp { announce: false, modes: false, options: false })
            },
        },
{
}

/// The server gives its own name, and its title where it has one. It speaks the
/// same version with every client.
pub proof fn law_how_the_server_introduces_itself(
    requested: ProtocolVersion,
    name: String,
    title: String,
    i: Introduction,
)
    requires
        call_ensures(introduce, (requested, name, title), i),
    ensures
        i.version == ProtocolVersion::V1,
        i.name@ == name@,
        title@.len() == 0 ==> i.title is None,
        title@.len() > 0 ==> (i.title matches Some(t) && t@ == title@),
{
}

} // verus!
