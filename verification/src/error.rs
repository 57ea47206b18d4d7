//! The errors that the model clients report.

use crate::text::opt_text;
use vstd::prelude::*;

verus! {

/// The part of the system that an error comes from.
#[derive(Clone, Copy, Debug, PartialEq, Eq, Structural)]
pub enum ErrorComponent {
    Model,
}

/// What kind of failure an error is.
#[derive(Clone, Copy, Debug, PartialEq, Eq, Structural)]
pub enum ErrorCategory {
    InvalidInput,
    Unauthorized,
    Forbidden,
    NotFound,
    RateLimited,
    Timeout,
    Unavailable,
    Internal,
}

/// An error with a category and a code, or a plain one of the model component.
#[derive(Debug)]
pub enum AdkError {
    Model { message: String },
    Coded {
        component: ErrorComponent,
        category: ErrorCategory,
        code: String,
        message: String,
        provider: Option<String>,
        upstream_status: Option<u16>,
        /// Whether the error itself says that the call may be tried again.
        should_retry: Option<bool>,
    },
}

#[verifier::ext_equal]
pub enum ErrorView {
    Model { message: Seq<char> },
    Coded {
        component: ErrorComponent,
        category: ErrorCategory,
        code: Seq<char>,
        message: Seq<char>,
        provider: Option<Seq<char>>,
        upstream_status: Option<u16>,
        should_retry: Option<bool>,
    },
}

impl View for AdkError {
    type V = ErrorView;

    open spec fn view(&self) -> ErrorView {
        match *self {
            AdkError::Model { message } => ErrorView::Model { message: message@ },
            AdkError::Coded {
                component,
                category,
                code,
                message,
                provider,
                upstream_status,
                should_retry,
            } => ErrorView::Coded {
                component,
                category,
                code: code@,
                message: message@,
                provider: opt_text(provider),
                upstream_status,
                should_retry,
            },
        }
    }
}

impl ErrorView {
    /// The text that the error carries.
    pub open spec fn message(self) -> Seq<char> {
        match self {
            ErrorView::Model { message } => message,
            ErrorView::Coded { message, .. } => message,
        }
    }
}

impl AdkError {
    /// The text that the error carries.
    pub fn message(&self) -> (m: &String)
        ensures
            m@ == self@.message(),
    {
        match self {
            AdkError::Model { message } => message,
            AdkError::Coded { message, .. } => message,
        }
    }
}

} // verus!
