//! What the status of an HTTP response means to a model client.

use crate::error::{AdkError, ErrorCategory, ErrorComponent, ErrorView};
use vstd::prelude::*;
use vstd::string::*;

verus! {

/// The request was served.
pub open spec fn is_success(status: u16) -> bool {
    200 <= status < 300
}

/// The kind of failure that a status stands for.
pub open spec fn category_of(status: u16) -> ErrorCategory {
    if status == 401 {
        ErrorCategory::Unauthorized
    } else if status == 403 {
        ErrorCategory::Forbidden
    } else if status == 404 {
        ErrorCategory::NotFound
    } else if status == 408 {
        ErrorCategory::Timeout
    } else if status == 429 {
        ErrorCategory::RateLimited
    } else if status == 503 || status == 529 {
        ErrorCategory::Unavailable
    } else if status >= 500 {
        ErrorCategory::Internal
    } else {
        ErrorCategory::InvalidInput
    }
}

/// An error of a provider.
pub open spec fn provider_error(
    category: ErrorCategory,
    code: Seq<char>,
    message: Seq<char>,
    provider: Seq<char>,
    status: Option<u16>,
) -> ErrorView {
    ErrorView::Coded {
        component: ErrorComponent::Model,
        category,
        code,
        message,
        provider: Some(provider),
        upstream_status: status,
        should_retry: None,
    }
}

/// Tells whether the request was served.
pub fn succeeded(status: u16) -> (b: bool)
    ensures
        b == is_success(status),
{
    200 <= status && status < 300
}

/// The kind of failure that a status stands for.
pub fn error_category(status: u16) -> (c: ErrorCategory)
    ensures
        c == category_of(status),
{
    match status {
        401 => ErrorCategory::Unauthorized,
        403 => ErrorCategory::Forbidden,
        404 => ErrorCategory::NotFound,
        408 => ErrorCategory::Timeout,
        429 => ErrorCategory::RateLimited,
        503 | 529 => ErrorCategory::Unavailable,
        _ => if status >= 500 {
            ErrorCategory::Internal
        } else {
            ErrorCategory::InvalidInput
        },
    }
}

/// An error of a provider.
pub fn coded(
    category: ErrorCategory,
    code: &str,
    message: String,
    provider: &str,
    status: Option<u16>,
) -> (e: AdkError)
    ensures
        e@ == provider_error(category, code@, message@, provider@, status),
{
    AdkError::Coded {
        component: ErrorComponent::Model,
        category,
        code: code.to_owned(),
        message,
        provider: Some(provider.to_owned()),
        upstream_status: status,
        should_retry: None,
    }
}

/// The error of a provider that answered with that status. `label` is what the
/// provider is called in the message, `reason` is the status in words, and
/// `body` what the provider said.
pub fn api_error(
    label: &str,
    provider: &str,
    code: &str,
    status: u16,
    reason: &str,
    body: &str,
) -> (e: AdkError)
    ensures
        e@ == provider_error(
            category_of(status),
            code@,
            label@ + " API error (HTTP "@ + reason@ + "): "@ + body@,
            provider@,
            Some(status),
        ),
{
    let message: String = label.to_owned().concat(" API error (HTTP ").concat(reason).concat(
        "): ",
    ).concat(body);
    coded(error_category(status), code, message, provider, Some(status))
}

/// An error of the model component without a code: what was done, and the
/// words of what went wrong.
pub fn plain_error(doing: &str, text: &str) -> (e: AdkError)
    ensures
        e@ == (ErrorView::Model { message: doing@ + text@ }),
{
    AdkError::Model { message: doing.to_owned().concat(text) }
}

/// The bytes of a stream could not be read on.
pub fn stream_error(text: &str) -> (e: AdkError)
    ensures
        e@ == (ErrorView::Model { message: "stream read error: "@ + text@ }),
{
    plain_error("stream read error: ", text)
}

/// A request was served exactly where the status is one of the two hundreds.
/// Each failure that can be told apart has a category of its own, and no other
/// status has that; the rest is the server's fault from five hundred on, and
/// the request's below.
pub proof fn law_what_a_status_stands_for(status: u16)
    ensures
        is_success(status) <==> status / 100 == 2,
        category_of(status) == ErrorCategory::Unauthorized <==> status == 401,
        category_of(status) == ErrorCategory::Forbidden <==> status == 403,
        category_of(status) == ErrorCategory::NotFound <==> status == 404,
        category_of(status) == ErrorCategory::Timeout <==> status == 408,
        category_of(status) == ErrorCategory::RateLimited <==> status == 429,
        category_of(status) == ErrorCategory::Unavailable <==> status == 503 || status == 529,
        category_of(status) == ErrorCategory::Internal <==> status >= 500 && status != 503
            && status != 529,
        category_of(status) == ErrorCategory::InvalidInput <==> status < 500 && status != 401
            && status != 403 && status != 404 && status != 408 && status != 429,
{
}

/// An error of a provider says what it was told, and leaves it open whether to
/// try again.
pub proof fn law_what_a_provider_error_says(
    category: ErrorCategory,
    code: Seq<char>,
    message: Seq<char>,
    provider: Seq<char>,
    status: Option<u16>,
)
    ensures
        provider_error(category, code, message, provider, status) == (ErrorView::Coded {
            component: ErrorComponent::Model,
            category,
            code,
            message,
            provider: Some(provider),
            upstream_status: status,
            should_retry: None,
        }),
        provider_error(category, code, message, provider, status).message() == message,
{
}

} // verus!
