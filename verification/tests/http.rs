use agent_bridge::error::{AdkError, ErrorCategory, ErrorComponent};
use agent_bridge::http::{api_error, error_category, stream_error, succeeded};

#[test]
fn statuses_have_categories() {
    let expected = [
        (400, ErrorCategory::InvalidInput),
        (401, ErrorCategory::Unauthorized),
        (403, ErrorCategory::Forbidden),
        (404, ErrorCategory::NotFound),
        (408, ErrorCategory::Timeout),
        (422, ErrorCategory::InvalidInput),
        (429, ErrorCategory::RateLimited),
        (500, ErrorCategory::Internal),
        (502, ErrorCategory::Internal),
        (503, ErrorCategory::Unavailable),
        (529, ErrorCategory::Unavailable),
        (304, ErrorCategory::InvalidInput),
    ];
    for (status, category) in expected {
        assert_eq!(error_category(status), category);
        assert!(!succeeded(status));
    }
    assert!(succeeded(200) && succeeded(299));
    assert!(!succeeded(199) && !succeeded(300));
}

#[test]
fn an_api_error_names_the_provider_and_the_status() {
    match api_error("P", "p", "c.ode", 429, "429 Too Many Requests", "slow down") {
        AdkError::Coded { component, category, code, message, provider, upstream_status, should_retry } => {
            assert_eq!(component, ErrorComponent::Model);
            assert_eq!(category, ErrorCategory::RateLimited);
            assert_eq!(code, "c.ode");
            assert_eq!(message, "P API error (HTTP 429 Too Many Requests): slow down");
            assert_eq!(provider.as_deref(), Some("p"));
            assert_eq!(upstream_status, Some(429));
            assert_eq!(should_retry, None);
        }
        other => panic!("{other:?}"),
    }
    assert_eq!(stream_error("reset").message(), "stream read error: reset");
}
