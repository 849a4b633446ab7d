use telemetry::allow::allowed;
use telemetry::client::{HouseholdSpanBackend, RequestOutcome, SpanEnd, TARGET};

/// The client span must carry no path, no query and no error string, because its
/// target is force-allowed past the caller's allow-list.
#[test]
fn a_failed_request_records_no_url_and_no_error_fields() {
    assert!(allowed(TARGET, &[]), "the client span is exported");
    let url = reqwest::Url::parse("http://127.0.0.1:1/library/search?q=secret-term&t=token")
        .expect("a URL");
    let span =
        HouseholdSpanBackend::on_request_start("GET", url.host_str(), url.port_or_known_default());
    let end = HouseholdSpanBackend::on_request_end(&RequestOutcome::Failed { status: None });
    let rendered = format!("{span:?} {end:?}");
    for forbidden in ["secret-term", "search", "library", "token", "error."] {
        assert!(!rendered.contains(forbidden), "{forbidden} in {rendered}");
    }
    assert_eq!(span.server_address, "127.0.0.1");
    assert_eq!(span.server_port, 1);
    assert_eq!(span.kind, "client");
    assert_eq!(span.name, "GET");
    assert_eq!(span.method, "GET");
    assert_eq!(end, SpanEnd { status_code: None, error: true });
}

#[test]
fn a_url_without_host_or_port_records_defaults() {
    let span = HouseholdSpanBackend::on_request_start("POST", None, None);
    assert_eq!(span.server_address, "");
    assert_eq!(span.server_port, 0);
}

#[test]
fn only_a_server_error_marks_an_answer() {
    for (status, error) in [(200, false), (404, false), (499, false), (500, true), (599, true), (600, false)] {
        assert_eq!(
            HouseholdSpanBackend::on_request_end(&RequestOutcome::Answered(status)),
            SpanEnd { status_code: Some(status), error }
        );
        let outside = http::StatusCode::from_u16(status).expect("a status");
        assert_eq!(outside.is_server_error(), error);
    }
}

#[test]
fn a_failure_keeps_the_status_it_knows() {
    assert_eq!(
        HouseholdSpanBackend::on_request_end(&RequestOutcome::Failed { status: Some(502) }),
        SpanEnd { status_code: Some(502), error: true }
    );
}
