use telemetry::bearer::HELPER_BUDGET_MILLIS;
use telemetry::exporter::{
    build_providers, headers_for, plan, signal_url, Credential, Plan, Providers, TimeoutVariables,
};
use telemetry::headers::Headers;
use telemetry::Exporter;

fn unset() -> TimeoutVariables {
    TimeoutVariables { logs: None, traces: None, general: None }
}

fn bound(pairs: &[(&str, &str)]) -> Headers {
    Headers::of(pairs.iter().map(|(n, v)| (n.to_string(), v.to_string())).collect())
}

#[test]
fn a_signal_path_is_appended_to_the_endpoint_however_it_ends() {
    assert_eq!(
        signal_url("https://otlp.example/", "/v1/logs"),
        "https://otlp.example/v1/logs"
    );
    assert_eq!(
        signal_url("https://otlp.example", "/v1/logs"),
        "https://otlp.example/v1/logs"
    );
}

#[test]
fn trailing_slashes_make_no_difference() {
    assert_eq!(signal_url("http://h/a//", "/v1/traces"), "http://h/a/v1/traces");
    assert_eq!(signal_url("http://h/a", "/v1/traces"), "http://h/a/v1/traces");
    assert_eq!(signal_url("/", "/v1/logs"), "/v1/logs");
    assert_eq!(signal_url("", "/v1/logs"), "/v1/logs");
}

#[test]
fn no_endpoint_means_stderr_only() {
    assert!(matches!(plan(None), Plan::LocalOnly { .. }));
    assert_eq!(Exporter::from_env(None, None), None);
    assert_eq!(Exporter::from_env(None, Some("printf '{}'".to_owned())), None);
}

#[test]
fn a_helper_that_fails_means_stderr_only() {
    let exporter = Exporter::from_env(
        Some("http://127.0.0.1:9/".to_owned()),
        Some("exit 3".to_owned()),
    )
    .expect("the endpoint is set");
    match headers_for(&exporter) {
        Credential::Run { command, budget_millis } => {
            assert_eq!(command, "exit 3");
            assert_eq!(budget_millis, HELPER_BUDGET_MILLIS);
        }
        Credential::Ready(_) => panic!("the helper has to run"),
    }
    match plan(Some(Err("the header helper exited non-zero"))) {
        Plan::LocalOnly { why } => assert_eq!(why, "the header helper exited non-zero"),
        Plan::Otlp(_) => panic!("the helper failed"),
    }
}

#[test]
fn an_unset_endpoint_is_named() {
    match plan(None) {
        Plan::LocalOnly { why } => assert_eq!(why, "OTEL_EXPORTER_OTLP_ENDPOINT is unset"),
        Plan::Otlp(_) => panic!("nothing was set"),
    }
}

#[test]
fn headers_that_came_are_the_plans() {
    match plan(Some(Ok(bound(&[("Authorization", "Bearer test")])))) {
        Plan::Otlp(headers) => assert_eq!(headers.len(), 1),
        Plan::LocalOnly { .. } => panic!("the helper succeeded"),
    }
}

#[test]
fn an_exporter_without_a_helper_needs_no_headers() {
    let exporter = Exporter { endpoint: "http://h".to_owned(), headers_helper: None };
    match headers_for(&exporter) {
        Credential::Ready(headers) => assert_eq!(headers.len(), 0),
        Credential::Run { .. } => panic!("there is nothing to run"),
    }
}

#[test]
fn a_blank_endpoint_builds_nothing() {
    for endpoint in ["", " ", "\t\n"] {
        assert!(build_providers("s", "1", &bound(&[]), Some(endpoint), &unset()).is_none());
    }
}

#[test]
fn a_panes_endpoint_is_joined_for_both_signals() {
    let timeouts = TimeoutVariables {
        logs: Some(" 250 ".to_owned()),
        traces: Some("soon".to_owned()),
        general: Some("4000".to_owned()),
    };
    let headers = bound(&[("Authorization", "Bearer test"), ("bad name", "x")]);
    let plan = build_providers("svc", "1.2", &headers, Some("http://h/"), &timeouts)
        .expect("the endpoint is not blank");
    assert_eq!(
        plan.resource,
        vec![
            ("service.name".to_owned(), "svc".to_owned()),
            ("service.version".to_owned(), "1.2".to_owned()),
        ]
    );
    assert_eq!(plan.logs.endpoint.as_deref(), Some("http://h/v1/logs"));
    assert_eq!(plan.traces.endpoint.as_deref(), Some("http://h/v1/traces"));
    assert_eq!(plan.logs.client.timeout_millis(), 250);
    assert_eq!(plan.traces.client.timeout_millis(), 4000);
    assert_eq!(plan.logs.client.debug_text(), "HeaderClient { headers: 1 }");
}

#[test]
fn the_environments_endpoint_is_left_to_the_sdk() {
    let plan = build_providers("svc", "1", &bound(&[]), None, &unset()).expect("always");
    assert_eq!(plan.logs.endpoint, None);
    assert_eq!(plan.traces.endpoint, None);
    assert_eq!(plan.logs.client.timeout_millis(), 10_000);
}

#[test]
fn providers_come_in_pairs() {
    assert!(Providers::both(Some(1), Some(2)).is_some());
    assert!(Providers::both(Some(1), None::<u8>).is_none());
    assert!(Providers::both(None::<u8>, Some(2)).is_none());
}

#[test]
fn the_sdks_names_are_the_conventions() {
    let plan = build_providers("svc", "1", &bound(&[]), None, &unset()).expect("always");
    assert_eq!(plan.resource[0].0, opentelemetry_semantic_conventions::resource::SERVICE_NAME);
    assert_eq!(plan.resource[1].0, opentelemetry_semantic_conventions::resource::SERVICE_VERSION);
}

#[test]
fn one_slash_joins_as_the_sdk_does() {
    for (endpoint, joined) in [
        ("http://h:4318", "http://h:4318/v1/logs"),
        ("http://h:4318/", "http://h:4318/v1/logs"),
        ("http://h/base/", "http://h/base/v1/logs"),
    ] {
        assert_eq!(signal_url(endpoint, "/v1/logs"), joined);
    }
}
