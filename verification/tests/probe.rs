use std::error::Error;
use std::io;
use std::time::Duration;

use opentelemetry_proto::tonic::collector::logs::v1::ExportLogsServiceRequest;
use opentelemetry_proto::tonic::common::v1::any_value::Value;
use opentelemetry_proto::tonic::common::v1::AnyValue;
use opentelemetry_proto::tonic::logs::v1::SeverityNumber;
use opentelemetry_semantic_conventions::resource::SERVICE_NAME;
use prost::Message;
use telemetry::bearer::HeaderClient;
use telemetry::exporter::{build_providers, Credential, TimeoutVariables};
use telemetry::headers::Headers;
use telemetry::probe::{
    classify, is_tls, request, Cause, ProbeEvent, ProbeStep, SendError, CHAIN_DEPTH,
};
use telemetry::{probe, Exporter, ProbeError};

fn to(endpoint: String) -> Exporter {
    Exporter { endpoint, headers_helper: None }
}

fn unset() -> TimeoutVariables {
    TimeoutVariables { logs: None, traces: None, general: None }
}

/// The chain of `error`, as deep as a probe looks into it.
fn cause(error: &(dyn Error + 'static), depth: usize) -> Cause {
    let inner = error.downcast_ref::<io::Error>().and_then(io::Error::get_ref);
    let deeper = |next: &(dyn Error + 'static)| Box::new(cause(next, depth - 1));
    Cause {
        rustls: error.is::<rustls::Error>(),
        payload: if depth == 0 { None } else { inner.map(|next| deeper(next)) },
        source: if depth == 0 { None } else { error.source().map(deeper) },
    }
}

/// One real POST, as a probe asks for it.
fn post(url: &str, client: &HeaderClient, body: Vec<u8>) -> ProbeEvent {
    let _ = rustls::crypto::ring::default_provider().install_default();
    let built = reqwest::blocking::Client::builder()
        .timeout(Duration::from_millis(client.timeout_millis()))
        .build();
    let Ok(inner) = built else { return ProbeEvent::NoClient };
    let mut sending = inner.post(url);
    for header in client.post_headers() {
        sending = sending.header(header.name, header.value);
    }
    match sending.body(body).send() {
        Ok(response) => ProbeEvent::Answered(response.status().as_u16()),
        Err(error) => ProbeEvent::Failed(SendError {
            timeout: error.is_timeout(),
            connect: error.is_connect(),
            cause: cause(&error, CHAIN_DEPTH),
        }),
    }
}

/// A whole probe of an exporter that names no helper.
fn run(exporter: &Exporter) -> Result<(), ProbeError> {
    let mut event = ProbeEvent::Asked;
    loop {
        event = match probe(exporter, event) {
            ProbeStep::Authenticate(Credential::Ready(headers)) => ProbeEvent::Authenticated {
                answer: Ok(headers),
                timeouts: unset(),
                since_epoch_nanos: Some(1_700_000_000_000_000_000),
            },
            ProbeStep::Authenticate(Credential::Run { .. }) => panic!("no helper is named"),
            ProbeStep::Post { url, client, body } => post(&url, &client, body),
            ProbeStep::Done(outcome) => return outcome,
        };
    }
}

fn outcome(event: ProbeEvent) -> Result<(), ProbeError> {
    match probe(&to("http://h".to_owned()), event) {
        ProbeStep::Done(outcome) => outcome,
        _ => panic!("the probe is done"),
    }
}

fn link(rustls: bool) -> Cause {
    Cause { rustls, payload: None, source: None }
}

#[test]
fn a_refused_port_is_a_connect_failure_that_names_no_url() {
    // Port 1 on loopback refuses immediately; nothing leaves the host.
    let error = run(&to("http://127.0.0.1:1/library".to_owned()))
        .expect_err("port 1 refuses a connection");
    assert_eq!(error, ProbeError::Connect);

    let rendered = format!("{} {error:?}", error.to_string());
    for forbidden in ["127.0.0.1", "http", "library", "v1/logs"] {
        assert!(!rendered.contains(forbidden), "{forbidden} in {rendered}");
    }
}

#[test]
fn a_collector_that_answers_two_hundred_is_reachable() {
    assert_eq!(outcome(ProbeEvent::Answered(200)), Ok(()));
}

#[test]
fn any_2xx_is_accepted_and_everything_else_is_a_status() {
    for status in [200, 202, 204, 299] {
        assert_eq!(outcome(ProbeEvent::Answered(status)), Ok(()));
    }
    for status in [100, 199, 300, 401, 404, 500] {
        assert_eq!(outcome(ProbeEvent::Answered(status)), Err(ProbeError::Status(status)));
    }
}

/// TLS is a class of its own only because rustls' own error is found in the cause
/// chain; the transport reports a failed handshake as a connect error.
#[test]
fn a_plaintext_listener_behind_https_is_a_tls_failure() {
    let inner = io::Error::new(
        io::ErrorKind::InvalidData,
        rustls::Error::HandshakeNotComplete,
    );
    let outer = io::Error::new(io::ErrorKind::Other, inner);
    let error = SendError { timeout: false, connect: true, cause: cause(&outer, CHAIN_DEPTH) };
    assert_eq!(outcome(ProbeEvent::Failed(error)), Err(ProbeError::Tls));
}

#[test]
fn a_failure_has_one_class() {
    for (timeout, connect, rustls, class) in [
        (true, true, true, ProbeError::Timeout),
        (true, false, false, ProbeError::Timeout),
        (false, true, true, ProbeError::Tls),
        (false, false, true, ProbeError::Tls),
        (false, true, false, ProbeError::Connect),
        (false, false, false, ProbeError::Transport),
    ] {
        assert_eq!(classify(&SendError { timeout, connect, cause: link(rustls) }), class);
    }
}

#[test]
fn the_chain_is_searched_to_its_bound() {
    for (depth, found) in [(0, true), (1, true), (7, true), (8, false), (20, false)] {
        let mut chain = link(true);
        for i in 0..depth {
            let next = Some(Box::new(chain));
            chain = if i % 2 == 0 {
                Cause { rustls: false, payload: None, source: next }
            } else {
                Cause { rustls: false, payload: next, source: None }
            };
        }
        assert_eq!(is_tls(&chain), found, "{depth}");
    }
}

#[test]
fn a_payload_is_followed_before_a_source() {
    let both = |payload, source| Cause {
        rustls: false,
        payload: Some(Box::new(link(payload))),
        source: Some(Box::new(link(source))),
    };
    assert!(is_tls(&both(true, false)));
    assert!(!is_tls(&both(false, true)));
}

#[test]
fn a_helper_that_fails_sends_nothing() {
    let event = ProbeEvent::Authenticated {
        answer: Err("the header helper exited non-zero"),
        timeouts: unset(),
        since_epoch_nanos: None,
    };
    assert_eq!(outcome(event), Err(ProbeError::Helper));
    assert_eq!(outcome(ProbeEvent::NoClient), Err(ProbeError::Transport));
}

#[test]
fn a_helper_is_run_before_anything_is_sent() {
    let exporter = Exporter {
        endpoint: "http://h".to_owned(),
        headers_helper: Some("signet headers".to_owned()),
    };
    match probe(&exporter, ProbeEvent::Asked) {
        ProbeStep::Authenticate(Credential::Run { command, .. }) => {
            assert_eq!(command, "signet headers")
        }
        _ => panic!("the helper runs first"),
    }
}

#[test]
fn the_record_carries_a_service_name_and_nothing_of_the_callers() {
    let rendered = format!("{:?}", request(Some(5)));
    assert!(rendered.contains("telemetry probe"), "{rendered}");
    assert!(rendered.contains(SERVICE_NAME), "{rendered}");
}

#[test]
fn a_clock_before_the_epoch_records_zero() {
    assert_eq!(request(None).time_unix_nano, 0);
    assert_eq!(request(Some(1_700_000_000_000_000_000)).time_unix_nano, 1_700_000_000_000_000_000);
    assert_eq!(request(Some((1 << 64) + 3)).observed_time_unix_nano, 3);
}

#[test]
fn the_body_is_one_info_record_of_this_service() {
    let exporter = to("http://h/base/".to_owned());
    let headers = Headers::of(vec![("Authorization".to_owned(), "Bearer test".to_owned())]);
    let event = ProbeEvent::Authenticated {
        answer: Ok(headers),
        timeouts: TimeoutVariables { logs: Some("300".to_owned()), traces: None, general: None },
        since_epoch_nanos: Some(42),
    };
    let ProbeStep::Post { url, client, body } = probe(&exporter, event) else {
        panic!("the record is sent")
    };
    assert_eq!(url, "http://h/base/v1/logs");
    assert_eq!(client.timeout_millis(), 300);
    assert_eq!(client.post_headers().len(), 2);

    let decoded = ExportLogsServiceRequest::decode(body.as_slice()).expect("protobuf");
    let text = |value: &str| Some(AnyValue { value: Some(Value::StringValue(value.to_owned())) });
    let logs = &decoded.resource_logs[0];
    let attributes = &logs.resource.as_ref().expect("a resource").attributes;
    assert_eq!(attributes.len(), 1);
    assert_eq!(attributes[0].key, SERVICE_NAME);
    assert_eq!(attributes[0].value, text("telemetry"));
    let record = &logs.scope_logs[0].log_records[0];
    assert_eq!(record.time_unix_nano, 42);
    assert_eq!(record.observed_time_unix_nano, 42);
    assert_eq!(record.severity_number, SeverityNumber::Info as i32);
    assert_eq!(record.severity_text, "INFO");
    assert_eq!(record.body, text("telemetry probe"));
    assert!(record.attributes.is_empty());
    assert_eq!(decoded.resource_logs.len(), 1);
}

#[test]
fn every_error_says_its_class() {
    for (error, text) in [
        (ProbeError::Helper, "the header helper failed"),
        (ProbeError::Connect, "nothing answered at the endpoint"),
        (ProbeError::Tls, "the TLS handshake failed"),
        (ProbeError::Timeout, "the collector did not answer in time"),
        (ProbeError::Transport, "the request could not be sent"),
        (ProbeError::Status(0), "the collector answered 0"),
        (ProbeError::Status(401), "the collector answered 401"),
        (ProbeError::Status(65535), "the collector answered 65535"),
    ] {
        assert_eq!(error.to_string(), text);
    }
}

#[test]
fn two_probes_at_one_time_send_the_same_record_to_where_the_export_goes() {
    let posted = |endpoint: &str, headers: Headers| {
        let event = ProbeEvent::Authenticated {
            answer: Ok(headers),
            timeouts: unset(),
            since_epoch_nanos: Some(7),
        };
        match probe(&to(endpoint.to_owned()), event) {
            ProbeStep::Post { url, client, body } => (url, client.debug_text(), body),
            _ => panic!("the record is sent"),
        }
    };
    let headers = || Headers::of(vec![("A".to_owned(), "1".to_owned())]);
    let (url, rendered, body) = posted("http://one/", headers());
    let (_, _, other) = posted("http://two/private", Headers::new());
    assert_eq!(body, other);
    let plan = build_providers("s", "1", &headers(), Some("http://one/"), &unset()).expect("built");
    assert_eq!(plan.logs.endpoint, Some(url));
    assert_eq!(plan.logs.client.debug_text(), rendered);
}
