//! The span an outbound HTTP request opens.
//!
//! A failed request's own error carries the full URL, path and query, and the
//! target below is force-allowed past the caller's allow-list. So the span
//! records the method, the host and the status, and nothing that can carry a
//! path, a query or an error string.

use vstd::prelude::*;

verus! {

/// The target of the span below. Force-allowed by [`crate::allow::allowed`].
pub const TARGET: &'static str = "telemetry::client";

/// The text of [`TARGET`].
pub open spec fn client_target() -> Seq<char> {
    TARGET@
}

/// What a span records when its request starts.
#[derive(Debug)]
pub struct ClientSpan {
    /// The `otel.kind` of the span.
    pub kind: &'static str,
    /// The `otel.name` of the span: the method.
    pub name: String,
    /// `http.request.method`.
    pub method: String,
    /// `server.address`, empty where the URL names no host.
    pub server_address: String,
    /// `server.port`, zero where neither the URL nor its scheme gives one.
    pub server_port: i64,
}

/// How an outbound request ended.
pub enum RequestOutcome {
    /// A response arrived, with this status.
    Answered(u16),
    /// The request failed; the failure may still know a status.
    Failed { status: Option<u16> },
}

/// What a span records when its request ends.
#[derive(Clone, Copy, Debug, PartialEq, Eq)]
pub struct SpanEnd {
    /// `http.response.status_code`, where there is one.
    pub status_code: Option<u16>,
    /// Whether `otel.status_code` is `ERROR`.
    pub error: bool,
}

/// An HTTP status of the 5xx class.
pub open spec fn server_error(status: u16) -> bool {
    500 <= status < 600
}

/// The backend of the crate's own outbound client.
pub struct HouseholdSpanBackend;

impl HouseholdSpanBackend {
    /// The span of a request that is about to be sent, from its method and from
    /// the host and port of its URL alone.
    pub fn on_request_start(method: &str, host: Option<&str>, port: Option<u16>) -> (span:
        ClientSpan)
        ensures
            span.kind@ == "client"@,
            span.name@ == method@,
            span.method@ == method@,
            span.server_address@ == (match host {
                Some(host) => host@,
                None => Seq::<char>::empty(),
            }),
            span.server_port == (match port {
                Some(port) => port as int,
                None => 0,
            }),
    {
        let server_address: String = match host {
            Some(host) => host.to_owned(),
            None => String::new(),
        };
        let server_port: i64 = match port {
            Some(port) => port as i64,
            None => 0,
        };
        ClientSpan {
            kind: "client",
            name: method.to_owned(),
            method: method.to_owned(),
            server_address,
            server_port,
        }
    }

    /// What is recorded at the end: the status wherever there is one, and an error
    /// where the server failed or no response came. Nothing of the error itself.
    pub fn on_request_end(outcome: &RequestOutcome) -> (end: SpanEnd)
        ensures
            end.status_code == (match *outcome {
                RequestOutcome::Answered(status) => Some(status),
                RequestOutcome::Failed { status } => status,
            }),
            end.error == (match *outcome {
                RequestOutcome::Answered(status) => server_error(status),
                RequestOutcome::Failed { .. } => true,
            }),
    {
        match outcome {
            RequestOutcome::Answered(status) => SpanEnd {
                status_code: Some(*status),
                error: 500 <= *status && *status < 600,
            },
            RequestOutcome::Failed { status } => SpanEnd { status_code: *status, error: true },
        }
    }
}

/// A server error is a status of the five hundreds, and no other.
pub proof fn a_server_error_is_a_five_hundred(status: u16)
    ensures
        server_error(status) <==> status / 100 == 5,
        client_target() == "telemetry::client"@,
{
}

} // verus!
