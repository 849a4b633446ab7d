//! Proving a collector answers, before an application saves the endpoint.
//!
//! One OTLP/HTTP protobuf log record goes to `<endpoint>/v1/logs` with the same
//! headers the exporters use, so a probe that passes is evidence the export will.
//! The outcome is a class, never a message: a transport error's own text carries
//! the full URL, so nothing of it reaches [`ProbeError`].

use opentelemetry_proto::tonic::collector::logs::v1::ExportLogsServiceRequest;
use opentelemetry_proto::tonic::common::v1::any_value::Value::StringValue;
use opentelemetry_proto::tonic::common::v1::AnyValue;
use opentelemetry_proto::tonic::common::v1::KeyValue;
use opentelemetry_proto::tonic::logs::v1::LogRecord;
use opentelemetry_proto::tonic::logs::v1::ResourceLogs;
use opentelemetry_proto::tonic::logs::v1::ScopeLogs;
use opentelemetry_proto::tonic::resource::v1::Resource;
use prost::Message;
use vstd::prelude::*;
use vstd::string::*;

use crate::bearer::fields_of;
use crate::bearer::timeout;
use crate::bearer::transport_timeout;
use crate::bearer::variable_text;
use crate::bearer::HeaderClient;
use crate::exporter::an_address_is_the_endpoint_and_the_path;
use crate::exporter::credential_of;
use crate::exporter::headers_for;
use crate::exporter::joined;
use crate::exporter::same_credential;
use crate::exporter::service_name_key;
use crate::exporter::signal_url;
use crate::exporter::Credential;
use crate::exporter::Exporter;
use crate::exporter::TimeoutVariables;
use crate::exporter::LOGS_PATH;
use crate::guard::swap_step;
use crate::guard::Installed;
use crate::guard::SwapEvent;
use crate::guard::SwapStep;
use crate::headers::Headers;
use crate::text::blank;
use crate::text::decimal;
use crate::text::decimal_reads_back;
use crate::text::decimal_text;
use crate::text::number;
use crate::text::trimmed;

verus! {

// ---------------------------------------------------------------------------
// The class of a failure
// ---------------------------------------------------------------------------

/// How deep to look for rustls' own error before giving up and calling it a connect
/// failure: the chain to the handshake is three or four links, and a bound keeps a
/// cyclic chain from spinning.
pub const CHAIN_DEPTH: usize = 8;

/// Why a probe did not succeed. Each variant names a transport class or an HTTP
/// status and nothing else: no URL, no header value, no response body.
#[derive(Clone, Copy, Debug, PartialEq, Eq, Structural)]
pub enum ProbeError {
    /// The header helper did not produce headers, so nothing was sent.
    Helper,
    /// Nothing accepted a connection at the endpoint.
    Connect,
    /// The TLS handshake failed.
    Tls,
    /// The collector did not answer inside the OTLP timeout.
    Timeout,
    /// The request could not be sent for any other reason.
    Transport,
    /// The collector answered, and refused.
    Status(u16),
}

impl ProbeError {
    /// What the error says.
    pub open spec fn text(self) -> Seq<char> {
        match self {
            ProbeError::Helper => "the header helper failed"@,
            ProbeError::Connect => "nothing answered at the endpoint"@,
            ProbeError::Tls => "the TLS handshake failed"@,
            ProbeError::Timeout => "the collector did not answer in time"@,
            ProbeError::Transport => "the request could not be sent"@,
            ProbeError::Status(status) => "the collector answered "@ + decimal(status as nat),
        }
    }

    /// What the error says.
    pub fn to_string(&self) -> (text: String)
        ensures
            text@ == self.text(),
    {
        match self {
            ProbeError::Helper => "the header helper failed".to_owned(),
            ProbeError::Connect => "nothing answered at the endpoint".to_owned(),
            ProbeError::Tls => "the TLS handshake failed".to_owned(),
            ProbeError::Timeout => "the collector did not answer in time".to_owned(),
            ProbeError::Transport => "the request could not be sent".to_owned(),
            ProbeError::Status(status) => {
                let digits: String = decimal_text(*status as u64);
                "the collector answered ".to_owned().concat(digits.as_str())
            },
        }
    }
}

/// One link of an error's cause chain, and what it leads to.
pub struct Cause {
    /// Whether the link is rustls' own error.
    pub rustls: bool,
    /// What an I/O error wraps.
    pub payload: Option<Box<Cause>>,
    /// What the link gives as its source.
    pub source: Option<Box<Cause>>,
}

/// What follows a link. An I/O error gives its payload's source as its own and skips
/// the payload, so the payload comes first wherever there is one.
pub open spec fn next_cause(cause: Cause) -> Option<Cause> {
    match cause.payload {
        Some(inner) => Some(*inner),
        None => match cause.source {
            Some(source) => Some(*source),
            None => None,
        },
    }
}

/// Link number `n` of a chain, where the chain is that long.
pub open spec fn nth_cause(cause: Cause, n: nat) -> Option<Cause>
    decreases n,
{
    if n == 0 {
        Some(cause)
    } else {
        match nth_cause(cause, (n - 1) as nat) {
            Some(previous) => next_cause(previous),
            None => None,
        }
    }
}

/// Rustls' own error is among the first [`CHAIN_DEPTH`] links.
pub open spec fn tls_in_chain(cause: Cause) -> bool {
    exists|n: nat|
        n < CHAIN_DEPTH && (#[trigger] nth_cause(cause, n) matches Some(link) && link.rustls)
}

/// Look for rustls' own error in the cause chain.
pub fn is_tls(error: &Cause) -> (yes: bool)
    ensures
        yes == tls_in_chain(*error),
{
    let mut cause: Option<&Cause> = Some(error);
    for depth in 0..CHAIN_DEPTH
        invariant
            match cause {
                Some(current) => nth_cause(*error, depth as nat) == Some(*current),
                None => nth_cause(*error, depth as nat) is None,
            },
            forall|n: nat|
                n < depth ==> !(#[trigger] nth_cause(*error, n) matches Some(link) && link.rustls),
    {
        let current: &Cause = match cause {
            Some(current) => current,
            None => {
                proof {
                    assert forall|n: nat| n < CHAIN_DEPTH implies !(#[trigger] nth_cause(
                        *error,
                        n,
                    ) matches Some(link) && link.rustls) by {
                        if n >= depth {
                            chain_stays_ended(*error, depth as nat, n);
                        }
                    }
                }
                return false;
            },
        };
        if current.rustls {
            return true;
        }
        cause = match &current.payload {
            Some(inner) => Some(&**inner),
            None => match &current.source {
                Some(source) => Some(&**source),
                None => None,
            },
        };
    }
    false
}

/// A chain that has ended has no later link.
proof fn chain_stays_ended(cause: Cause, n: nat, m: nat)
    requires
        n <= m,
        nth_cause(cause, n) is None,
    ensures
        nth_cause(cause, m) is None,
    decreases m,
{
    if n < m {
        chain_stays_ended(cause, n, (m - 1) as nat);
    }
}

/// A send that failed, as far as its class depends on it.
pub struct SendError {
    /// The transport calls it a timeout.
    pub timeout: bool,
    /// The transport calls it a failure to connect.
    pub connect: bool,
    /// The error itself, as the first link of its chain.
    pub cause: Cause,
}

/// The class of a failed send. Timeout first, because a handshake that never
/// completes is a timeout; TLS before connect, because the transport reports a
/// failed handshake as a connect error.
pub open spec fn class_of(error: SendError) -> ProbeError {
    if error.timeout {
        ProbeError::Timeout
    } else if tls_in_chain(error.cause) {
        ProbeError::Tls
    } else if error.connect {
        ProbeError::Connect
    } else {
        ProbeError::Transport
    }
}

/// The class of a failed send.
pub fn classify(error: &SendError) -> (class: ProbeError)
    ensures
        class == class_of(*error),
{
    if error.timeout {
        ProbeError::Timeout
    } else if is_tls(&error.cause) {
        ProbeError::Tls
    } else if error.connect {
        ProbeError::Connect
    } else {
        ProbeError::Transport
    }
}

// ---------------------------------------------------------------------------
// The record
// ---------------------------------------------------------------------------

/// What a probe sends: one log record of one service.
#[derive(Debug)]
pub struct ProbeRecord {
    /// The resource attribute that names the service, and the name.
    pub service_key: String,
    pub service_name: String,
    pub time_unix_nano: u64,
    pub observed_time_unix_nano: u64,
    pub severity_number: i32,
    pub severity_text: String,
    pub body: String,
}

/// `opentelemetry_proto`'s `SeverityNumber::Info`.
#[verifier::external_body]
fn info_severity() -> (number: i32)
    ensures
        number == 9,
{
    opentelemetry_proto::tonic::logs::v1::SeverityNumber::Info as i32
}

/// A clock's nanoseconds since the Unix epoch as a record carries them: zero where
/// the clock stands before the epoch, and the low 64 bits otherwise.
pub open spec fn record_time(since_epoch_nanos: Option<u128>) -> u64 {
    match since_epoch_nanos {
        Some(nanos) => (nanos as int % 0x1_0000_0000_0000_0000) as u64,
        None => 0,
    }
}

/// One INFO record under this crate's own `service.name`, so a probe is recognisable
/// and carries nothing of the caller's. `since_epoch_nanos` is what the clock says,
/// and nothing where it stands before the Unix epoch.
pub fn request(since_epoch_nanos: Option<u128>) -> (record: ProbeRecord)
    ensures
        is_probe_record(record, record_time(since_epoch_nanos)),
{
    let now: u64 = match since_epoch_nanos {
        Some(nanos) => (nanos % 0x1_0000_0000_0000_0000) as u64,
        None => 0,
    };
    ProbeRecord {
        service_key: service_name_key().to_owned(),
        service_name: "telemetry".to_owned(),
        time_unix_nano: now,
        observed_time_unix_nano: now,
        severity_number: info_severity(),
        severity_text: "INFO".to_owned(),
        body: "telemetry probe".to_owned(),
    }
}

/// `record` is the one that a probe sends at `now`.
pub open spec fn is_probe_record(record: ProbeRecord, now: u64) -> bool {
    &&& record.service_key@ == "service.name"@
    &&& record.service_name@ == "telemetry"@
    &&& record.time_unix_nano == now
    &&& record.observed_time_unix_nano == now
    &&& record.severity_number == 9
    &&& record.severity_text@ == "INFO"@
    &&& record.body@ == "telemetry probe"@
}

/// The protobuf bytes of an OTLP request that carries one log record of one service
/// and nothing else.
pub uninterp spec fn otlp_log_bytes(
    service_key: Seq<char>,
    service_name: Seq<char>,
    time_unix_nano: u64,
    observed_time_unix_nano: u64,
    severity_number: i32,
    severity_text: Seq<char>,
    body: Seq<char>,
) -> Seq<u8>;

/// `prost::Message::encode_to_vec` of an `ExportLogsServiceRequest` that holds
/// `record` alone, every other field at its default. The bytes are named
/// [`otlp_log_bytes`]; nothing more is claimed of them.
#[verifier::external_body]
fn encode(record: ProbeRecord) -> (bytes: Vec<u8>)
    ensures
        bytes@ == otlp_log_bytes(
            record.service_key@,
            record.service_name@,
            record.time_unix_nano,
            record.observed_time_unix_nano,
            record.severity_number,
            record.severity_text@,
            record.body@,
        ),
{
    let text = |value: String| Some(AnyValue { value: Some(StringValue(value)) });
    let attribute = KeyValue { key: record.service_key, value: text(record.service_name), ..Default::default() };
    let log = LogRecord {
        time_unix_nano: record.time_unix_nano,
        observed_time_unix_nano: record.observed_time_unix_nano,
        severity_number: record.severity_number,
        severity_text: record.severity_text,
        body: text(record.body),
        ..Default::default()
    };
    let resource = Some(Resource { attributes: vec![attribute], ..Default::default() });
    let scope_logs = vec![ScopeLogs { log_records: vec![log], ..Default::default() }];
    ExportLogsServiceRequest { resource_logs: vec![ResourceLogs { resource, scope_logs, ..Default::default() }] }.encode_to_vec()
}

// ---------------------------------------------------------------------------
// The probe
// ---------------------------------------------------------------------------

/// What the outside reports while an exporter is being probed.
pub enum ProbeEvent {
    /// A caller asks.
    Asked,
    /// The exporter's credential came to this; the timeout variables and the clock
    /// say this.
    Authenticated {
        answer: Result<Headers, &'static str>,
        timeouts: TimeoutVariables,
        since_epoch_nanos: Option<u128>,
    },
    /// No HTTP client could be built.
    NoClient,
    /// The request failed.
    Failed(SendError),
    /// The collector answered with this status.
    Answered(u16),
}

/// What to do next while an exporter is being probed.
pub enum ProbeStep {
    /// Find out what the exporter authenticates with.
    Authenticate(Credential),
    /// Build a client, and POST the body to the address with the client's
    /// [`HeaderClient::post_headers`].
    Post { url: String, client: HeaderClient, body: Vec<u8> },
    /// Be done.
    Done(Result<(), ProbeError>),
}

/// An HTTP status of the 2xx class.
pub open spec fn success(status: u16) -> bool {
    200 <= status < 300
}

/// The step that follows `event` while `exporter` is being probed.
pub open spec fn probe_step(exporter: Exporter, event: ProbeEvent, step: ProbeStep) -> bool {
    match event {
        ProbeEvent::Asked => step matches ProbeStep::Authenticate(credential) && credential_of(
            credential,
            exporter,
        ),
        ProbeEvent::Authenticated { answer: Err(_), timeouts, since_epoch_nanos } => step
            == ProbeStep::Done(Err(ProbeError::Helper)),
        ProbeEvent::Authenticated { answer: Ok(headers), timeouts, since_epoch_nanos } => {
            &&& step matches ProbeStep::Post { url, client, body }
            &&& url@ == joined(exporter.endpoint@, LOGS_PATH@)
            &&& client.timeout() == transport_timeout(
                variable_text(timeouts.logs),
                variable_text(timeouts.general),
            )
            &&& client.fields() == fields_of(headers.entries())
            &&& body@ == otlp_log_bytes(
                "service.name"@,
                "telemetry"@,
                record_time(since_epoch_nanos),
                record_time(since_epoch_nanos),
                9,
                "INFO"@,
                "telemetry probe"@,
            )
        },
        ProbeEvent::NoClient => step == ProbeStep::Done(Err(ProbeError::Transport)),
        ProbeEvent::Failed(error) => step == ProbeStep::Done(Err(class_of(error))),
        ProbeEvent::Answered(status) => step == ProbeStep::Done(
            if success(status) {
                Ok(())
            } else {
                Err(ProbeError::Status(status))
            },
        ),
    }
}

/// Send one log record to `exporter` and report whether it was accepted: what to do
/// about `event`. Any 2xx is `Ok`; everything else is a class a settings pane can put
/// beside the field.
///
/// It reads no settings and stores nothing: the caller owns the value being tested,
/// whether or not it is the one currently installed.
pub fn probe(exporter: &Exporter, event: ProbeEvent) -> (step: ProbeStep)
    ensures
        probe_step(*exporter, event, step),
{
    match event {
        ProbeEvent::Asked => ProbeStep::Authenticate(headers_for(exporter)),
        ProbeEvent::Authenticated { answer: Err(_), timeouts: _, since_epoch_nanos: _ } =>
            ProbeStep::Done(Err(ProbeError::Helper)),
        ProbeEvent::Authenticated { answer: Ok(headers), timeouts, since_epoch_nanos } => {
            let millis: u64 = timeout(&timeouts.logs, &timeouts.general);
            ProbeStep::Post {
                url: signal_url(exporter.endpoint.as_str(), LOGS_PATH),
                client: HeaderClient::new(millis, &headers),
                body: encode(request(since_epoch_nanos)),
            }
        },
        ProbeEvent::NoClient => ProbeStep::Done(Err(ProbeError::Transport)),
        ProbeEvent::Failed(error) => ProbeStep::Done(Err(classify(&error))),
        ProbeEvent::Answered(status) => if 200 <= status && status < 300 {
            ProbeStep::Done(Ok(()))
        } else {
            ProbeStep::Done(Err(ProbeError::Status(status)))
        },
    }
}

// ---------------------------------------------------------------------------
// What holds across functions
// ---------------------------------------------------------------------------

/// A probe that passes is evidence about the export: what it sends goes to the
/// address, with the headers and within the timeout, of the log exporter that would
/// be built for the same exporter.
pub proof fn a_probe_asks_what_the_export_will<P>(
    installed: Installed,
    exporter: Exporter,
    headers: Headers,
    timeouts: TimeoutVariables,
    since_epoch_nanos: Option<u128>,
    posted: ProbeStep,
    built: SwapStep<P>,
)
    requires
        probe_step(
            exporter,
            ProbeEvent::Authenticated { answer: Ok(headers), timeouts, since_epoch_nanos },
            posted,
        ),
        swap_step(
            installed,
            Some(exporter),
            SwapEvent::Authenticated { answer: Ok(headers), timeouts },
            built,
        ),
        !blank(exporter.endpoint@),
    ensures
        posted matches ProbeStep::Post { url, client, body } && built matches SwapStep::Build(plan)
            && {
            &&& variable_text(plan.logs.endpoint) == Some(url@)
            &&& plan.logs.client.fields() == client.fields()
            &&& plan.logs.client.timeout() == client.timeout()
        },
{
}

/// A pane's exporter is credentialed in a probe exactly as in a swap: by the same
/// command within the same budget, or by no headers at all.
pub proof fn a_probe_is_credentialed_as_a_swap<P>(
    installed: Installed,
    exporter: Exporter,
    probed: Credential,
    swapped: Credential,
)
    requires
        probe_step(exporter, ProbeEvent::Asked, ProbeStep::Authenticate(probed)),
        swap_step::<P>(
            installed,
            Some(exporter),
            SwapEvent::Asked,
            SwapStep::Authenticate(swapped),
        ),
    ensures
        same_credential(probed, swapped),
        probed is Run <==> exporter.headers_helper is Some,
{
}

/// Nothing is sent unless the helper produced headers, or none was named.
pub proof fn nothing_is_sent_without_headers(exporter: Exporter, event: ProbeEvent, step: ProbeStep)
    requires
        probe_step(exporter, event, step),
        step is Post,
    ensures
        event matches ProbeEvent::Authenticated { answer, .. } && answer is Ok,
{
}

/// A probe authenticates once, sends once and is then done, whatever came of it.
pub proof fn a_probe_sends_once(exporter: Exporter, event: ProbeEvent, step: ProbeStep)
    requires
        probe_step(exporter, event, step),
    ensures
        step is Authenticate <==> event is Asked,
        step is Post ==> event is Authenticated,
        event is NoClient || event is Failed || event is Answered ==> step is Done,
{
}

/// A probe carries nothing of the caller's: two probes at the same time send the same
/// record, whatever their exporters, their headers and their timeouts.
pub proof fn a_probe_carries_nothing_of_the_callers(
    first: Exporter,
    second: Exporter,
    first_headers: Headers,
    second_headers: Headers,
    first_timeouts: TimeoutVariables,
    second_timeouts: TimeoutVariables,
    since_epoch_nanos: Option<u128>,
    first_step: ProbeStep,
    second_step: ProbeStep,
)
    requires
        probe_step(
            first,
            ProbeEvent::Authenticated {
                answer: Ok(first_headers),
                timeouts: first_timeouts,
                since_epoch_nanos,
            },
            first_step,
        ),
        probe_step(
            second,
            ProbeEvent::Authenticated {
                answer: Ok(second_headers),
                timeouts: second_timeouts,
                since_epoch_nanos,
            },
            second_step,
        ),
    ensures
        first_step matches ProbeStep::Post { body: left, .. } && second_step matches ProbeStep::Post {
            body: right,
            ..
        } && left@ == right@,
{
}

/// A probe passes exactly on a 2xx answer, and an answer that is refused reads back
/// as its own status.
pub proof fn only_a_2xx_answer_passes(exporter: Exporter, event: ProbeEvent, outcome: Result<(), ProbeError>)
    requires
        probe_step(exporter, event, ProbeStep::Done(outcome)),
    ensures
        outcome is Ok <==> (event matches ProbeEvent::Answered(status) && 200 <= status < 300),
        outcome matches Err(ProbeError::Status(refused)) ==> event == ProbeEvent::Answered(refused)
            && !(200 <= refused < 300),
{
}

/// The first characters of every text an error can have, which tell the classes
/// apart.
proof fn texts_differ(left: ProbeError, right: ProbeError)
    requires
        left.text() == right.text(),
    ensures
        match (left, right) {
            (ProbeError::Helper, ProbeError::Helper) => true,
            (ProbeError::Connect, ProbeError::Connect) => true,
            (ProbeError::Tls, ProbeError::Tls) => true,
            (ProbeError::Timeout, ProbeError::Timeout) => true,
            (ProbeError::Transport, ProbeError::Transport) => true,
            (ProbeError::Status(_), ProbeError::Status(_)) => true,
            _ => false,
        },
{
    reveal_strlit("the header helper failed");
    reveal_strlit("nothing answered at the endpoint");
    reveal_strlit("the TLS handshake failed");
    reveal_strlit("the collector did not answer in time");
    reveal_strlit("the request could not be sent");
    reveal_strlit("the collector answered ");
    let (l, r) = (left.text(), right.text());
    assert(l[0] == r[0] && l[4] == r[4] && l[14] == r[14]);
}

/// An error is known by what it says: no two errors read the same.
pub proof fn an_error_is_known_by_its_text(left: ProbeError, right: ProbeError)
    requires
        left.text() == right.text(),
    ensures
        left == right,
{
    texts_differ(left, right);
    if let (ProbeError::Status(a), ProbeError::Status(b)) = (left, right) {
        let front = "the collector answered "@;
        assert(decimal(a as nat) =~= left.text().skip(front.len() as int));
        assert(decimal(b as nat) =~= right.text().skip(front.len() as int));
        decimal_reads_back(a as nat);
        decimal_reads_back(b as nat);
    }
}

/// What a link leads to decides, not the link itself: where it wraps something, its own
/// source is passed over, and otherwise its source is what follows.
pub proof fn what_a_link_wraps_comes_before_its_source(
    rustls: bool,
    inner: Cause,
    one: Option<Box<Cause>>,
    another: Option<Box<Cause>>,
)
    ensures
        next_cause(Cause { rustls, payload: Some(Box::new(inner)), source: one }) == Some(inner),
        next_cause(Cause { rustls, payload: None, source: Some(Box::new(inner)) }) == Some(inner),
        next_cause(Cause { rustls, payload: None, source: None }) is None,
        tls_in_chain(Cause { rustls, payload: Some(Box::new(inner)), source: one }) <==> tls_in_chain(
            Cause { rustls, payload: Some(Box::new(inner)), source: another },
        ),
{
    let left = Cause { rustls, payload: Some(Box::new(inner)), source: one };
    let right = Cause { rustls, payload: Some(Box::new(inner)), source: another };
    assert forall|n: nat|
        (#[trigger] nth_cause(left, n) matches Some(link) && link.rustls) == (nth_cause(
            right,
            n,
        ) matches Some(link) && link.rustls) by {
        same_tail(left, right, n);
    }
    if tls_in_chain(left) {
        let n = choose|n: nat|
            n < CHAIN_DEPTH && (#[trigger] nth_cause(left, n) matches Some(link) && link.rustls);
        same_tail(left, right, n);
        assert(nth_cause(right, n) matches Some(link) && link.rustls);
    }
    if tls_in_chain(right) {
        let n = choose|n: nat|
            n < CHAIN_DEPTH && (#[trigger] nth_cause(right, n) matches Some(link) && link.rustls);
        same_tail(left, right, n);
        assert(nth_cause(left, n) matches Some(link) && link.rustls);
    }
}

/// Two links of the same kind that lead to the same have the same chain behind them.
proof fn same_tail(left: Cause, right: Cause, n: nat)
    requires
        left.rustls == right.rustls,
        next_cause(left) == next_cause(right),
    ensures
        n > 0 ==> nth_cause(left, n) == nth_cause(right, n),
        nth_cause(left, 0) == Some(left),
        nth_cause(right, 0) == Some(right),
    decreases n,
{
    if n > 1 {
        same_tail(left, right, (n - 1) as nat);
    } else if n == 1 {
        assert(nth_cause(left, 0) == Some(left) && nth_cause(right, 0) == Some(right));
    }
}

/// An error inside others, none of them rustls' own, outermost first: each wraps what it
/// leads to where it says so, and otherwise gives it as its source.
pub open spec fn nested(core: Cause, wraps: Seq<bool>) -> Cause
    decreases wraps.len(),
{
    if wraps.len() == 0 {
        core
    } else {
        let inner = Some(Box::new(nested(core, wraps.drop_first())));
        if wraps.first() {
            Cause { rustls: false, payload: inner, source: None }
        } else {
            Cause { rustls: false, payload: None, source: inner }
        }
    }
}

/// One link in front moves a chain back by one.
proof fn a_link_in_front_moves_the_chain_back(outer: Cause, inner: Cause, n: nat)
    requires
        next_cause(outer) == Some(inner),
    ensures
        nth_cause(outer, n + 1) == nth_cause(inner, n),
    decreases n,
{
    if n > 0 {
        a_link_in_front_moves_the_chain_back(outer, inner, (n - 1) as nat);
    } else {
        assert(nth_cause(outer, 0) == Some(outer));
        assert(nth_cause(outer, 1) == next_cause(outer));
    }
}

/// What stands at each place of an error that is nested.
proof fn nested_chain(core: Cause, wraps: Seq<bool>, n: nat)
    ensures
        n < wraps.len() ==> (nth_cause(nested(core, wraps), n) matches Some(link) && !link.rustls),
        n >= wraps.len() ==> nth_cause(nested(core, wraps), n) == nth_cause(
            core,
            (n - wraps.len()) as nat,
        ),
    decreases wraps.len(),
{
    if wraps.len() > 0 {
        let outer = nested(core, wraps);
        let inner = nested(core, wraps.drop_first());
        assert(next_cause(outer) == Some(inner));
        if n > 0 {
            nested_chain(core, wraps.drop_first(), (n - 1) as nat);
            a_link_in_front_moves_the_chain_back(outer, inner, (n - 1) as nat);
        }
    }
}

/// Rustls' own error is found wherever it stands behind no more than seven others, be it
/// wrapped by them or their source, and nowhere further on.
pub proof fn rustls_error_is_found_within_eight_links(core: Cause, wraps: Seq<bool>)
    requires
        core.rustls,
    ensures
        tls_in_chain(nested(core, wraps)) <==> wraps.len() < 8,
{
    let outer = nested(core, wraps);
    if wraps.len() < 8 {
        nested_chain(core, wraps, wraps.len());
        assert(nth_cause(core, 0) == Some(core));
        assert(nth_cause(outer, wraps.len()) matches Some(link) && link.rustls);
    } else {
        assert forall|n: nat| n < 8 implies !(#[trigger] nth_cause(outer, n) matches Some(link)
            && link.rustls) by {
            nested_chain(core, wraps, n);
        }
    }
}

/// Where no link is rustls' own error, none is found, however the links are nested.
pub proof fn no_rustls_error_is_found_where_there_is_none(wraps: Seq<bool>)
    ensures
        !tls_in_chain(nested(Cause { rustls: false, payload: None, source: None }, wraps)),
{
    let core = Cause { rustls: false, payload: None, source: None };
    let outer = nested(core, wraps);
    assert forall|n: nat| !(#[trigger] nth_cause(outer, n) matches Some(link) && link.rustls) by {
        nested_chain(core, wraps, n);
        assert(nth_cause(core, 0) == Some(core));
        assert(next_cause(core) is None);
        assert(nth_cause(core, 1) == next_cause(core));
        if n > wraps.len() {
            chain_stays_ended(core, 1, (n - wraps.len()) as nat);
        }
    }
}

/// A failed send is of one class: a timeout whatever else it is, a failed handshake
/// before a failure to connect, and neither of the three only where it is none of them.
pub proof fn a_timeout_comes_before_tls_and_tls_before_connect(error: SendError)
    ensures
        class_of(error) is Timeout <==> error.timeout,
        class_of(error) is Tls <==> !error.timeout && tls_in_chain(error.cause),
        class_of(error) is Connect <==> !error.timeout && !tls_in_chain(error.cause)
            && error.connect,
        class_of(error) is Transport <==> !error.timeout && !tls_in_chain(error.cause)
            && !error.connect,
{
}

/// A record's time is the clock's, to the nanosecond, for as long as that fits in 64 bits,
/// and comes round again after; before the epoch it is zero.
pub proof fn a_records_time_is_the_clocks(nanos: u64, rounds: u64)
    ensures
        record_time(None) == 0,
        record_time(Some(nanos as u128)) == nanos,
        record_time(Some((nanos + rounds * 0x1_0000_0000_0000_0000) as u128)) == nanos,
{
    let whole = nanos + rounds * 0x1_0000_0000_0000_0000;
    assert(0 <= whole <= u128::MAX) by (nonlinear_arith)
        requires
            whole == nanos + rounds * 0x1_0000_0000_0000_0000,
            0 <= nanos <= u64::MAX,
            0 <= rounds <= u64::MAX,
    ;
    assert(whole % 0x1_0000_0000_0000_0000 == nanos) by (nonlinear_arith)
        requires
            whole == nanos + rounds * 0x1_0000_0000_0000_0000,
            0 <= nanos < 0x1_0000_0000_0000_0000,
    ;
}

/// A probe sends one INFO record of the service `telemetry`, stamped twice with the
/// clock's time, to the path of the logs beneath the endpoint, whatever slashes that ends
/// with. It carries the helper's headers and waits as long as the log exporter would.
pub proof fn a_probe_sends_its_record_to_the_logs_path(
    exporter: Exporter,
    kept: Seq<char>,
    k: nat,
    headers: Headers,
    timeouts: TimeoutVariables,
    nanos: u64,
    step: ProbeStep,
)
    requires
        kept.len() == 0 || kept.last() != '/',
        exporter.endpoint@ == kept + Seq::new(k, |i: int| '/'),
        probe_step(
            exporter,
            ProbeEvent::Authenticated {
                answer: Ok(headers),
                timeouts,
                since_epoch_nanos: Some(nanos as u128),
            },
            step,
        ),
    ensures
        step matches ProbeStep::Post { url, client, body } && {
            &&& url@ == kept + "/v1/logs"@
            &&& client.fields() == fields_of(headers.entries())
            &&& client.timeout() == transport_timeout(
                variable_text(timeouts.logs),
                variable_text(timeouts.general),
            )
            &&& match timeouts.logs {
                Some(text) => number(trimmed(text@)) matches Some(n) ==> client.timeout() == n,
                None => true,
            }
            &&& body@ == otlp_log_bytes(
                "service.name"@,
                "telemetry"@,
                nanos,
                nanos,
                9,
                "INFO"@,
                "telemetry probe"@,
            )
        },
{
    an_address_is_the_endpoint_and_the_path(kept, k, "/v1/logs"@);
    a_records_time_is_the_clocks(nanos, 0);
}

/// What came of a probe is reported as what it was: an answer outside the two hundreds as
/// its own status, a failed send as its class, a helper that failed as the helper's
/// failure, and a client that could not be built as a failure to send.
pub proof fn a_failure_is_reported_as_what_it_was(
    exporter: Exporter,
    event: ProbeEvent,
    step: ProbeStep,
)
    requires
        probe_step(exporter, event, step),
    ensures
        match event {
            ProbeEvent::Asked => step matches ProbeStep::Authenticate(credential) && credential_of(
                credential,
                exporter,
            ),
            ProbeEvent::Authenticated { answer, .. } => answer is Err ==> step
                == ProbeStep::Done(Err(ProbeError::Helper)),
            ProbeEvent::NoClient => step == ProbeStep::Done(Err(ProbeError::Transport)),
            ProbeEvent::Failed(error) => step == ProbeStep::Done(Err(class_of(error))),
            ProbeEvent::Answered(status) => if status / 100 == 2 {
                step == ProbeStep::Done(Ok(()))
            } else {
                step == ProbeStep::Done(Err(ProbeError::Status(status)))
            },
        },
{
}

/// A status that was refused is said in full, in decimal.
pub proof fn a_refusal_says_its_status(status: u16)
    ensures
        ProbeError::Status(status).text() == "the collector answered "@ + decimal(status as nat),
{
}

/// The record of a probe is what the probe sends: the service's name and its own words,
/// and the time twice.
pub proof fn a_probes_record_is_its_own(record: ProbeRecord, now: u64)
    requires
        is_probe_record(record, now),
    ensures
        record.service_key@ == "service.name"@,
        record.service_name@ == "telemetry"@,
        record.time_unix_nano == now,
        record.observed_time_unix_nano == now,
        record.severity_number == 9,
        record.severity_text@ == "INFO"@,
        record.body@ == "telemetry probe"@,
{
}

} // verus!
