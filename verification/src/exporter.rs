//! Where telemetry goes, and what has to be built to send it there.

use vstd::prelude::*;
use vstd::string::*;

use crate::bearer::fields_of;
use crate::bearer::timeout;
use crate::bearer::transport_timeout;
use crate::bearer::variable_text;
use crate::bearer::HeaderClient;
use crate::bearer::HELPER_BUDGET_MILLIS;
use crate::headers::entry_texts;
use crate::headers::Headers;
use crate::text::blank;
use crate::text::is_blank;
use crate::text::number;
use crate::text::only_the_trailing_run_is_taken_off;
use crate::text::trim_end_matches;
use crate::text::trimmed;
use crate::text::white_space;
use crate::text::without_trailing;

verus! {

/// Where telemetry goes and how it authenticates: the same two facts
/// `OTEL_EXPORTER_OTLP_ENDPOINT` and `OTEL_EXPORTER_OTLP_HEADERS_HELPER` carry.
#[derive(Debug, PartialEq)]
pub struct Exporter {
    /// The collector's base address, as `OTEL_EXPORTER_OTLP_ENDPOINT` means it: the
    /// signal path (`/v1/logs`) is appended to it, not replaced.
    pub endpoint: String,
    /// A command printing a JSON object of header name to header value, run once
    /// under `sh -c` whenever this exporter is installed or probed.
    pub headers_helper: Option<String>,
}

impl Clone for Exporter {
    fn clone(&self) -> (copy: Self)
        ensures
            copy == *self,
    {
        let headers_helper: Option<String> = match &self.headers_helper {
            Some(command) => Some(command.clone()),
            None => None,
        };
        Exporter { endpoint: self.endpoint.clone(), headers_helper }
    }
}

impl Exporter {
    /// The fleet's answer, from the values of the two variables: `None` where
    /// `OTEL_EXPORTER_OTLP_ENDPOINT` is unset, whatever the other one holds.
    pub fn from_env(endpoint: Option<String>, headers_helper: Option<String>) -> (exporter: Option<
        Self,
    >)
        ensures
            exporter == (match endpoint {
                Some(endpoint) => Some(Exporter { endpoint, headers_helper }),
                None => None,
            }),
    {
        match endpoint {
            Some(endpoint) => Some(Exporter { endpoint, headers_helper }),
            None => None,
        }
    }
}

/// What an exporter authenticates with.
pub enum Credential {
    /// These headers.
    Ready(Headers),
    /// Whatever headers this command prints within the budget.
    Run { command: String, budget_millis: u64 },
}

/// The headers an exporter authenticates with: its helper's output, or none where
/// it names no helper. Shared by [`crate::guard::init`],
/// [`crate::guard::Guard::set_exporter`] and [`crate::probe::probe`], so a pane's
/// endpoint is credentialed exactly as the fleet's is.
pub fn headers_for(exporter: &Exporter) -> (credential: Credential)
    ensures
        credential_of(credential, *exporter),
{
    match &exporter.headers_helper {
        None => Credential::Ready(Headers::new()),
        Some(command) => Credential::Run {
            command: command.clone(),
            budget_millis: HELPER_BUDGET_MILLIS,
        },
    }
}

/// `credential` is what `exporter` authenticates with.
pub open spec fn credential_of(credential: Credential, exporter: Exporter) -> bool {
    match exporter.headers_helper {
        None => credential matches Credential::Ready(headers) && headers.entries() == Seq::<
            (Seq<char>, Seq<char>),
        >::empty(),
        Some(command) => credential == (Credential::Run {
            command,
            budget_millis: HELPER_BUDGET_MILLIS,
        }),
    }
}

/// Two credentials come to the same: the same command within the same budget, or no
/// headers at all.
pub open spec fn same_credential(left: Credential, right: Credential) -> bool {
    match (left, right) {
        (Credential::Ready(left), Credential::Ready(right)) => {
            &&& left.entries() == right.entries()
            &&& left.entries().len() == 0
        },
        (Credential::Run { .. }, Credential::Run { .. }) => left == right,
        _ => false,
    }
}

/// Why nothing leaves the device where the environment set no exporter.
pub const ENDPOINT_UNSET: &'static str = "OTEL_EXPORTER_OTLP_ENDPOINT is unset";

/// What the environment asks for.
pub enum Plan {
    /// Nothing leaves the device, and why.
    LocalOnly { why: &'static str },
    /// Export, with these headers.
    Otlp(Headers),
}

/// The plan that follows from the environment's exporter: `answer` is what its
/// credential came to, and nothing where the environment set no exporter.
pub fn plan(answer: Option<Result<Headers, &'static str>>) -> (plan: Plan)
    ensures
        match answer {
            None => plan matches Plan::LocalOnly { why } && why@ == ENDPOINT_UNSET@,
            Some(Ok(headers)) => plan == Plan::Otlp(headers),
            Some(Err(why)) => plan == (Plan::LocalOnly { why }),
        },
{
    match answer {
        None => Plan::LocalOnly { why: ENDPOINT_UNSET },
        Some(Ok(headers)) => Plan::Otlp(headers),
        Some(Err(why)) => Plan::LocalOnly { why },
    }
}

/// The address of a signal: its path appended to the base, with no slash of the
/// base's own end between them.
pub open spec fn joined(base: Seq<char>, path: Seq<char>) -> Seq<char> {
    without_trailing(base, '/') + path
}

/// The join the SDK makes from `OTEL_EXPORTER_OTLP_ENDPOINT`, made here too, so a
/// pane's endpoint means what the variable means.
pub fn signal_url(base: &str, path: &str) -> (url: String)
    ensures
        url@ == joined(base@, path@),
{
    let kept: &str = trim_end_matches(base, '/');
    kept.to_owned().concat(path)
}

/// The path of the log signal.
pub const LOGS_PATH: &'static str = "/v1/logs";

/// The path of the span signal.
pub const TRACES_PATH: &'static str = "/v1/traces";

/// `opentelemetry_semantic_conventions::resource::SERVICE_NAME`, the attribute that
/// names a service.
#[verifier::external_body]
pub(crate) fn service_name_key() -> (key: &'static str)
    ensures
        key@ == "service.name"@,
{
    opentelemetry_semantic_conventions::resource::SERVICE_NAME
}

/// `opentelemetry_semantic_conventions::resource::SERVICE_VERSION`, the attribute
/// that gives a service's version.
#[verifier::external_body]
fn service_version_key() -> (key: &'static str)
    ensures
        key@ == "service.version"@,
{
    opentelemetry_semantic_conventions::resource::SERVICE_VERSION
}

/// The values of the variables that set transport timeouts.
pub struct TimeoutVariables {
    /// `OTEL_EXPORTER_OTLP_LOGS_TIMEOUT`.
    pub logs: Option<String>,
    /// `OTEL_EXPORTER_OTLP_TRACES_TIMEOUT`.
    pub traces: Option<String>,
    /// `OTEL_EXPORTER_OTLP_TIMEOUT`.
    pub general: Option<String>,
}

/// What one signal's exporter is built from.
pub struct SignalPlan {
    /// What its HTTP client puts on every request.
    pub client: HeaderClient,
    /// Its address; nothing leaves the address to the SDK's own variables.
    pub endpoint: Option<String>,
}

/// What both providers are built from.
pub struct ProviderPlan {
    /// The attributes of the resource both providers report.
    pub resource: Vec<(String, String)>,
    pub logs: SignalPlan,
    pub traces: SignalPlan,
}

/// A signal's plan is as its inputs ask.
pub open spec fn signal_planned(
    plan: SignalPlan,
    headers: Seq<(Seq<char>, Seq<char>)>,
    base: Option<Seq<char>>,
    path: Seq<char>,
    timeout_millis: u64,
) -> bool {
    &&& plan.client.timeout() == timeout_millis
    &&& plan.client.fields() == fields_of(headers)
    &&& variable_text(plan.endpoint) == (match base {
        Some(base) => Some(joined(base, path)),
        None => None,
    })
}

/// A plan for both providers is as its inputs ask.
pub open spec fn providers_planned(
    plan: ProviderPlan,
    service_name: Seq<char>,
    service_version: Seq<char>,
    headers: Seq<(Seq<char>, Seq<char>)>,
    base: Option<Seq<char>>,
    timeouts: TimeoutVariables,
) -> bool {
    &&& entry_texts(plan.resource@) == seq![
        ("service.name"@, service_name),
        ("service.version"@, service_version),
    ]
    &&& signal_planned(
        plan.logs,
        headers,
        base,
        LOGS_PATH@,
        transport_timeout(variable_text(timeouts.logs), variable_text(timeouts.general)),
    )
    &&& signal_planned(
        plan.traces,
        headers,
        base,
        TRACES_PATH@,
        transport_timeout(variable_text(timeouts.traces), variable_text(timeouts.general)),
    )
}

/// The text of an optional string slice.
pub open spec fn optional_text(text: Option<&str>) -> Option<Seq<char>> {
    match text {
        Some(text) => Some(text@),
        None => None,
    }
}

/// The plan of one signal.
fn plan_signal(
    headers: &Headers,
    base: Option<&str>,
    path: &str,
    timeout_millis: u64,
) -> (plan: SignalPlan)
    ensures
        signal_planned(plan, headers.entries(), optional_text(base), path@, timeout_millis),
{
    let endpoint: Option<String> = match base {
        Some(base) => Some(signal_url(base, path)),
        None => None,
    };
    SignalPlan { client: HeaderClient::new(timeout_millis, headers), endpoint }
}

/// What to build both providers from, or nothing where `endpoint` is blank: a blank
/// endpoint parses as a relative address, so it would build an exporter that can
/// never send. `endpoint` is `None` for the environment's own exporter, which
/// leaves the address to the SDK, and `Some` only for one that a settings pane
/// supplied, which no variable names.
pub fn build_providers(
    service_name: &str,
    service_version: &str,
    headers: &Headers,
    endpoint: Option<&str>,
    timeouts: &TimeoutVariables,
) -> (plan: Option<ProviderPlan>)
    ensures
        plan is None <==> (endpoint matches Some(base) && blank(base@)),
        plan matches Some(plan) ==> providers_planned(
            plan,
            service_name@,
            service_version@,
            headers.entries(),
            optional_text(endpoint),
            *timeouts,
        ),
{
    match endpoint {
        Some(base) => if is_blank(base) {
            return None;
        },
        None => {},
    }
    let mut resource: Vec<(String, String)> = Vec::new();
    resource.push((service_name_key().to_owned(), service_name.to_owned()));
    resource.push((service_version_key().to_owned(), service_version.to_owned()));
    assert(entry_texts(resource@) =~= seq![
        ("service.name"@, service_name@),
        ("service.version"@, service_version@),
    ]);
    let logs: SignalPlan = plan_signal(
        headers,
        endpoint,
        LOGS_PATH,
        timeout(&timeouts.logs, &timeouts.general),
    );
    let traces: SignalPlan = plan_signal(
        headers,
        endpoint,
        TRACES_PATH,
        timeout(&timeouts.traces, &timeouts.general),
    );
    Some(ProviderPlan { resource, logs, traces })
}

/// The two providers, kept together because they are built and shut down together.
pub struct Providers<L, T> {
    pub logs: L,
    pub traces: T,
}

impl<L, T> Providers<L, T> {
    /// Both providers, or neither.
    pub fn both(logs: Option<L>, traces: Option<T>) -> (providers: Option<Self>)
        ensures
            providers == (match (logs, traces) {
                (Some(logs), Some(traces)) => Some(Providers { logs, traces }),
                _ => None,
            }),
    {
        match (logs, traces) {
            (Some(logs), Some(traces)) => Some(Providers { logs, traces }),
            _ => None,
        }
    }
}

/// However many slashes an endpoint ends with, its signals' addresses are the same.
pub proof fn trailing_slashes_do_not_matter(base: Seq<char>, path: Seq<char>, k: nat)
    ensures
        joined(base + Seq::new(k, |i: int| '/'), path) == joined(base, path),
    decreases k,
{
    let slashed = base + Seq::new(k, |i: int| '/');
    if k == 0 {
        assert(slashed =~= base);
    } else {
        let fewer = (k - 1) as nat;
        trailing_slashes_do_not_matter(base, path, fewer);
        assert(slashed.drop_last() =~= base + Seq::new(fewer, |i: int| '/'));
        assert(slashed.last() == '/');
    }
}

/// The path is appended, never replaced: what the base is without its trailing
/// slashes stands in front, and the path ends the address.
pub proof fn the_path_is_appended(base: Seq<char>, path: Seq<char>)
    ensures
        without_trailing(base, '/').is_prefix_of(joined(base, path)),
        path.is_suffix_of(joined(base, path)),
        without_trailing(base, '/').is_prefix_of(base),
        joined(base, path).len() == without_trailing(base, '/').len() + path.len(),
    decreases base.len(),
{
    let kept = without_trailing(base, '/');
    let url = joined(base, path);
    assert(kept =~= url.subrange(0, kept.len() as int));
    assert(path =~= url.subrange(url.len() - path.len(), url.len() as int));
    if base.len() > 0 && base.last() == '/' {
        the_path_is_appended(base.drop_last(), path);
        assert(kept == base.drop_last().subrange(0, kept.len() as int));
        assert(kept =~= base.subrange(0, kept.len() as int));
    } else {
        assert(kept =~= base.subrange(0, kept.len() as int));
    }
}

/// The SDK's own join of `OTEL_EXPORTER_OTLP_ENDPOINT` and a signal path: one slash
/// where the endpoint ends with one and the path starts with one.
pub open spec fn sdk_joined(endpoint: Seq<char>, path: Seq<char>) -> Seq<char> {
    if endpoint.len() > 0 && endpoint.last() == '/' && path.len() > 0 && path.first() == '/' {
        endpoint + path.drop_first()
    } else {
        endpoint + path
    }
}

/// An endpoint that ends with at most one slash means to a pane what it means to
/// the SDK.
pub proof fn a_pane_means_what_the_variable_means(endpoint: Seq<char>, path: Seq<char>)
    requires
        path.len() > 0,
        path.first() == '/',
        endpoint.len() >= 2 ==> !(endpoint.last() == '/' && endpoint[endpoint.len() - 2] == '/'),
    ensures
        joined(endpoint, path) == sdk_joined(endpoint, path),
{
    if endpoint.len() > 0 && endpoint.last() == '/' {
        let front = endpoint.drop_last();
        assert(without_trailing(front, '/') == front);
        assert(front + path =~= endpoint + path.drop_first());
    }
}

/// An address is the endpoint, without the slashes it ends with and otherwise whole, and
/// behind it the path.
pub proof fn an_address_is_the_endpoint_and_the_path(kept: Seq<char>, k: nat, path: Seq<char>)
    requires
        kept.len() == 0 || kept.last() != '/',
    ensures
        joined(kept + Seq::new(k, |i: int| '/'), path) == kept + path,
{
    only_the_trailing_run_is_taken_off(kept, '/', k);
}

/// An exporter that names a helper authenticates by that command, as it stands and within
/// ten seconds; one that names none authenticates with no headers at all. Its endpoint
/// has no part in it.
pub proof fn a_helper_is_run_as_it_stands_for_ten_seconds(
    credential: Credential,
    exporter: Exporter,
)
    requires
        credential_of(credential, exporter),
    ensures
        match exporter.headers_helper {
            Some(helper) => credential matches Credential::Run { command, budget_millis } && command
                == helper && budget_millis == 10_000,
            None => credential matches Credential::Ready(headers) && headers.entries().len() == 0,
        },
{
}

/// Two credentials that come to the same run the same command for as long, or neither
/// runs any and neither carries a header.
pub proof fn the_same_credential_is_the_same(left: Credential, right: Credential)
    requires
        same_credential(left, right),
    ensures
        match left {
            Credential::Run { command, budget_millis } => right matches Credential::Run {
                command: theirs,
                budget_millis: allowed,
            } && command == theirs && budget_millis == allowed,
            Credential::Ready(headers) => headers.entries().len() == 0 && (
            right matches Credential::Ready(theirs) && theirs.entries().len() == 0),
        },
{
}

/// Both signals are built for the service that was named, each with the headers that were
/// given and with its own timeout: neither signal's variable has any bearing on the other.
pub proof fn both_signals_are_built_as_asked(
    plan: ProviderPlan,
    service_name: Seq<char>,
    service_version: Seq<char>,
    headers: Seq<(Seq<char>, Seq<char>)>,
    base: Option<Seq<char>>,
    timeouts: TimeoutVariables,
)
    requires
        providers_planned(plan, service_name, service_version, headers, base, timeouts),
    ensures
        plan.resource@.len() == 2,
        plan.resource@[0].0@ == "service.name"@,
        plan.resource@[0].1@ == service_name,
        plan.resource@[1].0@ == "service.version"@,
        plan.resource@[1].1@ == service_version,
        plan.logs.client.fields() == fields_of(headers),
        plan.traces.client.fields() == fields_of(headers),
        plan.logs.client.timeout() == transport_timeout(
            variable_text(timeouts.logs),
            variable_text(timeouts.general),
        ),
        match timeouts.logs {
            Some(text) => number(trimmed(text@)) matches Some(n) ==> plan.logs.client.timeout() == n,
            None => true,
        },
        plan.traces.client.timeout() == transport_timeout(
            variable_text(timeouts.traces),
            variable_text(timeouts.general),
        ),
        match timeouts.traces {
            Some(text) => number(trimmed(text@)) matches Some(n) ==> plan.traces.client.timeout() == n,
            None => true,
        },
{
    let texts = entry_texts(plan.resource@);
    assert(texts.len() == plan.resource@.len());
    assert(texts[0] == (plan.resource@[0].0@, plan.resource@[0].1@));
    assert(texts[1] == (plan.resource@[1].0@, plan.resource@[1].1@));
}

/// Each signal goes to its own path beneath the endpoint that a pane supplied, whatever
/// slashes that ends with; where none was supplied, neither signal is given an address.
pub proof fn each_signal_goes_beneath_the_endpoint(
    plan: ProviderPlan,
    service_name: Seq<char>,
    service_version: Seq<char>,
    headers: Seq<(Seq<char>, Seq<char>)>,
    kept: Seq<char>,
    k: nat,
    supplied: bool,
    timeouts: TimeoutVariables,
)
    requires
        kept.len() == 0 || kept.last() != '/',
        providers_planned(
            plan,
            service_name,
            service_version,
            headers,
            if supplied {
                Some(kept + Seq::new(k, |i: int| '/'))
            } else {
                None
            },
            timeouts,
        ),
    ensures
        supplied ==> (plan.logs.endpoint matches Some(url) && url@ == kept + "/v1/logs"@),
        supplied ==> (plan.traces.endpoint matches Some(url) && url@ == kept + "/v1/traces"@),
        !supplied ==> plan.logs.endpoint is None && plan.traces.endpoint is None,
{
    an_address_is_the_endpoint_and_the_path(kept, k, "/v1/logs"@);
    an_address_is_the_endpoint_and_the_path(kept, k, "/v1/traces"@);
}

/// A blank endpoint is one that holds nothing but white space, and the text of an
/// endpoint is all of it.
pub proof fn an_endpoint_is_taken_whole(endpoint: &str, i: int)
    ensures
        optional_text(None) is None,
        optional_text(Some(endpoint)) == Some(endpoint@),
        blank(endpoint@) && 0 <= i < endpoint@.len() ==> white_space(endpoint@[i]),
{
}

} // verus!
