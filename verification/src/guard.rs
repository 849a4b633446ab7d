//! What a process has installed, and how that changes.
//!
//! The exporter may arrive from the environment or from the application's own
//! settings. The environment comes first: where it set one, a settings pane cannot
//! change it. Each operation here decides one step at a time: it is told what the
//! outside did and says what to do next, and the last step hands back every
//! provider that nothing is wired to any more.

use vstd::multiset::Multiset;
use vstd::prelude::*;
use vstd::string::*;

use crate::exporter::build_providers;
use crate::exporter::credential_of;
use crate::exporter::headers_for;
use crate::exporter::plan;
use crate::exporter::providers_planned;
use crate::exporter::same_credential;
use crate::exporter::Credential;
use crate::exporter::Exporter;
use crate::exporter::Plan;
use crate::exporter::ProviderPlan;
use crate::exporter::TimeoutVariables;
use crate::exporter::ENDPOINT_UNSET;
use crate::headers::entry_texts;
use crate::headers::Headers;
use crate::text::blank;

verus! {

/// The one line an operation has to say, where it has one.
#[derive(Clone, Copy, Debug, PartialEq, Eq)]
pub enum Note {
    /// The environment set the exporter.
    EnvironmentWins,
    /// The guard installed no layers.
    NothingInstalled,
    /// Nothing leaves the device, and why.
    LocalOnly { why: &'static str },
    /// No exporter could be built for a pane.
    NotBuilt,
    /// No exporter was built for the environment.
    NoExporter,
    /// The layer stack is gone.
    LayersGone,
    /// This is not the first call.
    AlreadyInitialised,
    /// Something else owns the global subscriber.
    AnotherSubscriber,
}

impl Note {
    /// What the line says.
    pub open spec fn text(self) -> Seq<char> {
        match self {
            Note::EnvironmentWins =>
                "telemetry: the environment set the exporter and wins; set_exporter installed nothing"@,
            Note::NothingInstalled =>
                "telemetry: this Guard installed no layers; set_exporter changed nothing"@,
            Note::LocalOnly { why } => "telemetry is local only: "@ + why@,
            Note::NotBuilt => "telemetry is local only: no exporter could be built"@,
            Note::NoExporter => "telemetry: no exporter built"@,
            Note::LayersGone => "telemetry: the layer stack is gone; the exporter is unchanged"@,
            Note::AlreadyInitialised =>
                "telemetry: init was already called; this call installed nothing"@,
            Note::AnotherSubscriber =>
                "telemetry: another subscriber is installed; this call installed nothing"@,
        }
    }

    /// The line.
    pub fn line(self) -> (line: String)
        ensures
            line@ == self.text(),
    {
        match self {
            Note::EnvironmentWins =>
                "telemetry: the environment set the exporter and wins; set_exporter installed nothing".to_owned(),
            Note::NothingInstalled =>
                "telemetry: this Guard installed no layers; set_exporter changed nothing".to_owned(),
            Note::LocalOnly { why } => "telemetry is local only: ".to_owned().concat(why),
            Note::NotBuilt => "telemetry is local only: no exporter could be built".to_owned(),
            Note::NoExporter => "telemetry: no exporter built".to_owned(),
            Note::LayersGone =>
                "telemetry: the layer stack is gone; the exporter is unchanged".to_owned(),
            Note::AlreadyInitialised =>
                "telemetry: init was already called; this call installed nothing".to_owned(),
            Note::AnotherSubscriber =>
                "telemetry: another subscriber is installed; this call installed nothing".to_owned(),
        }
    }
}

/// What a later swap needs to rebuild the exporters.
#[derive(Clone, Copy)]
pub struct Installed {
    pub service_name: &'static str,
    pub service_version: &'static str,
}

/// Keeps the export pipeline alive: the live providers `P`, what was installed, and
/// the exporter the process is configured for.
pub struct Guard<P> {
    providers: Option<P>,
    installed: Option<Installed>,
    exporter: Option<Exporter>,
    from_env: bool,
}

/// What the outside reports while an exporter is being set.
pub enum SwapEvent<P> {
    /// A pane asks.
    Asked,
    /// The exporter's credential came to this.
    Authenticated { answer: Result<Headers, &'static str>, timeouts: TimeoutVariables },
    /// The providers were built, or could not be.
    Built { built: bool },
    /// The layers of `providers`, or none, were to be put in place of the live ones:
    /// whether they could be.
    Reloaded { reloaded: bool, providers: Option<P> },
}

/// What to do next while an exporter is being set.
pub enum SwapStep<P> {
    /// Find out what the exporter authenticates with.
    Authenticate(Credential),
    /// Build both providers.
    Build(ProviderPlan),
    /// Say the note, if any, and put the layers of whatever was built in place of the
    /// live ones. This comes before anything is retired, so that nothing emitted
    /// afterwards reaches the old destination.
    Reload { note: Option<Note> },
    /// Be done.
    Done(Swapped<P>),
}

/// What setting an exporter leaves to be done.
pub struct Swapped<P> {
    /// Providers that nothing is wired to any more: flush and shut them down.
    pub retired: Option<P>,
    /// What to say.
    pub note: Option<Note>,
}

impl<P> Default for Guard<P> {
    /// A guard that installed nothing.
    fn default() -> (guard: Self)
        ensures
            guard.is_empty(),
    {
        Guard { providers: None, installed: None, exporter: None, from_env: false }
    }
}

impl<P> Guard<P> {
    /// The providers that the layers are wired to.
    pub closed spec fn live(&self) -> Option<P> {
        self.providers
    }

    /// What was installed.
    pub closed spec fn installation(&self) -> Option<Installed> {
        self.installed
    }

    /// The exporter this process is configured for.
    pub closed spec fn configured(&self) -> Option<Exporter> {
        self.exporter
    }

    /// The environment set the exporter.
    pub closed spec fn read_only(&self) -> bool {
        self.from_env
    }

    /// Nothing is installed, live or configured.
    pub open spec fn is_empty(&self) -> bool {
        &&& self.live() is None
        &&& self.installation() is None
        &&& self.configured() is None
        &&& !self.read_only()
    }

    /// A guard that installed nothing holds nothing, and one whose exporter the
    /// environment set has that exporter.
    #[verifier::type_invariant]
    pub closed spec fn wf(&self) -> bool {
        &&& self.installation() is None ==> self.is_empty()
        &&& self.read_only() ==> self.configured() is Some
    }

    /// Whether setting an exporter can change anything here: something was installed,
    /// and its exporter is not the environment's.
    pub open spec fn changeable(&self) -> bool {
        self.installation() is Some && !self.read_only()
    }

    /// The step that follows `event` while `exporter` is being set here, and what it
    /// leaves of the guard.
    pub open spec fn set_step(
        &self,
        exporter: Option<Exporter>,
        event: SwapEvent<P>,
        step: SwapStep<P>,
        after: Guard<P>,
    ) -> bool {
        if !self.changeable() {
            &&& after == *self
            &&& step == SwapStep::Done(
                Swapped {
                    retired: handed(event),
                    note: Some(
                        if self.read_only() {
                            Note::EnvironmentWins
                        } else {
                            Note::NothingInstalled
                        },
                    ),
                },
            )
        } else {
            match event {
                SwapEvent::Reloaded { reloaded, providers } => {
                    &&& step matches SwapStep::Done(swapped)
                    &&& self.installs(reloaded, providers, exporter, swapped, after)
                },
                _ => {
                    &&& swap_step(self.installation()->0, exporter, event, step)
                    &&& after == *self
                },
            }
        }
    }

    /// What an install of `providers` for `exporter` leaves of the guard, and hands
    /// back.
    pub open spec fn installs(
        &self,
        reloaded: bool,
        providers: Option<P>,
        exporter: Option<Exporter>,
        swapped: Swapped<P>,
        after: Guard<P>,
    ) -> bool {
        let replaced = reloaded && self.installation() is Some;
        &&& after.installation() == self.installation()
        &&& after.read_only() == self.read_only()
        &&& (after.live(), swapped.retired) == after_install(self.live(), replaced, providers)
        &&& if replaced {
            &&& after.configured() == exporter
            &&& swapped.note is None
        } else {
            &&& after == *self
            &&& swapped.note == (if self.installation() is Some {
                Some(Note::LayersGone)
            } else {
                None
            })
        }
    }

    /// Point the live log and span export at `exporter`, or at nothing: what to do
    /// about `event`.
    ///
    /// Ignored, whatever happened, where the environment set the exporter (the
    /// fleet's variables win over a pane) and on a guard that installed nothing. A
    /// helper that fails or an exporter that cannot be built still ends in an
    /// install, of nothing, with one line saying why. The guard changes only once the
    /// layers are in place.
    pub fn set_exporter(
        &mut self,
        exporter: &Option<Exporter>,
        event: SwapEvent<P>,
    ) -> (step: SwapStep<P>)
        ensures
            old(self).set_step(*exporter, event, step, *final(self)),
    {
        if self.from_env {
            return SwapStep::Done(
                Swapped { retired: unwired(event), note: Some(Note::EnvironmentWins) },
            );
        }
        let installed: Installed = match &self.installed {
            Some(installed) => *installed,
            None => return SwapStep::Done(
                Swapped { retired: unwired(event), note: Some(Note::NothingInstalled) },
            ),
        };
        match event {
            SwapEvent::Reloaded { reloaded, providers } => {
                let exporter: Option<Exporter> = match exporter {
                    Some(exporter) => Some(exporter.clone()),
                    None => None,
                };
                SwapStep::Done(self.install(reloaded, providers, exporter))
            },
            SwapEvent::Asked => match exporter {
                Some(wanted) => SwapStep::Authenticate(headers_for(wanted)),
                None => SwapStep::Reload { note: None },
            },
            SwapEvent::Authenticated { answer, timeouts } => match (exporter, answer) {
                (None, _) => SwapStep::Reload { note: None },
                (Some(_), Err(why)) => SwapStep::Reload { note: Some(Note::LocalOnly { why }) },
                (Some(wanted), Ok(headers)) => {
                    let plan: Option<ProviderPlan> = build_providers(
                        installed.service_name,
                        installed.service_version,
                        &headers,
                        Some(wanted.endpoint.as_str()),
                        &timeouts,
                    );
                    match plan {
                        Some(plan) => SwapStep::Build(plan),
                        None => SwapStep::Reload { note: Some(Note::NotBuilt) },
                    }
                },
            },
            SwapEvent::Built { built } => {
                let note: Option<Note> = if built || exporter.is_none() {
                    None
                } else {
                    Some(Note::NotBuilt)
                };
                SwapStep::Reload { note }
            },
        }
    }

    /// The exporter this process is configured for, for a pane to show. A configured
    /// exporter whose helper failed or whose endpoint would not build still reads
    /// back here.
    pub fn exporter(&self) -> (exporter: Option<Exporter>)
        ensures
            exporter == self.configured(),
    {
        match &self.exporter {
            Some(exporter) => Some(exporter.clone()),
            None => None,
        }
    }

    /// True when the environment set the exporter, which makes it read-only.
    pub fn exporter_is_from_env(&self) -> (yes: bool)
        ensures
            yes == self.read_only(),
            yes ==> self.configured() is Some,
    {
        proof {
            use_type_invariant(self);
        }
        self.from_env
    }

    /// What was installed.
    pub fn installed(&self) -> (installed: Option<Installed>)
        ensures
            installed == self.installation(),
    {
        self.installed
    }

    /// Whether providers are live.
    pub fn is_live(&self) -> (yes: bool)
        ensures
            yes == (self.live() is Some),
    {
        self.providers.is_some()
    }

    /// Keep what replaced the live layers, and hand back what it replaced.
    /// `reloaded` is whether the layers could be put in place; where they could not,
    /// the guard is unchanged and `providers` itself is handed back.
    fn install(
        &mut self,
        reloaded: bool,
        providers: Option<P>,
        exporter: Option<Exporter>,
    ) -> (swapped: Swapped<P>)
        requires
            !old(self).read_only(),
        ensures
            old(self).installs(reloaded, providers, exporter, swapped, *final(self)),
    {
        if self.installed.is_none() {
            return Swapped { retired: providers, note: None };
        }
        if !reloaded {
            return Swapped { retired: providers, note: Some(Note::LayersGone) };
        }
        let mut providers: Option<P> = providers;
        std::mem::swap(&mut self.providers, &mut providers);
        self.exporter = exporter;
        Swapped { retired: providers, note: None }
    }

    /// Take the live providers out, to be flushed and shut down at exit.
    pub fn release(&mut self) -> (providers: Option<P>)
        ensures
            providers == old(self).live(),
            final(self).live() is None,
            final(self).installation() == old(self).installation(),
            final(self).configured() == old(self).configured(),
            final(self).read_only() == old(self).read_only(),
    {
        proof {
            use_type_invariant(&*self);
        }
        let mut taken: Option<P> = None;
        std::mem::swap(&mut self.providers, &mut taken);
        taken
    }
}

/// The providers that an event hands over.
pub open spec fn handed<P>(event: SwapEvent<P>) -> Option<P> {
    match event {
        SwapEvent::Reloaded { reloaded: _, providers } => providers,
        _ => None,
    }
}

/// The providers that an event hands over, which nothing will be wired to.
fn unwired<P>(event: SwapEvent<P>) -> (providers: Option<P>)
    ensures
        providers == handed(event),
{
    match event {
        SwapEvent::Reloaded { reloaded: _, providers } => providers,
        _ => None,
    }
}

/// The live providers and the retired ones, once `given` were to replace `live` and
/// either did or did not.
pub open spec fn after_install<P>(live: Option<P>, replaced: bool, given: Option<P>) -> (
    Option<P>,
    Option<P>,
) {
    if replaced {
        (given, live)
    } else {
        (live, given)
    }
}

/// The step that follows `event`, short of the last, on a guard that installed
/// `installed` and whose exporter is its own to set.
pub open spec fn swap_step<P>(
    installed: Installed,
    exporter: Option<Exporter>,
    event: SwapEvent<P>,
    step: SwapStep<P>,
) -> bool {
    match (exporter, event) {
        (_, SwapEvent::Reloaded { .. }) => step is Done,
        (None, _) => step == (SwapStep::<P>::Reload { note: None }),
        (Some(wanted), SwapEvent::Asked) => step matches SwapStep::Authenticate(credential)
            && credential_of(credential, wanted),
        (Some(wanted), SwapEvent::Authenticated { answer: Err(why), timeouts }) => step == (
        SwapStep::<P>::Reload { note: Some(Note::LocalOnly { why }) }),
        (Some(wanted), SwapEvent::Authenticated { answer: Ok(headers), timeouts }) => if blank(
            wanted.endpoint@,
        ) {
            step == (SwapStep::<P>::Reload { note: Some(Note::NotBuilt) })
        } else {
            step matches SwapStep::Build(plan) && providers_planned(
                plan,
                installed.service_name@,
                installed.service_version@,
                headers.entries(),
                Some(wanted.endpoint@),
                timeouts,
            )
        },
        (Some(wanted), SwapEvent::Built { built }) => step == (SwapStep::<P>::Reload {
            note: if built {
                None
            } else {
                Some(Note::NotBuilt)
            },
        }),
    }
}

/// Whether a process's telemetry was claimed. The first init claims it; a later one
/// finds it claimed.
pub struct Claim {
    claimed: bool,
}

impl Claim {
    /// Whether it was claimed.
    pub closed spec fn taken(&self) -> bool {
        self.claimed
    }

    /// A claim that nothing has made yet.
    pub fn new() -> (claim: Self)
        ensures
            !claim.taken(),
    {
        Claim { claimed: false }
    }

    /// Make the claim, and say whether it was already made.
    pub fn take(&mut self) -> (already: bool)
        ensures
            already == old(self).taken(),
            final(self).taken(),
    {
        let already: bool = self.claimed;
        self.claimed = true;
        already
    }
}

/// What the outside reports while telemetry is being installed.
pub enum InitEvent<'a, P> {
    /// Init was called, for the first time or again.
    Called { already: bool },
    /// The environment's exporter is this.
    Environment(&'a Option<Exporter>),
    /// The environment's exporter's credential came to this.
    Authenticated { answer: Result<Headers, &'static str>, timeouts: TimeoutVariables },
    /// The layers were handed to the process: whether they were taken, what the
    /// environment's exporter was, why nothing was to leave the device if so, and
    /// which providers the layers are wired to.
    Subscribed {
        installed: bool,
        from_env: Option<Exporter>,
        local_only: Option<&'static str>,
        providers: Option<P>,
    },
}

/// What to do next while telemetry is being installed.
pub enum InitStep<P> {
    /// Read the environment's exporter.
    ReadEnvironment,
    /// Find out what the environment's exporter authenticates with.
    Authenticate(Credential),
    /// Build both providers, and hand their layers to the process.
    Build(ProviderPlan),
    /// Hand the process layers that let nothing leave the device, and why.
    Subscribe { why: &'static str },
    /// Be done.
    Finish(Started<P>),
}

/// What init leaves behind.
pub struct Started<P> {
    /// The guard to hand out.
    pub guard: Guard<P>,
    /// Providers that reach nothing: flush and shut them down.
    pub shut_down: Option<P>,
    /// What to say.
    pub note: Option<Note>,
}

/// What is said once the layers are in place.
pub open spec fn init_note(local_only: Option<&'static str>, built: bool) -> Option<Note> {
    match local_only {
        Some(why) => Some(Note::LocalOnly { why }),
        None => if built {
            None
        } else {
            Some(Note::NoExporter)
        },
    }
}

/// The step that follows `event` while telemetry is being installed.
pub open spec fn init_step<P>(
    service_name: &'static str,
    service_version: &'static str,
    event: InitEvent<'_, P>,
    step: InitStep<P>,
) -> bool {
    match event {
        InitEvent::Called { already: false } => step is ReadEnvironment,
        InitEvent::Called { already: true } => {
            &&& step matches InitStep::Finish(started)
            &&& started.guard.is_empty()
            &&& started.shut_down is None
            &&& started.note == Some(Note::AlreadyInitialised)
        },
        InitEvent::Environment(from_env) => match *from_env {
            Some(exporter) => step matches InitStep::Authenticate(credential) && credential_of(
                credential,
                exporter,
            ),
            None => step matches InitStep::Subscribe { why } && why@ == ENDPOINT_UNSET@,
        },
        InitEvent::Authenticated { answer: Err(why), timeouts } => step == (InitStep::<P>::Subscribe {
            why,
        }),
        InitEvent::Authenticated { answer: Ok(headers), timeouts } => {
            &&& step matches InitStep::Build(build)
            &&& providers_planned(
                build,
                service_name@,
                service_version@,
                headers.entries(),
                None,
                timeouts,
            )
        },
        InitEvent::Subscribed { installed: false, from_env, local_only, providers } => {
            &&& step matches InitStep::Finish(started)
            &&& started.guard.is_empty()
            &&& started.shut_down == providers
            &&& started.note == Some(Note::AnotherSubscriber)
        },
        InitEvent::Subscribed { installed: true, from_env, local_only, providers } => {
            &&& step matches InitStep::Finish(started)
            &&& started.guard.live() == providers
            &&& started.guard.installation() == Some(Installed { service_name, service_version })
            &&& started.guard.configured() == from_env
            &&& started.guard.read_only() == (from_env is Some)
            &&& started.shut_down is None
            &&& started.note == init_note(local_only, providers is Some)
        },
    }
}

/// Install the process's telemetry: what to do about `event`.
///
/// A second call builds nothing and ends at once with an empty guard. An unset
/// endpoint, or a missing or failing helper, degrades to local only with one line
/// saying which. Where something else owns the global subscriber the layers reach
/// nothing, so the providers are handed back to be shut down rather than kept
/// behind a live-looking guard.
pub fn init<P>(
    service_name: &'static str,
    service_version: &'static str,
    event: InitEvent<'_, P>,
) -> (step: InitStep<P>)
    ensures
        init_step(service_name, service_version, event, step),
{
    match event {
        InitEvent::Called { already } => if already {
            InitStep::Finish(
                Started {
                    guard: Guard::default(),
                    shut_down: None,
                    note: Some(Note::AlreadyInitialised),
                },
            )
        } else {
            InitStep::ReadEnvironment
        },
        InitEvent::Environment(from_env) => match from_env {
            Some(exporter) => InitStep::Authenticate(headers_for(exporter)),
            None => InitStep::Subscribe { why: ENDPOINT_UNSET },
        },
        InitEvent::Authenticated { answer, timeouts } => match plan(Some(answer)) {
            Plan::LocalOnly { why } => InitStep::Subscribe { why },
            Plan::Otlp(headers) => {
                let build: Option<ProviderPlan> = build_providers(
                    service_name,
                    service_version,
                    &headers,
                    None,
                    &timeouts,
                );
                InitStep::Build(build.unwrap())
            },
        },
        InitEvent::Subscribed { installed, from_env, local_only, providers } => {
            if !installed {
                return InitStep::Finish(
                    Started {
                        guard: Guard::default(),
                        shut_down: providers,
                        note: Some(Note::AnotherSubscriber),
                    },
                );
            }
            let note: Option<Note> = match local_only {
                Some(why) => Some(Note::LocalOnly { why }),
                None => if providers.is_none() {
                    Some(Note::NoExporter)
                } else {
                    None
                },
            };
            let guard: Guard<P> = Guard {
                from_env: from_env.is_some(),
                providers,
                exporter: from_env,
                installed: Some(Installed { service_name, service_version }),
            };
            InitStep::Finish(Started { guard, shut_down: None, note })
        },
    }
}

// ---------------------------------------------------------------------------
// Shutting down
// ---------------------------------------------------------------------------

/// The total a shutdown may spend flushing, so neither exit nor a settings change
/// is delayed.
pub const SHUTDOWN_BUDGET_NANOS: u128 = 2_000_000_000;

/// How long a household outbound call may take to connect before it is dead.
pub const CONNECT_TIMEOUT_MILLIS: u64 = 10_000;

/// What is left of a shutdown's budget after `elapsed`.
pub open spec fn budget_left(elapsed: int) -> int {
    if elapsed < SHUTDOWN_BUDGET_NANOS {
        SHUTDOWN_BUDGET_NANOS - elapsed
    } else {
        0
    }
}

/// How long the next provider may take to shut down, `elapsed_nanos` into the
/// shutdown of both.
pub fn shutdown_left(elapsed_nanos: u128) -> (left: u128)
    ensures
        left == budget_left(elapsed_nanos as int),
{
    if elapsed_nanos < SHUTDOWN_BUDGET_NANOS {
        SHUTDOWN_BUDGET_NANOS - elapsed_nanos
    } else {
        0
    }
}

/// Two providers shut down one after the other, each within what is left of the
/// budget when its turn comes, are both down within the budget.
pub proof fn both_shut_down_within_the_budget(logs_took: int, traces_took: int)
    requires
        0 <= logs_took <= budget_left(0),
        0 <= traces_took <= budget_left(logs_took),
    ensures
        logs_took + traces_took <= SHUTDOWN_BUDGET_NANOS,
{
}

// ---------------------------------------------------------------------------
// What holds across steps
// ---------------------------------------------------------------------------

/// Setting an exporter runs the helper at most once, builds at most once and reloads
/// at most once: only the first event authenticates, only the second builds, none but
/// a reload is followed by the end, and pointing at nothing needs only the reload.
pub proof fn a_swap_authenticates_and_builds_once<P>(
    installed: Installed,
    exporter: Option<Exporter>,
    event: SwapEvent<P>,
    step: SwapStep<P>,
)
    requires
        swap_step(installed, exporter, event, step),
    ensures
        step is Authenticate ==> event is Asked,
        step is Build ==> event is Authenticated,
        event is Built ==> step is Reload,
        step is Done <==> event is Reloaded,
        exporter is None && !(event is Reloaded) ==> step == (SwapStep::<P>::Reload { note: None }),
{
}

/// A swap says that telemetry is local only exactly where an exporter was wanted and
/// nothing was built for it.
pub proof fn a_swap_that_degrades_says_so<P>(
    installed: Installed,
    exporter: Option<Exporter>,
    event: SwapEvent<P>,
    note: Option<Note>,
)
    requires
        swap_step(installed, exporter, event, SwapStep::Reload { note }),
    ensures
        note is Some <==> exporter is Some && !(event matches SwapEvent::Built { built: true }),
{
}

/// One whole call of [`Guard::set_exporter`], whatever the outside did: the guard as it
/// was, each step and what was reported of it, what is left to be done, and the guard
/// as it became. What is reported of a step that did not come counts for nothing.
pub struct SwapCall<P> {
    pub before: Guard<P>,
    pub exporter: Option<Exporter>,
    /// The first step.
    pub asked: SwapStep<P>,
    /// What the credential came to.
    pub answer: Result<Headers, &'static str>,
    pub timeouts: TimeoutVariables,
    /// The step once there is nothing to authenticate.
    pub planned: SwapStep<P>,
    /// What building came to.
    pub built: Option<P>,
    /// The step once there is nothing to build.
    pub ready: SwapStep<P>,
    /// Whether the layers could be put in place.
    pub reloaded: bool,
    pub swapped: Swapped<P>,
    pub after: Guard<P>,
}

/// The providers whose layers a call puts in place: what was built, where it was asked
/// for.
pub open spec fn swap_given<P>(call: SwapCall<P>) -> Option<P> {
    if call.planned is Build {
        call.built
    } else {
        None
    }
}

/// Every step of a call is the one that [`Guard::set_exporter`] gives, for the same
/// exporter and with what the step before it came to.
pub open spec fn swaps<P>(call: SwapCall<P>) -> bool {
    &&& call.before.set_step(call.exporter, SwapEvent::Asked, call.asked, call.before)
    &&& if call.asked is Authenticate {
        call.before.set_step(
            call.exporter,
            SwapEvent::Authenticated { answer: call.answer, timeouts: call.timeouts },
            call.planned,
            call.before,
        )
    } else {
        call.planned == call.asked
    }
    &&& if call.planned is Build {
        call.before.set_step(
            call.exporter,
            SwapEvent::Built { built: call.built is Some },
            call.ready,
            call.before,
        )
    } else {
        call.ready == call.planned
    }
    &&& if call.ready is Reload {
        call.before.set_step(
            call.exporter,
            SwapEvent::Reloaded { reloaded: call.reloaded, providers: swap_given(call) },
            SwapStep::Done(call.swapped),
            call.after,
        )
    } else {
        call.ready == SwapStep::Done(call.swapped) && call.after == call.before
    }
}

/// A whole call of [`Guard::set_exporter`] leaves the guard configured with the exporter
/// it was given, and live exactly where that exporter's providers were asked for and
/// built: they are asked for where its helper answered and its endpoint is not blank.
/// What was live before is handed back. Where nothing was built one line says why, and
/// the exporter is kept all the same. Where the layers are gone, or the exporter is not
/// this guard's to set, the guard is as it was and nothing that was built is lost.
pub proof fn a_swap_ends_as_it_was_asked<P>(call: SwapCall<P>)
    requires
        swaps(call),
    ensures
        (call.after.live(), call.swapped.retired) == after_install(
            call.before.live(),
            call.before.changeable() && call.reloaded,
            swap_given(call),
        ),
        call.after.installation() == call.before.installation(),
        call.after.read_only() == call.before.read_only(),
        call.planned is Build <==> {
            &&& call.before.changeable()
            &&& call.answer is Ok
            &&& call.exporter matches Some(wanted) && !blank(wanted.endpoint@)
        },
        if call.before.changeable() && call.reloaded {
            &&& call.after.configured() == call.exporter
            &&& call.after.live() is Some <==> call.planned is Build && call.built is Some
            &&& call.swapped.note is None
        } else {
            call.after == call.before
        },
        if call.before.changeable() {
            &&& call.ready == (SwapStep::<P>::Reload { note: swap_note(call) })
            &&& !call.reloaded ==> call.swapped.note == Some(Note::LayersGone)
        } else {
            call.swapped.note == Some(
                if call.before.read_only() {
                    Note::EnvironmentWins
                } else {
                    Note::NothingInstalled
                },
            )
        },
{
}

/// What a call says before the layers are put in place.
pub open spec fn swap_note<P>(call: SwapCall<P>) -> Option<Note> {
    if call.exporter is None || swap_given(call) is Some {
        None
    } else {
        match call.answer {
            Err(why) => Some(Note::LocalOnly { why }),
            Ok(_) => Some(Note::NotBuilt),
        }
    }
}

/// Whatever init is told, it ends with an empty guard or with one that installed
/// something, and every provider it was handed is either live in the guard or handed
/// back to be shut down, never both and never neither.
pub proof fn init_keeps_track_of_providers<P>(
    service_name: &'static str,
    service_version: &'static str,
    installed: bool,
    from_env: Option<Exporter>,
    local_only: Option<&'static str>,
    providers: Option<P>,
    step: InitStep<P>,
)
    requires
        init_step(
            service_name,
            service_version,
            InitEvent::Subscribed { installed, from_env, local_only, providers },
            step,
        ),
    ensures
        step matches InitStep::Finish(started) && {
            &&& started.guard.live() == (if installed {
                providers
            } else {
                None
            })
            &&& started.shut_down == (if installed {
                None
            } else {
                providers
            })
            &&& started.guard.installation() is Some <==> installed
            &&& started.guard.read_only() ==> started.guard.configured() is Some
        },
{
}

/// The fleet is credentialed exactly as a pane is: the environment's exporter by the
/// same command within the same budget as the same exporter set by a pane.
pub proof fn the_fleet_is_credentialed_as_a_pane<P>(
    service_name: &'static str,
    service_version: &'static str,
    installed: Installed,
    exporter: Exporter,
    fleet: Credential,
    pane: Credential,
)
    requires
        init_step::<P>(
            service_name,
            service_version,
            InitEvent::Environment(&Some(exporter)),
            InitStep::Authenticate(fleet),
        ),
        swap_step::<P>(
            installed,
            Some(exporter),
            SwapEvent::Asked,
            SwapStep::Authenticate(pane),
        ),
    ensures
        same_credential(fleet, pane),
        fleet is Run <==> exporter.headers_helper is Some,
{
}

/// What is built for the fleet is what is built for a pane of the same service with
/// the same headers, but for the address, which is left to the SDK's own variables.
pub proof fn the_fleet_is_built_as_a_pane<P>(
    installed: Installed,
    exporter: Exporter,
    headers: Headers,
    timeouts: TimeoutVariables,
    fleet: ProviderPlan,
    pane: ProviderPlan,
)
    requires
        init_step::<P>(
            installed.service_name,
            installed.service_version,
            InitEvent::Authenticated { answer: Ok(headers), timeouts },
            InitStep::Build(fleet),
        ),
        swap_step::<P>(
            installed,
            Some(exporter),
            SwapEvent::Authenticated { answer: Ok(headers), timeouts },
            SwapStep::Build(pane),
        ),
    ensures
        entry_texts(fleet.resource@) == entry_texts(pane.resource@),
        fleet.logs.client.fields() == pane.logs.client.fields(),
        fleet.logs.client.timeout() == pane.logs.client.timeout(),
        fleet.traces.client.fields() == pane.traces.client.fields(),
        fleet.traces.client.timeout() == pane.traces.client.timeout(),
        fleet.logs.endpoint is None,
        fleet.traces.endpoint is None,
        pane.logs.endpoint is Some,
        pane.traces.endpoint is Some,
{
}

/// One whole call of [`init`] in a process, whatever its arguments and whatever the
/// outside did: whether telemetry was claimed before it, each step and what was
/// reported of it, and what it left behind. What is reported of a step that did not
/// come counts for nothing.
pub struct InitCall<P> {
    pub service_name: &'static str,
    pub service_version: &'static str,
    pub already: bool,
    /// The environment's exporter.
    pub from_env: Option<Exporter>,
    /// The step once the environment was read.
    pub asked: InitStep<P>,
    /// What the credential came to.
    pub answer: Result<Headers, &'static str>,
    pub timeouts: TimeoutVariables,
    /// The step once there is nothing to authenticate.
    pub planned: InitStep<P>,
    /// What building came to.
    pub built: Option<P>,
    /// Whether the process took the layers.
    pub installed: bool,
    pub started: Started<P>,
}

/// The providers whose layers a call hands to the process: what was built, where it was
/// asked for.
pub open spec fn init_given<P>(call: InitCall<P>) -> Option<P> {
    if call.planned is Build {
        call.built
    } else {
        None
    }
}

/// Why a call lets nothing leave the device, where that is what it does.
pub open spec fn init_why<P>(call: InitCall<P>) -> Option<&'static str> {
    match call.planned {
        InitStep::Subscribe { why } => Some(why),
        _ => None,
    }
}

/// Every step of a call is the one that [`init`] gives, with what the steps before it
/// came to: it ends at once where telemetry was claimed, and otherwise once its layers
/// were handed to the process.
pub open spec fn ends<P>(call: InitCall<P>) -> bool {
    let gives = |event: InitEvent<'_, P>, step: InitStep<P>|
        init_step(call.service_name, call.service_version, event, step);
    if call.already {
        gives(InitEvent::Called { already: true }, InitStep::Finish(call.started))
    } else {
        &&& gives(InitEvent::Environment(&call.from_env), call.asked)
        &&& if call.asked is Authenticate {
            gives(
                InitEvent::Authenticated { answer: call.answer, timeouts: call.timeouts },
                call.planned,
            )
        } else {
            call.planned == call.asked
        }
        &&& gives(
            InitEvent::Subscribed {
                installed: call.installed,
                from_env: call.from_env,
                local_only: init_why(call),
                providers: init_given(call),
            },
            InitStep::Finish(call.started),
        )
    }
}

/// What the first init says, given what the environment set, what its credential came to
/// and what was built.
pub open spec fn init_says<P>(call: InitCall<P>) -> bool {
    match (call.from_env, call.answer) {
        (None, _) => call.started.note matches Some(Note::LocalOnly { why }) && why@
            == ENDPOINT_UNSET@,
        (Some(_), Err(why)) => call.started.note == Some(Note::LocalOnly { why }),
        (Some(_), Ok(_)) => call.started.note == (if call.built is Some {
            None
        } else {
            Some(Note::NoExporter)
        }),
    }
}

/// The first init whose layers the process takes leaves a guard that is configured with
/// the environment's exporter and read-only by it, and live exactly where that
/// exporter's providers were asked for and built: they are asked for where its helper
/// answered. It says why, where nothing was. Where the process does not take the
/// layers, the guard is empty and what was built is handed back.
pub proof fn the_first_init_ends_as_the_environment_asks<P>(call: InitCall<P>)
    requires
        ends(call),
        !call.already,
    ensures
        call.planned is Build <==> call.from_env is Some && call.answer is Ok,
        if call.installed {
            &&& call.started.guard.installation() == Some(
                Installed {
                    service_name: call.service_name,
                    service_version: call.service_version,
                },
            )
            &&& call.started.guard.configured() == call.from_env
            &&& call.started.guard.read_only() <==> call.from_env is Some
            &&& call.started.guard.live() == init_given(call)
            &&& call.started.guard.live() is Some <==> call.planned is Build && call.built is Some
            &&& call.started.shut_down is None
            &&& init_says(call)
        } else {
            &&& call.started.guard.is_empty()
            &&& call.started.shut_down == init_given(call)
            &&& call.started.note == Some(Note::AnotherSubscriber)
        },
{
}

/// Whether telemetry is claimed after `n` calls of init, each of which claims it.
pub open spec fn claimed_after(n: nat) -> bool {
    n > 0
}

/// All calls of init in a process, in the order in which they made their claims.
pub open spec fn process_run<P>(calls: Seq<InitCall<P>>) -> bool {
    forall|i: int|
        0 <= i < calls.len() ==> (#[trigger] calls[i]).already == claimed_after(i as nat) && ends(
            calls[i],
        )
}

/// However often init is called in a process, at most one guard is an installed one.
/// Every guard but the first call's is empty, keeps no provider and asks for none to
/// be shut down, and setting an exporter on it is ignored whatever happens. A call is
/// handed no guard, so none alters the guard of another.
pub proof fn only_the_first_init_installs<P>(calls: Seq<InitCall<P>>)
    requires
        process_run(calls),
    ensures
        forall|i: int|
            0 < i < calls.len() ==> {
                &&& (#[trigger] calls[i]).started.guard.is_empty()
                &&& calls[i].started.shut_down is None
                &&& calls[i].started.note == Some(Note::AlreadyInitialised)
            },
        forall|
            i: int,
            exporter: Option<Exporter>,
            event: SwapEvent<P>,
            step: SwapStep<P>,
            after: Guard<P>,
        |
            0 < i < calls.len() && #[trigger] calls[i].started.guard.set_step(
                exporter,
                event,
                step,
                after,
            ) ==> {
                &&& after == calls[i].started.guard
                &&& step matches SwapStep::Done(swapped)
                &&& swapped.retired == handed(event)
                &&& swapped.note == Some(Note::NothingInstalled)
            },
        forall|i: int, j: int|
            0 <= i < calls.len() && 0 <= j < calls.len() && (
            #[trigger] calls[i]).started.guard.installation() is Some && (
            #[trigger] calls[j]).started.guard.installation() is Some ==> i == j,
{
    assert forall|i: int| 0 < i < calls.len() implies (
    #[trigger] calls[i]).started.guard.is_empty() && calls[i].started.shut_down is None
        && calls[i].started.note == Some(Note::AlreadyInitialised) by {
        assert(claimed_after(i as nat));
        assert(ends(calls[i]));
    }
}

/// One install of a run: whether it replaced the live providers, and by what.
pub struct Install<P> {
    pub replaced: bool,
    pub given: Option<P>,
}

/// The live providers after a run of installs.
pub open spec fn live_after<P>(live: Option<P>, run: Seq<Install<P>>) -> Option<P>
    decreases run.len(),
{
    if run.len() == 0 {
        live
    } else {
        after_install(
            live_after(live, run.drop_last()),
            run.last().replaced,
            run.last().given,
        ).0
    }
}

/// Providers as a collection of none or one.
pub open spec fn collected<P>(providers: Option<P>) -> Multiset<P> {
    match providers {
        Some(providers) => Multiset::singleton(providers),
        None => Multiset::empty(),
    }
}

/// All that a run of installs was given.
pub open spec fn all_given<P>(run: Seq<Install<P>>) -> Multiset<P>
    decreases run.len(),
{
    if run.len() == 0 {
        Multiset::empty()
    } else {
        all_given(run.drop_last()).add(collected(run.last().given))
    }
}

/// All that a run of installs handed back to be shut down.
pub open spec fn all_retired<P>(live: Option<P>, run: Seq<Install<P>>) -> Multiset<P>
    decreases run.len(),
{
    if run.len() == 0 {
        Multiset::empty()
    } else {
        all_retired(live, run.drop_last()).add(
            collected(
                after_install(
                    live_after(live, run.drop_last()),
                    run.last().replaced,
                    run.last().given,
                ).1,
            ),
        )
    }
}

/// Over any run of installs no provider is lost and none is shut down twice: those
/// that were live or given are exactly those that are live or were handed back.
pub proof fn every_provider_is_live_or_handed_back<P>(live: Option<P>, run: Seq<Install<P>>)
    ensures
        collected(live).add(all_given(run)) == collected(live_after(live, run)).add(
            all_retired(live, run),
        ),
    decreases run.len(),
{
    broadcast use vstd::multiset::group_multiset_axioms;

    if run.len() == 0 {
        assert(collected(live).add(all_given(run)) =~= collected(live_after(live, run)).add(
            all_retired(live, run),
        ));
    } else {
        let front = run.drop_last();
        every_provider_is_live_or_handed_back(live, front);
        let before = live_after(live, front);
        let last = run.last();
        assert(collected(live).add(all_given(run)) =~= collected(live).add(all_given(front)).add(
            collected(last.given),
        ));
        assert(collected(before).add(all_retired(live, front)).add(collected(last.given))
            =~= collected(live_after(live, run)).add(all_retired(live, run)));
    }
}

/// What the environment set, and what installed nothing, a pane cannot change: whatever
/// happens the guard is as it was, and providers that are handed over are handed back.
pub proof fn a_pane_cannot_change_what_is_not_its_own<P>(
    guard: Guard<P>,
    exporter: Option<Exporter>,
    event: SwapEvent<P>,
    step: SwapStep<P>,
    after: Guard<P>,
)
    requires
        guard.read_only() || guard.installation() is None,
        guard.set_step(exporter, event, step, after),
    ensures
        after == guard,
        step matches SwapStep::Done(swapped) && {
            &&& guard.read_only() ==> swapped.note == Some(Note::EnvironmentWins)
            &&& !guard.read_only() ==> swapped.note == Some(Note::NothingInstalled)
            &&& match event {
                SwapEvent::Reloaded { reloaded, providers } => swapped.retired == providers,
                _ => swapped.retired is None,
            }
        },
{
}

/// Once the layers are in place the guard is the new exporter's and nothing else's: what
/// was handed over is live, what was live is handed back, and the exporter is the one
/// that was asked for, none included. Where the layers are gone everything is as it was
/// and what was handed over is handed back.
pub proof fn a_swap_leaves_nothing_of_the_old<P>(
    guard: Guard<P>,
    exporter: Option<Exporter>,
    reloaded: bool,
    providers: Option<P>,
    step: SwapStep<P>,
    after: Guard<P>,
)
    requires
        guard.installation() is Some,
        !guard.read_only(),
        guard.set_step(exporter, SwapEvent::Reloaded { reloaded, providers }, step, after),
    ensures
        step matches SwapStep::Done(swapped) && {
            &&& reloaded ==> after.live() == providers && swapped.retired == guard.live()
                && after.configured() == exporter && swapped.note is None
            &&& !reloaded ==> after == guard && swapped.retired == providers && swapped.note
                == Some(Note::LayersGone)
        },
        after.installation() == guard.installation(),
        !after.read_only(),
{
}

/// A pane's exporter is authenticated by its own helper, for ten seconds, and built for
/// the service that was installed, at its own endpoint with the headers its helper
/// printed. Nothing that the guard holds already has a part in it, so an exporter that is
/// set again is built again.
pub proof fn a_swap_builds_what_the_pane_wants<P>(
    guard: Guard<P>,
    wanted: Exporter,
    headers: Headers,
    timeouts: TimeoutVariables,
    asked: SwapStep<P>,
    planned: SwapStep<P>,
)
    requires
        guard.installation() is Some,
        !guard.read_only(),
        !blank(wanted.endpoint@),
        guard.set_step(Some(wanted), SwapEvent::Asked, asked, guard),
        guard.set_step(
            Some(wanted),
            SwapEvent::Authenticated { answer: Ok(headers), timeouts },
            planned,
            guard,
        ),
    ensures
        asked matches SwapStep::Authenticate(credential) && match wanted.headers_helper {
            Some(helper) => credential == (Credential::Run {
                command: helper,
                budget_millis: 10_000,
            }),
            None => credential matches Credential::Ready(none) && none.entries().len() == 0,
        },
        planned matches SwapStep::Build(plan) && providers_planned(
            plan,
            guard.installation()->0.service_name@,
            guard.installation()->0.service_version@,
            headers.entries(),
            Some(wanted.endpoint@),
            timeouts,
        ),
{
}

/// A swap that comes to nothing says why: a helper that fails in its own words, and
/// everything else in one phrase; one that comes to something says nothing.
pub proof fn a_swap_says_what_went_wrong<P>(
    guard: Guard<P>,
    wanted: Exporter,
    event: SwapEvent<P>,
    step: SwapStep<P>,
    after: Guard<P>,
)
    requires
        guard.installation() is Some,
        !guard.read_only(),
        guard.set_step(Some(wanted), event, step, after),
    ensures
        match event {
            SwapEvent::Asked => step is Authenticate,
            SwapEvent::Authenticated { answer: Err(why), timeouts } => step == (SwapStep::<
                P,
            >::Reload { note: Some(Note::LocalOnly { why }) }),
            SwapEvent::Authenticated { answer: Ok(_), timeouts } => blank(wanted.endpoint@)
                ==> step == (SwapStep::<P>::Reload { note: Some(Note::NotBuilt) }),
            SwapEvent::Built { built: true } => step == (SwapStep::<P>::Reload { note: None }),
            SwapEvent::Built { built: false } => step == (SwapStep::<P>::Reload {
                note: Some(Note::NotBuilt),
            }),
            SwapEvent::Reloaded { .. } => step is Done,
        },
        !(event is Reloaded) ==> after == guard,
{
}

/// Pointing at nothing asks for nothing: no helper is run and nothing is built, whatever
/// happened.
pub proof fn pointing_at_nothing_asks_for_nothing<P>(
    guard: Guard<P>,
    event: SwapEvent<P>,
    step: SwapStep<P>,
    after: Guard<P>,
)
    requires
        guard.installation() is Some,
        !guard.read_only(),
        !(event is Reloaded),
        guard.set_step(None, event, step, after),
    ensures
        step == (SwapStep::<P>::Reload { note: None }),
        after == guard,
{
}

/// Init does what the environment asks: the exporter it set is authenticated by its own
/// helper, for ten seconds, and built for the service that was named with the headers the
/// helper printed, its address left to the SDK. Where it set none, or the helper fails,
/// nothing leaves the device and the reason is the one there is.
pub proof fn init_does_what_the_environment_asks<P>(
    service_name: &'static str,
    service_version: &'static str,
    exporter: Exporter,
    answer: Result<Headers, &'static str>,
    timeouts: TimeoutVariables,
    unset: InitStep<P>,
    asked: InitStep<P>,
    planned: InitStep<P>,
)
    requires
        init_step(service_name, service_version, InitEvent::Environment(&None), unset),
        init_step(service_name, service_version, InitEvent::Environment(&Some(exporter)), asked),
        init_step(
            service_name,
            service_version,
            InitEvent::Authenticated { answer, timeouts },
            planned,
        ),
    ensures
        unset matches InitStep::Subscribe { why } && why@
            == "OTEL_EXPORTER_OTLP_ENDPOINT is unset"@,
        asked matches InitStep::Authenticate(credential) && match exporter.headers_helper {
            Some(helper) => credential == (Credential::Run {
                command: helper,
                budget_millis: 10_000,
            }),
            None => credential matches Credential::Ready(none) && none.entries().len() == 0,
        },
        match answer {
            Ok(headers) => planned matches InitStep::Build(plan) && providers_planned(
                plan,
                service_name@,
                service_version@,
                headers.entries(),
                None,
                timeouts,
            ),
            Err(why) => planned == (InitStep::<P>::Subscribe { why }),
        },
{
}

/// An init that finds telemetry claimed ends at once and with nothing; one that does not
/// goes on.
pub proof fn a_claimed_init_ends_with_nothing<P>(
    service_name: &'static str,
    service_version: &'static str,
    already: bool,
    step: InitStep<P>,
)
    requires
        init_step(service_name, service_version, InitEvent::Called { already }, step),
    ensures
        !already ==> step is ReadEnvironment,
        already ==> (step matches InitStep::Finish(started) && {
            &&& started.guard.live() is None
            &&& started.guard.installation() is None
            &&& started.guard.configured() is None
            &&& !started.guard.read_only()
            &&& started.shut_down is None
            &&& started.note == Some(Note::AlreadyInitialised)
        }),
{
}

/// An empty guard holds nothing at all.
pub proof fn an_empty_guard_holds_nothing<P>(guard: Guard<P>)
    ensures
        guard.is_empty() <==> guard.live() is None && guard.installation() is None
            && guard.configured() is None && !guard.read_only(),
        guard.changeable() <==> guard.installation() is Some && !guard.read_only(),
{
}

/// A reason is said whole, whatever it is, and two reasons are never said alike.
pub proof fn a_reason_is_said_whole(why: &'static str, other: &'static str)
    ensures
        (Note::LocalOnly { why }).text() == "telemetry is local only: "@ + why@,
        (Note::LocalOnly { why }).text() == (Note::LocalOnly { why: other }).text() ==> why@
            == other@,
{
    let front = "telemetry is local only: "@;
    assert((front + why@).skip(front.len() as int) =~= why@);
    assert((front + other@).skip(front.len() as int) =~= other@);
}

/// The whole of two seconds may be spent on a shutdown: at every moment within them what
/// was spent and what is left make up two seconds, and beyond them nothing is left. An
/// outbound call has ten seconds to connect.
pub proof fn what_was_spent_and_what_is_left_make_two_seconds(elapsed: int)
    requires
        elapsed >= 0,
    ensures
        elapsed <= 2_000_000_000 ==> elapsed + budget_left(elapsed) == 2_000_000_000,
        elapsed > 2_000_000_000 ==> budget_left(elapsed) == 0,
        CONNECT_TIMEOUT_MILLIS == 10_000,
{
}

} // verus!
