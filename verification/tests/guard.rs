use telemetry::exporter::{Credential, TimeoutVariables};
use telemetry::guard::{
    shutdown_left, Claim, InitEvent, InitStep, Note, Started, SwapEvent, SwapStep, Swapped,
};
use telemetry::headers::Headers;
use telemetry::{init, Exporter, Guard};

fn unset() -> TimeoutVariables {
    TimeoutVariables { logs: None, traces: None, general: None }
}

fn to(endpoint: &str) -> Exporter {
    Exporter { endpoint: endpoint.to_owned(), headers_helper: None }
}

fn finished<P>(step: InitStep<P>) -> Started<P> {
    match step {
        InitStep::Finish(started) => started,
        _ => panic!("init is done"),
    }
}

fn done<P>(step: SwapStep<P>) -> Swapped<P> {
    match step {
        SwapStep::Done(swapped) => swapped,
        _ => panic!("the swap is done"),
    }
}

/// The end of a swap: whether the layers of `providers` could be put in place.
fn install(
    guard: &mut Guard<&'static str>,
    reloaded: bool,
    providers: Option<&'static str>,
    exporter: Option<Exporter>,
) -> Swapped<&'static str> {
    done(guard.set_exporter(&exporter, SwapEvent::Reloaded { reloaded, providers }))
}

/// A guard over a stack that was installed, with the exporter the environment
/// supplied, if any.
fn guard_over(from_env: Option<Exporter>) -> Guard<&'static str> {
    let local_only = Some("a test");
    let event = InitEvent::Subscribed { installed: true, from_env, local_only, providers: None };
    finished(init("test-service", "0.0.0", event)).guard
}

#[test]
fn a_dead_endpoint_neither_blocks_nor_panics_and_a_second_init_builds_nothing() {
    let mut claim = Claim::new();
    let already = claim.take();
    let first: InitStep<&str> = init("test-service", "0.0.0", InitEvent::Called { already });
    assert!(matches!(first, InitStep::ReadEnvironment));
    let headers = Headers::of(vec![("Authorization".to_owned(), "Bearer test".to_owned())]);
    let answered = InitEvent::Authenticated { answer: Ok(headers), timeouts: unset() };
    let built: InitStep<&str> = init("test-service", "0.0.0", answered);
    match built {
        InitStep::Build(build) => {
            assert_eq!(build.logs.client.debug_text(), "HeaderClient { headers: 1 }");
            assert_eq!(build.logs.endpoint, None);
        }
        _ => panic!("the OTLP providers are built"),
    }
    let mut started = finished(init(
        "test-service",
        "0.0.0",
        InitEvent::Subscribed {
            installed: true,
            from_env: Exporter::from_env(Some("http://127.0.0.1:9/".to_owned()), None),
            local_only: None,
            providers: Some("providers"),
        },
    ));
    assert!(started.guard.is_live(), "the OTLP providers were built");
    assert!(started.guard.exporter_is_from_env(), "the environment set it");
    assert_eq!(
        started.guard.exporter().map(|e| e.endpoint),
        Some("http://127.0.0.1:9/".to_owned())
    );
    assert_eq!(started.note, None);
    assert_eq!(started.shut_down, None);

    let already = claim.take();
    let second: InitStep<&str> = init("test-service", "0.0.0", InitEvent::Called { already });
    let second = finished(second);
    assert!(!second.guard.is_live(), "a second init builds nothing");
    assert_eq!(second.note, Some(Note::AlreadyInitialised));

    assert_eq!(started.guard.release(), Some("providers"));
    assert_eq!(started.guard.release(), None);
}

#[test]
fn a_swap_sends_the_next_record_only_to_the_new_destination() {
    let mut guard = guard_over(None);
    let swapped = install(&mut guard, true, Some("first"), None);
    assert_eq!(swapped.retired, None);
    let swapped = install(&mut guard, true, Some("second"), Some(to("http://127.0.0.1:9")));
    assert_eq!(swapped.retired, Some("first"), "the retired providers are shut down");
    assert_eq!(swapped.note, None);
    assert_eq!(
        guard.exporter().map(|e| e.endpoint),
        Some("http://127.0.0.1:9".to_owned())
    );
    assert_eq!(guard.release(), Some("second"));
}

/// The fleet's variables win over a pane: on a machine that sets them, a settings
/// pane is a read-only display.
#[test]
fn an_exporter_from_the_environment_cannot_be_replaced_by_a_pane() {
    let from_env = Exporter::from_env(Some("http://127.0.0.1:9/".to_owned()), None)
        .expect("the environment set one");
    let mut guard = guard_over(Some(from_env.clone()));
    let wanted = Some(to("http://127.0.0.1:10/"));
    for event in [
        SwapEvent::Asked,
        SwapEvent::Authenticated { answer: Ok(Headers::new()), timeouts: unset() },
        SwapEvent::Built { built: true },
    ] {
        let swapped = done(guard.set_exporter(&wanted, event));
        assert_eq!(swapped.note, Some(Note::EnvironmentWins), "the environment wins");
        assert_eq!(swapped.retired, None);
    }
    assert!(guard.exporter_is_from_env());
    assert_eq!(guard.exporter(), Some(from_env));
    assert!(!guard.is_live(), "nothing was built");
}

#[test]
fn an_install_over_the_environments_exporter_changes_nothing() {
    let mut guard = guard_over(Some(to("http://fleet")));
    let swapped = install(&mut guard, true, Some("orphan"), None);
    assert_eq!(swapped.retired, Some("orphan"));
    assert_eq!(swapped.note, Some(Note::EnvironmentWins));
    assert!(guard.exporter_is_from_env());
    assert_eq!(guard.exporter(), Some(to("http://fleet")));
    assert!(!guard.is_live());
}

#[test]
fn only_the_first_of_many_inits_installs() {
    let mut claim = Claim::new();
    let mut installed = 0;
    for call in 0..4 {
        let already = claim.take();
        assert_eq!(already, call > 0);
        let step: InitStep<&str> = init("s", "1", InitEvent::Called { already });
        let started = match step {
            InitStep::Finish(started) => started,
            _ => finished(init(
                "s",
                "1",
                InitEvent::Subscribed {
                    installed: true,
                    from_env: Some(to("http://h")),
                    local_only: None,
                    providers: Some("providers"),
                },
            )),
        };
        if started.guard.installed().is_some() {
            installed += 1;
            continue;
        }
        assert!(!started.guard.is_live());
        assert_eq!(started.guard.exporter(), None);
        assert!(!started.guard.exporter_is_from_env());
        assert_eq!(started.shut_down, None);
        let mut guard = started.guard;
        let swapped = done(guard.set_exporter(&Some(to("http://pane")), SwapEvent::Asked));
        assert_eq!(swapped.note, Some(Note::NothingInstalled), "there is nothing to swap");
        assert_eq!(guard.exporter(), None);
    }
    assert_eq!(installed, 1);
}

#[test]
fn the_fleet_authenticates_as_a_pane_does() {
    let exporter = Some(Exporter {
        endpoint: "http://h/".to_owned(),
        headers_helper: Some("signet headers".to_owned()),
    });
    let fleet: InitStep<&str> = init("test-service", "0.0.0", InitEvent::Environment(&exporter));
    let pane = guard_over(None).set_exporter(&exporter, SwapEvent::Asked);
    match (fleet, pane) {
        (
            InitStep::Authenticate(Credential::Run { command, budget_millis }),
            SwapStep::Authenticate(Credential::Run { command: theirs, budget_millis: allowed }),
        ) => {
            assert_eq!(command, "signet headers");
            assert_eq!(command, theirs);
            assert_eq!(budget_millis, 10_000);
            assert_eq!(budget_millis, allowed);
        }
        _ => panic!("both run the helper first"),
    }
    let bare = Some(to("http://h/"));
    let fleet: InitStep<&str> = init("test-service", "0.0.0", InitEvent::Environment(&bare));
    match fleet {
        InitStep::Authenticate(Credential::Ready(headers)) => assert_eq!(headers.len(), 0),
        _ => panic!("no helper, no headers"),
    }
}

/// Drives whole inits, with the helper, the build and the subscriber as given.
#[test]
fn a_whole_init_ends_as_the_environment_asks() {
    for (from_env, helped, built, installed, line) in [
        (Some(to("http://h")), true, Some("new"), true, None),
        (Some(to("http://h")), true, None, true, Some("telemetry: no exporter built")),
        (Some(to("http://h")), false, Some("new"), true, Some("telemetry is local only: no answer")),
        (
            None,
            true,
            Some("new"),
            true,
            Some("telemetry is local only: OTEL_EXPORTER_OTLP_ENDPOINT is unset"),
        ),
        (
            Some(to("http://h")),
            true,
            Some("new"),
            false,
            Some("telemetry: another subscriber is installed; this call installed nothing"),
        ),
    ] {
        let mut step: InitStep<&str> = init("s", "1", InitEvent::Environment(&from_env));
        if let InitStep::Authenticate(_) = step {
            let answer = if helped { Ok(Headers::new()) } else { Err("no answer") };
            step = init("s", "1", InitEvent::Authenticated { answer, timeouts: unset() });
        }
        let (providers, local_only) = match step {
            InitStep::Build(_) => (built, None),
            InitStep::Subscribe { why } => (None, Some(why)),
            _ => panic!("the layers come next"),
        };
        assert_eq!(providers.is_some(), from_env.is_some() && helped && built.is_some());
        let subscribed = InitEvent::Subscribed {
            installed,
            from_env: from_env.clone(),
            local_only,
            providers,
        };
        let mut started = finished(init("s", "1", subscribed));
        assert_eq!(started.note.map(Note::line).as_deref(), line);
        if installed {
            assert_eq!(started.guard.exporter(), from_env);
            assert_eq!(started.guard.exporter_is_from_env(), from_env.is_some());
            assert_eq!(started.guard.release(), providers);
            assert_eq!(started.shut_down, None);
        } else {
            assert_eq!(started.guard.exporter(), None);
            assert!(!started.guard.is_live());
            assert_eq!(started.shut_down, providers);
        }
    }
}

#[test]
fn a_guard_that_installed_nothing_changes_nothing() {
    let mut guard: Guard<&'static str> = Guard::default();
    let swapped = done(guard.set_exporter(&Some(to("http://h")), SwapEvent::Asked));
    assert_eq!(swapped.note, Some(Note::NothingInstalled), "there is nothing to swap");
    let swapped = install(&mut guard, true, Some("orphan"), Some(to("http://h")));
    assert_eq!(swapped.retired, Some("orphan"));
    assert_eq!(swapped.note, Some(Note::NothingInstalled));
    assert_eq!(guard.exporter(), None);
    assert!(guard.installed().is_none());
}

#[test]
fn a_pane_is_asked_for_one_thing_at_a_time() {
    let mut guard = guard_over(None);
    let wanted = Some(Exporter {
        endpoint: "http://h/".to_owned(),
        headers_helper: Some("signet headers".to_owned()),
    });
    match guard.set_exporter(&wanted, SwapEvent::Asked) {
        SwapStep::Authenticate(Credential::Run { command, budget_millis }) => {
            assert_eq!(command, "signet headers");
            assert_eq!(budget_millis, 10_000);
        }
        _ => panic!("the helper runs first"),
    }
    let answered = SwapEvent::Authenticated {
        answer: Ok(Headers::of(vec![("A".to_owned(), "1".to_owned())])),
        timeouts: unset(),
    };
    match guard.set_exporter(&wanted, answered) {
        SwapStep::Build(plan) => {
            assert_eq!(plan.logs.endpoint.as_deref(), Some("http://h/v1/logs"));
            assert_eq!(plan.traces.endpoint.as_deref(), Some("http://h/v1/traces"));
            assert_eq!(plan.resource[0].1, "test-service");
            assert_eq!(plan.resource[1].1, "0.0.0");
            assert_eq!(plan.traces.client.debug_text(), "HeaderClient { headers: 1 }");
        }
        _ => panic!("the providers are built next"),
    }
    match guard.set_exporter(&wanted, SwapEvent::Built { built: true }) {
        SwapStep::Reload { note } => assert_eq!(note, None),
        _ => panic!("the layers are swapped last"),
    }
}

/// Drives whole swaps, with the helper, the build and the reload as given.
#[test]
fn a_whole_swap_ends_as_it_was_asked() {
    let answers: [Result<Headers, &'static str>; 2] = [Ok(Headers::new()), Err("no answer")];
    for answer in answers {
        for (wanted, built, reloaded) in [
            (Some(to("http://h")), Some("new"), true),
            (Some(to("http://h")), None, true),
            (Some(to("http://h")), Some("new"), false),
            (Some(to(" ")), Some("new"), true),
            (None, Some("new"), true),
        ] {
            let mut guard = guard_over(None);
            install(&mut guard, true, Some("old"), Some(to("http://old")));
            let mut answer = Some(match &answer {
                Ok(_) => Ok(Headers::new()),
                Err(why) => Err(*why),
            });
            let asked_for = answer.as_ref().is_some_and(|a| a.is_ok())
                && wanted.as_ref().is_some_and(|w| w.endpoint == "http://h");
            let mut providers = None;
            let mut said = None;
            let mut event = SwapEvent::Asked;
            let swapped = loop {
                event = match guard.set_exporter(&wanted, event) {
                    SwapStep::Authenticate(_) => SwapEvent::Authenticated {
                        answer: answer.take().expect("the helper runs once"),
                        timeouts: unset(),
                    },
                    SwapStep::Build(_) => {
                        providers = built;
                        SwapEvent::Built { built: built.is_some() }
                    }
                    SwapStep::Reload { note } => {
                        said = note;
                        SwapEvent::Reloaded { reloaded, providers }
                    }
                    SwapStep::Done(swapped) => break swapped,
                };
            };
            let live = if asked_for { built } else { None };
            assert_eq!(said.is_some(), wanted.is_some() && live.is_none());
            if reloaded {
                assert_eq!(guard.exporter(), wanted);
                assert_eq!(swapped.retired, Some("old"));
                assert_eq!(guard.release(), live);
            } else {
                assert_eq!(guard.exporter(), Some(to("http://old")));
                assert_eq!(swapped.retired, live);
                assert_eq!(swapped.note, Some(Note::LayersGone));
                assert_eq!(guard.release(), Some("old"));
            }
        }
    }
}

#[test]
fn a_swap_that_degrades_says_one_line() {
    let mut guard = guard_over(None);
    let wanted = Some(to("http://h/"));
    let failed = SwapEvent::Authenticated { answer: Err("the header helper timed out"), timeouts: unset() };
    for (exporter, event, line) in [
        (&wanted, failed, "telemetry is local only: the header helper timed out"),
        (
            &wanted,
            SwapEvent::Built { built: false },
            "telemetry is local only: no exporter could be built",
        ),
        (
            &Some(to(" ")),
            SwapEvent::Authenticated { answer: Ok(Headers::new()), timeouts: unset() },
            "telemetry is local only: no exporter could be built",
        ),
    ] {
        match guard.set_exporter(exporter, event) {
            SwapStep::Reload { note } => assert_eq!(note.expect("one line").line(), line),
            _ => panic!("a failure still installs, of nothing"),
        }
    }
}

#[test]
fn a_configured_exporter_reads_back_even_where_nothing_was_built() {
    let mut guard = guard_over(None);
    install(&mut guard, true, None, Some(to("http://h")));
    assert!(!guard.is_live());
    assert_eq!(guard.exporter(), Some(to("http://h")));
    match guard.set_exporter(&None, SwapEvent::Asked) {
        SwapStep::Reload { note } => assert_eq!(note, None),
        _ => panic!("pointing at nothing needs nothing"),
    }
    install(&mut guard, true, None, None);
    assert_eq!(guard.exporter(), None);
}

#[test]
fn a_stack_that_is_gone_leaves_the_exporter_unchanged() {
    let mut guard = guard_over(None);
    install(&mut guard, true, Some("first"), Some(to("http://one")));
    let swapped = install(&mut guard, false, Some("second"), Some(to("http://two")));
    assert_eq!(swapped.retired, Some("second"));
    assert_eq!(swapped.note, Some(Note::LayersGone));
    assert_eq!(guard.exporter(), Some(to("http://one")));
    assert_eq!(guard.release(), Some("first"));
}

#[test]
fn another_subscriber_leaves_an_empty_guard() {
    let started = finished(init(
        "s",
        "1",
        InitEvent::Subscribed {
            installed: false,
            from_env: Some(to("http://h")),
            local_only: None,
            providers: Some("orphan"),
        },
    ));
    assert_eq!(started.shut_down, Some("orphan"));
    assert_eq!(started.note, Some(Note::AnotherSubscriber));
    assert_eq!(started.guard.exporter(), None);
    assert!(!started.guard.exporter_is_from_env());
}

#[test]
fn an_init_that_degrades_says_which() {
    let step: InitStep<&str> = init("s", "1", InitEvent::Environment(&None));
    match step {
        InitStep::Subscribe { why } => assert_eq!(why, "OTEL_EXPORTER_OTLP_ENDPOINT is unset"),
        _ => panic!("nothing is set"),
    }
    let failed = InitEvent::Authenticated { answer: Err("the helper failed"), timeouts: unset() };
    let step: InitStep<&str> = init("s", "1", failed);
    match step {
        InitStep::Subscribe { why } => assert_eq!(why, "the helper failed"),
        _ => panic!("there is no credential"),
    }
    for (local_only, line) in [
        (
            Some("OTEL_EXPORTER_OTLP_ENDPOINT is unset"),
            "telemetry is local only: OTEL_EXPORTER_OTLP_ENDPOINT is unset",
        ),
        (None, "telemetry: no exporter built"),
    ] {
        let event = InitEvent::Subscribed {
            installed: true,
            from_env: None,
            local_only,
            providers: None::<&str>,
        };
        assert_eq!(finished(init("s", "1", event)).note.expect("one line").line(), line);
    }
}

#[test]
fn every_note_has_its_line() {
    for (note, line) in [
        (
            Note::EnvironmentWins,
            "telemetry: the environment set the exporter and wins; set_exporter installed nothing",
        ),
        (
            Note::NothingInstalled,
            "telemetry: this Guard installed no layers; set_exporter changed nothing",
        ),
        (Note::LocalOnly { why: "x" }, "telemetry is local only: x"),
        (Note::NotBuilt, "telemetry is local only: no exporter could be built"),
        (Note::NoExporter, "telemetry: no exporter built"),
        (Note::LayersGone, "telemetry: the layer stack is gone; the exporter is unchanged"),
        (
            Note::AlreadyInitialised,
            "telemetry: init was already called; this call installed nothing",
        ),
        (
            Note::AnotherSubscriber,
            "telemetry: another subscriber is installed; this call installed nothing",
        ),
    ] {
        assert_eq!(note.line(), line);
    }
}

#[test]
fn a_shutdown_spends_no_more_than_its_budget() {
    assert_eq!(shutdown_left(0), 2_000_000_000);
    assert_eq!(shutdown_left(500_000_000), 1_500_000_000);
    assert_eq!(shutdown_left(2_000_000_000), 0);
    assert_eq!(shutdown_left(u128::MAX), 0);
}
