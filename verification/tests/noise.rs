use telemetry::allow::Level;
use telemetry::noise::ExporterNoise;

#[test]
fn the_exporters_own_reporting_is_floored_and_rate_limited() {
    let mut noise = ExporterNoise::new();
    assert!(noise.admits("bragi", Level::Debug, 0), "not the exporter");
    assert!(
        !noise.admits("opentelemetry-otlp", Level::Debug, 0),
        "a debug line can carry the collector's response body"
    );
    assert!(noise.admits("opentelemetry_sdk", Level::Error, 0));
    assert!(
        !noise.admits("opentelemetry_sdk", Level::Error, 0),
        "one line a minute, not one per dropped event"
    );
    assert!(noise.admits("bragi", Level::Info, 0), "still untouched");
}

#[test]
fn the_next_line_is_due_a_minute_later() {
    let mut noise = ExporterNoise::new();
    assert!(noise.admits("opentelemetry", Level::Info, 100));
    assert!(!noise.admits("opentelemetry", Level::Info, 159));
    assert!(noise.admits("opentelemetry", Level::Info, 160));
    assert!(!noise.admits("opentelemetry", Level::Info, 219));
}

#[test]
fn a_line_that_was_held_back_does_not_delay_the_next() {
    let mut noise = ExporterNoise::new();
    assert!(noise.admits("opentelemetry_sdk", Level::Warn, 0));
    for second in 1..60 {
        assert!(!noise.admits("opentelemetry_sdk", Level::Warn, second));
    }
    assert!(!noise.admits("opentelemetry_sdk", Level::Trace, 60));
    assert!(noise.admits("opentelemetry_sdk", Level::Warn, 60));
}

#[test]
fn a_clock_that_goes_back_admits_nothing() {
    let mut noise = ExporterNoise::new();
    assert!(noise.admits("opentelemetry_sdk", Level::Error, 500));
    assert!(!noise.admits("opentelemetry_sdk", Level::Error, 3));
}

#[test]
fn a_target_that_only_resembles_the_exporter_passes() {
    let mut noise = ExporterNoise::new();
    assert!(noise.admits("opentelemetr", Level::Trace, 0));
    assert!(noise.admits("my::opentelemetry", Level::Trace, 0));
    assert!(!noise.admits("opentelemetryx", Level::Trace, 0));
}
