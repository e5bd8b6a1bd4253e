use ota_server::env_filter::{target_accepted, to_env_filter};
use ota_server::filter::{covers_text, FilterSet, Rule};
use ota_server::level::{Severity, Threshold};
use ota_server::pipeline::{Pipeline, Sink, Subscriber};
use ota_server::telemetry::{console_filter, standard_pipeline, telemetry_config, telemetry_log_filter, Compression, ExportMode};
use ota_server::error::StartupError;

const ALL_LEVELS: [Severity; 5] = [Severity::Trace, Severity::Debug, Severity::Info, Severity::Warn, Severity::Error];

#[test]
fn threshold_admits_at_or_above() {
    assert!(Threshold::Info.admits(Severity::Info));
    assert!(Threshold::Info.admits(Severity::Error));
    assert!(!Threshold::Info.admits(Severity::Debug));
    for l in ALL_LEVELS {
        assert!(!Threshold::Off.admits(l));
        assert!(Threshold::Trace.admits(l));
    }
}

#[test]
fn covers_is_prefix_match() {
    assert!(covers_text("hyper", "hyper::proto::h1"));
    assert!(covers_text("hyper", "hyper"));
    assert!(covers_text("", "anything"));
    assert!(!covers_text("hyper", "hype"));
    assert!(!covers_text("tonic", "ota_server::tonic"));
}

#[test]
fn most_specific_override_governs() {
    let f = FilterSet::new(Threshold::Info)
        .with_directive("app".to_string(), Threshold::Warn)
        .with_directive("app::db".to_string(), Threshold::Trace);
    assert_eq!(f.threshold_for("app::db::pool"), Threshold::Trace);
    assert_eq!(f.threshold_for("app::http"), Threshold::Warn);
    assert_eq!(f.threshold_for("other"), Threshold::Info);
    assert!(f.enabled("app::db", Severity::Debug));
    assert!(!f.enabled("app::http", Severity::Info));
    assert!(f.enabled("other", Severity::Info));
    assert!(!f.enabled("other", Severity::Debug));
}

#[test]
fn repeated_target_replaces_override() {
    let f = FilterSet::new(Threshold::Info)
        .with_directive("hyper".to_string(), Threshold::Off)
        .with_directive("hyper".to_string(), Threshold::Debug);
    assert_eq!(f.directives.len(), 1);
    assert_eq!(f.threshold_for("hyper::client"), Threshold::Debug);
}

#[test]
fn rules_render_as_directive_text() {
    let r = Rule { target: "opentelemetry".to_string(), threshold: Threshold::Debug };
    assert_eq!(r.render(), "opentelemetry=debug");
    let texts = console_filter().rendered_directives();
    assert_eq!(texts, vec!["hyper=off", "tonic=off", "h2=off", "reqwest=off", "opentelemetry=debug"]);
    assert_eq!(telemetry_log_filter().rendered_directives(), vec!["hyper=off", "tonic=off", "h2=off", "reqwest=off"]);
}

#[test]
fn transport_noise_reaches_no_sink() {
    let p = standard_pipeline();
    for source in ["hyper", "hyper::proto::h1::conn", "tonic::transport", "h2::codec", "reqwest::connect"] {
        for l in ALL_LEVELS {
            assert!(p.dispatch(source, l).is_empty(), "{source} {l:?}");
            assert!(!telemetry_log_filter().enabled(source, l));
            assert!(!console_filter().enabled(source, l));
        }
    }
}

#[test]
fn default_level_event_reaches_each_sink_once() {
    let p = standard_pipeline();
    for l in [Severity::Info, Severity::Warn, Severity::Error] {
        assert_eq!(p.dispatch("ota_server::routes", l), vec![Sink::TelemetryLogs, Sink::Console]);
    }
    assert!(p.dispatch("ota_server::routes", Severity::Debug).is_empty());
}

#[test]
fn bridge_debug_output_reaches_console_only() {
    let p = standard_pipeline();
    assert_eq!(p.dispatch("opentelemetry_sdk", Severity::Debug), vec![Sink::Console]);
    assert!(p.dispatch("opentelemetry_sdk", Severity::Trace).is_empty());
}

#[test]
fn second_install_is_refused() {
    let mut s = Subscriber::new();
    assert!(!s.is_installed());
    assert!(s.emit("ota_server", Severity::Error).is_empty());
    assert!(s.install(standard_pipeline()).is_ok());
    assert!(s.is_installed());
    let again = s.install(standard_pipeline());
    assert!(matches!(again, Err(StartupError::SubscriberInstall)));
    assert_eq!(s.emit("ota_server", Severity::Info), vec![Sink::TelemetryLogs, Sink::Console]);
}

#[test]
fn empty_pipeline_delivers_nothing() {
    let p = Pipeline::new();
    assert!(p.dispatch("ota_server", Severity::Error).is_empty());
}

#[test]
fn standard_filters_convert_to_runtime_filters() {
    assert!(to_env_filter(&telemetry_log_filter()).is_ok());
    assert!(to_env_filter(&console_filter()).is_ok());
}

#[test]
fn unparsable_rule_fails_conversion() {
    let f = FilterSet::new(Threshold::Info).with_directive("!noise".to_string(), Threshold::Off);
    assert!(matches!(to_env_filter(&f), Err(StartupError::SubscriberInstall)));
}

#[test]
fn non_ascii_target_is_refused_before_parsing() {
    let f = FilterSet::new(Threshold::Info).with_directive(" \u{e9}".to_string(), Threshold::Off);
    assert!(matches!(to_env_filter(&f), Err(StartupError::SubscriberInstall)));
    let f = FilterSet::new(Threshold::Info).with_directive("caf\u{e9}".to_string(), Threshold::Off);
    assert!(matches!(to_env_filter(&f), Err(StartupError::SubscriberInstall)));
}

#[test]
fn filter_without_overrides_converts() {
    assert!(to_env_filter(&FilterSet::new(Threshold::Warn)).is_ok());
    let f = FilterSet::new(Threshold::Info).with_directive("my_crate::db".to_string(), Threshold::Trace);
    assert!(to_env_filter(&f).is_ok());
}

#[test]
fn plain_targets() {
    assert!(target_accepted("hyper"));
    assert!(target_accepted("ota_server::routes"));
    assert!(target_accepted("_private"));
    assert!(!target_accepted(""));
    assert!(!target_accepted(" hyper"));
    assert!(!target_accepted("a=b"));
    assert!(!target_accepted("a[b"));
    assert!(!target_accepted("a,b"));
    assert!(!target_accepted("!noise"));
    assert!(!target_accepted("\u{e9}t\u{e9}"));
}

#[test]
fn telemetry_settings() {
    let c = telemetry_config();
    assert_eq!(c.service_name, "ota-server");
    assert_eq!(c.trace_endpoint, "http://localhost:4317");
    assert_eq!(c.trace_compression, Some(Compression::Zstd));
    assert_eq!(c.export_mode, ExportMode::Simple);
}
