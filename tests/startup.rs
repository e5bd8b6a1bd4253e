use ota_server::bootstrap::{bind_address, default_port, resolve_port, step, Action, Event, Phase};
use ota_server::error::{ErrorKind, StartupError, EXIT_BIND_FAILED};
use ota_server::level::Severity;
use ota_server::routes::{firmware_download, get_firmware_data, health_check, service_version, ApiDoc, Endpoint, HTTP_OK};

#[test]
fn env_port_overrides_default() {
    let s = step(Phase::Start, Event::PortLookup { env_port: Some("8080".to_string()) });
    assert!(matches!(&s.phase, Phase::Binding { port } if port == "8080"));
    assert!(matches!(&s.action, Action::Bind { address } if address == "0.0.0.0:8080"));
    let log = s.log.unwrap();
    assert_eq!(log.level, Severity::Info);
    assert_eq!(log.message, "Port defined in environment variable.");
}

#[test]
fn missing_port_uses_default_and_warns() {
    let s = step(Phase::Start, Event::PortLookup { env_port: None });
    assert!(matches!(&s.phase, Phase::Binding { port } if port == "3000"));
    assert!(matches!(&s.action, Action::Bind { address } if address == "0.0.0.0:3000"));
    let log = s.log.unwrap();
    assert_eq!(log.level, Severity::Warn);
    assert_eq!(log.message, "Port not defined in environment variable, using the default port: 3000");
}

#[test]
fn empty_port_uses_default() {
    let c = resolve_port(Some(String::new()));
    assert_eq!(c.port, default_port());
    assert!(!c.from_env);
    let c = resolve_port(Some("9000".to_string()));
    assert_eq!(c.port, "9000");
    assert!(c.from_env);
    assert_eq!(bind_address("1234"), "0.0.0.0:1234");
}

#[test]
fn bound_listener_starts_serving() {
    let s = step(Phase::Binding { port: "8080".to_string() }, Event::Bound);
    assert!(matches!(&s.phase, Phase::Serving { port } if port == "8080"));
    assert!(matches!(s.action, Action::Serve));
    let log = s.log.unwrap();
    assert_eq!(log.level, Severity::Info);
    assert_eq!(log.message, "Starting server on port: 8080");
}

#[test]
fn occupied_port_logs_error_and_exits_cleanly() {
    let s = step(
        Phase::Binding { port: "8080".to_string() },
        Event::BindRefused { reason: "Address already in use (os error 98)".to_string() },
    );
    assert!(matches!(s.phase, Phase::BindFailed));
    assert!(matches!(s.action, Action::Exit { code } if code == EXIT_BIND_FAILED && code != 0));
    let log = s.log.unwrap();
    assert_eq!(log.level, Severity::Error);
    assert_eq!(log.message, "Could not start the server: Address already in use (os error 98)");
}

#[test]
fn unexpected_event_changes_nothing() {
    let s = step(Phase::Start, Event::Bound);
    assert!(matches!(s.phase, Phase::Start));
    assert!(s.log.is_none());
    assert!(matches!(s.action, Action::Wait));
    let s = step(Phase::BindFailed, Event::PortLookup { env_port: None });
    assert!(matches!(s.phase, Phase::BindFailed));
    assert!(matches!(s.action, Action::Wait));
}

#[test]
fn error_kinds_and_exit_codes() {
    let bind = StartupError::ListenerBind { reason: "in use".to_string() };
    assert_eq!(bind.kind(), ErrorKind::Operational);
    assert_eq!(bind.exit_code(), 1);
    let exp = StartupError::ExporterConfig { reason: "bad endpoint".to_string() };
    assert_eq!(exp.kind(), ErrorKind::Fatal);
    assert_eq!(exp.exit_code(), 2);
    assert_eq!(StartupError::SubscriberInstall.kind(), ErrorKind::Fatal);
    assert_eq!(StartupError::SubscriberInstall.exit_code(), 2);
}

#[test]
fn health_reports_healthy_and_version() {
    let (status, body) = health_check();
    assert_eq!(status, 200);
    assert_eq!(body.status, "healthy");
    assert_eq!(body.version, service_version());
    assert_eq!(body.version, "0.1.0");
}

#[test]
fn firmware_is_octet_stream_attachment() {
    let r = firmware_download();
    assert_eq!(r.status, HTTP_OK);
    assert_eq!(r.content_type, "application/octet-stream");
    assert_eq!(r.content_disposition, "attachment; filename=\"firmware.bin\"");
    assert!(!r.body.is_empty());
    assert_eq!(r.body, vec![1, 2, 3, 4]);
    assert_eq!(get_firmware_data(), vec![1, 2, 3, 4]);
}

#[test]
fn api_doc_lists_endpoints() {
    assert_eq!(ApiDoc::endpoints(), vec![Endpoint::Health, Endpoint::Firmware]);
    assert_eq!(Endpoint::Health.path(), "/health");
    assert_eq!(Endpoint::Firmware.path(), "/firmware");
    assert_eq!(Endpoint::Health.tag(), "health");
    assert_eq!(Endpoint::Firmware.tag_description(), "Firmware update endpoints");
    assert_eq!(ApiDoc::docs_path(), "/docs");
    assert_eq!(ApiDoc::openapi_path(), "/api-docs/openapi.json");
}
