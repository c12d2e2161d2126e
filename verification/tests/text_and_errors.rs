use bevy_webgate::access::AccessFailure;
use bevy_webgate::error::{port_in_use_failure, IoErrorKind, IoFailure, WebServerError};
use bevy_webgate::ip::{ip_text, IpAddress};
use bevy_webgate::status::ServerStatus;
use bevy_webgate::text::{contains_text, decimal_text, hex_text};

#[test]
fn decimal_text_writes_numbers() {
    assert_eq!(decimal_text(0), "0");
    assert_eq!(decimal_text(7), "7");
    assert_eq!(decimal_text(10), "10");
    assert_eq!(decimal_text(8080), "8080");
    assert_eq!(decimal_text(u64::MAX), u64::MAX.to_string());
}

#[test]
fn contains_text_finds_substrings() {
    assert!(contains_text("Port 8080 is already in use", "already in use"));
    assert!(contains_text("Failed to bind to 127.0.0.1:80", "bind"));
    assert!(contains_text("anything", ""));
    assert!(!contains_text("", "x"));
    assert!(!contains_text("custom error", "bind"));
    assert!(!contains_text("bin", "bind"));
    assert!(contains_text("bind", "bind"));
    assert!(contains_text("héllo wörld", "wö"));
}

#[test]
fn status_rules() {
    assert!(ServerStatus::Starting.can_start());
    assert!(ServerStatus::Retrying.can_start());
    assert!(!ServerStatus::Stopped.can_start());
    assert!(!ServerStatus::Running.can_start());
    assert!(!ServerStatus::Failed.can_start());
    assert!(!ServerStatus::Shutdown.can_start());
    assert!(ServerStatus::Shutdown.shutdown_requested());
    assert!(ServerStatus::ShuttingDown.shutdown_requested());
    assert!(!ServerStatus::Running.shutdown_requested());
    assert_eq!(ServerStatus::ShuttingDown.name(), format!("{:?}", ServerStatus::ShuttingDown));
    assert_eq!(ServerStatus::default(), ServerStatus::Starting);
}

#[test]
fn error_constructors_keep_their_fields() {
    match WebServerError::server_not_found(81) {
        WebServerError::ServerNotFound { port } => assert_eq!(port, 81),
        other => panic!("unexpected {:?}", other),
    }
    match WebServerError::server_already_running(82) {
        WebServerError::ServerAlreadyRunning { port } => assert_eq!(port, 82),
        other => panic!("unexpected {:?}", other),
    }
    match WebServerError::bind_failed(
        IpAddress::V4(0x7f00_0001),
        83,
        IoFailure::new(IoErrorKind::AddrInUse, "Port 83 is already in use".to_string()),
    ) {
        WebServerError::BindFailed { ip, port, source } => {
            assert_eq!(ip, IpAddress::V4(0x7f00_0001));
            assert_eq!(port, 83);
            assert_eq!(source.kind, IoErrorKind::AddrInUse);
            assert_eq!(source.message, "Port 83 is already in use");
        }
        other => panic!("unexpected {:?}", other),
    }
    match WebServerError::http_error(404, "missing".to_string()) {
        WebServerError::HttpError { status, message } => {
            assert_eq!(status, 404);
            assert_eq!(message, "missing");
        }
        other => panic!("unexpected {:?}", other),
    }
    match WebServerError::timeout("op".to_string(), 250) {
        WebServerError::Timeout { operation, duration_ms } => {
            assert_eq!(operation, "op");
            assert_eq!(duration_ms, 250);
        }
        other => panic!("unexpected {:?}", other),
    }
    match WebServerError::auth_error("denied".to_string()) {
        WebServerError::AuthError { reason } => assert_eq!(reason, "denied"),
        other => panic!("unexpected {:?}", other),
    }
    match WebServerError::resource_exhausted("sockets".to_string(), "none left".to_string()) {
        WebServerError::ResourceExhausted { resource_type, details } => {
            assert_eq!(resource_type, "sockets");
            assert_eq!(details, "none left");
        }
        other => panic!("unexpected {:?}", other),
    }
    match WebServerError::config_error("field".to_string(), "bad".to_string()) {
        WebServerError::ConfigError { field, reason } => {
            assert_eq!(field, "field");
            assert_eq!(reason, "bad");
        }
        other => panic!("unexpected {:?}", other),
    }
    match WebServerError::io_error("read".to_string(), IoFailure::new(IoErrorKind::Other, "boom".to_string())) {
        WebServerError::IoError { operation, source } => {
            assert_eq!(operation, "read");
            assert_eq!(source.message, "boom");
        }
        other => panic!("unexpected {:?}", other),
    }
}

fn resource(e: WebServerError) -> (String, String) {
    match e {
        WebServerError::ResourceExhausted { resource_type, details } => (resource_type, details),
        other => panic!("expected ResourceExhausted, got {:?}", other),
    }
}

fn config(e: WebServerError) -> (String, String) {
    match e {
        WebServerError::ConfigError { field, reason } => (field, reason),
        other => panic!("expected ConfigError, got {:?}", other),
    }
}

#[test]
fn access_failures_become_resource_errors() {
    let e = WebServerError::from_access_failure(AccessFailure::EntityNotFound { entity: "5v1".to_string() });
    assert_eq!(resource(e), ("entity".to_string(), "entity 5v1 not found".to_string()));
    let e = WebServerError::from_access_failure(AccessFailure::QueryConditionNotMet {
        entity: "3v2".to_string(),
        query: "Q".to_string(),
    });
    assert_eq!(resource(e), ("query".to_string(), "query condition not met for entity 3v2: Q".to_string()));
    let e = WebServerError::from_access_failure(AccessFailure::NoEntityFound { query: "Q".to_string() });
    assert_eq!(resource(e), ("entity".to_string(), "no entity found in query Q".to_string()));
    let e = WebServerError::from_access_failure(AccessFailure::TooManyEntities { query: "Q".to_string() });
    assert_eq!(resource(e), ("entity".to_string(), "too many entities in query Q".to_string()));
    let e = WebServerError::from_access_failure(AccessFailure::ChildNotFound { index: 12 });
    assert_eq!(resource(e), ("child".to_string(), "child index 12 missing".to_string()));
    let e = WebServerError::from_access_failure(AccessFailure::NamedChildNotFound);
    assert_eq!(resource(e), ("child".to_string(), "named child missing".to_string()));
    let e = WebServerError::from_access_failure(AccessFailure::TypedChildNotFound { query: "T".to_string() });
    assert_eq!(resource(e), ("child".to_string(), "child of type query T missing".to_string()));
    let e = WebServerError::from_access_failure(AccessFailure::TypedParentNotFound { query: "T".to_string() });
    assert_eq!(resource(e), ("parent".to_string(), "parent of type query T missing".to_string()));
    let e = WebServerError::from_access_failure(AccessFailure::ComponentNotFound {
        entity: "1v0".to_string(),
        name: "Score".to_string(),
    });
    assert_eq!(resource(e), ("component".to_string(), "component <Score> not found on entity 1v0".to_string()));
    let e = WebServerError::from_access_failure(AccessFailure::ResourceNotFound { name: "R".to_string() });
    assert_eq!(resource(e), ("resource".to_string(), "resource <R> not found".to_string()));
    let e = WebServerError::from_access_failure(AccessFailure::AssetNotFound { name: "A".to_string() });
    assert_eq!(resource(e), ("asset".to_string(), "asset <A> not found".to_string()));
    let e = WebServerError::from_access_failure(AccessFailure::ScheduleNotFound);
    assert_eq!(resource(e), ("schedule".to_string(), "schedule not found".to_string()));
    let e = WebServerError::from_access_failure(AccessFailure::SystemIdNotFound);
    assert_eq!(resource(e), ("system_id".to_string(), "SystemId not found".to_string()));
}

#[test]
fn access_failures_become_config_errors() {
    let e = WebServerError::from_access_failure(AccessFailure::EventNotRegistered { name: "E".to_string() });
    assert_eq!(config(e), ("event_registration".to_string(), "event <E> not registered".to_string()));
    let e = WebServerError::from_access_failure(AccessFailure::DowncastFailed { name: "(A, B)".to_string() });
    assert_eq!(config(e), ("downcast".to_string(), "downcasting (A, B) failed".to_string()));
    let e = WebServerError::from_access_failure(AccessFailure::NotInState { ty: "S".to_string() });
    assert_eq!(config(e), ("state".to_string(), "not in state of type S".to_string()));
    let e = WebServerError::from_access_failure(AccessFailure::Custom { message: "No server found on port".to_string() });
    assert_eq!(config(e), ("custom".to_string(), "No server found on port".to_string()));
    let e = WebServerError::from_access_failure(AccessFailure::TypedError {
        message: "bad value".to_string(),
        ty: "u8".to_string(),
    });
    assert_eq!(config(e), ("u8".to_string(), "bad value".to_string()));
    let e = WebServerError::from_access_failure(AccessFailure::ShouldNotHappen {
        text: "this error should not have happened".to_string(),
    });
    assert_eq!(config(e), ("bevy_defer".to_string(), "this error should not have happened".to_string()));
    let e = WebServerError::from_access_failure(AccessFailure::Unrecognized { text: "new kind".to_string() });
    assert_eq!(
        config(e),
        ("bevy_defer::AccessError".to_string(), "unhandled non-exhaustive AccessError variant: new kind".to_string())
    );
}

#[test]
fn hex_text_writes_numbers() {
    assert_eq!(hex_text(0), "0");
    assert_eq!(hex_text(10), "a");
    assert_eq!(hex_text(0xdb8), "db8");
    assert_eq!(hex_text(0xffff), "ffff");
}

#[test]
fn ip_addresses_are_written_as_displayed() {
    assert_eq!(ip_text(IpAddress::V4(0x7f00_0001)), "127.0.0.1");
    assert_eq!(ip_text(IpAddress::V4(0xc0a8_0a0b)), "192.168.10.11");
    assert_eq!(ip_text(IpAddress::V4(0)), "0.0.0.0");
    assert_eq!(ip_text(IpAddress::V6(0)), "::");
    assert_eq!(ip_text(IpAddress::V6(1)), "::1");
    assert_eq!(ip_text(IpAddress::V6(0x2001_0db8_0000_0000_0000_0000_0000_0001)), "2001:db8::1");
    assert_eq!(ip_text(IpAddress::V6(0x0000_0000_0000_0000_0000_ffff_c000_0280)), "::ffff:192.0.2.128");
    assert_eq!(ip_text(IpAddress::V6(0x0000_0000_0000_0000_0000_0000_c000_0280)), "::c000:280");
    assert_eq!(ip_text(IpAddress::V6(0x0001_0000_0000_0001_0000_0000_0000_0001)), "1:0:0:1::1");
    assert_eq!(ip_text(IpAddress::V6(0x0001_0000_0000_0001_0001_0000_0000_0001)), "1::1:1:0:0:1");
    assert_eq!(ip_text(IpAddress::V6(0x0001_0002_0003_0004_0005_0006_0007_0008)), "1:2:3:4:5:6:7:8");
    assert_eq!(ip_text(IpAddress::V6(0xfe80_0000_0000_0000_0000_0000_0000_0000)), "fe80::");
}

#[test]
fn errors_display_their_text() {
    let io = || IoFailure::new(IoErrorKind::AddrInUse, "Address already in use (os error 98)".to_string());
    assert_eq!(WebServerError::http_error(404, "Not Found".to_string()).message(), "HTTP 404 error: Not Found");
    assert_eq!(
        WebServerError::bind_failed(IpAddress::V4(0x7f00_0001), 8080, io()).message(),
        "Failed to bind to 127.0.0.1:8080: Address already in use (os error 98)"
    );
    assert_eq!(
        WebServerError::bind_failed(IpAddress::V6(1), 80, io()).message(),
        "Failed to bind to ::1:80: Address already in use (os error 98)"
    );
    assert_eq!(WebServerError::server_not_found(8081).message(), "No server found listening on port 8081");
    assert_eq!(WebServerError::server_already_running(8082).message(), "Server already running on port 8082");
    assert_eq!(
        WebServerError::io_error("read".to_string(), io()).message(),
        "IO operation 'read' failed: Address already in use (os error 98)"
    );
    assert_eq!(
        WebServerError::config_error("port".to_string(), "out of range".to_string()).message(),
        "Configuration error in 'port': out of range"
    );
    assert_eq!(
        WebServerError::timeout("startup".to_string(), 5000).message(),
        "Operation 'startup' timed out after 5000ms"
    );
    assert_eq!(WebServerError::auth_error("bad token".to_string()).message(), "Authentication failed: bad token");
    assert_eq!(
        WebServerError::resource_exhausted("entity".to_string(), "none left".to_string()).message(),
        "Resource 'entity' exhausted: none left"
    );
}

#[test]
fn taken_port_failure() {
    let f = port_in_use_failure(8080);
    assert_eq!(f.kind, IoErrorKind::AddrInUse);
    assert_eq!(f.message, "Port 8080 is already in use");
    assert_eq!(
        WebServerError::bind_failed(IpAddress::V4(0x7f00_0001), 8080, f).message(),
        "Failed to bind to 127.0.0.1:8080: Port 8080 is already in use"
    );
}
