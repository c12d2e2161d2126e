use bevy_webgate::error::{IoErrorKind, WebServerError};
use bevy_webgate::ip::IpAddress;
use bevy_webgate::manager::WebServerManager;
use bevy_webgate::runtime::{TaskStore, TaskType};
use bevy_webgate::server::{
    ShutdownAction, ShutdownPhase, WebServer, WebServerConfig, MAX_RETRY_ATTEMPTS, RETRY_DELAY_MS,
};
use bevy_webgate::status::ServerStatus;

const LOCAL: IpAddress = IpAddress::V4(0x7f00_0001);

fn server(port: u16) -> WebServer {
    WebServer::new(LOCAL, port, axum::Router::new())
}

fn task() -> bevy_defer::Task<()> {
    bevy_defer::AsyncExecutor::default().spawn_task(async {})
}

#[test]
fn new_server_is_starting_without_tasks() {
    let s = server(8080);
    assert_eq!(s.ip(), LOCAL);
    assert_eq!(s.port(), 8080);
    assert_eq!(s.status(), ServerStatus::Starting);
    assert_eq!(s.last_error(), None);
    assert_eq!(s.retry_count(), 0);
    assert!(!s.has_task(&TaskType::Server));
    assert_eq!(s.count_active_connections(), 0);
    assert_eq!(s.next_connection_id(), 0);
    assert!(s.should_retry(0));
}

#[test]
fn retry_waits_for_the_delay() {
    let mut s = server(8080);
    s.schedule_retry(1_000);
    assert_eq!(s.status(), ServerStatus::Retrying);
    assert_eq!(s.retry_count(), 1);
    assert!(!s.should_retry(1_000));
    assert!(!s.should_retry(1_000 + RETRY_DELAY_MS - 1));
    assert!(s.should_retry(1_000 + RETRY_DELAY_MS));
    s.reset_retry_count();
    assert_eq!(s.retry_count(), 0);
    assert!(s.should_retry(0));
}

#[test]
fn retries_stop_after_the_maximum() {
    let mut s = server(8080);
    for _ in 0..MAX_RETRY_ATTEMPTS {
        s.schedule_retry(0);
    }
    assert_eq!(s.retry_count(), MAX_RETRY_ATTEMPTS);
    assert_eq!(s.status(), ServerStatus::Retrying);
    assert!(!s.should_retry(u64::MAX));
    s.schedule_retry(0);
    assert_eq!(s.retry_count(), MAX_RETRY_ATTEMPTS);
    assert_eq!(s.status(), ServerStatus::Failed);
    assert_eq!(s.last_error(), Some("Max retry attempts reached"));
}

#[test]
fn errors_and_shutdown_change_the_status() {
    let mut s = server(8080);
    s.set_error("boom".to_string());
    assert_eq!(s.status(), ServerStatus::Failed);
    assert_eq!(s.last_error(), Some("boom"));
    s.clear_error();
    assert_eq!(s.last_error(), None);
    s.graceful_shutdown();
    assert_eq!(s.status(), ServerStatus::Shutdown);
    assert!(s.shutdown_requested());
    s.insert_task(TaskType::Server, task());
    s.insert_task(TaskType::Connection(3), task());
    assert!(s.has_task(&TaskType::Connection(3)));
    s.remove_task(&TaskType::Connection(3));
    assert!(!s.has_task(&TaskType::Connection(3)));
    s.stop();
    assert_eq!(s.status(), ServerStatus::Stopped);
    assert!(!s.has_task(&TaskType::Server));
}

#[test]
fn clone_keeps_state_but_not_tasks() {
    let mut s = server(9000);
    s.set_error("bind".to_string());
    s.insert_task(TaskType::Server, task());
    let c = s.clone();
    assert_eq!(c.port(), 9000);
    assert_eq!(c.status(), ServerStatus::Failed);
    assert_eq!(c.last_error(), Some("bind"));
    assert!(!c.has_task(&TaskType::Server));
    assert!(s.has_task(&TaskType::Server));
}

#[test]
fn connections_are_counted() {
    let s = server(8080);
    let guard = s.new_connection();
    assert_eq!(s.next_connection_id(), 1);
    assert_eq!(s.count_active_connections(), 1);
    guard.release();
    assert_eq!(s.count_active_connections(), 0);
    assert_eq!(s.next_connection_id(), 1);
}

#[test]
fn graceful_shutdown_steps() {
    assert_eq!(WebServer::graceful_shutdown_step(ShutdownPhase::AwaitServerTask, 0, 1000, true, 5), ShutdownAction::Sleep(ShutdownPhase::AwaitServerTask));
    assert_eq!(WebServer::graceful_shutdown_step(ShutdownPhase::AwaitServerTask, 0, 1000, false, 5), ShutdownAction::Sleep(ShutdownPhase::AwaitConnections));
    assert_eq!(WebServer::graceful_shutdown_step(ShutdownPhase::AwaitServerTask, 0, 1000, false, 0), ShutdownAction::Finish(true));
    assert_eq!(WebServer::graceful_shutdown_step(ShutdownPhase::AwaitConnections, 500, 1000, true, 2), ShutdownAction::Sleep(ShutdownPhase::AwaitConnections));
    assert_eq!(WebServer::graceful_shutdown_step(ShutdownPhase::AwaitConnections, 1000, 1000, false, 2), ShutdownAction::Finish(false));
    assert_eq!(WebServer::graceful_shutdown_step(ShutdownPhase::AwaitServerTask, 2000, 1000, true, 0), ShutdownAction::Finish(true));
}

#[test]
fn config_defaults_to_loopback_8080() {
    let c = WebServerConfig::default();
    assert_eq!(c.ip, IpAddress::V4(0x7f00_0001));
    assert_eq!(c.port, 8080);
}

#[test]
fn add_server_registers_once() {
    let mut m = WebServerManager::new();
    assert_eq!(m.len(), 0);
    assert!(m.add_server(server(8081), None, 0).is_ok());
    assert!(m.has_server(&8081));
    assert_eq!(m.len(), 1);
    match m.add_server(server(8081), None, 0) {
        Err(WebServerError::ServerAlreadyRunning { port }) => assert_eq!(port, 8081),
        other => panic!("unexpected {:?}", other),
    }
    assert_eq!(m.len(), 1);
    assert_eq!(m.get_server(&8081).unwrap().port(), 8081);
    assert!(m.get_server(&9999).is_none());
}

#[test]
fn add_server_with_failed_bind_test_retries() {
    let mut m = WebServerManager::new();
    m.add_server(server(8082), Some("Port 8082 is already in use".to_string()), 5_000).unwrap();
    let s = m.get_server(&8082).unwrap();
    assert_eq!(s.status(), ServerStatus::Retrying);
    assert_eq!(s.retry_count(), 1);
    assert_eq!(m.server_error(&8082), Some("Port 8082 is already in use"));
    assert!(!m.server_failed(&8082));
    assert!(m.servers_ready_to_retry(5_000).is_empty());
    assert_eq!(m.servers_ready_to_retry(5_000 + RETRY_DELAY_MS), vec![8082]);
}

#[test]
fn remove_and_stop_servers() {
    let mut m = WebServerManager::new();
    m.add_server(server(1), None, 0).unwrap();
    m.add_server(server(2), None, 0).unwrap();
    m.remove_server(&1);
    assert!(!m.has_server(&1));
    m.remove_server(&1);
    assert_eq!(m.len(), 1);
    m.prepare_start(&2).unwrap();
    m.attach_server_task(&2, task()).unwrap();
    assert!(m.has_server_task(&2));
    m.stop_server(&2);
    assert!(!m.has_server_task(&2));
    assert_eq!(m.get_server(&2).unwrap().status(), ServerStatus::Stopped);
    m.stop_all();
    assert_eq!(m.len(), 0);
}

#[test]
fn start_protocol() {
    let mut m = WebServerManager::new();
    match m.prepare_start(&7) {
        Err(WebServerError::ServerNotFound { port }) => assert_eq!(port, 7),
        other => panic!("unexpected {:?}", other),
    }
    m.add_server(server(7), None, 0).unwrap();
    m.schedule_retry(&7, 0);
    assert!(m.prepare_start(&7).is_ok());
    assert_eq!(m.get_server(&7).unwrap().status(), ServerStatus::Starting);
    assert_eq!(m.server_error(&7), None);
    m.attach_server_task(&7, task()).unwrap();
    match m.prepare_start(&7) {
        Err(WebServerError::ServerAlreadyRunning { port }) => assert_eq!(port, 7),
        other => panic!("unexpected {:?}", other),
    }
    match m.attach_server_task(&8, task()) {
        Err(WebServerError::ServerNotFound { port }) => assert_eq!(port, 8),
        other => panic!("unexpected {:?}", other),
    }
}

#[test]
fn start_pass_picks_startable_servers() {
    let mut m = WebServerManager::new();
    m.add_server(server(10), None, 0).unwrap();
    m.add_server(server(11), Some("bind failed".to_string()), 0).unwrap();
    m.add_server(server(12), None, 0).unwrap();
    m.graceful_shutdown(&12);
    m.add_server(server(13), None, 0).unwrap();
    m.prepare_start(&13).unwrap();
    m.attach_server_task(&13, task()).unwrap();
    m.stop_server(&13);
    m.attach_server_task(&13, task()).unwrap();

    let mut first = m.servers_to_start(1);
    first.sort();
    assert_eq!(first, vec![10]);
    assert_eq!(m.get_server(&10).unwrap().status(), ServerStatus::Starting);
    assert_eq!(m.get_server(&11).unwrap().status(), ServerStatus::Retrying);
    assert_eq!(m.get_server(&12).unwrap().status(), ServerStatus::Shutdown);
    assert_eq!(m.servers_to_start(1), vec![10]);
    m.attach_server_task(&10, task()).unwrap();
    assert!(m.servers_to_start(1).is_empty());
    let due = m.servers_to_start(RETRY_DELAY_MS);
    assert_eq!(due, vec![11]);
    assert_eq!(m.get_server(&11).unwrap().status(), ServerStatus::Starting);
}

#[test]
fn run_outcomes() {
    let mut m = WebServerManager::new();
    m.add_server(server(20), None, 0).unwrap();
    m.add_server(server(21), None, 0).unwrap();
    m.add_server(server(22), None, 0).unwrap();
    m.server_run_finished(&20, Some("Failed to bind to 127.0.0.1:20: denied".to_string()), 100);
    let s = m.get_server(&20).unwrap();
    assert_eq!(s.status(), ServerStatus::Retrying);
    assert_eq!(s.last_error(), Some("Failed to bind to 127.0.0.1:20: denied"));
    m.server_run_finished(&21, Some("Configuration error in 'custom': no".to_string()), 100);
    assert!(m.server_failed(&21));
    m.server_listening(&22);
    m.request_graceful_shutdown(&22);
    m.server_run_finished(&22, None, 100);
    assert_eq!(m.get_server(&22).unwrap().status(), ServerStatus::Shutdown);
    assert_eq!(m.get_server(&22).unwrap().last_error(), None);
    m.server_listening(&20);
    let s = m.get_server(&20).unwrap();
    assert_eq!(s.status(), ServerStatus::Running);
    assert_eq!(s.retry_count(), 0);
}

#[test]
fn waiting_for_start() {
    let mut m = WebServerManager::new();
    match m.start_wait_status(&30, 0, 100) {
        Some(Err(WebServerError::ServerNotFound { port })) => assert_eq!(port, 30),
        other => panic!("unexpected {:?}", other),
    }
    m.add_server(server(30), None, 0).unwrap();
    m.stop_server(&30);
    match m.start_wait_status(&30, 0, 100) {
        Some(Err(WebServerError::ConfigError { field, reason })) => {
            assert_eq!(field, "server_status");
            assert_eq!(reason, "Server on port 30 has unexpected status: Stopped");
        }
        other => panic!("unexpected {:?}", other),
    }
    m.prepare_start(&30).unwrap();
    assert!(m.start_wait_status(&30, 100, 100).is_none());
    match m.start_wait_status(&30, 101, 100) {
        Some(Err(WebServerError::Timeout { operation, duration_ms })) => {
            assert_eq!(operation, "starting server on port 30");
            assert_eq!(duration_ms, 100);
        }
        other => panic!("unexpected {:?}", other),
    }
    m.server_run_finished(&30, Some("oops".to_string()), 0);
    match m.start_wait_status(&30, 0, 100) {
        Some(Err(WebServerError::IoError { operation, source })) => {
            assert_eq!(operation, "server startup on port 30");
            assert_eq!(source.kind, IoErrorKind::Other);
            assert_eq!(source.message, "oops");
        }
        other => panic!("unexpected {:?}", other),
    }
    m.server_listening(&30);
    assert!(matches!(m.start_wait_status(&30, 0, 100), Some(Ok(()))));
}

#[test]
fn shutdown_requests() {
    let mut m = WebServerManager::new();
    m.add_server(server(40), None, 0).unwrap();
    assert!(!m.shutdown_requested(&40));
    m.graceful_shutdown(&40);
    assert!(m.shutdown_requested(&40));
    assert!(m.graceful_shutdown_with_timeout(&40));
    assert_eq!(m.get_server(&40).unwrap().status(), ServerStatus::ShuttingDown);
    m.graceful_shutdown(&40);
    assert_eq!(m.get_server(&40).unwrap().status(), ServerStatus::ShuttingDown);
    assert!(!m.graceful_shutdown_with_timeout(&41));
    assert!(m.request_graceful_shutdown(&40));
    assert_eq!(m.get_server(&40).unwrap().status(), ServerStatus::Shutdown);
    let status = m.shutdown_status();
    assert_eq!(status.len(), 1);
    assert_eq!(status[&40], (true, 0));
    assert!(WebServerManager::shutdown_monitor_done(false, 3, 0, 10));
    assert!(WebServerManager::shutdown_monitor_done(true, 3, 10, 10));
    assert!(WebServerManager::shutdown_monitor_done(true, 0, 0, 10));
    assert!(!WebServerManager::shutdown_monitor_done(true, 3, 9, 10));
}

#[test]
fn reports_cover_every_server() {
    let mut m = WebServerManager::new();
    m.add_server(WebServer::new(IpAddress::V4(1), 50, axum::Router::new()), None, 0).unwrap();
    m.add_server(WebServer::new(IpAddress::V6(2), 51, axum::Router::new()), Some("in use".to_string()), 0).unwrap();
    let mut ports = m.ports();
    ports.sort();
    assert_eq!(ports, vec![50, 51]);
    let mut report = m.server_status_report();
    report.sort_by_key(|e| e.0);
    assert_eq!(report[0], (50, ServerStatus::Starting, None));
    assert_eq!(report[1], (51, ServerStatus::Retrying, Some("in use".to_string())));
    assert_eq!(m.running_servers(), vec![]);
    m.server_listening(&50);
    assert_eq!(m.running_servers(), vec![(50, IpAddress::V4(1))]);
    m.add_server(WebServer::new(IpAddress::V4(3), 52, axum::Router::new()), None, 0).unwrap();
    m.server_listening(&52);
    let mut running = m.running_servers();
    running.sort_by_key(|e| e.0);
    assert_eq!(running, vec![(50, IpAddress::V4(1)), (52, IpAddress::V4(3))]);
    m.stop_server(&52);
    assert_eq!(m.running_servers(), vec![(50, IpAddress::V4(1))]);
    let mut seen: Vec<u16> = m.iter().iter().map(|(p, s)| {
        assert_eq!(*p, s.port());
        *p
    }).collect();
    seen.sort();
    assert_eq!(seen, vec![50, 51, 52]);
}

#[test]
fn connection_bookkeeping() {
    let mut m = WebServerManager::new();
    match m.connection_id(&60) {
        Err(WebServerError::ConfigError { field, reason }) => {
            assert_eq!(field, "custom");
            assert_eq!(reason, "No server found on port");
        }
        other => panic!("unexpected {:?}", other),
    }
    m.add_server(server(60), None, 0).unwrap();
    assert_eq!(m.connection_id(&60).unwrap(), 0);
    let guard = m.new_connection(&60).unwrap();
    assert_eq!(m.connection_id(&60).unwrap(), 1);
    assert_eq!(m.active_connections(&60), 1);
    m.add_connection_task(&60, 0, task()).unwrap();
    assert!(m.get_server(&60).unwrap().has_task(&TaskType::Connection(0)));
    m.remove_connection_task(&60, 0);
    assert!(!m.get_server(&60).unwrap().has_task(&TaskType::Connection(0)));
    guard.release();
    assert_eq!(m.active_connections(&60), 0);
    assert_eq!(m.active_connections(&61), 0);
    assert!(m.add_connection_task(&61, 0, task()).is_err());
    m.cleanup_finished_tasks();
    assert!(m.has_server(&60));
}

#[test]
fn routers_and_setup() {
    let mut m = WebServerManager::new();
    assert!(m.router(&70).is_none());
    m.install_router(LOCAL, 70, axum::Router::new(), None, 0);
    assert!(m.router(&70).is_some());
    m.set_router(&70, axum::Router::new());
    m.install_router(IpAddress::V4(9), 70, axum::Router::new(), None, 0);
    assert_eq!(m.get_server(&70).unwrap().ip(), LOCAL);
    m.ensure_server(LOCAL, 71, None, 0);
    m.ensure_server(IpAddress::V4(9), 71, None, 0);
    assert_eq!(m.get_server(&71).unwrap().ip(), LOCAL);
    let (ip, port, _router) = m.server_info(&71).unwrap();
    assert_eq!((ip, port), (LOCAL, 71));
    assert!(m.server_info(&72).is_err());
    let _ = m.cloned_router(&72);
    let c = WebServerManager::from_config(WebServerConfig { ip: LOCAL, port: 8080 }, None, 0);
    assert_eq!(c.ports(), vec![8080]);
    assert_eq!(c.get_server(&8080).unwrap().status(), ServerStatus::Starting);
    let d = WebServerManager::default();
    assert_eq!(d.len(), 0);
}

#[test]
fn stopped_server_waits_for_an_explicit_start() {
    let mut m = WebServerManager::new();
    m.add_server(server(8080), None, 0).unwrap();
    assert_eq!(m.servers_to_start(0), vec![8080]);
    m.attach_server_task(&8080, task()).unwrap();
    m.stop_server(&8080);
    assert!(m.servers_to_start(0).is_empty());
    m.prepare_start(&8080).unwrap();
    assert_eq!(m.get_server(&8080).unwrap().status(), ServerStatus::Starting);
    assert_eq!(m.servers_to_start(0), vec![8080]);
}

#[test]
fn removing_listed_tasks() {
    let mut store = TaskStore::new();
    store.insert(TaskType::Server, task());
    store.insert(TaskType::Connection(1), task());
    store.insert(TaskType::Connection(2), task());
    store.remove_tasks(&vec![TaskType::Connection(1), TaskType::Server, TaskType::Connection(9)]);
    assert!(!store.contains_key(&TaskType::Server));
    assert!(!store.contains_key(&TaskType::Connection(1)));
    assert!(store.contains_key(&TaskType::Connection(2)));
}

#[test]
fn cleanup_keeps_tasks_that_have_not_run() {
    let executor = bevy_defer::AsyncExecutor::default();
    let mut store = TaskStore::new();
    store.insert(TaskType::Server, executor.spawn_task(async {}));
    store.insert(TaskType::Connection(4), executor.spawn_task(async {}));
    store.cleanup_finished_tasks();
    assert!(store.contains_key(&TaskType::Server));
    assert!(store.contains_key(&TaskType::Connection(4)));
}

#[test]
fn update_server_changes_a_registered_server() {
    let mut m = WebServerManager::new();
    m.add_server(server(8090), None, 0).unwrap();
    m.add_server(server(8091), None, 0).unwrap();
    m.server_listening(&8090);
    let other = IpAddress::V4(0x0a00_0001);
    m.update_server(other, 8090, axum::Router::new(), None, 0);
    assert_eq!(m.len(), 2);
    let s = m.get_server(&8090).unwrap();
    assert_eq!(s.ip(), other);
    assert_eq!(s.port(), 8090);
    assert_eq!(s.status(), ServerStatus::Running);
    assert_eq!(m.get_server(&8091).unwrap().ip(), LOCAL);
}

#[test]
fn update_server_registers_a_free_port() {
    let mut m = WebServerManager::new();
    m.update_server(LOCAL, 8092, axum::Router::new(), None, 0);
    assert_eq!(m.len(), 1);
    assert_eq!(m.get_server(&8092).unwrap().status(), ServerStatus::Starting);
    m.update_server(LOCAL, 8093, axum::Router::new(), Some("Address already in use".to_string()), 1_000);
    assert_eq!(m.get_server(&8093).unwrap().status(), ServerStatus::Retrying);
}

#[test]
fn connection_guards_count_on_their_server() {
    let mut m = WebServerManager::new();
    m.add_server(server(8094), None, 0).unwrap();
    m.add_server(server(8095), None, 0).unwrap();
    let guard = m.new_connection(&8094).unwrap();
    assert_eq!(m.active_connections(&8094), 1);
    assert_eq!(m.active_connections(&8095), 0);
    guard.release();
    assert_eq!(m.active_connections(&8094), 0);
    assert!(m.new_connection(&9999).is_err());
}
