use mcu_link::control::{abort_transfer, apply_link_event};
use mcu_link::device::MCUData;
use mcu_link::error::LinkError;
use mcu_link::pipeline::{JobStatus, Pipeline};
use mcu_link::link::{LinkAction, LinkEvent, LinkManager, LinkState};

fn manager(path: &str) -> LinkManager {
    LinkManager::new(MCUData::new(String::from(path)))
}

#[test]
fn starts_disconnected() {
    let m = manager("/dev/ttyUSB0");
    assert_eq!(m.state(), LinkState::Disconnected);
    assert!(!m.is_connected());
    assert!(!m.snapshot().is_active);
    assert_eq!(m.port_path(), "/dev/ttyUSB0");
}

#[test]
fn connect_then_device_unplugged() {
    let mut m = manager("/dev/ttyUSB0");
    assert_eq!(m.handle(LinkEvent::ConnectRequested), LinkAction::OpenPort);
    assert_eq!(m.state(), LinkState::Connecting);
    assert_eq!(m.handle(LinkEvent::OpenSucceeded), LinkAction::KeepHandles);
    assert!(m.snapshot().is_active);
    assert_eq!(m.handle(LinkEvent::PathPresent), LinkAction::Nothing);
    assert!(m.snapshot().is_active);
    assert_eq!(m.handle(LinkEvent::PathMissing), LinkAction::Release);
    assert_eq!(m.state(), LinkState::Disconnected);
    assert!(!m.snapshot().is_active);
}

#[test]
fn missing_port_is_never_connected() {
    let mut m = manager("/dev/does-not-exist");
    assert_eq!(m.handle(LinkEvent::ConnectRequested), LinkAction::OpenPort);
    for _ in 0..5 {
        assert_eq!(m.handle(LinkEvent::OpenFailed), LinkAction::RetryAfterDelay);
        assert_eq!(m.handle(LinkEvent::PathMissing), LinkAction::Nothing);
        assert!(!m.is_connected());
    }
    assert_eq!(m.state(), LinkState::Connecting);
}

#[test]
fn failed_presence_check_counts_as_absent() {
    let mut m = manager("/dev/ttyUSB0");
    m.handle(LinkEvent::PathPresent);
    m.handle(LinkEvent::OpenSucceeded);
    assert_eq!(m.handle(LinkEvent::CheckFailed), LinkAction::Release);
    assert!(!m.is_connected());
}

#[test]
fn io_error_while_connected_drops_link() {
    let mut m = manager("/dev/ttyUSB0");
    m.handle(LinkEvent::ConnectRequested);
    m.handle(LinkEvent::OpenSucceeded);
    assert_eq!(m.handle(LinkEvent::IoError), LinkAction::Release);
    assert_eq!(m.state(), LinkState::Disconnected);
}

#[test]
fn stray_open_is_released() {
    let mut m = manager("/dev/ttyUSB0");
    assert_eq!(m.handle(LinkEvent::OpenSucceeded), LinkAction::DropOpened);
    assert!(!m.is_connected());
}

#[test]
fn second_open_keeps_live_link() {
    let mut m = manager("/dev/ttyUSB0");
    m.handle(LinkEvent::ConnectRequested);
    m.handle(LinkEvent::OpenSucceeded);
    assert_eq!(m.handle(LinkEvent::OpenSucceeded), LinkAction::DropOpened);
    assert!(m.is_connected());
    assert!(m.snapshot().is_active);
}

#[test]
fn shutdown_releases_and_stops() {
    let mut m = manager("/dev/ttyUSB0");
    m.handle(LinkEvent::ConnectRequested);
    m.handle(LinkEvent::OpenSucceeded);
    assert_eq!(m.handle(LinkEvent::Shutdown), LinkAction::Release);
    assert!(m.is_stopped());
    assert_eq!(m.handle(LinkEvent::ConnectRequested), LinkAction::Nothing);
    assert_eq!(m.handle(LinkEvent::OpenSucceeded), LinkAction::DropOpened);
    assert!(!m.is_connected());
}

#[test]
fn telemetry_is_recorded() {
    let mut m = manager("/dev/ttyUSB0");
    m.set_telemetry(37);
    let s = m.snapshot();
    assert_eq!(s.temperature, 37);
    assert_eq!(s.name, "/dev/ttyUSB0");
}

#[test]
fn unplug_fails_running_transfer() {
    let mut m = manager("/dev/ttyUSB0");
    let mut p = Pipeline::new();
    assert_eq!(apply_link_event(&mut m, &mut p, LinkEvent::ConnectRequested), LinkAction::OpenPort);
    assert_eq!(apply_link_event(&mut m, &mut p, LinkEvent::OpenSucceeded), LinkAction::KeepHandles);
    let a = p.submit(String::from("int main(){}")).unwrap();
    p.start_next();
    p.finish_compile(true, Some(vec![1, 2]), String::new());
    assert_eq!(p.next_byte(), Some(1));
    assert_eq!(apply_link_event(&mut m, &mut p, LinkEvent::PathMissing), LinkAction::Release);
    assert!(!m.is_connected());
    assert_eq!(p.status_of(a), Some(&JobStatus::Failed(LinkError::LinkLost)));
}

#[test]
fn lost_link_during_transfer_drops_link() {
    let mut m = manager("/dev/ttyUSB0");
    let mut p = Pipeline::new();
    apply_link_event(&mut m, &mut p, LinkEvent::ConnectRequested);
    apply_link_event(&mut m, &mut p, LinkEvent::OpenSucceeded);
    let a = p.submit(String::from("x")).unwrap();
    p.start_next();
    p.finish_compile(true, Some(vec![1]), String::new());
    assert_eq!(abort_transfer(&mut m, &mut p, LinkError::LinkLost), LinkAction::Release);
    assert!(!m.is_connected());
    assert_eq!(p.status_of(a), Some(&JobStatus::Failed(LinkError::LinkLost)));
}

#[test]
fn handshake_timeout_keeps_link() {
    let mut m = manager("/dev/ttyUSB0");
    let mut p = Pipeline::new();
    apply_link_event(&mut m, &mut p, LinkEvent::ConnectRequested);
    apply_link_event(&mut m, &mut p, LinkEvent::OpenSucceeded);
    let a = p.submit(String::from("x")).unwrap();
    p.start_next();
    p.finish_compile(true, Some(vec![1]), String::new());
    assert_eq!(abort_transfer(&mut m, &mut p, LinkError::ProtocolTimeout), LinkAction::Nothing);
    assert!(m.is_connected());
    assert_eq!(p.status_of(a), Some(&JobStatus::Failed(LinkError::ProtocolTimeout)));
}
