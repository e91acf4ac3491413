use bpl::pb::{CapabilitySet, DeviceId, ResultCode, SessionEventType};
use bpl::session::{
    KeepaliveMonitor, KeepaliveStep, SessionConfig, SessionManager, SessionManagerConfig, SessionState,
    MAX_MISSED_KEEPALIVES,
};

fn empty_set() -> CapabilitySet {
    CapabilitySet {
        capabilities: vec![],
        protocol_version: None,
        software_version: String::new(),
        device_name: String::new(),
        device_id: None,
    }
}

#[test]
fn test_session_manager_creation() {
    let config = SessionManagerConfig::default();
    let (manager, _rx) = SessionManager::new(config);
    assert_eq!(manager.list_sessions().len(), 0);
}

#[test]
fn session_manager_config_defaults() {
    let config = SessionManagerConfig::default();
    assert_eq!(config.max_sessions, 1);
    assert_eq!(config.session_timeout_ms, 90_000);
    assert_eq!(config.keepalive_interval_ms, 30_000);
    assert!(config.enable_reconnection);
    let session = SessionConfig::default();
    assert_eq!(session.max_channels, 16);
    assert_eq!(session.max_frame_size, 16384);
    assert_eq!(session.keepalive_interval_ms, 30_000);
}

#[test]
fn sessions_are_created_found_and_removed() {
    let (mut manager, mut rx) = SessionManager::new(SessionManagerConfig::default());
    let id = manager
        .create_session(DeviceId { value: vec![1] }, DeviceId { value: vec![2] }, empty_set())
        .unwrap();
    assert_eq!(id.value.len(), 16);
    let event = rx.try_recv().unwrap();
    assert_eq!(event.event_type, SessionEventType::SessionEventOpened);
    assert_eq!(event.message, "Session opened");
    let session = manager.get_session(&id).unwrap();
    assert_eq!(session.state(), SessionState::Opening);
    assert_eq!(session.config().remote_device_id.value, vec![2]);
    assert!(manager.remove_session(&id).is_some());
    assert!(manager.get_session(&id).is_none());
    assert_eq!(manager.list_sessions().len(), 0);
}

#[test]
fn session_sequences_and_liveness() {
    let (mut manager, _rx) = SessionManager::new(SessionManagerConfig::default());
    let id = manager.create_session(DeviceId { value: vec![1] }, DeviceId { value: vec![2] }, empty_set()).unwrap();
    let mut session = manager.remove_session(&id).unwrap();
    assert_eq!(session.next_tx_sequence(), 0);
    assert_eq!(session.next_tx_sequence(), 1);
    session.set_rx_sequence(42);
    assert_eq!(session.rx_sequence(), 42);
    session.touch_at(1_000);
    assert!(session.is_alive_at(1_000 + 89_999));
    assert!(!session.is_alive_at(1_000 + 90_000));
    assert!(session.is_alive_at(500));
    session.close(ResultCode::Success, "bye".to_string());
    assert_eq!(session.state(), SessionState::Closing);
}

#[test]
fn keepalive_times_out_on_third_silent_interval() {
    let mut monitor = KeepaliveMonitor::new();
    assert_eq!(monitor.on_tick(SessionState::Active, false), KeepaliveStep::SendKeepalive);
    assert_eq!(monitor.on_tick(SessionState::Active, false), KeepaliveStep::SendKeepalive);
    assert_eq!(monitor.on_tick(SessionState::Active, false), KeepaliveStep::Timeout);
    assert_eq!(monitor.missed, MAX_MISSED_KEEPALIVES);
}

#[test]
fn keepalive_resets_on_life_and_stops_when_inactive() {
    let mut monitor = KeepaliveMonitor::new();
    assert_eq!(monitor.on_tick(SessionState::Active, false), KeepaliveStep::SendKeepalive);
    assert_eq!(monitor.on_send_failed(), KeepaliveStep::Wait);
    assert_eq!(monitor.missed, 2);
    assert_eq!(monitor.on_tick(SessionState::Active, true), KeepaliveStep::SendKeepalive);
    assert_eq!(monitor.missed, 0);
    assert_eq!(monitor.on_tick(SessionState::Closing, false), KeepaliveStep::Stop);
    let mut failing = KeepaliveMonitor { missed: 2 };
    assert_eq!(failing.on_send_failed(), KeepaliveStep::Timeout);
}
