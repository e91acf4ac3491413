use base64::Engine;
use bpl::desktop::config::{
    generate_psk, parse_psk, AppConfig, BluetoothConfig, ConfigManager, DatabaseConfig, DeviceConfig, LoggingConfig,
    SecurityConfig, ServiceSettings, TrustedDevice,
};
use bpl::desktop::database::migrations_to_apply;
use bpl::desktop::events::EventBus;
use bpl::desktop::service::{get_capability_version, has_capability, ServiceResponse, ServiceStatus};
use bpl::error::ProtocolError;
use bpl::pb::{DeviceId, NegotiatedCapability};
use bpl::service::ServiceTable;

#[derive(Debug, Clone)]
enum TestEvent {
    DeviceConnected(DeviceId),
    Other(u32),
}

#[test]
fn test_event_bus() {
    let mut bus: EventBus<TestEvent> = EventBus::new();
    let mut rx = bus.subscribe();

    bus.publish(TestEvent::DeviceConnected(DeviceId { value: vec![1, 2, 3] })).unwrap();

    let event = rx.try_recv().unwrap();
    match event {
        TestEvent::DeviceConnected(id) => assert_eq!(id.value, vec![1, 2, 3]),
        _ => panic!("Wrong event type"),
    }

    assert_eq!(bus.history_size(), 1);
}

#[test]
fn event_history_keeps_the_last_thousand() {
    let mut bus: EventBus<TestEvent> = EventBus::new();
    for i in 0..1005u32 {
        bus.publish(TestEvent::Other(i)).unwrap();
    }
    assert_eq!(bus.history_size(), 1000);
    match &bus.history()[0] {
        TestEvent::Other(n) => assert_eq!(*n, 5),
        _ => panic!("Wrong event type"),
    }
    bus.clear_history();
    assert_eq!(bus.history_size(), 0);
}

#[test]
fn published_events_reach_subscribers_in_order() {
    let mut bus: EventBus<TestEvent> = EventBus::new();
    bus.publish(TestEvent::Other(0)).unwrap();
    let mut rx = bus.subscribe();
    bus.publish(TestEvent::Other(1)).unwrap();
    bus.clear_history();
    bus.publish(TestEvent::Other(2)).unwrap();
    for expected in [1u32, 2] {
        match rx.try_recv().unwrap() {
            TestEvent::Other(n) => assert_eq!(n, expected),
            _ => panic!("Wrong event type"),
        }
    }
    assert!(rx.try_recv().is_err());
    assert_eq!(bus.history_size(), 1);
}

#[test]
fn test_device_id() {
    let mut manager = ConfigManager::new(AppConfig::default(), "config.toml".to_string());

    let device_id = manager.get_or_create_device_id().unwrap();
    assert_eq!(device_id.value.len(), 16);

    let device_id2 = manager.get_or_create_device_id().unwrap();
    assert_eq!(device_id.value, device_id2.value);
    use_base64_stored(&manager, &device_id.value);
}

fn use_base64_stored(manager: &ConfigManager, id: &[u8]) {
    let stored = manager.get().device.device_id.unwrap();
    assert_eq!(stored, base64::engine::general_purpose::STANDARD.encode(id));
}

#[test]
fn invalid_stored_device_id_is_an_error() {
    let mut config = AppConfig::default();
    config.device.device_id = Some("not base64!".to_string());
    let mut manager = ConfigManager::new(config, String::new());
    match manager.get_or_create_device_id() {
        Err(ProtocolError::Config(m)) => assert!(m.starts_with("Invalid device ID: ")),
        other => panic!("unexpected {:?}", other),
    }
}

#[test]
fn config_defaults() {
    let loaded = AppConfig::default();
    assert_eq!(loaded.bluetooth.device_name, "BPL Desktop");
    assert!(loaded.services.filesystem.enabled);
    assert!(!loaded.services.photo_backup.enabled);
    assert_eq!(BluetoothConfig::default().service_uuid, "B7E5E0F0-1A2B-4C3D-8E9F-A0B1C2D3E4F5");
    assert_eq!(BluetoothConfig::default().reconnect_interval_sec, 30);
    assert_eq!(DatabaseConfig::default().path, "bpl.db");
    assert_eq!(DatabaseConfig::default().backup_interval_hours, 24);
    assert_eq!(LoggingConfig::default().format, "json");
    assert_eq!(LoggingConfig::default().max_file_size_mb, 100);
    assert_eq!(SecurityConfig::default().session_timeout_sec, 3600);
    assert_eq!(SecurityConfig::default().lockout_duration_sec, 300);
    assert!(DeviceConfig::default().trusted_devices.is_empty());
}

#[test]
fn psk_is_stored_in_base64() {
    let mut manager = ConfigManager::default();
    assert!(manager.get_psk().is_none());
    manager.set_psk(vec![1, 2, 3, 4]);
    assert_eq!(manager.get().security.psk.as_deref(), Some("AQIDBA=="));
    assert_eq!(manager.get_psk(), Some(vec![1, 2, 3, 4]));
    let text = generate_psk();
    assert_eq!(parse_psk(&text).unwrap().len(), 32);
    match parse_psk("AQIDBA==") {
        Err(ProtocolError::Config(m)) => assert_eq!(m, "PSK must be 32 bytes (base64 encoded)"),
        other => panic!("unexpected {:?}", other),
    }
    match parse_psk("%%%") {
        Err(ProtocolError::Config(m)) => assert_eq!(m, "Invalid base64 PSK"),
        other => panic!("unexpected {:?}", other),
    }
}

fn device(id: &str, name: &str) -> TrustedDevice {
    TrustedDevice {
        device_id: id.to_string(),
        name: name.to_string(),
        paired_at: "2024-01-01T00:00:00Z".to_string(),
        last_seen: "2024-01-01T00:00:00Z".to_string(),
        trusted: true,
        psk: None,
    }
}

#[test]
fn trusted_devices_are_replaced_and_removed() {
    let mut manager = ConfigManager::default();
    manager.add_trusted_device(device("a", "A"));
    manager.add_trusted_device(device("b", "B"));
    manager.add_trusted_device(device("a", "A2"));
    let list = manager.get_trusted_devices();
    assert_eq!(list.len(), 2);
    assert_eq!(list[0].device_id, "b");
    assert_eq!(list[1].name, "A2");
    assert_eq!(manager.get_trusted_device("a").unwrap().name, "A2");
    manager.update_device_last_seen_at("b", "2025-05-05T00:00:00Z".to_string());
    assert_eq!(manager.get_trusted_device("b").unwrap().last_seen, "2025-05-05T00:00:00Z");
    manager.update_device_last_seen("b");
    let seen = manager.get_trusted_device("b").unwrap().last_seen;
    assert_ne!(seen, "2025-05-05T00:00:00Z");
    assert!(chrono::DateTime::parse_from_rfc3339(&seen).is_ok());
    assert!(seen.len() >= 25 && seen.ends_with("+00:00"));
    manager.remove_trusted_device("a");
    assert!(manager.get_trusted_device("a").is_none());
    assert_eq!(manager.get_trusted_devices().len(), 1);
}

#[test]
fn service_settings_by_name() {
    let mut manager = ConfigManager::default();
    assert!(manager.get_service_settings("filesystem").unwrap().enabled);
    assert!(manager.get_service_settings("nothing").is_none());
    let settings = ServiceSettings { enabled: false, settings: serde_json::Value::Null };
    manager.update_service_settings("shell", settings).unwrap();
    assert!(!manager.get_service_settings("shell").unwrap().enabled);
    let other = ServiceSettings { enabled: true, settings: serde_json::Value::Null };
    match manager.update_service_settings("bogus", other) {
        Err(ProtocolError::Config(m)) => assert_eq!(m, "Unknown service: bogus"),
        other => panic!("unexpected {:?}", other),
    }
}

#[test]
fn migrations_plan() {
    assert_eq!(migrations_to_apply(&vec![]), vec![1, 2, 3, 4, 5, 6, 7]);
    assert_eq!(migrations_to_apply(&vec![1, 2, 5]), vec![3, 4, 6, 7]);
    assert!(migrations_to_apply(&vec![1, 2, 3, 4, 5, 6, 7]).is_empty());
}

struct TestService;

#[test]
fn test_service_manager() {
    let mut table: ServiceTable<TestService> = ServiceTable::new();
    table.register_service("test.service".to_string(), TestService).unwrap();

    assert_eq!(table.service_count(), 1);
    assert!(table.list_services().contains(&"test.service".to_string()));
}

#[test]
fn service_test_service_manager() {
    let mut table: ServiceTable<TestService> = ServiceTable::new();
    table.register_service("test.service".to_string(), TestService).unwrap();

    assert_eq!(table.service_count(), 1);
    assert!(table.list_services().contains(&"test.service".to_string()));
    assert!(matches!(
        table.register_service("test.service".to_string(), TestService),
        Err(ProtocolError::ServiceAlreadyRegistered { .. })
    ));
    assert!(table.unregister_service("test.service").is_ok());
    assert!(matches!(table.unregister_service("test.service"), Err(ProtocolError::ServiceNotRegistered { .. })));
}

#[test]
fn responses_and_capabilities() {
    let ok = ServiceResponse::success(7, b"OK".to_vec());
    assert_eq!((ok.request_id, ok.result), (7, 0));
    let missing = ServiceResponse::not_found(8, "x.y");
    assert_eq!(missing.result, 2);
    assert_eq!(missing.error_message, "Service not found: x.y");
    let status = ServiceStatus::idle("x.y");
    assert!(!status.running && status.healthy);
    let caps = vec![
        NegotiatedCapability {
            service_id: "a".to_string(),
            negotiated_version: 3,
            negotiated_features: vec![],
            available: false,
            unavailable_reason: String::new(),
        },
        NegotiatedCapability {
            service_id: "a".to_string(),
            negotiated_version: 2,
            negotiated_features: vec![],
            available: true,
            unavailable_reason: String::new(),
        },
    ];
    assert!(has_capability(&caps, "a"));
    assert_eq!(get_capability_version(&caps, "a"), Some(2));
    assert!(!has_capability(&caps, "b"));
}
