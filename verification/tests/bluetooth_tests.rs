use bpl::bluetooth::{
    device_from_platform, select_device_service, ClientConfig, ConnectionParams, LinuxBluetooth, MacOSBluetooth,
    RfcommClientState, RfcommServerState, RfcommStreamState, ServerConfig, StreamConfig, WindowsBluetooth,
};
use bpl::error::ProtocolError;
use bpl::pb::DeviceId;

#[test]
fn test_connection_params_default() {
    let params = ConnectionParams::default();
    assert_eq!(params.mtu, 1024);
    assert_eq!(params.timeout_ms, 10000);
}

#[test]
fn test_stream_config_default() {
    let config = StreamConfig::default();
    assert_eq!(config.buffer_size, 8192);
}

#[test]
fn test_client_creation() {
    let config = ClientConfig::default();
    let client = RfcommClientState::new(config);
    assert!(client.is_ok());
}

#[test]
fn client_test_client_creation() {
    let config = ClientConfig::default();
    let client = RfcommClientState::new(config);
    assert!(client.is_ok());
    assert!(!client.unwrap().is_connected());
}

#[test]
fn test_server_creation() {
    let config = ServerConfig::default();
    let server = RfcommServerState::new(config);
    assert!(server.is_ok());
    assert!(!server.unwrap().is_running());
}

#[test]
fn client_connects_once() {
    let mut client = RfcommClientState::new(ClientConfig::default()).unwrap();
    assert_eq!(client.begin_connect().unwrap(), 0xB7E5E0F0_1A2B_4C3D_8E9F_A0B1C2D3E4F5);
    let device = DeviceId { value: b"AA:BB".to_vec() };
    client.complete_connect(&device);
    assert!(client.is_connected());
    assert_eq!(client.remote_device_id().unwrap().value, b"AA:BB".to_vec());
    match client.begin_connect() {
        Err(ProtocolError::Config(m)) => assert_eq!(m, "Already connected"),
        other => panic!("unexpected {:?}", other),
    }
    client.disconnect().unwrap();
    assert!(!client.is_connected());
    assert!(client.remote_device_id().is_none());
    assert_eq!(client.connection_params().retry_count, 3);
}

#[test]
fn server_starts_once() {
    let mut server = RfcommServerState::new(ServerConfig::default()).unwrap();
    assert!(server.begin_start().is_ok());
    server.complete_start();
    assert!(server.is_running());
    assert!(matches!(server.begin_start(), Err(ProtocolError::Config(_))));
    assert!(server.stop());
    assert!(!server.stop());
}

#[test]
fn service_selection_matches_device_identifier() {
    let ids = vec![
        "Bluetooth#Bluetooth00:11:22-11:11:11#RFCOMM".to_string(),
        "Bluetooth#Bluetooth00:11:22-AA:BB:CC#RFCOMM".to_string(),
    ];
    let device = DeviceId { value: b"AA:BB:CC".to_vec() };
    assert_eq!(select_device_service(&ids, &device), Some(1));
    let other = DeviceId { value: b"DD:EE".to_vec() };
    assert_eq!(select_device_service(&ids, &other), None);
}

#[test]
fn stream_buffers_what_does_not_fit() {
    let mut stream = RfcommStreamState::new();
    let first = stream.deliver(4, b"abcdefghij");
    assert_eq!(first, b"abcd".to_vec());
    assert_eq!(stream.stats().bytes_read, 6);
    let second = stream.deliver(100, b"ignored");
    assert_eq!(second, b"efghij".to_vec());
    assert_eq!(stream.stats().bytes_read, 0);
    assert_eq!(stream.load_target(100_000), 8192);
    assert_eq!(stream.load_target(10), 10);
}

#[test]
fn stream_end_closes() {
    let mut stream = RfcommStreamState::new();
    assert!(stream.ensure_open().is_ok());
    assert_eq!(stream.on_loaded(5), 5);
    assert!(!stream.is_closed());
    assert_eq!(stream.on_loaded(0), 0);
    assert!(stream.is_closed());
    match stream.ensure_open() {
        Err(ProtocolError::Io(m)) => assert_eq!(m, "Stream closed"),
        other => panic!("unexpected {:?}", other),
    }
    assert!(!stream.close());
    stream.set_read_timeout(5);
    stream.set_write_timeout(6);
}

#[test]
fn platforms_and_devices() {
    assert_eq!(WindowsBluetooth::new().unwrap().platform_name(), "Windows");
    assert_eq!(LinuxBluetooth::new().unwrap().platform_name(), "Linux");
    assert_eq!(MacOSBluetooth::new().unwrap().platform_name(), "macOS");
    let d = device_from_platform("dev-1", "Phone", true);
    assert_eq!(d.id.value, b"dev-1".to_vec());
    assert_eq!(d.address, "dev-1");
    assert_eq!(d.name.as_deref(), Some("Phone"));
    assert!(d.paired && !d.connected);
}

#[test]
fn server_rejects_invalid_service_uuid() {
    let mut config = ServerConfig::default();
    config.service_uuid = "not-a-uuid".to_string();
    match RfcommServerState::new(config) {
        Err(ProtocolError::Config(m)) => assert!(m.starts_with("Invalid service UUID: ") && m.len() > 22),
        other => panic!("unexpected {:?}", other.map(|s| s.is_running())),
    }
}

#[test]
fn server_reads_uuid_in_every_form() {
    for text in [
        "00001101-0000-1000-8000-00805F9B34FB",
        "0000110100001000800000805f9b34fb",
        "{00001101-0000-1000-8000-00805f9b34fb}",
        "urn:uuid:00001101-0000-1000-8000-00805f9b34fb",
    ] {
        let mut config = ServerConfig::default();
        config.service_uuid = text.to_string();
        let server = RfcommServerState::new(config).unwrap();
        assert_eq!(server.service_uuid(), 0x00001101_0000_1000_8000_00805F9B34FB);
    }
}

#[test]
fn client_rejects_invalid_uuid() {
    let mut config = ClientConfig::default();
    config.service_uuid = "B7E5E0F0-1A2B".to_string();
    let client = RfcommClientState::new(config).unwrap();
    match client.begin_connect() {
        Err(ProtocolError::Config(m)) => assert!(m.starts_with("Invalid UUID: ") && m.len() > 14),
        other => panic!("unexpected {:?}", other),
    }
}

#[test]
fn service_selection_reads_the_identifier_as_lossy_utf8() {
    let ids = vec!["Bluetooth#dev-1".to_string(), "Bluetooth#dev-\u{FFFD}-2".to_string()];
    let device = DeviceId { value: vec![0xFF] };
    assert_eq!(select_device_service(&ids, &device), Some(1));
}
