use bpl::pb::{
    ChannelConfig, ChannelId, ChannelPriority, ChannelType, ResultCode, ServiceCapability, ServiceDiscoverRequest,
    ServiceHeartbeat, ServiceRegisterRequest, ServiceUnregisterRequest,
};
use bpl::registry::ServiceRegistry;

fn request(id: &str, channel: u32) -> ServiceRegisterRequest {
    let capability = ServiceCapability {
        service_id: id.to_string(),
        version: 1,
        name: "Test Service".to_string(),
        description: "Test".to_string(),
        required: false,
        metadata: Default::default(),
        feature_flags: 0,
    };
    let channel_config = ChannelConfig {
        channel_id: ChannelId { value: channel },
        channel_type: ChannelType::Data,
        priority: ChannelPriority::Normal,
        send_window: 65536,
        receive_window: 65536,
        max_frame_size: 16384,
        service_id: id.to_string(),
        metadata: Default::default(),
    };
    ServiceRegisterRequest { capability: Some(capability), channel_config: Some(channel_config), service_state: vec![] }
}

#[test]
fn test_service_registry() {
    let mut registry = ServiceRegistry::new();

    let resp = registry.register_service(request("test.service", 1)).unwrap();
    assert_eq!(resp.result, ResultCode::Success);

    let service = registry.get_service("test.service").unwrap();
    assert_eq!(service.service_id, "test.service");

    let services = registry.list_services();
    assert_eq!(services.len(), 1);

    let unreg = registry
        .unregister_service(ServiceUnregisterRequest { service_id: "test.service".to_string(), channel_id: 1 })
        .unwrap();
    assert_eq!(unreg.result, ResultCode::Success);

    assert_eq!(registry.service_count(), 0);
}

#[test]
fn registry_refuses_second_registration() {
    let mut registry = ServiceRegistry::new();
    registry.register_service(request("a.service", 1)).unwrap();
    let again = registry.register_service(request("a.service", 2)).unwrap();
    assert_eq!(again.result, ResultCode::ErrorGeneric);
    assert_eq!(registry.service_count(), 1);
    assert_eq!(registry.get_channel_id("a.service"), Some(1));
}

#[test]
fn registry_unknown_unregistration() {
    let mut registry = ServiceRegistry::new();
    let resp = registry
        .unregister_service(ServiceUnregisterRequest { service_id: "missing".to_string(), channel_id: 1 })
        .unwrap();
    assert_eq!(resp.result, ResultCode::ErrorNotFound);
}

#[test]
fn registry_discovery_filters_by_id() {
    let mut registry = ServiceRegistry::new();
    registry.register_service(request("a.service", 1)).unwrap();
    registry.register_service(request("b.service", 2)).unwrap();
    let all = registry
        .discover_services(ServiceDiscoverRequest { service_id: String::new(), version: 0, include_inactive: true })
        .unwrap();
    assert_eq!(all.services.len(), 2);
    let one = registry
        .discover_services(ServiceDiscoverRequest { service_id: "b.service".to_string(), version: 0, include_inactive: true })
        .unwrap();
    assert_eq!(one.services.len(), 1);
    assert_eq!(one.services[0].service_id, "b.service");
}

#[test]
fn registry_health_check_marks_silent_services() {
    let mut registry = ServiceRegistry::new();
    registry.register_service_at(request("a.service", 1), 1_000).unwrap();
    registry.register_service_at(request("b.service", 2), 1_000).unwrap();
    registry
        .handle_heartbeat_at(ServiceHeartbeat { service_id: "b.service".to_string(), healthy: true }, 5_000)
        .unwrap();
    let unhealthy = registry.check_health_at(3_000, 6_000);
    assert_eq!(unhealthy, vec!["a.service".to_string()]);
    assert!(!registry.get_service("a.service").unwrap().healthy);
    assert!(registry.get_service("b.service").unwrap().healthy);
}

#[test]
fn registry_heartbeat_keeps_service_alive_until_timeout() {
    let mut registry = ServiceRegistry::new();
    registry.register_service_at(request("a.service", 1), 1_000).unwrap();
    registry
        .handle_heartbeat_at(ServiceHeartbeat { service_id: "a.service".to_string(), healthy: true }, 2_000)
        .unwrap();
    assert!(registry.check_health_at(500, 2_500).is_empty());
    assert_eq!(registry.check_health_at(500, 2_501), vec!["a.service".to_string()]);
    assert!(registry.check_health_at(500, 9_000).is_empty());
    registry
        .handle_heartbeat_at(ServiceHeartbeat { service_id: "a.service".to_string(), healthy: true }, 9_000)
        .unwrap();
    assert!(registry.get_service("a.service").unwrap().healthy);
}

#[test]
fn registry_health_check_against_the_clock() {
    let mut registry = ServiceRegistry::new();
    registry.register_service(request("a.service", 1)).unwrap();
    assert!(registry.check_health(u64::MAX).is_empty());
    assert!(registry.get_service("a.service").unwrap().healthy);
    registry.register_service_at(request("b.service", 2), 0).unwrap();
    assert_eq!(registry.check_health(1_000), vec!["b.service".to_string()]);
    assert!(!registry.get_service("b.service").unwrap().healthy);
}
