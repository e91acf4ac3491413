use bpl::capability::{capabilities, defaults, CapabilityNegotiator};
use bpl::error::ProtocolError;

#[test]
fn test_capability_negotiation() {
    let mut negotiator = CapabilityNegotiator::new();
    negotiator.set_local_capabilities(capabilities::desktop_default());

    let remote = capabilities::android_default();
    let result = negotiator.negotiate(&remote).unwrap();

    assert_eq!(result.len(), 10);
    for cap in result {
        assert!(cap.available);
        assert_eq!(cap.negotiated_version, 1);
    }
}

#[test]
fn capability_test_capability_negotiation() {
    let mut negotiator = CapabilityNegotiator::new();
    negotiator.set_local_capabilities(defaults::desktop_default());

    let remote = defaults::android_default();
    let result = negotiator.negotiate(&remote).unwrap();

    assert_eq!(result.len(), 10);
    for cap in result {
        assert!(cap.available);
        assert_eq!(cap.negotiated_version, 1);
    }
}

#[test]
fn test_missing_required() {
    let mut local = capabilities::desktop_default();
    local.capabilities.retain(|c| c.service_id != "bpl.filesystem");

    let mut negotiator = CapabilityNegotiator::new();
    negotiator.set_local_capabilities(local);

    let remote = capabilities::android_default();
    let result = negotiator.negotiate(&remote);

    assert!(result.is_err());
}

#[test]
fn capability_test_missing_required() {
    let mut local = defaults::desktop_default();
    local.capabilities.retain(|c| c.service_id != "bpl.config");

    let mut negotiator = CapabilityNegotiator::new();
    negotiator.set_local_capabilities(local);

    let remote = defaults::android_default();
    let result = negotiator.negotiate(&remote);

    assert!(result.is_err());
}

#[test]
fn missing_required_names_the_service() {
    let mut local = defaults::desktop_default();
    local.capabilities.retain(|c| c.service_id != "bpl.config");
    let mut negotiator = CapabilityNegotiator::new();
    negotiator.set_local_capabilities(local);
    match negotiator.negotiate(&defaults::android_default()) {
        Err(ProtocolError::RequiredCapabilityMissing { service_id }) => assert_eq!(service_id, "bpl.config"),
        other => panic!("unexpected {:?}", other.map(|v| v.len())),
    }
}

#[test]
fn negotiated_services_are_queryable() {
    let mut negotiator = CapabilityNegotiator::new();
    negotiator.set_local_capabilities(capabilities::desktop_default());
    negotiator.negotiate(&capabilities::android_default()).unwrap();
    assert!(negotiator.is_available("bpl.filesystem"));
    assert_eq!(negotiator.get_version("bpl.filesystem"), Some(1));
    assert_eq!(negotiator.get_version("bpl.nothing"), None);
    assert!(!negotiator.is_available("bpl.nothing"));
    assert!(negotiator.is_capability_supported("bpl.sync", 1));
    assert!(!negotiator.is_capability_supported("bpl.sync", 2));
    assert_eq!(negotiator.negotiated().len(), 10);
}
