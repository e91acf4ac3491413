//! Built-in capability definitions.

use vstd::prelude::*;

use crate::pb::{caps_view, CapabilitySet, CapabilitySetView, DeviceId, ProtocolVersion, ServiceCapability, ServiceCapabilityView};

verus! {

broadcast use vstd::string::group_string_axioms;

/// The advertisement of the `bpl.filesystem` service.
pub open spec fn spec_filesystem() -> ServiceCapabilityView {
    ServiceCapabilityView {
        service_id: "bpl.filesystem"@,
        version: 1,
        name: "Filesystem"@,
        description: "File and directory operations"@,
        required: true,
        metadata: Seq::empty(),
        feature_flags: 0,
    }
}

/// Capability descriptor of the `bpl.filesystem` service.
pub fn filesystem() -> (r: ServiceCapability)
    ensures
        r@ == spec_filesystem(),
{
    let r = ServiceCapability {
        service_id: "bpl.filesystem".to_string(),
        version: 1,
        name: "Filesystem".to_string(),
        description: "File and directory operations".to_string(),
        required: true,
        metadata: Vec::new(),
        feature_flags: 0,
    };
    assert(r.metadata@ =~= Seq::empty());
    r
}

/// The advertisement of the `bpl.sync` service.
pub open spec fn spec_sync() -> ServiceCapabilityView {
    ServiceCapabilityView {
        service_id: "bpl.sync"@,
        version: 1,
        name: "Sync"@,
        description: "Directory synchronization"@,
        required: true,
        metadata: Seq::empty(),
        feature_flags: 0,
    }
}

/// Capability descriptor of the `bpl.sync` service.
pub fn sync() -> (r: ServiceCapability)
    ensures
        r@ == spec_sync(),
{
    let r = ServiceCapability {
        service_id: "bpl.sync".to_string(),
        version: 1,
        name: "Sync".to_string(),
        description: "Directory synchronization".to_string(),
        required: true,
        metadata: Vec::new(),
        feature_flags: 0,
    };
    assert(r.metadata@ =~= Seq::empty());
    r
}

/// The advertisement of the `bpl.config` service.
pub open spec fn spec_config() -> ServiceCapabilityView {
    ServiceCapabilityView {
        service_id: "bpl.config"@,
        version: 1,
        name: "Config"@,
        description: "Configuration management"@,
        required: true,
        metadata: Seq::empty(),
        feature_flags: 0,
    }
}

/// Capability descriptor of the `bpl.config` service.
pub fn config() -> (r: ServiceCapability)
    ensures
        r@ == spec_config(),
{
    let r = ServiceCapability {
        service_id: "bpl.config".to_string(),
        version: 1,
        name: "Config".to_string(),
        description: "Configuration management".to_string(),
        required: true,
        metadata: Vec::new(),
        feature_flags: 0,
    };
    assert(r.metadata@ =~= Seq::empty());
    r
}

/// The advertisement of the `bpl.photo_backup` service.
pub open spec fn spec_photo_backup() -> ServiceCapabilityView {
    ServiceCapabilityView {
        service_id: "bpl.photo_backup"@,
        version: 1,
        name: "Photo Backup"@,
        description: "Automatic photo backup"@,
        required: false,
        metadata: Seq::empty(),
        feature_flags: 0,
    }
}

/// Capability descriptor of the `bpl.photo_backup` service.
pub fn photo_backup() -> (r: ServiceCapability)
    ensures
        r@ == spec_photo_backup(),
{
    let r = ServiceCapability {
        service_id: "bpl.photo_backup".to_string(),
        version: 1,
        name: "Photo Backup".to_string(),
        description: "Automatic photo backup".to_string(),
        required: false,
        metadata: Vec::new(),
        feature_flags: 0,
    };
    assert(r.metadata@ =~= Seq::empty());
    r
}

/// The advertisement of the `bpl.shell` service.
pub open spec fn spec_shell() -> ServiceCapabilityView {
    ServiceCapabilityView {
        service_id: "bpl.shell"@,
        version: 1,
        name: "Remote Shell"@,
        description: "Command execution"@,
        required: false,
        metadata: Seq::empty(),
        feature_flags: 0,
    }
}

/// Capability descriptor of the `bpl.shell` service.
pub fn shell() -> (r: ServiceCapability)
    ensures
        r@ == spec_shell(),
{
    let r = ServiceCapability {
        service_id: "bpl.shell".to_string(),
        version: 1,
        name: "Remote Shell".to_string(),
        description: "Command execution".to_string(),
        required: false,
        metadata: Vec::new(),
        feature_flags: 0,
    };
    assert(r.metadata@ =~= Seq::empty());
    r
}

/// The advertisement of the `bpl.media_control` service.
pub open spec fn spec_media_control() -> ServiceCapabilityView {
    ServiceCapabilityView {
        service_id: "bpl.media_control"@,
        version: 1,
        name: "Media Control"@,
        description: "Media playback control"@,
        required: false,
        metadata: Seq::empty(),
        feature_flags: 0,
    }
}

/// Capability descriptor of the `bpl.media_control` service.
pub fn media_control() -> (r: ServiceCapability)
    ensures
        r@ == spec_media_control(),
{
    let r = ServiceCapability {
        service_id: "bpl.media_control".to_string(),
        version: 1,
        name: "Media Control".to_string(),
        description: "Media playback control".to_string(),
        required: false,
        metadata: Vec::new(),
        feature_flags: 0,
    };
    assert(r.metadata@ =~= Seq::empty());
    r
}

/// The advertisement of the `bpl.phone_fs` service.
pub open spec fn spec_phone_fs() -> ServiceCapabilityView {
    ServiceCapabilityView {
        service_id: "bpl.phone_fs"@,
        version: 1,
        name: "Phone Filesystem"@,
        description: "Access phone storage"@,
        required: false,
        metadata: Seq::empty(),
        feature_flags: 0,
    }
}

/// Capability descriptor of the `bpl.phone_fs` service.
pub fn phone_fs() -> (r: ServiceCapability)
    ensures
        r@ == spec_phone_fs(),
{
    let r = ServiceCapability {
        service_id: "bpl.phone_fs".to_string(),
        version: 1,
        name: "Phone Filesystem".to_string(),
        description: "Access phone storage".to_string(),
        required: false,
        metadata: Vec::new(),
        feature_flags: 0,
    };
    assert(r.metadata@ =~= Seq::empty());
    r
}

/// The advertisement of the `bpl.proximity` service.
pub open spec fn spec_proximity() -> ServiceCapabilityView {
    ServiceCapabilityView {
        service_id: "bpl.proximity"@,
        version: 1,
        name: "Proximity"@,
        description: "Proximity detection"@,
        required: false,
        metadata: Seq::empty(),
        feature_flags: 0,
    }
}

/// Capability descriptor of the `bpl.proximity` service.
pub fn proximity() -> (r: ServiceCapability)
    ensures
        r@ == spec_proximity(),
{
    let r = ServiceCapability {
        service_id: "bpl.proximity".to_string(),
        version: 1,
        name: "Proximity".to_string(),
        description: "Proximity detection".to_string(),
        required: false,
        metadata: Vec::new(),
        feature_flags: 0,
    };
    assert(r.metadata@ =~= Seq::empty());
    r
}

/// The advertisement of the `bpl.file_stream` service.
pub open spec fn spec_file_stream() -> ServiceCapabilityView {
    ServiceCapabilityView {
        service_id: "bpl.file_stream"@,
        version: 1,
        name: "File Streaming"@,
        description: "On-demand file streaming"@,
        required: false,
        metadata: Seq::empty(),
        feature_flags: 0,
    }
}

/// Capability descriptor of the `bpl.file_stream` service.
pub fn file_stream() -> (r: ServiceCapability)
    ensures
        r@ == spec_file_stream(),
{
    let r = ServiceCapability {
        service_id: "bpl.file_stream".to_string(),
        version: 1,
        name: "File Streaming".to_string(),
        description: "On-demand file streaming".to_string(),
        required: false,
        metadata: Vec::new(),
        feature_flags: 0,
    };
    assert(r.metadata@ =~= Seq::empty());
    r
}

/// The advertisement of the `bpl.app_launcher` service.
pub open spec fn spec_app_launcher() -> ServiceCapabilityView {
    ServiceCapabilityView {
        service_id: "bpl.app_launcher"@,
        version: 1,
        name: "App Launcher"@,
        description: "Launch applications"@,
        required: false,
        metadata: Seq::empty(),
        feature_flags: 0,
    }
}

/// Capability descriptor of the `bpl.app_launcher` service.
pub fn app_launcher() -> (r: ServiceCapability)
    ensures
        r@ == spec_app_launcher(),
{
    let r = ServiceCapability {
        service_id: "bpl.app_launcher".to_string(),
        version: 1,
        name: "App Launcher".to_string(),
        description: "Launch applications".to_string(),
        required: false,
        metadata: Vec::new(),
        feature_flags: 0,
    };
    assert(r.metadata@ =~= Seq::empty());
    r
}

/// The services every device advertises by default, in order.
pub open spec fn spec_default_services() -> Seq<ServiceCapabilityView> {
    seq![spec_filesystem(), spec_sync(), spec_config(), spec_photo_backup(), spec_shell(), spec_media_control(), spec_phone_fs(), spec_proximity(), spec_file_stream(), spec_app_launcher()]
}

/// The default capability set of a device with the given name.
pub open spec fn spec_default_set(device_name: Seq<char>) -> CapabilitySetView {
    CapabilitySetView {
        capabilities: spec_default_services(),
        protocol_version: Some(ProtocolVersion { major: 1, minor: 0, patch: 0 }),
        software_version: "0.1.0"@,
        device_name,
        device_id: Some(Seq::empty()),
    }
}

/// The default services, in order.
fn default_services() -> (r: Vec<ServiceCapability>)
    ensures
        caps_view(r@) == spec_default_services(),
{
    let r = vec![
        filesystem(),
        sync(),
        config(),
        photo_backup(),
        shell(),
        media_control(),
        phone_fs(),
        proximity(),
        file_stream(),
        app_launcher(),
    ];
    assert(caps_view(r@) =~= spec_default_services());
    r
}

/// Get all default capabilities for desktop.
pub fn desktop_default() -> (r: CapabilitySet)
    ensures
        r@ == spec_default_set("BPL Desktop"@),
{
    let r = CapabilitySet {
        capabilities: default_services(),
        protocol_version: Some(ProtocolVersion { major: 1, minor: 0, patch: 0 }),
        software_version: "0.1.0".to_string(),
        device_name: "BPL Desktop".to_string(),
        device_id: Some(DeviceId { value: Vec::new() }),
    };
    assert(r.device_id.unwrap().value@ =~= Seq::<u8>::empty());
    r
}

/// Get all default capabilities for Android.
pub fn android_default() -> (r: CapabilitySet)
    ensures
        r@ == spec_default_set("BPL Android"@),
{
    let r = CapabilitySet {
        capabilities: default_services(),
        protocol_version: Some(ProtocolVersion { major: 1, minor: 0, patch: 0 }),
        software_version: "0.1.0".to_string(),
        device_name: "BPL Android".to_string(),
        device_id: Some(DeviceId { value: Vec::new() }),
    };
    assert(r.device_id.unwrap().value@ =~= Seq::<u8>::empty());
    r
}

} // verus!
