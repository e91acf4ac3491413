//! Protocol message types shared by the frame, capability, registry and
//! authentication layers.

use vstd::prelude::*;

verus! {

/// A key/value entry of a message's metadata.
#[derive(Debug)]
pub struct MetadataEntry {
    pub key: String,
    pub value: String,
}

impl Clone for MetadataEntry {
    fn clone(&self) -> (r: Self)
        ensures
            r == *self,
    {
        MetadataEntry { key: self.key.clone(), value: self.value.clone() }
    }
}

/// Copies a metadata list entry by entry.
pub fn clone_metadata(m: &Vec<MetadataEntry>) -> (r: Vec<MetadataEntry>)
    ensures
        r@ == m@,
{
    let mut r: Vec<MetadataEntry> = Vec::new();
    let mut i: usize = 0;
    while i < m.len()
        invariant
            i <= m.len(),
            r@ == m@.take(i as int),
        decreases m.len() - i,
    {
        r.push(m[i].clone());
        i = i + 1;
        assert(r@ =~= m@.take(i as int));
    }
    assert(m@.take(m.len() as int) =~= m@);
    r
}

/// Copies a byte string.
pub fn clone_bytes(b: &[u8]) -> (r: Vec<u8>)
    ensures
        r@ == b@,
{
    let mut r: Vec<u8> = Vec::new();
    let mut i: usize = 0;
    while i < b.len()
        invariant
            i <= b.len(),
            r@ == b@.take(i as int),
        decreases b.len() - i,
    {
        r.push(b[i]);
        i = i + 1;
        assert(r@ =~= b@.take(i as int));
    }
    assert(b@.take(b.len() as int) =~= b@);
    r
}

/// Device identifier.
#[derive(Debug)]
pub struct DeviceId {
    pub value: Vec<u8>,
}

impl Clone for DeviceId {
    fn clone(&self) -> (r: Self)
        ensures
            r.value@ == self.value@,
    {
        DeviceId { value: clone_bytes(self.value.as_slice()) }
    }
}

/// Session identifier.
#[derive(Debug)]
pub struct SessionId {
    pub value: Vec<u8>,
}

impl Clone for SessionId {
    fn clone(&self) -> (r: Self)
        ensures
            r.value@ == self.value@,
    {
        SessionId { value: clone_bytes(self.value.as_slice()) }
    }
}

/// Logical channel identifier.
#[derive(Debug, Clone, Copy, PartialEq, Eq, Structural)]
pub struct ChannelId {
    pub value: u32,
}

/// Frame sequence number.
#[derive(Debug, Clone, Copy, PartialEq, Eq, Structural)]
pub struct SequenceNumber {
    pub value: u64,
}

/// Milliseconds since the Unix epoch.
#[derive(Debug, Clone, Copy, PartialEq, Eq, Structural)]
pub struct Timestamp {
    pub value: i64,
}

/// Protocol version triple.
#[derive(Debug, Clone, Copy, PartialEq, Eq, Structural)]
pub struct ProtocolVersion {
    pub major: u32,
    pub minor: u32,
    pub patch: u32,
}

/// Result codes carried in responses.
#[derive(Debug, Clone, Copy, PartialEq, Eq, Structural)]
pub enum ResultCode {
    Success,
    ErrorGeneric,
    ErrorNotFound,
    ErrorInvalidArgument,
    ErrorUnauthorized,
    ErrorTimeout,
    ErrorUnsupported,
}

/// The numeric value of a result code on the wire.
pub open spec fn spec_result_code_value(c: ResultCode) -> i32 {
    match c {
        ResultCode::Success => 0,
        ResultCode::ErrorGeneric => 1,
        ResultCode::ErrorNotFound => 2,
        ResultCode::ErrorInvalidArgument => 3,
        ResultCode::ErrorUnauthorized => 4,
        ResultCode::ErrorTimeout => 5,
        ResultCode::ErrorUnsupported => 6,
    }
}

/// The numeric value of a result code on the wire.
pub fn result_code_value(c: ResultCode) -> (r: i32)
    ensures
        r == spec_result_code_value(c),
{
    match c {
        ResultCode::Success => 0,
        ResultCode::ErrorGeneric => 1,
        ResultCode::ErrorNotFound => 2,
        ResultCode::ErrorInvalidArgument => 3,
        ResultCode::ErrorUnauthorized => 4,
        ResultCode::ErrorTimeout => 5,
        ResultCode::ErrorUnsupported => 6,
    }
}

/// Frame types.
#[derive(Debug, Clone, Copy, PartialEq, Eq, Structural)]
pub enum FrameType {
    SessionOpen,
    SessionOpenAck,
    SessionClose,
    SessionCloseAck,
    Keepalive,
    KeepaliveAck,
    CapabilityNegotiate,
    CapabilityAck,
    AuthChallenge,
    AuthResponse,
    AuthSuccess,
    AuthFailure,
    AuthKeyConfirm,
    ChannelOpen,
    ChannelOpenAck,
    ChannelClose,
    ChannelCloseAck,
    FlowControl,
    ServiceRegister,
    ServiceUnregister,
    ServiceDiscover,
    ServiceDiscoverResp,
    Error,
    Data,
    DataFragment,
    DataEnd,
}

/// The byte that stands for a frame type on the wire.
pub open spec fn spec_frame_type_code(t: FrameType) -> u8 {
    match t {
        FrameType::SessionOpen => 1,
        FrameType::SessionOpenAck => 2,
        FrameType::SessionClose => 3,
        FrameType::SessionCloseAck => 4,
        FrameType::Keepalive => 5,
        FrameType::KeepaliveAck => 6,
        FrameType::CapabilityNegotiate => 7,
        FrameType::CapabilityAck => 8,
        FrameType::AuthChallenge => 9,
        FrameType::AuthResponse => 10,
        FrameType::AuthSuccess => 11,
        FrameType::AuthFailure => 12,
        FrameType::AuthKeyConfirm => 13,
        FrameType::ChannelOpen => 14,
        FrameType::ChannelOpenAck => 15,
        FrameType::ChannelClose => 16,
        FrameType::ChannelCloseAck => 17,
        FrameType::FlowControl => 18,
        FrameType::ServiceRegister => 19,
        FrameType::ServiceUnregister => 20,
        FrameType::ServiceDiscover => 21,
        FrameType::ServiceDiscoverResp => 22,
        FrameType::Error => 23,
        FrameType::Data => 24,
        FrameType::DataFragment => 25,
        FrameType::DataEnd => 26,
    }
}

/// The frame type a wire byte stands for, if any.
pub open spec fn spec_frame_type_from_code(b: u8) -> Option<FrameType> {
    if b == 1 { Some(FrameType::SessionOpen) }
    else if b == 2 { Some(FrameType::SessionOpenAck) }
    else if b == 3 { Some(FrameType::SessionClose) }
    else if b == 4 { Some(FrameType::SessionCloseAck) }
    else if b == 5 { Some(FrameType::Keepalive) }
    else if b == 6 { Some(FrameType::KeepaliveAck) }
    else if b == 7 { Some(FrameType::CapabilityNegotiate) }
    else if b == 8 { Some(FrameType::CapabilityAck) }
    else if b == 9 { Some(FrameType::AuthChallenge) }
    else if b == 10 { Some(FrameType::AuthResponse) }
    else if b == 11 { Some(FrameType::AuthSuccess) }
    else if b == 12 { Some(FrameType::AuthFailure) }
    else if b == 13 { Some(FrameType::AuthKeyConfirm) }
    else if b == 14 { Some(FrameType::ChannelOpen) }
    else if b == 15 { Some(FrameType::ChannelOpenAck) }
    else if b == 16 { Some(FrameType::ChannelClose) }
    else if b == 17 { Some(FrameType::ChannelCloseAck) }
    else if b == 18 { Some(FrameType::FlowControl) }
    else if b == 19 { Some(FrameType::ServiceRegister) }
    else if b == 20 { Some(FrameType::ServiceUnregister) }
    else if b == 21 { Some(FrameType::ServiceDiscover) }
    else if b == 22 { Some(FrameType::ServiceDiscoverResp) }
    else if b == 23 { Some(FrameType::Error) }
    else if b == 24 { Some(FrameType::Data) }
    else if b == 25 { Some(FrameType::DataFragment) }
    else if b == 26 { Some(FrameType::DataEnd) }
    else { None }
}

/// Every frame type's byte reads back as that frame type.
pub proof fn lemma_frame_type_code_roundtrip(t: FrameType)
    ensures
        spec_frame_type_from_code(spec_frame_type_code(t)) == Some(t),
{
}

/// The byte that stands for a frame type on the wire.
pub fn frame_type_code(t: FrameType) -> (r: u8)
    ensures
        r == spec_frame_type_code(t),
{
    match t {
        FrameType::SessionOpen => 1,
        FrameType::SessionOpenAck => 2,
        FrameType::SessionClose => 3,
        FrameType::SessionCloseAck => 4,
        FrameType::Keepalive => 5,
        FrameType::KeepaliveAck => 6,
        FrameType::CapabilityNegotiate => 7,
        FrameType::CapabilityAck => 8,
        FrameType::AuthChallenge => 9,
        FrameType::AuthResponse => 10,
        FrameType::AuthSuccess => 11,
        FrameType::AuthFailure => 12,
        FrameType::AuthKeyConfirm => 13,
        FrameType::ChannelOpen => 14,
        FrameType::ChannelOpenAck => 15,
        FrameType::ChannelClose => 16,
        FrameType::ChannelCloseAck => 17,
        FrameType::FlowControl => 18,
        FrameType::ServiceRegister => 19,
        FrameType::ServiceUnregister => 20,
        FrameType::ServiceDiscover => 21,
        FrameType::ServiceDiscoverResp => 22,
        FrameType::Error => 23,
        FrameType::Data => 24,
        FrameType::DataFragment => 25,
        FrameType::DataEnd => 26,
    }
}

/// The frame type a wire byte stands for, if any.
pub fn frame_type_from_code(b: u8) -> (r: Option<FrameType>)
    ensures
        r == spec_frame_type_from_code(b),
{
    if b == 1 { Some(FrameType::SessionOpen) }
    else if b == 2 { Some(FrameType::SessionOpenAck) }
    else if b == 3 { Some(FrameType::SessionClose) }
    else if b == 4 { Some(FrameType::SessionCloseAck) }
    else if b == 5 { Some(FrameType::Keepalive) }
    else if b == 6 { Some(FrameType::KeepaliveAck) }
    else if b == 7 { Some(FrameType::CapabilityNegotiate) }
    else if b == 8 { Some(FrameType::CapabilityAck) }
    else if b == 9 { Some(FrameType::AuthChallenge) }
    else if b == 10 { Some(FrameType::AuthResponse) }
    else if b == 11 { Some(FrameType::AuthSuccess) }
    else if b == 12 { Some(FrameType::AuthFailure) }
    else if b == 13 { Some(FrameType::AuthKeyConfirm) }
    else if b == 14 { Some(FrameType::ChannelOpen) }
    else if b == 15 { Some(FrameType::ChannelOpenAck) }
    else if b == 16 { Some(FrameType::ChannelClose) }
    else if b == 17 { Some(FrameType::ChannelCloseAck) }
    else if b == 18 { Some(FrameType::FlowControl) }
    else if b == 19 { Some(FrameType::ServiceRegister) }
    else if b == 20 { Some(FrameType::ServiceUnregister) }
    else if b == 21 { Some(FrameType::ServiceDiscover) }
    else if b == 22 { Some(FrameType::ServiceDiscoverResp) }
    else if b == 23 { Some(FrameType::Error) }
    else if b == 24 { Some(FrameType::Data) }
    else if b == 25 { Some(FrameType::DataFragment) }
    else if b == 26 { Some(FrameType::DataEnd) }
    else { None }
}

/// Per-frame flags.
#[derive(Debug, Clone, Copy, PartialEq, Eq, Structural)]
pub struct FrameFlags {
    pub is_fragment: bool,
    pub is_last_fragment: bool,
    pub encrypted: bool,
    pub authenticated: bool,
    pub compressed: bool,
    pub priority: bool,
    pub ack_required: bool,
    pub reset_sequence: bool,
    pub retransmission: bool,
}

/// Flags with every bit clear.
pub open spec fn spec_no_flags() -> FrameFlags {
    FrameFlags {
        is_fragment: false,
        is_last_fragment: false,
        encrypted: false,
        authenticated: false,
        compressed: false,
        priority: false,
        ack_required: false,
        reset_sequence: false,
        retransmission: false,
    }
}

impl Default for FrameFlags {
    fn default() -> (r: Self)
        ensures
            r == spec_no_flags(),
    {
        FrameFlags {
            is_fragment: false,
            is_last_fragment: false,
            encrypted: false,
            authenticated: false,
            compressed: false,
            priority: false,
            ack_required: false,
            reset_sequence: false,
            retransmission: false,
        }
    }
}

/// Frame header.
#[derive(Debug, Clone, Copy, PartialEq, Eq, Structural)]
pub struct FrameHeader {
    pub magic: u32,
    pub version: u32,
    pub frame_type: FrameType,
    pub flags: Option<FrameFlags>,
    pub channel_id: Option<ChannelId>,
    pub sequence: Option<SequenceNumber>,
    pub payload_length: u32,
    pub header_crc: u32,
}

/// Channel types.
#[derive(Debug, Clone, Copy, PartialEq, Eq, Structural)]
pub enum ChannelType {
    Control,
    Data,
    Stream,
}

/// Channel priorities.
#[derive(Debug, Clone, Copy, PartialEq, Eq, Structural)]
pub enum ChannelPriority {
    Low,
    Normal,
    High,
}

/// Channel configuration.
#[derive(Debug)]
pub struct ChannelConfig {
    pub channel_id: ChannelId,
    pub channel_type: ChannelType,
    pub priority: ChannelPriority,
    pub send_window: u32,
    pub receive_window: u32,
    pub max_frame_size: u32,
    pub service_id: String,
    pub metadata: Vec<MetadataEntry>,
}

/// Flow control window update for a channel.
#[derive(Debug, Clone, Copy, PartialEq, Eq, Structural)]
pub struct FlowControlUpdate {
    pub channel_id: ChannelId,
    pub window_increment: u32,
}

/// A service as advertised during capability negotiation.
#[derive(Debug)]
pub struct ServiceCapability {
    pub service_id: String,
    pub version: u32,
    pub name: String,
    pub description: String,
    pub required: bool,
    pub metadata: Vec<MetadataEntry>,
    pub feature_flags: u64,
}

/// The mathematical value of a service capability.
pub struct ServiceCapabilityView {
    pub service_id: Seq<char>,
    pub version: u32,
    pub name: Seq<char>,
    pub description: Seq<char>,
    pub required: bool,
    pub metadata: Seq<MetadataEntry>,
    pub feature_flags: u64,
}

impl View for ServiceCapability {
    type V = ServiceCapabilityView;

    open spec fn view(&self) -> ServiceCapabilityView {
        ServiceCapabilityView {
            service_id: self.service_id@,
            version: self.version,
            name: self.name@,
            description: self.description@,
            required: self.required,
            metadata: self.metadata@,
            feature_flags: self.feature_flags,
        }
    }
}

impl Clone for ServiceCapability {
    fn clone(&self) -> (r: Self)
        ensures
            r@ == self@,
    {
        ServiceCapability {
            service_id: self.service_id.clone(),
            version: self.version,
            name: self.name.clone(),
            description: self.description.clone(),
            required: self.required,
            metadata: clone_metadata(&self.metadata),
            feature_flags: self.feature_flags,
        }
    }
}

/// The outcome of negotiating one service.
#[derive(Debug)]
pub struct NegotiatedCapability {
    pub service_id: String,
    pub negotiated_version: u32,
    pub negotiated_features: Vec<MetadataEntry>,
    pub available: bool,
    pub unavailable_reason: String,
}

/// The mathematical value of a negotiated capability.
pub struct NegotiatedCapabilityView {
    pub service_id: Seq<char>,
    pub negotiated_version: u32,
    pub negotiated_features: Seq<MetadataEntry>,
    pub available: bool,
    pub unavailable_reason: Seq<char>,
}

impl View for NegotiatedCapability {
    type V = NegotiatedCapabilityView;

    open spec fn view(&self) -> NegotiatedCapabilityView {
        NegotiatedCapabilityView {
            service_id: self.service_id@,
            negotiated_version: self.negotiated_version,
            negotiated_features: self.negotiated_features@,
            available: self.available,
            unavailable_reason: self.unavailable_reason@,
        }
    }
}

impl Clone for NegotiatedCapability {
    fn clone(&self) -> (r: Self)
        ensures
            r@ == self@,
    {
        NegotiatedCapability {
            service_id: self.service_id.clone(),
            negotiated_version: self.negotiated_version,
            negotiated_features: clone_metadata(&self.negotiated_features),
            available: self.available,
            unavailable_reason: self.unavailable_reason.clone(),
        }
    }
}

/// A device's full set of advertised services.
#[derive(Debug)]
pub struct CapabilitySet {
    pub capabilities: Vec<ServiceCapability>,
    pub protocol_version: Option<ProtocolVersion>,
    pub software_version: String,
    pub device_name: String,
    pub device_id: Option<DeviceId>,
}

/// The mathematical value of the services in a list.
pub open spec fn caps_view(s: Seq<ServiceCapability>) -> Seq<ServiceCapabilityView> {
    s.map_values(|c: ServiceCapability| c@)
}

/// Copies a list of service capabilities.
pub fn clone_capabilities(v: &Vec<ServiceCapability>) -> (r: Vec<ServiceCapability>)
    ensures
        caps_view(r@) == caps_view(v@),
{
    let mut r: Vec<ServiceCapability> = Vec::new();
    let mut i: usize = 0;
    while i < v.len()
        invariant
            i <= v.len(),
            r@.len() == i,
            forall|k: int| 0 <= k < i ==> (#[trigger] r@[k])@ == v@[k]@,
        decreases v.len() - i,
    {
        r.push(v[i].clone());
        i = i + 1;
    }
    assert(caps_view(r@) =~= caps_view(v@));
    r
}

/// The mathematical value of a capability set.
pub struct CapabilitySetView {
    pub capabilities: Seq<ServiceCapabilityView>,
    pub protocol_version: Option<ProtocolVersion>,
    pub software_version: Seq<char>,
    pub device_name: Seq<char>,
    pub device_id: Option<Seq<u8>>,
}

impl View for CapabilitySet {
    type V = CapabilitySetView;

    open spec fn view(&self) -> CapabilitySetView {
        CapabilitySetView {
            capabilities: caps_view(self.capabilities@),
            protocol_version: self.protocol_version,
            software_version: self.software_version@,
            device_name: self.device_name@,
            device_id: match self.device_id {
                Some(d) => Some(d.value@),
                None => None,
            },
        }
    }
}

impl Clone for CapabilitySet {
    fn clone(&self) -> (r: Self)
        ensures
            r@ == self@,
    {
        CapabilitySet {
            capabilities: clone_capabilities(&self.capabilities),
            protocol_version: self.protocol_version,
            software_version: self.software_version.clone(),
            device_name: self.device_name.clone(),
            device_id: match &self.device_id {
                Some(d) => Some(d.clone()),
                None => None,
            },
        }
    }
}

/// The mathematical value of negotiated capabilities in a list.
pub open spec fn negotiated_view(s: Seq<NegotiatedCapability>) -> Seq<NegotiatedCapabilityView> {
    s.map_values(|c: NegotiatedCapability| c@)
}

/// Copies a list of negotiated capabilities.
pub fn clone_negotiated(v: &Vec<NegotiatedCapability>) -> (r: Vec<NegotiatedCapability>)
    ensures
        negotiated_view(r@) == negotiated_view(v@),
{
    let mut r: Vec<NegotiatedCapability> = Vec::new();
    let mut i: usize = 0;
    while i < v.len()
        invariant
            i <= v.len(),
            r@.len() == i,
            forall|k: int| 0 <= k < i ==> (#[trigger] r@[k])@ == v@[k]@,
        decreases v.len() - i,
    {
        r.push(v[i].clone());
        i = i + 1;
    }
    assert(negotiated_view(r@) =~= negotiated_view(v@));
    r
}

/// Version compatibility report for one local service.
#[derive(Debug)]
pub struct VersionCompatibility {
    pub service_id: String,
    pub local_version: u32,
    pub remote_version: u32,
    pub compatible: bool,
    pub incompatibility_reason: String,
}

/// The mathematical value of a compatibility report.
pub struct VersionCompatibilityView {
    pub service_id: Seq<char>,
    pub local_version: u32,
    pub remote_version: u32,
    pub compatible: bool,
    pub incompatibility_reason: Seq<char>,
}

impl View for VersionCompatibility {
    type V = VersionCompatibilityView;

    open spec fn view(&self) -> VersionCompatibilityView {
        VersionCompatibilityView {
            service_id: self.service_id@,
            local_version: self.local_version,
            remote_version: self.remote_version,
            compatible: self.compatible,
            incompatibility_reason: self.incompatibility_reason@,
        }
    }
}

/// Information about a registered service.
#[derive(Debug)]
pub struct ServiceInfo {
    pub service_id: String,
    pub version: u32,
    pub name: String,
    pub description: String,
    pub channel_id: ChannelId,
    pub channel_type: ChannelType,
    pub active: bool,
    pub healthy: bool,
    pub registered_at: Option<Timestamp>,
    pub last_heartbeat: Option<Timestamp>,
    pub metadata: Vec<MetadataEntry>,
    pub feature_flags: u64,
}

/// The mathematical value of a service's information.
pub struct ServiceInfoView {
    pub service_id: Seq<char>,
    pub version: u32,
    pub name: Seq<char>,
    pub description: Seq<char>,
    pub channel_id: ChannelId,
    pub channel_type: ChannelType,
    pub active: bool,
    pub healthy: bool,
    pub registered_at: Option<Timestamp>,
    pub last_heartbeat: Option<Timestamp>,
    pub metadata: Seq<MetadataEntry>,
    pub feature_flags: u64,
}

impl View for ServiceInfo {
    type V = ServiceInfoView;

    open spec fn view(&self) -> ServiceInfoView {
        ServiceInfoView {
            service_id: self.service_id@,
            version: self.version,
            name: self.name@,
            description: self.description@,
            channel_id: self.channel_id,
            channel_type: self.channel_type,
            active: self.active,
            healthy: self.healthy,
            registered_at: self.registered_at,
            last_heartbeat: self.last_heartbeat,
            metadata: self.metadata@,
            feature_flags: self.feature_flags,
        }
    }
}

impl Clone for ServiceInfo {
    fn clone(&self) -> (r: Self)
        ensures
            r@ == self@,
    {
        ServiceInfo {
            service_id: self.service_id.clone(),
            version: self.version,
            name: self.name.clone(),
            description: self.description.clone(),
            channel_id: self.channel_id,
            channel_type: self.channel_type,
            active: self.active,
            healthy: self.healthy,
            registered_at: self.registered_at,
            last_heartbeat: self.last_heartbeat,
            metadata: clone_metadata(&self.metadata),
            feature_flags: self.feature_flags,
        }
    }
}

/// Request to register a service.
#[derive(Debug)]
pub struct ServiceRegisterRequest {
    pub capability: Option<ServiceCapability>,
    pub channel_config: Option<ChannelConfig>,
    pub service_state: Vec<u8>,
}

/// Response to a registration request.
#[derive(Debug)]
pub struct ServiceRegisterResponse {
    pub result: ResultCode,
    pub assigned_channel: ChannelId,
    pub error_message: String,
}

/// Request to unregister a service.
#[derive(Debug)]
pub struct ServiceUnregisterRequest {
    pub service_id: String,
    pub channel_id: u32,
}

/// Response to an unregistration request.
#[derive(Debug)]
pub struct ServiceUnregisterResponse {
    pub result: ResultCode,
    pub error_message: String,
}

/// Service discovery filter.
#[derive(Debug)]
pub struct ServiceDiscoverRequest {
    pub service_id: String,
    pub version: u32,
    pub include_inactive: bool,
}

/// Services matching a discovery filter.
#[derive(Debug)]
pub struct ServiceDiscoverResponse {
    pub result: ResultCode,
    pub services: Vec<ServiceInfo>,
    pub error_message: String,
}

/// Periodic liveness report of a service.
#[derive(Debug)]
pub struct ServiceHeartbeat {
    pub service_id: String,
    pub healthy: bool,
}

/// Answer to a heartbeat.
#[derive(Debug, Clone, Copy)]
pub struct ServiceHeartbeatResponse {
    pub result: ResultCode,
    pub acknowledge: bool,
}

/// Authentication methods.
#[derive(Debug, Clone, Copy, PartialEq, Eq, Structural)]
pub enum AuthMethod {
    Psk,
    PublicKey,
    Pin,
}

/// The numeric value of an authentication method on the wire.
pub open spec fn spec_auth_method_value(m: AuthMethod) -> i32 {
    match m {
        AuthMethod::Psk => 0,
        AuthMethod::PublicKey => 1,
        AuthMethod::Pin => 2,
    }
}

/// Challenge sent by the authenticating side.
#[derive(Debug)]
pub struct AuthChallenge {
    pub method: AuthMethod,
    pub challenge: Vec<u8>,
    pub salt: Vec<u8>,
    pub iterations: u32,
    pub server_public_key: Vec<u8>,
    pub parameters: Vec<MetadataEntry>,
}

/// Response of the authenticating peer.
#[derive(Debug)]
pub struct AuthResponse {
    pub method: AuthMethod,
    pub response: Vec<u8>,
    pub client_public_key: Vec<u8>,
    pub client_nonce: Vec<u8>,
    pub proof: Vec<u8>,
}

/// Record of a paired device.
#[derive(Debug)]
pub struct PairingRecord {
    pub device_id: DeviceId,
    pub device_name: String,
    pub paired_at: Option<Timestamp>,
}

/// The mathematical value of a pairing record.
pub struct PairingRecordView {
    pub device_id: Seq<u8>,
    pub device_name: Seq<char>,
    pub paired_at: Option<Timestamp>,
}

impl View for PairingRecord {
    type V = PairingRecordView;

    open spec fn view(&self) -> PairingRecordView {
        PairingRecordView { device_id: self.device_id.value@, device_name: self.device_name@, paired_at: self.paired_at }
    }
}

impl Clone for PairingRecord {
    fn clone(&self) -> (r: Self)
        ensures
            r@ == self@,
    {
        PairingRecord {
            device_id: self.device_id.clone(),
            device_name: self.device_name.clone(),
            paired_at: self.paired_at,
        }
    }
}

/// Kinds of session events.
#[derive(Debug, Clone, Copy, PartialEq, Eq, Structural)]
pub enum SessionEventType {
    SessionEventOpened,
    SessionEventClosed,
    SessionEventKeepaliveTimeout,
    SessionEventError,
}

} // verus!
