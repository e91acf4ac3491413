//! Service framework of the desktop application: requests, responses,
//! status and events, and what a service may ask of its context.

use vstd::prelude::*;

use std::collections::HashMap;

use crate::capability::{any_available, available_version, has_available, spec_get_version};
use crate::pb::{negotiated_view, result_code_value, spec_result_code_value, ChannelId, DeviceId, NegotiatedCapability, ResultCode, SessionId};

verus! {

broadcast use vstd::string::group_string_axioms;

/// Configuration of a service.
#[derive(Debug)]
pub struct ServiceConfig {
    pub service_id: String,
    pub enabled: bool,
    pub settings: serde_json::Value,
}

/// A request for a service.
#[derive(Debug)]
pub struct ServiceRequest {
    pub service_id: String,
    pub channel_id: u32,
    pub request_id: u64,
    pub payload: Vec<u8>,
    pub metadata: HashMap<String, String>,
}

/// A service's answer to a request; `result` is a result code's number.
#[derive(Debug)]
pub struct ServiceResponse {
    pub request_id: u64,
    pub result: i32,
    pub payload: Vec<u8>,
    pub error_message: String,
    pub metadata: HashMap<String, String>,
}

impl ServiceResponse {
    /// A successful answer carrying `payload`.
    pub fn success(request_id: u64, payload: Vec<u8>) -> (r: Self)
        ensures
            r.request_id == request_id,
            r.result == 0,
            r.payload@ == payload@,
            r.error_message@.len() == 0,
            r.metadata@ == Map::<String, String>::empty(),
    {
        ServiceResponse { request_id, result: 0, payload, error_message: String::new(), metadata: HashMap::new() }
    }

    /// A failed answer with result `code` and `message`.
    pub fn error(request_id: u64, code: i32, message: String) -> (r: Self)
        ensures
            r.request_id == request_id,
            r.result == code,
            r.payload@.len() == 0,
            r.error_message@ == message@,
            r.metadata@ == Map::<String, String>::empty(),
    {
        ServiceResponse { request_id, result: code, payload: Vec::new(), error_message: message, metadata: HashMap::new() }
    }

    /// The answer to a request for a service nobody registered.
    pub fn not_found(request_id: u64, service_id: &str) -> (r: Self)
        ensures
            r.request_id == request_id,
            r.result == spec_result_code_value(ResultCode::ErrorNotFound),
            r.payload@.len() == 0,
            r.error_message@ == "Service not found: "@ + service_id@,
            r.metadata@ == Map::<String, String>::empty(),
    {
        let mut message = "Service not found: ".to_string();
        message.append(service_id);
        Self::error(request_id, result_code_value(ResultCode::ErrorNotFound), message)
    }
}

/// The status of a service.
#[derive(Debug)]
pub struct ServiceStatus {
    pub service_id: String,
    pub running: bool,
    pub healthy: bool,
    pub details: String,
}

impl ServiceStatus {
    /// The status a service reports unless it says more: not running, healthy, no details.
    pub fn idle(service_id: &str) -> (r: Self)
        ensures
            r.service_id@ == service_id@,
            !r.running,
            r.healthy,
            r.details@.len() == 0,
    {
        ServiceStatus { service_id: service_id.to_owned(), running: false, healthy: true, details: String::new() }
    }
}

/// Events delivered to every service.
#[derive(Debug, Clone)]
pub enum ServiceEvent {
    SessionOpened(SessionId),
    SessionClosed(SessionId),
    CapabilitiesNegotiated(Vec<NegotiatedCapability>),
    ChannelOpened(ChannelId),
    ChannelClosed(ChannelId),
    PeerConfigChanged(String),
    DeviceConnected(DeviceId),
    DeviceDisconnected(DeviceId),
}

/// Whether the negotiated capabilities make `service_id` available.
pub fn has_capability(negotiated: &Vec<NegotiatedCapability>, service_id: &str) -> (r: bool)
    ensures
        r == has_available(negotiated_view(negotiated@), service_id@),
{
    let id = service_id.to_owned();
    any_available(negotiated, &id)
}

/// The negotiated version of `service_id`, when it is available.
pub fn get_capability_version(negotiated: &Vec<NegotiatedCapability>, service_id: &str) -> (r: Option<u32>)
    ensures
        r == spec_get_version(negotiated_view(negotiated@), service_id@),
{
    available_version(negotiated, service_id)
}

} // verus!
