//! Service registry: registration, discovery and health monitoring.

use vstd::prelude::*;

use tokio::sync::mpsc::Sender;

use crate::channels::try_send;
use crate::clock::unix_millis;
use crate::error::ProtocolError;
use crate::pb::{
    clone_metadata, ChannelId, ResultCode, ServiceCapability, ServiceCapabilityView,
    ServiceDiscoverRequest, ServiceDiscoverResponse, ServiceHeartbeat, ServiceHeartbeatResponse, ServiceInfo,
    ServiceInfoView, ServiceRegisterRequest, ServiceRegisterResponse, ServiceUnregisterRequest,
    ServiceUnregisterResponse, Timestamp,
};
use crate::search::{first_where, lemma_first_where, lemma_first_where_extend, lemma_first_where_step};

verus! {

broadcast use vstd::string::group_string_axioms;

/// A registered service.
#[derive(Debug)]
pub struct RegisteredService {
    pub info: ServiceInfo,
    pub capability: ServiceCapability,
    pub channel_id: u32,
    /// Milliseconds since the Unix epoch of the last heartbeat.
    pub last_heartbeat: u64,
    pub healthy: bool,
}

/// The mathematical value of a registered service.
pub struct RegisteredServiceView {
    pub info: ServiceInfoView,
    pub capability: ServiceCapabilityView,
    pub channel_id: u32,
    pub last_heartbeat: u64,
    pub healthy: bool,
}

impl View for RegisteredService {
    type V = RegisteredServiceView;

    open spec fn view(&self) -> RegisteredServiceView {
        RegisteredServiceView {
            info: self.info@,
            capability: self.capability@,
            channel_id: self.channel_id,
            last_heartbeat: self.last_heartbeat,
            healthy: self.healthy,
        }
    }
}

/// Service events.
#[derive(Debug)]
pub enum ServiceEvent {
    Registered(String),
    Unregistered(String),
    HealthChanged(String, bool),
    HeartbeatMissed(String),
}

/// The mathematical value of a service event.
pub enum ServiceEventView {
    Registered(Seq<char>),
    Unregistered(Seq<char>),
    HealthChanged(Seq<char>, bool),
    HeartbeatMissed(Seq<char>),
}

impl View for ServiceEvent {
    type V = ServiceEventView;

    open spec fn view(&self) -> ServiceEventView {
        match self {
            ServiceEvent::Registered(s) => ServiceEventView::Registered(s@),
            ServiceEvent::Unregistered(s) => ServiceEventView::Unregistered(s@),
            ServiceEvent::HealthChanged(s, b) => ServiceEventView::HealthChanged(s@, *b),
            ServiceEvent::HeartbeatMissed(s) => ServiceEventView::HeartbeatMissed(s@),
        }
    }
}

/// Matches the entries of `s` registered under `id`.
pub open spec fn reg_pred(s: Seq<RegisteredServiceView>, id: Seq<char>) -> spec_fn(int) -> bool {
    |i: int| s[i].info.service_id == id
}

/// Index of the service registered under `id`, or -1.
pub open spec fn find_registered(s: Seq<RegisteredServiceView>, id: Seq<char>) -> int {
    first_where(reg_pred(s, id), s.len() as int)
}

/// The registry's invariant: one entry per identifier, filed under the
/// identifier of its capability and its channel.
pub open spec fn registry_wf(s: Seq<RegisteredServiceView>) -> bool {
    &&& forall|i: int, j: int|
        0 <= i < j < s.len() ==> (#[trigger] s[i]).info.service_id != (#[trigger] s[j]).info.service_id
    &&& forall|i: int|
        0 <= i < s.len() ==> {
            &&& (#[trigger] s[i]).info.service_id == s[i].capability.service_id
            &&& s[i].info.channel_id.value == s[i].channel_id
        }
}

/// The entry a registration request creates at time `now`.
pub open spec fn spec_new_entry(
    cap: ServiceCapabilityView,
    channel_id: u32,
    channel_type: crate::pb::ChannelType,
    now: u64,
) -> RegisteredServiceView {
    RegisteredServiceView {
        info: ServiceInfoView {
            service_id: cap.service_id,
            version: cap.version,
            name: cap.name,
            description: cap.description,
            channel_id: ChannelId { value: channel_id },
            channel_type,
            active: true,
            healthy: true,
            registered_at: Some(Timestamp { value: now as i64 }),
            last_heartbeat: Some(Timestamp { value: now as i64 }),
            metadata: cap.metadata,
            feature_flags: cap.feature_flags,
        },
        capability: cap,
        channel_id,
        last_heartbeat: now,
        healthy: true,
    }
}

/// Whether a registered service passes a discovery filter.
pub open spec fn discover_matches(info: ServiceInfoView, service_id: Seq<char>, version: u32, include_inactive: bool) -> bool {
    &&& (service_id.len() == 0 || info.service_id == service_id)
    &&& (version == 0 || info.version == version)
    &&& (include_inactive || info.active)
}

/// The services of `s`, in order, that pass a discovery filter.
pub open spec fn spec_discover(
    s: Seq<RegisteredServiceView>,
    service_id: Seq<char>,
    version: u32,
    include_inactive: bool,
) -> Seq<ServiceInfoView>
    decreases s.len(),
{
    if s.len() == 0 {
        Seq::empty()
    } else {
        let prev = spec_discover(s.drop_last(), service_id, version, include_inactive);
        if discover_matches(s.last().info, service_id, version, include_inactive) {
            prev.push(s.last().info)
        } else {
            prev
        }
    }
}

/// Whether a service is overdue: healthy and silent for longer than `timeout`.
pub open spec fn overdue(e: RegisteredServiceView, timeout_ms: u64, now: u64) -> bool {
    e.healthy && (if now >= e.last_heartbeat {
        now - e.last_heartbeat
    } else {
        0
    }) > timeout_ms
}

/// An entry after a heartbeat at time `now`.
pub open spec fn spec_after_heartbeat(e: RegisteredServiceView, healthy: bool, now: u64) -> RegisteredServiceView {
    RegisteredServiceView {
        info: ServiceInfoView {
            healthy,
            last_heartbeat: Some(Timestamp { value: now as i64 }),
            ..e.info
        },
        last_heartbeat: now,
        healthy,
        ..e
    }
}

/// An entry marked unhealthy.
pub open spec fn spec_marked_unhealthy(e: RegisteredServiceView) -> RegisteredServiceView {
    RegisteredServiceView { info: ServiceInfoView { healthy: false, ..e.info }, healthy: false, ..e }
}

/// The texts of a list of strings.
pub open spec fn string_views(v: Seq<String>) -> Seq<Seq<char>> {
    v.map_values(|s: String| s@)
}

/// A health check at time `now` took the services `before` to `after` and
/// reported `reported`: every overdue service is marked unhealthy and
/// reported, in registration order, and the others stay as they were.
pub open spec fn health_checked_at(
    before: Seq<RegisteredServiceView>,
    after: Seq<RegisteredServiceView>,
    reported: Seq<Seq<char>>,
    timeout_ms: u64,
    now: u64,
) -> bool {
    &&& after.len() == before.len()
    &&& forall|i: int|
        0 <= i < before.len() ==> {
            let e = #[trigger] before[i];
            after[i] == if overdue(e, timeout_ms, now) {
                spec_marked_unhealthy(e)
            } else {
                e
            }
        }
    &&& reported == before.filter(|e: RegisteredServiceView| overdue(e, timeout_ms, now)).map_values(
        |e: RegisteredServiceView| e.info.service_id,
    )
}

/// A service that has just sent a heartbeat is not overdue until more than
/// `timeout_ms` has passed since that heartbeat, whatever health it reported.
pub proof fn lemma_heartbeat_keeps_alive(e: RegisteredServiceView, healthy: bool, at: u64, now: u64, timeout_ms: u64)
    requires
        at <= now,
        now - at <= timeout_ms,
    ensures
        !overdue(spec_after_heartbeat(e, healthy, at), timeout_ms, now),
{
}

/// A heartbeat records the health it reports, whatever it was before, and its
/// time; the service's identity, version, channel and activity are untouched.
pub proof fn lemma_heartbeat_records_health(e: RegisteredServiceView, healthy: bool, now: u64)
    ensures
        spec_after_heartbeat(e, healthy, now).healthy == healthy,
        spec_after_heartbeat(e, healthy, now).info.healthy == healthy,
        spec_after_heartbeat(e, healthy, now).last_heartbeat == now,
        spec_after_heartbeat(e, healthy, now).info.last_heartbeat == Some(Timestamp { value: now as i64 }),
        spec_after_heartbeat(e, healthy, now).capability == e.capability,
        spec_after_heartbeat(e, healthy, now).channel_id == e.channel_id,
        spec_after_heartbeat(e, healthy, now).info.service_id == e.info.service_id,
        spec_after_heartbeat(e, healthy, now).info.version == e.info.version,
        spec_after_heartbeat(e, healthy, now).info.active == e.info.active,
{
}

/// Discovery returns registered services only, each with the requested
/// identifier (when one is given), exactly the requested version (when it is
/// nonzero), and active unless inactive ones were asked for; and every
/// registered service that meets those conditions is returned.
pub proof fn lemma_discover_filters(
    s: Seq<RegisteredServiceView>,
    service_id: Seq<char>,
    version: u32,
    include_inactive: bool,
)
    ensures
        spec_discover(s, service_id, version, include_inactive).len() <= s.len(),
        forall|k: int|
            0 <= k < spec_discover(s, service_id, version, include_inactive).len() ==> {
                let r = #[trigger] spec_discover(s, service_id, version, include_inactive)[k];
                &&& version != 0 ==> r.version == version
                &&& service_id.len() != 0 ==> r.service_id == service_id
                &&& !include_inactive ==> r.active
                &&& exists|j: int| 0 <= j < s.len() && (#[trigger] s[j]).info == r
            },
        forall|j: int|
            0 <= j < s.len() && (service_id.len() == 0 || (#[trigger] s[j]).info.service_id == service_id) && (
            version == 0 || s[j].info.version == version) && (include_inactive || s[j].info.active)
                ==> spec_discover(s, service_id, version, include_inactive).contains(s[j].info),
    decreases s.len(),
{
    if s.len() > 0 {
        let p = s.drop_last();
        lemma_discover_filters(p, service_id, version, include_inactive);
        let prev = spec_discover(p, service_id, version, include_inactive);
        let d = spec_discover(s, service_id, version, include_inactive);
        assert forall|k: int| 0 <= k < d.len() implies {
            let r = #[trigger] d[k];
            &&& version != 0 ==> r.version == version
            &&& service_id.len() != 0 ==> r.service_id == service_id
            &&& !include_inactive ==> r.active
            &&& exists|j: int| 0 <= j < s.len() && (#[trigger] s[j]).info == r
        } by {
            if k < prev.len() {
                assert(d[k] == prev[k]);
                let j = choose|j: int| 0 <= j < p.len() && (#[trigger] p[j]).info == prev[k];
                assert(s[j] == p[j]);
            } else {
                assert(d[k] == s.last().info);
                assert(s[s.len() - 1] == s.last());
            }
        }
        assert forall|j: int|
            0 <= j < s.len() && (service_id.len() == 0 || (#[trigger] s[j]).info.service_id == service_id) && (
            version == 0 || s[j].info.version == version) && (include_inactive || s[j].info.active)
            implies d.contains(s[j].info) by {
            if j < p.len() {
                assert(p[j] == s[j]);
                assert(prev.contains(p[j].info));
                let k = choose|k: int| 0 <= k < prev.len() && prev[k] == p[j].info;
                assert(d[k] == prev[k]);
            } else {
                assert(s[j] == s.last());
                assert(d[d.len() - 1] == s.last().info);
            }
        }
    }
}

/// A discovery without filters lists every registered service, in
/// registration order.
pub proof fn lemma_discover_all(s: Seq<RegisteredServiceView>)
    ensures
        spec_discover(s, Seq::empty(), 0, true) == s.map_values(|e: RegisteredServiceView| e.info),
    decreases s.len(),
{
    if s.len() > 0 {
        lemma_discover_all(s.drop_last());
        assert(s.map_values(|e: RegisteredServiceView| e.info) =~= s.drop_last().map_values(
            |e: RegisteredServiceView| e.info,
        ).push(s.last().info));
    } else {
        assert(s.map_values(|e: RegisteredServiceView| e.info) =~= Seq::<ServiceInfoView>::empty());
    }
}

/// A service marked unhealthy is never overdue again, so a health check
/// reports it once until a heartbeat revives it.
pub proof fn lemma_unhealthy_reported_once(e: RegisteredServiceView, timeout_ms: u64, now: u64)
    ensures
        !overdue(spec_marked_unhealthy(e), timeout_ms, now),
{
}

/// Service registry.
pub struct ServiceRegistry {
    services: Vec<RegisteredService>,
    event_tx: Option<Sender<ServiceEvent>>,
    events_sent: Ghost<Seq<ServiceEventView>>,
}

impl ServiceRegistry {
    /// The registered services, in registration order.
    pub closed spec fn entries(&self) -> Seq<RegisteredServiceView> {
        self.services@.map_values(|e: RegisteredService| e@)
    }

    /// Whether an event channel is set.
    pub closed spec fn has_event_sender(&self) -> bool {
        self.event_tx is Some
    }

    /// Every event handed to the event channel so far, in order.
    pub closed spec fn events_sent(&self) -> Seq<ServiceEventView> {
        self.events_sent@
    }

    /// The registry's invariant holds.
    pub closed spec fn wf(&self) -> bool {
        registry_wf(self.entries())
    }

    /// The log after `e` is handed to the event channel, if one is set.
    pub open spec fn log_after(&self, e: ServiceEventView) -> Seq<ServiceEventView> {
        if self.has_event_sender() {
            self.events_sent().push(e)
        } else {
            self.events_sent()
        }
    }

    /// Create an empty registry without an event channel.
    pub fn new() -> (r: Self)
        ensures
            r.wf(),
            r.entries() == Seq::<RegisteredServiceView>::empty(),
            !r.has_event_sender(),
            r.events_sent() == Seq::<ServiceEventView>::empty(),
    {
        let r = ServiceRegistry { services: Vec::new(), event_tx: None, events_sent: Ghost(Seq::empty()) };
        assert(r.entries() =~= Seq::<RegisteredServiceView>::empty());
        r
    }

    /// Set the event channel.
    pub fn set_event_sender(&mut self, tx: Sender<ServiceEvent>)
        ensures
            final(self).entries() == old(self).entries(),
            final(self).wf() == old(self).wf(),
            final(self).has_event_sender(),
            final(self).events_sent() == old(self).events_sent(),
    {
        self.event_tx = Some(tx);
    }

    /// Hand an event to the event channel, if one is set.
    fn emit(&mut self, event: ServiceEvent)
        ensures
            final(self).entries() == old(self).entries(),
            final(self).wf() == old(self).wf(),
            final(self).has_event_sender() == old(self).has_event_sender(),
            final(self).events_sent() == old(self).log_after(event@),
    {
        match &self.event_tx {
            Some(tx) => {
                let ghost ev = event@;
                try_send(tx, event);
                self.events_sent = Ghost(self.events_sent@.push(ev));
            },
            None => {},
        }
    }

    /// Index of the service registered under `id`.
    fn position(&self, id: &String) -> (r: Option<usize>)
        ensures
            match r {
                Some(i) => i as int == find_registered(self.entries(), id@) && i < self.entries().len(),
                None => find_registered(self.entries(), id@) == -1,
            },
    {
        let ghost s = self.entries();
        let ghost pred = reg_pred(s, id@);
        let mut i: usize = 0;
        while i < self.services.len()
            invariant
                i <= self.services@.len(),
                s == self.entries(),
                pred == reg_pred(s, id@),
                first_where(pred, i as int) == -1,
            decreases self.services.len() - i,
        {
            proof {
                lemma_first_where_step(pred, i as int);
            }
            if self.services[i].info.service_id == *id {
                proof {
                    lemma_first_where_extend(pred, i as int + 1, s.len() as int);
                }
                return Some(i);
            }
            i = i + 1;
        }
        None
    }

    /// Register a service, stamping it with the current time: what
    /// `register_service_at` does at the clock's reading.
    pub fn register_service(&mut self, request: ServiceRegisterRequest) -> (r: Result<
        ServiceRegisterResponse,
        ProtocolError,
    >)
        requires
            old(self).wf(),
        ensures
            final(self).wf(),
            final(self).has_event_sender() == old(self).has_event_sender(),
            request.capability is None ==> {
                &&& r matches Err(ProtocolError::InvalidServiceConfig(m)) && m@ == "Missing capability"@
                &&& final(self).entries() == old(self).entries()
                &&& final(self).events_sent() == old(self).events_sent()
            },
            request.capability is Some && request.channel_config is None ==> {
                &&& r matches Err(ProtocolError::InvalidServiceConfig(m)) && m@ == "Missing channel config"@
                &&& final(self).entries() == old(self).entries()
                &&& final(self).events_sent() == old(self).events_sent()
            },
            request.capability is Some && request.channel_config is Some ==> {
                let cap = request.capability.unwrap()@;
                let cfg = request.channel_config.unwrap();
                if find_registered(old(self).entries(), cap.service_id) >= 0 {
                    &&& r matches Ok(resp) && resp.result == ResultCode::ErrorGeneric
                        && resp.assigned_channel.value == 0 && resp.error_message@ == "Service already registered"@
                    &&& final(self).entries() == old(self).entries()
                    &&& final(self).events_sent() == old(self).events_sent()
                } else {
                    &&& r matches Ok(resp) && resp.result == ResultCode::Success && resp.assigned_channel
                        == cfg.channel_id && resp.error_message@ == Seq::<char>::empty()
                    &&& exists|now: u64|
                        final(self).entries() == old(self).entries().push(
                            #[trigger] spec_new_entry(cap, cfg.channel_id.value, cfg.channel_type, now),
                        )
                    &&& final(self).events_sent() == old(self).log_after(ServiceEventView::Registered(cap.service_id))
                }
            },
    {
        let now = unix_millis();
        self.register_service_at(request, now)
    }

    /// Register a service at time `now` (milliseconds since the Unix epoch).
    ///
    /// A request without a capability or without a channel configuration is
    /// rejected. A service already registered under the same identifier is
    /// answered with a generic error and the registry is left as it was.
    /// Otherwise the service is added, healthy and active, and a
    /// `Registered` event is handed to the event channel.
    pub fn register_service_at(&mut self, request: ServiceRegisterRequest, now: u64) -> (r: Result<
        ServiceRegisterResponse,
        ProtocolError,
    >)
        requires
            old(self).wf(),
        ensures
            final(self).wf(),
            final(self).has_event_sender() == old(self).has_event_sender(),
            request.capability is None ==> {
                &&& r matches Err(ProtocolError::InvalidServiceConfig(m)) && m@ == "Missing capability"@
                &&& final(self).entries() == old(self).entries()
                &&& final(self).events_sent() == old(self).events_sent()
            },
            request.capability is Some && request.channel_config is None ==> {
                &&& r matches Err(ProtocolError::InvalidServiceConfig(m)) && m@ == "Missing channel config"@
                &&& final(self).entries() == old(self).entries()
                &&& final(self).events_sent() == old(self).events_sent()
            },
            request.capability is Some && request.channel_config is Some ==> {
                let cap = request.capability.unwrap()@;
                let cfg = request.channel_config.unwrap();
                if find_registered(old(self).entries(), cap.service_id) >= 0 {
                    &&& r matches Ok(resp) && resp.result == ResultCode::ErrorGeneric
                        && resp.assigned_channel.value == 0 && resp.error_message@ == "Service already registered"@
                    &&& final(self).entries() == old(self).entries()
                    &&& final(self).events_sent() == old(self).events_sent()
                } else {
                    &&& r matches Ok(resp) && resp.result == ResultCode::Success && resp.assigned_channel
                        == cfg.channel_id && resp.error_message@ == Seq::<char>::empty()
                    &&& final(self).entries() == old(self).entries().push(
                        spec_new_entry(cap, cfg.channel_id.value, cfg.channel_type, now),
                    )
                    &&& final(self).events_sent() == old(self).log_after(ServiceEventView::Registered(cap.service_id))
                }
            },
    {
        let capability = match request.capability {
            Some(c) => c,
            None => {
                return Err(ProtocolError::InvalidServiceConfig("Missing capability".to_string()));
            },
        };
        let channel_config = match request.channel_config {
            Some(c) => c,
            None => {
                return Err(ProtocolError::InvalidServiceConfig("Missing channel config".to_string()));
            },
        };
        let service_id = capability.service_id.clone();

        // Check if already registered.
        if self.position(&service_id).is_some() {
            return Ok(
                ServiceRegisterResponse {
                    result: ResultCode::ErrorGeneric,
                    assigned_channel: ChannelId { value: 0 },
                    error_message: "Service already registered".to_string(),
                },
            );
        }

        let stamp = Timestamp { value: now as i64 };
        let info = ServiceInfo {
            service_id: service_id.clone(),
            version: capability.version,
            name: capability.name.clone(),
            description: capability.description.clone(),
            channel_id: ChannelId { value: channel_config.channel_id.value },
            channel_type: channel_config.channel_type,
            active: true,
            healthy: true,
            registered_at: Some(stamp),
            last_heartbeat: Some(stamp),
            metadata: clone_metadata(&capability.metadata),
            feature_flags: capability.feature_flags,
        };
        let entry = RegisteredService {
            info,
            capability,
            channel_id: channel_config.channel_id.value,
            last_heartbeat: now,
            healthy: true,
        };
        let ghost old_entries = self.entries();
        proof {
            lemma_first_where(reg_pred(old_entries, service_id@), old_entries.len() as int);
        }
        self.services.push(entry);
        assert(self.entries() =~= old_entries.push(entry@));
        assert(registry_wf(self.entries())) by {
            let s = self.entries();
            assert forall|i: int, j: int|
                0 <= i < j < s.len() implies (#[trigger] s[i]).info.service_id != (#[trigger] s[j]).info.service_id by {
                if j == s.len() - 1 {
                    assert(!reg_pred(old_entries, service_id@)(i));
                }
            }
        }
        self.emit(ServiceEvent::Registered(service_id.clone()));
        Ok(
            ServiceRegisterResponse {
                result: ResultCode::Success,
                assigned_channel: ChannelId { value: channel_config.channel_id.value },
                error_message: String::new(),
            },
        )
    }

    /// Unregister a service.
    ///
    /// An `Unregistered` event is handed to the event channel whether or not
    /// the service was registered.
    pub fn unregister_service(&mut self, request: ServiceUnregisterRequest) -> (r: Result<
        ServiceUnregisterResponse,
        ProtocolError,
    >)
        requires
            old(self).wf(),
        ensures
            final(self).wf(),
            final(self).has_event_sender() == old(self).has_event_sender(),
            final(self).events_sent() == old(self).log_after(ServiceEventView::Unregistered(request.service_id@)),
            ({
                let i = find_registered(old(self).entries(), request.service_id@);
                if i >= 0 {
                    &&& r matches Ok(resp) && resp.result == ResultCode::Success && resp.error_message@
                        == Seq::<char>::empty()
                    &&& final(self).entries() == old(self).entries().remove(i)
                } else {
                    &&& r matches Ok(resp) && resp.result == ResultCode::ErrorNotFound && resp.error_message@
                        == "Service not found"@
                    &&& final(self).entries() == old(self).entries()
                }
            }),
    {
        let found = self.position(&request.service_id);
        let removed = match found {
            Some(i) => {
                let ghost old_entries = self.entries();
                let _ = self.services.remove(i);
                assert(self.entries() =~= old_entries.remove(i as int));
                assert(registry_wf(self.entries())) by {
                    let s = self.entries();
                    assert forall|a: int, b: int|
                        0 <= a < b < s.len() implies (#[trigger] s[a]).info.service_id != (#[trigger] s[b]).info.service_id by {
                        let a2 = if a < i { a } else { a + 1 };
                        let b2 = if b < i { b } else { b + 1 };
                        assert(s[a] == old_entries[a2]);
                        assert(s[b] == old_entries[b2]);
                    }
                    assert forall|a: int| 0 <= a < s.len() implies {
                        &&& (#[trigger] s[a]).info.service_id == s[a].capability.service_id
                        &&& s[a].info.channel_id.value == s[a].channel_id
                    } by {
                        let a2 = if a < i { a } else { a + 1 };
                        assert(s[a] == old_entries[a2]);
                    }
                }
                true
            },
            None => false,
        };
        self.emit(ServiceEvent::Unregistered(request.service_id.clone()));
        if removed {
            Ok(ServiceUnregisterResponse { result: ResultCode::Success, error_message: String::new() })
        } else {
            Ok(ServiceUnregisterResponse { result: ResultCode::ErrorNotFound, error_message: "Service not found".to_string() })
        }
    }

    /// Discover services: those matching the identifier (when given), the
    /// version (when nonzero), and active unless inactive ones are requested.
    pub fn discover_services(&self, request: ServiceDiscoverRequest) -> (r: Result<
        ServiceDiscoverResponse,
        ProtocolError,
    >)
        ensures
            r matches Ok(resp) && resp.result == ResultCode::Success && resp.error_message@ == Seq::<char>::empty()
                && resp.services@.map_values(|i: ServiceInfo| i@) == spec_discover(
                self.entries(),
                request.service_id@,
                request.version,
                request.include_inactive,
            ),
    {
        let ghost s = self.entries();
        let mut results: Vec<ServiceInfo> = Vec::new();
        let mut i: usize = 0;
        while i < self.services.len()
            invariant
                i <= self.services@.len(),
                s == self.entries(),
                results@.map_values(|x: ServiceInfo| x@) == spec_discover(
                    s.take(i as int),
                    request.service_id@,
                    request.version,
                    request.include_inactive,
                ),
            decreases self.services.len() - i,
        {
            assert(s.take(i + 1).drop_last() =~= s.take(i as int));
            assert(s.take(i + 1).last() == self.services@[i as int]@);
            let info = &self.services[i].info;
            let id_ok = request.service_id.as_str().is_empty() || info.service_id == request.service_id;
            if id_ok && (request.version == 0 || info.version == request.version) && (request.include_inactive
                || info.active) {
                let ghost before = results@.map_values(|x: ServiceInfo| x@);
                results.push(info.clone());
                assert(results@.map_values(|x: ServiceInfo| x@) =~= before.push(info@));
            }
            i = i + 1;
        }
        assert(s.take(s.len() as int) =~= s);
        Ok(ServiceDiscoverResponse { result: ResultCode::Success, services: results, error_message: String::new() })
    }

    /// Get service info.
    pub fn get_service(&self, service_id: &str) -> (r: Option<ServiceInfo>)
        ensures
            ({
                let i = find_registered(self.entries(), service_id@);
                if i >= 0 {
                    r matches Some(info) && info@ == self.entries()[i].info
                } else {
                    r is None
                }
            }),
    {
        let id = service_id.to_owned();
        match self.position(&id) {
            Some(i) => Some(self.services[i].info.clone()),
            None => None,
        }
    }

    /// Get service capability.
    pub fn get_capability(&self, service_id: &str) -> (r: Option<ServiceCapability>)
        ensures
            ({
                let i = find_registered(self.entries(), service_id@);
                if i >= 0 {
                    r matches Some(c) && c@ == self.entries()[i].capability
                } else {
                    r is None
                }
            }),
    {
        let id = service_id.to_owned();
        match self.position(&id) {
            Some(i) => Some(self.services[i].capability.clone()),
            None => None,
        }
    }

    /// Get service channel ID.
    pub fn get_channel_id(&self, service_id: &str) -> (r: Option<u32>)
        ensures
            ({
                let i = find_registered(self.entries(), service_id@);
                if i >= 0 {
                    r == Some(self.entries()[i].channel_id)
                } else {
                    r is None
                }
            }),
    {
        let id = service_id.to_owned();
        match self.position(&id) {
            Some(i) => Some(self.services[i].channel_id),
            None => None,
        }
    }

    /// Handle a service heartbeat, stamped with the current time.
    pub fn handle_heartbeat(&mut self, heartbeat: ServiceHeartbeat) -> (r: Result<
        ServiceHeartbeatResponse,
        ProtocolError,
    >)
        requires
            old(self).wf(),
        ensures
            final(self).wf(),
            final(self).has_event_sender() == old(self).has_event_sender(),
            ({
                let i = find_registered(old(self).entries(), heartbeat.service_id@);
                if i >= 0 {
                    &&& r matches Ok(resp) && resp.result == ResultCode::Success && resp.acknowledge
                    &&& exists|now: u64|
                        final(self).entries() == old(self).entries().update(
                            i,
                            spec_after_heartbeat(old(self).entries()[i], heartbeat.healthy, now),
                        )
                } else {
                    &&& r matches Ok(resp) && resp.result == ResultCode::ErrorNotFound && !resp.acknowledge
                    &&& final(self).entries() == old(self).entries()
                }
            }),
    {
        let now = unix_millis();
        self.handle_heartbeat_at(heartbeat, now)
    }

    /// Handle a service heartbeat at time `now`: record the time and the
    /// reported health; a report of ill health is handed to the event channel.
    pub fn handle_heartbeat_at(&mut self, heartbeat: ServiceHeartbeat, now: u64) -> (r: Result<
        ServiceHeartbeatResponse,
        ProtocolError,
    >)
        requires
            old(self).wf(),
        ensures
            final(self).wf(),
            final(self).has_event_sender() == old(self).has_event_sender(),
            ({
                let i = find_registered(old(self).entries(), heartbeat.service_id@);
                if i >= 0 {
                    &&& r matches Ok(resp) && resp.result == ResultCode::Success && resp.acknowledge
                    &&& final(self).entries() == old(self).entries().update(
                        i,
                        spec_after_heartbeat(old(self).entries()[i], heartbeat.healthy, now),
                    )
                    &&& final(self).events_sent() == (if heartbeat.healthy {
                        old(self).events_sent()
                    } else {
                        old(self).log_after(ServiceEventView::HealthChanged(heartbeat.service_id@, false))
                    })
                } else {
                    &&& r matches Ok(resp) && resp.result == ResultCode::ErrorNotFound && !resp.acknowledge
                    &&& final(self).entries() == old(self).entries()
                    &&& final(self).events_sent() == old(self).events_sent()
                }
            }),
    {
        match self.position(&heartbeat.service_id) {
            Some(i) => {
                let ghost old_entries = self.entries();
                let mut entry = self.services.remove(i);
                entry.last_heartbeat = now;
                entry.healthy = heartbeat.healthy;
                entry.info.healthy = heartbeat.healthy;
                entry.info.last_heartbeat = Some(Timestamp { value: now as i64 });
                self.services.insert(i, entry);
                assert(self.entries() =~= old_entries.update(
                    i as int,
                    spec_after_heartbeat(old_entries[i as int], heartbeat.healthy, now),
                ));
                assert(registry_wf(self.entries())) by {
                    let s = self.entries();
                    assert forall|a: int, b: int|
                        0 <= a < b < s.len() implies (#[trigger] s[a]).info.service_id != (#[trigger] s[b]).info.service_id by {
                        assert(s[a].info.service_id == old_entries[a].info.service_id);
                        assert(s[b].info.service_id == old_entries[b].info.service_id);
                    }
                    assert forall|a: int| 0 <= a < s.len() implies {
                        &&& (#[trigger] s[a]).info.service_id == s[a].capability.service_id
                        &&& s[a].info.channel_id.value == s[a].channel_id
                    } by {
                        assert(old_entries[a].info.service_id == old_entries[a].capability.service_id);
                    }
                }
                if !heartbeat.healthy {
                    self.emit(ServiceEvent::HealthChanged(heartbeat.service_id.clone(), false));
                }
                Ok(ServiceHeartbeatResponse { result: ResultCode::Success, acknowledge: true })
            },
            None => Ok(ServiceHeartbeatResponse { result: ResultCode::ErrorNotFound, acknowledge: false }),
        }
    }

    /// Check service health against the current time (call periodically):
    /// what `check_health_at` does at the clock's reading.
    pub fn check_health(&mut self, timeout_ms: u64) -> (r: Vec<String>)
        requires
            old(self).wf(),
        ensures
            final(self).wf(),
            final(self).has_event_sender() == old(self).has_event_sender(),
            final(self).entries().len() == old(self).entries().len(),
            forall|i: int|
                0 <= i < old(self).entries().len() ==> {
                    let e = #[trigger] old(self).entries()[i];
                    final(self).entries()[i] == e || final(self).entries()[i] == spec_marked_unhealthy(e)
                },
            exists|now: u64|
                #[trigger] health_checked_at(
                    old(self).entries(),
                    final(self).entries(),
                    string_views(r@),
                    timeout_ms,
                    now,
                ),
    {
        let now = unix_millis();
        let r = self.check_health_at(timeout_ms, now);
        assert(health_checked_at(old(self).entries(), self.entries(), string_views(r@), timeout_ms, now));
        r
    }

    /// Check service health at time `now`: every healthy service whose last
    /// heartbeat is more than `timeout_ms` old is marked unhealthy, reported
    /// to the event channel and listed, in registration order.
    pub fn check_health_at(&mut self, timeout_ms: u64, now: u64) -> (r: Vec<String>)
        requires
            old(self).wf(),
        ensures
            final(self).wf(),
            final(self).has_event_sender() == old(self).has_event_sender(),
            final(self).entries().len() == old(self).entries().len(),
            forall|i: int|
                0 <= i < old(self).entries().len() ==> {
                    let e = #[trigger] old(self).entries()[i];
                    final(self).entries()[i] == if overdue(e, timeout_ms, now) {
                        spec_marked_unhealthy(e)
                    } else {
                        e
                    }
                },
            r@.map_values(|s: String| s@) == old(self).entries().filter(
                |e: RegisteredServiceView| overdue(e, timeout_ms, now),
            ).map_values(|e: RegisteredServiceView| e.info.service_id),
    {
        let ghost old_entries = self.entries();
        let mut unhealthy: Vec<String> = Vec::new();
        let mut i: usize = 0;
        while i < self.services.len()
            invariant
                i <= self.services@.len(),
                self.services@.len() == old_entries.len(),
                registry_wf(self.entries()),
                self.has_event_sender() == old(self).has_event_sender(),
                forall|k: int|
                    0 <= k < old_entries.len() ==> {
                        let e = #[trigger] old_entries[k];
                        self.entries()[k] == if k < i && overdue(e, timeout_ms, now) {
                            spec_marked_unhealthy(e)
                        } else {
                            e
                        }
                    },
                unhealthy@.map_values(|s: String| s@) == old_entries.take(i as int).filter(
                    |e: RegisteredServiceView| overdue(e, timeout_ms, now),
                ).map_values(|e: RegisteredServiceView| e.info.service_id),
            decreases self.services.len() - i,
        {
            let ghost before = self.entries();
            let ghost before_ids = unhealthy@.map_values(|s: String| s@);
            assert(old_entries.take(i + 1).drop_last() =~= old_entries.take(i as int));
            reveal_with_fuel(Seq::<_>::filter, 1);
            assert(before[i as int] == old_entries[i as int]);
            let last = self.services[i].last_heartbeat;
            let elapsed = if now >= last {
                now - last
            } else {
                0
            };
            if self.services[i].healthy && elapsed > timeout_ms {
                let mut entry = self.services.remove(i);
                entry.healthy = false;
                entry.info.healthy = false;
                let id = entry.info.service_id.clone();
                self.services.insert(i, entry);
                assert(self.entries() =~= before.update(i as int, spec_marked_unhealthy(before[i as int])));
                assert(registry_wf(self.entries())) by {
                    let s = self.entries();
                    assert forall|a: int, b: int|
                        0 <= a < b < s.len() implies (#[trigger] s[a]).info.service_id != (#[trigger] s[b]).info.service_id by {
                        assert(s[a].info.service_id == before[a].info.service_id);
                        assert(s[b].info.service_id == before[b].info.service_id);
                    }
                    assert forall|a: int| 0 <= a < s.len() implies {
                        &&& (#[trigger] s[a]).info.service_id == s[a].capability.service_id
                        &&& s[a].info.channel_id.value == s[a].channel_id
                    } by {
                        assert(before[a].info.service_id == before[a].capability.service_id);
                    }
                }
                self.emit(ServiceEvent::HealthChanged(id.clone(), false));
                unhealthy.push(id);
                assert(unhealthy@.map_values(|s: String| s@) =~= before_ids.push(old_entries[i as int].info.service_id));
            }
            i = i + 1;
        }
        assert(old_entries.take(old_entries.len() as int) =~= old_entries);
        unhealthy
    }

    /// List all registered services, in registration order.
    pub fn list_services(&self) -> (r: Vec<ServiceInfo>)
        ensures
            r@.map_values(|i: ServiceInfo| i@) == self.entries().map_values(|e: RegisteredServiceView| e.info),
    {
        let mut r: Vec<ServiceInfo> = Vec::new();
        let mut i: usize = 0;
        while i < self.services.len()
            invariant
                i <= self.services@.len(),
                r@.len() == i,
                forall|k: int| 0 <= k < i ==> (#[trigger] r@[k])@ == self.services@[k].info@,
            decreases self.services.len() - i,
        {
            r.push(self.services[i].info.clone());
            i = i + 1;
        }
        assert(r@.map_values(|i: ServiceInfo| i@) =~= self.entries().map_values(|e: RegisteredServiceView| e.info));
        r
    }

    /// Get the number of registered services.
    pub fn service_count(&self) -> (r: usize)
        ensures
            r == self.entries().len(),
    {
        self.services.len()
    }
}

impl Default for ServiceRegistry {
    fn default() -> (r: Self)
        ensures
            r.wf(),
            r.entries() == Seq::<RegisteredServiceView>::empty(),
            !r.has_event_sender(),
    {
        Self::new()
    }
}

/// A service registered under a new identifier is then found under that
/// identifier, with the information it was registered with.
pub proof fn lemma_register_then_find(s: Seq<RegisteredServiceView>, e: RegisteredServiceView)
    requires
        registry_wf(s),
        find_registered(s, e.info.service_id) == -1,
    ensures
        find_registered(s.push(e), e.info.service_id) == s.len(),
        s.push(e)[s.len() as int] == e,
{
    let id = e.info.service_id;
    lemma_first_where(reg_pred(s, id), s.len() as int);
    crate::search::lemma_first_where_congruent(reg_pred(s, id), reg_pred(s.push(e), id), s.len() as int);
    lemma_first_where_step(reg_pred(s.push(e), id), s.len() as int);
}

/// After a service is unregistered it is no longer found.
pub proof fn lemma_unregister_then_missing(s: Seq<RegisteredServiceView>, id: Seq<char>)
    requires
        registry_wf(s),
    ensures
        find_registered(s, id) >= 0 ==> find_registered(s.remove(find_registered(s, id)), id) == -1,
{
    let i = find_registered(s, id);
    lemma_first_where(reg_pred(s, id), s.len() as int);
    if i >= 0 {
        let t = s.remove(i);
        lemma_first_where(reg_pred(t, id), t.len() as int);
        if find_registered(t, id) >= 0 {
            let k = find_registered(t, id);
            let k2 = if k < i { k } else { k + 1 };
            assert(t[k] == s[k2]);
            assert(s[k2].info.service_id == s[i].info.service_id);
        }
    }
}

} // verus!
