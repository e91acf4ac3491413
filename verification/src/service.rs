//! The service framework: requests and responses, service status and
//! events, and the table of registered services through which requests are
//! routed. The services themselves run in the application.

use vstd::prelude::*;

use std::collections::HashMap;

use crate::error::ProtocolError;
use crate::pb::{NegotiatedCapability, ResultCode, ServiceCapability};
use crate::search::{first_where, lemma_first_where, lemma_first_where_extend, lemma_first_where_step};

verus! {

broadcast use vstd::string::group_string_axioms;

/// Configuration of a service.
#[derive(Debug)]
pub struct ServiceConfig {
    pub settings: HashMap<String, String>,
    pub enabled: bool,
}

impl Default for ServiceConfig {
    fn default() -> (r: Self)
        ensures
            r.settings@ == Map::<String, String>::empty(),
            !r.enabled,
    {
        ServiceConfig { settings: HashMap::new(), enabled: false }
    }
}

/// A request for a service.
#[derive(Debug)]
pub struct ServiceRequest {
    pub service_id: String,
    pub channel_id: u32,
    pub request_id: u64,
    pub payload: Vec<u8>,
    pub metadata: HashMap<String, String>,
}

/// A service's answer to a request.
#[derive(Debug)]
pub struct ServiceResponse {
    pub request_id: u64,
    pub result: ResultCode,
    pub payload: Vec<u8>,
    pub error_message: String,
    pub metadata: HashMap<String, String>,
}

impl ServiceResponse {
    /// The answer to a request for a service nobody registered.
    pub fn not_found(request_id: u64, service_id: &str) -> (r: Self)
        ensures
            r.request_id == request_id,
            r.result == ResultCode::ErrorNotFound,
            r.payload@.len() == 0,
            r.error_message@ == "Service not found: "@ + service_id@,
            r.metadata@ == Map::<String, String>::empty(),
    {
        let mut message = "Service not found: ".to_string();
        message.append(service_id);
        ServiceResponse {
            request_id,
            result: ResultCode::ErrorNotFound,
            payload: Vec::new(),
            error_message: message,
            metadata: HashMap::new(),
        }
    }
}

/// The status of a service.
#[derive(Debug)]
pub struct ServiceStatus {
    pub service_id: String,
    pub running: bool,
    pub healthy: bool,
    pub details: String,
}

impl ServiceStatus {
    /// The status a service reports unless it says more: not running, healthy, no details.
    pub fn idle(service_id: &str) -> (r: Self)
        ensures
            r.service_id@ == service_id@,
            !r.running,
            r.healthy,
            r.details@.len() == 0,
    {
        ServiceStatus { service_id: service_id.to_owned(), running: false, healthy: true, details: String::new() }
    }
}

/// Events delivered to every service.
#[derive(Debug, Clone)]
pub enum ServiceEvent {
    SessionOpened,
    SessionClosed,
    ChannelOpened(u32),
    ChannelClosed(u32),
    CapabilityNegotiated(Vec<NegotiatedCapability>),
    PeerConfigChanged(String),
}

/// The capability a service announces: its identity, no metadata and no feature flags.
pub fn service_capability(service_id: &str, version: u32, name: &str, description: &str, required: bool) -> (r: ServiceCapability)
    ensures
        r.service_id@ == service_id@,
        r.version == version,
        r.name@ == name@,
        r.description@ == description@,
        r.required == required,
        r.metadata@.len() == 0,
        r.feature_flags == 0,
{
    ServiceCapability {
        service_id: service_id.to_owned(),
        version,
        name: name.to_owned(),
        description: description.to_owned(),
        required,
        metadata: Vec::new(),
        feature_flags: 0,
    }
}

/// The identifiers of a list of services.
pub open spec fn table_ids<S>(entries: Seq<(String, S)>) -> Seq<Seq<char>> {
    entries.map_values(|e: (String, S)| e.0@)
}

/// Matches the entries registered under `id`.
pub open spec fn entry_pred<S>(entries: Seq<(String, S)>, id: Seq<char>) -> spec_fn(int) -> bool {
    |i: int| entries[i].0@ == id
}

/// Index of the entry registered under `id`, or -1.
pub open spec fn find_entry<S>(entries: Seq<(String, S)>, id: Seq<char>) -> int {
    first_where(entry_pred(entries, id), entries.len() as int)
}

/// One entry per identifier.
pub open spec fn table_wf<S>(entries: Seq<(String, S)>) -> bool {
    forall|i: int, j: int| 0 <= i < j < entries.len() ==> (#[trigger] entries[i]).0@ != (#[trigger] entries[j]).0@
}

/// The registered services, each under its identifier.
pub struct ServiceTable<S> {
    entries: Vec<(String, S)>,
}

impl<S> ServiceTable<S> {
    /// The entries, in registration order.
    pub closed spec fn entries(&self) -> Seq<(String, S)> {
        self.entries@
    }

    /// The table's invariant.
    pub open spec fn wf(&self) -> bool {
        table_wf(self.entries())
    }

    /// An empty table.
    pub fn new() -> (r: Self)
        ensures
            r.wf(),
            r.entries() == Seq::<(String, S)>::empty(),
    {
        ServiceTable { entries: Vec::new() }
    }

    /// Index of the entry registered under `id`.
    fn position(&self, id: &str) -> (r: Option<usize>)
        ensures
            match r {
                Some(i) => i == find_entry(self.entries(), id@) && i < self.entries().len(),
                None => find_entry(self.entries(), id@) == -1,
            },
    {
        let ghost s = self.entries();
        let ghost pred = entry_pred(s, id@);
        let target = id.to_owned();
        let mut i: usize = 0;
        while i < self.entries.len()
            invariant
                i <= self.entries@.len(),
                s == self.entries(),
                pred == entry_pred(s, id@),
                target@ == id@,
                first_where(pred, i as int) == -1,
            decreases self.entries@.len() - i,
        {
            proof {
                lemma_first_where_step(pred, i as int);
            }
            if self.entries[i].0 == target {
                proof {
                    assert(pred(i as int));
                    lemma_first_where_extend(pred, i as int + 1, s.len() as int);
                }
                return Some(i);
            }
            i = i + 1;
        }
        None
    }

    /// Registers `service` under `service_id`; an identifier in use is refused.
    pub fn register_service(&mut self, service_id: String, service: S) -> (r: Result<(), ProtocolError>)
        requires
            old(self).wf(),
        ensures
            final(self).wf(),
            find_entry(old(self).entries(), service_id@) >= 0 ==> {
                &&& r matches Err(ProtocolError::ServiceAlreadyRegistered { service_id: s }) && s@ == service_id@
                &&& final(self).entries() == old(self).entries()
            },
            find_entry(old(self).entries(), service_id@) < 0 ==> {
                &&& r is Ok
                &&& final(self).entries() == old(self).entries().push((service_id, service))
            },
    {
        let ghost s = self.entries();
        match self.position(service_id.as_str()) {
            Some(_) => Err(ProtocolError::ServiceAlreadyRegistered { service_id }),
            None => {
                proof {
                    lemma_first_where(entry_pred(s, service_id@), s.len() as int);
                }
                let ghost id = service_id@;
                self.entries.push((service_id, service));
                proof {
                    let t = self.entries();
                    assert forall|a: int, b: int| 0 <= a < b < t.len() implies (#[trigger] t[a]).0@ != (#[trigger] t[b]).0@ by {
                        if b < s.len() {
                            assert(t[a] == s[a] && t[b] == s[b]);
                        } else {
                            assert(t[a] == s[a]);
                            assert(!entry_pred(s, id)(a));
                        }
                    }
                }
                Ok(())
            },
        }
    }

    /// Removes the service registered under `service_id`; an unknown identifier is an error.
    pub fn unregister_service(&mut self, service_id: &str) -> (r: Result<(), ProtocolError>)
        requires
            old(self).wf(),
        ensures
            final(self).wf(),
            ({
                let i = find_entry(old(self).entries(), service_id@);
                if i >= 0 {
                    r is Ok && final(self).entries() == old(self).entries().remove(i)
                } else {
                    &&& r matches Err(ProtocolError::ServiceNotRegistered { service_id: s }) && s@ == service_id@
                    &&& final(self).entries() == old(self).entries()
                }
            }),
    {
        match self.take_service(service_id) {
            Some(_) => Ok(()),
            None => Err(ProtocolError::ServiceNotRegistered { service_id: service_id.to_owned() }),
        }
    }

    /// Takes the service registered under `service_id` out of the table.
    pub fn take_service(&mut self, service_id: &str) -> (r: Option<S>)
        requires
            old(self).wf(),
        ensures
            final(self).wf(),
            ({
                let i = find_entry(old(self).entries(), service_id@);
                if i >= 0 {
                    r == Some(old(self).entries()[i].1) && final(self).entries() == old(self).entries().remove(i)
                } else {
                    r is None && final(self).entries() == old(self).entries()
                }
            }),
    {
        let ghost s = self.entries();
        match self.position(service_id) {
            Some(i) => {
                let (_, service) = self.entries.remove(i);
                proof {
                    let t = self.entries();
                    assert forall|a: int, b: int| 0 <= a < b < t.len() implies (#[trigger] t[a]).0@ != (#[trigger] t[b]).0@ by {
                        let a0 = if a < i { a } else { a + 1 };
                        let b0 = if b < i { b } else { b + 1 };
                        assert(t[a] == s[a0] && t[b] == s[b0]);
                    }
                }
                Some(service)
            },
            None => None,
        }
    }

    /// The identifiers of the registered services, in registration order.
    pub fn list_services(&self) -> (r: Vec<String>)
        ensures
            r@.map_values(|s: String| s@) == table_ids(self.entries()),
    {
        let mut r: Vec<String> = Vec::new();
        let mut i: usize = 0;
        while i < self.entries.len()
            invariant
                i <= self.entries@.len(),
                r@.map_values(|s: String| s@) == table_ids(self.entries()).take(i as int),
            decreases self.entries@.len() - i,
        {
            let ghost r0 = r@;
            r.push(self.entries[i].0.clone());
            assert(r@.map_values(|s: String| s@) =~= r0.map_values(|s: String| s@).push(self.entries@[i as int].0@));
            i = i + 1;
            assert(table_ids(self.entries()).take(i as int) =~= table_ids(self.entries()).take(i - 1).push(self.entries@[i - 1].0@));
        }
        assert(table_ids(self.entries()).take(i as int) =~= table_ids(self.entries()));
        r
    }

    /// How many services are registered.
    pub fn service_count(&self) -> (r: usize)
        ensures
            r == self.entries().len(),
    {
        self.entries.len()
    }
}

/// A registered identifier is refused a second time, and the first registration stays.
pub proof fn lemma_register_twice_refused<S>(entries: Seq<(String, S)>, id: String, s: S)
    requires
        table_wf(entries),
        find_entry(entries, id@) < 0,
    ensures
        find_entry(entries.push((id, s)), id@) == entries.len(),
{
    let t = entries.push((id, s));
    lemma_first_where(entry_pred(entries, id@), entries.len() as int);
    crate::search::lemma_first_where_congruent(entry_pred(entries, id@), entry_pred(t, id@), entries.len() as int);
    lemma_first_where_step(entry_pred(t, id@), entries.len() as int);
}

} // verus!
