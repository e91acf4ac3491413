//! Capability negotiation: advertising and negotiating supported services
//! between peers.

pub mod capabilities;
pub mod defaults;

use vstd::prelude::*;

use crate::error::ProtocolError;
use crate::pb::{
    caps_view, clone_negotiated, negotiated_view, CapabilitySet, CapabilitySetView, MetadataEntry,
    NegotiatedCapability, NegotiatedCapabilityView, ServiceCapability, ServiceCapabilityView,
    VersionCompatibility, VersionCompatibilityView,
};
use crate::search::{first_where, lemma_first_where, lemma_first_where_extend, lemma_first_where_step};

verus! {

broadcast use vstd::string::group_string_axioms;

/// Matches the services of `caps` whose identifier is `id`.
pub open spec fn id_pred(caps: Seq<ServiceCapabilityView>, id: Seq<char>) -> spec_fn(int) -> bool {
    |j: int| caps[j].service_id == id
}

/// Index of the first service of `caps` with identifier `id`, or -1.
pub open spec fn find_service(caps: Seq<ServiceCapabilityView>, id: Seq<char>) -> int {
    first_where(id_pred(caps, id), caps.len() as int)
}

/// Whether a metadata list has an entry with key `key`.
pub open spec fn has_key(m: Seq<MetadataEntry>, key: Seq<char>) -> bool {
    exists|i: int| 0 <= i < m.len() && (#[trigger] m[i]).key@ == key
}

/// The entries of `local`, in order, whose key `remote` also has.
pub open spec fn common_features(local: Seq<MetadataEntry>, remote: Seq<MetadataEntry>) -> Seq<MetadataEntry>
    decreases local.len(),
{
    if local.len() == 0 {
        Seq::empty()
    } else {
        let prev = common_features(local.drop_last(), remote);
        if has_key(remote, local.last().key@) {
            prev.push(local.last())
        } else {
            prev
        }
    }
}

/// Negotiating one service that both sides advertise: the lower of the two
/// versions, unavailable when that is 0; the local features the remote also has.
pub open spec fn spec_negotiate_single(
    local: ServiceCapabilityView,
    remote: ServiceCapabilityView,
) -> NegotiatedCapabilityView {
    let v = if local.version < remote.version {
        local.version
    } else {
        remote.version
    };
    if v == 0 {
        NegotiatedCapabilityView {
            service_id: local.service_id,
            negotiated_version: 0,
            negotiated_features: Seq::empty(),
            available: false,
            unavailable_reason: "Version mismatch"@,
        }
    } else {
        NegotiatedCapabilityView {
            service_id: local.service_id,
            negotiated_version: v,
            negotiated_features: common_features(local.metadata, remote.metadata),
            available: true,
            unavailable_reason: Seq::empty(),
        }
    }
}

/// The common features are the local entries, and only those, whose key some
/// remote entry also has; they keep the local values, and none is added.
pub proof fn lemma_common_features_exact(local: Seq<MetadataEntry>, remote: Seq<MetadataEntry>)
    ensures
        common_features(local, remote).len() <= local.len(),
        forall|f: MetadataEntry|
            #[trigger] common_features(local, remote).contains(f) <==> (local.contains(f) && exists|j: int|
                0 <= j < remote.len() && (#[trigger] remote[j]).key@ == f.key@),
    decreases local.len(),
{
    if local.len() > 0 {
        let p = local.drop_last();
        lemma_common_features_exact(p, remote);
        let prev = common_features(p, remote);
        let c = common_features(local, remote);
        assert forall|f: MetadataEntry| #[trigger] c.contains(f) <==> (local.contains(f) && exists|j: int|
            0 <= j < remote.len() && (#[trigger] remote[j]).key@ == f.key@) by {
            if c.contains(f) {
                let k = choose|k: int| 0 <= k < c.len() && c[k] == f;
                if k < prev.len() {
                    assert(c[k] == prev[k]);
                    assert(prev.contains(f));
                    let i = choose|i: int| 0 <= i < p.len() && p[i] == f;
                    assert(local[i] == p[i]);
                } else {
                    assert(f == local.last());
                    assert(local[local.len() - 1] == f);
                }
            }
            if local.contains(f) && exists|j: int| 0 <= j < remote.len() && (#[trigger] remote[j]).key@ == f.key@ {
                let i = choose|i: int| 0 <= i < local.len() && local[i] == f;
                if i < p.len() {
                    assert(p[i] == f);
                    assert(prev.contains(f));
                    let k = choose|k: int| 0 <= k < prev.len() && prev[k] == f;
                    assert(c[k] == prev[k]);
                } else {
                    assert(f == local.last());
                    assert(has_key(remote, local.last().key@));
                    assert(c[c.len() - 1] == f);
                }
            }
        }
    }
}

/// When a service both sides advertise can be used, its negotiated features
/// are exactly the local metadata entries whose key the remote metadata has.
pub proof fn lemma_negotiated_features(local: ServiceCapabilityView, remote: ServiceCapabilityView)
    ensures
        spec_negotiate_single(local, remote).available ==> forall|f: MetadataEntry|
            #[trigger] spec_negotiate_single(local, remote).negotiated_features.contains(f) <==> (
            local.metadata.contains(f) && exists|j: int|
                0 <= j < remote.metadata.len() && (#[trigger] remote.metadata[j]).key@ == f.key@),
        !spec_negotiate_single(local, remote).available ==> spec_negotiate_single(
            local,
            remote,
        ).negotiated_features.len() == 0,
{
    lemma_common_features_exact(local.metadata, remote.metadata);
}

/// The entry for a remote service that is not advertised locally.
pub open spec fn spec_unsupported(service_id: Seq<char>) -> NegotiatedCapabilityView {
    NegotiatedCapabilityView {
        service_id,
        negotiated_version: 0,
        negotiated_features: Seq::empty(),
        available: false,
        unavailable_reason: "Not supported locally"@,
    }
}

/// The negotiation entry for one remote service.
pub open spec fn spec_negotiate_entry(
    local: Seq<ServiceCapabilityView>,
    remote: ServiceCapabilityView,
) -> NegotiatedCapabilityView {
    let j = find_service(local, remote.service_id);
    if j >= 0 {
        spec_negotiate_single(local[j], remote)
    } else {
        spec_unsupported(remote.service_id)
    }
}

/// One negotiation entry per remote service, in the remote order.
pub open spec fn spec_negotiated_list(
    local: Seq<ServiceCapabilityView>,
    remote: Seq<ServiceCapabilityView>,
) -> Seq<NegotiatedCapabilityView> {
    Seq::new(remote.len(), |i: int| spec_negotiate_entry(local, remote[i]))
}

/// Remote services that are required and not advertised locally.
pub open spec fn missing_remote_pred(
    local: Seq<ServiceCapabilityView>,
    remote: Seq<ServiceCapabilityView>,
) -> spec_fn(int) -> bool {
    |i: int| remote[i].required && find_service(local, remote[i].service_id) < 0
}

/// Whether some entry of `n` makes service `id` available.
pub open spec fn has_available(n: Seq<NegotiatedCapabilityView>, id: Seq<char>) -> bool {
    exists|k: int| 0 <= k < n.len() && (#[trigger] n[k]).service_id == id && n[k].available
}

/// Local services that are required and did not become available.
pub open spec fn missing_local_pred(
    local: Seq<ServiceCapabilityView>,
    n: Seq<NegotiatedCapabilityView>,
) -> spec_fn(int) -> bool {
    |j: int| local[j].required && !has_available(n, local[j].service_id)
}

/// The outcome of negotiation: the entries, or the identifier of the first
/// required service that could not be negotiated (remote requirements first).
pub open spec fn spec_negotiate(
    local: Seq<ServiceCapabilityView>,
    remote: Seq<ServiceCapabilityView>,
) -> Result<Seq<NegotiatedCapabilityView>, Seq<char>> {
    let mr = first_where(missing_remote_pred(local, remote), remote.len() as int);
    let n = spec_negotiated_list(local, remote);
    let ml = first_where(missing_local_pred(local, n), local.len() as int);
    if mr >= 0 {
        Err(remote[mr].service_id)
    } else if ml >= 0 {
        Err(local[ml].service_id)
    } else {
        Ok(n)
    }
}

/// The negotiated version of the first available entry for `id`.
pub open spec fn spec_get_version(n: Seq<NegotiatedCapabilityView>, id: Seq<char>) -> Option<u32> {
    let k = first_where(|k: int| n[k].service_id == id && n[k].available, n.len() as int);
    if k >= 0 {
        Some(n[k].negotiated_version)
    } else {
        None
    }
}

/// The compatibility report for one local service.
pub open spec fn spec_compatibility(
    local: ServiceCapabilityView,
    remote: Seq<ServiceCapabilityView>,
) -> VersionCompatibilityView {
    let j = find_service(remote, local.service_id);
    let compatible = j >= 0 && remote[j].version == local.version;
    VersionCompatibilityView {
        service_id: local.service_id,
        local_version: local.version,
        remote_version: if j >= 0 {
            remote[j].version
        } else {
            0
        },
        compatible,
        incompatibility_reason: if compatible {
            Seq::empty()
        } else {
            "Version mismatch"@
        },
    }
}

/// Index of the first service in `caps` with identifier `id`.
pub fn find_capability(caps: &Vec<ServiceCapability>, id: &String) -> (r: Option<usize>)
    ensures
        match r {
            Some(j) => j as int == find_service(caps_view(caps@), id@) && j < caps@.len(),
            None => find_service(caps_view(caps@), id@) == -1,
        },
{
    let ghost cv = caps_view(caps@);
    let ghost pred = id_pred(cv, id@);
    let mut j: usize = 0;
    while j < caps.len()
        invariant
            j <= caps@.len(),
            cv == caps_view(caps@),
            pred == id_pred(cv, id@),
            first_where(pred, j as int) == -1,
        decreases caps.len() - j,
    {
        proof {
            lemma_first_where_step(pred, j as int);
        }
        if caps[j].service_id == *id {
            proof {
                lemma_first_where_extend(pred, j as int + 1, cv.len() as int);
            }
            return Some(j);
        }
        j = j + 1;
    }
    None
}

/// Whether a metadata list has an entry with the given key.
fn has_key_exec(m: &Vec<MetadataEntry>, key: &String) -> (r: bool)
    ensures
        r == has_key(m@, key@),
{
    let mut i: usize = 0;
    while i < m.len()
        invariant
            i <= m@.len(),
            forall|k: int| 0 <= k < i ==> (#[trigger] m@[k]).key@ != key@,
        decreases m.len() - i,
    {
        if m[i].key == *key {
            return true;
        }
        i = i + 1;
    }
    false
}

/// A service is available exactly when it has a negotiated version.
pub proof fn lemma_available_iff_version(n: Seq<NegotiatedCapabilityView>, id: Seq<char>)
    ensures
        has_available(n, id) <==> spec_get_version(n, id) is Some,
{
    let pred = |k: int| n[k].service_id == id && n[k].available;
    lemma_first_where(pred, n.len() as int);
    if has_available(n, id) {
        let k = choose|k: int| 0 <= k < n.len() && (#[trigger] n[k]).service_id == id && n[k].available;
        assert(pred(k));
    }
    if spec_get_version(n, id) is Some {
        let k = first_where(pred, n.len() as int);
        assert(pred(k));
        assert(n[k].service_id == id && n[k].available);
    }
}

/// The negotiated version of the first entry that makes the service available.
pub fn available_version(n: &Vec<NegotiatedCapability>, service_id: &str) -> (r: Option<u32>)
    ensures
        r == spec_get_version(negotiated_view(n@), service_id@),
{
    let id = service_id.to_owned();
    let ghost nv = negotiated_view(n@);
    let ghost pred = |k: int| nv[k].service_id == id@ && nv[k].available;
    assert(pred == |k: int| nv[k].service_id == service_id@ && nv[k].available);
    let mut k: usize = 0;
    while k < n.len()
        invariant
            k <= n@.len(),
            nv == negotiated_view(n@),
            pred == |k: int| nv[k].service_id == id@ && nv[k].available,
            id@ == service_id@,
            first_where(pred, k as int) == -1,
        decreases n.len() - k,
    {
        proof {
            lemma_first_where_step(pred, k as int);
        }
        if n[k].service_id == id && n[k].available {
            proof {
                lemma_first_where_extend(pred, k as int + 1, nv.len() as int);
            }
            return Some(n[k].negotiated_version);
        }
        k = k + 1;
    }
    None
}

/// Whether some entry makes the service available.
pub fn any_available(n: &Vec<NegotiatedCapability>, id: &String) -> (r: bool)
    ensures
        r == has_available(negotiated_view(n@), id@),
{
    let ghost nv = negotiated_view(n@);
    let mut k: usize = 0;
    while k < n.len()
        invariant
            k <= n@.len(),
            nv == negotiated_view(n@),
            forall|i: int| 0 <= i < k ==> !((#[trigger] nv[i]).service_id == id@ && nv[i].available),
        decreases n.len() - k,
    {
        if n[k].service_id == *id && n[k].available {
            assert(nv[k as int].service_id == id@ && nv[k as int].available);
            return true;
        }
        k = k + 1;
    }
    false
}

/// Capability negotiator.
pub struct CapabilityNegotiator {
    local_capabilities: CapabilitySet,
    negotiated: Vec<NegotiatedCapability>,
}

impl CapabilityNegotiator {
    /// The local capability set.
    pub closed spec fn local_set(&self) -> CapabilitySetView {
        self.local_capabilities@
    }

    /// The result of the last successful negotiation.
    pub closed spec fn negotiated_set(&self) -> Seq<NegotiatedCapabilityView> {
        negotiated_view(self.negotiated@)
    }

    /// Create a new capability negotiator: no local services, nothing negotiated.
    pub fn new() -> (r: Self)
        ensures
            r.local_set().capabilities == Seq::<ServiceCapabilityView>::empty(),
            r.local_set().protocol_version is None,
            r.local_set().software_version == Seq::<char>::empty(),
            r.local_set().device_name == Seq::<char>::empty(),
            r.local_set().device_id is None,
            r.negotiated_set() == Seq::<NegotiatedCapabilityView>::empty(),
    {
        let r = CapabilityNegotiator {
            local_capabilities: CapabilitySet {
                capabilities: Vec::new(),
                protocol_version: None,
                software_version: String::new(),
                device_name: String::new(),
                device_id: None,
            },
            negotiated: Vec::new(),
        };
        assert(r.local_set().capabilities =~= Seq::<ServiceCapabilityView>::empty());
        assert(r.negotiated_set() =~= Seq::<NegotiatedCapabilityView>::empty());
        r
    }

    /// Set local capabilities.
    pub fn set_local_capabilities(&mut self, capabilities: CapabilitySet)
        ensures
            final(self).local_set() == capabilities@,
            final(self).negotiated_set() == old(self).negotiated_set(),
    {
        self.local_capabilities = capabilities;
    }

    /// Get local capabilities.
    pub fn local_capabilities(&self) -> (r: CapabilitySet)
        ensures
            r@ == self.local_set(),
    {
        self.local_capabilities.clone()
    }

    /// Negotiate capabilities with a remote peer.
    ///
    /// Each remote service gets one entry, in the remote order: negotiated
    /// against the first local service with the same identifier, or marked
    /// unsupported. A required remote service with no local counterpart, or
    /// a required local service that did not become available, fails the
    /// negotiation and leaves the previous result in place.
    pub fn negotiate(&mut self, remote_capabilities: &CapabilitySet) -> (r: Result<
        Vec<NegotiatedCapability>,
        ProtocolError,
    >)
        ensures
            final(self).local_set() == old(self).local_set(),
            match spec_negotiate(old(self).local_set().capabilities, caps_view(remote_capabilities.capabilities@)) {
                Ok(n) => {
                    &&& r matches Ok(v) && negotiated_view(v@) == n
                    &&& final(self).negotiated_set() == n
                },
                Err(id) => {
                    &&& r matches Err(ProtocolError::RequiredCapabilityMissing { service_id }) && service_id@ == id
                    &&& final(self).negotiated_set() == old(self).negotiated_set()
                },
            },
    {
        let ghost lv = self.local_set().capabilities;
        let ghost rv = caps_view(remote_capabilities.capabilities@);
        let ghost nl = spec_negotiated_list(lv, rv);
        let ghost mr_pred = missing_remote_pred(lv, rv);
        let mut negotiated: Vec<NegotiatedCapability> = Vec::new();
        let mut i: usize = 0;
        while i < remote_capabilities.capabilities.len()
            invariant
                i <= remote_capabilities.capabilities@.len(),
                lv == self.local_set().capabilities,
                lv == caps_view(self.local_capabilities.capabilities@),
                rv == caps_view(remote_capabilities.capabilities@),
                nl == spec_negotiated_list(lv, rv),
                mr_pred == missing_remote_pred(lv, rv),
                self == old(self),
                first_where(mr_pred, i as int) == -1,
                negotiated@.len() == i,
                forall|k: int| 0 <= k < i ==> (#[trigger] negotiated@[k])@ == nl[k],
            decreases remote_capabilities.capabilities.len() - i,
        {
            let remote_cap = &remote_capabilities.capabilities[i];
            proof {
                lemma_first_where_step(mr_pred, i as int);
            }
            match find_capability(&self.local_capabilities.capabilities, &remote_cap.service_id) {
                Some(j) => {
                    let n = self.negotiate_single(&self.local_capabilities.capabilities[j], remote_cap);
                    negotiated.push(n);
                },
                None => {
                    if remote_cap.required {
                        proof {
                            lemma_first_where_extend(mr_pred, i as int + 1, rv.len() as int);
                        }
                        return Err(
                            ProtocolError::RequiredCapabilityMissing { service_id: remote_cap.service_id.clone() },
                        );
                    }
                    negotiated.push(
                        NegotiatedCapability {
                            service_id: remote_cap.service_id.clone(),
                            negotiated_version: 0,
                            negotiated_features: Vec::new(),
                            available: false,
                            unavailable_reason: "Not supported locally".to_string(),
                        },
                    );
                },
            }
            i = i + 1;
        }
        assert(negotiated_view(negotiated@) =~= nl);

        // Check for required local capabilities that were not negotiated.
        let ghost ml_pred = missing_local_pred(lv, nl);
        let mut j: usize = 0;
        while j < self.local_capabilities.capabilities.len()
            invariant
                j <= self.local_capabilities.capabilities@.len(),
                lv == caps_view(self.local_capabilities.capabilities@),
                negotiated_view(negotiated@) == nl,
                ml_pred == missing_local_pred(lv, nl),
                mr_pred == missing_remote_pred(lv, rv),
                nl == spec_negotiated_list(lv, rv),
                lv == old(self).local_set().capabilities,
                rv == caps_view(remote_capabilities.capabilities@),
                self == old(self),
                first_where(mr_pred, rv.len() as int) == -1,
                first_where(ml_pred, j as int) == -1,
            decreases self.local_capabilities.capabilities.len() - j,
        {
            proof {
                lemma_first_where_step(ml_pred, j as int);
            }
            let local_cap = &self.local_capabilities.capabilities[j];
            assert(lv[j as int] == local_cap@);
            if local_cap.required {
                let found = any_available(&negotiated, &local_cap.service_id);
                if !found {
                    proof {
                        assert(ml_pred(j as int));
                        assert(first_where(ml_pred, j as int + 1) == j);
                        lemma_first_where_extend(ml_pred, j as int + 1, lv.len() as int);
                        assert(first_where(ml_pred, lv.len() as int) == j);
                    }
                    return Err(ProtocolError::RequiredCapabilityMissing { service_id: local_cap.service_id.clone() });
                }
            }
            j = j + 1;
        }
        self.negotiated = clone_negotiated(&negotiated);
        Ok(negotiated)
    }

    /// Negotiate a single capability.
    fn negotiate_single(&self, local: &ServiceCapability, remote: &ServiceCapability) -> (r: NegotiatedCapability)
        ensures
            r@ == spec_negotiate_single(local@, remote@),
    {
        let negotiated_version = if local.version < remote.version {
            local.version
        } else {
            remote.version
        };
        if negotiated_version == 0 {
            return NegotiatedCapability {
                service_id: local.service_id.clone(),
                negotiated_version: 0,
                negotiated_features: Vec::new(),
                available: false,
                unavailable_reason: "Version mismatch".to_string(),
            };
        }
        let mut negotiated_features: Vec<MetadataEntry> = Vec::new();
        let mut i: usize = 0;
        while i < local.metadata.len()
            invariant
                i <= local.metadata@.len(),
                negotiated_features@ == common_features(local.metadata@.take(i as int), remote.metadata@),
            decreases local.metadata.len() - i,
        {
            assert(local.metadata@.take(i + 1).drop_last() =~= local.metadata@.take(i as int));
            if has_key_exec(&remote.metadata, &local.metadata[i].key) {
                negotiated_features.push(local.metadata[i].clone());
            }
            i = i + 1;
        }
        assert(local.metadata@.take(local.metadata@.len() as int) =~= local.metadata@);
        NegotiatedCapability {
            service_id: local.service_id.clone(),
            negotiated_version,
            negotiated_features,
            available: true,
            unavailable_reason: String::new(),
        }
    }

    /// Get negotiated capabilities.
    pub fn negotiated(&self) -> (r: Vec<NegotiatedCapability>)
        ensures
            negotiated_view(r@) == self.negotiated_set(),
    {
        clone_negotiated(&self.negotiated)
    }

    /// Check if a capability is available.
    pub fn is_available(&self, service_id: &str) -> (r: bool)
        ensures
            r == has_available(self.negotiated_set(), service_id@),
    {
        let id = service_id.to_owned();
        any_available(&self.negotiated, &id)
    }

    /// Get the negotiated version of an available service.
    pub fn get_version(&self, service_id: &str) -> (r: Option<u32>)
        ensures
            r == spec_get_version(self.negotiated_set(), service_id@),
    {
        available_version(&self.negotiated, service_id)
    }

    /// Check if a service is negotiated, available, at least at a version.
    pub fn is_capability_supported(&self, service_id: &str, required_version: u32) -> (r: bool)
        ensures
            r == exists|k: int|
                0 <= k < self.negotiated_set().len() && (#[trigger] self.negotiated_set()[k]).service_id
                    == service_id@ && self.negotiated_set()[k].available
                    && self.negotiated_set()[k].negotiated_version >= required_version,
    {
        let id = service_id.to_owned();
        let ghost nv = self.negotiated_set();
        let mut k: usize = 0;
        while k < self.negotiated.len()
            invariant
                k <= self.negotiated@.len(),
                nv == negotiated_view(self.negotiated@),
                id@ == service_id@,
                forall|i: int|
                    0 <= i < k ==> !((#[trigger] nv[i]).service_id == service_id@ && nv[i].available
                        && nv[i].negotiated_version >= required_version),
            decreases self.negotiated.len() - k,
        {
            let c = &self.negotiated[k];
            if c.service_id == id && c.available && c.negotiated_version >= required_version {
                assert(nv[k as int] == c@);
                assert(self.negotiated_set()[k as int].service_id == service_id@ && self.negotiated_set()[
                    k as int].available && self.negotiated_set()[k as int].negotiated_version >= required_version);
                return true;
            }
            k = k + 1;
        }
        false
    }

    /// Version compatibility of each local service with the remote set.
    pub fn check_compatibility(&self, remote: &CapabilitySet) -> (r: Vec<VersionCompatibility>)
        ensures
            r@.len() == self.local_set().capabilities.len(),
            forall|i: int|
                0 <= i < r@.len() ==> (#[trigger] r@[i])@ == spec_compatibility(
                    self.local_set().capabilities[i],
                    caps_view(remote.capabilities@),
                ),
    {
        let ghost lv = self.local_set().capabilities;
        let ghost rv = caps_view(remote.capabilities@);
        let mut results: Vec<VersionCompatibility> = Vec::new();
        let mut i: usize = 0;
        while i < self.local_capabilities.capabilities.len()
            invariant
                i <= self.local_capabilities.capabilities@.len(),
                lv == self.local_set().capabilities,
                lv == caps_view(self.local_capabilities.capabilities@),
                rv == caps_view(remote.capabilities@),
                results@.len() == i,
                forall|k: int| 0 <= k < i ==> (#[trigger] results@[k])@ == spec_compatibility(lv[k], rv),
            decreases self.local_capabilities.capabilities.len() - i,
        {
            let local_cap = &self.local_capabilities.capabilities[i];
            let found = find_capability(&remote.capabilities, &local_cap.service_id);
            let (compatible, remote_version) = match found {
                Some(j) => (remote.capabilities[j].version == local_cap.version, remote.capabilities[j].version),
                None => (false, 0),
            };
            results.push(
                VersionCompatibility {
                    service_id: local_cap.service_id.clone(),
                    local_version: local_cap.version,
                    remote_version,
                    compatible,
                    incompatibility_reason: if compatible {
                        String::new()
                    } else {
                        "Version mismatch".to_string()
                    },
                },
            );
            i = i + 1;
        }
        results
    }
}

impl Default for CapabilityNegotiator {
    fn default() -> (r: Self)
        ensures
            r.local_set().capabilities == Seq::<ServiceCapabilityView>::empty(),
            r.negotiated_set() == Seq::<NegotiatedCapabilityView>::empty(),
    {
        Self::new()
    }
}

/// Negotiation succeeds exactly when every required service, on either
/// side, is negotiated; then there is one entry per remote service, about
/// that service, available exactly when both sides advertise it with
/// nonzero versions, at the lower of the two versions.
pub proof fn lemma_negotiation_outcome(local: Seq<ServiceCapabilityView>, remote: Seq<ServiceCapabilityView>)
    ensures
        spec_negotiate(local, remote) is Ok <==> (
            (forall|i: int|
                0 <= i < remote.len() && (#[trigger] remote[i]).required ==> find_service(local, remote[i].service_id)
                    >= 0) && (forall|j: int|
                0 <= j < local.len() && (#[trigger] local[j]).required ==> has_available(
                    spec_negotiated_list(local, remote),
                    local[j].service_id,
                ))),
        spec_negotiate(local, remote) matches Ok(n) ==> {
            &&& n.len() == remote.len()
            &&& forall|i: int|
                0 <= i < n.len() ==> {
                    let j = find_service(local, remote[i].service_id);
                    &&& (#[trigger] n[i]).service_id == remote[i].service_id
                    &&& n[i].available == (j >= 0 && local[j].version != 0 && remote[i].version != 0)
                    &&& n[i].available ==> n[i].negotiated_version == (if local[j].version < remote[i].version {
                        local[j].version
                    } else {
                        remote[i].version
                    })
                }
        },
{
    let mr = missing_remote_pred(local, remote);
    let n = spec_negotiated_list(local, remote);
    let ml = missing_local_pred(local, n);
    lemma_first_where(mr, remote.len() as int);
    lemma_first_where(ml, local.len() as int);
    if first_where(mr, remote.len() as int) >= 0 {
        let i = first_where(mr, remote.len() as int);
        assert(mr(i));
        assert(remote[i].required && find_service(local, remote[i].service_id) < 0);
    } else {
        assert forall|i: int|
            0 <= i < remote.len() && (#[trigger] remote[i]).required implies find_service(
            local,
            remote[i].service_id,
        ) >= 0 by {
            assert(!mr(i));
        }
    }
    if first_where(ml, local.len() as int) >= 0 {
        let j = first_where(ml, local.len() as int);
        assert(ml(j));
        assert(local[j].required && !has_available(n, local[j].service_id));
    } else {
        assert forall|j: int|
            0 <= j < local.len() && (#[trigger] local[j]).required implies has_available(n, local[j].service_id) by {
            assert(!ml(j));
        }
    }
    assert forall|i: int| 0 <= i < n.len() implies {
        let j = find_service(local, remote[i].service_id);
        &&& (#[trigger] n[i]).service_id == remote[i].service_id
        &&& n[i].available == (j >= 0 && local[j].version != 0 && remote[i].version != 0)
        &&& n[i].available ==> n[i].negotiated_version == (if local[j].version < remote[i].version {
            local[j].version
        } else {
            remote[i].version
        })
    } by {
        lemma_first_where(id_pred(local, remote[i].service_id), local.len() as int);
    }
}

} // verus!
