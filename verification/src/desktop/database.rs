//! Records of the application database and the plan of its schema
//! migrations. The queries themselves run in the application.

use vstd::prelude::*;

use crate::pb::{DeviceId, SessionId};

verus! {

/// Number of schema migrations; they are numbered from 1.
pub const MIGRATION_COUNT: i64 = 7;

/// A known device.
#[derive(Debug, Clone)]
pub struct DeviceRecord {
    pub id: DeviceId,
    pub name: Option<String>,
    pub address: String,
    pub paired: bool,
    pub trusted: bool,
    pub psk: Option<Vec<u8>>,
    pub last_seen: Option<i64>,
    pub created_at: i64,
    pub metadata: String,
}

/// A recorded session.
#[derive(Debug, Clone)]
pub struct SessionRecord {
    pub id: SessionId,
    pub device_id: DeviceId,
    pub protocol_version: String,
    pub session_keys: Vec<u8>,
    pub capabilities: String,
    pub state: String,
    pub created_at: i64,
    pub last_activity: i64,
    pub bytes_sent: i64,
    pub bytes_received: i64,
}

/// A configuration entry.
#[derive(Debug, Clone)]
pub struct ConfigRecord {
    pub key: String,
    pub value: String,
    pub description: Option<String>,
    pub read_only: bool,
    pub secret: bool,
    pub updated_at: i64,
}

/// A synchronisation job.
#[derive(Debug, Clone)]
pub struct SyncJobRecord {
    pub id: String,
    pub name: String,
    pub description: String,
    pub direction: String,
    pub local_path: String,
    pub remote_path: String,
    pub enabled: bool,
    pub auto_sync: bool,
    pub schedule_type: Option<String>,
    pub schedule_value: Option<String>,
    pub conflict_strategy: String,
    pub filters: String,
    pub status: String,
    pub last_sync: Option<i64>,
    pub created_at: i64,
    pub updated_at: i64,
    pub stats: String,
}

/// A conflict a synchronisation job met.
#[derive(Debug, Clone)]
pub struct SyncConflictRecord {
    pub id: String,
    pub job_id: String,
    pub local_path: String,
    pub remote_path: String,
    pub local_metadata: String,
    pub remote_metadata: String,
    pub local_hash: String,
    pub remote_hash: String,
    pub detected_at: i64,
    pub resolved: bool,
    pub resolution_strategy: String,
}

/// The migrations among the first `n` that are not applied yet, in order.
pub open spec fn pending_migrations(applied: Seq<i64>, n: nat) -> Seq<i64>
    decreases n,
{
    if n == 0 {
        seq![]
    } else {
        let earlier = pending_migrations(applied, (n - 1) as nat);
        if applied.contains(n as i64) {
            earlier
        } else {
            earlier.push(n as i64)
        }
    }
}

/// The migrations to apply, in order: every version from 1 to the last one
/// that is not among the versions already applied.
pub fn migrations_to_apply(applied: &Vec<i64>) -> (r: Vec<i64>)
    ensures
        r@ == pending_migrations(applied@, MIGRATION_COUNT as nat),
{
    let mut r: Vec<i64> = Vec::new();
    let mut version: i64 = 1;
    while version <= MIGRATION_COUNT
        invariant
            1 <= version <= MIGRATION_COUNT + 1,
            r@ == pending_migrations(applied@, (version - 1) as nat),
        decreases MIGRATION_COUNT + 1 - version,
    {
        let mut found = false;
        let mut i: usize = 0;
        while i < applied.len()
            invariant
                i <= applied@.len(),
                found == (exists|j: int| 0 <= j < i && applied@[j] == version),
            decreases applied@.len() - i,
        {
            if applied[i] == version {
                found = true;
            }
            i = i + 1;
        }
        proof {
            if found {
                let j = choose|j: int| 0 <= j < applied@.len() && applied@[j] == version;
                assert(applied@.contains(version));
            } else {
                assert(!applied@.contains(version));
            }
        }
        if !found {
            r.push(version);
        }
        version = version + 1;
    }
    r
}

/// Every planned migration is one of the known versions, planned once, in increasing order.
pub proof fn lemma_pending_ordered(applied: Seq<i64>, n: nat)
    requires
        n <= i64::MAX,
    ensures
        forall|i: int| 0 <= i < pending_migrations(applied, n).len() ==> 1 <= #[trigger] pending_migrations(applied, n)[i] <= n,
        forall|i: int, j: int| 0 <= i < j < pending_migrations(applied, n).len() ==> pending_migrations(applied, n)[i] < pending_migrations(applied, n)[j],
        forall|i: int| 0 <= i < pending_migrations(applied, n).len() ==> !applied.contains(#[trigger] pending_migrations(applied, n)[i]),
    decreases n,
{
    if n > 0 {
        lemma_pending_ordered(applied, (n - 1) as nat);
        let earlier = pending_migrations(applied, (n - 1) as nat);
        let p = pending_migrations(applied, n);
        assert((n as i64) as int == n);
        if !applied.contains(n as i64) {
            assert(p == earlier.push(n as i64));
            assert forall|i: int| 0 <= i < p.len() implies 1 <= #[trigger] p[i] <= n by {
                if i < earlier.len() {
                    assert(p[i] == earlier[i]);
                }
            }
            assert forall|i: int, j: int| 0 <= i < j < p.len() implies p[i] < p[j] by {
                assert(p[i] == earlier[i]);
                if j < earlier.len() {
                    assert(p[j] == earlier[j]);
                }
            }
        }
    }
}

} // verus!
