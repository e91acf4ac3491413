//! The event bus: events are broadcast to subscribers and the most recent
//! ones are kept in a bounded history.

use vstd::prelude::*;

use std::collections::HashMap;

use tokio::sync::broadcast::Receiver;

use crate::channels::{broadcast_channel, broadcast_send, broadcast_subscribe, BroadcastTx};
use crate::error::ProtocolError;
use crate::pb::DeviceId;

verus! {

/// Capacity of the event channel.
pub const EVENT_CHANNEL_CAPACITY: usize = 1000;

/// Number of events the history keeps.
pub const MAX_EVENT_HISTORY: usize = 1000;

/// A Bluetooth adapter.
#[derive(Debug, Clone)]
pub struct AdapterInfo {
    pub id: String,
    pub name: String,
    pub address: String,
    pub powered: bool,
    pub discoverable: bool,
    pub pairable: bool,
}

/// A Bluetooth device seen nearby.
#[derive(Debug, Clone)]
pub struct DeviceInfo {
    pub id: DeviceId,
    pub name: Option<String>,
    pub address: String,
    pub paired: bool,
    pub connected: bool,
    pub rssi: Option<i16>,
    pub device_class: Option<u32>,
    pub services: Vec<String>,
}

/// A service as a peer announces it.
#[derive(Debug, Clone)]
pub struct ServiceCapability {
    pub service_id: String,
    pub version: u32,
    pub name: String,
    pub description: String,
    pub required: bool,
    pub metadata: HashMap<String, String>,
    pub feature_flags: u64,
}

/// Metadata of a file.
#[derive(Debug, Clone)]
pub struct FileMetadata {
    pub path: String,
    pub name: String,
    pub size: u64,
    pub is_directory: bool,
    pub modified_time: u64,
    pub created_time: u64,
    pub mime_type: Option<String>,
    pub hash: Option<String>,
    pub permissions: u32,
    pub is_symlink: bool,
    pub symlink_target: Option<String>,
}

/// Counts of a synchronisation run.
#[derive(Debug, Clone, Copy)]
pub struct SyncStats {
    pub files_total: u64,
    pub files_synced: u64,
    pub files_skipped: u64,
    pub files_conflicted: u64,
    pub bytes_total: u64,
    pub bytes_synced: u64,
    pub errors: u64,
}

/// Two versions of a file that a synchronisation could not reconcile.
#[derive(Debug, Clone)]
pub struct SyncConflict {
    pub id: String,
    pub job_id: String,
    pub local_path: String,
    pub remote_path: String,
    pub local_metadata: String,
    pub remote_metadata: String,
    pub local_hash: String,
    pub remote_hash: String,
}

/// Counts of a photo backup.
#[derive(Debug, Clone, Copy)]
pub struct PhotoBackupStats {
    pub total_photos: u64,
    pub backed_up: u64,
    pub skipped: u64,
    pub errors: u64,
    pub bytes_total: u64,
    pub bytes_transferred: u64,
}

/// Metadata of the media playing.
#[derive(Debug, Clone)]
pub struct MediaMetadata {
    pub title: String,
    pub artist: String,
    pub album: String,
    pub album_artist: String,
    pub genre: String,
    pub track_number: u32,
    pub total_tracks: u32,
    pub year: u32,
    pub duration_ms: u64,
    pub artwork_uri: Option<String>,
    pub artwork_data: Option<Vec<u8>>,
}

/// A file stream.
#[derive(Debug, Clone)]
pub struct StreamInfo {
    pub stream_id: String,
    pub path: String,
    pub file_size: u64,
    pub mime_type: String,
    pub seekable: bool,
    pub supports_range: bool,
    pub recommended_chunk_size: u32,
}

/// The history after recording `e`: the last `max` events of `h` followed by `e`.
pub open spec fn history_after<E>(h: Seq<E>, e: E, max: nat) -> Seq<E> {
    let all = h.push(e);
    if all.len() > max {
        all.subrange(all.len() - max, all.len() as int)
    } else {
        all
    }
}

/// The most recent events, oldest first, never more than `MAX_EVENT_HISTORY`.
#[verifier::reject_recursive_types(E)]
struct EventHistory<E> {
    events: Vec<E>,
    max_history: usize,
}

impl<E> EventHistory<E> {
    #[verifier::type_invariant]
    spec fn bounded(&self) -> bool {
        &&& self.max_history == MAX_EVENT_HISTORY
        &&& self.events@.len() <= MAX_EVENT_HISTORY
    }

    fn new() -> (r: Self)
        ensures
            r.events@ == Seq::<E>::empty(),
            r.max_history == MAX_EVENT_HISTORY,
    {
        EventHistory { events: Vec::new(), max_history: MAX_EVENT_HISTORY }
    }

    fn record(&mut self, event: E)
        ensures
            final(self).events@ == history_after(old(self).events@, event, MAX_EVENT_HISTORY as nat),
            final(self).events@.len() <= MAX_EVENT_HISTORY,
            final(self).max_history == MAX_EVENT_HISTORY,
    {
        proof {
            use_type_invariant(&*self);
        }
        let mut events: Vec<E> = Vec::new();
        std::mem::swap(&mut events, &mut self.events);
        events.push(event);
        let len = events.len();
        if len > self.max_history {
            let excess = len - self.max_history;
            events = events.split_off(excess);
        }
        self.events = events;
    }

    fn clear(&mut self)
        ensures
            final(self).events@ == Seq::<E>::empty(),
            final(self).max_history == MAX_EVENT_HISTORY,
    {
        proof {
            use_type_invariant(&*self);
        }
        self.events = Vec::new();
    }
}

/// Broadcasts events to subscribers and keeps the most recent ones.
#[verifier::reject_recursive_types(E)]
pub struct EventBus<E> {
    sender: BroadcastTx<E>,
    history: EventHistory<E>,
}

impl<E: Clone> EventBus<E> {
    /// The events kept, oldest first.
    pub closed spec fn history_view(&self) -> Seq<E> {
        self.history.events@
    }

    /// How many events the history keeps.
    pub closed spec fn capacity(&self) -> nat {
        self.history.max_history as nat
    }

    /// The events handed to the broadcast channel, in order.
    pub closed spec fn broadcast_log(&self) -> Seq<E> {
        self.sender.sent()
    }

    /// A bus with an empty history that keeps the last 1000 events and has
    /// broadcast nothing.
    pub fn new() -> (r: Self)
        ensures
            r.history_view() == Seq::<E>::empty(),
            r.capacity() == MAX_EVENT_HISTORY,
            r.broadcast_log() == Seq::<E>::empty(),
    {
        let (sender, _receiver) = broadcast_channel(EVENT_CHANNEL_CAPACITY);
        EventBus { sender, history: EventHistory::new() }
    }

    /// Records `event` in the history, dropping the oldest beyond the capacity,
    /// and broadcasts a copy of it to the subscribers.
    pub fn publish(&mut self, event: E) -> (r: Result<(), ProtocolError>)
        ensures
            r is Ok,
            final(self).history_view() == history_after(old(self).history_view(), event, MAX_EVENT_HISTORY as nat),
            final(self).history_view().len() <= MAX_EVENT_HISTORY,
            final(self).capacity() == MAX_EVENT_HISTORY,
            final(self).broadcast_log().len() == old(self).broadcast_log().len() + 1,
            final(self).broadcast_log().drop_last() == old(self).broadcast_log(),
            cloned::<E>(event, final(self).broadcast_log().last()),
    {
        let copy = event.clone();
        self.history.record(event);
        broadcast_send(&mut self.sender, copy);
        Ok(())
    }

    /// A new receiver of the events published from now on.
    pub fn subscribe(&self) -> Receiver<E> {
        broadcast_subscribe(&self.sender)
    }

    /// Copies of the events kept, oldest first.
    pub fn history(&self) -> (r: Vec<E>)
        ensures
            r@.len() == self.history_view().len(),
            forall|i: int| 0 <= i < r@.len() ==> cloned::<E>(self.history_view()[i], #[trigger] r@[i]),
    {
        self.history.events.clone()
    }

    /// Forgets the events kept; what was broadcast stays broadcast.
    pub fn clear_history(&mut self)
        ensures
            final(self).history_view() == Seq::<E>::empty(),
            final(self).capacity() == MAX_EVENT_HISTORY,
            final(self).broadcast_log() == old(self).broadcast_log(),
    {
        self.history.clear();
    }

    /// How many events are kept: never more than the capacity.
    pub fn history_size(&self) -> (r: usize)
        ensures
            r == self.history_view().len(),
            r <= MAX_EVENT_HISTORY,
            self.capacity() == MAX_EVENT_HISTORY,
    {
        proof {
            use_type_invariant(&self.history);
        }
        self.history.events.len()
    }
}

impl<E: Clone> Default for EventBus<E> {
    fn default() -> (r: Self)
        ensures
            r.history_view() == Seq::<E>::empty(),
            r.capacity() == MAX_EVENT_HISTORY,
            r.broadcast_log() == Seq::<E>::empty(),
    {
        Self::new()
    }
}

/// The history never holds more events than its capacity, and the newest event is last.
pub proof fn lemma_history_bounded<E>(h: Seq<E>, e: E, max: nat)
    requires
        max > 0,
        h.len() <= max,
    ensures
        history_after(h, e, max).len() <= max,
        history_after(h, e, max).last() == e,
{
}

} // verus!
