//! Sessions: their configuration, state, sequence numbers, liveness and
//! keepalive policy, and the manager that holds them.
//!
//! Time is read in milliseconds; every decision that depends on it also has
//! a form that takes the current time as an argument.

use vstd::prelude::*;

use std::collections::HashMap;

use tokio::sync::broadcast::{Receiver, Sender};

use crate::auth::{bytes_equal, AuthManager, SessionKeys};
use crate::capability::CapabilityNegotiator;
use crate::channels::{broadcast_channel, broadcast_send, broadcast_sender_clone, broadcast_subscribe, BroadcastTx};
use crate::clock::unix_millis;
use crate::crypto::fill_random;
use crate::error::ProtocolError;
use crate::frame::FrameCodec;
use crate::mux::ChannelManager;
use crate::pb::{clone_bytes, CapabilitySet, DeviceId, NegotiatedCapability, ProtocolVersion, ResultCode, SessionEventType, SessionId};
use crate::registry::ServiceRegistry;
use crate::search::{first_where, lemma_first_where, lemma_first_where_extend, lemma_first_where_step};
use crate::{DEFAULT_KEEPALIVE_INTERVAL_MS, DEFAULT_SESSION_TIMEOUT_MS, MAX_CHANNELS};

verus! {

broadcast use vstd::string::group_string_axioms;

/// Capacity of the session event channel.
pub const SESSION_EVENT_CAPACITY: usize = 100;

/// Keepalive intervals that may pass without sign of life before a session times out.
pub const MAX_MISSED_KEEPALIVES: u32 = 3;

/// Configuration of one session.
#[derive(Debug)]
pub struct SessionConfig {
    pub protocol_version: ProtocolVersion,
    pub local_device_id: DeviceId,
    pub remote_device_id: DeviceId,
    pub session_id: SessionId,
    pub negotiated_capabilities: Vec<NegotiatedCapability>,
    pub capability_versions: HashMap<String, u32>,
    pub max_channels: u32,
    pub max_frame_size: u32,
    pub keepalive_interval_ms: u64,
    pub session_timeout_ms: u64,
    pub session_keys: SessionKeys,
    /// Milliseconds since the Unix epoch.
    pub established_at_ms: u64,
    /// Milliseconds since the Unix epoch.
    pub last_activity_ms: u64,
}

/// The configuration fields that do not depend on the clock or on the
/// devices: protocol 1.0.0, no capabilities, the channel limit, 16 KiB frames
/// and zero keys.
pub open spec fn config_defaults(c: SessionConfig) -> bool {
    &&& c.protocol_version == (ProtocolVersion { major: 1, minor: 0, patch: 0 })
    &&& c.negotiated_capabilities@.len() == 0
    &&& c.capability_versions@ == Map::<String, u32>::empty()
    &&& c.max_channels == MAX_CHANNELS
    &&& c.max_frame_size == 16384
    &&& c.session_keys@.master_key == Seq::new(32, |i: int| 0u8)
    &&& c.session_keys@.encryption_key == Seq::new(32, |i: int| 0u8)
    &&& c.session_keys@.authentication_key == Seq::new(32, |i: int| 0u8)
    &&& c.session_keys@.iv_salt == Seq::new(16, |i: int| 0u8)
    &&& c.session_keys@.channel_keys == Map::<u32, crate::auth::ChannelKeysView>::empty()
    &&& c.established_at_ms == c.last_activity_ms
}

impl Default for SessionConfig {
    fn default() -> (r: Self)
        ensures
            config_defaults(r),
            r.local_device_id.value@.len() == 0,
            r.remote_device_id.value@.len() == 0,
            r.session_id.value@.len() == 0,
            r.keepalive_interval_ms == DEFAULT_KEEPALIVE_INTERVAL_MS,
            r.session_timeout_ms == DEFAULT_SESSION_TIMEOUT_MS,
    {
        let now = unix_millis();
        SessionConfig {
            protocol_version: ProtocolVersion { major: 1, minor: 0, patch: 0 },
            local_device_id: DeviceId { value: Vec::new() },
            remote_device_id: DeviceId { value: Vec::new() },
            session_id: SessionId { value: Vec::new() },
            negotiated_capabilities: Vec::new(),
            capability_versions: HashMap::new(),
            max_channels: MAX_CHANNELS,
            max_frame_size: 16384,
            keepalive_interval_ms: DEFAULT_KEEPALIVE_INTERVAL_MS as u64,
            session_timeout_ms: DEFAULT_SESSION_TIMEOUT_MS as u64,
            session_keys: SessionKeys::default(),
            established_at_ms: now,
            last_activity_ms: now,
        }
    }
}

/// Session states.
#[derive(Debug, Clone, Copy, PartialEq, Eq, Structural)]
pub enum SessionState {
    Closed,
    Opening,
    NegotiatingCapabilities,
    Authenticating,
    Active,
    Closing,
    Reconnecting,
}

/// A session event for outside observers.
#[derive(Debug, Clone)]
pub struct SessionEvent {
    pub session_id: SessionId,
    pub event_type: SessionEventType,
    /// Milliseconds since the Unix epoch.
    pub timestamp_ms: u64,
    pub message: String,
    pub details: Vec<u8>,
}

/// The mathematical value of a session event; its time is not part of it.
pub struct SessionEventView {
    pub session_id: Seq<u8>,
    pub event_type: SessionEventType,
    pub message: Seq<char>,
    pub details: Seq<u8>,
}

impl View for SessionEvent {
    type V = SessionEventView;

    open spec fn view(&self) -> SessionEventView {
        SessionEventView {
            session_id: self.session_id.value@,
            event_type: self.event_type,
            message: self.message@,
            details: self.details@,
        }
    }
}

/// Configuration of the session manager.
#[derive(Debug, Clone, Copy)]
pub struct SessionManagerConfig {
    pub max_sessions: usize,
    pub session_timeout_ms: u64,
    pub keepalive_interval_ms: u64,
    pub enable_reconnection: bool,
}

impl Default for SessionManagerConfig {
    /// One session (a single trusted device pair), the default timeout and
    /// keepalive interval, reconnection on.
    fn default() -> (r: Self)
        ensures
            r.max_sessions == 1,
            r.session_timeout_ms == DEFAULT_SESSION_TIMEOUT_MS,
            r.keepalive_interval_ms == DEFAULT_KEEPALIVE_INTERVAL_MS,
            r.enable_reconnection,
    {
        SessionManagerConfig {
            max_sessions: 1,
            session_timeout_ms: DEFAULT_SESSION_TIMEOUT_MS as u64,
            keepalive_interval_ms: DEFAULT_KEEPALIVE_INTERVAL_MS as u64,
            enable_reconnection: true,
        }
    }
}

/// Milliseconds from `since` to `now`, zero when the clock went back.
pub open spec fn elapsed_ms(since: u64, now: u64) -> u64 {
    if now >= since { (now - since) as u64 } else { 0 }
}

/// What the keepalive task does after a step.
#[derive(Debug, Clone, Copy, PartialEq, Eq, Structural)]
pub enum KeepaliveStep {
    /// The session is no longer active: stop.
    Stop,
    /// Too many intervals without sign of life: time the session out and stop.
    Timeout,
    /// Send a keepalive now.
    SendKeepalive,
    /// Wait for the next interval.
    Wait,
}

/// The missed-interval count and step after an interval tick.
pub open spec fn spec_keepalive_tick(missed: u32, state: SessionState, alive: bool) -> (u32, KeepaliveStep) {
    if state != SessionState::Active {
        (missed, KeepaliveStep::Stop)
    } else if !alive {
        if missed + 1 >= MAX_MISSED_KEEPALIVES {
            ((missed + 1) as u32, KeepaliveStep::Timeout)
        } else {
            ((missed + 1) as u32, KeepaliveStep::SendKeepalive)
        }
    } else {
        (0, KeepaliveStep::SendKeepalive)
    }
}

/// The missed-interval count and step after a keepalive could not be sent.
pub open spec fn spec_keepalive_send_failed(missed: u32) -> (u32, KeepaliveStep) {
    if missed + 1 >= MAX_MISSED_KEEPALIVES {
        ((missed + 1) as u32, KeepaliveStep::Timeout)
    } else {
        ((missed + 1) as u32, KeepaliveStep::Wait)
    }
}

/// The keepalive policy of a session: counts the intervals that passed
/// without sign of life and decides when the session times out.
#[derive(Debug, Clone, Copy)]
pub struct KeepaliveMonitor {
    pub missed: u32,
}

impl KeepaliveMonitor {
    /// A monitor that has missed nothing.
    pub fn new() -> (r: Self)
        ensures
            r.missed == 0,
    {
        KeepaliveMonitor { missed: 0 }
    }

    /// One interval has passed; `state` and `alive` describe the session now.
    pub fn on_tick(&mut self, state: SessionState, alive: bool) -> (r: KeepaliveStep)
        requires
            old(self).missed < MAX_MISSED_KEEPALIVES,
        ensures
            (final(self).missed, r) == spec_keepalive_tick(old(self).missed, state, alive),
            r != KeepaliveStep::Timeout ==> final(self).missed < MAX_MISSED_KEEPALIVES,
    {
        if state != SessionState::Active {
            return KeepaliveStep::Stop;
        }
        if !alive {
            self.missed = self.missed + 1;
            if self.missed >= MAX_MISSED_KEEPALIVES {
                return KeepaliveStep::Timeout;
            }
        } else {
            self.missed = 0;
        }
        KeepaliveStep::SendKeepalive
    }

    /// A keepalive could not be sent.
    pub fn on_send_failed(&mut self) -> (r: KeepaliveStep)
        requires
            old(self).missed < MAX_MISSED_KEEPALIVES,
        ensures
            (final(self).missed, r) == spec_keepalive_send_failed(old(self).missed),
            r != KeepaliveStep::Timeout ==> final(self).missed < MAX_MISSED_KEEPALIVES,
    {
        self.missed = self.missed + 1;
        if self.missed >= MAX_MISSED_KEEPALIVES {
            KeepaliveStep::Timeout
        } else {
            KeepaliveStep::Wait
        }
    }
}

/// The count after `n` ticks of an active session without sign of life, from `missed`.
pub open spec fn missed_after_silent_ticks(missed: u32, n: nat) -> u32
    decreases n,
{
    if n == 0 {
        missed
    } else {
        spec_keepalive_tick(missed_after_silent_ticks(missed, (n - 1) as nat), SessionState::Active, false).0
    }
}

/// From a fresh monitor, an active session without sign of life keeps being
/// sent keepalives for two intervals and times out on the third.
pub proof fn lemma_timeout_on_third_silent_tick()
    ensures
        spec_keepalive_tick(0, SessionState::Active, false).1 == KeepaliveStep::SendKeepalive,
        spec_keepalive_tick(missed_after_silent_ticks(0, 1), SessionState::Active, false).1 == KeepaliveStep::SendKeepalive,
        spec_keepalive_tick(missed_after_silent_ticks(0, 2), SessionState::Active, false).1 == KeepaliveStep::Timeout,
{
    reveal_with_fuel(missed_after_silent_ticks, 3);
}

/// An active session.
pub struct Session {
    config: SessionConfig,
    state: SessionState,
    channel_manager: ChannelManager,
    service_registry: ServiceRegistry,
    auth_manager: AuthManager,
    capability_negotiator: CapabilityNegotiator,
    event_tx: BroadcastTx<SessionEvent>,
    rx_sequence: u64,
    tx_sequence: u64,
    last_activity_ms: u64,
}

impl Session {
    /// The session's configuration.
    pub closed spec fn config_value(&self) -> SessionConfig {
        self.config
    }

    /// The session's state.
    pub closed spec fn state_value(&self) -> SessionState {
        self.state
    }

    /// The next sequence number to send.
    pub closed spec fn tx_seq(&self) -> u64 {
        self.tx_sequence
    }

    /// The sequence number expected next.
    pub closed spec fn rx_seq(&self) -> u64 {
        self.rx_sequence
    }

    /// Milliseconds since the Unix epoch of the last sign of life.
    pub closed spec fn last_activity(&self) -> u64 {
        self.last_activity_ms
    }

    /// The session's channels.
    pub closed spec fn channels(&self) -> ChannelManager {
        self.channel_manager
    }

    /// The session's services.
    pub closed spec fn services(&self) -> ServiceRegistry {
        self.service_registry
    }

    /// The session's authentication state.
    pub closed spec fn auth(&self) -> AuthManager {
        self.auth_manager
    }

    /// The session's capability negotiation.
    pub closed spec fn negotiator(&self) -> CapabilityNegotiator {
        self.capability_negotiator
    }

    /// Every event this session handed to the broadcast channel, in order.
    pub closed spec fn events_sent(&self) -> Seq<SessionEventView> {
        self.event_tx.sent().map_values(|e: SessionEvent| e@)
    }

    /// `self` differs from `other` at most in the state, the sequence numbers, the activity time and the events.
    pub open spec fn same_parts(&self, other: &Session) -> bool {
        &&& self.config_value() == other.config_value()
        &&& self.channels() == other.channels()
        &&& self.services() == other.services()
        &&& self.auth() == other.auth()
        &&& self.negotiator() == other.negotiator()
    }

    /// A session in the opening state with fresh channels, services,
    /// authentication and negotiation, and sequence numbers at 0.
    pub fn new(config: SessionConfig, event_tx: Sender<SessionEvent>) -> (r: Result<Self, ProtocolError>)
        ensures
            r matches Ok(s) && {
                &&& s.config_value() == config
                &&& s.state_value() == SessionState::Opening
                &&& s.tx_seq() == 0
                &&& s.rx_seq() == 0
                &&& s.channels().wf()
                &&& s.channels().channels().len() == 0
                &&& s.channels().next_id() == 1
                &&& s.services().wf()
                &&& s.services().entries().len() == 0
                &&& s.auth().wf()
                &&& s.auth().keys() is None
                &&& s.auth().psk_value() is None
                &&& s.negotiator().negotiated_set().len() == 0
                &&& s.events_sent().len() == 0
            },
    {
        let channel_manager = ChannelManager::new();
        let service_registry = ServiceRegistry::new();
        let auth_manager = AuthManager::new();
        let capability_negotiator = CapabilityNegotiator::new();
        let now = unix_millis();
        Ok(Session {
            config,
            state: SessionState::Opening,
            channel_manager,
            service_registry,
            auth_manager,
            capability_negotiator,
            event_tx: BroadcastTx::new(event_tx),
            rx_sequence: 0,
            tx_sequence: 0,
            last_activity_ms: now,
        })
    }

    /// The session's configuration.
    pub fn config(&self) -> (r: &SessionConfig)
        ensures
            *r == self.config_value(),
    {
        &self.config
    }

    /// The session's state.
    pub fn state(&self) -> (r: SessionState)
        ensures
            r == self.state_value(),
    {
        self.state
    }

    /// Moves the session to `state`.
    pub fn set_state(&mut self, state: SessionState)
        ensures
            final(self).state_value() == state,
            final(self).same_parts(old(self)),
            final(self).tx_seq() == old(self).tx_seq(),
            final(self).rx_seq() == old(self).rx_seq(),
            final(self).last_activity() == old(self).last_activity(),
            final(self).events_sent() == old(self).events_sent(),
    {
        self.state = state;
    }

    /// The session's channels.
    pub fn channel_manager(&self) -> (r: &ChannelManager)
        ensures
            *r == self.channels(),
    {
        &self.channel_manager
    }

    /// The session's services.
    pub fn service_registry(&self) -> (r: &ServiceRegistry)
        ensures
            *r == self.services(),
    {
        &self.service_registry
    }

    /// The session's authentication state.
    pub fn auth_manager(&self) -> (r: &AuthManager)
        ensures
            *r == self.auth(),
    {
        &self.auth_manager
    }

    /// The session's capability negotiation.
    pub fn capability_negotiator(&self) -> (r: &CapabilityNegotiator)
        ensures
            *r == self.negotiator(),
    {
        &self.capability_negotiator
    }

    /// Returns the next sequence number to send and advances it, wrapping at `u64::MAX`.
    pub fn next_tx_sequence(&mut self) -> (r: u64)
        ensures
            r == old(self).tx_seq(),
            final(self).tx_seq() == (if old(self).tx_seq() == u64::MAX { 0 } else { (old(self).tx_seq() + 1) as u64 }),
            final(self).same_parts(old(self)),
            final(self).state_value() == old(self).state_value(),
            final(self).rx_seq() == old(self).rx_seq(),
            final(self).last_activity() == old(self).last_activity(),
            final(self).events_sent() == old(self).events_sent(),
    {
        let current = self.tx_sequence;
        self.tx_sequence = self.tx_sequence.wrapping_add(1);
        current
    }

    /// The sequence number expected next.
    pub fn rx_sequence(&self) -> (r: u64)
        ensures
            r == self.rx_seq(),
    {
        self.rx_sequence
    }

    /// Sets the sequence number expected next (on reconnection).
    pub fn set_rx_sequence(&mut self, seq: u64)
        ensures
            final(self).rx_seq() == seq,
            final(self).same_parts(old(self)),
            final(self).state_value() == old(self).state_value(),
            final(self).tx_seq() == old(self).tx_seq(),
            final(self).last_activity() == old(self).last_activity(),
            final(self).events_sent() == old(self).events_sent(),
    {
        self.rx_sequence = seq;
    }

    /// Records a sign of life at time `now_ms`.
    pub fn touch_at(&mut self, now_ms: u64)
        ensures
            final(self).last_activity() == now_ms,
            final(self).same_parts(old(self)),
            final(self).state_value() == old(self).state_value(),
            final(self).tx_seq() == old(self).tx_seq(),
            final(self).rx_seq() == old(self).rx_seq(),
            final(self).events_sent() == old(self).events_sent(),
    {
        self.last_activity_ms = now_ms;
    }

    /// Records a sign of life now.
    pub fn touch(&mut self)
        ensures
            final(self).same_parts(old(self)),
            final(self).state_value() == old(self).state_value(),
            final(self).tx_seq() == old(self).tx_seq(),
            final(self).rx_seq() == old(self).rx_seq(),
            final(self).events_sent() == old(self).events_sent(),
    {
        let now = unix_millis();
        self.touch_at(now);
    }

    /// Whether less than the session timeout has passed since the last sign of life, at time `now_ms`.
    pub fn is_alive_at(&self, now_ms: u64) -> (r: bool)
        ensures
            r == (elapsed_ms(self.last_activity(), now_ms) < self.config_value().session_timeout_ms),
    {
        let elapsed = now_ms.saturating_sub(self.last_activity_ms);
        elapsed < self.config.session_timeout_ms
    }

    /// Whether less than the session timeout has passed since the last sign of life.
    pub fn is_alive(&self) -> (r: bool)
        ensures
            exists|now: u64| r == (elapsed_ms(self.last_activity(), now) < self.config_value().session_timeout_ms),
    {
        let now = unix_millis();
        self.is_alive_at(now)
    }

    /// Broadcasts an event about this session.
    fn emit(&mut self, event_type: SessionEventType, message: String)
        ensures
            final(self).same_parts(old(self)),
            final(self).state_value() == old(self).state_value(),
            final(self).tx_seq() == old(self).tx_seq(),
            final(self).rx_seq() == old(self).rx_seq(),
            final(self).last_activity() == old(self).last_activity(),
            final(self).events_sent() == old(self).events_sent().push(SessionEventView {
                session_id: old(self).config_value().session_id.value@,
                event_type,
                message: message@,
                details: Seq::empty(),
            }),
    {
        let now = unix_millis();
        let event = SessionEvent {
            session_id: self.config.session_id.clone(),
            event_type,
            timestamp_ms: now,
            message,
            details: Vec::new(),
        };
        let ghost before = self.event_tx.sent();
        let ghost ev = event;
        broadcast_send(&mut self.event_tx, event);
        assert(self.event_tx.sent().map_values(|e: SessionEvent| e@) =~= before.map_values(
            |e: SessionEvent| e@,
        ).push(ev@));
    }

    /// Prepares a keepalive: takes the next sequence number to send.
    pub fn send_keepalive(&mut self) -> (r: Result<(), ProtocolError>)
        ensures
            r is Ok,
            final(self).tx_seq() == (if old(self).tx_seq() == u64::MAX { 0 } else { (old(self).tx_seq() + 1) as u64 }),
            final(self).same_parts(old(self)),
            final(self).state_value() == old(self).state_value(),
            final(self).rx_seq() == old(self).rx_seq(),
            final(self).last_activity() == old(self).last_activity(),
            final(self).events_sent() == old(self).events_sent(),
    {
        let _sequence = self.next_tx_sequence();
        let _timestamp = unix_millis();
        Ok(())
    }

    /// Times the session out: it moves to closing and a keepalive-timeout event is broadcast.
    pub fn handle_timeout(&mut self)
        ensures
            final(self).state_value() == SessionState::Closing,
            final(self).same_parts(old(self)),
            final(self).tx_seq() == old(self).tx_seq(),
            final(self).rx_seq() == old(self).rx_seq(),
            final(self).last_activity() == old(self).last_activity(),
            final(self).events_sent() == old(self).events_sent().push(SessionEventView {
                session_id: old(self).config_value().session_id.value@,
                event_type: SessionEventType::SessionEventKeepaliveTimeout,
                message: "Keepalive timeout"@,
                details: Seq::empty(),
            }),
    {
        self.set_state(SessionState::Closing);
        self.emit(SessionEventType::SessionEventKeepaliveTimeout, "Keepalive timeout".to_string());
    }

    /// A keepalive answer arrived at time `now_ms`: a sign of life.
    pub fn handle_keepalive_response_at(&mut self, rtt_ms: u64, now_ms: u64)
        ensures
            final(self).last_activity() == now_ms,
            final(self).same_parts(old(self)),
            final(self).state_value() == old(self).state_value(),
            final(self).tx_seq() == old(self).tx_seq(),
            final(self).rx_seq() == old(self).rx_seq(),
            final(self).events_sent() == old(self).events_sent(),
    {
        self.touch_at(now_ms);
    }

    /// A keepalive answer arrived: a sign of life.
    pub fn handle_keepalive_response(&mut self, rtt_ms: u64)
        ensures
            final(self).same_parts(old(self)),
            final(self).state_value() == old(self).state_value(),
            final(self).tx_seq() == old(self).tx_seq(),
            final(self).rx_seq() == old(self).rx_seq(),
            final(self).events_sent() == old(self).events_sent(),
    {
        self.touch();
    }

    /// Closes the session: it moves to closing and a closed event with `message` is broadcast.
    pub fn close(&mut self, reason: ResultCode, message: String)
        ensures
            final(self).state_value() == SessionState::Closing,
            final(self).same_parts(old(self)),
            final(self).tx_seq() == old(self).tx_seq(),
            final(self).rx_seq() == old(self).rx_seq(),
            final(self).last_activity() == old(self).last_activity(),
            final(self).events_sent() == old(self).events_sent().push(SessionEventView {
                session_id: old(self).config_value().session_id.value@,
                event_type: SessionEventType::SessionEventClosed,
                message: message@,
                details: Seq::empty(),
            }),
    {
        self.set_state(SessionState::Closing);
        self.emit(SessionEventType::SessionEventClosed, message);
    }
}

/// The identifier bytes of a session.
pub open spec fn session_key(s: Session) -> Seq<u8> {
    s.config_value().session_id.value@
}

/// Matches the sessions with identifier `id`.
pub open spec fn session_pred(s: Seq<Session>, id: Seq<u8>) -> spec_fn(int) -> bool {
    |i: int| session_key(s[i]) == id
}

/// Index of the session with identifier `id`, or -1.
pub open spec fn find_session(s: Seq<Session>, id: Seq<u8>) -> int {
    first_where(session_pred(s, id), s.len() as int)
}

/// One session per identifier.
pub open spec fn sessions_wf(s: Seq<Session>) -> bool {
    forall|i: int, j: int| 0 <= i < j < s.len() ==> session_key(#[trigger] s[i]) != session_key(#[trigger] s[j])
}

/// The sessions of this device.
pub struct SessionManager {
    sessions: Vec<Session>,
    config: SessionManagerConfig,
    event_tx: BroadcastTx<SessionEvent>,
    codec: FrameCodec,
}

impl SessionManager {
    /// The sessions, in creation order.
    pub closed spec fn sessions(&self) -> Seq<Session> {
        self.sessions@
    }

    /// The manager's configuration.
    pub closed spec fn config_value(&self) -> SessionManagerConfig {
        self.config
    }

    /// Every event the manager handed to the broadcast channel, in order.
    pub closed spec fn events_sent(&self) -> Seq<SessionEventView> {
        self.event_tx.sent().map_values(|e: SessionEvent| e@)
    }

    /// The manager's invariant.
    pub open spec fn wf(&self) -> bool {
        sessions_wf(self.sessions())
    }

    /// A manager without sessions, and a receiver of its events.
    pub fn new(config: SessionManagerConfig) -> (r: (Self, Receiver<SessionEvent>))
        ensures
            r.0.wf(),
            r.0.sessions().len() == 0,
            r.0.config_value() == config,
            r.0.events_sent().len() == 0,
    {
        let (event_tx, event_rx) = broadcast_channel(SESSION_EVENT_CAPACITY);
        let manager = SessionManager {
            sessions: Vec::new(),
            config,
            event_tx,
            codec: FrameCodec::default(),
        };
        assert(manager.events_sent() =~= Seq::<SessionEventView>::empty());
        (manager, event_rx)
    }

    /// Index of the session with identifier `id`.
    fn position(&self, id: &[u8]) -> (r: Option<usize>)
        ensures
            match r {
                Some(i) => i == find_session(self.sessions(), id@) && i < self.sessions().len(),
                None => find_session(self.sessions(), id@) == -1,
            },
    {
        let ghost s = self.sessions();
        let ghost pred = session_pred(s, id@);
        let mut i: usize = 0;
        while i < self.sessions.len()
            invariant
                i <= self.sessions@.len(),
                s == self.sessions(),
                pred == session_pred(s, id@),
                first_where(pred, i as int) == -1,
            decreases self.sessions@.len() - i,
        {
            proof {
                lemma_first_where_step(pred, i as int);
            }
            if bytes_equal(self.sessions[i].config.session_id.value.as_slice(), id) {
                proof {
                    assert(pred(i as int));
                    lemma_first_where_extend(pred, i as int + 1, s.len() as int);
                }
                return Some(i);
            }
            i = i + 1;
        }
        None
    }

    /// Opens an outbound session between two devices under a fresh random
    /// 16-byte identifier, and broadcasts that it opened. Returns the identifier.
    pub fn create_session(&mut self, local_device_id: DeviceId, remote_device_id: DeviceId, local_capabilities: CapabilitySet) -> (r: Result<SessionId, ProtocolError>)
        requires
            old(self).wf(),
        ensures
            final(self).wf(),
            final(self).config_value() == old(self).config_value(),
            r matches Ok(id) && {
                let i = find_session(final(self).sessions(), id.value@);
                let s = final(self).sessions()[i];
                &&& id.value@.len() == 16
                &&& 0 <= i < final(self).sessions().len()
                &&& s.state_value() == SessionState::Opening
                &&& s.tx_seq() == 0 && s.rx_seq() == 0
                &&& config_defaults(s.config_value())
                &&& s.config_value().local_device_id.value@ == local_device_id.value@
                &&& s.config_value().remote_device_id.value@ == remote_device_id.value@
                &&& s.config_value().keepalive_interval_ms == old(self).config_value().keepalive_interval_ms
                &&& s.config_value().session_timeout_ms == old(self).config_value().session_timeout_ms
                &&& forall|j: int| 0 <= j < old(self).sessions().len() && session_key(old(self).sessions()[j]) != id.value@
                        ==> final(self).sessions().contains(#[trigger] old(self).sessions()[j])
                &&& final(self).events_sent() == old(self).events_sent().push(SessionEventView {
                        session_id: id.value@,
                        event_type: SessionEventType::SessionEventOpened,
                        message: "Session opened"@,
                        details: Seq::empty(),
                    })
            },
    {
        let mut id_bytes = [0u8; 16];
        fill_random(&mut id_bytes);
        let session_id = SessionId { value: clone_bytes(id_bytes.as_slice()) };
        let now = unix_millis();
        let config = SessionConfig {
            protocol_version: ProtocolVersion { major: 1, minor: 0, patch: 0 },
            local_device_id: local_device_id.clone(),
            remote_device_id: remote_device_id.clone(),
            session_id: session_id.clone(),
            negotiated_capabilities: Vec::new(),
            capability_versions: HashMap::new(),
            max_channels: MAX_CHANNELS,
            max_frame_size: 16384,
            keepalive_interval_ms: self.config.keepalive_interval_ms,
            session_timeout_ms: self.config.session_timeout_ms,
            session_keys: SessionKeys::default(),
            established_at_ms: now,
            last_activity_ms: now,
        };
        let sender = broadcast_sender_clone(&self.event_tx);
        let session = match Session::new(config, sender) {
            Ok(s) => s,
            Err(e) => {
                return Err(e);
            },
        };
        let ghost sv = session;
        let ghost old_sessions = self.sessions();
        match self.position(session_id.value.as_slice()) {
            Some(i) => {
                self.sessions.set(i, session);
                proof {
                    let t = self.sessions();
                    lemma_first_where(session_pred(old_sessions, session_id.value@), old_sessions.len() as int);
                    assert(t == old_sessions.update(i as int, sv));
                    assert forall|a: int, b: int| 0 <= a < b < t.len() implies session_key(#[trigger] t[a]) != session_key(#[trigger] t[b]) by {
                        assert(session_key(t[a]) == session_key(old_sessions[a]));
                        assert(session_key(t[b]) == session_key(old_sessions[b]));
                    }
                    lemma_first_where_congruent_sessions(old_sessions, t, session_id.value@);
                    assert forall|j: int| 0 <= j < old_sessions.len() && session_key(old_sessions[j]) != session_id.value@
                        implies t.contains(#[trigger] old_sessions[j]) by {
                        assert(j != i);
                        assert(t[j] == old_sessions[j]);
                    }
                }
            },
            None => {
                self.sessions.push(session);
                proof {
                    let t = self.sessions();
                    lemma_first_where(session_pred(old_sessions, session_id.value@), old_sessions.len() as int);
                    assert(t == old_sessions.push(sv));
                    assert forall|a: int, b: int| 0 <= a < b < t.len() implies session_key(#[trigger] t[a]) != session_key(#[trigger] t[b]) by {
                        if b < old_sessions.len() {
                            assert(t[a] == old_sessions[a] && t[b] == old_sessions[b]);
                        } else {
                            assert(t[a] == old_sessions[a]);
                            assert(!session_pred(old_sessions, session_id.value@)(a));
                        }
                    }
                    let pt = session_pred(t, session_id.value@);
                    lemma_first_where_congruent_prefix(old_sessions, t, session_id.value@);
                    lemma_first_where_step(pt, old_sessions.len() as int);
                    assert(pt(old_sessions.len() as int));
                    assert forall|j: int| 0 <= j < old_sessions.len() && session_key(old_sessions[j]) != session_id.value@
                        implies t.contains(#[trigger] old_sessions[j]) by {
                        assert(t[j] == old_sessions[j]);
                    }
                }
            },
        }
        let event = SessionEvent {
            session_id: session_id.clone(),
            event_type: SessionEventType::SessionEventOpened,
            timestamp_ms: unix_millis(),
            message: "Session opened".to_string(),
            details: Vec::new(),
        };
        let ghost before = self.event_tx.sent();
        let ghost ev = event;
        broadcast_send(&mut self.event_tx, event);
        assert(self.event_tx.sent().map_values(|e: SessionEvent| e@) =~= before.map_values(
            |e: SessionEvent| e@,
        ).push(ev@));
        Ok(session_id)
    }

    /// The session with identifier `session_id`.
    pub fn get_session(&self, session_id: &SessionId) -> (r: Option<&Session>)
        ensures
            ({
                let i = find_session(self.sessions(), session_id.value@);
                if i >= 0 {
                    r matches Some(s) && *s == self.sessions()[i]
                } else {
                    r is None
                }
            }),
    {
        match self.position(session_id.value.as_slice()) {
            Some(i) => Some(&self.sessions[i]),
            None => None,
        }
    }

    /// Removes the session with identifier `session_id` and hands it back.
    pub fn remove_session(&mut self, session_id: &SessionId) -> (r: Option<Session>)
        requires
            old(self).wf(),
        ensures
            final(self).wf(),
            final(self).config_value() == old(self).config_value(),
            final(self).events_sent() == old(self).events_sent(),
            ({
                let i = find_session(old(self).sessions(), session_id.value@);
                if i >= 0 {
                    r == Some(old(self).sessions()[i]) && final(self).sessions() == old(self).sessions().remove(i)
                } else {
                    r is None && final(self).sessions() == old(self).sessions()
                }
            }),
    {
        let ghost s = self.sessions();
        match self.position(session_id.value.as_slice()) {
            Some(i) => {
                let removed = self.sessions.remove(i);
                proof {
                    let t = self.sessions();
                    assert forall|a: int, b: int| 0 <= a < b < t.len() implies session_key(#[trigger] t[a]) != session_key(#[trigger] t[b]) by {
                        let a0 = if a < i { a } else { a + 1 };
                        let b0 = if b < i { b } else { b + 1 };
                        assert(t[a] == s[a0] && t[b] == s[b0]);
                    }
                }
                Some(removed)
            },
            None => None,
        }
    }

    /// The sessions.
    pub fn list_sessions(&self) -> (r: Vec<&Session>)
        ensures
            r@.len() == self.sessions().len(),
            forall|i: int| 0 <= i < r@.len() ==> *(#[trigger] r@[i]) == self.sessions()[i],
    {
        let mut r: Vec<&Session> = Vec::new();
        let mut i: usize = 0;
        while i < self.sessions.len()
            invariant
                i <= self.sessions@.len(),
                r@.len() == i,
                forall|j: int| 0 <= j < i ==> *(#[trigger] r@[j]) == self.sessions()[j],
            decreases self.sessions@.len() - i,
        {
            r.push(&self.sessions[i]);
            i = i + 1;
        }
        r
    }

    /// A new receiver of the events broadcast from now on.
    pub fn subscribe(&self) -> Receiver<SessionEvent> {
        broadcast_subscribe(&self.event_tx)
    }
}

/// Replacing a session by one with the same identifier keeps every search result.
proof fn lemma_first_where_congruent_sessions(s: Seq<Session>, t: Seq<Session>, id: Seq<u8>)
    requires
        s.len() == t.len(),
        forall|i: int| 0 <= i < s.len() ==> session_key(#[trigger] t[i]) == session_key(s[i]),
    ensures
        find_session(t, id) == find_session(s, id),
{
    crate::search::lemma_first_where_congruent(session_pred(s, id), session_pred(t, id), s.len() as int);
}

/// Appending a session keeps the search over the earlier ones.
proof fn lemma_first_where_congruent_prefix(s: Seq<Session>, t: Seq<Session>, id: Seq<u8>)
    requires
        s.len() < t.len(),
        forall|i: int| 0 <= i < s.len() ==> #[trigger] t[i] == s[i],
    ensures
        first_where(session_pred(t, id), s.len() as int) == first_where(session_pred(s, id), s.len() as int),
{
    crate::search::lemma_first_where_congruent(session_pred(s, id), session_pred(t, id), s.len() as int);
}

/// A sign of life resets the count: the session is sent a keepalive and has missed nothing.
pub proof fn lemma_alive_tick_resets(missed: u32)
    ensures
        spec_keepalive_tick(missed, SessionState::Active, true) == (0u32, KeepaliveStep::SendKeepalive),
{
}

} // verus!
