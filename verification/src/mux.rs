//! Logical channels over one link, with window-based flow control.

use vstd::prelude::*;

use tokio::sync::mpsc::Sender;

use crate::channels::try_send;
use crate::error::ProtocolError;
use crate::pb::{ChannelConfig, ChannelId, ChannelPriority, ChannelType, FlowControlUpdate};
use crate::search::{first_where, lemma_first_where, lemma_first_where_extend, lemma_first_where_step};
use crate::text::{decimal_text, push_decimal_text};
use crate::{DEFAULT_WINDOW_SIZE, MAX_CHANNELS};

verus! {

broadcast use vstd::string::group_string_axioms;

/// Channel states.
#[derive(Debug, Clone, Copy, PartialEq, Eq, Structural)]
pub enum ChannelState {
    Closed,
    Opening,
    Open,
    Closing,
    Error,
}

/// A logical channel with its flow-control windows and counters.
#[derive(Debug)]
pub struct Channel {
    pub config: ChannelConfig,
    pub state: ChannelState,
    pub send_window: u32,
    pub recv_window: u32,
    pub send_window_used: u32,
    pub recv_window_used: u32,
    pub frames_sent: u64,
    pub frames_received: u64,
    pub bytes_sent: u64,
    pub bytes_received: u64,
    pub retransmissions: u64,
    pub errors: u64,
    pub tx_sender: Option<Sender<Vec<u8>>>,
}

/// `c` is `old` with only the fields the caller names changed: the
/// configuration, the state and the sender stay.
pub open spec fn same_identity(c: Channel, old: Channel) -> bool {
    &&& c.config == old.config
    &&& c.state == old.state
    &&& c.tx_sender == old.tx_sender
}

/// `c` keeps all counters of `old`.
pub open spec fn same_counters(c: Channel, old: Channel) -> bool {
    &&& c.frames_sent == old.frames_sent
    &&& c.frames_received == old.frames_received
    &&& c.bytes_sent == old.bytes_sent
    &&& c.bytes_received == old.bytes_received
    &&& c.retransmissions == old.retransmissions
    &&& c.errors == old.errors
}

/// `c` keeps all windows of `old`.
pub open spec fn same_windows(c: Channel, old: Channel) -> bool {
    &&& c.send_window == old.send_window
    &&& c.recv_window == old.recv_window
    &&& c.send_window_used == old.send_window_used
    &&& c.recv_window_used == old.recv_window_used
}

/// Whether a frame of `size` bytes fits the send window of `c`.
pub open spec fn window_fits(c: Channel, size: u32) -> bool {
    c.send_window_used + size <= c.send_window
}

impl Channel {
    /// A closed channel with the windows of its configuration and zero counters.
    pub fn new(config: ChannelConfig) -> (r: Self)
        ensures
            r.send_window == config.send_window,
            r.recv_window == config.receive_window,
            r.config == config,
            r.state == ChannelState::Closed,
            r.send_window_used == 0,
            r.recv_window_used == 0,
            r.frames_sent == 0,
            r.frames_received == 0,
            r.bytes_sent == 0,
            r.bytes_received == 0,
            r.retransmissions == 0,
            r.errors == 0,
            r.tx_sender is None,
    {
        Channel {
            send_window: config.send_window,
            recv_window: config.receive_window,
            send_window_used: 0,
            recv_window_used: 0,
            frames_sent: 0,
            frames_received: 0,
            bytes_sent: 0,
            bytes_received: 0,
            retransmissions: 0,
            errors: 0,
            tx_sender: None,
            config,
            state: ChannelState::Closed,
        }
    }

    /// Whether the channel is open and a frame of `frame_size` bytes fits its send window.
    pub fn can_send(&self, frame_size: u32) -> (r: bool)
        requires
            self.send_window_used + frame_size <= u32::MAX,
        ensures
            r == (self.state == ChannelState::Open && window_fits(*self, frame_size)),
    {
        self.state == ChannelState::Open && self.send_window_used + frame_size <= self.send_window
    }

    /// Takes `size` bytes of the send window, or fails when they do not fit.
    pub fn reserve_window(&mut self, size: u32) -> (r: Result<(), ProtocolError>)
        requires
            old(self).send_window_used + size <= u32::MAX,
        ensures
            same_identity(*final(self), *old(self)),
            same_counters(*final(self), *old(self)),
            final(self).send_window == old(self).send_window,
            final(self).recv_window == old(self).recv_window,
            final(self).recv_window_used == old(self).recv_window_used,
            window_fits(*old(self), size) ==> r is Ok && final(self).send_window_used == old(self).send_window_used + size,
            !window_fits(*old(self), size) ==> r == Err::<(), ProtocolError>(ProtocolError::ChannelWindowExhausted { channel_id: old(self).config.channel_id.value })
                && final(self).send_window_used == old(self).send_window_used,
    {
        if self.send_window_used + size > self.send_window {
            return Err(ProtocolError::ChannelWindowExhausted { channel_id: self.config.channel_id.value });
        }
        self.send_window_used = self.send_window_used + size;
        Ok(())
    }

    /// Gives back `size` bytes of the send window, down to zero.
    pub fn release_window(&mut self, size: u32)
        ensures
            same_identity(*final(self), *old(self)),
            same_counters(*final(self), *old(self)),
            final(self).send_window == old(self).send_window,
            final(self).recv_window == old(self).recv_window,
            final(self).recv_window_used == old(self).recv_window_used,
            final(self).send_window_used == (if old(self).send_window_used >= size { old(self).send_window_used - size } else { 0 }),
    {
        self.send_window_used = self.send_window_used.saturating_sub(size);
    }

    /// Grows the send window by `increment`, up to `u32::MAX`.
    pub fn update_send_window(&mut self, increment: u32)
        ensures
            same_identity(*final(self), *old(self)),
            same_counters(*final(self), *old(self)),
            final(self).send_window == (if old(self).send_window + increment <= u32::MAX { (old(self).send_window + increment) as u32 } else { u32::MAX }),
            final(self).recv_window == old(self).recv_window,
            final(self).send_window_used == old(self).send_window_used,
            final(self).recv_window_used == old(self).recv_window_used,
    {
        self.send_window = self.send_window.saturating_add(increment);
    }

    /// Grows the receive window by `increment`, up to `u32::MAX`.
    pub fn update_recv_window(&mut self, increment: u32)
        ensures
            same_identity(*final(self), *old(self)),
            same_counters(*final(self), *old(self)),
            final(self).recv_window == (if old(self).recv_window + increment <= u32::MAX { (old(self).recv_window + increment) as u32 } else { u32::MAX }),
            final(self).send_window == old(self).send_window,
            final(self).send_window_used == old(self).send_window_used,
            final(self).recv_window_used == old(self).recv_window_used,
    {
        self.recv_window = self.recv_window.saturating_add(increment);
    }

    /// Counts a sent frame of `size` bytes.
    pub fn record_sent(&mut self, size: u32)
        requires
            old(self).frames_sent < u64::MAX,
            old(self).bytes_sent + size <= u64::MAX,
        ensures
            same_identity(*final(self), *old(self)),
            same_windows(*final(self), *old(self)),
            final(self).frames_sent == old(self).frames_sent + 1,
            final(self).bytes_sent == old(self).bytes_sent + size,
            final(self).frames_received == old(self).frames_received,
            final(self).bytes_received == old(self).bytes_received,
            final(self).retransmissions == old(self).retransmissions,
            final(self).errors == old(self).errors,
    {
        self.frames_sent = self.frames_sent + 1;
        self.bytes_sent = self.bytes_sent + size as u64;
    }

    /// Counts a received frame of `size` bytes.
    pub fn record_received(&mut self, size: u32)
        requires
            old(self).frames_received < u64::MAX,
            old(self).bytes_received + size <= u64::MAX,
        ensures
            same_identity(*final(self), *old(self)),
            same_windows(*final(self), *old(self)),
            final(self).frames_received == old(self).frames_received + 1,
            final(self).bytes_received == old(self).bytes_received + size,
            final(self).frames_sent == old(self).frames_sent,
            final(self).bytes_sent == old(self).bytes_sent,
            final(self).retransmissions == old(self).retransmissions,
            final(self).errors == old(self).errors,
    {
        self.frames_received = self.frames_received + 1;
        self.bytes_received = self.bytes_received + size as u64;
    }

    /// Counts a retransmission.
    pub fn record_retransmission(&mut self)
        requires
            old(self).retransmissions < u64::MAX,
        ensures
            same_identity(*final(self), *old(self)),
            same_windows(*final(self), *old(self)),
            final(self).retransmissions == old(self).retransmissions + 1,
            final(self).frames_sent == old(self).frames_sent,
            final(self).bytes_sent == old(self).bytes_sent,
            final(self).frames_received == old(self).frames_received,
            final(self).bytes_received == old(self).bytes_received,
            final(self).errors == old(self).errors,
    {
        self.retransmissions = self.retransmissions + 1;
    }

    /// Counts an error.
    pub fn record_error(&mut self)
        requires
            old(self).errors < u64::MAX,
        ensures
            same_identity(*final(self), *old(self)),
            same_windows(*final(self), *old(self)),
            final(self).errors == old(self).errors + 1,
            final(self).frames_sent == old(self).frames_sent,
            final(self).bytes_sent == old(self).bytes_sent,
            final(self).frames_received == old(self).frames_received,
            final(self).bytes_received == old(self).bytes_received,
            final(self).retransmissions == old(self).retransmissions,
    {
        self.errors = self.errors + 1;
    }
}

/// Reserving a window that fits and releasing it again leaves the window as it was.
pub proof fn lemma_reserve_release(used: u32, window: u32, size: u32)
    requires
        used + size <= window,
    ensures
        ({
            let reserved = (used + size) as u32;
            (if reserved >= size { reserved - size } else { 0 }) == used
        }),
{
}

/// Channel events.
#[derive(Debug)]
pub enum ChannelEvent {
    Opened(u32),
    Closed(u32),
    /// Channel id and its new send window.
    FlowControl(u32, u32),
    Error(u32, String),
}

/// The mathematical value of a channel event.
pub enum ChannelEventView {
    Opened(u32),
    Closed(u32),
    FlowControl(u32, u32),
    Error(u32, Seq<char>),
}

impl View for ChannelEvent {
    type V = ChannelEventView;

    open spec fn view(&self) -> ChannelEventView {
        match self {
            ChannelEvent::Opened(id) => ChannelEventView::Opened(*id),
            ChannelEvent::Closed(id) => ChannelEventView::Closed(*id),
            ChannelEvent::FlowControl(id, w) => ChannelEventView::FlowControl(*id, *w),
            ChannelEvent::Error(id, m) => ChannelEventView::Error(*id, m@),
        }
    }
}

/// Identifier of a channel.
pub open spec fn channel_id_of(c: Channel) -> u32 {
    c.config.channel_id.value
}

/// Matches the channels with identifier `id`.
pub open spec fn channel_pred(s: Seq<Channel>, id: u32) -> spec_fn(int) -> bool {
    |i: int| channel_id_of(s[i]) == id
}

/// Index of the channel with identifier `id`, or -1.
pub open spec fn find_channel_index(s: Seq<Channel>, id: u32) -> int {
    first_where(channel_pred(s, id), s.len() as int)
}

/// One channel per identifier, every identifier below the channel limit.
pub open spec fn channels_wf(s: Seq<Channel>) -> bool {
    &&& forall|i: int, j: int| 0 <= i < j < s.len() ==> channel_id_of(#[trigger] s[i]) != channel_id_of(#[trigger] s[j])
    &&& forall|i: int| 0 <= i < s.len() ==> channel_id_of(#[trigger] s[i]) < MAX_CHANNELS
}

/// The identifier `open_channel` gives a channel configured with `requested`
/// when the next free identifier is `next`: the requested one, or `next` when 0 is requested.
pub open spec fn assigned_channel_id(requested: u32, next: u32) -> u32 {
    if requested == 0 { next } else { requested }
}

/// A channel opened under an identifier not in use is then found under that
/// identifier, as the channel that was added.
pub proof fn lemma_open_then_find(s: Seq<Channel>, c: Channel)
    requires
        channels_wf(s),
        find_channel_index(s, channel_id_of(c)) == -1,
    ensures
        find_channel_index(s.push(c), channel_id_of(c)) == s.len(),
        s.push(c)[s.len() as int] == c,
{
    let id = channel_id_of(c);
    lemma_first_where(channel_pred(s, id), s.len() as int);
    crate::search::lemma_first_where_congruent(channel_pred(s, id), channel_pred(s.push(c), id), s.len() as int);
    lemma_first_where_step(channel_pred(s.push(c), id), s.len() as int);
}

/// After a channel is closed no channel is found under its identifier.
pub proof fn lemma_close_then_missing(s: Seq<Channel>, id: u32)
    requires
        channels_wf(s),
    ensures
        find_channel_index(s, id) >= 0 ==> find_channel_index(s.remove(find_channel_index(s, id)), id) == -1,
{
    let i = find_channel_index(s, id);
    lemma_first_where(channel_pred(s, id), s.len() as int);
    if i >= 0 {
        let t = s.remove(i);
        lemma_first_where(channel_pred(t, id), t.len() as int);
        if find_channel_index(t, id) >= 0 {
            let k = find_channel_index(t, id);
            let k2 = if k < i { k } else { k + 1 };
            assert(t[k] == s[k2]);
        }
    }
}

/// The message of a refused duplicate channel.
pub open spec fn duplicate_channel_message(id: u32) -> Seq<char> {
    "Channel "@ + decimal_text(id as nat) + " already exists"@
}

/// Sum of the frames sent by the first `n` channels.
pub open spec fn sum_frames_sent(s: Seq<Channel>, n: int) -> int
    decreases n,
{
    if n <= 0 { 0 } else { sum_frames_sent(s, n - 1) + s[n - 1].frames_sent }
}

/// Sum of the frames received by the first `n` channels.
pub open spec fn sum_frames_received(s: Seq<Channel>, n: int) -> int
    decreases n,
{
    if n <= 0 { 0 } else { sum_frames_received(s, n - 1) + s[n - 1].frames_received }
}

/// Sum of the bytes sent by the first `n` channels.
pub open spec fn sum_bytes_sent(s: Seq<Channel>, n: int) -> int
    decreases n,
{
    if n <= 0 { 0 } else { sum_bytes_sent(s, n - 1) + s[n - 1].bytes_sent }
}

/// Sum of the bytes received by the first `n` channels.
pub open spec fn sum_bytes_received(s: Seq<Channel>, n: int) -> int
    decreases n,
{
    if n <= 0 { 0 } else { sum_bytes_received(s, n - 1) + s[n - 1].bytes_received }
}

/// Statistics of one channel.
#[derive(Debug)]
pub struct ChannelStats {
    pub channel_id: u32,
    pub channel_type: ChannelType,
    pub priority: ChannelPriority,
    pub state: ChannelState,
    pub send_window: u32,
    pub send_window_used: u32,
    pub recv_window: u32,
    pub recv_window_used: u32,
    pub frames_sent: u64,
    pub frames_received: u64,
    pub bytes_sent: u64,
    pub bytes_received: u64,
    pub retransmissions: u64,
    pub errors: u64,
    pub service_id: String,
}

/// The statistics that describe channel `c`.
pub open spec fn stats_of(st: ChannelStats, c: Channel) -> bool {
    &&& st.channel_id == channel_id_of(c)
    &&& st.channel_type == c.config.channel_type
    &&& st.priority == c.config.priority
    &&& st.state == c.state
    &&& st.send_window == c.send_window
    &&& st.send_window_used == c.send_window_used
    &&& st.recv_window == c.recv_window
    &&& st.recv_window_used == c.recv_window_used
    &&& st.frames_sent == c.frames_sent
    &&& st.frames_received == c.frames_received
    &&& st.bytes_sent == c.bytes_sent
    &&& st.bytes_received == c.bytes_received
    &&& st.retransmissions == c.retransmissions
    &&& st.errors == c.errors
    &&& st.service_id@ == c.config.service_id@
}

/// The channels of one link.
pub struct ChannelManager {
    channels: Vec<Channel>,
    next_channel_id: u32,
    event_tx: Option<Sender<ChannelEvent>>,
    events_sent: Ghost<Seq<ChannelEventView>>,
}

impl ChannelManager {
    /// The open channels, in opening order.
    pub closed spec fn channels(&self) -> Seq<Channel> {
        self.channels@
    }

    /// The identifier the next channel opened with identifier 0 receives.
    pub closed spec fn next_id(&self) -> u32 {
        self.next_channel_id
    }

    /// Whether an event channel is set.
    pub closed spec fn has_event_sender(&self) -> bool {
        self.event_tx is Some
    }

    /// Every event handed to the event channel so far, in order.
    pub closed spec fn events_sent(&self) -> Seq<ChannelEventView> {
        self.events_sent@
    }

    /// The manager's invariant.
    pub open spec fn wf(&self) -> bool {
        channels_wf(self.channels())
    }

    /// The log after `e` is handed to the event channel, if one is set.
    pub open spec fn log_after(&self, e: ChannelEventView) -> Seq<ChannelEventView> {
        if self.has_event_sender() {
            self.events_sent().push(e)
        } else {
            self.events_sent()
        }
    }

    /// A manager without channels; channel 0 is the control channel, so the first identifier handed out is 1.
    pub fn new() -> (r: Self)
        ensures
            r.wf(),
            r.channels() == Seq::<Channel>::empty(),
            r.next_id() == 1,
            !r.has_event_sender(),
            r.events_sent() == Seq::<ChannelEventView>::empty(),
    {
        ChannelManager { channels: Vec::new(), next_channel_id: 1, event_tx: None, events_sent: Ghost(Seq::empty()) }
    }

    /// Sets the event channel.
    pub fn set_event_sender(&mut self, tx: Sender<ChannelEvent>)
        ensures
            final(self).channels() == old(self).channels(),
            final(self).next_id() == old(self).next_id(),
            final(self).has_event_sender(),
            final(self).events_sent() == old(self).events_sent(),
    {
        self.event_tx = Some(tx);
    }

    /// Hands an event to the event channel, if one is set.
    fn emit(&mut self, event: ChannelEvent)
        ensures
            final(self).channels() == old(self).channels(),
            final(self).next_id() == old(self).next_id(),
            final(self).has_event_sender() == old(self).has_event_sender(),
            final(self).events_sent() == old(self).log_after(event@),
    {
        match &self.event_tx {
            Some(tx) => {
                let ghost ev = event@;
                try_send(tx, event);
                self.events_sent = Ghost(self.events_sent@.push(ev));
            },
            None => {},
        }
    }

    /// Index of the channel with identifier `id`.
    fn position(&self, id: u32) -> (r: Option<usize>)
        ensures
            match r {
                Some(i) => i == find_channel_index(self.channels(), id) && i < self.channels().len(),
                None => find_channel_index(self.channels(), id) == -1,
            },
    {
        let ghost s = self.channels();
        let ghost pred = channel_pred(s, id);
        let mut i: usize = 0;
        while i < self.channels.len()
            invariant
                i <= self.channels@.len(),
                s == self.channels(),
                pred == channel_pred(s, id),
                first_where(pred, i as int) == -1,
            decreases self.channels@.len() - i,
        {
            proof {
                lemma_first_where_step(pred, i as int);
            }
            if self.channels[i].config.channel_id.value == id {
                proof {
                    assert(pred(i as int));
                    lemma_first_where_extend(pred, i as int + 1, s.len() as int);
                }
                return Some(i);
            }
            i = i + 1;
        }
        None
    }

    /// Opens a channel: with the identifier of its configuration, or the next
    /// free one when that is 0. Refuses identifiers at or above the channel
    /// limit and identifiers in use; returns the identifier.
    pub fn open_channel(&mut self, config: ChannelConfig) -> (r: Result<u32, ProtocolError>)
        requires
            old(self).wf(),
        ensures
            final(self).wf(),
            final(self).has_event_sender() == old(self).has_event_sender(),
            ({
                let id = assigned_channel_id(config.channel_id.value, old(self).next_id());
                if id >= MAX_CHANNELS {
                    &&& r matches Err(ProtocolError::InvalidArgument(m)) && m@ == "Maximum channels reached"@
                    &&& final(self).channels() == old(self).channels()
                    &&& final(self).next_id() == old(self).next_id()
                    &&& final(self).events_sent() == old(self).events_sent()
                } else if find_channel_index(old(self).channels(), id) >= 0 {
                    &&& r matches Err(ProtocolError::InvalidArgument(m)) && m@ == duplicate_channel_message(id)
                    &&& final(self).channels() == old(self).channels()
                    &&& final(self).next_id() == old(self).next_id()
                    &&& final(self).events_sent() == old(self).events_sent()
                } else {
                    &&& r == Ok::<u32, ProtocolError>(id)
                    &&& final(self).channels().len() == old(self).channels().len() + 1
                    &&& final(self).channels().drop_last() == old(self).channels()
                    &&& {
                        let c = final(self).channels().last();
                        &&& channel_id_of(c) == id
                        &&& c.config == (ChannelConfig { channel_id: ChannelId { value: id }, ..config })
                        &&& c.state == ChannelState::Closed
                        &&& c.send_window == config.send_window
                        &&& c.recv_window == config.receive_window
                        &&& c.send_window_used == 0 && c.recv_window_used == 0
                        &&& c.frames_sent == 0 && c.frames_received == 0 && c.bytes_sent == 0 && c.bytes_received == 0
                        &&& c.retransmissions == 0 && c.errors == 0
                        &&& c.tx_sender is None
                    }
                    &&& final(self).next_id() == (if id + 1 < MAX_CHANNELS { (id + 1) as u32 } else { MAX_CHANNELS })
                    &&& final(self).events_sent() == old(self).log_after(ChannelEventView::Opened(id))
                }
            }),
    {
        let mut config = config;
        let channel_id: u32 = if config.channel_id.value == 0 { self.next_channel_id } else { config.channel_id.value };
        if channel_id >= MAX_CHANNELS {
            return Err(ProtocolError::InvalidArgument("Maximum channels reached".to_string()));
        }
        if self.position(channel_id).is_some() {
            let mut m = "Channel ".to_string();
            push_decimal_text(&mut m, channel_id);
            m.append(" already exists");
            return Err(ProtocolError::InvalidArgument(m));
        }
        let ghost s = self.channels();
        proof {
            lemma_first_where(channel_pred(s, channel_id), s.len() as int);
        }
        config.channel_id = ChannelId { value: channel_id };
        let channel = Channel::new(config);
        self.channels.push(channel);
        proof {
            let t = self.channels();
            assert(t.drop_last() =~= s);
            assert forall|i: int, j: int| 0 <= i < j < t.len() implies channel_id_of(#[trigger] t[i]) != channel_id_of(#[trigger] t[j]) by {
                if j < s.len() {
                    assert(t[i] == s[i] && t[j] == s[j]);
                } else {
                    assert(t[i] == s[i]);
                    assert(!channel_pred(s, channel_id)(i));
                }
            }
            assert forall|i: int| 0 <= i < t.len() implies channel_id_of(#[trigger] t[i]) < MAX_CHANNELS by {
                if i < s.len() {
                    assert(t[i] == s[i]);
                }
            }
        }
        self.emit(ChannelEvent::Opened(channel_id));
        self.next_channel_id = if channel_id + 1 < MAX_CHANNELS { channel_id + 1 } else { MAX_CHANNELS };
        Ok(channel_id)
    }

    /// The channel with identifier `channel_id`.
    pub fn get_channel(&self, channel_id: u32) -> (r: Option<&Channel>)
        ensures
            ({
                let i = find_channel_index(self.channels(), channel_id);
                if i >= 0 {
                    r matches Some(c) && *c == self.channels()[i]
                } else {
                    r is None
                }
            }),
    {
        match self.position(channel_id) {
            Some(i) => Some(&self.channels[i]),
            None => None,
        }
    }

    /// Closes and removes the channel with identifier `channel_id`.
    pub fn close_channel(&mut self, channel_id: u32, reason: String) -> (r: Result<(), ProtocolError>)
        requires
            old(self).wf(),
        ensures
            final(self).wf(),
            final(self).next_id() == old(self).next_id(),
            final(self).has_event_sender() == old(self).has_event_sender(),
            ({
                let i = find_channel_index(old(self).channels(), channel_id);
                if i >= 0 {
                    &&& r is Ok
                    &&& final(self).channels() == old(self).channels().remove(i)
                    &&& final(self).events_sent() == old(self).log_after(ChannelEventView::Closed(channel_id))
                } else {
                    &&& r == Err::<(), ProtocolError>(ProtocolError::ChannelNotFound { channel_id })
                    &&& final(self).channels() == old(self).channels()
                    &&& final(self).events_sent() == old(self).events_sent()
                }
            }),
    {
        let ghost s = self.channels();
        match self.position(channel_id) {
            Some(i) => {
                let mut channel = self.channels.remove(i);
                channel.state = ChannelState::Closed;
                proof {
                    let t = self.channels();
                    assert(t =~= s.remove(i as int));
                    assert forall|a: int, b: int| 0 <= a < b < t.len() implies channel_id_of(#[trigger] t[a]) != channel_id_of(#[trigger] t[b]) by {
                        let a0 = if a < i { a } else { a + 1 };
                        let b0 = if b < i { b } else { b + 1 };
                        assert(t[a] == s[a0] && t[b] == s[b0]);
                    }
                    assert forall|a: int| 0 <= a < t.len() implies channel_id_of(#[trigger] t[a]) < MAX_CHANNELS by {
                        let a0 = if a < i { a } else { a + 1 };
                        assert(t[a] == s[a0]);
                    }
                }
                self.emit(ChannelEvent::Closed(channel_id));
                Ok(())
            },
            None => Err(ProtocolError::ChannelNotFound { channel_id }),
        }
    }

    /// Grows the send window of the channel named by `update`.
    pub fn handle_flow_control(&mut self, update: FlowControlUpdate) -> (r: Result<(), ProtocolError>)
        requires
            old(self).wf(),
        ensures
            final(self).wf(),
            final(self).next_id() == old(self).next_id(),
            final(self).has_event_sender() == old(self).has_event_sender(),
            ({
                let id = update.channel_id.value;
                let i = find_channel_index(old(self).channels(), id);
                if i >= 0 {
                    let c = old(self).channels()[i];
                    let w = (if c.send_window + update.window_increment <= u32::MAX { (c.send_window + update.window_increment) as u32 } else { u32::MAX });
                    &&& r is Ok
                    &&& final(self).channels() == old(self).channels().update(i, Channel { send_window: w, ..c })
                    &&& final(self).events_sent() == old(self).log_after(ChannelEventView::FlowControl(id, w))
                } else {
                    &&& r == Err::<(), ProtocolError>(ProtocolError::ChannelNotFound { channel_id: id })
                    &&& final(self).channels() == old(self).channels()
                    &&& final(self).events_sent() == old(self).events_sent()
                }
            }),
    {
        let ghost s = self.channels();
        match self.position(update.channel_id.value) {
            Some(i) => {
                let mut channel = self.channels.remove(i);
                channel.update_send_window(update.window_increment);
                let window = channel.send_window;
                self.channels.insert(i, channel);
                proof {
                    let t = self.channels();
                    assert(t =~= s.update(i as int, t[i as int]));
                    assert forall|a: int, b: int| 0 <= a < b < t.len() implies channel_id_of(#[trigger] t[a]) != channel_id_of(#[trigger] t[b]) by {
                        assert(channel_id_of(t[a]) == channel_id_of(s[a]));
                        assert(channel_id_of(t[b]) == channel_id_of(s[b]));
                    }
                    assert forall|a: int| 0 <= a < t.len() implies channel_id_of(#[trigger] t[a]) < MAX_CHANNELS by {
                        assert(channel_id_of(t[a]) == channel_id_of(s[a]));
                    }
                }
                self.emit(ChannelEvent::FlowControl(update.channel_id.value, window));
                Ok(())
            },
            None => Err(ProtocolError::ChannelNotFound { channel_id: update.channel_id.value }),
        }
    }

    /// The open channels.
    pub fn list_channels(&self) -> (r: Vec<&Channel>)
        ensures
            r@.len() == self.channels().len(),
            forall|i: int| 0 <= i < r@.len() ==> *(#[trigger] r@[i]) == self.channels()[i],
    {
        let mut r: Vec<&Channel> = Vec::new();
        let mut i: usize = 0;
        while i < self.channels.len()
            invariant
                i <= self.channels@.len(),
                r@.len() == i,
                forall|j: int| 0 <= j < i ==> *(#[trigger] r@[j]) == self.channels()[j],
            decreases self.channels@.len() - i,
        {
            r.push(&self.channels[i]);
            i = i + 1;
        }
        r
    }

    /// Statistics of every channel, in opening order.
    pub fn get_stats(&self) -> (r: Vec<ChannelStats>)
        ensures
            r@.len() == self.channels().len(),
            forall|i: int| 0 <= i < r@.len() ==> stats_of(#[trigger] r@[i], self.channels()[i]),
    {
        let mut r: Vec<ChannelStats> = Vec::new();
        let mut i: usize = 0;
        while i < self.channels.len()
            invariant
                i <= self.channels@.len(),
                r@.len() == i,
                forall|j: int| 0 <= j < i ==> stats_of(#[trigger] r@[j], self.channels()[j]),
            decreases self.channels@.len() - i,
        {
            let ch = &self.channels[i];
            r.push(ChannelStats {
                channel_id: ch.config.channel_id.value,
                channel_type: ch.config.channel_type,
                priority: ch.config.priority,
                state: ch.state,
                send_window: ch.send_window,
                send_window_used: ch.send_window_used,
                recv_window: ch.recv_window,
                recv_window_used: ch.recv_window_used,
                frames_sent: ch.frames_sent,
                frames_received: ch.frames_received,
                bytes_sent: ch.bytes_sent,
                bytes_received: ch.bytes_received,
                retransmissions: ch.retransmissions,
                errors: ch.errors,
                service_id: ch.config.service_id.clone(),
            });
            i = i + 1;
        }
        r
    }

    /// Frames sent over all channels.
    pub fn total_frames_sent(&self) -> (r: u64)
        requires
            sum_frames_sent(self.channels(), self.channels().len() as int) <= u64::MAX,
        ensures
            r == sum_frames_sent(self.channels(), self.channels().len() as int),
    {
        let mut total: u64 = 0;
        let mut i: usize = 0;
        while i < self.channels.len()
            invariant
                i <= self.channels@.len(),
                total == sum_frames_sent(self.channels(), i as int),
                sum_frames_sent(self.channels(), self.channels().len() as int) <= u64::MAX,
            decreases self.channels@.len() - i,
        {
            proof {
                lemma_sum_frames_sent_mono(self.channels(), i as int + 1, self.channels().len() as int);
            }
            total = total + self.channels[i].frames_sent;
            i = i + 1;
        }
        total
    }

    /// Frames received over all channels.
    pub fn total_frames_received(&self) -> (r: u64)
        requires
            sum_frames_received(self.channels(), self.channels().len() as int) <= u64::MAX,
        ensures
            r == sum_frames_received(self.channels(), self.channels().len() as int),
    {
        let mut total: u64 = 0;
        let mut i: usize = 0;
        while i < self.channels.len()
            invariant
                i <= self.channels@.len(),
                total == sum_frames_received(self.channels(), i as int),
                sum_frames_received(self.channels(), self.channels().len() as int) <= u64::MAX,
            decreases self.channels@.len() - i,
        {
            proof {
                lemma_sum_frames_received_mono(self.channels(), i as int + 1, self.channels().len() as int);
            }
            total = total + self.channels[i].frames_received;
            i = i + 1;
        }
        total
    }

    /// Bytes sent over all channels.
    pub fn total_bytes_sent(&self) -> (r: u64)
        requires
            sum_bytes_sent(self.channels(), self.channels().len() as int) <= u64::MAX,
        ensures
            r == sum_bytes_sent(self.channels(), self.channels().len() as int),
    {
        let mut total: u64 = 0;
        let mut i: usize = 0;
        while i < self.channels.len()
            invariant
                i <= self.channels@.len(),
                total == sum_bytes_sent(self.channels(), i as int),
                sum_bytes_sent(self.channels(), self.channels().len() as int) <= u64::MAX,
            decreases self.channels@.len() - i,
        {
            proof {
                lemma_sum_bytes_sent_mono(self.channels(), i as int + 1, self.channels().len() as int);
            }
            total = total + self.channels[i].bytes_sent;
            i = i + 1;
        }
        total
    }

    /// Bytes received over all channels.
    pub fn total_bytes_received(&self) -> (r: u64)
        requires
            sum_bytes_received(self.channels(), self.channels().len() as int) <= u64::MAX,
        ensures
            r == sum_bytes_received(self.channels(), self.channels().len() as int),
    {
        let mut total: u64 = 0;
        let mut i: usize = 0;
        while i < self.channels.len()
            invariant
                i <= self.channels@.len(),
                total == sum_bytes_received(self.channels(), i as int),
                sum_bytes_received(self.channels(), self.channels().len() as int) <= u64::MAX,
            decreases self.channels@.len() - i,
        {
            proof {
                lemma_sum_bytes_received_mono(self.channels(), i as int + 1, self.channels().len() as int);
            }
            total = total + self.channels[i].bytes_received;
            i = i + 1;
        }
        total
    }
}

impl Default for ChannelManager {
    fn default() -> (r: Self)
        ensures
            r.wf(),
            r.channels() == Seq::<Channel>::empty(),
            r.next_id() == 1,
            !r.has_event_sender(),
            r.events_sent() == Seq::<ChannelEventView>::empty(),
    {
        Self::new()
    }
}

proof fn lemma_sum_frames_sent_mono(s: Seq<Channel>, a: int, b: int)
    requires
        0 <= a <= b,
    ensures
        sum_frames_sent(s, a) <= sum_frames_sent(s, b),
    decreases b - a,
{
    if a < b {
        lemma_sum_frames_sent_mono(s, a, b - 1);
    }
}

proof fn lemma_sum_frames_received_mono(s: Seq<Channel>, a: int, b: int)
    requires
        0 <= a <= b,
    ensures
        sum_frames_received(s, a) <= sum_frames_received(s, b),
    decreases b - a,
{
    if a < b {
        lemma_sum_frames_received_mono(s, a, b - 1);
    }
}

proof fn lemma_sum_bytes_sent_mono(s: Seq<Channel>, a: int, b: int)
    requires
        0 <= a <= b,
    ensures
        sum_bytes_sent(s, a) <= sum_bytes_sent(s, b),
    decreases b - a,
{
    if a < b {
        lemma_sum_bytes_sent_mono(s, a, b - 1);
    }
}

proof fn lemma_sum_bytes_received_mono(s: Seq<Channel>, a: int, b: int)
    requires
        0 <= a <= b,
    ensures
        sum_bytes_received(s, a) <= sum_bytes_received(s, b),
    decreases b - a,
{
    if a < b {
        lemma_sum_bytes_received_mono(s, a, b - 1);
    }
}

/// The configuration of a fresh channel for a service: identifier 0 (assign
/// the next free one), the default windows and a 16 KiB frame limit.
pub fn default_channel_config(service_id: &str, channel_type: ChannelType, priority: ChannelPriority) -> (r: ChannelConfig)
    ensures
        r.channel_id.value == 0,
        r.channel_type == channel_type,
        r.priority == priority,
        r.send_window == DEFAULT_WINDOW_SIZE,
        r.receive_window == DEFAULT_WINDOW_SIZE,
        r.max_frame_size == 16384,
        r.service_id@ == service_id@,
        r.metadata@.len() == 0,
{
    ChannelConfig {
        channel_id: ChannelId { value: 0 },
        channel_type,
        priority,
        send_window: DEFAULT_WINDOW_SIZE,
        receive_window: DEFAULT_WINDOW_SIZE,
        max_frame_size: 16384,
        service_id: service_id.to_owned(),
        metadata: Vec::new(),
    }
}

} // verus!
