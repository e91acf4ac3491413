//! High-level encoding and decoding of protocol messages.

pub mod frame_types;

use vstd::prelude::*;

use crate::error::ProtocolError;
use crate::frame::{
    append_bytes, build_auth_challenge, build_auth_response, build_capability_negotiate,
    build_channel_open_request, build_control_frame, build_flow_control_update, build_keepalive,
    build_session_open_request, build_session_open_response, lemma_decode_consumes, spec_control_frame,
    spec_decode, spec_encoded_frame, spec_reassemble, DecodeOutcome, Frame, FrameCodec, FrameView,
    PendingFragment,
};
use crate::pb::{FrameHeader, FrameType, SequenceNumber};
use crate::{CONTROL_CHANNEL_ID, DEFAULT_MAX_FRAME_SIZE};

verus! {

/// The state of a decoder between reads: unread bytes, last accepted
/// sequence number, fragments waiting for completion.
pub struct StreamState {
    pub buf: Seq<u8>,
    pub rx_sequence: u64,
    pub rx_started: bool,
    pub pending: Seq<PendingFragment>,
}

/// Decoding every whole frame at the front of `buf` and reassembling
/// fragments: the frames handed out, or the first error, and the state left.
pub open spec fn spec_decode_stream(buf: Seq<u8>, rx: u64, started: bool, pending: Seq<PendingFragment>) -> (Result<
    Seq<FrameView>,
    ProtocolError,
>, StreamState)
    decreases buf.len(),
{
    let s = spec_decode(buf, rx, started);
    match s.outcome {
        DecodeOutcome::Incomplete => (
            Ok(Seq::empty()),
            StreamState { buf: s.rest, rx_sequence: s.rx_sequence, rx_started: s.rx_started, pending },
        ),
        DecodeOutcome::Failed(e) => (Err(e), StreamState { buf: s.rest, rx_sequence: s.rx_sequence, rx_started: s.rx_started, pending }),
        DecodeOutcome::Decoded(f) => {
            if s.rest.len() < buf.len() {
                let r = spec_reassemble(pending, f);
                let next = spec_decode_stream(s.rest, s.rx_sequence, s.rx_started, r.pending);
                (
                    match next.0 {
                        Ok(fs) => Ok(
                            match r.output {
                                Some(o) => seq![o] + fs,
                                None => fs,
                            },
                        ),
                        Err(e) => Err(e),
                    },
                    next.1,
                )
            } else {
                (Ok(Seq::empty()), StreamState { buf: s.rest, rx_sequence: s.rx_sequence, rx_started: s.rx_started, pending })
            }
        },
    }
}

/// `done` frames followed by the rest of a stream decode.
pub open spec fn prepend_frames(done: Seq<FrameView>, r: Result<Seq<FrameView>, ProtocolError>) -> Result<
    Seq<FrameView>,
    ProtocolError,
> {
    match r {
        Ok(fs) => Ok(done + fs),
        Err(e) => Err(e),
    }
}

/// Splitting the bytes given to `ProtocolCodec::decode` over two calls gives
/// the same frames, and leaves the same state, as giving them in one call, as
/// long as the first call met no error: decoding `buf` and then the bytes it
/// left followed by `more` is decoding `buf + more`.
pub proof fn lemma_decode_split(buf: Seq<u8>, more: Seq<u8>, rx: u64, started: bool, pending: Seq<PendingFragment>)
    requires
        spec_decode_stream(buf, rx, started, pending).0 is Ok,
    ensures
        ({
            let (first, st) = spec_decode_stream(buf, rx, started, pending);
            let second = spec_decode_stream(st.buf + more, st.rx_sequence, st.rx_started, st.pending);
            spec_decode_stream(buf + more, rx, started, pending) == (
                prepend_frames(first->Ok_0, second.0),
                second.1,
            )
        }),
    decreases buf.len(),
{
    let s = spec_decode(buf, rx, started);
    lemma_decode_consumes(buf, rx, started);
    match s.outcome {
        DecodeOutcome::Incomplete => {
            let second = spec_decode_stream(buf + more, rx, started, pending);
            match second.0 {
                Ok(fs) => {
                    assert(Seq::<FrameView>::empty() + fs =~= fs);
                },
                Err(_) => {},
            }
        },
        DecodeOutcome::Failed(_) => {},
        DecodeOutcome::Decoded(f) => {
            crate::frame::lemma_decode_extend(buf, more, rx, started);
            let r = spec_reassemble(pending, f);
            let next = spec_decode_stream(s.rest, s.rx_sequence, s.rx_started, r.pending);
            lemma_decode_split(s.rest, more, s.rx_sequence, s.rx_started, r.pending);
            let st = next.1;
            let second = spec_decode_stream(st.buf + more, st.rx_sequence, st.rx_started, st.pending);
            match second.0 {
                Ok(fs2) => {
                    let fs1 = next.0->Ok_0;
                    match r.output {
                        Some(o) => {
                            assert(seq![o] + (fs1 + fs2) =~= (seq![o] + fs1) + fs2);
                        },
                        None => {},
                    }
                },
                Err(_) => {},
            }
        },
    }
}

/// The frame the codec sends for a control message: the message is framed
/// with sequence number `tx`, and the frame encoder restamps it with the
/// send sequence that follows.
pub open spec fn spec_sent_control_frame(frame_type: FrameType, payload: Seq<u8>, channel_id: u32, tx: u64) -> Seq<u8> {
    let f = spec_control_frame(frame_type, payload, channel_id, tx);
    spec_encoded_frame(
        FrameHeader {
            sequence: Some(
                SequenceNumber { value: vstd::wrapping::u64_specs::wrapping_add(tx, 1) },
            ),
            ..f.header
        },
        f.payload,
        f.auth_tag,
    )
}

/// Protocol codec: frames outgoing messages and decodes incoming bytes.
pub struct ProtocolCodec {
    pub frame_codec: FrameCodec,
    pub rx_buffer: Vec<u8>,
}

impl ProtocolCodec {
    /// Create a new protocol codec.
    pub fn new() -> (r: Self)
        ensures
            r.frame_codec.max_payload_size == DEFAULT_MAX_FRAME_SIZE,
            r.frame_codec.rx_sequence == 0,
            !r.frame_codec.rx_started,
            r.frame_codec.tx_sequence == 0,
            r.frame_codec.pending() == Seq::<PendingFragment>::empty(),
            r.rx_buffer@ == Seq::<u8>::empty(),
    {
        ProtocolCodec { frame_codec: FrameCodec::new(DEFAULT_MAX_FRAME_SIZE as usize), rx_buffer: Vec::new() }
    }

    /// Frame and encode a control message.
    fn encode_framed(&mut self, frame: Frame, tx: Ghost<u64>) -> (r: Result<Vec<u8>, ProtocolError>)
        requires
            frame.header.flags is Some,
            frame.header.channel_id is Some,
            old(self).frame_codec.tx_sequence == vstd::wrapping::u64_specs::wrapping_add(tx@, 1),
        ensures
            r matches Ok(b) && b@ == spec_encoded_frame(
                FrameHeader {
                    sequence: Some(
                        SequenceNumber { value: vstd::wrapping::u64_specs::wrapping_add(tx@, 1) },
                    ),
                    ..frame.header
                },
                frame.payload@,
                frame.auth_tag@,
            ),
            final(self).frame_codec.tx_sequence == vstd::wrapping::u64_specs::wrapping_add(
                old(self).frame_codec.tx_sequence,
                1,
            ),
            final(self).frame_codec.rx_sequence == old(self).frame_codec.rx_sequence,
            final(self).frame_codec.rx_started == old(self).frame_codec.rx_started,
            final(self).frame_codec.max_payload_size == old(self).frame_codec.max_payload_size,
            final(self).frame_codec.pending() == old(self).frame_codec.pending(),
            final(self).rx_buffer@ == old(self).rx_buffer@,
    {
        self.frame_codec.encode(frame)
    }

    /// Encode a session open request (given encoded).
    pub fn encode_session_open_request(&mut self, request: &[u8]) -> (r: Result<Vec<u8>, ProtocolError>)
        ensures
            r matches Ok(b) && b@ == spec_sent_control_frame(
                FrameType::SessionOpen,
                request@,
                CONTROL_CHANNEL_ID,
                old(self).frame_codec.tx_sequence,
            ),
            final(self).frame_codec.tx_sequence == vstd::wrapping::u64_specs::wrapping_add(
                vstd::wrapping::u64_specs::wrapping_add(old(self).frame_codec.tx_sequence, 1),
                1,
            ),
            final(self).frame_codec.rx_sequence == old(self).frame_codec.rx_sequence,
            final(self).frame_codec.rx_started == old(self).frame_codec.rx_started,
            final(self).frame_codec.pending() == old(self).frame_codec.pending(),
            final(self).rx_buffer@ == old(self).rx_buffer@,
    {
        let sequence = self.frame_codec.next_tx_sequence();
        let frame = build_session_open_request(request, sequence)?;
        self.encode_framed(frame, Ghost(sequence))
    }

    /// Encode a session open response (given encoded).
    pub fn encode_session_open_response(&mut self, response: &[u8]) -> (r: Result<Vec<u8>, ProtocolError>)
        ensures
            r matches Ok(b) && b@ == spec_sent_control_frame(
                FrameType::SessionOpenAck,
                response@,
                CONTROL_CHANNEL_ID,
                old(self).frame_codec.tx_sequence,
            ),
            final(self).frame_codec.tx_sequence == vstd::wrapping::u64_specs::wrapping_add(
                vstd::wrapping::u64_specs::wrapping_add(old(self).frame_codec.tx_sequence, 1),
                1,
            ),
            final(self).frame_codec.rx_sequence == old(self).frame_codec.rx_sequence,
            final(self).frame_codec.rx_started == old(self).frame_codec.rx_started,
            final(self).frame_codec.pending() == old(self).frame_codec.pending(),
            final(self).rx_buffer@ == old(self).rx_buffer@,
    {
        let sequence = self.frame_codec.next_tx_sequence();
        let frame = build_session_open_response(response, sequence)?;
        self.encode_framed(frame, Ghost(sequence))
    }

    /// Encode a keepalive (given encoded).
    pub fn encode_keepalive(&mut self, keepalive: &[u8]) -> (r: Result<Vec<u8>, ProtocolError>)
        ensures
            r matches Ok(b) && b@ == spec_sent_control_frame(
                FrameType::Keepalive,
                keepalive@,
                CONTROL_CHANNEL_ID,
                old(self).frame_codec.tx_sequence,
            ),
            final(self).frame_codec.tx_sequence == vstd::wrapping::u64_specs::wrapping_add(
                vstd::wrapping::u64_specs::wrapping_add(old(self).frame_codec.tx_sequence, 1),
                1,
            ),
            final(self).frame_codec.rx_sequence == old(self).frame_codec.rx_sequence,
            final(self).frame_codec.rx_started == old(self).frame_codec.rx_started,
            final(self).frame_codec.pending() == old(self).frame_codec.pending(),
            final(self).rx_buffer@ == old(self).rx_buffer@,
    {
        let sequence = self.frame_codec.next_tx_sequence();
        let frame = build_keepalive(sequence, keepalive)?;
        self.encode_framed(frame, Ghost(sequence))
    }

    /// Encode a capability negotiation request (given encoded).
    pub fn encode_capability_negotiate(&mut self, request: &[u8]) -> (r: Result<Vec<u8>, ProtocolError>)
        ensures
            r matches Ok(b) && b@ == spec_sent_control_frame(
                FrameType::CapabilityNegotiate,
                request@,
                CONTROL_CHANNEL_ID,
                old(self).frame_codec.tx_sequence,
            ),
            final(self).frame_codec.tx_sequence == vstd::wrapping::u64_specs::wrapping_add(
                vstd::wrapping::u64_specs::wrapping_add(old(self).frame_codec.tx_sequence, 1),
                1,
            ),
            final(self).frame_codec.rx_sequence == old(self).frame_codec.rx_sequence,
            final(self).frame_codec.rx_started == old(self).frame_codec.rx_started,
            final(self).frame_codec.pending() == old(self).frame_codec.pending(),
            final(self).rx_buffer@ == old(self).rx_buffer@,
    {
        let sequence = self.frame_codec.next_tx_sequence();
        let frame = build_capability_negotiate(request, sequence)?;
        self.encode_framed(frame, Ghost(sequence))
    }

    /// Encode an authentication challenge (given encoded).
    pub fn encode_auth_challenge(&mut self, challenge: &[u8]) -> (r: Result<Vec<u8>, ProtocolError>)
        ensures
            r matches Ok(b) && b@ == spec_sent_control_frame(
                FrameType::AuthChallenge,
                challenge@,
                CONTROL_CHANNEL_ID,
                old(self).frame_codec.tx_sequence,
            ),
            final(self).frame_codec.tx_sequence == vstd::wrapping::u64_specs::wrapping_add(
                vstd::wrapping::u64_specs::wrapping_add(old(self).frame_codec.tx_sequence, 1),
                1,
            ),
            final(self).frame_codec.rx_sequence == old(self).frame_codec.rx_sequence,
            final(self).frame_codec.rx_started == old(self).frame_codec.rx_started,
            final(self).frame_codec.pending() == old(self).frame_codec.pending(),
            final(self).rx_buffer@ == old(self).rx_buffer@,
    {
        let sequence = self.frame_codec.next_tx_sequence();
        let frame = build_auth_challenge(challenge, sequence)?;
        self.encode_framed(frame, Ghost(sequence))
    }

    /// Encode an authentication response (given encoded).
    pub fn encode_auth_response(&mut self, response: &[u8]) -> (r: Result<Vec<u8>, ProtocolError>)
        ensures
            r matches Ok(b) && b@ == spec_sent_control_frame(
                FrameType::AuthResponse,
                response@,
                CONTROL_CHANNEL_ID,
                old(self).frame_codec.tx_sequence,
            ),
            final(self).frame_codec.tx_sequence == vstd::wrapping::u64_specs::wrapping_add(
                vstd::wrapping::u64_specs::wrapping_add(old(self).frame_codec.tx_sequence, 1),
                1,
            ),
            final(self).frame_codec.rx_sequence == old(self).frame_codec.rx_sequence,
            final(self).frame_codec.rx_started == old(self).frame_codec.rx_started,
            final(self).frame_codec.pending() == old(self).frame_codec.pending(),
            final(self).rx_buffer@ == old(self).rx_buffer@,
    {
        let sequence = self.frame_codec.next_tx_sequence();
        let frame = build_auth_response(response, sequence)?;
        self.encode_framed(frame, Ghost(sequence))
    }

    /// Encode a channel open request (given encoded).
    pub fn encode_channel_open_request(&mut self, request: &[u8]) -> (r: Result<Vec<u8>, ProtocolError>)
        ensures
            r matches Ok(b) && b@ == spec_sent_control_frame(
                FrameType::ChannelOpen,
                request@,
                CONTROL_CHANNEL_ID,
                old(self).frame_codec.tx_sequence,
            ),
            final(self).frame_codec.tx_sequence == vstd::wrapping::u64_specs::wrapping_add(
                vstd::wrapping::u64_specs::wrapping_add(old(self).frame_codec.tx_sequence, 1),
                1,
            ),
            final(self).frame_codec.rx_sequence == old(self).frame_codec.rx_sequence,
            final(self).frame_codec.rx_started == old(self).frame_codec.rx_started,
            final(self).frame_codec.pending() == old(self).frame_codec.pending(),
            final(self).rx_buffer@ == old(self).rx_buffer@,
    {
        let sequence = self.frame_codec.next_tx_sequence();
        let frame = build_channel_open_request(request, sequence)?;
        self.encode_framed(frame, Ghost(sequence))
    }

    /// Encode a flow control update (given encoded).
    pub fn encode_flow_control_update(&mut self, update: &[u8]) -> (r: Result<Vec<u8>, ProtocolError>)
        ensures
            r matches Ok(b) && b@ == spec_sent_control_frame(
                FrameType::FlowControl,
                update@,
                CONTROL_CHANNEL_ID,
                old(self).frame_codec.tx_sequence,
            ),
            final(self).frame_codec.tx_sequence == vstd::wrapping::u64_specs::wrapping_add(
                vstd::wrapping::u64_specs::wrapping_add(old(self).frame_codec.tx_sequence, 1),
                1,
            ),
            final(self).frame_codec.rx_sequence == old(self).frame_codec.rx_sequence,
            final(self).frame_codec.rx_started == old(self).frame_codec.rx_started,
            final(self).frame_codec.pending() == old(self).frame_codec.pending(),
            final(self).rx_buffer@ == old(self).rx_buffer@,
    {
        let sequence = self.frame_codec.next_tx_sequence();
        let frame = build_flow_control_update(update, sequence)?;
        self.encode_framed(frame, Ghost(sequence))
    }

    /// Encode a control frame of any type on any channel (payload given encoded).
    pub fn encode_control_frame(&mut self, frame_type: FrameType, payload: &[u8], channel_id: u32) -> (r: Result<
        Vec<u8>,
        ProtocolError,
    >)
        ensures
            r matches Ok(b) && b@ == spec_sent_control_frame(
                frame_type,
                payload@,
                channel_id,
                old(self).frame_codec.tx_sequence,
            ),
            final(self).frame_codec.tx_sequence == vstd::wrapping::u64_specs::wrapping_add(
                vstd::wrapping::u64_specs::wrapping_add(old(self).frame_codec.tx_sequence, 1),
                1,
            ),
            final(self).frame_codec.rx_sequence == old(self).frame_codec.rx_sequence,
            final(self).frame_codec.rx_started == old(self).frame_codec.rx_started,
            final(self).frame_codec.pending() == old(self).frame_codec.pending(),
            final(self).rx_buffer@ == old(self).rx_buffer@,
    {
        let sequence = self.frame_codec.next_tx_sequence();
        let frame = build_control_frame(frame_type, payload, channel_id, sequence)?;
        self.encode_framed(frame, Ghost(sequence))
    }

    /// Decode every whole frame from the buffered bytes plus `data`,
    /// reassembling fragments; fragments of incomplete payloads stay pending.
    pub fn decode(&mut self, data: &[u8]) -> (r: Result<Vec<Frame>, ProtocolError>)
        ensures
            ({
                let (res, st) = spec_decode_stream(
                    old(self).rx_buffer@ + data@,
                    old(self).frame_codec.rx_sequence,
                    old(self).frame_codec.rx_started,
                    old(self).frame_codec.pending(),
                );
                &&& final(self).rx_buffer@ == st.buf
                &&& final(self).frame_codec.rx_sequence == st.rx_sequence
                &&& final(self).frame_codec.rx_started == st.rx_started
                &&& final(self).frame_codec.pending() == st.pending
                &&& match res {
                    Ok(fs) => r matches Ok(v) && v@.map_values(|f: Frame| f@) == fs,
                    Err(e) => r matches Err(e2) && e2 == e,
                }
            }),
            final(self).frame_codec.tx_sequence == old(self).frame_codec.tx_sequence,
            final(self).frame_codec.max_payload_size == old(self).frame_codec.max_payload_size,
    {
        append_bytes(&mut self.rx_buffer, data);
        let ghost total = spec_decode_stream(
            self.rx_buffer@,
            self.frame_codec.rx_sequence,
            self.frame_codec.rx_started,
            self.frame_codec.pending(),
        );
        let mut frames: Vec<Frame> = Vec::new();
        loop
            invariant
                total == spec_decode_stream(
                    old(self).rx_buffer@ + data@,
                    old(self).frame_codec.rx_sequence,
                    old(self).frame_codec.rx_started,
                    old(self).frame_codec.pending(),
                ),
                prepend_frames(
                    frames@.map_values(|f: Frame| f@),
                    spec_decode_stream(
                        self.rx_buffer@,
                        self.frame_codec.rx_sequence,
                        self.frame_codec.rx_started,
                        self.frame_codec.pending(),
                    ).0,
                ) == total.0,
                spec_decode_stream(
                    self.rx_buffer@,
                    self.frame_codec.rx_sequence,
                    self.frame_codec.rx_started,
                    self.frame_codec.pending(),
                ).1 == total.1,
                self.frame_codec.tx_sequence == old(self).frame_codec.tx_sequence,
                self.frame_codec.max_payload_size == old(self).frame_codec.max_payload_size,
            decreases self.rx_buffer@.len(),
        {
            let ghost before_buf = self.rx_buffer@;
            let ghost before_rx = self.frame_codec.rx_sequence;
            let ghost before_started = self.frame_codec.rx_started;
            let ghost before_pending = self.frame_codec.pending();
            proof {
                lemma_decode_consumes(before_buf, before_rx, before_started);
            }
            let decoded = self.frame_codec.decode(&mut self.rx_buffer);
            match decoded {
                Err(e) => {
                    return Err(e);
                },
                Ok(None) => {
                    assert(frames@.map_values(|f: Frame| f@) + Seq::<FrameView>::empty() =~= frames@.map_values(
                        |f: Frame| f@,
                    ));
                    return Ok(frames);
                },
                Ok(Some(frame)) => {
                    let ghost done = frames@.map_values(|f: Frame| f@);
                    let out = self.frame_codec.reassemble_fragment(frame)?;
                    match out {
                        Some(reassembled) => {
                            frames.push(reassembled);
                            assert(frames@.map_values(|f: Frame| f@) =~= done.push(reassembled@));
                            assert(forall|fs: Seq<FrameView>|
                                done + (seq![reassembled@] + fs) =~= done.push(reassembled@) + fs);
                        },
                        None => {},
                    }
                },
            }
        }
    }

    /// The frame codec, for advanced usage.
    pub fn frame_codec(&mut self) -> (r: &mut FrameCodec)
        ensures
            *r == old(self).frame_codec,
            final(self).frame_codec == *final(r),
            final(self).rx_buffer == old(self).rx_buffer,
    {
        &mut self.frame_codec
    }

    /// Reset the codec state (for reconnection).
    pub fn reset(&mut self)
        ensures
            final(self).frame_codec.rx_sequence == 0,
            !final(self).frame_codec.rx_started,
            final(self).frame_codec.tx_sequence == 0,
            final(self).frame_codec.max_payload_size == old(self).frame_codec.max_payload_size,
            final(self).frame_codec.pending() == old(self).frame_codec.pending(),
            final(self).rx_buffer@ == Seq::<u8>::empty(),
    {
        self.frame_codec.reset_sequences();
        self.rx_buffer.clear();
    }

    /// Get the current receive sequence number.
    pub fn rx_sequence(&self) -> (r: u64)
        ensures
            r == self.frame_codec.rx_sequence,
    {
        self.frame_codec.rx_sequence()
    }

    /// Set the receive sequence number (for reconnection): frame `seq` and
    /// those before it count as processed.
    pub fn set_rx_sequence(&mut self, seq: u64)
        ensures
            final(self).frame_codec.rx_sequence == seq,
            final(self).frame_codec.rx_started,
            final(self).frame_codec.tx_sequence == old(self).frame_codec.tx_sequence,
            final(self).frame_codec.max_payload_size == old(self).frame_codec.max_payload_size,
            final(self).frame_codec.pending() == old(self).frame_codec.pending(),
            final(self).rx_buffer@ == old(self).rx_buffer@,
    {
        self.frame_codec.rx_sequence = seq;
        self.frame_codec.rx_started = true;
    }
}

impl Default for ProtocolCodec {
    fn default() -> (r: Self)
        ensures
            r.frame_codec.max_payload_size == DEFAULT_MAX_FRAME_SIZE,
            r.frame_codec.rx_sequence == 0,
            !r.frame_codec.rx_started,
            r.frame_codec.tx_sequence == 0,
            r.frame_codec.pending() == Seq::<PendingFragment>::empty(),
            r.rx_buffer@ == Seq::<u8>::empty(),
    {
        Self::new()
    }
}

} // verus!
