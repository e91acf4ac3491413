//! Frame encoding and decoding.
//!
//! Wire layout of a frame (all integers little-endian):
//! magic (4) | version (4) | type (1) | flags (1) | channel (4) | sequence (8)
//! | payload length (4) | header CRC32C (4) | payload | auth tag (16).
//! The header CRC covers the 26 bytes before it.

use vstd::prelude::*;

use crate::error::ProtocolError;
use crate::le_bytes::{
    get_u32_le, get_u64_le, le_u32, le_u64, lemma_read_le_u32_at, lemma_read_le_u64_at, put_u32_le,
    put_u64_le, read_le_u32, read_le_u64,
};
use crate::pb::{
    clone_bytes, frame_type_code, frame_type_from_code, lemma_frame_type_code_roundtrip,
    spec_frame_type_code, spec_frame_type_from_code, spec_no_flags, ChannelId, FrameFlags,
    FrameHeader, FrameType, SequenceNumber,
};
use crate::{CONTROL_CHANNEL_ID, DEFAULT_MAX_FRAME_SIZE, MAGIC_NUMBER, MAX_FRAME_PAYLOAD_SIZE};

verus! {

/// The CRC-32C (Castagnoli, the iSCSI parameters) checksum of a byte string.
pub uninterp spec fn crc32c(data: Seq<u8>) -> u32;

/// Computes the CRC-32C of `data`.
///
/// Trusted: calls `crc::Crc::<u32>::new(&crc::CRC_32_ISCSI).checksum`, the
/// CRC-32C of the `crc` crate's catalogue; the result depends on `data` alone
/// and is named, not computed here.
#[verifier::external_body]
fn crc32c_of(data: &[u8]) -> (r: u32)
    ensures
        r == crc32c(data@),
{
    crc::Crc::<u32>::new(&crc::CRC_32_ISCSI).checksum(data)
}

/// Size of the frame header on the wire.
pub const HEADER_SIZE: usize = 30;

/// Size of the authentication tag that ends every frame on the wire.
pub const AUTH_TAG_SIZE: usize = 16;

/// A frame: header, payload and AEAD authentication tag.
#[derive(Debug)]
pub struct Frame {
    pub header: FrameHeader,
    pub payload: Vec<u8>,
    pub auth_tag: Vec<u8>,
}

/// The mathematical value of a frame.
pub struct FrameView {
    pub header: FrameHeader,
    pub payload: Seq<u8>,
    pub auth_tag: Seq<u8>,
}

impl View for Frame {
    type V = FrameView;

    open spec fn view(&self) -> FrameView {
        FrameView { header: self.header, payload: self.payload@, auth_tag: self.auth_tag@ }
    }
}

impl Clone for Frame {
    fn clone(&self) -> (r: Self)
        ensures
            r@ == self@,
    {
        Frame {
            header: self.header,
            payload: clone_bytes(self.payload.as_slice()),
            auth_tag: clone_bytes(self.auth_tag.as_slice()),
        }
    }
}

/// The flag byte of a set of flags (the retransmission flag is not sent).
pub open spec fn spec_pack_flags(f: FrameFlags) -> u8 {
    (if f.is_fragment { 1u8 } else { 0u8 }) | (if f.is_last_fragment { 2u8 } else { 0u8 }) | (if f.encrypted {
        4u8
    } else {
        0u8
    }) | (if f.authenticated { 8u8 } else { 0u8 }) | (if f.compressed { 16u8 } else { 0u8 }) | (if f.priority {
        32u8
    } else {
        0u8
    }) | (if f.ack_required { 64u8 } else { 0u8 }) | (if f.reset_sequence { 128u8 } else { 0u8 })
}

/// The flags a flag byte stands for.
pub open spec fn spec_unpack_flags(b: u8) -> FrameFlags {
    FrameFlags {
        is_fragment: b & 1u8 != 0,
        is_last_fragment: b & 2u8 != 0,
        encrypted: b & 4u8 != 0,
        authenticated: b & 8u8 != 0,
        compressed: b & 16u8 != 0,
        priority: b & 32u8 != 0,
        ack_required: b & 64u8 != 0,
        reset_sequence: b & 128u8 != 0,
        retransmission: false,
    }
}

/// Unpacking a packed flag byte gives back the flags, less the retransmission flag.
pub proof fn lemma_unpack_pack_flags(f: FrameFlags)
    ensures
        spec_unpack_flags(spec_pack_flags(f)) == (FrameFlags { retransmission: false, ..f }),
{
    let a = f.is_fragment;
    let b = f.is_last_fragment;
    let c = f.encrypted;
    let d = f.authenticated;
    let e = f.compressed;
    let g = f.priority;
    let h = f.ack_required;
    let k = f.reset_sequence;
    let x = spec_pack_flags(f);
    assert(x == (if a { 1u8 } else { 0u8 }) | (if b { 2u8 } else { 0u8 }) | (if c { 4u8 } else { 0u8 }) | (if d {
        8u8
    } else {
        0u8
    }) | (if e { 16u8 } else { 0u8 }) | (if g { 32u8 } else { 0u8 }) | (if h { 64u8 } else { 0u8 }) | (if k {
        128u8
    } else {
        0u8
    }) ==> (x & 1u8 != 0) == a && (x & 2u8 != 0) == b && (x & 4u8 != 0) == c && (x & 8u8 != 0) == d && (x
        & 16u8 != 0) == e && (x & 32u8 != 0) == g && (x & 64u8 != 0) == h && (x & 128u8 != 0) == k)
        by (bit_vector);
}

/// Packing unpacked flags gives back the flag byte.
pub proof fn lemma_pack_unpack_flags(b: u8)
    ensures
        spec_pack_flags(spec_unpack_flags(b)) == b,
{
    assert(((if b & 1u8 != 0 { 1u8 } else { 0u8 }) | (if b & 2u8 != 0 { 2u8 } else { 0u8 }) | (if b & 4u8 != 0 {
        4u8
    } else {
        0u8
    }) | (if b & 8u8 != 0 { 8u8 } else { 0u8 }) | (if b & 16u8 != 0 { 16u8 } else { 0u8 }) | (if b & 32u8
        != 0 {
        32u8
    } else {
        0u8
    }) | (if b & 64u8 != 0 { 64u8 } else { 0u8 }) | (if b & 128u8 != 0 { 128u8 } else { 0u8 })) == b)
        by (bit_vector);
}

/// The 26 header bytes that the header CRC covers.
pub open spec fn header_prefix(
    magic: u32,
    version: u32,
    type_code: u8,
    flags_byte: u8,
    channel: u32,
    sequence: u64,
    payload_length: u32,
) -> Seq<u8> {
    le_u32(magic) + le_u32(version) + seq![type_code] + seq![flags_byte] + le_u32(channel) + le_u64(sequence)
        + le_u32(payload_length)
}

/// The header CRC of a header: the CRC-32C of the 26 header bytes the
/// encoder writes, which open with the protocol's magic number.
pub open spec fn spec_header_crc(h: FrameHeader) -> u32 {
    crc32c(
        header_prefix(
            MAGIC_NUMBER,
            h.version,
            spec_frame_type_code(h.frame_type),
            spec_pack_flags(h.flags.unwrap()),
            h.channel_id.unwrap().value,
            h.sequence.unwrap().value,
            h.payload_length,
        ),
    )
}

/// The header of `h` as the encoder completes it: payload length and CRC filled in.
pub open spec fn spec_completed_header(h: FrameHeader, payload_len: nat) -> FrameHeader {
    let with_len = FrameHeader { payload_length: payload_len as u32, ..h };
    FrameHeader { header_crc: spec_header_crc(with_len), ..with_len }
}

/// The bytes of a frame whose header already carries its sequence number.
pub open spec fn spec_encoded_frame(h: FrameHeader, payload: Seq<u8>, auth_tag: Seq<u8>) -> Seq<u8> {
    let c = spec_completed_header(h, payload.len());
    header_prefix(
        MAGIC_NUMBER,
        c.version,
        spec_frame_type_code(c.frame_type),
        spec_pack_flags(c.flags.unwrap()),
        c.channel_id.unwrap().value,
        c.sequence.unwrap().value,
        c.payload_length,
    ) + le_u32(c.header_crc) + payload + auth_tag
}

/// What one call of the decoder yields.
pub enum DecodeOutcome {
    /// Not enough bytes for a whole frame yet.
    Incomplete,
    /// The bytes are rejected.
    Failed(ProtocolError),
    /// A frame was read.
    Decoded(FrameView),
}

/// One step of the decoder: its outcome, the bytes left over and the new receive sequence.
pub struct DecodeStep {
    pub outcome: DecodeOutcome,
    pub rest: Seq<u8>,
    pub rx_sequence: u64,
    pub rx_started: bool,
}

/// The result of decoding the front of `buf` when the last accepted sequence
/// number is `rx` (`started` tells whether any frame was accepted yet).
pub open spec fn spec_decode(buf: Seq<u8>, rx: u64, started: bool) -> DecodeStep {
    let unchanged_incomplete = DecodeStep { outcome: DecodeOutcome::Incomplete, rest: buf, rx_sequence: rx, rx_started: started };
    if buf.len() < 46 {
        unchanged_incomplete
    } else {
        let magic = read_le_u32(buf, 0);
        if magic != MAGIC_NUMBER {
            DecodeStep {
                outcome: DecodeOutcome::Failed(ProtocolError::InvalidMagic { expected: MAGIC_NUMBER, actual: magic }),
                rest: buf,
                rx_sequence: rx,
                rx_started: started,
            }
        } else {
            match spec_frame_type_from_code(buf[8]) {
                None => DecodeStep {
                    outcome: DecodeOutcome::Failed(ProtocolError::UnknownFrameType { frame_type: buf[8] }),
                    rest: buf,
                    rx_sequence: rx,
                    rx_started: started,
                },
                Some(t) => {
                    let len = read_le_u32(buf, 22);
                    let total = 46 + len;
                    if buf.len() < total {
                        unchanged_incomplete
                    } else {
                        let stored = read_le_u32(buf, 26);
                        let calc = crc32c(buf.subrange(0, 26));
                        if calc != stored {
                            DecodeStep {
                                outcome: DecodeOutcome::Failed(
                                    ProtocolError::ChecksumMismatch { expected: stored, actual: calc },
                                ),
                                rest: buf,
                                rx_sequence: rx,
                                rx_started: started,
                            }
                        } else {
                            let rest = buf.subrange(total, buf.len() as int);
                            let sequence = read_le_u64(buf, 14);
                            if sequence < rx || (started && sequence == rx) {
                                DecodeStep {
                                    outcome: DecodeOutcome::Failed(ProtocolError::ReplayDetected { sequence }),
                                    rest,
                                    rx_sequence: rx,
                                    rx_started: started,
                                }
                            } else {
                                let header = FrameHeader {
                                    magic,
                                    version: read_le_u32(buf, 4),
                                    frame_type: t,
                                    flags: Some(spec_unpack_flags(buf[9])),
                                    channel_id: Some(ChannelId { value: read_le_u32(buf, 10) }),
                                    sequence: Some(SequenceNumber { value: sequence }),
                                    payload_length: len,
                                    header_crc: stored,
                                };
                                DecodeStep {
                                    outcome: DecodeOutcome::Decoded(
                                        FrameView {
                                            header,
                                            payload: buf.subrange(30, 30 + len),
                                            auth_tag: buf.subrange(30 + len, total),
                                        },
                                    ),
                                    rest,
                                    rx_sequence: sequence,
                                    rx_started: true,
                                }
                            }
                        }
                    }
                },
            }
        }
    }
}

/// Bytes that arrive later do not change a decoding step that already has
/// its answer: when the front of `buf` decodes to a frame or an error, the
/// front of `buf + more` decodes to the same, leaving `more` after the same rest.
pub proof fn lemma_decode_extend(buf: Seq<u8>, more: Seq<u8>, rx: u64, started: bool)
    requires
        !(spec_decode(buf, rx, started).outcome is Incomplete),
    ensures
        ({
            let s = spec_decode(buf, rx, started);
            spec_decode(buf + more, rx, started) == DecodeStep { rest: s.rest + more, ..s }
        }),
{
    let b = buf + more;
    assert(buf.len() >= 46);
    assert forall|i: int| 0 <= i < buf.len() implies b[i] == buf[i] by {}
    assert(read_le_u32(b, 0) == read_le_u32(buf, 0));
    assert(b[8] == buf[8]);
    assert(b[9] == buf[9]);
    assert(read_le_u32(b, 4) == read_le_u32(buf, 4));
    assert(read_le_u32(b, 10) == read_le_u32(buf, 10));
    assert(read_le_u64(b, 14) == read_le_u64(buf, 14));
    assert(read_le_u32(b, 22) == read_le_u32(buf, 22));
    let len = read_le_u32(buf, 22);
    let total = 46 + len;
    if buf.len() >= total {
        assert(read_le_u32(b, 26) == read_le_u32(buf, 26));
        assert(b.subrange(0, 26) =~= buf.subrange(0, 26));
        assert(b.subrange(30, 30 + len) =~= buf.subrange(30, 30 + len));
        assert(b.subrange(30 + len, total) =~= buf.subrange(30 + len, total));
        assert(b.subrange(total, b.len() as int) =~= buf.subrange(total, buf.len() as int) + more);
    }
}

/// Whether an exec decode result is the outcome `o`.
pub open spec fn decode_result_is(r: Result<Option<Frame>, ProtocolError>, o: DecodeOutcome) -> bool {
    match o {
        DecodeOutcome::Incomplete => r matches Ok(None),
        DecodeOutcome::Failed(e) => r matches Err(e2) && e2 == e,
        DecodeOutcome::Decoded(v) => r matches Ok(Some(f)) && f@ == v,
    }
}

/// Decoding stops at a frame that is not whole and consumes bytes only when
/// a frame's checksum was good.
pub proof fn lemma_decode_consumes(buf: Seq<u8>, rx: u64, started: bool)
    ensures
        ({
            let s = spec_decode(buf, rx, started);
            &&& s.rest.len() <= buf.len()
            &&& s.outcome is Decoded ==> s.rest.len() + 46 <= buf.len()
            &&& s.outcome is Incomplete ==> s.rest == buf
        }),
{
}

/// A frame that was encoded decodes to the header the encoder sent, with
/// the same payload and tag, as long as its magic number is the protocol's,
/// its payload length fits the length field, its tag is 16 bytes and its
/// sequence number is above the last one the receiver accepted (any
/// sequence number, before the first).
pub proof fn lemma_decode_encoded(h: FrameHeader, payload: Seq<u8>, auth_tag: Seq<u8>, rest: Seq<u8>, rx: u64, started: bool)
    requires
        h.magic == MAGIC_NUMBER,
        h.flags is Some,
        h.channel_id is Some,
        h.sequence is Some,
        payload.len() <= u32::MAX,
        auth_tag.len() == 16,
        rx <= h.sequence.unwrap().value,
        started ==> rx < h.sequence.unwrap().value,
    ensures
        ({
            let c = spec_completed_header(h, payload.len());
            spec_decode(spec_encoded_frame(h, payload, auth_tag) + rest, rx, started) == DecodeStep {
                outcome: DecodeOutcome::Decoded(
                    FrameView {
                        header: FrameHeader {
                            flags: Some(FrameFlags { retransmission: false, ..h.flags.unwrap() }),
                            ..c
                        },
                        payload,
                        auth_tag,
                    },
                ),
                rest,
                rx_sequence: h.sequence.unwrap().value,
                rx_started: true,
            }
        }),
{
    let c = spec_completed_header(h, payload.len());
    let code = spec_frame_type_code(c.frame_type);
    let fb = spec_pack_flags(c.flags.unwrap());
    let ch = c.channel_id.unwrap().value;
    let sq = c.sequence.unwrap().value;
    let n = c.payload_length;
    assert(n == payload.len());
    let prefix = header_prefix(MAGIC_NUMBER, c.version, code, fb, ch, sq, n);
    let crcs = le_u32(c.header_crc);
    let b = spec_encoded_frame(h, payload, auth_tag) + rest;
    assert(prefix.len() == 26);
    assert(b =~= prefix + crcs + payload + auth_tag + rest);
    assert(b.subrange(0, 26) =~= prefix);
    assert(b.subrange(0, 4) =~= le_u32(MAGIC_NUMBER));
    assert(b.subrange(4, 8) =~= le_u32(c.version));
    assert(b[8] == code);
    assert(b[9] == fb);
    assert(b.subrange(10, 14) =~= le_u32(ch));
    assert(b.subrange(14, 22) =~= le_u64(sq));
    assert(b.subrange(22, 26) =~= le_u32(n));
    assert(b.subrange(26, 30) =~= crcs);
    lemma_read_le_u32_at(b, 0, MAGIC_NUMBER);
    lemma_read_le_u32_at(b, 4, c.version);
    lemma_read_le_u32_at(b, 10, ch);
    lemma_read_le_u64_at(b, 14, sq);
    lemma_read_le_u32_at(b, 22, n);
    lemma_read_le_u32_at(b, 26, c.header_crc);
    lemma_frame_type_code_roundtrip(c.frame_type);
    lemma_unpack_pack_flags(c.flags.unwrap());
    assert(b.subrange(30, 30 + n as int) =~= payload);
    assert(b.subrange(30 + n as int, 46 + n as int) =~= auth_tag);
    assert(b.subrange(46 + n as int, b.len() as int) =~= rest);
}

/// Replay protection: a well-formed frame whose sequence number is below the
/// receive sequence, or equal to it once a frame was accepted (the same frame
/// again), is refused as a replay, its bytes are consumed, and the receive
/// sequence stays.
pub proof fn lemma_replay_refused(h: FrameHeader, payload: Seq<u8>, auth_tag: Seq<u8>, rest: Seq<u8>, rx: u64, started: bool)
    requires
        h.magic == MAGIC_NUMBER,
        h.flags is Some,
        h.channel_id is Some,
        h.sequence is Some,
        payload.len() <= u32::MAX,
        auth_tag.len() == 16,
        h.sequence.unwrap().value < rx || (started && h.sequence.unwrap().value == rx),
    ensures
        spec_decode(spec_encoded_frame(h, payload, auth_tag) + rest, rx, started) == (DecodeStep {
            outcome: DecodeOutcome::Failed(ProtocolError::ReplayDetected { sequence: h.sequence.unwrap().value }),
            rest,
            rx_sequence: rx,
            rx_started: started,
        }),
{
    let c = spec_completed_header(h, payload.len());
    let code = spec_frame_type_code(c.frame_type);
    let fb = spec_pack_flags(c.flags.unwrap());
    let ch = c.channel_id.unwrap().value;
    let sq = c.sequence.unwrap().value;
    let n = c.payload_length;
    assert(n == payload.len());
    let prefix = header_prefix(MAGIC_NUMBER, c.version, code, fb, ch, sq, n);
    let crcs = le_u32(c.header_crc);
    let b = spec_encoded_frame(h, payload, auth_tag) + rest;
    assert(prefix.len() == 26);
    assert(b =~= prefix + crcs + payload + auth_tag + rest);
    assert(b.subrange(0, 26) =~= prefix);
    assert(b.subrange(0, 4) =~= le_u32(MAGIC_NUMBER));
    assert(b[8] == code);
    assert(b.subrange(14, 22) =~= le_u64(sq));
    assert(b.subrange(22, 26) =~= le_u32(n));
    assert(b.subrange(26, 30) =~= crcs);
    lemma_read_le_u32_at(b, 0, MAGIC_NUMBER);
    lemma_read_le_u64_at(b, 14, sq);
    lemma_read_le_u32_at(b, 22, n);
    lemma_read_le_u32_at(b, 26, c.header_crc);
    lemma_frame_type_code_roundtrip(c.frame_type);
    assert(b.subrange(46 + n as int, b.len() as int) =~= rest);
}

/// The receive sequence never goes back: one decoding step, whatever the
/// bytes, leaves it at least where it was; it moves only forward, past an
/// accepted frame, and once a frame was accepted that stays known.
pub proof fn lemma_rx_sequence_monotone(buf: Seq<u8>, rx: u64, started: bool)
    ensures
        started ==> spec_decode(buf, rx, started).rx_started,
        spec_decode(buf, rx, started).rx_sequence >= rx,
        spec_decode(buf, rx, started).rx_sequence != rx ==> spec_decode(buf, rx, started).rx_sequence > rx
            && spec_decode(buf, rx, started).outcome is Decoded,
{
}

/// The sequence number `n` steps after `tx`, wrapping around.
pub open spec fn seq_after(tx: u64, n: int) -> u64 {
    ((tx as int + n) % 0x1_0000_0000_0000_0000int) as u64
}

/// One more wrapping step.
pub proof fn lemma_seq_after_step(tx: u64, n: int)
    requires
        n >= 0,
    ensures
        vstd::wrapping::u64_specs::wrapping_add(seq_after(tx, n), 1) == seq_after(tx, n + 1),
        seq_after(tx, 0) == tx,
{
    let m = 0x1_0000_0000_0000_0000int;
    let a = tx as int + n;
    vstd::arithmetic::div_mod::lemma_mod_bound(a, m);
    vstd::arithmetic::div_mod::lemma_add_mod_noop(a, 1, m);
    vstd::arithmetic::div_mod::lemma_small_mod(1nat, m as nat);
    vstd::arithmetic::div_mod::lemma_small_mod(tx as nat, m as nat);
    if a % m + 1 < m {
        vstd::arithmetic::div_mod::lemma_small_mod((a % m + 1) as nat, m as nat);
    } else {
        vstd::arithmetic::div_mod::lemma_mod_self_0(m);
    }
}

/// A fragment waiting for the rest of its payload.
pub struct PendingFragment {
    pub header: FrameHeader,
    pub payload: Seq<u8>,
}

/// Index of the first pending fragment on `channel`, or -1.
pub open spec fn find_channel(p: Seq<PendingFragment>, channel: u32) -> int
    decreases p.len(),
{
    if p.len() == 0 {
        -1
    } else {
        let r = find_channel(p.drop_last(), channel);
        if r >= 0 {
            r
        } else if p.last().header.channel_id == Some(ChannelId { value: channel }) {
            p.len() - 1
        } else {
            -1
        }
    }
}

/// The reassembler's state after a frame and what it hands out.
pub struct ReassemblyStep {
    pub pending: Seq<PendingFragment>,
    pub output: Option<FrameView>,
}

/// The header of a reassembled frame.
pub open spec fn spec_reassembled_header(first: FrameHeader, total_len: nat) -> FrameHeader {
    FrameHeader { payload_length: total_len as u32, flags: Some(spec_no_flags()), ..first }
}

/// Feeding one frame to the reassembler.
pub open spec fn spec_reassemble(p: Seq<PendingFragment>, f: FrameView) -> ReassemblyStep {
    let flags = f.header.flags.unwrap();
    if !flags.is_fragment {
        ReassemblyStep { pending: p, output: Some(f) }
    } else {
        let idx = find_channel(p, f.header.channel_id.unwrap().value);
        if idx >= 0 {
            let joined = p[idx].payload + f.payload;
            if flags.is_last_fragment {
                ReassemblyStep {
                    pending: p.remove(idx),
                    output: Some(
                        FrameView {
                            header: spec_reassembled_header(p[idx].header, joined.len()),
                            payload: joined,
                            auth_tag: f.auth_tag,
                        },
                    ),
                }
            } else {
                ReassemblyStep {
                    pending: p.update(idx, PendingFragment { header: p[idx].header, payload: joined }),
                    output: None,
                }
            }
        } else {
            ReassemblyStep {
                pending: p.push(PendingFragment { header: f.header, payload: f.payload }),
                output: None,
            }
        }
    }
}

/// Number of fragments a payload of `len` bytes is cut into, at most `m` bytes each.
pub open spec fn fragment_count(len: nat, m: nat) -> nat {
    if len == 0 || m == 0 {
        0
    } else {
        ((len - 1) / (m as int) + 1) as nat
    }
}

/// End of the `i`-th chunk.
pub open spec fn chunk_end(len: nat, m: nat, i: int) -> int {
    if (i + 1) * m < len {
        (i + 1) * m
    } else {
        len as int
    }
}

/// The `i`-th chunk of at most `m` bytes of `payload`.
pub open spec fn spec_chunk(payload: Seq<u8>, m: nat, i: int) -> Seq<u8> {
    payload.subrange(i * m, chunk_end(payload.len(), m, i))
}

/// The frame that carries one fragment of a payload.
pub open spec fn spec_fragment_frame(
    frame_type: FrameType,
    channel_id: u32,
    flags: FrameFlags,
    sequence: u64,
    last: bool,
    chunk: Seq<u8>,
) -> FrameView {
    FrameView {
        header: FrameHeader {
            magic: MAGIC_NUMBER,
            version: 0x00010000,
            frame_type,
            flags: Some(FrameFlags { is_fragment: true, is_last_fragment: last, ..flags }),
            channel_id: Some(ChannelId { value: channel_id }),
            sequence: Some(SequenceNumber { value: sequence }),
            payload_length: chunk.len() as u32,
            header_crc: 0,
        },
        payload: chunk,
        auth_tag: Seq::empty(),
    }
}

/// The frames a payload longer than `m` bytes is cut into, numbered from `tx`.
pub open spec fn spec_fragments(
    frame_type: FrameType,
    channel_id: u32,
    payload: Seq<u8>,
    flags: FrameFlags,
    tx: u64,
    m: nat,
) -> Seq<FrameView> {
    let n = fragment_count(payload.len(), m);
    Seq::new(
        n,
        |i: int|
            spec_fragment_frame(
                frame_type,
                channel_id,
                flags,
                seq_after(tx, i),
                i == n - 1,
                spec_chunk(payload, m, i),
            ),
    )
}

/// The single frame that carries a payload of at most `max_payload_size` bytes.
pub open spec fn spec_single_frame(
    frame_type: FrameType,
    channel_id: u32,
    payload: Seq<u8>,
    flags: FrameFlags,
    tx: u64,
) -> FrameView {
    FrameView {
        header: FrameHeader {
            magic: MAGIC_NUMBER,
            version: 0x00010000,
            frame_type,
            flags: Some(flags),
            channel_id: Some(ChannelId { value: channel_id }),
            sequence: Some(SequenceNumber { value: tx }),
            payload_length: payload.len() as u32,
            header_crc: 0,
        },
        payload,
        auth_tag: Seq::empty(),
    }
}

/// A chunk starts inside the payload exactly while its index is below the fragment count.
proof fn lemma_chunk_index(i: int, m: int, len: int)
    requires
        m > 0,
        len > 0,
        0 <= i,
    ensures
        (i * m < len) == (i < (len - 1) / m + 1),
        (i + 1) * m == i * m + m,
        i * m >= 0,
{
    let q = (len - 1) / m;
    let r = (len - 1) % m;
    vstd::arithmetic::div_mod::lemma_fundamental_div_mod(len - 1, m);
    vstd::arithmetic::div_mod::lemma_mod_bound(len - 1, m);
    assert((i * m < len) == (i < q + 1)) by (nonlinear_arith)
        requires
            len - 1 == m * q + r,
            0 <= r < m,
            m > 0,
            i >= 0,
    ;
    assert((i + 1) * m == i * m + m) by (nonlinear_arith);
    assert(i * m >= 0) by (nonlinear_arith)
        requires
            i >= 0,
            m > 0,
    ;
}

/// Feeding frames to the reassembler one after another: the final state and
/// every frame it handed out, in order.
pub open spec fn spec_feed(p: Seq<PendingFragment>, frames: Seq<FrameView>) -> (Seq<PendingFragment>, Seq<FrameView>)
    decreases frames.len(),
{
    if frames.len() == 0 {
        (p, Seq::empty())
    } else {
        let prev = spec_feed(p, frames.drop_last());
        let s = spec_reassemble(prev.0, frames.last());
        (
            s.pending,
            match s.output {
                Some(f) => prev.1.push(f),
                None => prev.1,
            },
        )
    }
}

/// Appending a fragment for a channel that had none makes it the first on that channel.
proof fn lemma_find_channel_push(p: Seq<PendingFragment>, x: PendingFragment, channel: u32)
    requires
        find_channel(p, channel) == -1,
        x.header.channel_id == Some(ChannelId { value: channel }),
    ensures
        find_channel(p.push(x), channel) == p.len(),
{
    assert(p.push(x).drop_last() =~= p);
}

/// `find_channel` never points past the end and points at a fragment on the channel.
proof fn lemma_find_channel_bounds(p: Seq<PendingFragment>, channel: u32)
    ensures
        -1 <= find_channel(p, channel) < p.len(),
        find_channel(p, channel) >= 0 ==> p[find_channel(p, channel)].header.channel_id == Some(
            ChannelId { value: channel },
        ),
        find_channel(p, channel) == -1 ==> forall|i: int|
            0 <= i < p.len() ==> p[i].header.channel_id != Some(ChannelId { value: channel }),
    decreases p.len(),
{
    if p.len() > 0 {
        lemma_find_channel_bounds(p.drop_last(), channel);
        if find_channel(p, channel) == -1 {
            assert forall|i: int| 0 <= i < p.len() implies p[i].header.channel_id != Some(
                ChannelId { value: channel },
            ) by {
                if i < p.len() - 1 {
                    assert(p[i] == p.drop_last()[i]);
                }
            }
        }
    }
}

/// The first match in a prefix is the first match overall.
proof fn lemma_find_channel_prefix(p: Seq<PendingFragment>, k: int, channel: u32)
    requires
        0 <= k <= p.len(),
    ensures
        find_channel(p.take(k), channel) >= 0 ==> find_channel(p, channel) == find_channel(p.take(k), channel),
        find_channel(p.take(k), channel) == -1 && k < p.len() && p[k].header.channel_id == Some(
            ChannelId { value: channel },
        ) ==> find_channel(p, channel) == k,
    decreases p.len() - k,
{
    if k < p.len() {
        assert(p.take(k + 1).drop_last() =~= p.take(k));
        assert(p.take(k + 1).last() == p[k]);
        lemma_find_channel_prefix(p, k + 1, channel);
    } else {
        assert(p.take(k) =~= p);
    }
}

/// Each fragment before the last hands nothing out: after the first `k`
/// fragments of a payload (all but the last), fed to a reassembler that
/// holds nothing for their channel, no frame has come out and the
/// reassembler holds one more entry, with the first `k` chunks of the payload.
pub proof fn lemma_fragments_prefix(
    p: Seq<PendingFragment>,
    frame_type: FrameType,
    channel_id: u32,
    payload: Seq<u8>,
    flags: FrameFlags,
    tx: u64,
    m: nat,
    k: int,
)
    requires
        m > 0,
        payload.len() > m,
        find_channel(p, channel_id) == -1,
        1 <= k < fragment_count(payload.len(), m),
    ensures
        ({
            let frames = spec_fragments(frame_type, channel_id, payload, flags, tx, m);
            spec_feed(p, frames.take(k)) == (
                p.push(PendingFragment { header: frames[0].header, payload: payload.subrange(0, k * m) }),
                Seq::<FrameView>::empty(),
            )
        }),
    decreases k,
{
    let frames = spec_fragments(frame_type, channel_id, payload, flags, tx, m);
    let len = payload.len() as int;
    let mi = m as int;
    let h0 = frames[0].header;
    lemma_chunk_index(k - 1, mi, len);
    lemma_chunk_index(k, mi, len);
    if k == 1 {
        assert(frames.take(1).drop_last() =~= Seq::<FrameView>::empty());
        assert(frames.take(1).last() == frames[0]);
        assert(spec_feed(p, Seq::<FrameView>::empty()) == (p, Seq::<FrameView>::empty()));
        assert(spec_chunk(payload, m, 0) =~= payload.subrange(0, mi));
        assert(frames[0].header.flags.unwrap().is_fragment);
        assert(frames[0].header.channel_id.unwrap().value == channel_id);
    } else {
        lemma_fragments_prefix(p, frame_type, channel_id, payload, flags, tx, m, k - 1);
        let x = PendingFragment { header: h0, payload: payload.subrange(0, (k - 1) * mi) };
        lemma_find_channel_push(p, x, channel_id);
        assert(frames.take(k).drop_last() =~= frames.take(k - 1));
        assert(frames.take(k).last() == frames[k - 1]);
        assert(spec_chunk(payload, m, k - 1) =~= payload.subrange((k - 1) * mi, k * mi));
        assert(payload.subrange(0, (k - 1) * mi) + payload.subrange((k - 1) * mi, k * mi) =~= payload.subrange(
            0,
            k * mi,
        ));
        assert(p.push(x).update(p.len() as int, PendingFragment { header: h0, payload: payload.subrange(0, k * mi) })
            =~= p.push(PendingFragment { header: h0, payload: payload.subrange(0, k * mi) }));
    }
}

/// The fragments of one payload, fed in order to a reassembler that holds
/// nothing for their channel, are handed back as one frame carrying the
/// whole payload, on the last fragment, and leave the reassembler as it was.
pub proof fn lemma_fragments_reassemble(
    p: Seq<PendingFragment>,
    frame_type: FrameType,
    channel_id: u32,
    payload: Seq<u8>,
    flags: FrameFlags,
    tx: u64,
    m: nat,
)
    requires
        m > 0,
        payload.len() > m,
        find_channel(p, channel_id) == -1,
    ensures
        ({
            let frames = spec_fragments(frame_type, channel_id, payload, flags, tx, m);
            spec_feed(p, frames) == (
                p,
                seq![
                    FrameView {
                        header: spec_reassembled_header(frames[0].header, payload.len()),
                        payload,
                        auth_tag: Seq::<u8>::empty(),
                    },
                ],
            )
        }),
{
    let frames = spec_fragments(frame_type, channel_id, payload, flags, tx, m);
    let n = fragment_count(payload.len(), m);
    let len = payload.len() as int;
    let mi = m as int;
    lemma_chunk_index(1, mi, len);
    assert(n >= 2);
    let k = n - 1;
    lemma_fragments_prefix(p, frame_type, channel_id, payload, flags, tx, m, k);
    lemma_chunk_index(k, mi, len);
    lemma_chunk_index(k + 1, mi, len);
    let h0 = frames[0].header;
    let x = PendingFragment { header: h0, payload: payload.subrange(0, k * mi) };
    lemma_find_channel_push(p, x, channel_id);
    assert(frames.take(k + 1).drop_last() =~= frames.take(k));
    assert(frames.take(k + 1).last() == frames[k]);
    assert(spec_chunk(payload, m, k) =~= payload.subrange(k * mi, len));
    assert(payload.subrange(0, k * mi) + payload.subrange(k * mi, len) =~= payload);
    assert(p.push(x).remove(p.len() as int) =~= p);
    assert(frames.take(n as int) =~= frames);
}

/// Pending fragments always name their channel.
pub open spec fn pending_wf(p: Seq<PendingFragment>) -> bool {
    forall|i: int| 0 <= i < p.len() ==> (#[trigger] p[i]).header.channel_id is Some
}

/// Fragment buffer of the frame codec.
#[derive(Debug)]
pub struct FrameFragment {
    pub header: FrameHeader,
    pub payload: Vec<u8>,
    pub fragment_index: u32,
    pub total_fragments: u32,
}

/// Frame codec: sequence numbers, encoding, decoding and fragmentation.
pub struct FrameCodec {
    pub max_payload_size: usize,
    /// The sequence number of the last frame accepted.
    pub rx_sequence: u64,
    /// Whether a frame was accepted since the codec was made or reset.
    pub rx_started: bool,
    pub tx_sequence: u64,
    pub rx_fragments: Vec<FrameFragment>,
}

impl FrameCodec {
    /// The fragments waiting for the rest of their payload.
    pub open spec fn pending(&self) -> Seq<PendingFragment> {
        self.rx_fragments@.map_values(|f: FrameFragment| PendingFragment { header: f.header, payload: f.payload@ })
    }

    /// Create a new frame codec.
    pub fn new(max_payload_size: usize) -> (r: Self)
        ensures
            r.max_payload_size == (if max_payload_size < MAX_FRAME_PAYLOAD_SIZE {
                max_payload_size
            } else {
                MAX_FRAME_PAYLOAD_SIZE
            }),
            r.rx_sequence == 0,
            !r.rx_started,
            r.tx_sequence == 0,
            r.pending() == Seq::<PendingFragment>::empty(),
    {
        let r = FrameCodec {
            max_payload_size: if max_payload_size < MAX_FRAME_PAYLOAD_SIZE {
                max_payload_size
            } else {
                MAX_FRAME_PAYLOAD_SIZE
            },
            rx_sequence: 0,
            rx_started: false,
            tx_sequence: 0,
            rx_fragments: Vec::new(),
        };
        assert(r.pending() =~= Seq::<PendingFragment>::empty());
        r
    }

    /// Create with default settings.
    pub fn default() -> (r: Self)
        ensures
            r.max_payload_size == DEFAULT_MAX_FRAME_SIZE,
            r.rx_sequence == 0,
            !r.rx_started,
            r.tx_sequence == 0,
            r.pending() == Seq::<PendingFragment>::empty(),
    {
        Self::new(DEFAULT_MAX_FRAME_SIZE as usize)
    }

    /// Pack flags into a single byte.
    fn pack_flags(&self, flags: &FrameFlags) -> (r: u8)
        ensures
            r == spec_pack_flags(*flags),
    {
        (if flags.is_fragment { 1u8 } else { 0u8 }) | (if flags.is_last_fragment { 2u8 } else { 0u8 }) | (
        if flags.encrypted {
            4u8
        } else {
            0u8
        }) | (if flags.authenticated { 8u8 } else { 0u8 }) | (if flags.compressed { 16u8 } else { 0u8 }) | (
        if flags.priority {
            32u8
        } else {
            0u8
        }) | (if flags.ack_required { 64u8 } else { 0u8 }) | (if flags.reset_sequence { 128u8 } else { 0u8 })
    }

    /// Unpack a flags byte.
    fn unpack_flags(&self, byte: u8) -> (r: FrameFlags)
        ensures
            r == spec_unpack_flags(byte),
    {
        FrameFlags {
            is_fragment: byte & 1u8 != 0,
            is_last_fragment: byte & 2u8 != 0,
            encrypted: byte & 4u8 != 0,
            authenticated: byte & 8u8 != 0,
            compressed: byte & 16u8 != 0,
            priority: byte & 32u8 != 0,
            ack_required: byte & 64u8 != 0,
            reset_sequence: byte & 128u8 != 0,
            retransmission: false,
        }
    }

    /// CRC of a frame header, over the 26 leading bytes written for it.
    fn calculate_header_crc(&self, header: &FrameHeader) -> (r: u32)
        requires
            header.flags is Some,
            header.channel_id is Some,
            header.sequence is Some,
        ensures
            r == spec_header_crc(*header),
    {
        let mut buf: Vec<u8> = Vec::new();
        put_u32_le(&mut buf, MAGIC_NUMBER);
        put_u32_le(&mut buf, header.version);
        buf.push(frame_type_code(header.frame_type));
        let flags = header.flags.unwrap();
        buf.push(self.pack_flags(&flags));
        put_u32_le(&mut buf, header.channel_id.unwrap().value);
        put_u64_le(&mut buf, header.sequence.unwrap().value);
        put_u32_le(&mut buf, header.payload_length);
        assert(buf@ =~= header_prefix(
            MAGIC_NUMBER,
            header.version,
            spec_frame_type_code(header.frame_type),
            spec_pack_flags(header.flags.unwrap()),
            header.channel_id.unwrap().value,
            header.sequence.unwrap().value,
            header.payload_length,
        ));
        crc32c_of(buf.as_slice())
    }

    /// CRC of raw header bytes (the 26 bytes before the CRC field).
    fn calculate_header_crc_raw(&self, header_bytes: &[u8]) -> (r: u32)
        requires
            header_bytes@.len() >= 26,
        ensures
            r == crc32c(header_bytes@.subrange(0, 26)),
    {
        let crc_data = copy_range(header_bytes, 0, 26);
        crc32c_of(crc_data.as_slice())
    }

    /// Encode a frame: stamp it with the next send sequence number, fill in
    /// its payload length and header CRC, and lay it out on the wire.
    pub fn encode(&mut self, frame: Frame) -> (r: Result<Vec<u8>, ProtocolError>)
        requires
            frame.header.flags is Some,
            frame.header.channel_id is Some,
        ensures
            final(self).tx_sequence == vstd::wrapping::u64_specs::wrapping_add(old(self).tx_sequence, 1),
            final(self).rx_sequence == old(self).rx_sequence,
            final(self).rx_started == old(self).rx_started,
            final(self).max_payload_size == old(self).max_payload_size,
            final(self).pending() == old(self).pending(),
            r matches Ok(bytes) && bytes@ == spec_encoded_frame(
                FrameHeader {
                    sequence: Some(SequenceNumber { value: old(self).tx_sequence }),
                    ..frame.header
                },
                frame.payload@,
                frame.auth_tag@,
            ),
    {
        let mut frame = frame;
        frame.header.sequence = Some(SequenceNumber { value: self.tx_sequence });
        self.tx_sequence = self.tx_sequence.wrapping_add(1);
        let ghost h0 = frame.header;
        frame.header.payload_length = frame.payload.len() as u32;
        frame.header.header_crc = self.calculate_header_crc(&frame.header);
        let ghost c = frame.header;
        assert(c == spec_completed_header(h0, frame.payload@.len()));
        let mut buf: Vec<u8> = Vec::new();
        put_u32_le(&mut buf, MAGIC_NUMBER);
        put_u32_le(&mut buf, frame.header.version);
        buf.push(frame_type_code(frame.header.frame_type));
        let flags = frame.header.flags.unwrap();
        buf.push(self.pack_flags(&flags));
        let channel = match frame.header.channel_id {
            Some(c) => c.value,
            None => 0,
        };
        put_u32_le(&mut buf, channel);
        let sequence = match frame.header.sequence {
            Some(s) => s.value,
            None => 0,
        };
        put_u64_le(&mut buf, sequence);
        put_u32_le(&mut buf, frame.header.payload_length);
        put_u32_le(&mut buf, frame.header.header_crc);
        append_bytes(&mut buf, frame.payload.as_slice());
        append_bytes(&mut buf, frame.auth_tag.as_slice());
        assert(buf@ =~= spec_encoded_frame(h0, frame.payload@, frame.auth_tag@));
        Ok(buf)
    }

    /// Decode one frame from the front of `buf`.
    ///
    /// Returns `Ok(None)` while the buffer does not hold a whole frame. A
    /// frame whose CRC checks out is removed from the buffer; it is then
    /// rejected as a replay if its sequence number is below the receive
    /// sequence, or equal to it once a frame was accepted.
    pub fn decode(&mut self, buf: &mut Vec<u8>) -> (r: Result<Option<Frame>, ProtocolError>)
        ensures
            ({
                let s = spec_decode(old(buf)@, old(self).rx_sequence, old(self).rx_started);
                &&& decode_result_is(r, s.outcome)
                &&& final(buf)@ == s.rest
                &&& final(self).rx_sequence == s.rx_sequence
                &&& final(self).rx_started == s.rx_started
            }),
            final(self).tx_sequence == old(self).tx_sequence,
            final(self).max_payload_size == old(self).max_payload_size,
            final(self).pending() == old(self).pending(),
    {
        if buf.len() < 46 {
            return Ok(None);
        }
        let magic = get_u32_le(buf.as_slice(), 0);
        if magic != MAGIC_NUMBER {
            return Err(ProtocolError::InvalidMagic { expected: MAGIC_NUMBER, actual: magic });
        }
        let version = get_u32_le(buf.as_slice(), 4);
        let type_byte = buf[8];
        let frame_type = match frame_type_from_code(type_byte) {
            Some(t) => t,
            None => {
                return Err(ProtocolError::UnknownFrameType { frame_type: type_byte });
            },
        };
        let flags_byte = buf[9];
        let channel_id = get_u32_le(buf.as_slice(), 10);
        let sequence = get_u64_le(buf.as_slice(), 14);
        let payload_length = get_u32_le(buf.as_slice(), 22);
        let header_crc = get_u32_le(buf.as_slice(), 26);

        // Check total frame size: header + payload + auth tag.
        let total: u64 = 46 + payload_length as u64;
        if (buf.len() as u64) < total {
            return Ok(None);
        }

        let calc_crc = self.calculate_header_crc_raw(buf.as_slice());
        if calc_crc != header_crc {
            return Err(ProtocolError::ChecksumMismatch { expected: header_crc, actual: calc_crc });
        }

        let payload_end = 30 + payload_length as usize;
        let total_size = total as usize;
        let payload = copy_range(buf.as_slice(), 30, payload_end);
        let auth_tag = copy_range(buf.as_slice(), payload_end, total_size);
        let rest = copy_range(buf.as_slice(), total_size, buf.len());
        *buf = rest;

        // Replay protection.
        if sequence < self.rx_sequence || (self.rx_started && sequence == self.rx_sequence) {
            return Err(ProtocolError::ReplayDetected { sequence });
        }
        self.rx_sequence = sequence;
        self.rx_started = true;

        let flags = self.unpack_flags(flags_byte);
        let header = FrameHeader {
            magic,
            version,
            frame_type,
            flags: Some(flags),
            channel_id: Some(ChannelId { value: channel_id }),
            sequence: Some(SequenceNumber { value: sequence }),
            payload_length,
            header_crc,
        };
        Ok(Some(Frame { header, payload, auth_tag }))
    }

    /// Cut a payload into frames of at most `max_payload_size` bytes.
    ///
    /// A payload that fits is returned as one frame; the send sequence
    /// advances by one (the frame is encoded once on the way). A longer
    /// payload is cut into chunks, each flagged as a fragment, the last one
    /// flagged as such, numbered with consecutive send sequence numbers.
    pub fn encode_fragment(
        &mut self,
        frame_type: FrameType,
        channel_id: u32,
        payload: &[u8],
        flags: FrameFlags,
    ) -> (r: Result<Vec<Frame>, ProtocolError>)
        requires
            payload@.len() <= old(self).max_payload_size || old(self).max_payload_size > 0,
        ensures
            final(self).rx_sequence == old(self).rx_sequence,
            final(self).rx_started == old(self).rx_started,
            final(self).max_payload_size == old(self).max_payload_size,
            final(self).pending() == old(self).pending(),
            r is Ok,
            payload@.len() <= old(self).max_payload_size ==> {
                &&& final(self).tx_sequence == seq_after(old(self).tx_sequence, 1)
                &&& r->Ok_0@.len() == 1
                &&& r->Ok_0@[0]@ == spec_single_frame(
                    frame_type,
                    channel_id,
                    payload@,
                    flags,
                    old(self).tx_sequence,
                )
            },
            payload@.len() > old(self).max_payload_size ==> {
                let frags = spec_fragments(
                    frame_type,
                    channel_id,
                    payload@,
                    flags,
                    old(self).tx_sequence,
                    old(self).max_payload_size as nat,
                );
                &&& final(self).tx_sequence == seq_after(old(self).tx_sequence, frags.len() as int)
                &&& r->Ok_0@.len() == frags.len()
                &&& forall|i: int| 0 <= i < frags.len() ==> (#[trigger] r->Ok_0@[i])@ == frags[i]
            },
    {
        let mut frames: Vec<Frame> = Vec::new();
        let ghost tx0 = self.tx_sequence;
        proof {
            lemma_seq_after_step(tx0, 0);
        }
        if payload.len() <= self.max_payload_size {
            // Single frame.
            let frame = Frame {
                header: FrameHeader {
                    magic: MAGIC_NUMBER,
                    version: 0x00010000,
                    frame_type,
                    flags: Some(flags),
                    channel_id: Some(ChannelId { value: channel_id }),
                    sequence: Some(SequenceNumber { value: self.tx_sequence }),
                    payload_length: payload.len() as u32,
                    header_crc: 0,
                },
                payload: clone_bytes(payload),
                auth_tag: Vec::new(),
            };
            let _encoded = self.encode(frame.clone())?;
            frames.push(frame);
            assert(frames@[0]@ == spec_single_frame(frame_type, channel_id, payload@, flags, tx0));
        } else {
            // Fragment.
            let m = self.max_payload_size;
            let len = payload.len();
            let total_fragments = (len - 1) / m + 1;
            let ghost frags = spec_fragments(frame_type, channel_id, payload@, flags, tx0, m as nat);
            assert(total_fragments == frags.len());
            let mut i: usize = 0;
            let mut start: usize = 0;
            while start < len
                invariant
                    m == self.max_payload_size,
                    m > 0,
                    len == payload@.len(),
                    len > m,
                    total_fragments == frags.len(),
                    total_fragments == (len - 1) / (m as int) + 1,
                    frags == spec_fragments(frame_type, channel_id, payload@, flags, tx0, m as nat),
                    i < total_fragments ==> start == i * m,
                    i == total_fragments ==> start == len,
                    start <= len,
                    (i < total_fragments) == (start < len),
                    i <= total_fragments,
                    self.tx_sequence == seq_after(tx0, i as int),
                    self.rx_sequence == old(self).rx_sequence,
                    self.rx_started == old(self).rx_started,
                    self.max_payload_size == old(self).max_payload_size,
                    self.pending() == old(self).pending(),
                    frames@.len() == i,
                    forall|k: int| 0 <= k < i ==> (#[trigger] frames@[k])@ == frags[k],
                decreases len - start,
            {
                proof {
                    lemma_chunk_index(i as int, m as int, len as int);
                    lemma_chunk_index(i as int + 1, m as int, len as int);
                    lemma_seq_after_step(tx0, i as int);
                }
                let end = if len - start > m {
                    start + m
                } else {
                    len
                };
                let mut frag_flags = flags;
                frag_flags.is_fragment = true;
                frag_flags.is_last_fragment = i == total_fragments - 1;
                let chunk = copy_range(payload, start, end);
                let frame = Frame {
                    header: FrameHeader {
                        magic: MAGIC_NUMBER,
                        version: 0x00010000,
                        frame_type,
                        flags: Some(frag_flags),
                        channel_id: Some(ChannelId { value: channel_id }),
                        sequence: Some(SequenceNumber { value: self.tx_sequence }),
                        payload_length: chunk.len() as u32,
                        header_crc: 0,
                    },
                    payload: chunk,
                    auth_tag: Vec::new(),
                };
                assert(frame@ == frags[i as int]);
                frames.push(frame);
                self.tx_sequence = self.tx_sequence.wrapping_add(1);
                i = i + 1;
                start = end;
            }
        }
        Ok(frames)
    }

    /// Feed a frame to the reassembler.
    ///
    /// A frame that is not a fragment is handed back as it is. A fragment is
    /// appended to the first pending fragment on its channel, or starts a new
    /// pending entry; the last fragment of an entry completes it and the
    /// joined frame is handed back.
    pub fn reassemble_fragment(&mut self, frame: Frame) -> (r: Result<Option<Frame>, ProtocolError>)
        requires
            frame.header.flags is Some,
            frame.header.flags.unwrap().is_fragment ==> frame.header.channel_id is Some,
            frame.header.flags.unwrap().is_fragment ==> frame.header.sequence is Some,
        ensures
            ({
                let s = spec_reassemble(old(self).pending(), frame@);
                &&& final(self).pending() == s.pending
                &&& r matches Ok(o) && match s.output {
                    None => o is None,
                    Some(v) => o matches Some(f) && f@ == v,
                }
            }),
            final(self).rx_sequence == old(self).rx_sequence,
            final(self).rx_started == old(self).rx_started,
            final(self).tx_sequence == old(self).tx_sequence,
            final(self).max_payload_size == old(self).max_payload_size,
    {
        let flags = frame.header.flags.unwrap();
        if !flags.is_fragment {
            return Ok(Some(frame));
        }
        let channel = frame.header.channel_id.unwrap().value;
        let ghost p = self.pending();

        // Find the first pending fragment on this channel.
        let mut idx: usize = 0;
        let mut found = false;
        assert(p.take(p.len() as int) =~= p);
        while idx < self.rx_fragments.len()
            invariant_except_break
                idx <= self.rx_fragments@.len(),
                p == self.pending(),
                p.take(p.len() as int) == p,
                !found,
                find_channel(p.take(idx as int), channel) == -1,
            ensures
                p == self.pending(),
                found ==> idx < p.len() && find_channel(p, channel) == idx,
                !found ==> find_channel(p, channel) == -1,
            decreases self.rx_fragments@.len() - idx,
        {
            proof {
                lemma_find_channel_prefix(p, idx as int, channel);
            }
            let matches = match self.rx_fragments[idx].header.channel_id {
                Some(c) => c.value == channel,
                None => false,
            };
            if matches {
                assert(p[idx as int].header.channel_id == Some(ChannelId { value: channel }));
                found = true;
                break;
            }
            assert(p.take(idx + 1).drop_last() =~= p.take(idx as int));
            idx = idx + 1;
        }
        proof {
            if !found {
                assert(p.take(p.len() as int) =~= p);
            }
        }

        if found {
            let mut fragment = self.rx_fragments.remove(idx);
            append_bytes(&mut fragment.payload, frame.payload.as_slice());
            if flags.is_last_fragment {
                let mut complete = fragment.header;
                complete.payload_length = fragment.payload.len() as u32;
                complete.flags = Some(FrameFlags::default());
                let result = Frame { header: complete, payload: fragment.payload, auth_tag: frame.auth_tag };
                assert(self.pending() =~= p.remove(idx as int));
                Ok(Some(result))
            } else {
                self.rx_fragments.insert(idx, fragment);
                assert(self.pending() =~= p.update(
                    idx as int,
                    PendingFragment { header: p[idx as int].header, payload: p[idx as int].payload + frame.payload@ },
                ));
                Ok(None)
            }
        } else {
            // New fragment sequence.
            self.rx_fragments.push(
                FrameFragment {
                    header: frame.header,
                    payload: frame.payload,
                    fragment_index: 0,
                    total_fragments: 0,
                },
            );
            assert(self.pending() =~= p.push(PendingFragment { header: frame.header, payload: frame.payload@ }));
            Ok(None)
        }
    }

    /// Get the next send sequence number.
    pub fn next_tx_sequence(&mut self) -> (r: u64)
        ensures
            r == old(self).tx_sequence,
            final(self).tx_sequence == vstd::wrapping::u64_specs::wrapping_add(old(self).tx_sequence, 1),
            final(self).rx_sequence == old(self).rx_sequence,
            final(self).rx_started == old(self).rx_started,
            final(self).max_payload_size == old(self).max_payload_size,
            final(self).pending() == old(self).pending(),
    {
        let seq = self.tx_sequence;
        self.tx_sequence = self.tx_sequence.wrapping_add(1);
        seq
    }

    /// Get the current receive sequence number.
    pub fn rx_sequence(&self) -> (r: u64)
        ensures
            r == self.rx_sequence,
    {
        self.rx_sequence
    }

    /// Reset sequence numbers (for reconnection).
    pub fn reset_sequences(&mut self)
        ensures
            final(self).rx_sequence == 0,
            !final(self).rx_started,
            final(self).tx_sequence == 0,
            final(self).max_payload_size == old(self).max_payload_size,
            final(self).pending() == old(self).pending(),
    {
        self.rx_sequence = 0;
        self.rx_started = false;
        self.tx_sequence = 0;
    }
}

/// Flags of a control frame: authenticated, acknowledgement required.
pub open spec fn spec_control_flags() -> FrameFlags {
    FrameFlags { authenticated: true, ack_required: true, ..spec_no_flags() }
}

/// A control frame carrying an encoded message.
pub open spec fn spec_control_frame(frame_type: FrameType, payload: Seq<u8>, channel_id: u32, sequence: u64) -> FrameView {
    FrameView {
        header: FrameHeader {
            magic: MAGIC_NUMBER,
            version: 0x00010000,
            frame_type,
            flags: Some(spec_control_flags()),
            channel_id: Some(ChannelId { value: channel_id }),
            sequence: Some(SequenceNumber { value: sequence }),
            payload_length: payload.len() as u32,
            header_crc: 0,
        },
        payload,
        auth_tag: Seq::empty(),
    }
}

/// Build a control frame around an encoded message.
pub fn build_control_frame(frame_type: FrameType, payload: &[u8], channel_id: u32, sequence: u64) -> (r: Result<
    Frame,
    ProtocolError,
>)
    ensures
        r matches Ok(f) && f@ == spec_control_frame(frame_type, payload@, channel_id, sequence),
{
    let buf = clone_bytes(payload);
    Ok(
        Frame {
            header: FrameHeader {
                magic: MAGIC_NUMBER,
                version: 0x00010000,
                frame_type,
                flags: Some(
                    FrameFlags {
                        is_fragment: false,
                        is_last_fragment: false,
                        encrypted: false,
                        authenticated: true,
                        compressed: false,
                        priority: false,
                        ack_required: true,
                        reset_sequence: false,
                        retransmission: false,
                    },
                ),
                channel_id: Some(ChannelId { value: channel_id }),
                sequence: Some(SequenceNumber { value: sequence }),
                payload_length: buf.len() as u32,
                header_crc: 0,
            },
            payload: buf,
            auth_tag: Vec::new(),
        },
    )
}

/// Build a session open request frame from the encoded request.
pub fn build_session_open_request(request: &[u8], sequence: u64) -> (r: Result<Frame, ProtocolError>)
    ensures
        r matches Ok(f) && f@ == spec_control_frame(FrameType::SessionOpen, request@, CONTROL_CHANNEL_ID, sequence),
{
    build_control_frame(FrameType::SessionOpen, request, CONTROL_CHANNEL_ID, sequence)
}

/// Build a session open response frame from the encoded response.
pub fn build_session_open_response(response: &[u8], sequence: u64) -> (r: Result<Frame, ProtocolError>)
    ensures
        r matches Ok(f) && f@ == spec_control_frame(
            FrameType::SessionOpenAck,
            response@,
            CONTROL_CHANNEL_ID,
            sequence,
        ),
{
    build_control_frame(FrameType::SessionOpenAck, response, CONTROL_CHANNEL_ID, sequence)
}

/// Keepalive message.
#[derive(Debug, Clone, Copy, PartialEq, Eq, Structural)]
pub struct KeepAlive {
    pub timestamp: Option<crate::pb::Timestamp>,
    pub sequence: u32,
}

/// The keepalive message for a sequence number and a timestamp in milliseconds.
pub fn keepalive_message(sequence: u64, timestamp: u64) -> (r: KeepAlive)
    ensures
        r == (KeepAlive {
            timestamp: Some(crate::pb::Timestamp { value: timestamp as i64 }),
            sequence: sequence as u32,
        }),
{
    KeepAlive {
        timestamp: Some(crate::pb::Timestamp { value: timestamp as i64 }),
        sequence: sequence as u32,
    }
}

/// Build a keepalive frame from the encoded keepalive message.
pub fn build_keepalive(sequence: u64, keepalive: &[u8]) -> (r: Result<Frame, ProtocolError>)
    ensures
        r matches Ok(f) && f@ == spec_control_frame(FrameType::Keepalive, keepalive@, CONTROL_CHANNEL_ID, sequence),
{
    build_control_frame(FrameType::Keepalive, keepalive, CONTROL_CHANNEL_ID, sequence)
}

/// Build a capability negotiation frame from the encoded request.
pub fn build_capability_negotiate(request: &[u8], sequence: u64) -> (r: Result<Frame, ProtocolError>)
    ensures
        r matches Ok(f) && f@ == spec_control_frame(
            FrameType::CapabilityNegotiate,
            request@,
            CONTROL_CHANNEL_ID,
            sequence,
        ),
{
    build_control_frame(FrameType::CapabilityNegotiate, request, CONTROL_CHANNEL_ID, sequence)
}

/// Build an authentication challenge frame from the encoded challenge.
pub fn build_auth_challenge(challenge: &[u8], sequence: u64) -> (r: Result<Frame, ProtocolError>)
    ensures
        r matches Ok(f) && f@ == spec_control_frame(
            FrameType::AuthChallenge,
            challenge@,
            CONTROL_CHANNEL_ID,
            sequence,
        ),
{
    build_control_frame(FrameType::AuthChallenge, challenge, CONTROL_CHANNEL_ID, sequence)
}

/// Build an authentication response frame from the encoded response.
pub fn build_auth_response(response: &[u8], sequence: u64) -> (r: Result<Frame, ProtocolError>)
    ensures
        r matches Ok(f) && f@ == spec_control_frame(
            FrameType::AuthResponse,
            response@,
            CONTROL_CHANNEL_ID,
            sequence,
        ),
{
    build_control_frame(FrameType::AuthResponse, response, CONTROL_CHANNEL_ID, sequence)
}

/// Build a channel open request frame from the encoded request.
pub fn build_channel_open_request(request: &[u8], sequence: u64) -> (r: Result<Frame, ProtocolError>)
    ensures
        r matches Ok(f) && f@ == spec_control_frame(FrameType::ChannelOpen, request@, CONTROL_CHANNEL_ID, sequence),
{
    build_control_frame(FrameType::ChannelOpen, request, CONTROL_CHANNEL_ID, sequence)
}

/// Build a flow control update frame from the encoded update.
pub fn build_flow_control_update(update: &[u8], sequence: u64) -> (r: Result<Frame, ProtocolError>)
    ensures
        r matches Ok(f) && f@ == spec_control_frame(FrameType::FlowControl, update@, CONTROL_CHANNEL_ID, sequence),
{
    build_control_frame(FrameType::FlowControl, update, CONTROL_CHANNEL_ID, sequence)
}

/// Copies `b[from..to]`.
pub fn copy_range(b: &[u8], from: usize, to: usize) -> (r: Vec<u8>)
    requires
        from <= to <= b@.len(),
    ensures
        r@ == b@.subrange(from as int, to as int),
{
    let mut r: Vec<u8> = Vec::new();
    let mut i: usize = from;
    while i < to
        invariant
            from <= i <= to <= b@.len(),
            r@ == b@.subrange(from as int, i as int),
        decreases to - i,
    {
        r.push(b[i]);
        i = i + 1;
        assert(r@ =~= b@.subrange(from as int, i as int));
    }
    r
}

/// Appends the bytes of `src` to `buf`.
pub fn append_bytes(buf: &mut Vec<u8>, src: &[u8])
    ensures
        final(buf)@ == old(buf)@ + src@,
{
    let mut i: usize = 0;
    while i < src.len()
        invariant
            i <= src@.len(),
            buf@ == old(buf)@ + src@.subrange(0, i as int),
        decreases src.len() - i,
    {
        buf.push(src[i]);
        i = i + 1;
        assert(buf@ =~= old(buf)@ + src@.subrange(0, i as int));
    }
    assert(src@.subrange(0, src@.len() as int) =~= src@);
}

} // verus!
