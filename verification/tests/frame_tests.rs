use bpl::error::ProtocolError;
use bpl::frame::{Frame, FrameCodec};
use bpl::pb::{ChannelId, FrameFlags, FrameHeader, FrameType, SequenceNumber};
use bpl::MAGIC_NUMBER;

fn data_frame(payload: &[u8], channel: u32, sequence: u64) -> Frame {
    Frame {
        header: FrameHeader {
            magic: MAGIC_NUMBER,
            version: 0x00010000,
            frame_type: FrameType::Data,
            flags: Some(FrameFlags {
                is_fragment: false,
                is_last_fragment: false,
                encrypted: false,
                authenticated: true,
                compressed: false,
                priority: false,
                ack_required: false,
                reset_sequence: false,
                retransmission: false,
            }),
            channel_id: Some(ChannelId { value: channel }),
            sequence: Some(SequenceNumber { value: sequence }),
            payload_length: payload.len() as u32,
            header_crc: 0,
        },
        payload: payload.to_vec(),
        auth_tag: vec![0u8; 16],
    }
}

#[test]
fn test_frame_codec_roundtrip() {
    let mut codec = FrameCodec::default();
    let frame = data_frame(b"test", 1, 1);

    let encoded = codec.encode(frame.clone()).unwrap();
    let mut buf = encoded.clone();
    let decoded = codec.decode(&mut buf).unwrap().unwrap();

    assert_eq!(decoded.payload, frame.payload);
    assert_eq!(decoded.header.channel_id, frame.header.channel_id);
    assert_eq!(decoded.header.frame_type, frame.header.frame_type);
}

#[test]
fn test_fragment_reassembly() {
    let mut codec = FrameCodec::new(10);

    let payload = b"Hello, World! This is a test message for fragmentation.";
    let frames = codec.encode_fragment(FrameType::Data, 1, payload, FrameFlags::default()).unwrap();

    assert!(frames.len() > 1);

    let mut reassembled = None;
    for frame in frames {
        if let Some(frame) = codec.reassemble_fragment(frame).unwrap() {
            reassembled = Some(frame);
        }
    }

    assert!(reassembled.is_some());
    assert_eq!(&reassembled.unwrap().payload[..], payload);
}

#[test]
fn frame_partial_buffer_waits() {
    let mut codec = FrameCodec::default();
    let encoded = codec.encode(data_frame(b"hello", 2, 0)).unwrap();
    let mut buf = encoded[..encoded.len() - 1].to_vec();
    let before = buf.clone();
    assert!(codec.decode(&mut buf).unwrap().is_none());
    assert_eq!(buf, before);
}

#[test]
fn frame_bad_magic_is_rejected() {
    let mut codec = FrameCodec::default();
    let mut encoded = codec.encode(data_frame(b"hello", 2, 0)).unwrap();
    encoded[0] ^= 0xff;
    let mut buf = encoded;
    match codec.decode(&mut buf) {
        Err(ProtocolError::InvalidMagic { expected, .. }) => assert_eq!(expected, MAGIC_NUMBER),
        other => panic!("unexpected {:?}", other),
    }
}

#[test]
fn frame_corrupted_header_fails_checksum() {
    let mut codec = FrameCodec::default();
    let mut encoded = codec.encode(data_frame(b"hello", 2, 0)).unwrap();
    encoded[10] ^= 0x01;
    let mut buf = encoded;
    assert!(matches!(codec.decode(&mut buf), Err(ProtocolError::ChecksumMismatch { .. })));
}

#[test]
fn frame_old_sequence_is_replay() {
    let mut sender = FrameCodec::default();
    let first = sender.encode(data_frame(b"a", 1, 0)).unwrap();
    let second = sender.encode(data_frame(b"b", 1, 0)).unwrap();
    let mut receiver = FrameCodec::default();
    let mut buf = second;
    buf.extend_from_slice(&first);
    let got = receiver.decode(&mut buf).unwrap().unwrap();
    assert_eq!(got.header.sequence, Some(SequenceNumber { value: 1 }));
    assert!(matches!(receiver.decode(&mut buf), Err(ProtocolError::ReplayDetected { sequence: 0 })));
    assert_eq!(receiver.rx_sequence(), 1);
}

#[test]
fn frame_flags_roundtrip_through_encoding() {
    let mut codec = FrameCodec::default();
    let mut frame = data_frame(b"x", 3, 0);
    frame.header.flags = Some(FrameFlags {
        is_fragment: true,
        is_last_fragment: false,
        encrypted: true,
        authenticated: false,
        compressed: true,
        priority: false,
        ack_required: true,
        reset_sequence: false,
        retransmission: true,
    });
    let encoded = codec.encode(frame.clone()).unwrap();
    let mut buf = encoded;
    let decoded = codec.decode(&mut buf).unwrap().unwrap();
    // Eight flags fit the flags byte; the retransmission flag does not travel.
    let mut expected = frame.header.flags.unwrap();
    expected.retransmission = false;
    assert_eq!(decoded.header.flags, Some(expected));
}

#[test]
fn frame_sequence_is_stamped_by_the_codec() {
    let mut codec = FrameCodec::default();
    codec.encode(data_frame(b"1", 1, 77)).unwrap();
    let bytes = codec.encode(data_frame(b"2", 1, 77)).unwrap();
    let mut receiver = FrameCodec::default();
    let mut buf = bytes;
    let decoded = receiver.decode(&mut buf).unwrap().unwrap();
    assert_eq!(decoded.header.sequence, Some(SequenceNumber { value: 1 }));
    assert_eq!(decoded.header.payload_length, 1);
}

#[test]
fn fragments_cover_the_payload() {
    let mut codec = FrameCodec::new(4);
    let frames = codec.encode_fragment(FrameType::Data, 2, b"abcdefghij", FrameFlags::default()).unwrap();
    assert_eq!(frames.len(), 3);
    let joined: Vec<u8> = frames.iter().flat_map(|f| f.payload.clone()).collect();
    assert_eq!(joined, b"abcdefghij".to_vec());
    assert!(frames[2].header.flags.unwrap().is_last_fragment);
    assert!(!frames[0].header.flags.unwrap().is_last_fragment);
    assert_eq!(codec.next_tx_sequence(), 3);
}

#[test]
fn frame_layout_and_header_checksum() {
    let mut codec = FrameCodec::default();
    let encoded = codec.encode(data_frame(b"abc", 7, 0)).unwrap();
    assert_eq!(encoded.len(), 30 + 3 + 16);
    assert_eq!(&encoded[0..4], &MAGIC_NUMBER.to_le_bytes());
    assert_eq!(&encoded[4..8], &0x00010000u32.to_le_bytes());
    assert_eq!(&encoded[10..14], &7u32.to_le_bytes());
    assert_eq!(&encoded[22..26], &3u32.to_le_bytes());
    assert_eq!(&encoded[26..30], &crc::Crc::<u32>::new(&crc::CRC_32_ISCSI).checksum(&encoded[0..26]).to_le_bytes());
    assert_eq!(&encoded[30..33], b"abc");
}

#[test]
fn frame_decoded_twice_is_a_replay() {
    let mut sender = FrameCodec::default();
    let bytes = sender.encode(data_frame(b"once", 2, 0)).unwrap();
    let mut receiver = FrameCodec::default();
    let mut buf = bytes.clone();
    let first = receiver.decode(&mut buf).unwrap().unwrap();
    assert_eq!(first.header.sequence, Some(SequenceNumber { value: 0 }));
    assert_eq!(receiver.rx_sequence(), 0);
    let mut again = bytes;
    assert!(matches!(receiver.decode(&mut again), Err(ProtocolError::ReplayDetected { sequence: 0 })));
    assert!(again.is_empty());
    let next = sender.encode(data_frame(b"next", 2, 0)).unwrap();
    let mut buf = next;
    assert_eq!(receiver.decode(&mut buf).unwrap().unwrap().payload, b"next".to_vec());
    assert_eq!(receiver.rx_sequence(), 1);
}

#[test]
fn non_fragment_passes_reassembly_unchanged() {
    let mut codec = FrameCodec::default();
    let mut frame = data_frame(b"whole", 1, 9);
    frame.header.channel_id = None;
    frame.header.sequence = None;
    let out = codec.reassemble_fragment(frame.clone()).unwrap().unwrap();
    assert_eq!(out.payload, frame.payload);
    assert_eq!(out.header.channel_id, None);
}

#[test]
fn frame_payload_limit_is_64k() {
    assert_eq!(FrameCodec::new(1 << 20).max_payload_size, 65535);
    assert_eq!(FrameCodec::new(100).max_payload_size, 100);
}

#[test]
fn frame_below_a_set_receive_sequence_is_a_replay() {
    let mut sender = FrameCodec::default();
    let bytes = sender.encode(data_frame(b"old", 1, 0)).unwrap();
    let mut receiver = FrameCodec::default();
    receiver.rx_sequence = 5;
    let mut buf = bytes;
    assert!(matches!(receiver.decode(&mut buf), Err(ProtocolError::ReplayDetected { sequence: 0 })));
    assert_eq!(receiver.rx_sequence(), 5);
}
