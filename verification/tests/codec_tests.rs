use bpl::codec::frame_types::{is_control_frame, is_data_frame, requires_ack};
use bpl::codec::ProtocolCodec;
use bpl::pb::FrameType;

#[test]
fn test_codec_roundtrip() {
    let mut codec = ProtocolCodec::new();

    // A session-open request as it travels: protocol 1.0.0, "1.0.0", "Test Client",
    // device 1..6, "desktop", 16 channels, 16384-byte frames, a 32-byte nonce.
    let mut request = Vec::new();
    request.extend_from_slice(&[0x0a, 0x02, 0x08, 0x01]);
    request.extend_from_slice(&[0x12, 0x05]);
    request.extend_from_slice(b"1.0.0");
    request.extend_from_slice(&[0x1a, 0x0b]);
    request.extend_from_slice(b"Test Client");
    request.extend_from_slice(&[0x22, 0x08, 0x0a, 0x06, 1, 2, 3, 4, 5, 6]);
    request.extend_from_slice(&[0x2a, 0x07]);
    request.extend_from_slice(b"desktop");
    request.extend_from_slice(&[0x38, 16, 0x40, 0x80, 0x80, 0x01, 0x4a, 32]);
    request.extend_from_slice(&[0u8; 32]);

    let encoded = codec.encode_session_open_request(&request).unwrap();
    assert!(!encoded.is_empty());
}

#[test]
fn codec_decodes_what_it_encodes() {
    let mut sender = ProtocolCodec::new();
    let mut receiver = ProtocolCodec::new();
    let bytes = sender.encode_keepalive(&[1, 2, 3]).unwrap();
    // Control frames carry no authentication tag; the decoder waits for the 16 bytes of one.
    assert!(receiver.decode(&bytes).unwrap().is_empty());
    let frames = receiver.decode(&[0u8; 16]).unwrap();
    assert_eq!(frames.len(), 1);
    assert_eq!(frames[0].payload, vec![1, 2, 3]);
    assert_eq!(frames[0].header.frame_type, FrameType::Keepalive);
}

#[test]
fn codec_keeps_partial_input() {
    let mut sender = ProtocolCodec::new();
    let mut receiver = ProtocolCodec::new();
    let bytes = sender.encode_auth_challenge(b"challenge").unwrap();
    let (a, b) = bytes.split_at(5);
    assert!(receiver.decode(a).unwrap().is_empty());
    assert!(receiver.decode(b).unwrap().is_empty());
    let frames = receiver.decode(&[0u8; 16]).unwrap();
    assert_eq!(frames.len(), 1);
    assert_eq!(frames[0].payload, b"challenge".to_vec());
}

#[test]
fn control_and_data_frames() {
    assert!(is_control_frame(FrameType::Keepalive));
    assert!(is_control_frame(FrameType::AuthChallenge));
    assert!(!is_control_frame(FrameType::Data));
    assert!(is_data_frame(FrameType::Data));
    assert!(!is_data_frame(FrameType::SessionOpen));
    assert!(requires_ack(FrameType::Data));
    assert!(requires_ack(FrameType::SessionOpen));
}

#[test]
fn codec_split_input_gives_the_same_frames() {
    let mut sender = ProtocolCodec::new();
    let mut bytes = sender.encode_keepalive(&[1]).unwrap();
    bytes.extend_from_slice(&[0u8; 16]);
    bytes.extend_from_slice(&sender.encode_keepalive(&[2, 2]).unwrap());
    bytes.extend_from_slice(&[0u8; 16]);
    let mut whole = ProtocolCodec::new();
    let all = whole.decode(&bytes).unwrap();
    assert_eq!(all.len(), 2);
    for cut in 0..bytes.len() {
        let mut split = ProtocolCodec::new();
        let mut got = split.decode(&bytes[..cut]).unwrap();
        got.extend(split.decode(&bytes[cut..]).unwrap());
        assert_eq!(got.len(), 2);
        assert_eq!(got[0].payload, all[0].payload);
        assert_eq!(got[1].payload, all[1].payload);
        assert_eq!(split.rx_sequence(), whole.rx_sequence());
    }
}
