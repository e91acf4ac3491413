use bpl::error::ProtocolError;
use bpl::mux::{default_channel_config, ChannelManager, ChannelState};
use bpl::pb::{ChannelId, ChannelPriority, ChannelType, FlowControlUpdate};
use bpl::DEFAULT_WINDOW_SIZE;

#[test]
fn test_channel_manager() {
    let mut manager = ChannelManager::new();

    let config = default_channel_config("test.service", ChannelType::Data, ChannelPriority::Normal);
    let id = manager.open_channel(config).unwrap();
    assert_eq!(id, 1);

    assert_eq!(manager.list_channels().len(), 1);
    assert_eq!(manager.get_channel(id).unwrap().config.service_id, "test.service");

    manager.close_channel(1, "test".to_string()).unwrap();
    assert_eq!(manager.list_channels().len(), 0);
}

#[test]
fn test_flow_control() {
    let mut manager = ChannelManager::new();
    let config = default_channel_config("test.service", ChannelType::Data, ChannelPriority::Normal);
    let id = manager.open_channel(config).unwrap();

    let mut channel = bpl::mux::Channel::new(default_channel_config("test.service", ChannelType::Data, ChannelPriority::Normal));
    channel.reserve_window(1000).unwrap();
    assert_eq!(channel.send_window_used, 1000);
    channel.release_window(500);
    assert_eq!(channel.send_window_used, 500);

    let update = FlowControlUpdate { channel_id: ChannelId { value: id }, window_increment: 2000 };
    manager.handle_flow_control(update).unwrap();
    assert_eq!(manager.get_channel(id).unwrap().send_window, DEFAULT_WINDOW_SIZE + 2000);
}

#[test]
fn channel_window_exhaustion() {
    let mut channel = bpl::mux::Channel::new(default_channel_config("s", ChannelType::Data, ChannelPriority::High));
    assert_eq!(channel.state, ChannelState::Closed);
    assert!(!channel.can_send(1));
    channel.state = ChannelState::Open;
    assert!(channel.can_send(DEFAULT_WINDOW_SIZE));
    assert!(!channel.can_send(DEFAULT_WINDOW_SIZE + 1));
    channel.reserve_window(DEFAULT_WINDOW_SIZE).unwrap();
    assert!(matches!(channel.reserve_window(1), Err(ProtocolError::ChannelWindowExhausted { channel_id: 0 })));
    channel.release_window(DEFAULT_WINDOW_SIZE + 10);
    assert_eq!(channel.send_window_used, 0);
    channel.update_send_window(u32::MAX);
    assert_eq!(channel.send_window, u32::MAX);
}

#[test]
fn channel_counters() {
    let mut channel = bpl::mux::Channel::new(default_channel_config("s", ChannelType::Stream, ChannelPriority::Low));
    channel.record_sent(100);
    channel.record_sent(50);
    channel.record_received(7);
    channel.record_retransmission();
    channel.record_error();
    assert_eq!((channel.frames_sent, channel.bytes_sent), (2, 150));
    assert_eq!((channel.frames_received, channel.bytes_received), (1, 7));
    assert_eq!((channel.retransmissions, channel.errors), (1, 1));
}

#[test]
fn channel_ids_and_limits() {
    let mut manager = ChannelManager::new();
    let mut config = default_channel_config("s", ChannelType::Data, ChannelPriority::Normal);
    config.channel_id = ChannelId { value: 15 };
    assert_eq!(manager.open_channel(config).unwrap(), 15);
    let next = manager.open_channel(default_channel_config("t", ChannelType::Data, ChannelPriority::Normal));
    match next {
        Err(ProtocolError::InvalidArgument(m)) => assert_eq!(m, "Maximum channels reached"),
        other => panic!("unexpected {:?}", other),
    }
    let mut dup = default_channel_config("u", ChannelType::Data, ChannelPriority::Normal);
    dup.channel_id = ChannelId { value: 15 };
    match manager.open_channel(dup) {
        Err(ProtocolError::InvalidArgument(m)) => assert_eq!(m, "Channel 15 already exists"),
        other => panic!("unexpected {:?}", other),
    }
    assert!(matches!(manager.close_channel(3, String::new()), Err(ProtocolError::ChannelNotFound { channel_id: 3 })));
}

#[test]
fn channel_totals() {
    let mut manager = ChannelManager::new();
    manager.open_channel(default_channel_config("a", ChannelType::Data, ChannelPriority::Normal)).unwrap();
    manager.open_channel(default_channel_config("b", ChannelType::Data, ChannelPriority::Normal)).unwrap();
    assert_eq!(manager.total_frames_sent(), 0);
    assert_eq!(manager.get_stats().len(), 2);
    assert_eq!(manager.get_stats()[1].channel_id, 2);
    assert_eq!(manager.get_stats()[1].service_id, "b");
}

#[test]
fn channel_open_find_close_missing() {
    let mut manager = ChannelManager::new();
    let id = manager.open_channel(default_channel_config("a", ChannelType::Data, ChannelPriority::Normal)).unwrap();
    let other = manager.open_channel(default_channel_config("b", ChannelType::Data, ChannelPriority::Low)).unwrap();
    assert_eq!(manager.get_channel(id).unwrap().config.service_id, "a");
    assert_eq!(manager.get_channel(other).unwrap().config.service_id, "b");
    manager.close_channel(id, "done".to_string()).unwrap();
    assert!(manager.get_channel(id).is_none());
    assert_eq!(manager.get_channel(other).unwrap().config.service_id, "b");
    assert!(matches!(manager.close_channel(id, String::new()), Err(ProtocolError::ChannelNotFound { .. })));
}
