//! Bluetooth Personal Link: the verified core of the desktop protocol stack.
//!
//! The wire format of protocol frames, fragmentation and reassembly,
//! capability negotiation, the service registry, channel flow control,
//! key derivation and the session keepalive policy, each with a contract
//! that Verus checks.

pub mod auth;
pub mod bluetooth;
pub mod capability;
pub mod channels;
pub mod clock;
pub mod codec;
pub mod crypto;
pub mod desktop;
pub mod error;
pub mod frame;
pub mod le_bytes;
pub mod mux;
pub mod pb;
pub mod registry;
pub mod search;
pub mod service;
pub mod service_ids;
pub mod session;
pub mod text;

use vstd::prelude::*;

verus! {

/// Protocol version (1.0.0).
pub const PROTOCOL_VERSION: u32 = 0x00010000;

/// Magic number that opens every frame (0x42504C01 = "BPL\x01").
pub const MAGIC_NUMBER: u32 = 0x42504C01;

/// Maximum frame size (64KB).
pub const MAX_FRAME_SIZE: usize = 65535;

/// Control channel ID (always 0).
pub const CONTROL_CHANNEL_ID: u32 = 0;

/// Default keepalive interval (30 seconds).
pub const DEFAULT_KEEPALIVE_INTERVAL_MS: u32 = 30_000;

/// Default session timeout (90 seconds).
pub const DEFAULT_SESSION_TIMEOUT_MS: u32 = 90_000;

/// Maximum number of logical channels.
pub const MAX_CHANNELS: u32 = 16;

/// Default flow control window size (64KB).
pub const DEFAULT_WINDOW_SIZE: u32 = 65536;

/// Default maximum frame payload size (16KB).
pub const DEFAULT_MAX_FRAME_SIZE: u32 = 16384;

/// Maximum frame payload size (64KB): a frame codec may be configured up to it.
pub const MAX_FRAME_PAYLOAD_SIZE: usize = 65535;

} // verus!
