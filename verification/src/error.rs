//! Protocol error types.

use vstd::prelude::*;

verus! {

/// Protocol errors.
#[derive(Debug, Clone)]
pub enum ProtocolError {
    Io(String),
    Protocol(String),
    InvalidFrame(String),
    InvalidHeader(String),
    ChecksumMismatch { expected: u32, actual: u32 },
    FrameTooLarge { size: usize, max: usize },
    PayloadTooLarge { size: usize, max: usize },
    InvalidMagic { expected: u32, actual: u32 },
    UnsupportedVersion { version: u32 },
    UnknownFrameType { frame_type: u8 },
    SequenceMismatch { expected: u64, actual: u64 },
    ReplayDetected { sequence: u64 },
    DecryptionFailed(String),
    AuthenticationFailed(String),
    AuthTimeout,
    SessionNotFound { session_id: Vec<u8> },
    SessionExists { session_id: Vec<u8> },
    SessionClosed { reason: String },
    SessionStateError { expected: String, actual: String },
    ChannelNotFound { channel_id: u32 },
    ChannelClosed { channel_id: u32 },
    ChannelWindowExhausted { channel_id: u32 },
    FlowControl(String),
    CapabilityNegotiation(String),
    CapabilityNotSupported { service_id: String },
    RequiredCapabilityMissing { service_id: String },
    ServiceNotFound { service_id: String },
    ServiceAlreadyRegistered { service_id: String },
    ServiceNotRegistered { service_id: String },
    InvalidServiceConfig(String),
    KeyDerivation(String),
    Encryption(String),
    Decryption(String),
    InvalidKeyLength { expected: usize, actual: usize },
    InvalidNonceLength { expected: usize, actual: usize },
    InvalidAuthTagLength { expected: usize, actual: usize },
    Config(String),
    Serialization(String),
    Deserialization(String),
    Timeout(String),
    Cancelled,
    NotConnected,
    AlreadyConnected,
    PeerDisconnected,
    BufferOverflow,
    InvalidArgument(String),
    Internal(String),
    Bluetooth(String),
    Database(String),
}

/// Protocol result type.
pub type Result<T> = core::result::Result<T, ProtocolError>;

/// Whether an error of this kind may succeed when retried.
pub open spec fn spec_is_retryable(e: ProtocolError) -> bool {
    ||| e is Timeout
    ||| e is Io
    ||| e is ChannelWindowExhausted
    ||| e is FlowControl
}

/// Whether an error of this kind ends the session.
pub open spec fn spec_is_fatal(e: ProtocolError) -> bool {
    ||| e is AuthenticationFailed
    ||| e is DecryptionFailed
    ||| e is ReplayDetected
    ||| e is SequenceMismatch
    ||| e is ChecksumMismatch
    ||| e is InvalidMagic
    ||| e is KeyDerivation
}

impl ProtocolError {
    /// Check if error is retryable.
    pub fn is_retryable(&self) -> (r: bool)
        ensures
            r == spec_is_retryable(*self),
    {
        match self {
            ProtocolError::Timeout(_) => true,
            ProtocolError::Io(_) => true,
            ProtocolError::ChannelWindowExhausted { .. } => true,
            ProtocolError::FlowControl(_) => true,
            _ => false,
        }
    }

    /// Check if error is fatal (requires session termination).
    pub fn is_fatal(&self) -> (r: bool)
        ensures
            r == spec_is_fatal(*self),
    {
        match self {
            ProtocolError::AuthenticationFailed(_) => true,
            ProtocolError::DecryptionFailed(_) => true,
            ProtocolError::ReplayDetected { .. } => true,
            ProtocolError::SequenceMismatch { .. } => true,
            ProtocolError::ChecksumMismatch { .. } => true,
            ProtocolError::InvalidMagic { .. } => true,
            ProtocolError::KeyDerivation(_) => true,
            _ => false,
        }
    }
}

} // verus!
