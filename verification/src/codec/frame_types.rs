//! Frame type classification.

use vstd::prelude::*;

use crate::pb::FrameType;

verus! {

/// Frames of the session, authentication, channel and registry protocol.
pub open spec fn spec_is_control_frame(frame_type: FrameType) -> bool {
    !(frame_type is Data || frame_type is DataFragment || frame_type is DataEnd)
}

/// Whether a frame belongs to the control protocol.
pub fn is_control_frame(frame_type: FrameType) -> (r: bool)
    ensures
        r == spec_is_control_frame(frame_type),
{
    match frame_type {
        FrameType::SessionOpen | FrameType::SessionOpenAck | FrameType::SessionClose | FrameType::SessionCloseAck
        | FrameType::Keepalive | FrameType::KeepaliveAck | FrameType::CapabilityNegotiate
        | FrameType::CapabilityAck | FrameType::AuthChallenge | FrameType::AuthResponse | FrameType::AuthSuccess
        | FrameType::AuthFailure | FrameType::AuthKeyConfirm | FrameType::ChannelOpen | FrameType::ChannelOpenAck
        | FrameType::ChannelClose | FrameType::ChannelCloseAck | FrameType::FlowControl
        | FrameType::ServiceRegister | FrameType::ServiceUnregister | FrameType::ServiceDiscover
        | FrameType::ServiceDiscoverResp | FrameType::Error => true,
        _ => false,
    }
}

/// Whether a frame carries service data.
pub fn is_data_frame(frame_type: FrameType) -> (r: bool)
    ensures
        r == (frame_type is Data || frame_type is DataFragment || frame_type is DataEnd),
{
    match frame_type {
        FrameType::Data | FrameType::DataFragment | FrameType::DataEnd => true,
        _ => false,
    }
}

/// Whether the receiver must acknowledge a frame: every control frame and
/// whole data frames.
pub fn requires_ack(frame_type: FrameType) -> (r: bool)
    ensures
        r == (spec_is_control_frame(frame_type) || frame_type is Data),
{
    is_control_frame(frame_type) || frame_type == FrameType::Data
}

} // verus!
