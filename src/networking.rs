use vstd::prelude::*;

verus! {

/// One ICE candidate of a peer connection.
#[derive(Debug, Clone, PartialEq, Eq)]
pub struct IceCandidate {
    pub candidate: String,
    pub sdp_mid: String,
    pub sdp_m_line_index: u16,
}

/// Which side of a call a session description comes from.
#[derive(Debug, Clone, Copy, PartialEq, Eq, Structural)]
pub enum CallerType {
    Receiver,
    Caller,
}

/// A session description with the ICE candidates gathered for it: an offer
/// from a caller or an answer from a receiver.
#[derive(Debug, Clone, PartialEq, Eq)]
pub struct OfferAnswer {
    pub id: u128,
    pub sdp_type: CallerType,
    pub sdp: String,
    pub ice_candidates: Vec<IceCandidate>,
}

/// Progress of an attempt to re-establish a dropped peer connection.
#[derive(Debug, Clone, Copy, PartialEq, Eq, Structural)]
pub struct ReconnectionState {
    pub reconnection_initiated: bool,
    pub reconnection_failed: bool,
}

/// Connection state of a peer, the same on every platform.
#[derive(Debug, Clone, Copy, PartialEq, Eq, Structural)]
pub enum RtcPeerConnectionState {
    New,
    Connecting,
    Connected,
    Disconnected,
    Failed,
    Closed,
}

} // verus!
