//! Errors of a peer.
use crate::sfu::rtc::media_command::RtcError;
use vstd::prelude::*;

verus! {

/// Errors a peer reports to its lobby.
#[derive(Debug)]
pub enum PeerError {
    Rtc(String),
}

impl From<RtcError> for PeerError {
    /// A peer error carrying the text of an RTC error.
    fn from(error: RtcError) -> (e: PeerError) {
        PeerError::Rtc(error.0)
    }
}

impl vstd::std_specs::convert::FromSpecImpl<RtcError> for PeerError {
    open spec fn obeys_from_spec() -> bool {
        true
    }

    open spec fn from_spec(v: RtcError) -> PeerError {
        PeerError::Rtc(v.0)
    }
}

} // verus!
