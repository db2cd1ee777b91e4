//! Events exchanged with the media engine, and the SDP session descriptions they carry.
use crate::sfu::endpoint::RtcEndpointId;
use crate::sfu::rtc::media::lobby::RtcLobbyId;
use crate::sfu::rtc::media_command::RtcError;
use vstd::prelude::*;

verus! {

/// Correlates a request with its answer.
pub type RequestId = u64;

/// The kind of an SDP session description.
#[derive(Debug, Clone, Copy, PartialEq, Eq, Structural)]
pub enum SdpType {
    Unspecified,
    Offer,
    Pranswer,
    Answer,
    Rollback,
}

/// An SDP session description: its kind and its text.
#[derive(Debug, Clone)]
pub struct SessionDescription {
    pub sdp_type: SdpType,
    pub sdp: String,
}

/// The parse error, if any, that `RTCSessionDescription::offer` reports for an SDP text.
pub uninterp spec fn offer_parse_error(sdp: Seq<char>) -> Option<Seq<char>>;

/// The parse error, if any, that `RTCSessionDescription::answer` reports for an SDP text.
pub uninterp spec fn answer_parse_error(sdp: Seq<char>) -> Option<Seq<char>>;

/// Runs `rtc`'s `RTCSessionDescription::offer`, which parses the SDP text, and returns the
/// text of its error. Nothing is claimed of which texts parse; the result is named, so
/// the same text always gives the same outcome.
#[verifier::external_body]
fn check_offer_sdp(sdp: &str) -> (r: Option<String>)
    ensures
        match r {
            Some(e) => offer_parse_error(sdp@) == Some(e@),
            None => offer_parse_error(sdp@) is None,
        },
{
    rtc::peer_connection::sdp::RTCSessionDescription::offer(sdp.to_owned()).err().map(
        |e| e.to_string(),
    )
}

/// Runs `rtc`'s `RTCSessionDescription::answer`, which parses the SDP text, and returns the
/// text of its error. Nothing is claimed of which texts parse; the result is named.
#[verifier::external_body]
fn check_answer_sdp(sdp: &str) -> (r: Option<String>)
    ensures
        match r {
            Some(e) => answer_parse_error(sdp@) == Some(e@),
            None => answer_parse_error(sdp@) is None,
        },
{
    rtc::peer_connection::sdp::RTCSessionDescription::answer(sdp.to_owned()).err().map(
        |e| e.to_string(),
    )
}

impl SessionDescription {
    /// An offer, if the text parses as SDP.
    pub fn offer(sdp: String) -> (r: Result<SessionDescription, RtcError>)
        ensures
            match offer_parse_error(sdp@) {
                None => r matches Ok(d) && d.sdp_type == SdpType::Offer && d.sdp@ == sdp@,
                Some(e) => r matches Err(err) && err.0@ == e,
            },
    {
        match check_offer_sdp(sdp.as_str()) {
            None => Ok(SessionDescription { sdp_type: SdpType::Offer, sdp }),
            Some(e) => Err(RtcError(e)),
        }
    }

    /// An answer, if the text parses as SDP.
    pub fn answer(sdp: String) -> (r: Result<SessionDescription, RtcError>)
        ensures
            match answer_parse_error(sdp@) {
                None => r matches Ok(d) && d.sdp_type == SdpType::Answer && d.sdp@ == sdp@,
                Some(e) => r matches Err(err) && err.0@ == e,
            },
    {
        match check_answer_sdp(sdp.as_str()) {
            None => Ok(SessionDescription { sdp_type: SdpType::Answer, sdp }),
            Some(e) => Err(RtcError(e)),
        }
    }

    /// A copy of this description.
    pub fn duplicate(&self) -> (d: SessionDescription)
        ensures
            d.sdp_type == self.sdp_type,
            d.sdp@ == self.sdp@,
    {
        SessionDescription { sdp_type: self.sdp_type, sdp: self.sdp.clone() }
    }
}

/// An ICE candidate as the browser signals it.
#[derive(Debug, Clone)]
pub struct IceCandidateInit {
    pub candidate: String,
    pub sdp_mid: Option<String>,
    pub sdp_mline_index: Option<u16>,
    pub username_fragment: Option<String>,
}

/// A signaling event of the SFU.
#[derive(Debug)]
pub enum SFUEvent {
    Succeeded {
        request_id: RequestId,
        rtc_lobby_id: Option<RtcLobbyId>,
        endpoint_id: Option<RtcEndpointId>,
    },
    Failed {
        request_id: RequestId,
        rtc_lobby_id: Option<RtcLobbyId>,
        endpoint_id: Option<RtcEndpointId>,
        reason: String,
    },
    Join { request_id: RequestId, rtc_lobby_id: RtcLobbyId, endpoint_id: RtcEndpointId },
    SessionDescription {
        request_id: RequestId,
        rtc_lobby_id: RtcLobbyId,
        endpoint_id: RtcEndpointId,
        sdp: SessionDescription,
    },
    IceCandidate {
        request_id: RequestId,
        rtc_lobby_id: RtcLobbyId,
        endpoint_id: RtcEndpointId,
        candidate: IceCandidateInit,
    },
    Leave {
        request_id: RequestId,
        rtc_lobby_id: RtcLobbyId,
        endpoint_id: RtcEndpointId,
        reason: String,
    },
}

impl SFUEvent {
    /// The request this event belongs to.
    pub open spec fn spec_request_id(&self) -> RequestId {
        match self {
            SFUEvent::Succeeded { request_id, .. } => *request_id,
            SFUEvent::Failed { request_id, .. } => *request_id,
            SFUEvent::Join { request_id, .. } => *request_id,
            SFUEvent::SessionDescription { request_id, .. } => *request_id,
            SFUEvent::IceCandidate { request_id, .. } => *request_id,
            SFUEvent::Leave { request_id, .. } => *request_id,
        }
    }

    /// The lobby this event is about, if it names one.
    pub open spec fn spec_rtc_lobby_id(&self) -> Option<RtcLobbyId> {
        match self {
            SFUEvent::Succeeded { rtc_lobby_id, .. } => *rtc_lobby_id,
            SFUEvent::Failed { rtc_lobby_id, .. } => *rtc_lobby_id,
            SFUEvent::Join { rtc_lobby_id, .. } => Some(*rtc_lobby_id),
            SFUEvent::SessionDescription { rtc_lobby_id, .. } => Some(*rtc_lobby_id),
            SFUEvent::IceCandidate { rtc_lobby_id, .. } => Some(*rtc_lobby_id),
            SFUEvent::Leave { rtc_lobby_id, .. } => Some(*rtc_lobby_id),
        }
    }

    /// The endpoint this event is about, if it names one.
    pub open spec fn spec_endpoint_id(&self) -> Option<RtcEndpointId> {
        match self {
            SFUEvent::Succeeded { endpoint_id, .. } => *endpoint_id,
            SFUEvent::Failed { endpoint_id, .. } => *endpoint_id,
            SFUEvent::Join { endpoint_id, .. } => Some(*endpoint_id),
            SFUEvent::SessionDescription { endpoint_id, .. } => Some(*endpoint_id),
            SFUEvent::IceCandidate { endpoint_id, .. } => Some(*endpoint_id),
            SFUEvent::Leave { endpoint_id, .. } => Some(*endpoint_id),
        }
    }

    pub fn request_id(&self) -> (r: RequestId)
        ensures
            r == self.spec_request_id(),
    {
        match self {
            SFUEvent::Succeeded { request_id, .. } => *request_id,
            SFUEvent::Failed { request_id, .. } => *request_id,
            SFUEvent::Join { request_id, .. } => *request_id,
            SFUEvent::SessionDescription { request_id, .. } => *request_id,
            SFUEvent::IceCandidate { request_id, .. } => *request_id,
            SFUEvent::Leave { request_id, .. } => *request_id,
        }
    }

    pub fn rtc_lobby_id(&self) -> (r: Option<RtcLobbyId>)
        ensures
            r == self.spec_rtc_lobby_id(),
    {
        match self {
            SFUEvent::Succeeded { rtc_lobby_id, .. } => *rtc_lobby_id,
            SFUEvent::Failed { rtc_lobby_id, .. } => *rtc_lobby_id,
            SFUEvent::Join { rtc_lobby_id, .. } => Some(*rtc_lobby_id),
            SFUEvent::SessionDescription { rtc_lobby_id, .. } => Some(*rtc_lobby_id),
            SFUEvent::IceCandidate { rtc_lobby_id, .. } => Some(*rtc_lobby_id),
            SFUEvent::Leave { rtc_lobby_id, .. } => Some(*rtc_lobby_id),
        }
    }

    pub fn endpoint_id(&self) -> (r: Option<RtcEndpointId>)
        ensures
            r == self.spec_endpoint_id(),
    {
        match self {
            SFUEvent::Succeeded { endpoint_id, .. } => *endpoint_id,
            SFUEvent::Failed { endpoint_id, .. } => *endpoint_id,
            SFUEvent::Join { endpoint_id, .. } => Some(*endpoint_id),
            SFUEvent::SessionDescription { endpoint_id, .. } => Some(*endpoint_id),
            SFUEvent::IceCandidate { endpoint_id, .. } => Some(*endpoint_id),
            SFUEvent::Leave { endpoint_id, .. } => Some(*endpoint_id),
        }
    }
}

} // verus!
