//! Requests to the RTC pool and its cores.
use crate::sfu::endpoint::EndpointId;
use crate::sfu::lobby::LobbyId;
use vstd::prelude::*;

verus! {

/// Error returned at the RTC boundary.
#[derive(Debug, Clone, PartialEq, Eq)]
pub struct RtcError(pub String);

/// Assigns a lobby to one core. Repeated requests return the stable assignment.
#[derive(Debug)]
pub struct AssignLobby(pub LobbyId);

/// Removes the stable assignment after a lobby has fully stopped.
#[derive(Debug)]
pub struct ReleaseLobby(pub LobbyId);

/// Negotiates one domain endpoint with an SDP offer.
#[derive(Debug)]
pub struct NegotiateEndpoint {
    pub endpoint_id: EndpointId,
    pub offer: String,
}

/// Asks a core for an SDP offer for one endpoint.
#[derive(Debug)]
pub struct CreateEndpointOffer {
    pub endpoint_id: EndpointId,
}

/// Applies the browser's SDP answer to one endpoint.
#[derive(Debug)]
pub struct ApplyEndpointAnswer {
    pub endpoint_id: EndpointId,
    pub answer: String,
}

/// Removes one domain endpoint from the RTC core.
#[derive(Debug)]
pub struct CloseEndpoint {
    pub endpoint_id: EndpointId,
    pub reason: String,
}

/// Stops the pool and all of its core actors.
#[derive(Debug)]
pub struct StopRtcPool;

} // verus!
