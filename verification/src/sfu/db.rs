//! Requests to the store of lobbies and participants.
use vstd::prelude::*;

verus! {

/// Marks a lobby online.
#[derive(Debug, Clone)]
pub struct SetLobbyOnline {
    pub lobby_uuid: String,
}

/// Marks a lobby offline.
#[derive(Debug, Clone)]
pub struct SetLobbyOffline {
    pub lobby_uuid: String,
}

/// Records that a user takes part in a lobby's stream.
#[derive(Debug, Clone)]
pub struct AddParticipant {
    pub lobby_uuid: String,
    pub stream_uuid: String,
    pub user_uuid: String,
}

/// Records that a user no longer takes part in a lobby's stream.
#[derive(Debug, Clone)]
pub struct RemoveParticipant {
    pub lobby_uuid: String,
    pub stream_uuid: String,
    pub user_uuid: String,
}

} // verus!
