//! Participants of a lobby, and what a peer does with the messages it receives.
use crate::sfu::media::control_data_channel::ControlDataChannel;
use crate::sfu::media::data_channel::{DataChannelMsg, EventType, SdpMsgData};
use crate::sfu::lobby::LeavePeer;
use crate::sfu::media::{ConnectorType, MuteMedia};
use vstd::prelude::*;

verus! {

/// The identity of a participant: the user's UUID.
#[derive(Debug, Clone, PartialEq, Eq, Hash)]
pub struct PeerId(String);

impl View for PeerId {
    type V = Seq<char>;

    closed spec fn view(&self) -> Seq<char> {
        self.0@
    }
}

impl PeerId {
    pub fn new(user_uuid: &str) -> (p: PeerId)
        ensures
            p@ == user_uuid@,
    {
        PeerId(user_uuid.to_owned())
    }

    /// The user UUID this peer stands for.
    pub fn as_user_uuid(&self) -> (s: String)
        ensures
            s@ == self@,
    {
        self.0.clone()
    }

    pub fn as_str(&self) -> (s: &str)
        ensures
            s@ == self@,
    {
        self.0.as_str()
    }

    /// A copy of this identity.
    pub fn duplicate(&self) -> (p: PeerId)
        ensures
            p@ == self@,
    {
        PeerId(self.0.clone())
    }

    /// Whether two identities name the same participant.
    pub fn same_as(&self, other: &PeerId) -> (b: bool)
        ensures
            b == (self@ == other@),
    {
        self.0 == other.0
    }
}

/// The role a participant plays in its lobby.
#[derive(Debug, Clone, Copy, PartialEq, Eq, Structural)]
pub enum PeerRole {
    Host,
    Guest,
}

/// Asks a peer to answer an SDP offer for its publish endpoint.
#[derive(Debug)]
pub struct PeerOfferForPublishEndpoint {
    pub offer: String,
}

/// Completes a peer's sending leg with the browser's SDP answer.
#[derive(Debug)]
pub struct PeerSending {
    pub answer: String,
}

/// Asks a peer to shut down.
#[derive(Debug)]
pub struct PeerShutdown {}

/// What a peer does with a message the browser sent on its data channel.
#[derive(Debug)]
pub enum PeerDcAction {
    /// An offer from the browser for the publish leg is not handled: it is ignored.
    IgnoreOffer { number: u64 },
    /// The peer has no sending leg to apply an answer to.
    NoSender,
    /// The answer is to an offer a newer one has overtaken: it is ignored.
    IgnoreStaleAnswer,
    /// Apply the answer to the sending leg.
    ApplyAnswer(SdpMsgData),
    /// Tell the lobby that a track of this peer was (un)muted.
    MuteMedia(MuteMedia),
}

/// What peer `peer_id` (with a sending leg if `has_sender`, and its control channel
/// `control`) does with a message of its browser.
pub fn on_data_channel_msg(
    peer_id: &PeerId,
    has_sender: bool,
    control: &ControlDataChannel,
    msg: DataChannelMsg,
) -> (a: PeerDcAction)
    ensures
        match msg {
            DataChannelMsg::OfferMsg(d) => a matches PeerDcAction::IgnoreOffer { number } && number == d.number,
            DataChannelMsg::AnswerMsg(d) => if !has_sender {
                a is NoSender
            } else if d.number < control.spec_last_offer() {
                a is IgnoreStaleAnswer
            } else {
                a matches PeerDcAction::ApplyAnswer(e) && e.number == d.number && e.sdp@ == d.sdp@
            },
            DataChannelMsg::MuteMsg(m) => a matches PeerDcAction::MuteMedia(mm) && mm.peer_id@ == peer_id@
                && mm.mid@ == m.mid@ && mm.mute == m.mute,
        },
{
    match msg {
        DataChannelMsg::OfferMsg(d) => PeerDcAction::IgnoreOffer { number: d.number },
        DataChannelMsg::AnswerMsg(d) => {
            if !has_sender {
                PeerDcAction::NoSender
            } else if control.is_answer_stale(d.number) {
                PeerDcAction::IgnoreStaleAnswer
            } else {
                PeerDcAction::ApplyAnswer(d)
            }
        },
        DataChannelMsg::MuteMsg(m) => PeerDcAction::MuteMedia(
            MuteMedia { peer_id: peer_id.duplicate(), mid: m.mid, mute: m.mute },
        ),
    }
}

/// What a peer does when one of its data channels opens or closes.
#[derive(Debug, Clone, Copy, PartialEq, Eq, Structural)]
pub enum DataChannelStep {
    /// A channel of the sending leg: nothing.
    Ignore,
    /// The receiving leg's channel opened: it becomes the control channel.
    AttachControl,
    /// The receiving leg's channel closed: the control channel lets go of it.
    DetachControl,
}

/// What a peer does when a data channel of leg `kind` opens or closes: only the
/// receiving leg's channel carries control messages.
pub fn on_data_channel_event(kind: ConnectorType, event: EventType) -> (s: DataChannelStep)
    ensures
        s == (match (kind, event) {
            (ConnectorType::Sender, _) => DataChannelStep::Ignore,
            (ConnectorType::Receiver, EventType::Open) => DataChannelStep::AttachControl,
            (ConnectorType::Receiver, EventType::Closed) => DataChannelStep::DetachControl,
        }),
{
    match kind {
        ConnectorType::Sender => DataChannelStep::Ignore,
        ConnectorType::Receiver => match event {
            EventType::Open => DataChannelStep::AttachControl,
            EventType::Closed => DataChannelStep::DetachControl,
        },
    }
}

/// The state of a peer connection, as WebRTC reports it.
#[derive(Debug, Clone, Copy, PartialEq, Eq, Structural)]
pub enum PeerConnectionState {
    Unspecified,
    New,
    Connecting,
    Connected,
    Disconnected,
    Failed,
    Closed,
}

/// What a peer's connection tells the peer about its media.
#[derive(Debug, Clone, Copy, PartialEq, Eq, Structural)]
pub enum MediaMessage {
    Connected(ConnectorType),
    Disconnected(ConnectorType),
}

/// What a connection of leg `conn_type` tells its peer when its state changes: that it
/// connected, or that it failed for good (a merely disconnected connection may still
/// come back, so it says nothing then).
pub fn on_connection_state(conn_type: ConnectorType, state: PeerConnectionState) -> (m: Option<MediaMessage>)
    ensures
        m == (match state {
            PeerConnectionState::Connected => Some(MediaMessage::Connected(conn_type)),
            PeerConnectionState::Failed => Some(MediaMessage::Disconnected(conn_type)),
            _ => None,
        }),
{
    match state {
        PeerConnectionState::Connected => Some(MediaMessage::Connected(conn_type)),
        PeerConnectionState::Failed => Some(MediaMessage::Disconnected(conn_type)),
        _ => None,
    }
}

/// What peer `peer_id` does with a message of its connections: when one of them has
/// failed, the peer leaves its lobby.
pub fn on_media_message(peer_id: &PeerId, msg: MediaMessage) -> (r: Option<LeavePeer>)
    ensures
        match msg {
            MediaMessage::Connected(_) => r is None,
            MediaMessage::Disconnected(_) => r matches Some(l) && l.user_uuid@ == peer_id@,
        },
{
    match msg {
        MediaMessage::Connected(_) => None,
        MediaMessage::Disconnected(_) => Some(LeavePeer { user_uuid: peer_id.as_user_uuid() }),
    }
}

} // verus!
