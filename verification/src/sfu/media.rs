//! The media tracks that peers exchange through a lobby, and the messages about them.
use vstd::prelude::*;
use crate::sfu::peer::PeerId;
use crate::util::id::{is_alphanumeric, random_id};

pub mod control_data_channel;
pub mod data_channel;
pub mod router;
pub mod sdp;
pub mod track_info;

verus! {

/// Identity of a media track in a lobby.
#[derive(Debug, Clone, PartialEq, Eq, Hash)]
pub struct MediaId(String);

impl View for MediaId {
    type V = Seq<char>;

    closed spec fn view(&self) -> Seq<char> {
        self.0@
    }
}

impl MediaId {
    /// A fresh identity for a track of `peer_id`: six random letters or digits, a dash,
    /// then the peer's identity.
    pub fn from(peer_id: PeerId) -> (m: Self)
        ensures
            m@.len() == 7 + peer_id@.len(),
            forall|i: int| 0 <= i < 6 ==> is_alphanumeric(#[trigger] m@[i]),
            m@[6] == '-',
            m@.subrange(7, m@.len() as int) == peer_id@,
    {
        let prefix = random_id(6);
        let s = prefix.concat("-");
        let s = s.concat(peer_id.as_str());
        proof {
            reveal_strlit("-");
            assert(s@.subrange(7, s@.len() as int) =~= peer_id@);
        }
        MediaId(s)
    }

    /// The identity spelled `s`.
    pub fn from_string(s: String) -> (m: Self)
        ensures
            m@ == s@,
    {
        MediaId(s)
    }

    /// The identity spelled `s`.
    pub fn from_str(s: &str) -> (m: Self)
        ensures
            m@ == s@,
    {
        MediaId(s.to_owned())
    }

    pub fn as_str(&self) -> (s: &str)
        ensures
            s@ == self@,
    {
        self.0.as_str()
    }

    /// Whether two identities name the same track.
    pub fn same_as(&self, other: &MediaId) -> (b: bool)
        ensures
            b == (self@ == other@),
    {
        self.0 == other.0
    }

    /// A copy of this identity.
    pub fn duplicate(&self) -> (m: MediaId)
        ensures
            m@ == self@,
    {
        MediaId(self.0.clone())
    }
}

/// A track of a peer is gone.
#[derive(Debug)]
pub struct RemoveMedia {
    pub media_id: MediaId,
}

/// A peer (un)mutes one of its tracks, named by the track's mid on the peer's receiver.
#[derive(Debug)]
pub struct MuteMedia {
    pub peer_id: PeerId,
    pub mid: String,
    pub mute: bool,
}

/// A track that another peer receives is (un)muted, named by its media id.
#[derive(Debug)]
pub struct MuteRemoteMedia {
    pub media_id: MediaId,
    pub mute: bool,
}

/// What a track is for: a participant's own camera or microphone, or a stream.
#[derive(Debug, Clone, Copy, PartialEq, Eq, Structural)]
pub enum MediaPurpose {
    PARTICIPANT,
    STREAM,
}

impl Default for MediaPurpose {
    fn default() -> (p: MediaPurpose)
        ensures
            p == MediaPurpose::PARTICIPANT,
    {
        MediaPurpose::PARTICIPANT
    }
}

/// The purpose a track description names: `1` a participant, `2` a stream; anything
/// else, or nothing, a participant.
pub open spec fn purpose_of(s: Option<Seq<char>>) -> MediaPurpose {
    if s == Some(seq!['2']) {
        MediaPurpose::STREAM
    } else {
        MediaPurpose::PARTICIPANT
    }
}

/// How a purpose is written in a track description.
pub open spec fn purpose_text(p: MediaPurpose) -> Seq<char> {
    match p {
        MediaPurpose::PARTICIPANT => seq!['1'],
        MediaPurpose::STREAM => seq!['2'],
    }
}

impl MediaPurpose {
    /// Reads the purpose field of a track description.
    pub fn from_option_str(s: Option<&str>) -> (p: MediaPurpose)
        ensures
            p == purpose_of(match s {
                Some(t) => Some(t@),
                None => None,
            }),
    {
        match s {
            Some(t) => {
                if t.unicode_len() == 1 && t.get_char(0) == '2' {
                    proof {
                        assert(t@ =~= seq!['2']);
                    }
                    MediaPurpose::STREAM
                } else {
                    MediaPurpose::PARTICIPANT
                }
            },
            None => MediaPurpose::PARTICIPANT,
        }
    }

    /// The purpose as written in a track description.
    pub fn to_string(&self) -> (s: String)
        ensures
            s@ == purpose_text(*self),
    {
        let s = match self {
            MediaPurpose::PARTICIPANT => String::from_str("1"),
            MediaPurpose::STREAM => String::from_str("2"),
        };
        proof {
            reveal_strlit("1");
            reveal_strlit("2");
        }
        s
    }
}

/// Whether a track carries sound or pictures (or is not known yet).
#[derive(Debug, Clone, Copy, PartialEq, Eq, Structural)]
pub enum MediaKind {
    Unspecified,
    Audio,
    Video,
}

impl Default for MediaKind {
    fn default() -> (k: MediaKind)
        ensures
            k == MediaKind::Unspecified,
    {
        MediaKind::Unspecified
    }
}

/// A media track that a peer sends to the SFU: one track of its receiver, managed by
/// the lobby and handed on to the senders of the other peers. The RTP channel and the
/// codec of the track stay with the connection; this is what the lobby decides by.
#[derive(Debug)]
pub struct Media {
    pub id: MediaId,
    pub peer_id: PeerId,
    /// The mid of the source track on the peer's receiver.
    pub mid: String,
    pub src_track_id: String,
    pub src_stream_id: String,
    pub kind: MediaKind,
    /// Whether the peer has muted the track.
    pub muted: bool,
    pub purpose: MediaPurpose,
    pub info: String,
    pub payload_type: u8,
}

/// A track as plain values.
pub struct MediaView {
    pub id: Seq<char>,
    pub peer_id: Seq<char>,
    pub mid: Seq<char>,
    pub src_track_id: Seq<char>,
    pub src_stream_id: Seq<char>,
    pub kind: MediaKind,
    pub muted: bool,
    pub purpose: MediaPurpose,
    pub info: Seq<char>,
    pub payload_type: u8,
}

impl View for Media {
    type V = MediaView;

    open spec fn view(&self) -> MediaView {
        MediaView {
            id: self.id@,
            peer_id: self.peer_id@,
            mid: self.mid@,
            src_track_id: self.src_track_id@,
            src_stream_id: self.src_stream_id@,
            kind: self.kind,
            muted: self.muted,
            purpose: self.purpose,
            info: self.info@,
            payload_type: self.payload_type,
        }
    }
}

impl Media {
    /// A track of `peer_id` with a fresh media id.
    pub fn new(
        peer_id: PeerId,
        mid: String,
        src_track_id: String,
        src_stream_id: String,
        kind: MediaKind,
        muted: bool,
        purpose: MediaPurpose,
        info: String,
        payload_type: u8,
    ) -> (m: Self)
        ensures
            m.id@.len() == 7 + peer_id@.len(),
            m.id@.subrange(7, m.id@.len() as int) == peer_id@,
            m.peer_id@ == peer_id@,
            m.mid@ == mid@,
            m.src_track_id@ == src_track_id@,
            m.src_stream_id@ == src_stream_id@,
            m.kind == kind,
            m.muted == muted,
            m.purpose == purpose,
            m.info@ == info@,
            m.payload_type == payload_type,
    {
        let id = MediaId::from(peer_id.duplicate());
        Media { id, peer_id, mid, src_track_id, src_stream_id, kind, muted, purpose, info, payload_type }
    }

    /// Records whether the peer has muted the track.
    pub fn set_mut(&mut self, muted: bool)
        ensures
            final(self)@ == (MediaView { muted, ..old(self)@ }),
    {
        self.muted = muted;
    }

    /// A copy of this track.
    pub fn duplicate(&self) -> (m: Media)
        ensures
            m@ == self@,
    {
        Media {
            id: self.id.duplicate(),
            peer_id: self.peer_id.duplicate(),
            mid: self.mid.clone(),
            src_track_id: self.src_track_id.clone(),
            src_stream_id: self.src_stream_id.clone(),
            kind: self.kind,
            muted: self.muted,
            purpose: self.purpose,
            info: self.info.clone(),
            payload_type: self.payload_type,
        }
    }
}

/// Which side of a peer a connection serves.
#[derive(Debug, Clone, Copy, PartialEq, Eq, Structural)]
pub enum ConnectorType {
    Sender,
    Receiver,
}

/// The label of a connector's data channel.
pub open spec fn channel_label_spec(t: ConnectorType) -> Seq<char> {
    match t {
        ConnectorType::Sender => "whep"@,
        ConnectorType::Receiver => "whip"@,
    }
}

impl ConnectorType {
    /// `whep` for the sending side, `whip` for the receiving side.
    pub fn channel_label(&self) -> (s: &'static str)
        ensures
            s@ == channel_label_spec(*self),
    {
        match self {
            ConnectorType::Sender => "whep",
            ConnectorType::Receiver => "whip",
        }
    }
}

} // verus!
