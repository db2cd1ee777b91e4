//! The tracks a peer's sending leg forwards, and what it tells the browser about them.
use vstd::prelude::*;
use crate::sfu::media::{Media, MediaId, MediaKind, MediaPurpose};
use crate::sfu::media::sdp::InboundTrackInfo;
use crate::sfu::peer::PeerId;

verus! {

/// A track the sending leg forwards to the browser: its `msid` (`<stream id> <track
/// id>`), purpose, muted flag and info, and the mid its transceiver has been given in
/// the negotiation, if any yet.
#[derive(Debug, Clone)]
pub struct OutboundTrackInfo {
    pub msid: String,
    pub purpose: MediaPurpose,
    pub muted: bool,
    pub info: String,
    pub mid: Option<String>,
}

/// An outbound track as plain values.
pub struct OutboundView {
    pub msid: Seq<char>,
    pub purpose: MediaPurpose,
    pub muted: bool,
    pub info: Seq<char>,
    pub mid: Option<Seq<char>>,
}

/// The view of an optional string.
pub open spec fn opt_view(s: Option<String>) -> Option<Seq<char>> {
    match s {
        Some(s) => Some(s@),
        None => None,
    }
}

impl View for OutboundTrackInfo {
    type V = OutboundView;

    open spec fn view(&self) -> OutboundView {
        OutboundView {
            msid: self.msid@,
            purpose: self.purpose,
            muted: self.muted,
            info: self.info@,
            mid: opt_view(self.mid),
        }
    }
}

/// The msid under which a track is sent: `<source stream id> <media id>`.
pub open spec fn msid_of(m: Media) -> Seq<char> {
    m.src_stream_id@ + seq![' '] + m.id@
}

impl OutboundTrackInfo {
    pub fn new(msid: String, mid: Option<String>, purpose: MediaPurpose, muted: bool, info: String) -> (t: OutboundTrackInfo)
        ensures
            t@ == (OutboundView { msid: msid@, purpose, muted, info: info@, mid: opt_view(mid) }),
    {
        OutboundTrackInfo { msid, purpose, muted, info, mid }
    }

    /// The track info of `media` sent on a transceiver with mid `mid`.
    pub fn for_media(media: &Media, mid: Option<String>) -> (t: OutboundTrackInfo)
        ensures
            t@ == (OutboundView {
                msid: msid_of(*media),
                purpose: media.purpose,
                muted: media.muted,
                info: media.info@,
                mid: opt_view(mid),
            }),
    {
        let msid = media.src_stream_id.clone();
        let msid = msid.concat(" ");
        proof {
            reveal_strlit(" ");
            assert(" "@ =~= seq![' ']);
        }
        let id = media.id.as_str();
        let msid = msid.concat(id);
        assert(msid@ =~= msid_of(*media));
        OutboundTrackInfo::new(msid, mid, media.purpose, media.muted, media.info.clone())
    }

    fn duplicate(&self) -> (t: OutboundTrackInfo)
        ensures
            t@ == self@,
    {
        let mid = match &self.mid {
            Some(m) => Some(m.clone()),
            None => None,
        };
        OutboundTrackInfo {
            msid: self.msid.clone(),
            purpose: self.purpose,
            muted: self.muted,
            info: self.info.clone(),
            mid,
        }
    }
}

/// The tracks of a sending leg, by media id.
pub type SendingView = Seq<(Seq<char>, OutboundView)>;

/// Where media `id` is.
pub open spec fn find_media(s: SendingView, id: Seq<char>) -> Option<int> {
    if exists|i: int| 0 <= i < s.len() && s[i].0 == id {
        Some(choose|i: int| 0 <= i < s.len() && s[i].0 == id)
    } else {
        None
    }
}

/// No media id appears twice.
pub open spec fn media_unique(s: SendingView) -> bool {
    forall|i: int, j: int| 0 <= i < s.len() && 0 <= j < s.len() && i != j ==> (#[trigger] s[i]).0 != (#[trigger] s[j]).0
}

/// The tracks with `t` as the track of media `id` (replacing the one it had).
pub open spec fn put_media(s: SendingView, id: Seq<char>, t: OutboundView) -> SendingView {
    match find_media(s, id) {
        Some(i) => s.update(i, (id, t)),
        None => s.push((id, t)),
    }
}

/// The tracks without media `id`.
pub open spec fn drop_media(s: SendingView, id: Seq<char>) -> SendingView {
    match find_media(s, id) {
        Some(i) => s.remove(i),
        None => s,
    }
}

proof fn lemma_find_media(s: SendingView, id: Seq<char>, i: int)
    requires
        media_unique(s),
        0 <= i < s.len(),
        s[i].0 == id,
    ensures
        find_media(s, id) == Some(i),
{
    let c = choose|j: int| 0 <= j < s.len() && s[j].0 == id;
    if c != i {
        assert(s[c].0 != s[i].0);
    }
}

/// The tracks a sending leg forwards, by media id.
#[derive(Debug)]
pub struct SendingMedia {
    tracks: Vec<(MediaId, OutboundTrackInfo)>,
}

impl SendingMedia {
    pub closed spec fn spec_tracks(&self) -> SendingView {
        self.tracks@.map_values(|e: (MediaId, OutboundTrackInfo)| (e.0@, e.1@))
    }

    /// No media id appears twice.
    pub open spec fn wf(&self) -> bool {
        media_unique(self.spec_tracks())
    }

    pub fn new() -> (s: SendingMedia)
        ensures
            s.wf(),
            s.spec_tracks() == Seq::<(Seq<char>, OutboundView)>::empty(),
    {
        let s = SendingMedia { tracks: Vec::new() };
        assert(s.spec_tracks() =~= Seq::<(Seq<char>, OutboundView)>::empty());
        s
    }

    fn find(&self, id: &MediaId) -> (r: Option<usize>)
        requires
            self.wf(),
        ensures
            match r {
                Some(i) => find_media(self.spec_tracks(), id@) == Some(i as int) && i < self.tracks@.len(),
                None => find_media(self.spec_tracks(), id@) is None,
            },
    {
        let mut i: usize = 0;
        while i < self.tracks.len()
            invariant
                i <= self.tracks@.len(),
                media_unique(self.spec_tracks()),
                forall|j: int| 0 <= j < i ==> self.spec_tracks()[j].0 != id@,
            decreases self.tracks@.len() - i,
        {
            if self.tracks[i].0.same_as(id) {
                proof {
                    lemma_find_media(self.spec_tracks(), id@, i as int);
                }
                return Some(i);
            }
            i = i + 1;
        }
        None
    }

    /// Records the track sent for media `id`, replacing the one recorded before.
    pub fn insert(&mut self, id: MediaId, info: OutboundTrackInfo)
        requires
            old(self).wf(),
        ensures
            final(self).wf(),
            final(self).spec_tracks() == put_media(old(self).spec_tracks(), id@, info@),
    {
        let ghost s0 = self.spec_tracks();
        let ghost iv = info@;
        match self.find(&id) {
            Some(i) => {
                let ghost idv = id@;
                self.tracks.set(i, (id, info));
                assert(self.spec_tracks() =~= s0.update(i as int, (idv, iv)));
            },
            None => {
                let ghost idv = id@;
                self.tracks.push((id, info));
                assert(self.spec_tracks() =~= s0.push((idv, iv)));
                assert forall|a: int, b: int|
                    0 <= a < self.spec_tracks().len() && 0 <= b < self.spec_tracks().len() && a != b
                    implies (#[trigger] self.spec_tracks()[a]).0 != (#[trigger] self.spec_tracks()[b]).0 by {
                    if a == s0.len() as int {
                        assert(!(s0[b].0 == idv));
                    } else if b == s0.len() as int {
                        assert(!(s0[a].0 == idv));
                    }
                }
            },
        }
    }

    /// Forgets the track of media `id`.
    pub fn remove(&mut self, id: &MediaId)
        requires
            old(self).wf(),
        ensures
            final(self).wf(),
            final(self).spec_tracks() == drop_media(old(self).spec_tracks(), id@),
    {
        let ghost s0 = self.spec_tracks();
        match self.find(id) {
            Some(i) => {
                self.tracks.remove(i);
                assert(self.spec_tracks() =~= s0.remove(i as int));
                assert forall|a: int, b: int|
                    0 <= a < self.spec_tracks().len() && 0 <= b < self.spec_tracks().len() && a != b
                    implies (#[trigger] self.spec_tracks()[a]).0 != (#[trigger] self.spec_tracks()[b]).0 by {
                    let a0 = if a < i { a } else { a + 1 };
                    let b0 = if b < i { b } else { b + 1 };
                    assert(s0[a0].0 != s0[b0].0);
                }
            },
            None => {},
        }
    }

    /// Records that the track of media `id` is (un)muted and returns the mid of its
    /// transceiver, which names the track in the mute message to the browser. A media
    /// that is not sent, or whose transceiver has no mid yet, gives `None`.
    pub fn get_mid_and_mute(&mut self, id: &MediaId, muted: bool) -> (r: Option<String>)
        requires
            old(self).wf(),
        ensures
            final(self).wf(),
            match find_media(old(self).spec_tracks(), id@) {
                None => r is None && final(self).spec_tracks() == old(self).spec_tracks(),
                Some(i) => {
                    &&& final(self).spec_tracks() == old(self).spec_tracks().update(
                        i,
                        (id@, OutboundView { muted, ..old(self).spec_tracks()[i].1 }),
                    )
                    &&& opt_view(r) == old(self).spec_tracks()[i].1.mid
                },
            },
    {
        let ghost s0 = self.spec_tracks();
        match self.find(id) {
            None => None,
            Some(i) => {
                let (mid_key, mut info) = self.tracks.remove(i);
                info.muted = muted;
                let mid = match &info.mid {
                    Some(m) => Some(m.clone()),
                    None => None,
                };
                self.tracks.insert(i, (mid_key, info));
                assert(self.spec_tracks() =~= s0.update(
                    i as int,
                    (id@, OutboundView { muted, ..s0[i as int].1 }),
                ));
                assert forall|a: int, b: int|
                    0 <= a < self.spec_tracks().len() && 0 <= b < self.spec_tracks().len() && a != b
                    implies (#[trigger] self.spec_tracks()[a]).0 != (#[trigger] self.spec_tracks()[b]).0 by {
                    assert(s0[a].0 != s0[b].0);
                }
                mid
            },
        }
    }

    /// The tracks, in the order they were first recorded.
    pub fn infos(&self) -> (v: Vec<OutboundTrackInfo>)
        ensures
            v@.map_values(|t: OutboundTrackInfo| t@) == self.spec_tracks().map_values(
                |e: (Seq<char>, OutboundView)| e.1,
            ),
    {
        let mut v: Vec<OutboundTrackInfo> = Vec::new();
        let mut i: usize = 0;
        while i < self.tracks.len()
            invariant
                i <= self.tracks@.len(),
                v@.map_values(|t: OutboundTrackInfo| t@) == self.spec_tracks().map_values(
                    |e: (Seq<char>, OutboundView)| e.1,
                ).take(i as int),
            decreases self.tracks@.len() - i,
        {
            let ghost before = v@.map_values(|t: OutboundTrackInfo| t@);
            let t = self.tracks[i].1.duplicate();
            assert(t@ == self.spec_tracks()[i as int].1);
            v.push(t);
            assert(v@.map_values(|t: OutboundTrackInfo| t@) =~= before.push(self.spec_tracks()[i as int].1));
            assert(v@.map_values(|t: OutboundTrackInfo| t@) =~= self.spec_tracks().map_values(
                |e: (Seq<char>, OutboundView)| e.1,
            ).take(i + 1));
            i = i + 1;
        }
        assert(self.spec_tracks().map_values(|e: (Seq<char>, OutboundView)| e.1).take(
            self.tracks@.len() as int,
        ) =~= self.spec_tracks().map_values(|e: (Seq<char>, OutboundView)| e.1));
        v
    }
}

/// The media that a peer's receiving leg hands to its lobby for a new remote track:
/// the track's identity, kind and payload type as the connection reports them, and the
/// mid, purpose, muted flag and info of the offered track at the receiver's position
/// `index` among the transceivers.
pub fn media_for_track(
    peer_id: PeerId,
    offered: &[InboundTrackInfo],
    index: usize,
    track_id: String,
    stream_id: String,
    kind: MediaKind,
    payload_type: u8,
) -> (m: Media)
    requires
        index < offered@.len(),
    ensures
        m.peer_id@ == peer_id@,
        m.id@.subrange(7, m.id@.len() as int) == peer_id@,
        m.mid@ == offered@[index as int].mid@,
        m.purpose == offered@[index as int].purpose,
        m.muted == offered@[index as int].muted,
        m.info@ == offered@[index as int].info@,
        m.src_track_id@ == track_id@,
        m.src_stream_id@ == stream_id@,
        m.kind == kind,
        m.payload_type == payload_type,
{
    let t = &offered[index];
    Media::new(
        peer_id,
        t.mid.clone(),
        track_id,
        stream_id,
        kind,
        t.muted,
        t.purpose,
        t.info.clone(),
        payload_type,
    )
}

} // verus!
