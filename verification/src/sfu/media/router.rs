//! The tracks of a lobby, and the questions the lobby asks about them.
use vstd::prelude::*;
use crate::sfu::media::{Media, MediaId, MediaKind, MediaPurpose, MediaView};
use crate::sfu::peer::PeerId;
use crate::util::text::str_eq;

verus! {

/// The views of a list of tracks.
pub open spec fn medias_view(v: Seq<Media>) -> Seq<MediaView> {
    v.map_values(|m: Media| m@)
}

/// `i` holds the first track with media id `id`.
pub open spec fn first_with_id(ms: Seq<MediaView>, id: Seq<char>, i: int) -> bool {
    &&& 0 <= i < ms.len()
    &&& ms[i].id == id
    &&& forall|j: int| 0 <= j < i ==> ms[j].id != id
}

/// Where the first track with media id `id` is.
pub open spec fn index_of_id(ms: Seq<MediaView>, id: Seq<char>) -> Option<int> {
    if exists|i: int| first_with_id(ms, id, i) {
        Some(choose|i: int| first_with_id(ms, id, i))
    } else {
        None
    }
}

/// `i` holds the first track of `peer` with mid `mid`.
pub open spec fn first_of_peer_with_mid(ms: Seq<MediaView>, peer: Seq<char>, mid: Seq<char>, i: int) -> bool {
    &&& 0 <= i < ms.len()
    &&& ms[i].peer_id == peer && ms[i].mid == mid
    &&& forall|j: int| 0 <= j < i ==> !(ms[j].peer_id == peer && ms[j].mid == mid)
}

/// Where the first track of `peer` with mid `mid` is.
pub open spec fn index_of_peer_mid(ms: Seq<MediaView>, peer: Seq<char>, mid: Seq<char>) -> Option<int> {
    if exists|i: int| first_of_peer_with_mid(ms, peer, mid, i) {
        Some(choose|i: int| first_of_peer_with_mid(ms, peer, mid, i))
    } else {
        None
    }
}

/// The tracks of `peer` (`of_peer`) or of every other peer (`!of_peer`), in order.
pub open spec fn select_by_peer(ms: Seq<MediaView>, peer: Seq<char>, of_peer: bool) -> Seq<MediaView>
    decreases ms.len(),
{
    if ms.len() == 0 {
        Seq::empty()
    } else {
        let rest = select_by_peer(ms.drop_last(), peer, of_peer);
        if (ms.last().peer_id == peer) == of_peer {
            rest.push(ms.last())
        } else {
            rest
        }
    }
}

/// The last stream track of kind `kind`, if any.
pub open spec fn last_stream_of_kind(ms: Seq<MediaView>, kind: MediaKind) -> Option<MediaView>
    decreases ms.len(),
{
    if ms.len() == 0 {
        None
    } else if ms.last().purpose == MediaPurpose::STREAM && ms.last().kind == kind {
        Some(ms.last())
    } else {
        last_stream_of_kind(ms.drop_last(), kind)
    }
}

/// `chosen` is what a relay sends for kind `kind` out of `ms`: a track of that kind
/// whose purpose is STREAM, with no later STREAM track of that kind; `None` only when
/// `ms` holds no STREAM track of that kind. A PARTICIPANT track is never chosen.
pub open spec fn is_last_stream_track(ms: Seq<MediaView>, kind: MediaKind, chosen: Option<MediaView>) -> bool {
    match chosen {
        Some(m) => {
            &&& m.purpose == MediaPurpose::STREAM
            &&& m.kind == kind
            &&& exists|i: int| 0 <= i < ms.len() && ms[i] == m && forall|j: int| i < j < ms.len()
                ==> !((#[trigger] ms[j]).purpose == MediaPurpose::STREAM && ms[j].kind == kind)
        },
        None => forall|j: int| 0 <= j < ms.len() ==> !((#[trigger] ms[j]).purpose == MediaPurpose::STREAM && ms[j].kind == kind),
    }
}

/// A relay sends only stream tracks: for each kind it takes the last track of that kind
/// whose purpose is STREAM, and none when there is no such track; a participant's
/// track is never taken, wherever it stands.
pub proof fn lemma_relay_stream_tracks(ms: Seq<MediaView>, kind: MediaKind)
    ensures
        is_last_stream_track(ms, kind, last_stream_of_kind(ms, kind)),
    decreases ms.len(),
{
    if ms.len() > 0 {
        let init = ms.drop_last();
        lemma_relay_stream_tracks(init, kind);
        let n = ms.len() - 1;
        assert(ms[n] == ms.last());
        if ms.last().purpose == MediaPurpose::STREAM && ms.last().kind == kind {
            assert(ms[n] == ms.last());
        } else {
            match last_stream_of_kind(init, kind) {
                Some(m) => {
                    let i = choose|i: int| 0 <= i < init.len() && init[i] == m && forall|j: int| i < j < init.len()
                        ==> !((#[trigger] init[j]).purpose == MediaPurpose::STREAM && init[j].kind == kind);
                    assert(ms[i] == m);
                    assert forall|j: int| i < j < ms.len() implies !((#[trigger] ms[j]).purpose == MediaPurpose::STREAM && ms[j].kind == kind) by {
                        if j < n {
                            assert(ms[j] == init[j]);
                        }
                    }
                },
                None => {
                    assert forall|j: int| 0 <= j < ms.len() implies !((#[trigger] ms[j]).purpose == MediaPurpose::STREAM && ms[j].kind == kind) by {
                        if j < n {
                            assert(ms[j] == init[j]);
                        }
                    }
                },
            }
        }
    }
}

/// The view of an optional track.
pub open spec fn opt_media_view(m: Option<Media>) -> Option<MediaView> {
    match m {
        Some(m) => Some(m@),
        None => None,
    }
}

/// The tracks a relay streams out: one audio and one video track, if there are any.
#[derive(Debug)]
pub struct RelayMediaStream {
    pub audio: Option<Media>,
    pub video: Option<Media>,
}

/// The tracks of a lobby, in the order they were added.
#[derive(Debug)]
pub struct Router {
    pub medias: Vec<Media>,
}

impl Router {
    /// The tracks as plain values.
    pub open spec fn tracks(&self) -> Seq<MediaView> {
        medias_view(self.medias@)
    }

    pub fn new() -> (r: Self)
        ensures
            r.tracks() == Seq::<MediaView>::empty(),
    {
        let r = Router { medias: Vec::new() };
        assert(r.tracks() =~= Seq::<MediaView>::empty());
        r
    }

    fn position_of_id(&self, id: &MediaId) -> (r: Option<usize>)
        ensures
            match r {
                Some(i) => first_with_id(self.tracks(), id@, i as int) && index_of_id(self.tracks(), id@)
                    == Some(i as int),
                None => index_of_id(self.tracks(), id@) is None,
            },
    {
        let mut i: usize = 0;
        while i < self.medias.len()
            invariant
                i <= self.medias@.len(),
                forall|j: int| 0 <= j < i ==> self.tracks()[j].id != id@,
            decreases self.medias@.len() - i,
        {
            if self.medias[i].id.same_as(id) {
                assert(first_with_id(self.tracks(), id@, i as int));
                assert forall|k: int| first_with_id(self.tracks(), id@, k) implies k == i by {
                    if k < i {
                    } else if k > i {
                        assert(self.tracks()[i as int].id == id@);
                    }
                }
                return Some(i);
            }
            i = i + 1;
        }
        None
    }

    /// Adds a track; a track with the same media id is replaced.
    pub fn insert(&mut self, media: Media)
        ensures
            final(self).tracks() == (match index_of_id(old(self).tracks(), media.id@) {
                Some(i) => old(self).tracks().update(i, media@),
                None => old(self).tracks().push(media@),
            }),
    {
        match self.position_of_id(&media.id) {
            Some(i) => {
                self.medias.set(i, media);
            },
            None => {
                self.medias.push(media);
            },
        }
        assert(self.tracks() =~= (match index_of_id(old(self).tracks(), media.id@) {
            Some(i) => old(self).tracks().update(i, media@),
            None => old(self).tracks().push(media@),
        }));
    }

    /// The track with media id `id`.
    pub fn media(&self, id: &MediaId) -> (r: Option<&Media>)
        ensures
            match index_of_id(self.tracks(), id@) {
                Some(i) => r is Some && r->0@ == self.tracks()[i],
                None => r is None,
            },
    {
        match self.position_of_id(id) {
            Some(i) => Some(&self.medias[i]),
            None => None,
        }
    }

    /// Drops every track of `peer_id`.
    pub fn remove_medias_of_peer(&mut self, peer_id: &PeerId)
        ensures
            final(self).tracks() == select_by_peer(old(self).tracks(), peer_id@, false),
    {
        let kept = self.select(peer_id, false);
        self.medias = kept;
    }

    fn select(&self, peer_id: &PeerId, of_peer: bool) -> (r: Vec<Media>)
        ensures
            medias_view(r@) == select_by_peer(self.tracks(), peer_id@, of_peer),
    {
        let mut r: Vec<Media> = Vec::new();
        let mut i: usize = 0;
        while i < self.medias.len()
            invariant
                i <= self.medias@.len(),
                medias_view(r@) == select_by_peer(self.tracks().subrange(0, i as int), peer_id@, of_peer),
            decreases self.medias@.len() - i,
        {
            let ghost before = r@;
            assert(self.tracks().subrange(0, i + 1).drop_last() =~= self.tracks().subrange(0, i as int));
            if self.medias[i].peer_id.same_as(peer_id) == of_peer {
                r.push(self.medias[i].duplicate());
                assert(medias_view(r@) =~= medias_view(before).push(self.tracks()[i as int]));
            }
            i = i + 1;
        }
        assert(self.tracks().subrange(0, self.medias@.len() as int) =~= self.tracks());
        r
    }

    /// Copies of the tracks that do not belong to `peer_id`.
    pub fn get_medias_without_peer(&self, peer_id: &PeerId) -> (r: Vec<Media>)
        ensures
            medias_view(r@) == select_by_peer(self.tracks(), peer_id@, false),
    {
        self.select(peer_id, false)
    }

    /// Copies of the tracks of `peer_id`.
    pub fn get_medias_of_peer(&self, peer_id: &PeerId) -> (r: Vec<Media>)
        ensures
            medias_view(r@) == select_by_peer(self.tracks(), peer_id@, true),
    {
        self.select(peer_id, true)
    }

    /// Where the track of `peer_id` with mid `mid` is.
    pub fn position_of_peer_mid(&self, peer_id: &PeerId, mid: &str) -> (r: Option<usize>)
        ensures
            match r {
                Some(i) => index_of_peer_mid(self.tracks(), peer_id@, mid@) == Some(i as int),
                None => index_of_peer_mid(self.tracks(), peer_id@, mid@) is None,
            },
    {
        let mut i: usize = 0;
        while i < self.medias.len()
            invariant
                i <= self.medias@.len(),
                forall|j: int| 0 <= j < i ==> !(self.tracks()[j].peer_id == peer_id@ && self.tracks()[j].mid == mid@),
            decreases self.medias@.len() - i,
        {
            if self.medias[i].peer_id.same_as(peer_id) && str_eq(self.medias[i].mid.as_str(), mid) {
                assert(first_of_peer_with_mid(self.tracks(), peer_id@, mid@, i as int));
                assert forall|k: int| first_of_peer_with_mid(self.tracks(), peer_id@, mid@, k) implies k == i by {
                    if k > i {
                        assert(self.tracks()[i as int].peer_id == peer_id@);
                    }
                }
                return Some(i);
            }
            i = i + 1;
        }
        None
    }

    /// The track of `peer_id` with mid `mid`, to be changed in place.
    pub fn get_media_of_peer_by_mid(&mut self, peer_id: &PeerId, mid: &str) -> (r: Option<&mut Media>)
        ensures
            match index_of_peer_mid(old(self).tracks(), peer_id@, mid@) {
                Some(i) => r matches Some(m) && (*m)@ == old(self).tracks()[i] && final(self).tracks()
                    == old(self).tracks().update(i, (*final(m))@),
                None => r is None && final(self).tracks() == old(self).tracks(),
            },
    {
        match self.position_of_peer_mid(peer_id, mid) {
            Some(i) => Some(&mut self.medias[i]),
            None => None,
        }
    }

    /// The stream a relay sends out: the last audio and the last video track that are
    /// streams.
    pub fn get_media_stream(&self) -> (s: RelayMediaStream)
        ensures
            opt_media_view(s.audio) == last_stream_of_kind(self.tracks(), MediaKind::Audio),
            opt_media_view(s.video) == last_stream_of_kind(self.tracks(), MediaKind::Video),
            is_last_stream_track(self.tracks(), MediaKind::Audio, opt_media_view(s.audio)),
            is_last_stream_track(self.tracks(), MediaKind::Video, opt_media_view(s.video)),
    {
        proof {
            lemma_relay_stream_tracks(self.tracks(), MediaKind::Audio);
            lemma_relay_stream_tracks(self.tracks(), MediaKind::Video);
        }
        let mut stream = RelayMediaStream { audio: None, video: None };
        let mut i: usize = 0;
        while i < self.medias.len()
            invariant
                i <= self.medias@.len(),
                opt_media_view(stream.audio) == last_stream_of_kind(self.tracks().subrange(0, i as int), MediaKind::Audio),
                opt_media_view(stream.video) == last_stream_of_kind(self.tracks().subrange(0, i as int), MediaKind::Video),
            decreases self.medias@.len() - i,
        {
            assert(self.tracks().subrange(0, i + 1).drop_last() =~= self.tracks().subrange(0, i as int));
            let media = &self.medias[i];
            if media.purpose == MediaPurpose::STREAM {
                match media.kind {
                    MediaKind::Audio => stream.audio = Some(media.duplicate()),
                    MediaKind::Video => stream.video = Some(media.duplicate()),
                    MediaKind::Unspecified => {},
                }
            }
            i = i + 1;
        }
        assert(self.tracks().subrange(0, self.medias@.len() as int) =~= self.tracks());
        stream
    }

    /// The number of tracks.
    pub fn len(&self) -> (n: usize)
        ensures
            n == self.tracks().len(),
    {
        self.medias.len()
    }
}

/// Dropping a peer's tracks leaves none of them, and keeps every other track.
pub proof fn lemma_remove_peer_leaves_none(ms: Seq<MediaView>, peer: Seq<char>)
    ensures
        forall|i: int| 0 <= i < select_by_peer(ms, peer, false).len()
            ==> (#[trigger] select_by_peer(ms, peer, false)[i]).peer_id != peer,
        select_by_peer(ms, peer, false).len() + select_by_peer(ms, peer, true).len() == ms.len(),
    decreases ms.len(),
{
    if ms.len() > 0 {
        lemma_remove_peer_leaves_none(ms.drop_last(), peer);
    }
}

} // verus!
