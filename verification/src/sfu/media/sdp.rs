//! Track descriptions in session descriptions.
//!
//! A peer describes each of its tracks in the `i=` (media title) line of the track's
//! media section: `<purpose> <muted> <info>`, where the purpose is `1` (a participant)
//! or `2` (a stream) and the muted flag is `1` (muted) or `2` (not muted).
use vstd::prelude::*;
use crate::sfu::media::{purpose_of, purpose_text, MediaKind, MediaPurpose};
use crate::sfu::media::track_info::{opt_view, OutboundTrackInfo, OutboundView};
use crate::sfu::rtc::media::codec_map::{eq_ignore_ascii_case, eq_ignore_case};
use crate::util::text::str_eq;
use crate::util::text::{
    has_prefix_at, lemma_next_index_range, lines_from, next_index, next_index_exec,
    next_index_within, str_chars, string_from_chars, strip_prefix_all, strip_prefix_all_at, trim,
    trim_range,
};

verus! {

/// What a peer offers to send on one media section.
#[derive(Debug, Clone)]
pub struct InboundTrackInfo {
    pub mid: String,
    pub kind: MediaKind,
    pub purpose: MediaPurpose,
    pub muted: bool,
    pub info: String,
}

/// An offered track as plain values.
pub struct TrackInfoView {
    pub mid: Seq<char>,
    pub kind: MediaKind,
    pub purpose: MediaPurpose,
    pub muted: bool,
    pub info: Seq<char>,
}

impl View for InboundTrackInfo {
    type V = TrackInfoView;

    open spec fn view(&self) -> TrackInfoView {
        TrackInfoView {
            mid: self.mid@,
            kind: self.kind,
            purpose: self.purpose,
            muted: self.muted,
            info: self.info@,
        }
    }
}

/// A track of a media section before its lines are read: no mid, a participant's,
/// muted, no info.
pub open spec fn new_track(kind: MediaKind) -> TrackInfoView {
    TrackInfoView {
        mid: Seq::empty(),
        kind,
        purpose: MediaPurpose::PARTICIPANT,
        muted: true,
        info: Seq::empty(),
    }
}

impl InboundTrackInfo {
    pub fn new(kind: MediaKind) -> (t: Self)
        ensures
            t@ == new_track(kind),
    {
        InboundTrackInfo {
            mid: String::new(),
            kind,
            purpose: MediaPurpose::PARTICIPANT,
            muted: true,
            info: String::new(),
        }
    }
}

/// `Some("1")` means muted; anything else means not muted.
pub open spec fn muted_of(s: Option<Seq<char>>) -> bool {
    s == Some(seq!['1'])
}

/// How the muted flag is written: `1` muted, `2` not muted.
pub open spec fn muted_text(muted: bool) -> Seq<char> {
    if muted { seq!['1'] } else { seq!['2'] }
}

/// Reads the muted field of a track description.
pub fn parse_muted(value: Option<&str>) -> (b: bool)
    ensures
        b == muted_of(match value {
            Some(t) => Some(t@),
            None => None,
        }),
{
    match value {
        Some(t) => {
            if t.unicode_len() == 1 && t.get_char(0) == '1' {
                assert(t@ =~= seq!['1']);
                true
            } else {
                false
            }
        },
        None => false,
    }
}

/// Writes the muted field of a track description.
pub fn format_muted(muted: bool) -> (s: &'static str)
    ensures
        s@ == muted_text(muted),
{
    proof {
        reveal_strlit("1");
        reveal_strlit("2");
    }
    if muted {
        "1"
    } else {
        "2"
    }
}

/// The first three fields of `d` split at single spaces, as `str::splitn(3, ' ')`
/// yields them: the third keeps any further spaces.
pub open spec fn split3(d: Seq<char>) -> (Seq<char>, Option<Seq<char>>, Option<Seq<char>>) {
    let i = next_index(d, ' ', 0);
    if i >= d.len() {
        (d, None, None)
    } else {
        let j = next_index(d, ' ', i + 1);
        if j >= d.len() {
            (d.subrange(0, i), Some(d.subrange(i + 1, d.len() as int)), None)
        } else {
            (d.subrange(0, i), Some(d.subrange(i + 1, j)), Some(d.subrange(j + 1, d.len() as int)))
        }
    }
}

/// `t` with the description `d` read into it.
pub open spec fn describe(t: TrackInfoView, d: Seq<char>) -> TrackInfoView {
    let (p0, p1, p2) = split3(d);
    TrackInfoView {
        purpose: purpose_of(Some(p0)),
        muted: muted_of(p1),
        info: match p2 {
            Some(x) => x,
            None => Seq::empty(),
        },
        ..t
    }
}

/// Where the reading of an offer stands: the tracks found so far, the media section
/// being read, and whether a mid and a description were read since the last track
/// was taken.
pub struct ParseState {
    pub result: Seq<TrackInfoView>,
    pub current: Option<TrackInfoView>,
    pub parsed_mid: bool,
    pub parsed_dec: bool,
}

pub open spec fn initial_state() -> ParseState {
    ParseState { result: Seq::empty(), current: None, parsed_mid: false, parsed_dec: false }
}

/// One line of an offer read, before the check for a complete track: `m=audio` and
/// `m=video` open a media section, `a=mid:` names it and `i=` describes it.
pub open spec fn read_line(st: ParseState, line: Seq<char>) -> ParseState {
    if "m=audio"@.is_prefix_of(line) {
        ParseState { current: Some(new_track(MediaKind::Audio)), ..st }
    } else if "m=video"@.is_prefix_of(line) {
        ParseState { current: Some(new_track(MediaKind::Video)), ..st }
    } else if "a=mid:"@.is_prefix_of(line) {
        match st.current {
            Some(t) => ParseState {
                current: Some(TrackInfoView { mid: trim(strip_prefix_all(line, "a=mid:"@)), ..t }),
                parsed_mid: true,
                ..st
            },
            None => st,
        }
    } else if "i="@.is_prefix_of(line) {
        match st.current {
            Some(t) => ParseState {
                current: Some(describe(t, trim(strip_prefix_all(line, "i="@)))),
                parsed_dec: true,
                ..st
            },
            None => st,
        }
    } else {
        st
    }
}

/// One raw line of an offer: it is trimmed and read, and once a mid and a
/// description were read the track goes to the result.
pub open spec fn line_step(st: ParseState, raw: Seq<char>) -> ParseState {
    let s1 = read_line(st, trim(raw));
    if s1.parsed_mid && s1.parsed_dec {
        ParseState {
            result: match s1.current {
                Some(t) => s1.result.push(t),
                None => s1.result,
            },
            current: None,
            parsed_mid: false,
            parsed_dec: false,
        }
    } else {
        s1
    }
}

/// The state after reading `lines` in order.
pub open spec fn parse_lines(lines: Seq<Seq<char>>) -> ParseState
    decreases lines.len(),
{
    if lines.len() == 0 {
        initial_state()
    } else {
        line_step(parse_lines(lines.drop_last()), lines.last())
    }
}

/// Why no track could be read from an offer.
#[derive(Debug, Clone, Copy, PartialEq, Eq, Structural)]
pub enum TrackInfoError {
    /// The offer describes no track with both a mid and a description.
    NoMids,
}

/// The tracks an offer describes, in the order of their media sections.
pub open spec fn offered_tracks(sdp: Seq<char>) -> Result<Seq<TrackInfoView>, TrackInfoError> {
    let r = parse_lines(lines_from(sdp, 0)).result;
    if r.len() == 0 {
        Err(TrackInfoError::NoMids)
    } else {
        Ok(r)
    }
}

/// The views of a list of tracks.
pub open spec fn tracks_view(v: Seq<InboundTrackInfo>) -> Seq<TrackInfoView> {
    v.map_values(|t: InboundTrackInfo| t@)
}

/// The exec counterpart of `ParseState`.
struct Parser {
    result: Vec<InboundTrackInfo>,
    current: Option<InboundTrackInfo>,
    parsed_mid: bool,
    parsed_dec: bool,
}

impl Parser {
    spec fn state(&self) -> ParseState {
        ParseState {
            result: tracks_view(self.result@),
            current: match self.current {
                Some(t) => Some(t@),
                None => None,
            },
            parsed_mid: self.parsed_mid,
            parsed_dec: self.parsed_dec,
        }
    }
}

/// The fields of the description `v[from..to]`.
fn describe_range(t: &mut InboundTrackInfo, v: &[char], from: usize, to: usize)
    requires
        from <= to <= v@.len(),
    ensures
        final(t)@ == describe(old(t)@, v@.subrange(from as int, to as int)),
{
    let ghost d = v@.subrange(from as int, to as int);
    let i = next_index_within(v, ' ', from, to, 0);
    let p0 = string_from_chars(v, from, from + i);
    assert(p0@ =~= d.subrange(0, i as int));
    t.purpose = MediaPurpose::from_option_str(Some(p0.as_str()));
    if i >= to - from {
        t.muted = false;
        t.info = String::new();
        assert(d.subrange(0, i as int) =~= d);
        return;
    }
    let j = next_index_within(v, ' ', from, to, i + 1);
    let p1 = string_from_chars(v, from + i + 1, from + j);
    assert(p1@ =~= d.subrange(i + 1, j as int));
    t.muted = parse_muted(Some(p1.as_str()));
    if j >= to - from {
        t.info = String::new();
        assert(p1@ =~= d.subrange(i + 1, d.len() as int));
    } else {
        t.info = string_from_chars(v, from + j + 1, to);
        assert(t.info@ =~= d.subrange(j + 1, d.len() as int));
    }
}

/// The line prefixes an offer is read by.
struct Prefixes {
    m_audio: Vec<char>,
    m_video: Vec<char>,
    a_mid: Vec<char>,
    i_eq: Vec<char>,
}

impl Prefixes {
    spec fn wf(&self) -> bool {
        &&& self.m_audio@ == "m=audio"@
        &&& self.m_video@ == "m=video"@
        &&& self.a_mid@ == "a=mid:"@
        &&& self.i_eq@ == "i="@
    }

    fn new() -> (p: Self)
        ensures
            p.wf(),
    {
        Prefixes {
            m_audio: str_chars("m=audio"),
            m_video: str_chars("m=video"),
            a_mid: str_chars("a=mid:"),
            i_eq: str_chars("i="),
        }
    }
}

/// Reads the raw line `v[from..to]` of an offer.
fn step_line(p: &mut Parser, v: &[char], from: usize, to: usize, pre: &Prefixes)
    requires
        from <= to <= v@.len(),
        pre.wf(),
    ensures
        final(p).state() == line_step(old(p).state(), v@.subrange(from as int, to as int)),
{
    let ghost st = p.state();
    let (a, b) = trim_range(v, from, to);
    let ghost line = v@.subrange(a as int, b as int);
    if has_prefix_at(v, a, b, pre.m_audio.as_slice()) {
        p.current = Some(InboundTrackInfo::new(MediaKind::Audio));
    } else if has_prefix_at(v, a, b, pre.m_video.as_slice()) {
        p.current = Some(InboundTrackInfo::new(MediaKind::Video));
    } else if has_prefix_at(v, a, b, pre.a_mid.as_slice()) {
        match p.current.take() {
            Some(mut t) => {
                let s = strip_prefix_all_at(v, a, b, pre.a_mid.as_slice());
                let (x, y) = trim_range(v, s, b);
                t.mid = string_from_chars(v, x, y);
                p.current = Some(t);
                p.parsed_mid = true;
            },
            None => {},
        }
    } else if has_prefix_at(v, a, b, pre.i_eq.as_slice()) {
        match p.current.take() {
            Some(mut t) => {
                p.parsed_dec = true;
                let s = strip_prefix_all_at(v, a, b, pre.i_eq.as_slice());
                let (x, y) = trim_range(v, s, b);
                describe_range(&mut t, v, x, y);
                p.current = Some(t);
            },
            None => {},
        }
    }
    assert(p.state() == read_line(st, line));
    if p.parsed_mid && p.parsed_dec {
        let ghost s1 = p.state();
        match p.current.take() {
            Some(t) => {
                p.result.push(t);
            },
            None => {},
        }
        p.parsed_mid = false;
        p.parsed_dec = false;
        assert(tracks_view(p.result@) =~= (match s1.current {
            Some(t) => s1.result.push(t),
            None => s1.result,
        }));
    }
}

/// The tracks that an offer describes with a mid and a description, in the order of
/// their media sections; an error when it describes none.
pub fn parse_offered_track_info(sdp: &str) -> (r: Result<Vec<InboundTrackInfo>, TrackInfoError>)
    ensures
        match offered_tracks(sdp@) {
            Ok(ts) => r is Ok && tracks_view(r->Ok_0@) == ts,
            Err(e) => r == Err::<Vec<InboundTrackInfo>, TrackInfoError>(e),
        },
{
    let v = str_chars(sdp);
    let pre = Prefixes::new();
    let mut p = Parser { result: Vec::new(), current: None, parsed_mid: false, parsed_dec: false };
    assert(tracks_view(p.result@) =~= Seq::<TrackInfoView>::empty());
    let mut start: usize = 0;
    let ghost mut processed: Seq<Seq<char>> = Seq::empty();
    assert(processed + lines_from(v@, 0) =~= lines_from(v@, 0));
    while start < v.len()
        invariant
            start <= v@.len(),
            pre.wf(),
            p.state() == parse_lines(processed),
            processed + lines_from(v@, start as int) == lines_from(v@, 0),
        decreases v@.len() - start,
    {
        let e = next_index_exec(v.as_slice(), '\n', start);
        step_line(&mut p, v.as_slice(), start, e, &pre);
        let ghost l = v@.subrange(start as int, e as int);
        proof {
            assert(processed.push(l).drop_last() =~= processed);
            if e >= v@.len() {
                assert(lines_from(v@, start as int) =~= seq![l]);
                assert(lines_from(v@, v@.len() as int) =~= Seq::<Seq<char>>::empty());
                assert(processed.push(l) + lines_from(v@, v@.len() as int) =~= processed + lines_from(v@, start as int));
            } else {
                assert(lines_from(v@, start as int) =~= seq![l] + lines_from(v@, e + 1));
                assert(processed.push(l) + lines_from(v@, e + 1) =~= processed + lines_from(v@, start as int));
            }
            processed = processed.push(l);
        }
        if e >= v.len() {
            start = v.len();
        } else {
            start = e + 1;
        }
    }
    proof {
        assert(lines_from(v@, start as int) =~= Seq::<Seq<char>>::empty());
        assert(processed =~= lines_from(v@, 0));
    }
    if p.result.len() == 0 {
        Err(TrackInfoError::NoMids)
    } else {
        Ok(p.result)
    }
}

/// The media title that describes a track: `<purpose> <muted> <info>`.
pub open spec fn description_text(purpose: MediaPurpose, muted: bool, info: Seq<char>) -> Seq<char> {
    purpose_text(purpose) + seq![' '] + muted_text(muted) + seq![' '] + info
}

/// Writes the media title that describes a track.
pub fn track_description(purpose: MediaPurpose, muted: bool, info: &str) -> (s: String)
    ensures
        s@ == description_text(purpose, muted, info@),
{
    let s = purpose.to_string();
    let s = s.concat(" ");
    let s = s.concat(format_muted(muted));
    let s = s.concat(" ");
    proof {
        reveal_strlit(" ");
    }
    s.concat(info)
}

/// Reading a written description gives back its purpose, muted flag and info, whatever
/// the info holds.
pub proof fn lemma_description_round_trip(
    t: TrackInfoView,
    purpose: MediaPurpose,
    muted: bool,
    info: Seq<char>,
)
    ensures
        describe(t, description_text(purpose, muted, info)).purpose == purpose,
        describe(t, description_text(purpose, muted, info)).muted == muted,
        describe(t, description_text(purpose, muted, info)).info == info,
        describe(t, description_text(purpose, muted, info)).mid == t.mid,
        describe(t, description_text(purpose, muted, info)).kind == t.kind,
{
    let d = description_text(purpose, muted, info);
    assert(d[0] != ' ');
    assert(d[1] == ' ');
    crate::util::text::lemma_next_index(d, ' ', 0, 1);
    assert(d[2] != ' ');
    assert(d[3] == ' ');
    crate::util::text::lemma_next_index(d, ' ', 2, 3);
    assert(d.subrange(0, 1) =~= purpose_text(purpose));
    assert(d.subrange(2, 3) =~= muted_text(muted));
    assert(d.subrange(4, d.len() as int) =~= info);
}

/// A media section of a session description: its media type, the value of its `msid`
/// attribute (`Some(None)` for the attribute without a value), and its media title.
#[derive(Debug, Clone)]
pub struct MediaSection {
    pub media: String,
    pub msid: Option<Option<String>>,
    pub title: Option<String>,
}

/// A media section as plain values.
pub type MediaSectionView = (Seq<char>, Option<Option<Seq<char>>>, Option<Seq<char>>);

pub open spec fn section_view(m: MediaSection) -> MediaSectionView {
    (
        m.media@,
        match m.msid {
            Some(v) => Some(opt_view(v)),
            None => None,
        },
        opt_view(m.title),
    )
}

pub open spec fn sections_view(v: Seq<MediaSection>) -> Seq<MediaSectionView> {
    v.map_values(|m: MediaSection| section_view(m))
}

/// The media sections, in order, that the SDP parser of `rtc` reads from a text, or
/// `None` where it refuses the text.
pub uninterp spec fn parsed_media_sections(sdp: Seq<char>) -> Option<Seq<MediaSectionView>>;

/// The text that the SDP parser and writer of `rtc` make of `sdp` with the media titles
/// set to `titles`, section by section, or `None` where the parser refuses `sdp`.
pub uninterp spec fn retitled_sdp(sdp: Seq<char>, titles: Seq<Option<Seq<char>>>) -> Option<Seq<char>>;

/// Parses a session description with `rtc`'s `SessionDescription::unmarshal` and lists
/// its media sections. What the parser accepts and reads is named, not stated.
#[verifier::external_body]
fn media_sections(sdp: &str) -> (r: Option<Vec<MediaSection>>)
    ensures
        match r {
            Some(v) => parsed_media_sections(sdp@) == Some(sections_view(v@)),
            None => parsed_media_sections(sdp@) is None,
        },
{
    let mut reader = std::io::Cursor::new(sdp.as_bytes());
    let session = rtc::sdp::description::session::SessionDescription::unmarshal(&mut reader).ok()?;
    Some(session.media_descriptions.iter().map(|m| MediaSection {
        media: m.media_name.media.clone(),
        msid: m.attribute("msid").map(|v| v.map(|s| s.to_owned())),
        title: m.media_title.clone(),
    }).collect())
}

/// Parses a session description with `rtc`'s `SessionDescription::unmarshal`, sets the
/// media title of each media section to the title at its position, and writes the
/// description back with `marshal`. It parses the same text as [`media_sections`], so it
/// succeeds exactly when that does; the text it writes is named, not stated.
#[verifier::external_body]
fn retitle_media(sdp: &str, titles: &[Option<String>]) -> (r: Option<String>)
    requires
        parsed_media_sections(sdp@) matches Some(s) ==> titles@.len() == s.len(),
    ensures
        r is Some <==> parsed_media_sections(sdp@) is Some,
        match r {
            Some(t) => retitled_sdp(sdp@, titles@.map_values(|t: Option<String>| opt_view(t))) == Some(t@),
            None => retitled_sdp(sdp@, titles@.map_values(|t: Option<String>| opt_view(t))) is None,
        },
{
    let mut reader = std::io::Cursor::new(sdp.as_bytes());
    let mut session = rtc::sdp::description::session::SessionDescription::unmarshal(&mut reader).ok()?;
    for (m, t) in session.media_descriptions.iter_mut().zip(titles.iter()) {
        m.media_title = t.clone();
    }
    Some(session.marshal())
}

/// The first track sent under `msid`.
pub open spec fn track_by_msid(tracks: Seq<OutboundView>, msid: Seq<char>, from: int) -> Option<int>
    decreases tracks.len() - from,
{
    if from < 0 || from >= tracks.len() {
        None
    } else if tracks[from].msid == msid {
        Some(from)
    } else {
        track_by_msid(tracks, msid, from + 1)
    }
}

/// The media title of a section once the tracks are described: a data section, or a
/// section with no `msid` value or no track under its `msid`, keeps its title; the
/// others are described by their track.
pub open spec fn section_title(m: MediaSectionView, tracks: Seq<OutboundView>) -> Option<Seq<char>> {
    if eq_ignore_case(m.0, "application"@) {
        m.2
    } else {
        match m.1 {
            Some(Some(msid)) => match track_by_msid(tracks, msid, 0) {
                Some(i) => Some(description_text(tracks[i].purpose, tracks[i].muted, tracks[i].info)),
                None => m.2,
            },
            _ => m.2,
        }
    }
}

/// The media titles of the sections, section by section.
pub open spec fn section_titles(ms: Seq<MediaSectionView>, tracks: Seq<OutboundView>) -> Seq<Option<Seq<char>>> {
    ms.map_values(|m: MediaSectionView| section_title(m, tracks))
}

/// The media titles that describe the tracks `track_info` in the media sections
/// `sections`, section by section.
pub fn media_titles(sections: &[MediaSection], track_info: &[OutboundTrackInfo]) -> (r: Vec<Option<String>>)
    ensures
        r@.map_values(|t: Option<String>| opt_view(t)) == section_titles(
            sections_view(sections@),
            track_info@.map_values(|t: OutboundTrackInfo| t@),
        ),
{
    let ghost tracks = track_info@.map_values(|t: OutboundTrackInfo| t@);
    let ghost ms = sections_view(sections@);
    let mut r: Vec<Option<String>> = Vec::new();
    let mut i: usize = 0;
    proof {
        reveal_strlit("application");
    }
    while i < sections.len()
        invariant
            i <= sections@.len(),
            tracks == track_info@.map_values(|t: OutboundTrackInfo| t@),
            ms == sections_view(sections@),
            r@.map_values(|t: Option<String>| opt_view(t)) == section_titles(ms, tracks).take(i as int),
        decreases sections@.len() - i,
    {
        let m = &sections[i];
        assert(ms[i as int] == section_view(*m));
        let keep = match &m.title {
            Some(t) => Some(t.clone()),
            None => None,
        };
        let title: Option<String> = if eq_ignore_ascii_case(m.media.as_str(), "application") {
            keep
        } else {
            match &m.msid {
                Some(Some(msid)) => {
                    let mut k: usize = 0;
                    while k < track_info.len() && !str_eq(track_info[k].msid.as_str(), msid.as_str())
                        invariant
                            k <= track_info@.len(),
                            tracks == track_info@.map_values(|t: OutboundTrackInfo| t@),
                            track_by_msid(tracks, msid@, 0) == track_by_msid(tracks, msid@, k as int),
                        decreases track_info@.len() - k,
                    {
                        assert(tracks[k as int] == track_info@[k as int]@);
                        k = k + 1;
                    }
                    if k < track_info.len() {
                        let t = &track_info[k];
                        assert(tracks[k as int] == t@);
                        Some(track_description(t.purpose, t.muted, t.info.as_str()))
                    } else {
                        keep
                    }
                },
                _ => keep,
            }
        };
        assert(opt_view(title) == section_title(ms[i as int], tracks));
        let ghost before = r@.map_values(|t: Option<String>| opt_view(t));
        r.push(title);
        assert(r@.map_values(|t: Option<String>| opt_view(t)) =~= before.push(section_title(ms[i as int], tracks)));
        assert(section_titles(ms, tracks).take(i + 1) =~= section_titles(ms, tracks).take(i as int).push(
            section_title(ms[i as int], tracks),
        ));
        i = i + 1;
    }
    assert(section_titles(ms, tracks).take(sections@.len() as int) =~= section_titles(ms, tracks));
    r
}

/// Why the tracks could not be described in a session description.
#[derive(Debug, Clone, Copy, PartialEq, Eq, Structural)]
pub enum SetTrackInfoError {
    /// The SDP parser refuses the text.
    Unparsable,
}

/// Describes the tracks `track_info` in the session description `sdp`: each audio or
/// video section whose `msid` names one of the tracks gets that track's description as
/// its media title; the rest of the text is as the SDP writer renders it.
pub fn set_track_info(sdp: &str, track_info: &[OutboundTrackInfo]) -> (r: Result<String, SetTrackInfoError>)
    ensures
        match parsed_media_sections(sdp@) {
            None => r == Err::<String, SetTrackInfoError>(SetTrackInfoError::Unparsable),
            Some(ms) => r matches Ok(t) && retitled_sdp(
                sdp@,
                section_titles(ms, track_info@.map_values(|t: OutboundTrackInfo| t@)),
            ) == Some(t@),
        },
{
    let sections = match media_sections(sdp) {
        Some(s) => s,
        None => return Err(SetTrackInfoError::Unparsable),
    };
    let titles = media_titles(sections.as_slice(), track_info);
    assert(titles@.len() == titles@.map_values(|t: Option<String>| opt_view(t)).len());
    match retitle_media(sdp, titles.as_slice()) {
        Some(t) => Ok(t),
        None => Err(SetTrackInfoError::Unparsable),
    }
}

} // verus!
