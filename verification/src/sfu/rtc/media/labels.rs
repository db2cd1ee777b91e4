//! Labels under which the RTC layer reports streams in its diagnostics.
use vstd::prelude::*;
use crate::sfu::media::MediaKind;
use crate::util::text::{has_prefix_at, str_chars, str_eq};

verus! {

/// A stream's medium by its MIME type: `audio/...` or `video/...`.
pub open spec fn media_label_spec(mime: Seq<char>) -> Seq<char> {
    if "audio/"@.is_prefix_of(mime) {
        "audio"@
    } else if "video/"@.is_prefix_of(mime) {
        "video"@
    } else {
        "unknown"@
    }
}

/// The medium of a stream, by its MIME type.
pub fn media_label(mime_type: &str) -> (s: &'static str)
    ensures
        s@ == media_label_spec(mime_type@),
{
    let v = str_chars(mime_type);
    let audio = str_chars("audio/");
    let video = str_chars("video/");
    if has_prefix_at(v.as_slice(), 0, v.len(), audio.as_slice()) {
        assert(v@.subrange(0, v@.len() as int) =~= v@);
        "audio"
    } else if has_prefix_at(v.as_slice(), 0, v.len(), video.as_slice()) {
        assert(v@.subrange(0, v@.len() as int) =~= v@);
        "video"
    } else {
        assert(v@.subrange(0, v@.len() as int) =~= v@);
        "unknown"
    }
}

/// The label of a medium: `audio`, `video`, or `unknown` while it is not known.
pub fn media_kind_label(kind: MediaKind) -> (s: &'static str)
    ensures
        s@ == (match kind {
            MediaKind::Audio => "audio"@,
            MediaKind::Video => "video"@,
            MediaKind::Unspecified => "unknown"@,
        }),
{
    match kind {
        MediaKind::Audio => "audio",
        MediaKind::Video => "video",
        MediaKind::Unspecified => "unknown",
    }
}

/// One RTCP feedback a stream negotiated: its type and parameter.
#[derive(Debug, Clone)]
pub struct RtcpFeedback {
    pub typ: String,
    pub parameter: String,
}

/// Whether a stream negotiated plain NACK feedback (type `nack`, no parameter).
pub open spec fn supports_nack_spec(fb: Seq<(Seq<char>, Seq<char>)>) -> bool {
    exists|i: int| 0 <= i < fb.len() && fb[i].0 == "nack"@ && fb[i].1.len() == 0
}

/// Whether a stream negotiated plain NACK feedback.
pub fn stream_supports_nack(feedback: &[RtcpFeedback]) -> (b: bool)
    ensures
        b == supports_nack_spec(feedback@.map_values(|f: RtcpFeedback| (f.typ@, f.parameter@))),
{
    let ghost fb = feedback@.map_values(|f: RtcpFeedback| (f.typ@, f.parameter@));
    let mut i: usize = 0;
    while i < feedback.len()
        invariant
            i <= feedback@.len(),
            fb == feedback@.map_values(|f: RtcpFeedback| (f.typ@, f.parameter@)),
            forall|j: int| 0 <= j < i ==> !(fb[j].0 == "nack"@ && fb[j].1.len() == 0),
        decreases feedback@.len() - i,
    {
        let f = &feedback[i];
        assert(fb[i as int] == (f.typ@, f.parameter@));
        if str_eq(f.typ.as_str(), "nack") && f.parameter.unicode_len() == 0 {
            return true;
        }
        i = i + 1;
    }
    false
}

} // verus!
