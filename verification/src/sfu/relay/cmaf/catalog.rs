//! The catalog a relay publishes beside its broadcast: the JSON that tells a player how
//! to decode the video (`video0`, H.264) and audio (`audio1`, AAC-LC) tracks, carrying
//! each track's CMAF init segment.
use vstd::prelude::*;
use crate::sfu::relay::cmaf::box_payload::{box_payload_spec, extract_box_payload};
use crate::sfu::relay::error::RelayError;
use crate::util::text::{hex_digit, push_char};
use base64::engine::general_purpose::STANDARD;
use base64::Engine;

verus! {

/// What `base64`'s `STANDARD` engine renders bytes as.
pub uninterp spec fn base64_standard_encode(bytes: Seq<u8>) -> Seq<char>;

/// A character of the padded standard base64 alphabet.
pub open spec fn is_base64_padded_char(c: char) -> bool {
    ('A' <= c && c <= 'Z') || ('a' <= c && c <= 'z') || ('0' <= c && c <= '9') || c == '+' || c
        == '/' || c == '='
}

/// Encodes with `base64`'s `STANDARD` engine. As that crate documents, the output uses
/// the standard alphabet and `=` padding, four characters for every started three bytes.
#[verifier::external_body]
fn base64_standard(bytes: &[u8]) -> (s: String)
    ensures
        s@ == base64_standard_encode(bytes@),
        s@.len() == 4 * ((bytes@.len() + 2) / 3),
        forall|i: int| 0 <= i < s@.len() ==> is_base64_padded_char(#[trigger] s@[i]),
{
    STANDARD.encode(bytes)
}

/// Bytes as lowercase hexadecimal, two digits a byte, high digit first.
pub open spec fn hex_spec(b: Seq<u8>) -> Seq<char>
    decreases b.len(),
{
    if b.len() == 0 {
        Seq::empty()
    } else {
        hex_spec(b.drop_last()) + seq![hex_digit((b.last() / 16) as int), hex_digit((b.last() % 16) as int)]
    }
}

fn hex_digit_exec(n: u8) -> (c: char)
    requires
        n < 16,
    ensures
        c == hex_digit(n as int),
{
    if n < 10 {
        (48u8 + n) as char
    } else {
        (87u8 + n) as char
    }
}

/// Writes bytes as lowercase hexadecimal (what `hex::encode` does).
pub fn hex_encode(bytes: &[u8]) -> (s: String)
    ensures
        s@ == hex_spec(bytes@),
{
    let mut s = String::new();
    let mut i: usize = 0;
    while i < bytes.len()
        invariant
            i <= bytes@.len(),
            s@ == hex_spec(bytes@.take(i as int)),
        decreases bytes@.len() - i,
    {
        let b = bytes[i];
        assert(bytes@.take(i + 1).drop_last() =~= bytes@.take(i as int));
        assert(bytes@.take(i + 1).last() == b);
        push_char(&mut s, hex_digit_exec(b / 16));
        push_char(&mut s, hex_digit_exec(b % 16));
        assert(s@ =~= hex_spec(bytes@.take(i + 1)));
        i = i + 1;
    }
    assert(bytes@.take(bytes@.len() as int) =~= bytes@);
    s
}

/// The catalog text for the given base64 video and audio init segments and hex avcC
/// configuration: compact JSON with its keys in order.
pub open spec fn catalog_text(video_init: Seq<char>, audio_init: Seq<char>, video_avcc: Seq<char>) -> Seq<char> {
    "{\"audio\":{\"renditions\":{\"audio1\":{\"bitrate\":128000,\"codec\":\"mp4a.40.2\",\"container\":{\"init\":\""@
        + audio_init
        + "\",\"kind\":\"cmaf\"},\"description\":\"1190\",\"numberOfChannels\":2,\"sampleRate\":48000}}},\"video\":{\"renditions\":{\"video0\":{\"bitrate\":5000000,\"codec\":\"avc1.42c020\",\"codedHeight\":360,\"codedWidth\":640,\"container\":{\"init\":\""@
        + video_init
        + "\",\"kind\":\"cmaf\"},\"description\":\""@
        + video_avcc
        + "\",\"framerate\":30.0,\"optimizeForLatency\":true}}}}"@
}

/// The catalog for the video and audio init segments and the video's avcC box payload.
pub fn catalog_json(video_init: &[u8], audio_init: &[u8], video_avcc: &[u8]) -> (s: String)
    ensures
        s@ == catalog_text(
            base64_standard_encode(video_init@),
            base64_standard_encode(audio_init@),
            hex_spec(video_avcc@),
        ),
{
    let v = base64_standard(video_init);
    let a = base64_standard(audio_init);
    let h = hex_encode(video_avcc);
    let s = String::from_str(
        "{\"audio\":{\"renditions\":{\"audio1\":{\"bitrate\":128000,\"codec\":\"mp4a.40.2\",\"container\":{\"init\":\"",
    );
    let s = s.concat(a.as_str());
    let s = s.concat(
        "\",\"kind\":\"cmaf\"},\"description\":\"1190\",\"numberOfChannels\":2,\"sampleRate\":48000}}},\"video\":{\"renditions\":{\"video0\":{\"bitrate\":5000000,\"codec\":\"avc1.42c020\",\"codedHeight\":360,\"codedWidth\":640,\"container\":{\"init\":\"",
    );
    let s = s.concat(v.as_str());
    let s = s.concat("\",\"kind\":\"cmaf\"},\"description\":\"");
    let s = s.concat(h.as_str());
    s.concat("\",\"framerate\":30.0,\"optimizeForLatency\":true}}}}")
}

/// The catalog of a broadcast with the given video and audio init segments: the video
/// init must hold an `avcC` box and the audio init an `esds` box.
pub open spec fn catalog_for_spec(video_init: Seq<u8>, audio_init: Seq<u8>) -> Result<Seq<char>, Seq<char>> {
    match box_payload_spec(video_init, seq![0x61u8, 0x76u8, 0x63u8, 0x43u8]) {
        None => Err("missing avcC"@),
        Some(avcc) => match box_payload_spec(audio_init, seq![0x65u8, 0x73u8, 0x64u8, 0x73u8]) {
            None => Err("missing esds"@),
            Some(_) => Ok(catalog_text(
                base64_standard_encode(video_init),
                base64_standard_encode(audio_init),
                hex_spec(avcc),
            )),
        },
    }
}

/// The catalog to publish for a broadcast whose tracks start with the init segments
/// `video_init` and `audio_init`; a publisher error where an init lacks its codec
/// configuration box.
pub fn build_catalog(video_init: &[u8], audio_init: &[u8]) -> (r: Result<String, RelayError>)
    ensures
        match catalog_for_spec(video_init@, audio_init@) {
            Ok(t) => r matches Ok(s) && s@ == t,
            Err(e) => r matches Err(RelayError::CmafPublisher(m)) && m@ == e,
        },
{
    let avcc_name: [u8; 4] = [0x61, 0x76, 0x63, 0x43];
    let esds_name: [u8; 4] = [0x65, 0x73, 0x64, 0x73];
    assert(avcc_name@ =~= seq![0x61u8, 0x76u8, 0x63u8, 0x43u8]);
    assert(esds_name@ =~= seq![0x65u8, 0x73u8, 0x64u8, 0x73u8]);
    let avcc = match extract_box_payload(video_init, &avcc_name) {
        Some(p) => p,
        None => return Err(RelayError::CmafPublisher(String::from_str("missing avcC"))),
    };
    match extract_box_payload(audio_init, &esds_name) {
        Some(_) => {},
        None => return Err(RelayError::CmafPublisher(String::from_str("missing esds"))),
    }
    Ok(catalog_json(video_init, audio_init, avcc.as_slice()))
}

} // verus!
