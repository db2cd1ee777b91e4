//! How a publisher's payload types and RTP header extensions map onto a subscriber's.
//!
//! Each leg of the SFU negotiates its own payload types and extension ids, so a packet
//! forwarded from a publisher to a subscriber is rewritten: its payload type to the
//! subscriber's type for the same codec, and each header extension id to the id the
//! subscriber negotiated for the same URI.
use vstd::prelude::*;
use crate::sfu::endpoint::RtcEndpointId;
use crate::sfu::peer::PeerId;
use crate::sfu::rtc::media::forward::{opt_str_view, ForwardTarget, HeaderExtensionRewrite, RtpSenderId};
use crate::util::text::{str_eq, str_chars};

verus! {

/// The URI of the RTP header extension that carries the mid (RFC 8843).
pub const SDES_MID_URI: &'static str = "urn:ietf:params:rtp-hdrext:sdes:mid";

/// A codec as the SFU compares them: its MIME type and format parameters.
#[derive(Debug, Clone)]
pub struct RtpCodec {
    pub mime_type: String,
    pub sdp_fmtp_line: String,
}

/// A negotiated codec: its payload type and the codec.
#[derive(Debug, Clone)]
pub struct RtpCodecParameters {
    pub payload_type: u8,
    pub rtp_codec: RtpCodec,
}

/// A negotiated RTP header extension: its URI and local id.
#[derive(Debug, Clone)]
pub struct RtpHeaderExtensionParameters {
    pub uri: String,
    pub id: u16,
}

/// A negotiated codec as plain values: payload type, MIME type, format parameters.
pub type CodecView = (u8, Seq<char>, Seq<char>);

pub open spec fn codecs_view(v: Seq<RtpCodecParameters>) -> Seq<CodecView> {
    v.map_values(|c: RtpCodecParameters| (c.payload_type, c.rtp_codec.mime_type@, c.rtp_codec.sdp_fmtp_line@))
}

/// An extension as plain values: URI and id.
pub type ExtensionView = (Seq<char>, u16);

pub open spec fn extensions_view(v: Seq<RtpHeaderExtensionParameters>) -> Seq<ExtensionView> {
    v.map_values(|e: RtpHeaderExtensionParameters| (e.uri@, e.id))
}

/// `c` with ASCII upper-case letters made lower-case.
pub open spec fn ascii_lower(c: char) -> char {
    if 'A' <= c && c <= 'Z' {
        ((c as u32) + 32) as char
    } else {
        c
    }
}

/// `str::eq_ignore_ascii_case`.
pub open spec fn eq_ignore_case(a: Seq<char>, b: Seq<char>) -> bool {
    a.len() == b.len() && forall|i: int| 0 <= i < a.len() ==> ascii_lower(#[trigger] a[i]) == ascii_lower(b[i])
}

fn ascii_lower_char(c: char) -> (r: char)
    ensures
        r == ascii_lower(c),
{
    if 'A' <= c && c <= 'Z' {
        let b: u8 = (c as u8) + 32;
        b as char
    } else {
        c
    }
}

/// Whether two strings are equal up to the case of ASCII letters.
pub fn eq_ignore_ascii_case(a: &str, b: &str) -> (r: bool)
    ensures
        r == eq_ignore_case(a@, b@),
{
    let n = a.unicode_len();
    if n != b.unicode_len() {
        return false;
    }
    let mut i: usize = 0;
    while i < n
        invariant
            i <= n,
            n == a@.len(),
            n == b@.len(),
            forall|j: int| 0 <= j < i ==> ascii_lower(#[trigger] a@[j]) == ascii_lower(b@[j]),
        decreases n - i,
    {
        if ascii_lower_char(a.get_char(i)) != ascii_lower_char(b.get_char(i)) {
            return false;
        }
        i = i + 1;
    }
    true
}

/// Whether subscriber codec `c` fits publisher codec `p`: the same MIME type and, if
/// `exact`, the same format parameters.
pub open spec fn codec_fits(c: CodecView, mime: Seq<char>, fmtp: Seq<char>, exact: bool) -> bool {
    eq_ignore_case(c.1, mime) && (!exact || c.2 == fmtp)
}

/// The first subscriber codec from position `from` on that fits.
pub open spec fn first_fit(subs: Seq<CodecView>, mime: Seq<char>, fmtp: Seq<char>, exact: bool, from: int) -> Option<int>
    decreases subs.len() - from,
{
    if from < 0 || from >= subs.len() {
        None
    } else if codec_fits(subs[from], mime, fmtp, exact) {
        Some(from)
    } else {
        first_fit(subs, mime, fmtp, exact, from + 1)
    }
}

/// The subscriber's payload type for a publisher codec: the first codec with the same
/// MIME type and format parameters, else the first with the same MIME type.
pub open spec fn payload_type_for_codec_spec(subs: Seq<CodecView>, mime: Seq<char>, fmtp: Seq<char>) -> Option<u8> {
    match first_fit(subs, mime, fmtp, true, 0) {
        Some(i) => Some(subs[i].0),
        None => match first_fit(subs, mime, fmtp, false, 0) {
            Some(i) => Some(subs[i].0),
            None => None,
        },
    }
}

fn find_fit(subscriber_codecs: &[RtpCodecParameters], publisher_codec: &RtpCodec, exact: bool) -> (r: Option<usize>)
    ensures
        match r {
            Some(i) => first_fit(codecs_view(subscriber_codecs@), publisher_codec.mime_type@, publisher_codec.sdp_fmtp_line@, exact, 0) == Some(i as int),
            None => first_fit(codecs_view(subscriber_codecs@), publisher_codec.mime_type@, publisher_codec.sdp_fmtp_line@, exact, 0) is None,
        },
        r matches Some(i) ==> i < subscriber_codecs@.len(),
{
    let ghost subs = codecs_view(subscriber_codecs@);
    let ghost mime = publisher_codec.mime_type@;
    let ghost fmtp = publisher_codec.sdp_fmtp_line@;
    let mut i: usize = 0;
    while i < subscriber_codecs.len()
        invariant
            i <= subscriber_codecs@.len(),
            subs == codecs_view(subscriber_codecs@),
            mime == publisher_codec.mime_type@,
            fmtp == publisher_codec.sdp_fmtp_line@,
            first_fit(subs, mime, fmtp, exact, 0) == first_fit(subs, mime, fmtp, exact, i as int),
        decreases subscriber_codecs@.len() - i,
    {
        let c = &subscriber_codecs[i];
        assert(subs.len() == subscriber_codecs@.len());
        let same_mime = eq_ignore_ascii_case(c.rtp_codec.mime_type.as_str(), publisher_codec.mime_type.as_str());
        let same_fmtp = str_eq(c.rtp_codec.sdp_fmtp_line.as_str(), publisher_codec.sdp_fmtp_line.as_str());
        let fits = same_mime && (!exact || same_fmtp);
        assert(subs[i as int] == (c.payload_type, c.rtp_codec.mime_type@, c.rtp_codec.sdp_fmtp_line@));
        assert(same_mime == eq_ignore_case(subs[i as int].1, mime));
        assert(same_fmtp == (subs[i as int].2 == fmtp));
        assert(fits == codec_fits(subs[i as int], mime, fmtp, exact));
        if fits {
            return Some(i);
        }
        i = i + 1;
    }
    None
}

/// The subscriber's payload type for a publisher codec, if the subscriber negotiated
/// that codec.
pub fn payload_type_for_codec(subscriber_codecs: &[RtpCodecParameters], publisher_codec: &RtpCodec) -> (r: Option<u8>)
    ensures
        r == payload_type_for_codec_spec(codecs_view(subscriber_codecs@), publisher_codec.mime_type@, publisher_codec.sdp_fmtp_line@),
{
    match find_fit(subscriber_codecs, publisher_codec, true) {
        Some(i) => {
            assert(codecs_view(subscriber_codecs@)[i as int].0 == subscriber_codecs@[i as int].payload_type);
            Some(subscriber_codecs[i].payload_type)
        },
        None => match find_fit(subscriber_codecs, publisher_codec, false) {
            Some(i) => {
                assert(codecs_view(subscriber_codecs@)[i as int].0 == subscriber_codecs@[i as int].payload_type);
                Some(subscriber_codecs[i].payload_type)
            },
            None => None,
        },
    }
}

/// `m` with `k` mapped to `v`: the pair of `k` replaced, or a new pair added.
pub open spec fn upsert_pair(m: Seq<(u8, u8)>, k: u8, v: u8) -> Seq<(u8, u8)> {
    if exists|i: int| 0 <= i < m.len() && m[i].0 == k {
        let i = choose|i: int| 0 <= i < m.len() && m[i].0 == k;
        m.update(i, (k, v))
    } else {
        m.push((k, v))
    }
}

/// No publisher payload type is mapped twice.
pub open spec fn keys_unique(m: Seq<(u8, u8)>) -> bool {
    forall|i: int, j: int| 0 <= i < m.len() && 0 <= j < m.len() && i != j ==> (#[trigger] m[i]).0 != (#[trigger] m[j]).0
}

/// The payload type map of a forwarding leg: each publisher payload type whose codec
/// the subscriber negotiated, to the subscriber's payload type (a later publisher codec
/// with the same payload type wins).
pub open spec fn payload_type_map_spec(pubs: Seq<CodecView>, subs: Seq<CodecView>) -> Seq<(u8, u8)>
    decreases pubs.len(),
{
    if pubs.len() == 0 {
        Seq::empty()
    } else {
        let m = payload_type_map_spec(pubs.drop_last(), subs);
        let p = pubs.last();
        match payload_type_for_codec_spec(subs, p.1, p.2) {
            Some(v) => upsert_pair(m, p.0, v),
            None => m,
        }
    }
}

proof fn lemma_upsert_pair_unique(m: Seq<(u8, u8)>, k: u8, v: u8)
    requires
        keys_unique(m),
    ensures
        keys_unique(upsert_pair(m, k, v)),
{
    if !(exists|i: int| 0 <= i < m.len() && m[i].0 == k) {
        let r = m.push((k, v));
        assert forall|i: int, j: int| 0 <= i < r.len() && 0 <= j < r.len() && i != j implies (#[trigger] r[i]).0 != (#[trigger] r[j]).0 by {
            if i == m.len() {
                assert(r[j] == m[j]);
            } else if j == m.len() {
                assert(r[i] == m[i]);
            }
        }
    }
}

fn upsert_pair_exec(m: &mut Vec<(u8, u8)>, k: u8, v: u8)
    requires
        keys_unique(old(m)@),
    ensures
        final(m)@ == upsert_pair(old(m)@, k, v),
        keys_unique(final(m)@),
{
    proof {
        lemma_upsert_pair_unique(m@, k, v);
    }
    let mut i: usize = 0;
    while i < m.len()
        invariant
            i <= m@.len(),
            m@ == old(m)@,
            keys_unique(m@),
            forall|j: int| 0 <= j < i ==> (#[trigger] m@[j]).0 != k,
        decreases m@.len() - i,
    {
        if m[i].0 == k {
            assert forall|j: int| 0 <= j < m@.len() && m@[j].0 == k implies j == i by {
                if j != i {
                    assert(m@[j].0 != m@[i as int].0);
                }
            }
            m.set(i, (k, v));
            return;
        }
        i = i + 1;
    }
    m.push((k, v));
}

/// The payload type map of a forwarding leg.
pub fn payload_type_map(publisher_codecs: &[RtpCodecParameters], subscriber_codecs: &[RtpCodecParameters]) -> (r: Vec<(u8, u8)>)
    ensures
        r@ == payload_type_map_spec(codecs_view(publisher_codecs@), codecs_view(subscriber_codecs@)),
        keys_unique(r@),
{
    let ghost pubs = codecs_view(publisher_codecs@);
    let ghost subs = codecs_view(subscriber_codecs@);
    let mut r: Vec<(u8, u8)> = Vec::new();
    let mut i: usize = 0;
    while i < publisher_codecs.len()
        invariant
            i <= publisher_codecs@.len(),
            pubs == codecs_view(publisher_codecs@),
            subs == codecs_view(subscriber_codecs@),
            r@ == payload_type_map_spec(pubs.subrange(0, i as int), subs),
            keys_unique(r@),
        decreases publisher_codecs@.len() - i,
    {
        let p = &publisher_codecs[i];
        assert(pubs.subrange(0, i + 1).drop_last() =~= pubs.subrange(0, i as int));
        assert(pubs.subrange(0, i + 1).last() == (p.payload_type, p.rtp_codec.mime_type@, p.rtp_codec.sdp_fmtp_line@));
        match payload_type_for_codec(subscriber_codecs, &p.rtp_codec) {
            Some(v) => upsert_pair_exec(&mut r, p.payload_type, v),
            None => {},
        }
        i = i + 1;
    }
    assert(pubs.subrange(0, publisher_codecs@.len() as int) =~= pubs);
    r
}

/// The first subscriber extension with URI `uri`.
pub open spec fn first_uri(subs: Seq<ExtensionView>, uri: Seq<char>, from: int) -> Option<int>
    decreases subs.len() - from,
{
    if from < 0 || from >= subs.len() {
        None
    } else if subs[from].0 == uri {
        Some(from)
    } else {
        first_uri(subs, uri, from + 1)
    }
}

/// The extension id rewrites of a forwarding leg: for each publisher extension that
/// the subscriber negotiated too (same URI), publisher id to subscriber id (ids taken
/// modulo 256), marking the mid extension, whose payload is the subscriber's own mid.
pub open spec fn extension_rewrites_spec(pubs: Seq<ExtensionView>, subs: Seq<ExtensionView>) -> Seq<HeaderExtensionRewrite>
    decreases pubs.len(),
{
    if pubs.len() == 0 {
        Seq::empty()
    } else {
        let rest = extension_rewrites_spec(pubs.drop_last(), subs);
        let p = pubs.last();
        match first_uri(subs, p.0, 0) {
            Some(j) => rest.push(HeaderExtensionRewrite {
                publisher_id: (p.1 % 256) as u8,
                subscriber_id: (subs[j].1 % 256) as u8,
                rewrite_mid: subs[j].0 == SDES_MID_URI@,
            }),
            None => rest,
        }
    }
}

fn low_byte(id: u16) -> (b: u8)
    ensures
        b == (id % 256) as u8,
{
    (id % 256) as u8
}

/// The extension id rewrites of a forwarding leg.
pub fn header_extension_rewrites(
    publisher_extensions: &[RtpHeaderExtensionParameters],
    subscriber_extensions: &[RtpHeaderExtensionParameters],
) -> (r: Vec<HeaderExtensionRewrite>)
    ensures
        r@ == extension_rewrites_spec(extensions_view(publisher_extensions@), extensions_view(subscriber_extensions@)),
{
    let ghost pubs = extensions_view(publisher_extensions@);
    let ghost subs = extensions_view(subscriber_extensions@);
    let mut r: Vec<HeaderExtensionRewrite> = Vec::new();
    let mut i: usize = 0;
    while i < publisher_extensions.len()
        invariant
            i <= publisher_extensions@.len(),
            pubs == extensions_view(publisher_extensions@),
            subs == extensions_view(subscriber_extensions@),
            r@ == extension_rewrites_spec(pubs.subrange(0, i as int), subs),
        decreases publisher_extensions@.len() - i,
    {
        let p = &publisher_extensions[i];
        assert(pubs.subrange(0, i + 1).drop_last() =~= pubs.subrange(0, i as int));
        assert(pubs.subrange(0, i + 1).last() == (p.uri@, p.id));
        let mut j: usize = 0;
        while j < subscriber_extensions.len() && !str_eq(subscriber_extensions[j].uri.as_str(), p.uri.as_str())
            invariant
                j <= subscriber_extensions@.len(),
                subs == extensions_view(subscriber_extensions@),
                first_uri(subs, p.uri@, 0) == first_uri(subs, p.uri@, j as int),
            decreases subscriber_extensions@.len() - j,
        {
            assert(subs[j as int].0 == subscriber_extensions@[j as int].uri@);
            j = j + 1;
        }
        if j < subscriber_extensions.len() {
            let s = &subscriber_extensions[j];
            assert(subs[j as int] == (s.uri@, s.id));
            let rewrite_mid = str_eq(s.uri.as_str(), SDES_MID_URI);
            r.push(HeaderExtensionRewrite { publisher_id: low_byte(p.id), subscriber_id: low_byte(s.id), rewrite_mid });
        }
        i = i + 1;
    }
    assert(pubs.subrange(0, publisher_extensions@.len() as int) =~= pubs);
    r
}

/// The first rewrite of publisher id `id`.
pub open spec fn rewrite_for(rs: Seq<HeaderExtensionRewrite>, id: u8, from: int) -> Option<int>
    decreases rs.len() - from,
{
    if from < 0 || from >= rs.len() {
        None
    } else if rs[from].publisher_id == id {
        Some(from)
    } else {
        rewrite_for(rs, id, from + 1)
    }
}

/// A header extension as plain values: id and payload.
pub type ExtensionPayload = (u8, Seq<u8>);

/// The header extensions of a packet as a subscriber receives them: each extension the
/// subscriber negotiated, under the subscriber's id, the mid extension carrying the
/// subscriber's own mid (when it has one); the others are dropped.
pub open spec fn translate_extensions_spec(
    exts: Seq<ExtensionPayload>,
    rewrites: Seq<HeaderExtensionRewrite>,
    mid: Option<Seq<u8>>,
) -> Seq<ExtensionPayload>
    decreases exts.len(),
{
    if exts.len() == 0 {
        Seq::empty()
    } else {
        let rest = translate_extensions_spec(exts.drop_last(), rewrites, mid);
        let (id, payload) = exts.last();
        match rewrite_for(rewrites, id, 0) {
            None => rest,
            Some(k) => {
                let out = if rewrites[k].rewrite_mid && mid is Some { mid->0 } else { payload };
                rest.push((rewrites[k].subscriber_id, out))
            },
        }
    }
}

/// The header extensions a subscriber receives: translated as above when rewrites were
/// negotiated, and forwarded untouched when none were.
pub open spec fn forwarded_extensions_spec(
    exts: Seq<ExtensionPayload>,
    rewrites: Seq<HeaderExtensionRewrite>,
    mid: Option<Seq<u8>>,
) -> Seq<ExtensionPayload> {
    if rewrites.len() == 0 {
        exts
    } else {
        translate_extensions_spec(exts, rewrites, mid)
    }
}

/// The views of a list of extensions.
pub open spec fn ext_payloads_view(v: Seq<(u8, Vec<u8>)>) -> Seq<ExtensionPayload> {
    v.map_values(|e: (u8, Vec<u8>)| (e.0, e.1@))
}

/// A copy of a byte slice.
fn bytes_to_vec(b: &[u8]) -> (v: Vec<u8>)
    ensures
        v@ == b@,
{
    let mut v: Vec<u8> = Vec::new();
    let mut i: usize = 0;
    while i < b.len()
        invariant
            i <= b@.len(),
            v@ == b@.subrange(0, i as int),
        decreases b@.len() - i,
    {
        v.push(b[i]);
        assert(v@ =~= b@.subrange(0, i + 1));
        i = i + 1;
    }
    assert(v@ =~= b@);
    v
}

/// Rewrites the header extensions of a forwarded packet for one subscriber.
/// `subscriber_mid` is the UTF-8 text of the subscriber's mid, if it has one. When no
/// rewrites were negotiated the extensions are forwarded untouched.
pub fn translate_extensions(
    extensions: &[(u8, Vec<u8>)],
    rewrites: &[HeaderExtensionRewrite],
    subscriber_mid: Option<&[u8]>,
) -> (r: Vec<(u8, Vec<u8>)>)
    ensures
        ext_payloads_view(r@) == forwarded_extensions_spec(
            ext_payloads_view(extensions@),
            rewrites@,
            match subscriber_mid {
                Some(m) => Some(m@),
                None => None,
            },
        ),
{
    let ghost exts = ext_payloads_view(extensions@);
    if rewrites.len() == 0 {
        let mut copy: Vec<(u8, Vec<u8>)> = Vec::new();
        let mut j: usize = 0;
        while j < extensions.len()
            invariant
                j <= extensions@.len(),
                exts == ext_payloads_view(extensions@),
                ext_payloads_view(copy@) == exts.subrange(0, j as int),
            decreases extensions@.len() - j,
        {
            let id = extensions[j].0;
            let payload = bytes_to_vec(extensions[j].1.as_slice());
            let ghost before = ext_payloads_view(copy@);
            let ghost o = payload@;
            assert(exts[j as int] == (id, o));
            copy.push((id, payload));
            assert(ext_payloads_view(copy@) =~= before.push((id, o)));
            assert(ext_payloads_view(copy@) =~= exts.subrange(0, j + 1));
            j = j + 1;
        }
        assert(exts.subrange(0, extensions@.len() as int) =~= exts);
        return copy;
    }
    let ghost mid = match subscriber_mid {
        Some(m) => Some(m@),
        None => None,
    };
    let mut r: Vec<(u8, Vec<u8>)> = Vec::new();
    let mut i: usize = 0;
    while i < extensions.len()
        invariant
            i <= extensions@.len(),
            exts == ext_payloads_view(extensions@),
            mid == (match subscriber_mid {
                Some(m) => Some(m@),
                None => None::<Seq<u8>>,
            }),
            ext_payloads_view(r@) == translate_extensions_spec(exts.subrange(0, i as int), rewrites@, mid),
        decreases extensions@.len() - i,
    {
        let (id, payload) = (extensions[i].0, &extensions[i].1);
        assert(exts.subrange(0, i + 1).drop_last() =~= exts.subrange(0, i as int));
        assert(exts.subrange(0, i + 1).last() == (id, payload@));
        let mut k: usize = 0;
        while k < rewrites.len() && rewrites[k].publisher_id != id
            invariant
                k <= rewrites@.len(),
                rewrite_for(rewrites@, id, 0) == rewrite_for(rewrites@, id, k as int),
            decreases rewrites@.len() - k,
        {
            k = k + 1;
        }
        if k < rewrites.len() {
            let rw = rewrites[k];
            let out: Vec<u8> = if rw.rewrite_mid {
                match subscriber_mid {
                    Some(m) => bytes_to_vec(m),
                    None => payload.clone(),
                }
            } else {
                payload.clone()
            };
            let ghost before = ext_payloads_view(r@);
            let ghost o = out@;
            r.push((rw.subscriber_id, out));
            assert(ext_payloads_view(r@) =~= before.push((rw.subscriber_id, o)));
        }
        i = i + 1;
    }
    assert(exts.subrange(0, extensions@.len() as int) =~= exts);
    r
}

/// What a subscriber's sender negotiated: its codecs and RTP header extensions.
#[derive(Debug, Clone)]
pub struct SenderParameters {
    pub codecs: Vec<RtpCodecParameters>,
    pub header_extensions: Vec<RtpHeaderExtensionParameters>,
}

/// The forwarding target of a published track with codecs `track_codecs` and header
/// extensions `track_extensions` on sender `sender_id` of subscriber endpoint
/// `subscribe_endpoint`: the payload types and extension ids mapped onto what the sender
/// negotiated (`sender_parameters`). A sender with no parameters yet gets no target.
pub fn build_forward_target(
    subscriber_peer: PeerId,
    subscribe_endpoint: RtcEndpointId,
    sender_id: RtpSenderId,
    track_codecs: &[RtpCodecParameters],
    track_extensions: &[RtpHeaderExtensionParameters],
    sender_parameters: Option<&SenderParameters>,
    subscriber_mid: Option<String>,
) -> (r: Option<ForwardTarget>)
    ensures
        match sender_parameters {
            None => r is None,
            Some(sp) => r matches Some(t) && {
                &&& t.subscriber_peer@ == subscriber_peer@
                &&& t.subscribe_endpoint == subscribe_endpoint
                &&& t.sender_id == sender_id
                &&& t.payload_types@ == payload_type_map_spec(codecs_view(track_codecs@), codecs_view(sp.codecs@))
                &&& t.extension_rewrites@ == extension_rewrites_spec(
                    extensions_view(track_extensions@),
                    extensions_view(sp.header_extensions@),
                )
                &&& opt_str_view(t.subscriber_mid) == opt_str_view(subscriber_mid)
            },
        },
{
    let sp = match sender_parameters {
        Some(sp) => sp,
        None => return None,
    };
    let payload_types = payload_type_map(track_codecs, sp.codecs.as_slice());
    let extension_rewrites = header_extension_rewrites(track_extensions, sp.header_extensions.as_slice());
    Some(ForwardTarget {
        subscriber_peer,
        subscribe_endpoint,
        sender_id,
        payload_types,
        extension_rewrites,
        subscriber_mid,
    })
}

} // verus!
