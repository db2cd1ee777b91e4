//! Which RTP packets a relay forwards to its encoder, and when a video stream may start.
//!
//! An H.264 decoder can only start at an IDR picture, and only once it has seen the
//! sequence and picture parameter sets. A video forwarder therefore holds its stream
//! back until SPS, PPS and an IDR picture have gone by; parameter sets themselves are
//! always passed on.
use vstd::prelude::*;

verus! {

/// Which medium a forwarder carries.
#[derive(Debug, PartialEq, Eq, Clone, Copy, Structural)]
pub enum RtpForwarderKind {
    Video,
    Audio,
}

/// How a forwarder kind is printed.
pub open spec fn forwarder_kind_text(kind: RtpForwarderKind) -> Seq<char> {
    match kind {
        RtpForwarderKind::Video => "Video-Forwarder"@,
        RtpForwarderKind::Audio => "Audio-Forwarder"@,
    }
}

impl RtpForwarderKind {
    /// The printed name of the kind.
    pub fn as_string(&self) -> (s: String)
        ensures
            s@ == forwarder_kind_text(*self),
    {
        match self {
            RtpForwarderKind::Video => String::from_str("Video-Forwarder"),
            RtpForwarderKind::Audio => String::from_str("Audio-Forwarder"),
        }
    }
}

/// Which H.264 units an RTP payload carries: a sequence parameter set, a picture
/// parameter set, an IDR slice.
#[derive(Debug, Clone, Copy, PartialEq, Eq, Structural)]
pub struct H264Info {
    pub sps: bool,
    pub pps: bool,
    pub idr: bool,
}

/// The NAL unit type in the low five bits of a NAL header byte.
pub open spec fn nal_type(b: u8) -> u8 {
    b % 32
}

/// The units that one NAL unit of type `t` contributes.
pub open spec fn unit_info(t: u8) -> H264Info {
    H264Info { sps: t == 7, pps: t == 8, idr: t == 5 }
}

/// Nothing found.
pub open spec fn no_info() -> H264Info {
    H264Info { sps: false, pps: false, idr: false }
}

/// Both findings together.
pub open spec fn merge_info(a: H264Info, b: H264Info) -> H264Info {
    H264Info { sps: a.sps || b.sps, pps: a.pps || b.pps, idr: a.idr || b.idr }
}

/// The units of the aggregation units of a STAP-A payload from offset `i` on: each is
/// a 16-bit big-endian size and a NAL unit of that size. Reading stops at a truncated
/// or empty unit.
pub open spec fn stap_info(p: Seq<u8>, i: int) -> H264Info
    decreases p.len() - i,
{
    if i < 0 || i + 2 > p.len() {
        no_info()
    } else {
        let size = p[i] as int * 256 + p[i + 1] as int;
        let j = i + 2;
        if j + size > p.len() || size == 0 {
            no_info()
        } else {
            merge_info(unit_info(nal_type(p[j])), stap_info(p, j + size))
        }
    }
}

/// What `inspect_h264_rtp_payload` finds in an RTP payload of H.264 (RFC 6184): a
/// single NAL unit, a STAP-A aggregation (type 24) or the first fragment of an FU-A
/// (type 28, start bit set).
pub open spec fn h264_info(p: Seq<u8>) -> H264Info {
    if p.len() == 0 {
        no_info()
    } else {
        let t = nal_type(p[0]);
        if t == 24 {
            stap_info(p, 1)
        } else if t == 28 {
            if p.len() >= 2 && p[1] >= 128 {
                unit_info(nal_type(p[1]))
            } else {
                no_info()
            }
        } else {
            unit_info(t)
        }
    }
}

fn nal_type_of(b: u8) -> (t: u8)
    ensures
        t == nal_type(b),
{
    let t = b & 0x1F;
    assert(b & 0x1F == b % 32) by (bit_vector);
    t
}

fn unit_info_of(t: u8) -> (info: H264Info)
    ensures
        info == unit_info(t),
{
    H264Info { sps: t == 7, pps: t == 8, idr: t == 5 }
}

/// Looks into an H.264 RTP payload for parameter sets and IDR slices.
pub fn inspect_h264_rtp_payload(payload: &[u8]) -> (info: H264Info)
    ensures
        info == h264_info(payload@),
{
    let mut info = H264Info { sps: false, pps: false, idr: false };
    if payload.len() == 0 {
        return info;
    }
    let t = nal_type_of(payload[0]);
    if t == 24 {
        let mut i: usize = 1;
        while payload.len() >= 2 && i <= payload.len() - 2
            invariant
                1 <= i <= payload@.len(),
                merge_info(info, stap_info(payload@, i as int)) == stap_info(payload@, 1),
            ensures
                info == stap_info(payload@, 1),
            decreases payload@.len() - i,
        {
            let size: usize = (payload[i] as usize) * 256 + payload[i + 1] as usize;
            let j = i + 2;
            if size > payload.len() - j || size == 0 {
                assert(merge_info(info, no_info()) == info);
                break;
            }
            let inner = unit_info_of(nal_type_of(payload[j]));
            info = H264Info {
                sps: info.sps || inner.sps,
                pps: info.pps || inner.pps,
                idr: info.idr || inner.idr,
            };
            i = j + size;
        }
        info
    } else if t == 28 {
        if payload.len() >= 2 && payload[1] >= 128 {
            unit_info_of(nal_type_of(payload[1]))
        } else {
            info
        }
    } else {
        unit_info_of(t)
    }
}

/// What to do with one RTP packet.
#[derive(Debug, Clone, Copy, PartialEq, Eq, Structural)]
pub enum ForwardDecision {
    Forward,
    Skip,
}

/// What one forwarder has seen of its H.264 stream, and whether the stream may flow.
#[derive(Debug, Clone, Copy, PartialEq, Eq, Structural)]
pub struct RtpGate {
    pub kind: RtpForwarderKind,
    pub seen_sps: bool,
    pub seen_pps: bool,
    pub ready: bool,
}

/// The forwarder's state after a packet with payload `p`, and the decision on it.
pub open spec fn gate_step(g: RtpGate, p: Seq<u8>) -> (RtpGate, ForwardDecision) {
    if p.len() == 0 {
        (g, ForwardDecision::Skip)
    } else if !g.ready && g.kind == RtpForwarderKind::Video {
        let info = h264_info(p);
        let seen = RtpGate {
            seen_sps: g.seen_sps || info.sps,
            seen_pps: g.seen_pps || info.pps,
            ..g
        };
        if info.sps || info.pps {
            (seen, ForwardDecision::Forward)
        } else if seen.seen_sps && seen.seen_pps && info.idr {
            (RtpGate { ready: true, ..seen }, ForwardDecision::Forward)
        } else {
            (seen, ForwardDecision::Skip)
        }
    } else {
        (g, ForwardDecision::Forward)
    }
}

impl RtpGate {
    /// A fresh gate: audio flows at once, video waits for SPS, PPS and an IDR slice.
    pub fn new(kind: RtpForwarderKind) -> (g: Self)
        ensures
            g.kind == kind,
            !g.seen_sps,
            !g.seen_pps,
            g.ready == (kind == RtpForwarderKind::Audio),
    {
        RtpGate {
            kind,
            seen_sps: false,
            seen_pps: false,
            ready: match kind {
                RtpForwarderKind::Video => false,
                RtpForwarderKind::Audio => true,
            },
        }
    }

    /// Decides on one packet and records what it carried.
    pub fn on_packet(&mut self, payload: &[u8]) -> (d: ForwardDecision)
        ensures
            (*final(self), d) == gate_step(*old(self), payload@),
    {
        if payload.len() == 0 {
            return ForwardDecision::Skip;
        }
        if !self.ready && self.kind == RtpForwarderKind::Video {
            let info = inspect_h264_rtp_payload(payload);
            if info.sps {
                self.seen_sps = true;
            }
            if info.pps {
                self.seen_pps = true;
            }
            if info.sps || info.pps {
                return ForwardDecision::Forward;
            }
            if self.seen_sps && self.seen_pps && info.idr {
                self.ready = true;
                ForwardDecision::Forward
            } else {
                ForwardDecision::Skip
            }
        } else {
            ForwardDecision::Forward
        }
    }
}

/// Once a gate is open it stays open, keeps its kind, and forwards every non-empty
/// packet.
pub proof fn lemma_open_gate_forwards(g: RtpGate, p: Seq<u8>)
    requires
        g.ready,
    ensures
        gate_step(g, p).0.ready,
        gate_step(g, p).0.kind == g.kind,
        p.len() > 0 ==> gate_step(g, p).1 == ForwardDecision::Forward,
{
}

/// A closed video gate forwards only parameter sets, and the IDR slice that opens it
/// after both parameter sets were seen; it opens on nothing else.
pub proof fn lemma_closed_gate_holds_back(g: RtpGate, p: Seq<u8>)
    requires
        !g.ready,
        g.kind == RtpForwarderKind::Video,
    ensures
        gate_step(g, p).1 == ForwardDecision::Forward ==> h264_info(p).sps || h264_info(p).pps
            || gate_step(g, p).0.ready,
        gate_step(g, p).0.ready ==> h264_info(p).idr && gate_step(g, p).0.seen_sps
            && gate_step(g, p).0.seen_pps,
{
}

} // verus!
