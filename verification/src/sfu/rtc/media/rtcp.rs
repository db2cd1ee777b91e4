//! The RTCP feedback packets a lobby sees, as plain values: what kind each packet is and
//! which SSRCs it is about.
use vstd::prelude::*;
use crate::sfu::rtc::media::forward::Ssrc;

verus! {

/// The RTCP packet type of transport-layer feedback (RFC 4585).
pub const TRANSPORT_SPECIFIC_FEEDBACK: u8 = 205;

/// The feedback message type of congestion control feedback (RFC 8888).
pub const FORMAT_CCFB: u8 = 11;

/// The kind of an RTCP packet.
#[derive(Debug, Clone, Copy, PartialEq, Eq, Structural)]
pub enum RtcpKind {
    PictureLossIndication,
    FullIntraRequest,
    TransportLayerNack,
    ReceiverReport,
    SenderReport,
    /// Any other packet, by the packet type and count (feedback format) of its header.
    Other { packet_type: u8, count: u8 },
}

/// The label under which a kind of RTCP packet is counted.
pub open spec fn rtcp_label(kind: RtcpKind) -> Seq<char> {
    match kind {
        RtcpKind::PictureLossIndication => "pli"@,
        RtcpKind::FullIntraRequest => "fir"@,
        RtcpKind::TransportLayerNack => "nack"@,
        RtcpKind::ReceiverReport => "receiver_report"@,
        RtcpKind::SenderReport => "sender_report"@,
        RtcpKind::Other { packet_type, count } => if packet_type == TRANSPORT_SPECIFIC_FEEDBACK
            && count == FORMAT_CCFB {
            "ccfb"@
        } else {
            "unknown"@
        },
    }
}

/// The label of an RTCP packet: `pli`, `fir`, `nack`, `receiver_report`,
/// `sender_report`, `ccfb` or `unknown`.
pub fn classify_rtcp_packet(kind: &RtcpKind) -> (s: &'static str)
    ensures
        s@ == rtcp_label(*kind),
{
    match kind {
        RtcpKind::PictureLossIndication => "pli",
        RtcpKind::FullIntraRequest => "fir",
        RtcpKind::TransportLayerNack => "nack",
        RtcpKind::ReceiverReport => "receiver_report",
        RtcpKind::SenderReport => "sender_report",
        RtcpKind::Other { packet_type, count } => {
            if *packet_type == TRANSPORT_SPECIFIC_FEEDBACK && *count == FORMAT_CCFB {
                "ccfb"
            } else {
                "unknown"
            }
        },
    }
}

/// Whether a packet asks for a keyframe (PLI or FIR).
pub open spec fn is_keyframe_request(kind: RtcpKind) -> bool {
    kind is PictureLossIndication || kind is FullIntraRequest
}

/// One RTCP packet: its kind and the SSRCs of the media it is about.
#[derive(Debug, Clone)]
pub struct RtcpPacketInfo {
    pub kind: RtcpKind,
    pub destination_ssrcs: Vec<Ssrc>,
}

/// The SSRCs the packets are about, packet by packet.
pub open spec fn destination_ssrcs(ps: Seq<RtcpPacketInfo>) -> Seq<Ssrc>
    decreases ps.len(),
{
    if ps.len() == 0 {
        Seq::empty()
    } else {
        destination_ssrcs(ps.drop_last()) + ps.last().destination_ssrcs@
    }
}

/// The positions of the keyframe requests among the packets, in order.
pub open spec fn keyframe_request_positions(ps: Seq<RtcpPacketInfo>) -> Seq<usize>
    decreases ps.len(),
{
    if ps.len() == 0 {
        Seq::empty()
    } else {
        let rest = keyframe_request_positions(ps.drop_last());
        if is_keyframe_request(ps.last().kind) {
            rest.push((ps.len() - 1) as usize)
        } else {
            rest
        }
    }
}

/// Every SSRC the packets are about, packet by packet.
pub fn collect_destination_ssrcs(packets: &[RtcpPacketInfo]) -> (r: Vec<Ssrc>)
    ensures
        r@ == destination_ssrcs(packets@),
{
    let mut r: Vec<Ssrc> = Vec::new();
    let mut i: usize = 0;
    while i < packets.len()
        invariant
            i <= packets@.len(),
            r@ == destination_ssrcs(packets@.take(i as int)),
        decreases packets@.len() - i,
    {
        assert(packets@.take(i + 1).drop_last() =~= packets@.take(i as int));
        let mut j: usize = 0;
        let ghost before = r@;
        let ssrcs = &packets[i].destination_ssrcs;
        while j < ssrcs.len()
            invariant
                j <= ssrcs@.len(),
                r@ == before + ssrcs@.take(j as int),
            decreases ssrcs@.len() - j,
        {
            r.push(ssrcs[j]);
            assert(r@ =~= before + ssrcs@.take(j + 1));
            j = j + 1;
        }
        assert(ssrcs@.take(ssrcs@.len() as int) =~= ssrcs@);
        i = i + 1;
    }
    assert(packets@.take(packets@.len() as int) =~= packets@);
    r
}

/// The positions of the keyframe requests (PLI/FIR) among the packets, in order.
pub fn keyframe_requests(packets: &[RtcpPacketInfo]) -> (r: Vec<usize>)
    ensures
        r@ == keyframe_request_positions(packets@),
{
    let mut r: Vec<usize> = Vec::new();
    let mut i: usize = 0;
    while i < packets.len()
        invariant
            i <= packets@.len(),
            r@ == keyframe_request_positions(packets@.take(i as int)),
        decreases packets@.len() - i,
    {
        assert(packets@.take(i + 1).drop_last() =~= packets@.take(i as int));
        match packets[i].kind {
            RtcpKind::PictureLossIndication | RtcpKind::FullIntraRequest => {
                r.push(i);
            },
            _ => {},
        }
        i = i + 1;
    }
    assert(packets@.take(packets@.len() as int) =~= packets@);
    r
}

} // verus!
