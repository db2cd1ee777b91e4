//! Where an inbound RTP packet or keyframe request of a lobby goes.
//!
//! A publisher's packet fans out to every subscriber forwarding its track, with the
//! payload type rewritten per leg; a subscriber's keyframe request (PLI/FIR) goes back
//! up to the publisher of the track it is about.
use vstd::prelude::*;
use crate::sfu::endpoint::{contains_rtc_id, RtcEndpointId};
use crate::sfu::rtc::media::rtcp::{
    collect_destination_ssrcs, destination_ssrcs, keyframe_request_positions, keyframe_requests,
    RtcpPacketInfo,
};
use crate::sfu::rtc::media::forward::{
    find_key, find_ssrc, pair_lookup, ForwardTable, ForwardTargetView, RtpSenderId, Ssrc,
};

verus! {

/// Why an RTP packet is not forwarded at all.
#[derive(Debug, Clone, Copy, PartialEq, Eq, Structural)]
pub enum RtpDrop {
    /// It came from an endpoint that does not publish.
    NonPublisher,
    /// Its SSRC is not bound to a forwarded track (yet).
    NoRoute,
    /// Its SSRC is bound to a track of another publisher.
    WrongPublisher,
}

/// One leg of a forwarded packet: the subscriber endpoint, the sender on it, and the
/// payload type the packet gets there (`None`: the subscriber has no codec for it, so
/// this leg is skipped).
#[derive(Debug, Clone, Copy, PartialEq, Eq, Structural)]
pub struct RtpLeg {
    pub subscribe_endpoint: RtcEndpointId,
    pub sender_id: RtpSenderId,
    pub outbound_payload_type: Option<u8>,
}

/// The legs of a packet with payload type `pt` for the targets `ts`.
pub open spec fn legs_spec(ts: Seq<ForwardTargetView>, pt: u8) -> Seq<RtpLeg> {
    ts.map_values(|t: ForwardTargetView| RtpLeg {
        subscribe_endpoint: t.subscribe_endpoint,
        sender_id: t.sender_id,
        outbound_payload_type: pair_lookup(t.payload_types, pt),
    })
}

/// Where a packet from `endpoint` with SSRC `ssrc` and payload type `pt` goes.
pub open spec fn rtp_plan_spec(
    table: ForwardTable,
    is_publisher: bool,
    endpoint: RtcEndpointId,
    ssrc: Ssrc,
    pt: u8,
) -> Result<Seq<RtpLeg>, RtpDrop> {
    if !is_publisher {
        Err(RtpDrop::NonPublisher)
    } else {
        match find_ssrc(table.bindings(), ssrc) {
            None => Err(RtpDrop::NoRoute),
            Some(b) => {
                let k = table.bindings()[b].1;
                match find_key(table.rows(), k) {
                    None => Err(RtpDrop::NoRoute),
                    Some(i) => if k.publish_endpoint != endpoint {
                        Err(RtpDrop::WrongPublisher)
                    } else {
                        Ok(legs_spec(table.rows()[i].1, pt))
                    },
                }
            },
        }
    }
}

/// The legs of an RTP packet that `endpoint` (a publisher if `is_publisher`) sent.
pub fn plan_rtp_forward(
    table: &ForwardTable,
    is_publisher: bool,
    endpoint: RtcEndpointId,
    ssrc: Ssrc,
    payload_type: u8,
) -> (r: Result<Vec<RtpLeg>, RtpDrop>)
    requires
        table.wf(),
    ensures
        match rtp_plan_spec(*table, is_publisher, endpoint, ssrc, payload_type) {
            Ok(legs) => r is Ok && r->Ok_0@ == legs,
            Err(e) => r == Err::<Vec<RtpLeg>, RtpDrop>(e),
        },
{
    if !is_publisher {
        return Err(RtpDrop::NonPublisher);
    }
    let (key, targets) = match table.route_by_ssrc(ssrc) {
        Some(route) => route,
        None => return Err(RtpDrop::NoRoute),
    };
    if key.publish_endpoint != endpoint {
        return Err(RtpDrop::WrongPublisher);
    }
    let ghost ts = targets@;
    let mut legs: Vec<RtpLeg> = Vec::new();
    let mut i: usize = 0;
    while i < targets.len()
        invariant
            i <= ts.len(),
            ts == targets@,
            legs@ == legs_spec(ts.subrange(0, i as int), payload_type),
        decreases ts.len() - i,
    {
        let t = targets.at(i);
        legs.push(RtpLeg {
            subscribe_endpoint: t.subscribe_endpoint,
            sender_id: t.sender_id,
            outbound_payload_type: t.outbound_payload_type(payload_type),
        });
        assert(legs@ =~= legs_spec(ts.subrange(0, i + 1), payload_type));
        i = i + 1;
    }
    assert(ts.subrange(0, ts.len() as int) =~= ts);
    Ok(legs)
}

/// Why a keyframe request is not relayed.
#[derive(Debug, Clone, Copy, PartialEq, Eq, Structural)]
pub enum KeyframeDrop {
    /// None of the SSRCs it is about is bound to a forwarded track.
    NoRoute,
    /// It came from the publisher of the track itself.
    FromPublisher,
    /// None of its packets is a PLI or FIR.
    NoKeyframeRequest,
    /// The publisher of the track has left the lobby.
    MissingPublisher,
}

/// Whether `ssrc` routes to a forwarded track, and that track's publisher.
pub open spec fn publisher_of(table: ForwardTable, ssrc: Ssrc) -> Option<RtcEndpointId> {
    match find_ssrc(table.bindings(), ssrc) {
        None => None,
        Some(b) => match find_key(table.rows(), table.bindings()[b].1) {
            None => None,
            Some(_) => Some(table.bindings()[b].1.publish_endpoint),
        },
    }
}

/// The first of `ssrcs` that routes, with its publisher.
pub open spec fn first_routed(table: ForwardTable, ssrcs: Seq<Ssrc>, from: int) -> Option<(Ssrc, RtcEndpointId)>
    decreases ssrcs.len() - from,
{
    if from < 0 || from >= ssrcs.len() {
        None
    } else {
        match publisher_of(table, ssrcs[from]) {
            Some(p) => Some((ssrcs[from], p)),
            None => first_routed(table, ssrcs, from + 1),
        }
    }
}

/// Where the keyframe request that `endpoint` sent about `ssrcs` goes: the first SSRC
/// that routes and its publisher, unless that publisher is the sender itself.
pub fn keyframe_route(table: &ForwardTable, endpoint: RtcEndpointId, ssrcs: &[Ssrc]) -> (r: Result<(Ssrc, RtcEndpointId), KeyframeDrop>)
    requires
        table.wf(),
    ensures
        match first_routed(*table, ssrcs@, 0) {
            None => r == Err::<(Ssrc, RtcEndpointId), KeyframeDrop>(KeyframeDrop::NoRoute),
            Some((s, p)) => if p == endpoint {
                r == Err::<(Ssrc, RtcEndpointId), KeyframeDrop>(KeyframeDrop::FromPublisher)
            } else {
                r == Ok::<(Ssrc, RtcEndpointId), KeyframeDrop>((s, p))
            },
        },
{
    let mut i: usize = 0;
    while i < ssrcs.len()
        invariant
            i <= ssrcs@.len(),
            table.wf(),
            first_routed(*table, ssrcs@, 0) == first_routed(*table, ssrcs@, i as int),
        decreases ssrcs@.len() - i,
    {
        let ssrc = ssrcs[i];
        match table.route_by_ssrc(ssrc) {
            Some((key, _)) => {
                let publisher = key.publish_endpoint;
                if publisher == endpoint {
                    return Err(KeyframeDrop::FromPublisher);
                }
                return Ok((ssrc, publisher));
            },
            None => {},
        }
        i = i + 1;
    }
    Err(KeyframeDrop::NoRoute)
}

/// A keyframe request to relay: the SSRC it is about, the publisher of that track, and
/// the positions of the PLI/FIR packets to send it.
#[derive(Debug)]
pub struct KeyframeRelay {
    pub ssrc: Ssrc,
    pub publisher: RtcEndpointId,
    pub requests: Vec<usize>,
}

/// What becomes of the RTCP feedback `packets` that `endpoint` sent, with the endpoints
/// `live` still in the lobby: its PLI/FIR go up to the publisher of the first SSRC that
/// routes, unless that is the sender itself or has left, or there is no PLI/FIR.
pub open spec fn keyframe_relay_spec(
    table: ForwardTable,
    endpoint: RtcEndpointId,
    packets: Seq<RtcpPacketInfo>,
    live: Seq<RtcEndpointId>,
) -> Result<(Ssrc, RtcEndpointId, Seq<usize>), KeyframeDrop> {
    match first_routed(table, destination_ssrcs(packets), 0) {
        None => Err(KeyframeDrop::NoRoute),
        Some((s, p)) => if p == endpoint {
            Err(KeyframeDrop::FromPublisher)
        } else if keyframe_request_positions(packets).len() == 0 {
            Err(KeyframeDrop::NoKeyframeRequest)
        } else if !live.contains(p) {
            Err(KeyframeDrop::MissingPublisher)
        } else {
            Ok((s, p, keyframe_request_positions(packets)))
        },
    }
}

/// Where the RTCP feedback that `endpoint` sent goes: the keyframe requests in it are
/// relayed to the publisher of the track it is about.
pub fn plan_keyframe_relay(
    table: &ForwardTable,
    endpoint: RtcEndpointId,
    packets: &[RtcpPacketInfo],
    live: &[RtcEndpointId],
) -> (r: Result<KeyframeRelay, KeyframeDrop>)
    requires
        table.wf(),
    ensures
        match keyframe_relay_spec(*table, endpoint, packets@, live@) {
            Ok((s, p, q)) => r matches Ok(k) && k.ssrc == s && k.publisher == p && k.requests@ == q,
            Err(e) => r matches Err(f) && f == e,
        },
{
    let ssrcs = collect_destination_ssrcs(packets);
    let (ssrc, publisher) = match keyframe_route(table, endpoint, ssrcs.as_slice()) {
        Ok(route) => route,
        Err(e) => return Err(e),
    };
    let requests = keyframe_requests(packets);
    if requests.len() == 0 {
        return Err(KeyframeDrop::NoKeyframeRequest);
    }
    if contains_rtc_id(live, publisher) {
        Ok(KeyframeRelay { ssrc, publisher, requests })
    } else {
        Err(KeyframeDrop::MissingPublisher)
    }
}

} // verus!
