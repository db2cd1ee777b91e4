//! What a lobby does with the control traffic of its peers: the answers to its
//! subscription offers, the metadata peers publish about their tracks, and the offers it
//! sends when a subscription renegotiates.
use crate::sfu::endpoint::{contains_rtc_id, EndpointId, EndpointKind, RtcEndpointId};
use crate::sfu::rtc::media::control::{
    register_data_channel_spec, enqueue_spec, find_peer, flush_peer_spec, peer_state, sends_view, set_peer, ControlError,
    ControlMetadata, ControlOutMessage, ControlOutView, ControlRouter, ControlSend,
    ControlSendView, PeersView,
};
use crate::sfu::rtc::media::event::{RequestId, SFUEvent, SdpType, SessionDescription};
use crate::sfu::rtc::media::forward::{bind_spec, ForwardKey, ForwardKeyView, ForwardTable, Ssrc};
use crate::sfu::peer::PeerId;
use crate::util::text::str_eq;
use crate::sfu::rtc::media::lobby::RtcLobbyId;
use vstd::prelude::*;

verus! {

/// Why an answer from a peer is not applied.
#[derive(Debug, Clone, Copy, PartialEq, Eq, Structural)]
pub enum AnswerSkip {
    /// It answers an offer older than the latest one sent to the peer.
    Stale,
    /// The peer has no subscribe endpoint.
    NoSubscription,
    /// The peer's subscribe endpoint has left the lobby.
    MissingEndpoint(RtcEndpointId),
}

/// Where an answer of peer `peer` to offer `request_id` goes, given the endpoints still
/// in the lobby: the peer's subscribe endpoint, unless the answer is stale or that
/// endpoint is gone.
pub open spec fn answer_target(
    ps: PeersView,
    peer: Seq<char>,
    request_id: u64,
    live: Seq<RtcEndpointId>,
) -> Result<RtcEndpointId, AnswerSkip> {
    let pc = peer_state(ps, peer);
    if pc.last_offer_request_id matches Some(last) && request_id < last {
        Err(AnswerSkip::Stale)
    } else {
        match pc.subscribe_endpoint {
            None => Err(AnswerSkip::NoSubscription),
            Some(e) => if live.contains(e) {
                Ok(e)
            } else {
                Err(AnswerSkip::MissingEndpoint(e))
            },
        }
    }
}

/// The signaling event that applies an answer `sdp` of the peer behind `source` to its
/// subscribe endpoint in lobby `lobby`, whose endpoints still present are `live`; or why
/// the answer is dropped.
pub fn handle_control_answer(
    control: &ControlRouter,
    lobby: RtcLobbyId,
    live: &[RtcEndpointId],
    source: &EndpointId,
    request_id: RequestId,
    sdp: SessionDescription,
) -> (r: Result<SFUEvent, AnswerSkip>)
    requires
        control.wf(),
    ensures
        match answer_target(control.peers(), source.spec_peer_id(), request_id, live@) {
            Ok(e) => r matches Ok(SFUEvent::SessionDescription { request_id: q, rtc_lobby_id: l, endpoint_id: t, sdp: d })
                && q == request_id && l == lobby && t == e && d == sdp,
            Err(skip) => r matches Err(s) && s == skip,
        },
{
    let peer = source.peer_id();
    proof {
        match find_peer(control.peers(), peer@) {
            Some(i) => {},
            None => {},
        }
    }
    if control.is_stale_answer(peer, request_id) {
        return Err(AnswerSkip::Stale);
    }
    match control.subscription_endpoint_for_peer(peer) {
        None => Err(AnswerSkip::NoSubscription),
        Some(e) => if contains_rtc_id(live, e) {
            Ok(SFUEvent::SessionDescription { request_id, rtc_lobby_id: lobby, endpoint_id: e, sdp })
        } else {
            Err(AnswerSkip::MissingEndpoint(e))
        },
    }
}

/// Enqueues `m` for one peer and flushes: the peers after, and the sends or the error.
pub open spec fn enqueue_flush(ps: PeersView, peer: Seq<char>, m: ControlOutView) -> (
    PeersView,
    Result<Seq<ControlSendView>, ControlError>,
) {
    let (pc, r) = flush_peer_spec(enqueue_spec(peer_state(ps, peer), m));
    (set_peer(ps, peer, pc), r)
}

/// Sending metadata `m` of a peer `source` to the subscribers `subs`, in order, skipping
/// the subscribers of `source` itself: the peers after, the sends made, and the error
/// that stopped it, if any. Sends made before an error are kept.
pub open spec fn broadcast_spec(
    ps: PeersView,
    subs: Seq<EndpointId>,
    source: Seq<char>,
    m: ControlOutView,
) -> (PeersView, Seq<ControlSendView>, Option<ControlError>)
    decreases subs.len(),
{
    if subs.len() == 0 {
        (ps, Seq::empty(), None)
    } else {
        let (ps1, s1, e1) = broadcast_spec(ps, subs.drop_last(), source, m);
        let peer = subs.last().spec_peer_id();
        if e1 is Some || peer == source {
            (ps1, s1, e1)
        } else {
            let (ps2, r) = enqueue_flush(ps1, peer, m);
            match r {
                Ok(s) => (ps2, s1 + s, None),
                Err(e) => (ps2, s1, Some(e)),
            }
        }
    }
}

/// Once broadcasting to a prefix of the subscribers stopped on an error, the longer
/// prefixes stop there too.
proof fn lemma_broadcast_stopped(
    ps: PeersView,
    subs: Seq<EndpointId>,
    source: Seq<char>,
    m: ControlOutView,
    i: int,
    j: int,
)
    requires
        0 <= i <= j <= subs.len(),
        broadcast_spec(ps, subs.take(i), source, m).2 is Some,
    ensures
        broadcast_spec(ps, subs.take(j), source, m) == broadcast_spec(ps, subs.take(i), source, m),
    decreases j - i,
{
    if j > i {
        lemma_broadcast_stopped(ps, subs, source, m, i, j - 1);
        assert(subs.take(j).drop_last() =~= subs.take(j - 1));
    }
}

/// Sends the metadata `metadata` that the peer behind `source` published to every
/// subscriber endpoint of another peer, in the order of `subscribers`: each message is
/// queued for its peer and goes out once that peer's control channel is open. Returns
/// the sends made, and the error that stopped the broadcast, if any.
pub fn broadcast_metadata(
    control: &mut ControlRouter,
    subscribers: &[EndpointId],
    source: &EndpointId,
    metadata: &ControlMetadata,
) -> (r: (Vec<ControlSend>, Option<ControlError>))
    requires
        old(control).wf(),
    ensures
        final(control).wf(),
        ({
            let (ps, s, e) = broadcast_spec(
                old(control).peers(),
                subscribers@,
                source.spec_peer_id(),
                ControlOutMessage::Metadata(*metadata)@,
            );
            &&& final(control).peers() == ps
            &&& sends_view(r.0@) == s
            &&& r.1 == e
        }),
{
    let ghost ps0 = old(control).peers();
    let ghost m = ControlOutMessage::Metadata(*metadata)@;
    let ghost src = source.spec_peer_id();
    let mut sends: Vec<ControlSend> = Vec::new();
    let mut i: usize = 0;
    assert(subscribers@.take(0) =~= Seq::<EndpointId>::empty());
    while i < subscribers.len()
        invariant
            i <= subscribers@.len(),
            control.wf(),
            ps0 == old(control).peers(),
            m == ControlOutMessage::Metadata(*metadata)@,
            src == source.spec_peer_id(),
            broadcast_spec(ps0, subscribers@.take(i as int), src, m) == (
                control.peers(),
                sends_view(sends@),
                None::<ControlError>,
            ),
        decreases subscribers@.len() - i,
    {
        let sub = &subscribers[i];
        assert(subscribers@.take(i + 1).drop_last() =~= subscribers@.take(i as int));
        assert(subscribers@.take(i + 1).last() == *sub);
        if !sub.peer_id().same_as(source.peer_id()) {
            let ghost before = sends_view(sends@);
            let msg = ControlOutMessage::Metadata(metadata.duplicate());
            match control.enqueue_for_peer(sub.peer_id(), msg) {
                Ok(mut v) => {
                    let ghost vv = sends_view(v@);
                    sends.append(&mut v);
                    assert(sends_view(sends@) =~= before + vv);
                },
                Err(e) => {
                    proof {
                        lemma_broadcast_stopped(
                            ps0,
                            subscribers@,
                            src,
                            m,
                            i + 1,
                            subscribers@.len() as int,
                        );
                        assert(subscribers@.take(subscribers@.len() as int) =~= subscribers@);
                    }
                    return (sends, Some(e));
                },
            }
        }
        i = i + 1;
    }
    assert(subscribers@.take(subscribers@.len() as int) =~= subscribers@);
    (sends, None)
}

/// Whether a renegotiation offer of `endpoint` goes out on the control channel: only a
/// subscribe endpoint's offers do.
pub open spec fn offer_due(kind: EndpointKind, sdp_type: SdpType) -> bool {
    kind == EndpointKind::Subscribe && sdp_type == SdpType::Offer
}

/// Sends the renegotiation offer `sdp` of request `request_id` of a subscribe endpoint
/// to its peer over the control channel (queued until the channel is open; it replaces
/// any older offer still waiting). Descriptions of other endpoints, and answers, are not
/// sent: nothing changes.
pub fn send_subscription_offer(
    control: &mut ControlRouter,
    request_id: u64,
    endpoint_id: &EndpointId,
    sdp: &SessionDescription,
) -> (r: Result<Vec<ControlSend>, ControlError>)
    requires
        old(control).wf(),
    ensures
        final(control).wf(),
        !offer_due(endpoint_id.spec_kind(), sdp.sdp_type) ==> {
            &&& final(control).peers() == old(control).peers()
            &&& r matches Ok(v) && v@.len() == 0
        },
        offer_due(endpoint_id.spec_kind(), sdp.sdp_type) ==> {
            let (ps, f) = enqueue_flush(
                old(control).peers(),
                endpoint_id.spec_peer_id(),
                ControlOutView::Offer { request_id, sdp_type: sdp.sdp_type, sdp: sdp.sdp@ },
            );
            &&& final(control).peers() == ps
            &&& match (r, f) {
                (Ok(v), Ok(s)) => sends_view(v@) == s,
                (Err(e), Err(g)) => e == g,
                _ => false,
            }
        },
{
    if endpoint_id.kind() != EndpointKind::Subscribe || sdp.sdp_type != SdpType::Offer {
        return Ok(Vec::new());
    }
    control.enqueue_for_peer(
        endpoint_id.peer_id(),
        ControlOutMessage::Offer { request_id, sdp: sdp.duplicate() },
    )
}

/// The label of the data channel that carries a peer's control messages.
pub const CONTROL_CHANNEL_LABEL: &'static str = "whip";

/// Whether a data channel label is the control label.
pub open spec fn is_control_label(label: Option<&str>) -> bool {
    match label {
        Some(l) => l@ == CONTROL_CHANNEL_LABEL@,
        None => false,
    }
}

/// Registers a data channel of `endpoint` that has just opened as its peer's control
/// channel when it carries the control label (`whip`), flushing the messages that waited
/// for it. Other channels change nothing.
pub fn on_data_channel_open(
    control: &mut ControlRouter,
    endpoint: &EndpointId,
    channel_id: usize,
    label: Option<&str>,
) -> (r: Result<Vec<ControlSend>, ControlError>)
    requires
        old(control).wf(),
    ensures
        final(control).wf(),
        !is_control_label(label) ==> final(control).peers() == old(control).peers()
            && (r matches Ok(v) && v@.len() == 0),
        is_control_label(label) ==> register_data_channel_spec(
            old(control).peers(),
            *endpoint,
            channel_id,
            final(control).peers(),
            r,
        ),
{
    match label {
        Some(l) => {
            if str_eq(l, CONTROL_CHANNEL_LABEL) {
                control.register_data_channel(endpoint, channel_id)
            } else {
                Ok(Vec::new())
            }
        },
        None => Ok(Vec::new()),
    }
}

/// Binds the wire SSRC of a track that has just opened on endpoint `endpoint` of peer
/// `peer` to the track's forward key, when the endpoint publishes and the track's
/// transceiver has a mid. Returns whether it bound.
pub fn on_track_open(
    table: &mut ForwardTable,
    publishers: &[RtcEndpointId],
    endpoint: RtcEndpointId,
    peer: &PeerId,
    mid: Option<String>,
    ssrc: Ssrc,
) -> (bound: bool)
    requires
        old(table).wf(),
    ensures
        final(table).wf(),
        final(table).rows() == old(table).rows(),
        bound == (mid is Some && publishers@.contains(endpoint)),
        bound ==> final(table).bindings() == bind_spec(
            old(table).bindings(),
            ssrc,
            ForwardKeyView { publisher_peer: peer@, publish_endpoint: endpoint, mid: mid->0@ },
        ),
        !bound ==> final(table).bindings() == old(table).bindings(),
{
    match mid {
        Some(mid) => {
            if contains_rtc_id(publishers, endpoint) {
                table.bind_ssrc(ssrc, ForwardKey { publisher_peer: peer.duplicate(), publish_endpoint: endpoint, mid });
                true
            } else {
                false
            }
        },
        None => false,
    }
}

} // verus!
