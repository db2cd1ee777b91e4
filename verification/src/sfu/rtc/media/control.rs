//! The control channel between the SFU and each peer: the data channel labelled `whip`
//! on the peer's publish endpoint. Messages for a peer wait in a queue until that
//! channel is open; a newer subscription offer replaces any offer still waiting, so the
//! peer never receives an offer that is already stale.
use crate::sfu::endpoint::{EndpointId, EndpointKind, RtcEndpointId};
use crate::sfu::peer::PeerId;
use crate::sfu::rtc::media::event::{SdpType, SessionDescription};
use crate::util::text::{hex_digit, decimal, parse_u64, parse_u64_spec, str_chars, u64_to_decimal};
use crate::sfu::rtc::media_command::RtcError;
use crate::sfu::rtc::media::event::answer_parse_error;
use vstd::prelude::*;
use vstd::utf8::encode_utf8;

verus! {

/// Identity of a data channel on a peer connection.
pub type DataChannelId = usize;

/// Metadata a peer publishes about its tracks.
#[derive(Debug, Clone)]
pub enum ControlMetadata {
    Mute { mid: String, mute: bool },
}

impl ControlMetadata {
    /// A copy of this metadata.
    pub fn duplicate(&self) -> (d: ControlMetadata)
        ensures
            ControlOutMessage::Metadata(d)@ == ControlOutMessage::Metadata(*self)@,
    {
        match self {
            ControlMetadata::Mute { mid, mute } => ControlMetadata::Mute { mid: mid.clone(), mute: *mute },
        }
    }
}

/// A message the SFU receives on a control channel.
#[derive(Debug)]
pub enum ControlMessage {
    Answer { request_id: u64, sdp: SessionDescription },
    Metadata(ControlMetadata),
}

/// A message the SFU sends on a control channel.
#[derive(Debug)]
pub enum ControlOutMessage {
    Offer { request_id: u64, sdp: SessionDescription },
    Metadata(ControlMetadata),
}

/// A control message as plain values.
pub enum ControlOutView {
    Offer { request_id: u64, sdp_type: SdpType, sdp: Seq<char> },
    Mute { mid: Seq<char>, mute: bool },
}

impl View for ControlOutMessage {
    type V = ControlOutView;

    open spec fn view(&self) -> ControlOutView {
        match self {
            ControlOutMessage::Offer { request_id, sdp } => ControlOutView::Offer {
                request_id: *request_id,
                sdp_type: sdp.sdp_type,
                sdp: sdp.sdp@,
            },
            ControlOutMessage::Metadata(ControlMetadata::Mute { mid, mute }) => ControlOutView::Mute {
                mid: mid@,
                mute: *mute,
            },
        }
    }
}

/// One serialized control message, ready to be written to a data channel.
#[derive(Debug)]
pub struct ControlSend {
    pub endpoint_id: RtcEndpointId,
    pub channel_id: DataChannelId,
    pub payload: Vec<u8>,
}

/// A send as plain values.
pub type ControlSendView = (RtcEndpointId, DataChannelId, Seq<u8>);

/// The views of a list of sends.
pub open spec fn sends_view(s: Seq<ControlSend>) -> Seq<ControlSendView> {
    s.map_values(|x: ControlSend| (x.endpoint_id, x.channel_id, x.payload@))
}

/// Why a control message could not be sent.
#[derive(Debug, Clone, Copy, PartialEq, Eq, Structural)]
pub enum ControlError {
    /// A message could not be serialized.
    Serialize,
}

// ---------------------------------------------------------------------------------------
// Wire format: `{"id":..,"type":..,"data":{..}}`, compact JSON.
// ---------------------------------------------------------------------------------------
/// How `serde_json` writes one character inside a JSON string: `"` and `\` escaped,
/// the control characters with the short escapes where JSON has them and as `\u00XX`
/// (lowercase hex) otherwise; every other character as it is.
pub open spec fn json_escape_char(c: char) -> Seq<char> {
    if c == '"' {
        seq!['\\', '"']
    } else if c == '\\' {
        seq!['\\', '\\']
    } else if c == '\u{8}' {
        seq!['\\', 'b']
    } else if c == '\t' {
        seq!['\\', 't']
    } else if c == '\n' {
        seq!['\\', 'n']
    } else if c == '\u{c}' {
        seq!['\\', 'f']
    } else if c == '\r' {
        seq!['\\', 'r']
    } else if (c as int) < 0x20 {
        seq!['\\', 'u', '0', '0', hex_digit((c as int) / 16), hex_digit((c as int) % 16)]
    } else {
        seq![c]
    }
}

/// The characters of a string escaped for JSON, one after the other.
pub open spec fn json_escape(s: Seq<char>) -> Seq<char>
    decreases s.len(),
{
    if s.len() == 0 {
        Seq::empty()
    } else {
        json_escape(s.drop_last()) + json_escape_char(s.last())
    }
}

/// What `serde_json::to_string` renders a string as: the escaped text between double
/// quotes. For a string it reports no error.
pub open spec fn json_string(s: Seq<char>) -> Option<Seq<char>> {
    Some(seq!['"'] + json_escape(s) + seq!['"'])
}

/// Renders a string as a JSON string literal with `serde_json::to_string`; as the
/// crate's serializer source shows, a string is always written, quoted and escaped as
/// `json_string` states.
#[verifier::external_body]
pub(crate) fn json_string_literal(s: &str) -> (r: Option<String>)
    ensures
        match r {
            Some(t) => json_string(s@) == Some(t@),
            None => json_string(s@) is None,
        },
{
    serde_json::to_string(s).ok()
}

/// How a boolean is written in JSON.
pub open spec fn json_bool(b: bool) -> Seq<char> {
    if b {
        "true"@
    } else {
        "false"@
    }
}

/// The text of an offer message, given the JSON literal of its SDP.
pub open spec fn offer_text(request_id: u64, sdp_literal: Seq<char>) -> Seq<char> {
    "{\"id\":"@ + decimal(request_id as nat) + ",\"type\":1,\"data\":{\"number\":"@ + decimal(
        request_id as nat,
    ) + ",\"sdp\":"@ + sdp_literal + "}}"@
}

/// The text of a mute metadata message, given the JSON literal of its mid.
pub open spec fn mute_text(mid_literal: Seq<char>, mute: bool) -> Seq<char> {
    "{\"id\":0,\"type\":3,\"data\":{\"mid\":"@ + mid_literal + ",\"mute\":"@ + json_bool(mute)
        + "}}"@
}

/// The bytes a control message is sent as, or `None` when it cannot be serialized.
pub open spec fn payload_spec(m: ControlOutView) -> Option<Seq<u8>> {
    match m {
        ControlOutView::Offer { request_id, sdp, .. } => match json_string(sdp) {
            Some(lit) => Some(encode_utf8(offer_text(request_id, lit))),
            None => None,
        },
        ControlOutView::Mute { mid, mute } => match json_string(mid) {
            Some(lit) => Some(encode_utf8(mute_text(lit, mute))),
            None => None,
        },
    }
}

pub(crate) fn json_bool_text(b: bool) -> (s: String)
    ensures
        s@ == json_bool(b),
{
    if b {
        String::from_str("true")
    } else {
        String::from_str("false")
    }
}

/// Serializes an offer message.
pub fn serialize_offer_message(request_id: u64, sdp: &SessionDescription) -> (r: Option<Vec<u8>>)
    ensures
        r matches Some(v) ==> payload_spec(
            ControlOutView::Offer { request_id, sdp_type: sdp.sdp_type, sdp: sdp.sdp@ },
        ) == Some(v@),
        r is None ==> payload_spec(
            ControlOutView::Offer { request_id, sdp_type: sdp.sdp_type, sdp: sdp.sdp@ },
        ) is None,
{
    let literal = json_string_literal(sdp.sdp.as_str())?;
    let number = u64_to_decimal(request_id);
    let s = String::from_str("{\"id\":");
    let s = s.concat(number.as_str());
    let s = s.concat(",\"type\":1,\"data\":{\"number\":");
    let s = s.concat(number.as_str());
    let s = s.concat(",\"sdp\":");
    let s = s.concat(literal.as_str());
    let s = s.concat("}}");
    Some(s.as_str().as_bytes_vec())
}

/// Serializes a metadata message.
pub fn serialize_metadata_message(metadata: &ControlMetadata) -> (r: Option<Vec<u8>>)
    ensures
        match metadata {
            ControlMetadata::Mute { mid, mute } => {
                &&& r matches Some(v) ==> payload_spec(
                    ControlOutView::Mute { mid: mid@, mute: *mute },
                ) == Some(v@)
                &&& r is None ==> payload_spec(ControlOutView::Mute { mid: mid@, mute: *mute })
                    is None
            },
        },
{
    match metadata {
        ControlMetadata::Mute { mid, mute } => {
            let literal = json_string_literal(mid.as_str())?;
            let s = String::from_str("{\"id\":0,\"type\":3,\"data\":{\"mid\":");
            let s = s.concat(literal.as_str());
            let s = s.concat(",\"mute\":");
            let flag = json_bool_text(*mute);
            let s = s.concat(flag.as_str());
            let s = s.concat("}}");
            Some(s.as_str().as_bytes_vec())
        },
    }
}

fn serialize_control_out_message(message: &ControlOutMessage) -> (r: Option<Vec<u8>>)
    ensures
        match r {
            Some(v) => payload_spec(message@) == Some(v@),
            None => payload_spec(message@) is None,
        },
{
    match message {
        ControlOutMessage::Offer { request_id, sdp } => serialize_offer_message(*request_id, sdp),
        ControlOutMessage::Metadata(metadata) => serialize_metadata_message(metadata),
    }
}

// ---------------------------------------------------------------------------------------
// Reading control messages: `{"id":..,"type":..,"data":{..}}` where the type is a
// number or a string of digits; only answers (2) and mute metadata (3) come in.
// ---------------------------------------------------------------------------------------
/// A message type given as a JSON number: it must fit in a byte.
pub fn channel_type_from_number(n: u64) -> (r: Option<u8>)
    ensures
        n <= 255 ==> r == Some(n as u8),
        n > 255 ==> r is None,
{
    if n <= 255 {
        Some(n as u8)
    } else {
        None
    }
}

/// A message type given as a JSON string: what `u8::from_str` reads from it.
pub fn channel_type_from_text(text: &str) -> (r: Option<u8>)
    ensures
        match parse_u64_spec(text@) {
            Some(n) => if n <= 255 { r == Some(n as u8) } else { r is None },
            None => r is None,
        },
{
    let v = str_chars(text);
    match parse_u64(v.as_slice(), 0, v.len()) {
        Some(n) => {
            assert(v@.subrange(0, v@.len() as int) =~= v@);
            channel_type_from_number(n)
        },
        None => {
            assert(v@.subrange(0, v@.len() as int) =~= v@);
            None
        },
    }
}

/// What a control message of a given type carries.
#[derive(Debug, Clone, Copy, PartialEq, Eq, Structural)]
pub enum ControlKind {
    /// An answer to a subscription offer: `{number, sdp}`.
    Answer,
    /// Mute metadata: `{mid, mute}`.
    Mute,
}

/// The text `unsupported control channel message type: {t}`.
pub open spec fn unsupported_type_text(t: u8) -> Seq<char> {
    "unsupported control channel message type: "@ + decimal(t as nat)
}

/// The kind of an incoming control message by its type; any type but 2 and 3 is refused.
pub fn control_message_kind(t: u8) -> (r: Result<ControlKind, RtcError>)
    ensures
        t == 2 ==> r == Ok::<ControlKind, RtcError>(ControlKind::Answer),
        t == 3 ==> r == Ok::<ControlKind, RtcError>(ControlKind::Mute),
        t != 2 && t != 3 ==> (r matches Err(e) && e.0@ == unsupported_type_text(t)),
{
    if t == 2 {
        Ok(ControlKind::Answer)
    } else if t == 3 {
        Ok(ControlKind::Mute)
    } else {
        let digits = u64_to_decimal(t as u64);
        let text = String::from_str("unsupported control channel message type: ");
        Err(RtcError(text.concat(digits.as_str())))
    }
}

/// An answer message, if its SDP parses as an answer.
pub fn answer_message(number: u64, sdp: String) -> (r: Result<ControlMessage, RtcError>)
    ensures
        match answer_parse_error(sdp@) {
            None => r matches Ok(ControlMessage::Answer { request_id, sdp: d }) && request_id == number
                && d.sdp@ == sdp@ && d.sdp_type == SdpType::Answer,
            Some(e) => r matches Err(err) && err.0@ == e,
        },
{
    match SessionDescription::answer(sdp) {
        Ok(d) => Ok(ControlMessage::Answer { request_id: number, sdp: d }),
        Err(e) => Err(e),
    }
}

// ---------------------------------------------------------------------------------------
// Model of the per-peer control state.
// ---------------------------------------------------------------------------------------
/// The control state of one peer.
pub struct PeerControlView {
    pub publish_endpoint: Option<RtcEndpointId>,
    pub subscribe_endpoint: Option<RtcEndpointId>,
    pub channel_id: Option<DataChannelId>,
    pub queue: Seq<ControlOutView>,
    pub last_offer_request_id: Option<u64>,
}

/// A peer nothing is known of yet.
pub open spec fn default_peer() -> PeerControlView {
    PeerControlView {
        publish_endpoint: None,
        subscribe_endpoint: None,
        channel_id: None,
        queue: Seq::empty(),
        last_offer_request_id: None,
    }
}

/// Serialize and send every queued message in order; on the first message that cannot
/// be serialized, stop with an error, that message dropped and the rest still queued.
pub open spec fn flush_queue(
    endpoint_id: RtcEndpointId,
    channel_id: DataChannelId,
    queue: Seq<ControlOutView>,
) -> (Seq<ControlOutView>, Result<Seq<ControlSendView>, ControlError>)
    decreases queue.len(),
{
    if queue.len() == 0 {
        (queue, Ok(Seq::empty()))
    } else {
        match payload_spec(queue[0]) {
            None => (queue.drop_first(), Err(ControlError::Serialize)),
            Some(p) => {
                let (rest, r) = flush_queue(endpoint_id, channel_id, queue.drop_first());
                (
                    rest,
                    match r {
                        Ok(s) => Ok(seq![(endpoint_id, channel_id, p)] + s),
                        Err(e) => Err(e),
                    },
                )
            },
        }
    }
}

/// Flush a peer's queue if its publish endpoint and control channel are both known.
pub open spec fn flush_peer_spec(pc: PeerControlView) -> (
    PeerControlView,
    Result<Seq<ControlSendView>, ControlError>,
) {
    match (pc.publish_endpoint, pc.channel_id) {
        (Some(e), Some(c)) => {
            let (q, r) = flush_queue(e, c, pc.queue);
            (PeerControlView { queue: q, ..pc }, r)
        },
        _ => (pc, Ok(Seq::empty())),
    }
}

/// The queue without its offers.
pub open spec fn without_offers(q: Seq<ControlOutView>) -> Seq<ControlOutView>
    decreases q.len(),
{
    if q.len() == 0 {
        q
    } else {
        let rest = without_offers(q.drop_last());
        if q.last() is Offer {
            rest
        } else {
            rest.push(q.last())
        }
    }
}

/// The queue after adding `m`: a new offer replaces the offers still waiting.
pub open spec fn enqueue_spec(pc: PeerControlView, m: ControlOutView) -> PeerControlView {
    match m {
        ControlOutView::Offer { request_id, .. } => PeerControlView {
            last_offer_request_id: Some(request_id),
            queue: without_offers(pc.queue).push(m),
            ..pc
        },
        _ => PeerControlView { queue: pc.queue.push(m), ..pc },
    }
}

/// Peers by id, in order of first appearance.
pub type PeersView = Seq<(Seq<char>, PeerControlView)>;

/// `i` holds the state of peer `id`.
pub open spec fn peer_at(ps: PeersView, id: Seq<char>, i: int) -> bool {
    0 <= i < ps.len() && ps[i].0 == id
}

/// Where the state of peer `id` is.
pub open spec fn find_peer(ps: PeersView, id: Seq<char>) -> Option<int> {
    if exists|i: int| peer_at(ps, id, i) {
        Some(choose|i: int| peer_at(ps, id, i))
    } else {
        None
    }
}

/// No peer appears twice.
pub open spec fn peers_unique(ps: PeersView) -> bool {
    forall|i: int, j: int|
        0 <= i < ps.len() && 0 <= j < ps.len() && i != j ==> #[trigger] ps[i].0 != #[trigger] ps[j].0
}

/// The state of peer `id` (a fresh one if it is unknown).
pub open spec fn peer_state(ps: PeersView, id: Seq<char>) -> PeerControlView {
    match find_peer(ps, id) {
        Some(i) => ps[i].1,
        None => default_peer(),
    }
}

/// The peers with `pc` as the state of `id`.
pub open spec fn set_peer(ps: PeersView, id: Seq<char>, pc: PeerControlView) -> PeersView {
    match find_peer(ps, id) {
        Some(i) => ps.update(i, (id, pc)),
        None => ps.push((id, pc)),
    }
}

/// The state of a peer after one of its endpoints registers.
pub open spec fn register_spec(pc: PeerControlView, kind: EndpointKind, rtc_id: RtcEndpointId) -> PeerControlView {
    match kind {
        EndpointKind::Publish => PeerControlView { publish_endpoint: Some(rtc_id), ..pc },
        EndpointKind::Subscribe => PeerControlView { subscribe_endpoint: Some(rtc_id), ..pc },
    }
}

/// The state of a peer after one of its endpoints leaves: only the endpoint currently
/// registered is forgotten, and the control channel lives on the publish endpoint.
pub open spec fn unregister_spec(pc: PeerControlView, kind: EndpointKind, rtc_id: RtcEndpointId) -> PeerControlView {
    match kind {
        EndpointKind::Publish => if pc.publish_endpoint == Some(rtc_id) {
            PeerControlView { publish_endpoint: None, channel_id: None, ..pc }
        } else {
            pc
        },
        EndpointKind::Subscribe => if pc.subscribe_endpoint == Some(rtc_id) {
            PeerControlView { subscribe_endpoint: None, ..pc }
        } else {
            pc
        },
    }
}

proof fn lemma_find_peer(ps: PeersView, id: Seq<char>, i: int)
    requires
        peers_unique(ps),
        peer_at(ps, id, i),
    ensures
        find_peer(ps, id) == Some(i),
{
    let c = choose|j: int| peer_at(ps, id, j);
    assert(peer_at(ps, id, c));
    if c != i {
        assert(ps[c].0 != ps[i].0);
    }
}

proof fn lemma_set_peer_unique(ps: PeersView, id: Seq<char>, pc: PeerControlView)
    requires
        peers_unique(ps),
    ensures
        peers_unique(set_peer(ps, id, pc)),
{
    let r = set_peer(ps, id, pc);
    match find_peer(ps, id) {
        Some(i) => {
            assert(peer_at(ps, id, i));
        },
        None => {
            assert forall|a: int, b: int|
                0 <= a < r.len() && 0 <= b < r.len() && a != b implies #[trigger] r[a].0
                != #[trigger] r[b].0 by {
                if a == ps.len() as int {
                    assert(!peer_at(ps, id, b));
                } else if b == ps.len() as int {
                    assert(!peer_at(ps, id, a));
                }
            }
        },
    }
}

proof fn lemma_peer_state_set(ps: PeersView, id: Seq<char>, pc: PeerControlView, other: Seq<char>)
    requires
        peers_unique(ps),
    ensures
        peer_state(set_peer(ps, id, pc), id) == pc,
        other != id ==> peer_state(set_peer(ps, id, pc), other) == peer_state(ps, other),
{
    let r = set_peer(ps, id, pc);
    lemma_set_peer_unique(ps, id, pc);
    let at = match find_peer(ps, id) {
        Some(i) => {
            assert(peer_at(ps, id, i));
            i
        },
        None => ps.len() as int,
    };
    assert(peer_at(r, id, at));
    lemma_find_peer(r, id, at);
    if other != id {
        match find_peer(ps, other) {
            Some(j) => {
                assert(peer_at(ps, other, j));
                assert(r[j] == ps[j]);
                lemma_find_peer(r, other, j);
            },
            None => {
                assert forall|k: int| !peer_at(r, other, k) by {
                    if 0 <= k < ps.len() && k != at {
                        assert(r[k] == ps[k]);
                        assert(!peer_at(ps, other, k));
                    }
                }
            },
        }
    }
}

/// A peer without a publish endpoint or without a control channel gets nothing sent: a
/// message for it is queued (a new offer replacing the offers waiting) and stays queued
/// until a control channel of a publish endpoint is registered.
pub proof fn lemma_no_control_channel_no_sends(pc: PeerControlView, m: ControlOutView)
    requires
        pc.publish_endpoint is None || pc.channel_id is None,
    ensures
        flush_peer_spec(enqueue_spec(pc, m)).1 == Ok::<Seq<ControlSendView>, ControlError>(Seq::empty()),
        flush_peer_spec(enqueue_spec(pc, m)).0 == enqueue_spec(pc, m),
        enqueue_spec(pc, m).queue.len() > 0,
        enqueue_spec(pc, m).queue.last() == m,
        enqueue_spec(pc, m).publish_endpoint is None || enqueue_spec(pc, m).channel_id is None,
{
}

/// When a peer's registered publish endpoint leaves, the peer keeps no publish endpoint
/// and no control channel (its queue, subscribe endpoint and latest offer stay), so
/// every message for it afterwards is queued and nothing is sent. An endpoint that is
/// not the registered one changes nothing.
pub proof fn lemma_publish_leave_forgets_channel(pc: PeerControlView, rtc_id: RtcEndpointId, m: ControlOutView)
    ensures
        pc.publish_endpoint == Some(rtc_id) ==> {
            let after = unregister_spec(pc, EndpointKind::Publish, rtc_id);
            &&& after.publish_endpoint is None
            &&& after.channel_id is None
            &&& after.queue == pc.queue
            &&& after.subscribe_endpoint == pc.subscribe_endpoint
            &&& after.last_offer_request_id == pc.last_offer_request_id
            &&& flush_peer_spec(enqueue_spec(after, m)).1 == Ok::<Seq<ControlSendView>, ControlError>(Seq::empty())
        },
        pc.publish_endpoint != Some(rtc_id) ==> unregister_spec(pc, EndpointKind::Publish, rtc_id) == pc,
{
    if pc.publish_endpoint == Some(rtc_id) {
        lemma_no_control_channel_no_sends(unregister_spec(pc, EndpointKind::Publish, rtc_id), m);
    }
}

// ---------------------------------------------------------------------------------------
// Executable router.
// ---------------------------------------------------------------------------------------
#[derive(Debug)]
struct PeerControl {
    publish_endpoint: Option<RtcEndpointId>,
    subscribe_endpoint: Option<RtcEndpointId>,
    channel_id: Option<DataChannelId>,
    queue: Vec<ControlOutMessage>,
    last_offer_request_id: Option<u64>,
}

spec fn queue_view(q: Seq<ControlOutMessage>) -> Seq<ControlOutView> {
    q.map_values(|m: ControlOutMessage| m@)
}

impl PeerControl {
    spec fn view(&self) -> PeerControlView {
        PeerControlView {
            publish_endpoint: self.publish_endpoint,
            subscribe_endpoint: self.subscribe_endpoint,
            channel_id: self.channel_id,
            queue: queue_view(self.queue@),
            last_offer_request_id: self.last_offer_request_id,
        }
    }

    fn new() -> (pc: PeerControl)
        ensures
            pc.view() == default_peer(),
    {
        let pc = PeerControl {
            publish_endpoint: None,
            subscribe_endpoint: None,
            channel_id: None,
            queue: Vec::new(),
            last_offer_request_id: None,
        };
        assert(pc.view().queue =~= Seq::<ControlOutView>::empty());
        pc
    }

    /// Drains the queue onto the control channel, if there is one.
    fn flush(&mut self) -> (r: Result<Vec<ControlSend>, ControlError>)
        ensures
            final(self).view() == flush_peer_spec(old(self).view()).0,
            match (r, flush_peer_spec(old(self).view()).1) {
                (Ok(v), Ok(s)) => sends_view(v@) == s,
                (Err(e), Err(f)) => e == f,
                _ => false,
            },
    {
        let endpoint_id = match self.publish_endpoint {
            Some(e) => e,
            None => {
                return Ok(Vec::new());
            },
        };
        let channel_id = match self.channel_id {
            Some(c) => c,
            None => {
                return Ok(Vec::new());
            },
        };
        let ghost q0 = queue_view(self.queue@);
        let ghost target = flush_queue(endpoint_id, channel_id, q0);
        let mut sends: Vec<ControlSend> = Vec::new();
        assert(sends_view(sends@) =~= Seq::<ControlSendView>::empty());
        while self.queue.len() > 0
            invariant
                self.publish_endpoint == Some(endpoint_id),
                self.channel_id == Some(channel_id),
                self.subscribe_endpoint == old(self).subscribe_endpoint,
                self.last_offer_request_id == old(self).last_offer_request_id,
                target == flush_queue(endpoint_id, channel_id, q0),
                q0 == old(self).view().queue,
                old(self).publish_endpoint == Some(endpoint_id),
                old(self).channel_id == Some(channel_id),
                flush_queue(endpoint_id, channel_id, queue_view(self.queue@)).0 == target.0,
                match (flush_queue(endpoint_id, channel_id, queue_view(self.queue@)).1, target.1) {
                    (Ok(s), Ok(t)) => t == sends_view(sends@) + s,
                    (Err(e), Err(f)) => e == f,
                    _ => false,
                },
            decreases self.queue@.len(),
        {
            let ghost qv = queue_view(self.queue@);
            let message = self.queue.remove(0);
            assert(queue_view(self.queue@) =~= qv.drop_first());
            assert(message@ == qv[0]);
            match serialize_control_out_message(&message) {
                None => {
                    return Err(ControlError::Serialize);
                },
                Some(payload) => {
                    let ghost before = sends_view(sends@);
                    sends.push(ControlSend { endpoint_id, channel_id, payload });
                    proof {
                        assert(sends_view(sends@) =~= before.push(
                            (endpoint_id, channel_id, payload@),
                        ));
                        match flush_queue(endpoint_id, channel_id, qv.drop_first()).1 {
                            Ok(s) => {
                                assert(before + (seq![(endpoint_id, channel_id, payload@)] + s)
                                    =~= sends_view(sends@) + s);
                            },
                            Err(e) => {},
                        }
                    }
                },
            }
        }
        assert(sends_view(sends@) + Seq::<ControlSendView>::empty() =~= sends_view(sends@));
        Ok(sends)
    }
}

/// Registering data channel `channel_id` of `endpoint` takes the peers from `ps` to
/// `after` and gives `r`: a publish endpoint's channel becomes its peer's control channel
/// and the queue is flushed; a subscribe endpoint's channel changes nothing.
pub open spec fn register_data_channel_spec(
    ps: PeersView,
    endpoint: EndpointId,
    channel_id: DataChannelId,
    after: PeersView,
    r: Result<Vec<ControlSend>, ControlError>,
) -> bool {
    &&& endpoint.spec_kind() != EndpointKind::Publish ==> {
        &&& after == ps
        &&& r matches Ok(v) && v@.len() == 0
    }
    &&& endpoint.spec_kind() == EndpointKind::Publish ==> {
        let pc = (PeerControlView { channel_id: Some(channel_id), ..peer_state(ps, endpoint.spec_peer_id()) });
        &&& after == set_peer(ps, endpoint.spec_peer_id(), flush_peer_spec(pc).0)
        &&& match (r, flush_peer_spec(pc).1) {
            (Ok(v), Ok(s)) => sends_view(v@) == s,
            (Err(e), Err(f)) => e == f,
            _ => false,
        }
    }
}

/// Routes control messages to the peers' control channels.
#[derive(Debug)]
pub struct ControlRouter {
    peers: Vec<(PeerId, PeerControl)>,
}

impl ControlRouter {
    /// The control state of every known peer.
    pub closed spec fn peers(&self) -> PeersView {
        self.peers@.map_values(|p: (PeerId, PeerControl)| (p.0@, p.1.view()))
    }

    /// No peer appears twice.
    pub open spec fn wf(&self) -> bool {
        peers_unique(self.peers())
    }

    pub fn new() -> (r: ControlRouter)
        ensures
            r.peers() == Seq::<(Seq<char>, PeerControlView)>::empty(),
            r.wf(),
    {
        let r = ControlRouter { peers: Vec::new() };
        assert(r.peers() =~= Seq::<(Seq<char>, PeerControlView)>::empty());
        r
    }

    fn find(&self, peer_id: &PeerId) -> (r: Option<usize>)
        requires
            self.wf(),
        ensures
            match r {
                Some(i) => find_peer(self.peers(), peer_id@) == Some(i as int) && i
                    < self.peers@.len(),
                None => find_peer(self.peers(), peer_id@) is None,
            },
    {
        let mut i: usize = 0;
        while i < self.peers.len()
            invariant
                i <= self.peers@.len(),
                peers_unique(self.peers()),
                forall|j: int| 0 <= j < i ==> !peer_at(self.peers(), peer_id@, j),
            decreases self.peers@.len() - i,
        {
            if self.peers[i].0.same_as(peer_id) {
                proof {
                    lemma_find_peer(self.peers(), peer_id@, i as int);
                }
                return Some(i);
            }
            i = i + 1;
        }
        None
    }

    /// Takes the state of `peer_id` out of the router (a fresh state if it is unknown),
    /// with the position to put it back at.
    fn take_peer(&mut self, peer_id: &PeerId) -> (r: (Option<usize>, PeerControl))
        requires
            old(self).wf(),
        ensures
            r.1.view() == peer_state(old(self).peers(), peer_id@),
            match r.0 {
                Some(i) => find_peer(old(self).peers(), peer_id@) == Some(i as int)
                    && final(self).peers() == old(self).peers().remove(i as int),
                None => find_peer(old(self).peers(), peer_id@) is None && final(self).peers()
                    == old(self).peers(),
            },
    {
        match self.find(peer_id) {
            Some(i) => {
                let (_id, pc) = self.peers.remove(i);
                assert(self.peers() =~= old(self).peers().remove(i as int));
                (Some(i), pc)
            },
            None => (None, PeerControl::new()),
        }
    }

    /// Puts the state of `peer_id` back where [`take_peer`] took it from.
    fn put_peer(&mut self, at: Option<usize>, peer_id: &PeerId, pc: PeerControl)
        requires
            match at {
                Some(i) => i <= old(self).peers().len(),
                None => true,
            },
        ensures
            match at {
                Some(i) => final(self).peers() == old(self).peers().insert(
                    i as int,
                    (peer_id@, pc.view()),
                ),
                None => final(self).peers() == old(self).peers().push((peer_id@, pc.view())),
            },
    {
        let entry = (peer_id.duplicate(), pc);
        match at {
            Some(i) => {
                self.peers.insert(i, entry);
                assert(self.peers() =~= old(self).peers().insert(
                    i as int,
                    (peer_id@, entry.1.view()),
                ));
            },
            None => {
                self.peers.push(entry);
                assert(self.peers() =~= old(self).peers().push((peer_id@, entry.1.view())));
            },
        }
    }

    /// Records the endpoint as the peer's publish or subscribe endpoint.
    pub fn register_endpoint(&mut self, endpoint_id: &EndpointId)
        requires
            old(self).wf(),
        ensures
            final(self).wf(),
            final(self).peers() == set_peer(
                old(self).peers(),
                endpoint_id.spec_peer_id(),
                register_spec(
                    peer_state(old(self).peers(), endpoint_id.spec_peer_id()),
                    endpoint_id.spec_kind(),
                    endpoint_id.spec_rtc_id(),
                ),
            ),
    {
        let peer_id = endpoint_id.peer_id();
        let (at, mut pc) = self.take_peer(peer_id);
        match endpoint_id.kind() {
            EndpointKind::Publish => {
                pc.publish_endpoint = Some(endpoint_id.rtc_id());
            },
            EndpointKind::Subscribe => {
                pc.subscribe_endpoint = Some(endpoint_id.rtc_id());
            },
        }
        self.put_peer(at, peer_id, pc);
        proof {
            self.lemma_put_back(old(self).peers(), peer_id@, at, pc.view());
        }
    }

    proof fn lemma_put_back(
        &self,
        ps: PeersView,
        id: Seq<char>,
        at: Option<usize>,
        pc: PeerControlView,
    )
        requires
            peers_unique(ps),
            match at {
                Some(i) => find_peer(ps, id) == Some(i as int) && self.peers() == ps.remove(
                    i as int,
                ).insert(i as int, (id, pc)),
                None => find_peer(ps, id) is None && self.peers() == ps.push((id, pc)),
            },
        ensures
            self.peers() == set_peer(ps, id, pc),
            peers_unique(self.peers()),
    {
        lemma_set_peer_unique(ps, id, pc);
        match at {
            Some(i) => {
                assert(ps.remove(i as int).insert(i as int, (id, pc)) =~= ps.update(
                    i as int,
                    (id, pc),
                ));
            },
            None => {},
        }
    }

    /// Forgets the endpoint if it is still the peer's registered one.
    pub fn unregister_endpoint(&mut self, endpoint_id: &EndpointId)
        requires
            old(self).wf(),
        ensures
            final(self).wf(),
            final(self).peers() == match find_peer(old(self).peers(), endpoint_id.spec_peer_id()) {
                Some(i) => set_peer(
                    old(self).peers(),
                    endpoint_id.spec_peer_id(),
                    unregister_spec(
                        old(self).peers()[i].1,
                        endpoint_id.spec_kind(),
                        endpoint_id.spec_rtc_id(),
                    ),
                ),
                None => old(self).peers(),
            },
            ({
                let id = endpoint_id.spec_peer_id();
                let rtc = endpoint_id.spec_rtc_id();
                let before = peer_state(old(self).peers(), id);
                let after = peer_state(final(self).peers(), id);
                &&& endpoint_id.spec_kind() == EndpointKind::Publish && before.publish_endpoint == Some(rtc) ==> {
                    &&& after.publish_endpoint is None
                    &&& after.channel_id is None
                    &&& after.subscribe_endpoint == before.subscribe_endpoint
                    &&& after.queue == before.queue
                    &&& after.last_offer_request_id == before.last_offer_request_id
                }
                &&& endpoint_id.spec_kind() == EndpointKind::Subscribe && before.subscribe_endpoint == Some(rtc) ==> {
                    &&& after.subscribe_endpoint is None
                    &&& after.publish_endpoint == before.publish_endpoint
                    &&& after.channel_id == before.channel_id
                    &&& after.queue == before.queue
                    &&& after.last_offer_request_id == before.last_offer_request_id
                }
                &&& !(endpoint_id.spec_kind() == EndpointKind::Publish && before.publish_endpoint == Some(rtc))
                    && !(endpoint_id.spec_kind() == EndpointKind::Subscribe && before.subscribe_endpoint == Some(rtc))
                    ==> after == before
            }),
            forall|other: Seq<char>| other != endpoint_id.spec_peer_id() ==> peer_state(final(self).peers(), other) == peer_state(old(self).peers(), other),
    {
        let peer_id = endpoint_id.peer_id();
        let found = self.find(peer_id);
        if found.is_none() {
            return ;
        }
        let (at, mut pc) = self.take_peer(peer_id);
        let rtc_id = endpoint_id.rtc_id();
        match endpoint_id.kind() {
            EndpointKind::Publish => {
                if pc.publish_endpoint == Some(rtc_id) {
                    pc.publish_endpoint = None;
                    pc.channel_id = None;
                }
            },
            EndpointKind::Subscribe => {
                if pc.subscribe_endpoint == Some(rtc_id) {
                    pc.subscribe_endpoint = None;
                }
            },
        }
        self.put_peer(at, peer_id, pc);
        proof {
            self.lemma_put_back(old(self).peers(), peer_id@, at, pc.view());
            let i = find_peer(old(self).peers(), peer_id@)->0;
            assert(peer_state(old(self).peers(), peer_id@) == old(self).peers()[i].1);
            assert forall|other: Seq<char>| other != peer_id@ implies peer_state(self.peers(), other) == peer_state(old(self).peers(), other) by {
                lemma_peer_state_set(old(self).peers(), peer_id@, pc.view(), other);
            }
            lemma_peer_state_set(old(self).peers(), peer_id@, pc.view(), peer_id@);
        }
    }

    /// Records the control channel of a peer's publish endpoint and flushes what waits
    /// for it. A data channel of a subscribe endpoint is not a control channel.
    pub fn register_data_channel(&mut self, endpoint_id: &EndpointId, channel_id: DataChannelId) -> (r:
        Result<Vec<ControlSend>, ControlError>)
        requires
            old(self).wf(),
        ensures
            final(self).wf(),
            register_data_channel_spec(old(self).peers(), *endpoint_id, channel_id, final(self).peers(), r),
    {
        if endpoint_id.kind() != EndpointKind::Publish {
            return Ok(Vec::new());
        }
        let peer_id = endpoint_id.peer_id();
        let (at, mut pc) = self.take_peer(peer_id);
        pc.channel_id = Some(channel_id);
        let r = pc.flush();
        self.put_peer(at, peer_id, pc);
        proof {
            self.lemma_put_back(old(self).peers(), peer_id@, at, pc.view());
        }
        r
    }

    /// Queues a message for a peer and flushes the queue if its control channel is open.
    /// A new offer replaces the offers still waiting and becomes the latest offer, the
    /// one answers are checked against.
    pub fn enqueue_for_peer(&mut self, peer_id: &PeerId, message: ControlOutMessage) -> (r: Result<
        Vec<ControlSend>,
        ControlError,
    >)
        requires
            old(self).wf(),
        ensures
            final(self).wf(),
            ({
                let pc = enqueue_spec(peer_state(old(self).peers(), peer_id@), message@);
                &&& final(self).peers() == set_peer(old(self).peers(), peer_id@, flush_peer_spec(pc).0)
                &&& match (r, flush_peer_spec(pc).1) {
                    (Ok(v), Ok(s)) => sends_view(v@) == s,
                    (Err(e), Err(f)) => e == f,
                    _ => false,
                }
            }),
    {
        let (at, mut pc) = self.take_peer(peer_id);
        let ghost pc0 = pc.view();
        let ghost mv = message@;
        match &message {
            ControlOutMessage::Offer { request_id, .. } => {
                pc.last_offer_request_id = Some(*request_id);
                pc.remove_offers();
            },
            ControlOutMessage::Metadata(_) => {},
        }
        let ghost before = pc.view().queue;
        pc.queue.push(message);
        assert(pc.view().queue =~= before.push(mv));
        assert(pc.view().queue =~= enqueue_spec(pc0, mv).queue);
        assert(pc.view() == enqueue_spec(pc0, mv));
        let r = pc.flush();
        self.put_peer(at, peer_id, pc);
        proof {
            self.lemma_put_back(old(self).peers(), peer_id@, at, pc.view());
        }
        r
    }

    /// The subscribe endpoint of a peer, if one is registered.
    pub fn subscription_endpoint_for_peer(&self, peer_id: &PeerId) -> (r: Option<RtcEndpointId>)
        requires
            self.wf(),
        ensures
            r == (match find_peer(self.peers(), peer_id@) {
                Some(i) => self.peers()[i].1.subscribe_endpoint,
                None => None,
            }),
    {
        match self.find(peer_id) {
            Some(i) => self.peers[i].1.subscribe_endpoint,
            None => None,
        }
    }

    /// Whether an answer to `request_id` answers an offer older than the latest one sent
    /// to the peer.
    pub fn is_stale_answer(&self, peer_id: &PeerId, request_id: u64) -> (b: bool)
        requires
            self.wf(),
        ensures
            b == (match find_peer(self.peers(), peer_id@) {
                Some(i) => match self.peers()[i].1.last_offer_request_id {
                    Some(last) => request_id < last,
                    None => false,
                },
                None => false,
            }),
    {
        match self.find(peer_id) {
            Some(i) => match self.peers[i].1.last_offer_request_id {
                Some(last) => request_id < last,
                None => false,
            },
            None => false,
        }
    }
}

impl PeerControl {
    /// Drops the offers waiting in the queue, keeping the other messages in order.
    fn remove_offers(&mut self)
        ensures
            final(self).view() == (PeerControlView {
                queue: without_offers(old(self).view().queue),
                ..old(self).view()
            }),
    {
        let mut old_queue: Vec<ControlOutMessage> = Vec::new();
        std::mem::swap(&mut old_queue, &mut self.queue);
        let ghost q0 = queue_view(old_queue@);
        let mut i: usize = 0;
        while i < old_queue.len()
            invariant
                i <= old_queue@.len(),
                q0 == queue_view(old_queue@),
                q0 == old(self).view().queue,
                queue_view(self.queue@) == without_offers(q0.subrange(0, i as int)),
                self.publish_endpoint == old(self).publish_endpoint,
                self.subscribe_endpoint == old(self).subscribe_endpoint,
                self.channel_id == old(self).channel_id,
                self.last_offer_request_id == old(self).last_offer_request_id,
            decreases old_queue@.len() - i,
        {
            assert(q0.subrange(0, i + 1).drop_last() =~= q0.subrange(0, i as int));
            assert(q0.subrange(0, i + 1).last() == q0[i as int]);
            match &old_queue[i] {
                ControlOutMessage::Offer { .. } => {},
                ControlOutMessage::Metadata(ControlMetadata::Mute { mid, mute }) => {
                    let ghost before = queue_view(self.queue@);
                    self.queue.push(
                        ControlOutMessage::Metadata(
                            ControlMetadata::Mute { mid: mid.clone(), mute: *mute },
                        ),
                    );
                    assert(queue_view(self.queue@) =~= before.push(q0[i as int]));
                },
            }
            i = i + 1;
        }
        assert(q0.subrange(0, old_queue@.len() as int) =~= q0);
    }
}

} // verus!
