//! Which lobby and endpoint an inbound datagram of an RTC core belongs to.
//!
//! A flow (its four-tuple) is learned from the first STUN binding request on it: the
//! USERNAME attribute starts with the local ufrag that the SFU issued, and that ufrag
//! names the lobby and the endpoint. Every later datagram of the flow follows it.
use vstd::prelude::*;
use crate::sfu::endpoint::RtcEndpointId;
use crate::sfu::rtc::media::lobby::{decode_local_ufrag, decode_local_ufrag_spec, RtcLobbyId};
use crate::util::text::{next_index, next_index_exec, str_chars, string_from_chars};
use rtc::stun::attributes::ATTR_USERNAME;
use rtc::stun::message::Message;
use rtc::stun::textattrs::Username;

verus! {

/// The addresses of a UDP flow: local and remote IP (IPv4 as IPv4-mapped IPv6, as a
/// 128-bit number) and port.
#[derive(Debug, Clone, Copy, PartialEq, Eq, Hash, Structural)]
pub struct FourTuple {
    pub local_ip: u128,
    pub local_port: u16,
    pub peer_ip: u128,
    pub peer_port: u16,
}

/// The magic cookie that every STUN message carries in bytes 4..8 (RFC 5389).
pub open spec fn is_stun_spec(b: Seq<u8>) -> bool {
    &&& b.len() >= 20
    &&& b[4] == 0x21 && b[5] == 0x12 && b[6] == 0xA4 && b[7] == 0x42
}

/// The text of the USERNAME attribute of the STUN message in `data`, if the bytes
/// decode as a STUN message that has one.
pub uninterp spec fn stun_username_of(data: Seq<u8>) -> Option<Seq<char>>;

/// Decodes `data` with `rtc::stun::message::Message::unmarshal_binary` and reads its
/// USERNAME with `Username::get_from_as`. The decoder rejects anything shorter than a
/// STUN header or without the magic cookie (`Message::decode`), so a username is only
/// found in bytes that pass that check; what else the decoder accepts is not described
/// here, and the result is named `stun_username_of`.
#[verifier::external_body]
fn stun_username(data: &[u8]) -> (r: Option<String>)
    ensures
        match r {
            Some(u) => stun_username_of(data@) == Some(u@) && is_stun_spec(data@),
            None => stun_username_of(data@) is None,
        },
{
    let mut m = Message::new();
    m.unmarshal_binary(data).ok()?;
    Username::get_from_as(&m, ATTR_USERNAME).ok().map(|u| u.text)
}

/// The part of a STUN username before its first `:` (the local ufrag), if it has one.
pub open spec fn local_ufrag_of(username: Seq<char>) -> Option<Seq<char>> {
    let i = next_index(username, ':', 0);
    if i < username.len() {
        Some(username.subrange(0, i))
    } else {
        None
    }
}

/// A learned flow as plain values.
pub type AffinityView = (FourTuple, Seq<u8>, RtcEndpointId);

/// Where flow `t` is recorded.
pub open spec fn find_flow(a: Seq<AffinityView>, t: FourTuple) -> Option<int> {
    if exists|i: int| 0 <= i < a.len() && a[i].0 == t {
        Some(choose|i: int| 0 <= i < a.len() && a[i].0 == t)
    } else {
        None
    }
}

/// No flow is recorded twice.
pub open spec fn flows_unique(a: Seq<AffinityView>) -> bool {
    forall|i: int, j: int|
        0 <= i < a.len() && 0 <= j < a.len() && i != j ==> (#[trigger] a[i]).0 != (#[trigger] a[j]).0
}

/// The flows after recording that `t` belongs to lobby `l` and endpoint `e`.
pub open spec fn record_flow(a: Seq<AffinityView>, t: FourTuple, l: Seq<u8>, e: RtcEndpointId) -> Seq<AffinityView> {
    match find_flow(a, t) {
        Some(i) => a.update(i, (t, l, e)),
        None => a.push((t, l, e)),
    }
}

/// The outcome of routing a STUN username on flow `t`: the flows afterwards and the
/// lobby and endpoint, if the username's local ufrag names them.
pub open spec fn route_username_spec(a: Seq<AffinityView>, t: FourTuple, username: Seq<char>) -> (
    Seq<AffinityView>,
    Option<(Seq<u8>, RtcEndpointId)>,
) {
    match local_ufrag_of(username) {
        None => (a, None),
        Some(local) => match decode_local_ufrag_spec(local) {
            None => (a, None),
            Some((l, e)) => (record_flow(a, t, l, e), Some((l, e))),
        },
    }
}

/// The view of a routing result.
pub open spec fn route_view(r: Option<(RtcLobbyId, RtcEndpointId)>) -> Option<(Seq<u8>, RtcEndpointId)> {
    match r {
        Some((l, e)) => Some((l@, e)),
        None => None,
    }
}

/// The flows an RTC core has learned.
#[derive(Debug)]
pub struct Demuxer {
    affinity: Vec<(FourTuple, RtcLobbyId, RtcEndpointId)>,
}

impl Demuxer {
    /// The learned flows.
    pub closed spec fn flows(&self) -> Seq<AffinityView> {
        self.affinity@.map_values(|x: (FourTuple, RtcLobbyId, RtcEndpointId)| (x.0, x.1@, x.2))
    }

    pub open spec fn wf(&self) -> bool {
        flows_unique(self.flows())
    }

    pub fn new() -> (d: Self)
        ensures
            d.wf(),
            d.flows() == Seq::<AffinityView>::empty(),
    {
        let d = Demuxer { affinity: Vec::new() };
        assert(d.flows() =~= Seq::<AffinityView>::empty());
        d
    }

    fn position(&self, t: FourTuple) -> (r: Option<usize>)
        requires
            self.wf(),
        ensures
            match r {
                Some(i) => find_flow(self.flows(), t) == Some(i as int),
                None => find_flow(self.flows(), t) is None,
            },
    {
        let mut i: usize = 0;
        while i < self.affinity.len()
            invariant
                i <= self.affinity@.len(),
                self.wf(),
                forall|j: int| 0 <= j < i ==> (#[trigger] self.flows()[j]).0 != t,
            decreases self.affinity@.len() - i,
        {
            if self.affinity[i].0 == t {
                assert(self.flows()[i as int].0 == t);
                assert forall|k: int| 0 <= k < self.flows().len() && self.flows()[k].0 == t implies k == i by {
                    if k != i {
                        assert(self.flows()[k].0 != self.flows()[i as int].0);
                    }
                }
                return Some(i);
            }
            i = i + 1;
        }
        None
    }

    /// Records that flow `t` belongs to lobby `l` and endpoint `e`.
    fn record(&mut self, t: FourTuple, l: RtcLobbyId, e: RtcEndpointId)
        requires
            old(self).wf(),
        ensures
            final(self).wf(),
            final(self).flows() == record_flow(old(self).flows(), t, l@, e),
    {
        match self.position(t) {
            Some(i) => {
                self.affinity.set(i, (t, l, e));
            },
            None => {
                self.affinity.push((t, l, e));
            },
        }
        assert(self.flows() =~= record_flow(old(self).flows(), t, l@, e));
        assert forall|i: int, j: int|
            0 <= i < self.flows().len() && 0 <= j < self.flows().len() && i != j implies (#[trigger] self.flows()[i]).0
                != (#[trigger] self.flows()[j]).0 by {
            if i < old(self).flows().len() && j < old(self).flows().len() {
                if self.flows()[i] != old(self).flows()[i] || self.flows()[j] != old(self).flows()[j] {
                }
            }
        }
    }

    /// Routes the STUN username of a binding request that arrived on flow `t`, and
    /// learns the flow when the username's local ufrag names a lobby and an endpoint.
    pub fn route_username(&mut self, t: FourTuple, username: &str) -> (r: Option<(RtcLobbyId, RtcEndpointId)>)
        requires
            old(self).wf(),
        ensures
            final(self).wf(),
            (final(self).flows(), route_view(r)) == route_username_spec(old(self).flows(), t, username@),
    {
        let chars = str_chars(username);
        let i = next_index_exec(chars.as_slice(), ':', 0);
        if i >= chars.len() {
            return None;
        }
        let local = string_from_chars(chars.as_slice(), 0, i);
        match decode_local_ufrag(local.as_str()) {
            Some((l, e)) => {
                self.record(t, l, e);
                Some((l, e))
            },
            None => None,
        }
    }

    /// The lobby and endpoint of a datagram that arrived on flow `t`: the learned ones,
    /// or, for an unknown flow, those the STUN username names (the flow is then learned).
    pub fn demux(&mut self, t: FourTuple, message: &[u8]) -> (r: Option<(RtcLobbyId, RtcEndpointId)>)
        requires
            old(self).wf(),
        ensures
            final(self).wf(),
            match find_flow(old(self).flows(), t) {
                Some(i) => route_view(r) == Some((old(self).flows()[i].1, old(self).flows()[i].2))
                    && final(self).flows() == old(self).flows(),
                None => {
                    &&& match stun_username_of(message@) {
                        None => r is None && final(self).flows() == old(self).flows(),
                        Some(u) => (final(self).flows(), route_view(r)) == route_username_spec(old(self).flows(), t, u),
                    }
                    &&& !is_stun_spec(message@) ==> r is None && final(self).flows() == old(self).flows()
                },
            },
    {
        if let Some(i) = self.position(t) {
            let (_, l, e) = self.affinity[i];
            return Some((l, e));
        }
        self.demux_stun_username(t, message)
    }

    /// The lobby and endpoint that the STUN username of a datagram on flow `t` names
    /// (the flow is then learned); `None` for a datagram that is not a STUN message with
    /// a username naming one.
    pub fn demux_stun_username(&mut self, t: FourTuple, message: &[u8]) -> (r: Option<(RtcLobbyId, RtcEndpointId)>)
        requires
            old(self).wf(),
        ensures
            final(self).wf(),
            match stun_username_of(message@) {
                None => r is None && final(self).flows() == old(self).flows(),
                Some(u) => (final(self).flows(), route_view(r)) == route_username_spec(old(self).flows(), t, u),
            },
            !is_stun_spec(message@) ==> r is None && final(self).flows() == old(self).flows(),
    {
        match stun_username(message) {
            Some(u) => self.route_username(t, u.as_str()),
            None => None,
        }
    }
}

/// Once a STUN username has routed a flow, the flow is learned: every later datagram
/// on it goes to the same lobby and endpoint without looking at its content.
pub proof fn lemma_routed_flow_is_learned(a: Seq<AffinityView>, t: FourTuple, username: Seq<char>)
    requires
        flows_unique(a),
        route_username_spec(a, t, username).1 is Some,
    ensures
        ({
            let b = route_username_spec(a, t, username).0;
            let (l, e) = route_username_spec(a, t, username).1->0;
            &&& find_flow(b, t) is Some
            &&& b[find_flow(b, t)->0].1 == l
            &&& b[find_flow(b, t)->0].2 == e
        }),
{
    let (l, e) = route_username_spec(a, t, username).1->0;
    let b = record_flow(a, t, l, e);
    match find_flow(a, t) {
        Some(i) => {
            assert(b[i].0 == t);
            assert forall|k: int| 0 <= k < b.len() && b[k].0 == t implies k == i by {
                if k != i {
                    assert(a[k].0 != a[i].0);
                }
            }
        },
        None => {
            let n = a.len() as int;
            assert(b[n].0 == t);
            assert forall|k: int| 0 <= k < b.len() && b[k].0 == t implies k == n by {
                if k != n {
                    assert(b[k] == a[k]);
                }
            }
        },
    }
}

/// A short label of what an inbound datagram is, by its first bytes (RFC 7983): STUN,
/// DTLS, RTP or RTCP.
pub open spec fn payload_class(p: Seq<u8>) -> Seq<char> {
    if p.len() == 0 {
        "empty"@
    } else if p[0] <= 3 {
        "stun"@
    } else if 20 <= p[0] <= 63 {
        "dtls"@
    } else if 128 <= p[0] <= 191 {
        if p.len() < 2 {
            "rtp/rtcp"@
        } else if 192 <= p[1] <= 223 {
            "rtcp"@
        } else {
            "rtp"@
        }
    } else {
        "unknown"@
    }
}

/// Classifies an inbound datagram for diagnostics.
pub fn classify_rtc_payload(payload: &[u8]) -> (s: &'static str)
    ensures
        s@ == payload_class(payload@),
{
    if payload.len() == 0 {
        return "empty";
    }
    let first = payload[0];
    if first <= 3 {
        "stun"
    } else if 20 <= first && first <= 63 {
        "dtls"
    } else if 128 <= first && first <= 191 {
        if payload.len() < 2 {
            "rtp/rtcp"
        } else if 192 <= payload[1] && payload[1] <= 223 {
            "rtcp"
        } else {
            "rtp"
        }
    } else {
        "unknown"
    }
}

} // verus!
