//! Identity of the WebRTC endpoints of a peer.
use crate::sfu::lobby::LobbyId;
use crate::sfu::peer::PeerId;
use crate::util::text::{decimal, u64_to_decimal};
use vstd::prelude::*;

verus! {

/// Numeric identity of one endpoint inside an RTC core.
pub type RtcEndpointId = u64;

/// Hands out endpoint numbers, starting at 1 and counting up (wrapping like an atomic
/// counter).
#[derive(Debug)]
pub struct RtcEndpointIdAllocator {
    next: u64,
}

impl RtcEndpointIdAllocator {
    /// The number the next allocation returns.
    pub closed spec fn upcoming(&self) -> u64 {
        self.next
    }

    pub fn new() -> (a: Self)
        ensures
            a.upcoming() == 1,
    {
        RtcEndpointIdAllocator { next: 1 }
    }

    /// Returns the next endpoint number and advances the counter.
    pub fn next_rtc_endpoint_id(&mut self) -> (id: RtcEndpointId)
        ensures
            id == old(self).upcoming(),
            final(self).upcoming() == next_id(old(self).upcoming()),
    {
        let id = self.next;
        self.next = self.next.wrapping_add(1);
        id
    }
}

/// The endpoint number an allocator hands out after `n`.
pub open spec fn next_id(n: u64) -> u64 {
    if n == u64::MAX {
        0
    } else {
        (n + 1) as u64
    }
}

/// The endpoint number an allocator hands out `k` allocations after it handed out
/// `first`.
pub open spec fn id_after(first: u64, k: nat) -> u64
    decreases k,
{
    if k == 0 {
        first
    } else {
        next_id(id_after(first, (k - 1) as nat))
    }
}

/// Two consecutive allocations never return the same endpoint number.
pub proof fn lemma_consecutive_ids_differ(first: u64)
    ensures
        first != next_id(first),
{
}

/// Until the counter wraps, an allocation made `k` allocations later, by publish or
/// subscribe alike, returns a number larger by exactly `k`; so every later number is
/// larger than every earlier one, and none repeats.
pub proof fn lemma_later_ids_are_larger(first: u64, k: nat)
    requires
        first + k <= u64::MAX,
    ensures
        id_after(first, k) == first + k,
        k > 0 ==> id_after(first, k) > first,
    decreases k,
{
    if k > 0 {
        lemma_later_ids_are_larger(first, (k - 1) as nat);
    }
}

/// The role of one WebRTC connection belonging to a peer.
#[derive(Debug, Clone, Copy, PartialEq, Eq, Hash, Structural)]
pub enum EndpointKind {
    Publish,
    Subscribe,
}

/// How an endpoint kind is printed.
pub open spec fn kind_text(kind: EndpointKind) -> Seq<char> {
    match kind {
        EndpointKind::Publish => "publish"@,
        EndpointKind::Subscribe => "subscribe"@,
    }
}

impl EndpointKind {
    /// The printed name of the kind (`publish` or `subscribe`).
    pub fn as_string(&self) -> (s: String)
        ensures
            s@ == kind_text(*self),
    {
        match self {
            EndpointKind::Publish => String::from_str("publish"),
            EndpointKind::Subscribe => String::from_str("subscribe"),
        }
    }
}

/// An endpoint identity as plain values: number, lobby, peer and kind.
pub type EndpointKey = (RtcEndpointId, Seq<char>, Seq<char>, EndpointKind);

/// Stable domain identity of a WebRTC endpoint.
#[derive(Debug, Clone, PartialEq, Eq, Hash)]
pub struct EndpointId {
    rtc_id: RtcEndpointId,
    lobby_id: LobbyId,
    peer_id: PeerId,
    kind: EndpointKind,
}

impl EndpointId {
    pub closed spec fn spec_rtc_id(&self) -> RtcEndpointId {
        self.rtc_id
    }

    pub closed spec fn spec_lobby_id(&self) -> Seq<char> {
        self.lobby_id@
    }

    pub closed spec fn spec_peer_id(&self) -> Seq<char> {
        self.peer_id@
    }

    pub closed spec fn spec_kind(&self) -> EndpointKind {
        self.kind
    }

    pub fn new(rtc_id: RtcEndpointId, lobby_id: LobbyId, peer_id: PeerId, kind: EndpointKind) -> (e:
        Self)
        ensures
            e.spec_rtc_id() == rtc_id,
            e.spec_lobby_id() == lobby_id@,
            e.spec_peer_id() == peer_id@,
            e.spec_kind() == kind,
    {
        EndpointId { rtc_id, lobby_id, peer_id, kind }
    }

    /// A publish endpoint with a fresh number.
    pub fn publish(ids: &mut RtcEndpointIdAllocator, lobby_id: LobbyId, peer_id: PeerId) -> (e:
        Self)
        ensures
            e.spec_rtc_id() == old(ids).upcoming(),
            final(ids).upcoming() == next_id(old(ids).upcoming()),
            e.spec_lobby_id() == lobby_id@,
            e.spec_peer_id() == peer_id@,
            e.spec_kind() == EndpointKind::Publish,
    {
        let rtc_id = ids.next_rtc_endpoint_id();
        Self::new(rtc_id, lobby_id, peer_id, EndpointKind::Publish)
    }

    /// A subscribe endpoint with a fresh number.
    pub fn subscribe(ids: &mut RtcEndpointIdAllocator, lobby_id: LobbyId, peer_id: PeerId) -> (e:
        Self)
        ensures
            e.spec_rtc_id() == old(ids).upcoming(),
            final(ids).upcoming() == next_id(old(ids).upcoming()),
            e.spec_lobby_id() == lobby_id@,
            e.spec_peer_id() == peer_id@,
            e.spec_kind() == EndpointKind::Subscribe,
    {
        let rtc_id = ids.next_rtc_endpoint_id();
        Self::new(rtc_id, lobby_id, peer_id, EndpointKind::Subscribe)
    }

    pub fn rtc_id(&self) -> (r: RtcEndpointId)
        ensures
            r == self.spec_rtc_id(),
    {
        self.rtc_id
    }

    pub fn lobby_id(&self) -> (l: &LobbyId)
        ensures
            l@ == self.spec_lobby_id(),
    {
        &self.lobby_id
    }

    pub fn peer_id(&self) -> (p: &PeerId)
        ensures
            p@ == self.spec_peer_id(),
    {
        &self.peer_id
    }

    pub fn kind(&self) -> (k: EndpointKind)
        ensures
            k == self.spec_kind(),
    {
        self.kind
    }

    /// The identity as plain values.
    pub open spec fn key(&self) -> EndpointKey {
        (self.spec_rtc_id(), self.spec_lobby_id(), self.spec_peer_id(), self.spec_kind())
    }

    /// Whether two identities name the same endpoint.
    pub fn same_as(&self, other: &EndpointId) -> (b: bool)
        ensures
            b == (self.key() == other.key()),
    {
        self.rtc_id == other.rtc_id && self.kind == other.kind && self.lobby_id.same_as(&other.lobby_id)
            && self.peer_id.same_as(&other.peer_id)
    }

    /// A copy of this identity.
    pub fn duplicate(&self) -> (e: Self)
        ensures
            e.key() == self.key(),
            e.spec_rtc_id() == self.spec_rtc_id(),
            e.spec_lobby_id() == self.spec_lobby_id(),
            e.spec_peer_id() == self.spec_peer_id(),
            e.spec_kind() == self.spec_kind(),
    {
        EndpointId {
            rtc_id: self.rtc_id,
            lobby_id: self.lobby_id.duplicate(),
            peer_id: self.peer_id.duplicate(),
            kind: self.kind,
        }
    }

    /// The printed form `rtc_id:kind:lobby_id:peer_id`.
    pub fn as_string(&self) -> (s: String)
        ensures
            s@ == decimal(self.spec_rtc_id() as nat) + ":"@ + kind_text(self.spec_kind()) + ":"@
                + self.spec_lobby_id() + ":"@ + self.spec_peer_id(),
    {
        let s = u64_to_decimal(self.rtc_id);
        let s = s.concat(":");
        let kind = self.kind.as_string();
        let s = s.concat(kind.as_str());
        let s = s.concat(":");
        let s = s.concat(self.lobby_id.as_str());
        let s = s.concat(":");
        s.concat(self.peer_id.as_str())
    }
}

/// Whether `e` is among `ids`.
pub fn contains_rtc_id(ids: &[RtcEndpointId], e: RtcEndpointId) -> (b: bool)
    ensures
        b == ids@.contains(e),
{
    let mut i: usize = 0;
    while i < ids.len()
        invariant
            i <= ids@.len(),
            forall|j: int| 0 <= j < i ==> ids@[j] != e,
        decreases ids@.len() - i,
    {
        if ids[i] == e {
            assert(ids@[i as int] == e);
            return true;
        }
        i = i + 1;
    }
    false
}

} // verus!
