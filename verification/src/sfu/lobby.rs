//! Lobby identity, the requests a lobby answers, and what it decides on each.
//!
//! A lobby holds the participants (peers) of one stream. A user publishes once; a
//! second publish of the same user is refused. The lobby stops once its last peer has
//! stopped, or at once when asked to shut down with no peer left.
use crate::sfu::db::{AddParticipant, RemoveParticipant};
use crate::sfu::endpoint::{next_id, EndpointId, EndpointKind, RtcEndpointIdAllocator};
use crate::sfu::peer::{PeerId, PeerRole};
use vstd::prelude::*;

verus! {

/// Identity of a lobby in the SFU domain.
#[derive(Debug, Clone, PartialEq, Eq, Hash)]
pub struct LobbyId(String);

impl View for LobbyId {
    type V = Seq<char>;

    closed spec fn view(&self) -> Seq<char> {
        self.0@
    }
}

impl LobbyId {
    pub fn new(value: &str) -> (l: LobbyId)
        ensures
            l@ == value@,
    {
        LobbyId(value.to_owned())
    }

    pub fn as_str(&self) -> (s: &str)
        ensures
            s@ == self@,
    {
        self.0.as_str()
    }

    /// A copy of this identity.
    pub fn duplicate(&self) -> (l: LobbyId)
        ensures
            l@ == self@,
    {
        LobbyId(self.0.clone())
    }

    /// Whether two identities name the same lobby.
    pub fn same_as(&self, other: &LobbyId) -> (b: bool)
        ensures
            b == (self@ == other@),
    {
        self.0 == other.0
    }
}

/// A participant publishes: the lobby answers the offer for its publish endpoint.
#[derive(Debug)]
pub struct Publish {
    pub user_uuid: String,
    pub offer: String,
    pub role: PeerRole,
}

/// A participant subscribes, in two steps: an offer from the SFU, then the answer.
#[derive(Debug)]
pub struct Subscribe {
    pub user_uuid: String,
    pub kind: SubscribeKind,
    pub answer: Option<String>,
}

/// Which step of a subscription a [`Subscribe`] request is.
#[derive(Debug, Clone, Copy, PartialEq, Eq, Structural)]
pub enum SubscribeKind {
    Offer,
    Answer,
}

/// A participant leaves its lobby.
#[derive(Debug)]
pub struct LeavePeer {
    pub user_uuid: String,
}

/// A participant timed out.
#[derive(Debug)]
pub struct TimeoutPeer {
    pub user_uuid: String,
}

/// The lobby is asked to shut down.
#[derive(Debug)]
pub struct LobbyShutdown;

/// A peer has stopped.
#[derive(Debug)]
pub struct PeerStopped {
    pub id: PeerId,
    pub publish_endpoint: EndpointId,
}

/// Emitted by a peer after its publish endpoint has completed negotiation.
#[derive(Debug)]
pub struct PublishEndpointSucceeded {
    pub peer_id: PeerId,
    pub endpoint_id: EndpointId,
}

/// Emitted by a peer after its subscribe endpoint has completed negotiation.
#[derive(Debug)]
pub struct SubscriptionEndpointSucceeded {
    pub peer_id: PeerId,
    pub endpoint_id: EndpointId,
}

/// Why a lobby refuses a request.
#[derive(Debug)]
pub enum LobbyError {
    /// The user already takes part in the lobby.
    PeerAlreadyExists(PeerId),
    /// The user takes no part in the lobby.
    PeerNotExists(PeerId),
    /// A streaming request lacks what it needs.
    StreamingError(String),
    /// The lobby has no RTC core to host endpoints on.
    RtcCoreUnavailable(String),
}

/// Where participant `p` is among `ps`.
pub open spec fn find_participant(ps: Seq<Seq<char>>, p: Seq<char>) -> Option<int> {
    if exists|i: int| 0 <= i < ps.len() && ps[i] == p {
        Some(choose|i: int| 0 <= i < ps.len() && ps[i] == p)
    } else {
        None
    }
}

/// The participants without `p`.
pub open spec fn without_participant(ps: Seq<Seq<char>>, p: Seq<char>) -> Seq<Seq<char>> {
    match find_participant(ps, p) {
        Some(i) => ps.remove(i),
        None => ps,
    }
}

/// What a lobby does once a new participant is admitted: start its peer with these two
/// endpoints, record the participant, and have the peer answer the publish offer.
#[derive(Debug)]
pub struct PublishPlan {
    pub peer_id: PeerId,
    pub publish_endpoint: EndpointId,
    pub subscribe_endpoint: EndpointId,
    pub add_participant: AddParticipant,
}

/// What a lobby asks of a peer for one step of a subscription.
#[derive(Debug)]
pub enum SubscribeStep {
    /// Create the subscribe endpoint and return its offer.
    CreateSubscriptionEndpoint { peer_id: PeerId },
    /// Complete the subscribe endpoint with the browser's answer.
    CompleteSubscriptionEndpoint { peer_id: PeerId, answer: String },
}

/// What a lobby does once one of its peers has stopped.
#[derive(Debug)]
pub struct PeerStoppedPlan {
    /// The relay no longer takes media from this publish endpoint.
    pub detach_relay_source: EndpointId,
    /// The store forgets the participant.
    pub remove_participant: RemoveParticipant,
    /// The peer was the last one: the lobby releases its RTC core, shuts its relay down,
    /// reports that it stopped, and stops.
    pub stop: bool,
}

/// The state a lobby decides on: its identity and stream, its participants, whether an
/// RTC core is assigned to it, and whether it is shutting down.
#[derive(Debug)]
pub struct LobbyCore {
    id: LobbyId,
    stream_uuid: String,
    peers: Vec<PeerId>,
    rtc_core_assigned: bool,
    shutting_down: bool,
}

impl LobbyCore {
    pub closed spec fn spec_id(&self) -> Seq<char> {
        self.id@
    }

    pub closed spec fn spec_stream_uuid(&self) -> Seq<char> {
        self.stream_uuid@
    }

    /// The participants, in order of admission.
    pub closed spec fn participants(&self) -> Seq<Seq<char>> {
        self.peers@.map_values(|p: PeerId| p@)
    }

    pub closed spec fn spec_rtc_core_assigned(&self) -> bool {
        self.rtc_core_assigned
    }

    pub closed spec fn spec_shutting_down(&self) -> bool {
        self.shutting_down
    }

    /// No participant appears twice.
    pub open spec fn wf(&self) -> bool {
        self.participants().no_duplicates()
    }

    /// A lobby with no participant and no RTC core yet.
    pub fn new(id: LobbyId, stream_uuid: String) -> (l: LobbyCore)
        ensures
            l.wf(),
            l.spec_id() == id@,
            l.spec_stream_uuid() == stream_uuid@,
            l.participants() == Seq::<Seq<char>>::empty(),
            !l.spec_rtc_core_assigned(),
            !l.spec_shutting_down(),
    {
        let l = LobbyCore { id, stream_uuid, peers: Vec::new(), rtc_core_assigned: false, shutting_down: false };
        assert(l.participants() =~= Seq::<Seq<char>>::empty());
        l
    }

    /// Records the outcome of asking the RTC pool for a core. Returns whether the lobby
    /// lives on; where no core was assigned, the lobby stops.
    pub fn assign_rtc_core(&mut self, assigned: bool) -> (live: bool)
        requires
            old(self).wf(),
        ensures
            final(self).wf(),
            live == assigned,
            final(self).spec_rtc_core_assigned() == (old(self).spec_rtc_core_assigned() || assigned),
            final(self).participants() == old(self).participants(),
            final(self).spec_id() == old(self).spec_id(),
            final(self).spec_stream_uuid() == old(self).spec_stream_uuid(),
            final(self).spec_shutting_down() == old(self).spec_shutting_down(),
    {
        if assigned {
            self.rtc_core_assigned = true;
        }
        assigned
    }

    fn find(&self, peer_id: &PeerId) -> (r: Option<usize>)
        requires
            self.wf(),
        ensures
            match r {
                Some(i) => find_participant(self.participants(), peer_id@) == Some(i as int)
                    && i < self.peers@.len(),
                None => find_participant(self.participants(), peer_id@) is None,
            },
    {
        let ghost ps = self.participants();
        let mut i: usize = 0;
        while i < self.peers.len()
            invariant
                i <= self.peers@.len(),
                ps == self.participants(),
                ps.no_duplicates(),
                forall|j: int| 0 <= j < i ==> ps[j] != peer_id@,
            decreases self.peers@.len() - i,
        {
            if self.peers[i].same_as(peer_id) {
                proof {
                    let c = choose|j: int| 0 <= j < ps.len() && ps[j] == peer_id@;
                    assert(ps[i as int] == peer_id@);
                    if c != i as int {
                        assert(ps[c] == ps[i as int]);
                    }
                }
                return Some(i);
            }
            i = i + 1;
        }
        None
    }

    /// Admits user `user_uuid` as a publishing participant: the lobby starts its peer
    /// with a fresh publish and subscribe endpoint and records it in the store. Refused
    /// if the user already takes part, or while no RTC core is assigned (the two endpoint
    /// numbers are drawn before that check).
    pub fn publish(&mut self, ids: &mut RtcEndpointIdAllocator, user_uuid: &str) -> (r: Result<PublishPlan, LobbyError>)
        requires
            old(self).wf(),
        ensures
            final(self).wf(),
            final(self).spec_id() == old(self).spec_id(),
            final(self).spec_stream_uuid() == old(self).spec_stream_uuid(),
            final(self).spec_rtc_core_assigned() == old(self).spec_rtc_core_assigned(),
            final(self).spec_shutting_down() == old(self).spec_shutting_down(),
            old(self).participants().contains(user_uuid@) ==> {
                &&& r matches Err(LobbyError::PeerAlreadyExists(p)) && p@ == user_uuid@
                &&& final(self).participants() == old(self).participants()
                &&& final(ids).upcoming() == old(ids).upcoming()
            },
            !old(self).participants().contains(user_uuid@) ==> final(ids).upcoming() == next_id(
                next_id(old(ids).upcoming()),
            ),
            !old(self).participants().contains(user_uuid@) && !old(self).spec_rtc_core_assigned() ==> {
                &&& r matches Err(LobbyError::RtcCoreUnavailable(_))
                &&& final(self).participants() == old(self).participants()
            },
            !old(self).participants().contains(user_uuid@) && old(self).spec_rtc_core_assigned() ==> {
                &&& r matches Ok(plan)
                &&& plan.peer_id@ == user_uuid@
                &&& plan.publish_endpoint.key() == (
                    old(ids).upcoming(),
                    old(self).spec_id(),
                    user_uuid@,
                    EndpointKind::Publish,
                )
                &&& plan.subscribe_endpoint.key() == (
                    next_id(old(ids).upcoming()),
                    old(self).spec_id(),
                    user_uuid@,
                    EndpointKind::Subscribe,
                )
                &&& plan.add_participant.lobby_uuid@ == old(self).spec_id()
                &&& plan.add_participant.stream_uuid@ == old(self).spec_stream_uuid()
                &&& plan.add_participant.user_uuid@ == user_uuid@
                &&& final(self).participants() == old(self).participants().push(user_uuid@)
            },
    {
        let peer_id = PeerId::new(user_uuid);
        if self.find(&peer_id).is_some() {
            return Err(LobbyError::PeerAlreadyExists(peer_id));
        }
        let publish_endpoint = EndpointId::publish(ids, self.id.duplicate(), peer_id.duplicate());
        let subscribe_endpoint = EndpointId::subscribe(ids, self.id.duplicate(), peer_id.duplicate());
        if !self.rtc_core_assigned {
            return Err(LobbyError::RtcCoreUnavailable(
                "lobby has no RTC core assignment".to_owned(),
            ));
        }
        let ghost before = self.participants();
        self.peers.push(peer_id.duplicate());
        assert(self.participants() =~= before.push(user_uuid@));
        let add_participant = AddParticipant {
            lobby_uuid: self.id.as_str().to_owned(),
            stream_uuid: self.stream_uuid.clone(),
            user_uuid: user_uuid.to_owned(),
        };
        Ok(PublishPlan { peer_id, publish_endpoint, subscribe_endpoint, add_participant })
    }

    /// What the peer of user `user_uuid` is asked for one step of a subscription: to
    /// create its subscribe endpoint (`Offer`), or to complete it with `answer`
    /// (`Answer`). Refused if the user takes no part, or if an answer step has no answer.
    pub fn subscribe(&self, user_uuid: &str, kind: SubscribeKind, answer: Option<String>) -> (r: Result<SubscribeStep, LobbyError>)
        requires
            self.wf(),
        ensures
            !self.participants().contains(user_uuid@) ==> (r matches Err(LobbyError::PeerNotExists(p)) && p@ == user_uuid@),
            self.participants().contains(user_uuid@) ==> match kind {
                SubscribeKind::Offer => r matches Ok(SubscribeStep::CreateSubscriptionEndpoint { peer_id }) && peer_id@ == user_uuid@,
                SubscribeKind::Answer => match answer {
                    None => r matches Err(LobbyError::StreamingError(_)),
                    Some(a) => r matches Ok(SubscribeStep::CompleteSubscriptionEndpoint { peer_id, answer: b })
                        && peer_id@ == user_uuid@ && b@ == a@,
                },
            },
    {
        let peer_id = PeerId::new(user_uuid);
        if self.find(&peer_id).is_none() {
            return Err(LobbyError::PeerNotExists(peer_id));
        }
        match kind {
            SubscribeKind::Offer => Ok(SubscribeStep::CreateSubscriptionEndpoint { peer_id }),
            SubscribeKind::Answer => match answer {
                None => Err(LobbyError::StreamingError("missing WHEP answer".to_owned())),
                Some(answer) => Ok(SubscribeStep::CompleteSubscriptionEndpoint { peer_id, answer }),
            },
        }
    }

    /// The peer to shut down when user `user_uuid` leaves; refused if the user takes no
    /// part.
    pub fn leave_peer(&self, user_uuid: &str) -> (r: Result<PeerId, LobbyError>)
        requires
            self.wf(),
        ensures
            self.participants().contains(user_uuid@) ==> (r matches Ok(p) && p@ == user_uuid@),
            !self.participants().contains(user_uuid@) ==> (r matches Err(LobbyError::PeerNotExists(p)) && p@ == user_uuid@),
    {
        let peer_id = PeerId::new(user_uuid);
        if self.find(&peer_id).is_none() {
            return Err(LobbyError::PeerNotExists(peer_id));
        }
        Ok(peer_id)
    }

    /// Starts shutting the lobby down: every peer is asked to shut down (the peers
    /// returned, in order of admission). Returns also whether the lobby stops at once,
    /// which it does when it has no peer.
    pub fn shutdown(&mut self) -> (r: (Vec<PeerId>, bool))
        requires
            old(self).wf(),
        ensures
            final(self).wf(),
            final(self).spec_shutting_down(),
            final(self).participants() == old(self).participants(),
            final(self).spec_id() == old(self).spec_id(),
            final(self).spec_stream_uuid() == old(self).spec_stream_uuid(),
            final(self).spec_rtc_core_assigned() == old(self).spec_rtc_core_assigned(),
            r.0@.map_values(|p: PeerId| p@) == old(self).participants(),
            r.1 == (old(self).participants().len() == 0),
    {
        self.shutting_down = true;
        let mut out: Vec<PeerId> = Vec::new();
        let mut i: usize = 0;
        while i < self.peers.len()
            invariant
                i <= self.peers@.len(),
                out@.map_values(|p: PeerId| p@) == self.participants().take(i as int),
            decreases self.peers@.len() - i,
        {
            let ghost before = out@.map_values(|p: PeerId| p@);
            out.push(self.peers[i].duplicate());
            assert(out@.map_values(|p: PeerId| p@) =~= before.push(self.participants()[i as int]));
            assert(self.participants().take(i + 1) =~= self.participants().take(i as int).push(
                self.participants()[i as int],
            ));
            i = i + 1;
        }
        assert(self.participants().take(self.peers@.len() as int) =~= self.participants());
        let stop = self.peers.len() == 0;
        (out, stop)
    }

    /// Forgets peer `id` once it has stopped: the relay detaches its publish endpoint,
    /// the store forgets the participant, and the lobby stops if no peer is left.
    pub fn peer_stopped(&mut self, id: &PeerId, publish_endpoint: EndpointId) -> (r: PeerStoppedPlan)
        requires
            old(self).wf(),
        ensures
            final(self).wf(),
            final(self).participants() == without_participant(old(self).participants(), id@),
            final(self).spec_id() == old(self).spec_id(),
            final(self).spec_stream_uuid() == old(self).spec_stream_uuid(),
            final(self).spec_rtc_core_assigned() == old(self).spec_rtc_core_assigned(),
            final(self).spec_shutting_down() == old(self).spec_shutting_down(),
            r.detach_relay_source.key() == publish_endpoint.key(),
            r.remove_participant.lobby_uuid@ == old(self).spec_id(),
            r.remove_participant.stream_uuid@ == old(self).spec_stream_uuid(),
            r.remove_participant.user_uuid@ == id@,
            r.stop == (final(self).participants().len() == 0),
    {
        match self.find(id) {
            Some(i) => {
                let ghost before = self.participants();
                self.peers.remove(i);
                assert(self.participants() =~= before.remove(i as int));
                proof {
                    assert forall|a: int, b: int|
                        0 <= a < self.participants().len() && 0 <= b < self.participants().len() && a != b
                        implies self.participants()[a] != self.participants()[b] by {
                        let a0 = if a < i { a } else { a + 1 };
                        let b0 = if b < i { b } else { b + 1 };
                        assert(before[a0] != before[b0]);
                    }
                }
            },
            None => {},
        }
        let remove_participant = RemoveParticipant {
            lobby_uuid: self.id.as_str().to_owned(),
            stream_uuid: self.stream_uuid.clone(),
            user_uuid: id.as_user_uuid(),
        };
        PeerStoppedPlan { detach_relay_source: publish_endpoint, remove_participant, stop: self.peers.len() == 0 }
    }
}

/// Once the peer of a participant admitted by a publish stops, the lobby has the same
/// participants as before that publish.
pub proof fn lemma_stop_undoes_publish(ps: Seq<Seq<char>>, user: Seq<char>)
    requires
        ps.no_duplicates(),
        !ps.contains(user),
    ensures
        without_participant(ps.push(user), user) == ps,
{
    let qs = ps.push(user);
    assert(qs[ps.len() as int] == user);
    let i = choose|i: int| 0 <= i < qs.len() && qs[i] == user;
    if i < ps.len() {
        assert(ps[i] == user);
    }
    assert(i == ps.len());
    assert(qs.remove(i) =~= ps);
}

} // verus!
