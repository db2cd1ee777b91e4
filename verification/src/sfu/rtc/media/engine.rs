//! Which lobbies an RTC core runs and which endpoints each holds.
//!
//! A lobby comes into being with the first endpoint that joins it and is reaped when
//! its last endpoint leaves; events for endpoints a lobby does not hold are ignored.
use vstd::prelude::*;
use crate::sfu::endpoint::{EndpointKind, RtcEndpointId};
use crate::sfu::rtc::media::lobby::RtcLobbyId;

verus! {

/// An event about an endpoint of a lobby, as far as membership goes.
#[derive(Debug, Clone, Copy, PartialEq, Eq)]
pub enum MembershipEvent {
    Join { lobby: RtcLobbyId, endpoint: RtcEndpointId, kind: EndpointKind },
    Leave { lobby: RtcLobbyId, endpoint: RtcEndpointId },
    /// Any other event of an endpoint; `session_description` marks an applied
    /// session description, which can change what is published.
    Other { lobby: RtcLobbyId, endpoint: RtcEndpointId, session_description: bool },
}

/// What an event did to the membership.
#[derive(Debug, Clone, Copy, PartialEq, Eq, Structural)]
pub enum MembershipOutcome {
    /// Nothing holds the endpoint: the event is dropped.
    Ignored,
    /// The endpoint joined; `created` if its lobby was new.
    Joined { created: bool },
    /// The endpoint left; `reaped` if that emptied and removed its lobby.
    Left { reaped: bool },
    /// The event goes to the endpoint; `needs_reconcile` if the forwarding graph must
    /// be reconciled after it.
    Dispatched { needs_reconcile: bool },
}

/// A lobby's endpoints as plain values.
pub type RosterView = Seq<(RtcEndpointId, EndpointKind)>;

/// The lobbies as plain values: lobby bytes and roster.
pub type RegistryView = Seq<(Seq<u8>, RosterView)>;

/// Where lobby `l` is.
pub open spec fn find_lobby(reg: RegistryView, l: Seq<u8>) -> Option<int> {
    if exists|i: int| 0 <= i < reg.len() && reg[i].0 == l {
        Some(choose|i: int| 0 <= i < reg.len() && reg[i].0 == l)
    } else {
        None
    }
}

/// Where endpoint `e` is in a roster.
pub open spec fn find_member(r: RosterView, e: RtcEndpointId) -> Option<int> {
    if exists|j: int| 0 <= j < r.len() && r[j].0 == e {
        Some(choose|j: int| 0 <= j < r.len() && r[j].0 == e)
    } else {
        None
    }
}

/// No lobby twice, no endpoint twice in a lobby, and no empty lobby.
pub open spec fn registry_wf(reg: RegistryView) -> bool {
    &&& forall|i: int, j: int| 0 <= i < reg.len() && 0 <= j < reg.len() && i != j ==> (#[trigger] reg[i]).0 != (#[trigger] reg[j]).0
    &&& forall|i: int| 0 <= i < reg.len() ==> roster_wf(#[trigger] reg[i].1)
}

/// No endpoint twice, and at least one.
pub open spec fn roster_wf(r: RosterView) -> bool {
    &&& r.len() > 0
    &&& forall|a: int, b: int| 0 <= a < r.len() && 0 <= b < r.len() && a != b ==> (#[trigger] r[a]).0 != (#[trigger] r[b]).0
}

/// The membership after an event, and what the event did.
pub open spec fn apply_event(reg: RegistryView, ev: MembershipEvent) -> (RegistryView, MembershipOutcome) {
    match ev {
        MembershipEvent::Join { lobby, endpoint, kind } => match find_lobby(reg, lobby@) {
            None => (reg.push((lobby@, seq![(endpoint, kind)])), MembershipOutcome::Joined { created: true }),
            Some(i) => match find_member(reg[i].1, endpoint) {
                Some(_) => (reg, MembershipOutcome::Dispatched { needs_reconcile: false }),
                None => (reg.update(i, (lobby@, reg[i].1.push((endpoint, kind)))), MembershipOutcome::Joined { created: false }),
            },
        },
        MembershipEvent::Leave { lobby, endpoint } => match find_lobby(reg, lobby@) {
            None => (reg, MembershipOutcome::Ignored),
            Some(i) => match find_member(reg[i].1, endpoint) {
                None => (reg, MembershipOutcome::Ignored),
                Some(j) => {
                    let rest = reg[i].1.remove(j);
                    if rest.len() == 0 {
                        (reg.remove(i), MembershipOutcome::Left { reaped: true })
                    } else {
                        (reg.update(i, (lobby@, rest)), MembershipOutcome::Left { reaped: false })
                    }
                },
            },
        },
        MembershipEvent::Other { lobby, endpoint, session_description } => match find_lobby(reg, lobby@) {
            None => (reg, MembershipOutcome::Ignored),
            Some(i) => match find_member(reg[i].1, endpoint) {
                None => (reg, MembershipOutcome::Ignored),
                Some(_) => (reg, MembershipOutcome::Dispatched { needs_reconcile: session_description }),
            },
        },
    }
}

/// The endpoints of one lobby.
#[derive(Debug)]
pub struct LobbyRoster {
    lobby: RtcLobbyId,
    members: Vec<(RtcEndpointId, EndpointKind)>,
}

/// The lobbies of an RTC core.
#[derive(Debug)]
pub struct LobbyRegistry {
    lobbies: Vec<LobbyRoster>,
}

impl LobbyRegistry {
    pub closed spec fn spec_lobbies(&self) -> RegistryView {
        self.lobbies@.map_values(|r: LobbyRoster| (r.lobby@, r.members@))
    }

    pub open spec fn wf(&self) -> bool {
        registry_wf(self.spec_lobbies())
    }

    pub fn new() -> (r: Self)
        ensures
            r.wf(),
            r.spec_lobbies() == Seq::<(Seq<u8>, RosterView)>::empty(),
    {
        let r = LobbyRegistry { lobbies: Vec::new() };
        assert(r.spec_lobbies() =~= Seq::<(Seq<u8>, RosterView)>::empty());
        r
    }

    fn lobby_position(&self, l: &RtcLobbyId) -> (r: Option<usize>)
        requires
            self.wf(),
        ensures
            match r {
                Some(i) => find_lobby(self.spec_lobbies(), l@) == Some(i as int),
                None => find_lobby(self.spec_lobbies(), l@) is None,
            },
    {
        let ghost reg = self.spec_lobbies();
        let mut i: usize = 0;
        while i < self.lobbies.len()
            invariant
                i <= self.lobbies@.len(),
                reg == self.spec_lobbies(),
                registry_wf(reg),
                forall|j: int| 0 <= j < i ==> (#[trigger] reg[j]).0 != l@,
            decreases self.lobbies@.len() - i,
        {
            if self.lobbies[i].lobby.same_as(l) {
                assert(reg[i as int].0 == l@);
                assert forall|k: int| 0 <= k < reg.len() && reg[k].0 == l@ implies k == i by {
                    if k != i {
                        assert(reg[k].0 != reg[i as int].0);
                    }
                }
                return Some(i);
            }
            i = i + 1;
        }
        None
    }

    /// Whether a lobby runs here.
    pub fn contains_lobby(&self, l: &RtcLobbyId) -> (b: bool)
        requires
            self.wf(),
        ensures
            b == find_lobby(self.spec_lobbies(), l@) is Some,
    {
        self.lobby_position(l).is_some()
    }

    /// How many endpoints lobby `l` holds (none where it does not run here).
    pub fn member_count(&self, l: &RtcLobbyId) -> (n: usize)
        requires
            self.wf(),
        ensures
            n == (match find_lobby(self.spec_lobbies(), l@) {
                Some(i) => self.spec_lobbies()[i].1.len(),
                None => 0,
            }),
    {
        match self.lobby_position(l) {
            Some(i) => self.lobbies[i].members.len(),
            None => 0,
        }
    }

    /// The number of lobbies.
    pub fn lobby_count(&self) -> (n: usize)
        ensures
            n == self.spec_lobbies().len(),
    {
        self.lobbies.len()
    }

    /// Applies one event to the membership.
    pub fn handle_event(&mut self, ev: MembershipEvent) -> (o: MembershipOutcome)
        requires
            old(self).wf(),
        ensures
            final(self).wf(),
            (final(self).spec_lobbies(), o) == apply_event(old(self).spec_lobbies(), ev),
    {
        let ghost reg = self.spec_lobbies();
        proof {
            lemma_apply_event_wf(reg, ev);
        }
        let (lobby, endpoint) = match ev {
            MembershipEvent::Join { lobby, endpoint, .. } => (lobby, endpoint),
            MembershipEvent::Leave { lobby, endpoint } => (lobby, endpoint),
            MembershipEvent::Other { lobby, endpoint, .. } => (lobby, endpoint),
        };
        let i = match self.lobby_position(&lobby) {
            Some(i) => i,
            None => {
                return match ev {
                    MembershipEvent::Join { kind, .. } => {
                        let mut members: Vec<(RtcEndpointId, EndpointKind)> = Vec::new();
                        members.push((endpoint, kind));
                        self.lobbies.push(LobbyRoster { lobby, members });
                        assert(self.spec_lobbies() =~= apply_event(reg, ev).0);
                        MembershipOutcome::Joined { created: true }
                    },
                    _ => MembershipOutcome::Ignored,
                };
            },
        };
        let ghost roster = reg[i as int].1;
        assert(self.lobbies@[i as int].members@ == roster);
        let n = self.lobbies[i].members.len();
        let mut j: usize = 0;
        while j < n && self.lobbies[i].members[j].0 != endpoint
            invariant
                j <= n,
                i < self.lobbies@.len(),
                n == self.lobbies@[i as int].members@.len(),
                roster == self.lobbies@[i as int].members@,
                forall|k: int| 0 <= k < j ==> (#[trigger] roster[k]).0 != endpoint,
            decreases n - j,
        {
            j = j + 1;
        }
        let found = j < n;
        proof {
            assert(roster_wf(roster));
            if found {
                assert(roster[j as int].0 == endpoint);
                assert forall|k: int| 0 <= k < roster.len() && roster[k].0 == endpoint implies k == j by {
                    if k != j {
                        assert(roster[k].0 != roster[j as int].0);
                    }
                }
                assert(find_member(roster, endpoint) == Some(j as int));
            } else {
                assert(find_member(roster, endpoint) is None);
            }
        }
        match ev {
            MembershipEvent::Join { kind, .. } => {
                if found {
                    MembershipOutcome::Dispatched { needs_reconcile: false }
                } else {
                    let mut r = self.lobbies.remove(i);
                    r.members.push((endpoint, kind));
                    self.lobbies.insert(i, r);
                    assert(self.spec_lobbies() =~= apply_event(reg, ev).0);
                    MembershipOutcome::Joined { created: false }
                }
            },
            MembershipEvent::Leave { .. } => {
                if !found {
                    MembershipOutcome::Ignored
                } else {
                    let mut r = self.lobbies.remove(i);
                    r.members.remove(j);
                    if r.members.len() == 0 {
                        assert(self.spec_lobbies() =~= apply_event(reg, ev).0);
                        MembershipOutcome::Left { reaped: true }
                    } else {
                        self.lobbies.insert(i, r);
                        assert(self.spec_lobbies() =~= apply_event(reg, ev).0);
                        MembershipOutcome::Left { reaped: false }
                    }
                }
            },
            MembershipEvent::Other { session_description, .. } => {
                if found {
                    MembershipOutcome::Dispatched { needs_reconcile: session_description }
                } else {
                    MembershipOutcome::Ignored
                }
            },
        }
    }
}

/// Every event keeps the membership well formed: no lobby twice, no endpoint twice in a
/// lobby, and no empty lobby left behind.
pub proof fn lemma_apply_event_wf(reg: RegistryView, ev: MembershipEvent)
    requires
        registry_wf(reg),
    ensures
        registry_wf(apply_event(reg, ev).0),
{
    let out = apply_event(reg, ev).0;
    match ev {
        MembershipEvent::Join { lobby, endpoint, kind } => match find_lobby(reg, lobby@) {
            None => {
                assert forall|i: int, j: int| 0 <= i < out.len() && 0 <= j < out.len() && i != j implies (#[trigger] out[i]).0 != (#[trigger] out[j]).0 by {
                    if i == reg.len() {
                        assert(out[j] == reg[j]);
                    } else if j == reg.len() {
                        assert(out[i] == reg[i]);
                    }
                }
                assert forall|i: int| 0 <= i < out.len() implies roster_wf(#[trigger] out[i].1) by {
                    if i < reg.len() {
                        assert(out[i] == reg[i]);
                    }
                }
            },
            Some(i0) => match find_member(reg[i0].1, endpoint) {
                Some(_) => {},
                None => {
                    let r = reg[i0].1.push((endpoint, kind));
                    assert(roster_wf(reg[i0].1));
                    assert forall|a: int, b: int| 0 <= a < r.len() && 0 <= b < r.len() && a != b implies (#[trigger] r[a]).0 != (#[trigger] r[b]).0 by {
                        if a == reg[i0].1.len() {
                            assert(r[b] == reg[i0].1[b]);
                        } else if b == reg[i0].1.len() {
                            assert(r[a] == reg[i0].1[a]);
                        }
                    }
                    assert forall|i: int| 0 <= i < out.len() implies roster_wf(#[trigger] out[i].1) by {
                        if i != i0 {
                            assert(out[i] == reg[i]);
                        }
                    }
                },
            },
        },
        MembershipEvent::Leave { lobby, endpoint } => match find_lobby(reg, lobby@) {
            None => {},
            Some(i0) => match find_member(reg[i0].1, endpoint) {
                None => {},
                Some(j0) => {
                    let rest = reg[i0].1.remove(j0);
                    assert(roster_wf(reg[i0].1));
                    if rest.len() == 0 {
                        assert forall|i: int, j: int| 0 <= i < out.len() && 0 <= j < out.len() && i != j implies (#[trigger] out[i]).0 != (#[trigger] out[j]).0 by {
                            let i2 = if i < i0 { i } else { i + 1 };
                            let j2 = if j < i0 { j } else { j + 1 };
                            assert(out[i] == reg[i2]);
                            assert(out[j] == reg[j2]);
                        }
                        assert forall|i: int| 0 <= i < out.len() implies roster_wf(#[trigger] out[i].1) by {
                            let i2 = if i < i0 { i } else { i + 1 };
                            assert(out[i] == reg[i2]);
                        }
                    } else {
                        assert forall|a: int, b: int| 0 <= a < rest.len() && 0 <= b < rest.len() && a != b implies (#[trigger] rest[a]).0 != (#[trigger] rest[b]).0 by {
                            let a2 = if a < j0 { a } else { a + 1 };
                            let b2 = if b < j0 { b } else { b + 1 };
                            assert(rest[a] == reg[i0].1[a2]);
                            assert(rest[b] == reg[i0].1[b2]);
                        }
                        assert forall|i: int| 0 <= i < out.len() implies roster_wf(#[trigger] out[i].1) by {
                            if i != i0 {
                                assert(out[i] == reg[i]);
                            }
                        }
                    }
                },
            },
        },
        MembershipEvent::Other { .. } => {},
    }
}

/// An endpoint that opens a new lobby and then leaves it takes the lobby with it: the
/// membership is what it was before.
pub proof fn lemma_join_then_leave_restores(reg: RegistryView, lobby: RtcLobbyId, endpoint: RtcEndpointId, kind: EndpointKind)
    requires
        registry_wf(reg),
        find_lobby(reg, lobby@) is None,
    ensures
        apply_event(
            apply_event(reg, MembershipEvent::Join { lobby, endpoint, kind }).0,
            MembershipEvent::Leave { lobby, endpoint },
        ) == (reg, MembershipOutcome::Left { reaped: true }),
{
    let mid = reg.push((lobby@, seq![(endpoint, kind)]));
    let n = reg.len() as int;
    assert(mid[n].0 == lobby@);
    assert forall|k: int| 0 <= k < mid.len() && mid[k].0 == lobby@ implies k == n by {
        if k < n {
            assert(mid[k] == reg[k]);
        }
    }
    assert(find_lobby(mid, lobby@) == Some(n));
    assert(mid[n].1[0].0 == endpoint);
    assert(find_member(mid[n].1, endpoint) == Some(0int));
    assert(mid[n].1.remove(0).len() == 0);
    assert(mid.remove(n) =~= reg);
}

} // verus!
