//! Identity of a peer connection endpoint of the RTC layer.
use vstd::prelude::*;
use crate::sfu::peer::PeerId;

verus! {

/// Which way media flows through an endpoint.
#[derive(Debug, Clone, Copy, PartialEq, Eq, Hash, Structural)]
pub enum EndpointKind {
    Publish,
    Subscribe,
}

/// How an endpoint kind is printed.
pub open spec fn endpoint_kind_text(kind: EndpointKind) -> Seq<char> {
    match kind {
        EndpointKind::Publish => "publish"@,
        EndpointKind::Subscribe => "subscribe"@,
    }
}

impl EndpointKind {
    pub fn is_publish(&self) -> (b: bool)
        ensures
            b == (*self == EndpointKind::Publish),
    {
        match self {
            EndpointKind::Publish => true,
            EndpointKind::Subscribe => false,
        }
    }

    pub fn is_subscribe(&self) -> (b: bool)
        ensures
            b == (*self == EndpointKind::Subscribe),
    {
        match self {
            EndpointKind::Publish => false,
            EndpointKind::Subscribe => true,
        }
    }

    /// The printed name of the kind (`publish` or `subscribe`).
    pub fn as_string(&self) -> (s: String)
        ensures
            s@ == endpoint_kind_text(*self),
    {
        match self {
            EndpointKind::Publish => String::from_str("publish"),
            EndpointKind::Subscribe => String::from_str("subscribe"),
        }
    }
}

/// A peer's endpoint of one kind.
#[derive(Debug, Clone, PartialEq, Eq, Hash)]
pub struct EndpointId {
    peer_id: PeerId,
    kind: EndpointKind,
}

impl EndpointId {
    /// The peer the endpoint belongs to.
    pub closed spec fn spec_peer(&self) -> Seq<char> {
        self.peer_id@
    }

    /// The endpoint's kind.
    pub closed spec fn spec_kind(&self) -> EndpointKind {
        self.kind
    }

    pub fn new(peer_id: PeerId, kind: EndpointKind) -> (e: Self)
        ensures
            e.spec_peer() == peer_id@,
            e.spec_kind() == kind,
    {
        EndpointId { peer_id, kind }
    }

    /// The printed form `peer_id:kind`.
    pub fn as_string(&self) -> (s: String)
        ensures
            s@ == self.spec_peer() + ":"@ + endpoint_kind_text(self.spec_kind()),
    {
        let s = self.peer_id.as_user_uuid();
        let s = s.concat(":");
        let kind = self.kind.as_string();
        s.concat(kind.as_str())
    }

    pub fn as_peer_id(&self) -> (p: PeerId)
        ensures
            p@ == self.spec_peer(),
    {
        self.peer_id.duplicate()
    }

    pub fn as_kind(&self) -> (k: EndpointKind)
        ensures
            k == self.spec_kind(),
    {
        self.kind
    }
}

} // verus!
