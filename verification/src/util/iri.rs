//! The IRIs under which the federation endpoints of an account are published.
use vstd::prelude::*;

verus! {

/// `https` with TLS, `http` without.
pub open spec fn scheme_spec(tls: bool) -> Seq<char> {
    if tls { "https"@ } else { "http"@ }
}

/// `{scheme}://{domain}/federation/accounts/{actor}`.
pub open spec fn actor_iri_spec(actor: Seq<char>, domain: Seq<char>, tls: bool) -> Seq<char> {
    scheme_spec(tls) + "://"@ + domain + "/federation/accounts/"@ + actor
}

/// `{scheme}://{domain}/federation/inbox`.
pub open spec fn shared_inbox_iri_spec(domain: Seq<char>, tls: bool) -> Seq<char> {
    scheme_spec(tls) + "://"@ + domain + "/federation/inbox"@
}

/// The IRIs of one account.
#[derive(Debug, Clone)]
pub struct IriSet {
    pub actor: String,
    pub following: String,
    pub followers: String,
    pub outbox: String,
    pub inbox: String,
    pub shared_inbox: String,
}

impl IriSet {
    /// The IRIs of `actor` on `domain`: the collections hang below the actor's IRI.
    pub fn new(actor: &str, domain: &str, tls: bool) -> (r: Self)
        ensures
            r.actor@ == actor_iri_spec(actor@, domain@, tls),
            r.following@ == actor_iri_spec(actor@, domain@, tls) + "/following"@,
            r.followers@ == actor_iri_spec(actor@, domain@, tls) + "/followers"@,
            r.outbox@ == actor_iri_spec(actor@, domain@, tls) + "/outbox"@,
            r.inbox@ == actor_iri_spec(actor@, domain@, tls) + "/inbox"@,
            r.shared_inbox@ == shared_inbox_iri_spec(domain@, tls),
    {
        let actor_iri = build_actor_iri(actor, domain, tls);
        let following = build_following_iri(actor, domain, tls);
        let followers = build_followers_iri(actor, domain, tls);
        let outbox = build_outbox_iri(actor, domain, tls);
        let inbox = build_inbox_iri(actor, domain, tls);
        let shared_inbox = build_shared_inbox_iri(domain, tls);
        IriSet { actor: actor_iri, following, followers, outbox, inbox, shared_inbox }
    }
}

fn scheme(tls: bool) -> (s: String)
    ensures
        s@ == scheme_spec(tls),
{
    if tls {
        String::from_str("https")
    } else {
        String::from_str("http")
    }
}

/// The IRI of an account.
pub fn build_actor_iri(actor: &str, domain: &str, tls: bool) -> (s: String)
    ensures
        s@ == actor_iri_spec(actor@, domain@, tls),
{
    let mut s = scheme(tls);
    s.append("://");
    s.append(domain);
    s.append("/federation/accounts/");
    s.append(actor);
    s
}

/// The IRI of the accounts that an account follows.
pub fn build_following_iri(actor: &str, domain: &str, tls: bool) -> (s: String)
    ensures
        s@ == actor_iri_spec(actor@, domain@, tls) + "/following"@,
{
    let mut s = build_actor_iri(actor, domain, tls);
    s.append("/following");
    s
}

/// The IRI of an account's followers.
pub fn build_followers_iri(actor: &str, domain: &str, tls: bool) -> (s: String)
    ensures
        s@ == actor_iri_spec(actor@, domain@, tls) + "/followers"@,
{
    let mut s = build_actor_iri(actor, domain, tls);
    s.append("/followers");
    s
}

/// The IRI of an account's inbox.
pub fn build_inbox_iri(actor: &str, domain: &str, tls: bool) -> (s: String)
    ensures
        s@ == actor_iri_spec(actor@, domain@, tls) + "/inbox"@,
{
    let mut s = build_actor_iri(actor, domain, tls);
    s.append("/inbox");
    s
}

/// The IRI of an account's outbox.
pub fn build_outbox_iri(actor: &str, domain: &str, tls: bool) -> (s: String)
    ensures
        s@ == actor_iri_spec(actor@, domain@, tls) + "/outbox"@,
{
    let mut s = build_actor_iri(actor, domain, tls);
    s.append("/outbox");
    s
}

/// The inbox shared by all accounts of a domain.
pub fn build_shared_inbox_iri(domain: &str, tls: bool) -> (s: String)
    ensures
        s@ == shared_inbox_iri_spec(domain@, tls),
{
    let mut s = scheme(tls);
    s.append("://");
    s.append(domain);
    s.append("/federation/inbox");
    s
}

} // verus!
