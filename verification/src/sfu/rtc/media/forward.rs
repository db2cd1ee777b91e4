//! The `(publisher mid) x (subscriber)` forwarding matrix, plus the wire-level routing
//! index that maps a publisher's RTP SSRC to its forward key.
//!
//! For each publish track the matrix records which subscribers already have a
//! forwarding sender and the id of that sender on the subscriber's connection. This is
//! the dedup state that makes track extraction idempotent: a publisher re-offering the
//! same tracks must not add duplicate senders. The SSRC index turns an inbound packet,
//! identified on the wire only by its SSRC, into the senders it fans out to.
use crate::sfu::endpoint::RtcEndpointId;
use crate::sfu::peer::PeerId;
use vstd::prelude::*;

verus! {

/// The synchronisation source of an RTP stream.
pub type Ssrc = u32;

/// Identity of an RTP sender on a subscriber's peer connection.
#[derive(Debug, Clone, Copy, PartialEq, Eq, Hash, Structural)]
pub struct RtpSenderId(pub usize);

impl RtpSenderId {
    pub fn from(id: usize) -> (s: RtpSenderId)
        ensures
            s.0 == id,
    {
        RtpSenderId(id)
    }
}

/// Identity of one publishing track being forwarded: the publishing endpoint plus the
/// mid of its m-line. The mid is stable across the publisher's renegotiations, so it
/// (not the SSRC) is the dedup key of the forwarding graph.
#[derive(Debug, Clone, PartialEq, Eq, Hash)]
pub struct ForwardKey {
    pub publisher_peer: PeerId,
    pub publish_endpoint: RtcEndpointId,
    pub mid: String,
}

/// A forward key as plain values.
pub struct ForwardKeyView {
    pub publisher_peer: Seq<char>,
    pub publish_endpoint: RtcEndpointId,
    pub mid: Seq<char>,
}

impl View for ForwardKey {
    type V = ForwardKeyView;

    open spec fn view(&self) -> ForwardKeyView {
        ForwardKeyView {
            publisher_peer: self.publisher_peer@,
            publish_endpoint: self.publish_endpoint,
            mid: self.mid@,
        }
    }
}

impl ForwardKey {
    /// A copy of this key.
    pub fn duplicate(&self) -> (k: ForwardKey)
        ensures
            k@ == self@,
    {
        ForwardKey {
            publisher_peer: self.publisher_peer.duplicate(),
            publish_endpoint: self.publish_endpoint,
            mid: self.mid.clone(),
        }
    }

    /// Whether two keys name the same track.
    pub fn same_as(&self, other: &ForwardKey) -> (b: bool)
        ensures
            b == (self@ == other@),
    {
        self.publish_endpoint == other.publish_endpoint && self.mid == other.mid
            && self.publisher_peer.same_as(&other.publisher_peer)
    }
}

/// How one RTP header extension id of the publisher is rewritten for a subscriber.
#[derive(Debug, Clone, Copy, PartialEq, Eq, Structural)]
pub struct HeaderExtensionRewrite {
    pub publisher_id: u8,
    pub subscriber_id: u8,
    pub rewrite_mid: bool,
}

/// One subscriber's forwarding sender for a published track.
#[derive(Debug, Clone, PartialEq, Eq)]
pub struct ForwardTarget {
    pub subscriber_peer: PeerId,
    pub subscribe_endpoint: RtcEndpointId,
    pub sender_id: RtpSenderId,
    /// Publisher payload type to subscriber payload type.
    pub payload_types: Vec<(u8, u8)>,
    pub extension_rewrites: Vec<HeaderExtensionRewrite>,
    pub subscriber_mid: Option<String>,
}

/// A forward target as plain values.
pub struct ForwardTargetView {
    pub subscriber_peer: Seq<char>,
    pub subscribe_endpoint: RtcEndpointId,
    pub sender_id: RtpSenderId,
    pub payload_types: Seq<(u8, u8)>,
    pub extension_rewrites: Seq<HeaderExtensionRewrite>,
    pub subscriber_mid: Option<Seq<char>>,
}

/// The view of an optional string.
pub open spec fn opt_str_view(s: Option<String>) -> Option<Seq<char>> {
    match s {
        Some(s) => Some(s@),
        None => None,
    }
}

impl View for ForwardTarget {
    type V = ForwardTargetView;

    open spec fn view(&self) -> ForwardTargetView {
        ForwardTargetView {
            subscriber_peer: self.subscriber_peer@,
            subscribe_endpoint: self.subscribe_endpoint,
            sender_id: self.sender_id,
            payload_types: self.payload_types@,
            extension_rewrites: self.extension_rewrites@,
            subscriber_mid: opt_str_view(self.subscriber_mid),
        }
    }
}

fn duplicate_opt_string(s: &Option<String>) -> (r: Option<String>)
    ensures
        opt_str_view(r) == opt_str_view(*s),
{
    match s {
        Some(s) => Some(s.clone()),
        None => None,
    }
}

fn duplicate_pairs(v: &Vec<(u8, u8)>) -> (r: Vec<(u8, u8)>)
    ensures
        r@ == v@,
{
    let mut r: Vec<(u8, u8)> = Vec::new();
    let mut i: usize = 0;
    while i < v.len()
        invariant
            i <= v@.len(),
            r@ == v@.subrange(0, i as int),
        decreases v@.len() - i,
    {
        r.push(v[i]);
        i = i + 1;
    }
    assert(r@ =~= v@);
    r
}

fn duplicate_rewrites(v: &Vec<HeaderExtensionRewrite>) -> (r: Vec<HeaderExtensionRewrite>)
    ensures
        r@ == v@,
{
    let mut r: Vec<HeaderExtensionRewrite> = Vec::new();
    let mut i: usize = 0;
    while i < v.len()
        invariant
            i <= v@.len(),
            r@ == v@.subrange(0, i as int),
        decreases v@.len() - i,
    {
        r.push(v[i]);
        i = i + 1;
    }
    assert(r@ =~= v@);
    r
}

impl ForwardTarget {
    /// A copy of this target.
    pub fn duplicate(&self) -> (t: ForwardTarget)
        ensures
            t@ == self@,
    {
        ForwardTarget {
            subscriber_peer: self.subscriber_peer.duplicate(),
            subscribe_endpoint: self.subscribe_endpoint,
            sender_id: self.sender_id,
            payload_types: duplicate_pairs(&self.payload_types),
            extension_rewrites: duplicate_rewrites(&self.extension_rewrites),
            subscriber_mid: duplicate_opt_string(&self.subscriber_mid),
        }
    }

    /// The subscriber payload type that publisher payload type `pt` is rewritten to.
    pub fn outbound_payload_type(&self, pt: u8) -> (r: Option<u8>)
        ensures
            r == pair_lookup(self.payload_types@, pt),
    {
        let mut i: usize = 0;
        while i < self.payload_types.len()
            invariant
                i <= self.payload_types@.len(),
                forall|j: int| 0 <= j < i ==> (#[trigger] self.payload_types@[j]).0 != pt,
            decreases self.payload_types@.len() - i,
        {
            if self.payload_types[i].0 == pt {
                assert(pair_index(self.payload_types@, pt, i as int));
                return Some(self.payload_types[i].1);
            }
            i = i + 1;
        }
        None
    }
}

/// `i` is the first position of a pair whose first component is `k`.
pub open spec fn pair_index(s: Seq<(u8, u8)>, k: u8, i: int) -> bool {
    0 <= i < s.len() && s[i].0 == k && forall|j: int| 0 <= j < i ==> (#[trigger] s[j]).0 != k
}

/// The value of the first pair whose first component is `k`.
pub open spec fn pair_lookup(s: Seq<(u8, u8)>, k: u8) -> Option<u8> {
    if exists|i: int| pair_index(s, k, i) {
        Some(s[choose|i: int| pair_index(s, k, i)].1)
    } else {
        None
    }
}

// ---------------------------------------------------------------------------------------
// Spec model: ordered association lists with unique keys.
// ---------------------------------------------------------------------------------------
/// `i` holds a target of subscriber `peer`.
pub open spec fn peer_at(ts: Seq<ForwardTargetView>, peer: Seq<char>, i: int) -> bool {
    0 <= i < ts.len() && ts[i].subscriber_peer == peer
}

/// Where subscriber `peer`'s target is.
pub open spec fn find_peer(ts: Seq<ForwardTargetView>, peer: Seq<char>) -> Option<int> {
    if exists|i: int| peer_at(ts, peer, i) {
        Some(choose|i: int| peer_at(ts, peer, i))
    } else {
        None
    }
}

/// No subscriber has two targets.
pub open spec fn peers_unique(ts: Seq<ForwardTargetView>) -> bool {
    forall|i: int, j: int|
        0 <= i < ts.len() && 0 <= j < ts.len() && i != j ==> #[trigger] ts[i].subscriber_peer
            != #[trigger] ts[j].subscriber_peer
}

/// `ts` with `t` in place of the target of the same subscriber, or with `t` added.
pub open spec fn upsert_target(ts: Seq<ForwardTargetView>, t: ForwardTargetView) -> Seq<
    ForwardTargetView,
> {
    match find_peer(ts, t.subscriber_peer) {
        Some(i) => ts.update(i, t),
        None => ts.push(t),
    }
}

/// One row of the matrix: a published track and its subscribers' targets.
pub type EntryView = (ForwardKeyView, Seq<ForwardTargetView>);

/// `i` holds the row of `k`.
pub open spec fn key_at(es: Seq<EntryView>, k: ForwardKeyView, i: int) -> bool {
    0 <= i < es.len() && es[i].0 == k
}

/// Where the row of `k` is.
pub open spec fn find_key(es: Seq<EntryView>, k: ForwardKeyView) -> Option<int> {
    if exists|i: int| key_at(es, k, i) {
        Some(choose|i: int| key_at(es, k, i))
    } else {
        None
    }
}

/// No track has two rows, and no row has two targets for one subscriber.
pub open spec fn entries_wf(es: Seq<EntryView>) -> bool {
    &&& forall|i: int, j: int|
        0 <= i < es.len() && 0 <= j < es.len() && i != j ==> #[trigger] es[i].0
            != #[trigger] es[j].0
    &&& forall|i: int| 0 <= i < es.len() ==> peers_unique(#[trigger] es[i].1)
}

/// `i` holds the binding of `ssrc`.
pub open spec fn ssrc_at(idx: Seq<(Ssrc, ForwardKeyView)>, ssrc: Ssrc, i: int) -> bool {
    0 <= i < idx.len() && idx[i].0 == ssrc
}

/// Where the binding of `ssrc` is.
pub open spec fn find_ssrc(idx: Seq<(Ssrc, ForwardKeyView)>, ssrc: Ssrc) -> Option<int> {
    if exists|i: int| ssrc_at(idx, ssrc, i) {
        Some(choose|i: int| ssrc_at(idx, ssrc, i))
    } else {
        None
    }
}

/// No SSRC is bound twice.
pub open spec fn ssrcs_unique(idx: Seq<(Ssrc, ForwardKeyView)>) -> bool {
    forall|i: int, j: int|
        0 <= i < idx.len() && 0 <= j < idx.len() && i != j ==> #[trigger] idx[i].0
            != #[trigger] idx[j].0
}

/// Where a packet with `ssrc` goes: the track it is bound to and that track's targets,
/// if the SSRC is bound and its track has a row.
pub open spec fn route_spec(es: Seq<EntryView>, idx: Seq<(Ssrc, ForwardKeyView)>, ssrc: Ssrc) -> Option<
    (ForwardKeyView, Seq<ForwardTargetView>),
> {
    match find_ssrc(idx, ssrc) {
        Some(b) => match find_key(es, idx[b].1) {
            Some(i) => Some((idx[b].1, es[i].1)),
            None => None,
        },
        None => None,
    }
}

/// The sender that forwards track `k` to subscriber `peer`, if the matrix has one.
pub open spec fn sender_lookup(es: Seq<EntryView>, k: ForwardKeyView, peer: Seq<char>) -> Option<RtpSenderId> {
    match find_key(es, k) {
        Some(i) => match find_peer(es[i].1, peer) {
            Some(j) => Some(es[i].1[j].sender_id),
            None => None,
        },
        None => None,
    }
}

/// The matrix after recording target `t` for track `k`.
pub open spec fn insert_spec(es: Seq<EntryView>, k: ForwardKeyView, t: ForwardTargetView) -> Seq<
    EntryView,
> {
    match find_key(es, k) {
        Some(i) => es.update(i, (k, upsert_target(es[i].1, t))),
        None => es.push((k, seq![t])),
    }
}

/// The SSRC index after binding `ssrc` to `k`.
pub open spec fn bind_spec(idx: Seq<(Ssrc, ForwardKeyView)>, ssrc: Ssrc, k: ForwardKeyView) -> Seq<
    (Ssrc, ForwardKeyView),
> {
    match find_ssrc(idx, ssrc) {
        Some(i) => idx.update(i, (ssrc, k)),
        None => idx.push((ssrc, k)),
    }
}

/// Whether a forwarding is still wanted: its track is desired and its publisher live,
/// its subscriber is live, and it does not forward a peer to itself.
pub open spec fn keep_target(
    k: ForwardKeyView,
    t: ForwardTargetView,
    desired: Set<ForwardKeyView>,
    live_publishers: Set<RtcEndpointId>,
    live_subscribers: Set<RtcEndpointId>,
) -> bool {
    &&& desired.contains(k)
    &&& live_publishers.contains(k.publish_endpoint)
    &&& live_subscribers.contains(t.subscribe_endpoint)
    &&& k.publisher_peer != t.subscriber_peer
}

/// The targets of row `k` that are kept.
pub open spec fn kept_targets(
    k: ForwardKeyView,
    ts: Seq<ForwardTargetView>,
    desired: Set<ForwardKeyView>,
    pubs: Set<RtcEndpointId>,
    subs: Set<RtcEndpointId>,
) -> Seq<ForwardTargetView>
    decreases ts.len(),
{
    if ts.len() == 0 {
        Seq::empty()
    } else {
        let rest = kept_targets(k, ts.drop_last(), desired, pubs, subs);
        if keep_target(k, ts.last(), desired, pubs, subs) {
            rest.push(ts.last())
        } else {
            rest
        }
    }
}

/// The `(subscribe endpoint, sender)` of each target of row `k` that is dropped.
pub open spec fn dropped_targets(
    k: ForwardKeyView,
    ts: Seq<ForwardTargetView>,
    desired: Set<ForwardKeyView>,
    pubs: Set<RtcEndpointId>,
    subs: Set<RtcEndpointId>,
) -> Seq<(RtcEndpointId, RtpSenderId)>
    decreases ts.len(),
{
    if ts.len() == 0 {
        Seq::empty()
    } else {
        let rest = dropped_targets(k, ts.drop_last(), desired, pubs, subs);
        if keep_target(k, ts.last(), desired, pubs, subs) {
            rest
        } else {
            rest.push((ts.last().subscribe_endpoint, ts.last().sender_id))
        }
    }
}

/// The matrix after dropping unwanted targets and the rows left empty.
pub open spec fn retain_entries(
    es: Seq<EntryView>,
    desired: Set<ForwardKeyView>,
    pubs: Set<RtcEndpointId>,
    subs: Set<RtcEndpointId>,
) -> Seq<EntryView>
    decreases es.len(),
{
    if es.len() == 0 {
        Seq::empty()
    } else {
        let rest = retain_entries(es.drop_last(), desired, pubs, subs);
        let k = es.last().0;
        let kept = kept_targets(k, es.last().1, desired, pubs, subs);
        if kept.len() > 0 {
            rest.push((k, kept))
        } else {
            rest
        }
    }
}

/// Every dropped target, row by row.
pub open spec fn retain_dropped(
    es: Seq<EntryView>,
    desired: Set<ForwardKeyView>,
    pubs: Set<RtcEndpointId>,
    subs: Set<RtcEndpointId>,
) -> Seq<(RtcEndpointId, RtpSenderId)>
    decreases es.len(),
{
    if es.len() == 0 {
        Seq::empty()
    } else {
        retain_dropped(es.drop_last(), desired, pubs, subs) + dropped_targets(
            es.last().0,
            es.last().1,
            desired,
            pubs,
            subs,
        )
    }
}

/// The bindings whose track still has a row.
pub open spec fn retain_ssrcs(idx: Seq<(Ssrc, ForwardKeyView)>, es: Seq<EntryView>) -> Seq<
    (Ssrc, ForwardKeyView),
>
    decreases idx.len(),
{
    if idx.len() == 0 {
        Seq::empty()
    } else {
        let rest = retain_ssrcs(idx.drop_last(), es);
        if find_key(es, idx.last().1) is Some {
            rest.push(idx.last())
        } else {
            rest
        }
    }
}

// ---------------------------------------------------------------------------------------
// Lemmas about the model.
// ---------------------------------------------------------------------------------------
pub(crate) proof fn lemma_find_peer(ts: Seq<ForwardTargetView>, peer: Seq<char>, i: int)
    requires
        peers_unique(ts),
        peer_at(ts, peer, i),
    ensures
        find_peer(ts, peer) == Some(i),
{
    let c = choose|j: int| peer_at(ts, peer, j);
    assert(peer_at(ts, peer, c));
    if c != i {
        assert(ts[c].subscriber_peer != ts[i].subscriber_peer);
    }
}

pub(crate) proof fn lemma_find_key(es: Seq<EntryView>, k: ForwardKeyView, i: int)
    requires
        entries_wf(es),
        key_at(es, k, i),
    ensures
        find_key(es, k) == Some(i),
{
    let c = choose|j: int| key_at(es, k, j);
    assert(key_at(es, k, c));
    if c != i {
        assert(es[c].0 != es[i].0);
    }
}

proof fn lemma_find_ssrc(idx: Seq<(Ssrc, ForwardKeyView)>, ssrc: Ssrc, i: int)
    requires
        ssrcs_unique(idx),
        ssrc_at(idx, ssrc, i),
    ensures
        find_ssrc(idx, ssrc) == Some(i),
{
    let c = choose|j: int| ssrc_at(idx, ssrc, j);
    assert(ssrc_at(idx, ssrc, c));
    if c != i {
        assert(idx[c].0 != idx[i].0);
    }
}

pub(crate) proof fn lemma_upsert_unique(ts: Seq<ForwardTargetView>, t: ForwardTargetView)
    requires
        peers_unique(ts),
    ensures
        peers_unique(upsert_target(ts, t)),
        upsert_target(ts, t).len() > 0,
{
    match find_peer(ts, t.subscriber_peer) {
        Some(i) => {
            assert(peer_at(ts, t.subscriber_peer, i));
        },
        None => {
            let r = ts.push(t);
            assert forall|i: int, j: int|
                0 <= i < r.len() && 0 <= j < r.len() && i != j implies #[trigger] r[i].subscriber_peer
                != #[trigger] r[j].subscriber_peer by {
                if i == ts.len() as int {
                    assert(!peer_at(ts, t.subscriber_peer, j));
                } else if j == ts.len() as int {
                    assert(!peer_at(ts, t.subscriber_peer, i));
                }
            }
        },
    }
}

pub(crate) proof fn lemma_insert_wf(es: Seq<EntryView>, k: ForwardKeyView, t: ForwardTargetView)
    requires
        entries_wf(es),
    ensures
        entries_wf(insert_spec(es, k, t)),
{
    let r = insert_spec(es, k, t);
    match find_key(es, k) {
        Some(i) => {
            assert(key_at(es, k, i));
            lemma_upsert_unique(es[i].1, t);
            assert forall|a: int| 0 <= a < r.len() implies peers_unique(#[trigger] r[a].1) by {
                if a != i {
                    assert(r[a] == es[a]);
                }
            }
        },
        None => {
            assert forall|a: int, b: int|
                0 <= a < r.len() && 0 <= b < r.len() && a != b implies #[trigger] r[a].0
                != #[trigger] r[b].0 by {
                if a == es.len() as int {
                    assert(!key_at(es, k, b));
                } else if b == es.len() as int {
                    assert(!key_at(es, k, a));
                }
            }
            assert forall|a: int| 0 <= a < r.len() implies peers_unique(#[trigger] r[a].1) by {
                if a == es.len() as int {
                    assert(r[a].1 =~= seq![t]);
                } else {
                    assert(r[a] == es[a]);
                }
            }
        },
    }
}

proof fn lemma_bind_unique(idx: Seq<(Ssrc, ForwardKeyView)>, ssrc: Ssrc, k: ForwardKeyView)
    requires
        ssrcs_unique(idx),
    ensures
        ssrcs_unique(bind_spec(idx, ssrc, k)),
{
    let r = bind_spec(idx, ssrc, k);
    match find_ssrc(idx, ssrc) {
        Some(i) => {
            assert(ssrc_at(idx, ssrc, i));
        },
        None => {
            assert forall|a: int, b: int|
                0 <= a < r.len() && 0 <= b < r.len() && a != b implies #[trigger] r[a].0
                != #[trigger] r[b].0 by {
                if a == idx.len() as int {
                    assert(!ssrc_at(idx, ssrc, b));
                } else if b == idx.len() as int {
                    assert(!ssrc_at(idx, ssrc, a));
                }
            }
        },
    }
}

/// Filtering a row's targets a second time with the same sets keeps them all.
proof fn lemma_kept_targets_twice(
    k: ForwardKeyView,
    ts: Seq<ForwardTargetView>,
    d: Set<ForwardKeyView>,
    p: Set<RtcEndpointId>,
    s: Set<RtcEndpointId>,
)
    ensures
        kept_targets(k, kept_targets(k, ts, d, p, s), d, p, s) == kept_targets(k, ts, d, p, s),
        dropped_targets(k, kept_targets(k, ts, d, p, s), d, p, s) == Seq::<(RtcEndpointId, RtpSenderId)>::empty(),
    decreases ts.len(),
{
    if ts.len() > 0 {
        let rest = kept_targets(k, ts.drop_last(), d, p, s);
        lemma_kept_targets_twice(k, ts.drop_last(), d, p, s);
        if keep_target(k, ts.last(), d, p, s) {
            let kt = rest.push(ts.last());
            assert(kt.drop_last() =~= rest);
            assert(kt.last() == ts.last());
        }
    }
}

/// Retaining a second time with the same sets keeps every row and drops nothing.
proof fn lemma_retain_entries_twice(
    es: Seq<EntryView>,
    d: Set<ForwardKeyView>,
    p: Set<RtcEndpointId>,
    s: Set<RtcEndpointId>,
)
    ensures
        retain_entries(retain_entries(es, d, p, s), d, p, s) == retain_entries(es, d, p, s),
        retain_dropped(retain_entries(es, d, p, s), d, p, s) == Seq::<(RtcEndpointId, RtpSenderId)>::empty(),
    decreases es.len(),
{
    if es.len() > 0 {
        let r = retain_entries(es.drop_last(), d, p, s);
        let k = es.last().0;
        let kept = kept_targets(k, es.last().1, d, p, s);
        lemma_retain_entries_twice(es.drop_last(), d, p, s);
        lemma_kept_targets_twice(k, es.last().1, d, p, s);
        if kept.len() > 0 {
            let re = r.push((k, kept));
            assert(re.drop_last() =~= r);
            assert(re.last() == (k, kept));
            assert(retain_dropped(re, d, p, s) =~= Seq::<(RtcEndpointId, RtpSenderId)>::empty());
        }
    }
}

/// Pruning the SSRC bindings a second time against the same rows keeps them all.
proof fn lemma_retain_ssrcs_twice(idx: Seq<(Ssrc, ForwardKeyView)>, es: Seq<EntryView>)
    ensures
        retain_ssrcs(retain_ssrcs(idx, es), es) == retain_ssrcs(idx, es),
    decreases idx.len(),
{
    if idx.len() > 0 {
        let rest = retain_ssrcs(idx.drop_last(), es);
        lemma_retain_ssrcs_twice(idx.drop_last(), es);
        if find_key(es, idx.last().1) is Some {
            let r = rest.push(idx.last());
            assert(r.drop_last() =~= rest);
            assert(r.last() == idx.last());
        }
    }
}

/// A second `retain` with the same desired tracks and live endpoints changes nothing and
/// reports nothing: every row and every SSRC binding that the first one left stays, and
/// no sender is dropped.
pub proof fn lemma_retain_twice_changes_nothing(
    rows: Seq<EntryView>,
    bindings: Seq<(Ssrc, ForwardKeyView)>,
    desired: Set<ForwardKeyView>,
    live_publishers: Set<RtcEndpointId>,
    live_subscribers: Set<RtcEndpointId>,
)
    ensures
        ({
            let rows1 = retain_entries(rows, desired, live_publishers, live_subscribers);
            let bindings1 = retain_ssrcs(bindings, rows1);
            &&& retain_entries(rows1, desired, live_publishers, live_subscribers) == rows1
            &&& retain_dropped(rows1, desired, live_publishers, live_subscribers) == Seq::<(RtcEndpointId, RtpSenderId)>::empty()
            &&& retain_ssrcs(bindings1, rows1) == bindings1
        }),
{
    let rows1 = retain_entries(rows, desired, live_publishers, live_subscribers);
    lemma_retain_entries_twice(rows, desired, live_publishers, live_subscribers);
    lemma_retain_ssrcs_twice(bindings, rows1);
}

/// Some row of `es` holds target `x` under track `k`.
pub open spec fn holds_target(es: Seq<EntryView>, k: ForwardKeyView, x: ForwardTargetView) -> bool {
    exists|i: int| 0 <= i < es.len() && es[i].0 == k && (#[trigger] es[i].1).contains(x)
}

proof fn lemma_kept_targets_contains(
    k: ForwardKeyView,
    ts: Seq<ForwardTargetView>,
    d: Set<ForwardKeyView>,
    p: Set<RtcEndpointId>,
    s: Set<RtcEndpointId>,
    x: ForwardTargetView,
)
    ensures
        kept_targets(k, ts, d, p, s).contains(x) == (ts.contains(x) && keep_target(k, x, d, p, s)),
    decreases ts.len(),
{
    if ts.len() > 0 {
        let init = ts.drop_last();
        let rest = kept_targets(k, init, d, p, s);
        lemma_kept_targets_contains(k, init, d, p, s, x);
        assert(init.push(ts.last()) =~= ts);
        if ts.contains(x) && x != ts.last() {
            let j = choose|j: int| 0 <= j < ts.len() && ts[j] == x;
            assert(j < init.len());
            assert(init[j] == x);
        }
        if init.contains(x) {
            let j = choose|j: int| 0 <= j < init.len() && init[j] == x;
            assert(ts[j] == x);
        }
        if keep_target(k, ts.last(), d, p, s) {
            let kt = rest.push(ts.last());
            assert(kt[rest.len() as int] == ts.last());
            if rest.contains(x) {
                let j = choose|j: int| 0 <= j < rest.len() && rest[j] == x;
                assert(kt[j] == x);
            }
            if kt.contains(x) && x != ts.last() {
                let j = choose|j: int| 0 <= j < kt.len() && kt[j] == x;
                assert(rest[j] == x);
            }
        }
    }
}

/// `retain` keeps a target if and only if it is still wanted: after it, track `k` holds
/// target `x` exactly when it held `x` before and `x` is to be kept (the track is
/// desired, its publisher and the target's subscriber are live, and the target does not
/// go back to the publishing peer).
pub proof fn lemma_retain_keeps_exactly_the_wanted(
    rows: Seq<EntryView>,
    desired: Set<ForwardKeyView>,
    live_publishers: Set<RtcEndpointId>,
    live_subscribers: Set<RtcEndpointId>,
    k: ForwardKeyView,
    x: ForwardTargetView,
)
    ensures
        holds_target(retain_entries(rows, desired, live_publishers, live_subscribers), k, x) == (
        holds_target(rows, k, x) && keep_target(k, x, desired, live_publishers, live_subscribers)),
    decreases rows.len(),
{
    let d = desired;
    let p = live_publishers;
    let s = live_subscribers;
    if rows.len() > 0 {
        let init = rows.drop_last();
        let r = retain_entries(init, d, p, s);
        let kl = rows.last().0;
        let kept = kept_targets(kl, rows.last().1, d, p, s);
        let out = retain_entries(rows, d, p, s);
        lemma_retain_keeps_exactly_the_wanted(init, d, p, s, k, x);
        lemma_kept_targets_contains(kl, rows.last().1, d, p, s, x);
        let n = rows.len() - 1;
        assert(rows[n] == rows.last());
        // Rows of `init` are rows of `rows`, at the same place.
        if holds_target(init, k, x) {
            let i = choose|i: int| 0 <= i < init.len() && init[i].0 == k && (#[trigger] init[i].1).contains(x);
            assert(rows[i] == init[i]);
        }
        if holds_target(rows, k, x) && !holds_target(init, k, x) {
            let i = choose|i: int| 0 <= i < rows.len() && rows[i].0 == k && (#[trigger] rows[i].1).contains(x);
            if i < n {
                assert(init[i] == rows[i]);
                assert(init[i].1.contains(x));
            }
            assert(i == n);
            assert(kl == k && rows.last().1.contains(x));
        }
        if holds_target(r, k, x) {
            assert(holds_target(init, k, x));
            let i = choose|i: int| 0 <= i < init.len() && init[i].0 == k && (#[trigger] init[i].1).contains(x);
            assert(rows[i] == init[i]);
            assert(rows[i].1.contains(x));
            assert(holds_target(rows, k, x));
        }
        if kept.len() > 0 {
            assert(out == r.push((kl, kept)));
            if holds_target(r, k, x) {
                let i = choose|i: int| 0 <= i < r.len() && r[i].0 == k && (#[trigger] r[i].1).contains(x);
                assert(out[i] == r[i]);
                assert(out[i].1.contains(x));
            }
            if kl == k && kept.contains(x) {
                assert(out[r.len() as int] == (kl, kept));
                assert(out[r.len() as int].1.contains(x));
                assert(rows[n].1.contains(x));
                assert(holds_target(rows, k, x));
                assert(holds_target(out, k, x));
            }
            if holds_target(out, k, x) && !holds_target(r, k, x) {
                let i = choose|i: int| 0 <= i < out.len() && out[i].0 == k && (#[trigger] out[i].1).contains(x);
                if i < r.len() {
                    assert(r[i] == out[i]);
                }
                assert(i == r.len());
            }
        } else {
            assert(out == r);
            if kl == k && rows.last().1.contains(x) && keep_target(k, x, d, p, s) {
                let j = choose|j: int| 0 <= j < kept.len() && kept[j] == x;
            }
        }
    }
}

/// Binding `ssrc` to track `k` makes `ssrc` route to `k` and its targets (once `k` has a
/// row), whatever `ssrc` was bound to before, and leaves the route of every other SSRC
/// as it was. So binding several SSRCs to one track (simulcast layers) routes each of
/// them to it.
pub proof fn lemma_bind_then_route(
    rows: Seq<EntryView>,
    bindings: Seq<(Ssrc, ForwardKeyView)>,
    ssrc: Ssrc,
    k: ForwardKeyView,
    other: Ssrc,
)
    requires
        ssrcs_unique(bindings),
    ensures
        route_spec(rows, bind_spec(bindings, ssrc, k), ssrc) == (match find_key(rows, k) {
            Some(i) => Some((k, rows[i].1)),
            None => None::<(ForwardKeyView, Seq<ForwardTargetView>)>,
        }),
        other != ssrc ==> route_spec(rows, bind_spec(bindings, ssrc, k), other) == route_spec(
            rows,
            bindings,
            other,
        ),
{
    let r = bind_spec(bindings, ssrc, k);
    lemma_bind_unique(bindings, ssrc, k);
    let at = match find_ssrc(bindings, ssrc) {
        Some(i) => {
            assert(ssrc_at(bindings, ssrc, i));
            i
        },
        None => bindings.len() as int,
    };
    assert(ssrc_at(r, ssrc, at));
    lemma_find_ssrc(r, ssrc, at);
    if other != ssrc {
        match find_ssrc(bindings, other) {
            Some(j) => {
                assert(ssrc_at(bindings, other, j));
                assert(r[j] == bindings[j]);
                assert(ssrc_at(r, other, j));
                lemma_find_ssrc(r, other, j);
            },
            None => {
                assert forall|j: int| !ssrc_at(r, other, j) by {
                    if 0 <= j < bindings.len() && j != at {
                        assert(r[j] == bindings[j]);
                        assert(!ssrc_at(bindings, other, j));
                    }
                }
            },
        }
    }
}

// ---------------------------------------------------------------------------------------
// Executable structures.
// ---------------------------------------------------------------------------------------
/// The forwarding targets of one published track, one per subscriber peer.
#[derive(Debug, Default)]
pub struct SubscriberTargets {
    targets: Vec<ForwardTarget>,
}

/// The views of a list of targets.
pub open spec fn targets_view(ts: Seq<ForwardTarget>) -> Seq<ForwardTargetView> {
    ts.map_values(|t: ForwardTarget| t@)
}

impl View for SubscriberTargets {
    type V = Seq<ForwardTargetView>;

    closed spec fn view(&self) -> Seq<ForwardTargetView> {
        targets_view(self.targets@)
    }
}

impl SubscriberTargets {
    /// The target of subscriber `peer`, if it has one.
    pub fn get(&self, peer: &PeerId) -> (r: Option<&ForwardTarget>)
        requires
            peers_unique(self@),
        ensures
            match find_peer(self@, peer@) {
                Some(i) => r matches Some(t) && t@ == self@[i],
                None => r is None,
            },
    {
        let mut i: usize = 0;
        while i < self.targets.len()
            invariant
                i <= self.targets@.len(),
                peers_unique(self@),
                forall|j: int| 0 <= j < i ==> !peer_at(self@, peer@, j),
            decreases self.targets@.len() - i,
        {
            if self.targets[i].subscriber_peer.same_as(peer) {
                proof {
                    lemma_find_peer(self@, peer@, i as int);
                }
                return Some(&self.targets[i]);
            }
            i = i + 1;
        }
        None
    }

    pub fn len(&self) -> (n: usize)
        ensures
            n == self@.len(),
    {
        self.targets.len()
    }

    pub fn is_empty(&self) -> (b: bool)
        ensures
            b == (self@.len() == 0),
    {
        self.targets.len() == 0
    }

    /// The target at position `i`.
    pub fn at(&self, i: usize) -> (t: &ForwardTarget)
        requires
            i < self@.len(),
        ensures
            t@ == self@[i as int],
    {
        &self.targets[i]
    }
}

#[derive(Debug)]
struct ForwardEntry {
    key: ForwardKey,
    subscribers: SubscriberTargets,
}

/// The forwarding matrix and the SSRC routing index.
#[derive(Debug, Default)]
pub struct ForwardTable {
    entries: Vec<ForwardEntry>,
    ssrc_index: Vec<(Ssrc, ForwardKey)>,
}

/// The views of the rows.
spec fn entries_view(es: Seq<ForwardEntry>) -> Seq<EntryView> {
    es.map_values(|e: ForwardEntry| (e.key@, e.subscribers@))
}

/// The views of the SSRC bindings.
pub open spec fn index_view(idx: Seq<(Ssrc, ForwardKey)>) -> Seq<(Ssrc, ForwardKeyView)> {
    idx.map_values(|b: (Ssrc, ForwardKey)| (b.0, b.1@))
}

/// Whether `k` is one of `keys`.
fn contains_key(keys: &[ForwardKey], k: &ForwardKey) -> (b: bool)
    ensures
        b == keys@.map_values(|x: ForwardKey| x@).contains(k@),
{
    let ghost kv = keys@.map_values(|x: ForwardKey| x@);
    let mut i: usize = 0;
    while i < keys.len()
        invariant
            i <= keys@.len(),
            kv == keys@.map_values(|x: ForwardKey| x@),
            forall|j: int| 0 <= j < i ==> kv[j] != k@,
        decreases keys@.len() - i,
    {
        if keys[i].same_as(k) {
            assert(kv[i as int] == k@);
            return true;
        }
        i = i + 1;
    }
    false
}

/// Whether `x` is one of `v`.
pub fn contains_u64(v: &[u64], x: u64) -> (b: bool)
    ensures
        b == v@.contains(x),
{
    let mut i: usize = 0;
    while i < v.len()
        invariant
            i <= v@.len(),
            forall|j: int| 0 <= j < i ==> v@[j] != x,
        decreases v@.len() - i,
    {
        if v[i] == x {
            assert(v@[i as int] == x);
            return true;
        }
        i = i + 1;
    }
    false
}

impl ForwardTable {
    /// The rows of the matrix, in order.
    pub closed spec fn rows(&self) -> Seq<EntryView> {
        entries_view(self.entries@)
    }

    /// The SSRC bindings, in order.
    pub closed spec fn bindings(&self) -> Seq<(Ssrc, ForwardKeyView)> {
        index_view(self.ssrc_index@)
    }

    /// No track has two rows, no subscriber two targets in a row, no SSRC two bindings.
    pub open spec fn wf(&self) -> bool {
        entries_wf(self.rows()) && ssrcs_unique(self.bindings())
    }

    pub fn new() -> (t: ForwardTable)
        ensures
            t.rows() == Seq::<EntryView>::empty(),
            t.bindings() == Seq::<(Ssrc, ForwardKeyView)>::empty(),
            t.wf(),
    {
        let t = ForwardTable { entries: Vec::new(), ssrc_index: Vec::new() };
        assert(t.rows() =~= Seq::<EntryView>::empty());
        assert(t.bindings() =~= Seq::<(Ssrc, ForwardKeyView)>::empty());
        t
    }

    fn find_entry(&self, key: &ForwardKey) -> (r: Option<usize>)
        requires
            entries_wf(self.rows()),
        ensures
            match r {
                Some(i) => find_key(self.rows(), key@) == Some(i as int) && i < self.entries@.len(),
                None => find_key(self.rows(), key@) is None,
            },
    {
        let mut i: usize = 0;
        while i < self.entries.len()
            invariant
                i <= self.entries@.len(),
                entries_wf(self.rows()),
                forall|j: int| 0 <= j < i ==> !key_at(self.rows(), key@, j),
            decreases self.entries@.len() - i,
        {
            if self.entries[i].key.same_as(key) {
                proof {
                    lemma_find_key(self.rows(), key@, i as int);
                }
                return Some(i);
            }
            i = i + 1;
        }
        None
    }

    fn find_binding(&self, ssrc: Ssrc) -> (r: Option<usize>)
        requires
            ssrcs_unique(self.bindings()),
        ensures
            match r {
                Some(i) => find_ssrc(self.bindings(), ssrc) == Some(i as int) && i
                    < self.ssrc_index@.len(),
                None => find_ssrc(self.bindings(), ssrc) is None,
            },
    {
        let mut i: usize = 0;
        while i < self.ssrc_index.len()
            invariant
                i <= self.ssrc_index@.len(),
                ssrcs_unique(self.bindings()),
                forall|j: int| 0 <= j < i ==> !ssrc_at(self.bindings(), ssrc, j),
            decreases self.ssrc_index@.len() - i,
        {
            if self.ssrc_index[i].0 == ssrc {
                proof {
                    lemma_find_ssrc(self.bindings(), ssrc, i as int);
                }
                return Some(i);
            }
            i = i + 1;
        }
        None
    }

    /// Record a newly created forwarding sender.
    pub fn insert(&mut self, key: ForwardKey, target: ForwardTarget)
        requires
            old(self).wf(),
        ensures
            final(self).wf(),
            final(self).rows() == insert_spec(old(self).rows(), key@, target@),
            final(self).bindings() == old(self).bindings(),
    {
        proof {
            lemma_insert_wf(self.rows(), key@, target@);
        }
        match self.find_entry(&key) {
            Some(i) => {
                let mut entry = self.entries.remove(i);
                entry.subscribers.upsert(target);
                self.entries.insert(i, entry);
                assert(self.rows() =~= insert_spec(old(self).rows(), key@, target@));
            },
            None => {
                let mut subscribers = SubscriberTargets { targets: Vec::new() };
                subscribers.targets.push(target);
                assert(subscribers@ =~= seq![target@]);
                self.entries.push(ForwardEntry { key, subscribers });
                assert(self.rows() =~= insert_spec(old(self).rows(), key@, target@));
            },
        }
    }

    /// The sender forwarding track `key` to subscriber `subscriber`, if any.
    pub fn subscriber_sender(&self, key: &ForwardKey, subscriber: &PeerId) -> (r: Option<
        RtpSenderId,
    >)
        requires
            self.wf(),
        ensures
            r == sender_lookup(self.rows(), key@, subscriber@),
    {
        match self.find_entry(key) {
            Some(i) => {
                assert(peers_unique(self.rows()[i as int].1));
                match self.entries[i].subscribers.get(subscriber) {
                    Some(t) => Some(t.sender_id),
                    None => None,
                }
            },
            None => None,
        }
    }

    /// Replace the target of a subscriber of an already recorded track.
    pub fn update_subscriber_target(&mut self, key: &ForwardKey, target: ForwardTarget)
        requires
            old(self).wf(),
        ensures
            final(self).wf(),
            final(self).rows() == (match find_key(old(self).rows(), key@) {
                Some(i) => old(self).rows().update(
                    i,
                    (key@, upsert_target(old(self).rows()[i].1, target@)),
                ),
                None => old(self).rows(),
            }),
            final(self).bindings() == old(self).bindings(),
    {
        match self.find_entry(key) {
            Some(i) => {
                proof {
                    lemma_insert_wf(self.rows(), key@, target@);
                }
                let mut entry = self.entries.remove(i);
                entry.subscribers.upsert(target);
                self.entries.insert(i, entry);
                assert(self.rows() =~= insert_spec(old(self).rows(), key@, target@));
            },
            None => {},
        }
    }

    /// Bind a publisher's wire SSRC to its forward key. Re-binding an SSRC follows the
    /// publisher's latest negotiation.
    pub fn bind_ssrc(&mut self, ssrc: Ssrc, key: ForwardKey)
        requires
            old(self).wf(),
        ensures
            final(self).wf(),
            final(self).rows() == old(self).rows(),
            final(self).bindings() == bind_spec(old(self).bindings(), ssrc, key@),
    {
        proof {
            lemma_bind_unique(self.bindings(), ssrc, key@);
        }
        match self.find_binding(ssrc) {
            Some(i) => {
                self.ssrc_index.set(i, (ssrc, key));
            },
            None => {
                self.ssrc_index.push((ssrc, key));
            },
        }
        assert(self.bindings() =~= bind_spec(old(self).bindings(), ssrc, key@));
    }

    /// Resolve a packet's SSRC to its forward key and the subscriber senders it fans out
    /// to. `None` until the SSRC is bound and its track has a row.
    pub fn route_by_ssrc(&self, ssrc: Ssrc) -> (r: Option<(&ForwardKey, &SubscriberTargets)>)
        requires
            self.wf(),
        ensures
            match route_spec(self.rows(), self.bindings(), ssrc) {
                Some((key, targets)) => r matches Some((k, ts)) && k@ == key && ts@ == targets,
                None => r is None,
            },
    {
        match self.find_binding(ssrc) {
            Some(b) => {
                let key = &self.ssrc_index[b].1;
                match self.find_entry(key) {
                    Some(i) => Some((key, &self.entries[i].subscribers)),
                    None => None,
                }
            },
            None => None,
        }
    }

    /// The number of `(track, subscriber)` forwardings.
    pub fn route_count(&self) -> (n: usize)
        requires
            self.rows().len() <= usize::MAX,
        ensures
            n as int == total_targets(self.rows()) || n == usize::MAX,
    {
        let mut n: usize = 0;
        let mut i: usize = 0;
        while i < self.entries.len()
            invariant
                i <= self.entries@.len(),
                n as int == total_targets(self.rows().subrange(0, i as int)) || n == usize::MAX,
            decreases self.entries@.len() - i,
        {
            let ghost before = self.rows().subrange(0, i as int);
            assert(self.rows().subrange(0, i + 1).drop_last() =~= before);
            let k = self.entries[i].subscribers.len();
            if n != usize::MAX {
                n = if n <= usize::MAX - k {
                    n + k
                } else {
                    usize::MAX
                };
            }
            i = i + 1;
        }
        assert(self.rows().subrange(0, self.entries@.len() as int) =~= self.rows());
        n
    }

    /// Drop forwardings that are no longer wanted and collect their senders so the caller
    /// can remove them from the subscriber peer connections: the track is no longer
    /// published, its publisher has left, its subscriber has left, or it forwards a peer
    /// to itself. Rows left without targets go, and so do the SSRC bindings of their
    /// tracks. Everything still wanted is kept.
    pub fn retain(
        &mut self,
        desired: &[ForwardKey],
        live_publishers: &[RtcEndpointId],
        live_subscribers: &[RtcEndpointId],
        removed: &mut Vec<(RtcEndpointId, RtpSenderId)>,
    )
        requires
            old(self).wf(),
        ensures
            final(self).wf(),
            final(self).rows() == retain_entries(
                old(self).rows(),
                desired@.map_values(|x: ForwardKey| x@).to_set(),
                live_publishers@.to_set(),
                live_subscribers@.to_set(),
            ),
            final(removed)@ == old(removed)@ + retain_dropped(
                old(self).rows(),
                desired@.map_values(|x: ForwardKey| x@).to_set(),
                live_publishers@.to_set(),
                live_subscribers@.to_set(),
            ),
            final(self).bindings() == retain_ssrcs(old(self).bindings(), final(self).rows()),
    {
        let ghost d = desired@.map_values(|x: ForwardKey| x@).to_set();
        let ghost ps = live_publishers@.to_set();
        let ghost ss = live_subscribers@.to_set();
        let ghost es0 = self.rows();
        let ghost removed0 = removed@;
        let mut old_entries: Vec<ForwardEntry> = Vec::new();
        std::mem::swap(&mut old_entries, &mut self.entries);
        assert(entries_view(old_entries@) == es0);
        let mut i: usize = 0;
        while i < old_entries.len()
            invariant
                i <= old_entries@.len(),
                entries_view(old_entries@) == es0,
                entries_wf(es0),
                d == desired@.map_values(|x: ForwardKey| x@).to_set(),
                ps == live_publishers@.to_set(),
                ss == live_subscribers@.to_set(),
                self.rows() == retain_entries(es0.subrange(0, i as int), d, ps, ss),
                removed@ == removed0 + retain_dropped(es0.subrange(0, i as int), d, ps, ss),
                entries_wf(self.rows()),
                self.bindings() == old(self).bindings(),
                ssrcs_unique(self.bindings()),
                forall|a: int, b: int|
                    0 <= a < self.rows().len() && i <= b < es0.len() ==> #[trigger] self.rows()[a].0
                        != #[trigger] es0[b].0,
            decreases old_entries@.len() - i,
        {
            let ghost pre = es0.subrange(0, i as int);
            assert(es0.subrange(0, i + 1).drop_last() =~= pre);
            let entry = &old_entries[i];
            assert(peers_unique(es0[i as int].1));
            let key_alive = contains_key(desired, &entry.key) && contains_u64(
                live_publishers,
                entry.key.publish_endpoint,
            );
            let kept = entry.subscribers.filter_into(
                &entry.key,
                key_alive,
                live_subscribers,
                removed,
                Ghost(d),
                Ghost(ps),
                Ghost(ss),
            );
            assert(removed@ =~= removed0 + retain_dropped(es0.subrange(0, i + 1), d, ps, ss));
            if !kept.is_empty() {
                let ghost rows_before = self.rows();
                self.entries.push(ForwardEntry { key: entry.key.duplicate(), subscribers: kept });
                proof {
                    let r = self.rows();
                    assert(r =~= rows_before.push((es0[i as int].0, r.last().1)));
                    assert forall|a: int, b: int|
                        0 <= a < r.len() && 0 <= b < r.len() && a != b implies #[trigger] r[a].0
                        != #[trigger] r[b].0 by {
                        if a == rows_before.len() as int {
                            assert(r[b] == rows_before[b]);
                            assert(rows_before[b].0 != es0[i as int].0);
                        } else if b == rows_before.len() as int {
                            assert(r[a] == rows_before[a]);
                            assert(rows_before[a].0 != es0[i as int].0);
                        } else {
                            assert(r[a] == rows_before[a]);
                            assert(r[b] == rows_before[b]);
                        }
                    }
                    assert forall|a: int| 0 <= a < r.len() implies peers_unique(#[trigger] r[a].1) by {
                        if a != rows_before.len() as int {
                            assert(r[a] == rows_before[a]);
                        }
                    }
                    assert forall|a: int, b: int|
                        0 <= a < r.len() && i + 1 <= b < es0.len() implies #[trigger] r[a].0
                        != #[trigger] es0[b].0 by {
                        if a == rows_before.len() as int {
                            assert(es0[i as int].0 != es0[b].0);
                        } else {
                            assert(r[a] == rows_before[a]);
                        }
                    }
                }
            }
            i = i + 1;
        }
        assert(es0.subrange(0, old_entries@.len() as int) =~= es0);
        self.retain_bindings();
    }

    /// Drops the SSRC bindings whose track has no row.
    fn retain_bindings(&mut self)
        requires
            old(self).wf(),
        ensures
            final(self).wf(),
            final(self).rows() == old(self).rows(),
            final(self).bindings() == retain_ssrcs(old(self).bindings(), old(self).rows()),
    {
        let ghost idx0 = self.bindings();
        let mut old_index: Vec<(Ssrc, ForwardKey)> = Vec::new();
        std::mem::swap(&mut old_index, &mut self.ssrc_index);
        let mut i: usize = 0;
        while i < old_index.len()
            invariant
                i <= old_index@.len(),
                index_view(old_index@) == idx0,
                ssrcs_unique(idx0),
                entries_wf(self.rows()),
                self.rows() == old(self).rows(),
                self.bindings() == retain_ssrcs(idx0.subrange(0, i as int), self.rows()),
                ssrcs_unique(self.bindings()),
                forall|a: int, b: int|
                    0 <= a < self.bindings().len() && i <= b < idx0.len() ==> #[trigger] self.bindings()[a].0
                        != #[trigger] idx0[b].0,
            decreases old_index@.len() - i,
        {
            assert(idx0.subrange(0, i + 1).drop_last() =~= idx0.subrange(0, i as int));
            let ghost before = self.bindings();
            if self.find_entry(&old_index[i].1).is_some() {
                let binding = (old_index[i].0, old_index[i].1.duplicate());
                self.ssrc_index.push(binding);
                proof {
                    let r = self.bindings();
                    assert(r =~= before.push(idx0[i as int]));
                    assert forall|a: int, b: int|
                        0 <= a < r.len() && 0 <= b < r.len() && a != b implies #[trigger] r[a].0
                        != #[trigger] r[b].0 by {
                        if a == before.len() as int {
                            assert(r[b] == before[b]);
                            assert(before[b].0 != idx0[i as int].0);
                        } else if b == before.len() as int {
                            assert(r[a] == before[a]);
                            assert(before[a].0 != idx0[i as int].0);
                        } else {
                            assert(r[a] == before[a]);
                            assert(r[b] == before[b]);
                        }
                    }
                    assert forall|a: int, b: int|
                        0 <= a < r.len() && i + 1 <= b < idx0.len() implies #[trigger] r[a].0
                        != #[trigger] idx0[b].0 by {
                        if a == before.len() as int {
                            assert(idx0[i as int].0 != idx0[b].0);
                        } else {
                            assert(r[a] == before[a]);
                        }
                    }
                }
            }
            i = i + 1;
        }
        assert(idx0.subrange(0, old_index@.len() as int) =~= idx0);
    }

    /// Forget every forwarding and binding.
    pub fn clear(&mut self)
        ensures
            final(self).rows() == Seq::<EntryView>::empty(),
            final(self).bindings() == Seq::<(Ssrc, ForwardKeyView)>::empty(),
            final(self).wf(),
    {
        self.entries = Vec::new();
        self.ssrc_index = Vec::new();
        assert(self.rows() =~= Seq::<EntryView>::empty());
        assert(self.bindings() =~= Seq::<(Ssrc, ForwardKeyView)>::empty());
    }
}

/// How many targets the rows hold in all.
pub open spec fn total_targets(es: Seq<EntryView>) -> int
    decreases es.len(),
{
    if es.len() == 0 {
        0
    } else {
        total_targets(es.drop_last()) + es.last().1.len()
    }
}

impl SubscriberTargets {
    /// Put `t` in place of the target of the same subscriber, or add it.
    fn upsert(&mut self, t: ForwardTarget)
        requires
            peers_unique(old(self)@),
        ensures
            final(self)@ == upsert_target(old(self)@, t@),
    {
        let mut i: usize = 0;
        while i < self.targets.len()
            invariant
                i <= self.targets@.len(),
                self@ == old(self)@,
                peers_unique(old(self)@),
                forall|j: int| 0 <= j < i ==> !peer_at(self@, t@.subscriber_peer, j),
            decreases self.targets@.len() - i,
        {
            if self.targets[i].subscriber_peer.same_as(&t.subscriber_peer) {
                proof {
                    lemma_find_peer(old(self)@, t@.subscriber_peer, i as int);
                }
                self.targets.set(i, t);
                assert(self@ =~= upsert_target(old(self)@, t@));
                return ;
            }
            i = i + 1;
        }
        self.targets.push(t);
        assert(self@ =~= upsert_target(old(self)@, t@));
    }

    /// The targets of row `key` that are kept, as a new list; the dropped ones go to
    /// `removed`.
    fn filter_into(
        &self,
        key: &ForwardKey,
        key_alive: bool,
        live_subscribers: &[RtcEndpointId],
        removed: &mut Vec<(RtcEndpointId, RtpSenderId)>,
        Ghost(d): Ghost<Set<ForwardKeyView>>,
        Ghost(ps): Ghost<Set<RtcEndpointId>>,
        Ghost(ss): Ghost<Set<RtcEndpointId>>,
    ) -> (r: SubscriberTargets)
        requires
            peers_unique(self@),
            key_alive == (d.contains(key@) && ps.contains(key@.publish_endpoint)),
            ss == live_subscribers@.to_set(),
        ensures
            r@ == kept_targets(key@, self@, d, ps, ss),
            peers_unique(r@),
            final(removed)@ == old(removed)@ + dropped_targets(key@, self@, d, ps, ss),
    {
        let mut kept = SubscriberTargets { targets: Vec::new() };
        let mut i: usize = 0;
        assert(kept@ =~= Seq::<ForwardTargetView>::empty());
        assert(removed@ =~= old(removed)@ + Seq::<(RtcEndpointId, RtpSenderId)>::empty());
        while i < self.targets.len()
            invariant
                i <= self.targets@.len(),
                peers_unique(self@),
                key_alive == (d.contains(key@) && ps.contains(key@.publish_endpoint)),
                ss == live_subscribers@.to_set(),
                kept@ == kept_targets(key@, self@.subrange(0, i as int), d, ps, ss),
                peers_unique(kept@),
                forall|a: int, b: int|
                    0 <= a < kept@.len() && i <= b < self@.len() ==> #[trigger] kept@[a].subscriber_peer
                        != #[trigger] self@[b].subscriber_peer,
                removed@ == old(removed)@ + dropped_targets(
                    key@,
                    self@.subrange(0, i as int),
                    d,
                    ps,
                    ss,
                ),
            decreases self.targets@.len() - i,
        {
            let ghost pre = self@.subrange(0, i as int);
            assert(self@.subrange(0, i + 1).drop_last() =~= pre);
            assert(self@.subrange(0, i + 1).last() == self@[i as int]);
            let target = &self.targets[i];
            let keep = key_alive && contains_u64(live_subscribers, target.subscribe_endpoint)
                && !key.publisher_peer.same_as(&target.subscriber_peer);
            if keep {
                let ghost before = kept@;
                kept.targets.push(target.duplicate());
                proof {
                    let r = kept@;
                    assert(r =~= before.push(self@[i as int]));
                    assert forall|a: int, b: int|
                        0 <= a < r.len() && 0 <= b < r.len() && a != b implies #[trigger] r[a].subscriber_peer
                        != #[trigger] r[b].subscriber_peer by {
                        if a == before.len() as int {
                            assert(r[b] == before[b]);
                            assert(before[b].subscriber_peer != self@[i as int].subscriber_peer);
                        } else if b == before.len() as int {
                            assert(r[a] == before[a]);
                            assert(before[a].subscriber_peer != self@[i as int].subscriber_peer);
                        } else {
                            assert(r[a] == before[a]);
                            assert(r[b] == before[b]);
                        }
                    }
                    assert forall|a: int, b: int|
                        0 <= a < r.len() && i + 1 <= b < self@.len() implies #[trigger] r[a].subscriber_peer
                        != #[trigger] self@[b].subscriber_peer by {
                        if a == before.len() as int {
                            assert(self@[i as int].subscriber_peer != self@[b].subscriber_peer);
                        } else {
                            assert(r[a] == before[a]);
                        }
                    }
                }
            } else {
                removed.push((target.subscribe_endpoint, target.sender_id));
            }
            i = i + 1;
        }
        assert(self@.subrange(0, self@.len() as int) =~= self@);
        kept
    }
}

} // verus!
