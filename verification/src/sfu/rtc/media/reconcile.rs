//! Reconciling the forwarding graph of a lobby with its publish state.
//!
//! For every live publish track, every live subscriber of another peer should have
//! exactly one forwarding sender. Reconciling drops the forwardings that are no longer
//! wanted and lists the cells `(track, subscriber)` that should exist; for each, the
//! caller either refreshes the existing sender's target or adds a sender. Once every
//! listed cell has a sender, reconciling again adds nothing.
use vstd::prelude::*;
use crate::sfu::endpoint::RtcEndpointId;
use crate::sfu::peer::PeerId;
use crate::sfu::rtc::media::forward::{
    bind_spec, dropped_targets, keep_target, kept_targets, Ssrc, entries_wf, find_key, find_peer, insert_spec, key_at, lemma_find_key, lemma_find_peer,
    lemma_insert_wf, peer_at, peers_unique, retain_dropped, retain_entries, retain_ssrcs, sender_lookup,
    upsert_target, EntryView, ForwardKey, ForwardKeyView, ForwardTable, ForwardTargetView,
    RtpSenderId,
};

verus! {

/// A live publisher: its endpoint, its peer and the mids of its publish tracks.
#[derive(Debug)]
pub struct PublisherTracks {
    pub endpoint: RtcEndpointId,
    pub peer: PeerId,
    pub mids: Vec<String>,
}

/// A live subscriber: its endpoint and its peer.
#[derive(Debug)]
pub struct LiveSubscriber {
    pub endpoint: RtcEndpointId,
    pub peer: PeerId,
}

/// A publisher as plain values.
pub type PublisherView = (RtcEndpointId, Seq<char>, Seq<Seq<char>>);

/// A subscriber as plain values.
pub type SubscriberView = (RtcEndpointId, Seq<char>);

pub open spec fn publishers_view(v: Seq<PublisherTracks>) -> Seq<PublisherView> {
    v.map_values(|p: PublisherTracks| (p.endpoint, p.peer@, p.mids@.map_values(|m: String| m@)))
}

pub open spec fn subscribers_view(v: Seq<LiveSubscriber>) -> Seq<SubscriberView> {
    v.map_values(|s: LiveSubscriber| (s.endpoint, s.peer@))
}

/// The forward keys of one publisher's tracks.
pub open spec fn keys_of(p: PublisherView) -> Seq<ForwardKeyView> {
    p.2.map_values(|mid: Seq<char>| ForwardKeyView { publisher_peer: p.1, publish_endpoint: p.0, mid })
}

/// The forward keys of every live track, publisher by publisher.
pub open spec fn desired_spec(pubs: Seq<PublisherView>) -> Seq<ForwardKeyView>
    decreases pubs.len(),
{
    if pubs.len() == 0 {
        Seq::empty()
    } else {
        desired_spec(pubs.drop_last()) + keys_of(pubs.last())
    }
}

/// A cell of the forwarding matrix: a track, and a subscriber endpoint and its peer.
pub type CellView = (ForwardKeyView, RtcEndpointId, Seq<char>);

/// The cells of track `k`: one per subscriber of another peer than the publisher's.
pub open spec fn cells_for_key(k: ForwardKeyView, subs: Seq<SubscriberView>) -> Seq<CellView>
    decreases subs.len(),
{
    if subs.len() == 0 {
        Seq::empty()
    } else {
        let rest = cells_for_key(k, subs.drop_last());
        if subs.last().1 != k.publisher_peer {
            rest.push((k, subs.last().0, subs.last().1))
        } else {
            rest
        }
    }
}

/// The cells of the tracks `ks`, track by track.
pub open spec fn cells_for_keys(ks: Seq<ForwardKeyView>, subs: Seq<SubscriberView>) -> Seq<CellView>
    decreases ks.len(),
{
    if ks.len() == 0 {
        Seq::empty()
    } else {
        cells_for_keys(ks.drop_last(), subs) + cells_for_key(ks.last(), subs)
    }
}

/// One cell to wire.
#[derive(Debug)]
pub struct ForwardCell {
    pub key: ForwardKey,
    pub subscriber: RtcEndpointId,
    pub subscriber_peer: PeerId,
}

pub open spec fn cells_view(v: Seq<ForwardCell>) -> Seq<CellView> {
    v.map_values(|c: ForwardCell| (c.key@, c.subscriber, c.subscriber_peer@))
}

/// The forward keys of every live track.
pub fn desired_keys(publishers: &[PublisherTracks]) -> (r: Vec<ForwardKey>)
    ensures
        r@.map_values(|k: ForwardKey| k@) == desired_spec(publishers_view(publishers@)),
{
    let ghost pv = publishers_view(publishers@);
    let mut r: Vec<ForwardKey> = Vec::new();
    let mut i: usize = 0;
    assert(r@.map_values(|k: ForwardKey| k@) =~= desired_spec(pv.subrange(0, 0)));
    while i < publishers.len()
        invariant
            i <= publishers@.len(),
            pv == publishers_view(publishers@),
            r@.map_values(|k: ForwardKey| k@) == desired_spec(pv.subrange(0, i as int)),
        decreases publishers@.len() - i,
    {
        let p = &publishers[i];
        assert(pv.len() == publishers@.len());
        let ghost before = r@.map_values(|k: ForwardKey| k@);
        let mut j: usize = 0;
        while j < p.mids.len()
            invariant
                j <= p.mids@.len(),
                i < pv.len(),
                r@.map_values(|k: ForwardKey| k@) == before + keys_of(pv[i as int]).subrange(0, j as int),
                pv[i as int] == (p.endpoint, p.peer@, p.mids@.map_values(|m: String| m@)),
            decreases p.mids@.len() - j,
        {
            let ghost prev = r@.map_values(|k: ForwardKey| k@);
            let mid = p.mids[j].clone();
            let k = ForwardKey { publisher_peer: p.peer.duplicate(), publish_endpoint: p.endpoint, mid };
            assert(keys_of(pv[i as int])[j as int] == k@);
            r.push(k);
            assert(r@.map_values(|k: ForwardKey| k@) =~= prev.push(keys_of(pv[i as int])[j as int]));
            assert(r@.map_values(|k: ForwardKey| k@) =~= before + keys_of(pv[i as int]).subrange(0, j + 1));
            j = j + 1;
        }
        assert(keys_of(pv[i as int]).subrange(0, j as int) =~= keys_of(pv[i as int]));
        assert(pv.subrange(0, i + 1).drop_last() =~= pv.subrange(0, i as int));
        i = i + 1;
    }
    assert(pv.subrange(0, publishers@.len() as int) =~= pv);
    r
}

/// The cells of the tracks `keys`.
pub fn forward_cells(keys: &[ForwardKey], subscribers: &[LiveSubscriber]) -> (r: Vec<ForwardCell>)
    ensures
        cells_view(r@) == cells_for_keys(keys@.map_values(|k: ForwardKey| k@), subscribers_view(subscribers@)),
{
    let ghost ks = keys@.map_values(|k: ForwardKey| k@);
    let ghost sv = subscribers_view(subscribers@);
    let mut r: Vec<ForwardCell> = Vec::new();
    let mut i: usize = 0;
    assert(cells_view(r@) =~= cells_for_keys(ks.subrange(0, 0), sv));
    while i < keys.len()
        invariant
            i <= keys@.len(),
            ks == keys@.map_values(|k: ForwardKey| k@),
            sv == subscribers_view(subscribers@),
            cells_view(r@) == cells_for_keys(ks.subrange(0, i as int), sv),
        decreases keys@.len() - i,
    {
        let key = &keys[i];
        let ghost before = cells_view(r@);
        let mut j: usize = 0;
        assert(cells_for_key(ks[i as int], sv.subrange(0, 0)) =~= Seq::<CellView>::empty());
        assert(cells_view(r@) =~= before + cells_for_key(ks[i as int], sv.subrange(0, 0)));
        while j < subscribers.len()
            invariant
                j <= subscribers@.len(),
                i < keys@.len(),
                ks == keys@.map_values(|k: ForwardKey| k@),
                sv == subscribers_view(subscribers@),
                key@ == ks[i as int],
                cells_view(r@) == before + cells_for_key(ks[i as int], sv.subrange(0, j as int)),
            decreases subscribers@.len() - j,
        {
            let s = &subscribers[j];
            assert(sv.subrange(0, j + 1).drop_last() =~= sv.subrange(0, j as int));
            assert(sv.subrange(0, j + 1).last() == (s.endpoint, s.peer@));
            if !s.peer.same_as(&key.publisher_peer) {
                let ghost prev = cells_view(r@);
                r.push(ForwardCell { key: key.duplicate(), subscriber: s.endpoint, subscriber_peer: s.peer.duplicate() });
                assert(cells_view(r@) =~= prev.push((key@, s.endpoint, s.peer@)));
            }
            j = j + 1;
        }
        assert(sv.subrange(0, j as int) =~= sv);
        assert(ks.subrange(0, i + 1).drop_last() =~= ks.subrange(0, i as int));
        i = i + 1;
    }
    assert(ks.subrange(0, keys@.len() as int) =~= ks);
    r
}

/// What to do with one cell.
#[derive(Debug, Clone, Copy, PartialEq, Eq, Structural)]
pub enum CellAction {
    /// The subscriber already has this sender for the track: refresh its target.
    Refresh(RtpSenderId),
    /// The subscriber has no sender for the track yet: add one.
    Add,
}

/// Whether `cell` already has a sender in `table`.
pub fn cell_action(table: &ForwardTable, cell: &ForwardCell) -> (a: CellAction)
    requires
        table.wf(),
    ensures
        match sender_lookup(table.rows(), cell.key@, cell.subscriber_peer@) {
            Some(s) => a == CellAction::Refresh(s),
            None => a == CellAction::Add,
        },
{
    match table.subscriber_sender(&cell.key, &cell.subscriber_peer) {
        Some(s) => CellAction::Refresh(s),
        None => CellAction::Add,
    }
}

/// Drops the forwardings that are no longer wanted (their senders go to `removed`) and
/// lists the cells that should exist. `publishers` holds every live publisher, with the
/// mids of its live tracks (none, if it has none); `subscribers` every live subscriber.
pub fn reconcile_forwarding(
    table: &mut ForwardTable,
    publishers: &[PublisherTracks],
    subscribers: &[LiveSubscriber],
    removed: &mut Vec<(RtcEndpointId, RtpSenderId)>,
) -> (cells: Vec<ForwardCell>)
    requires
        old(table).wf(),
    ensures
        final(table).wf(),
        final(table).rows() == retain_entries(
            old(table).rows(),
            desired_spec(publishers_view(publishers@)).to_set(),
            publishers_view(publishers@).map_values(|p: PublisherView| p.0).to_set(),
            subscribers_view(subscribers@).map_values(|s: SubscriberView| s.0).to_set(),
        ),
        final(removed)@ == old(removed)@ + retain_dropped(
            old(table).rows(),
            desired_spec(publishers_view(publishers@)).to_set(),
            publishers_view(publishers@).map_values(|p: PublisherView| p.0).to_set(),
            subscribers_view(subscribers@).map_values(|s: SubscriberView| s.0).to_set(),
        ),
        cells_view(cells@) == cells_for_keys(desired_spec(publishers_view(publishers@)), subscribers_view(subscribers@)),
{
    let desired = desired_keys(publishers);
    let mut publisher_ids: Vec<RtcEndpointId> = Vec::new();
    let mut i: usize = 0;
    while i < publishers.len()
        invariant
            i <= publishers@.len(),
            publisher_ids@ == publishers_view(publishers@).subrange(0, i as int).map_values(|p: PublisherView| p.0),
        decreases publishers@.len() - i,
    {
        publisher_ids.push(publishers[i].endpoint);
        assert(publisher_ids@ =~= publishers_view(publishers@).subrange(0, i + 1).map_values(|p: PublisherView| p.0));
        i = i + 1;
    }
    assert(publishers_view(publishers@).subrange(0, publishers@.len() as int) =~= publishers_view(publishers@));
    let mut subscriber_ids: Vec<RtcEndpointId> = Vec::new();
    let mut j: usize = 0;
    while j < subscribers.len()
        invariant
            j <= subscribers@.len(),
            subscriber_ids@ == subscribers_view(subscribers@).subrange(0, j as int).map_values(|s: SubscriberView| s.0),
        decreases subscribers@.len() - j,
    {
        subscriber_ids.push(subscribers[j].endpoint);
        assert(subscriber_ids@ =~= subscribers_view(subscribers@).subrange(0, j + 1).map_values(|s: SubscriberView| s.0));
        j = j + 1;
    }
    assert(subscribers_view(subscribers@).subrange(0, subscribers@.len() as int) =~= subscribers_view(subscribers@));
    table.retain(desired.as_slice(), publisher_ids.as_slice(), subscriber_ids.as_slice(), removed);
    forward_cells(desired.as_slice(), subscribers)
}

/// The SSRC bindings after binding each of `ssrcs` to track `k`, in order.
pub open spec fn bind_all(idx: Seq<(Ssrc, ForwardKeyView)>, ssrcs: Seq<Ssrc>, k: ForwardKeyView) -> Seq<(Ssrc, ForwardKeyView)>
    decreases ssrcs.len(),
{
    if ssrcs.len() == 0 {
        idx
    } else {
        bind_spec(bind_all(idx, ssrcs.drop_last(), k), ssrcs.last(), k)
    }
}

/// Binds the wire SSRCs that a publish track's SDP names to the track, so its packets
/// route from the first one on. Binding again is harmless.
pub fn bind_track_ssrcs(table: &mut ForwardTable, key: &ForwardKey, ssrcs: &[Ssrc])
    requires
        old(table).wf(),
    ensures
        final(table).wf(),
        final(table).rows() == old(table).rows(),
        final(table).bindings() == bind_all(old(table).bindings(), ssrcs@, key@),
{
    let mut i: usize = 0;
    while i < ssrcs.len()
        invariant
            i <= ssrcs@.len(),
            table.wf(),
            table.rows() == old(table).rows(),
            table.bindings() == bind_all(old(table).bindings(), ssrcs@.take(i as int), key@),
        decreases ssrcs@.len() - i,
    {
        assert(ssrcs@.take(i + 1).drop_last() =~= ssrcs@.take(i as int));
        table.bind_ssrc(ssrcs[i], key.duplicate());
        i = i + 1;
    }
    assert(ssrcs@.take(ssrcs@.len() as int) =~= ssrcs@);
}

// ---------------------------------------------------------------------------------------
// Idempotence.
// ---------------------------------------------------------------------------------------
/// The matrix after wiring `cells` in order: each cell records its target, refreshed or
/// new.
pub open spec fn apply_cells(es: Seq<EntryView>, cells: Seq<CellView>, targets: Seq<ForwardTargetView>) -> Seq<EntryView>
    decreases cells.len(),
{
    if cells.len() == 0 || targets.len() == 0 {
        es
    } else {
        insert_spec(apply_cells(es, cells.drop_last(), targets.drop_last()), cells.last().0, targets.last())
    }
}

proof fn lemma_insert_finds_own(es: Seq<EntryView>, k: ForwardKeyView, t: ForwardTargetView)
    requires
        entries_wf(es),
    ensures
        sender_lookup(insert_spec(es, k, t), k, t.subscriber_peer) is Some,
{
    let r = insert_spec(es, k, t);
    lemma_insert_wf(es, k, t);
    match find_key(es, k) {
        Some(i) => {
            assert(key_at(es, k, i));
            assert(key_at(r, k, i));
            lemma_find_key(r, k, i);
            let ts = upsert_target(es[i].1, t);
            match find_peer(es[i].1, t.subscriber_peer) {
                Some(j) => {
                    assert(peer_at(es[i].1, t.subscriber_peer, j));
                    assert(peer_at(ts, t.subscriber_peer, j));
                },
                None => {
                    assert(peer_at(ts, t.subscriber_peer, es[i].1.len() as int));
                },
            }
        },
        None => {
            let n = es.len() as int;
            assert(key_at(r, k, n));
            lemma_find_key(r, k, n);
            assert(peer_at(r[n].1, t.subscriber_peer, 0));
        },
    }
}

proof fn lemma_insert_keeps_lookup(es: Seq<EntryView>, k: ForwardKeyView, t: ForwardTargetView, k2: ForwardKeyView, p2: Seq<char>)
    requires
        entries_wf(es),
        sender_lookup(es, k2, p2) is Some,
    ensures
        sender_lookup(insert_spec(es, k, t), k2, p2) is Some,
{
    let r = insert_spec(es, k, t);
    lemma_insert_wf(es, k, t);
    let i2 = find_key(es, k2)->0;
    assert(key_at(es, k2, i2));
    let j2 = find_peer(es[i2].1, p2)->0;
    assert(peer_at(es[i2].1, p2, j2));
    match find_key(es, k) {
        Some(i) => {
            assert(key_at(es, k, i));
            if i == i2 {
                assert(k == k2);
                assert(key_at(r, k2, i2));
                lemma_find_key(r, k2, i2);
                let ts = upsert_target(es[i].1, t);
                match find_peer(es[i].1, t.subscriber_peer) {
                    Some(j) => {
                        assert(peer_at(es[i].1, t.subscriber_peer, j));
                        assert(peer_at(ts, p2, j2));
                    },
                    None => {
                        assert(peer_at(ts, p2, j2));
                    },
                }
            } else {
                assert(r[i2] == es[i2]);
                assert(key_at(r, k2, i2));
                lemma_find_key(r, k2, i2);
                assert(peer_at(r[i2].1, p2, j2));
            }
        },
        None => {
            assert(r[i2] == es[i2]);
            assert(key_at(r, k2, i2));
            lemma_find_key(r, k2, i2);
            assert(peer_at(r[i2].1, p2, j2));
        },
    }
}

proof fn lemma_apply_cells_wf(es: Seq<EntryView>, cells: Seq<CellView>, targets: Seq<ForwardTargetView>)
    requires
        entries_wf(es),
    ensures
        entries_wf(apply_cells(es, cells, targets)),
    decreases cells.len(),
{
    if cells.len() > 0 && targets.len() > 0 {
        lemma_apply_cells_wf(es, cells.drop_last(), targets.drop_last());
        lemma_insert_wf(apply_cells(es, cells.drop_last(), targets.drop_last()), cells.last().0, targets.last());
    }
}

/// Reconciling is idempotent: once every cell has been wired with a target for its
/// subscriber, every cell has a sender, so reconciling the same publish state again
/// only refreshes targets and adds no sender.
pub proof fn lemma_reconcile_idempotent(es: Seq<EntryView>, cells: Seq<CellView>, targets: Seq<ForwardTargetView>)
    requires
        entries_wf(es),
        targets.len() == cells.len(),
        forall|i: int| 0 <= i < cells.len() ==> (#[trigger] targets[i]).subscriber_peer == cells[i].2,
    ensures
        forall|i: int| 0 <= i < cells.len() ==> sender_lookup(apply_cells(es, cells, targets), (#[trigger] cells[i]).0, cells[i].2) is Some,
    decreases cells.len(),
{
    if cells.len() > 0 {
        let n = cells.len() - 1;
        let cs = cells.drop_last();
        let tg = targets.drop_last();
        assert forall|i: int| 0 <= i < cs.len() implies (#[trigger] tg[i]).subscriber_peer == cs[i].2 by {
            assert(tg[i] == targets[i]);
            assert(cs[i] == cells[i]);
        }
        lemma_reconcile_idempotent(es, cs, tg);
        let prev = apply_cells(es, cs, tg);
        lemma_apply_cells_wf(es, cs, tg);
        assert forall|i: int| 0 <= i < cells.len() implies sender_lookup(apply_cells(es, cells, targets), (#[trigger] cells[i]).0, cells[i].2) is Some by {
            if i == n {
                lemma_insert_finds_own(prev, cells[n].0, targets[n]);
            } else {
                assert(cs[i] == cells[i]);
                lemma_insert_keeps_lookup(prev, cells[n].0, targets[n], cells[i].0, cells[i].2);
            }
        }
    }
}

/// Every row holds a target, and every target is one that `retain` keeps.
pub open spec fn all_kept(
    es: Seq<EntryView>,
    d: Set<ForwardKeyView>,
    p: Set<RtcEndpointId>,
    s: Set<RtcEndpointId>,
) -> bool {
    forall|i: int| 0 <= i < es.len() ==> {
        &&& (#[trigger] es[i]).1.len() > 0
        &&& forall|j: int| 0 <= j < es[i].1.len() ==> keep_target(es[i].0, #[trigger] es[i].1[j], d, p, s)
    }
}

proof fn lemma_kept_targets_of_kept(
    k: ForwardKeyView,
    ts: Seq<ForwardTargetView>,
    d: Set<ForwardKeyView>,
    p: Set<RtcEndpointId>,
    s: Set<RtcEndpointId>,
)
    ensures
        forall|j: int| 0 <= j < kept_targets(k, ts, d, p, s).len() ==> keep_target(k, #[trigger] kept_targets(k, ts, d, p, s)[j], d, p, s),
        (forall|j: int| 0 <= j < ts.len() ==> keep_target(k, #[trigger] ts[j], d, p, s)) ==> {
            &&& kept_targets(k, ts, d, p, s) == ts
            &&& dropped_targets(k, ts, d, p, s) == Seq::<(RtcEndpointId, RtpSenderId)>::empty()
        },
    decreases ts.len(),
{
    if ts.len() > 0 {
        let init = ts.drop_last();
        lemma_kept_targets_of_kept(k, init, d, p, s);
        let rest = kept_targets(k, init, d, p, s);
        if keep_target(k, ts.last(), d, p, s) {
            let kt = rest.push(ts.last());
            assert forall|j: int| 0 <= j < kt.len() implies keep_target(k, #[trigger] kt[j], d, p, s) by {
                if j < rest.len() {
                    assert(kt[j] == rest[j]);
                }
            }
        }
        if forall|j: int| 0 <= j < ts.len() ==> keep_target(k, #[trigger] ts[j], d, p, s) {
            assert forall|j: int| 0 <= j < init.len() implies keep_target(k, #[trigger] init[j], d, p, s) by {
                assert(init[j] == ts[j]);
            }
            assert(keep_target(k, ts[ts.len() - 1], d, p, s));
            assert(init.push(ts.last()) =~= ts);
        }
    }
}

proof fn lemma_retain_of_kept(
    es: Seq<EntryView>,
    d: Set<ForwardKeyView>,
    p: Set<RtcEndpointId>,
    s: Set<RtcEndpointId>,
)
    ensures
        all_kept(retain_entries(es, d, p, s), d, p, s),
        all_kept(es, d, p, s) ==> {
            &&& retain_entries(es, d, p, s) == es
            &&& retain_dropped(es, d, p, s) == Seq::<(RtcEndpointId, RtpSenderId)>::empty()
        },
    decreases es.len(),
{
    if es.len() > 0 {
        let init = es.drop_last();
        let k = es.last().0;
        let kept = kept_targets(k, es.last().1, d, p, s);
        lemma_retain_of_kept(init, d, p, s);
        lemma_kept_targets_of_kept(k, es.last().1, d, p, s);
        let r = retain_entries(init, d, p, s);
        if kept.len() > 0 {
            let rr = r.push((k, kept));
            assert forall|i: int| 0 <= i < rr.len() implies {
                &&& (#[trigger] rr[i]).1.len() > 0
                &&& forall|j: int| 0 <= j < rr[i].1.len() ==> keep_target(rr[i].0, #[trigger] rr[i].1[j], d, p, s)
            } by {
                if i < r.len() {
                    assert(rr[i] == r[i]);
                }
            }
        }
        if all_kept(es, d, p, s) {
            assert forall|i: int| 0 <= i < init.len() implies {
                &&& (#[trigger] init[i]).1.len() > 0
                &&& forall|j: int| 0 <= j < init[i].1.len() ==> keep_target(init[i].0, #[trigger] init[i].1[j], d, p, s)
            } by {
                assert(init[i] == es[i]);
            }
            let last = es[es.len() - 1];
            assert(last.1.len() > 0);
            assert forall|j: int| 0 <= j < last.1.len() implies keep_target(k, #[trigger] last.1[j], d, p, s) by {}
            assert(init.push(es.last()) =~= es);
            assert(retain_dropped(es, d, p, s) =~= Seq::<(RtcEndpointId, RtpSenderId)>::empty());
        }
    }
}

proof fn lemma_insert_kept(
    es: Seq<EntryView>,
    k: ForwardKeyView,
    t: ForwardTargetView,
    d: Set<ForwardKeyView>,
    p: Set<RtcEndpointId>,
    s: Set<RtcEndpointId>,
)
    requires
        all_kept(es, d, p, s),
        keep_target(k, t, d, p, s),
    ensures
        all_kept(insert_spec(es, k, t), d, p, s),
{
    let r = insert_spec(es, k, t);
    match find_key(es, k) {
        Some(i) => {
            assert(key_at(es, k, i));
            let ts = upsert_target(es[i].1, t);
            assert forall|j: int| 0 <= j < ts.len() implies keep_target(k, #[trigger] ts[j], d, p, s) by {
                match find_peer(es[i].1, t.subscriber_peer) {
                    Some(x) => {
                        if j != x {
                            assert(ts[j] == es[i].1[j]);
                        }
                    },
                    None => {
                        if j < es[i].1.len() {
                            assert(ts[j] == es[i].1[j]);
                        }
                    },
                }
            }
            assert(ts.len() > 0);
            assert forall|a: int| 0 <= a < r.len() implies {
                &&& (#[trigger] r[a]).1.len() > 0
                &&& forall|j: int| 0 <= j < r[a].1.len() ==> keep_target(r[a].0, #[trigger] r[a].1[j], d, p, s)
            } by {
                if a != i {
                    assert(r[a] == es[a]);
                }
            }
        },
        None => {
            assert forall|a: int| 0 <= a < r.len() implies {
                &&& (#[trigger] r[a]).1.len() > 0
                &&& forall|j: int| 0 <= j < r[a].1.len() ==> keep_target(r[a].0, #[trigger] r[a].1[j], d, p, s)
            } by {
                if a < es.len() {
                    assert(r[a] == es[a]);
                }
            }
        },
    }
}

proof fn lemma_apply_cells_kept(
    es: Seq<EntryView>,
    cells: Seq<CellView>,
    targets: Seq<ForwardTargetView>,
    d: Set<ForwardKeyView>,
    p: Set<RtcEndpointId>,
    s: Set<RtcEndpointId>,
)
    requires
        all_kept(es, d, p, s),
        targets.len() == cells.len(),
        forall|i: int| 0 <= i < cells.len() ==> keep_target(cells[i].0, #[trigger] targets[i], d, p, s),
    ensures
        all_kept(apply_cells(es, cells, targets), d, p, s),
    decreases cells.len(),
{
    if cells.len() > 0 {
        let cs = cells.drop_last();
        let tg = targets.drop_last();
        assert forall|i: int| 0 <= i < cs.len() implies keep_target(cs[i].0, #[trigger] tg[i], d, p, s) by {
            assert(cs[i] == cells[i]);
            assert(tg[i] == targets[i]);
        }
        lemma_apply_cells_kept(es, cs, tg, d, p, s);
        assert(keep_target(cells[cells.len() - 1].0, targets[cells.len() - 1], d, p, s));
        lemma_insert_kept(apply_cells(es, cs, tg), cells.last().0, targets.last(), d, p, s);
    }
}

proof fn lemma_desired_publishers(pubs: Seq<PublisherView>)
    ensures
        forall|i: int| 0 <= i < desired_spec(pubs).len() ==>
            pubs.map_values(|p: PublisherView| p.0).contains(#[trigger] desired_spec(pubs)[i].publish_endpoint),
    decreases pubs.len(),
{
    if pubs.len() > 0 {
        let init = pubs.drop_last();
        lemma_desired_publishers(init);
        let ds = desired_spec(pubs);
        let di = desired_spec(init);
        let ends = pubs.map_values(|p: PublisherView| p.0);
        let iends = init.map_values(|p: PublisherView| p.0);
        assert forall|i: int| 0 <= i < ds.len() implies ends.contains(#[trigger] ds[i].publish_endpoint) by {
            if i < di.len() {
                assert(ds[i] == di[i]);
                let w = choose|w: int| 0 <= w < iends.len() && iends[w] == di[i].publish_endpoint;
                assert(ends[w] == iends[w]);
            } else {
                assert(ds[i] == keys_of(pubs.last())[i - di.len()]);
                assert(ends[pubs.len() - 1] == pubs.last().0);
            }
        }
    }
}

proof fn lemma_cells_for_key(k: ForwardKeyView, subs: Seq<SubscriberView>)
    ensures
        forall|i: int| 0 <= i < cells_for_key(k, subs).len() ==> {
            let c = #[trigger] cells_for_key(k, subs)[i];
            &&& c.0 == k
            &&& subs.map_values(|x: SubscriberView| x.0).contains(c.1)
            &&& c.2 != k.publisher_peer
        },
    decreases subs.len(),
{
    if subs.len() > 0 {
        let init = subs.drop_last();
        lemma_cells_for_key(k, init);
        let cs = cells_for_key(k, subs);
        let ci = cells_for_key(k, init);
        let ends = subs.map_values(|x: SubscriberView| x.0);
        let iends = init.map_values(|x: SubscriberView| x.0);
        assert forall|i: int| 0 <= i < cs.len() implies {
            let c = #[trigger] cs[i];
            &&& c.0 == k
            &&& ends.contains(c.1)
            &&& c.2 != k.publisher_peer
        } by {
            if i < ci.len() {
                assert(cs[i] == ci[i]);
                let w = choose|w: int| 0 <= w < iends.len() && iends[w] == ci[i].1;
                assert(ends[w] == iends[w]);
            } else {
                assert(ends[subs.len() - 1] == subs.last().0);
            }
        }
    }
}

proof fn lemma_cells_for_keys(ks: Seq<ForwardKeyView>, subs: Seq<SubscriberView>)
    ensures
        forall|i: int| 0 <= i < cells_for_keys(ks, subs).len() ==> {
            let c = #[trigger] cells_for_keys(ks, subs)[i];
            &&& ks.contains(c.0)
            &&& subs.map_values(|x: SubscriberView| x.0).contains(c.1)
            &&& c.2 != c.0.publisher_peer
        },
    decreases ks.len(),
{
    if ks.len() > 0 {
        let init = ks.drop_last();
        lemma_cells_for_keys(init, subs);
        lemma_cells_for_key(ks.last(), subs);
        let cs = cells_for_keys(ks, subs);
        let ci = cells_for_keys(init, subs);
        let cl = cells_for_key(ks.last(), subs);
        assert forall|i: int| 0 <= i < cs.len() implies {
            let c = #[trigger] cs[i];
            &&& ks.contains(c.0)
            &&& subs.map_values(|x: SubscriberView| x.0).contains(c.1)
            &&& c.2 != c.0.publisher_peer
        } by {
            if i < ci.len() {
                assert(cs[i] == ci[i]);
                let w = choose|w: int| 0 <= w < init.len() && init[w] == ci[i].0;
                assert(ks[w] == init[w]);
            } else {
                assert(cs[i] == cl[i - ci.len()]);
                assert(ks[ks.len() - 1] == ks.last());
            }
        }
    }
}

proof fn lemma_retain_ssrcs_found(idx: Seq<(Ssrc, ForwardKeyView)>, es: Seq<EntryView>)
    ensures
        forall|i: int| 0 <= i < retain_ssrcs(idx, es).len() ==> find_key(es, (#[trigger] retain_ssrcs(idx, es)[i]).1) is Some,
        (forall|i: int| 0 <= i < idx.len() ==> find_key(es, (#[trigger] idx[i]).1) is Some) ==> retain_ssrcs(idx, es) == idx,
    decreases idx.len(),
{
    if idx.len() > 0 {
        let init = idx.drop_last();
        lemma_retain_ssrcs_found(init, es);
        let rest = retain_ssrcs(init, es);
        if find_key(es, idx.last().1) is Some {
            let r = rest.push(idx.last());
            assert forall|i: int| 0 <= i < r.len() implies find_key(es, (#[trigger] r[i]).1) is Some by {
                if i < rest.len() {
                    assert(r[i] == rest[i]);
                }
            }
        }
        if forall|i: int| 0 <= i < idx.len() ==> find_key(es, (#[trigger] idx[i]).1) is Some {
            assert forall|i: int| 0 <= i < init.len() implies find_key(es, (#[trigger] init[i]).1) is Some by {
                assert(init[i] == idx[i]);
            }
            assert(find_key(es, idx[idx.len() - 1].1) is Some);
            assert(init.push(idx.last()) =~= idx);
        }
    }
}

proof fn lemma_apply_cells_keeps_keys(
    es: Seq<EntryView>,
    cells: Seq<CellView>,
    targets: Seq<ForwardTargetView>,
    k2: ForwardKeyView,
)
    requires
        find_key(es, k2) is Some,
    ensures
        find_key(apply_cells(es, cells, targets), k2) is Some,
    decreases cells.len(),
{
    if cells.len() > 0 && targets.len() > 0 {
        let prev = apply_cells(es, cells.drop_last(), targets.drop_last());
        lemma_apply_cells_keeps_keys(es, cells.drop_last(), targets.drop_last(), k2);
        let i2 = choose|i: int| key_at(prev, k2, i);
        assert(key_at(prev, k2, i2));
        let k = cells.last().0;
        let r = insert_spec(prev, k, targets.last());
        match find_key(prev, k) {
            Some(i) => {
                assert(key_at(prev, k, i));
                assert(key_at(r, k2, i2));
            },
            None => {
                assert(key_at(r, k2, i2));
            },
        }
    }
}

/// A second reconcile removes nothing. Reconciling drops the unwanted forwardings and
/// lists the cells; once each listed cell has been wired with a target for its
/// subscriber's endpoint and peer, reconciling again with the same publishers and
/// subscribers keeps every row, every target and every SSRC binding, so every route and
/// every sender lookup answers as before, and it reports no sender.
pub proof fn lemma_second_reconcile_removes_nothing(
    rows: Seq<EntryView>,
    bindings: Seq<(Ssrc, ForwardKeyView)>,
    publishers: Seq<PublisherView>,
    subscribers: Seq<SubscriberView>,
    targets: Seq<ForwardTargetView>,
)
    requires
        targets.len() == cells_for_keys(desired_spec(publishers), subscribers).len(),
        forall|i: int| 0 <= i < targets.len() ==> {
            let c = cells_for_keys(desired_spec(publishers), subscribers)[i];
            &&& (#[trigger] targets[i]).subscriber_peer == c.2
            &&& targets[i].subscribe_endpoint == c.1
        },
    ensures
        ({
            let d = desired_spec(publishers).to_set();
            let p = publishers.map_values(|x: PublisherView| x.0).to_set();
            let s = subscribers.map_values(|x: SubscriberView| x.0).to_set();
            let wired = apply_cells(
                retain_entries(rows, d, p, s),
                cells_for_keys(desired_spec(publishers), subscribers),
                targets,
            );
            let bound = retain_ssrcs(bindings, retain_entries(rows, d, p, s));
            &&& retain_entries(wired, d, p, s) == wired
            &&& retain_dropped(wired, d, p, s) == Seq::<(RtcEndpointId, RtpSenderId)>::empty()
            &&& retain_ssrcs(bound, wired) == bound
        }),
{
    let ks = desired_spec(publishers);
    let d = ks.to_set();
    let p = publishers.map_values(|x: PublisherView| x.0).to_set();
    let s = subscribers.map_values(|x: SubscriberView| x.0).to_set();
    let cells = cells_for_keys(ks, subscribers);
    lemma_retain_of_kept(rows, d, p, s);
    lemma_cells_for_keys(ks, subscribers);
    lemma_desired_publishers(publishers);
    assert forall|i: int| 0 <= i < cells.len() implies keep_target(cells[i].0, #[trigger] targets[i], d, p, s) by {
        let c = cells[i];
        let w = choose|w: int| 0 <= w < ks.len() && ks[w] == c.0;
        assert(ks[w].publish_endpoint == c.0.publish_endpoint);
    }
    lemma_apply_cells_kept(retain_entries(rows, d, p, s), cells, targets, d, p, s);
    let rows1 = retain_entries(rows, d, p, s);
    let wired = apply_cells(rows1, cells, targets);
    lemma_retain_of_kept(wired, d, p, s);
    let bound = retain_ssrcs(bindings, rows1);
    lemma_retain_ssrcs_found(bindings, rows1);
    assert forall|i: int| 0 <= i < bound.len() implies find_key(wired, (#[trigger] bound[i]).1) is Some by {
        lemma_apply_cells_keeps_keys(rows1, cells, targets, bound[i].1);
    }
    lemma_retain_ssrcs_found(bound, wired);
}

} // verus!
