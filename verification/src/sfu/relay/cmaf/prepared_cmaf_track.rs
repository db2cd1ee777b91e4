//! Preparing a CMAF track for publishing: the stream is read until its init segment is
//! complete; the fragments that came with it wait to be written first.
use vstd::prelude::*;
use crate::sfu::relay::cmaf::cmaf_splitter::{items_view, split_run, CmafItem, CmafItemView, CmafSplitter};
use crate::sfu::relay::error::RelayError;

verus! {

/// The last init segment among `items`, if any.
pub open spec fn last_init(items: Seq<CmafItemView>) -> Option<Seq<u8>>
    decreases items.len(),
{
    if items.len() == 0 {
        None
    } else {
        match items.last() {
            CmafItemView::Init(b) => Some(b),
            CmafItemView::Fragment(_) => last_init(items.drop_last()),
        }
    }
}

/// The fragments among `items`, in order.
pub open spec fn fragments_of(items: Seq<CmafItemView>) -> Seq<Seq<u8>>
    decreases items.len(),
{
    if items.len() == 0 {
        Seq::empty()
    } else {
        let rest = fragments_of(items.drop_last());
        match items.last() {
            CmafItemView::Init(_) => rest,
            CmafItemView::Fragment(b) => rest.push(b),
        }
    }
}

/// The views of a list of byte buffers.
pub open spec fn buffers_view(v: Seq<Vec<u8>>) -> Seq<Seq<u8>> {
    v.map_values(|b: Vec<u8>| b@)
}

/// A track whose init segment is known, with the fragments that arrived with it and
/// the splitter that goes on cutting the stream.
#[derive(Debug)]
pub struct PreparedCmafTrack {
    pub name: String,
    pub init: Vec<u8>,
    pub pending: Vec<Vec<u8>>,
    pub splitter: CmafSplitter,
}

/// Where the preparation of a track stands after one chunk.
#[derive(Debug)]
pub enum PreparationStep {
    /// The init segment is complete.
    Ready(PreparedCmafTrack),
    /// Still waiting for the init segment.
    Waiting(CmafSplitter),
}

/// The last init segment and the fragments of a list of items.
fn sort_items(items: Vec<CmafItem>) -> (r: (Option<Vec<u8>>, Vec<Vec<u8>>))
    ensures
        match (r.0, last_init(items_view(items@))) {
            (Some(b), Some(i)) => b@ == i,
            (None, None) => true,
            _ => false,
        },
        buffers_view(r.1@) == fragments_of(items_view(items@)),
{
    let ghost iv = items_view(items@);
    let mut init: Option<Vec<u8>> = None;
    let mut pending: Vec<Vec<u8>> = Vec::new();
    let mut items = items;
    let ghost mut i: int = 0;
    assert(buffers_view(pending@) =~= fragments_of(iv.subrange(0, 0)));
    while items.len() > 0
        invariant
            0 <= i <= iv.len(),
            items_view(items@) == iv.subrange(i, iv.len() as int),
            match (init, last_init(iv.subrange(0, i))) {
                (Some(b), Some(x)) => b@ == x,
                (None, None) => true,
                _ => false,
            },
            buffers_view(pending@) == fragments_of(iv.subrange(0, i)),
        decreases items@.len(),
    {
        assert(items_view(items@).len() == items@.len());
        let ghost ms = items@;
        assert(items_view(ms)[0] == iv[i]);
        assert(iv.subrange(0, i + 1).drop_last() =~= iv.subrange(0, i));
        assert(iv.subrange(0, i + 1).last() == iv[i]);
        let item = items.remove(0);
        assert(item@ == iv[i]);
        assert(items_view(items@) =~= items_view(ms).subrange(1, items_view(ms).len() as int));
        assert(items_view(items@) =~= iv.subrange(i + 1, iv.len() as int));
        match item {
            CmafItem::Init(b) => {
                init = Some(b);
            },
            CmafItem::Fragment(b) => {
                let ghost before = buffers_view(pending@);
                let ghost bv = b@;
                pending.push(b);
                assert(buffers_view(pending@) =~= before.push(bv));
            },
        }
        proof {
            i = i + 1;
        }
    }
    assert(iv.subrange(0, iv.len() as int) =~= iv);
    (init, pending)
}

impl PreparedCmafTrack {
    /// Feeds one chunk of the track `name` to its splitter: the prepared track once the
    /// init segment is complete, else the splitter that waits for more.
    pub fn feed(name: String, splitter: CmafSplitter, chunk: Vec<u8>) -> (r: Result<PreparationStep, RelayError>)
        ensures
            match split_run(splitter.state(), splitter.buffered() + chunk@) {
                Ok((st, rest, items)) => match last_init(items) {
                    Some(init) => r matches Ok(PreparationStep::Ready(t)) && t.name@ == name@ && t.init@ == init
                        && buffers_view(t.pending@) == fragments_of(items) && t.splitter.state() == st
                        && t.splitter.buffered() == rest,
                    None => r matches Ok(PreparationStep::Waiting(s)) && s.state() == st && s.buffered() == rest,
                },
                Err(e) => r == Err::<PreparationStep, RelayError>(RelayError::CmafSplit(e)),
            },
    {
        let mut splitter = splitter;
        let items = match splitter.push(chunk) {
            Ok(items) => items,
            Err(e) => return Err(e),
        };
        let (init, pending) = sort_items(items);
        match init {
            Some(init) => Ok(PreparationStep::Ready(PreparedCmafTrack { name, init, pending, splitter })),
            None => Ok(PreparationStep::Waiting(splitter)),
        }
    }
}

} // verus!
