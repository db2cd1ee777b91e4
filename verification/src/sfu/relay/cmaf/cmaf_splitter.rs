//! Cuts a fragmented-MP4 (CMAF) byte stream into its init segment and its
//! media fragments, one whole box at a time.
//!
//! ```text
//! [ size (4 bytes) ][ type (4 bytes) ][ ... payload ... ]
//! [ size = 1 ][ type ][ size64 (8 bytes) ][ ... ]
//! ```
use crate::sfu::relay::error::{CmafSplitError, RelayError};
use vstd::prelude::*;

verus! {

/// Box type `ftyp`, read big-endian.
pub const BOX_FTYP: u32 = 0x6674_7970;

/// Box type `moov`, read big-endian.
pub const BOX_MOOV: u32 = 0x6d6f_6f76;

/// Box type `moof`, read big-endian.
pub const BOX_MOOF: u32 = 0x6d6f_6f66;

/// Box type `mdat`, read big-endian.
pub const BOX_MDAT: u32 = 0x6d64_6174;

/// The unsigned big-endian value of the four bytes at `at`.
pub open spec fn be32(b: Seq<u8>, at: int) -> nat {
    (b[at] as nat) * 16777216 + (b[at + 1] as nat) * 65536 + (b[at + 2] as nat) * 256 + (
    b[at + 3] as nat)
}

/// The unsigned big-endian value of the eight bytes at `at`.
pub open spec fn be64(b: Seq<u8>, at: int) -> nat {
    be32(b, at) * 4294967296 + be32(b, at + 4)
}

/// What the head of `buf` says about the next box: not enough bytes yet (`Ok(None)`),
/// its total size and type, or why the stream is malformed.
pub open spec fn peek_box_spec(buf: Seq<u8>) -> Result<Option<(nat, u32)>, CmafSplitError> {
    if buf.len() < 8 {
        Ok(None)
    } else {
        let size32 = be32(buf, 0);
        let box_type = be32(buf, 4) as u32;
        if size32 == 1 {
            if buf.len() < 16 {
                Ok(None)
            } else {
                let size64 = be64(buf, 8);
                if size64 > usize::MAX {
                    Err(CmafSplitError::SizeConversion { size: size64 as u64 })
                } else if size64 < 16 {
                    Err(CmafSplitError::InvalidExtendedSize { size: size64 as u64 })
                } else {
                    Ok(Some((size64, box_type)))
                }
            }
        } else if size32 == 0 {
            Err(CmafSplitError::ZeroSize)
        } else if size32 < 8 {
            Err(CmafSplitError::InvalidSize { declared: size32 as u32 })
        } else {
            Ok(Some((size32, box_type)))
        }
    }
}

/// One output of the splitter, as bytes.
pub enum CmafItemView {
    Init(Seq<u8>),
    Fragment(Seq<u8>),
}

/// The part of the splitter's state that outlives one box: the pieces of the init
/// segment and of the current fragment gathered so far.
pub struct SplitState {
    pub init_done: bool,
    pub init: Seq<u8>,
    pub fragment: Seq<u8>,
    pub seen_ftyp: bool,
    pub seen_moov: bool,
}

impl SplitState {
    /// Before the init segment is complete no fragment bytes exist, and afterwards no
    /// init bytes are held back.
    pub open spec fn wf(self) -> bool {
        &&& !self.init_done ==> self.fragment.len() == 0
        &&& self.init_done ==> self.init.len() == 0
    }

    /// The bytes already taken out of the buffer but not yet emitted.
    pub open spec fn pending(self) -> Seq<u8> {
        self.init + self.fragment
    }
}

/// The effect of one whole box `bx` of type `box_type` on the state, with what it emits.
pub open spec fn box_step(st: SplitState, bx: Seq<u8>, box_type: u32) -> Result<
    (SplitState, Seq<CmafItemView>),
    CmafSplitError,
> {
    if !st.init_done {
        if box_type == BOX_FTYP {
            Ok((SplitState { seen_ftyp: true, init: st.init + bx, ..st }, seq![]))
        } else if box_type == BOX_MOOV {
            if !st.seen_ftyp {
                Err(CmafSplitError::MoovBeforeFtyp)
            } else {
                Ok(
                    (
                        SplitState {
                            seen_moov: true,
                            init_done: true,
                            init: Seq::empty(),
                            ..st
                        },
                        seq![CmafItemView::Init(st.init + bx)],
                    ),
                )
            }
        } else if box_type == BOX_MOOF {
            Err(
                CmafSplitError::InitIncompleteBeforeMoof {
                    seen_ftyp: st.seen_ftyp,
                    seen_moov: st.seen_moov,
                },
            )
        } else {
            Ok((SplitState { init: st.init + bx, ..st }, seq![]))
        }
    } else if box_type == BOX_MDAT {
        Ok(
            (
                SplitState { fragment: Seq::empty(), ..st },
                seq![CmafItemView::Fragment(st.fragment + bx)],
            ),
        )
    } else {
        Ok((SplitState { fragment: st.fragment + bx, ..st }, seq![]))
    }
}

/// A box size that `peek_box_spec` accepts is at least the 8 bytes of a header.
pub proof fn lemma_peek_size(buf: Seq<u8>)
    ensures
        peek_box_spec(buf) matches Ok(Some((size, _))) ==> size >= 8,
{
}

/// Consume every whole box at the head of `buf`: the final state, the bytes left for
/// later, and the items emitted, or the first error.
pub open spec fn split_run(st: SplitState, buf: Seq<u8>) -> Result<
    (SplitState, Seq<u8>, Seq<CmafItemView>),
    CmafSplitError,
>
    decreases buf.len(),
{
    match peek_box_spec(buf) {
        Err(e) => Err(e),
        Ok(None) => Ok((st, buf, seq![])),
        Ok(Some((size, box_type))) => {
            if buf.len() < size {
                Ok((st, buf, seq![]))
            } else {
                proof {
                    lemma_peek_size(buf);
                }
                match box_step(st, buf.subrange(0, size as int), box_type) {
                    Err(e) => Err(e),
                    Ok((st2, items)) => match split_run(
                        st2,
                        buf.subrange(size as int, buf.len() as int),
                    ) {
                        Err(e) => Err(e),
                        Ok((st3, rest, more)) => Ok((st3, rest, items + more)),
                    },
                }
            }
        },
    }
}

/// The bytes of one item.
pub open spec fn item_bytes(item: CmafItemView) -> Seq<u8> {
    match item {
        CmafItemView::Init(b) => b,
        CmafItemView::Fragment(b) => b,
    }
}

/// The bytes of all items, in order.
pub open spec fn flatten_items(items: Seq<CmafItemView>) -> Seq<u8>
    decreases items.len(),
{
    if items.len() == 0 {
        Seq::empty()
    } else {
        flatten_items(items.drop_last()) + item_bytes(items.last())
    }
}

/// How many init segments `items` holds.
pub open spec fn count_inits(items: Seq<CmafItemView>) -> nat
    decreases items.len(),
{
    if items.len() == 0 {
        0
    } else {
        count_inits(items.drop_last()) + if items.last() is Init {
            1nat
        } else {
            0nat
        }
    }
}

proof fn lemma_flatten_append(a: Seq<CmafItemView>, b: Seq<CmafItemView>)
    ensures
        flatten_items(a + b) == flatten_items(a) + flatten_items(b),
        count_inits(a + b) == count_inits(a) + count_inits(b),
    decreases b.len(),
{
    if b.len() == 0 {
        assert(a + b =~= a);
        assert(flatten_items(b) =~= Seq::<u8>::empty());
        assert(flatten_items(a) + flatten_items(b) =~= flatten_items(a));
    } else {
        lemma_flatten_append(a, b.drop_last());
        assert((a + b).drop_last() =~= a + b.drop_last());
        assert((a + b).last() == b.last());
        assert(flatten_items(a + b) =~= flatten_items(a) + flatten_items(b));
    }
}

proof fn lemma_single_item(i: CmafItemView)
    ensures
        flatten_items(seq![i]) == item_bytes(i),
        count_inits(seq![i]) == (if i is Init { 1nat } else { 0nat }),
{
    assert(seq![i].drop_last() =~= Seq::<CmafItemView>::empty());
    assert(seq![i].last() == i);
    assert(flatten_items(Seq::<CmafItemView>::empty()) == Seq::<u8>::empty());
    assert(count_inits(Seq::<CmafItemView>::empty()) == 0);
    assert(flatten_items(seq![i]) =~= item_bytes(i));
}

/// One box keeps the state well formed and moves its bytes from the input to the output
/// or the pending bytes.
proof fn lemma_box_step_conserves(st: SplitState, bx: Seq<u8>, box_type: u32)
    requires
        st.wf(),
    ensures
        box_step(st, bx, box_type) matches Ok((st2, items)) ==> {
            &&& st2.wf()
            &&& flatten_items(items) + st2.pending() == st.pending() + bx
            &&& st.init_done ==> st2.init_done
            &&& count_inits(items) == (if !st.init_done && st2.init_done { 1nat } else { 0nat })
            &&& items.len() <= 1
        },
{
    match box_step(st, bx, box_type) {
        Err(e) => {},
        Ok((st2, items)) => {
            if items.len() == 1 {
                lemma_single_item(items[0]);
                assert(items =~= seq![items[0]]);
            } else {
                assert(items =~= Seq::<CmafItemView>::empty());
                assert(flatten_items(items) =~= Seq::<u8>::empty());
                assert(count_inits(items) == 0);
            }
            assert(flatten_items(items) + st2.pending() =~= st.pending() + bx);
        },
    }
}

/// The splitter loses and invents no byte. What it emits, followed by what it still
/// holds, is exactly what it held before followed by the new input; it stays well formed;
/// and it emits the init segment once, at the moment the init segment completes.
#[verifier::rlimit(40)]
pub proof fn lemma_split_conserves_bytes(st: SplitState, buf: Seq<u8>)
    requires
        st.wf(),
    ensures
        split_run(st, buf) matches Ok((st2, rest, items)) ==> {
            &&& st2.wf()
            &&& flatten_items(items) + st2.pending() + rest == st.pending() + buf
            &&& st.init_done ==> st2.init_done
            &&& count_inits(items) == (if !st.init_done && st2.init_done { 1nat } else { 0nat })
        },
    decreases buf.len(),
{
    lemma_peek_size(buf);
    match peek_box_spec(buf) {
        Err(e) => {},
        Ok(None) => {
            assert(flatten_items(Seq::<CmafItemView>::empty()) =~= Seq::<u8>::empty());
            assert(Seq::<u8>::empty() + st.pending() + buf =~= st.pending() + buf);
        },
        Ok(Some((size, box_type))) => {
            if buf.len() < size {
                assert(flatten_items(Seq::<CmafItemView>::empty()) =~= Seq::<u8>::empty());
                assert(Seq::<u8>::empty() + st.pending() + buf =~= st.pending() + buf);
            } else {
                let bx = buf.subrange(0, size as int);
                let tail = buf.subrange(size as int, buf.len() as int);
                assert(buf =~= bx + tail);
                match box_step(st, bx, box_type) {
                    Err(e) => {},
                    Ok((st2, items)) => {
                        lemma_split_conserves_bytes(st2, tail);
                        lemma_box_step_conserves(st, bx, box_type);
                        match split_run(st2, tail) {
                            Err(e) => {},
                            Ok((st3, rest, more)) => {
                                lemma_flatten_append(items, more);
                                assert(flatten_items(items + more) + st3.pending() + rest
                                    =~= flatten_items(items) + (flatten_items(more)
                                    + st3.pending() + rest));
                                assert(st.pending() + buf =~= (st.pending() + bx) + tail);
                            },
                        }
                    },
                }
            }
        },
    }
}

/// What splitting yields when `extra` arrives after a first split that gave `first`:
/// the first items, then whatever the state and the kept bytes, with `extra` appended,
/// give.
pub open spec fn split_more(
    first: Result<(SplitState, Seq<u8>, Seq<CmafItemView>), CmafSplitError>,
    extra: Seq<u8>,
) -> Result<(SplitState, Seq<u8>, Seq<CmafItemView>), CmafSplitError> {
    match first {
        Err(e) => Err(e),
        Ok((st1, rest1, items1)) => match split_run(st1, rest1 + extra) {
            Err(e) => Err(e),
            Ok((st2, rest2, items2)) => Ok((st2, rest2, items1 + items2)),
        },
    }
}

/// Every fragment in `items` comes after an init segment, unless the init segment was
/// already `done` before them.
pub open spec fn init_first(done: bool, items: Seq<CmafItemView>) -> bool {
    forall|j: int|
        0 <= j < items.len() && (#[trigger] items[j]) is Fragment ==> done || exists|i: int|
            0 <= i < j && items[i] is Init
}

/// A box header that can be read, or rejected, stays so whatever bytes follow.
proof fn lemma_peek_prefix(buf: Seq<u8>, extra: Seq<u8>)
    ensures
        peek_box_spec(buf) != Ok::<Option<(nat, u32)>, CmafSplitError>(None) ==> peek_box_spec(
            buf + extra,
        ) == peek_box_spec(buf),
{
    let b2 = buf + extra;
    if buf.len() >= 8 {
        assert(b2[0] == buf[0] && b2[1] == buf[1] && b2[2] == buf[2] && b2[3] == buf[3]);
        assert(b2[4] == buf[4] && b2[5] == buf[5] && b2[6] == buf[6] && b2[7] == buf[7]);
        assert(be32(b2, 0) == be32(buf, 0));
        assert(be32(b2, 4) == be32(buf, 4));
        if buf.len() >= 16 {
            assert(b2[8] == buf[8] && b2[9] == buf[9] && b2[10] == buf[10] && b2[11] == buf[11]);
            assert(b2[12] == buf[12] && b2[13] == buf[13] && b2[14] == buf[14] && b2[15] == buf[15]);
            assert(be64(b2, 8) == be64(buf, 8));
        }
    }
}

/// Chunk boundaries do not matter: splitting `buf` followed by `extra` in one go gives
/// the same state, kept bytes and items, or the same error, as splitting `buf` and then
/// splitting what it kept followed by `extra`.
#[verifier::rlimit(40)]
pub proof fn lemma_chunk_boundaries_do_not_matter(st: SplitState, buf: Seq<u8>, extra: Seq<u8>)
    ensures
        split_run(st, buf + extra) == split_more(split_run(st, buf), extra),
    decreases buf.len(),
{
    lemma_peek_prefix(buf, extra);
    lemma_peek_size(buf);
    let b2 = buf + extra;
    match peek_box_spec(buf) {
        Err(e) => {},
        Ok(None) => {
            assert(Seq::<CmafItemView>::empty() + split_run(st, b2)->Ok_0.2 =~= split_run(st, b2)->Ok_0.2);
        },
        Ok(Some((size, box_type))) => {
            if buf.len() < size {
                assert(Seq::<CmafItemView>::empty() + split_run(st, b2)->Ok_0.2 =~= split_run(st, b2)->Ok_0.2);
            } else {
                let bx = buf.subrange(0, size as int);
                let tail = buf.subrange(size as int, buf.len() as int);
                assert(b2.subrange(0, size as int) =~= bx);
                assert(b2.subrange(size as int, b2.len() as int) =~= tail + extra);
                match box_step(st, bx, box_type) {
                    Err(e) => {},
                    Ok((st2, items)) => {
                        lemma_chunk_boundaries_do_not_matter(st2, tail, extra);
                        match split_run(st2, tail) {
                            Err(e) => {},
                            Ok((st3, rest3, more)) => {
                                match split_run(st3, rest3 + extra) {
                                    Err(e) => {},
                                    Ok((st4, rest4, more2)) => {
                                        assert(items + (more + more2) =~= (items + more) + more2);
                                    },
                                }
                            },
                        }
                    },
                }
            }
        },
    }
}

/// Pushing `first` and then `second` into a splitter that holds `buffered` emits, in
/// order, what pushing `first` followed by `second` at once emits, and leaves the same
/// state and the same kept bytes; if one push fails, so does the other, with the same
/// error.
pub proof fn lemma_two_pushes_as_one(
    st: SplitState,
    buffered: Seq<u8>,
    first: Seq<u8>,
    second: Seq<u8>,
)
    ensures
        split_run(st, buffered + (first + second)) == split_more(
            split_run(st, buffered + first),
            second,
        ),
{
    assert(buffered + (first + second) =~= (buffered + first) + second);
    lemma_chunk_boundaries_do_not_matter(st, buffered + first, second);
}

/// The chunks `cs` one after another.
pub open spec fn chunks_concat(cs: Seq<Seq<u8>>) -> Seq<u8>
    decreases cs.len(),
{
    if cs.len() == 0 {
        Seq::empty()
    } else {
        chunks_concat(cs.drop_last()) + cs.last()
    }
}

/// What a splitter in state `st` holding `buffered` emits over pushes of `chunks`, one
/// push per chunk: the items of all pushes in order, with the final state and kept
/// bytes, or the first error.
pub open spec fn split_pushes(st: SplitState, buffered: Seq<u8>, chunks: Seq<Seq<u8>>) -> Result<
    (SplitState, Seq<u8>, Seq<CmafItemView>),
    CmafSplitError,
>
    decreases chunks.len(),
{
    if chunks.len() == 0 {
        split_run(st, buffered)
    } else {
        split_more(split_pushes(st, buffered, chunks.drop_last()), chunks.last())
    }
}

/// Pushing chunks one by one gives what pushing their concatenation at once gives:
/// the same items in the same order, state and kept bytes, or the same error. Over all
/// the pushes at most one init segment is emitted, and it comes before every fragment
/// (unless the init segment was already done).
pub proof fn lemma_pushes_as_one(st: SplitState, buffered: Seq<u8>, chunks: Seq<Seq<u8>>)
    requires
        st.wf(),
    ensures
        split_pushes(st, buffered, chunks) == split_run(st, buffered + chunks_concat(chunks)),
        split_pushes(st, buffered, chunks) matches Ok((st2, rest, items)) ==> {
            &&& init_first(st.init_done, items)
            &&& count_inits(items) <= 1
        },
    decreases chunks.len(),
{
    if chunks.len() == 0 {
        assert(buffered + chunks_concat(chunks) =~= buffered);
    } else {
        let init = chunks.drop_last();
        lemma_pushes_as_one(st, buffered, init);
        lemma_chunk_boundaries_do_not_matter(st, buffered + chunks_concat(init), chunks.last());
        assert((buffered + chunks_concat(init)) + chunks.last() =~= buffered + chunks_concat(chunks));
    }
    lemma_init_precedes_fragments(st, buffered + chunks_concat(chunks));
    lemma_split_conserves_bytes(st, buffered + chunks_concat(chunks));
}

/// Until the init segment is done, a box emits nothing or the init segment and sets
/// `init_done` exactly when it emits it; afterwards it emits nothing or a fragment.
proof fn lemma_box_step_order(st: SplitState, bx: Seq<u8>, box_type: u32)
    ensures
        box_step(st, bx, box_type) matches Ok((st2, items)) ==> {
            &&& !st.init_done ==> (items.len() == 0 && !st2.init_done) || (items.len() == 1
                && items[0] is Init && st2.init_done)
            &&& st.init_done ==> st2.init_done && (items.len() == 0 || (items.len() == 1
                && items[0] is Fragment))
        },
{
}

/// The init segment comes before every fragment: in what one split emits, a fragment
/// follows an init segment unless the init segment was already done.
#[verifier::rlimit(40)]
pub proof fn lemma_init_precedes_fragments(st: SplitState, buf: Seq<u8>)
    ensures
        split_run(st, buf) matches Ok((st2, rest, items)) ==> {
            &&& init_first(st.init_done, items)
            &&& st.init_done ==> st2.init_done
        },
    decreases buf.len(),
{
    lemma_peek_size(buf);
    match peek_box_spec(buf) {
        Err(e) => {},
        Ok(None) => {},
        Ok(Some((size, box_type))) => {
            if buf.len() >= size {
                let bx = buf.subrange(0, size as int);
                let tail = buf.subrange(size as int, buf.len() as int);
                lemma_box_step_order(st, bx, box_type);
                match box_step(st, bx, box_type) {
                    Err(e) => {},
                    Ok((st2, items)) => {
                        lemma_init_precedes_fragments(st2, tail);
                        match split_run(st2, tail) {
                            Err(e) => {},
                            Ok((st3, rest3, more)) => {
                                let all = items + more;
                                assert forall|j: int|
                                    0 <= j < all.len() && (#[trigger] all[j]) is Fragment implies st.init_done
                                    || exists|i: int| 0 <= i < j && all[i] is Init by {
                                    if !st.init_done {
                                        if items.len() == 1 {
                                            assert(all[0] is Init);
                                        } else {
                                            assert(all[j] == more[j]);
                                            let i = choose|i: int| 0 <= i < j && more[i] is Init;
                                            assert(all[i] == more[i]);
                                        }
                                    }
                                }
                            },
                        }
                    },
                }
            }
        },
    }
}

/// One output of the splitter: the init segment (`ftyp` .. `moov`), or one media
/// fragment ending with its `mdat` box.
#[derive(Debug)]
pub enum CmafItem {
    Init(Vec<u8>),
    Fragment(Vec<u8>),
}

impl View for CmafItem {
    type V = CmafItemView;

    open spec fn view(&self) -> CmafItemView {
        match self {
            CmafItem::Init(b) => CmafItemView::Init(b@),
            CmafItem::Fragment(b) => CmafItemView::Fragment(b@),
        }
    }
}

/// The views of a list of items.
pub open spec fn items_view(items: Seq<CmafItem>) -> Seq<CmafItemView> {
    items.map_values(|i: CmafItem| i@)
}

/// Incremental CMAF splitter.
#[derive(Debug, Default)]
pub struct CmafSplitter {
    buffer: Vec<u8>,
    init_done: bool,
    init: Vec<u8>,
    fragment: Vec<u8>,
    seen_ftyp: bool,
    seen_moov: bool,
}

/// The big-endian value of `b[at..at + 4]`.
fn read_be32(b: &Vec<u8>, at: usize) -> (r: u32)
    requires
        at + 4 <= b.len(),
    ensures
        r as nat == be32(b@, at as int),
{
    (b[at] as u32) * 16777216 + (b[at + 1] as u32) * 65536 + (b[at + 2] as u32) * 256 + (b[at
        + 3] as u32)
}

impl CmafSplitter {
    /// The state the spec functions speak of.
    pub closed spec fn state(&self) -> SplitState {
        SplitState {
            init_done: self.init_done,
            init: self.init@,
            fragment: self.fragment@,
            seen_ftyp: self.seen_ftyp,
            seen_moov: self.seen_moov,
        }
    }

    /// The bytes received but not yet cut into a box.
    pub closed spec fn buffered(&self) -> Seq<u8> {
        self.buffer@
    }

    /// An empty splitter, waiting for the init segment.
    pub fn new() -> (s: Self)
        ensures
            s.state() == (SplitState {
                init_done: false,
                init: Seq::empty(),
                fragment: Seq::empty(),
                seen_ftyp: false,
                seen_moov: false,
            }),
            s.buffered() == Seq::<u8>::empty(),
    {
        CmafSplitter {
            buffer: Vec::new(),
            init_done: false,
            init: Vec::new(),
            fragment: Vec::new(),
            seen_ftyp: false,
            seen_moov: false,
        }
    }

    /// Reads the header of the next box, if the buffer holds all of it.
    fn peek_box(&self) -> (r: Result<Option<(usize, u32)>, CmafSplitError>)
        ensures
            match r {
                Ok(Some((size, box_type))) => peek_box_spec(self.buffer@) == Ok::<
                    Option<(nat, u32)>,
                    CmafSplitError,
                >(Some((size as nat, box_type))),
                Ok(None) => peek_box_spec(self.buffer@) == Ok::<
                    Option<(nat, u32)>,
                    CmafSplitError,
                >(None),
                Err(e) => peek_box_spec(self.buffer@) == Err::<Option<(nat, u32)>, CmafSplitError>(
                    e,
                ),
            },
    {
        if self.buffer.len() < 8 {
            return Ok(None);
        }
        let size32 = read_be32(&self.buffer, 0);
        let box_type = read_be32(&self.buffer, 4);
        if size32 == 1 {
            if self.buffer.len() < 16 {
                return Ok(None);
            }
            let hi = read_be32(&self.buffer, 8) as u64;
            let lo = read_be32(&self.buffer, 12) as u64;
            let size64: u64 = hi * 4294967296 + lo;
            if size64 > usize::MAX as u64 {
                return Err(CmafSplitError::SizeConversion { size: size64 });
            }
            let size = size64 as usize;
            if size < 16 {
                return Err(CmafSplitError::InvalidExtendedSize { size: size64 });
            }
            return Ok(Some((size, box_type)));
        }
        if size32 == 0 {
            return Err(CmafSplitError::ZeroSize);
        }
        if size32 < 8 {
            return Err(CmafSplitError::InvalidSize { declared: size32 });
        }
        Ok(Some((size32 as usize, box_type)))
    }

    /// Cuts every whole box at the head of the buffer, appending what it emits to `out`.
    fn drain_boxes(&mut self, out: &mut Vec<CmafItem>) -> (r: Result<(), CmafSplitError>)
        ensures
            match split_run(old(self).state(), old(self).buffered()) {
                Ok((st, rest, items)) => {
                    &&& r is Ok
                    &&& items_view(final(out)@) == items_view(old(out)@) + items
                    &&& final(self).state() == st
                    &&& final(self).buffered() == rest
                },
                Err(e) => r == Err::<(), CmafSplitError>(e),
            },
        decreases old(self).buffered().len(),
    {
        let ghost st0 = self.state();
        let ghost buf0 = self.buffer@;
        let ghost out0 = items_view(out@);
        let (box_size, box_type) = match self.peek_box() {
            Err(e) => {
                return Err(e);
            },
            Ok(None) => {
                assert(items_view(out@) + Seq::<CmafItemView>::empty() =~= items_view(out@));
                return Ok(());
            },
            Ok(Some(found)) => found,
        };
        if self.buffer.len() < box_size {
            assert(items_view(out@) + Seq::<CmafItemView>::empty() =~= items_view(out@));
            return Ok(());
        }
        proof {
            lemma_peek_size(buf0);
        }
        let mut rest = self.buffer.split_off(box_size);
        std::mem::swap(&mut self.buffer, &mut rest);
        let mut mp4_box = rest;
        let ghost bx = mp4_box@;
        assert(bx == buf0.subrange(0, box_size as int));
        assert(self.buffer@ == buf0.subrange(box_size as int, buf0.len() as int));
        let ghost step = box_step(st0, bx, box_type);
        if !self.init_done {
            if box_type == BOX_FTYP {
                self.seen_ftyp = true;
                self.init.append(&mut mp4_box);
            } else if box_type == BOX_MOOV {
                self.seen_moov = true;
                self.init.append(&mut mp4_box);
                if !self.seen_ftyp {
                    return Err(CmafSplitError::MoovBeforeFtyp);
                }
                self.init_done = true;
                let init = self.init.split_off(0);
                assert(self.init@ =~= Seq::<u8>::empty());
                assert(init@ =~= st0.init + bx);
                out.push(CmafItem::Init(init));
            } else if box_type == BOX_MOOF {
                return Err(
                    CmafSplitError::InitIncompleteBeforeMoof {
                        seen_ftyp: self.seen_ftyp,
                        seen_moov: self.seen_moov,
                    },
                );
            } else {
                self.init.append(&mut mp4_box);
            }
        } else {
            self.fragment.append(&mut mp4_box);
            if box_type == BOX_MDAT {
                let fragment = self.fragment.split_off(0);
                assert(self.fragment@ =~= Seq::<u8>::empty());
                assert(fragment@ =~= st0.fragment + bx);
                out.push(CmafItem::Fragment(fragment));
            }
        }
        let ghost (st2, items) = step.unwrap();
        proof {
            assert(self.state().init =~= st2.init);
            assert(self.state().fragment =~= st2.fragment);
            assert(self.state() == st2);
            assert(items_view(out@) =~= out0 + items);
        }
        let ghost out1 = items_view(out@);
        let r = self.drain_boxes(out);
        proof {
            match split_run(st2, buf0.subrange(box_size as int, buf0.len() as int)) {
                Ok((st3, rest3, more)) => {
                    assert(out0 + (items + more) =~= (out0 + items) + more);
                },
                Err(e) => {},
            }
        }
        r
    }

    /// Appends `chunk` to the buffered bytes and cuts every whole box now available,
    /// returning the init segment once it completes and each fragment as its `mdat`
    /// box completes.
    pub fn push(&mut self, chunk: Vec<u8>) -> (r: Result<Vec<CmafItem>, RelayError>)
        ensures
            match split_run(old(self).state(), old(self).buffered() + chunk@) {
                Ok((st, rest, items)) => {
                    &&& r matches Ok(out) && items_view(out@) == items
                    &&& final(self).state() == st
                    &&& final(self).buffered() == rest
                },
                Err(e) => r == Err::<Vec<CmafItem>, RelayError>(RelayError::CmafSplit(e)),
            },
    {
        let mut input = chunk;
        self.buffer.append(&mut input);
        let mut out: Vec<CmafItem> = Vec::new();
        assert(items_view(out@) =~= Seq::<CmafItemView>::empty());
        match self.drain_boxes(&mut out) {
            Ok(()) => {
                proof {
                    let items = split_run(old(self).state(), old(self).buffered() + chunk@)->Ok_0.2;
                    assert(Seq::<CmafItemView>::empty() + items =~= items);
                }
                Ok(out)
            },
            Err(e) => Err(RelayError::CmafSplit(e)),
        }
    }
}

} // verus!
