//! Finds an MP4 box inside an init segment by its four-character type.
use crate::sfu::relay::cmaf::cmaf_splitter::be32;
use vstd::prelude::*;

verus! {

/// Whether the four bytes of `name` occur in `data` at `p`.
pub open spec fn name_at(data: Seq<u8>, name: Seq<u8>, p: int) -> bool {
    &&& 0 <= p
    &&& p + 4 <= data.len()
    &&& data[p] == name[0]
    &&& data[p + 1] == name[1]
    &&& data[p + 2] == name[2]
    &&& data[p + 3] == name[3]
}

/// `p` is the first position where `name` occurs in `data`.
pub open spec fn first_name_at(data: Seq<u8>, name: Seq<u8>, p: int) -> bool {
    name_at(data, name, p) && forall|q: int| 0 <= q < p ==> !#[trigger] name_at(data, name, q)
}

/// The payload of the box whose type is the first occurrence of `name` in `data`: the
/// bytes after the type, up to the end that the four size bytes before the type declare.
/// `None` when `name` does not occur, when it occurs too early to have size bytes, when
/// the size is below a box header, or when the box runs past the data.
pub open spec fn box_payload_spec(data: Seq<u8>, name: Seq<u8>) -> Option<Seq<u8>> {
    if exists|p: int| first_name_at(data, name, p) {
        let pos = choose|p: int| first_name_at(data, name, p);
        if pos < 4 {
            None
        } else {
            let size = be32(data, pos - 4);
            if size < 8 || pos - 4 + size > data.len() {
                None
            } else {
                Some(data.subrange(pos + 4, pos - 4 + size))
            }
        }
    } else {
        None
    }
}

/// The first position where `name` occurs in `data`.
fn find_name(data: &[u8], name: &[u8; 4]) -> (r: Option<usize>)
    ensures
        match r {
            Some(p) => first_name_at(data@, name@, p as int),
            None => forall|x: int| !#[trigger] first_name_at(data@, name@, x),
        },
{
    let n = data.len();
    let mut p: usize = 0;
    while p < n && n - p >= 4
        invariant
            n == data@.len(),
            p <= n,
            forall|q: int| 0 <= q < p ==> !#[trigger] name_at(data@, name@, q),
        decreases n - p,
    {
        if data[p] == name[0] && data[p + 1] == name[1] && data[p + 2] == name[2] && data[p + 3]
            == name[3] {
            return Some(p);
        }
        p = p + 1;
    }
    assert forall|x: int| !#[trigger] first_name_at(data@, name@, x) by {
        if first_name_at(data@, name@, x) {
            assert(name_at(data@, name@, x));
            assert(x < p);
        }
    }
    None
}

/// Extracts the payload of the first box of type `box_name` found in `data`.
pub fn extract_box_payload(data: &[u8], box_name: &[u8; 4]) -> (r: Option<Vec<u8>>)
    ensures
        match (r, box_payload_spec(data@, box_name@)) {
            (Some(v), Some(s)) => v@ == s,
            (None, None) => true,
            _ => false,
        },
{
    let n = data.len();
    let pos = match find_name(data, box_name) {
        Some(pos) => pos,
        None => {
            return None;
        },
    };
    assert(first_name_at(data@, box_name@, pos as int));
    let ghost chosen = choose|q: int| first_name_at(data@, box_name@, q);
    assert(chosen == pos) by {
        assert(first_name_at(data@, box_name@, chosen));
        if chosen < pos {
            assert(!name_at(data@, box_name@, chosen));
        } else if chosen > pos {
            assert(!name_at(data@, box_name@, pos as int));
        }
    }
    if pos < 4 {
        return None;
    }
    let size_pos = pos - 4;
    let size = ((data[size_pos] as u32) * 16777216 + (data[size_pos + 1] as u32) * 65536 + (
    data[size_pos + 2] as u32) * 256 + (data[size_pos + 3] as u32)) as usize;
    if size < 8 {
        return None;
    }
    let end = match size_pos.checked_add(size) {
        Some(end) => end,
        None => {
            return None;
        },
    };
    if end > n {
        return None;
    }
    let mut payload: Vec<u8> = Vec::new();
    let mut i = pos + 4;
    while i < end
        invariant
            pos + 4 <= i <= end <= n == data@.len(),
            payload@ == data@.subrange(pos + 4, i as int),
        decreases end - i,
    {
        payload.push(data[i]);
        assert(data@.subrange(pos + 4, i + 1) == data@.subrange(pos + 4, i as int).push(data@[i as int]));
        i = i + 1;
    }
    Some(payload)
}

} // verus!
