//! Random identifiers, and the leading part of a track id.
use vstd::prelude::*;
use rand::Rng;
use crate::util::text::{push_char, str_chars, string_from_chars};

verus! {

/// The alphabet of random identifiers: `A`-`Z`, `a`-`z`, `0`-`9`, in that order.
pub open spec fn id_alphabet(i: int) -> char {
    if i < 26 {
        ((65 + i) as u8) as char
    } else if i < 52 {
        ((97 + i - 26) as u8) as char
    } else {
        ((48 + i - 52) as u8) as char
    }
}

/// Whether a character is an ASCII letter or digit.
pub open spec fn is_alphanumeric(c: char) -> bool {
    ('A' <= c && c <= 'Z') || ('a' <= c && c <= 'z') || ('0' <= c && c <= '9')
}

/// A number drawn uniformly below `bound` by `rand::Rng::gen_range(0..bound)` on the
/// thread-local generator. Nothing is promised of the value but its range.
#[verifier::external_body]
fn random_below(bound: usize) -> (r: usize)
    requires
        bound > 0,
    ensures
        r < bound,
{
    rand::thread_rng().gen_range(0..bound)
}

/// The character at position `i` of the identifier alphabet.
fn alphabet_char(i: usize) -> (c: char)
    requires
        i < 62,
    ensures
        c == id_alphabet(i as int),
        is_alphanumeric(c),
{
    let b: u8 = if i < 26 {
        65 + (i as u8)
    } else if i < 52 {
        97 + (i as u8) - 26
    } else {
        48 + (i as u8) - 52
    };
    b as char
}

/// A random identifier of `len` ASCII letters and digits.
pub fn random_id(len: usize) -> (s: String)
    ensures
        s@.len() == len,
        forall|i: int| 0 <= i < len ==> is_alphanumeric(#[trigger] s@[i]),
{
    let mut s = String::new();
    let mut k: usize = 0;
    while k < len
        invariant
            k <= len,
            s@.len() == k,
            forall|i: int| 0 <= i < k ==> is_alphanumeric(#[trigger] s@[i]),
        decreases len - k,
    {
        let idx = random_below(62);
        let c = alphabet_char(idx);
        push_char(&mut s, c);
        k = k + 1;
    }
    s
}

/// Whether a character is an ASCII hexadecimal digit.
pub open spec fn is_hex_digit(c: char) -> bool {
    ('0' <= c && c <= '9') || ('a' <= c && c <= 'f') || ('A' <= c && c <= 'F')
}

/// The end of the run of hexadecimal digits that starts at `from`.
pub open spec fn hex_run_end(s: Seq<char>, from: int) -> int
    decreases s.len() - from,
{
    if from < 0 || from >= s.len() {
        s.len() as int
    } else if !is_hex_digit(s[from]) {
        from
    } else {
        hex_run_end(s, from + 1)
    }
}

/// What the pattern `^\{?([0-9a-fA-F]+)-` captures in a track id: after an optional
/// leading `{`, a non-empty run of hexadecimal digits that a `-` follows.
pub open spec fn track_id_start_spec(s: Seq<char>) -> Option<Seq<char>> {
    let start: int = if s.len() > 0 && s[0] == '{' { 1 } else { 0 };
    let end = hex_run_end(s, start);
    if start < end && end < s.len() && s[end] == '-' {
        Some(s.subrange(start, end))
    } else {
        None
    }
}

proof fn lemma_hex_run_end(s: Seq<char>, from: int, r: int)
    requires
        0 <= from <= r <= s.len(),
        forall|j: int| from <= j < r ==> is_hex_digit(s[j]),
        r < s.len() ==> !is_hex_digit(s[r]),
    ensures
        hex_run_end(s, from) == r,
    decreases r - from,
{
    if from < r {
        lemma_hex_run_end(s, from + 1, r);
    }
}

/// The hexadecimal first part of a track id such as `{1a2b-...}`, if it has one.
pub fn parse_track_id_start(track_id: &str) -> (r: Option<String>)
    ensures
        match track_id_start_spec(track_id@) {
            Some(p) => r is Some && r->0@ == p,
            None => r is None,
        },
{
    let v = str_chars(track_id);
    let start: usize = if v.len() > 0 && v[0] == '{' { 1 } else { 0 };
    let mut end: usize = start;
    while end < v.len()
        invariant
            start <= end <= v@.len(),
            v@ == track_id@,
            forall|j: int| start <= j < end ==> is_hex_digit(v@[j]),
        ensures
            start <= end <= v@.len(),
            forall|j: int| start <= j < end ==> is_hex_digit(v@[j]),
            end < v@.len() ==> !is_hex_digit(v@[end as int]),
        decreases v@.len() - end,
    {
        let c = v[end];
        if !(('0' <= c && c <= '9') || ('a' <= c && c <= 'f') || ('A' <= c && c <= 'F')) {
            break;
        }
        end = end + 1;
    }
    proof {
        lemma_hex_run_end(v@, start as int, end as int);
    }
    if start < end && end < v.len() && v[end] == '-' {
        Some(string_from_chars(v.as_slice(), start, end))
    } else {
        None
    }
}

} // verus!
