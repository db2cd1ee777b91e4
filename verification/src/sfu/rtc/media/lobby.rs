//! Lobby identity inside the RTC cores, and the ICE ufrag that routes a packet to its
//! lobby and endpoint.
//!
//! The SFU has one UDP socket per media core, so an arriving packet has to say which
//! lobby and endpoint it belongs to. ICE gives exactly one field to carry that: the ufrag
//! the browser echoes in every STUN binding request.
//!
//! ```text
//! USERNAME        = local_ufrag ":" remote_ufrag
//! local_ufrag     = base64_lobby_id "/" decimal_endpoint_id "+" alpha_ufrag
//! ```
use crate::sfu::endpoint::RtcEndpointId;
use crate::util::text::{
    decimal, digits_value, is_digit, lemma_decimal_digits, lemma_decimal_value, parse_u64,
    parse_u64_spec, rfind_char_before, str_chars, string_from_chars, u64_to_decimal, all_digits,
    strip_plus, lemma_digit_char_value,
};
use base64::engine::general_purpose::STANDARD_NO_PAD;
use base64::Engine;
use vstd::prelude::*;

verus! {

/// A lobby as the RTC cores know it: the sixteen bytes of a UUID minted by the
/// signaling authority, treated as opaque.
#[derive(Debug, Clone, Copy, PartialEq, Eq, Hash)]
pub struct RtcLobbyId {
    bytes: [u8; 16],
}

impl View for RtcLobbyId {
    type V = Seq<u8>;

    closed spec fn view(&self) -> Seq<u8> {
        self.bytes@
    }
}

impl RtcLobbyId {
    /// The lobby whose UUID has these bytes.
    pub fn from_bytes(bytes: [u8; 16]) -> (id: RtcLobbyId)
        ensures
            id@ == bytes@,
    {
        RtcLobbyId { bytes }
    }

    /// The UUID bytes of this lobby.
    pub fn as_bytes(&self) -> (b: &[u8; 16])
        ensures
            b@ == self@,
    {
        &self.bytes
    }

    /// Whether two ids name the same lobby.
    pub fn same_as(&self, other: &RtcLobbyId) -> (b: bool)
        ensures
            b == (self@ == other@),
    {
        proof {
            self.lemma_len();
            other.lemma_len();
        }
        let mut i: usize = 0;
        while i < 16
            invariant
                i <= 16,
                self.bytes@.len() == 16,
                other.bytes@.len() == 16,
                forall|j: int| 0 <= j < i ==> self.bytes@[j] == other.bytes@[j],
            decreases 16 - i,
        {
            if self.bytes[i] != other.bytes[i] {
                return false;
            }
            i = i + 1;
        }
        assert(self.bytes@ =~= other.bytes@);
        true
    }

    /// A lobby id always has sixteen bytes.
    pub proof fn lemma_len(&self)
        ensures
            self@.len() == 16,
    {
    }
}

/// What `base64`'s `STANDARD_NO_PAD` engine encodes `bytes` to.
pub uninterp spec fn base64_no_pad_encode(bytes: Seq<u8>) -> Seq<char>;

/// What `base64`'s `STANDARD_NO_PAD` engine decodes `text` to, or `None` when it rejects it.
pub uninterp spec fn base64_no_pad_decode(text: Seq<char>) -> Option<Seq<u8>>;

/// A character of the standard base64 alphabet.
pub open spec fn is_base64_char(c: char) -> bool {
    ('A' <= c && c <= 'Z') || ('a' <= c && c <= 'z') || ('0' <= c && c <= '9') || c == '+' || c
        == '/'
}

/// An ASCII letter.
pub open spec fn is_ascii_alpha(c: char) -> bool {
    ('A' <= c && c <= 'Z') || ('a' <= c && c <= 'z')
}

/// A character ICE allows in a ufrag: `ALPHA / DIGIT / "+" / "/"`.
pub open spec fn is_ice_char(c: char) -> bool {
    is_base64_char(c)
}

/// Encodes with `base64`'s `STANDARD_NO_PAD` engine. As that crate documents: the output
/// uses the standard alphabet, has `ceil(4n/3)` characters without padding, and decodes
/// back to the input.
#[verifier::external_body]
fn base64_encode_no_pad(bytes: &[u8]) -> (s: String)
    ensures
        s@ == base64_no_pad_encode(bytes@),
        s@.len() == (4 * bytes@.len() + 2) / 3,
        forall|i: int| 0 <= i < s@.len() ==> is_base64_char(#[trigger] s@[i]),
        base64_no_pad_decode(s@) == Some(bytes@),
{
    STANDARD_NO_PAD.encode(bytes)
}

/// Decodes with `base64`'s `STANDARD_NO_PAD` engine; `None` where it reports an error.
#[verifier::external_body]
fn base64_decode_no_pad(text: &str) -> (r: Option<Vec<u8>>)
    ensures
        match r {
            Some(v) => base64_no_pad_decode(text@) == Some(v@),
            None => base64_no_pad_decode(text@) is None,
        },
{
    STANDARD_NO_PAD.decode(text).ok()
}

/// A fresh ICE username fragment from `rtc`'s `generate_ufrag`: sixteen random ASCII
/// letters, as its source shows. Two calls may return anything of that shape.
#[verifier::external_body]
fn generate_ufrag() -> (s: String)
    ensures
        s@.len() == 16,
        forall|i: int| 0 <= i < s@.len() ==> is_ascii_alpha(#[trigger] s@[i]),
{
    rtc::ice::rand::generate_ufrag()
}

/// Renders a lobby id as unpadded standard base64.
pub fn encode_rtc_lobby_id(rtc_lobby_id: &RtcLobbyId) -> (s: String)
    ensures
        s@ == base64_no_pad_encode(rtc_lobby_id@),
        s@.len() == 22,
        forall|i: int| 0 <= i < s@.len() ==> is_base64_char(#[trigger] s@[i]),
        base64_no_pad_decode(s@) == Some(rtc_lobby_id@),
{
    proof {
        rtc_lobby_id.lemma_len();
    }
    base64_encode_no_pad(rtc_lobby_id.as_bytes())
}

/// The lobby id a base64 token names: it must decode, and to exactly sixteen bytes.
pub open spec fn decode_lobby_spec(token: Seq<char>) -> Option<Seq<u8>> {
    match base64_no_pad_decode(token) {
        Some(b) => if b.len() == 16 {
            Some(b)
        } else {
            None
        },
        None => None,
    }
}

/// Parses a lobby id from unpadded standard base64.
pub fn decode_rtc_lobby_id(token: &str) -> (r: Option<RtcLobbyId>)
    ensures
        match decode_lobby_spec(token@) {
            Some(b) => r matches Some(id) && id@ == b,
            None => r is None,
        },
{
    let bytes = match base64_decode_no_pad(token) {
        Some(bytes) => bytes,
        None => {
            return None;
        },
    };
    if bytes.len() != 16 {
        return None;
    }
    let mut arr: [u8; 16] = [0u8; 16];
    let mut i: usize = 0;
    while i < 16
        invariant
            i <= 16,
            bytes@.len() == 16,
            arr@.len() == 16,
            forall|j: int| 0 <= j < i ==> arr@[j] == bytes@[j],
        decreases 16 - i,
    {
        arr.set(i, bytes[i]);
        i = i + 1;
    }
    assert(arr@ =~= bytes@);
    Some(RtcLobbyId::from_bytes(arr))
}

/// The local ufrag for a lobby, an endpoint and a random suffix.
pub open spec fn local_ufrag_text(lobby: Seq<u8>, endpoint_id: RtcEndpointId, suffix: Seq<char>) -> Seq<
    char,
> {
    base64_no_pad_encode(lobby) + seq!['/'] + decimal(endpoint_id as nat) + seq!['+'] + suffix
}

/// Builds the local ufrag that names `rtc_lobby_id` and `endpoint_id`, with a random
/// suffix so that two endpoints of one lobby never share credentials. The result only
/// uses the characters ICE allows and has a length ICE allows.
pub fn encode_local_ufrag(rtc_lobby_id: &RtcLobbyId, endpoint_id: RtcEndpointId) -> (s: String)
    ensures
        exists|suffix: Seq<char>|
            {
                &&& suffix.len() == 16
                &&& forall|i: int| 0 <= i < suffix.len() ==> is_ascii_alpha(#[trigger] suffix[i])
                &&& s@ == local_ufrag_text(rtc_lobby_id@, endpoint_id, suffix)
            },
        4 <= s@.len() <= 256,
        forall|i: int| 0 <= i < s@.len() ==> is_ice_char(#[trigger] s@[i]),
        decode_local_ufrag_spec(s@) == Some((rtc_lobby_id@, endpoint_id)),
{
    let lobby = encode_rtc_lobby_id(rtc_lobby_id);
    let endpoint = u64_to_decimal(endpoint_id);
    let suffix = generate_ufrag();
    let s = lobby.concat("/");
    let s = s.concat(endpoint.as_str());
    let s = s.concat("+");
    let s = s.concat(suffix.as_str());
    proof {
        reveal_strlit("/");
        reveal_strlit("+");
        lemma_decimal_digits(endpoint_id as nat);
        lemma_decimal_len(endpoint_id as nat);
        assert(s@ =~= local_ufrag_text(rtc_lobby_id@, endpoint_id, suffix@));
        rtc_lobby_id.lemma_len();
        lemma_local_ufrag_round_trip(rtc_lobby_id@, endpoint_id, suffix@);
        let a = lobby@.len();
        let b = endpoint@.len();
        assert forall|i: int| 0 <= i < s@.len() implies is_ice_char(#[trigger] s@[i]) by {
            if i < a {
                assert(s@[i] == lobby@[i]);
            } else if i == a {
                assert(s@[i] == '/');
            } else if i < a + 1 + b {
                assert(s@[i] == endpoint@[i - a - 1]);
                assert(is_digit(endpoint@[i - a - 1]));
            } else if i == a + 1 + b {
                assert(s@[i] == '+');
            } else {
                assert(s@[i] == suffix@[i - a - 2 - b]);
            }
        }
    }
    s
}

/// The decimal spelling of a 64-bit number has at most twenty digits.
pub proof fn lemma_decimal_len(n: nat)
    requires
        n <= u64::MAX,
    ensures
        decimal(n).len() <= 20,
{
    reveal_with_fuel(pow10, 21);
    assert(pow10(20) == 100000000000000000000nat);
    lemma_decimal_len_below(n, 20);
}

proof fn lemma_decimal_len_below(n: nat, k: nat)
    requires
        n < pow10(k),
        k >= 1,
    ensures
        decimal(n).len() <= k,
    decreases k,
{
    if n >= 10 {
        assert(n / 10 < pow10((k - 1) as nat)) by {
            assert(pow10(k) == 10 * pow10((k - 1) as nat));
        }
        if k == 1 {
            assert(pow10(1) == 10);
        } else {
            lemma_decimal_len_below(n / 10, (k - 1) as nat);
        }
    }
}

/// Ten to the power `k`.
pub open spec fn pow10(k: nat) -> nat
    decreases k,
{
    if k == 0 {
        1
    } else {
        10 * pow10((k - 1) as nat)
    }
}

/// `i` is the last position of `c` in `s`.
pub open spec fn last_index(s: Seq<char>, c: char, i: int) -> bool {
    0 <= i < s.len() && s[i] == c && forall|j: int| i < j < s.len() ==> s[j] != c
}

/// The last position of `c` in `s`, if `c` occurs.
pub open spec fn rfind_spec(s: Seq<char>, c: char) -> Option<int> {
    if exists|i: int| last_index(s, c, i) {
        Some(choose|i: int| last_index(s, c, i))
    } else {
        None
    }
}

/// A decimal number written the one way `u64`'s `Display` writes it: one or more
/// digits, with no sign and no leading zero (unless the number is 0).
pub open spec fn canonical_decimal(s: Seq<char>) -> bool {
    &&& s.len() > 0
    &&& all_digits(s)
    &&& (s[0] == '0' ==> s.len() == 1)
}

/// A non-empty run of ASCII letters: the random suffix of a local ufrag.
pub open spec fn letter_suffix(s: Seq<char>) -> bool {
    s.len() > 0 && forall|i: int| 0 <= i < s.len() ==> is_ascii_alpha(#[trigger] s[i])
}

/// The lobby bytes and endpoint a local ufrag names, for exactly the texts that
/// [`encode_local_ufrag`] builds: split at the last `+`, after which must come a
/// non-empty run of letters; the part before it splits at its last `/` into a lobby id
/// that must decode to sixteen bytes and a canonical decimal `u64`.
pub open spec fn decode_local_ufrag_spec(s: Seq<char>) -> Option<(Seq<u8>, RtcEndpointId)> {
    match rfind_spec(s, '+') {
        None => None,
        Some(p) => {
            let left = s.subrange(0, p);
            if !letter_suffix(s.subrange(p + 1, s.len() as int)) {
                None
            } else {
                match rfind_spec(left, '/') {
                    None => None,
                    Some(q) => {
                        let num = left.subrange(q + 1, left.len() as int);
                        if !canonical_decimal(num) {
                            None
                        } else {
                            match (decode_lobby_spec(left.subrange(0, q)), parse_u64_spec(num)) {
                                (Some(b), Some(n)) => Some((b, n)),
                                _ => None,
                            }
                        }
                    },
                }
            }
        },
    }
}

/// The decimal spelling of a number starts with `0` only for 0 itself.
proof fn lemma_decimal_canonical(n: nat)
    ensures
        canonical_decimal(decimal(n)),
    decreases n,
{
    lemma_decimal_digits(n);
    if n < 10 {
        lemma_digit_char_value(n);
    } else {
        lemma_decimal_canonical(n / 10);
        lemma_decimal_digits(n / 10);
        assert(decimal(n)[0] == decimal(n / 10)[0]);
        if decimal(n / 10)[0] == '0' {
            assert(decimal(n / 10).len() == 1);
            if n / 10 >= 10 {
                lemma_decimal_digits(n / 10 / 10);
                assert(decimal(n / 10).len() >= 2);
            }
            lemma_digit_char_value(n / 10);
        }
    }
}

proof fn lemma_last_index_unique(s: Seq<char>, c: char, i: int)
    requires
        last_index(s, c, i),
    ensures
        rfind_spec(s, c) == Some(i),
{
    let k = choose|j: int| last_index(s, c, j);
    assert(last_index(s, c, k));
    if k < i {
        assert(s[i] != c);
    } else if k > i {
        assert(s[k] != c);
    }
}

/// Recovers the lobby and endpoint a local ufrag names, or `None` if it was not built
/// by [`encode_local_ufrag`]. Both separators can occur inside the base64 lobby id, so
/// the split works from the right.
pub fn decode_local_ufrag(local_ufrag: &str) -> (r: Option<(RtcLobbyId, RtcEndpointId)>)
    ensures
        match decode_local_ufrag_spec(local_ufrag@) {
            Some((b, n)) => r matches Some((id, e)) && id@ == b && e == n,
            None => r is None,
        },
{
    let chars = str_chars(local_ufrag);
    let ghost s = chars@;
    let plus = match rfind_char_before(chars.as_slice(), '+', chars.len()) {
        Some(p) => p,
        None => {
            assert forall|i: int| !last_index(s, '+', i) by {
                if last_index(s, '+', i) {
                    assert(s[i] == '+');
                }
            }
            return None;
        },
    };
    proof {
        lemma_last_index_unique(s, '+', plus as int);
    }
    let ghost left = s.subrange(0, plus as int);
    let slash = match rfind_char_before(chars.as_slice(), '/', plus) {
        Some(q) => q,
        None => {
            assert forall|i: int| !last_index(left, '/', i) by {
                if last_index(left, '/', i) {
                    assert(left[i] == s[i]);
                }
            }
            return None;
        },
    };
    proof {
        assert(last_index(left, '/', slash as int));
        lemma_last_index_unique(left, '/', slash as int);
        assert(left.subrange(0, slash as int) =~= s.subrange(0, slash as int));
        assert(left.subrange(slash + 1, left.len() as int) =~= s.subrange(slash + 1, plus as int));
    }
    let mut k: usize = plus + 1;
    if k >= chars.len() {
        return None;
    }
    while k < chars.len()
        invariant
            plus < chars@.len(),
            plus + 1 <= k <= chars@.len(),
            s == chars@,
            s == local_ufrag@,
            rfind_spec(s, '+') == Some(plus as int),
            forall|i: int| plus + 1 <= i < k ==> is_ascii_alpha(#[trigger] s[i]),
        decreases chars@.len() - k,
    {
        let c = chars[k];
        if !(('A' <= c && c <= 'Z') || ('a' <= c && c <= 'z')) {
            proof {
                let suf = s.subrange(plus + 1, s.len() as int);
                assert(suf[k - plus - 1] == c);
            }
            return None;
        }
        k = k + 1;
    }
    proof {
        let suf = s.subrange(plus + 1, s.len() as int);
        assert forall|i: int| 0 <= i < suf.len() implies is_ascii_alpha(#[trigger] suf[i]) by {
            assert(suf[i] == s[plus + 1 + i]);
        }
        assert(letter_suffix(suf));
    }
    let ghost num = s.subrange(slash + 1, plus as int);
    if slash + 1 >= plus || chars[slash + 1] == '+' || (chars[slash + 1] == '0' && plus > slash + 2) {
        proof {
            if num.len() > 0 {
                assert(num[0] == chars@[slash + 1]);
            }
        }
        return None;
    }
    let lobby_text = string_from_chars(chars.as_slice(), 0, slash);
    let lobby = decode_rtc_lobby_id(lobby_text.as_str());
    let endpoint = parse_u64(chars.as_slice(), slash + 1, plus);
    proof {
        assert(num[0] == chars@[slash + 1]);
        assert(strip_plus(num) == num);
        if endpoint is Some {
            assert(all_digits(num));
        }
    }
    match (lobby, endpoint) {
        (Some(id), Some(n)) => Some((id, n)),
        _ => None,
    }
}

/// Decoding a local ufrag gives back the lobby and endpoint it was built from, whatever
/// its random suffix (any run of ASCII letters), provided the lobby's base64 decodes back.
proof fn lemma_local_ufrag_round_trip(lobby: Seq<u8>, endpoint_id: RtcEndpointId, suffix: Seq<char>)
    requires
        lobby.len() == 16,
        base64_no_pad_decode(base64_no_pad_encode(lobby)) == Some(lobby),
        suffix.len() > 0,
        forall|i: int| 0 <= i < suffix.len() ==> is_ascii_alpha(#[trigger] suffix[i]),
    ensures
        decode_local_ufrag_spec(local_ufrag_text(lobby, endpoint_id, suffix)) == Some(
            (lobby, endpoint_id),
        ),
{
    let enc = base64_no_pad_encode(lobby);
    let dec = decimal(endpoint_id as nat);
    let s = local_ufrag_text(lobby, endpoint_id, suffix);
    let a = enc.len() as int;
    let b = dec.len() as int;
    lemma_decimal_digits(endpoint_id as nat);
    lemma_decimal_value(endpoint_id as nat);
    let p = a + 1 + b;
    assert(s[p] == '+');
    assert forall|j: int| p < j < s.len() implies s[j] != '+' by {
        assert(s[j] == suffix[j - p - 1]);
    }
    assert(last_index(s, '+', p));
    lemma_last_index_unique(s, '+', p);
    let left = s.subrange(0, p);
    assert(left =~= enc + seq!['/'] + dec);
    assert(left[a] == '/');
    assert forall|j: int| a < j < left.len() implies left[j] != '/' by {
        assert(left[j] == dec[j - a - 1]);
        assert(is_digit(dec[j - a - 1]));
    }
    assert(last_index(left, '/', a));
    lemma_last_index_unique(left, '/', a);
    assert(left.subrange(0, a) =~= enc);
    assert(left.subrange(a + 1, left.len() as int) =~= dec);
    assert(dec[0] != '+') by {
        assert(is_digit(dec[0]));
    }
    assert(strip_plus(dec) == dec);
    assert(all_digits(dec));
    lemma_decimal_canonical(endpoint_id as nat);
    assert(s.subrange(p + 1, s.len() as int) =~= suffix);
}

} // verus!
