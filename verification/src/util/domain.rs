//! Names of the form `name@domain` and default channel names.
use vstd::prelude::*;
use crate::util::text::{next_index, next_index_exec, str_chars, string_from_chars};

verus! {

/// `name@domain`.
pub open spec fn domain_name_spec(name: Seq<char>, domain: Seq<char>) -> Seq<char> {
    name + seq!['@'] + domain
}

/// What `split_domain_name` gives back: the text before the first `@` and the text
/// between it and the next `@` (or the end); a name without `@` is paired with
/// `"unknown"`.
pub open spec fn split_domain_spec(s: Seq<char>) -> (Seq<char>, Seq<char>) {
    let i = next_index(s, '@', 0);
    if i == s.len() {
        (s, seq!['u', 'n', 'k', 'n', 'o', 'w', 'n'])
    } else {
        let j = next_index(s, '@', i + 1);
        (s.subrange(0, i), s.subrange(i + 1, j))
    }
}

/// Joins a name and a domain with `@`.
pub fn build_domain_name(name: &str, domain: &str) -> (s: String)
    ensures
        s@ == domain_name_spec(name@, domain@),
{
    let mut s = String::from_str(name);
    s.append("@");
    s.append(domain);
    proof {
        reveal_strlit("@");
    }
    s
}

/// The channel that a user gets by default: `channel_` followed by the name.
pub fn build_default_channel_name(name: &str) -> (s: String)
    ensures
        s@ == "channel_"@ + name@,
{
    let mut s = String::from_str("channel_");
    s.append(name);
    s
}

/// Splits `name@domain` into its two parts.
pub fn split_domain_name(domain_name: &str) -> (r: (String, String))
    ensures
        (r.0@, r.1@) == split_domain_spec(domain_name@),
{
    let v = str_chars(domain_name);
    let i = next_index_exec(v.as_slice(), '@', 0);
    if i == v.len() {
        let unknown = String::from_str("unknown");
        proof {
            reveal_strlit("unknown");
        }
        (String::from_str(domain_name), unknown)
    } else {
        let j = next_index_exec(v.as_slice(), '@', i + 1);
        proof {
            assert(i + 1 <= j);
        }
        (string_from_chars(v.as_slice(), 0, i), string_from_chars(v.as_slice(), i + 1, j))
    }
}

} // verus!
