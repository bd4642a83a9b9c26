//! Tag dictionary entries: splitting `key=value` strings and building
//! resolved tags with their hash codes.

use crate::types::{Tag, TagV};
use crate::utils::{hash_tag_parameter, tag_hash};
use vstd::prelude::*;
use vstd::string::*;

verus! {

/// The index of the first `=` in `s` at or after `i`, or `s.len()` when
/// there is none.
pub open spec fn find_eq(s: Seq<char>, i: int) -> int
    decreases s.len() - i,
{
    if i < 0 || i >= s.len() {
        s.len() as int
    } else if s[i] == '=' {
        i
    } else {
        find_eq(s, i + 1)
    }
}

/// Key and value halves of a dictionary entry, split on the first `=`. An
/// entry without a separator is all key, with an empty value.
pub open spec fn spec_split_tag(s: Seq<char>) -> (Seq<char>, Seq<char>) {
    let k = find_eq(s, 0);
    if k == s.len() {
        (s, Seq::<char>::empty())
    } else {
        (s.subrange(0, k), s.subrange(k + 1, s.len() as int))
    }
}

/// The tag built from a key and a value: both strings, each with its hash.
pub open spec fn spec_make_tag(key: Seq<char>, value: Seq<char>) -> TagV {
    TagV { key, key_code: tag_hash(key), value, value_code: tag_hash(value) }
}

/// The tag a dictionary entry resolves to.
pub open spec fn spec_resolve_tag(entry: Seq<char>) -> TagV {
    spec_make_tag(spec_split_tag(entry).0, spec_split_tag(entry).1)
}

/// Splits a dictionary entry on its first `=`.
pub fn split_tag(s: &str) -> (r: (String, String))
    ensures
        r.0@ == spec_split_tag(s@).0,
        r.1@ == spec_split_tag(s@).1,
{
    let n = s.unicode_len();
    let mut i: usize = 0;
    while i < n
        invariant
            i <= n,
            n == s@.len(),
            find_eq(s@, 0) == find_eq(s@, i as int),
        decreases n - i,
    {
        if s.get_char(i) == '=' {
            let key = s.substring_char(0, i).to_owned();
            let value = s.substring_char(i + 1, n).to_owned();
            return (key, value);
        }
        i = i + 1;
    }
    (s.to_owned(), String::new())
}

impl Tag {
    /// A tag from an already-split key and value, with their hash codes.
    pub fn new(key: &str, value: &str) -> (r: Tag)
        ensures
            r@ == spec_make_tag(key@, value@),
    {
        Tag {
            key_code: hash_tag_parameter(key),
            key: key.to_owned(),
            value_code: hash_tag_parameter(value),
            value: value.to_owned(),
        }
    }
}

} // verus!
