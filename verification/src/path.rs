//! Path matching: comparing a dotted path against a node name.
//!
//! A node name is an arbitrary string; it may be empty and may itself contain
//! the separator character. The comparison is purely positional: the path
//! either equals the name, or starts with the name followed immediately by
//! the separator (in which case the remainder after that separator is the
//! tail to resolve further), or does not match at all.

use vstd::prelude::*;
use vstd::string::StrSliceExecFns;

verus! {

/// The character that separates the segments of a path.
pub open spec fn separator() -> char {
    '.'
}

/// Holds when `p` starts with `n` followed immediately by the separator.
pub open spec fn is_partial_match(p: Seq<char>, n: Seq<char>) -> bool {
    &&& p.len() > n.len()
    &&& p.subrange(0, n.len() as int) == n
    &&& p[n.len() as int] == separator()
}

/// Everything of `p` after the separator that follows `n`.
pub open spec fn partial_tail(p: Seq<char>, n: Seq<char>) -> Seq<char> {
    p.subrange(n.len() as int + 1, p.len() as int)
}

/// Compares two strings for equality, character by character.
pub fn str_eq(a: &str, b: &str) -> (r: bool)
    ensures
        r == (a@ == b@),
{
    let alen = a.unicode_len();
    let blen = b.unicode_len();
    if alen != blen {
        return false;
    }
    let mut i: usize = 0;
    while i < alen
        invariant
            i <= alen,
            alen == a@.len(),
            blen == b@.len(),
            alen == blen,
            forall|j: int| 0 <= j < i ==> a@[j] == b@[j],
        decreases alen - i,
    {
        if a.get_char(i) != b.get_char(i) {
            return false;
        }
        i += 1;
    }
    proof {
        assert(a@ =~= b@);
    }
    true
}

/// Result of comparing a path to a node name.
///
/// * `True` if they compare equal.
/// * `Part(tail)` if the path starts with the name followed by the separator;
///   `tail` is everything after that separator.
/// * `False` in all other cases.
///
/// Node names are allowed to contain the separator, so a node named
/// `"foo.bar"` is addressed by the single path `foo.bar`; this does not
/// create a `foo` list node. Node names are also allowed to be the empty
/// string; while confusing, there is nothing special about it.
#[derive(Debug, Clone, Copy, PartialEq, Eq)]
pub enum ComparePath<'a> {
    False,
    True,
    Part(&'a str),
}

impl<'a> ComparePath<'a> {
    /// Classifies `path` against `name`: exactly one of equal, partial
    /// (name then separator), or no match.
    pub fn cmp(path: &'a str, name: &str) -> (r: ComparePath<'a>)
        ensures
            r is True <==> path@ == name@,
            r is Part <==> is_partial_match(path@, name@),
            r is Part ==> r->0@ == partial_tail(path@, name@),
            r is False <==> (path@ != name@ && !is_partial_match(path@, name@)),
    {
        let plen = path.unicode_len();
        let nlen = name.unicode_len();
        if plen == nlen {
            if str_eq(path, name) {
                ComparePath::True
            } else {
                ComparePath::False
            }
        } else if plen > nlen {
            let prefix = path.substring_char(0, nlen);
            if str_eq(prefix, name) && path.get_char(nlen) == '.' {
                let tail = path.substring_char(nlen + 1, plen);
                ComparePath::Part(tail)
            } else {
                ComparePath::False
            }
        } else {
            ComparePath::False
        }
    }
}

} // verus!
