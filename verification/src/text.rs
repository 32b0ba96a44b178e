//! Verified helpers over `String` and `&str`: equality, prefix tests, and
//! path joining, specified against the `Seq<char>` views of their arguments.

use vstd::prelude::*;
use vstd::string::*;

verus! {

/// The view of an optional borrowed string.
pub open spec fn opt_view(v: Option<&str>) -> Option<Seq<char>> {
    match v {
        Some(s) => Some(s@),
        None => None,
    }
}

/// The view of an optional owned string.
pub open spec fn opt_string_view(v: Option<String>) -> Option<Seq<char>> {
    match v {
        Some(s) => Some(s@),
        None => None,
    }
}

/// The views of a list of owned strings.
pub open spec fn strs_view(s: Seq<String>) -> Seq<Seq<char>> {
    s.map_values(|x: String| x@)
}

/// `p` occurs at the start of `s`.
pub open spec fn is_prefix(p: Seq<char>, s: Seq<char>) -> bool {
    p.len() <= s.len() && s.take(p.len() as int) == p
}

/// Character-by-character string equality.
pub fn str_eq(a: &str, b: &str) -> (r: bool)
    ensures
        r == (a@ == b@),
{
    let alen = a.unicode_len();
    let blen = b.unicode_len();
    if alen != blen {
        return false;
    }
    let mut i: usize = 0;
    while i < alen
        invariant
            alen == a@.len(),
            alen == b@.len(),
            i <= alen,
            forall|j: int| 0 <= j < i ==> a@[j] == b@[j],
        decreases alen - i,
    {
        if a.get_char(i) != b.get_char(i) {
            return false;
        }
        i += 1;
    }
    proof {
        assert(a@ =~= b@);
    }
    true
}

/// An owned copy of a borrowed string.
pub fn str_copy(s: &str) -> (r: String)
    ensures
        r@ == s@,
{
    String::from_str(s)
}

/// An owned copy of an optional borrowed string.
pub fn opt_copy(v: Option<&str>) -> (r: Option<String>)
    ensures
        opt_string_view(r) == opt_view(v),
{
    match v {
        Some(s) => Some(String::from_str(s)),
        None => None,
    }
}

/// A clone of an optional owned string.
pub fn opt_clone(v: &Option<String>) -> (r: Option<String>)
    ensures
        opt_string_view(r) == opt_string_view(*v),
{
    match v {
        Some(s) => Some(String::from_str(s.as_str())),
        None => None,
    }
}

/// The two segments joined by a path separator.
pub open spec fn joined(a: Seq<char>, b: Seq<char>) -> Seq<char> {
    a + seq!['/'] + b
}

/// Joins two path segments with `/`.
pub fn join_path(a: &str, b: &str) -> (r: String)
    ensures
        r@ == joined(a@, b@),
{
    let mut s = String::from_str(a);
    s.append("/");
    s.append(b);
    proof {
        reveal_strlit("/");
        assert(s@ =~= joined(a@, b@));
    }
    s
}

/// Appending distinct tails to one prefix yields distinct strings.
pub proof fn lemma_concat_cancel(p: Seq<char>, a: Seq<char>, b: Seq<char>)
    requires
        p + a == p + b,
    ensures
        a == b,
{
    assert(a =~= (p + a).skip(p.len() as int));
    assert(b =~= (p + b).skip(p.len() as int));
}

/// Two prefixes of one string are ordered by length: the shorter is a prefix
/// of the longer.
pub proof fn lemma_prefix_of_common(a: Seq<char>, b: Seq<char>, s: Seq<char>)
    requires
        is_prefix(a, s),
        is_prefix(b, s),
        a.len() <= b.len(),
    ensures
        is_prefix(a, b),
{
    assert(b.take(a.len() as int) =~= s.take(a.len() as int));
}

} // verus!
