//! Character-level helpers shared by the modules that work on titles,
//! process names and the search query.

use vstd::prelude::*;

verus! {

/// `needle` occurs in `haystack` starting at position `i`.
pub open spec fn occurs_at(haystack: Seq<char>, needle: Seq<char>, i: int) -> bool {
    &&& 0 <= i
    &&& i + needle.len() <= haystack.len()
    &&& haystack.subrange(i, i + needle.len()) == needle
}

/// `needle` is a contiguous run of characters of `haystack`.
pub open spec fn contains_seq(haystack: Seq<char>, needle: Seq<char>) -> bool {
    exists|i: int| occurs_at(haystack, needle, i)
}

/// Wherever a longer needle occurs, its beginning occurs too: adding
/// characters to what is searched for can only make it occur less.
pub proof fn longer_needle_occurs_less(haystack: Seq<char>, needle: Seq<char>, more: Seq<char>)
    ensures
        contains_seq(haystack, needle + more) ==> contains_seq(haystack, needle),
{
    if contains_seq(haystack, needle + more) {
        let i = choose|i: int| occurs_at(haystack, needle + more, i);
        assert(haystack.subrange(i, i + needle.len()) =~= (needle + more).subrange(0, needle.len() as int));
        assert((needle + more).subrange(0, needle.len() as int) =~= needle);
        assert(occurs_at(haystack, needle, i));
    }
}

/// The characters of a string, in order.
pub fn chars_of(s: &str) -> (v: Vec<char>)
    ensures
        v@ == s@,
{
    let mut v: Vec<char> = Vec::new();
    for c in it: s.chars()
        invariant
            v@ == it.seq().take(it.index() as int),
    {
        v.push(c);
    }
    v
}


/// Calls `String::push`, which appends one character at the end.
#[verifier::external_body]
pub(crate) fn string_push(s: &mut String, c: char)
    ensures
        final(s)@ == old(s)@.push(c),
{
    s.push(c)
}

/// A string holding the given characters, in order.
pub fn string_from_chars(v: &Vec<char>) -> (s: String)
    ensures
        s@ == v@,
{
    let mut s = String::new();
    let n = v.len();
    let mut i: usize = 0;
    while i < n
        invariant
            n == v@.len(),
            i <= n,
            s@ =~= v@.take(i as int),
        decreases n - i,
    {
        string_push(&mut s, v[i]);
        i += 1;
    }
    assert(v@.take(n as int) =~= v@);
    s
}

} // verus!
