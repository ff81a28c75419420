//! Case-insensitive filtering of window titles by the typed query.

use vstd::prelude::*;
use crate::text::{chars_of, contains_seq, occurs_at, string_push};

verus! {

/// What `str::to_lowercase` returns for a string: its lowercase form as
/// Unicode defines it (a function of the characters alone).
pub uninterp spec fn lowercase(s: Seq<char>) -> Seq<char>;

/// Calls `str::to_lowercase`; its result is named by `lowercase`.
#[verifier::external_body]
fn str_to_lowercase(s: &str) -> (r: String)
    ensures
        r@ == lowercase(s@),
{
    s.to_lowercase()
}

/// Calls `String::pop`, which removes and returns the last character,
/// or returns `None` and leaves the string alone when it is empty.
#[verifier::external_body]
fn string_pop(s: &mut String) -> (r: Option<char>)
    ensures
        old(s)@.len() == 0 ==> r is None && final(s)@ == old(s)@,
        old(s)@.len() > 0 ==> r == Some(old(s)@.last()) && final(s)@ == old(s)@.drop_last(),
{
    s.pop()
}

/// Calls `String::clear`, which removes every character.
#[verifier::external_body]
fn string_clear(s: &mut String)
    ensures
        final(s)@ == Seq::<char>::empty(),
{
    s.clear()
}

/// The query after typing `c`.
pub open spec fn after_push(query: Seq<char>, c: char) -> Seq<char> {
    query.push(c)
}

/// The query after deleting its last character, if any.
pub open spec fn after_pop(query: Seq<char>) -> Seq<char> {
    if query.len() == 0 {
        query
    } else {
        query.drop_last()
    }
}

/// A title matches a query when the query is empty, or when the lowercase
/// query occurs in the lowercase title.
pub open spec fn query_matches(query: Seq<char>, title: Seq<char>) -> bool {
    query.len() == 0 || contains_seq(lowercase(title), lowercase(query))
}

/// Whether `needle` occurs as a contiguous run of characters in `haystack`.
pub fn contains_str(haystack: &str, needle: &str) -> (r: bool)
    ensures
        r == contains_seq(haystack@, needle@),
{
    let h = chars_of(haystack);
    let n = chars_of(needle);
    contains_chars(&h, &n)
}

/// Whether `needle` occurs as a contiguous run in `haystack`.
pub fn contains_chars(haystack: &Vec<char>, needle: &Vec<char>) -> (r: bool)
    ensures
        r == contains_seq(haystack@, needle@),
{
    let hl = haystack.len();
    let nl = needle.len();
    if nl > hl {
        assert forall|i: int| !occurs_at(haystack@, needle@, i) by {}
        return false;
    }
    let last = hl - nl;
    let mut i: usize = 0;
    while i <= last
        invariant
            hl == haystack@.len(),
            nl == needle@.len(),
            last == hl - nl,
            i <= last + 1,
            forall|k: int| 0 <= k < i ==> !occurs_at(haystack@, needle@, k),
        decreases last + 1 - i,
    {
        let mut j: usize = 0;
        let mut same = true;
        while j < nl
            invariant
                hl == haystack@.len(),
                nl == needle@.len(),
                i + nl <= hl,
                j <= nl,
                same == (forall|m: int| 0 <= m < j ==> haystack@[i + m] == needle@[m]),
            decreases nl - j,
        {
            if haystack[i + j] != needle[j] {
                same = false;
            }
            j += 1;
        }
        if same {
            assert(haystack@.subrange(i as int, i + nl) =~= needle@);
            assert(occurs_at(haystack@, needle@, i as int));
            return true;
        }
        assert(!occurs_at(haystack@, needle@, i as int)) by {
            if occurs_at(haystack@, needle@, i as int) {
                assert forall|m: int| 0 <= m < nl implies haystack@[i + m] == needle@[m] by {
                    assert(haystack@.subrange(i as int, i + nl)[m] == haystack@[i + m]);
                }
            }
        }
        i += 1;
    }
    assert forall|k: int| !occurs_at(haystack@, needle@, k) by {
        if 0 <= k < i {
        }
    }
    false
}

/// The text typed to filter the canvas.
pub struct SearchState {
    pub query: String,
}

impl SearchState {
    /// An empty query.
    pub fn new() -> (s: Self)
        ensures
            s.query@ == Seq::<char>::empty(),
    {
        SearchState { query: String::new() }
    }

    /// Appends one typed character to the query.
    pub fn push(&mut self, c: char)
        ensures
            final(self).query@ == after_push(old(self).query@, c),
    {
        string_push(&mut self.query, c);
    }

    /// Removes the last character of the query, if there is one.
    pub fn pop(&mut self)
        ensures
            final(self).query@ == after_pop(old(self).query@),
    {
        let _ = string_pop(&mut self.query);
    }

    /// Empties the query.
    pub fn clear(&mut self)
        ensures
            final(self).query@ == Seq::<char>::empty(),
    {
        string_clear(&mut self.query);
    }

    /// Whether a window title passes the filter: every title passes an
    /// empty query; otherwise the comparison ignores case.
    pub fn matches(&self, title: &str) -> (r: bool)
        ensures
            r == query_matches(self.query@, title@),
    {
        if self.query.as_str().is_empty() {
            return true;
        }
        let t = str_to_lowercase(title);
        let q = str_to_lowercase(self.query.as_str());
        contains_str(t.as_str(), q.as_str())
    }

    /// The text of the search bar: a prompt while nothing is typed, else
    /// the query after "Search: ".
    pub fn bar_text(&self) -> (r: String)
        ensures
            r@ == (if self.query@.len() == 0 {
                "Type to search windows..."@
            } else {
                "Search: "@ + self.query@
            }),
    {
        if self.query.as_str().is_empty() {
            String::from_str("Type to search windows...")
        } else {
            String::from_str("Search: ").concat(self.query.as_str())
        }
    }

    /// Whether anything has been typed.
    pub fn is_active(&self) -> (r: bool)
        ensures
            r == (self.query@.len() > 0),
    {
        !self.query.as_str().is_empty()
    }
}


/// Deleting a character right after typing it restores the query.
pub proof fn pop_undoes_push(query: Seq<char>, c: char)
    ensures
        after_pop(after_push(query, c)) == query,
{
    assert(query.push(c).drop_last() =~= query);
}

/// After typing a character a search is active.
pub proof fn push_activates(query: Seq<char>, c: char)
    ensures
        after_push(query, c).len() > 0,
{
}

/// An empty query (no search, or a cleared one) lets every title through.
pub proof fn empty_query_matches_all(title: Seq<char>)
    ensures
        query_matches(Seq::<char>::empty(), title),
{
}

/// A title matches a non-empty query exactly when the lowercase query
/// occurs in the lowercase title.
pub proof fn matching_is_lowercase_containment(query: Seq<char>, title: Seq<char>)
    requires
        query.len() > 0,
    ensures
        query_matches(query, title) <==> exists|i: int| occurs_at(lowercase(title), lowercase(query), i),
{
}

} // verus!
