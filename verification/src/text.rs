//! Text helpers: the character view of string slices, substring search, and
//! joining text.
use vstd::prelude::*;
use vstd::string::*;

verus! {

/// `needle` occurs in `haystack` starting at character position `start`.
pub open spec fn occurs_at(haystack: Seq<char>, needle: Seq<char>, start: int) -> bool {
    &&& 0 <= start
    &&& start + needle.len() <= haystack.len()
    &&& haystack.subrange(start, start + needle.len()) == needle
}

/// `needle` is a contiguous run of characters inside `haystack`
/// (the empty text occurs in every text).
pub open spec fn contains_text(haystack: Seq<char>, needle: Seq<char>) -> bool {
    exists|start: int| occurs_at(haystack, needle, start)
}

/// Every text contains itself and the empty text.
pub proof fn lemma_contains_itself(s: Seq<char>)
    ensures
        contains_text(s, s),
        contains_text(s, Seq::empty()),
{
    assert(occurs_at(s, s, 0)) by {
        assert(s.subrange(0, s.len() as int) =~= s);
    }
    assert(occurs_at(s, Seq::empty(), 0)) by {
        assert(s.subrange(0, 0) =~= Seq::<char>::empty());
    }
}

/// A text contains another exactly when, at some position, the run of
/// characters as long as the other equals it.
pub proof fn lemma_contains_text_at_some_position(haystack: Seq<char>, needle: Seq<char>)
    ensures
        contains_text(haystack, needle) <==> exists|start: int|
            0 <= start && start + needle.len() <= haystack.len() && #[trigger] haystack.subrange(
                start,
                start + needle.len(),
            ) == needle,
{
    if contains_text(haystack, needle) {
        let start = choose|start: int| occurs_at(haystack, needle, start);
        assert(haystack.subrange(start, start + needle.len()) == needle);
    }
    if exists|start: int|
        0 <= start && start + needle.len() <= haystack.len() && #[trigger] haystack.subrange(
            start,
            start + needle.len(),
        ) == needle {
        let start = choose|start: int|
            0 <= start && start + needle.len() <= haystack.len() && #[trigger] haystack.subrange(
                start,
                start + needle.len(),
            ) == needle;
        assert(occurs_at(haystack, needle, start));
    }
}

/// The characters of a string slice, in order.
pub fn chars_of(s: &str) -> (chars: Vec<char>)
    ensures
        chars@ == s@,
{
    let mut chars: Vec<char> = Vec::new();
    for c in it: s.chars()
        invariant
            chars@ == it.seq().take(it.index() as int),
    {
        chars.push(c);
    }
    chars
}

/// Whether `needle` matches `haystack` at position `start`, character by
/// character.
fn matches_at(haystack: &Vec<char>, needle: &Vec<char>, start: usize) -> (found: bool)
    requires
        start + needle@.len() <= haystack@.len(),
    ensures
        found == occurs_at(haystack@, needle@, start as int),
{
    let n = needle.len();
    let hl = haystack.len();
    let mut k: usize = 0;
    while k < n
        invariant
            n == needle@.len(),
            hl == haystack@.len(),
            k <= n,
            start + n <= haystack@.len(),
            forall|j: int| 0 <= j < k ==> haystack@[start + j] == needle@[j],
        decreases n - k,
    {
        if haystack[start + k] != needle[k] {
            assert(haystack@.subrange(start as int, start + n)[k as int] != needle@[k as int]);
            return false;
        }
        k = k + 1;
    }
    assert(haystack@.subrange(start as int, start + n) =~= needle@);
    true
}

/// Whether `needle` occurs as a substring of `haystack`: the check that
/// `str::contains` makes with a string pattern.
pub fn text_contains(haystack: &str, needle: &str) -> (found: bool)
    ensures
        found == contains_text(haystack@, needle@),
{
    let hay = chars_of(haystack);
    let pat = chars_of(needle);
    let h = hay.len();
    let n = pat.len();
    if n > h {
        assert forall|start: int| !occurs_at(haystack@, needle@, start) by {}
        return false;
    }
    let last = h - n;
    let mut start: usize = 0;
    while start < last
        invariant
            hay@ == haystack@,
            pat@ == needle@,
            h == hay@.len(),
            n == pat@.len(),
            last == h - n,
            start <= last,
            forall|s: int| 0 <= s < start ==> !occurs_at(haystack@, needle@, s),
        decreases last - start,
    {
        if matches_at(&hay, &pat, start) {
            return true;
        }
        start = start + 1;
    }
    let found = matches_at(&hay, &pat, last);
    assert forall|s: int| #![auto] !found implies !occurs_at(haystack@, needle@, s) by {
        if 0 <= s < start {
        }
    }
    found
}

/// The text of `head` followed by the text of `tail`.
pub fn join_text(head: &str, tail: &str) -> (joined: String)
    ensures
        joined@ == head@ + tail@,
{
    let mut joined = String::from_str(head);
    joined.append(tail);
    joined
}

} // verus!
