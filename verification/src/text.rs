//! Substring search over the characters of a string.

use vstd::prelude::*;
use vstd::string::*;

verus! {

/// `needle` stands in `hay` at character position `at`.
pub open spec fn occurs_at(hay: Seq<char>, needle: Seq<char>, at: int) -> bool {
    0 <= at && at + needle.len() <= hay.len() && hay.subrange(at, at + needle.len()) == needle
}

/// The first position at or after `from` where `needle` stands in `hay`;
/// `hay.len()` where there is none.
pub open spec fn first_occurrence(hay: Seq<char>, needle: Seq<char>, from: int) -> int
    decreases hay.len() - from,
{
    if from >= hay.len() {
        hay.len() as int
    } else if occurs_at(hay, needle, from) {
        from
    } else {
        first_occurrence(hay, needle, from + 1)
    }
}

/// `needle` stands somewhere in `hay`.
pub open spec fn contains_text(hay: Seq<char>, needle: Seq<char>) -> bool {
    exists|at: int| occurs_at(hay, needle, at)
}

/// What `first_occurrence` returns is the least match at or after `from`.
pub proof fn lemma_first_occurrence(hay: Seq<char>, needle: Seq<char>, from: int)
    requires
        0 <= from <= hay.len(),
    ensures
        from <= first_occurrence(hay, needle, from) <= hay.len(),
        first_occurrence(hay, needle, from) < hay.len() ==> occurs_at(
            hay,
            needle,
            first_occurrence(hay, needle, from),
        ),
        forall|k: int|
            from <= k < first_occurrence(hay, needle, from) ==> !occurs_at(hay, needle, k),
    decreases hay.len() - from,
{
    if from < hay.len() && !occurs_at(hay, needle, from) {
        lemma_first_occurrence(hay, needle, from + 1);
    }
}

/// A non-empty needle stands in `hay` exactly when the first occurrence from
/// the start lies inside `hay`.
pub proof fn lemma_contains_text(hay: Seq<char>, needle: Seq<char>)
    requires
        needle.len() > 0,
    ensures
        contains_text(hay, needle) <==> first_occurrence(hay, needle, 0) < hay.len(),
{
    lemma_first_occurrence(hay, needle, 0);
    if contains_text(hay, needle) {
        let at = choose|at: int| occurs_at(hay, needle, at);
        assert(at < hay.len());
        if first_occurrence(hay, needle, 0) >= hay.len() {
            assert(!occurs_at(hay, needle, at));
        }
    }
}

/// The lower-case form of a text, as Unicode defines it.
pub uninterp spec fn lowercase_of(text: Seq<char>) -> Seq<char>;

/// Calls `str::to_lowercase`. Trusted: the result is the lower-case form of
/// the text and depends on the text alone.
#[verifier::external_body]
pub(crate) fn lowercase(text: &str) -> (r: String)
    ensures
        r@ == lowercase_of(text@),
{
    text.to_lowercase()
}

/// Whether `needle` stands in `hay` at character position `at`.
pub fn occurs_here(hay: &str, needle: &str, at: usize) -> (r: bool)
    ensures
        r == occurs_at(hay@, needle@, at as int),
{
    let n: usize = hay.unicode_len();
    let m: usize = needle.unicode_len();
    if at > n || m > n - at {
        return false;
    }
    let mut k: usize = 0;
    while k < m
        invariant
            k <= m,
            at + m <= n,
            n == hay@.len(),
            m == needle@.len(),
            forall|j: int| 0 <= j < k ==> hay@[at + j] == needle@[j],
        decreases m - k,
    {
        if hay.get_char(at + k) != needle.get_char(k) {
            assert(hay@.subrange(at as int, at + m)[k as int] != needle@[k as int]);
            return false;
        }
        k += 1;
    }
    assert(hay@.subrange(at as int, at + m) =~= needle@);
    true
}

/// The first character position at or after `from` where `needle` stands in
/// `hay`, or the length of `hay` in characters where it stands nowhere.
pub fn find_from(hay: &str, needle: &str, from: usize) -> (r: usize)
    ensures
        r == first_occurrence(hay@, needle@, from as int),
        from <= hay@.len() ==> from <= r <= hay@.len(),
{
    let n: usize = hay.unicode_len();
    let mut at: usize = from;
    while at < n
        invariant
            n == hay@.len(),
            from <= at,
            first_occurrence(hay@, needle@, from as int) == first_occurrence(
                hay@,
                needle@,
                at as int,
            ),
        decreases n - at,
    {
        if occurs_here(hay, needle, at) {
            return at;
        }
        at += 1;
    }
    n
}

/// Whether `needle` stands somewhere in `hay`; the empty text stands in
/// every text.
pub fn contains(hay: &str, needle: &str) -> (r: bool)
    ensures
        r == contains_text(hay@, needle@),
{
    if needle.unicode_len() == 0 {
        assert(hay@.subrange(0, 0) =~= needle@);
        assert(occurs_at(hay@, needle@, 0));
        return true;
    }
    proof {
        lemma_contains_text(hay@, needle@);
    }
    find_from(hay, needle, 0) < hay.unicode_len()
}

} // verus!
