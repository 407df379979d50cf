//! Candidate discovery: taking in the pages of an issue search for one
//! category, and yielding each repository once, up to a target count.

use vstd::prelude::*;
use crate::text::{find_from, first_occurrence, lemma_first_occurrence};

verus! {

/// How many items one page of the search is asked to hold.
pub const PAGE_SIZE: u64 = 30;

/// How many repositories are looked for per category and cycle.
pub const TARGET_PER_CATEGORY: usize = 20;

/// The repository identifier in the address of an item's parent repository:
/// what follows the first "/repos/", up to the next "/repos/" or the end of
/// the text. Empty where the address holds no "/repos/".
pub open spec fn identifier_of(url: Seq<char>) -> Seq<char> {
    let start = first_occurrence(url, "/repos/"@, 0) + 7;
    if start > url.len() {
        Seq::empty()
    } else {
        url.subrange(start, first_occurrence(url, "/repos/"@, start))
    }
}

/// Owner and name of an identifier that holds exactly one '/'.
pub open spec fn owner_and_name(id: Seq<char>) -> Option<(Seq<char>, Seq<char>)> {
    let slash = first_occurrence(id, "/"@, 0);
    if slash < id.len() && first_occurrence(id, "/"@, slash + 1) == id.len() {
        Some((id.subrange(0, slash), id.subrange(slash + 1, id.len() as int)))
    } else {
        None
    }
}

/// The repository identifier in a parent-repository address.
pub fn repository_identifier(url: &str) -> (r: String)
    ensures
        r@ == identifier_of(url@),
{
    proof {
        reveal_strlit("/repos/");
        lemma_first_occurrence(url@, "/repos/"@, 0);
    }
    let n: usize = url.unicode_len();
    let at: usize = find_from(url, "/repos/", 0);
    if at >= n {
        return String::new();
    }
    let start: usize = at + 7;
    let end: usize = find_from(url, "/repos/", start);
    url.substring_char(start, end).to_owned()
}

/// Splits an identifier of the form `owner/name`. `None` for one that does
/// not hold exactly one '/'.
pub fn split_identifier(id: &str) -> (r: Option<(String, String)>)
    ensures
        match r {
            Some((owner, name)) => owner_and_name(id@) == Some((owner@, name@)),
            None => owner_and_name(id@) is None,
        },
{
    proof {
        reveal_strlit("/");
        lemma_first_occurrence(id@, "/"@, 0);
    }
    let n: usize = id.unicode_len();
    let slash: usize = find_from(id, "/", 0);
    if slash >= n {
        return None;
    }
    if find_from(id, "/", slash + 1) != n {
        return None;
    }
    Some((id.substring_char(0, slash).to_owned(), id.substring_char(slash + 1, n).to_owned()))
}

/// The texts of a list of strings.
pub open spec fn texts(list: Seq<String>) -> Seq<Seq<char>> {
    list.map_values(|s: String| s@)
}

/// The list of identifiers seen after the addresses `urls` were taken in,
/// one after the other: an address adds its identifier unless the target is
/// reached, the identifier is empty, or it was seen before.
pub open spec fn taken_in(seen: Seq<Seq<char>>, urls: Seq<String>, target: int) -> Seq<Seq<char>>
    decreases urls.len(),
{
    if urls.len() == 0 {
        seen
    } else {
        let before = taken_in(seen, urls.drop_last(), target);
        let id = identifier_of(urls.last()@);
        if before.len() >= target || id.len() == 0 || before.contains(id) {
            before
        } else {
            before.push(id)
        }
    }
}

/// Taking addresses in only appends to the list, never repeats an
/// identifier, and never grows the list beyond the target.
pub proof fn lemma_taken_in(seen: Seq<Seq<char>>, urls: Seq<String>, target: int)
    requires
        seen.no_duplicates(),
        seen.len() <= target,
    ensures
        taken_in(seen, urls, target).no_duplicates(),
        taken_in(seen, urls, target).len() <= target,
        seen.len() <= taken_in(seen, urls, target).len(),
        taken_in(seen, urls, target).subrange(0, seen.len() as int) == seen,
    decreases urls.len(),
{
    if urls.len() == 0 {
        assert(seen.subrange(0, seen.len() as int) =~= seen);
    } else {
        lemma_taken_in(seen, urls.drop_last(), target);
        let before = taken_in(seen, urls.drop_last(), target);
        let after = taken_in(seen, urls, target);
        assert(after.subrange(0, seen.len() as int) =~= before.subrange(0, seen.len() as int));
    }
}

/// What came back for one page of the search.
#[derive(Debug, Clone)]
pub enum PageOutcome {
    /// The request failed or the answer could not be read.
    Failed,
    /// The parent-repository address of each item, in the order received.
    Items(Vec<String>),
}

/// The discovery of one category in one cycle.
#[derive(Debug, Clone)]
pub struct Discoverer {
    /// How many identifiers to yield at most.
    pub target: usize,
    /// The identifiers yielded so far, in their order.
    pub seen: Vec<String>,
    /// The page to ask for next; pages count from 1.
    pub page: u64,
    /// No further page is asked for: a page was empty or failed.
    pub finished: bool,
}

impl Discoverer {
    /// Nothing was yielded twice, and no more than the target.
    pub open spec fn wf(&self) -> bool {
        &&& texts(self.seen@).no_duplicates()
        &&& self.seen@.len() <= self.target
        &&& self.page >= 1
    }

    /// A discovery that has seen nothing and asks for the first page.
    pub fn new(target: usize) -> (r: Self)
        ensures
            r.wf(),
            r.target == target,
            r.seen@.len() == 0,
            r.page == 1,
            !r.finished,
    {
        Discoverer { target, seen: Vec::new(), page: 1, finished: false }
    }

    /// The page to request next, or `None` when discovery is over: the
    /// target is reached, or a page was empty or failed.
    pub fn next_page(&self) -> (r: Option<u64>)
        ensures
            r == if self.finished || self.seen@.len() >= self.target {
                None
            } else {
                Some(self.page)
            },
    {
        if self.finished || self.seen.len() >= self.target {
            None
        } else {
            Some(self.page)
        }
    }

    /// Whether `id` was yielded before.
    pub fn has_seen(&self, id: &String) -> (r: bool)
        ensures
            r == texts(self.seen@).contains(id@),
    {
        let mut k: usize = 0;
        while k < self.seen.len()
            invariant
                k <= self.seen.len(),
                forall|j: int| 0 <= j < k ==> texts(self.seen@)[j] != id@,
            decreases self.seen.len() - k,
        {
            if self.seen[k] == *id {
                assert(texts(self.seen@)[k as int] == id@);
                return true;
            }
            k += 1;
        }
        false
    }

    /// Takes in the outcome of the page that was requested and returns the
    /// identifiers that it yields: those not seen before in this discovery,
    /// in the order received, as far as the target allows. A failed or empty
    /// page ends the discovery. The page number goes up by one after a page
    /// with items, and stays at the largest number that fits.
    pub fn accept(&mut self, outcome: &PageOutcome) -> (r: Vec<String>)
        requires
            old(self).wf(),
        ensures
            final(self).wf(),
            final(self).target == old(self).target,
            texts(final(self).seen@) == texts(old(self).seen@) + texts(r@),
            match *outcome {
                PageOutcome::Failed => final(self).finished && r@.len() == 0 && final(self).page
                    == old(self).page,
                PageOutcome::Items(urls) => if urls@.len() == 0 {
                    final(self).finished && r@.len() == 0 && final(self).page == old(self).page
                } else {
                    &&& final(self).finished == old(self).finished
                    &&& texts(final(self).seen@) == taken_in(
                        texts(old(self).seen@),
                        urls@,
                        old(self).target as int,
                    )
                    &&& final(self).page == if old(self).page < u64::MAX {
                        (old(self).page + 1) as u64
                    } else {
                        old(self).page
                    }
                },
            },
    {
        let mut fresh: Vec<String> = Vec::new();
        match outcome {
            PageOutcome::Failed => {
                self.finished = true;
                assert(texts(self.seen@) + texts(fresh@) =~= texts(self.seen@));
            },
            PageOutcome::Items(urls) => {
                if urls.len() == 0 {
                    self.finished = true;
                    assert(texts(self.seen@) + texts(fresh@) =~= texts(self.seen@));
                } else {
                    let ghost start = texts(self.seen@);
                    let mut i: usize = 0;
                    assert(texts(self.seen@) + texts(fresh@) =~= texts(self.seen@));
                    while i < urls.len()
                        invariant
                            i <= urls.len(),
                            self.wf(),
                            self.target == old(self).target,
                            self.page == old(self).page,
                            self.finished == old(self).finished,
                            start == texts(old(self).seen@),
                            texts(self.seen@) == taken_in(
                                start,
                                urls@.take(i as int),
                                self.target as int,
                            ),
                            texts(self.seen@) == start + texts(fresh@),
                        decreases urls.len() - i,
                    {
                        proof {
                            assert(urls@.take(i + 1).drop_last() =~= urls@.take(i as int));
                        }
                        if self.seen.len() < self.target {
                            let id = repository_identifier(urls[i].as_str());
                            if id.as_str().unicode_len() > 0 && !self.has_seen(&id) {
                                let ghost seen_before = texts(self.seen@);
                                let ghost fresh_before = texts(fresh@);
                                fresh.push(id.clone());
                                self.seen.push(id);
                                proof {
                                    assert(texts(self.seen@) =~= seen_before.push(id@));
                                    assert(texts(fresh@) =~= fresh_before.push(id@));
                                    assert(texts(self.seen@) =~= start + texts(fresh@));
                                    assert forall|a: int, b: int|
                                        0 <= a < texts(self.seen@).len() && 0 <= b < texts(
                                            self.seen@,
                                        ).len() && a != b implies texts(self.seen@)[a] != texts(
                                        self.seen@,
                                    )[b] by {
                                        if a < seen_before.len() {
                                            assert(seen_before[a] == texts(self.seen@)[a]);
                                        }
                                        if b < seen_before.len() {
                                            assert(seen_before[b] == texts(self.seen@)[b]);
                                        }
                                    }
                                }
                            }
                        }
                        i += 1;
                    }
                    proof {
                        assert(urls@.take(i as int) =~= urls@);
                    }
                    if self.page < u64::MAX {
                        self.page = self.page + 1;
                    }
                }
            },
        }
        fresh
    }
}

} // verus!
