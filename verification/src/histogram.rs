//! Counting the file extensions of a source directory's entries.

use vstd::prelude::*;

verus! {

/// How often one extension occurs.
#[derive(Debug, Clone, PartialEq, Eq)]
pub struct ExtensionCount {
    pub extension: String,
    pub count: usize,
}

/// How many of `entries` are the text `extension`.
pub open spec fn occurrences(entries: Seq<String>, extension: Seq<char>) -> nat
    decreases entries.len(),
{
    if entries.len() == 0 {
        0
    } else {
        occurrences(entries.drop_last(), extension) + if entries.last()@ == extension {
            1nat
        } else {
            0nat
        }
    }
}

/// `histogram` lists each non-empty extension among `entries` once, with the
/// number of times it occurs there, and nothing else.
pub open spec fn is_histogram_of(histogram: Seq<ExtensionCount>, entries: Seq<String>) -> bool {
    &&& forall|k: int|
        0 <= k < histogram.len() ==> {
            &&& (#[trigger] histogram[k]).extension@.len() > 0
            &&& histogram[k].count > 0
            &&& histogram[k].count == occurrences(entries, histogram[k].extension@)
        }
    &&& forall|k: int, l: int|
        0 <= k < l < histogram.len() ==> (#[trigger] histogram[k]).extension@ != (
        #[trigger] histogram[l]).extension@
    &&& forall|j: int|
        0 <= j < entries.len() && (#[trigger] entries[j])@.len() > 0 ==> listed(
            histogram,
            entries[j]@,
        )
}

/// The lines of a histogram as pairs of an extension's text and its count.
pub open spec fn lines(histogram: Seq<ExtensionCount>) -> Seq<(Seq<char>, int)> {
    histogram.map_values(|line: ExtensionCount| (line.extension@, line.count as int))
}

/// The histogram of `entries`, built entry by entry: an extension that is
/// not empty adds one to its line, or opens a new last line with count 1.
pub open spec fn tally(entries: Seq<String>) -> Seq<(Seq<char>, int)>
    decreases entries.len(),
{
    if entries.len() == 0 {
        Seq::empty()
    } else {
        let before = tally(entries.drop_last());
        let extension = entries.last()@;
        if extension.len() == 0 {
            before
        } else if exists|k: int| 0 <= k < before.len() && (#[trigger] before[k]).0 == extension {
            let k = choose|k: int| 0 <= k < before.len() && (#[trigger] before[k]).0 == extension;
            before.update(k, (extension, before[k].1 + 1))
        } else {
            before.push((extension, 1))
        }
    }
}

/// `extension` has a line in `histogram`.
pub open spec fn listed(histogram: Seq<ExtensionCount>, extension: Seq<char>) -> bool {
    exists|k: int| 0 <= k < histogram.len() && (#[trigger] histogram[k]).extension@ == extension
}

/// An extension occurs at most as often as there are entries, and not at all
/// where no entry is that extension.
pub proof fn lemma_occurrences(entries: Seq<String>, extension: Seq<char>)
    ensures
        occurrences(entries, extension) <= entries.len(),
        (forall|j: int| 0 <= j < entries.len() ==> (#[trigger] entries[j])@ != extension)
            ==> occurrences(entries, extension) == 0,
    decreases entries.len(),
{
    if entries.len() > 0 {
        lemma_occurrences(entries.drop_last(), extension);
        if forall|j: int| 0 <= j < entries.len() ==> (#[trigger] entries[j])@ != extension {
            assert(entries.last() == entries[entries.len() - 1]);
            assert(forall|j: int|
                0 <= j < entries.drop_last().len() ==> entries.drop_last()[j] == entries[j]);
        }
    }
}

/// The position of `extension` in `histogram`, if it is listed.
pub fn position_of(histogram: &Vec<ExtensionCount>, extension: &String) -> (r: Option<usize>)
    ensures
        match r {
            Some(k) => k < histogram@.len() && histogram@[k as int].extension@ == extension@,
            None => !listed(histogram@, extension@),
        },
{
    let mut k: usize = 0;
    while k < histogram.len()
        invariant
            k <= histogram.len(),
            forall|j: int| 0 <= j < k ==> (#[trigger] histogram@[j]).extension@ != extension@,
        decreases histogram.len() - k,
    {
        if histogram[k].extension == *extension {
            return Some(k);
        }
        k += 1;
    }
    None
}

/// Counts the extensions of `entries`, each extension listed in the order
/// of its first occurrence. Entries without extension are ignored.
pub fn extension_histogram(entries: &Vec<String>) -> (r: Vec<ExtensionCount>)
    ensures
        lines(r@) == tally(entries@),
        is_histogram_of(r@, entries@),
{
    let mut histogram: Vec<ExtensionCount> = Vec::new();
    let mut i: usize = 0;
    while i < entries.len()
        invariant
            i <= entries.len(),
            is_histogram_of(histogram@, entries@.take(i as int)),
            lines(histogram@) == tally(entries@.take(i as int)),
        decreases entries.len() - i,
    {
        let ghost before = histogram@;
        let ghost seen = entries@.take(i as int);
        let ghost next = entries@.take(i + 1);
        proof {
            assert(next.drop_last() =~= seen);
            assert(next.last() == entries@[i as int]);
            assert(forall|j: int| 0 <= j < i ==> next[j] == seen[j]);
        }
        let entry = &entries[i];
        if entry.as_str().unicode_len() > 0 {
            match position_of(&histogram, entry) {
                Some(k) => {
                    proof {
                        lemma_occurrences(seen, entry@);
                    }
                    let line = ExtensionCount {
                        extension: histogram[k].extension.clone(),
                        count: histogram[k].count + 1,
                    };
                    histogram.set(k, line);
                    proof {
                        let rows = lines(before);
                        assert(rows[k as int].0 == entry@);
                        let c = choose|c: int|
                            0 <= c < rows.len() && (#[trigger] rows[c]).0 == entry@;
                        assert(before[c].extension@ == before[k as int].extension@);
                        assert(c == k);
                        assert(lines(histogram@) =~= rows.update(
                            k as int,
                            (entry@, rows[k as int].1 + 1),
                        ));
                        assert forall|j: int|
                            0 <= j < next.len() && (#[trigger] next[j])@.len() > 0 implies listed(
                            histogram@,
                            next[j]@,
                        ) by {
                            if j < i {
                                assert(listed(before, seen[j]@));
                                let w = choose|w: int|
                                    0 <= w < before.len() && (#[trigger] before[w]).extension@
                                        == seen[j]@;
                                assert(histogram@[w].extension@ == seen[j]@);
                            } else {
                                assert(histogram@[k as int].extension@ == entry@);
                            }
                        }
                    }
                },
                None => {
                    proof {
                        assert forall|j: int| 0 <= j < seen.len() implies (#[trigger] seen[j])@
                            != entry@ by {
                            if seen[j]@ == entry@ {
                                assert(listed(before, seen[j]@));
                            }
                        }
                        lemma_occurrences(seen, entry@);
                    }
                    histogram.push(ExtensionCount { extension: entry.clone(), count: 1 });
                    proof {
                        let rows = lines(before);
                        assert forall|c: int| 0 <= c < rows.len() implies (#[trigger] rows[c]).0
                            != entry@ by {
                            assert(before[c].extension@ == rows[c].0);
                        }
                        assert(lines(histogram@) =~= rows.push((entry@, 1)));
                        assert forall|j: int|
                            0 <= j < next.len() && (#[trigger] next[j])@.len() > 0 implies listed(
                            histogram@,
                            next[j]@,
                        ) by {
                            if j < i {
                                assert(listed(before, seen[j]@));
                                let w = choose|w: int|
                                    0 <= w < before.len() && (#[trigger] before[w]).extension@
                                        == seen[j]@;
                                assert(histogram@[w].extension@ == seen[j]@);
                            } else {
                                assert(histogram@[before.len() as int].extension@ == entry@);
                            }
                        }
                    }
                },
            }
        }
        i += 1;
    }
    proof {
        assert(entries@.take(i as int) =~= entries@);
    }
    histogram
}

} // verus!
