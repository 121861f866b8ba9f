//! The conflict index: for a grouping key, the best file that the
//! destination already holds.

use vstd::prelude::*;

verus! {

/// One file found at the destination.
#[derive(Debug, Clone)]
pub struct IndexEntry {
    pub key: String,
    pub path: String,
    pub quality: u32,
}

/// The best file found at the destination for each grouping key. Of files
/// that collide on one key only the best is kept: the highest quality, and
/// of equal ones the first recorded.
#[derive(Debug, Clone)]
pub struct ConflictIndex {
    pub entries: Vec<IndexEntry>,
}

/// No two entries have the same key.
pub open spec fn keys_distinct(entries: Seq<IndexEntry>) -> bool {
    forall|i: int, j: int|
        0 <= i < entries.len() && 0 <= j < entries.len() && i != j ==> (#[trigger] entries[i]).key@
            != (#[trigger] entries[j]).key@
}

/// The position of the best entry with this key: the highest quality, and
/// of equal ones the first recorded.
pub open spec fn best_at(entries: Seq<IndexEntry>, key: Seq<char>) -> Option<int>
    decreases entries.len(),
{
    if entries.len() == 0 {
        None
    } else {
        let earlier = best_at(entries.drop_last(), key);
        if entries.last().key@ == key && (earlier is None || entries.last().quality
            > entries[earlier->0].quality) {
            Some(entries.len() - 1)
        } else {
            earlier
        }
    }
}

/// The quality of the best entry with this key.
pub open spec fn best_quality(entries: Seq<IndexEntry>, key: Seq<char>) -> Option<u32> {
    match best_at(entries, key) {
        Some(i) => Some(entries[i].quality),
        None => None,
    }
}

/// The path and quality of the best entry with this key.
pub open spec fn best_entry(entries: Seq<IndexEntry>, key: Seq<char>) -> Option<(Seq<char>, u32)> {
    match best_at(entries, key) {
        Some(i) => Some((entries[i].path@, entries[i].quality)),
        None => None,
    }
}

/// What `best_at` finds is an entry with the key that no entry with the key
/// outranks, and it finds one whenever the key occurs.
pub proof fn lemma_best_at(entries: Seq<IndexEntry>, key: Seq<char>)
    ensures
        match best_at(entries, key) {
            Some(i) => {
                &&& 0 <= i < entries.len()
                &&& entries[i].key@ == key
                &&& forall|j: int|
                    0 <= j < entries.len() && #[trigger] entries[j].key@ == key
                        ==> entries[j].quality <= entries[i].quality
                &&& forall|j: int|
                    0 <= j < i && #[trigger] entries[j].key@ == key ==> entries[j].quality
                        < entries[i].quality
            },
            None => forall|j: int| 0 <= j < entries.len() ==> #[trigger] entries[j].key@ != key,
        },
    decreases entries.len(),
{
    if entries.len() > 0 {
        let init = entries.drop_last();
        lemma_best_at(init, key);
        assert(forall|j: int| 0 <= j < init.len() ==> init[j] == entries[j]);
    }
}

/// Recording one more entry never lowers the best quality of any key, and
/// the best quality of the entry's own key is at least its quality.
pub proof fn lemma_push_raises(entries: Seq<IndexEntry>, e: IndexEntry, key: Seq<char>)
    ensures
        best_quality(entries, key) is Some ==> best_quality(entries.push(e), key) is Some
            && best_quality(entries.push(e), key)->0 >= best_quality(entries, key)->0,
        e.key@ == key ==> best_quality(entries.push(e), key) is Some && best_quality(
            entries.push(e),
            key,
        )->0 >= e.quality,
        e.key@ != key ==> best_quality(entries.push(e), key) == best_quality(entries, key),
{
    let pushed = entries.push(e);
    assert(pushed.drop_last() =~= entries);
    lemma_best_at(entries, key);
}

/// An entry with the key that no entry with the key outranks, and that
/// outranks those before it, is the one that `best_at` finds.
pub proof fn lemma_best_at_is(entries: Seq<IndexEntry>, key: Seq<char>, i: int)
    requires
        0 <= i < entries.len(),
        entries[i].key@ == key,
        forall|j: int|
            0 <= j < entries.len() && #[trigger] entries[j].key@ == key ==> entries[j].quality
                <= entries[i].quality,
        forall|j: int|
            0 <= j < i && #[trigger] entries[j].key@ == key ==> entries[j].quality
                < entries[i].quality,
    ensures
        best_at(entries, key) == Some(i),
{
    lemma_best_at(entries, key);
}

/// The best quality after recording one more entry, from the best quality
/// before it.
pub proof fn lemma_push_quality(entries: Seq<IndexEntry>, e: IndexEntry, key: Seq<char>)
    ensures
        best_quality(entries.push(e), key) == if e.key@ == key && (best_quality(entries, key)
            is None || e.quality > best_quality(entries, key)->0) {
            Some(e.quality)
        } else {
            best_quality(entries, key)
        },
{
    let pushed = entries.push(e);
    assert(pushed.drop_last() =~= entries);
    lemma_best_at(entries, key);
}

/// The best entry after recording one more, from the best entry before it:
/// the new entry where its key had none or a worse one.
pub proof fn lemma_push_entry(entries: Seq<IndexEntry>, e: IndexEntry, key: Seq<char>)
    ensures
        best_entry(entries.push(e), key) == if e.key@ == key && (best_entry(entries, key) is None
            || e.quality > (best_entry(entries, key)->0).1) {
            Some((e.path@, e.quality))
        } else {
            best_entry(entries, key)
        },
{
    let pushed = entries.push(e);
    assert(pushed.drop_last() =~= entries);
    lemma_best_at(entries, key);
}

impl ConflictIndex {
    /// Every key has at most one entry.
    pub open spec fn wf(&self) -> bool {
        keys_distinct(self.entries@)
    }

    /// The quality of the best file recorded under a key.
    pub open spec fn quality_of(&self, key: Seq<char>) -> Option<u32> {
        best_quality(self.entries@, key)
    }

    /// An index without entries.
    pub fn new() -> (r: Self)
        ensures
            r.entries@.len() == 0,
            r.wf(),
    {
        ConflictIndex { entries: Vec::new() }
    }

    /// Number of entries recorded.
    pub fn len(&self) -> (r: usize)
        ensures
            r == self.entries@.len(),
    {
        self.entries.len()
    }

    /// Records a file found at the destination. Where the key has an entry
    /// already, the better of the two stays, and the earlier one if they are
    /// equal: every lookup answers, with path and quality, as if all files
    /// had been kept.
    pub fn insert(&mut self, key: String, path: String, quality: u32)
        ensures
            old(self).wf() ==> final(self).wf(),
            forall|k: Seq<char>|
                #![trigger best_entry(final(self).entries@, k)]
                best_entry(final(self).entries@, k) == best_entry(
                    old(self).entries@.push(IndexEntry { key, path, quality }),
                    k,
                ),
            forall|k: Seq<char>|
                #![trigger best_quality(final(self).entries@, k)]
                best_quality(final(self).entries@, k) == best_quality(
                    old(self).entries@.push(IndexEntry { key, path, quality }),
                    k,
                ),
            old(self).wf() ==> final(self).entries@.len() == if best_at(old(self).entries@, key@)
                is Some {
                old(self).entries@.len()
            } else {
                old(self).entries@.len() + 1
            },
    {
        let ghost before = self.entries@;
        let ghost added = IndexEntry { key, path, quality };
        match self.position(key.as_str()) {
            Some(i) => {
                proof {
                    lemma_best_at(before, key@);
                }
                if quality > self.entries[i].quality {
                    self.entries[i] = IndexEntry { key, path, quality };
                    proof {
                        let after = self.entries@;
                        assert forall|k: Seq<char>|
                            #![trigger best_entry(after, k)]
                            best_entry(after, k) == best_entry(before.push(added), k) by {
                            lemma_push_entry(before, added, k);
                            lemma_best_at(before, k);
                            if k == key@ {
                                // The new entry outranks every other entry of its key.
                                assert forall|j: int|
                                    0 <= j < after.len() && #[trigger] after[j].key@
                                        == k implies after[j].quality
                                    <= after[i as int].quality by {
                                    if j != i {
                                        assert(after[j] == before[j]);
                                    }
                                }
                                assert forall|j: int|
                                    0 <= j < i && #[trigger] after[j].key@
                                        == k implies after[j].quality
                                    < after[i as int].quality by {
                                    assert(after[j] == before[j]);
                                }
                                lemma_best_at_is(after, k, i as int);
                            } else {
                                match best_at(before, k) {
                                    Some(b) => {
                                        assert(after[b] == before[b]);
                                        assert forall|j: int|
                                            0 <= j < after.len() && #[trigger] after[j].key@
                                                == k implies after[j].quality
                                            <= after[b].quality by {
                                            assert(after[j] == before[j]);
                                        }
                                        assert forall|j: int|
                                            0 <= j < b && #[trigger] after[j].key@
                                                == k implies after[j].quality
                                            < after[b].quality by {
                                            assert(after[j] == before[j]);
                                        }
                                        lemma_best_at_is(after, k, b);
                                    },
                                    None => {
                                        lemma_best_at(after, k);
                                        if best_at(after, k) is Some {
                                            let b = best_at(after, k)->0;
                                            assert(after[b] == before[b]);
                                        }
                                    },
                                }
                            }
                        }
                        assert forall|k: Seq<char>|
                            #![trigger best_quality(after, k)]
                            best_quality(after, k) == best_quality(before.push(added), k) by {
                            assert(best_entry(after, k) == best_entry(before.push(added), k));
                        }
                        if keys_distinct(before) {
                            assert forall|x: int, y: int|
                                0 <= x < after.len() && 0 <= y < after.len() && x != y implies (
                            #[trigger] after[x]).key@ != (#[trigger] after[y]).key@ by {
                                assert(after[x].key@ == before[x].key@);
                                assert(after[y].key@ == before[y].key@);
                            }
                        }
                    }
                } else {
                    proof {
                        assert forall|k: Seq<char>|
                            #![trigger best_entry(before, k)]
                            best_entry(before, k) == best_entry(before.push(added), k) by {
                            lemma_push_entry(before, added, k);
                        }
                        assert forall|k: Seq<char>|
                            #![trigger best_quality(before, k)]
                            best_quality(before, k) == best_quality(before.push(added), k) by {
                            lemma_push_quality(before, added, k);
                        }
                    }
                }
            },
            None => {
                proof {
                    lemma_best_at(before, key@);
                }
                self.entries.push(IndexEntry { key, path, quality });
                proof {
                    let after = self.entries@;
                    assert(after =~= before.push(added));
                    if keys_distinct(before) {
                        assert forall|x: int, y: int|
                            0 <= x < after.len() && 0 <= y < after.len() && x != y implies (
                        #[trigger] after[x]).key@ != (#[trigger] after[y]).key@ by {
                            if x < before.len() {
                                assert(after[x] == before[x]);
                            }
                            if y < before.len() {
                                assert(after[y] == before[y]);
                            }
                        }
                    }
                }
            },
        }
    }

    /// The position of the best entry with this key.
    pub fn position(&self, key: &str) -> (r: Option<usize>)
        ensures
            match r {
                Some(i) => best_at(self.entries@, key@) == Some(i as int),
                None => best_at(self.entries@, key@) is None,
            },
    {
        let mut found: Option<usize> = None;
        let mut i: usize = 0;
        let wanted: String = key.to_owned();
        while i < self.entries.len()
            invariant
                i <= self.entries.len(),
                wanted@ == key@,
                match found {
                    Some(b) => b < i && best_at(self.entries@.take(i as int), key@) == Some(
                        b as int,
                    ),
                    None => best_at(self.entries@.take(i as int), key@) is None,
                },
            decreases self.entries.len() - i,
        {
            assert(self.entries@.take(i + 1).drop_last() =~= self.entries@.take(i as int));
            let entry = &self.entries[i];
            if entry.key == wanted {
                let better: bool = match found {
                    Some(b) => entry.quality > self.entries[b].quality,
                    None => true,
                };
                if better {
                    found = Some(i);
                }
            }
            i += 1;
        }
        assert(self.entries@.take(self.entries.len() as int) =~= self.entries@);
        found
    }

    /// The path and quality of the best file recorded under this key, if
    /// any file is.
    pub fn find(&self, key: &str) -> (r: Option<(String, u32)>)
        ensures
            match r {
                Some(found) => best_at(self.entries@, key@) is Some && found.0@
                    == self.entries@[best_at(self.entries@, key@)->0].path@ && Some(found.1)
                    == best_quality(self.entries@, key@),
                None => best_at(self.entries@, key@) is None,
            },
    {
        match self.position(key) {
            Some(i) => {
                proof {
                    lemma_best_at(self.entries@, key@);
                }
                Some((self.entries[i].path.clone(), self.entries[i].quality))
            },
            None => None,
        }
    }
}

} // verus!
