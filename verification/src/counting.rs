//! The aggregation engine: folding a key sequence into a frequency map.
//!
//! The insertion rule is one atomic logical step per key: look the key up;
//! insert it with count one when absent, increment its count when present.
//! Every key held has a count of at least one, and reading a count back
//! either reports the absence (`KeyAbsent`) or falls back to a value the
//! caller supplied, in which case the operation cannot fail.

use vstd::prelude::*;

use crate::errors::CoreError;

verus! {

/// How many times `k` occurs in `keys`.
pub open spec fn occurrences(keys: Seq<Seq<char>>, k: Seq<char>) -> nat
    decreases keys.len(),
{
    if keys.len() == 0 {
        0
    } else {
        occurrences(keys.drop_last(), k) + (if keys.last() == k {
            1nat
        } else {
            0nat
        })
    }
}

/// The views of a sequence of keys.
pub open spec fn key_views(keys: Seq<String>) -> Seq<Seq<char>> {
    keys.map_values(|s: String| s@)
}

/// The count a table of entries assigns to `k`: the count stored beside its
/// key, or zero when no entry holds it.
pub open spec fn entries_count(entries: Seq<(String, u64)>, k: Seq<char>) -> nat
    decreases entries.len(),
{
    if entries.len() == 0 {
        0
    } else if entries.last().0@ == k {
        entries.last().1 as nat
    } else {
        entries_count(entries.drop_last(), k)
    }
}

/// No two entries hold the same key.
pub open spec fn distinct_keys(entries: Seq<(String, u64)>) -> bool {
    forall|i: int, j: int| 0 <= i < j < entries.len() ==> entries[i].0@ != entries[j].0@
}

/// Occurrence counts are bounded by the sequence's length.
proof fn lemma_occurrences_bound(keys: Seq<Seq<char>>, k: Seq<char>)
    ensures
        occurrences(keys, k) <= keys.len(),
    decreases keys.len(),
{
    if keys.len() > 0 {
        lemma_occurrences_bound(keys.drop_last(), k);
    }
}

/// A key no entry holds counts zero.
proof fn lemma_entries_absent(entries: Seq<(String, u64)>, k: Seq<char>)
    requires
        forall|j: int| 0 <= j < entries.len() ==> (#[trigger] entries[j]).0@ != k,
    ensures
        entries_count(entries, k) == 0,
    decreases entries.len(),
{
    if entries.len() > 0 {
        lemma_entries_absent(entries.drop_last(), k);
    }
}

/// With distinct keys, the count of a held key is the count stored beside it.
proof fn lemma_entries_match(entries: Seq<(String, u64)>, j: int, k: Seq<char>)
    requires
        distinct_keys(entries),
        0 <= j < entries.len(),
        entries[j].0@ == k,
    ensures
        entries_count(entries, k) == entries[j].1,
    decreases entries.len(),
{
    if j == entries.len() - 1 {
        assert(entries.last().0@ == k);
    } else {
        assert(entries.last().0@ != k);
        lemma_entries_match(entries.drop_last(), j, k);
    }
}

/// Replacing the count beside one key leaves every other key's count alone.
proof fn lemma_entries_update_other(entries: Seq<(String, u64)>, j: int, e: (String, u64), k: Seq<char>)
    requires
        0 <= j < entries.len(),
        e.0@ != k,
        entries[j].0@ != k,
    ensures
        entries_count(entries.update(j, e), k) == entries_count(entries, k),
    decreases entries.len(),
{
    let updated = entries.update(j, e);
    if j == entries.len() - 1 {
        assert(updated.drop_last() =~= entries.drop_last());
    } else {
        assert(updated.drop_last() =~= entries.drop_last().update(j, e));
        assert(updated.last() == entries.last());
        lemma_entries_update_other(entries.drop_last(), j, e, k);
    }
}

/// A frequency map: each key held maps to how often it was recorded.
pub struct FrequencyMap {
    entries: Vec<(String, u64)>,
}

impl FrequencyMap {
    /// The count the map assigns to `k`; zero for a key not held.
    pub closed spec fn count_of(&self, k: Seq<char>) -> nat {
        entries_count(self.entries@, k)
    }

    /// Well-formed: keys are unique and every key held has a count of at
    /// least one.
    pub closed spec fn wf(&self) -> bool {
        &&& distinct_keys(self.entries@)
        &&& forall|j: int| 0 <= j < self.entries@.len() ==> (#[trigger] self.entries@[j]).1 >= 1
    }

    /// The empty map: every count is zero.
    pub fn new() -> (r: FrequencyMap)
        ensures
            r.wf(),
            forall|k: Seq<char>| #[trigger] r.count_of(k) == 0,
    {
        FrequencyMap { entries: Vec::new() }
    }

    /// Whether no key is held; equivalently, every count is zero.
    pub fn is_empty(&self) -> (r: bool)
        requires
            self.wf(),
        ensures
            r <==> (forall|k: Seq<char>| #[trigger] self.count_of(k) == 0),
    {
        let r = self.entries.len() == 0;
        proof {
            if r {
                assert forall|k: Seq<char>| #[trigger] self.count_of(k) == 0 by {}
            } else {
                lemma_entries_match(self.entries@, 0, self.entries@[0].0@);
                assert(self.count_of(self.entries@[0].0@) >= 1);
            }
        }
        r
    }

    /// Record `key` `c` more times, as one atomic logical step: insert the
    /// key with count `c` when absent, add `c` to its count when present.
    fn add_count(&mut self, key: String, c: u64)
        requires
            old(self).wf(),
            c >= 1,
            old(self).count_of(key@) + c <= u64::MAX,
        ensures
            final(self).wf(),
            final(self).count_of(key@) == old(self).count_of(key@) + c,
            forall|k: Seq<char>|
                k != key@ ==> #[trigger] final(self).count_of(k) == old(self).count_of(k),
    {
        let n = self.entries.len();
        for j in 0..n
            invariant
                n == self.entries@.len(),
                self == old(self),
                old(self).wf(),
                c >= 1,
                old(self).count_of(key@) + c <= u64::MAX,
                forall|q: int| 0 <= q < j ==> (#[trigger] self.entries@[q]).0@ != key@,
        {
            if self.entries[j].0 == key {
                proof {
                    lemma_entries_match(self.entries@, j as int, key@);
                }
                let pair = self.entries.remove(j);
                let raised = pair.1 + c;
                self.entries.insert(j, (pair.0, raised));
                proof {
                    let s = old(self).entries@;
                    let e = (pair.0, raised);
                    assert(self.entries@ =~= s.update(j as int, e));
                    assert(e.0@ == key@);
                    assert forall|k: Seq<char>|
                        k != key@ implies #[trigger] self.count_of(k) == old(self).count_of(
                        k,
                    ) by {
                        lemma_entries_update_other(s, j as int, e, k);
                    }
                    assert(distinct_keys(self.entries@));
                    lemma_entries_match(self.entries@, j as int, key@);
                }
                return ;
            }
        }
        proof {
            lemma_entries_absent(self.entries@, key@);
        }
        self.entries.push((key, c));
        proof {
            let s = old(self).entries@;
            assert(self.entries@.drop_last() =~= s);
            assert(self.entries@.last().0@ == key@);
            assert forall|k: Seq<char>|
                k != key@ implies #[trigger] self.count_of(k) == old(self).count_of(k) by {}
            assert(distinct_keys(self.entries@));
        }
    }

    /// Record one occurrence of `key`: the insert-or-update rule, one atomic
    /// logical step.
    pub fn add_key(&mut self, key: String)
        requires
            old(self).wf(),
            old(self).count_of(key@) < u64::MAX,
        ensures
            final(self).wf(),
            final(self).count_of(key@) == old(self).count_of(key@) + 1,
            forall|k: Seq<char>|
                k != key@ ==> #[trigger] final(self).count_of(k) == old(self).count_of(k),
    {
        self.add_count(key, 1);
    }

    /// The count recorded for `key`; zero for a key not held.
    pub fn count(&self, key: &String) -> (r: u64)
        requires
            self.wf(),
        ensures
            r as nat == self.count_of(key@),
    {
        let n = self.entries.len();
        for j in 0..n
            invariant
                n == self.entries@.len(),
                self.wf(),
                forall|q: int| 0 <= q < j ==> (#[trigger] self.entries@[q]).0@ != key@,
        {
            if self.entries[j].0 == *key {
                proof {
                    lemma_entries_match(self.entries@, j as int, key@);
                }
                return self.entries[j].1;
            }
        }
        proof {
            lemma_entries_absent(self.entries@, key@);
        }
        0
    }

    /// Look a key up; a key not held is a `KeyAbsent` failure, reported to
    /// the caller, never substituted silently.
    pub fn get(&self, key: &String) -> (r: Result<u64, CoreError>)
        requires
            self.wf(),
        ensures
            r is Ok <==> self.count_of(key@) > 0,
            r matches Ok(c) ==> c as nat == self.count_of(key@),
            r matches Err(e) ==> e == CoreError::KeyAbsent,
    {
        let c = self.count(key);
        if c > 0 {
            Ok(c)
        } else {
            Err(CoreError::KeyAbsent)
        }
    }

    /// Look a key up with a caller-supplied fallback: the default-bearing
    /// variant, which cannot fail.
    pub fn count_or(&self, key: &String, fallback: u64) -> (r: u64)
        requires
            self.wf(),
        ensures
            self.count_of(key@) > 0 ==> r as nat == self.count_of(key@),
            self.count_of(key@) == 0 ==> r == fallback,
    {
        let c = self.count(key);
        if c > 0 {
            c
        } else {
            fallback
        }
    }

    /// Fold every count of `other` into this map: afterwards each key counts
    /// the sum of what the two maps recorded for it.
    pub fn merge(&mut self, other: &FrequencyMap)
        requires
            old(self).wf(),
            other.wf(),
            forall|k: Seq<char>|
                (#[trigger] old(self).count_of(k)) + other.count_of(k) <= u64::MAX,
        ensures
            final(self).wf(),
            forall|k: Seq<char>|
                #[trigger] final(self).count_of(k) == old(self).count_of(k) + other.count_of(k),
    {
        let n = other.entries.len();
        for i in 0..n
            invariant
                n == other.entries@.len(),
                self.wf(),
                other.wf(),
                forall|k: Seq<char>|
                    (#[trigger] old(self).count_of(k)) + other.count_of(k) <= u64::MAX,
                forall|k: Seq<char>|
                    #[trigger] self.count_of(k) == old(self).count_of(k) + entries_count(
                        other.entries@.take(i as int),
                        k,
                    ),
        {
            let key = other.entries[i].0.clone();
            let c = other.entries[i].1;
            proof {
                lemma_entries_match(other.entries@, i as int, key@);
                assert forall|q: int|
                    0 <= q < other.entries@.take(i as int).len() implies (
                #[trigger] other.entries@.take(i as int)[q]).0@ != key@ by {
                    assert(other.entries@[q].0@ != other.entries@[i as int].0@);
                }
                lemma_entries_absent(other.entries@.take(i as int), key@);
            }
            self.add_count(key, c);
            proof {
                let taken = other.entries@.take(i as int);
                let taken1 = other.entries@.take(i + 1);
                assert(taken1.drop_last() =~= taken);
                assert(taken1.last() == other.entries@[i as int]);
                assert forall|k: Seq<char>|
                    #[trigger] self.count_of(k) == old(self).count_of(k) + entries_count(
                        taken1,
                        k,
                    ) by {
                    if k == key@ {
                        assert(entries_count(taken1, k) == c);
                    } else {
                        assert(entries_count(taken1, k) == entries_count(taken, k));
                    }
                }
            }
        }
        proof {
            assert(other.entries@.take(n as int) =~= other.entries@);
        }
    }

    /// Aggregate a sequence of keys: each key's count in the result is its
    /// number of occurrences in the input; an empty input gives the empty map.
    pub fn aggregate(keys: &Vec<String>) -> (r: FrequencyMap)
        ensures
            r.wf(),
            forall|k: Seq<char>| #[trigger] r.count_of(k) == occurrences(key_views(keys@), k),
    {
        let mut m = FrequencyMap::new();
        let n = keys.len();
        for i in 0..n
            invariant
                n == keys@.len(),
                m.wf(),
                forall|k: Seq<char>|
                    #[trigger] m.count_of(k) == occurrences(key_views(keys@).take(i as int), k),
        {
            proof {
                lemma_occurrences_bound(key_views(keys@).take(i as int), keys@[i as int]@);
            }
            m.add_key(keys[i].clone());
            proof {
                let taken = key_views(keys@).take(i as int);
                let taken1 = key_views(keys@).take(i + 1);
                assert(taken1.drop_last() =~= taken);
                assert(taken1.last() == keys@[i as int]@);
                assert forall|k: Seq<char>|
                    #[trigger] m.count_of(k) == occurrences(taken1, k) by {
                    if k == keys@[i as int]@ {
                        assert(occurrences(taken1, k) == occurrences(taken, k) + 1);
                    } else {
                        assert(occurrences(taken1, k) == occurrences(taken, k));
                    }
                }
            }
        }
        proof {
            assert(key_views(keys@).take(n as int) =~= key_views(keys@));
        }
        m
    }
}

/// Occurrence counts distribute over concatenation, key by key.
proof fn lemma_occurrences_concat_key(s1: Seq<Seq<char>>, s2: Seq<Seq<char>>, k: Seq<char>)
    ensures
        occurrences(s1 + s2, k) == occurrences(s1, k) + occurrences(s2, k),
    decreases s2.len(),
{
    if s2.len() == 0 {
        assert(s1 + s2 =~= s1);
    } else {
        lemma_occurrences_concat_key(s1, s2.drop_last(), k);
        assert((s1 + s2).drop_last() =~= s1 + s2.drop_last());
        assert((s1 + s2).last() == s2.last());
    }
}

/// Aggregating two key sequences separately and merging the results matches
/// aggregating their concatenation: every key's occurrence count distributes
/// over concatenation, so the merged counts and the counts of the combined
/// input agree on every key.
pub proof fn lemma_aggregate_concat(s1: Seq<Seq<char>>, s2: Seq<Seq<char>>)
    ensures
        forall|k: Seq<char>|
            #[trigger] occurrences(s1 + s2, k) == occurrences(s1, k) + occurrences(s2, k),
{
    assert forall|k: Seq<char>|
        #[trigger] occurrences(s1 + s2, k) == occurrences(s1, k) + occurrences(s2, k) by {
        lemma_occurrences_concat_key(s1, s2, k);
    }
}

} // verus!
