//! The ordering engine: sorting under total and partial orders.
//!
//! A total order is a full comparison capability: every value has a rank and
//! every pair resolves.  A partial order is the weaker capability: some
//! values have no defined place (like a floating-point not-a-number), and a
//! pair containing one cannot be resolved.  The partial-order sort never
//! skips such a pair silently: it reports `IncomparableValues` and leaves the
//! sequence untouched.

use vstd::prelude::*;
use vstd::pervasive::unreached;

use crate::capability::Describe;
use crate::errors::CoreError;

verus! {

/// Full comparison capability: a total order given by an integer rank.
pub trait TotalOrder {
    /// The rank a value sorts by.
    spec fn rank_spec(&self) -> int;

    /// Whether `self` sorts at or before `other`; every pair resolves.
    fn le(&self, other: &Self) -> (r: bool)
        ensures
            r == (self.rank_spec() <= other.rank_spec()),
    ;
}

impl TotalOrder for i64 {
    open spec fn rank_spec(&self) -> int {
        *self as int
    }

    fn le(&self, other: &Self) -> bool {
        *self <= *other
    }
}

/// Partial comparison capability: a pair resolves only when both sides have
/// a defined place in the order.
pub trait PartialCompare {
    /// Whether the value has a defined place in the order.
    spec fn defined_spec(&self) -> bool;

    /// The rank of a defined value.
    spec fn rank_spec(&self) -> int;

    /// Compare two values; an unresolved pair yields nothing, never a
    /// made-up answer.
    fn try_le(&self, other: &Self) -> (r: Option<bool>)
        ensures
            r is Some <==> self.defined_spec() && other.defined_spec(),
            r matches Some(b) ==> b == (self.rank_spec() <= other.rank_spec()),
    ;
}

/// A value under the partial order: ranked, or undefined in the way a
/// floating-point not-a-number is, so that no pair holding it resolves.
#[derive(Clone, Copy, Debug, PartialEq, Eq, Structural)]
pub enum PartialRank {
    /// A value with a defined place in the order.
    Ranked(u64),
    /// A value that compares with nothing, itself included.
    Undefined,
}

impl PartialCompare for PartialRank {
    open spec fn defined_spec(&self) -> bool {
        self is Ranked
    }

    open spec fn rank_spec(&self) -> int {
        match *self {
            PartialRank::Ranked(n) => n as int,
            PartialRank::Undefined => 0,
        }
    }

    fn try_le(&self, other: &Self) -> (r: Option<bool>) {
        match (self, other) {
            (PartialRank::Ranked(a), PartialRank::Ranked(b)) => Some(*a <= *b),
            _ => None,
        }
    }
}

/// The sequence is in non-decreasing rank order.
pub open spec fn sorted_by_rank<T: TotalOrder>(s: Seq<T>) -> bool {
    forall|i: int, j: int| 0 <= i < j < s.len() ==> s[i].rank_spec() <= s[j].rank_spec()
}

/// The sequence is in non-decreasing rank order, under the partial capability.
pub open spec fn sorted_by_partial_rank<T: PartialCompare>(s: Seq<T>) -> bool {
    forall|i: int, j: int| 0 <= i < j < s.len() ==> s[i].rank_spec() <= s[j].rank_spec()
}

/// The elements of rank `r`, in their order of appearance.
pub open spec fn elements_of_rank<T: TotalOrder>(s: Seq<T>, r: int) -> Seq<T>
    decreases s.len(),
{
    if s.len() == 0 {
        Seq::empty()
    } else {
        let rest = elements_of_rank(s.drop_last(), r);
        if s.last().rank_spec() == r {
            rest.push(s.last())
        } else {
            rest
        }
    }
}

/// The equal-rank subsequence distributes over concatenation.
proof fn lemma_elements_of_rank_add<T: TotalOrder>(a: Seq<T>, b: Seq<T>, r: int)
    ensures
        elements_of_rank(a + b, r) == elements_of_rank(a, r) + elements_of_rank(b, r),
    decreases b.len(),
{
    if b.len() == 0 {
        assert(a + b =~= a);
        assert(elements_of_rank(b, r) =~= Seq::<T>::empty());
        assert(elements_of_rank(a, r) + elements_of_rank(b, r) =~= elements_of_rank(a, r));
    } else {
        lemma_elements_of_rank_add(a, b.drop_last(), r);
        assert((a + b).drop_last() =~= a + b.drop_last());
        assert((a + b).last() == b.last());
        assert(elements_of_rank(a + b, r) =~= elements_of_rank(a, r) + elements_of_rank(b, r));
    }
}

/// A sequence without rank-`r` elements contributes nothing at rank `r`.
proof fn lemma_elements_of_rank_none<T: TotalOrder>(s: Seq<T>, r: int)
    requires
        forall|q: int| 0 <= q < s.len() ==> (#[trigger] s[q]).rank_spec() != r,
    ensures
        elements_of_rank(s, r) == Seq::<T>::empty(),
    decreases s.len(),
{
    if s.len() > 0 {
        lemma_elements_of_rank_none(s.drop_last(), r);
    }
}

/// The equal-rank subsequence of a single element.
proof fn lemma_elements_of_rank_one<T: TotalOrder>(m: T, r: int)
    ensures
        elements_of_rank(seq![m], r) == (if m.rank_spec() == r {
            seq![m]
        } else {
            Seq::<T>::empty()
        }),
{
    assert(seq![m].drop_last() =~= Seq::<T>::empty());
    lemma_elements_of_rank_none(seq![m].drop_last(), r);
    if m.rank_spec() == r {
        assert(elements_of_rank(seq![m], r) =~= seq![m]);
    } else {
        assert(elements_of_rank(seq![m], r) =~= Seq::<T>::empty());
    }
}

/// Whether `a` sorts strictly after `b`.
fn rank_gt<T: TotalOrder>(a: &T, b: &T) -> (r: bool)
    ensures
        r == (a.rank_spec() > b.rank_spec()),
{
    !a.le(b)
}

/// Whether `a` sorts strictly after `b`, for values known to be defined.
fn partial_rank_gt<T: PartialCompare>(a: &T, b: &T) -> (r: bool)
    requires
        a.defined_spec(),
        b.defined_spec(),
    ensures
        r == (a.rank_spec() > b.rank_spec()),
{
    match a.try_le(b) {
        Some(le) => !le,
        None => unreached(),
    }
}

/// Sort under the total order: the result holds the same elements, in
/// non-decreasing rank order; the tie-break is stable, so elements of equal
/// rank keep their relative input order, and an already-sorted sequence comes
/// back element-for-element unchanged.
pub fn sort_total<T: TotalOrder>(v: &mut Vec<T>)
    ensures
        final(v)@.to_multiset() == old(v)@.to_multiset(),
        final(v)@.len() == old(v)@.len(),
        sorted_by_rank(final(v)@),
        forall|r: int|
            #[trigger] elements_of_rank(final(v)@, r) == elements_of_rank(old(v)@, r),
        sorted_by_rank(old(v)@) ==> final(v)@ == old(v)@,
{
    broadcast use vstd::multiset::group_multiset_axioms;

    let n = v.len();
    if n < 2 {
        return ;
    }
    for i in 1..n
        invariant
            n == v@.len(),
            v@.to_multiset() == old(v)@.to_multiset(),
            forall|a: int, b: int| 0 <= a < b < i ==> v@[a].rank_spec() <= v@[b].rank_spec(),
            forall|r: int| #[trigger] elements_of_rank(v@, r) == elements_of_rank(old(v)@, r),
            sorted_by_rank(old(v)@) ==> v@ == old(v)@,
    {
        let mut p = i;
        while p > 0 && rank_gt(&v[p - 1], &v[i])
            invariant
                0 <= p <= i < n == v@.len(),
                forall|a: int, b: int| 0 <= a < b < i ==> v@[a].rank_spec() <= v@[b].rank_spec(),
                forall|q: int|
                    p <= q < i ==> v@[q].rank_spec() > v@[i as int].rank_spec(),
                sorted_by_rank(old(v)@) && v@ == old(v)@ ==> p == i,
            decreases p,
        {
            proof {
                if sorted_by_rank(old(v)@) && v@ == old(v)@ {
                    assert(v@[p - 1].rank_spec() <= v@[i as int].rank_spec());
                    assert(false);
                }
            }
            p = p - 1;
        }
        if p < i {
            let ghost s = v@;
            let x = v.remove(i);
            v.insert(p, x);
            proof {
                let s2 = v@;
                assert(s2 == s.remove(i as int).insert(p as int, s[i as int]));
                assert forall|k: int| 0 <= k < s2.len() implies s2[k] == (if k < p {
                    s[k]
                } else if k == p {
                    s[i as int]
                } else if k <= i {
                    s[k - 1]
                } else {
                    s[k]
                }) by {}
                vstd::seq_lib::to_multiset_remove::<T>(s, i as int);
                vstd::seq_lib::to_multiset_insert::<T>(s.remove(i as int), p as int, s[i as int]);
                vstd::seq_lib::to_multiset_contains::<T>(s, s[i as int]);
                assert(s.contains(s[i as int]));
                assert(s2.to_multiset() =~= s.to_multiset());
                let sa = s.subrange(0, p as int);
                let sb = s.subrange(p as int, i as int);
                let sc = s.subrange(i + 1, s.len() as int);
                let m = s[i as int];
                assert(s =~= sa + sb + seq![m] + sc);
                assert(s2 =~= sa + seq![m] + sb + sc);
                assert forall|r: int|
                    #[trigger] elements_of_rank(s2, r) == elements_of_rank(s, r) by {
                    lemma_elements_of_rank_add(sa + sb + seq![m], sc, r);
                    lemma_elements_of_rank_add(sa + sb, seq![m], r);
                    lemma_elements_of_rank_add(sa, sb, r);
                    lemma_elements_of_rank_add(sa + seq![m] + sb, sc, r);
                    lemma_elements_of_rank_add(sa + seq![m], sb, r);
                    lemma_elements_of_rank_add(sa, seq![m], r);
                    lemma_elements_of_rank_one(m, r);
                    if m.rank_spec() == r {
                        assert forall|q: int|
                            0 <= q < sb.len() implies (#[trigger] sb[q]).rank_spec() != r by {
                            assert(s[p + q].rank_spec() > m.rank_spec());
                        }
                        lemma_elements_of_rank_none(sb, r);
                    }
                    assert(elements_of_rank(s2, r) =~= elements_of_rank(s, r));
                }
                assert(!(sorted_by_rank(old(v)@) && s == old(v)@)) by {
                    if sorted_by_rank(old(v)@) && s == old(v)@ {
                        assert(s[p as int].rank_spec() > s[i as int].rank_spec());
                        assert(s[p as int].rank_spec() <= s[i as int].rank_spec());
                    }
                }
            }
        }
    }
}

/// Sort under the partial order.  Succeeds exactly when every pair the sort
/// would meet resolves: with two or more elements, every element must have a
/// defined place.  On failure nothing is reordered and `IncomparableValues`
/// is reported; skipping the unresolved pairs instead is forbidden.
pub fn sort_partial<T: PartialCompare>(v: &mut Vec<T>) -> (r: Result<(), CoreError>)
    ensures
        r is Ok <==> (old(v)@.len() < 2 || forall|i: int|
            0 <= i < old(v)@.len() ==> (#[trigger] old(v)@[i]).defined_spec()),
        r matches Err(e) ==> e == CoreError::IncomparableValues && final(v)@ == old(v)@,
        r is Ok ==> final(v)@.to_multiset() == old(v)@.to_multiset(),
        r is Ok ==> final(v)@.len() == old(v)@.len(),
        r is Ok ==> sorted_by_partial_rank(final(v)@),
        r is Ok && sorted_by_partial_rank(old(v)@) ==> final(v)@ == old(v)@,
{
    broadcast use vstd::multiset::group_multiset_axioms;

    let n = v.len();
    if n < 2 {
        return Ok(());
    }
    for i in 0..n
        invariant
            2 <= n == v@.len(),
            v@ == old(v)@,
            forall|j: int| 0 <= j < i ==> (#[trigger] v@[j]).defined_spec(),
    {
        if v[i].try_le(&v[i]).is_none() {
            proof {
                assert(!old(v)@[i as int].defined_spec());
            }
            return Err(CoreError::IncomparableValues);
        }
    }
    for i in 1..n
        invariant
            n == v@.len(),
            v@.to_multiset() == old(v)@.to_multiset(),
            forall|k: int| 0 <= k < n ==> (#[trigger] v@[k]).defined_spec(),
            forall|a: int, b: int| 0 <= a < b < i ==> v@[a].rank_spec() <= v@[b].rank_spec(),
            sorted_by_partial_rank(old(v)@) ==> v@ == old(v)@,
    {
        let mut p = i;
        while p > 0 && partial_rank_gt(&v[p - 1], &v[i])
            invariant
                0 <= p <= i < n == v@.len(),
                forall|k: int| 0 <= k < n ==> (#[trigger] v@[k]).defined_spec(),
                forall|a: int, b: int| 0 <= a < b < i ==> v@[a].rank_spec() <= v@[b].rank_spec(),
                forall|q: int|
                    p <= q < i ==> v@[q].rank_spec() > v@[i as int].rank_spec(),
                sorted_by_partial_rank(old(v)@) && v@ == old(v)@ ==> p == i,
            decreases p,
        {
            proof {
                if sorted_by_partial_rank(old(v)@) && v@ == old(v)@ {
                    assert(v@[p - 1].rank_spec() <= v@[i as int].rank_spec());
                    assert(false);
                }
            }
            p = p - 1;
        }
        if p < i {
            let ghost s = v@;
            let x = v.remove(i);
            v.insert(p, x);
            proof {
                let s2 = v@;
                assert(s2 == s.remove(i as int).insert(p as int, s[i as int]));
                assert forall|k: int| 0 <= k < s2.len() implies s2[k] == (if k < p {
                    s[k]
                } else if k == p {
                    s[i as int]
                } else if k <= i {
                    s[k - 1]
                } else {
                    s[k]
                }) by {}
                vstd::seq_lib::to_multiset_remove::<T>(s, i as int);
                vstd::seq_lib::to_multiset_insert::<T>(s.remove(i as int), p as int, s[i as int]);
                vstd::seq_lib::to_multiset_contains::<T>(s, s[i as int]);
                assert(s.contains(s[i as int]));
                assert(s2.to_multiset() =~= s.to_multiset());
                assert(!(sorted_by_partial_rank(old(v)@) && s == old(v)@)) by {
                    if sorted_by_partial_rank(old(v)@) && s == old(v)@ {
                        assert(s[p as int].rank_spec() > s[i as int].rank_spec());
                        assert(s[p as int].rank_spec() <= s[i as int].rank_spec());
                    }
                }
            }
        }
    }
    Ok(())
}

/// A record ordered by a named field: the key extraction is the capability
/// implementation, and the engine never looks inside the record itself.
#[derive(Debug)]
pub struct Person {
    /// The record's name.
    pub name: String,
    /// The record's age, its sort key.
    pub age: u32,
}

impl Person {
    /// Build a record.
    pub fn new(name: String, age: u32) -> (r: Person)
        ensures
            r.name == name,
            r.age == age,
    {
        Person { name, age }
    }
}

impl TotalOrder for Person {
    open spec fn rank_spec(&self) -> int {
        self.age as int
    }

    fn le(&self, other: &Self) -> bool {
        self.age <= other.age
    }
}

impl Describe for Person {
    open spec fn describe_spec(&self) -> Seq<char> {
        self.name@
    }

    fn describe(&self) -> (r: String) {
        self.name.clone()
    }
}

/// The element with the greatest rank, by value.
pub fn largest<T: TotalOrder + Copy>(list: &[T]) -> (r: T)
    requires
        list@.len() >= 1,
    ensures
        list@.contains(r),
        forall|i: int| 0 <= i < list@.len() ==> (#[trigger] list@[i]).rank_spec() <= r.rank_spec(),
{
    let mut largest = list[0];
    assert(list@.contains(list@[0]));
    for idx in 1..list.len()
        invariant
            list@.contains(largest),
            forall|j: int| 0 <= j < idx ==> (#[trigger] list@[j]).rank_spec() <= largest.rank_spec(),
    {
        if rank_gt(&list[idx], &largest) {
            largest = list[idx];
            assert(list@.contains(list@[idx as int]));
        }
    }
    largest
}

/// The element with the greatest rank, by reference: no copy of the element
/// is ever made.
pub fn largest_t<T: TotalOrder>(list: &[T]) -> (r: &T)
    requires
        list@.len() >= 1,
    ensures
        exists|k: int| 0 <= k < list@.len() && *r == list@[k],
        forall|i: int| 0 <= i < list@.len() ==> (#[trigger] list@[i]).rank_spec() <= r.rank_spec(),
{
    let mut li: usize = 0;
    for idx in 1..list.len()
        invariant
            li < list@.len(),
            forall|j: int| 0 <= j < idx ==> (#[trigger] list@[j]).rank_spec() <= list@[li as int].rank_spec(),
    {
        if rank_gt(&list[idx], &list[li]) {
            li = idx;
        }
    }
    &list[li]
}

} // verus!
