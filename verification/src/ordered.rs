//! Reading an ordered set out as an ascending list.
use std::collections::BTreeSet;
use vstd::laws_cmp::obeys_cmp;
use vstd::prelude::*;
use vstd::std_specs::btree::increasing_seq;
use vstd::std_specs::cmp::OrdSpec;

verus! {

/// Whether each element of `list` is smaller than the next one.
pub open spec fn is_strictly_increasing(list: Seq<u64>) -> bool {
    forall|i: int, j: int| 0 <= i < j < list.len() ==> list[i] < list[j]
}

/// In a sequence that an ordered collection hands out, an earlier key
/// compares as less than a later one.
proof fn lemma_earlier_is_less<K: Ord>(keys: Seq<K>, i: int, j: int)
    requires
        obeys_cmp::<K>(),
        increasing_seq(keys),
        0 <= i < j < keys.len(),
    ensures
        keys[i].cmp_spec(&keys[j]) is Less,
{
}

proof fn lemma_increasing_keys(keys: Seq<&u64>)
    requires
        increasing_seq(keys),
    ensures
        forall|i: int, j: int| 0 <= i < j < keys.len() ==> *keys[i] < *keys[j],
{
    assert forall|i: int, j: int| 0 <= i < j < keys.len() implies *keys[i] < *keys[j] by {
        lemma_earlier_is_less(keys, i, j);
    }
}

/// The elements of `set` in ascending order.
pub fn ascending(set: &BTreeSet<u64>) -> (list: Vec<u64>)
    ensures
        is_strictly_increasing(list@),
        list@.to_set() == set@,
{
    let mut list: Vec<u64> = Vec::new();
    for item in it: set.iter()
        invariant
            list@.len() == it.index(),
            forall|j: int| 0 <= j < it.index() ==> list@[j] == *it.seq()[j],
            it.seq().unref().to_set() == set@,
            increasing_seq(it.seq()),
            it.index() == it.seq().len() ==> is_strictly_increasing(list@) && list@.to_set()
                == set@,
    {
        list.push(*item);
        assert(forall|i: int, j: int|
            0 <= i < j < it.seq().len() ==> *it.seq()[i] < *it.seq()[j]) by {
            lemma_increasing_keys(it.seq());
        }
        assert(it.index() + 1 == it.seq().len() ==> list@ =~= it.seq().unref());
    }
    list
}

/// A list in which each element is smaller than the next holds none twice.
pub proof fn lemma_increasing_has_no_duplicates(list: Seq<u64>)
    requires
        is_strictly_increasing(list),
    ensures
        list.no_duplicates(),
{
    assert forall|i: int, j: int| 0 <= i < list.len() && 0 <= j < list.len() && i != j implies list[i]
        != list[j] by {
        if i < j {
            assert(list[i] < list[j]);
        } else {
            assert(list[j] < list[i]);
        }
    }
}

} // verus!
