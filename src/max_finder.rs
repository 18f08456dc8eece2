//! The maximum of a sequence of signed integers, or `None` for an empty one.
use vstd::prelude::*;

verus! {

/// The running maximum of `s`: empty gives `None`; otherwise the first
/// element, replaced by each later element that strictly exceeds it.
pub open spec fn seq_max(s: Seq<i32>) -> Option<i32>
    decreases s.len(),
{
    if s.len() == 0 {
        None
    } else {
        match seq_max(s.drop_last()) {
            None => Some(s.last()),
            Some(m) => if s.last() > m {
                Some(s.last())
            } else {
                Some(m)
            },
        }
    }
}

/// `m` occurs in `s` and no element of `s` exceeds it.
pub open spec fn is_max_of(s: Seq<i32>, m: i32) -> bool {
    &&& s.contains(m)
    &&& forall|i: int| 0 <= i < s.len() ==> s[i] <= m
}

/// `seq_max` is absent exactly on the empty sequence, and otherwise is an
/// element of the sequence that bounds every element.
pub proof fn lemma_seq_max_is_max(s: Seq<i32>)
    ensures
        seq_max(s) is None <==> s.len() == 0,
        s.len() > 0 ==> is_max_of(s, seq_max(s)->0),
    decreases s.len(),
{
    if s.len() > 0 {
        let t = s.drop_last();
        lemma_seq_max_is_max(t);
        assert(s =~= t.push(s.last()));
        let m = seq_max(s)->0;
        if t.len() == 0 {
            assert(s[0] == m);
        } else {
            let k = choose|k: int| 0 <= k < t.len() && t[k] == seq_max(t)->0;
            if m == s.last() {
                assert(s[s.len() - 1] == m);
            } else {
                assert(s[k] == m);
            }
        }
        assert(s.contains(m));
    }
}

/// A sequence has at most one maximum value: any two values that both occur
/// in `s` and bound every element of it are equal. So every result that meets
/// the contract of `find_max` on the same sequence is the same result, however
/// often it is computed.
pub proof fn lemma_max_unique(s: Seq<i32>, a: Option<i32>, b: Option<i32>)
    requires
        a is None <==> s.len() == 0,
        b is None <==> s.len() == 0,
        a matches Some(m) ==> is_max_of(s, m),
        b matches Some(m) ==> is_max_of(s, m),
    ensures
        a == b,
        a == seq_max(s),
{
    lemma_seq_max_is_max(s);
    if s.len() > 0 {
        let x = a->0;
        let y = b->0;
        let z = seq_max(s)->0;
        let i = choose|i: int| 0 <= i < s.len() && s[i] == x;
        let j = choose|j: int| 0 <= j < s.len() && s[j] == y;
        let k = choose|k: int| 0 <= k < s.len() && s[k] == z;
        assert(s[i] <= y && s[j] <= x && s[k] <= x && s[i] <= z);
    }
}

/// The maximum does not depend on the order of the elements: two sequences
/// that are permutations of each other (equal as multisets) have the same
/// maximum, and both are empty or neither is.
pub proof fn lemma_max_order_independent(s1: Seq<i32>, s2: Seq<i32>)
    requires
        s1.to_multiset() =~= s2.to_multiset(),
    ensures
        seq_max(s1) == seq_max(s2),
{
    broadcast use vstd::seq_lib::group_to_multiset_ensures;

    lemma_seq_max_is_max(s1);
    lemma_seq_max_is_max(s2);
    assert(s1.to_multiset().len() == s2.to_multiset().len());
    assert(s1.len() == s2.len());
    if s1.len() > 0 {
        let m = seq_max(s1)->0;
        assert(s2.contains(m)) by {
            assert(s1.to_multiset().count(m) > 0);
        }
        assert forall|i: int| 0 <= i < s2.len() implies s2[i] <= m by {
            let x = s2[i];
            assert(s2.contains(x));
            assert(s1.contains(x)) by {
                assert(s2.to_multiset().count(x) > 0);
            }
        }
        lemma_max_unique(s2, Some(m), seq_max(s2));
    }
}

/// The maximum of a one-element sequence is that element.
pub proof fn lemma_max_singleton(v: i32)
    ensures
        seq_max(seq![v]) == Some(v),
{
    assert(seq![v].drop_last() =~= Seq::<i32>::empty());
    assert(seq_max(Seq::<i32>::empty()) is None);
}

/// Returns the largest element of `numbers`, or `None` when it is empty.
pub fn find_max(numbers: &[i32]) -> (r: Option<i32>)
    ensures
        r == seq_max(numbers@),
        r is None <==> numbers@.len() == 0,
        r matches Some(m) ==> is_max_of(numbers@, m),
{
    proof {
        lemma_seq_max_is_max(numbers@);
    }
    if numbers.len() == 0 {
        return None;
    }
    let mut max_value: i32 = numbers[0];
    let mut i: usize = 1;
    assert(numbers@.subrange(0, 1).drop_last() =~= Seq::<i32>::empty());
    assert(seq_max(Seq::<i32>::empty()) is None);
    while i < numbers.len()
        invariant
            1 <= i <= numbers@.len(),
            seq_max(numbers@.subrange(0, i as int)) == Some(max_value),
        decreases numbers@.len() - i,
    {
        let num = numbers[i];
        assert(numbers@.subrange(0, i + 1).drop_last() =~= numbers@.subrange(0, i as int));
        if num > max_value {
            max_value = num;
        }
        i = i + 1;
    }
    assert(numbers@.subrange(0, numbers@.len() as int) =~= numbers@);
    Some(max_value)
}

} // verus!
