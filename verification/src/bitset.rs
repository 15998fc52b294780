//! A growable set of small indices, used for validator slot numbers.

use vstd::prelude::*;

verus! {

/// The indices below `k` whose flag is set.
pub open spec fn flagged(bits: Seq<bool>, k: nat) -> Set<nat> {
    Set::new(|i: nat| i < k && i < bits.len() && bits[i as int])
}

/// The flagged indices below a bound are finitely many, at most the bound.
pub proof fn lemma_flagged_finite(bits: Seq<bool>, k: nat)
    ensures
        flagged(bits, k).finite(),
        flagged(bits, k).len() <= k,
        k < bits.len() ==> flagged(bits, k + 1) == (if bits[k as int] {
            flagged(bits, k).insert(k)
        } else {
            flagged(bits, k)
        }),
    decreases k,
{
    if k == 0 {
        assert(flagged(bits, 0) =~= Set::<nat>::empty());
    } else {
        let j = (k - 1) as nat;
        lemma_flagged_finite(bits, j);
        if j < bits.len() && bits[j as int] {
            assert(flagged(bits, k) =~= flagged(bits, j).insert(j));
        } else {
            assert(flagged(bits, k) =~= flagged(bits, j));
        }
    }
    if k < bits.len() {
        if bits[k as int] {
            assert(flagged(bits, k + 1) =~= flagged(bits, k).insert(k));
        } else {
            assert(flagged(bits, k + 1) =~= flagged(bits, k));
        }
    }
}

/// A set of indices, stored as one flag per index up to the largest
/// index that was ever inserted.
#[derive(Debug)]
pub struct BitSet {
    bits: Vec<bool>,
}

impl View for BitSet {
    type V = Set<nat>;

    closed spec fn view(&self) -> Set<nat> {
        Set::new(|i: nat| i < self.bits@.len() && self.bits@[i as int])
    }
}

impl Clone for BitSet {
    fn clone(&self) -> (copy: BitSet)
        ensures
            copy@ == self@,
    {
        let bits = self.bits.clone();
        assert(bits@ =~= self.bits@);
        BitSet { bits }
    }
}

impl BitSet {
    /// The empty set.
    pub fn new() -> (set: BitSet)
        ensures
            set@ == Set::<nat>::empty(),
    {
        let set = BitSet { bits: Vec::new() };
        assert(set@ =~= Set::<nat>::empty());
        set
    }

    /// Whether `index` is in the set.
    pub fn contains(&self, index: usize) -> (found: bool)
        ensures
            found == self@.contains(index as nat),
    {
        index < self.bits.len() && self.bits[index]
    }

    /// Adds `index` to the set.
    pub fn insert(&mut self, index: usize)
        requires
            index < usize::MAX,
        ensures
            final(self)@ == old(self)@.insert(index as nat),
    {
        while self.bits.len() <= index
            invariant
                index < usize::MAX,
                self.bits@.len() >= old(self).bits@.len(),
                self.bits@.subrange(0, old(self).bits@.len() as int) == old(self).bits@,
                forall|j: int| old(self).bits@.len() <= j < self.bits@.len() ==> !self.bits@[j],
            decreases index + 1 - self.bits@.len(),
        {
            let ghost before = self.bits@;
            self.bits.push(false);
            assert(self.bits@.subrange(0, old(self).bits@.len() as int) =~= before.subrange(
                0,
                old(self).bits@.len() as int,
            ));
        }
        let ghost grown = self.bits@;
        self.bits[index] = true;
        proof {
            assert forall|i: nat| self@.contains(i) == old(self)@.insert(index as nat).contains(
                i,
            ) by {
                if i != index && i < grown.len() {
                    if i < old(self).bits@.len() {
                        assert(grown.subrange(0, old(self).bits@.len() as int)[i as int]
                            == grown[i as int]);
                    }
                }
            }
            assert(self@ =~= old(self)@.insert(index as nat));
        }
    }

    /// A set of indices has finitely many elements.
    pub proof fn lemma_finite(&self)
        ensures
            self@.finite(),
    {
        lemma_flagged_finite(self.bits@, self.bits@.len());
        assert(self@ =~= flagged(self.bits@, self.bits@.len()));
    }

    /// The number of elements.
    pub fn len(&self) -> (count: usize)
        ensures
            self@.finite(),
            count == self@.len(),
    {
        let mut count: usize = 0;
        let mut i: usize = 0;
        proof {
            lemma_flagged_finite(self.bits@, 0);
        }
        while i < self.bits.len()
            invariant
                i <= self.bits@.len(),
                count <= i,
                flagged(self.bits@, i as nat).finite(),
                count == flagged(self.bits@, i as nat).len(),
            decreases self.bits@.len() - i,
        {
            proof {
                lemma_flagged_finite(self.bits@, i as nat);
                lemma_flagged_finite(self.bits@, (i + 1) as nat);
            }
            if self.bits[i] {
                count += 1;
            }
            i += 1;
        }
        proof {
            assert(self@ =~= flagged(self.bits@, self.bits@.len()));
        }
        count
    }

    /// Whether the set has no element.
    pub fn is_empty(&self) -> (empty: bool)
        ensures
            empty == (self@ == Set::<nat>::empty()),
    {
        let mut i: usize = 0;
        while i < self.bits.len()
            invariant
                i <= self.bits@.len(),
                forall|j: int| 0 <= j < i ==> !self.bits@[j],
            decreases self.bits@.len() - i,
        {
            if self.bits[i] {
                assert(self@.contains(i as nat));
                return false;
            }
            i += 1;
        }
        assert(self@ =~= Set::<nat>::empty());
        true
    }

    /// The elements that are in both sets.
    pub fn intersection(&self, other: &BitSet) -> (common: BitSet)
        ensures
            common@ == self@.intersect(other@),
    {
        let mut bits: Vec<bool> = Vec::new();
        let mut i: usize = 0;
        while i < self.bits.len() && i < other.bits.len()
            invariant
                i <= self.bits@.len(),
                i <= other.bits@.len(),
                bits@.len() == i,
                forall|j: int| 0 <= j < i ==> bits@[j] == (self.bits@[j] && other.bits@[j]),
            decreases self.bits@.len() - i,
        {
            bits.push(self.bits[i] && other.bits[i]);
            i += 1;
        }
        let common = BitSet { bits };
        assert(common@ =~= self@.intersect(other@));
        common
    }

    /// The elements that are in either set.
    pub fn union(&self, other: &BitSet) -> (all: BitSet)
        ensures
            all@ == self@.union(other@),
    {
        let mut bits: Vec<bool> = Vec::new();
        let mut i: usize = 0;
        while i < self.bits.len() || i < other.bits.len()
            invariant
                bits@.len() == i,
                forall|j: int|
                    0 <= j < i ==> bits@[j] == ((j < self.bits@.len() && self.bits@[j]) || (j
                        < other.bits@.len() && other.bits@[j])),
            decreases self.bits@.len() + other.bits@.len() - i,
        {
            let mine = i < self.bits.len() && self.bits[i];
            let theirs = i < other.bits.len() && other.bits[i];
            bits.push(mine || theirs);
            i += 1;
        }
        let all = BitSet { bits };
        assert(all@ =~= self@.union(other@));
        all
    }

    /// Whether both sets hold the same elements.
    pub fn same_as(&self, other: &BitSet) -> (same: bool)
        ensures
            same == (self@ == other@),
    {
        let mut i: usize = 0;
        while i < self.bits.len() || i < other.bits.len()
            invariant
                forall|j: nat| j < i ==> self@.contains(j) == other@.contains(j),
            decreases self.bits@.len() + other.bits@.len() - i,
        {
            if self.contains(i) != other.contains(i) {
                return false;
            }
            i += 1;
        }
        assert(self@ =~= other@);
        true
    }

    /// The elements in increasing order.
    pub fn to_vec(&self) -> (elements: Vec<usize>)
        ensures
            forall|i: nat| self@.contains(i) <==> elements@.contains(i as usize) && i
                <= usize::MAX,
            forall|a: int, b: int| 0 <= a < b < elements@.len() ==> elements@[a] < elements@[b],
    {
        let mut elements: Vec<usize> = Vec::new();
        let mut i: usize = 0;
        while i < self.bits.len()
            invariant
                i <= self.bits@.len(),
                forall|k: int| 0 <= k < elements@.len() ==> elements@[k] < i && self@.contains(
                    elements@[k] as nat,
                ),
                forall|j: nat| j < i && self@.contains(j) ==> elements@.contains(j as usize),
                forall|a: int, b: int| 0 <= a < b < elements@.len() ==> elements@[a] < elements@[b],
            decreases self.bits@.len() - i,
        {
            if self.bits[i] {
                let ghost before = elements@;
                elements.push(i);
                proof {
                    assert(elements@[before.len() as int] == i);
                    assert forall|j: nat| j < i + 1 && self@.contains(j) implies elements@.contains(
                        j as usize,
                    ) by {
                        if j < i {
                            let k = choose|k: int| 0 <= k < before.len() && before[k] == j as usize;
                            assert(elements@[k] == j as usize);
                        }
                    }
                }
            }
            i += 1;
        }
        elements
    }
}

} // verus!
