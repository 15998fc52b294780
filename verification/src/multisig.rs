//! Signatures of several validators on one message, with the set of slots
//! that signed.

use crate::bitset::BitSet;
use crate::bls::{signature_sum, Signature};
use vstd::multiset::Multiset;
use vstd::prelude::*;
use vstd::seq_lib::lemma_multiset_commutative;

verus! {

/// Why two contributions cannot be merged.
#[derive(Debug)]
pub enum ContributionError {
    /// Both hold a signature of the slots in the set.
    Overlapping(BitSet),
}

/// The sum of signatures, added up from the first to the last; `None`
/// for no signature, and when one of them is no point of the signature
/// group.
pub open spec fn summed(signatures: Seq<Signature>) -> Option<Signature>
    decreases signatures.len(),
{
    if signatures.len() == 0 {
        None
    } else if signatures.len() == 1 {
        Some(signatures[0])
    } else {
        match summed(signatures.drop_last()) {
            Some(sum) => signature_sum(sum, signatures.last()),
            None => None,
        }
    }
}

/// Once a prefix has no sum, the whole has none.
pub proof fn lemma_summed_fails(signatures: Seq<Signature>, n: int)
    requires
        1 <= n <= signatures.len(),
        summed(signatures.take(n)) is None,
    ensures
        summed(signatures) is None,
    decreases signatures.len() - n,
{
    if n == signatures.len() {
        assert(signatures.take(n) =~= signatures);
    } else {
        assert(signatures.take(n + 1).drop_last() =~= signatures.take(n));
        lemma_summed_fails(signatures, n + 1);
    }
}

/// The signatures that an aggregate stands for. Their order has no
/// meaning: an aggregate is the multiset of the signatures in it.
#[derive(Debug)]
pub struct AggregateSignature {
    signatures: Vec<Signature>,
}

impl View for AggregateSignature {
    type V = Multiset<Signature>;

    closed spec fn view(&self) -> Multiset<Signature> {
        self.signatures@.to_multiset()
    }
}

impl Clone for AggregateSignature {
    fn clone(&self) -> (copy: AggregateSignature)
        ensures
            copy@ == self@,
    {
        let signatures = self.signatures.clone();
        assert(signatures@ =~= self.signatures@);
        AggregateSignature { signatures }
    }
}

impl AggregateSignature {
    /// The aggregate of no signature.
    pub fn new() -> (aggregate: AggregateSignature)
        ensures
            aggregate@ == Multiset::<Signature>::empty(),
    {
        let aggregate = AggregateSignature { signatures: Vec::new() };
        broadcast use vstd::seq_lib::group_to_multiset_ensures;

        assert(aggregate@ =~= Multiset::<Signature>::empty());
        aggregate
    }

    /// The aggregate of the given signatures.
    pub fn from_signatures(signatures: &[Signature]) -> (aggregate: AggregateSignature)
        ensures
            aggregate@ == signatures@.to_multiset(),
    {
        let mut collected: Vec<Signature> = Vec::new();
        let mut i: usize = 0;
        while i < signatures.len()
            invariant
                i <= signatures@.len(),
                collected@ == signatures@.take(i as int),
            decreases signatures@.len() - i,
        {
            collected.push(signatures[i]);
            assert(collected@ =~= signatures@.take(i + 1));
            i += 1;
        }
        assert(signatures@.take(i as int) =~= signatures@);
        AggregateSignature { signatures: collected }
    }

    /// Adds the signatures of another aggregate to this one.
    pub fn merge_into(&mut self, other: &AggregateSignature)
        ensures
            final(self)@ == old(self)@.add(other@),
    {
        let mut more = other.signatures.clone();
        assert(more@ =~= other.signatures@);
        proof {
            lemma_multiset_commutative(self.signatures@, more@);
        }
        self.signatures.append(&mut more);
    }

    /// The signatures in the aggregate, in no particular order.
    pub fn to_vec(&self) -> (signatures: Vec<Signature>)
        ensures
            signatures@.to_multiset() == self@,
    {
        let signatures = self.signatures.clone();
        assert(signatures@ =~= self.signatures@);
        signatures
    }

    /// The signatures in the order in which they are kept.
    pub closed spec fn spec_signatures(&self) -> Seq<Signature> {
        self.signatures@
    }

    /// The one signature that stands for all in the aggregate: their sum.
    pub fn to_signature(&self) -> (sum: Option<Signature>)
        ensures
            sum == summed(self.spec_signatures()),
            self.spec_signatures().to_multiset() == self@,
    {
        if self.signatures.len() == 0 {
            return None;
        }
        let mut sum = self.signatures[0];
        let mut i: usize = 1;
        proof {
            assert(self.signatures@.take(1).len() == 1);
        }
        while i < self.signatures.len()
            invariant
                1 <= i <= self.signatures@.len(),
                summed(self.signatures@.take(i as int)) == Some(sum),
            decreases self.signatures@.len() - i,
        {
            proof {
                assert(self.signatures@.take(i + 1).drop_last() =~= self.signatures@.take(
                    i as int,
                ));
            }
            match sum.add_signature(&self.signatures[i]) {
                Some(next) => {
                    sum = next;
                },
                None => {
                    proof {
                        lemma_summed_fails(self.signatures@, i + 1);
                    }
                    return None;
                },
            }
            i += 1;
        }
        proof {
            assert(self.signatures@.take(i as int) =~= self.signatures@);
        }
        Some(sum)
    }

    /// The number of signatures in the aggregate.
    pub fn len(&self) -> (len: usize)
        ensures
            len == self@.len(),
    {
        broadcast use vstd::seq_lib::group_to_multiset_ensures;

        self.signatures.len()
    }
}

/// The mathematical content of a multi-signature.
pub ghost struct MultiSignatureView {
    /// The signatures that were aggregated.
    pub signatures: Multiset<Signature>,
    /// The slots that signed.
    pub signers: Set<nat>,
}

impl MultiSignatureView {
    /// Whether there is one signature for every slot that signed.
    pub open spec fn balanced(self) -> bool {
        self.signers.finite() && self.signatures.len() == self.signers.len()
    }

    /// Both multi-signatures together.
    pub open spec fn join(self, other: MultiSignatureView) -> MultiSignatureView {
        MultiSignatureView {
            signatures: self.signatures.add(other.signatures),
            signers: self.signers.union(other.signers),
        }
    }
}

/// Joining two multi-signatures of different signers, each with one
/// signature for every signer, gives such a multi-signature again.
pub proof fn lemma_join_balanced(a: MultiSignatureView, b: MultiSignatureView)
    requires
        a.balanced(),
        b.balanced(),
        a.signers.disjoint(b.signers),
    ensures
        a.join(b).balanced(),
{
    broadcast use vstd::multiset::group_multiset_axioms;

    vstd::set_lib::lemma_set_disjoint_lens(a.signers, b.signers);
    vstd::set::axiom_set_union_finite(a.signers, b.signers);
}

/// An aggregate signature together with the slots whose signatures it holds.
#[derive(Debug)]
pub struct MultiSignature {
    pub signature: AggregateSignature,
    pub signers: BitSet,
}

impl View for MultiSignature {
    type V = MultiSignatureView;

    open spec fn view(&self) -> MultiSignatureView {
        MultiSignatureView { signatures: self.signature@, signers: self.signers@ }
    }
}

impl Clone for MultiSignature {
    fn clone(&self) -> (copy: MultiSignature)
        ensures
            copy@ == self@,
    {
        MultiSignature { signature: self.signature.clone(), signers: self.signers.clone() }
    }
}

impl MultiSignature {
    /// Pairs an aggregate with the slots that signed.
    pub fn new(signature: AggregateSignature, signers: BitSet) -> (multi: MultiSignature)
        ensures
            multi@ == (MultiSignatureView { signatures: signature@, signers: signers@ }),
    {
        MultiSignature { signature, signers }
    }

    /// Whether there is one signature for every slot that signed.
    pub fn is_balanced(&self) -> (balanced: bool)
        ensures
            balanced == self@.balanced(),
    {
        self.signature.len() == self.signers.len()
    }

    /// The slots that signed.
    pub fn contributors(&self) -> (slots: BitSet)
        ensures
            slots@ == self@.signers,
    {
        self.signers.clone()
    }

    /// Joins another multi-signature into this one without checking that
    /// the signers differ.
    pub fn absorb(&mut self, other: &MultiSignature)
        ensures
            final(self)@ == old(self)@.join(other@),
    {
        self.signature.merge_into(&other.signature);
        self.signers = self.signers.union(&other.signers);
    }

    /// Joins another multi-signature into this one. When a slot signed
    /// both, nothing changes and the slots that signed both are returned.
    pub fn combine(&mut self, other: &MultiSignature) -> (result: Result<(), ContributionError>)
        ensures
            result is Ok <==> old(self)@.signers.disjoint(other@.signers),
            result is Ok ==> final(self)@ == old(self)@.join(other@),
            result is Err ==> final(self)@ == old(self)@,
            match result {
                Ok(_) => true,
                Err(ContributionError::Overlapping(mask)) => mask@ == old(self)@.signers.intersect(
                    other@.signers,
                ),
            },
    {
        let overlap = self.signers.intersection(&other.signers);
        if overlap.is_empty() {
            assert(self@.signers.disjoint(other@.signers)) by {
                assert forall|slot: nat|
                    !(self@.signers.contains(slot) && other@.signers.contains(slot)) by {
                    assert(!overlap@.contains(slot));
                }
            }
            self.absorb(other);
            Ok(())
        } else {
            assert(!self@.signers.disjoint(other@.signers)) by {
                if self@.signers.disjoint(other@.signers) {
                    assert(overlap@ =~= Set::<nat>::empty());
                }
            }
            Err(ContributionError::Overlapping(overlap))
        }
    }
}

} // verus!
