use nimiq_validator::bitset::BitSet;
use nimiq_validator::bls::{SecretKey, SerializeContent};
use nimiq_validator::contribution::{ContributionEntry, TendermintContribution};
use nimiq_validator::hash::{blake2s, Blake2sHash};
use nimiq_validator::keypair::KeyPair;
use nimiq_validator::multisig::{AggregateSignature, ContributionError, MultiSignature};
use nimiq_validator::vote::{Step, TendermintIdentifier, TendermintVote};

fn secret(last: u8) -> SecretKey {
    let mut bytes = [0u8; 32];
    bytes[31] = last;
    SecretKey::from_bytes(&bytes).expect("a small non-zero scalar is a valid secret key")
}

fn vote(proposal_hash: Option<Blake2sHash>) -> TendermintVote {
    TendermintVote {
        proposal_hash,
        id: TendermintIdentifier { block_number: 64, round_number: 2, step: Step::Prevote },
    }
}

fn h1() -> Blake2sHash {
    blake2s(b"proposal one")
}

fn h2() -> Blake2sHash {
    blake2s(b"proposal two")
}

fn slots(set: &BitSet) -> Vec<usize> {
    set.to_vec()
}

fn signers_of(contribution: &TendermintContribution, key: Option<Blake2sHash>) -> Vec<usize> {
    slots(&contribution.get(&key).expect("entry").signers)
}

#[test]
fn vote_has_its_canonical_bytes() {
    let none = vote(None).serialize_content();
    assert_eq!(none, vec![1, 2, 0, 0, 0, 64, 0, 0, 0, 0]);
    let some = vote(Some(h1())).serialize_content();
    assert_eq!(some.len(), 10 + 32);
    assert_eq!(some[9], 1);
    assert_eq!(&some[10..], &h1().to_bytes()[..]);
    assert_eq!(Step::from_tag(2), Some(Step::Precommit));
    assert_eq!(Step::from_tag(3), None);
    assert_eq!(Step::Propose.tag(), 0);
}

#[test]
fn from_vote_holds_one_signature_of_one_slot() {
    let key = secret(5);
    let contribution = TendermintContribution::from_vote(vote(Some(h1())), &key, 5);
    assert_eq!(contribution.len(), 1);
    assert!(contribution.get(&None).is_none());
    assert!(contribution.get(&Some(h2())).is_none());
    let multi = contribution.get(&Some(h1())).expect("the vote's entry");
    assert_eq!(slots(&multi.signers), vec![5]);
    assert_eq!(multi.signature.len(), 1);
    assert_eq!(slots(&contribution.contributors()), vec![5]);
    let expected = key.sign_hash(blake2s(&vote(Some(h1())).serialize_content()));
    assert!(multi.signature.to_vec()[0].same_as(&expected));
    let pair = KeyPair::from_secret(&key);
    assert!(pair.verify(&vote(Some(h1())), &expected));
    assert!(!pair.verify(&vote(None), &expected));
}

#[test]
fn overlapping_contributions_rejected() {
    let key = secret(5);
    let mut a = TendermintContribution::from_vote(vote(None), &key, 5);
    let b = TendermintContribution::from_vote(vote(Some(h1())), &key, 5);
    match a.combine(&b) {
        Err(ContributionError::Overlapping(mask)) => assert_eq!(slots(&mask), vec![5]),
        Ok(()) => panic!("contributions of the same signer must not merge"),
    }
    assert_eq!(a.len(), 1);
    assert_eq!(signers_of(&a, None), vec![5]);
    assert!(a.get(&Some(h1())).is_none());
    assert_eq!(a.get(&None).expect("entry").signature.len(), 1);
}

#[test]
fn combine_joins_entries_for_the_same_proposal() {
    let mut a = TendermintContribution::from_vote(vote(Some(h1())), &secret(1), 1);
    let b = TendermintContribution::from_vote(vote(Some(h1())), &secret(2), 2);
    let c = TendermintContribution::from_vote(vote(None), &secret(3), 3);
    assert!(a.combine(&b).is_ok());
    assert!(a.combine(&c).is_ok());
    assert_eq!(a.len(), 2);
    assert_eq!(signers_of(&a, Some(h1())), vec![1, 2]);
    assert_eq!(signers_of(&a, None), vec![3]);
    assert_eq!(a.get(&Some(h1())).expect("entry").signature.len(), 2);
    assert_eq!(slots(&a.contributors()), vec![1, 2, 3]);
}

#[test]
fn contributors_are_the_union_over_all_proposals() {
    let mut a = TendermintContribution::from_vote(vote(Some(h1())), &secret(1), 1);
    let b = TendermintContribution::from_vote(vote(Some(h2())), &secret(2), 2);
    assert!(a.combine(&b).is_ok());
    assert_eq!(slots(&a.contributors()), vec![1, 2]);
    let mut c = TendermintContribution::from_vote(vote(None), &secret(2), 2);
    match c.combine(&a) {
        Err(ContributionError::Overlapping(mask)) => assert_eq!(slots(&mask), vec![2]),
        Ok(()) => panic!("slot 2 signed in both"),
    }
    assert_eq!(slots(&c.contributors()), vec![2]);
}

fn sorted_signatures(contribution: &TendermintContribution, key: Option<Blake2sHash>) -> Vec<Vec<u8>> {
    let mut all: Vec<Vec<u8>> = contribution
        .get(&key)
        .map(|multi| multi.signature.to_vec().iter().map(|s| s.bytes.to_vec()).collect())
        .unwrap_or_default();
    all.sort();
    all
}

#[test]
fn combining_in_any_order_gives_the_same_contribution() {
    let make = || {
        let mut a = TendermintContribution::from_vote(vote(Some(h1())), &secret(1), 1);
        let a2 = TendermintContribution::from_vote(vote(None), &secret(4), 4);
        assert!(a.combine(&a2).is_ok());
        let b = TendermintContribution::from_vote(vote(Some(h1())), &secret(2), 2);
        let c = TendermintContribution::from_vote(vote(Some(h2())), &secret(3), 3);
        (a, b, c)
    };
    let (mut ab, b, c) = make();
    assert!(ab.combine(&b).is_ok());
    assert!(ab.combine(&c).is_ok());
    let (mut a, mut bc, c2) = make();
    assert!(bc.combine(&c2).is_ok());
    assert!(a.combine(&bc).is_ok());
    let (a3, b3, mut ca) = make();
    assert!(ca.combine(&a3).is_ok());
    assert!(ca.combine(&b3).is_ok());
    for key in [Some(h1()), Some(h2()), None] {
        assert_eq!(signers_of(&ab, key), signers_of(&a, key));
        assert_eq!(signers_of(&ab, key), signers_of(&ca, key));
        assert_eq!(sorted_signatures(&ab, key), sorted_signatures(&a, key));
        assert_eq!(sorted_signatures(&ab, key), sorted_signatures(&ca, key));
    }
    assert_eq!(ab.len(), 3);
    assert_eq!(a.len(), 3);
    assert_eq!(ca.len(), 3);
    assert_eq!(sorted_signatures(&ab, Some(h1())).len(), 2);
}

#[test]
fn multi_signatures_refuse_a_shared_signer() {
    let sign = |n: u8| secret(n).sign_hash(blake2s(b"m"));
    let mut one = BitSet::new();
    one.insert(1);
    one.insert(9);
    let mut two = BitSet::new();
    two.insert(9);
    two.insert(12);
    let mut left = MultiSignature::new(AggregateSignature::from_signatures(&[sign(1), sign(9)]), one);
    let right =
        MultiSignature::new(AggregateSignature::from_signatures(&[sign(9), sign(12)]), two);
    match left.combine(&right) {
        Err(ContributionError::Overlapping(mask)) => assert_eq!(slots(&mask), vec![9]),
        Ok(()) => panic!("slot 9 signed both"),
    }
    assert_eq!(slots(&left.contributors()), vec![1, 9]);
    assert_eq!(left.signature.len(), 2);
    let mut three = BitSet::new();
    three.insert(3);
    let third = MultiSignature::new(AggregateSignature::from_signatures(&[sign(3)]), three);
    assert!(left.combine(&third).is_ok());
    assert_eq!(slots(&left.contributors()), vec![1, 3, 9]);
    assert_eq!(left.signature.len(), 3);
    assert_eq!(AggregateSignature::new().len(), 0);
}

#[test]
fn empty_contribution_combines_with_anything() {
    let mut empty = TendermintContribution::new();
    assert_eq!(empty.len(), 0);
    assert!(empty.contributors().is_empty());
    let a = TendermintContribution::from_vote(vote(None), &secret(7), 7);
    assert!(empty.combine(&a).is_ok());
    assert_eq!(signers_of(&empty, None), vec![7]);
    let copy = empty.clone();
    assert_eq!(signers_of(&copy, None), vec![7]);
}

#[test]
fn contribution_is_rebuilt_from_its_entries() {
    let mut a = TendermintContribution::from_vote(vote(Some(h1())), &secret(1), 1);
    assert!(a.combine(&TendermintContribution::from_vote(vote(Some(h1())), &secret(2), 2)).is_ok());
    assert!(a.combine(&TendermintContribution::from_vote(vote(None), &secret(3), 3)).is_ok());
    let entries = a.entries();
    assert_eq!(entries.len(), 2);
    let rebuilt = TendermintContribution::from_entries(&entries).expect("entries of a contribution");
    for key in [Some(h1()), None] {
        assert_eq!(signers_of(&rebuilt, key), signers_of(&a, key));
        assert_eq!(sorted_signatures(&rebuilt, key), sorted_signatures(&a, key));
    }
    assert_eq!(rebuilt.len(), 2);
    assert_eq!(TendermintContribution::from_entries(&[]).expect("nothing to combine").len(), 0);
}

#[test]
fn entries_that_do_not_fit_together_are_refused() {
    let sign = |n: u8| secret(n).sign_hash(blake2s(b"m"));
    let entry = |key, slots: &[usize], signatures: &[u8]| {
        let mut signers = BitSet::new();
        for slot in slots {
            signers.insert(*slot);
        }
        let signatures: Vec<_> = signatures.iter().map(|n| sign(*n)).collect();
        ContributionEntry {
            proposal_hash: key,
            multi_signature: MultiSignature::new(
                AggregateSignature::from_signatures(&signatures),
                signers,
            ),
        }
    };
    let good = [entry(None, &[1, 2], &[1, 2]), entry(Some(h1()), &[3], &[3])];
    assert!(good[0].multi_signature.is_balanced());
    assert_eq!(good[0].multi_signature.signers.len(), 2);
    assert!(TendermintContribution::from_entries(&good).is_some());
    let same_key = [entry(None, &[1], &[1]), entry(None, &[2], &[2])];
    let joined = TendermintContribution::from_entries(&same_key).expect("different signers");
    assert_eq!(joined.len(), 1);
    assert_eq!(signers_of(&joined, None), vec![1, 2]);
    let overlapping = [entry(None, &[1, 2], &[1, 2]), entry(Some(h1()), &[2], &[2])];
    assert!(TendermintContribution::from_entries(&overlapping).is_none());
    let unbalanced = [entry(None, &[1, 2], &[1])];
    assert!(!unbalanced[0].multi_signature.is_balanced());
    assert!(TendermintContribution::from_entries(&unbalanced).is_none());
}
