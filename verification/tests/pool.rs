use nimiq_validator::block::{Block, MacroBlock, MicroBlock, MicroBody};
use nimiq_validator::hash::{Address, Blake2bHash};
use nimiq_validator::jail::{
    EquivocationKind, EquivocationLocator, EquivocationProof, EquivocationProofPool,
};

fn evidence(block_number: u32, offender: u128, size: u32) -> EquivocationProof {
    EquivocationProof {
        locator: EquivocationLocator {
            block_number,
            offender: Address { hi: 0, lo: offender },
            kind: EquivocationKind::Fork,
        },
        digest: Blake2bHash { hi: block_number as u128, lo: offender },
        size,
    }
}

fn micro(number: u32, proofs: Vec<EquivocationProof>) -> Block {
    Block::Micro(MicroBlock {
        hash: Blake2bHash { hi: 7, lo: number as u128 },
        block_number: number,
        body: Some(MicroBody { equivocation_proofs: proofs }),
    })
}

fn contents(pool: &EquivocationProofPool) -> Vec<EquivocationProof> {
    pool.get_equivocation_proofs_for_block(usize::MAX)
}

#[test]
fn pool_starts_empty() {
    let pool = EquivocationProofPool::new();
    assert!(pool.is_empty());
    assert_eq!(pool.len(), 0);
    assert!(contents(&pool).is_empty());
}

#[test]
fn insert_is_idempotent_by_locator() {
    let mut pool = EquivocationProofPool::new();
    let first = evidence(10, 1, 100);
    let mut same_place = evidence(10, 1, 300);
    same_place.digest = Blake2bHash { hi: 9, lo: 9 };
    pool.insert(first);
    pool.insert(first);
    pool.insert(same_place);
    assert_eq!(pool.len(), 1);
    assert_eq!(contents(&pool), vec![first]);
    assert!(pool.contains(&first.locator));
    assert!(!pool.contains(&evidence(11, 1, 1).locator));
}

#[test]
fn proofs_are_kept_in_order_of_their_locators() {
    let mut pool = EquivocationProofPool::new();
    let mut double_vote = evidence(5, 2, 10);
    double_vote.locator.kind = EquivocationKind::DoubleVote;
    pool.insert(evidence(9, 1, 10));
    pool.insert(double_vote);
    pool.insert(evidence(5, 3, 10));
    pool.insert(evidence(5, 2, 10));
    pool.insert(evidence(1, 8, 10));
    assert_eq!(
        contents(&pool),
        vec![evidence(1, 8, 10), evidence(5, 2, 10), double_vote, evidence(5, 3, 10), evidence(9, 1, 10)]
    );
}

#[test]
fn selection_stops_at_the_first_proof_that_does_not_fit() {
    let mut pool = EquivocationProofPool::new();
    pool.insert(evidence(1, 1, 400));
    pool.insert(evidence(2, 1, 400));
    pool.insert(evidence(3, 1, 400));
    pool.insert(evidence(4, 1, 100));
    let selected = pool.get_equivocation_proofs_for_block(1000);
    assert_eq!(selected, vec![evidence(1, 1, 400), evidence(2, 1, 400)]);
    let total: usize = selected.iter().map(|p| p.serialized_size()).sum();
    assert!(total <= 1000);
    assert_eq!(pool.get_equivocation_proofs_for_block(1200).len(), 3);
    assert_eq!(pool.get_equivocation_proofs_for_block(399).len(), 0);
    assert_eq!(pool.get_equivocation_proofs_for_block(0).len(), 0);
    assert_eq!(pool.len(), 4);
}

#[test]
fn selection_is_the_same_for_equal_pools() {
    let mut one = EquivocationProofPool::new();
    let mut other = EquivocationProofPool::new();
    for n in [3u32, 1, 2] {
        one.insert(evidence(n, 1, 300));
    }
    for n in [2u32, 3, 1] {
        other.insert(evidence(n, 1, 300));
    }
    assert_eq!(
        one.get_equivocation_proofs_for_block(700),
        other.get_equivocation_proofs_for_block(700)
    );
    assert_eq!(contents(&one), contents(&other));
}

#[test]
fn selected_proofs_exactly_at_the_limit_fit() {
    let mut pool = EquivocationProofPool::new();
    pool.insert(evidence(1, 1, 600));
    pool.insert(evidence(2, 1, 400));
    pool.insert(evidence(3, 1, 1));
    assert_eq!(pool.get_equivocation_proofs_for_block(1000).len(), 2);
}

#[test]
fn apply_takes_out_what_the_block_includes() {
    let mut pool = EquivocationProofPool::new();
    pool.insert(evidence(1, 1, 10));
    pool.insert(evidence(2, 1, 10));
    pool.apply_block(&micro(3, vec![evidence(1, 1, 10), evidence(7, 7, 10)]));
    assert_eq!(contents(&pool), vec![evidence(2, 1, 10)]);
}

#[test]
fn blocks_without_proofs_change_nothing() {
    let mut pool = EquivocationProofPool::new();
    pool.insert(evidence(1, 1, 10));
    let header_only = Block::Micro(MicroBlock {
        hash: Blake2bHash { hi: 0, lo: 1 },
        block_number: 4,
        body: None,
    });
    let checkpoint =
        Block::Macro(MacroBlock { hash: Blake2bHash { hi: 0, lo: 2 }, block_number: 5, round: 0 });
    pool.apply_block(&header_only);
    pool.apply_block(&checkpoint);
    pool.revert_block(&header_only);
    pool.revert_block(&checkpoint);
    assert_eq!(contents(&pool), vec![evidence(1, 1, 10)]);
}

#[test]
fn revert_after_apply_restores_the_pool() {
    let mut pool = EquivocationProofPool::new();
    for n in 1..=5u32 {
        pool.insert(evidence(n, n as u128, 10 * n));
    }
    let before = contents(&pool);
    let blocks = vec![
        micro(10, vec![evidence(2, 2, 20)]),
        micro(11, vec![]),
        micro(12, vec![evidence(5, 5, 50), evidence(1, 1, 10)]),
    ];
    for block in blocks.iter() {
        pool.apply_block(block);
    }
    assert_eq!(contents(&pool), vec![evidence(3, 3, 30), evidence(4, 4, 40)]);
    for block in blocks.iter().rev() {
        pool.revert_block(block);
    }
    assert_eq!(contents(&pool), before);
}

#[test]
fn revert_brings_in_proofs_that_the_pool_never_held() {
    let mut pool = EquivocationProofPool::new();
    let block = micro(10, vec![evidence(2, 2, 20)]);
    pool.apply_block(&block);
    assert!(pool.is_empty());
    pool.revert_block(&block);
    assert_eq!(contents(&pool), vec![evidence(2, 2, 20)]);
}

#[test]
fn rebranch_replays_equivocation_proofs() {
    let p1 = evidence(1, 1, 100);
    let p2 = evidence(2, 2, 100);
    let a = micro(10, vec![p1]);
    let b = micro(11, vec![p2]);
    let mut pool = EquivocationProofPool::new();
    pool.apply_block(&a);
    pool.apply_block(&b);
    assert!(pool.is_empty());
    let new_chain = vec![micro(10, vec![p1]), micro(11, vec![]), micro(12, vec![])];
    for block in [&a, &b] {
        pool.revert_block(block);
    }
    for block in new_chain.iter() {
        pool.apply_block(block);
    }
    assert_eq!(contents(&pool), vec![p2]);
}

#[test]
fn locators_order_by_height_then_offender_then_kind() {
    let base = evidence(5, 5, 1).locator;
    let mut higher = base;
    higher.block_number = 6;
    let mut other_offender = base;
    other_offender.offender = Address { hi: 1, lo: 0 };
    let mut other_kind = base;
    other_kind.kind = EquivocationKind::DoubleProposal;
    assert!(base.lt(&higher));
    assert!(!higher.lt(&base));
    assert!(base.lt(&other_offender));
    assert!(other_offender.lt(&higher));
    assert!(base.lt(&other_kind));
    assert!(other_kind.lt(&other_offender));
    assert!(!base.lt(&base));
}
