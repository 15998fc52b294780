//! Equivocation proofs and the pool that keeps them until a block includes them.

use crate::block::Block;
use crate::hash::{Address, Blake2bHash};
use vstd::prelude::*;

verus! {

/// The kind of misbehaviour that a proof shows.
#[derive(Clone, Copy, Debug, PartialEq, Eq, Structural)]
pub enum EquivocationKind {
    /// Two different micro blocks at one height.
    Fork,
    /// Two different proposals in one round.
    DoubleProposal,
    /// Two different votes in one step of a round.
    DoubleVote,
}

impl EquivocationKind {
    /// The position of the kind in the order on kinds.
    pub open spec fn spec_rank(self) -> int {
        match self {
            EquivocationKind::Fork => 0,
            EquivocationKind::DoubleProposal => 1,
            EquivocationKind::DoubleVote => 2,
        }
    }

    /// The position of the kind in the order on kinds.
    pub fn rank(&self) -> (rank: u8)
        ensures
            rank == self.spec_rank(),
    {
        match self {
            EquivocationKind::Fork => 0,
            EquivocationKind::DoubleProposal => 1,
            EquivocationKind::DoubleVote => 2,
        }
    }
}

/// What identifies an equivocation: the height, the offender and the kind.
#[derive(Clone, Copy, Debug, PartialEq, Eq, Structural)]
pub struct EquivocationLocator {
    pub block_number: u32,
    pub offender: Address,
    pub kind: EquivocationKind,
}

impl EquivocationLocator {
    /// The strict order on locators: by height, then offender, then kind.
    pub open spec fn spec_lt(self, other: EquivocationLocator) -> bool {
        self.block_number < other.block_number || (self.block_number == other.block_number && (
        self.offender.spec_lt(other.offender) || (self.offender == other.offender
            && self.kind.spec_rank() < other.kind.spec_rank())))
    }

    /// Whether this locator comes strictly before `other`.
    pub fn lt(&self, other: &EquivocationLocator) -> (less: bool)
        ensures
            less == self.spec_lt(*other),
    {
        if self.block_number != other.block_number {
            self.block_number < other.block_number
        } else if self.offender.hi != other.offender.hi {
            self.offender.hi < other.offender.hi
        } else if self.offender.lo != other.offender.lo {
            self.offender.lo < other.offender.lo
        } else {
            self.kind.rank() < other.kind.rank()
        }
    }
}

/// An equivocation proof as the validator handles it: where it points,
/// the digest of the evidence, and how many bytes it takes in a block.
#[derive(Clone, Copy, Debug, PartialEq, Eq, Structural)]
pub struct EquivocationProof {
    pub locator: EquivocationLocator,
    pub digest: Blake2bHash,
    pub size: u32,
}

impl EquivocationProof {
    /// What identifies the equivocation that the proof shows.
    pub fn locator(&self) -> (locator: EquivocationLocator)
        ensures
            locator == self.locator,
    {
        self.locator
    }

    /// The number of bytes that the proof takes in a block.
    pub fn serialized_size(&self) -> (size: usize)
        ensures
            size == self.size,
    {
        self.size as usize
    }
}

/// Proofs in strictly increasing order of their locators.
pub open spec fn sorted(proofs: Seq<EquivocationProof>) -> bool {
    forall|i: int, j: int|
        0 <= i < j < proofs.len() ==> (#[trigger] proofs[i]).locator.spec_lt(
            (#[trigger] proofs[j]).locator,
        )
}

/// Whether one of the proofs has the locator.
pub open spec fn holds(proofs: Seq<EquivocationProof>, locator: EquivocationLocator) -> bool {
    exists|i: int| 0 <= i < proofs.len() && (#[trigger] proofs[i]).locator == locator
}

/// The proofs as a map from locator to proof.
pub open spec fn proofs_map(proofs: Seq<EquivocationProof>) -> Map<
    EquivocationLocator,
    EquivocationProof,
> {
    Map::new(
        |locator: EquivocationLocator| holds(proofs, locator),
        |locator: EquivocationLocator|
            proofs[choose|i: int|
                0 <= i < proofs.len() && (#[trigger] proofs[i]).locator == locator],
    )
}

/// The number of bytes that the proofs take together.
pub open spec fn total_size(proofs: Seq<EquivocationProof>) -> int
    decreases proofs.len(),
{
    if proofs.len() == 0 {
        0
    } else {
        total_size(proofs.drop_last()) + proofs.last().size
    }
}

/// The length of the longest prefix of the proofs that takes at most `max_size` bytes.
pub open spec fn fitting(proofs: Seq<EquivocationProof>, max_size: int) -> int
    decreases proofs.len(),
{
    if proofs.len() == 0 {
        0
    } else if total_size(proofs) <= max_size {
        proofs.len() as int
    } else {
        fitting(proofs.drop_last(), max_size)
    }
}

/// A pool after a proof arrives: a proof whose locator is known changes nothing.
pub open spec fn with_proof(
    pool: Map<EquivocationLocator, EquivocationProof>,
    proof: EquivocationProof,
) -> Map<EquivocationLocator, EquivocationProof> {
    if pool.contains_key(proof.locator) {
        pool
    } else {
        pool.insert(proof.locator, proof)
    }
}

/// A pool after a block with these proofs became part of the chain: the
/// proofs that the block includes leave the pool.
pub open spec fn applied(
    pool: Map<EquivocationLocator, EquivocationProof>,
    proofs: Seq<EquivocationProof>,
) -> Map<EquivocationLocator, EquivocationProof>
    decreases proofs.len(),
{
    if proofs.len() == 0 {
        pool
    } else {
        applied(pool, proofs.drop_last()).remove(proofs.last().locator)
    }
}

/// A pool after a block with these proofs left the chain: its proofs come
/// back, one after the other.
pub open spec fn reverted(
    pool: Map<EquivocationLocator, EquivocationProof>,
    proofs: Seq<EquivocationProof>,
) -> Map<EquivocationLocator, EquivocationProof>
    decreases proofs.len(),
{
    if proofs.len() == 0 {
        pool
    } else {
        with_proof(reverted(pool, proofs.drop_last()), proofs.last())
    }
}

/// In sorted proofs every proof is found under its own locator.
pub proof fn lemma_map_at(proofs: Seq<EquivocationProof>, i: int)
    requires
        sorted(proofs),
        0 <= i < proofs.len(),
    ensures
        holds(proofs, proofs[i].locator),
        proofs_map(proofs).contains_key(proofs[i].locator),
        proofs_map(proofs)[proofs[i].locator] == proofs[i],
{
    let locator = proofs[i].locator;
    let k = choose|k: int| 0 <= k < proofs.len() && (#[trigger] proofs[k]).locator == locator;
    if k < i {
        assert(proofs[k].locator.spec_lt(proofs[i].locator));
    } else if i < k {
        assert(proofs[i].locator.spec_lt(proofs[k].locator));
    }
}

/// Putting a proof at its place in sorted proofs keeps them sorted and adds
/// it to the map.
pub proof fn lemma_insert(proofs: Seq<EquivocationProof>, k: int, proof: EquivocationProof)
    requires
        sorted(proofs),
        0 <= k <= proofs.len(),
        forall|j: int| 0 <= j < k ==> (#[trigger] proofs[j]).locator.spec_lt(proof.locator),
        forall|j: int|
            k <= j < proofs.len() ==> proof.locator.spec_lt((#[trigger] proofs[j]).locator),
    ensures
        sorted(proofs.insert(k, proof)),
        !holds(proofs, proof.locator),
        proofs_map(proofs.insert(k, proof)) == proofs_map(proofs).insert(proof.locator, proof),
{
    let after = proofs.insert(k, proof);
    assert forall|i: int, j: int| 0 <= i < j < after.len() implies (#[trigger] after[i]).locator.spec_lt(
        (#[trigger] after[j]).locator,
    ) by {
        let a = if i < k { i } else { i - 1 };
        let b = if j < k { j } else { j - 1 };
        if i != k && j != k {
            assert(proofs[a].locator.spec_lt(proofs[b].locator));
        } else if i == k {
            assert(proof.locator.spec_lt(proofs[b].locator));
        } else {
            assert(proofs[a].locator.spec_lt(proof.locator));
        }
    }
    assert forall|locator: EquivocationLocator|
        holds(after, locator) <==> (holds(proofs, locator) || locator == proof.locator) by {
        if holds(after, locator) {
            let i = choose|i: int| 0 <= i < after.len() && (#[trigger] after[i]).locator == locator;
            if i < k {
                assert(proofs[i].locator == locator);
            } else if i > k {
                assert(proofs[i - 1].locator == locator);
            }
        }
        if holds(proofs, locator) {
            let i = choose|i: int|
                0 <= i < proofs.len() && (#[trigger] proofs[i]).locator == locator;
            if i < k {
                assert(after[i].locator == locator);
            } else {
                assert(after[i + 1].locator == locator);
            }
        }
        if locator == proof.locator {
            assert(after[k].locator == locator);
        }
    }
    assert forall|locator: EquivocationLocator| holds(after, locator) implies proofs_map(
        after,
    )[locator] == proofs_map(proofs).insert(proof.locator, proof)[locator] by {
        let i = choose|i: int| 0 <= i < after.len() && (#[trigger] after[i]).locator == locator;
        lemma_map_at(after, i);
        if i < k {
            lemma_map_at(proofs, i);
        } else if i > k {
            lemma_map_at(proofs, i - 1);
        }
    }
    assert(proofs_map(after) =~= proofs_map(proofs).insert(proof.locator, proof));
}

/// Taking a proof out of sorted proofs keeps them sorted and removes its
/// locator from the map.
pub proof fn lemma_remove(proofs: Seq<EquivocationProof>, k: int)
    requires
        sorted(proofs),
        0 <= k < proofs.len(),
    ensures
        sorted(proofs.remove(k)),
        proofs_map(proofs.remove(k)) == proofs_map(proofs).remove(proofs[k].locator),
{
    let after = proofs.remove(k);
    let gone = proofs[k].locator;
    assert forall|i: int, j: int| 0 <= i < j < after.len() implies (#[trigger] after[i]).locator.spec_lt(
        (#[trigger] after[j]).locator,
    ) by {
        let a = if i < k { i } else { i + 1 };
        let b = if j < k { j } else { j + 1 };
        assert(proofs[a].locator.spec_lt(proofs[b].locator));
    }
    assert forall|locator: EquivocationLocator|
        holds(after, locator) <==> (holds(proofs, locator) && locator != gone) by {
        if holds(after, locator) {
            let i = choose|i: int| 0 <= i < after.len() && (#[trigger] after[i]).locator == locator;
            let a = if i < k { i } else { i + 1 };
            assert(proofs[a].locator == locator);
            if a < k {
                assert(proofs[a].locator.spec_lt(proofs[k].locator));
            } else {
                assert(proofs[k].locator.spec_lt(proofs[a].locator));
            }
        }
        if holds(proofs, locator) && locator != gone {
            let i = choose|i: int|
                0 <= i < proofs.len() && (#[trigger] proofs[i]).locator == locator;
            if i < k {
                assert(after[i].locator == locator);
            } else {
                assert(after[i - 1].locator == locator);
            }
        }
    }
    assert forall|locator: EquivocationLocator| holds(after, locator) implies proofs_map(
        after,
    )[locator] == proofs_map(proofs)[locator] by {
        let i = choose|i: int| 0 <= i < after.len() && (#[trigger] after[i]).locator == locator;
        lemma_map_at(after, i);
        lemma_map_at(proofs, if i < k { i } else { i + 1 });
    }
    assert(proofs_map(after) =~= proofs_map(proofs).remove(gone));
}

/// A prefix never takes more bytes than the whole.
pub proof fn lemma_total_size_monotone(proofs: Seq<EquivocationProof>, n: int)
    requires
        0 <= n <= proofs.len(),
    ensures
        0 <= total_size(proofs.take(n)) <= total_size(proofs),
    decreases proofs.len(),
{
    if proofs.len() == 0 {
        assert(proofs.take(n) =~= proofs);
    } else if n == proofs.len() {
        assert(proofs.take(n) =~= proofs);
        lemma_total_size_monotone(proofs.drop_last(), n - 1);
    } else {
        assert(proofs.drop_last().take(n) =~= proofs.take(n));
        lemma_total_size_monotone(proofs.drop_last(), n);
    }
}

/// A prefix that fits while the next longer one does not is the longest
/// prefix that fits.
pub proof fn lemma_fitting(proofs: Seq<EquivocationProof>, max_size: int, n: int)
    requires
        0 <= n <= proofs.len(),
        total_size(proofs.take(n)) <= max_size,
        n < proofs.len() ==> total_size(proofs.take(n + 1)) > max_size,
    ensures
        fitting(proofs, max_size) == n,
    decreases proofs.len(),
{
    if proofs.len() == 0 {
    } else if n == proofs.len() {
        assert(proofs.take(n) =~= proofs);
    } else {
        lemma_total_size_monotone(proofs, n + 1);
        assert(proofs.drop_last().take(n) =~= proofs.take(n));
        if n + 1 < proofs.len() {
            assert(proofs.drop_last().take(n + 1) =~= proofs.take(n + 1));
        }
        lemma_fitting(proofs.drop_last(), max_size, n);
    }
}

/// Whether one of the blocks carries a proof with the locator.
pub open spec fn holds_any(blocks: Seq<Seq<EquivocationProof>>, locator: EquivocationLocator) -> bool {
    exists|i: int| 0 <= i < blocks.len() && holds(#[trigger] blocks[i], locator)
}

/// A pool after blocks became part of the chain, the first block first.
pub open spec fn applied_all(
    pool: Map<EquivocationLocator, EquivocationProof>,
    blocks: Seq<Seq<EquivocationProof>>,
) -> Map<EquivocationLocator, EquivocationProof>
    decreases blocks.len(),
{
    if blocks.len() == 0 {
        pool
    } else {
        applied(applied_all(pool, blocks.drop_last()), blocks.last())
    }
}

/// A pool after blocks left the chain, the last block first.
pub open spec fn reverted_all(
    pool: Map<EquivocationLocator, EquivocationProof>,
    blocks: Seq<Seq<EquivocationProof>>,
) -> Map<EquivocationLocator, EquivocationProof>
    decreases blocks.len(),
{
    if blocks.len() == 0 {
        pool
    } else {
        reverted_all(reverted(pool, blocks.last()), blocks.drop_last())
    }
}

/// Applying a block takes exactly the locators of its proofs out of the
/// pool and changes no other entry.
pub proof fn lemma_applied(
    pool: Map<EquivocationLocator, EquivocationProof>,
    proofs: Seq<EquivocationProof>,
)
    ensures
        forall|l: EquivocationLocator| #[trigger]
            applied(pool, proofs).contains_key(l) <==> pool.contains_key(l) && !holds(proofs, l),
        forall|l: EquivocationLocator| #[trigger]
            applied(pool, proofs).contains_key(l) ==> applied(pool, proofs)[l] == pool[l],
    decreases proofs.len(),
{
    if proofs.len() > 0 {
        let front = proofs.drop_last();
        lemma_applied(pool, front);
        let before = applied(pool, front);
        let after = applied(pool, proofs);
        assert(after == before.remove(proofs.last().locator));
        assert forall|l: EquivocationLocator|
            holds(proofs, l) <==> (holds(front, l) || l == proofs.last().locator) by {
            if holds(proofs, l) {
                let i = choose|i: int| 0 <= i < proofs.len() && (#[trigger] proofs[i]).locator == l;
                if i < front.len() {
                    assert(front[i].locator == l);
                }
            }
            if holds(front, l) {
                let i = choose|i: int| 0 <= i < front.len() && (#[trigger] front[i]).locator == l;
                assert(proofs[i].locator == l);
            }
            if l == proofs.last().locator {
                assert(proofs[proofs.len() - 1].locator == l);
            }
        }
        assert forall|l: EquivocationLocator| #[trigger]
            after.contains_key(l) <==> pool.contains_key(l) && !holds(proofs, l) by {
            assert(before.contains_key(l) <==> pool.contains_key(l) && !holds(front, l));
        }
        assert forall|l: EquivocationLocator| #[trigger] after.contains_key(l) implies after[l]
            == pool[l] by {
            assert(before.contains_key(l));
        }
    }
}

/// The locators of proofs.
pub open spec fn locators(proofs: Seq<EquivocationProof>) -> Set<EquivocationLocator> {
    Set::new(|locator: EquivocationLocator| holds(proofs, locator))
}

/// Applying a block removes the locators of its proofs, all at once.
pub proof fn lemma_applied_is_removal(
    pool: Map<EquivocationLocator, EquivocationProof>,
    proofs: Seq<EquivocationProof>,
)
    ensures
        applied(pool, proofs) == pool.remove_keys(locators(proofs)),
{
    lemma_applied(pool, proofs);
    assert(applied(pool, proofs) =~= pool.remove_keys(locators(proofs)));
}

/// Reverting a block whose proofs all come from a larger pool gives a pool
/// that is still part of the larger one and holds every locator of the block.
pub proof fn lemma_reverted(
    pool: Map<EquivocationLocator, EquivocationProof>,
    whole: Map<EquivocationLocator, EquivocationProof>,
    proofs: Seq<EquivocationProof>,
)
    requires
        pool.submap_of(whole),
        forall|j: int|
            0 <= j < proofs.len() ==> whole.contains_pair(
                (#[trigger] proofs[j]).locator,
                proofs[j],
            ),
    ensures
        reverted(pool, proofs).submap_of(whole),
        forall|l: EquivocationLocator| #[trigger]
            reverted(pool, proofs).contains_key(l) <==> pool.contains_key(l) || holds(proofs, l),
    decreases proofs.len(),
{
    if proofs.len() > 0 {
        let front = proofs.drop_last();
        assert forall|j: int| 0 <= j < front.len() implies whole.contains_pair(
            (#[trigger] front[j]).locator,
            front[j],
        ) by {
            assert(front[j] == proofs[j]);
        }
        lemma_reverted(pool, whole, front);
        let last = proofs[proofs.len() - 1];
        assert(whole.contains_pair(last.locator, last));
        let before = reverted(pool, front);
        let after = reverted(pool, proofs);
        assert(after == with_proof(before, last));
        assert forall|l: EquivocationLocator| #[trigger] after.dom().contains(l) implies whole.dom().contains(
            l,
        ) && after[l] == whole[l] by {
            if l != last.locator {
                assert(before.dom().contains(l));
            } else if before.contains_key(l) {
                assert(before.dom().contains(l));
            }
        }
        assert(after.submap_of(whole));
        assert forall|l: EquivocationLocator| #[trigger]
            after.contains_key(l) <==> before.contains_key(l) || l == last.locator by {}
        assert forall|l: EquivocationLocator|
            holds(proofs, l) <==> (holds(front, l) || l == proofs.last().locator) by {
            if holds(proofs, l) {
                let i = choose|i: int| 0 <= i < proofs.len() && (#[trigger] proofs[i]).locator == l;
                if i < front.len() {
                    assert(front[i].locator == l);
                }
            }
            if holds(front, l) {
                let i = choose|i: int| 0 <= i < front.len() && (#[trigger] front[i]).locator == l;
                assert(proofs[i].locator == l);
            }
            if l == proofs.last().locator {
                assert(proofs[proofs.len() - 1].locator == l);
            }
        }
    }
}

/// Applying blocks takes exactly the locators of their proofs out of the
/// pool and changes no other entry.
pub proof fn lemma_applied_all(
    pool: Map<EquivocationLocator, EquivocationProof>,
    blocks: Seq<Seq<EquivocationProof>>,
)
    ensures
        applied_all(pool, blocks).submap_of(pool),
        forall|l: EquivocationLocator| #[trigger]
            applied_all(pool, blocks).contains_key(l) <==> pool.contains_key(l) && !holds_any(
                blocks,
                l,
            ),
    decreases blocks.len(),
{
    if blocks.len() > 0 {
        let front = blocks.drop_last();
        lemma_applied_all(pool, front);
        lemma_applied(applied_all(pool, front), blocks.last());
        assert forall|l: EquivocationLocator|
            holds_any(blocks, l) <==> (holds_any(front, l) || holds(blocks.last(), l)) by {
            if holds_any(blocks, l) {
                let i = choose|i: int| 0 <= i < blocks.len() && holds(#[trigger] blocks[i], l);
                if i < front.len() {
                    assert(holds(front[i], l));
                }
            }
            if holds_any(front, l) {
                let i = choose|i: int| 0 <= i < front.len() && holds(#[trigger] front[i], l);
                assert(holds(blocks[i], l));
            }
            if holds(blocks.last(), l) {
                assert(holds(blocks[blocks.len() - 1], l));
            }
        }
    }
}

/// Reverting blocks whose proofs all come from a larger pool gives a pool
/// that is still part of the larger one and holds every locator of the blocks.
pub proof fn lemma_reverted_all(
    pool: Map<EquivocationLocator, EquivocationProof>,
    whole: Map<EquivocationLocator, EquivocationProof>,
    blocks: Seq<Seq<EquivocationProof>>,
)
    requires
        pool.submap_of(whole),
        forall|i: int, j: int|
            0 <= i < blocks.len() && 0 <= j < blocks[i].len() ==> whole.contains_pair(
                (#[trigger] blocks[i][j]).locator,
                blocks[i][j],
            ),
    ensures
        reverted_all(pool, blocks).submap_of(whole),
        forall|l: EquivocationLocator| #[trigger]
            reverted_all(pool, blocks).contains_key(l) <==> pool.contains_key(l) || holds_any(
                blocks,
                l,
            ),
    decreases blocks.len(),
{
    if blocks.len() > 0 {
        let front = blocks.drop_last();
        let last = blocks.last();
        assert forall|j: int| 0 <= j < last.len() implies whole.contains_pair(
            (#[trigger] last[j]).locator,
            last[j],
        ) by {
            assert(last[j] == blocks[blocks.len() - 1][j]);
        }
        lemma_reverted(pool, whole, last);
        assert forall|i: int, j: int| 0 <= i < front.len() && 0 <= j < front[i].len() implies whole.contains_pair(
            (#[trigger] front[i][j]).locator,
            front[i][j],
        ) by {
            assert(front[i][j] == blocks[i][j]);
        }
        lemma_reverted_all(reverted(pool, last), whole, front);
        assert forall|l: EquivocationLocator|
            holds_any(blocks, l) <==> (holds_any(front, l) || holds(last, l)) by {
            if holds_any(blocks, l) {
                let i = choose|i: int| 0 <= i < blocks.len() && holds(#[trigger] blocks[i], l);
                if i < front.len() {
                    assert(holds(front[i], l));
                }
            }
            if holds_any(front, l) {
                let i = choose|i: int| 0 <= i < front.len() && holds(#[trigger] front[i], l);
                assert(holds(blocks[i], l));
            }
            if holds(last, l) {
                assert(holds(blocks[blocks.len() - 1], l));
            }
        }
    }
}

/// Reorganisations leave no trace: when blocks whose proofs the pool held
/// are applied one after the other and then reverted in the opposite order,
/// the pool holds again exactly what it held before.
pub proof fn lemma_revert_undoes_apply(
    pool: Map<EquivocationLocator, EquivocationProof>,
    blocks: Seq<Seq<EquivocationProof>>,
)
    requires
        forall|i: int, j: int|
            0 <= i < blocks.len() && 0 <= j < blocks[i].len() ==> pool.contains_pair(
                (#[trigger] blocks[i][j]).locator,
                blocks[i][j],
            ),
    ensures
        reverted_all(applied_all(pool, blocks), blocks) == pool,
{
    let low = applied_all(pool, blocks);
    let back = reverted_all(low, blocks);
    lemma_applied_all(pool, blocks);
    lemma_reverted_all(low, pool, blocks);
    assert forall|l: EquivocationLocator| pool.contains_key(l) implies back.contains_key(l) by {
        if !holds_any(blocks, l) {
            assert(low.contains_key(l));
        }
    }
    assert(back =~= pool);
}

/// Sorted proofs are determined by the map they stand for: two pools with
/// the same contents hold the same proofs in the same order.
pub proof fn lemma_sorted_representation(a: Seq<EquivocationProof>, b: Seq<EquivocationProof>)
    requires
        sorted(a),
        sorted(b),
        proofs_map(a) == proofs_map(b),
    ensures
        a == b,
    decreases a.len(),
{
    if a.len() == 0 {
        if b.len() > 0 {
            lemma_map_at(b, 0);
            assert(proofs_map(a).contains_key(b[0].locator));
        }
        assert(a =~= b);
    } else {
        let n = a.len() - 1;
        lemma_map_at(a, n);
        assert(holds(b, a[n].locator));
        let j = choose|j: int| 0 <= j < b.len() && (#[trigger] b[j]).locator == a[n].locator;
        let m = b.len() - 1;
        lemma_map_at(b, m);
        assert(holds(a, b[m].locator));
        let i = choose|i: int| 0 <= i < a.len() && (#[trigger] a[i]).locator == b[m].locator;
        if i < n && j < m {
            assert(a[i].locator.spec_lt(a[n].locator));
            assert(b[j].locator.spec_lt(b[m].locator));
        }
        assert(a[n].locator == b[m].locator);
        assert(a[n] == b[m]);
        lemma_remove(a, n);
        lemma_remove(b, m);
        assert(a.remove(n) =~= a.drop_last());
        assert(b.remove(m) =~= b.drop_last());
        lemma_sorted_representation(a.drop_last(), b.drop_last());
        assert(a =~= a.drop_last().push(a[n]));
        assert(b =~= b.drop_last().push(b[m]));
    }
}

/// The proofs of a pool in increasing order of their locators.
pub open spec fn ordered(pool: Map<EquivocationLocator, EquivocationProof>) -> Seq<
    EquivocationProof,
> {
    choose|proofs: Seq<EquivocationProof>| sorted(proofs) && proofs_map(proofs) == pool
}

/// Sorted proofs are the ordered form of their own map.
pub proof fn lemma_ordered(proofs: Seq<EquivocationProof>)
    requires
        sorted(proofs),
    ensures
        ordered(proofs_map(proofs)) == proofs,
{
    let chosen = ordered(proofs_map(proofs));
    assert(sorted(chosen) && proofs_map(chosen) == proofs_map(proofs));
    lemma_sorted_representation(chosen, proofs);
}

/// The proofs that the next block includes when at most `max_size` bytes
/// are allowed: the lowest locators first, up to the first proof that
/// does not fit.
pub open spec fn selection(
    pool: Map<EquivocationLocator, EquivocationProof>,
    max_size: int,
) -> Seq<EquivocationProof> {
    ordered(pool).take(fitting(ordered(pool), max_size))
}

/// The longest prefix that fits does fit.
pub proof fn lemma_fitting_fits(proofs: Seq<EquivocationProof>, max_size: int)
    requires
        max_size >= 0,
    ensures
        0 <= fitting(proofs, max_size) <= proofs.len(),
        total_size(proofs.take(fitting(proofs, max_size))) <= max_size,
    decreases proofs.len(),
{
    if proofs.len() == 0 {
        assert(proofs.take(0) =~= proofs);
    } else if total_size(proofs) <= max_size {
        assert(proofs.take(proofs.len() as int) =~= proofs);
    } else {
        let front = proofs.drop_last();
        lemma_fitting_fits(front, max_size);
        assert(front.take(fitting(front, max_size)) =~= proofs.take(fitting(front, max_size)));
    }
}

/// What is selected for a block never takes more than the bytes allowed.
pub proof fn lemma_selection_fits(
    pool: Map<EquivocationLocator, EquivocationProof>,
    max_size: int,
)
    requires
        max_size >= 0,
    ensures
        total_size(selection(pool, max_size)) <= max_size,
{
    lemma_fitting_fits(ordered(pool), max_size);
}

/// Blocks reverted one after the other, the first block first.
pub open spec fn reverted_each(
    pool: Map<EquivocationLocator, EquivocationProof>,
    blocks: Seq<Seq<EquivocationProof>>,
) -> Map<EquivocationLocator, EquivocationProof>
    decreases blocks.len(),
{
    if blocks.len() == 0 {
        pool
    } else {
        reverted(reverted_each(pool, blocks.drop_last()), blocks.last())
    }
}

/// The equivocation proofs that no block has included yet, at most one for
/// each locator, kept in increasing order of their locators.
#[derive(Debug)]
pub struct EquivocationProofPool {
    proofs: Vec<EquivocationProof>,
}

impl View for EquivocationProofPool {
    type V = Seq<EquivocationProof>;

    /// The proofs in increasing order of their locators.
    closed spec fn view(&self) -> Seq<EquivocationProof> {
        self.proofs@
    }
}

impl EquivocationProofPool {
    /// The pool's invariant: its proofs are in strictly increasing order of
    /// their locators, so no locator occurs twice.
    pub open spec fn wf(&self) -> bool {
        sorted(self@)
    }

    /// The proofs as a map from locator to proof.
    pub open spec fn contents(&self) -> Map<EquivocationLocator, EquivocationProof> {
        proofs_map(self@)
    }

    /// An empty pool.
    pub fn new() -> (pool: EquivocationProofPool)
        ensures
            pool.wf(),
            pool@ == Seq::<EquivocationProof>::empty(),
            pool.contents() == Map::<EquivocationLocator, EquivocationProof>::empty(),
    {
        let pool = EquivocationProofPool { proofs: Vec::new() };
        assert(pool.contents() =~= Map::<EquivocationLocator, EquivocationProof>::empty());
        pool
    }

    /// The number of proofs in the pool.
    pub fn len(&self) -> (len: usize)
        ensures
            len == self@.len(),
    {
        self.proofs.len()
    }

    /// Whether the pool holds no proof.
    pub fn is_empty(&self) -> (empty: bool)
        ensures
            empty == (self@.len() == 0),
    {
        self.proofs.len() == 0
    }

    /// The index of the first proof whose locator is not below `locator`.
    fn position(&self, locator: &EquivocationLocator) -> (k: usize)
        requires
            self.wf(),
        ensures
            k <= self@.len(),
            forall|j: int| 0 <= j < k ==> (#[trigger] self@[j]).locator.spec_lt(*locator),
            forall|j: int| k <= j < self@.len() ==> !(#[trigger] self@[j]).locator.spec_lt(*locator),
    {
        let mut k: usize = 0;
        while k < self.proofs.len() && self.proofs[k].locator.lt(locator)
            invariant
                self.wf(),
                k <= self.proofs@.len(),
                forall|j: int| 0 <= j < k ==> (#[trigger] self.proofs@[j]).locator.spec_lt(*locator),
            decreases self.proofs@.len() - k,
        {
            k += 1;
        }
        proof {
            if k < self.proofs@.len() {
                assert forall|j: int| k <= j < self@.len() implies !(#[trigger] self@[j]).locator.spec_lt(
                    *locator,
                ) by {
                    if k < j {
                        assert(self@[k as int].locator.spec_lt(self@[j].locator));
                    }
                }
            }
        }
        k
    }

    /// The index of the proof with this locator, if the pool holds one.
    fn find(&self, locator: &EquivocationLocator) -> (index: Option<usize>)
        requires
            self.wf(),
        ensures
            index is Some <==> self.contents().contains_key(*locator),
            index is Some ==> index->0 < self@.len() && self@[index->0 as int].locator == *locator,
    {
        let k = self.position(locator);
        if k < self.proofs.len() && self.proofs[k].locator == *locator {
            Some(k)
        } else {
            proof {
                if holds(self@, *locator) {
                    let i = choose|i: int|
                        0 <= i < self@.len() && (#[trigger] self@[i]).locator == *locator;
                    if i > k {
                        assert(self@[k as int].locator.spec_lt(self@[i].locator));
                    }
                }
            }
            None
        }
    }

    /// Whether the pool holds a proof with this locator.
    pub fn contains(&self, locator: &EquivocationLocator) -> (found: bool)
        requires
            self.wf(),
        ensures
            found == self.contents().contains_key(*locator),
    {
        self.find(locator).is_some()
    }

    /// Adds a proof, unless the pool already holds one with the same locator.
    pub fn insert(&mut self, proof: EquivocationProof)
        requires
            old(self).wf(),
        ensures
            final(self).wf(),
            final(self).contents() == with_proof(old(self).contents(), proof),
    {
        let k = self.position(&proof.locator);
        if k < self.proofs.len() && self.proofs[k].locator == proof.locator {
            return ;
        }
        proof {
            assert forall|j: int| k <= j < self@.len() implies proof.locator.spec_lt(
                (#[trigger] self@[j]).locator,
            ) by {
                if k < j {
                    assert(self@[k as int].locator.spec_lt(self@[j].locator));
                }
            }
            lemma_insert(self@, k as int, proof);
        }
        self.proofs.insert(k, proof);
    }

    /// Takes out the proof with this locator, if the pool holds one.
    pub fn remove(&mut self, locator: &EquivocationLocator)
        requires
            old(self).wf(),
        ensures
            final(self).wf(),
            final(self).contents() == old(self).contents().remove(*locator),
    {
        match self.find(locator) {
            Some(k) => {
                proof {
                    lemma_remove(self@, k as int);
                }
                self.proofs.remove(k);
            },
            None => {
                assert(self.contents().remove(*locator) =~= self.contents());
            },
        }
    }

    /// Takes note that a block became part of the chain: the proofs in its
    /// body leave the pool, so that no later block includes them again.
    pub fn apply_block(&mut self, block: &Block)
        requires
            old(self).wf(),
        ensures
            final(self).wf(),
            final(self).contents() == applied(old(self).contents(), block@.proofs()),
    {
        if let Block::Micro(micro) = block {
            if let Some(body) = &micro.body {
                let mut i: usize = 0;
                while i < body.equivocation_proofs.len()
                    invariant
                        self.wf(),
                        i <= body.equivocation_proofs@.len(),
                        self.contents() == applied(
                            old(self).contents(),
                            body.equivocation_proofs@.take(i as int),
                        ),
                    decreases body.equivocation_proofs@.len() - i,
                {
                    let locator = body.equivocation_proofs[i].locator;
                    self.remove(&locator);
                    proof {
                        let next = body.equivocation_proofs@.take(i + 1);
                        assert(next.drop_last() =~= body.equivocation_proofs@.take(i as int));
                    }
                    i += 1;
                }
                assert(body.equivocation_proofs@.take(i as int) =~= body.equivocation_proofs@);
            }
        }
    }

    /// Takes note that a block left the chain: the proofs in its body come
    /// back into the pool.
    pub fn revert_block(&mut self, block: &Block)
        requires
            old(self).wf(),
        ensures
            final(self).wf(),
            final(self).contents() == reverted(old(self).contents(), block@.proofs()),
    {
        if let Block::Micro(micro) = block {
            if let Some(body) = &micro.body {
                let mut i: usize = 0;
                while i < body.equivocation_proofs.len()
                    invariant
                        self.wf(),
                        i <= body.equivocation_proofs@.len(),
                        self.contents() == reverted(
                            old(self).contents(),
                            body.equivocation_proofs@.take(i as int),
                        ),
                    decreases body.equivocation_proofs@.len() - i,
                {
                    let proof = body.equivocation_proofs[i];
                    self.insert(proof);
                    proof {
                        let next = body.equivocation_proofs@.take(i + 1);
                        assert(next.drop_last() =~= body.equivocation_proofs@.take(i as int));
                    }
                    i += 1;
                }
                assert(body.equivocation_proofs@.take(i as int) =~= body.equivocation_proofs@);
            }
        }
    }

    /// Selects the proofs for the next block: lowest locator first, as many
    /// as fit into `max_size` bytes, stopping at the first that does not fit.
    pub fn get_equivocation_proofs_for_block(&self, max_size: usize) -> (selected: Vec<
        EquivocationProof,
    >)
        requires
            self.wf(),
        ensures
            selected@ == self@.take(fitting(self@, max_size as int)),
            selected@ == selection(self.contents(), max_size as int),
            total_size(selected@) <= max_size,
    {
        proof {
            lemma_ordered(self@);
        }
        let mut selected: Vec<EquivocationProof> = Vec::new();
        let mut size: usize = 0;
        let mut i: usize = 0;
        proof {
            assert(self@.take(0) =~= Seq::<EquivocationProof>::empty());
        }
        while i < self.proofs.len() && self.proofs[i].serialized_size() <= max_size - size
            invariant
                i <= self.proofs@.len(),
                size <= max_size,
                size == total_size(self@.take(i as int)),
                selected@ == self@.take(i as int),
            decreases self.proofs@.len() - i,
        {
            proof {
                let next = self@.take(i + 1);
                assert(next.drop_last() =~= self@.take(i as int));
                assert(next.last() == self@[i as int]);
            }
            size = size + self.proofs[i].serialized_size();
            selected.push(self.proofs[i]);
            assert(selected@ =~= self@.take(i + 1));
            i += 1;
        }
        proof {
            if i < self@.len() {
                let next = self@.take(i + 1);
                assert(next.drop_last() =~= self@.take(i as int));
                assert(next.last() == self@[i as int]);
            }
            lemma_fitting(self@, max_size as int, i as int);
        }
        selected
    }
}

} // verus!
