//! What holds of the validator whatever happens.

use crate::block::{Block, BlockView};
use crate::events::{ActionView, BlockchainEvent, Topic, ValidatorEvent};
use crate::jail::lemma_selection_fits;
use crate::hash::Blake2bHash;
use crate::policy::BlockType;
use crate::snapshot::{Snapshot, ValidatorStakingState};
use crate::state::{ValidatorView, EQUIVOCATION_PROOFS_MAX_SIZE};
use crate::jail::{applied, applied_all, reverted_each};
use crate::state::InactivityState;
use crate::transitions::{
    blockchain_event_admissible, event_admissible, hashes, proofs_of, publish_block_actions,
    Transition,
};
use vstd::prelude::*;

verus! {

impl ValidatorView {
    /// A producer exists whenever the node is synchronised and the
    /// validator elected.
    pub open spec fn staffed(self) -> bool {
        self.is_synced() && self.is_elected() ==> self.has_producer()
    }
}

/// Whether an event that makes the validator look at the head names the
/// block that is the head.
pub open spec fn names_head(event: ValidatorEvent, snapshot: Snapshot) -> bool {
    match event {
        ValidatorEvent::Blockchain(BlockchainEvent::Extended(block)) => block@.hash
            == snapshot.head_hash,
        ValidatorEvent::Blockchain(BlockchainEvent::Finalized(block)) => block@.hash
            == snapshot.head_hash,
        ValidatorEvent::Blockchain(BlockchainEvent::EpochFinalized(block)) => block@.hash
            == snapshot.head_hash,
        ValidatorEvent::Blockchain(BlockchainEvent::Rebranched(_, new_chain)) => new_chain@.len()
            > 0 && new_chain@.last()@.hash == snapshot.head_hash,
        _ => true,
    }
}

/// Making the producer for the block after the head gives a state in
/// which producers are gated; the producer is of the kind of that block
/// and for that height; and it exists exactly when the validator is to
/// produce.
pub proof fn lemma_init_block_producer(
    state: ValidatorView,
    head_hash: Option<Blake2bHash>,
    snapshot: Snapshot,
)
    requires
        state.policy.wf(),
        snapshot.wf(),
    ensures
        ({
            let after = state.init_block_producer(head_hash, snapshot).state;
            let kind = state.policy.spec_block_type_of(snapshot.block_number + 1);
            &&& after.gated()
            &&& after.has_producer() == state.produces(head_hash, snapshot)
            &&& after.macro_producer is Some ==> kind == BlockType::Macro
                && after.macro_producer->0.block_number == snapshot.block_number + 1
            &&& after.micro_producer is Some ==> kind == BlockType::Micro
                && after.micro_producer->0.block_number == snapshot.block_number + 1
        }),
{
    lemma_selection_fits(state.equivocation_proofs, EQUIVOCATION_PROOFS_MAX_SIZE as int);
}

/// Production follows synchronisation and election. Between events,
/// producers exist only while the node is synchronised and the validator
/// elected, never two at once, and each is of the kind of its height;
/// every event keeps this so. As long as the events that make the
/// validator look at the head name the head, a producer also exists
/// whenever the node is synchronised and the validator elected.
pub proof fn lemma_sync_gating(state: ValidatorView, event: ValidatorEvent, snapshot: Snapshot)
    requires
        state.inv(),
        snapshot.wf(),
        event_admissible(event),
    ensures
        state.poll(event, snapshot).state.inv(),
        state.staffed() && names_head(event, snapshot) ==> state.poll(
            event,
            snapshot,
        ).state.staffed(),
{
    match event {
        ValidatorEvent::Consensus => {
            lemma_update_consensus_state(state, None, snapshot);
        },
        ValidatorEvent::Blockchain(event) => {
            lemma_on_blockchain_event(state, event, snapshot);
        },
        _ => {},
    }
}

/// Reading the synchronisation flags anew keeps the invariant, and
/// keeps a producer in place when the block that is named is the head.
pub proof fn lemma_update_consensus_state(
    state: ValidatorView,
    head_hash: Option<Blake2bHash>,
    snapshot: Snapshot,
)
    requires
        state.inv(),
        snapshot.wf(),
    ensures
        state.update_consensus_state(head_hash, snapshot).state.inv(),
        state.staffed() && (head_hash is Some ==> head_hash->0 == snapshot.head_hash)
            ==> state.update_consensus_state(head_hash, snapshot).state.staffed(),
{
    let updated = ValidatorView {
        consensus_established: snapshot.consensus_established,
        validity_window_synced: snapshot.can_enforce_validity_window,
        ..state
    };
    if !state.is_synced() && updated.is_synced() {
        let epoch = updated.init_epoch(snapshot);
        let mempool = epoch.state.init_mempool();
        lemma_init_block_producer(mempool.state, head_hash, snapshot);
    }
}

/// A change of the chain keeps the invariant, and keeps a producer in
/// place when the block that is named is the head.
pub proof fn lemma_on_blockchain_event(
    state: ValidatorView,
    event: BlockchainEvent,
    snapshot: Snapshot,
)
    requires
        state.inv(),
        snapshot.wf(),
    ensures
        state.on_blockchain_event(event, snapshot).state.inv(),
        state.staffed() && names_head(ValidatorEvent::Blockchain(event), snapshot)
            ==> state.on_blockchain_event(event, snapshot).state.staffed(),
{
    match event {
        BlockchainEvent::Extended(block) => {
            lemma_on_blockchain_extended(state, block, snapshot);
        },
        BlockchainEvent::Finalized(block) => {
            lemma_on_blockchain_extended(state, block, snapshot);
            let extended = state.on_blockchain_extended(block@, snapshot);
            lemma_update_consensus_state(extended.state, Some(block@.hash), snapshot);
        },
        BlockchainEvent::EpochFinalized(block) => {
            let epoch = state.init_epoch(snapshot);
            lemma_on_blockchain_extended(epoch.state, block, snapshot);
            let extended = epoch.state.on_blockchain_extended(block@, snapshot);
            lemma_update_consensus_state(extended.state, Some(block@.hash), snapshot);
        },
        BlockchainEvent::Rebranched(old_chain, new_chain) => {
            lemma_on_blockchain_rebranched(state, old_chain@, new_chain@, snapshot);
        },
        _ => {},
    }
}

/// A reorganisation keeps everything but the producers and the pool as
/// it was, and leaves the producers gated.
pub proof fn lemma_on_blockchain_rebranched(
    state: ValidatorView,
    old_chain: Seq<Block>,
    new_chain: Seq<Block>,
    snapshot: Snapshot,
)
    requires
        state.policy.wf(),
        state.settled(),
        snapshot.wf(),
    ensures
        ({
            let after = state.on_blockchain_rebranched(old_chain, new_chain, snapshot).state;
            &&& after.policy.wf()
            &&& after.settled()
            &&& after.gated()
            &&& new_chain.last()@.hash == snapshot.head_hash ==> after.staffed()
        }),
{
    let pooled = ValidatorView {
        equivocation_proofs: applied_all(
            reverted_each(
                state.equivocation_proofs,
                proofs_of(old_chain),
            ),
            proofs_of(new_chain),
        ),
        ..state
    };
    lemma_init_block_producer(pooled, Some(new_chain.last()@.hash), snapshot);
}

/// A block that extends the chain keeps everything but the producers
/// and the pool as it was, and leaves the producers gated.
pub proof fn lemma_on_blockchain_extended(state: ValidatorView, block: Block, snapshot: Snapshot)
    requires
        state.policy.wf(),
        state.settled(),
        snapshot.wf(),
    ensures
        ({
            let after = state.on_blockchain_extended(block@, snapshot).state;
            &&& after.policy.wf()
            &&& after.settled()
            &&& after.gated()
            &&& after.slot_band == state.slot_band
            &&& after.is_synced() == state.is_synced()
            &&& block@.hash == snapshot.head_hash ==> after.staffed()
        }),
{
    let pooled = ValidatorView {
        equivocation_proofs: applied(state.equivocation_proofs, block@.proofs()),
        ..state
    };
    lemma_init_block_producer(pooled, Some(block@.hash), snapshot);
}

/// Whether no effect in the list sends a transaction.
pub open spec fn sends_nothing(actions: Seq<ActionView>) -> bool {
    forall|i: int| 0 <= i < actions.len() ==> !((#[trigger] actions[i]) is SendTransaction)
}

/// What holds of every step but the writing of a round state and the
/// check of the staking contract: the round state stays, no transaction
/// is sent, and a reactivation under way is kept, or forgotten because
/// it lapsed.
pub open spec fn tame(state: ValidatorView, step: Transition, snapshot: Snapshot) -> bool {
    &&& step.state.macro_state == state.macro_state
    &&& step.state.validator_address == state.validator_address
    &&& step.state.policy == state.policy
    &&& sends_nothing(step.actions)
    &&& step.state.validator_state == state.validator_state || (step.state.validator_state
        is None && state.reactivation_lapsed(snapshot))
}

/// Two tame steps in a row are a tame step.
pub proof fn lemma_tame_followed_by(
    state: ValidatorView,
    first: Transition,
    second: Transition,
    snapshot: Snapshot,
)
    requires
        tame(state, first, snapshot),
        tame(first.state, second, snapshot),
    ensures
        tame(state, first.followed_by(second), snapshot),
{
    let both = first.followed_by(second);
    assert forall|i: int| 0 <= i < both.actions.len() implies !((#[trigger] both.actions[i])
        is SendTransaction) by {
        if i < first.actions.len() {
            assert(both.actions[i] == first.actions[i]);
        } else {
            assert(both.actions[i] == second.actions[i - first.actions.len()]);
        }
    }
}

/// The steps that start and stop production are tame.
pub proof fn lemma_tame_basics(state: ValidatorView, head_hash: Option<Blake2bHash>, snapshot: Snapshot)
    ensures
        tame(state, state.init_epoch(snapshot), snapshot),
        tame(state, state.init_mempool(), snapshot),
        tame(state, state.init_block_producer(head_hash, snapshot), snapshot),
        tame(state, state.pause(), snapshot),
        tame(state, state.on_blockchain_history_adopted(), snapshot),
{
}

/// Starting production is tame.
pub proof fn lemma_tame_init(state: ValidatorView, head_hash: Option<Blake2bHash>, snapshot: Snapshot)
    ensures
        tame(state, state.init(head_hash, snapshot), snapshot),
{
    let epoch = state.init_epoch(snapshot);
    lemma_tame_basics(state, head_hash, snapshot);
    lemma_tame_basics(epoch.state, head_hash, snapshot);
    let mempool = epoch.followed_by(epoch.state.init_mempool());
    lemma_tame_followed_by(state, epoch, epoch.state.init_mempool(), snapshot);
    lemma_tame_basics(mempool.state, head_hash, snapshot);
    lemma_tame_followed_by(
        state,
        mempool,
        mempool.state.init_block_producer(head_hash, snapshot),
        snapshot,
    );
}

/// Reading the synchronisation flags anew is tame.
pub proof fn lemma_tame_update(state: ValidatorView, head_hash: Option<Blake2bHash>, snapshot: Snapshot)
    ensures
        tame(state, state.update_consensus_state(head_hash, snapshot), snapshot),
{
    let updated = ValidatorView {
        consensus_established: snapshot.consensus_established,
        validity_window_synced: snapshot.can_enforce_validity_window,
        ..state
    };
    lemma_tame_init(updated, head_hash, snapshot);
    lemma_tame_basics(updated, head_hash, snapshot);
}

/// Taking note of a block that extended the chain is tame.
pub proof fn lemma_tame_extended(state: ValidatorView, block: Block, snapshot: Snapshot)
    ensures
        tame(state, state.on_blockchain_extended(block@, snapshot), snapshot),
{
    let pooled = ValidatorView {
        equivocation_proofs: applied(state.equivocation_proofs, block@.proofs()),
        ..state
    };
    let mempool = Transition {
        state: pooled,
        actions: if state.is_synced() {
            seq![
                ActionView::UpdateMempool {
                    adopted: seq![block@.hash],
                    reverted: Seq::empty(),
                },
            ]
        } else {
            Seq::empty()
        },
    };
    lemma_tame_basics(pooled, Some(block@.hash), snapshot);
    lemma_tame_followed_by(
        state,
        mempool,
        pooled.init_block_producer(Some(block@.hash), snapshot),
        snapshot,
    );
}

/// Taking note of a reorganisation is tame.
pub proof fn lemma_tame_rebranched(
    state: ValidatorView,
    old_chain: Seq<Block>,
    new_chain: Seq<Block>,
    snapshot: Snapshot,
)
    requires
        new_chain.len() > 0,
    ensures
        tame(state, state.on_blockchain_rebranched(old_chain, new_chain, snapshot), snapshot),
{
    let pooled = ValidatorView {
        equivocation_proofs: applied_all(
            reverted_each(
                state.equivocation_proofs,
                proofs_of(old_chain),
            ),
            proofs_of(new_chain),
        ),
        ..state
    };
    let mempool = Transition {
        state: pooled,
        actions: if state.is_synced() {
            seq![
                ActionView::UpdateMempool {
                    adopted: hashes(new_chain),
                    reverted: hashes(old_chain),
                },
            ]
        } else {
            Seq::empty()
        },
    };
    lemma_tame_basics(pooled, Some(new_chain.last()@.hash), snapshot);
    lemma_tame_followed_by(
        state,
        mempool,
        pooled.init_block_producer(Some(new_chain.last()@.hash), snapshot),
        snapshot,
    );
}

/// Taking note of any change of the chain is tame.
pub proof fn lemma_tame_blockchain_event(
    state: ValidatorView,
    event: BlockchainEvent,
    snapshot: Snapshot,
)
    requires
        blockchain_event_admissible(event),
    ensures
        tame(state, state.on_blockchain_event(event, snapshot), snapshot),
{
    match event {
        BlockchainEvent::Extended(block) => {
            lemma_tame_extended(state, block, snapshot);
        },
        BlockchainEvent::HistoryAdopted(_) => {
            lemma_tame_basics(state, None, snapshot);
        },
        BlockchainEvent::Finalized(block) => {
            lemma_tame_extended(state, block, snapshot);
            let extended = state.on_blockchain_extended(block@, snapshot);
            lemma_tame_update(extended.state, Some(block@.hash), snapshot);
            lemma_tame_followed_by(
                state,
                extended,
                extended.state.update_consensus_state(Some(block@.hash), snapshot),
                snapshot,
            );
        },
        BlockchainEvent::EpochFinalized(block) => {
            let epoch = state.init_epoch(snapshot);
            lemma_tame_basics(state, None, snapshot);
            lemma_tame_extended(epoch.state, block, snapshot);
            let extended = epoch.followed_by(epoch.state.on_blockchain_extended(block@, snapshot));
            lemma_tame_followed_by(
                state,
                epoch,
                epoch.state.on_blockchain_extended(block@, snapshot),
                snapshot,
            );
            lemma_tame_update(extended.state, Some(block@.hash), snapshot);
            lemma_tame_followed_by(
                state,
                extended,
                extended.state.update_consensus_state(Some(block@.hash), snapshot),
                snapshot,
            );
        },
        BlockchainEvent::Rebranched(old_chain, new_chain) => {
            lemma_tame_rebranched(state, old_chain@, new_chain@, snapshot);
        },
        BlockchainEvent::Stored(_) => {},
    }
}

/// What the validator keeps as its round state it has asked to be written
/// first: an event either leaves the round state as it was, or its only
/// effect writes the very state that is kept afterwards. A validator that
/// restarts from what was written therefore resumes from the state it had.
pub proof fn lemma_round_state_written_before_kept(
    state: ValidatorView,
    event: ValidatorEvent,
    snapshot: Snapshot,
)
    requires
        event_admissible(event),
    ensures
        ({
            let step = state.poll(event, snapshot);
            ||| step.state.macro_state == state.macro_state
            ||| {
                &&& step.state.macro_state is Some
                &&& step.actions == seq![
                    ActionView::PersistMacroState(step.state.macro_state->0),
                ]
            }
        }),
{
    match event {
        ValidatorEvent::Consensus => {
            lemma_tame_update(state, None, snapshot);
        },
        ValidatorEvent::Blockchain(event) => {
            lemma_tame_blockchain_event(state, event, snapshot);
        },
        _ => {},
    }
}

/// A producer of macro blocks resumes from the round state that the
/// validator keeps.
pub proof fn lemma_producer_resumes(
    state: ValidatorView,
    head_hash: Option<Blake2bHash>,
    snapshot: Snapshot,
)
    ensures
        ({
            let after = state.init_block_producer(head_hash, snapshot).state;
            after.macro_producer is Some ==> after.macro_producer->0.state == state.macro_state
        }),
{
}

/// At most one reactivation is under way. While one is, no event sends
/// another transaction; and the validator forgets the one under way only
/// when the staking contract shows it active again, or when, at the start
/// of an epoch, it is still inactive, an epoch has passed since the
/// transaction's validity window started, and the history does not hold
/// the transaction.
pub proof fn lemma_reactivation_once(state: ValidatorView, event: ValidatorEvent, snapshot: Snapshot)
    requires
        state.validator_state is Some,
        event_admissible(event),
    ensures
        ({
            let step = state.poll(event, snapshot);
            &&& sends_nothing(step.actions)
            &&& step.state.validator_state is None ==> {
                ||| snapshot.spec_staking_state(state.validator_address)
                    == ValidatorStakingState::Active
                ||| state.reactivation_lapsed(snapshot)
            }
            &&& step.state.validator_state is Some ==> step.state.validator_state
                == state.validator_state
        }),
{
    match event {
        ValidatorEvent::Consensus => {
            lemma_tame_update(state, None, snapshot);
        },
        ValidatorEvent::Blockchain(event) => {
            lemma_tame_blockchain_event(state, event, snapshot);
        },
        _ => {},
    }
}

/// A validator without a reactivation under way sends the transaction
/// exactly when the check of the staking contract finds it due and the
/// transaction was built; the reactivation is then under way, with its
/// validity window starting at the head.
pub proof fn lemma_reactivation_sent(state: ValidatorView, snapshot: Snapshot, hash: Blake2bHash)
    ensures
        ({
            let step = state.check_staking(snapshot, Some(hash));
            if state.reactivation_due(snapshot) {
                &&& step.actions == seq![
                    ActionView::SendTransaction(state.reactivate_transaction(snapshot, hash)),
                ]
                &&& step.state.validator_state == Some(
                    InactivityState {
                        inactive_tx_hash: hash,
                        inactive_tx_validity_window_start: snapshot.block_number,
                    },
                )
            } else {
                sends_nothing(step.actions)
            }
        }),
{
}

/// A block is published whole on the block topic first and on the header
/// topic second; on the header topic a micro block goes without its body
/// and a macro block goes as it is.
pub proof fn lemma_publish_order(block: BlockView)
    ensures
        publish_block_actions(block).len() == 2,
        publish_block_actions(block)[0] == (ActionView::PublishBlock { topic: Topic::Block, block }),
        publish_block_actions(block)[1] is PublishBlock,
        publish_block_actions(block)[1]->PublishBlock_topic == Topic::BlockHeader,
        block.kind == BlockType::Micro ==> publish_block_actions(block)[1]->PublishBlock_block
            == (BlockView { body: None, ..block }),
        block.kind == BlockType::Macro ==> publish_block_actions(block)[1]->PublishBlock_block
            == block,
{
}

} // verus!
