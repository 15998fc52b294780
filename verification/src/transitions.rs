//! The validator as a state machine: for every event, the state that
//! follows and the effects that are asked for, as mathematical functions.

use crate::block::{Block, BlockView};
use crate::events::{
    ActionView, BlockchainEvent, ForkEvent, MappedReturn, MsgAcceptance, NetworkEvent,
    ProduceMicroBlockEvent, Progress, PushResult, ReactivateTransaction, Topic, ValidatorEvent,
};
use crate::hash::Blake2bHash;
use crate::jail::{
    applied, applied_all, reverted_each, selection, total_size, with_proof, EquivocationProof,
};
use crate::block::{MacroBlock, MicroBlock};
use crate::macro_state::MacroStateView;
use crate::policy::{BlockType, BLOCK_PRODUCER_TIMEOUT, BLOCK_SEPARATION_TIME};
use crate::proposal_buffer::GossipedProposal;
use crate::snapshot::{voting_keys_of, Snapshot, ValidatorStakingState};
use crate::state::{
    BlockProducer, InactivityState, MacroProducerView, MicroProducerView, ValidatorView,
    EQUIVOCATION_PROOFS_MAX_SIZE,
};
use vstd::prelude::*;

verus! {

/// The outcome of one step: the state that follows and the effects asked
/// for, in order.
pub ghost struct Transition {
    pub state: ValidatorView,
    pub actions: Seq<ActionView>,
}

impl Transition {
    /// A step that asks for nothing.
    pub open spec fn quiet(state: ValidatorView) -> Transition {
        Transition { state, actions: Seq::empty() }
    }

    /// This step followed by another that starts from this step's state.
    pub open spec fn followed_by(self, next: Transition) -> Transition {
        Transition { state: next.state, actions: self.actions + next.actions }
    }
}

/// The proofs that the blocks carry, block by block.
pub open spec fn proofs_of(blocks: Seq<Block>) -> Seq<Seq<EquivocationProof>> {
    Seq::new(blocks.len(), |i: int| blocks[i]@.proofs())
}

/// The hashes of blocks, in order.
pub open spec fn hashes(blocks: Seq<Block>) -> Seq<Blake2bHash> {
    crate::events::block_hashes(blocks)
}

/// The effects that publish a block: first the whole block on the block
/// topic, then on the header topic the block without the body of a micro
/// block.
pub open spec fn publish_block_actions(block: BlockView) -> Seq<ActionView> {
    seq![
        ActionView::PublishBlock { topic: Topic::Block, block },
        ActionView::PublishBlock { topic: Topic::BlockHeader, block: block.header_only() },
    ]
}

/// The verdict on a proposal goes to the gossip layer when the proposal
/// came from there.
pub open spec fn verdict_actions(proposal: GossipedProposal, acceptance: MsgAcceptance) -> Seq<
    ActionView,
> {
    match proposal.id {
        Some(id) => seq![ActionView::ValidateMessage { id, acceptance }],
        None => Seq::empty(),
    }
}

impl ValidatorView {
    /// Whether the node can produce blocks.
    pub open spec fn is_synced(self) -> bool {
        self.consensus_established && self.validity_window_synced
    }

    /// Whether the validator has slots in the current epoch.
    pub open spec fn is_elected(self) -> bool {
        self.slot_band is Some
    }

    /// Whether a producer exists.
    pub open spec fn has_producer(self) -> bool {
        self.macro_producer is Some || self.micro_producer is Some
    }

    /// The keys that producers work with.
    pub open spec fn block_producer(self) -> BlockProducer {
        BlockProducer { signing_key: self.signing_key, voting_key: self.voting_key }
    }

    /// Producers exist only while the node is synchronised and the
    /// validator elected, never both at once, each for a height of its
    /// own kind and for the validator's slot band; a micro block's
    /// proofs stay within their limit.
    pub open spec fn gated(self) -> bool {
        &&& self.has_producer() ==> self.is_synced() && self.is_elected()
        &&& !(self.macro_producer is Some && self.micro_producer is Some)
        &&& match self.macro_producer {
            Some(producer) => {
                &&& self.policy.spec_block_type_of(producer.block_number as int)
                    == BlockType::Macro
                &&& Some(producer.validator_slot_band) == self.slot_band
            },
            None => true,
        }
        &&& match self.micro_producer {
            Some(producer) => {
                &&& self.policy.spec_block_type_of(producer.block_number as int)
                    == BlockType::Micro
                &&& Some(producer.validator_slot_band) == self.slot_band
                &&& total_size(producer.equivocation_proofs) <= EQUIVOCATION_PROOFS_MAX_SIZE
            },
            None => true,
        }
    }

    /// The mempool runs exactly while the node is synchronised, and a
    /// node that is not synchronised has no slot band.
    pub open spec fn settled(self) -> bool {
        &&& self.mempool_active == self.is_synced()
        &&& !self.is_synced() ==> self.slot_band is None
    }

    /// What holds of the validator between any two events.
    pub open spec fn inv(self) -> bool {
        &&& self.policy.wf()
        &&& self.gated()
        &&& self.settled()
    }

    /// Whether a reactivation that is under way has lapsed: the validator
    /// is still inactive, an epoch has passed since the transaction's
    /// validity window started, and the history does not hold the
    /// transaction.
    pub open spec fn reactivation_lapsed(self, snapshot: Snapshot) -> bool {
        match self.validator_state {
            Some(state) => {
                &&& snapshot.spec_staking_state(self.validator_address)
                    is Inactive
                &&& snapshot.block_number >= state.inactive_tx_validity_window_start
                    + self.policy.spec_blocks_per_epoch()
                &&& !snapshot.spec_tx_in_validity_window(
                    state.inactive_tx_hash,
                    state.inactive_tx_validity_window_start,
                )
            },
            None => false,
        }
    }

    /// At the start of an epoch: the slot band is read from the new
    /// validator set and the network layer is told the slot band and the
    /// voting keys. A node that is not synchronised only loses its slot band.
    pub open spec fn init_epoch(self, snapshot: Snapshot) -> Transition {
        if !self.is_synced() {
            Transition::quiet(ValidatorView { slot_band: None, ..self })
        } else {
            let slot_band = snapshot.spec_slot_band(self.validator_address);
            Transition {
                state: ValidatorView {
                    slot_band,
                    validator_state: if self.reactivation_lapsed(snapshot) {
                        None
                    } else {
                        self.validator_state
                    },
                    ..self
                },
                actions: seq![
                    ActionView::SetValidatorId(slot_band),
                    ActionView::SetValidators(voting_keys_of(snapshot.validators@)),
                ],
            }
        }
    }

    /// The mempool starts when the node is synchronised and it does not
    /// run yet.
    pub open spec fn init_mempool(self) -> Transition {
        if self.mempool_active || !self.is_synced() {
            Transition::quiet(self)
        } else {
            Transition {
                state: ValidatorView { mempool_active: true, ..self },
                actions: seq![ActionView::StartMempool],
            }
        }
    }

    /// Whether a producer is made for the block after the head: the
    /// validator is elected, the node synchronised, and the event that
    /// asks for it, if it names a block, names the head.
    pub open spec fn produces(self, head_hash: Option<Blake2bHash>, snapshot: Snapshot) -> bool {
        &&& self.is_elected()
        &&& self.is_synced()
        &&& head_hash is Some ==> head_hash->0 == snapshot.head_hash
    }

    /// The producer of macro blocks for the block after the head.
    pub open spec fn next_macro_producer(self, snapshot: Snapshot) -> MacroProducerView {
        MacroProducerView {
            block_producer: self.block_producer(),
            validator_slot_band: self.slot_band->0,
            active_validators: snapshot.validators@,
            network_id: snapshot.network_id,
            block_number: snapshot.spec_next_block_number(),
            state: self.macro_state,
        }
    }

    /// The producer of micro blocks for the block after the head.
    pub open spec fn next_micro_producer(self, snapshot: Snapshot) -> MicroProducerView {
        MicroProducerView {
            block_producer: self.block_producer(),
            validator_slot_band: self.slot_band->0,
            equivocation_proofs: selection(
                self.equivocation_proofs,
                EQUIVOCATION_PROOFS_MAX_SIZE as int,
            ),
            prev_seed: snapshot.head_seed,
            block_number: snapshot.spec_next_block_number(),
            producer_timeout: BLOCK_PRODUCER_TIMEOUT,
            block_separation_time: BLOCK_SEPARATION_TIME,
        }
    }

    /// The producers are dropped, and the one for the block after the
    /// head is made if the validator is to produce it.
    pub open spec fn init_block_producer(
        self,
        head_hash: Option<Blake2bHash>,
        snapshot: Snapshot,
    ) -> Transition {
        let actions = seq![ActionView::ResetProducer];
        let cleared = ValidatorView { macro_producer: None, micro_producer: None, ..self };
        if !self.produces(head_hash, snapshot) {
            Transition { state: cleared, actions }
        } else {
            match self.policy.spec_block_type_of(snapshot.spec_next_block_number() as int) {
                BlockType::Macro => Transition {
                    state: ValidatorView {
                        macro_producer: Some(self.next_macro_producer(snapshot)),
                        ..cleared
                    },
                    actions,
                },
                BlockType::Micro => Transition {
                    state: ValidatorView {
                        micro_producer: Some(self.next_micro_producer(snapshot)),
                        ..cleared
                    },
                    actions,
                },
            }
        }
    }

    /// What happens when the node becomes synchronised.
    pub open spec fn init(self, head_hash: Option<Blake2bHash>, snapshot: Snapshot) -> Transition {
        let epoch = self.init_epoch(snapshot);
        let mempool = epoch.followed_by(epoch.state.init_mempool());
        mempool.followed_by(mempool.state.init_block_producer(head_hash, snapshot))
    }

    /// What happens when the node stops being synchronised: the slot
    /// band and the producers go, and the mempool stops if it ran.
    pub open spec fn pause(self) -> Transition {
        let state = ValidatorView {
            slot_band: None,
            macro_producer: None,
            micro_producer: None,
            mempool_active: false,
            ..self
        };
        Transition {
            state,
            actions: if self.mempool_active {
                seq![ActionView::ResetProducer, ActionView::StopMempool]
            } else {
                seq![ActionView::ResetProducer]
            },
        }
    }

    /// The synchronisation flags are read anew; production starts when
    /// the node became synchronised and pauses when it no longer is.
    pub open spec fn update_consensus_state(
        self,
        head_hash: Option<Blake2bHash>,
        snapshot: Snapshot,
    ) -> Transition {
        let updated = ValidatorView {
            consensus_established: snapshot.consensus_established,
            validity_window_synced: snapshot.can_enforce_validity_window,
            ..self
        };
        if !self.is_synced() && updated.is_synced() {
            updated.init(head_hash, snapshot)
        } else if self.is_synced() && !updated.is_synced() {
            updated.pause()
        } else {
            Transition::quiet(updated)
        }
    }

    /// History was adopted: a synchronised node cleans its mempool.
    pub open spec fn on_blockchain_history_adopted(self) -> Transition {
        Transition {
            state: self,
            actions: if self.is_synced() {
                seq![ActionView::CleanupMempool]
            } else {
                Seq::empty()
            },
        }
    }

    /// A block extended the chain: its proofs leave the pool, a
    /// synchronised node tells its mempool, and the producer for the
    /// next block is made.
    pub open spec fn on_blockchain_extended(self, block: BlockView, snapshot: Snapshot) -> Transition {
        let state = ValidatorView {
            equivocation_proofs: applied(self.equivocation_proofs, block.proofs()),
            ..self
        };
        let mempool = Transition {
            state,
            actions: if self.is_synced() {
                seq![
                    ActionView::UpdateMempool {
                        adopted: seq![block.hash],
                        reverted: Seq::empty(),
                    },
                ]
            } else {
                Seq::empty()
            },
        };
        mempool.followed_by(state.init_block_producer(Some(block.hash), snapshot))
    }

    /// The chain left one branch for another: the proofs of the blocks
    /// that left come back into the pool, those of the blocks that
    /// joined leave it, a synchronised node tells its mempool, and the
    /// producer for the block after the new head is made.
    pub open spec fn on_blockchain_rebranched(
        self,
        old_chain: Seq<Block>,
        new_chain: Seq<Block>,
        snapshot: Snapshot,
    ) -> Transition
        recommends
            new_chain.len() > 0,
    {
        let state = ValidatorView {
            equivocation_proofs: applied_all(
                reverted_each(self.equivocation_proofs, proofs_of(old_chain)),
                proofs_of(new_chain),
            ),
            ..self
        };
        let mempool = Transition {
            state,
            actions: if self.is_synced() {
                seq![
                    ActionView::UpdateMempool {
                        adopted: hashes(new_chain),
                        reverted: hashes(old_chain),
                    },
                ]
            } else {
                Seq::empty()
            },
        };
        mempool.followed_by(state.init_block_producer(Some(new_chain.last()@.hash), snapshot))
    }

    /// What follows a change of the chain.
    pub open spec fn on_blockchain_event(self, event: BlockchainEvent, snapshot: Snapshot) -> Transition {
        match event {
            BlockchainEvent::Extended(block) => self.on_blockchain_extended(block@, snapshot),
            BlockchainEvent::HistoryAdopted(_) => self.on_blockchain_history_adopted(),
            BlockchainEvent::Finalized(block) => {
                let extended = self.on_blockchain_extended(block@, snapshot);
                extended.followed_by(
                    extended.state.update_consensus_state(Some(block@.hash), snapshot),
                )
            },
            BlockchainEvent::EpochFinalized(block) => {
                let epoch = self.init_epoch(snapshot);
                let extended = epoch.followed_by(epoch.state.on_blockchain_extended(block@, snapshot));
                extended.followed_by(
                    extended.state.update_consensus_state(Some(block@.hash), snapshot),
                )
            },
            BlockchainEvent::Rebranched(old_chain, new_chain) => self.on_blockchain_rebranched(
                old_chain@,
                new_chain@,
                snapshot,
            ),
            BlockchainEvent::Stored(_) => Transition::quiet(self),
        }
    }

    /// A proof arrives: it joins the pool unless the history already
    /// punished the equivocation.
    pub open spec fn on_equivocation_proof(self, proof: EquivocationProof, snapshot: Snapshot) -> Transition {
        if snapshot.spec_has_equivocation_proof(proof.locator) {
            Transition::quiet(self)
        } else {
            Transition::quiet(
                ValidatorView {
                    equivocation_proofs: with_proof(self.equivocation_proofs, proof),
                    ..self
                },
            )
        }
    }

    /// What follows the detection of a fork.
    pub open spec fn on_fork_event(self, event: ForkEvent, snapshot: Snapshot) -> Transition {
        match event {
            ForkEvent::Detected(proof) => self.on_equivocation_proof(proof, snapshot),
        }
    }

    /// Whether a new round state is for the block after the head.
    pub open spec fn update_is_current(self, update: MacroStateView, snapshot: Snapshot) -> bool {
        snapshot.block_number + 1 == update.block_number
    }

    /// What follows a report of the producer of macro blocks: verdicts
    /// go to the gossip layer, a decided block is pushed, and a round
    /// state for the block after the head is written before it is kept.
    pub open spec fn poll_macro(self, event: MappedReturn, snapshot: Snapshot) -> Transition {
        match event {
            MappedReturn::ProposalAccepted(proposal) => Transition {
                state: self,
                actions: verdict_actions(proposal, MsgAcceptance::Accept),
            },
            MappedReturn::ProposalIgnored(proposal) => Transition {
                state: self,
                actions: verdict_actions(proposal, MsgAcceptance::Ignore),
            },
            MappedReturn::ProposalRejected(proposal) => Transition {
                state: self,
                actions: verdict_actions(proposal, MsgAcceptance::Reject),
            },
            MappedReturn::Decision(block) => Transition {
                state: self,
                actions: seq![
                    ActionView::PushBlock { macro_block: block, trusted: self.trusted_push },
                ],
            },
            MappedReturn::Update(update) => if self.update_is_current(update@, snapshot) {
                Transition {
                    state: ValidatorView { macro_state: Some(update@), ..self },
                    actions: seq![ActionView::PersistMacroState(update@)],
                }
            } else {
                Transition::quiet(self)
            },
        }
    }

    /// What follows the push of a decided macro block: it is published
    /// when it became part of the main chain.
    pub open spec fn block_pushed(self, block: MacroBlock, result: Option<PushResult>) -> Transition {
        Transition {
            state: self,
            actions: if result is Some && result->0.spec_adopted() {
                publish_block_actions(block@)
            } else {
                Seq::empty()
            },
        }
    }

    /// What follows a report of the producer of micro blocks: the block
    /// is published when it became part of the main chain.
    pub open spec fn poll_micro(self, event: ProduceMicroBlockEvent) -> Transition {
        match event {
            ProduceMicroBlockEvent::MicroBlock(block, result) => Transition {
                state: self,
                actions: if result.spec_adopted() {
                    publish_block_actions(block@)
                } else {
                    Seq::empty()
                },
            },
        }
    }

    /// The effect that publishes the validator's record.
    pub open spec fn publish_dht(self) -> Seq<ActionView> {
        seq![
            ActionView::PublishDhtRecord {
                public_key: self.voting_key.public_key,
                secret_key: self.voting_key.secret_key,
            },
        ]
    }

    /// What follows an event of the network layer.
    pub open spec fn on_network_event(self, event: NetworkEvent) -> Transition {
        Transition {
            state: self,
            actions: match event {
                NetworkEvent::DhtReady => self.publish_dht(),
                _ => Seq::empty(),
            },
        }
    }

    /// Whether the validator is to reactivate itself now: the node is
    /// synchronised, the validator is inactive and out of jail, it is
    /// set to reactivate itself, and no reactivation is under way.
    pub open spec fn reactivation_due(self, snapshot: Snapshot) -> bool {
        &&& self.is_synced()
        &&& self.validator_state is None
        &&& self.automatic_reactivate
        &&& match snapshot.spec_staking_state(self.validator_address) {
            ValidatorStakingState::Inactive(Some(jailed_from)) => snapshot.block_number
                >= self.policy.spec_block_after_jail(jailed_from as int),
            ValidatorStakingState::Inactive(None) => true,
            _ => false,
        }
    }

    /// The transaction that reactivates the validator at the head.
    pub open spec fn reactivate_transaction(self, snapshot: Snapshot, hash: Blake2bHash) -> ReactivateTransaction {
        ReactivateTransaction {
            fee_key: self.fee_key.public,
            validator_address: self.validator_address,
            signing_key: self.signing_key.public,
            fee: 0,
            validity_start_height: snapshot.block_number,
            network_id: snapshot.network_id,
            hash,
        }
    }

    /// The reactivation transaction goes out and is remembered.
    pub open spec fn reactivate(self, snapshot: Snapshot, hash: Blake2bHash) -> Transition {
        Transition {
            state: ValidatorView {
                validator_state: Some(
                    InactivityState {
                        inactive_tx_hash: hash,
                        inactive_tx_validity_window_start: snapshot.block_number,
                    },
                ),
                ..self
            },
            actions: seq![
                ActionView::SendTransaction(self.reactivate_transaction(snapshot, hash)),
            ],
        }
    }

    /// The check of the staking contract: an active validator forgets a
    /// reactivation that was under way; one that is due for
    /// reactivation sends the transaction whose hash is given.
    pub open spec fn check_staking(self, snapshot: Snapshot, reactivation: Option<Blake2bHash>) -> Transition {
        if !self.is_synced() {
            Transition::quiet(self)
        } else if snapshot.spec_staking_state(self.validator_address)
            == ValidatorStakingState::Active {
            Transition::quiet(ValidatorView { validator_state: None, ..self })
        } else if self.reactivation_due(snapshot) && reactivation is Some {
            self.reactivate(snapshot, reactivation->0)
        } else {
            Transition::quiet(self)
        }
    }

    /// Whether the reports of the producer of macro blocks are taken:
    /// the validator is elected, the node synchronised, and the
    /// producer exists.
    pub open spec fn takes_macro(self) -> bool {
        self.is_synced() && self.is_elected() && self.macro_producer is Some
    }

    /// Whether the reports of the producer of micro blocks are taken.
    pub open spec fn takes_micro(self) -> bool {
        self.is_synced() && self.is_elected() && self.micro_producer is Some
    }

    /// What follows any event.
    pub open spec fn poll(self, event: ValidatorEvent, snapshot: Snapshot) -> Transition {
        match event {
            ValidatorEvent::Consensus => self.update_consensus_state(None, snapshot),
            ValidatorEvent::ConsensusClosed => Transition::quiet(self),
            ValidatorEvent::Blockchain(event) => self.on_blockchain_event(event, snapshot),
            ValidatorEvent::Fork(event) => if snapshot.consensus_established {
                self.on_fork_event(event, snapshot)
            } else {
                Transition::quiet(self)
            },
            ValidatorEvent::Macro(event) => if self.takes_macro() {
                self.poll_macro(event, snapshot)
            } else {
                Transition::quiet(self)
            },
            ValidatorEvent::MacroPushed(block, result) => self.block_pushed(block, result),
            ValidatorEvent::Micro(event) => if self.takes_micro() {
                self.poll_micro(event)
            } else {
                Transition::quiet(self)
            },
            ValidatorEvent::Staking(reactivation) => self.check_staking(snapshot, reactivation),
            ValidatorEvent::Network(event) => self.on_network_event(event),
        }
    }

    /// How the driver goes on after an event: it is done for good when
    /// the stream of consensus events ended, it leaves the producer of
    /// macro blocks alone for the rest of the pass after a round state
    /// that is out of date, and it goes on otherwise.
    pub open spec fn poll_progress(self, event: ValidatorEvent, snapshot: Snapshot) -> Progress {
        match event {
            ValidatorEvent::ConsensusClosed => Progress::Finished,
            ValidatorEvent::Macro(MappedReturn::Update(update)) => if self.takes_macro()
                && !self.update_is_current(update@, snapshot) {
                Progress::Yield
            } else {
                Progress::Continue
            },
            _ => Progress::Continue,
        }
    }
}

/// Whether the validator can take the event: a reorganisation names at
/// least one new block.
pub open spec fn event_admissible(event: ValidatorEvent) -> bool {
    match event {
        ValidatorEvent::Blockchain(event) => blockchain_event_admissible(event),
        _ => true,
    }
}

/// Whether the validator can take the change of the chain.
pub open spec fn blockchain_event_admissible(event: BlockchainEvent) -> bool {
    match event {
        BlockchainEvent::Rebranched(_, new_chain) => new_chain@.len() > 0,
        _ => true,
    }
}

} // verus!
