//! The validator: it follows the node's synchronisation and the chain,
//! keeps producers of blocks for the heights that are its own, gathers
//! equivocation proofs and reactivates itself when it fell inactive.
//!
//! The validator does no input or output itself. Every method takes what
//! happened, together with a snapshot of the node, and returns the
//! effects that its driver is to carry out, in order.

use crate::block::{Block, MacroBlock};
use crate::events::{
    action_views, append_actions, hashes_of, no_actions, push_action, Action, ActionView,
    BlockchainEvent, ForkEvent, MappedReturn, MsgAcceptance, NetworkEvent,
    ProduceMicroBlockEvent, Progress, PushResult, ReactivateTransaction, Topic, ValidatorEvent,
};
use crate::hash::{Address, Blake2bHash};
use crate::jail::{applied_all, reverted_each, EquivocationProof};
use crate::keypair::KeyPair;
use crate::laws::{lemma_on_blockchain_event, lemma_sync_gating, lemma_update_consensus_state};
use crate::macro_state::MacroState;
use crate::policy::{BlockType, Policy, BLOCK_PRODUCER_TIMEOUT, BLOCK_SEPARATION_TIME};
use crate::proposal_buffer::GossipedProposal;
use crate::snapshot::{Snapshot, ValidatorStakingState};
use crate::state::{
    macro_producer_view, macro_state_view, macro_state_wf, micro_producer_view, BlockProducer,
    ConsensusState, InactivityState, ProduceMacroBlock, ProduceMicroBlock, SchnorrKeyPair,
    ValidatorProxy, ValidatorView, EQUIVOCATION_PROOFS_MAX_SIZE,
};
use crate::transitions::{
    blockchain_event_admissible, event_admissible, proofs_of, publish_block_actions,
    verdict_actions, Transition,
};
use vstd::prelude::*;

verus! {

/// Whether a state and a list of effects are what a step prescribes.
pub open spec fn stepped(state: ValidatorView, actions: Seq<Action>, step: Transition) -> bool {
    state == step.state && action_views(actions) == step.actions
}

/// The validator.
#[derive(Debug)]
pub struct Validator {
    validator_address: Address,
    signing_key: SchnorrKeyPair,
    voting_key: KeyPair,
    fee_key: SchnorrKeyPair,
    policy: Policy,
    trusted_push: bool,
    automatic_reactivate: bool,
    slot_band: Option<u16>,
    consensus_state: ConsensusState,
    validator_state: Option<InactivityState>,
    macro_producer: Option<ProduceMacroBlock>,
    macro_state: Option<MacroState>,
    micro_producer: Option<ProduceMicroBlock>,
    mempool_active: bool,
}

impl View for Validator {
    type V = ValidatorView;

    closed spec fn view(&self) -> ValidatorView {
        ValidatorView {
            validator_address: self.validator_address,
            signing_key: self.signing_key,
            voting_key: self.voting_key,
            fee_key: self.fee_key,
            policy: self.policy,
            trusted_push: self.trusted_push,
            automatic_reactivate: self.automatic_reactivate,
            slot_band: self.slot_band,
            consensus_established: self.consensus_state.consensus_established,
            validity_window_synced: self.consensus_state.validity_window_synced,
            equivocation_proofs: self.consensus_state.proofs(),
            validator_state: self.validator_state,
            macro_producer: macro_producer_view(self.macro_producer),
            micro_producer: micro_producer_view(self.micro_producer),
            macro_state: macro_state_view(self.macro_state),
            mempool_active: self.mempool_active,
        }
    }
}

/// A copy of an optional round state.
fn clone_macro_state(state: &Option<MacroState>) -> (copy: Option<MacroState>)
    ensures
        macro_state_view(copy) == macro_state_view(*state),
        macro_state_wf(copy) == macro_state_wf(*state),
{
    match state {
        Some(state) => Some(state.clone()),
        None => None,
    }
}

impl Validator {
    /// The invariant of the validator's data: the chain parameters are
    /// usable, the pool of proofs is in order, and every round state
    /// that is kept is well-formed.
    pub closed spec fn wf(&self) -> bool {
        &&& self.policy.wf()
        &&& self.consensus_state.wf()
        &&& macro_state_wf(self.macro_state)
        &&& match self.macro_producer {
            Some(producer) => macro_state_wf(producer.state),
            None => true,
        }
    }

    /// A validator for a node that is not synchronised yet. It resumes
    /// from the round state that was persisted, if one is given.
    pub fn new(
        validator_address: Address,
        automatic_reactivate: bool,
        signing_key: SchnorrKeyPair,
        voting_key: KeyPair,
        fee_key: SchnorrKeyPair,
        policy: Policy,
        trusted_push: bool,
        macro_state: Option<MacroState>,
    ) -> (validator: Validator)
        requires
            policy.wf(),
            macro_state_wf(macro_state),
        ensures
            validator.wf(),
            validator@.inv(),
            validator@ == (ValidatorView {
                validator_address,
                signing_key,
                voting_key,
                fee_key,
                policy,
                trusted_push,
                automatic_reactivate,
                slot_band: None,
                consensus_established: false,
                validity_window_synced: false,
                equivocation_proofs: Map::empty(),
                validator_state: None,
                macro_producer: None,
                micro_producer: None,
                macro_state: macro_state_view(macro_state),
                mempool_active: false,
            }),
    {
        Validator {
            validator_address,
            signing_key,
            voting_key,
            fee_key,
            policy,
            trusted_push,
            automatic_reactivate,
            slot_band: None,
            consensus_state: ConsensusState::new(),
            validator_state: None,
            macro_producer: None,
            macro_state,
            micro_producer: None,
            mempool_active: false,
        }
    }

    /// Whether the validator has slots in the current epoch.
    pub fn is_elected(&self) -> (elected: bool)
        ensures
            elected == self@.is_elected(),
    {
        self.slot_band.is_some()
    }

    /// Whether the node can produce blocks: consensus is established and
    /// the validity window can be enforced.
    pub fn is_synced(&self) -> (synced: bool)
        ensures
            synced == self@.is_synced(),
    {
        self.consensus_state.is_synced()
    }

    /// The validator's slot band. Only an elected validator has one.
    pub fn validator_slot_band(&self) -> (slot_band: u16)
        requires
            self@.is_elected(),
        ensures
            Some(slot_band) == self@.slot_band,
    {
        match self.slot_band {
            Some(slot_band) => slot_band,
            None => 0,
        }
    }

    /// The validator's slot band, if it is elected.
    pub fn slot_band(&self) -> (slot_band: Option<u16>)
        ensures
            slot_band == self@.slot_band,
    {
        self.slot_band
    }

    /// The validator's address.
    pub fn validator_address(&self) -> (address: Address)
        ensures
            address == self@.validator_address,
    {
        self.validator_address
    }

    /// The key pair that votes.
    pub fn voting_key(&self) -> (key: KeyPair)
        ensures
            key == self@.voting_key,
    {
        self.voting_key
    }

    /// The key pair that signs blocks.
    pub fn signing_key(&self) -> (key: SchnorrKeyPair)
        ensures
            key == self@.signing_key,
    {
        self.signing_key
    }

    /// The key pair that pays fees.
    pub fn fee_key(&self) -> (key: SchnorrKeyPair)
        ensures
            key == self@.fee_key,
    {
        self.fee_key
    }

    /// Whether the validator reactivates itself.
    pub fn automatic_reactivate(&self) -> (flag: bool)
        ensures
            flag == self@.automatic_reactivate,
    {
        self.automatic_reactivate
    }

    /// Sets whether the validator reactivates itself.
    pub fn set_automatic_reactivate(&mut self, flag: bool)
        ensures
            final(self).wf() == old(self).wf(),
            final(self)@ == (ValidatorView { automatic_reactivate: flag, ..old(self)@ }),
    {
        self.automatic_reactivate = flag;
    }

    /// The reactivation that is under way, if any.
    pub fn validator_state(&self) -> (state: Option<InactivityState>)
        ensures
            state == self@.validator_state,
    {
        self.validator_state
    }

    /// Whether the mempool's executors run.
    pub fn mempool_active(&self) -> (active: bool)
        ensures
            active == self@.mempool_active,
    {
        self.mempool_active
    }

    /// What the validator knows of the node's synchronisation, with the
    /// waiting equivocation proofs.
    pub fn consensus_state(&self) -> (state: &ConsensusState)
        ensures
            state.consensus_established == self@.consensus_established,
            state.validity_window_synced == self@.validity_window_synced,
            state.proofs() == self@.equivocation_proofs,
            self.wf() ==> state.wf(),
    {
        &self.consensus_state
    }

    /// The producer of macro blocks, if one exists.
    pub fn macro_producer(&self) -> (producer: &Option<ProduceMacroBlock>)
        ensures
            macro_producer_view(*producer) == self@.macro_producer,
    {
        &self.macro_producer
    }

    /// The producer of micro blocks, if one exists.
    pub fn micro_producer(&self) -> (producer: &Option<ProduceMicroBlock>)
        ensures
            micro_producer_view(*producer) == self@.micro_producer,
    {
        &self.micro_producer
    }

    /// The round state that was last written, or read at the start.
    pub fn macro_state(&self) -> (state: &Option<MacroState>)
        ensures
            macro_state_view(*state) == self@.macro_state,
            self.wf() ==> macro_state_wf(*state),
    {
        &self.macro_state
    }

    /// What other layers may read of the validator.
    pub fn proxy(&self) -> (proxy: ValidatorProxy)
        ensures
            proxy == (ValidatorProxy {
                validator_address: self@.validator_address,
                signing_key: self@.signing_key,
                voting_key: self@.voting_key,
                fee_key: self@.fee_key,
                automatic_reactivate: self@.automatic_reactivate,
                slot_band: self@.slot_band,
                consensus_established: self@.consensus_established,
                validity_window_synced: self@.validity_window_synced,
            }),
    {
        ValidatorProxy {
            validator_address: self.validator_address,
            signing_key: self.signing_key,
            voting_key: self.voting_key,
            fee_key: self.fee_key,
            automatic_reactivate: self.automatic_reactivate,
            slot_band: self.slot_band,
            consensus_established: self.consensus_state.consensus_established,
            validity_window_synced: self.consensus_state.validity_window_synced,
        }
    }

    /// What the staking contract says of this validator.
    pub fn get_staking_state(&self, snapshot: &Snapshot) -> (state: ValidatorStakingState)
        ensures
            state == snapshot.spec_staking_state(self@.validator_address),
    {
        snapshot.get_staking_state(&self.validator_address)
    }

    /// Stops production: the slot band and the producers go, and the
    /// mempool's executors stop if they ran.
    pub(crate) fn pause(&mut self) -> (actions: Vec<Action>)
        requires
            old(self).wf(),
        ensures
            final(self).wf(),
            stepped(final(self)@, actions@, old(self)@.pause()),
    {
        self.slot_band = None;
        self.macro_producer = None;
        self.micro_producer = None;
        let mut actions = no_actions();
        push_action(&mut actions, Action::ResetProducer);
        if self.mempool_active {
            push_action(&mut actions, Action::StopMempool);
            self.mempool_active = false;
        }
        assert(action_views(actions@) =~= old(self)@.pause().actions);
        actions
    }

    /// Starts the mempool's executors when the node is synchronised and
    /// they do not run yet.
    pub(crate) fn init_mempool(&mut self) -> (actions: Vec<Action>)
        requires
            old(self).wf(),
        ensures
            final(self).wf(),
            stepped(final(self)@, actions@, old(self)@.init_mempool()),
    {
        let mut actions = no_actions();
        if self.mempool_active || !self.is_synced() {
            return actions;
        }
        push_action(&mut actions, Action::StartMempool);
        self.mempool_active = true;
        assert(action_views(actions@) =~= old(self)@.init_mempool().actions);
        actions
    }

    /// Whether a reactivation that is under way has lapsed without the
    /// transaction reaching the history.
    fn reactivation_lapsed(&self, snapshot: &Snapshot) -> (lapsed: bool)
        ensures
            lapsed == self@.reactivation_lapsed(*snapshot),
    {
        match self.validator_state {
            Some(state) => {
                let inactive = match self.get_staking_state(snapshot) {
                    ValidatorStakingState::Inactive(_) => true,
                    _ => false,
                };
                let window_end: u64 = state.inactive_tx_validity_window_start as u64
                    + self.policy.blocks_per_epoch();
                inactive && snapshot.block_number as u64 >= window_end
                    && !snapshot.tx_in_validity_window(
                    &state.inactive_tx_hash,
                    state.inactive_tx_validity_window_start,
                )
            },
            None => false,
        }
    }

    /// Starts an epoch: reads the validator's slot band from the new
    /// validator set and tells the network layer the slot band and the
    /// voting keys of all validators. A reactivation that lapsed is
    /// forgotten, so that the transaction is sent again. A node that is
    /// not synchronised only loses its slot band.
    pub(crate) fn init_epoch(&mut self, snapshot: &Snapshot) -> (actions: Vec<Action>)
        requires
            old(self).wf(),
            snapshot.wf(),
        ensures
            final(self).wf(),
            stepped(final(self)@, actions@, old(self)@.init_epoch(*snapshot)),
    {
        self.slot_band = None;
        let mut actions = no_actions();
        if !self.is_synced() {
            return actions;
        }
        if self.reactivation_lapsed(snapshot) {
            self.validator_state = None;
        }
        self.slot_band = snapshot.get_slot_band_by_address(&self.validator_address);
        push_action(&mut actions, Action::SetValidatorId(self.slot_band));
        push_action(&mut actions, Action::SetValidators(snapshot.voting_keys()));
        assert(action_views(actions@) =~= old(self)@.init_epoch(*snapshot).actions);
        actions
    }

    /// Drops the producers and makes the one for the block after the
    /// head: only for an elected validator on a synchronised node, and
    /// only when the event that asks for it, if it names a block, names
    /// the head.
    pub(crate) fn init_block_producer(&mut self, head_hash: Option<Blake2bHash>, snapshot: &Snapshot) -> (actions:
        Vec<Action>)
        requires
            old(self).wf(),
            snapshot.wf(),
        ensures
            final(self).wf(),
            stepped(final(self)@, actions@, old(self)@.init_block_producer(head_hash, *snapshot)),
    {
        self.macro_producer = None;
        self.micro_producer = None;
        let mut actions = no_actions();
        push_action(&mut actions, Action::ResetProducer);
        assert(action_views(actions@) =~= seq![ActionView::ResetProducer]);
        if !self.is_elected() || !self.is_synced() {
            return actions;
        }
        if let Some(hash) = head_hash {
            if snapshot.head_hash != hash {
                return actions;
            }
        }
        let next_block_number = snapshot.block_number + 1;
        let block_producer = BlockProducer {
            signing_key: self.signing_key,
            voting_key: self.voting_key,
        };
        match self.policy.block_type_of(next_block_number) {
            BlockType::Macro => {
                let active_validators = snapshot.validators.clone();
                assert(active_validators@ =~= snapshot.validators@);
                self.macro_producer = Some(
                    ProduceMacroBlock {
                        block_producer,
                        validator_slot_band: self.validator_slot_band(),
                        active_validators,
                        network_id: snapshot.network_id,
                        block_number: next_block_number,
                        state: clone_macro_state(&self.macro_state),
                    },
                );
            },
            BlockType::Micro => {
                let equivocation_proofs =
                    self.consensus_state.equivocation_proofs.get_equivocation_proofs_for_block(
                    EQUIVOCATION_PROOFS_MAX_SIZE,
                );
                self.micro_producer = Some(
                    ProduceMicroBlock {
                        block_producer,
                        validator_slot_band: self.validator_slot_band(),
                        equivocation_proofs,
                        prev_seed: snapshot.head_seed,
                        block_number: next_block_number,
                        producer_timeout: BLOCK_PRODUCER_TIMEOUT,
                        block_separation_time: BLOCK_SEPARATION_TIME,
                    },
                );
            },
        }
        actions
    }

    /// Starts production when the node became synchronised: the epoch,
    /// the mempool, and the producer for the block after the head.
    pub(crate) fn init(&mut self, head_hash: Option<Blake2bHash>, snapshot: &Snapshot) -> (actions: Vec<
        Action,
    >)
        requires
            old(self).wf(),
            snapshot.wf(),
        ensures
            final(self).wf(),
            stepped(final(self)@, actions@, old(self)@.init(head_hash, *snapshot)),
    {
        let mut actions = self.init_epoch(snapshot);
        let mempool = self.init_mempool();
        append_actions(&mut actions, mempool);
        let producer = self.init_block_producer(head_hash, snapshot);
        append_actions(&mut actions, producer);
        actions
    }

    /// Reads the synchronisation flags anew. Production starts when the
    /// node became synchronised and pauses when it no longer is.
    pub fn update_consensus_state(&mut self, head_hash: Option<Blake2bHash>, snapshot: &Snapshot) -> (actions:
        Vec<Action>)
        requires
            old(self).wf(),
            snapshot.wf(),
        ensures
            final(self).wf(),
            stepped(
                final(self)@,
                actions@,
                old(self)@.update_consensus_state(head_hash, *snapshot),
            ),
            old(self)@.inv() ==> final(self)@.inv(),
    {
        proof {
            if self@.inv() {
                lemma_update_consensus_state(self@, head_hash, *snapshot);
            }
        }
        let was_synced = self.is_synced();
        self.consensus_state.consensus_established = snapshot.consensus_established;
        self.consensus_state.validity_window_synced = snapshot.can_enforce_validity_window;
        let is_synced = self.is_synced();
        if !was_synced && is_synced {
            self.init(head_hash, snapshot)
        } else if was_synced && !is_synced {
            self.pause()
        } else {
            no_actions()
        }
    }

    /// History was adopted: a synchronised node cleans its mempool.
    pub fn on_blockchain_history_adopted(&mut self) -> (actions: Vec<Action>)
        requires
            old(self).wf(),
        ensures
            final(self).wf(),
            stepped(final(self)@, actions@, old(self)@.on_blockchain_history_adopted()),
    {
        let mut actions = no_actions();
        if self.is_synced() {
            push_action(&mut actions, Action::CleanupMempool);
            assert(action_views(actions@) =~= seq![ActionView::CleanupMempool]);
        }
        actions
    }

    /// A block extended the chain: its equivocation proofs leave the
    /// pool, a synchronised node tells its mempool, and the producer
    /// for the next block is made.
    pub fn on_blockchain_extended(&mut self, block: &Block, snapshot: &Snapshot) -> (actions: Vec<
        Action,
    >)
        requires
            old(self).wf(),
            snapshot.wf(),
        ensures
            final(self).wf(),
            stepped(
                final(self)@,
                actions@,
                old(self)@.on_blockchain_extended(block@, *snapshot),
            ),
    {
        self.consensus_state.equivocation_proofs.apply_block(block);
        let mut actions = no_actions();
        if self.is_synced() {
            let mut adopted: Vec<Blake2bHash> = Vec::new();
            adopted.push(block.hash());
            let update = Action::UpdateMempool { adopted, reverted: Vec::new() };
            assert(update@ == (ActionView::UpdateMempool {
                adopted: seq![block@.hash],
                reverted: Seq::empty(),
            })) by {
                assert(adopted@ =~= seq![block@.hash]);
            }
            push_action(&mut actions, update);
        }
        let ghost before = action_views(actions@);
        let producer = self.init_block_producer(Some(block.hash()), snapshot);
        append_actions(&mut actions, producer);
        proof {
            let expected = old(self)@.on_blockchain_extended(block@, *snapshot);
            assert(action_views(actions@) =~= expected.actions);
        }
        actions
    }

    /// The chain left one branch for another: the proofs of the blocks
    /// that left come back into the pool, those of the blocks that joined
    /// leave it, a synchronised node tells its mempool, and the producer
    /// for the block after the new head is made.
    pub fn on_blockchain_rebranched(
        &mut self,
        old_chain: &[Block],
        new_chain: &[Block],
        snapshot: &Snapshot,
    ) -> (actions: Vec<Action>)
        requires
            old(self).wf(),
            snapshot.wf(),
            new_chain@.len() > 0,
        ensures
            final(self).wf(),
            stepped(
                final(self)@,
                actions@,
                old(self)@.on_blockchain_rebranched(old_chain@, new_chain@, *snapshot),
            ),
    {
        let ghost start = self.consensus_state.proofs();
        let mut i: usize = 0;
        while i < old_chain.len()
            invariant
                i <= old_chain@.len(),
                self.wf(),
                self@ == (ValidatorView {
                    equivocation_proofs: reverted_each(start, proofs_of(old_chain@).take(i as int)),
                    ..old(self)@
                }),
            decreases old_chain@.len() - i,
        {
            proof {
                assert(proofs_of(old_chain@).take(i + 1).drop_last() =~= proofs_of(old_chain@).take(
                    i as int,
                ));
            }
            self.consensus_state.equivocation_proofs.revert_block(&old_chain[i]);
            i += 1;
        }
        let ghost middle = self.consensus_state.proofs();
        proof {
            assert(proofs_of(old_chain@).take(i as int) =~= proofs_of(old_chain@));
        }
        let mut j: usize = 0;
        while j < new_chain.len()
            invariant
                j <= new_chain@.len(),
                self.wf(),
                self@ == (ValidatorView {
                    equivocation_proofs: applied_all(middle, proofs_of(new_chain@).take(j as int)),
                    ..old(self)@
                }),
            decreases new_chain@.len() - j,
        {
            proof {
                assert(proofs_of(new_chain@).take(j + 1).drop_last() =~= proofs_of(new_chain@).take(
                    j as int,
                ));
            }
            self.consensus_state.equivocation_proofs.apply_block(&new_chain[j]);
            j += 1;
        }
        proof {
            assert(proofs_of(new_chain@).take(j as int) =~= proofs_of(new_chain@));
        }
        let mut actions = no_actions();
        if self.is_synced() {
            let update = Action::UpdateMempool {
                adopted: hashes_of(new_chain),
                reverted: hashes_of(old_chain),
            };
            push_action(&mut actions, update);
        }
        let head_hash = new_chain[new_chain.len() - 1].hash();
        let producer = self.init_block_producer(Some(head_hash), snapshot);
        append_actions(&mut actions, producer);
        proof {
            let expected = old(self)@.on_blockchain_rebranched(old_chain@, new_chain@, *snapshot);
            assert(action_views(actions@) =~= expected.actions);
        }
        actions
    }

    /// Reacts to a change of the chain.
    pub fn on_blockchain_event(&mut self, event: BlockchainEvent, snapshot: &Snapshot) -> (actions:
        Vec<Action>)
        requires
            old(self).wf(),
            snapshot.wf(),
            blockchain_event_admissible(event),
        ensures
            final(self).wf(),
            stepped(final(self)@, actions@, old(self)@.on_blockchain_event(event, *snapshot)),
            old(self)@.inv() ==> final(self)@.inv(),
    {
        proof {
            if self@.inv() {
                lemma_on_blockchain_event(self@, event, *snapshot);
            }
        }
        match event {
            BlockchainEvent::Extended(block) => self.on_blockchain_extended(&block, snapshot),
            BlockchainEvent::HistoryAdopted(_) => self.on_blockchain_history_adopted(),
            BlockchainEvent::Finalized(block) => {
                let mut actions = self.on_blockchain_extended(&block, snapshot);
                let more = self.update_consensus_state(Some(block.hash()), snapshot);
                append_actions(&mut actions, more);
                actions
            },
            BlockchainEvent::EpochFinalized(block) => {
                let mut actions = self.init_epoch(snapshot);
                let extended = self.on_blockchain_extended(&block, snapshot);
                append_actions(&mut actions, extended);
                let more = self.update_consensus_state(Some(block.hash()), snapshot);
                append_actions(&mut actions, more);
                actions
            },
            BlockchainEvent::Rebranched(old_chain, new_chain) => self.on_blockchain_rebranched(
                old_chain.as_slice(),
                new_chain.as_slice(),
                snapshot,
            ),
            BlockchainEvent::Stored(_) => no_actions(),
        }
    }

    /// Takes an equivocation proof into the pool, unless the history
    /// already punished the equivocation.
    pub fn on_equivocation_proof(&mut self, proof: EquivocationProof, snapshot: &Snapshot) -> (actions:
        Vec<Action>)
        requires
            old(self).wf(),
        ensures
            final(self).wf(),
            stepped(final(self)@, actions@, old(self)@.on_equivocation_proof(proof, *snapshot)),
    {
        if !snapshot.has_equivocation_proof(&proof.locator) {
            self.consensus_state.equivocation_proofs.insert(proof);
        }
        no_actions()
    }

    /// Reacts to the detection of a fork.
    pub fn on_fork_event(&mut self, event: ForkEvent, snapshot: &Snapshot) -> (actions: Vec<Action>)
        requires
            old(self).wf(),
        ensures
            final(self).wf(),
            stepped(final(self)@, actions@, old(self)@.on_fork_event(event, *snapshot)),
    {
        match event {
            ForkEvent::Detected(proof) => self.on_equivocation_proof(proof, snapshot),
        }
    }

    /// The verdict on a proposal, for the gossip layer.
    fn verdict(proposal: &GossipedProposal, acceptance: MsgAcceptance) -> (actions: Vec<Action>)
        ensures
            action_views(actions@) == verdict_actions(*proposal, acceptance),
    {
        let mut actions = no_actions();
        if let Some(id) = proposal.id {
            push_action(&mut actions, Action::ValidateMessage { id, acceptance });
            assert(action_views(actions@) =~= verdict_actions(*proposal, acceptance));
        }
        actions
    }

    /// Reacts to a report of the producer of macro blocks. Verdicts on
    /// proposals go to the gossip layer; a decided block is pushed; a
    /// new round state is written before it is kept, unless it is not
    /// for the block after the head.
    pub fn poll_macro(&mut self, event: MappedReturn, snapshot: &Snapshot) -> (actions: Vec<Action>)
        requires
            old(self).wf(),
            snapshot.wf(),
            match event {
                MappedReturn::Update(update) => update.wf(),
                _ => true,
            },
        ensures
            final(self).wf(),
            stepped(final(self)@, actions@, old(self)@.poll_macro(event, *snapshot)),
    {
        match event {
            MappedReturn::ProposalAccepted(proposal) => Self::verdict(
                &proposal,
                MsgAcceptance::Accept,
            ),
            MappedReturn::ProposalIgnored(proposal) => Self::verdict(
                &proposal,
                MsgAcceptance::Ignore,
            ),
            MappedReturn::ProposalRejected(proposal) => Self::verdict(
                &proposal,
                MsgAcceptance::Reject,
            ),
            MappedReturn::Decision(block) => {
                let mut actions = no_actions();
                push_action(
                    &mut actions,
                    Action::PushBlock { macro_block: block, trusted: self.trusted_push },
                );
                assert(action_views(actions@) =~= old(self)@.poll_macro(event, *snapshot).actions);
                actions
            },
            MappedReturn::Update(update) => {
                let mut actions = no_actions();
                let expected_block_number = snapshot.block_number + 1;
                if expected_block_number != update.block_number {
                    return actions;
                }
                push_action(&mut actions, Action::PersistMacroState(update.clone()));
                self.macro_state = Some(update);
                assert(action_views(actions@) =~= old(self)@.poll_macro(event, *snapshot).actions);
                actions
            },
        }
    }

    /// Reacts to the push of a decided macro block: the block is
    /// published when it became part of the main chain.
    pub fn block_pushed(&self, block: MacroBlock, result: Option<PushResult>) -> (actions: Vec<
        Action,
    >)
        ensures
            action_views(actions@) == self@.block_pushed(block, result).actions,
    {
        match result {
            Some(result) => {
                if result.adopted() {
                    self.publish_block(Block::Macro(block))
                } else {
                    no_actions()
                }
            },
            None => no_actions(),
        }
    }

    /// Reacts to a report of the producer of micro blocks: the block is
    /// published when it became part of the main chain.
    pub fn poll_micro(&self, event: ProduceMicroBlockEvent) -> (actions: Vec<Action>)
        ensures
            action_views(actions@) == self@.poll_micro(event).actions,
    {
        match event {
            ProduceMicroBlockEvent::MicroBlock(block, result) => {
                if result.adopted() {
                    self.publish_block(Block::Micro(block))
                } else {
                    no_actions()
                }
            },
        }
    }

    /// Publishes the validator's record: the compressed public voting
    /// key, signed with the secret voting key.
    pub fn publish_dht(&self) -> (actions: Vec<Action>)
        ensures
            action_views(actions@) == self@.publish_dht(),
    {
        let mut actions = no_actions();
        push_action(
            &mut actions,
            Action::PublishDhtRecord {
                public_key: self.voting_key.public_key,
                secret_key: self.voting_key.secret_key,
            },
        );
        assert(action_views(actions@) =~= self@.publish_dht());
        actions
    }

    /// Publishes a block: first whole on the block topic, then on the
    /// header topic, where a micro block goes without its body.
    pub fn publish_block(&self, block: Block) -> (actions: Vec<Action>)
        ensures
            action_views(actions@) == publish_block_actions(block@),
    {
        let mut actions = no_actions();
        push_action(&mut actions, Action::PublishBlock { topic: Topic::Block, block: block.clone() });
        push_action(
            &mut actions,
            Action::PublishBlock { topic: Topic::BlockHeader, block: block.into_header_only() },
        );
        assert(action_views(actions@) =~= publish_block_actions(block@));
        actions
    }

    /// Reacts to an event of the network layer: the validator's record
    /// is published once the distributed hash table is ready.
    pub fn on_network_event(&self, event: NetworkEvent) -> (actions: Vec<Action>)
        ensures
            action_views(actions@) == self@.on_network_event(event).actions,
    {
        match event {
            NetworkEvent::DhtReady => self.publish_dht(),
            _ => no_actions(),
        }
    }

    /// Whether the validator is to reactivate itself now.
    pub fn reactivation_due(&self, snapshot: &Snapshot) -> (due: bool)
        ensures
            due == self@.reactivation_due(*snapshot),
    {
        if !self.is_synced() || self.validator_state.is_some() || !self.automatic_reactivate {
            return false;
        }
        match self.get_staking_state(snapshot) {
            ValidatorStakingState::Inactive(Some(jailed_from)) => {
                snapshot.block_number as u128 >= self.policy.block_after_jail(jailed_from)
            },
            ValidatorStakingState::Inactive(None) => true,
            _ => false,
        }
    }

    /// Remembers that the reactivation transaction with this hash goes
    /// out now, and asks for it to be broadcast.
    pub(crate) fn reactivate(&mut self, snapshot: &Snapshot, tx_hash: Blake2bHash) -> (actions: Vec<Action>)
        requires
            old(self).wf(),
        ensures
            final(self).wf(),
            stepped(final(self)@, actions@, old(self)@.reactivate(*snapshot, tx_hash)),
    {
        let transaction = ReactivateTransaction {
            fee_key: self.fee_key.public,
            validator_address: self.validator_address,
            signing_key: self.signing_key.public,
            fee: 0,
            validity_start_height: snapshot.block_number,
            network_id: snapshot.network_id,
            hash: tx_hash,
        };
        self.validator_state = Some(
            InactivityState {
                inactive_tx_hash: tx_hash,
                inactive_tx_validity_window_start: snapshot.block_number,
            },
        );
        let mut actions = no_actions();
        push_action(&mut actions, Action::SendTransaction(transaction));
        assert(action_views(actions@) =~= old(self)@.reactivate(*snapshot, tx_hash).actions);
        actions
    }

    /// Checks the staking contract: an active validator forgets a
    /// reactivation that was under way; one that is due for reactivation
    /// sends the transaction whose hash is given.
    pub fn check_staking(&mut self, snapshot: &Snapshot, reactivation: Option<Blake2bHash>) -> (actions:
        Vec<Action>)
        requires
            old(self).wf(),
        ensures
            final(self).wf(),
            stepped(final(self)@, actions@, old(self)@.check_staking(*snapshot, reactivation)),
    {
        if !self.is_synced() {
            return no_actions();
        }
        match self.get_staking_state(snapshot) {
            ValidatorStakingState::Active => {
                self.validator_state = None;
                no_actions()
            },
            _ => {
                if self.reactivation_due(snapshot) {
                    match reactivation {
                        Some(tx_hash) => self.reactivate(snapshot, tx_hash),
                        None => no_actions(),
                    }
                } else {
                    no_actions()
                }
            },
        }
    }

    /// How the driver goes on after an event.
    pub fn poll_progress(&self, event: &ValidatorEvent, snapshot: &Snapshot) -> (progress: Progress)
        requires
            snapshot.wf(),
        ensures
            progress == self@.poll_progress(*event, *snapshot),
    {
        match event {
            ValidatorEvent::ConsensusClosed => Progress::Finished,
            ValidatorEvent::Macro(MappedReturn::Update(update)) => {
                if self.is_synced() && self.is_elected() && self.macro_producer.is_some()
                    && snapshot.block_number + 1 != update.block_number {
                    Progress::Yield
                } else {
                    Progress::Continue
                }
            },
            _ => Progress::Continue,
        }
    }

    /// Reacts to any event and returns the effects to carry out.
    pub fn poll(&mut self, event: ValidatorEvent, snapshot: &Snapshot) -> (actions: Vec<Action>)
        requires
            old(self).wf(),
            snapshot.wf(),
            event_admissible(event),
            match event {
                ValidatorEvent::Macro(MappedReturn::Update(update)) => update.wf(),
                _ => true,
            },
        ensures
            final(self).wf(),
            stepped(final(self)@, actions@, old(self)@.poll(event, *snapshot)),
            old(self)@.inv() ==> final(self)@.inv(),
    {
        proof {
            if self@.inv() {
                lemma_sync_gating(self@, event, *snapshot);
            }
        }
        match event {
            ValidatorEvent::Consensus => self.update_consensus_state(None, snapshot),
            ValidatorEvent::ConsensusClosed => no_actions(),
            ValidatorEvent::Blockchain(event) => self.on_blockchain_event(event, snapshot),
            ValidatorEvent::Fork(event) => {
                if snapshot.consensus_established {
                    self.on_fork_event(event, snapshot)
                } else {
                    no_actions()
                }
            },
            ValidatorEvent::Macro(event) => {
                if self.is_synced() && self.is_elected() && self.macro_producer.is_some() {
                    self.poll_macro(event, snapshot)
                } else {
                    no_actions()
                }
            },
            ValidatorEvent::MacroPushed(block, result) => self.block_pushed(block, result),
            ValidatorEvent::Micro(event) => {
                if self.is_synced() && self.is_elected() && self.micro_producer.is_some() {
                    self.poll_micro(event)
                } else {
                    no_actions()
                }
            },
            ValidatorEvent::Staking(reactivation) => self.check_staking(snapshot, reactivation),
            ValidatorEvent::Network(event) => self.on_network_event(event),
        }
    }
}

} // verus!
