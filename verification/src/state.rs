//! The data that the validator keeps, and its mathematical content.

use crate::hash::{Address, Blake2bHash};
use crate::jail::{EquivocationLocator, EquivocationProof, EquivocationProofPool};
use crate::keypair::KeyPair;
use crate::macro_state::{MacroState, MacroStateView};
use crate::policy::Policy;
use crate::snapshot::{ElectedValidator, VrfSeed};
use vstd::prelude::*;

verus! {

/// Largest number of bytes that the equivocation proofs of one micro block
/// may take.
pub const EQUIVOCATION_PROOFS_MAX_SIZE: usize = 1000;

/// A key pair of the signature scheme that signs blocks and transactions.
#[derive(Clone, Copy, Debug)]
pub struct SchnorrKeyPair {
    pub private: [u8; 32],
    pub public: [u8; 32],
}

/// What the validator knows of the node's synchronisation, and the
/// equivocation proofs that wait for a block.
#[derive(Debug)]
pub struct ConsensusState {
    pub equivocation_proofs: EquivocationProofPool,
    pub consensus_established: bool,
    pub validity_window_synced: bool,
}

impl ConsensusState {
    /// The waiting equivocation proofs, by locator.
    pub open spec fn proofs(&self) -> Map<EquivocationLocator, EquivocationProof> {
        self.equivocation_proofs.contents()
    }

    /// The invariant of the pool of equivocation proofs.
    pub open spec fn wf(&self) -> bool {
        self.equivocation_proofs.wf()
    }

    /// The state of a node that is not synchronised and knows no proof.
    pub fn new() -> (state: ConsensusState)
        ensures
            state.wf(),
            !state.consensus_established,
            !state.validity_window_synced,
            state.proofs() == Map::<EquivocationLocator, EquivocationProof>::empty(),
            state.equivocation_proofs@ == Seq::<EquivocationProof>::empty(),
    {
        ConsensusState {
            equivocation_proofs: EquivocationProofPool::new(),
            consensus_established: false,
            validity_window_synced: false,
        }
    }

    /// Whether the node can produce blocks: consensus is established and
    /// the validity window can be enforced.
    pub open spec fn spec_is_synced(&self) -> bool {
        self.consensus_established && self.validity_window_synced
    }

    /// Whether the node can produce blocks.
    pub fn is_synced(&self) -> (synced: bool)
        ensures
            synced == self.spec_is_synced(),
    {
        self.consensus_established && self.validity_window_synced
    }
}

/// The reactivation that is under way: the transaction that was sent and
/// the height at which its validity window starts.
#[derive(Clone, Copy, Debug, PartialEq, Eq, Structural)]
pub struct InactivityState {
    pub inactive_tx_hash: Blake2bHash,
    pub inactive_tx_validity_window_start: u32,
}

/// The keys with which blocks are produced.
#[derive(Clone, Copy, Debug)]
pub struct BlockProducer {
    pub signing_key: SchnorrKeyPair,
    pub voting_key: KeyPair,
}

/// What the producer of the next macro block is made of.
#[derive(Debug)]
pub struct ProduceMacroBlock {
    pub block_producer: BlockProducer,
    pub validator_slot_band: u16,
    pub active_validators: Vec<ElectedValidator>,
    pub network_id: u8,
    pub block_number: u32,
    /// The round state to resume from, if one was kept.
    pub state: Option<MacroState>,
}

/// The mathematical content of a producer of macro blocks.
pub ghost struct MacroProducerView {
    pub block_producer: BlockProducer,
    pub validator_slot_band: u16,
    pub active_validators: Seq<ElectedValidator>,
    pub network_id: u8,
    pub block_number: u32,
    pub state: Option<MacroStateView>,
}

/// The content of an optional round state.
pub open spec fn macro_state_view(state: Option<MacroState>) -> Option<MacroStateView> {
    match state {
        Some(state) => Some(state@),
        None => None,
    }
}

/// Whether an optional round state is well-formed.
pub open spec fn macro_state_wf(state: Option<MacroState>) -> bool {
    match state {
        Some(state) => state.wf(),
        None => true,
    }
}

impl View for ProduceMacroBlock {
    type V = MacroProducerView;

    open spec fn view(&self) -> MacroProducerView {
        MacroProducerView {
            block_producer: self.block_producer,
            validator_slot_band: self.validator_slot_band,
            active_validators: self.active_validators@,
            network_id: self.network_id,
            block_number: self.block_number,
            state: macro_state_view(self.state),
        }
    }
}

/// What the producer of the next micro block is made of.
#[derive(Debug)]
pub struct ProduceMicroBlock {
    pub block_producer: BlockProducer,
    pub validator_slot_band: u16,
    /// The equivocation proofs that the block will include.
    pub equivocation_proofs: Vec<EquivocationProof>,
    pub prev_seed: VrfSeed,
    pub block_number: u32,
    /// Milliseconds after which the slot is given up.
    pub producer_timeout: u64,
    /// Milliseconds to wait after the previous block's timestamp.
    pub block_separation_time: u64,
}

/// The mathematical content of a producer of micro blocks.
pub ghost struct MicroProducerView {
    pub block_producer: BlockProducer,
    pub validator_slot_band: u16,
    pub equivocation_proofs: Seq<EquivocationProof>,
    pub prev_seed: VrfSeed,
    pub block_number: u32,
    pub producer_timeout: u64,
    pub block_separation_time: u64,
}

impl View for ProduceMicroBlock {
    type V = MicroProducerView;

    open spec fn view(&self) -> MicroProducerView {
        MicroProducerView {
            block_producer: self.block_producer,
            validator_slot_band: self.validator_slot_band,
            equivocation_proofs: self.equivocation_proofs@,
            prev_seed: self.prev_seed,
            block_number: self.block_number,
            producer_timeout: self.producer_timeout,
            block_separation_time: self.block_separation_time,
        }
    }
}

/// The content of an optional producer of macro blocks.
pub open spec fn macro_producer_view(producer: Option<ProduceMacroBlock>) -> Option<
    MacroProducerView,
> {
    match producer {
        Some(producer) => Some(producer@),
        None => None,
    }
}

/// The content of an optional producer of micro blocks.
pub open spec fn micro_producer_view(producer: Option<ProduceMicroBlock>) -> Option<
    MicroProducerView,
> {
    match producer {
        Some(producer) => Some(producer@),
        None => None,
    }
}

/// A cheap copy of what other layers may read of the validator.
#[derive(Clone, Copy, Debug)]
pub struct ValidatorProxy {
    pub validator_address: Address,
    pub signing_key: SchnorrKeyPair,
    pub voting_key: KeyPair,
    pub fee_key: SchnorrKeyPair,
    pub automatic_reactivate: bool,
    pub slot_band: Option<u16>,
    pub consensus_established: bool,
    pub validity_window_synced: bool,
}

/// The mathematical content of a validator: all that its decisions depend
/// on and all that they change.
pub ghost struct ValidatorView {
    pub validator_address: Address,
    pub signing_key: SchnorrKeyPair,
    pub voting_key: KeyPair,
    pub fee_key: SchnorrKeyPair,
    pub policy: Policy,
    /// Whether blocks of this validator are pushed without verification.
    pub trusted_push: bool,
    pub automatic_reactivate: bool,
    pub slot_band: Option<u16>,
    pub consensus_established: bool,
    pub validity_window_synced: bool,
    pub equivocation_proofs: Map<EquivocationLocator, EquivocationProof>,
    pub validator_state: Option<InactivityState>,
    pub macro_producer: Option<MacroProducerView>,
    pub micro_producer: Option<MicroProducerView>,
    pub macro_state: Option<MacroStateView>,
    pub mempool_active: bool,
}

} // verus!
