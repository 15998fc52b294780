//! The events that drive the validator and the effects that it asks its
//! driver to carry out.

use crate::block::{Block, BlockView, MacroBlock, MicroBlock};
use crate::bls::{PublicKey, SecretKey};
use crate::hash::{Address, Blake2bHash};
use crate::jail::EquivocationProof;
use crate::macro_state::{MacroState, MacroStateView};
use crate::proposal_buffer::{GossipedProposal, PubsubId};
use vstd::prelude::*;

verus! {

/// How the chain took a block that was pushed onto it.
#[derive(Clone, Copy, Debug, PartialEq, Eq, Structural)]
pub enum PushResult {
    /// The block was known already.
    Known,
    /// The block extended the main chain.
    Extended,
    /// The block made another branch the main chain.
    Rebranched,
    /// The block extended a branch that is not the main chain.
    Forked,
    /// The block was not needed.
    Ignored,
}

impl PushResult {
    /// Whether the block became part of the main chain.
    pub open spec fn spec_adopted(self) -> bool {
        self == PushResult::Extended || self == PushResult::Rebranched
    }

    /// Whether the block became part of the main chain.
    pub fn adopted(&self) -> (adopted: bool)
        ensures
            adopted == self.spec_adopted(),
    {
        match self {
            PushResult::Extended => true,
            PushResult::Rebranched => true,
            _ => false,
        }
    }
}

/// The verdict on a gossiped message, reported back to the gossip layer.
#[derive(Clone, Copy, Debug, PartialEq, Eq, Structural)]
pub enum MsgAcceptance {
    Accept,
    Reject,
    Ignore,
}

/// The topics on which blocks are published.
#[derive(Clone, Copy, Debug, PartialEq, Eq, Structural)]
pub enum Topic {
    /// Whole blocks.
    Block,
    /// Blocks with the bodies of micro blocks left out.
    BlockHeader,
}

/// A change of the chain.
#[derive(Debug)]
pub enum BlockchainEvent {
    /// The block extended the chain.
    Extended(Block),
    /// History up to the block with this hash was adopted.
    HistoryAdopted(Blake2bHash),
    /// The macro block extended the chain and finalized its batch.
    Finalized(Block),
    /// The macro block extended the chain and finalized its epoch.
    EpochFinalized(Block),
    /// The chain left the first blocks for the second.
    Rebranched(Vec<Block>, Vec<Block>),
    /// The block was stored on a branch that is not the main chain.
    Stored(Block),
}

/// A fork that the chain detected.
#[derive(Clone, Copy, Debug, PartialEq, Eq, Structural)]
pub enum ForkEvent {
    Detected(EquivocationProof),
}

/// What the producer of macro blocks reports.
#[derive(Debug)]
pub enum MappedReturn {
    /// A proposal was accepted.
    ProposalAccepted(GossipedProposal),
    /// A proposal was neither accepted nor found faulty.
    ProposalIgnored(GossipedProposal),
    /// A proposal was found faulty.
    ProposalRejected(GossipedProposal),
    /// The round decided on a block.
    Decision(MacroBlock),
    /// The round state changed.
    Update(MacroState),
}

/// What the producer of micro blocks reports.
#[derive(Debug)]
pub enum ProduceMicroBlockEvent {
    /// A block was produced and pushed, with this result.
    MicroBlock(MicroBlock, PushResult),
}

/// Something that happened in the network layer.
#[derive(Clone, Copy, Debug, PartialEq, Eq, Structural)]
pub enum NetworkEvent {
    PeerJoined,
    PeerLeft,
    /// The distributed hash table is ready to take records.
    DhtReady,
}

/// Anything that the validator reacts to.
#[derive(Debug)]
pub enum ValidatorEvent {
    /// The consensus layer reported a change.
    Consensus,
    /// The stream of consensus events ended.
    ConsensusClosed,
    /// The chain changed.
    Blockchain(BlockchainEvent),
    /// The chain detected a fork.
    Fork(ForkEvent),
    /// The producer of macro blocks reported.
    Macro(MappedReturn),
    /// A decided macro block was pushed; `None` when the push failed.
    MacroPushed(MacroBlock, Option<PushResult>),
    /// The producer of micro blocks reported.
    Micro(ProduceMicroBlockEvent),
    /// Time to check the staking contract. The hash is that of the
    /// reactivation transaction for the head, when the driver built one.
    Staking(Option<Blake2bHash>),
    /// The network layer reported.
    Network(NetworkEvent),
}

/// How the driver goes on after an event.
#[derive(Clone, Copy, Debug, PartialEq, Eq, Structural)]
pub enum Progress {
    /// Take the next event.
    Continue,
    /// Leave the stream that the event came from for the rest of this pass.
    Yield,
    /// The validator is done for good.
    Finished,
}

/// The streams of events, in the order in which one pass drains them.
#[derive(Clone, Copy, Debug, PartialEq, Eq, Structural)]
pub enum PollPhase {
    Consensus,
    Blockchain,
    Fork,
    Producers,
    Staking,
    Network,
}

impl PollPhase {
    /// The position of the phase within a pass.
    pub open spec fn spec_rank(self) -> int {
        match self {
            PollPhase::Consensus => 0,
            PollPhase::Blockchain => 1,
            PollPhase::Fork => 2,
            PollPhase::Producers => 3,
            PollPhase::Staking => 4,
            PollPhase::Network => 5,
        }
    }

    /// The phase with which every pass starts.
    pub fn first() -> (phase: PollPhase)
        ensures
            phase.spec_rank() == 0,
    {
        PollPhase::Consensus
    }

    /// The phase that follows; `None` after the last one.
    pub fn next(&self) -> (phase: Option<PollPhase>)
        ensures
            phase is Some <==> self.spec_rank() < 5,
            phase is Some ==> phase->0.spec_rank() == self.spec_rank() + 1,
    {
        match self {
            PollPhase::Consensus => Some(PollPhase::Blockchain),
            PollPhase::Blockchain => Some(PollPhase::Fork),
            PollPhase::Fork => Some(PollPhase::Producers),
            PollPhase::Producers => Some(PollPhase::Staking),
            PollPhase::Staking => Some(PollPhase::Network),
            PollPhase::Network => None,
        }
    }
}

impl ValidatorEvent {
    /// The phase in which the event is taken.
    pub open spec fn spec_phase(&self) -> PollPhase {
        match self {
            ValidatorEvent::Consensus => PollPhase::Consensus,
            ValidatorEvent::ConsensusClosed => PollPhase::Consensus,
            ValidatorEvent::Blockchain(_) => PollPhase::Blockchain,
            ValidatorEvent::Fork(_) => PollPhase::Fork,
            ValidatorEvent::Macro(_) => PollPhase::Producers,
            ValidatorEvent::MacroPushed(_, _) => PollPhase::Producers,
            ValidatorEvent::Micro(_) => PollPhase::Producers,
            ValidatorEvent::Staking(_) => PollPhase::Staking,
            ValidatorEvent::Network(_) => PollPhase::Network,
        }
    }

    /// The phase in which the event is taken.
    pub fn phase(&self) -> (phase: PollPhase)
        ensures
            phase == self.spec_phase(),
    {
        match self {
            ValidatorEvent::Consensus => PollPhase::Consensus,
            ValidatorEvent::ConsensusClosed => PollPhase::Consensus,
            ValidatorEvent::Blockchain(_) => PollPhase::Blockchain,
            ValidatorEvent::Fork(_) => PollPhase::Fork,
            ValidatorEvent::Macro(_) => PollPhase::Producers,
            ValidatorEvent::MacroPushed(_, _) => PollPhase::Producers,
            ValidatorEvent::Micro(_) => PollPhase::Producers,
            ValidatorEvent::Staking(_) => PollPhase::Staking,
            ValidatorEvent::Network(_) => PollPhase::Network,
        }
    }
}

/// The transaction that reactivates a validator.
#[derive(Clone, Copy, Debug)]
pub struct ReactivateTransaction {
    /// The public key of the key pair that pays the fee.
    pub fee_key: [u8; 32],
    pub validator_address: Address,
    /// The public key of the key pair that signs for the validator.
    pub signing_key: [u8; 32],
    pub fee: u64,
    pub validity_start_height: u32,
    pub network_id: u8,
    /// The hash of the signed transaction.
    pub hash: Blake2bHash,
}

/// An effect that the driver carries out. Effects are carried out in the
/// order in which the validator lists them.
#[derive(Debug)]
pub enum Action {
    /// Tell the network layer the validator's slot band in this epoch.
    SetValidatorId(Option<u16>),
    /// Tell the network layer the voting keys of this epoch's validators.
    SetValidators(Vec<PublicKey>),
    /// Check the waiting transactions and start the mempool's executors.
    StartMempool,
    /// Stop the mempool's executors.
    StopMempool,
    /// Drop the waiting transactions that are no longer valid.
    CleanupMempool,
    /// Tell the mempool which blocks joined and which left the chain.
    UpdateMempool { adopted: Vec<Blake2bHash>, reverted: Vec<Blake2bHash> },
    /// Drop the running producers and start the one that the validator
    /// now holds, if it holds one.
    ResetProducer,
    /// Report the verdict on a gossiped proposal.
    ValidateMessage { id: PubsubId, acceptance: MsgAcceptance },
    /// Push a block that this validator produced onto the chain.
    PushBlock { macro_block: MacroBlock, trusted: bool },
    /// Write the round state under its key and commit.
    PersistMacroState(MacroState),
    /// Publish a block on a topic.
    PublishBlock { topic: Topic, block: Block },
    /// Publish the validator's record: the compressed voting key, signed
    /// with the secret voting key.
    PublishDhtRecord { public_key: PublicKey, secret_key: SecretKey },
    /// Broadcast a transaction.
    SendTransaction(ReactivateTransaction),
}

/// The mathematical content of an effect.
pub ghost enum ActionView {
    SetValidatorId(Option<u16>),
    SetValidators(Seq<PublicKey>),
    StartMempool,
    StopMempool,
    CleanupMempool,
    UpdateMempool { adopted: Seq<Blake2bHash>, reverted: Seq<Blake2bHash> },
    ResetProducer,
    ValidateMessage { id: PubsubId, acceptance: MsgAcceptance },
    PushBlock { macro_block: MacroBlock, trusted: bool },
    PersistMacroState(MacroStateView),
    PublishBlock { topic: Topic, block: BlockView },
    PublishDhtRecord { public_key: PublicKey, secret_key: SecretKey },
    SendTransaction(ReactivateTransaction),
}

impl View for Action {
    type V = ActionView;

    open spec fn view(&self) -> ActionView {
        match self {
            Action::SetValidatorId(id) => ActionView::SetValidatorId(*id),
            Action::SetValidators(keys) => ActionView::SetValidators(keys@),
            Action::StartMempool => ActionView::StartMempool,
            Action::StopMempool => ActionView::StopMempool,
            Action::CleanupMempool => ActionView::CleanupMempool,
            Action::UpdateMempool { adopted, reverted } => ActionView::UpdateMempool {
                adopted: adopted@,
                reverted: reverted@,
            },
            Action::ResetProducer => ActionView::ResetProducer,
            Action::ValidateMessage { id, acceptance } => ActionView::ValidateMessage {
                id: *id,
                acceptance: *acceptance,
            },
            Action::PushBlock { macro_block, trusted } => ActionView::PushBlock {
                macro_block: *macro_block,
                trusted: *trusted,
            },
            Action::PersistMacroState(state) => ActionView::PersistMacroState(state@),
            Action::PublishBlock { topic, block } => ActionView::PublishBlock {
                topic: *topic,
                block: block@,
            },
            Action::PublishDhtRecord { public_key, secret_key } => ActionView::PublishDhtRecord {
                public_key: *public_key,
                secret_key: *secret_key,
            },
            Action::SendTransaction(transaction) => ActionView::SendTransaction(*transaction),
        }
    }
}

/// The contents of a list of effects, in order.
pub open spec fn action_views(actions: Seq<Action>) -> Seq<ActionView> {
    Seq::new(actions.len(), |i: int| actions[i]@)
}

/// The hashes of blocks, in order.
pub open spec fn block_hashes(blocks: Seq<Block>) -> Seq<Blake2bHash> {
    Seq::new(blocks.len(), |i: int| blocks[i]@.hash)
}

/// Appends one list of effects to another.
pub fn append_actions(actions: &mut Vec<Action>, more: Vec<Action>)
    ensures
        action_views(final(actions)@) == action_views(old(actions)@) + action_views(more@),
{
    let mut more = more;
    let ghost added = more@;
    actions.append(&mut more);
    assert(action_views(actions@) =~= action_views(old(actions)@) + action_views(added));
}

/// Appends one effect to a list.
pub fn push_action(actions: &mut Vec<Action>, action: Action)
    ensures
        action_views(final(actions)@) == action_views(old(actions)@).push(action@),
{
    actions.push(action);
    assert(action_views(actions@) =~= action_views(old(actions)@).push(action@));
}

/// A list without effects.
pub fn no_actions() -> (actions: Vec<Action>)
    ensures
        actions@ == Seq::<Action>::empty(),
        action_views(actions@) == Seq::<ActionView>::empty(),
{
    let actions: Vec<Action> = Vec::new();
    assert(action_views(actions@) =~= Seq::<ActionView>::empty());
    actions
}

/// The hashes of blocks, in order.
pub fn hashes_of(blocks: &[Block]) -> (hashes: Vec<Blake2bHash>)
    ensures
        hashes@ == block_hashes(blocks@),
{
    let mut hashes: Vec<Blake2bHash> = Vec::new();
    let mut i: usize = 0;
    while i < blocks.len()
        invariant
            i <= blocks@.len(),
            hashes@ == block_hashes(blocks@).take(i as int),
        decreases blocks@.len() - i,
    {
        hashes.push(blocks[i].hash());
        assert(hashes@ =~= block_hashes(blocks@).take(i + 1));
        i += 1;
    }
    assert(block_hashes(blocks@).take(i as int) =~= block_hashes(blocks@));
    hashes
}

} // verus!
