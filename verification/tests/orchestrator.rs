use nimiq_validator::block::{Block, MacroBlock, MicroBlock, MicroBody};
use nimiq_validator::bls::{PublicKey, SecretKey};
use nimiq_validator::events::{
    Action, BlockchainEvent, ForkEvent, MappedReturn, MsgAcceptance, NetworkEvent, PollPhase,
    ProduceMicroBlockEvent, Progress, PushResult, Topic, ValidatorEvent,
};
use nimiq_validator::hash::{Address, Blake2bHash, Blake2sHash};
use nimiq_validator::jail::{EquivocationKind, EquivocationLocator, EquivocationProof};
use nimiq_validator::keypair::KeyPair;
use nimiq_validator::macro_state::MacroState;
use nimiq_validator::policy::{BlockType, Policy, BLOCK_PRODUCER_TIMEOUT, BLOCK_SEPARATION_TIME};
use nimiq_validator::proposal_buffer::{GossipedProposal, Proposal, PubsubId};
use nimiq_validator::snapshot::{
    ElectedValidator, HistoricTransaction, Snapshot, StakedValidator, ValidatorStakingState,
    VrfSeed,
};
use nimiq_validator::state::{InactivityState, SchnorrKeyPair};
use nimiq_validator::validator::Validator;

fn secret(last: u8) -> SecretKey {
    let mut bytes = [0u8; 32];
    bytes[31] = last;
    SecretKey::from_bytes(&bytes).expect("a small non-zero scalar is a valid secret key")
}

fn address(n: u128) -> Address {
    Address { hi: 0, lo: n }
}

fn own_address() -> Address {
    address(1000)
}

fn hash(n: u128) -> Blake2bHash {
    Blake2bHash { hi: 0, lo: n }
}

fn schnorr(n: u8) -> SchnorrKeyPair {
    SchnorrKeyPair { private: [n; 32], public: [n + 1; 32] }
}

fn policy() -> Policy {
    Policy::new(33, 3, 1).expect("batches are not empty")
}

fn validator(automatic_reactivate: bool, state: Option<MacroState>) -> Validator {
    Validator::new(
        own_address(),
        automatic_reactivate,
        schnorr(10),
        KeyPair::from_secret(&secret(9)),
        schnorr(20),
        policy(),
        false,
        state,
    )
}

fn elected(slot_band: usize) -> Vec<ElectedValidator> {
    let key = PublicKey::from_secret(&secret(3));
    (0..8)
        .map(|i| ElectedValidator {
            address: if i == slot_band { own_address() } else { address(i as u128) },
            voting_key: key,
        })
        .collect()
}

fn snapshot(block_number: u32) -> Snapshot {
    Snapshot {
        consensus_established: true,
        can_enforce_validity_window: true,
        head_hash: hash(block_number as u128),
        block_number,
        network_id: 6,
        head_seed: VrfSeed { bytes: [block_number as u8; 96] },
        validators: elected(5),
        staking_contract: Some(vec![StakedValidator {
            address: own_address(),
            inactive_from: None,
            jailed_from: None,
        }]),
        transactions: vec![],
        punished: vec![],
    }
}

fn micro_block(number: u32, proofs: Option<Vec<EquivocationProof>>) -> MicroBlock {
    MicroBlock {
        hash: hash(number as u128),
        block_number: number,
        body: proofs.map(|equivocation_proofs| MicroBody { equivocation_proofs }),
    }
}

fn fork_proof(n: u32, size: u32) -> EquivocationProof {
    EquivocationProof {
        locator: EquivocationLocator {
            block_number: n,
            offender: address(n as u128),
            kind: EquivocationKind::Fork,
        },
        digest: hash(n as u128),
        size,
    }
}

fn synced_validator(head: u32) -> Validator {
    let mut validator = validator(true, None);
    validator.poll(ValidatorEvent::Consensus, &snapshot(head));
    validator
}

fn extended(number: u32) -> ValidatorEvent {
    ValidatorEvent::Blockchain(BlockchainEvent::Extended(Block::Micro(micro_block(
        number,
        Some(vec![]),
    ))))
}

#[test]
fn new_validator_is_idle() {
    let validator = validator(true, None);
    assert!(!validator.is_synced());
    assert!(!validator.is_elected());
    assert!(validator.slot_band().is_none());
    assert!(validator.macro_producer().is_none());
    assert!(validator.micro_producer().is_none());
    assert!(validator.macro_state().is_none());
    assert!(validator.validator_state().is_none());
    assert!(!validator.mempool_active());
    assert!(validator.consensus_state().equivocation_proofs.is_empty());
    assert_eq!(validator.validator_address(), own_address());
    assert!(validator.automatic_reactivate());
    assert_eq!(validator.signing_key().public, [11; 32]);
    assert_eq!(validator.fee_key().public, [21; 32]);
    assert!(validator.voting_key() == KeyPair::from_secret(&secret(9)));
}

#[test]
fn cold_start_elected() {
    let mut validator = validator(true, None);
    let mut partly = snapshot(40);
    partly.can_enforce_validity_window = false;
    let actions = validator.poll(ValidatorEvent::Consensus, &partly);
    assert!(actions.is_empty());
    assert!(!validator.is_synced());
    assert!(validator.micro_producer().is_none());
    assert!(!validator.mempool_active());

    let actions = validator.poll(ValidatorEvent::Consensus, &snapshot(40));
    assert!(validator.is_synced());
    assert_eq!(validator.slot_band(), Some(5));
    assert_eq!(validator.validator_slot_band(), 5);
    assert!(validator.mempool_active());
    assert_eq!(actions.len(), 4);
    assert!(matches!(actions[0], Action::SetValidatorId(Some(5))));
    assert!(matches!(&actions[1], Action::SetValidators(keys) if keys.len() == 8));
    assert!(matches!(actions[2], Action::StartMempool));
    assert!(matches!(actions[3], Action::ResetProducer));
    assert!(validator.macro_producer().is_none());
    let producer = validator.micro_producer().as_ref().expect("a micro producer");
    assert_eq!(producer.block_number, 41);
    assert_eq!(producer.validator_slot_band, 5);
    assert_eq!(producer.prev_seed.bytes, [40u8; 96]);
    assert_eq!(producer.producer_timeout, BLOCK_PRODUCER_TIMEOUT);
    assert_eq!(producer.block_separation_time, BLOCK_SEPARATION_TIME);
    assert!(producer.equivocation_proofs.is_empty());
    assert_eq!(policy().block_type_of(41), BlockType::Micro);
}

#[test]
fn macro_height_gets_a_macro_producer() {
    let validator = synced_validator(65);
    assert_eq!(policy().block_type_of(66), BlockType::Macro);
    assert!(validator.micro_producer().is_none());
    let producer = validator.macro_producer().as_ref().expect("a macro producer");
    assert_eq!(producer.block_number, 66);
    assert_eq!(producer.validator_slot_band, 5);
    assert_eq!(producer.network_id, 6);
    assert_eq!(producer.active_validators.len(), 8);
    assert!(producer.state.is_none());
}

#[test]
fn validator_that_is_not_elected_has_no_producer() {
    let mut validator = validator(true, None);
    let mut others = snapshot(40);
    others.validators = elected(99);
    let actions = validator.poll(ValidatorEvent::Consensus, &others);
    assert!(validator.is_synced());
    assert!(!validator.is_elected());
    assert!(validator.mempool_active());
    assert!(validator.micro_producer().is_none() && validator.macro_producer().is_none());
    assert!(matches!(actions[0], Action::SetValidatorId(None)));
    let mut next = snapshot(41);
    next.validators = elected(99);
    validator.poll(extended(41), &next);
    assert!(validator.micro_producer().is_none() && validator.macro_producer().is_none());
}

#[test]
fn losing_consensus_pauses_production() {
    let mut validator = synced_validator(40);
    let mut lost = snapshot(40);
    lost.consensus_established = false;
    let actions = validator.poll(ValidatorEvent::Consensus, &lost);
    assert!(!validator.is_synced());
    assert!(!validator.is_elected());
    assert!(validator.micro_producer().is_none() && validator.macro_producer().is_none());
    assert!(!validator.mempool_active());
    assert_eq!(actions.len(), 2);
    assert!(matches!(actions[0], Action::ResetProducer));
    assert!(matches!(actions[1], Action::StopMempool));
    let actions = validator.poll(ValidatorEvent::Consensus, &lost);
    assert!(actions.is_empty());
    let actions = validator.poll(extended(41), &{
        let mut s = snapshot(41);
        s.consensus_established = false;
        s
    });
    assert_eq!(actions.len(), 1);
    assert!(matches!(actions[0], Action::ResetProducer));
    assert!(validator.micro_producer().is_none());
}

#[test]
fn every_block_gets_the_producer_of_its_kind() {
    let mut validator = synced_validator(60);
    for head in 61..=70u32 {
        let actions = validator.poll(extended(head), &snapshot(head));
        assert!(matches!(
            &actions[0],
            Action::UpdateMempool { adopted, reverted }
                if adopted == &vec![hash(head as u128)] && reverted.is_empty()
        ));
        assert!(matches!(actions[1], Action::ResetProducer));
        let macro_next = (head + 1) % 33 == 0;
        assert_eq!(validator.macro_producer().is_some(), macro_next);
        assert_eq!(validator.micro_producer().is_some(), !macro_next);
        assert!(validator.is_synced() && validator.is_elected());
    }
}

#[test]
fn event_for_an_obsolete_block_makes_no_producer() {
    let mut validator = synced_validator(40);
    assert!(validator.micro_producer().is_some());
    let actions = validator.poll(extended(41), &snapshot(42));
    assert!(validator.micro_producer().is_none() && validator.macro_producer().is_none());
    assert!(matches!(actions[1], Action::ResetProducer));
    validator.poll(extended(42), &snapshot(42));
    assert_eq!(validator.micro_producer().as_ref().map(|p| p.block_number), Some(43));
}

#[test]
fn history_adopted_cleans_the_mempool_once_synced() {
    let mut idle = validator(true, None);
    let mut lost = snapshot(40);
    lost.consensus_established = false;
    let event = || ValidatorEvent::Blockchain(BlockchainEvent::HistoryAdopted(hash(40)));
    assert!(idle.poll(event(), &lost).is_empty());
    let mut validator = synced_validator(40);
    let actions = validator.poll(event(), &snapshot(40));
    assert_eq!(actions.len(), 1);
    assert!(matches!(actions[0], Action::CleanupMempool));
    let stored = ValidatorEvent::Blockchain(BlockchainEvent::Stored(Block::Micro(micro_block(
        41,
        None,
    ))));
    assert!(validator.poll(stored, &snapshot(40)).is_empty());
    assert_eq!(validator.micro_producer().as_ref().map(|p| p.block_number), Some(41));
}

#[test]
fn macro_decision_persists_then_publishes() {
    let mut validator = synced_validator(65);
    let mut state = MacroState::new(66);
    state.round = 1;
    state.locked = Some((1, Blake2sHash { hi: 1, lo: 2 }));
    let persisted = validator.poll(ValidatorEvent::Macro(MappedReturn::Update(state)), &snapshot(65));
    assert_eq!(persisted.len(), 1);
    assert!(matches!(
        &persisted[0],
        Action::PersistMacroState(state)
            if state.block_number == 66 && state.round == 1
                && state.locked == Some((1, Blake2sHash { hi: 1, lo: 2 }))
    ));
    let kept = validator.macro_state().as_ref().expect("the state is kept");
    assert_eq!((kept.block_number, kept.round), (66, 1));

    let block = MacroBlock { hash: hash(66), block_number: 66, round: 1 };
    let pushed = validator.poll(ValidatorEvent::Macro(MappedReturn::Decision(block)), &snapshot(65));
    assert_eq!(pushed.len(), 1);
    assert!(matches!(
        pushed[0],
        Action::PushBlock { macro_block, trusted: false } if macro_block == block
    ));

    let published =
        validator.poll(ValidatorEvent::MacroPushed(block, Some(PushResult::Extended)), &snapshot(66));
    assert_eq!(published.len(), 2);
    assert!(matches!(
        &published[0],
        Action::PublishBlock { topic: Topic::Block, block: Block::Macro(b) } if *b == block
    ));
    assert!(matches!(
        &published[1],
        Action::PublishBlock { topic: Topic::BlockHeader, block: Block::Macro(b) } if *b == block
    ));
    for result in [None, Some(PushResult::Known), Some(PushResult::Forked), Some(PushResult::Ignored)]
    {
        assert!(validator.block_pushed(block, result).is_empty());
    }
    assert_eq!(validator.block_pushed(block, Some(PushResult::Rebranched)).len(), 2);
}

#[test]
fn trusted_push_is_asked_for_when_configured() {
    let mut validator = Validator::new(
        own_address(),
        false,
        schnorr(1),
        KeyPair::from_secret(&secret(9)),
        schnorr(2),
        policy(),
        true,
        None,
    );
    validator.poll(ValidatorEvent::Consensus, &snapshot(65));
    let block = MacroBlock { hash: hash(66), block_number: 66, round: 0 };
    let pushed = validator.poll_macro(MappedReturn::Decision(block), &snapshot(65));
    assert!(matches!(pushed[0], Action::PushBlock { trusted: true, .. }));
}

#[test]
fn stale_round_state_is_discarded() {
    let mut validator = synced_validator(65);
    let stale = ValidatorEvent::Macro(MappedReturn::Update(MacroState::new(33)));
    assert_eq!(validator.poll_progress(&stale, &snapshot(65)), Progress::Yield);
    assert!(validator.poll(stale, &snapshot(65)).is_empty());
    assert!(validator.macro_state().is_none());
    let current = ValidatorEvent::Macro(MappedReturn::Update(MacroState::new(66)));
    assert_eq!(validator.poll_progress(&current, &snapshot(65)), Progress::Continue);
    assert_eq!(validator.poll(current, &snapshot(65)).len(), 1);
    assert_eq!(
        validator.poll_progress(&ValidatorEvent::ConsensusClosed, &snapshot(65)),
        Progress::Finished
    );
    assert!(validator.poll(ValidatorEvent::ConsensusClosed, &snapshot(65)).is_empty());
}

#[test]
fn restart_resumes_from_the_persisted_round_state() {
    let mut state = MacroState::new(66);
    state.round = 3;
    state.valid = Some((2, Blake2sHash { hi: 5, lo: 5 }));
    let mut validator = validator(true, Some(state));
    validator.poll(ValidatorEvent::Consensus, &snapshot(65));
    let producer = validator.macro_producer().as_ref().expect("a macro producer");
    let resumed = producer.state.as_ref().expect("the persisted state");
    assert_eq!((resumed.block_number, resumed.round), (66, 3));
    assert_eq!(resumed.valid, Some((2, Blake2sHash { hi: 5, lo: 5 })));
}

#[test]
fn reports_of_a_producer_that_does_not_exist_are_dropped() {
    let mut validator = synced_validator(40);
    let update = ValidatorEvent::Macro(MappedReturn::Update(MacroState::new(41)));
    assert!(validator.poll(update, &snapshot(40)).is_empty());
    assert!(validator.macro_state().is_none());
    let mut macro_height = synced_validator(65);
    let produced = ValidatorEvent::Micro(ProduceMicroBlockEvent::MicroBlock(
        micro_block(66, Some(vec![])),
        PushResult::Extended,
    ));
    assert!(macro_height.poll(produced, &snapshot(65)).is_empty());
}

#[test]
fn verdicts_on_proposals_go_to_the_gossip_layer() {
    let mut validator = synced_validator(65);
    let proposal = |id| GossipedProposal {
        proposal: Proposal {
            block_number: 66,
            round: 0,
            valid_round: None,
            hash: Blake2sHash { hi: 0, lo: 1 },
            signer: 2,
        },
        id,
    };
    let gossiped = proposal(Some(PubsubId(77)));
    let cases = [
        (MappedReturn::ProposalAccepted(gossiped), MsgAcceptance::Accept),
        (MappedReturn::ProposalIgnored(gossiped), MsgAcceptance::Ignore),
        (MappedReturn::ProposalRejected(gossiped), MsgAcceptance::Reject),
    ];
    for (event, expected) in cases {
        let actions = validator.poll(ValidatorEvent::Macro(event), &snapshot(65));
        assert_eq!(actions.len(), 1);
        assert!(matches!(
            actions[0],
            Action::ValidateMessage { id: PubsubId(77), acceptance } if acceptance == expected
        ));
    }
    let local = MappedReturn::ProposalAccepted(proposal(None));
    assert!(validator.poll(ValidatorEvent::Macro(local), &snapshot(65)).is_empty());
}

#[test]
fn micro_blocks_are_published_whole_and_then_without_body() {
    let mut validator = synced_validator(40);
    let block = micro_block(41, Some(vec![fork_proof(3, 100)]));
    let event = ValidatorEvent::Micro(ProduceMicroBlockEvent::MicroBlock(
        block.clone(),
        PushResult::Extended,
    ));
    let actions = validator.poll(event, &snapshot(41));
    assert_eq!(actions.len(), 2);
    assert!(matches!(
        &actions[0],
        Action::PublishBlock { topic: Topic::Block, block: Block::Micro(b) }
            if b.block_number == 41 && b.hash == hash(41)
                && b.body.as_ref().map(|body| body.equivocation_proofs.clone())
                    == Some(vec![fork_proof(3, 100)])
    ));
    assert!(matches!(
        &actions[1],
        Action::PublishBlock { topic: Topic::BlockHeader, block: Block::Micro(b) }
            if b.block_number == 41 && b.hash == hash(41) && b.body.is_none()
    ));
    for result in [PushResult::Known, PushResult::Forked, PushResult::Ignored] {
        let event = ProduceMicroBlockEvent::MicroBlock(block.clone(), result);
        assert!(validator.poll_micro(event).is_empty());
    }
    let event = ProduceMicroBlockEvent::MicroBlock(block, PushResult::Rebranched);
    assert_eq!(validator.poll_micro(event).len(), 2);
}

#[test]
fn fork_proofs_are_pooled_once_consensus_is_established() {
    let mut validator = validator(true, None);
    let mut syncing = snapshot(40);
    syncing.consensus_established = false;
    let detected = || ValidatorEvent::Fork(ForkEvent::Detected(fork_proof(7, 100)));
    validator.poll(detected(), &syncing);
    assert!(validator.consensus_state().equivocation_proofs.is_empty());
    let mut established = snapshot(40);
    established.can_enforce_validity_window = false;
    validator.poll(detected(), &established);
    validator.poll(detected(), &established);
    assert_eq!(validator.consensus_state().equivocation_proofs.len(), 1);
    assert!(!validator.is_synced());
    let mut punished = snapshot(40);
    punished.punished = vec![fork_proof(8, 100).locator];
    validator.poll(ValidatorEvent::Fork(ForkEvent::Detected(fork_proof(8, 100))), &punished);
    assert_eq!(validator.consensus_state().equivocation_proofs.len(), 1);
    assert!(punished.has_equivocation_proof(&fork_proof(8, 100).locator));
    assert!(!punished.has_equivocation_proof(&fork_proof(7, 100).locator));
}

#[test]
fn micro_producer_gets_the_proofs_that_fit() {
    let mut validator = synced_validator(40);
    for n in 1..=4u32 {
        validator.on_equivocation_proof(fork_proof(n, 400), &snapshot(40));
    }
    validator.poll(extended(41), &snapshot(41));
    let producer = validator.micro_producer().as_ref().expect("a micro producer");
    assert_eq!(producer.equivocation_proofs, vec![fork_proof(1, 400), fork_proof(2, 400)]);
    let total: u32 = producer.equivocation_proofs.iter().map(|p| p.size).sum();
    assert!(total <= 1000);
    assert_eq!(validator.consensus_state().equivocation_proofs.len(), 4);
    let including = ValidatorEvent::Blockchain(BlockchainEvent::Extended(Block::Micro(
        micro_block(42, Some(vec![fork_proof(1, 400), fork_proof(2, 400)])),
    )));
    validator.poll(including, &snapshot(42));
    assert_eq!(validator.consensus_state().equivocation_proofs.len(), 2);
    let producer = validator.micro_producer().as_ref().expect("a micro producer");
    assert_eq!(producer.equivocation_proofs, vec![fork_proof(3, 400), fork_proof(4, 400)]);
}

#[test]
fn rebranch_reverts_the_old_and_applies_the_new_chain() {
    let mut validator = synced_validator(40);
    let p1 = fork_proof(1, 100);
    let p2 = fork_proof(2, 100);
    let a = || Block::Micro(micro_block(41, Some(vec![p1])));
    let b = || Block::Micro(micro_block(42, Some(vec![p2])));
    validator.poll(ValidatorEvent::Blockchain(BlockchainEvent::Extended(a())), &snapshot(41));
    validator.poll(ValidatorEvent::Blockchain(BlockchainEvent::Extended(b())), &snapshot(42));
    assert!(validator.consensus_state().equivocation_proofs.is_empty());
    let new_chain = vec![
        Block::Micro(MicroBlock {
            hash: hash(141),
            block_number: 41,
            body: Some(MicroBody { equivocation_proofs: vec![p1] }),
        }),
        Block::Micro(MicroBlock { hash: hash(142), block_number: 42, body: None }),
        Block::Micro(MicroBlock { hash: hash(143), block_number: 43, body: None }),
    ];
    let mut head = snapshot(43);
    head.head_hash = hash(143);
    let actions = validator.poll(
        ValidatorEvent::Blockchain(BlockchainEvent::Rebranched(vec![a(), b()], new_chain)),
        &head,
    );
    let pool = &validator.consensus_state().equivocation_proofs;
    assert_eq!(pool.get_equivocation_proofs_for_block(usize::MAX), vec![p2]);
    assert!(matches!(
        &actions[0],
        Action::UpdateMempool { adopted, reverted }
            if adopted == &vec![hash(141), hash(142), hash(143)]
                && reverted == &vec![hash(41), hash(42)]
    ));
    assert!(matches!(actions[1], Action::ResetProducer));
    let producer = validator.micro_producer().as_ref().expect("a micro producer");
    assert_eq!(producer.block_number, 44);
    assert_eq!(producer.equivocation_proofs, vec![p2]);
}

fn inactive(block_number: u32, jailed_from: Option<u32>) -> Snapshot {
    let mut snapshot = snapshot(block_number);
    snapshot.staking_contract = Some(vec![
        StakedValidator { address: address(1), inactive_from: None, jailed_from: None },
        StakedValidator { address: own_address(), inactive_from: Some(90), jailed_from },
    ]);
    snapshot
}

#[test]
fn staking_state_is_read_from_the_contract() {
    let validator = validator(true, None);
    assert_eq!(validator.get_staking_state(&snapshot(1)), ValidatorStakingState::Active);
    assert_eq!(
        validator.get_staking_state(&inactive(1, Some(100))),
        ValidatorStakingState::Inactive(Some(100))
    );
    assert_eq!(
        validator.get_staking_state(&inactive(1, None)),
        ValidatorStakingState::Inactive(None)
    );
    let mut unknown = snapshot(1);
    unknown.staking_contract = None;
    assert_eq!(validator.get_staking_state(&unknown), ValidatorStakingState::Unknown);
    let mut none = snapshot(1);
    none.staking_contract = Some(vec![]);
    assert_eq!(validator.get_staking_state(&none), ValidatorStakingState::NoStake);
}

#[test]
fn auto_reactivate_after_jail() {
    assert_eq!(policy().block_after_jail(100), 200);
    let mut validator = synced_validator(198);
    let early = inactive(199, Some(100));
    assert!(!validator.reactivation_due(&early));
    assert!(validator.poll(ValidatorEvent::Staking(Some(hash(555))), &early).is_empty());
    assert!(validator.validator_state().is_none());

    let due = inactive(200, Some(100));
    assert!(validator.reactivation_due(&due));
    assert!(validator.poll(ValidatorEvent::Staking(None), &due).is_empty());
    let actions = validator.poll(ValidatorEvent::Staking(Some(hash(555))), &due);
    assert_eq!(actions.len(), 1);
    match &actions[0] {
        Action::SendTransaction(transaction) => {
            assert_eq!(transaction.fee, 0);
            assert_eq!(transaction.validity_start_height, 200);
            assert_eq!(transaction.network_id, 6);
            assert_eq!(transaction.validator_address, own_address());
            assert_eq!(transaction.fee_key, [21; 32]);
            assert_eq!(transaction.signing_key, [11; 32]);
            assert_eq!(transaction.hash, hash(555));
        }
        other => panic!("unexpected action {:?}", other),
    }
    assert_eq!(
        validator.validator_state(),
        Some(InactivityState {
            inactive_tx_hash: hash(555),
            inactive_tx_validity_window_start: 200
        })
    );
    for block in 201..205 {
        let later = inactive(block, Some(100));
        assert!(!validator.reactivation_due(&later));
        assert!(validator.poll(ValidatorEvent::Staking(Some(hash(556))), &later).is_empty());
    }
    assert_eq!(validator.validator_state().map(|s| s.inactive_tx_hash), Some(hash(555)));
}

#[test]
fn reactivation_resend_after_validity_window() {
    let mut validator = synced_validator(199);
    validator.poll(ValidatorEvent::Staking(Some(hash(555))), &inactive(200, Some(100)));
    assert!(validator.validator_state().is_some());

    let epoch = |number: u32| {
        ValidatorEvent::Blockchain(BlockchainEvent::EpochFinalized(Block::Macro(MacroBlock {
            hash: hash(number as u128),
            block_number: number,
            round: 0,
        })))
    };
    validator.poll(epoch(297), &inactive(297, Some(100)));
    assert!(validator.validator_state().is_some());
    let mut mined = inactive(396, Some(100));
    mined.transactions = vec![HistoricTransaction { hash: hash(555), block_number: 210 }];
    assert!(mined.tx_in_validity_window(&hash(555), 200));
    assert!(!mined.tx_in_validity_window(&hash(555), 211));
    assert!(!mined.tx_in_validity_window(&hash(554), 200));
    validator.poll(epoch(396), &mined);
    assert!(validator.validator_state().is_some());

    validator.poll(epoch(396), &inactive(396, Some(100)));
    assert!(validator.validator_state().is_none());
    let actions = validator.poll(ValidatorEvent::Staking(Some(hash(777))), &inactive(396, Some(100)));
    assert_eq!(actions.len(), 1);
    assert!(matches!(
        &actions[0],
        Action::SendTransaction(transaction)
            if transaction.hash == hash(777) && transaction.validity_start_height == 396
    ));
    assert_eq!(
        validator.validator_state(),
        Some(InactivityState {
            inactive_tx_hash: hash(777),
            inactive_tx_validity_window_start: 396
        })
    );
}

#[test]
fn reactivation_lapses_exactly_one_epoch_after_its_window_started() {
    let epoch = |number: u32| {
        ValidatorEvent::Blockchain(BlockchainEvent::EpochFinalized(Block::Macro(MacroBlock {
            hash: hash(number as u128),
            block_number: number,
            round: 0,
        })))
    };
    for (head, cleared) in [(298u32, false), (299, true), (300, true)] {
        let mut validator = synced_validator(199);
        validator.poll(ValidatorEvent::Staking(Some(hash(555))), &inactive(200, Some(100)));
        validator.poll(epoch(head), &inactive(head, Some(100)));
        assert_eq!(validator.validator_state().is_none(), cleared);
    }
}

#[test]
fn becoming_active_clears_the_reactivation() {
    let mut validator = synced_validator(10);
    let actions = validator.poll(ValidatorEvent::Staking(Some(hash(1))), &inactive(11, None));
    assert_eq!(actions.len(), 1);
    assert!(validator.validator_state().is_some());
    assert!(validator.poll(ValidatorEvent::Staking(Some(hash(2))), &snapshot(12)).is_empty());
    assert!(validator.validator_state().is_none());
}

#[test]
fn no_reactivation_without_the_flag_or_without_synchronisation() {
    let mut manual = validator(false, None);
    manual.poll(ValidatorEvent::Consensus, &snapshot(10));
    assert!(!manual.reactivation_due(&inactive(11, None)));
    assert!(manual.poll(ValidatorEvent::Staking(Some(hash(1))), &inactive(11, None)).is_empty());
    manual.set_automatic_reactivate(true);
    assert!(manual.reactivation_due(&inactive(11, None)));
    assert!(manual.proxy().automatic_reactivate);

    let mut idle = validator(true, None);
    let mut syncing = inactive(11, None);
    syncing.consensus_established = false;
    assert!(!idle.reactivation_due(&syncing));
    assert!(idle.poll(ValidatorEvent::Staking(Some(hash(1))), &syncing).is_empty());
    let mut unknown = snapshot(11);
    unknown.staking_contract = None;
    let mut synced = synced_validator(10);
    assert!(synced.poll(ValidatorEvent::Staking(Some(hash(1))), &unknown).is_empty());
}

#[test]
fn dht_record_is_published_when_the_table_is_ready() {
    let mut validator = validator(true, None);
    let actions = validator.poll(ValidatorEvent::Network(NetworkEvent::DhtReady), &snapshot(1));
    assert_eq!(actions.len(), 1);
    let pair = KeyPair::from_secret(&secret(9));
    assert!(matches!(
        &actions[0],
        Action::PublishDhtRecord { public_key, secret_key }
            if public_key.same_as(&pair.public_key) && secret_key.same_as(&pair.secret_key)
    ));
    for event in [NetworkEvent::PeerJoined, NetworkEvent::PeerLeft] {
        assert!(validator.poll(ValidatorEvent::Network(event), &snapshot(1)).is_empty());
    }
}

#[test]
fn epoch_start_reads_the_new_slot_band() {
    let mut validator = synced_validator(40);
    let mut moved = snapshot(98);
    moved.validators = elected(2);
    let finalized = ValidatorEvent::Blockchain(BlockchainEvent::EpochFinalized(Block::Macro(
        MacroBlock { hash: hash(98), block_number: 98, round: 0 },
    )));
    let actions = validator.poll(finalized, &moved);
    assert_eq!(validator.slot_band(), Some(2));
    assert!(matches!(actions[0], Action::SetValidatorId(Some(2))));
    assert!(matches!(&actions[1], Action::SetValidators(keys) if keys.len() == 8));
    assert!(matches!(&actions[2], Action::UpdateMempool { .. }));
    assert!(matches!(actions[3], Action::ResetProducer));
    assert_eq!(actions.len(), 4);
    let producer = validator.macro_producer().as_ref().expect("99 is a macro height");
    assert_eq!((producer.block_number, producer.validator_slot_band), (99, 2));
    assert_eq!(moved.get_slot_band_by_address(&own_address()), Some(2));
    assert_eq!(moved.get_slot_band_by_address(&address(77)), None);
}

#[test]
fn finalized_block_picks_up_a_change_of_synchronisation() {
    let mut validator = validator(true, None);
    let finalized = ValidatorEvent::Blockchain(BlockchainEvent::Finalized(Block::Macro(
        MacroBlock { hash: hash(33), block_number: 33, round: 0 },
    )));
    let actions = validator.poll(finalized, &snapshot(33));
    assert!(validator.is_synced());
    assert!(matches!(actions[0], Action::ResetProducer));
    assert!(matches!(actions[1], Action::SetValidatorId(Some(5))));
    assert!(matches!(actions[3], Action::StartMempool));
    assert!(matches!(actions[4], Action::ResetProducer));
    assert_eq!(validator.micro_producer().as_ref().map(|p| p.block_number), Some(34));
}

#[test]
fn phases_come_in_their_fixed_order() {
    let mut order = vec![PollPhase::first()];
    while let Some(next) = order.last().expect("not empty").next() {
        order.push(next);
    }
    assert_eq!(
        order,
        vec![
            PollPhase::Consensus,
            PollPhase::Blockchain,
            PollPhase::Fork,
            PollPhase::Producers,
            PollPhase::Staking,
            PollPhase::Network
        ]
    );
    assert_eq!(ValidatorEvent::ConsensusClosed.phase(), PollPhase::Consensus);
    assert_eq!(ValidatorEvent::Staking(None).phase(), PollPhase::Staking);
    assert_eq!(ValidatorEvent::Network(NetworkEvent::DhtReady).phase(), PollPhase::Network);
    assert_eq!(extended(1).phase(), PollPhase::Blockchain);
}

#[test]
fn snapshot_knows_when_it_is_usable() {
    assert!(snapshot(5).is_valid());
    assert!(!snapshot(u32::MAX).is_valid());
    assert_eq!(snapshot(5).voting_keys().len(), 8);
}
