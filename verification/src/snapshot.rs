//! What the validator reads of the node it runs in: the head of the chain,
//! the validators of the current epoch, the staking contract and the part
//! of the history that its decisions depend on.

use crate::bls::PublicKey;
use crate::hash::{Address, Blake2bHash};
use crate::jail::EquivocationLocator;
use vstd::prelude::*;

verus! {

/// Largest number of validators that an epoch can have.
pub const MAX_VALIDATORS: usize = 65535;

/// A seed of the randomness beacon, as carried in a block header.
#[derive(Clone, Copy, Debug)]
pub struct VrfSeed {
    pub bytes: [u8; 96],
}

/// A validator that was elected for the current epoch.
#[derive(Clone, Copy, Debug)]
pub struct ElectedValidator {
    pub address: Address,
    pub voting_key: PublicKey,
}

/// A validator as the staking contract records it.
#[derive(Clone, Copy, Debug, PartialEq, Eq, Structural)]
pub struct StakedValidator {
    pub address: Address,
    /// The height from which the validator is inactive, if it is.
    pub inactive_from: Option<u32>,
    /// The height at which the validator was jailed, if it was.
    pub jailed_from: Option<u32>,
}

/// A transaction that the history holds, with the height of its block.
#[derive(Clone, Copy, Debug, PartialEq, Eq, Structural)]
pub struct HistoricTransaction {
    pub hash: Blake2bHash,
    pub block_number: u32,
}

/// What the staking contract says of a validator.
#[derive(Clone, Copy, Debug, PartialEq, Eq, Structural)]
pub enum ValidatorStakingState {
    /// The validator is staked and active.
    Active,
    /// The validator is inactive; jailed from the given height, if jailed.
    Inactive(Option<u32>),
    /// The contract knows no validator at the address.
    NoStake,
    /// The contract is not completely known yet.
    Unknown,
}

/// The index of the first validator with the address, if any.
pub open spec fn slot_band_in(validators: Seq<ElectedValidator>, address: Address) -> Option<u16>
    decreases validators.len(),
{
    if validators.len() == 0 {
        None
    } else {
        match slot_band_in(validators.drop_last(), address) {
            Some(band) => Some(band),
            None => if validators.last().address == address && validators.len() <= 65536 {
                Some((validators.len() - 1) as u16)
            } else {
                None
            },
        }
    }
}

/// What the contract says of the validator at an address: the first
/// record with the address decides.
pub open spec fn staking_state_in(validators: Seq<StakedValidator>, address: Address) -> ValidatorStakingState
    decreases validators.len(),
{
    if validators.len() == 0 {
        ValidatorStakingState::NoStake
    } else if validators[0].address == address {
        match validators[0].inactive_from {
            Some(_) => ValidatorStakingState::Inactive(validators[0].jailed_from),
            None => ValidatorStakingState::Active,
        }
    } else {
        staking_state_in(validators.drop_first(), address)
    }
}

/// Whether the transactions hold one with the hash at or after a height.
pub open spec fn tx_in_window(
    transactions: Seq<HistoricTransaction>,
    hash: Blake2bHash,
    window_start: u32,
) -> bool {
    exists|i: int|
        0 <= i < transactions.len() && (#[trigger] transactions[i]).hash == hash
            && transactions[i].block_number >= window_start
}

/// The voting keys of validators, in their order.
pub open spec fn voting_keys_of(validators: Seq<ElectedValidator>) -> Seq<PublicKey> {
    Seq::new(validators.len(), |i: int| validators[i].voting_key)
}

/// A consistent reading of the node's state, taken under the chain's read
/// lock and handed to the validator with each event.
#[derive(Debug)]
pub struct Snapshot {
    /// Whether the consensus layer reports that consensus is established.
    pub consensus_established: bool,
    /// Whether the chain can enforce the transaction validity window.
    pub can_enforce_validity_window: bool,
    /// The hash of the head block.
    pub head_hash: Blake2bHash,
    /// The height of the head block.
    pub block_number: u32,
    /// The network that the chain belongs to.
    pub network_id: u8,
    /// The seed in the header of the head block.
    pub head_seed: VrfSeed,
    /// The validators of the current epoch; a validator's slot band is
    /// its index.
    pub validators: Vec<ElectedValidator>,
    /// The validators in the staking contract; `None` while the contract
    /// is not completely known.
    pub staking_contract: Option<Vec<StakedValidator>>,
    /// The transactions of the history that matter to the validator.
    pub transactions: Vec<HistoricTransaction>,
    /// The equivocations that the history already punished.
    pub punished: Vec<EquivocationLocator>,
}

impl Snapshot {
    /// A snapshot is usable when another block fits on the head and the
    /// validators can be numbered by slot bands.
    pub open spec fn wf(&self) -> bool {
        &&& self.block_number < u32::MAX
        &&& self.validators@.len() <= MAX_VALIDATORS
    }

    /// Whether the snapshot is usable.
    pub fn is_valid(&self) -> (valid: bool)
        ensures
            valid == self.wf(),
    {
        self.block_number < u32::MAX && self.validators.len() <= MAX_VALIDATORS
    }

    /// The height of the block after the head.
    pub open spec fn spec_next_block_number(&self) -> u32 {
        (self.block_number + 1) as u32
    }

    /// The slot band of the validator at an address in the current epoch.
    pub open spec fn spec_slot_band(&self, address: Address) -> Option<u16> {
        slot_band_in(self.validators@, address)
    }

    /// What the staking contract says of the validator at an address.
    pub open spec fn spec_staking_state(&self, address: Address) -> ValidatorStakingState {
        match self.staking_contract {
            None => ValidatorStakingState::Unknown,
            Some(validators) => staking_state_in(validators@, address),
        }
    }

    /// Whether the history holds the transaction at or after a height.
    pub open spec fn spec_tx_in_validity_window(&self, hash: Blake2bHash, window_start: u32) -> bool {
        tx_in_window(self.transactions@, hash, window_start)
    }

    /// Whether the history already punished the equivocation.
    pub open spec fn spec_has_equivocation_proof(&self, locator: EquivocationLocator) -> bool {
        self.punished@.contains(locator)
    }

    /// The slot band of the validator at an address in the current epoch.
    pub fn get_slot_band_by_address(&self, address: &Address) -> (band: Option<u16>)
        requires
            self.wf(),
        ensures
            band == self.spec_slot_band(*address),
            band is Some ==> band->0 < self.validators@.len() && self.validators@[band->0 as int].address
                == *address,
    {
        let mut i: usize = 0;
        while i < self.validators.len()
            invariant
                self.wf(),
                i <= self.validators@.len(),
                slot_band_in(self.validators@.take(i as int), *address) is None,
            decreases self.validators@.len() - i,
        {
            proof {
                assert(self.validators@.take(i + 1).drop_last() =~= self.validators@.take(
                    i as int,
                ));
            }
            if self.validators[i].address == *address {
                proof {
                    lemma_slot_band_prefix(self.validators@, i + 1, *address);
                }
                return Some(i as u16);
            }
            i += 1;
        }
        proof {
            assert(self.validators@.take(i as int) =~= self.validators@);
        }
        None
    }

    /// What the staking contract says of the validator at an address.
    pub fn get_staking_state(&self, address: &Address) -> (state: ValidatorStakingState)
        ensures
            state == self.spec_staking_state(*address),
    {
        match &self.staking_contract {
            None => ValidatorStakingState::Unknown,
            Some(validators) => {
                let mut i: usize = 0;
                assert(validators@.skip(0) =~= validators@);
                while i < validators.len()
                    invariant
                        self.staking_contract == Some(*validators),
                        i <= validators@.len(),
                        staking_state_in(validators@, *address) == staking_state_in(
                            validators@.skip(i as int),
                            *address,
                        ),
                    decreases validators@.len() - i,
                {
                    proof {
                        assert(validators@.skip(i as int).drop_first() =~= validators@.skip(i + 1));
                        assert(validators@.skip(i as int)[0] == validators@[i as int]);
                    }
                    if validators[i].address == *address {
                        return match validators[i].inactive_from {
                            Some(_) => ValidatorStakingState::Inactive(validators[i].jailed_from),
                            None => ValidatorStakingState::Active,
                        };
                    }
                    i += 1;
                }
                ValidatorStakingState::NoStake
            },
        }
    }

    /// Whether the history holds the transaction at or after a height.
    pub fn tx_in_validity_window(&self, hash: &Blake2bHash, window_start: u32) -> (found: bool)
        ensures
            found == self.spec_tx_in_validity_window(*hash, window_start),
    {
        let mut i: usize = 0;
        while i < self.transactions.len()
            invariant
                i <= self.transactions@.len(),
                forall|j: int|
                    0 <= j < i ==> !((#[trigger] self.transactions@[j]).hash == *hash
                        && self.transactions@[j].block_number >= window_start),
            decreases self.transactions@.len() - i,
        {
            if self.transactions[i].hash == *hash && self.transactions[i].block_number
                >= window_start {
                return true;
            }
            i += 1;
        }
        false
    }

    /// Whether the history already punished the equivocation.
    pub fn has_equivocation_proof(&self, locator: &EquivocationLocator) -> (found: bool)
        ensures
            found == self.spec_has_equivocation_proof(*locator),
    {
        let mut i: usize = 0;
        while i < self.punished.len()
            invariant
                i <= self.punished@.len(),
                forall|j: int| 0 <= j < i ==> self.punished@[j] != *locator,
            decreases self.punished@.len() - i,
        {
            if self.punished[i] == *locator {
                return true;
            }
            i += 1;
        }
        false
    }

    /// The voting keys of the current validators, in the order of their
    /// slot bands.
    pub fn voting_keys(&self) -> (keys: Vec<PublicKey>)
        ensures
            keys@ == voting_keys_of(self.validators@),
    {
        let mut keys: Vec<PublicKey> = Vec::new();
        let mut i: usize = 0;
        while i < self.validators.len()
            invariant
                i <= self.validators@.len(),
                keys@ == voting_keys_of(self.validators@).take(i as int),
            decreases self.validators@.len() - i,
        {
            keys.push(self.validators[i].voting_key);
            assert(keys@ =~= voting_keys_of(self.validators@).take(i + 1));
            i += 1;
        }
        assert(voting_keys_of(self.validators@).take(i as int) =~= voting_keys_of(
            self.validators@,
        ));
        keys
    }
}

/// A validator that is first found at the end of a prefix has that slot
/// band in the whole list.
pub proof fn lemma_slot_band_prefix(validators: Seq<ElectedValidator>, n: int, address: Address)
    requires
        1 <= n <= validators.len(),
        n <= 65536,
        slot_band_in(validators.take(n - 1), address) is None,
        validators[n - 1].address == address,
    ensures
        slot_band_in(validators, address) == Some((n - 1) as u16),
    decreases validators.len() - n,
{
    assert(validators.take(n).drop_last() =~= validators.take(n - 1));
    assert(validators.take(n).last() == validators[n - 1]);
    assert(slot_band_in(validators.take(n), address) == Some((n - 1) as u16));
    lemma_slot_band_extends(validators, n, address);
}

/// A slot band found in a prefix is the slot band in the whole list.
pub proof fn lemma_slot_band_extends(validators: Seq<ElectedValidator>, n: int, address: Address)
    requires
        0 <= n <= validators.len(),
        slot_band_in(validators.take(n), address) is Some,
    ensures
        slot_band_in(validators, address) == slot_band_in(validators.take(n), address),
    decreases validators.len() - n,
{
    if n == validators.len() {
        assert(validators.take(n) =~= validators);
    } else {
        assert(validators.take(n + 1).drop_last() =~= validators.take(n));
        lemma_slot_band_extends(validators, n + 1, address);
    }
}

} // verus!
