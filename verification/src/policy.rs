//! Chain parameters that the validator's decisions depend on.

use vstd::prelude::*;

verus! {

/// Upper bound, in milliseconds, on the time a slot owner has to produce its block.
pub const BLOCK_PRODUCER_TIMEOUT: u64 = 4000;

/// Minimum time, in milliseconds, between the timestamps of two consecutive blocks.
pub const BLOCK_SEPARATION_TIME: u64 = 1000;

/// The two kinds of block.
#[derive(Clone, Copy, Debug, PartialEq, Eq, Structural)]
pub enum BlockType {
    /// A checkpoint or election block, finalized by a voting round.
    Macro,
    /// An ordinary block produced by the owner of a slot.
    Micro,
}

/// The parameters of a chain: how blocks group into batches and epochs,
/// and for how long a misbehaving validator stays jailed.
#[derive(Clone, Copy, Debug, PartialEq, Eq, Structural)]
pub struct Policy {
    /// Length of a batch in blocks; the last block of a batch is a macro block.
    pub blocks_per_batch: u32,
    /// Number of batches in an epoch.
    pub batches_per_epoch: u16,
    /// Number of epochs a validator stays jailed.
    pub jail_epochs: u32,
}

impl Policy {
    /// A policy is usable when batches are not empty.
    pub open spec fn wf(self) -> bool {
        self.blocks_per_batch >= 1
    }

    /// Length of an epoch in blocks.
    pub open spec fn spec_blocks_per_epoch(self) -> int {
        self.blocks_per_batch * self.batches_per_epoch
    }

    /// The kind of the block at a height: every last block of a batch is a macro block.
    pub open spec fn spec_block_type_of(self, block_number: int) -> BlockType {
        if block_number % (self.blocks_per_batch as int) == 0 {
            BlockType::Macro
        } else {
            BlockType::Micro
        }
    }

    /// First height at which a validator jailed at `jailed_from` may be reactivated.
    pub open spec fn spec_block_after_jail(self, jailed_from: int) -> int {
        jailed_from + self.spec_blocks_per_epoch() * self.jail_epochs + 1
    }

    /// Builds a policy; fails when a batch would be empty.
    pub fn new(blocks_per_batch: u32, batches_per_epoch: u16, jail_epochs: u32) -> (policy: Option<
        Policy,
    >)
        ensures
            policy is Some <==> blocks_per_batch >= 1,
            policy is Some ==> policy->0 == (Policy {
                blocks_per_batch,
                batches_per_epoch,
                jail_epochs,
            }),
    {
        if blocks_per_batch == 0 {
            None
        } else {
            Some(Policy { blocks_per_batch, batches_per_epoch, jail_epochs })
        }
    }

    /// Length of an epoch in blocks.
    pub fn blocks_per_epoch(&self) -> (blocks: u64)
        ensures
            blocks == self.spec_blocks_per_epoch(),
            blocks <= 0xffff_ffff * 0xffff,
    {
        let batch: u64 = self.blocks_per_batch as u64;
        let batches: u64 = self.batches_per_epoch as u64;
        assert(batch * batches <= 0xffff_ffff * 0xffff) by (nonlinear_arith)
            requires
                batch <= 0xffff_ffff,
                batches <= 0xffff,
        ;
        batch * batches
    }

    /// The kind of the block at `block_number`.
    pub fn block_type_of(&self, block_number: u32) -> (kind: BlockType)
        requires
            self.wf(),
        ensures
            kind == self.spec_block_type_of(block_number as int),
    {
        if block_number % self.blocks_per_batch == 0 {
            BlockType::Macro
        } else {
            BlockType::Micro
        }
    }

    /// First height at which a validator jailed at `jailed_from` may be reactivated.
    pub fn block_after_jail(&self, jailed_from: u32) -> (block_number: u128)
        ensures
            block_number == self.spec_block_after_jail(jailed_from as int),
    {
        let epoch: u128 = self.blocks_per_epoch() as u128;
        let epochs: u128 = self.jail_epochs as u128;
        assert(epoch * epochs <= 0xffff_ffff_ffff * 0xffff_ffff) by (nonlinear_arith)
            requires
                epoch <= 0xffff_ffff * 0xffff,
                epochs <= 0xffff_ffff,
        ;
        jailed_from as u128 + epoch * epochs + 1
    }
}

} // verus!
