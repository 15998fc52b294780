//! What the validator reads of a block: its height, its hash, its kind and
//! the equivocation proofs that a micro block carries in its body.

use crate::hash::Blake2bHash;
use crate::jail::EquivocationProof;
use crate::policy::BlockType;
use vstd::prelude::*;

verus! {

/// The body of a micro block.
#[derive(Debug)]
pub struct MicroBody {
    /// The equivocation proofs that the block includes.
    pub equivocation_proofs: Vec<EquivocationProof>,
}

/// A micro block: a header, and a body unless it was stripped.
#[derive(Debug)]
pub struct MicroBlock {
    pub hash: Blake2bHash,
    pub block_number: u32,
    pub body: Option<MicroBody>,
}

/// A macro block. It always travels whole.
#[derive(Clone, Copy, Debug, PartialEq, Eq, Structural)]
pub struct MacroBlock {
    pub hash: Blake2bHash,
    pub block_number: u32,
    /// The voting round in which the block was decided.
    pub round: u32,
}

/// A block of either kind.
#[derive(Debug)]
pub enum Block {
    Macro(MacroBlock),
    Micro(MicroBlock),
}

/// The mathematical content of a block.
pub ghost struct BlockView {
    pub kind: BlockType,
    pub hash: Blake2bHash,
    pub block_number: u32,
    /// The round of a macro block; zero for a micro block.
    pub round: u32,
    /// The proofs in the body of a micro block; `None` when there is no body.
    pub body: Option<Seq<EquivocationProof>>,
}

impl BlockView {
    /// The proofs that the block carries: those of its body, if it has one.
    pub open spec fn proofs(self) -> Seq<EquivocationProof> {
        match self.body {
            Some(proofs) => proofs,
            None => Seq::empty(),
        }
    }

    /// The same block without its body when it is a micro block; a macro
    /// block is left as it is.
    pub open spec fn header_only(self) -> BlockView {
        match self.kind {
            BlockType::Micro => BlockView { body: None, ..self },
            BlockType::Macro => self,
        }
    }
}

impl View for MicroBlock {
    type V = BlockView;

    open spec fn view(&self) -> BlockView {
        BlockView {
            kind: BlockType::Micro,
            hash: self.hash,
            block_number: self.block_number,
            round: 0,
            body: match self.body {
                Some(body) => Some(body.equivocation_proofs@),
                None => None,
            },
        }
    }
}

impl View for MacroBlock {
    type V = BlockView;

    open spec fn view(&self) -> BlockView {
        BlockView {
            kind: BlockType::Macro,
            hash: self.hash,
            block_number: self.block_number,
            round: self.round,
            body: None,
        }
    }
}

impl View for Block {
    type V = BlockView;

    open spec fn view(&self) -> BlockView {
        match self {
            Block::Macro(block) => block@,
            Block::Micro(block) => block@,
        }
    }
}

impl Clone for MicroBlock {
    fn clone(&self) -> (copy: MicroBlock)
        ensures
            copy@ == self@,
    {
        let body = match &self.body {
            Some(body) => {
                let proofs = body.equivocation_proofs.clone();
                assert(proofs@ =~= body.equivocation_proofs@);
                Some(MicroBody { equivocation_proofs: proofs })
            },
            None => None,
        };
        MicroBlock { hash: self.hash, block_number: self.block_number, body }
    }
}

impl Clone for Block {
    fn clone(&self) -> (copy: Block)
        ensures
            copy@ == self@,
    {
        match self {
            Block::Macro(block) => Block::Macro(*block),
            Block::Micro(block) => Block::Micro(block.clone()),
        }
    }
}

impl Block {
    /// The kind of the block.
    pub fn ty(&self) -> (kind: BlockType)
        ensures
            kind == self@.kind,
    {
        match self {
            Block::Macro(_) => BlockType::Macro,
            Block::Micro(_) => BlockType::Micro,
        }
    }

    /// The height of the block.
    pub fn block_number(&self) -> (block_number: u32)
        ensures
            block_number == self@.block_number,
    {
        match self {
            Block::Macro(block) => block.block_number,
            Block::Micro(block) => block.block_number,
        }
    }

    /// The hash of the block's header.
    pub fn hash(&self) -> (hash: Blake2bHash)
        ensures
            hash == self@.hash,
    {
        match self {
            Block::Macro(block) => block.hash,
            Block::Micro(block) => block.hash,
        }
    }

    /// The block as it travels on the header topic: a micro block loses
    /// its body, a macro block stays whole.
    pub fn into_header_only(self) -> (stripped: Block)
        ensures
            stripped@ == self@.header_only(),
    {
        match self {
            Block::Macro(block) => Block::Macro(block),
            Block::Micro(block) => Block::Micro(
                MicroBlock { hash: block.hash, block_number: block.block_number, body: None },
            ),
        }
    }
}

} // verus!
