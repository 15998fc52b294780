//! Votes of the finality protocol and their canonical byte form.

use crate::bls::SerializeContent;
use crate::hash::Blake2sHash;
use vstd::bytes::*;
use vstd::prelude::*;

verus! {

/// A step within a round of the finality protocol.
#[derive(Clone, Copy, Debug, PartialEq, Eq, Structural)]
pub enum Step {
    Propose,
    Prevote,
    Precommit,
}

impl Step {
    /// The byte that stands for the step in a serialized vote.
    pub open spec fn spec_tag(self) -> u8 {
        match self {
            Step::Propose => 0,
            Step::Prevote => 1,
            Step::Precommit => 2,
        }
    }

    /// The byte that stands for the step in a serialized vote.
    pub fn tag(&self) -> (tag: u8)
        ensures
            tag == self.spec_tag(),
    {
        match self {
            Step::Propose => 0,
            Step::Prevote => 1,
            Step::Precommit => 2,
        }
    }

    /// Reads a step from its byte.
    pub fn from_tag(tag: u8) -> (step: Option<Step>)
        ensures
            step is Some <==> tag <= 2,
            step is Some ==> step->0.spec_tag() == tag,
    {
        if tag == 0 {
            Some(Step::Propose)
        } else if tag == 1 {
            Some(Step::Prevote)
        } else if tag == 2 {
            Some(Step::Precommit)
        } else {
            None
        }
    }
}

/// The height, round and step that a vote belongs to.
#[derive(Clone, Copy, Debug, PartialEq, Eq, Structural)]
pub struct TendermintIdentifier {
    pub block_number: u32,
    pub round_number: u32,
    pub step: Step,
}

/// A vote: for a proposal, or for none.
#[derive(Clone, Copy, Debug, PartialEq, Eq, Structural)]
pub struct TendermintVote {
    /// The hash of the proposal voted for; `None` is the vote for no proposal.
    pub proposal_hash: Option<Blake2sHash>,
    pub id: TendermintIdentifier,
}

/// The bytes of an optional proposal hash: a zero byte for none, a one
/// byte and the 32 bytes of the hash otherwise.
pub open spec fn proposal_bytes(proposal_hash: Option<Blake2sHash>) -> Seq<u8> {
    match proposal_hash {
        None => seq![0u8],
        Some(hash) => seq![1u8] + hash.bytes(),
    }
}

/// The canonical byte form of a vote: the step, the round and the height
/// (both little-endian), then the proposal.
pub open spec fn vote_bytes(vote: TendermintVote) -> Seq<u8> {
    seq![vote.id.step.spec_tag()] + spec_u32_to_le_bytes(vote.id.round_number)
        + spec_u32_to_le_bytes(vote.id.block_number) + proposal_bytes(vote.proposal_hash)
}

impl SerializeContent for TendermintVote {
    open spec fn content(&self) -> Seq<u8> {
        vote_bytes(*self)
    }

    fn serialize_content(&self) -> (bytes: Vec<u8>) {
        let mut bytes: Vec<u8> = Vec::new();
        bytes.push(self.id.step.tag());
        let mut round = u32_to_le_bytes(self.id.round_number);
        bytes.append(&mut round);
        let mut height = u32_to_le_bytes(self.id.block_number);
        bytes.append(&mut height);
        match self.proposal_hash {
            None => {
                bytes.push(0u8);
            },
            Some(hash) => {
                bytes.push(1u8);
                let mut digest = hash.to_bytes();
                bytes.append(&mut digest);
            },
        }
        assert(bytes@ =~= vote_bytes(*self));
        bytes
    }
}

} // verus!
