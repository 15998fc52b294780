//! The state of the voting round for the macro block being produced. It is
//! what a validator must remember across a restart in order never to
//! vote against what it locked on.

use crate::contribution::{ContributionMap, TendermintContribution};
use crate::hash::Blake2sHash;
use crate::vote::Step;
use vstd::prelude::*;

verus! {

/// Name of the table that holds the persisted round state.
pub const MACRO_STATE_DB_NAME: &'static str = "ValidatorState";

/// Key of the one record in that table.
pub const MACRO_STATE_KEY: &'static str = "validatorState";

/// The round state of the finality protocol at one height.
#[derive(Debug)]
pub struct MacroState {
    /// The height of the macro block being decided.
    pub block_number: u32,
    /// The current round.
    pub round: u32,
    /// The current step of the round.
    pub step: Step,
    /// The round and value that the validator is locked on, if any.
    pub locked: Option<(u32, Blake2sHash)>,
    /// The latest round and value that the validator saw become valid, if any.
    pub valid: Option<(u32, Blake2sHash)>,
    /// The votes gathered so far, for each proposal hash.
    pub contributions: TendermintContribution,
}

/// The mathematical content of a round state.
pub ghost struct MacroStateView {
    pub block_number: u32,
    pub round: u32,
    pub step: Step,
    pub locked: Option<(u32, Blake2sHash)>,
    pub valid: Option<(u32, Blake2sHash)>,
    pub contributions: ContributionMap,
}

impl View for MacroState {
    type V = MacroStateView;

    open spec fn view(&self) -> MacroStateView {
        MacroStateView {
            block_number: self.block_number,
            round: self.round,
            step: self.step,
            locked: self.locked,
            valid: self.valid,
            contributions: self.contributions@,
        }
    }
}

impl Clone for MacroState {
    fn clone(&self) -> (copy: MacroState)
        ensures
            copy@ == self@,
            copy.wf() == self.wf(),
    {
        MacroState {
            block_number: self.block_number,
            round: self.round,
            step: self.step,
            locked: self.locked,
            valid: self.valid,
            contributions: self.contributions.clone(),
        }
    }
}

impl MacroState {
    /// A round state is well-formed when its contributions are.
    pub open spec fn wf(&self) -> bool {
        self.contributions.wf()
    }

    /// The state at the start of the first round at a height.
    pub fn new(block_number: u32) -> (state: MacroState)
        ensures
            state.wf(),
            state@ == (MacroStateView {
                block_number,
                round: 0,
                step: Step::Propose,
                locked: None,
                valid: None,
                contributions: Map::empty(),
            }),
    {
        MacroState {
            block_number,
            round: 0,
            step: Step::Propose,
            locked: None,
            valid: None,
            contributions: TendermintContribution::new(),
        }
    }
}

} // verus!
