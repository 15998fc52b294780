//! Validator runtime logic for a proof-of-stake chain with Tendermint-style
//! finality over a pipeline of micro and macro blocks.
//!
//! The heart of the crate is the [`validator::Validator`]: a state machine
//! that is told what happened in the node and answers with the effects to
//! carry out. What it does is defined twice: as mathematical functions in
//! [`transitions`], and as the code in [`validator`] that is proved to
//! compute them. [`laws`] holds what follows for every run.
//!
//! Around it stand the data that it works with: the pool of equivocation
//! proofs ([`jail`]), the contributions that validators exchange while
//! they aggregate votes ([`contribution`], [`multisig`], [`vote`]), the
//! buffer of gossiped proposals ([`proposal_buffer`]), the round state
//! that survives a restart ([`macro_state`]), and the reading of the node
//! that every decision starts from ([`snapshot`]).
//!
//! The remaining modules are building blocks: keys and signatures
//! ([`bls`], [`keypair`], [`es256`]), digests and addresses ([`hash`]),
//! sets of slots ([`bitset`]), chain parameters ([`policy`]), database
//! records ([`database_value`]), the arrangement of bits for proof
//! circuits ([`circuit_bits`]) and what a client is told about peers
//! ([`peer_info`]).

pub mod arrays;
pub mod hash;
pub mod policy;
pub mod bitset;
pub mod bls;
pub mod keypair;
pub mod block;
pub mod jail;
pub mod vote;
pub mod multisig;
pub mod contribution;
pub mod proposal_buffer;
pub mod macro_state;
pub mod snapshot;
pub mod events;
pub mod state;
pub mod transitions;
pub mod validator;
pub mod laws;
pub mod database_value;
pub mod circuit_bits;
pub mod es256;
pub mod peer_info;
