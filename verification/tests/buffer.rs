use nimiq_validator::hash::Blake2sHash;
use nimiq_validator::proposal_buffer::{
    GossipedProposal, Proposal, ProposalBuffer, PubsubId, SendOutcome,
};

fn gossiped(block_number: u32, round: u32, content: u128, id: u64) -> GossipedProposal {
    GossipedProposal {
        proposal: Proposal {
            block_number,
            round,
            valid_round: None,
            hash: Blake2sHash { hi: 0, lo: content },
            signer: 1,
        },
        id: Some(PubsubId(id)),
    }
}

#[test]
fn buffer_yields_proposals_of_a_height_in_arrival_order() {
    let mut buffer = ProposalBuffer::new(8);
    assert!(buffer.is_empty());
    assert_eq!(buffer.capacity(), 8);
    assert_eq!(buffer.send(gossiped(66, 1, 10, 1)), SendOutcome::Buffered);
    assert_eq!(buffer.send(gossiped(99, 0, 11, 2)), SendOutcome::Buffered);
    assert_eq!(buffer.send(gossiped(66, 0, 12, 3)), SendOutcome::Buffered);
    assert_eq!(buffer.len(), 3);
    assert_eq!(buffer.poll_next(66), Some(gossiped(66, 1, 10, 1)));
    assert_eq!(buffer.poll_next(66), Some(gossiped(66, 0, 12, 3)));
    assert_eq!(buffer.poll_next(66), None);
    assert_eq!(buffer.len(), 1);
    assert_eq!(buffer.poll_next(99), Some(gossiped(99, 0, 11, 2)));
    assert!(buffer.is_empty());
}

#[test]
fn stale_proposals_are_dropped() {
    let mut buffer = ProposalBuffer::new(8);
    buffer.send(gossiped(33, 0, 1, 1));
    buffer.send(gossiped(99, 0, 2, 2));
    buffer.send(gossiped(66, 0, 3, 3));
    buffer.send(gossiped(33, 1, 4, 4));
    assert_eq!(buffer.poll_next(66), Some(gossiped(66, 0, 3, 3)));
    assert_eq!(buffer.len(), 1);
    assert_eq!(buffer.poll_next(33), None);
    assert_eq!(buffer.len(), 1);
    assert_eq!(buffer.poll_next(100), None);
    assert!(buffer.is_empty());
}

#[test]
fn duplicates_keep_the_earliest_gossip_id() {
    let mut buffer = ProposalBuffer::new(8);
    assert_eq!(buffer.send(gossiped(66, 0, 5, 1)), SendOutcome::Buffered);
    assert_eq!(buffer.send(gossiped(66, 0, 5, 2)), SendOutcome::Duplicate);
    assert_eq!(buffer.len(), 1);
    assert_eq!(buffer.poll_next(66).and_then(|p| p.id), Some(PubsubId(1)));
    assert_eq!(buffer.send(gossiped(66, 0, 5, 3)), SendOutcome::Buffered);
}

#[test]
fn full_buffer_pushes_back() {
    let mut buffer = ProposalBuffer::new(2);
    assert_eq!(buffer.send(gossiped(66, 0, 1, 1)), SendOutcome::Buffered);
    assert_eq!(buffer.send(gossiped(66, 1, 2, 2)), SendOutcome::Buffered);
    assert_eq!(buffer.send(gossiped(66, 2, 3, 3)), SendOutcome::Full);
    assert_eq!(buffer.send(gossiped(66, 1, 2, 9)), SendOutcome::Duplicate);
    assert_eq!(buffer.len(), 2);
    buffer.poll_next(66);
    assert_eq!(buffer.send(gossiped(66, 2, 3, 3)), SendOutcome::Buffered);
    let mut none = ProposalBuffer::new(0);
    assert_eq!(none.send(gossiped(1, 0, 1, 1)), SendOutcome::Full);
}
