//! A bounded buffer between the gossip handler, which receives proposals
//! for any height, and the producer of macro blocks, which takes the
//! proposals for one height in the order in which they arrived.

use crate::hash::Blake2sHash;
use vstd::prelude::*;

verus! {

/// The identifier under which the gossip layer delivered a message.
#[derive(Clone, Copy, Debug, PartialEq, Eq, Structural)]
pub struct PubsubId(pub u64);

/// A proposal for a macro block.
#[derive(Clone, Copy, Debug, PartialEq, Eq, Structural)]
pub struct Proposal {
    /// The height of the proposed block.
    pub block_number: u32,
    /// The round in which it is proposed.
    pub round: u32,
    /// The round in which the proposer saw it become valid, if any.
    pub valid_round: Option<u32>,
    /// The hash of the proposal's content.
    pub hash: Blake2sHash,
    /// The slot of the proposer.
    pub signer: u16,
}

/// A proposal with the gossip identifier that it came with. A proposal
/// that was made locally or replayed has none.
#[derive(Clone, Copy, Debug, PartialEq, Eq, Structural)]
pub struct GossipedProposal {
    pub proposal: Proposal,
    pub id: Option<PubsubId>,
}

/// What became of a proposal that was handed to the buffer.
#[derive(Clone, Copy, Debug, PartialEq, Eq, Structural)]
pub enum SendOutcome {
    /// The proposal waits in the buffer.
    Buffered,
    /// A proposal with the same content already waits; the earlier one stays.
    Duplicate,
    /// The buffer is full; the sender has to wait.
    Full,
}

/// Whether one of the entries has the content hash.
pub open spec fn has_content(entries: Seq<GossipedProposal>, hash: Blake2sHash) -> bool {
    exists|i: int| 0 <= i < entries.len() && (#[trigger] entries[i]).proposal.hash == hash
}

/// No two entries have the same content hash.
pub open spec fn distinct_content(entries: Seq<GossipedProposal>) -> bool {
    forall|i: int, j: int|
        0 <= i < j < entries.len() ==> (#[trigger] entries[i]).proposal.hash != (
        #[trigger] entries[j]).proposal.hash
}

/// The entries that are not stale at a height, in their order.
pub open spec fn without_stale(entries: Seq<GossipedProposal>, height: u32) -> Seq<
    GossipedProposal,
>
    decreases entries.len(),
{
    if entries.len() == 0 {
        entries
    } else if entries.last().proposal.block_number >= height {
        without_stale(entries.drop_last(), height).push(entries.last())
    } else {
        without_stale(entries.drop_last(), height)
    }
}

/// The index of the first entry for a height; the number of entries when
/// there is none.
pub open spec fn first_at(entries: Seq<GossipedProposal>, height: u32) -> int
    decreases entries.len(),
{
    if entries.len() == 0 {
        0
    } else if entries[0].proposal.block_number == height {
        0
    } else {
        1 + first_at(entries.drop_first(), height)
    }
}

/// An index before which no entry is for the height, and which is the
/// end or an entry for the height, is the first index for the height.
pub proof fn lemma_first_at(entries: Seq<GossipedProposal>, height: u32, k: int)
    requires
        0 <= k <= entries.len(),
        forall|j: int| 0 <= j < k ==> (#[trigger] entries[j]).proposal.block_number != height,
        k < entries.len() ==> entries[k].proposal.block_number == height,
    ensures
        first_at(entries, height) == k,
    decreases entries.len(),
{
    if entries.len() > 0 && k > 0 {
        let rest = entries.drop_first();
        assert(entries[0].proposal.block_number != height);
        assert forall|j: int| 0 <= j < k - 1 implies (#[trigger] rest[j]).proposal.block_number
            != height by {
            assert(rest[j] == entries[j + 1]);
        }
        lemma_first_at(rest, height, k - 1);
    }
}

/// Dropping stale entries keeps the others distinct and adds none.
pub proof fn lemma_without_stale(entries: Seq<GossipedProposal>, height: u32)
    requires
        distinct_content(entries),
    ensures
        distinct_content(without_stale(entries, height)),
        without_stale(entries, height).len() <= entries.len(),
        forall|hash: Blake2sHash|
            has_content(without_stale(entries, height), hash) ==> has_content(entries, hash),
        forall|i: int|
            0 <= i < without_stale(entries, height).len() ==> (#[trigger] without_stale(
                entries,
                height,
            )[i]).proposal.block_number >= height,
    decreases entries.len(),
{
    if entries.len() > 0 {
        let front = entries.drop_last();
        let last = entries.last();
        assert forall|i: int, j: int| 0 <= i < j < front.len() implies (
        #[trigger] front[i]).proposal.hash != (#[trigger] front[j]).proposal.hash by {
            assert(entries[i].proposal.hash != entries[j].proposal.hash);
        }
        lemma_without_stale(front, height);
        let kept = without_stale(front, height);
        let after = without_stale(entries, height);
        assert forall|hash: Blake2sHash| has_content(front, hash) implies has_content(
            entries,
            hash,
        ) by {
            let i = choose|i: int|
                0 <= i < front.len() && (#[trigger] front[i]).proposal.hash == hash;
            assert(entries[i].proposal.hash == hash);
        }
        if last.proposal.block_number >= height {
            assert(!has_content(front, last.proposal.hash)) by {
                if has_content(front, last.proposal.hash) {
                    let i = choose|i: int|
                        0 <= i < front.len() && (#[trigger] front[i]).proposal.hash
                            == last.proposal.hash;
                    assert(entries[i].proposal.hash != entries[entries.len() - 1].proposal.hash);
                }
            }
            assert forall|i: int, j: int| 0 <= i < j < after.len() implies (
            #[trigger] after[i]).proposal.hash != (#[trigger] after[j]).proposal.hash by {
                if j < kept.len() {
                    assert(kept[i].proposal.hash != kept[j].proposal.hash);
                } else {
                    assert(kept[i].proposal.hash == after[i].proposal.hash);
                    assert(has_content(kept, kept[i].proposal.hash));
                }
            }
            assert forall|hash: Blake2sHash| has_content(after, hash) implies has_content(
                entries,
                hash,
            ) by {
                let i = choose|i: int|
                    0 <= i < after.len() && (#[trigger] after[i]).proposal.hash == hash;
                if i < kept.len() {
                    assert(kept[i].proposal.hash == hash);
                    assert(has_content(kept, hash));
                } else {
                    assert(entries[entries.len() - 1].proposal.hash == hash);
                }
            }
        }
    }
}

/// The buffer of proposals that wait for the producer of macro blocks.
#[derive(Debug)]
pub struct ProposalBuffer {
    capacity: usize,
    entries: Vec<GossipedProposal>,
}

impl View for ProposalBuffer {
    type V = Seq<GossipedProposal>;

    /// The waiting proposals in the order in which they arrived.
    closed spec fn view(&self) -> Seq<GossipedProposal> {
        self.entries@
    }
}

impl ProposalBuffer {
    /// The number of proposals that the buffer can hold.
    pub closed spec fn spec_capacity(&self) -> nat {
        self.capacity as nat
    }

    /// The buffer's invariant: it holds no more than its capacity, and
    /// no content twice.
    pub open spec fn wf(&self) -> bool {
        &&& self@.len() <= self.spec_capacity()
        &&& distinct_content(self@)
    }

    /// An empty buffer for up to `capacity` proposals.
    pub fn new(capacity: usize) -> (buffer: ProposalBuffer)
        ensures
            buffer.wf(),
            buffer@ == Seq::<GossipedProposal>::empty(),
            buffer.spec_capacity() == capacity,
    {
        ProposalBuffer { capacity, entries: Vec::new() }
    }

    /// The number of proposals that the buffer can hold.
    pub fn capacity(&self) -> (capacity: usize)
        ensures
            capacity == self.spec_capacity(),
    {
        self.capacity
    }

    /// The number of waiting proposals.
    pub fn len(&self) -> (len: usize)
        ensures
            len == self@.len(),
    {
        self.entries.len()
    }

    /// Whether no proposal waits.
    pub fn is_empty(&self) -> (empty: bool)
        ensures
            empty == (self@.len() == 0),
    {
        self.entries.len() == 0
    }

    /// Hands a proposal to the buffer. A proposal whose content already
    /// waits is dropped, so that the earliest gossip identifier is kept; a
    /// full buffer takes nothing.
    pub fn send(&mut self, proposal: GossipedProposal) -> (outcome: SendOutcome)
        requires
            old(self).wf(),
        ensures
            final(self).wf(),
            final(self).spec_capacity() == old(self).spec_capacity(),
            outcome == (if has_content(old(self)@, proposal.proposal.hash) {
                SendOutcome::Duplicate
            } else if old(self)@.len() >= old(self).spec_capacity() {
                SendOutcome::Full
            } else {
                SendOutcome::Buffered
            }),
            final(self)@ == (if outcome == SendOutcome::Buffered {
                old(self)@.push(proposal)
            } else {
                old(self)@
            }),
    {
        let mut i: usize = 0;
        while i < self.entries.len()
            invariant
                *self == *old(self),
                self.wf(),
                i <= self.entries@.len(),
                forall|j: int|
                    0 <= j < i ==> (#[trigger] self.entries@[j]).proposal.hash
                        != proposal.proposal.hash,
            decreases self.entries@.len() - i,
        {
            if self.entries[i].proposal.hash == proposal.proposal.hash {
                return SendOutcome::Duplicate;
            }
            i += 1;
        }
        if self.entries.len() >= self.capacity {
            return SendOutcome::Full;
        }
        self.entries.push(proposal);
        SendOutcome::Buffered
    }

    /// Takes the next proposal for a height: proposals for lower heights
    /// are dropped for good, and of those that remain the earliest one for
    /// this height leaves the buffer. Proposals for later heights wait on.
    pub fn poll_next(&mut self, height: u32) -> (next: Option<GossipedProposal>)
        requires
            old(self).wf(),
        ensures
            final(self).wf(),
            final(self).spec_capacity() == old(self).spec_capacity(),
            ({
                let live = without_stale(old(self)@, height);
                let k = first_at(live, height);
                if k < live.len() {
                    next == Some(live[k]) && final(self)@ == live.remove(k)
                } else {
                    next is None && final(self)@ == live
                }
            }),
    {
        let mut live: Vec<GossipedProposal> = Vec::new();
        let mut i: usize = 0;
        while i < self.entries.len()
            invariant
                *self == *old(self),
                self.wf(),
                i <= self.entries@.len(),
                live@ == without_stale(self.entries@.take(i as int), height),
            decreases self.entries@.len() - i,
        {
            proof {
                assert(self.entries@.take(i + 1).drop_last() =~= self.entries@.take(i as int));
            }
            if self.entries[i].proposal.block_number >= height {
                live.push(self.entries[i]);
            }
            i += 1;
        }
        proof {
            assert(self.entries@.take(i as int) =~= self.entries@);
            lemma_without_stale(self.entries@, height);
        }
        let mut k: usize = 0;
        while k < live.len() && live[k].proposal.block_number != height
            invariant
                k <= live@.len(),
                forall|j: int|
                    0 <= j < k ==> (#[trigger] live@[j]).proposal.block_number != height,
            decreases live@.len() - k,
        {
            k += 1;
        }
        proof {
            lemma_first_at(live@, height, k as int);
        }
        let next = if k < live.len() {
            let ghost before = live@;
            let taken = live.remove(k);
            proof {
                assert forall|x: int, y: int| 0 <= x < y < live@.len() implies (
                #[trigger] live@[x]).proposal.hash != (#[trigger] live@[y]).proposal.hash by {
                    let a = if x < k { x } else { x + 1 };
                    let b = if y < k { y } else { y + 1 };
                    assert(before[a].proposal.hash != before[b].proposal.hash);
                }
            }
            Some(taken)
        } else {
            None
        };
        self.entries = live;
        next
    }
}

} // verus!
