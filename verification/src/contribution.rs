//! The unit that validators exchange while they aggregate the votes of one
//! step: for every proposal voted for, the signatures of the slots that
//! voted for it.

use crate::bitset::BitSet;
use crate::bls::{content_hash, signature_of, SecretKey, Signature};
use crate::hash::Blake2sHash;
use crate::multisig::{
    lemma_join_balanced, AggregateSignature, ContributionError, MultiSignature,
    MultiSignatureView,
};
use crate::vote::TendermintVote;
use vstd::multiset::Multiset;
use vstd::pervasive::unreached;
use vstd::prelude::*;

verus! {

/// What a contribution is: for every proposal hash (`None` for the vote
/// for no proposal) the multi-signature of the slots that voted for it.
pub type ContributionMap = Map<Option<Blake2sHash>, MultiSignatureView>;

/// One proposal hash with its multi-signature, as a pair of plain values.
pub type EntryView = (Option<Blake2sHash>, MultiSignatureView);

/// The slots that signed any entry of a contribution.
pub open spec fn contributors_of(contribution: ContributionMap) -> Set<nat> {
    Set::new(
        |slot: nat|
            exists|key: Option<Blake2sHash>|
                contribution.contains_key(key) && (#[trigger] contribution[key]).signers.contains(
                    slot,
                ),
    )
}

/// No slot signed two entries of the contribution.
pub open spec fn disjoint_signers(contribution: ContributionMap) -> bool {
    forall|a: Option<Blake2sHash>, b: Option<Blake2sHash>|
        contribution.contains_key(a) && contribution.contains_key(b) && a != b ==> (
        #[trigger] contribution[a]).signers.disjoint((#[trigger] contribution[b]).signers)
}

/// Every entry has one signature for every slot that signed it.
pub open spec fn balanced_entries(contribution: ContributionMap) -> bool {
    forall|key: Option<Blake2sHash>|
        contribution.contains_key(key) ==> (#[trigger] contribution[key]).balanced()
}

/// Two contributions overlap when a slot signed in both.
pub open spec fn overlap(a: ContributionMap, b: ContributionMap) -> Set<nat> {
    contributors_of(a).intersect(contributors_of(b))
}

/// Two contributions merged: an entry that only one of them has is taken
/// over, entries for the same proposal are joined.
pub open spec fn merged(a: ContributionMap, b: ContributionMap) -> ContributionMap {
    Map::new(
        |key: Option<Blake2sHash>| a.contains_key(key) || b.contains_key(key),
        |key: Option<Blake2sHash>|
            if a.contains_key(key) && b.contains_key(key) {
                a[key].join(b[key])
            } else if a.contains_key(key) {
                a[key]
            } else {
                b[key]
            },
    )
}

/// Whether one of the entries has the key.
pub open spec fn has_key(entries: Seq<EntryView>, key: Option<Blake2sHash>) -> bool {
    exists|i: int| 0 <= i < entries.len() && (#[trigger] entries[i]).0 == key
}

/// No two entries have the same key.
pub open spec fn distinct_keys(entries: Seq<EntryView>) -> bool {
    forall|i: int, j: int|
        0 <= i < j < entries.len() ==> (#[trigger] entries[i]).0 != (#[trigger] entries[j]).0
}

/// The entries as a map.
pub open spec fn entries_map(entries: Seq<EntryView>) -> ContributionMap {
    Map::new(
        |key: Option<Blake2sHash>| has_key(entries, key),
        |key: Option<Blake2sHash>|
            entries[choose|i: int| 0 <= i < entries.len() && (#[trigger] entries[i]).0 == key].1,
    )
}

/// Among entries with distinct keys each is found under its own key.
pub proof fn lemma_entry_at(entries: Seq<EntryView>, i: int)
    requires
        distinct_keys(entries),
        0 <= i < entries.len(),
    ensures
        has_key(entries, entries[i].0),
        entries_map(entries).contains_key(entries[i].0),
        entries_map(entries)[entries[i].0] == entries[i].1,
{
    let key = entries[i].0;
    let k = choose|k: int| 0 <= k < entries.len() && (#[trigger] entries[k]).0 == key;
    if k < i {
        assert(entries[k].0 != entries[i].0);
    } else if i < k {
        assert(entries[i].0 != entries[k].0);
    }
}

/// Appending an entry with a new key adds it to the map.
pub proof fn lemma_entries_push(entries: Seq<EntryView>, entry: EntryView)
    requires
        distinct_keys(entries),
        !has_key(entries, entry.0),
    ensures
        distinct_keys(entries.push(entry)),
        entries_map(entries.push(entry)) == entries_map(entries).insert(entry.0, entry.1),
{
    let after = entries.push(entry);
    let n = entries.len() as int;
    assert forall|i: int, j: int| 0 <= i < j < after.len() implies (#[trigger] after[i]).0 != (
    #[trigger] after[j]).0 by {
        if j < n {
            assert(entries[i].0 != entries[j].0);
        } else {
            assert(entries[i].0 != entry.0);
        }
    }
    assert forall|key: Option<Blake2sHash>|
        has_key(after, key) <==> (has_key(entries, key) || key == entry.0) by {
        if has_key(after, key) {
            let i = choose|i: int| 0 <= i < after.len() && (#[trigger] after[i]).0 == key;
            if i < n {
                assert(entries[i].0 == key);
            }
        }
        if has_key(entries, key) {
            let i = choose|i: int| 0 <= i < entries.len() && (#[trigger] entries[i]).0 == key;
            assert(after[i].0 == key);
        }
        if key == entry.0 {
            assert(after[n].0 == key);
        }
    }
    assert forall|key: Option<Blake2sHash>| has_key(after, key) implies entries_map(after)[key]
        == entries_map(entries).insert(entry.0, entry.1)[key] by {
        let i = choose|i: int| 0 <= i < after.len() && (#[trigger] after[i]).0 == key;
        lemma_entry_at(after, i);
        if i < n {
            lemma_entry_at(entries, i);
        }
    }
    assert(entries_map(after) =~= entries_map(entries).insert(entry.0, entry.1));
}

/// Replacing the value of an entry replaces it in the map.
pub proof fn lemma_entries_update(entries: Seq<EntryView>, k: int, value: MultiSignatureView)
    requires
        distinct_keys(entries),
        0 <= k < entries.len(),
    ensures
        distinct_keys(entries.update(k, (entries[k].0, value))),
        entries_map(entries.update(k, (entries[k].0, value))) == entries_map(entries).insert(
            entries[k].0,
            value,
        ),
{
    let after = entries.update(k, (entries[k].0, value));
    assert forall|i: int, j: int| 0 <= i < j < after.len() implies (#[trigger] after[i]).0 != (
    #[trigger] after[j]).0 by {
        assert(entries[i].0 != entries[j].0);
    }
    assert forall|key: Option<Blake2sHash>| has_key(after, key) <==> has_key(entries, key) by {
        if has_key(after, key) {
            let i = choose|i: int| 0 <= i < after.len() && (#[trigger] after[i]).0 == key;
            assert(entries[i].0 == key);
        }
        if has_key(entries, key) {
            let i = choose|i: int| 0 <= i < entries.len() && (#[trigger] entries[i]).0 == key;
            assert(after[i].0 == key);
        }
    }
    lemma_entry_at(entries, k);
    assert forall|key: Option<Blake2sHash>| has_key(after, key) implies entries_map(after)[key]
        == entries_map(entries).insert(entries[k].0, value)[key] by {
        let i = choose|i: int| 0 <= i < after.len() && (#[trigger] after[i]).0 == key;
        lemma_entry_at(after, i);
        lemma_entry_at(entries, i);
    }
    assert(entries_map(after) =~= entries_map(entries).insert(entries[k].0, value));
}

/// The contributors of a merged contribution are those of both parts.
pub proof fn lemma_merged_contributors(a: ContributionMap, b: ContributionMap)
    ensures
        contributors_of(merged(a, b)) == contributors_of(a).union(contributors_of(b)),
{
    let m = merged(a, b);
    assert forall|slot: nat|
        contributors_of(m).contains(slot) <==> (contributors_of(a).contains(slot)
            || contributors_of(b).contains(slot)) by {
        if contributors_of(m).contains(slot) {
            let key = choose|key: Option<Blake2sHash>|
                m.contains_key(key) && (#[trigger] m[key]).signers.contains(slot);
            if a.contains_key(key) && a[key].signers.contains(slot) {
                assert(contributors_of(a).contains(slot));
            } else {
                assert(b.contains_key(key) && b[key].signers.contains(slot));
                assert(contributors_of(b).contains(slot));
            }
        }
        if contributors_of(a).contains(slot) {
            let key = choose|key: Option<Blake2sHash>|
                a.contains_key(key) && (#[trigger] a[key]).signers.contains(slot);
            assert(m.contains_key(key) && m[key].signers.contains(slot));
        }
        if contributors_of(b).contains(slot) {
            let key = choose|key: Option<Blake2sHash>|
                b.contains_key(key) && (#[trigger] b[key]).signers.contains(slot);
            assert(m.contains_key(key) && m[key].signers.contains(slot));
        }
    }
    assert(contributors_of(m) =~= contributors_of(a).union(contributors_of(b)));
}

/// Merging two contributions that share no signer gives a contribution in
/// which still no slot signed two entries.
pub proof fn lemma_merged_disjoint(a: ContributionMap, b: ContributionMap)
    requires
        disjoint_signers(a),
        disjoint_signers(b),
        overlap(a, b) == Set::<nat>::empty(),
    ensures
        disjoint_signers(merged(a, b)),
{
    let m = merged(a, b);
    assert forall|x: Option<Blake2sHash>, y: Option<Blake2sHash>|
        m.contains_key(x) && m.contains_key(y) && x != y implies (#[trigger] m[x]).signers.disjoint(
        (#[trigger] m[y]).signers,
    ) by {
        assert forall|slot: nat| !(m[x].signers.contains(slot) && m[y].signers.contains(slot)) by {
            if m[x].signers.contains(slot) && m[y].signers.contains(slot) {
                let in_a_x = a.contains_key(x) && a[x].signers.contains(slot);
                let in_b_x = b.contains_key(x) && b[x].signers.contains(slot);
                let in_a_y = a.contains_key(y) && a[y].signers.contains(slot);
                let in_b_y = b.contains_key(y) && b[y].signers.contains(slot);
                assert(in_a_x || in_b_x);
                assert(in_a_y || in_b_y);
                if in_a_x || in_a_y {
                    assert(contributors_of(a).contains(slot));
                }
                if in_b_x || in_b_y {
                    assert(contributors_of(b).contains(slot));
                }
                if in_a_x && in_a_y {
                    assert(a[x].signers.disjoint(a[y].signers));
                } else if in_b_x && in_b_y {
                    assert(b[x].signers.disjoint(b[y].signers));
                } else {
                    assert(overlap(a, b).contains(slot));
                }
            }
        }
    }
}

/// Merging two contributions that share no signer keeps one signature
/// for every signer in every entry.
pub proof fn lemma_merged_balanced(a: ContributionMap, b: ContributionMap)
    requires
        balanced_entries(a),
        balanced_entries(b),
        overlap(a, b) == Set::<nat>::empty(),
    ensures
        balanced_entries(merged(a, b)),
{
    let m = merged(a, b);
    assert forall|key: Option<Blake2sHash>| m.contains_key(key) implies (#[trigger] m[key]).balanced() by {
        if a.contains_key(key) && b.contains_key(key) {
            assert(a[key].balanced() && b[key].balanced());
            assert(a[key].signers.disjoint(b[key].signers)) by {
                assert forall|slot: nat|
                    !(a[key].signers.contains(slot) && b[key].signers.contains(slot)) by {
                    if a[key].signers.contains(slot) && b[key].signers.contains(slot) {
                        assert(contributors_of(a).contains(slot));
                        assert(contributors_of(b).contains(slot));
                        assert(overlap(a, b).contains(slot));
                    }
                }
            }
            lemma_join_balanced(a[key], b[key]);
        } else if a.contains_key(key) {
            assert(a[key].balanced());
        } else {
            assert(b[key].balanced());
        }
    }
}

/// Merging does not depend on which contribution comes first.
pub proof fn lemma_merged_commutative(a: ContributionMap, b: ContributionMap)
    ensures
        merged(a, b) == merged(b, a),
{
    let x = merged(a, b);
    let y = merged(b, a);
    assert forall|key: Option<Blake2sHash>| x.contains_key(key) implies x[key] == y[key] by {
        if a.contains_key(key) && b.contains_key(key) {
            assert(a[key].signatures.add(b[key].signatures) =~= b[key].signatures.add(
                a[key].signatures,
            ));
            assert(a[key].signers.union(b[key].signers) =~= b[key].signers.union(a[key].signers));
        }
    }
    assert(x =~= y);
}

/// Merging does not depend on how three contributions are grouped.
pub proof fn lemma_merged_associative(a: ContributionMap, b: ContributionMap, c: ContributionMap)
    ensures
        merged(merged(a, b), c) == merged(a, merged(b, c)),
{
    let x = merged(merged(a, b), c);
    let y = merged(a, merged(b, c));
    assert forall|key: Option<Blake2sHash>| x.contains_key(key) implies x[key] == y[key] by {
        let in_a = a.contains_key(key);
        let in_b = b.contains_key(key);
        let in_c = c.contains_key(key);
        if in_a && in_b && in_c {
            assert(a[key].signatures.add(b[key].signatures).add(c[key].signatures)
                =~= a[key].signatures.add(b[key].signatures.add(c[key].signatures)));
            assert(a[key].signers.union(b[key].signers).union(c[key].signers)
                =~= a[key].signers.union(b[key].signers.union(c[key].signers)));
        }
    }
    assert(x =~= y);
}

/// The order of combining does not matter: for three contributions of
/// which no two share a signer, every order of combining them succeeds at
/// each step and gives the same signatures and signers for every proposal.
pub proof fn lemma_combine_order_irrelevant(
    a: ContributionMap,
    b: ContributionMap,
    c: ContributionMap,
)
    requires
        overlap(a, b) == Set::<nat>::empty(),
        overlap(b, c) == Set::<nat>::empty(),
        overlap(c, a) == Set::<nat>::empty(),
    ensures
        overlap(merged(a, b), c) == Set::<nat>::empty(),
        overlap(a, merged(b, c)) == Set::<nat>::empty(),
        overlap(merged(c, a), b) == Set::<nat>::empty(),
        merged(merged(a, b), c) == merged(a, merged(b, c)),
        merged(a, merged(b, c)) == merged(merged(c, a), b),
{
    lemma_merged_contributors(a, b);
    lemma_merged_contributors(b, c);
    lemma_merged_contributors(c, a);
    assert forall|slot: nat|
        !overlap(merged(a, b), c).contains(slot) && !overlap(a, merged(b, c)).contains(slot)
            && !overlap(merged(c, a), b).contains(slot) by {
        assert(!overlap(a, b).contains(slot));
        assert(!overlap(b, c).contains(slot));
        assert(!overlap(c, a).contains(slot));
    }
    assert(overlap(merged(a, b), c) =~= Set::<nat>::empty());
    assert(overlap(a, merged(b, c)) =~= Set::<nat>::empty());
    assert(overlap(merged(c, a), b) =~= Set::<nat>::empty());
    lemma_merged_associative(a, b, c);
    lemma_merged_associative(c, a, b);
    lemma_merged_commutative(c, merged(a, b));
}

/// The contribution that holds one entry.
pub open spec fn singleton(entry: EntryView) -> ContributionMap {
    Map::<Option<Blake2sHash>, MultiSignatureView>::empty().insert(entry.0, entry.1)
}

/// The entries combined one after the other, starting from nothing;
/// `None` when an entry shares a signer with those before it, or does not
/// have one signature for every signer.
pub open spec fn combined_all(entries: Seq<EntryView>) -> Option<ContributionMap>
    decreases entries.len(),
{
    if entries.len() == 0 {
        Some(Map::<Option<Blake2sHash>, MultiSignatureView>::empty())
    } else {
        match combined_all(entries.drop_last()) {
            Some(front) => if entries.last().1.balanced() && overlap(
                front,
                singleton(entries.last()),
            ) == Set::<nat>::empty() {
                Some(merged(front, singleton(entries.last())))
            } else {
                None
            },
            None => None,
        }
    }
}

/// Once a prefix of the entries cannot be combined, the whole cannot.
pub proof fn lemma_combined_all_fails(entries: Seq<EntryView>, n: int)
    requires
        0 <= n <= entries.len(),
        combined_all(entries.take(n)) is None,
    ensures
        combined_all(entries) is None,
    decreases entries.len() - n,
{
    if n == entries.len() {
        assert(entries.take(n) =~= entries);
    } else {
        assert(entries.take(n + 1).drop_last() =~= entries.take(n));
        lemma_combined_all_fails(entries, n + 1);
    }
}

/// Taking a contribution apart and combining its entries again gives the
/// contribution back: entries with distinct keys, of which no two share
/// a signer, combine to the map they stand for.
pub proof fn lemma_combined_all_entries(entries: Seq<EntryView>)
    requires
        distinct_keys(entries),
        disjoint_signers(entries_map(entries)),
        balanced_entries(entries_map(entries)),
    ensures
        combined_all(entries) == Some(entries_map(entries)),
    decreases entries.len(),
{
    if entries.len() == 0 {
        assert(entries_map(entries) =~= Map::<Option<Blake2sHash>, MultiSignatureView>::empty());
    } else {
        let front = entries.drop_last();
        let last = entries.last();
        let n = entries.len() - 1;
        assert(distinct_keys(front)) by {
            assert forall|i: int, j: int| 0 <= i < j < front.len() implies (#[trigger] front[i]).0
                != (#[trigger] front[j]).0 by {
                assert(entries[i].0 != entries[j].0);
            }
        }
        assert(!has_key(front, last.0)) by {
            if has_key(front, last.0) {
                let i = choose|i: int| 0 <= i < front.len() && (#[trigger] front[i]).0 == last.0;
                assert(entries[i].0 != entries[n].0);
            }
        }
        assert(entries =~= front.push(last));
        lemma_entries_push(front, last);
        let whole = entries_map(entries);
        let part = entries_map(front);
        assert(disjoint_signers(part)) by {
            assert forall|a: Option<Blake2sHash>, b: Option<Blake2sHash>|
                part.contains_key(a) && part.contains_key(b) && a != b implies (
            #[trigger] part[a]).signers.disjoint((#[trigger] part[b]).signers) by {
                assert(whole[a] == part[a] && whole[b] == part[b]);
                assert(whole[a].signers.disjoint(whole[b].signers));
            }
        }
        assert(balanced_entries(part)) by {
            assert forall|key: Option<Blake2sHash>| part.contains_key(key) implies (
            #[trigger] part[key]).balanced() by {
                assert(whole[key] == part[key]);
                assert(whole[key].balanced());
            }
        }
        assert(last.1.balanced()) by {
            assert(whole[last.0] == last.1);
            assert(whole[last.0].balanced());
        }
        lemma_combined_all_entries(front);
        assert(overlap(part, singleton(last)) =~= Set::<nat>::empty()) by {
            assert forall|slot: nat| !overlap(part, singleton(last)).contains(slot) by {
                if overlap(part, singleton(last)).contains(slot) {
                    let key = choose|key: Option<Blake2sHash>|
                        part.contains_key(key) && (#[trigger] part[key]).signers.contains(slot);
                    let other = choose|other: Option<Blake2sHash>|
                        singleton(last).contains_key(other) && (#[trigger] singleton(
                            last,
                        )[other]).signers.contains(slot);
                    assert(other == last.0);
                    assert(whole[key] == part[key] && whole[last.0] == last.1);
                    assert(whole[key].signers.disjoint(whole[last.0].signers));
                }
            }
        }
        assert(merged(part, singleton(last)) =~= part.insert(last.0, last.1));
    }
}

/// One proposal hash with its multi-signature.
#[derive(Debug)]
pub struct ContributionEntry {
    pub proposal_hash: Option<Blake2sHash>,
    pub multi_signature: MultiSignature,
}

impl View for ContributionEntry {
    type V = EntryView;

    open spec fn view(&self) -> EntryView {
        (self.proposal_hash, self.multi_signature@)
    }
}

impl Clone for ContributionEntry {
    fn clone(&self) -> (copy: ContributionEntry)
        ensures
            copy@ == self@,
    {
        ContributionEntry {
            proposal_hash: self.proposal_hash,
            multi_signature: self.multi_signature.clone(),
        }
    }
}

/// The views of a sequence of entries.
pub open spec fn entry_views(entries: Seq<ContributionEntry>) -> Seq<EntryView> {
    Seq::new(entries.len(), |i: int| entries[i]@)
}

/// A contribution to the aggregation of one step.
#[derive(Debug)]
pub struct TendermintContribution {
    contributions: Vec<ContributionEntry>,
}

impl View for TendermintContribution {
    type V = ContributionMap;

    closed spec fn view(&self) -> ContributionMap {
        entries_map(entry_views(self.contributions@))
    }
}

impl Clone for TendermintContribution {
    fn clone(&self) -> (copy: TendermintContribution)
        ensures
            copy@ == self@,
            copy.wf() == self.wf(),
    {
        let mut contributions: Vec<ContributionEntry> = Vec::new();
        let mut i: usize = 0;
        while i < self.contributions.len()
            invariant
                i <= self.contributions@.len(),
                entry_views(contributions@) == entry_views(self.contributions@).take(i as int),
            decreases self.contributions@.len() - i,
        {
            let ghost before = entry_views(contributions@);
            contributions.push(self.contributions[i].clone());
            assert(entry_views(contributions@) =~= before.push(self.contributions@[i as int]@));
            assert(entry_views(self.contributions@).take(i + 1) =~= before.push(
                self.contributions@[i as int]@,
            ));
            i += 1;
        }
        assert(entry_views(self.contributions@).take(i as int) =~= entry_views(
            self.contributions@,
        ));
        TendermintContribution { contributions }
    }
}

impl TendermintContribution {
    /// The invariant of a contribution: every proposal hash has one entry,
    /// no slot signed two entries, and every entry has one signature for
    /// every slot that signed it.
    pub closed spec fn wf(&self) -> bool {
        &&& distinct_keys(entry_views(self.contributions@))
        &&& disjoint_signers(self@)
        &&& balanced_entries(self@)
    }

    /// In a well-formed contribution no slot signed two entries, and every
    /// entry has one signature for every slot that signed it.
    pub proof fn lemma_wf(&self)
        requires
            self.wf(),
        ensures
            disjoint_signers(self@),
            balanced_entries(self@),
    {
    }

    /// The contribution that holds one vote: the slot's signature on the
    /// digest of the vote, filed under the proposal voted for.
    pub fn from_vote(vote: TendermintVote, secret_key: &SecretKey, validator_id: u16) -> (contribution:
        TendermintContribution)
        ensures
            contribution.wf(),
            contribution@ == Map::<Option<Blake2sHash>, MultiSignatureView>::empty().insert(
                vote.proposal_hash,
                MultiSignatureView {
                    signatures: Multiset::singleton(
                        signature_of(secret_key@, content_hash(&vote)),
                    ),
                    signers: Set::<nat>::empty().insert(validator_id as nat),
                },
            ),
    {
        let signed = secret_key.sign(&vote);
        let parts = [signed];
        let signature = AggregateSignature::from_signatures(vstd::array::array_as_slice(&parts));
        proof {
            broadcast use vstd::seq_lib::group_to_multiset_ensures;

            assert(parts@ =~= Seq::<Signature>::empty().push(signed));
            assert(Seq::<Signature>::empty().to_multiset() =~= Multiset::<Signature>::empty());
            assert(parts@.to_multiset() =~= Multiset::singleton(signed));
        }
        let mut signers = BitSet::new();
        signers.insert(validator_id as usize);
        assert(singleton(
            (
                vote.proposal_hash,
                MultiSignatureView { signatures: signature@, signers: signers@ },
            ),
        ) =~= Map::<Option<Blake2sHash>, MultiSignatureView>::empty().insert(
            vote.proposal_hash,
            MultiSignatureView { signatures: signature@, signers: signers@ },
        ));
        let multi_signature = MultiSignature::new(signature, signers);
        proof {
            broadcast use vstd::multiset::group_multiset_axioms;

            assert(signers@ =~= Set::<nat>::empty().insert(validator_id as nat));
            assert(multi_signature@.balanced());
        }
        match TendermintContribution::single(
            ContributionEntry { proposal_hash: vote.proposal_hash, multi_signature },
        ) {
            Some(contribution) => contribution,
            None => unreached(),
        }
    }

    /// The contribution that holds one entry; there is none when the entry
    /// does not have one signature for every slot that signed it.
    pub fn single(entry: ContributionEntry) -> (contribution: Option<TendermintContribution>)
        ensures
            contribution is Some <==> entry@.1.balanced(),
            contribution is Some ==> contribution->0.wf() && contribution->0@ == singleton(entry@),
    {
        if !entry.multi_signature.is_balanced() {
            return None;
        }
        let mut contributions: Vec<ContributionEntry> = Vec::new();
        let ghost before = entry_views(contributions@);
        let ghost added = entry@;
        contributions.push(entry);
        proof {
            assert(before =~= Seq::<EntryView>::empty());
            assert(entry_views(contributions@) =~= before.push(added));
            lemma_entries_push(before, added);
            assert(entries_map(before) =~= Map::<
                Option<Blake2sHash>,
                MultiSignatureView,
            >::empty());
            let map = entries_map(entry_views(contributions@));
            assert(map == singleton(added));
            assert(map.contains_key(added.0) && map[added.0] == added.1);
            assert(balanced_entries(map) == added.1.balanced());
        }
        Some(TendermintContribution { contributions })
    }

    /// The entries of the contribution, one for each proposal hash.
    pub fn entries(&self) -> (entries: Vec<ContributionEntry>)
        ensures
            entries_map(entry_views(entries@)) == self@,
            self.wf() ==> distinct_keys(entry_views(entries@)),
    {
        let copy = self.clone();
        copy.contributions
    }

    /// Combines entries one after the other into a contribution; fails
    /// when an entry shares a signer with those before it, or does not
    /// have one signature for every signer.
    pub fn from_entries(entries: &[ContributionEntry]) -> (contribution: Option<
        TendermintContribution,
    >)
        ensures
            contribution is Some <==> combined_all(entry_views(entries@)) is Some,
            contribution is Some ==> contribution->0.wf() && contribution->0@ == combined_all(
                entry_views(entries@),
            )->0,
    {
        let mut contribution = TendermintContribution::new();
        let mut i: usize = 0;
        let ghost views = entry_views(entries@);
        proof {
            assert(views.take(0) =~= Seq::<EntryView>::empty());
        }
        while i < entries.len()
            invariant
                i <= entries@.len(),
                views == entry_views(entries@),
                contribution.wf(),
                combined_all(views.take(i as int)) == Some(contribution@),
            decreases entries@.len() - i,
        {
            proof {
                assert(views.take(i + 1).drop_last() =~= views.take(i as int));
                assert(views.take(i + 1).last() == entries@[i as int]@);
            }
            let next = match TendermintContribution::single(entries[i].clone()) {
                Some(next) => next,
                None => {
                    proof {
                        lemma_combined_all_fails(views, i + 1);
                    }
                    return None;
                },
            };
            match contribution.combine(&next) {
                Ok(_) => {},
                Err(_) => {
                    proof {
                        lemma_combined_all_fails(views, i + 1);
                    }
                    return None;
                },
            }
            i += 1;
        }
        proof {
            assert(views.take(i as int) =~= views);
        }
        Some(contribution)
    }

    /// The contribution without any vote: it has no entry.
    pub fn new() -> (contribution: TendermintContribution)
        ensures
            contribution.wf(),
            contribution@ == Map::<Option<Blake2sHash>, MultiSignatureView>::empty(),
            contribution.spec_entries() == Seq::<ContributionEntry>::empty(),
    {
        let contribution = TendermintContribution { contributions: Vec::new() };
        assert(entry_views(contribution.contributions@) =~= Seq::<EntryView>::empty());
        assert(contribution@ =~= Map::<Option<Blake2sHash>, MultiSignatureView>::empty());
        contribution
    }

    /// The number of proposals that the contribution holds votes for.
    pub fn len(&self) -> (len: usize)
        ensures
            len == entry_views(self.spec_entries()).len(),
    {
        self.contributions.len()
    }

    /// The entries, one for each proposal hash.
    pub closed spec fn spec_entries(&self) -> Seq<ContributionEntry> {
        self.contributions@
    }

    /// The multi-signature for a proposal hash, if the contribution has one.
    pub fn get(&self, proposal_hash: &Option<Blake2sHash>) -> (found: Option<&MultiSignature>)
        requires
            self.wf(),
        ensures
            found is Some <==> self@.contains_key(*proposal_hash),
            found is Some ==> found->0@ == self@[*proposal_hash],
    {
        match self.find(proposal_hash) {
            Some(k) => {
                proof {
                    lemma_entry_at(entry_views(self.contributions@), k as int);
                }
                Some(&self.contributions[k].multi_signature)
            },
            None => None,
        }
    }

    /// The index of the entry for a proposal hash, if there is one.
    fn find(&self, proposal_hash: &Option<Blake2sHash>) -> (index: Option<usize>)
        ensures
            index is Some <==> has_key(entry_views(self.contributions@), *proposal_hash),
            index is Some ==> index->0 < self.contributions@.len()
                && self.contributions@[index->0 as int].proposal_hash == *proposal_hash,
    {
        let mut i: usize = 0;
        while i < self.contributions.len()
            invariant
                i <= self.contributions@.len(),
                forall|j: int|
                    0 <= j < i ==> (#[trigger] entry_views(self.contributions@)[j]).0
                        != *proposal_hash,
            decreases self.contributions@.len() - i,
        {
            if self.contributions[i].proposal_hash == *proposal_hash {
                assert(entry_views(self.contributions@)[i as int].0 == *proposal_hash);
                return Some(i);
            }
            i += 1;
        }
        None
    }

    /// Merges another contribution into this one. Contributions that share
    /// a signer are never merged: the slots that signed in both are
    /// returned and this contribution stays as it is.
    pub fn combine(&mut self, other_contribution: &TendermintContribution) -> (result: Result<
        (),
        ContributionError,
    >)
        requires
            old(self).wf(),
            other_contribution.wf(),
        ensures
            final(self).wf(),
            result is Err <==> overlap(old(self)@, other_contribution@) != Set::<nat>::empty(),
            match result {
                Ok(_) => final(self)@ == merged(old(self)@, other_contribution@),
                Err(ContributionError::Overlapping(mask)) => {
                    &&& mask@ == overlap(old(self)@, other_contribution@)
                    &&& *final(self) == *old(self)
                },
            },
    {
        let mine = self.contributors();
        let theirs = other_contribution.contributors();
        let common = mine.intersection(&theirs);
        if !common.is_empty() {
            return Err(ContributionError::Overlapping(common));
        }
        let ghost start = self@;
        let ghost others = entry_views(other_contribution.contributions@);
        let mut i: usize = 0;
        proof {
            assert(entries_map(others.take(0)) =~= Map::<
                Option<Blake2sHash>,
                MultiSignatureView,
            >::empty());
            assert(merged(start, entries_map(others.take(0))) =~= start);
        }
        while i < other_contribution.contributions.len()
            invariant
                i <= other_contribution.contributions@.len(),
                others == entry_views(other_contribution.contributions@),
                distinct_keys(others),
                distinct_keys(entry_views(self.contributions@)),
                self@ == merged(start, entries_map(others.take(i as int))),
            decreases other_contribution.contributions@.len() - i,
        {
            let entry = &other_contribution.contributions[i];
            let ghost views = entry_views(self.contributions@);
            let ghost prefix = others.take(i as int);
            let ghost key = entry.proposal_hash;
            proof {
                assert(others[i as int] == entry@);
                assert(distinct_keys(prefix)) by {
                    assert forall|x: int, y: int| 0 <= x < y < prefix.len() implies (
                    #[trigger] prefix[x]).0 != (#[trigger] prefix[y]).0 by {
                        assert(others[x].0 != others[y].0);
                    }
                }
                assert(!has_key(prefix, key)) by {
                    if has_key(prefix, key) {
                        let j = choose|j: int|
                            0 <= j < prefix.len() && (#[trigger] prefix[j]).0 == key;
                        assert(others[j].0 != others[i as int].0);
                    }
                }
                assert(others.take(i + 1) =~= prefix.push(entry@));
                lemma_entries_push(prefix, entry@);
            }
            match self.find(&entry.proposal_hash) {
                Some(k) => {
                    let mut joined = self.contributions.remove(k);
                    let ghost own = joined@;
                    joined.multi_signature.absorb(&entry.multi_signature);
                    self.contributions.insert(k, joined);
                    proof {
                        assert(entry_views(self.contributions@) =~= views.update(
                            k as int,
                            (views[k as int].0, own.1.join(entry@.1)),
                        ));
                        lemma_entries_update(views, k as int, own.1.join(entry@.1));
                        lemma_entry_at(views, k as int);
                        assert(self@ =~= merged(start, entries_map(others.take(i + 1))));
                    }
                },
                None => {
                    let copy = ContributionEntry {
                        proposal_hash: entry.proposal_hash,
                        multi_signature: entry.multi_signature.clone(),
                    };
                    self.contributions.push(copy);
                    proof {
                        let before = entries_map(views);
                        let next = entries_map(prefix).insert(key, entry@.1);
                        assert(!before.contains_key(key));
                        assert(!start.contains_key(key));
                        assert(entry_views(self.contributions@) =~= views.push(entry@));
                        lemma_entries_push(views, entry@);
                        assert(merged(start, next) =~= before.insert(key, entry@.1));
                    }
                },
            }
            i += 1;
        }
        proof {
            assert(others.take(i as int) =~= others);
            lemma_merged_disjoint(start, other_contribution@);
            lemma_merged_balanced(start, other_contribution@);
        }
        Ok(())
    }

    /// The slots that signed any entry.
    pub fn contributors(&self) -> (slots: BitSet)
        requires
            self.wf(),
        ensures
            slots@ == contributors_of(self@),
    {
        let mut slots = BitSet::new();
        let mut i: usize = 0;
        let ghost views = entry_views(self.contributions@);
        while i < self.contributions.len()
            invariant
                i <= self.contributions@.len(),
                views == entry_views(self.contributions@),
                forall|slot: nat|
                    slots@.contains(slot) <==> exists|j: int|
                        0 <= j < i && (#[trigger] views[j]).1.signers.contains(slot),
            decreases self.contributions@.len() - i,
        {
            let ghost before = slots@;
            slots = slots.union(&self.contributions[i].multi_signature.signers);
            proof {
                assert forall|slot: nat|
                    slots@.contains(slot) <==> exists|j: int|
                        0 <= j < i + 1 && (#[trigger] views[j]).1.signers.contains(slot) by {
                    if slots@.contains(slot) {
                        if before.contains(slot) {
                            let j = choose|j: int|
                                0 <= j < i && (#[trigger] views[j]).1.signers.contains(slot);
                            assert(0 <= j < i + 1 && views[j].1.signers.contains(slot));
                        } else {
                            assert(views[i as int].1.signers.contains(slot));
                        }
                    }
                    if exists|j: int|
                        0 <= j < i + 1 && (#[trigger] views[j]).1.signers.contains(slot) {
                        let j = choose|j: int|
                            0 <= j < i + 1 && (#[trigger] views[j]).1.signers.contains(slot);
                        if j < i {
                            assert(before.contains(slot));
                        }
                    }
                }
            }
            i += 1;
        }
        proof {
            assert forall|slot: nat| slots@.contains(slot) <==> contributors_of(self@).contains(
                slot,
            ) by {
                if slots@.contains(slot) {
                    let j = choose|j: int|
                        0 <= j < i && (#[trigger] views[j]).1.signers.contains(slot);
                    lemma_entry_at(views, j);
                    assert(self@.contains_key(views[j].0) && self@[views[j].0].signers.contains(
                        slot,
                    ));
                }
                if contributors_of(self@).contains(slot) {
                    let key = choose|key: Option<Blake2sHash>|
                        self@.contains_key(key) && (#[trigger] self@[key]).signers.contains(slot);
                    let j = choose|j: int| 0 <= j < views.len() && (#[trigger] views[j]).0 == key;
                    lemma_entry_at(views, j);
                    assert(views[j].1.signers.contains(slot));
                }
            }
            assert(slots@ =~= contributors_of(self@));
        }
        slots
    }
}

} // verus!
