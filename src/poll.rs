use vstd::prelude::*;

use crate::address::Address;

verus! {

/// How many of the recorded choices name option `k`.
pub open spec fn tally(choices: Seq<usize>, k: int) -> nat
    decreases choices.len(),
{
    if choices.len() == 0 {
        0
    } else {
        tally(choices.drop_last(), k) + if choices.last() == k {
            1nat
        } else {
            0nat
        }
    }
}

/// No sequence of choices names an option more often than it has entries.
pub proof fn lemma_tally_bound(choices: Seq<usize>, k: int)
    ensures
        tally(choices, k) <= choices.len(),
    decreases choices.len(),
{
    if choices.len() > 0 {
        lemma_tally_bound(choices.drop_last(), k);
    }
}

/// A ballot: a fixed ordered list of options, one recorded choice per voter,
/// and a counter per option.
#[derive(Debug)]
pub struct Poll {
    pub title: String,
    pub description: String,
    pub options: Vec<String>,
    /// Each voter with the index of the option they chose, in the order of voting.
    pub votes: Vec<(Address, usize)>,
    pub vote_counts: Vec<usize>,
    pub end_time: u64,
    pub creator: Address,
    pub is_active: bool,
}

impl Poll {
    /// The voters, in the order in which they voted.
    pub open spec fn voters(&self) -> Seq<Seq<u8>> {
        self.votes@.map_values(|e: (Address, usize)| e.0@)
    }

    /// The chosen option indices, aligned with `voters`.
    pub open spec fn choices(&self) -> Seq<usize> {
        self.votes@.map_values(|e: (Address, usize)| e.1)
    }

    pub open spec fn has_voted(&self, v: Seq<u8>) -> bool {
        self.voters().contains(v)
    }

    /// Counters match the recorded choices, every choice names an option,
    /// and no voter appears twice.
    pub open spec fn wf(&self) -> bool {
        &&& self.vote_counts@.len() == self.options@.len()
        &&& forall|i: int| 0 <= i < self.votes@.len() ==> #[trigger] self.votes@[i].1 < self.options@.len()
        &&& forall|i: int, j: int|
            0 <= i < j < self.votes@.len() ==> #[trigger] self.votes@[i].0@ != #[trigger] self.votes@[j].0@
        &&& forall|k: int|
            0 <= k < self.vote_counts@.len() ==> #[trigger] self.vote_counts@[k] == tally(self.choices(), k)
    }

    /// Whether `voter` has a recorded choice in this poll.
    pub fn has_voter(&self, voter: &Address) -> (r: bool)
        ensures
            r == self.has_voted(voter@),
    {
        let mut i: usize = 0;
        while i < self.votes.len()
            invariant
                i <= self.votes@.len(),
                forall|j: int| 0 <= j < i ==> self.votes@[j].0@ != voter@,
            decreases self.votes@.len() - i,
        {
            if self.votes[i].0.eq(voter) {
                assert(self.voters()[i as int] == voter@);
                return true;
            }
            i += 1;
        }
        assert forall|j: int| 0 <= j < self.voters().len() implies self.voters()[j] != voter@ by {
            assert(self.voters()[j] == self.votes@[j].0@);
        }
        false
    }
}

} // verus!
