use vstd::prelude::*;

use crate::address::Address;
use crate::poll::{lemma_tally_bound, tally, Poll};

verus! {

/// Why an operation on the registry was refused.
#[derive(Debug, Clone, Copy, PartialEq, Eq, Structural)]
pub enum VotingError {
    /// The caller is neither an admin nor, where that suffices, the poll's creator.
    Unauthorized,
    /// The option index is past the end of the poll's options.
    InvalidOption,
    /// No poll has the given identifier.
    PollNotFound,
    /// Kept apart from `PollInactive` for an ending by expiry; no operation returns it.
    PollEnded,
    /// The voter already has a recorded choice in the poll.
    AlreadyVoted,
    /// The poll has been ended.
    PollInactive,
}

/// The registry: an admin list and the polls, where the poll with identifier
/// `id` is stored at position `id - 1`. Identifiers start at 1 and are handed
/// out in order, so the next one is always one past the number of polls.
pub struct VotingContract {
    pub admins: Vec<Address>,
    polls: Vec<Poll>,
}

/// `p` is a poll just created by `creator` from the given parts: no votes,
/// every counter zero, active.
pub open spec fn is_fresh_poll(
    p: Poll,
    creator: Seq<u8>,
    title: String,
    description: String,
    options: Vec<String>,
    end_time: u64,
) -> bool {
    &&& p.title == title
    &&& p.description == description
    &&& p.options == options
    &&& p.votes@.len() == 0
    &&& p.vote_counts@ == Seq::new(options@.len(), |i: int| 0usize)
    &&& p.end_time == end_time
    &&& p.creator@ == creator
    &&& p.is_active
}

/// `q` is `p` with the choice `idx` of `voter` recorded and its counter raised by one.
pub open spec fn is_vote_recorded(p: Poll, q: Poll, voter: Seq<u8>, idx: usize) -> bool {
    &&& q.voters() == p.voters().push(voter)
    &&& q.choices() == p.choices().push(idx)
    &&& q.vote_counts@ == p.vote_counts@.update(idx as int, (p.vote_counts@[idx as int] + 1) as usize)
    &&& q.title == p.title
    &&& q.description == p.description
    &&& q.options == p.options
    &&& q.end_time == p.end_time
    &&& q.creator == p.creator
    &&& q.is_active == p.is_active
}

/// `q` is `p` marked inactive, with everything else kept.
pub open spec fn is_ended(p: Poll, q: Poll) -> bool {
    &&& q.title == p.title
    &&& q.description == p.description
    &&& q.options == p.options
    &&& q.votes == p.votes
    &&& q.vote_counts == p.vote_counts
    &&& q.end_time == p.end_time
    &&& q.creator == p.creator
    &&& !q.is_active
}

/// `post` is `pre` with one poll appended, the one that `creator` made from the given parts.
pub open spec fn is_poll_created(
    pre: VotingContract,
    post: VotingContract,
    creator: Seq<u8>,
    title: String,
    description: String,
    options: Vec<String>,
    end_time: u64,
) -> bool {
    &&& post.admin_list() == pre.admin_list()
    &&& post.poll_seq().len() == pre.poll_seq().len() + 1
    &&& post.poll_seq().drop_last() == pre.poll_seq()
    &&& is_fresh_poll(post.poll_seq().last(), creator, title, description, options, end_time)
}

/// `post` is `pre` with poll `id` marked inactive and nothing else changed.
pub open spec fn is_poll_ended(pre: VotingContract, post: VotingContract, id: u64) -> bool {
    &&& post.admin_list() == pre.admin_list()
    &&& post.poll_seq() == pre.poll_seq().update(id - 1, post.poll(id))
    &&& is_ended(pre.poll(id), post.poll(id))
}

/// `post` is `pre` with the choice `idx` of `voter` recorded in poll `id` and nothing else changed.
pub open spec fn is_vote_cast(
    pre: VotingContract,
    post: VotingContract,
    voter: Seq<u8>,
    id: u64,
    idx: usize,
) -> bool {
    &&& post.admin_list() == pre.admin_list()
    &&& post.poll_seq() == pre.poll_seq().update(id - 1, post.poll(id))
    &&& is_vote_recorded(pre.poll(id), post.poll(id), voter, idx)
}

/// The identifiers of the active polls among `polls`, where the poll at
/// position `i` has identifier `i + 1`, in increasing order.
pub open spec fn active_ids(polls: Seq<Poll>) -> Seq<u64>
    decreases polls.len(),
{
    if polls.len() == 0 {
        Seq::empty()
    } else if polls.last().is_active {
        active_ids(polls.drop_last()).push(polls.len() as u64)
    } else {
        active_ids(polls.drop_last())
    }
}

/// How many of `polls` hold a recorded choice of `voter`.
pub open spec fn participation(polls: Seq<Poll>, voter: Seq<u8>) -> nat
    decreases polls.len(),
{
    if polls.len() == 0 {
        0
    } else {
        participation(polls.drop_last(), voter) + if polls.last().has_voted(voter) {
            1nat
        } else {
            0nat
        }
    }
}

/// The results of poll `p`: each option's text with its counter, in option order.
pub open spec fn results_of(p: Poll) -> Seq<(Seq<char>, usize)> {
    Seq::new(p.options@.len(), |i: int| (p.options@[i]@, p.vote_counts@[i]))
}

/// The texts and counts of a list of results.
pub open spec fn results_view(v: Seq<(String, usize)>) -> Seq<(Seq<char>, usize)> {
    v.map_values(|e: (String, usize)| (e.0@, e.1))
}

/// The identifiers of a list of identified polls.
pub open spec fn listed_ids(v: Seq<(u64, &Poll)>) -> Seq<u64> {
    v.map_values(|e: (u64, &Poll)| e.0)
}

/// There are never more polls than a `usize` can count, so every identifier fits in a `u64`.
pub proof fn lemma_poll_count_fits(c: VotingContract)
    ensures
        c.poll_seq().len() <= usize::MAX,
{
    assert(c.polls.len() == c.polls@.len());
}

impl VotingContract {
    /// The admins' addresses, in the order in which they were added.
    pub closed spec fn admin_list(&self) -> Seq<Seq<u8>> {
        self.admins@.map_values(|a: Address| a@)
    }

    pub open spec fn is_admin(&self, a: Seq<u8>) -> bool {
        self.admin_list().contains(a)
    }

    /// The polls, in the order of their identifiers.
    pub closed spec fn poll_seq(&self) -> Seq<Poll> {
        self.polls@
    }

    /// The identifier that the next poll will get.
    pub open spec fn next_id(&self) -> nat {
        self.poll_seq().len() + 1
    }

    pub open spec fn has_poll(&self, id: u64) -> bool {
        1 <= id < self.next_id()
    }

    pub open spec fn poll(&self, id: u64) -> Poll {
        self.poll_seq()[id - 1]
    }

    /// Every poll is well formed.
    pub open spec fn wf(&self) -> bool {
        forall|i: int| 0 <= i < self.poll_seq().len() ==> #[trigger] self.poll_seq()[i].wf()
    }

    /// A registry whose only admin is the address of the single byte 0, with no polls.
    pub fn new() -> (r: Self)
        ensures
            r.wf(),
            r.admin_list() == seq![seq![0u8]],
            r.poll_seq().len() == 0,
    {
        let mut bytes: Vec<u8> = Vec::new();
        bytes.push(0u8);
        let mut admins: Vec<Address> = Vec::new();
        admins.push(Address(bytes));
        let r = VotingContract { admins, polls: Vec::new() };
        assert(r.admin_list() =~= seq![seq![0u8]]);
        r
    }

    /// Whether `caller` is in the admin list.
    fn check_admin(&self, caller: &Address) -> (r: bool)
        ensures
            r == self.is_admin(caller@),
    {
        let mut i: usize = 0;
        while i < self.admins.len()
            invariant
                i <= self.admins@.len(),
                forall|j: int| 0 <= j < i ==> self.admins@[j]@ != caller@,
            decreases self.admins@.len() - i,
        {
            if self.admins[i].eq(caller) {
                assert(self.admin_list()[i as int] == caller@);
                return true;
            }
            i += 1;
        }
        assert forall|j: int| 0 <= j < self.admin_list().len() implies self.admin_list()[j] != caller@ by {
            assert(self.admin_list()[j] == self.admins@[j]@);
        }
        false
    }

    /// Appends `new_admin` to the admin list, if `caller` is an admin.
    pub fn add_admin(&mut self, caller: &Address, new_admin: Address) -> (r: Result<(), VotingError>)
        requires
            old(self).wf(),
        ensures
            final(self).wf(),
            old(self).is_admin(caller@) ==> r == Ok::<(), VotingError>(())
                && final(self).admin_list() == old(self).admin_list().push(new_admin@)
                && final(self).poll_seq() == old(self).poll_seq(),
            !old(self).is_admin(caller@) ==> r == Err::<(), VotingError>(VotingError::Unauthorized)
                && *final(self) == *old(self),
    {
        if !self.check_admin(caller) {
            return Err(VotingError::Unauthorized);
        }
        let ghost before = self.admin_list();
        self.admins.push(new_admin);
        assert(self.admin_list() =~= before.push(new_admin@));
        assert(self.poll_seq() == old(self).poll_seq());
        Ok(())
    }

    /// Stores a new active poll with a zero counter per option and returns its
    /// identifier, if `caller` is an admin.
    pub fn create_poll(
        &mut self,
        caller: &Address,
        title: String,
        description: String,
        options: Vec<String>,
        duration: u64,
    ) -> (r: Result<u64, VotingError>)
        requires
            old(self).wf(),
        ensures
            final(self).wf(),
            old(self).is_admin(caller@) ==> r is Ok && r->Ok_0 == old(self).next_id()
                && is_poll_created(*old(self), *final(self), caller@, title, description, options, duration),
            !old(self).is_admin(caller@) ==> r == Err::<u64, VotingError>(VotingError::Unauthorized)
                && *final(self) == *old(self),
    {
        if !self.check_admin(caller) {
            return Err(VotingError::Unauthorized);
        }
        let n = options.len();
        let mut counts: Vec<usize> = Vec::new();
        let mut i: usize = 0;
        while i < n
            invariant
                i <= n,
                counts@ =~= Seq::new(i as nat, |j: int| 0usize),
            decreases n - i,
        {
            counts.push(0);
            i += 1;
        }
        let ghost title0 = title;
        let ghost description0 = description;
        let ghost options0 = options;
        let poll = Poll {
            title,
            description,
            options,
            votes: Vec::new(),
            vote_counts: counts,
            end_time: duration,
            creator: caller.clone(),
            is_active: true,
        };
        assert(poll.choices() =~= Seq::<usize>::empty());
        assert(poll.wf());
        let ghost before = self.polls@;
        self.polls.push(poll);
        assert(self.polls@.drop_last() =~= before);
        assert forall|i: int| 0 <= i < self.poll_seq().len() implies #[trigger] self.poll_seq()[i].wf() by {
            if i < before.len() {
                assert(old(self).poll_seq()[i].wf());
            }
        }
        assert(self.admin_list() == old(self).admin_list());
        assert(is_fresh_poll(self.polls@.last(), caller@, title0, description0, options0, duration));
        let id = self.polls.len() as u64;
        Ok(id)
    }

    /// Marks poll `poll_id` inactive, if `caller` is an admin or the poll's creator.
    pub fn end_poll(&mut self, caller: &Address, poll_id: u64) -> (r: Result<(), VotingError>)
        requires
            old(self).wf(),
        ensures
            final(self).wf(),
            !old(self).has_poll(poll_id) ==> r == Err::<(), VotingError>(VotingError::PollNotFound)
                && *final(self) == *old(self),
            old(self).has_poll(poll_id) && !old(self).is_admin(caller@) && old(self).poll(poll_id).creator@
                != caller@ ==> r == Err::<(), VotingError>(VotingError::Unauthorized) && *final(self) == *old(self),
            old(self).has_poll(poll_id) && (old(self).is_admin(caller@) || old(self).poll(poll_id).creator@
                == caller@) ==> r == Ok::<(), VotingError>(()) && is_poll_ended(*old(self), *final(self), poll_id),
    {
        if poll_id == 0 || poll_id > self.polls.len() as u64 {
            return Err(VotingError::PollNotFound);
        }
        let idx = (poll_id - 1) as usize;
        if !self.check_admin(caller) && !self.polls[idx].creator.eq(caller) {
            return Err(VotingError::Unauthorized);
        }
        assert(self.poll_seq()[idx as int].wf());
        self.polls[idx].is_active = false;
        assert(self.poll_seq()[idx as int].wf());
        assert(self.admin_list() == old(self).admin_list());
        Ok(())
    }

    /// Records the choice `option_idx` of `voter` in poll `poll_id`. The checks come
    /// in this order: the poll exists, it is active, the voter has not voted in it,
    /// the option index is in range.
    pub fn cast_vote(&mut self, voter: &Address, poll_id: u64, option_idx: usize) -> (r: Result<(), VotingError>)
        requires
            old(self).wf(),
        ensures
            final(self).wf(),
            r is Err ==> *final(self) == *old(self),
            !old(self).has_poll(poll_id) ==> r == Err::<(), VotingError>(VotingError::PollNotFound),
            old(self).has_poll(poll_id) && !old(self).poll(poll_id).is_active ==> r == Err::<(), VotingError>(
                VotingError::PollInactive,
            ),
            old(self).has_poll(poll_id) && old(self).poll(poll_id).is_active && old(self).poll(poll_id).has_voted(
                voter@,
            ) ==> r == Err::<(), VotingError>(VotingError::AlreadyVoted),
            old(self).has_poll(poll_id) && old(self).poll(poll_id).is_active && !old(self).poll(poll_id).has_voted(
                voter@,
            ) && option_idx >= old(self).poll(poll_id).options@.len() ==> r == Err::<(), VotingError>(
                VotingError::InvalidOption,
            ),
            old(self).has_poll(poll_id) && old(self).poll(poll_id).is_active && !old(self).poll(poll_id).has_voted(
                voter@,
            ) && option_idx < old(self).poll(poll_id).options@.len() ==> r == Ok::<(), VotingError>(())
                && is_vote_cast(*old(self), *final(self), voter@, poll_id, option_idx),
    {
        if poll_id == 0 || poll_id > self.polls.len() as u64 {
            return Err(VotingError::PollNotFound);
        }
        let idx = (poll_id - 1) as usize;
        if !self.polls[idx].is_active {
            return Err(VotingError::PollInactive);
        }
        if self.polls[idx].has_voter(voter) {
            return Err(VotingError::AlreadyVoted);
        }
        if option_idx >= self.polls[idx].options.len() {
            return Err(VotingError::InvalidOption);
        }
        let ghost p = self.polls@[idx as int];
        assert(self.poll_seq()[idx as int].wf());
        proof {
            lemma_tally_bound(p.choices(), option_idx as int);
        }
        let v = voter.clone();
        self.polls[idx].votes.push((v, option_idx));
        assert(self.polls@[idx as int].votes@.len() == self.polls@[idx as int].votes.len());
        let c = self.polls[idx].vote_counts[option_idx];
        self.polls[idx].vote_counts.set(option_idx, c + 1);
        let ghost q = self.polls@[idx as int];
        assert(q.voters() =~= p.voters().push(voter@));
        assert(q.choices() =~= p.choices().push(option_idx));
        assert(q.choices().drop_last() =~= p.choices());
        assert forall|i: int, j: int|
            0 <= i < j < q.votes@.len() implies #[trigger] q.votes@[i].0@ != #[trigger] q.votes@[j].0@ by {
            if j == q.votes@.len() - 1 {
                assert(p.voters()[i] == q.votes@[i].0@);
            }
        }
        assert forall|k: int| 0 <= k < q.vote_counts@.len() implies #[trigger] q.vote_counts@[k] == tally(
            q.choices(),
            k,
        ) by {
            assert(p.vote_counts@[k] == tally(p.choices(), k));
        }
        assert(q.wf());
        assert(self.poll_seq() =~= old(self).poll_seq().update(poll_id - 1, self.poll(poll_id)));
        assert(self.admin_list() == old(self).admin_list());
        Ok(())
    }

    /// Each option's text with its counter, in option order.
    pub fn get_poll_results(&self, poll_id: u64) -> (r: Result<Vec<(String, usize)>, VotingError>)
        requires
            self.wf(),
        ensures
            !self.has_poll(poll_id) ==> r == Err::<Vec<(String, usize)>, VotingError>(VotingError::PollNotFound),
            self.has_poll(poll_id) ==> r is Ok && results_view(r->Ok_0@) == results_of(self.poll(poll_id)),
    {
        if poll_id == 0 || poll_id > self.polls.len() as u64 {
            return Err(VotingError::PollNotFound);
        }
        let idx = (poll_id - 1) as usize;
        let poll = &self.polls[idx];
        assert(self.poll_seq()[idx as int].wf());
        let mut out: Vec<(String, usize)> = Vec::new();
        let mut i: usize = 0;
        while i < poll.options.len()
            invariant
                poll == self.poll(poll_id),
                poll.wf(),
                i <= poll.options@.len(),
                results_view(out@) =~= results_of(*poll).subrange(0, i as int),
            decreases poll.options@.len() - i,
        {
            let ghost before = out@;
            let text = poll.options[i].clone();
            out.push((text, poll.vote_counts[i]));
            assert(results_view(out@) =~= results_view(before).push(results_of(*poll)[i as int]));
            i += 1;
        }
        assert(results_of(*poll).subrange(0, i as int) =~= results_of(*poll));
        Ok(out)
    }

    /// Every active poll with its identifier, in increasing order of identifier.
    pub fn get_active_polls(&self) -> (r: Vec<(u64, &Poll)>)
        ensures
            listed_ids(r@) == active_ids(self.poll_seq()),
            forall|i: int| 0 <= i < r@.len() ==> self.has_poll(#[trigger] r@[i].0) && *r@[i].1 == self.poll(r@[i].0),
    {
        let mut out: Vec<(u64, &Poll)> = Vec::new();
        let mut i: usize = 0;
        while i < self.polls.len()
            invariant
                i <= self.polls@.len(),
                listed_ids(out@) =~= active_ids(self.poll_seq().subrange(0, i as int)),
                forall|j: int| 0 <= j < out@.len() ==> self.has_poll(#[trigger] out@[j].0) && *out@[j].1 == self.poll(out@[j].0),
            decreases self.polls@.len() - i,
        {
            let ghost prefix = self.poll_seq().subrange(0, i + 1);
            assert(prefix.drop_last() =~= self.poll_seq().subrange(0, i as int));
            if self.polls[i].is_active {
                out.push(((i + 1) as u64, &self.polls[i]));
            }
            i += 1;
        }
        assert(self.poll_seq().subrange(0, i as int) =~= self.poll_seq());
        out
    }

    /// The number of polls, active or not, in which `voter` has a recorded choice.
    pub fn get_voter_participation(&self, voter: &Address) -> (r: usize)
        ensures
            r == participation(self.poll_seq(), voter@),
    {
        let mut count: usize = 0;
        let mut i: usize = 0;
        while i < self.polls.len()
            invariant
                i <= self.polls@.len(),
                count == participation(self.poll_seq().subrange(0, i as int), voter@),
                count <= i,
            decreases self.polls@.len() - i,
        {
            let ghost prefix = self.poll_seq().subrange(0, i + 1);
            assert(prefix.drop_last() =~= self.poll_seq().subrange(0, i as int));
            if self.polls[i].has_voter(voter) {
                count += 1;
            }
            i += 1;
        }
        assert(self.poll_seq().subrange(0, i as int) =~= self.poll_seq());
        count
    }

    /// The poll with identifier `poll_id`.
    pub fn get_poll_details(&self, poll_id: u64) -> (r: Result<&Poll, VotingError>)
        ensures
            !self.has_poll(poll_id) ==> r == Err::<&Poll, VotingError>(VotingError::PollNotFound),
            self.has_poll(poll_id) ==> r is Ok && *r->Ok_0 == self.poll(poll_id),
    {
        if poll_id == 0 || poll_id > self.polls.len() as u64 {
            return Err(VotingError::PollNotFound);
        }
        Ok(&self.polls[(poll_id - 1) as usize])
    }
}

} // verus!
