use vstd::prelude::*;

use crate::contract::{
    active_ids, is_poll_created, is_poll_ended, is_vote_cast, lemma_poll_count_fits, participation,
    results_of, VotingContract,
};
use crate::poll::{lemma_tally_bound, Poll};

verus! {

/// Right after a poll is created from `options`, its results hold one pair per
/// option: the option's text and a count of zero.
pub proof fn lemma_new_poll_results_zero(
    pre: VotingContract,
    post: VotingContract,
    creator: Seq<u8>,
    title: String,
    description: String,
    options: Vec<String>,
    end_time: u64,
    id: u64,
)
    requires
        is_poll_created(pre, post, creator, title, description, options, end_time),
        id == pre.next_id(),
    ensures
        post.has_poll(id),
        results_of(post.poll(id)).len() == options@.len(),
        forall|i: int| 0 <= i < options@.len() ==> #[trigger] results_of(post.poll(id))[i] == (options@[i]@, 0usize),
{
    assert(post.poll(id) == post.poll_seq().last());
}

/// A first vote in a poll raises the chosen option's count by one and leaves
/// every other count as it was; afterwards the voter is recorded in the poll,
/// so a second vote there is refused as a repeated one.
pub proof fn lemma_first_vote_counted_once(
    pre: VotingContract,
    post: VotingContract,
    voter: Seq<u8>,
    id: u64,
    idx: usize,
)
    requires
        pre.wf(),
        post.wf(),
        pre.has_poll(id),
        is_vote_cast(pre, post, voter, id, idx),
    ensures
        post.has_poll(id),
        idx < results_of(post.poll(id)).len(),
        results_of(post.poll(id)).len() == results_of(pre.poll(id)).len(),
        results_of(post.poll(id))[idx as int].1 == results_of(pre.poll(id))[idx as int].1 + 1,
        forall|k: int|
            0 <= k < results_of(pre.poll(id)).len() && k != idx ==> #[trigger] results_of(post.poll(id))[k]
                == results_of(pre.poll(id))[k],
        post.poll(id).has_voted(voter),
{
    let p = pre.poll(id);
    let q = post.poll(id);
    assert(post.poll_seq()[id - 1] == q);
    assert(pre.poll_seq()[id - 1] == p);
    assert(p.wf());
    assert(q.wf());
    assert(q.voters().last() == voter);
    let n = q.votes@.len();
    assert(q.choices()[n - 1] == idx);
    assert(q.votes@[n - 1].1 < q.options@.len());
    assert(q.votes.len() == q.votes@.len());
    assert(p.choices() == q.choices().drop_last());
    lemma_tally_bound(p.choices(), idx as int);
}

/// Once a poll is ended it is inactive, so every vote in it is refused, and it
/// no longer appears among the active polls.
pub proof fn lemma_ended_poll_closed(pre: VotingContract, post: VotingContract, id: u64)
    requires
        pre.has_poll(id),
        is_poll_ended(pre, post, id),
    ensures
        post.has_poll(id),
        !post.poll(id).is_active,
        !active_ids(post.poll_seq()).contains(id),
{
    lemma_poll_count_fits(post);
    lemma_active_ids_are_active(post.poll_seq(), id);
}

/// `post` follows from `pre` by one successful change: an admin added, a poll
/// created, a poll ended, or a vote recorded.
pub open spec fn is_step(pre: VotingContract, post: VotingContract) -> bool {
    ||| (exists|a: Seq<u8>| post.admin_list() == pre.admin_list().push(a)) && post.poll_seq() == pre.poll_seq()
    ||| exists|creator: Seq<u8>, title: String, description: String, options: Vec<String>, end_time: u64|
        is_poll_created(pre, post, creator, title, description, options, end_time)
    ||| exists|other: u64| pre.has_poll(other) && is_poll_ended(pre, post, other)
    ||| exists|voter: Seq<u8>, other: u64, idx: usize| pre.has_poll(other) && is_vote_cast(pre, post, voter, other, idx)
}

/// An ended poll never becomes active again: after any further change it
/// still exists and is still inactive.
pub proof fn lemma_ended_poll_stays_ended(pre: VotingContract, post: VotingContract, id: u64)
    requires
        pre.has_poll(id),
        !pre.poll(id).is_active,
        is_step(pre, post),
    ensures
        post.has_poll(id),
        !post.poll(id).is_active,
{
    if exists|creator: Seq<u8>, title: String, description: String, options: Vec<String>, end_time: u64|
        is_poll_created(pre, post, creator, title, description, options, end_time) {
        let (creator, title, description, options, end_time) = choose|
            creator: Seq<u8>,
            title: String,
            description: String,
            options: Vec<String>,
            end_time: u64,
        | is_poll_created(pre, post, creator, title, description, options, end_time);
        assert(post.poll_seq().drop_last()[id - 1] == post.poll_seq()[id - 1]);
    } else if exists|other: u64| pre.has_poll(other) && is_poll_ended(pre, post, other) {
        let other = choose|other: u64| pre.has_poll(other) && is_poll_ended(pre, post, other);
        if other != id {
            assert(post.poll_seq()[id - 1] == pre.poll_seq()[id - 1]);
        }
    } else if exists|voter: Seq<u8>, other: u64, idx: usize|
        pre.has_poll(other) && is_vote_cast(pre, post, voter, other, idx) {
        let (voter, other, idx) = choose|voter: Seq<u8>, other: u64, idx: usize|
            pre.has_poll(other) && is_vote_cast(pre, post, voter, other, idx);
        if other != id {
            assert(post.poll_seq()[id - 1] == pre.poll_seq()[id - 1]);
        }
    }
}

/// Each identifier in `active_ids(polls)` names an active poll.
proof fn lemma_active_ids_are_active(polls: Seq<Poll>, id: u64)
    requires
        polls.len() <= usize::MAX,
    ensures
        active_ids(polls).contains(id) ==> 1 <= id <= polls.len() && polls[id - 1].is_active,
    decreases polls.len(),
{
    if polls.len() > 0 {
        let rest = polls.drop_last();
        lemma_active_ids_are_active(rest, id);
        if active_ids(polls).contains(id) && !active_ids(rest).contains(id) {
            assert(polls.last().is_active);
            assert(active_ids(polls).last() == id);
        }
    }
}

/// The identifiers of the polls among the first `polls.len()` in which `voter`
/// has a recorded choice.
pub open spec fn voted_ids(polls: Seq<Poll>, voter: Seq<u8>) -> Set<u64> {
    Set::new(|id: u64| 1 <= id <= polls.len() && polls[id - 1].has_voted(voter))
}

/// A voter's participation is the number of distinct polls, active or ended,
/// that hold a recorded choice of theirs.
pub proof fn lemma_participation_counts_polls(c: VotingContract, voter: Seq<u8>)
    ensures
        voted_ids(c.poll_seq(), voter).finite(),
        participation(c.poll_seq(), voter) == voted_ids(c.poll_seq(), voter).len(),
{
    lemma_poll_count_fits(c);
    lemma_voted_ids_len(c.poll_seq(), voter);
}

proof fn lemma_voted_ids_len(polls: Seq<Poll>, voter: Seq<u8>)
    requires
        polls.len() <= usize::MAX,
    ensures
        voted_ids(polls, voter).finite(),
        participation(polls, voter) == voted_ids(polls, voter).len(),
    decreases polls.len(),
{
    if polls.len() == 0 {
        assert(voted_ids(polls, voter) =~= Set::empty());
    } else {
        let rest = polls.drop_last();
        lemma_voted_ids_len(rest, voter);
        let last = polls.len() as u64;
        assert(!voted_ids(rest, voter).contains(last));
        if polls.last().has_voted(voter) {
            assert(voted_ids(polls, voter) =~= voted_ids(rest, voter).insert(last));
        } else {
            assert(voted_ids(polls, voter) =~= voted_ids(rest, voter));
        }
    }
}

} // verus!
