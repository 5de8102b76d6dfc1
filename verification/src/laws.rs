//! What holds of the two contracts across calls.
use vstd::prelude::*;

use crate::address::Address;
use crate::badge::{held, BadgeError, BadgeView, VotingBadgeView};
use crate::deployment::vote_outcome;
use crate::live_poll::spec_vote_badge_type;
use crate::live_poll::{LivePollView, PollEvent};
use crate::poll::{sum, PollError, PollView};

verus! {

/// The accounts whose vote on poll `poll_id` is recorded.
pub open spec fn voters_of(s: LivePollView, poll_id: u32) -> Set<Seq<char>> {
    Set::new(|v: Seq<char>| s.has_voted(poll_id, v))
}

/// Poll ids are handed out in order: a created poll gets the current count as
/// its id, and the count grows by one.
pub proof fn law_poll_ids_are_sequential(
    s: LivePollView,
    creator: Address,
    question: Seq<u8>,
    options: Seq<Seq<u8>>,
)
    requires
        s.wf(),
        s.create(creator, question, options) is Ok,
    ensures
        ({
            let (t, id) = s.create(creator, question, options)->Ok_0;
            &&& id == s.poll_count()
            &&& t.poll_count() == s.poll_count() + 1
        }),
{
}

/// A created poll reads back as created: its question, options and creator,
/// every count at zero, active, with no voter; the polls before it are
/// unchanged.
pub proof fn law_created_poll_reads_back(
    s: LivePollView,
    creator: Address,
    question: Seq<u8>,
    options: Seq<Seq<u8>>,
)
    requires
        s.wf(),
        s.create(creator, question, options) is Ok,
    ensures
        ({
            let (t, id) = s.create(creator, question, options)->Ok_0;
            &&& t.poll(id) == Ok::<PollView, PollError>(PollView::opened(id, creator@, question, options))
            &&& forall|j: int| 0 <= j < options.len() ==> #[trigger] t.polls[id as int].votes[j] == 0
            &&& forall|v: Seq<char>| !#[trigger] t.has_voted(id, v)
            &&& forall|j: u32| j != id ==> #[trigger] t.poll(j) == s.poll(j)
        }),
{
    let (t, id) = s.create(creator, question, options)->Ok_0;
    assert forall|j: u32| j != id implies #[trigger] t.poll(j) == s.poll(j) by {
        if j < s.polls.len() {
            assert(t.polls[j as int] == s.polls[j as int]);
        }
    }
}

/// An account's vote on a poll is counted once: after it is recorded the
/// account shows as having voted, and every further vote of that account on
/// that poll is refused.
pub proof fn law_one_vote_per_account(
    s: LivePollView,
    voter: Address,
    poll_id: u32,
    option_index: u32,
    again: Address,
    other_index: u32,
)
    requires
        s.wf(),
        s.vote(voter, poll_id, option_index) is Ok,
        again@ == voter@,
    ensures
        s.vote(voter, poll_id, option_index)->Ok_0.has_voted(poll_id, voter@),
        s.vote(voter, poll_id, option_index)->Ok_0.vote(again, poll_id, other_index) is Err,
        other_index < s.polls[poll_id as int].options.len() ==> s.vote(
            voter,
            poll_id,
            option_index,
        )->Ok_0.vote(again, poll_id, other_index) == Err::<LivePollView, PollError>(
            PollError::AlreadyVoted,
        ),
{
    let t = s.vote(voter, poll_id, option_index)->Ok_0;
    assert(t.voters[poll_id as int].last() == voter@);
    assert(t.voters[poll_id as int].contains(voter@));
}

/// A recorded vote adds one to the chosen option's count and to the poll's
/// total, and changes no other count and no other poll.
pub proof fn law_vote_counts_once(s: LivePollView, voter: Address, poll_id: u32, option_index: u32)
    requires
        s.wf(),
        s.vote(voter, poll_id, option_index) is Ok,
    ensures
        ({
            let t = s.vote(voter, poll_id, option_index)->Ok_0;
            let p = poll_id as int;
            &&& t.polls[p].votes[option_index as int] == s.polls[p].votes[option_index as int] + 1
            &&& t.polls[p].total_votes == s.polls[p].total_votes + 1
            &&& forall|j: int|
                0 <= j < s.polls[p].votes.len() && j != option_index ==> #[trigger] t.polls[p].votes[j]
                    == s.polls[p].votes[j]
            &&& forall|q: u32| q != poll_id ==> #[trigger] t.poll(q) == s.poll(q)
        }),
{
    let t = s.vote(voter, poll_id, option_index)->Ok_0;
    assert forall|q: u32| q != poll_id implies #[trigger] t.poll(q) == s.poll(q) by {
        if q < s.polls.len() {
            assert(t.polls[q as int] == s.polls[q as int]);
        }
    }
}

/// In every reachable state each poll's total is the sum of its counts, and
/// the number of accounts recorded as having voted on it.
pub proof fn law_tally_matches_voters(s: LivePollView, poll_id: u32)
    requires
        s.wf(),
        poll_id < s.polls.len(),
    ensures
        s.polls[poll_id as int].total_votes == sum(s.polls[poll_id as int].votes),
        voters_of(s, poll_id).finite(),
        s.polls[poll_id as int].total_votes == voters_of(s, poll_id).len(),
{
    let p = poll_id as int;
    assert(s.polls[p].wf());
    assert(voters_of(s, poll_id) =~= s.voters[p].to_set());
    s.voters[p].unique_seq_to_set();
}

/// A closed poll refuses every vote.
pub proof fn law_closed_poll_refuses_votes(
    s: LivePollView,
    caller: Seq<char>,
    poll_id: u32,
    voter: Address,
    option_index: u32,
)
    requires
        s.wf(),
        s.close(caller, poll_id) is Ok,
    ensures
        s.close(caller, poll_id)->Ok_0.vote(voter, poll_id, option_index) == Err::<
            LivePollView,
            PollError,
        >(PollError::PollClosed),
{
}

/// Only a poll's creator can close it.
pub proof fn law_only_creator_closes(s: LivePollView, caller: Seq<char>, poll_id: u32)
    requires
        s.wf(),
        poll_id < s.polls.len(),
    ensures
        s.close(caller, poll_id) is Ok <==> caller == s.polls[poll_id as int].creator,
        caller != s.polls[poll_id as int].creator ==> s.close(caller, poll_id) == Err::<
            LivePollView,
            PollError,
        >(PollError::NotCreator),
{
}

/// No call reopens a closed poll.
pub proof fn law_closed_stays_closed(
    s: LivePollView,
    poll_id: u32,
    creator: Address,
    question: Seq<u8>,
    options: Seq<Seq<u8>>,
    voter: Address,
    vote_poll: u32,
    option_index: u32,
    caller: Seq<char>,
    close_poll: u32,
)
    requires
        s.wf(),
        poll_id < s.polls.len(),
        !s.polls[poll_id as int].active,
    ensures
        s.initialize() matches Ok(t) ==> !t.polls[poll_id as int].active,
        s.create(creator, question, options) matches Ok((t, id)) ==> !t.polls[poll_id as int].active,
        s.vote(voter, vote_poll, option_index) matches Ok(t) ==> !t.polls[poll_id as int].active,
        s.close(caller, close_poll) matches Ok(t) ==> !t.polls[poll_id as int].active,
{
}

/// The counter is set up once: after `initialize`, or after a first poll is
/// created, `initialize` is refused.
pub proof fn law_initialize_once(
    s: LivePollView,
    creator: Address,
    question: Seq<u8>,
    options: Seq<Seq<u8>>,
)
    requires
        s.wf(),
    ensures
        s.initialize() matches Ok(t) ==> t.initialize() == Err::<LivePollView, PollError>(
            PollError::AlreadyInitialized,
        ),
        s.create(creator, question, options) matches Ok((t, id)) ==> t.initialize() == Err::<
            LivePollView,
            PollError,
        >(PollError::AlreadyInitialized),
{
}

/// Each recorded call publishes one event that describes it, after those
/// already published; `initialize` publishes none.
pub proof fn law_poll_events(
    s: LivePollView,
    creator: Address,
    question: Seq<u8>,
    options: Seq<Seq<u8>>,
    voter: Address,
    vote_poll: u32,
    option_index: u32,
    caller: Seq<char>,
    close_poll: u32,
)
    requires
        s.wf(),
    ensures
        s.initialize() matches Ok(t) ==> t.events == s.events,
        s.create(creator, question, options) matches Ok((t, id)) ==> t.events == s.events.push(
            PollEvent::Created { poll_id: id, creator },
        ),
        s.vote(voter, vote_poll, option_index) matches Ok(t) ==> t.events == s.events.push(
            PollEvent::Voted { poll_id: vote_poll, voter, option_index },
        ),
        s.close(caller, close_poll) matches Ok(t) ==> t.events == s.events.push(
            PollEvent::Closed { poll_id: close_poll },
        ),
{
}

/// Badge ids are handed out in order: an awarded badge gets the current total
/// as its id, and the total grows by one.
pub proof fn law_badge_ids_are_sequential(
    s: VotingBadgeView,
    holder: Address,
    badge_type: Seq<u8>,
    timestamp: u64,
)
    requires
        s.wf(),
        s.award(holder, badge_type, timestamp) is Ok,
    ensures
        ({
            let (t, id) = s.award(holder, badge_type, timestamp)->Ok_0;
            &&& id == s.total_badges()
            &&& t.total_badges() == s.total_badges() + 1
        }),
{
}

/// An awarded badge reads back as awarded, is held by its holder and by no
/// other account, and the badges before it are unchanged.
pub proof fn law_awarded_badge_reads_back(
    s: VotingBadgeView,
    holder: Address,
    badge_type: Seq<u8>,
    timestamp: u64,
)
    requires
        s.wf(),
        s.award(holder, badge_type, timestamp) is Ok,
    ensures
        ({
            let (t, id) = s.award(holder, badge_type, timestamp)->Ok_0;
            &&& t.badge(id) == Ok::<BadgeView, BadgeError>(
                BadgeView { id, holder: holder@, badge_type, timestamp },
            )
            &&& forall|h: Seq<char>| #[trigger] t.has_badge(h, id) <==> h == holder@
            &&& forall|j: u32| j != id ==> #[trigger] t.badge(j) == s.badge(j)
            &&& forall|h: Seq<char>, j: u32| j != id ==> #[trigger] t.has_badge(h, j) == s.has_badge(h, j)
        }),
{
    let (t, id) = s.award(holder, badge_type, timestamp)->Ok_0;
    assert forall|j: u32| j != id implies #[trigger] t.badge(j) == s.badge(j) by {
        if j < s.badges.len() {
            assert(t.badges[j as int] == s.badges[j as int]);
        }
    }
    assert forall|h: Seq<char>, j: u32| j != id implies #[trigger] t.has_badge(h, j) == s.has_badge(h, j) by {
        if j < s.badges.len() {
            assert(t.badges[j as int] == s.badges[j as int]);
        }
    }
}

/// In every reachable state an account's badge count is the number of badges
/// it holds.
pub proof fn law_holder_count_is_badges_held(s: VotingBadgeView, holder: Seq<char>)
    requires
        s.wf(),
    ensures
        s.holder_count(holder) == held(s.badges, holder),
        s.holder_count(holder) <= s.total_badges(),
{
    crate::badge::lemma_held_bounded(s.badges, holder);
}

/// Awarding a badge adds one to its holder's count and leaves every other
/// account's count as it was.
pub proof fn law_award_counts_once(
    s: VotingBadgeView,
    holder: Address,
    badge_type: Seq<u8>,
    timestamp: u64,
    other: Seq<char>,
)
    requires
        s.wf(),
        s.award(holder, badge_type, timestamp) is Ok,
    ensures
        ({
            let (t, id) = s.award(holder, badge_type, timestamp)->Ok_0;
            &&& t.holder_count(holder@) == s.holder_count(holder@) + 1
            &&& other != holder@ ==> t.holder_count(other) == s.holder_count(other)
        }),
{
    law_holder_count_is_badges_held(s, holder@);
}

/// The badge counter is set up once, and `initialize` records the
/// administrator it is given.
pub proof fn law_badge_initialize_once(
    s: VotingBadgeView,
    admin: Seq<char>,
    other: Seq<char>,
    holder: Address,
    badge_type: Seq<u8>,
    timestamp: u64,
)
    requires
        s.wf(),
    ensures
        s.initialize(admin) matches Ok(t) ==> t.admin == Some(admin),
        s.initialize(admin) matches Ok(t) ==> t.initialize(other) == Err::<VotingBadgeView, BadgeError>(
            BadgeError::AlreadyInitialized,
        ),
        s.award(holder, badge_type, timestamp) matches Ok((t, id)) ==> t.initialize(other) == Err::<
            VotingBadgeView,
            BadgeError,
        >(BadgeError::AlreadyInitialized),
        s.award(holder, badge_type, timestamp) matches Ok((t, id)) ==> t.admin == s.admin,
{
}

/// A recorded vote earns the voter a badge: after a successful vote the
/// voter has voted on the poll, holds one badge more, and the new badge is a
/// vote badge held by the voter, awarded at the vote's ledger time.
pub proof fn law_vote_awards_badge(
    polls: LivePollView,
    badges: VotingBadgeView,
    voter: Address,
    poll_id: u32,
    option_index: u32,
    timestamp: u64,
)
    requires
        polls.wf(),
        badges.wf(),
        vote_outcome(polls, badges, voter, poll_id, option_index, timestamp) is Ok,
    ensures
        ({
            let (p, b, id) = vote_outcome(polls, badges, voter, poll_id, option_index, timestamp)->Ok_0;
            &&& p.has_voted(poll_id, voter@)
            &&& b.holder_count(voter@) == badges.holder_count(voter@) + 1
            &&& b.has_badge(voter@, id)
            &&& b.badge(id) == Ok::<BadgeView, BadgeError>(
                BadgeView { id, holder: voter@, badge_type: spec_vote_badge_type(), timestamp },
            )
        }),
{
    let t = polls.vote(voter, poll_id, option_index)->Ok_0;
    assert(t.voters[poll_id as int].last() == voter@);
    law_holder_count_is_badges_held(badges, voter@);
}

/// The sum of the badge counts of the accounts in `accounts`.
pub open spec fn count_sum(s: VotingBadgeView, accounts: Seq<Seq<char>>) -> int
    decreases accounts.len(),
{
    if accounts.len() == 0 {
        0
    } else {
        count_sum(s, accounts.drop_last()) + s.holder_count(accounts.last())
    }
}

/// The sum, over the accounts in `accounts`, of the badges each holds.
spec fn held_sum(badges: Seq<BadgeView>, accounts: Seq<Seq<char>>) -> int
    decreases accounts.len(),
{
    if accounts.len() == 0 {
        0
    } else {
        held_sum(badges, accounts.drop_last()) + held(badges, accounts.last())
    }
}

/// How often `x` occurs in `accounts`.
spec fn occurrences(accounts: Seq<Seq<char>>, x: Seq<char>) -> int
    decreases accounts.len(),
{
    if accounts.len() == 0 {
        0
    } else {
        occurrences(accounts.drop_last(), x) + if accounts.last() == x {
            1int
        } else {
            0int
        }
    }
}

proof fn lemma_occurrences_absent(accounts: Seq<Seq<char>>, x: Seq<char>)
    requires
        !accounts.contains(x),
    ensures
        occurrences(accounts, x) == 0,
    decreases accounts.len(),
{
    if accounts.len() > 0 {
        assert forall|i: int| 0 <= i < accounts.drop_last().len() implies accounts.drop_last()[i] != x by {
            assert(accounts[i] == accounts.drop_last()[i]);
        }
        lemma_occurrences_absent(accounts.drop_last(), x);
        assert(accounts[accounts.len() - 1] == accounts.last());
    }
}

proof fn lemma_occurrences_once(accounts: Seq<Seq<char>>, x: Seq<char>)
    requires
        accounts.contains(x),
        accounts.no_duplicates(),
    ensures
        occurrences(accounts, x) == 1,
    decreases accounts.len(),
{
    let init = accounts.drop_last();
    let n = accounts.len() - 1;
    if accounts.last() == x {
        assert forall|i: int| 0 <= i < init.len() implies init[i] != x by {
            assert(init[i] == accounts[i]);
            assert(accounts[n] == x);
        }
        lemma_occurrences_absent(init, x);
    } else {
        let k = choose|k: int| 0 <= k < accounts.len() && accounts[k] == x;
        assert(k != n);
        assert(init[k] == x);
        assert forall|a: int, b: int| 0 <= a < init.len() && 0 <= b < init.len() && a != b implies init[a]
            != init[b] by {
            assert(init[a] == accounts[a] && init[b] == accounts[b]);
        }
        lemma_occurrences_once(init, x);
    }
}

/// Dropping the last badge takes one from the sum exactly as often as its
/// holder occurs among the accounts.
proof fn lemma_held_sum_drop(badges: Seq<BadgeView>, accounts: Seq<Seq<char>>)
    requires
        badges.len() > 0,
    ensures
        held_sum(badges, accounts) == held_sum(badges.drop_last(), accounts) + occurrences(
            accounts,
            badges.last().holder,
        ),
    decreases accounts.len(),
{
    if accounts.len() > 0 {
        lemma_held_sum_drop(badges, accounts.drop_last());
    }
}

/// Over accounts that list every holder once, the badges held add up to all badges.
proof fn lemma_held_sum_total(badges: Seq<BadgeView>, accounts: Seq<Seq<char>>)
    requires
        accounts.no_duplicates(),
        forall|i: int| 0 <= i < badges.len() ==> accounts.contains(#[trigger] badges[i].holder),
    ensures
        held_sum(badges, accounts) == badges.len(),
    decreases badges.len(),
{
    if badges.len() == 0 {
        lemma_held_sum_empty(badges, accounts);
    } else {
        let init = badges.drop_last();
        assert forall|i: int| 0 <= i < init.len() implies accounts.contains(#[trigger] init[i].holder) by {
            assert(init[i] == badges[i]);
        }
        lemma_held_sum_total(init, accounts);
        lemma_held_sum_drop(badges, accounts);
        assert(badges[badges.len() - 1] == badges.last());
        lemma_occurrences_once(accounts, badges.last().holder);
    }
}

proof fn lemma_held_sum_empty(badges: Seq<BadgeView>, accounts: Seq<Seq<char>>)
    requires
        badges.len() == 0,
    ensures
        held_sum(badges, accounts) == 0,
    decreases accounts.len(),
{
    if accounts.len() > 0 {
        lemma_held_sum_empty(badges, accounts.drop_last());
    }
}

proof fn lemma_count_sum_is_held_sum(s: VotingBadgeView, accounts: Seq<Seq<char>>)
    requires
        s.wf(),
    ensures
        count_sum(s, accounts) == held_sum(s.badges, accounts),
    decreases accounts.len(),
{
    if accounts.len() > 0 {
        lemma_count_sum_is_held_sum(s, accounts.drop_last());
        assert(s.holder_count(accounts.last()) == held(s.badges, accounts.last()));
    }
}

/// A holder of none of the badges holds no badge.
proof fn lemma_held_none(badges: Seq<BadgeView>, h: Seq<char>)
    requires
        forall|i: int| 0 <= i < badges.len() ==> #[trigger] badges[i].holder != h,
    ensures
        held(badges, h) == 0,
    decreases badges.len(),
{
    if badges.len() > 0 {
        let init = badges.drop_last();
        assert forall|i: int| 0 <= i < init.len() implies #[trigger] init[i].holder != h by {
            assert(init[i] == badges[i]);
        }
        lemma_held_none(init, h);
        assert(badges[badges.len() - 1] == badges.last());
    }
}

/// In every reachable state the badge counts add up to the badge total: over
/// any list of distinct accounts that names every holder, the counts sum to
/// the number of badges awarded, and an account it does not name has none.
pub proof fn law_counts_sum_to_total(s: VotingBadgeView, accounts: Seq<Seq<char>>)
    requires
        s.wf(),
        accounts.no_duplicates(),
        forall|i: int| 0 <= i < s.badges.len() ==> accounts.contains(#[trigger] s.badges[i].holder),
    ensures
        count_sum(s, accounts) == s.total_badges(),
        forall|h: Seq<char>| !accounts.contains(h) ==> #[trigger] s.holder_count(h) == 0,
{
    lemma_count_sum_is_held_sum(s, accounts);
    lemma_held_sum_total(s.badges, accounts);
    assert forall|h: Seq<char>| !accounts.contains(h) implies #[trigger] s.holder_count(h) == 0 by {
        assert forall|i: int| 0 <= i < s.badges.len() implies #[trigger] s.badges[i].holder != h by {
            assert(accounts.contains(s.badges[i].holder));
        }
        lemma_held_none(s.badges, h);
    }
}

/// A vote on an open poll is refused only for a cause: for an option the
/// poll offers, by a voter who has not voted on it, with room left in that
/// option's count and the total, it is recorded, whichever option it is.
pub proof fn law_poll_vote_succeeds(poll: PollView, option_index: u32, already_voted: bool)
    requires
        poll.wf(),
        poll.active,
        option_index < poll.options.len(),
        !already_voted,
        poll.votes[option_index as int] < u32::MAX,
        poll.total_votes < u32::MAX,
    ensures
        poll.vote_outcome(option_index, already_voted) is Ok,
        poll.vote_outcome(option_index, already_voted)->Ok_0.votes[option_index as int]
            == poll.votes[option_index as int] + 1,
{
}

/// A vote on an existing open poll, for an option it offers, by an account
/// that has not voted on it, with room left in that option's count and the
/// total, is recorded, whoever votes (the poll's creator too) and whichever
/// option it is.
pub proof fn law_vote_succeeds(s: LivePollView, voter: Address, poll_id: u32, option_index: u32)
    requires
        s.wf(),
        poll_id < s.polls.len(),
        s.polls[poll_id as int].active,
        option_index < s.polls[poll_id as int].options.len(),
        !s.has_voted(poll_id, voter@),
        s.polls[poll_id as int].votes[option_index as int] < u32::MAX,
        s.polls[poll_id as int].total_votes < u32::MAX,
    ensures
        s.vote(voter, poll_id, option_index) is Ok,
        s.vote(voter, poll_id, option_index)->Ok_0.has_voted(poll_id, voter@),
{
    assert(s.polls[poll_id as int].wf());
    law_poll_vote_succeeds(s.polls[poll_id as int], option_index, false);
    let t = s.vote(voter, poll_id, option_index)->Ok_0;
    assert(t.voters[poll_id as int].last() == voter@);
}

/// Creating a poll with between two and ten options succeeds, whatever the
/// question and whoever creates it, while ids remain.
pub proof fn law_create_succeeds(
    s: LivePollView,
    creator: Address,
    question: Seq<u8>,
    options: Seq<Seq<u8>>,
)
    requires
        s.wf(),
        s.poll_count() < u32::MAX,
        2 <= options.len() <= 10,
    ensures
        s.create(creator, question, options) is Ok,
        s.create(creator, question, options)->Ok_0.0.poll(s.poll_count()) matches Ok(p) && p.question
            == question && p.options == options,
{
}

/// Closing a poll closes that poll alone: every other poll, every recorded
/// vote and the poll count stay as they were, and the closed poll keeps its
/// question, options, counts and creator.
pub proof fn law_close_touches_only_that_poll(s: LivePollView, caller: Seq<char>, poll_id: u32)
    requires
        s.wf(),
        s.close(caller, poll_id) is Ok,
    ensures
        ({
            let t = s.close(caller, poll_id)->Ok_0;
            &&& forall|q: u32| q != poll_id ==> #[trigger] t.poll(q) == s.poll(q)
            &&& t.polls[poll_id as int] == PollView { active: false, ..s.polls[poll_id as int] }
            &&& forall|q: u32, v: Seq<char>| #[trigger] t.has_voted(q, v) == s.has_voted(q, v)
            &&& t.poll_count() == s.poll_count()
        }),
{
    let t = s.close(caller, poll_id)->Ok_0;
    assert forall|q: u32| q != poll_id implies #[trigger] t.poll(q) == s.poll(q) by {
        if q < s.polls.len() {
            assert(t.polls[q as int] == s.polls[q as int]);
        }
    }
}

/// Awarding a badge succeeds for every holder, however many badges it already
/// holds, while badge ids remain.
pub proof fn law_award_succeeds(s: VotingBadgeView, holder: Address, badge_type: Seq<u8>, timestamp: u64)
    requires
        s.wf(),
        s.total_badges() < u32::MAX,
    ensures
        s.award(holder, badge_type, timestamp) is Ok,
        s.award(holder, badge_type, timestamp)->Ok_0.0.holder_count(holder@) == s.holder_count(holder@)
            + 1,
{
    law_holder_count_is_badges_held(s, holder@);
}

/// Through the deployed contracts, a vote that the poll contract records is
/// never refused for who the voter is: while badge ids remain, it succeeds and
/// earns the badge, the poll's creator included.
pub proof fn law_deployed_vote_succeeds(
    polls: LivePollView,
    badges: VotingBadgeView,
    voter: Address,
    poll_id: u32,
    option_index: u32,
    timestamp: u64,
)
    requires
        polls.wf(),
        badges.wf(),
        poll_id < polls.polls.len(),
        polls.polls[poll_id as int].active,
        option_index < polls.polls[poll_id as int].options.len(),
        !polls.has_voted(poll_id, voter@),
        polls.polls[poll_id as int].votes[option_index as int] < u32::MAX,
        polls.polls[poll_id as int].total_votes < u32::MAX,
        badges.total_badges() < u32::MAX,
    ensures
        vote_outcome(polls, badges, voter, poll_id, option_index, timestamp) is Ok,
        vote_outcome(polls, badges, voter, poll_id, option_index, timestamp)->Ok_0.2
            == badges.total_badges(),
{
    law_vote_succeeds(polls, voter, poll_id, option_index);
    law_award_succeeds(badges, voter, spec_vote_badge_type(), timestamp);
}

} // verus!
