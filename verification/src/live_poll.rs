use vstd::prelude::*;

use crate::address::Address;
use crate::poll::{copy_counts, lemma_sum_increment, option_count_ok, texts, Poll, PollError, PollView};

verus! {

/// What the poll contract publishes when a call succeeds.
#[derive(Debug)]
pub enum PollEvent {
    Created { poll_id: u32, creator: Address },
    Voted { poll_id: u32, voter: Address, option_index: u32 },
    Closed { poll_id: u32 },
}

/// The storage of the poll contract.
///
/// `next_id` is the counter kept in instance storage, absent until the
/// contract is initialized or its first poll is created; poll `i` is the
/// record stored under key `i`; `voters[i]` lists, in the order in which they
/// voted, the accounts whose vote on poll `i` is recorded; `events` is what
/// the contract has published.
pub struct LivePoll {
    next_id: Option<u32>,
    polls: Vec<Poll>,
    voters: Vec<Vec<Address>>,
    events: Vec<PollEvent>,
}

/// The storage of the poll contract as plain values.
pub struct LivePollView {
    pub next_id: Option<u32>,
    pub polls: Seq<PollView>,
    pub voters: Seq<Seq<Seq<char>>>,
    pub events: Seq<PollEvent>,
}

/// The keys of a list of accounts.
pub open spec fn keys(s: Seq<Address>) -> Seq<Seq<char>> {
    s.map_values(|a: Address| a@)
}

impl View for LivePoll {
    type V = LivePollView;

    closed spec fn view(&self) -> LivePollView {
        LivePollView {
            next_id: self.next_id,
            polls: self.polls@.map_values(|p: Poll| p@),
            voters: self.voters@.map_values(|v: Vec<Address>| keys(v@)),
            events: self.events@,
        }
    }
}

impl LivePollView {
    /// The number of polls created so far, which is also the id of the next one.
    pub open spec fn poll_count(self) -> u32 {
        match self.next_id {
            Some(n) => n,
            None => 0,
        }
    }

    /// Whether the vote of `voter` on poll `poll_id` is recorded.
    pub open spec fn has_voted(self, poll_id: u32, voter: Seq<char>) -> bool {
        &&& poll_id < self.voters.len()
        &&& self.voters[poll_id as int].contains(voter)
    }

    /// The storage that the contract can reach: poll `i` stored under key `i`
    /// for each `i` below the counter, each well formed, and each with a total
    /// that is the number of distinct accounts recorded as its voters.
    pub open spec fn wf(self) -> bool {
        &&& self.polls.len() == self.poll_count()
        &&& self.voters.len() == self.polls.len()
        &&& forall|i: int|
            #![trigger self.polls[i]]
            0 <= i < self.polls.len() ==> {
                &&& self.polls[i].id == i
                &&& self.polls[i].wf()
                &&& self.polls[i].total_votes == self.voters[i].len()
                &&& self.voters[i].no_duplicates()
            }
    }

    /// What `initialize` does.
    pub open spec fn initialize(self) -> Result<LivePollView, PollError> {
        if self.next_id is Some {
            Err(PollError::AlreadyInitialized)
        } else {
            Ok(LivePollView { next_id: Some(0), ..self })
        }
    }

    /// What `create_poll` does; on success, also the new poll's id.
    pub open spec fn create(
        self,
        creator: Address,
        question: Seq<u8>,
        options: Seq<Seq<u8>>,
    ) -> Result<(LivePollView, u32), PollError> {
        let id = self.poll_count();
        if !option_count_ok(options.len() as int) {
            Err(PollError::InvalidOptionCount)
        } else if id == u32::MAX {
            Err(PollError::Overflow)
        } else {
            Ok(
                (
                    LivePollView {
                        next_id: Some((id + 1) as u32),
                        polls: self.polls.push(PollView::opened(id, creator@, question, options)),
                        voters: self.voters.push(Seq::empty()),
                        events: self.events.push(PollEvent::Created { poll_id: id, creator }),
                    },
                    id,
                ),
            )
        }
    }

    /// What `vote` does.
    pub open spec fn vote(self, voter: Address, poll_id: u32, option_index: u32) -> Result<
        LivePollView,
        PollError,
    > {
        if poll_id >= self.polls.len() {
            Err(PollError::PollNotFound)
        } else {
            let p = poll_id as int;
            match self.polls[p].vote_outcome(option_index, self.has_voted(poll_id, voter@)) {
                Ok(poll) => Ok(
                    LivePollView {
                        polls: self.polls.update(p, poll),
                        voters: self.voters.update(p, self.voters[p].push(voter@)),
                        events: self.events.push(PollEvent::Voted { poll_id, voter, option_index }),
                        ..self
                    },
                ),
                Err(e) => Err(e),
            }
        }
    }

    /// What `close_poll` does.
    pub open spec fn close(self, caller: Seq<char>, poll_id: u32) -> Result<LivePollView, PollError> {
        if poll_id >= self.polls.len() {
            Err(PollError::PollNotFound)
        } else {
            let p = poll_id as int;
            match self.polls[p].close_outcome(caller) {
                Ok(poll) => Ok(
                    LivePollView {
                        polls: self.polls.update(p, poll),
                        events: self.events.push(PollEvent::Closed { poll_id }),
                        ..self
                    },
                ),
                Err(e) => Err(e),
            }
        }
    }

    /// What `get_poll` reads.
    pub open spec fn poll(self, poll_id: u32) -> Result<PollView, PollError> {
        if poll_id < self.polls.len() {
            Ok(self.polls[poll_id as int])
        } else {
            Err(PollError::PollNotFound)
        }
    }
}

/// `initialize` keeps the storage well formed.
pub proof fn lemma_initialize_keeps_wf(s: LivePollView)
    requires
        s.wf(),
    ensures
        s.initialize() matches Ok(t) ==> t.wf(),
{
}

/// `create_poll` keeps the storage well formed.
pub proof fn lemma_create_keeps_wf(
    s: LivePollView,
    creator: Address,
    question: Seq<u8>,
    options: Seq<Seq<u8>>,
)
    requires
        s.wf(),
    ensures
        s.create(creator, question, options) matches Ok((t, id)) ==> t.wf(),
{
    if let Ok((t, id)) = s.create(creator, question, options) {
        crate::poll::lemma_sum_zeros(options.len());
        assert forall|i: int| #![trigger t.polls[i]] 0 <= i < t.polls.len() implies {
            &&& t.polls[i].id == i
            &&& t.polls[i].wf()
            &&& t.polls[i].total_votes == t.voters[i].len()
            &&& t.voters[i].no_duplicates()
        } by {
            if i < s.polls.len() {
                assert(t.polls[i] == s.polls[i]);
            }
        }
    }
}

/// `vote` keeps the storage well formed.
pub proof fn lemma_vote_keeps_wf(s: LivePollView, voter: Address, poll_id: u32, option_index: u32)
    requires
        s.wf(),
    ensures
        s.vote(voter, poll_id, option_index) matches Ok(t) ==> t.wf(),
{
    if let Ok(t) = s.vote(voter, poll_id, option_index) {
        let p = poll_id as int;
        assert(s.polls[p].wf());
        lemma_sum_increment(s.polls[p].votes, option_index as int);
        assert forall|i: int| #![trigger t.polls[i]] 0 <= i < t.polls.len() implies {
            &&& t.polls[i].id == i
            &&& t.polls[i].wf()
            &&& t.polls[i].total_votes == t.voters[i].len()
            &&& t.voters[i].no_duplicates()
        } by {
            if i != p {
                assert(t.polls[i] == s.polls[i]);
            } else {
                assert(!s.voters[p].contains(voter@));
                assert(t.voters[p] == s.voters[p].push(voter@));
                assert forall|a: int, b: int|
                    0 <= a < t.voters[p].len() && 0 <= b < t.voters[p].len() && a != b implies
                    t.voters[p][a] != t.voters[p][b] by {
                    if a == s.voters[p].len() {
                        assert(s.voters[p].contains(s.voters[p][b]));
                    } else if b == s.voters[p].len() {
                        assert(s.voters[p].contains(s.voters[p][a]));
                    }
                }
            }
        }
    }
}

/// `close_poll` keeps the storage well formed.
pub proof fn lemma_close_keeps_wf(s: LivePollView, caller: Seq<char>, poll_id: u32)
    requires
        s.wf(),
    ensures
        s.close(caller, poll_id) matches Ok(t) ==> t.wf(),
{
    if let Ok(t) = s.close(caller, poll_id) {
        assert forall|i: int| #![trigger t.polls[i]] 0 <= i < t.polls.len() implies {
            &&& t.polls[i].id == i
            &&& t.polls[i].wf()
            &&& t.polls[i].total_votes == t.voters[i].len()
            &&& t.voters[i].no_duplicates()
        } by {
            if i != poll_id as int {
                assert(t.polls[i] == s.polls[i]);
            } else {
                assert(s.polls[i].wf());
            }
        }
    }
}

/// Whether `voter` is among `list`.
fn listed(list: &Vec<Address>, voter: &Address) -> (res: bool)
    ensures
        res == keys(list@).contains(voter@),
{
    let mut k: usize = 0;
    while k < list.len()
        invariant
            k <= list.len(),
            forall|j: int| 0 <= j < k ==> list@[j]@ != voter@,
        decreases list.len() - k,
    {
        if list[k].same_as(voter) {
            assert(keys(list@)[k as int] == voter@);
            return true;
        }
        k = k + 1;
    }
    assert forall|j: int| 0 <= j < keys(list@).len() implies keys(list@)[j] != voter@ by {
        assert(list@[j]@ != voter@);
    }
    false
}

/// The badge that the poll contract asks the badge contract to award.
#[derive(Debug)]
pub struct BadgeRequest {
    pub holder: Address,
    pub badge_type: Vec<u8>,
}

/// The type of the badge awarded for a vote.
pub open spec fn spec_vote_badge_type() -> Seq<u8> {
    seq![118u8, 111u8, 116u8, 101u8, 114u8]
}

/// The type of the badge awarded for a vote.
pub fn vote_badge_type() -> (res: Vec<u8>)
    ensures
        res@ == spec_vote_badge_type(),
{
    let res = vec![118u8, 111u8, 116u8, 101u8, 114u8];
    assert(res@ =~= spec_vote_badge_type());
    res
}

/// What creating a poll writes and publishes.
#[derive(Debug)]
pub struct Creation {
    /// The poll to store under its id.
    pub poll: Poll,
    /// The counter's new value.
    pub next_id: u32,
    /// The event to publish.
    pub event: PollEvent,
}

/// What a recorded vote writes, publishes and asks of the badge contract;
/// the vote of the voter on the poll is recorded besides.
#[derive(Debug)]
pub struct Ballot {
    /// The poll to store back under its id.
    pub poll: Poll,
    /// The event to publish.
    pub event: PollEvent,
    /// The badge to have awarded to the voter.
    pub badge: BadgeRequest,
}

/// Creation of a poll of `creator` on `question` with the given options,
/// where `next_id` is the counter as stored: the poll gets the counter's
/// value, zero where it is absent, as its id.
pub fn create_step(next_id: Option<u32>, creator: Address, question: Vec<u8>, options: Vec<Vec<u8>>) -> (res:
    Result<Creation, PollError>)
    ensures
        ({
            let id = match next_id {
                Some(n) => n,
                None => 0u32,
            };
            match res {
                Ok(c) => {
                    &&& option_count_ok(options.len() as int)
                    &&& id < u32::MAX
                    &&& c.poll@ == PollView::opened(id, creator@, question@, texts(options@))
                    &&& c.next_id == id + 1
                    &&& c.event == PollEvent::Created { poll_id: id, creator }
                },
                Err(e) => if !option_count_ok(options.len() as int) {
                    e == PollError::InvalidOptionCount
                } else {
                    id == u32::MAX && e == PollError::Overflow
                },
            }
        }),
{
    let id = match next_id {
        Some(n) => n,
        None => 0,
    };
    let announced = creator.clone();
    let poll = match Poll::open(id, creator, question, options) {
        Ok(p) => p,
        Err(e) => {
            return Err(e);
        },
    };
    if id == u32::MAX {
        return Err(PollError::Overflow);
    }
    Ok(Creation { poll, next_id: id + 1, event: PollEvent::Created { poll_id: id, creator: announced } })
}

/// A vote of `voter` for option `option_index` of the stored `poll`, where
/// `already_voted` says whether the voter's vote on it is recorded.
pub fn vote_step(poll: Poll, already_voted: bool, voter: Address, option_index: u32) -> (res: Result<
    Ballot,
    PollError,
>)
    requires
        poll.votes@.len() == poll.options@.len(),
    ensures
        match poll@.vote_outcome(option_index, already_voted) {
            Ok(next) => match res {
                Ok(b) => {
                    &&& b.poll@ == next
                    &&& b.event == PollEvent::Voted { poll_id: poll.id, voter, option_index }
                    &&& b.badge.holder == voter
                    &&& b.badge.badge_type@ == spec_vote_badge_type()
                },
                Err(_) => false,
            },
            Err(e) => match res {
                Ok(_) => false,
                Err(f) => f == e,
            },
        },
{
    let mut poll = poll;
    let poll_id = poll.id;
    if let Err(e) = poll.record_vote(option_index, already_voted) {
        return Err(e);
    }
    let holder = voter.clone();
    Ok(
        Ballot {
            poll,
            event: PollEvent::Voted { poll_id, voter, option_index },
            badge: BadgeRequest { holder, badge_type: vote_badge_type() },
        },
    )
}

impl LivePoll {
    /// The storage of a freshly deployed contract: no counter, no polls.
    pub fn new() -> (res: LivePoll)
        ensures
            res@ == (LivePollView {
                next_id: None,
                polls: Seq::empty(),
                voters: Seq::empty(),
                events: Seq::empty(),
            }),
            res@.wf(),
    {
        let res = LivePoll { next_id: None, polls: Vec::new(), voters: Vec::new(), events: Vec::new() };
        assert(res@.polls =~= Seq::<PollView>::empty());
        assert(res@.voters =~= Seq::<Seq<Seq<char>>>::empty());
        res
    }

    /// Sets the poll counter to zero; refused once the counter exists.
    pub fn initialize(&mut self) -> (res: Result<(), PollError>)
        requires
            old(self)@.wf(),
        ensures
            final(self)@.wf(),
            match (res, old(self)@.initialize()) {
                (Ok(()), Ok(next)) => final(self)@ == next,
                (Err(e), Err(f)) => e == f && final(self)@ == old(self)@,
                _ => false,
            },
    {
        if self.next_id.is_some() {
            return Err(PollError::AlreadyInitialized);
        }
        self.next_id = Some(0);
        Ok(())
    }

    /// Creates a poll of `creator` on `question` with the given options, and
    /// returns its id: the number of polls created before it.
    pub fn create_poll(&mut self, creator: Address, question: Vec<u8>, options: Vec<Vec<u8>>) -> (res:
        Result<u32, PollError>)
        requires
            old(self)@.wf(),
        ensures
            final(self)@.wf(),
            match (res, old(self)@.create(creator, question@, texts(options@))) {
                (Ok(id), Ok((next, new_id))) => id == new_id && final(self)@ == next,
                (Err(e), Err(f)) => e == f && final(self)@ == old(self)@,
                _ => false,
            },
    {
        let ghost old_view = self@;
        let ghost spec_creator = creator;
        let ghost spec_question = question@;
        let ghost spec_options = texts(options@);
        let creation = match create_step(self.next_id, creator, question, options) {
            Ok(c) => c,
            Err(e) => {
                return Err(e);
            },
        };
        let id = creation.poll.id;
        self.polls.push(creation.poll);
        self.voters.push(Vec::new());
        self.next_id = Some(creation.next_id);
        self.events.push(creation.event);
        proof {
            let expected = old_view.create(spec_creator, spec_question, spec_options);
            assert(expected is Ok);
            let (t, tid) = expected->Ok_0;
            let last = self.voters@.len() - 1;
            assert(keys(self.voters@[last]@) =~= Seq::<Seq<char>>::empty());
            assert(self@.polls =~= t.polls);
            assert(self@.voters =~= t.voters);
            assert(self@.events =~= t.events);
            lemma_create_keeps_wf(old_view, spec_creator, spec_question, spec_options);
        }
        Ok(id)
    }

    /// Why the vote of `voter` for option `option_index` of poll `poll_id`
    /// would be refused, if it would.
    pub fn vote_refusal(&self, voter: &Address, poll_id: u32, option_index: u32) -> (res: Option<PollError>)
        requires
            self@.wf(),
        ensures
            match self@.vote(*voter, poll_id, option_index) {
                Ok(_) => res is None,
                Err(e) => res == Some(e),
            },
    {
        let i = poll_id as usize;
        if i >= self.polls.len() {
            return Some(PollError::PollNotFound);
        }
        proof {
            assert(self@.polls[i as int] == self.polls@[i as int]@);
            assert(self@.polls[i as int].wf());
            assert(self@.voters[i as int] == keys(self.voters@[i as int]@));
        }
        let already = listed(&self.voters[i], voter);
        self.polls[i].vote_refusal(option_index, already)
    }

    /// Records the vote of `voter` for option `option_index` of poll
    /// `poll_id`, and returns the badge that the contract then asks the badge
    /// contract to award to the voter.
    pub fn vote(&mut self, voter: Address, poll_id: u32, option_index: u32) -> (res: Result<BadgeRequest, PollError>)
        requires
            old(self)@.wf(),
        ensures
            final(self)@.wf(),
            match (res, old(self)@.vote(voter, poll_id, option_index)) {
                (Ok(request), Ok(next)) => {
                    &&& final(self)@ == next
                    &&& request.holder == voter
                    &&& request.badge_type@ == spec_vote_badge_type()
                },
                (Err(e), Err(f)) => e == f && final(self)@ == old(self)@,
                _ => false,
            },
    {
        let ghost old_view = self@;
        let ghost spec_voter = voter;
        let i = poll_id as usize;
        if i >= self.polls.len() {
            return Err(PollError::PollNotFound);
        }
        proof {
            assert(old_view.polls[i as int] == self.polls@[i as int]@);
            assert(old_view.polls[i as int].wf());
            assert(old_view.voters[i as int] == keys(self.voters@[i as int]@));
        }
        let already = listed(&self.voters[i], &voter);
        let ballot = match vote_step(self.polls[i].clone(), already, voter.clone(), option_index) {
            Ok(b) => b,
            Err(e) => {
                return Err(e);
            },
        };
        self.polls.set(i, ballot.poll);
        self.voters[i].push(voter);
        self.events.push(ballot.event);
        proof {
            let expected = old_view.vote(spec_voter, poll_id, option_index);
            let t = expected->Ok_0;
            assert(self@.polls =~= t.polls);
            assert(keys(self.voters@[i as int]@) =~= old_view.voters[i as int].push(spec_voter@));
            assert(self@.voters =~= t.voters);
            assert(self@.events =~= t.events);
            lemma_vote_keeps_wf(old_view, spec_voter, poll_id, option_index);
        }
        Ok(ballot.badge)
    }

    /// Closes poll `poll_id` at the request of `caller`, who must be its creator.
    pub fn close_poll(&mut self, caller: &Address, poll_id: u32) -> (res: Result<(), PollError>)
        requires
            old(self)@.wf(),
        ensures
            final(self)@.wf(),
            match (res, old(self)@.close(caller@, poll_id)) {
                (Ok(()), Ok(next)) => final(self)@ == next,
                (Err(e), Err(f)) => e == f && final(self)@ == old(self)@,
                _ => false,
            },
    {
        let ghost old_view = self@;
        let i = poll_id as usize;
        if i >= self.polls.len() {
            return Err(PollError::PollNotFound);
        }
        let outcome = self.polls[i].close_by(caller);
        match outcome {
            Err(e) => {
                proof {
                    assert(self.polls@ =~= old(self).polls@);
                }
                return Err(e);
            },
            Ok(()) => {},
        }
        self.events.push(PollEvent::Closed { poll_id });
        proof {
            let t = old_view.close(caller@, poll_id)->Ok_0;
            assert(self@.polls =~= t.polls);
            assert(self@.events =~= t.events);
            lemma_close_keeps_wf(old_view, caller@, poll_id);
        }
        Ok(())
    }

    /// The poll stored under `poll_id`.
    pub fn get_poll(&self, poll_id: u32) -> (res: Result<Poll, PollError>)
        requires
            self@.wf(),
        ensures
            match (res, self@.poll(poll_id)) {
                (Ok(p), Ok(q)) => p@ == q,
                (Err(e), Err(f)) => e == f,
                _ => false,
            },
    {
        let i = poll_id as usize;
        if i >= self.polls.len() {
            return Err(PollError::PollNotFound);
        }
        Ok(self.polls[i].clone())
    }

    /// The vote counts of poll `poll_id`, one per option.
    pub fn get_results(&self, poll_id: u32) -> (res: Result<Vec<u32>, PollError>)
        requires
            self@.wf(),
        ensures
            match (res, self@.poll(poll_id)) {
                (Ok(v), Ok(q)) => v@ == q.votes,
                (Err(e), Err(f)) => e == f,
                _ => false,
            },
    {
        let i = poll_id as usize;
        if i >= self.polls.len() {
            return Err(PollError::PollNotFound);
        }
        Ok(copy_counts(&self.polls[i].votes))
    }

    /// The number of polls created so far.
    pub fn get_poll_count(&self) -> (res: u32)
        ensures
            res == self@.poll_count(),
    {
        match self.next_id {
            Some(n) => n,
            None => 0,
        }
    }

    /// Whether the vote of `voter` on poll `poll_id` is recorded.
    pub fn has_voted(&self, poll_id: u32, voter: &Address) -> (res: bool)
        requires
            self@.wf(),
        ensures
            res == self@.has_voted(poll_id, voter@),
    {
        let i = poll_id as usize;
        if i >= self.voters.len() {
            return false;
        }
        listed(&self.voters[i], voter)
    }

    /// What the contract has published, oldest first.
    pub fn events(&self) -> (res: &Vec<PollEvent>)
        ensures
            res@ == self@.events,
    {
        &self.events
    }
}

} // verus!
