use vstd::prelude::*;

use crate::address::Address;

verus! {

/// Fewest options a poll may offer.
pub const MIN_OPTIONS: usize = 2;

/// Most options a poll may offer.
pub const MAX_OPTIONS: usize = 10;

/// Why a call on the poll contract is refused.
#[derive(Clone, Copy, Debug, PartialEq, Eq, Structural)]
pub enum PollError {
    AlreadyInitialized,
    InvalidOptionCount,
    PollNotFound,
    PollClosed,
    InvalidOptionIndex,
    AlreadyVoted,
    NotCreator,
    Overflow,
}

impl PollError {
    /// The text with which the contract aborts for this error.
    pub open spec fn spec_message(self) -> Seq<char> {
        match self {
            PollError::AlreadyInitialized => "already initialized"@,
            PollError::InvalidOptionCount => "poll must have 2-10 options"@,
            PollError::PollNotFound => "poll not found"@,
            PollError::PollClosed => "poll is closed"@,
            PollError::InvalidOptionIndex => "invalid option index"@,
            PollError::AlreadyVoted => "already voted"@,
            PollError::NotCreator => "only creator can close poll"@,
            PollError::Overflow => "attempt to add with overflow"@,
        }
    }

    pub fn message(&self) -> (res: &'static str)
        ensures
            res@ == self.spec_message(),
    {
        match self {
            PollError::AlreadyInitialized => "already initialized",
            PollError::InvalidOptionCount => "poll must have 2-10 options",
            PollError::PollNotFound => "poll not found",
            PollError::PollClosed => "poll is closed",
            PollError::InvalidOptionIndex => "invalid option index",
            PollError::AlreadyVoted => "already voted",
            PollError::NotCreator => "only creator can close poll",
            PollError::Overflow => "attempt to add with overflow",
        }
    }
}

/// A poll as the contract stores it.
#[derive(Debug)]
pub struct Poll {
    pub id: u32,
    pub question: Vec<u8>,
    pub options: Vec<Vec<u8>>,
    pub votes: Vec<u32>,
    pub creator: Address,
    pub total_votes: u32,
    pub active: bool,
}

/// The storage entry that holds a poll.
#[derive(Debug)]
pub enum PollEntry {
    Poll(Poll),
}

/// A poll as plain mathematical values.
pub struct PollView {
    pub id: u32,
    pub question: Seq<u8>,
    pub options: Seq<Seq<u8>>,
    pub votes: Seq<u32>,
    pub creator: Seq<char>,
    pub total_votes: u32,
    pub active: bool,
}

/// The bytes of each text in a list.
pub open spec fn texts(s: Seq<Vec<u8>>) -> Seq<Seq<u8>> {
    s.map_values(|x: Vec<u8>| x@)
}

/// The sum of a sequence of counts.
pub open spec fn sum(s: Seq<u32>) -> int
    decreases s.len(),
{
    if s.len() == 0 {
        0
    } else {
        sum(s.drop_last()) + s.last()
    }
}

/// Whether a poll may offer `n` options.
pub open spec fn option_count_ok(n: int) -> bool {
    MIN_OPTIONS <= n <= MAX_OPTIONS
}

impl View for Poll {
    type V = PollView;

    open spec fn view(&self) -> PollView {
        PollView {
            id: self.id,
            question: self.question@,
            options: texts(self.options@),
            votes: self.votes@,
            creator: self.creator@,
            total_votes: self.total_votes,
            active: self.active,
        }
    }
}

impl PollView {
    /// A poll that the contract can have stored: one count per option, between
    /// two and ten options, and a total that is the sum of the counts.
    pub open spec fn wf(self) -> bool {
        &&& self.votes.len() == self.options.len()
        &&& option_count_ok(self.options.len() as int)
        &&& self.total_votes == sum(self.votes)
    }

    /// A newly opened poll: no votes yet, and active.
    pub open spec fn opened(
        id: u32,
        creator: Seq<char>,
        question: Seq<u8>,
        options: Seq<Seq<u8>>,
    ) -> PollView {
        PollView {
            id,
            question,
            options,
            votes: Seq::new(options.len(), |i: int| 0u32),
            creator,
            total_votes: 0,
            active: true,
        }
    }

    /// What a vote for `option_index` does to this poll, where `already_voted`
    /// says whether the voter has voted on it before.
    pub open spec fn vote_outcome(self, option_index: u32, already_voted: bool) -> Result<PollView, PollError> {
        if !self.active {
            Err(PollError::PollClosed)
        } else if option_index >= self.options.len() {
            Err(PollError::InvalidOptionIndex)
        } else if already_voted {
            Err(PollError::AlreadyVoted)
        } else if self.votes[option_index as int] == u32::MAX || self.total_votes == u32::MAX {
            Err(PollError::Overflow)
        } else {
            Ok(
                PollView {
                    votes: self.votes.update(
                        option_index as int,
                        (self.votes[option_index as int] + 1) as u32,
                    ),
                    total_votes: (self.total_votes + 1) as u32,
                    ..self
                },
            )
        }
    }

    /// What a request by `caller` to close this poll does to it.
    pub open spec fn close_outcome(self, caller: Seq<char>) -> Result<PollView, PollError> {
        if self.creator != caller {
            Err(PollError::NotCreator)
        } else {
            Ok(PollView { active: false, ..self })
        }
    }
}

/// Adding one to one count raises the sum by one.
pub proof fn lemma_sum_increment(s: Seq<u32>, i: int)
    requires
        0 <= i < s.len(),
        s[i] < u32::MAX,
    ensures
        sum(s.update(i, (s[i] + 1) as u32)) == sum(s) + 1,
    decreases s.len(),
{
    let t = s.update(i, (s[i] + 1) as u32);
    if i == s.len() - 1 {
        assert(t.drop_last() =~= s.drop_last());
    } else {
        assert(t.drop_last() =~= s.drop_last().update(i, (s[i] + 1) as u32));
        lemma_sum_increment(s.drop_last(), i);
    }
}

/// A sequence of zeros sums to zero.
pub proof fn lemma_sum_zeros(n: nat)
    ensures
        sum(Seq::new(n, |i: int| 0u32)) == 0,
    decreases n,
{
    if n > 0 {
        assert(Seq::new(n, |i: int| 0u32).drop_last() =~= Seq::new((n - 1) as nat, |i: int| 0u32));
        lemma_sum_zeros((n - 1) as nat);
    }
}

/// A copy of a list of counts.
pub(crate) fn copy_counts(v: &Vec<u32>) -> (res: Vec<u32>)
    ensures
        res@ == v@,
{
    let mut out: Vec<u32> = Vec::new();
    let mut k: usize = 0;
    while k < v.len()
        invariant
            k <= v.len(),
            out@ == v@.subrange(0, k as int),
        decreases v.len() - k,
    {
        out.push(v[k]);
        k = k + 1;
        assert(out@ =~= v@.subrange(0, k as int));
    }
    assert(v@.subrange(0, v.len() as int) =~= v@);
    out
}

/// A copy of a text.
pub(crate) fn copy_bytes(v: &Vec<u8>) -> (res: Vec<u8>)
    ensures
        res@ == v@,
{
    let mut out: Vec<u8> = Vec::new();
    let mut k: usize = 0;
    while k < v.len()
        invariant
            k <= v.len(),
            out@ == v@.subrange(0, k as int),
        decreases v.len() - k,
    {
        out.push(v[k]);
        k = k + 1;
        assert(out@ =~= v@.subrange(0, k as int));
    }
    assert(v@.subrange(0, v.len() as int) =~= v@);
    out
}

/// A copy of a list of texts.
fn copy_texts(v: &Vec<Vec<u8>>) -> (res: Vec<Vec<u8>>)
    ensures
        texts(res@) == texts(v@),
{
    let mut out: Vec<Vec<u8>> = Vec::new();
    let mut k: usize = 0;
    while k < v.len()
        invariant
            k <= v.len(),
            out@.len() == k,
            forall|j: int| 0 <= j < k ==> #[trigger] out@[j]@ == v@[j]@,
        decreases v.len() - k,
    {
        out.push(copy_bytes(&v[k]));
        k = k + 1;
    }
    assert(texts(out@) =~= texts(v@));
    out
}

impl Clone for Poll {
    fn clone(&self) -> (res: Self)
        ensures
            res@ == self@,
    {
        Poll {
            id: self.id,
            question: copy_bytes(&self.question),
            options: copy_texts(&self.options),
            votes: copy_counts(&self.votes),
            creator: self.creator.clone(),
            total_votes: self.total_votes,
            active: self.active,
        }
    }
}

impl Clone for PollEntry {
    fn clone(&self) -> (res: Self)
        ensures
            match (res, *self) {
                (PollEntry::Poll(a), PollEntry::Poll(b)) => a@ == b@,
            },
    {
        match self {
            PollEntry::Poll(p) => PollEntry::Poll(p.clone()),
        }
    }
}

impl Poll {
    /// Opens poll `id` of `creator` on `question`, with one count at zero per option.
    /// Refused unless there are between two and ten options.
    pub fn open(id: u32, creator: Address, question: Vec<u8>, options: Vec<Vec<u8>>) -> (res: Result<
        Poll,
        PollError,
    >)
        ensures
            match res {
                Ok(poll) => {
                    &&& option_count_ok(options.len() as int)
                    &&& poll@ == PollView::opened(id, creator@, question@, texts(options@))
                    &&& poll@.wf()
                },
                Err(e) => {
                    &&& !option_count_ok(options.len() as int)
                    &&& e == PollError::InvalidOptionCount
                },
            },
    {
        if options.len() < MIN_OPTIONS || options.len() > MAX_OPTIONS {
            return Err(PollError::InvalidOptionCount);
        }
        let n = options.len();
        let mut votes: Vec<u32> = Vec::new();
        let mut k: usize = 0;
        while k < n
            invariant
                k <= n,
                votes@ == Seq::new(k as nat, |i: int| 0u32),
            decreases n - k,
        {
            votes.push(0);
            k = k + 1;
        }
        proof {
            lemma_sum_zeros(n as nat);
        }
        let poll = Poll { id, question, options, votes, creator, total_votes: 0, active: true };
        assert(poll@.votes =~= Seq::new(texts(poll.options@).len(), |i: int| 0u32));
        Ok(poll)
    }

    /// Records one vote for `option_index`, where `already_voted` says whether
    /// the voter has voted on this poll before.
    pub fn record_vote(&mut self, option_index: u32, already_voted: bool) -> (res: Result<(), PollError>)
        requires
            old(self).votes@.len() == old(self).options@.len(),
        ensures
            match old(self)@.vote_outcome(option_index, already_voted) {
                Ok(next) => res is Ok && final(self)@ == next,
                Err(e) => res == Err::<(), PollError>(e) && *final(self) == *old(self),
            },
    {
        if let Some(e) = self.vote_refusal(option_index, already_voted) {
            return Err(e);
        }
        let i = option_index as usize;
        let current = self.votes[i];
        self.votes.set(i, current + 1);
        self.total_votes = self.total_votes + 1;
        Ok(())
    }

    /// Why a vote for `option_index` would be refused, if it would, where
    /// `already_voted` says whether the voter has voted on this poll before.
    pub fn vote_refusal(&self, option_index: u32, already_voted: bool) -> (res: Option<PollError>)
        requires
            self.votes@.len() == self.options@.len(),
        ensures
            match self@.vote_outcome(option_index, already_voted) {
                Ok(_) => res is None,
                Err(e) => res == Some(e),
            },
    {
        if !self.active {
            return Some(PollError::PollClosed);
        }
        if option_index as usize >= self.options.len() {
            return Some(PollError::InvalidOptionIndex);
        }
        if already_voted {
            return Some(PollError::AlreadyVoted);
        }
        if self.votes[option_index as usize] == u32::MAX || self.total_votes == u32::MAX {
            return Some(PollError::Overflow);
        }
        None
    }

    /// Closes the poll at the request of `caller`, who must be its creator.
    pub fn close_by(&mut self, caller: &Address) -> (res: Result<(), PollError>)
        ensures
            match old(self)@.close_outcome(caller@) {
                Ok(next) => res is Ok && final(self)@ == next,
                Err(e) => res == Err::<(), PollError>(e) && *final(self) == *old(self),
            },
    {
        if !self.creator.same_as(caller) {
            return Err(PollError::NotCreator);
        }
        self.active = false;
        Ok(())
    }
}

} // verus!
