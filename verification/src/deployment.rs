use vstd::prelude::*;

use crate::address::Address;
use crate::badge::{BadgeAwarded, BadgeError, BadgeView, VotingBadge, VotingBadgeView};
use crate::live_poll::{spec_vote_badge_type, LivePoll, LivePollView};
use crate::poll::PollError;

verus! {

/// Why a call is refused: by the poll contract, or by the badge contract that
/// it calls.
#[derive(Clone, Copy, Debug, PartialEq, Eq, Structural)]
pub enum CallError {
    Poll(PollError),
    Badge(BadgeError),
}

/// The two contracts deployed side by side, the poll contract calling the
/// badge contract to award a badge for each recorded vote.
pub struct StellarPoll {
    pub live_poll: LivePoll,
    pub voting_badge: VotingBadge,
}

/// What a vote does to both contracts: the poll contract records it, then has
/// the badge contract award the voter a badge; a refusal by either leaves both
/// as they were. On success, also the id of the badge awarded.
pub open spec fn vote_outcome(
    polls: LivePollView,
    badges: VotingBadgeView,
    voter: Address,
    poll_id: u32,
    option_index: u32,
    timestamp: u64,
) -> Result<(LivePollView, VotingBadgeView, u32), CallError> {
    match polls.vote(voter, poll_id, option_index) {
        Err(e) => Err(CallError::Poll(e)),
        Ok(p) => match badges.award(voter, spec_vote_badge_type(), timestamp) {
            Err(e) => Err(CallError::Badge(e)),
            Ok((b, id)) => Ok((p, b, id)),
        },
    }
}

impl StellarPoll {
    /// Both contracts freshly deployed.
    pub fn new() -> (res: StellarPoll)
        ensures
            res.live_poll@ == (LivePollView {
                next_id: None,
                polls: Seq::empty(),
                voters: Seq::empty(),
                events: Seq::empty(),
            }),
            res.voting_badge@.total is None,
            res.voting_badge@.admin is None,
            res.voting_badge@.badges == Seq::<BadgeView>::empty(),
            res.voting_badge@.counts == Map::<Seq<char>, u32>::empty(),
            res.voting_badge@.events == Seq::<BadgeAwarded>::empty(),
            res.live_poll@.wf(),
            res.voting_badge@.wf(),
    {
        StellarPoll { live_poll: LivePoll::new(), voting_badge: VotingBadge::new() }
    }

    /// Records the vote of `voter` for option `option_index` of poll
    /// `poll_id`, and awards the voter a badge at ledger time `timestamp`;
    /// returns the badge's id.
    pub fn vote(&mut self, voter: Address, poll_id: u32, option_index: u32, timestamp: u64) -> (res: Result<
        u32,
        CallError,
    >)
        requires
            old(self).live_poll@.wf(),
            old(self).voting_badge@.wf(),
        ensures
            final(self).live_poll@.wf(),
            final(self).voting_badge@.wf(),
            match (
                res,
                vote_outcome(
                    old(self).live_poll@,
                    old(self).voting_badge@,
                    voter,
                    poll_id,
                    option_index,
                    timestamp,
                ),
            ) {
                (Ok(id), Ok((p, b, badge_id))) => {
                    &&& id == badge_id
                    &&& final(self).live_poll@ == p
                    &&& final(self).voting_badge@ == b
                },
                (Err(e), Err(f)) => {
                    &&& e == f
                    &&& final(self).live_poll@ == old(self).live_poll@
                    &&& final(self).voting_badge@ == old(self).voting_badge@
                },
                _ => false,
            },
    {
        if self.voting_badge.get_total_badges() == u32::MAX {
            return match self.live_poll.vote_refusal(&voter, poll_id, option_index) {
                Some(e) => Err(CallError::Poll(e)),
                None => Err(CallError::Badge(BadgeError::Overflow)),
            };
        }
        let request = match self.live_poll.vote(voter, poll_id, option_index) {
            Ok(r) => r,
            Err(e) => {
                return Err(CallError::Poll(e));
            },
        };
        match self.voting_badge.award_badge(request.holder, request.badge_type, timestamp) {
            Ok(id) => Ok(id),
            Err(e) => Err(CallError::Badge(e)),
        }
    }
}

} // verus!
