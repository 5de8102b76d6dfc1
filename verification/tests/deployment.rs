use stellar_poll::{Address, BadgeError, CallError, PollError, StellarPoll};

fn text(s: &str) -> Vec<u8> {
    s.as_bytes().to_vec()
}

fn account(n: u32) -> Address {
    Address::new(&format!("GACCOUNT{:048}", n))
}

fn deployed() -> StellarPoll {
    let mut d = StellarPoll::new();
    d.live_poll.initialize().unwrap();
    d.voting_badge.initialize(account(0)).unwrap();
    d.live_poll
        .create_poll(account(0), text("Q"), vec![text("A"), text("B")])
        .unwrap();
    d
}

#[test]
fn each_vote_awards_the_voter_a_badge() {
    let mut d = deployed();
    assert_eq!(d.vote(account(1), 0, 1, 1000), Ok(0));
    assert_eq!(d.vote(account(2), 0, 0, 1001), Ok(1));
    assert_eq!(d.live_poll.get_results(0).unwrap(), vec![1, 1]);
    assert_eq!(d.voting_badge.get_total_badges(), 2);
    assert_eq!(d.voting_badge.get_holder_count(&account(1)), 1);
    assert!(d.voting_badge.has_badge(&account(2), 1));
    let badge = d.voting_badge.get_badge(0).unwrap();
    assert_eq!(badge.badge_type, text("voter"));
    assert_eq!(badge.timestamp, 1000);
    assert!(badge.holder.same_as(&account(1)));
}

#[test]
fn a_refused_vote_awards_nothing() {
    let mut d = deployed();
    d.vote(account(1), 0, 1, 5).unwrap();
    assert_eq!(d.vote(account(1), 0, 0, 6), Err(CallError::Poll(PollError::AlreadyVoted)));
    assert_eq!(d.vote(account(2), 4, 0, 6), Err(CallError::Poll(PollError::PollNotFound)));
    assert_eq!(d.voting_badge.get_total_badges(), 1);
    assert_eq!(d.voting_badge.get_holder_count(&account(1)), 1);
    assert_eq!(d.voting_badge.events().len(), 1);
    assert_eq!(d.live_poll.get_poll(0).unwrap().total_votes, 1);
    let _ = BadgeError::Overflow;
}

#[test]
fn votes_on_several_polls_earn_several_badges() {
    let mut d = deployed();
    d.live_poll
        .create_poll(account(0), text("R"), vec![text("X"), text("Y")])
        .unwrap();
    d.vote(account(1), 0, 0, 1).unwrap();
    d.vote(account(1), 1, 1, 2).unwrap();
    assert_eq!(d.voting_badge.get_holder_count(&account(1)), 2);
    assert!(d.live_poll.has_voted(0, &account(1)));
    assert!(d.live_poll.has_voted(1, &account(1)));
}
