use stellar_poll::live_poll::{create_step, vote_badge_type, vote_step};
use stellar_poll::{Address, LivePoll, Poll, PollError, PollEvent};

fn create_test_env() -> (LivePoll, Address) {
    let contract = LivePoll::new();
    let admin = Address::new("GADMIN0000000000000000000000000000000000000000000000000");
    (contract, admin)
}

fn account(n: u32) -> Address {
    Address::new(&format!("GVOTER{:050}", n))
}

fn strings(items: &[&str]) -> Vec<Vec<u8>> {
    items.iter().map(|s| text(s)).collect()
}

fn text(s: &str) -> Vec<u8> {
    s.as_bytes().to_vec()
}

#[test]
fn test_initialize() {
    let (mut client, _) = create_test_env();
    client.initialize().unwrap();
    assert_eq!(client.get_poll_count(), 0);
}

#[test]
#[should_panic(expected = "already initialized")]
fn test_initialize_twice_panics() {
    let (mut client, _) = create_test_env();
    client.initialize().unwrap();
    if let Err(e) = client.initialize() {
        panic!("{}", e.message());
    }
}

#[test]
fn test_create_poll() {
    let (mut client, admin) = create_test_env();
    client.initialize().unwrap();

    let question = text("Favorite color?");
    let options = strings(&["Red", "Blue"]);

    let poll_id = client.create_poll(admin, question.clone(), options).unwrap();
    assert_eq!(poll_id, 0);
    assert_eq!(client.get_poll_count(), 1);

    let poll = client.get_poll(0).unwrap();
    assert_eq!(poll.id, 0);
    assert_eq!(poll.question, question);
    assert_eq!(poll.total_votes, 0);
    assert!(poll.active);
}

#[test]
#[should_panic(expected = "poll must have 2-10 options")]
fn test_create_poll_invalid_options_too_few() {
    let (mut client, admin) = create_test_env();
    client.initialize().unwrap();

    let question = text("Only one?");
    let options = strings(&["Yes"]);

    if let Err(e) = client.create_poll(admin, question, options) {
        panic!("{}", e.message());
    }
}

#[test]
fn test_vote() {
    let (mut client, admin) = create_test_env();
    client.initialize().unwrap();

    let question = text("JS or Rust?");
    let options = strings(&["JS", "Rust"]);
    client.create_poll(admin, question, options).unwrap();

    let voter = account(1);
    client.vote(voter, 0, 1).unwrap();

    let results = client.get_results(0).unwrap();
    assert_eq!(results[0], 0);
    assert_eq!(results[1], 1);

    let poll = client.get_poll(0).unwrap();
    assert_eq!(poll.total_votes, 1);
}

#[test]
#[should_panic(expected = "already voted")]
fn test_already_voted() {
    let (mut client, admin) = create_test_env();
    client.initialize().unwrap();

    let question = text("A or B?");
    let options = strings(&["A", "B"]);
    client.create_poll(admin, question, options).unwrap();

    let voter = account(1);
    client.vote(voter.clone(), 0, 0).unwrap();

    assert!(client.has_voted(0, &voter));
    if let Err(e) = client.vote(voter, 0, 1) {
        panic!("{}", e.message());
    }
}

#[test]
fn test_close_poll() {
    let (mut client, admin) = create_test_env();
    client.initialize().unwrap();

    let question = text("Close me");
    let options = strings(&["Yes", "No"]);
    client.create_poll(admin.clone(), question, options).unwrap();
    client.close_poll(&admin, 0).unwrap();

    let poll = client.get_poll(0).unwrap();
    assert!(!poll.active);
}

#[test]
#[should_panic(expected = "only creator can close poll")]
fn test_close_poll_wrong_creator() {
    let (mut client, admin) = create_test_env();
    client.initialize().unwrap();

    let question = text("Nope");
    let options = strings(&["A", "B"]);
    client.create_poll(admin, question, options).unwrap();

    let other = account(7);
    if let Err(e) = client.close_poll(&other, 0) {
        panic!("{}", e.message());
    }
}

#[test]
#[should_panic(expected = "poll is closed")]
fn test_vote_on_closed_poll() {
    let (mut client, admin) = create_test_env();
    client.initialize().unwrap();

    let question = text("Closed poll");
    let options = strings(&["X", "Y"]);
    client.create_poll(admin.clone(), question, options).unwrap();
    client.close_poll(&admin, 0).unwrap();

    let voter = account(1);
    if let Err(e) = client.vote(voter, 0, 0) {
        panic!("{}", e.message());
    }
}

#[test]
fn test_multiple_voters() {
    let (mut client, admin) = create_test_env();
    client.initialize().unwrap();

    let question = text("Best chain?");
    let options = strings(&["Stellar", "Ethereum"]);
    client.create_poll(admin, question, options).unwrap();

    let v1 = account(1);
    let v2 = account(2);
    let v3 = account(3);

    client.vote(v1.clone(), 0, 0).unwrap();
    client.vote(v2.clone(), 0, 0).unwrap();
    client.vote(v3, 0, 1).unwrap();

    let results = client.get_results(0).unwrap();
    assert_eq!(results[0], 2);
    assert_eq!(results[1], 1);

    let poll = client.get_poll(0).unwrap();
    assert_eq!(poll.total_votes, 3);

    assert!(client.has_voted(0, &v1));
    assert!(client.has_voted(0, &v2));
    assert!(!client.has_voted(0, &account(4)));
}

#[test]
fn test_get_poll_count() {
    let (mut client, admin) = create_test_env();
    client.initialize().unwrap();

    assert_eq!(client.get_poll_count(), 0);

    let q1 = text("Q1");
    let q2 = text("Q2");
    let opts = strings(&["A", "B"]);

    client.create_poll(admin.clone(), q1, opts.clone()).unwrap();
    assert_eq!(client.get_poll_count(), 1);

    client.create_poll(admin, q2, opts).unwrap();
    assert_eq!(client.get_poll_count(), 2);
}

#[test]
fn test_events_published() {
    let (mut client, admin) = create_test_env();
    client.initialize().unwrap();

    let question = text("Event test");
    let options = strings(&["A", "B"]);
    client.create_poll(admin, question, options).unwrap();

    let events = client.events();
    assert!(events.len() >= 1);
}

// Further cases.

#[test]
fn create_poll_without_initialize_starts_at_zero() {
    let (mut client, admin) = create_test_env();
    assert_eq!(client.get_poll_count(), 0);
    let id = client.create_poll(admin, text("Q"), strings(&["A", "B"])).unwrap();
    assert_eq!(id, 0);
    assert_eq!(client.get_poll_count(), 1);
    assert_eq!(client.initialize(), Err(PollError::AlreadyInitialized));
    assert_eq!(client.get_poll_count(), 1);
}

#[test]
fn option_count_bounds() {
    let (mut client, admin) = create_test_env();
    client.initialize().unwrap();
    let ten: Vec<Vec<u8>> = (0..10).map(|i| text(&format!("o{}", i))).collect();
    let eleven: Vec<Vec<u8>> = (0..11).map(|i| text(&format!("o{}", i))).collect();
    assert_eq!(client.create_poll(admin.clone(), text("ten"), ten), Ok(0));
    assert_eq!(
        client.create_poll(admin.clone(), text("eleven"), eleven),
        Err(PollError::InvalidOptionCount)
    );
    assert_eq!(
        client.create_poll(admin.clone(), text("none"), Vec::new()),
        Err(PollError::InvalidOptionCount)
    );
    assert_eq!(client.get_poll_count(), 1);
    assert_eq!(client.get_results(0).unwrap(), vec![0u32; 10]);
    assert_eq!(client.events().len(), 1);
}

#[test]
fn created_poll_reads_back() {
    let (mut client, admin) = create_test_env();
    client.create_poll(admin.clone(), text("first"), strings(&["A", "B"])).unwrap();
    let id = client.create_poll(admin.clone(), text("second"), strings(&["X", "Y", "Z"])).unwrap();
    assert_eq!(id, 1);
    let poll = client.get_poll(1).unwrap();
    assert_eq!(poll.id, 1);
    assert_eq!(poll.question, text("second"));
    assert_eq!(poll.options, strings(&["X", "Y", "Z"]));
    assert_eq!(poll.votes, vec![0, 0, 0]);
    assert!(poll.creator.same_as(&admin));
    assert!(poll.active);
    assert_eq!(client.get_poll(0).unwrap().question, text("first"));
    assert!(!client.has_voted(1, &admin));
}

#[test]
fn missing_poll_is_refused() {
    let (mut client, admin) = create_test_env();
    assert_eq!(client.get_poll(0).err(), Some(PollError::PollNotFound));
    assert_eq!(client.get_results(3).err(), Some(PollError::PollNotFound));
    assert_eq!(client.vote(account(1), 0, 0).err(), Some(PollError::PollNotFound));
    assert_eq!(client.close_poll(&admin, 0), Err(PollError::PollNotFound));
    assert!(!client.has_voted(0, &account(1)));
    assert!(client.events().is_empty());
}

#[test]
fn invalid_option_index_is_refused() {
    let (mut client, admin) = create_test_env();
    client.create_poll(admin, text("Q"), strings(&["A", "B"])).unwrap();
    assert_eq!(client.vote(account(1), 0, 2).err(), Some(PollError::InvalidOptionIndex));
    assert!(!client.has_voted(0, &account(1)));
    assert_eq!(client.get_results(0).unwrap(), vec![0, 0]);
    // the refused call did not use up the account's vote
    assert!(client.vote(account(1), 0, 1).is_ok());
    assert_eq!(client.get_results(0).unwrap(), vec![0, 1]);
}

#[test]
fn one_vote_per_account_per_poll() {
    let (mut client, admin) = create_test_env();
    client.create_poll(admin.clone(), text("P0"), strings(&["A", "B"])).unwrap();
    client.create_poll(admin, text("P1"), strings(&["A", "B"])).unwrap();
    let v = account(9);
    client.vote(v.clone(), 0, 0).unwrap();
    assert_eq!(client.vote(v.clone(), 0, 0).err(), Some(PollError::AlreadyVoted));
    assert_eq!(client.vote(v.clone(), 0, 5).err(), Some(PollError::InvalidOptionIndex));
    // the same account may still vote on another poll
    assert!(client.vote(v.clone(), 1, 1).is_ok());
    assert!(client.has_voted(0, &v));
    assert!(client.has_voted(1, &v));
    assert_eq!(client.get_results(0).unwrap(), vec![1, 0]);
    assert_eq!(client.get_results(1).unwrap(), vec![0, 1]);
    assert_eq!(client.get_poll(0).unwrap().total_votes, 1);
}

#[test]
fn closing_is_permanent_and_for_the_creator_only() {
    let (mut client, admin) = create_test_env();
    client.create_poll(admin.clone(), text("Q"), strings(&["A", "B"])).unwrap();
    client.vote(account(1), 0, 0).unwrap();
    assert_eq!(client.close_poll(&account(1), 0), Err(PollError::NotCreator));
    assert!(client.get_poll(0).unwrap().active);
    client.close_poll(&admin, 0).unwrap();
    // closing again is allowed and changes nothing
    client.close_poll(&admin, 0).unwrap();
    assert!(!client.get_poll(0).unwrap().active);
    assert_eq!(client.vote(account(2), 0, 1).err(), Some(PollError::PollClosed));
    // a closed poll keeps its results
    assert_eq!(client.get_results(0).unwrap(), vec![1, 0]);
}

#[test]
fn events_describe_each_call() {
    let (mut client, admin) = create_test_env();
    client.initialize().unwrap();
    assert!(client.events().is_empty());
    client.create_poll(admin.clone(), text("Q"), strings(&["A", "B"])).unwrap();
    client.vote(account(1), 0, 1).unwrap();
    assert!(client.vote(account(1), 0, 1).is_err());
    client.close_poll(&admin, 0).unwrap();
    let events = client.events();
    assert_eq!(events.len(), 3);
    match &events[0] {
        PollEvent::Created { poll_id, creator } => {
            assert_eq!(*poll_id, 0);
            assert!(creator.same_as(&admin));
        }
        _ => panic!("expected a creation"),
    }
    match &events[1] {
        PollEvent::Voted { poll_id, voter, option_index } => {
            assert_eq!((*poll_id, *option_index), (0, 1));
            assert!(voter.same_as(&account(1)));
        }
        _ => panic!("expected a vote"),
    }
    match &events[2] {
        PollEvent::Closed { poll_id } => assert_eq!(*poll_id, 0),
        _ => panic!("expected a closing"),
    }
}

#[test]
fn error_messages() {
    assert_eq!(PollError::AlreadyInitialized.message(), "already initialized");
    assert_eq!(PollError::InvalidOptionCount.message(), "poll must have 2-10 options");
    assert_eq!(PollError::PollNotFound.message(), "poll not found");
    assert_eq!(PollError::PollClosed.message(), "poll is closed");
    assert_eq!(PollError::InvalidOptionIndex.message(), "invalid option index");
    assert_eq!(PollError::AlreadyVoted.message(), "already voted");
    assert_eq!(PollError::NotCreator.message(), "only creator can close poll");
    assert_eq!(PollError::Overflow.message(), "attempt to add with overflow");
}

#[test]
fn record_vote_refuses_overflow() {
    let mut poll = Poll::open(4, account(1), text("Q"), strings(&["A", "B"])).unwrap();
    assert_eq!(poll.votes, vec![0, 0]);
    poll.votes = vec![u32::MAX, 0];
    poll.total_votes = u32::MAX;
    assert_eq!(poll.record_vote(1, false), Err(PollError::Overflow));
    assert_eq!(poll.votes, vec![u32::MAX, 0]);
    poll.total_votes = 7;
    assert_eq!(poll.record_vote(0, false), Err(PollError::Overflow));
    assert_eq!(poll.record_vote(1, false), Ok(()));
    assert_eq!(poll.votes, vec![u32::MAX, 1]);
    assert_eq!(poll.total_votes, 8);
}

#[test]
fn record_vote_checks_in_order() {
    let mut poll = Poll::open(0, account(1), text("Q"), strings(&["A", "B"])).unwrap();
    assert_eq!(poll.record_vote(9, true), Err(PollError::InvalidOptionIndex));
    assert_eq!(poll.record_vote(0, true), Err(PollError::AlreadyVoted));
    poll.active = false;
    assert_eq!(poll.record_vote(9, true), Err(PollError::PollClosed));
    assert_eq!(poll.close_by(&account(2)), Err(PollError::NotCreator));
    assert_eq!(poll.close_by(&account(1)), Ok(()));
    assert!(Poll::open(0, account(1), text("Q"), strings(&["A"])).is_err());
}

#[test]
fn vote_asks_for_a_badge_for_the_voter() {
    let (mut client, admin) = create_test_env();
    client.create_poll(admin, text("Q"), strings(&["A", "B"])).unwrap();
    let request = client.vote(account(5), 0, 1).unwrap();
    assert!(request.holder.same_as(&account(5)));
    assert_eq!(request.badge_type, text("voter"));
    assert_eq!(vote_badge_type(), text("voter"));
}

#[test]
fn vote_refusal_predicts_vote() {
    let (mut client, admin) = create_test_env();
    client.create_poll(admin.clone(), text("Q"), strings(&["A", "B"])).unwrap();
    assert_eq!(client.vote_refusal(&account(1), 1, 0), Some(PollError::PollNotFound));
    assert_eq!(client.vote_refusal(&account(1), 0, 2), Some(PollError::InvalidOptionIndex));
    assert_eq!(client.vote_refusal(&account(1), 0, 0), None);
    client.vote(account(1), 0, 0).unwrap();
    assert_eq!(client.vote_refusal(&account(1), 0, 1), Some(PollError::AlreadyVoted));
    client.close_poll(&admin, 0).unwrap();
    assert_eq!(client.vote_refusal(&account(2), 0, 1), Some(PollError::PollClosed));
}

#[test]
fn create_step_gives_writes_and_event() {
    let c = create_step(None, account(1), text("Q"), strings(&["A", "B"])).unwrap();
    assert_eq!(c.poll.id, 0);
    assert_eq!(c.next_id, 1);
    assert_eq!(c.poll.votes, vec![0, 0]);
    match c.event {
        PollEvent::Created { poll_id, creator } => {
            assert_eq!(poll_id, 0);
            assert!(creator.same_as(&account(1)));
        }
        _ => panic!("expected a creation"),
    }
    let c = create_step(Some(41), account(1), text("Q"), strings(&["A", "B"])).unwrap();
    assert_eq!((c.poll.id, c.next_id), (41, 42));
    assert_eq!(
        create_step(Some(u32::MAX), account(1), text("Q"), strings(&["A", "B"])).err(),
        Some(PollError::Overflow)
    );
    assert_eq!(
        create_step(Some(u32::MAX), account(1), text("Q"), strings(&["A"])).err(),
        Some(PollError::InvalidOptionCount)
    );
}

#[test]
fn vote_step_gives_writes_event_and_badge() {
    let poll = Poll::open(3, account(1), text("Q"), strings(&["A", "B"])).unwrap();
    let b = vote_step(poll, false, account(2), 1).unwrap();
    assert_eq!(b.poll.votes, vec![0, 1]);
    assert_eq!(b.poll.total_votes, 1);
    match b.event {
        PollEvent::Voted { poll_id, voter, option_index } => {
            assert_eq!((poll_id, option_index), (3, 1));
            assert!(voter.same_as(&account(2)));
        }
        _ => panic!("expected a vote"),
    }
    assert!(b.badge.holder.same_as(&account(2)));
    let poll = Poll::open(3, account(1), text("Q"), strings(&["A", "B"])).unwrap();
    assert_eq!(vote_step(poll, true, account(2), 1).err(), Some(PollError::AlreadyVoted));
}
