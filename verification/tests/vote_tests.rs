use rally::ident::Identity;
use rally::vote::{cast_vote, create_proposal, execute_proposal, quorum, Proposal, VoteError};

fn id(value: u64) -> Identity {
    Identity { value }
}

fn proposal(deadline: i64, now: i64) -> Proposal {
    create_proposal(
        id(100),
        id(1),
        1,
        b"fund the outing".to_vec(),
        b"move funds to the organizer".to_vec(),
        2500,
        id(50),
        deadline,
        now,
    )
    .unwrap()
}

#[test]
fn create_proposal_starts_clean() {
    let p = proposal(1000, 10);
    assert_eq!(p.squad, id(100));
    assert_eq!(p.proposer, id(1));
    assert_eq!(p.amount, 2500);
    assert_eq!(p.recipient, id(50));
    assert_eq!(p.yes_votes, 0);
    assert_eq!(p.no_votes, 0);
    assert!(p.voters.is_empty());
    assert_eq!(p.voting_deadline, 1000);
    assert!(!p.is_executed);
    assert_eq!(p.created_at, 10);
    assert!(p.title.len() <= 64);
    assert!(p.description.len() <= 256);
}

#[test]
fn create_proposal_rejects_bad_inputs() {
    let r = create_proposal(id(1), id(2), 1, vec![b't'; 65], Vec::new(), 5, id(3), 100, 0);
    assert!(matches!(r, Err(VoteError::TitleTooLong)));
    let r = create_proposal(id(1), id(2), 1, Vec::new(), vec![b'd'; 257], 5, id(3), 100, 0);
    assert!(matches!(r, Err(VoteError::DescriptionTooLong)));
    let r = create_proposal(id(1), id(2), 1, Vec::new(), Vec::new(), 5, id(3), 100, 100);
    assert!(matches!(r, Err(VoteError::DeadlineInPast)));
    let r = create_proposal(id(1), id(2), 1, Vec::new(), Vec::new(), 0, id(3), 100, 0);
    assert!(matches!(r, Err(VoteError::InvalidAmount)));
}

#[test]
fn quorum_is_a_strict_majority() {
    assert_eq!(quorum(7), 4);
    assert_eq!(quorum(1), 1);
    assert_eq!(quorum(2), 2);
    assert_eq!(quorum(10), 6);
}

#[test]
fn seven_member_squad_passes_with_four_of_seven() {
    let mut p = proposal(1000, 10);
    for v in 1..=4u64 {
        assert_eq!(cast_vote(&mut p, id(v), true, 500), Ok(()));
    }
    for v in 5..=7u64 {
        assert_eq!(cast_vote(&mut p, id(v), false, 500), Ok(()));
    }
    assert_eq!(p.yes_votes, 4);
    assert_eq!(p.no_votes, 3);
    assert_eq!(execute_proposal(&mut p, 7, 1000), Ok(()));
    assert!(p.is_executed);
}

#[test]
fn three_yes_votes_miss_the_quorum_of_seven() {
    let mut p = proposal(1000, 10);
    for v in 1..=3u64 {
        assert_eq!(cast_vote(&mut p, id(v), true, 500), Ok(()));
    }
    assert_eq!(execute_proposal(&mut p, 7, 1000), Err(VoteError::QuorumNotReached));
    assert!(!p.is_executed);
}

#[test]
fn majority_failure_is_rejected_even_past_quorum() {
    let mut p = proposal(1000, 10);
    for v in 1..=4u64 {
        assert_eq!(cast_vote(&mut p, id(v), true, 500), Ok(()));
    }
    for v in 5..=9u64 {
        assert_eq!(cast_vote(&mut p, id(v), false, 500), Ok(()));
    }
    assert_eq!(p.yes_votes, 4);
    assert_eq!(p.no_votes, 5);
    assert_eq!(execute_proposal(&mut p, 7, 1000), Err(VoteError::ProposalRejected));
    // a tie fails the same way
    let mut t = proposal(1000, 10);
    for v in 1..=3u64 {
        assert_eq!(cast_vote(&mut t, id(v), true, 500), Ok(()));
    }
    for v in 4..=6u64 {
        assert_eq!(cast_vote(&mut t, id(v), false, 500), Ok(()));
    }
    assert_eq!(execute_proposal(&mut t, 4, 1000), Err(VoteError::ProposalRejected));
}

#[test]
fn double_vote_is_rejected_and_tallies_track_voters() {
    let mut p = proposal(1000, 10);
    assert_eq!(cast_vote(&mut p, id(1), true, 500), Ok(()));
    assert_eq!(cast_vote(&mut p, id(1), false, 500), Err(VoteError::AlreadyVoted));
    assert_eq!(cast_vote(&mut p, id(1), true, 500), Err(VoteError::AlreadyVoted));
    assert_eq!(cast_vote(&mut p, id(2), false, 500), Ok(()));
    assert_eq!((p.yes_votes + p.no_votes) as usize, p.voters.len());
    assert_eq!(p.yes_votes, 1);
    assert_eq!(p.no_votes, 1);
    assert_eq!(p.voters, vec![id(1), id(2)]);
}

#[test]
fn votes_respect_deadline_and_terminal_flag() {
    let mut p = proposal(1000, 10);
    assert_eq!(cast_vote(&mut p, id(1), true, 1001), Err(VoteError::VotingClosed));
    // the deadline instant itself still accepts votes
    assert_eq!(cast_vote(&mut p, id(1), true, 1000), Ok(()));
    assert_eq!(execute_proposal(&mut p, 1, 1000), Ok(()));
    assert_eq!(cast_vote(&mut p, id(2), true, 1000), Err(VoteError::AlreadyExecuted));
    assert_eq!(execute_proposal(&mut p, 1, 1000), Err(VoteError::AlreadyExecuted));
}

#[test]
fn voter_list_capacity_is_enforced() {
    let mut p = proposal(1000, 10);
    for v in 1..=10u64 {
        assert_eq!(cast_vote(&mut p, id(v), true, 500), Ok(()));
    }
    assert_eq!(cast_vote(&mut p, id(11), true, 500), Err(VoteError::TooManyVoters));
    assert_eq!(p.voters.len(), 10);
    assert_eq!(p.yes_votes, 10);
}

#[test]
fn execution_waits_for_the_deadline() {
    let mut p = proposal(1000, 10);
    assert_eq!(cast_vote(&mut p, id(1), true, 500), Ok(()));
    assert_eq!(execute_proposal(&mut p, 1, 999), Err(VoteError::VotingStillOpen));
    assert!(!p.is_executed);
    assert_eq!(execute_proposal(&mut p, 1, 1000), Ok(()));
    assert!(p.is_executed);
}
