//! Quorum-based governance votes over spending proposals.
//!
//! A proposal records a spending decision for a squad: an amount, a
//! recipient, a voting deadline, and one yes-or-no vote per distinct
//! voter. After the deadline anyone may execute it; execution checks the
//! quorum (a strict majority of the squad's member count) and the tally,
//! then flips the terminal flag. Execution moves no funds and holds no
//! reference into the squad wallet's withdrawal path; that unlinked
//! design is preserved deliberately.

use vstd::prelude::*;

use crate::ident::{contains_id, derive_record_id, derived_id, Identity, TAG_PROPOSAL};
use crate::squad::ids_unique;

verus! {

/// Longest proposal title, in bytes.
pub const MAX_TITLE_LEN: usize = 64;

/// Longest proposal description, in bytes.
pub const MAX_DESCRIPTION_LEN: usize = 256;

/// Most distinct voters a proposal can record.
pub const MAX_VOTERS: usize = 10;

/// Failures of the governance operations.
#[derive(Clone, Copy, PartialEq, Eq, Structural, Debug)]
pub enum VoteError {
    /// The title exceeds [`MAX_TITLE_LEN`] bytes.
    TitleTooLong,
    /// The description exceeds [`MAX_DESCRIPTION_LEN`] bytes.
    DescriptionTooLong,
    /// The voting deadline does not lie in the future.
    DeadlineInPast,
    /// The proposed amount is zero.
    InvalidAmount,
    /// The voting deadline has passed.
    VotingClosed,
    /// The voting deadline has not been reached yet.
    VotingStillOpen,
    /// This voter already voted on this proposal.
    AlreadyVoted,
    /// The voter list is full.
    TooManyVoters,
    /// The proposal was already executed.
    AlreadyExecuted,
    /// Fewer yes votes than the quorum demands.
    QuorumNotReached,
    /// No majority of yes votes over no votes.
    ProposalRejected,
    /// A tally would overflow its counter.
    Overflow,
}

/// A spending proposal under vote.
pub struct Proposal {
    /// This proposal's own derived record identifier.
    pub addr: Identity,
    /// The squad whose funds the proposal concerns.
    pub squad: Identity,
    /// Who created the proposal.
    pub proposer: Identity,
    /// Disambiguates several proposals of one squad.
    pub proposal_id: u64,
    /// Title, at most [`MAX_TITLE_LEN`] bytes.
    pub title: Vec<u8>,
    /// Description, at most [`MAX_DESCRIPTION_LEN`] bytes.
    pub description: Vec<u8>,
    /// The amount the proposal would spend.
    pub amount: u64,
    /// Who would receive the amount.
    pub recipient: Identity,
    /// Count of yes votes.
    pub yes_votes: u32,
    /// Count of no votes.
    pub no_votes: u32,
    /// The distinct identities that have voted.
    pub voters: Vec<Identity>,
    /// Votes are accepted up to and including this time.
    pub voting_deadline: i64,
    /// Terminal flag: once set, the proposal accepts no further mutation.
    pub is_executed: bool,
    /// Creation time, as given by the external clock.
    pub created_at: i64,
}

/// The record identifier of proposal `proposal_id` of `squad`.
pub open spec fn proposal_addr_of(squad: Identity, proposal_id: u64) -> Identity {
    derived_id(squad, TAG_PROPOSAL, proposal_id)
}

/// The least number of yes votes that passes a proposal: a strict
/// majority of the squad's member count.
pub open spec fn quorum_of(total_members: u8) -> u32 {
    (total_members / 2 + 1) as u32
}

/// Computes the quorum for a squad of `total_members` members.
pub fn quorum(total_members: u8) -> (r: u32)
    ensures
        r == quorum_of(total_members),
{
    (total_members / 2) as u32 + 1
}

/// Everything of a proposal but its tally, voter list, and terminal
/// flag.
pub open spec fn same_proposal_core(a: Proposal, b: Proposal) -> bool {
    a.addr == b.addr && a.squad == b.squad && a.proposer == b.proposer && a.proposal_id
        == b.proposal_id && a.title@ == b.title@ && a.description@ == b.description@ && a.amount
        == b.amount && a.recipient == b.recipient && a.voting_deadline == b.voting_deadline
        && a.created_at == b.created_at
}

impl Proposal {
    /// The structural invariant every governance operation preserves.
    /// In particular the tallies always sum to the number of distinct
    /// recorded voters.
    pub open spec fn wf(self) -> bool {
        &&& self.title@.len() <= MAX_TITLE_LEN as int
        &&& self.description@.len() <= MAX_DESCRIPTION_LEN as int
        &&& self.voters@.len() <= MAX_VOTERS as int
        &&& ids_unique(self.voters@)
        &&& self.yes_votes + self.no_votes == self.voters@.len()
        &&& self.amount > 0
        &&& self.addr == proposal_addr_of(self.squad, self.proposal_id)
    }
}

/// Creates a proposal with an empty voter list and zero tallies. The
/// title and description must fit their bounds, the deadline must lie in
/// the future, and the amount must be positive.
pub fn create_proposal(
    squad: Identity,
    proposer: Identity,
    proposal_id: u64,
    title: Vec<u8>,
    description: Vec<u8>,
    amount: u64,
    recipient: Identity,
    voting_deadline: i64,
    now: i64,
) -> (r: Result<Proposal, VoteError>)
    ensures
        r is Ok <==> title@.len() <= MAX_TITLE_LEN as int && description@.len()
            <= MAX_DESCRIPTION_LEN as int && voting_deadline > now && amount > 0,
        r == Err::<Proposal, VoteError>(VoteError::TitleTooLong) <==> title@.len()
            > MAX_TITLE_LEN as int,
        r == Err::<Proposal, VoteError>(VoteError::DescriptionTooLong) <==> title@.len()
            <= MAX_TITLE_LEN as int && description@.len() > MAX_DESCRIPTION_LEN as int,
        r == Err::<Proposal, VoteError>(VoteError::DeadlineInPast) <==> title@.len()
            <= MAX_TITLE_LEN as int && description@.len() <= MAX_DESCRIPTION_LEN as int
            && voting_deadline <= now,
        r == Err::<Proposal, VoteError>(VoteError::InvalidAmount) <==> title@.len()
            <= MAX_TITLE_LEN as int && description@.len() <= MAX_DESCRIPTION_LEN as int
            && voting_deadline > now && amount == 0,
        r matches Ok(p) ==> p.wf() && p.squad == squad && p.proposer == proposer && p.proposal_id
            == proposal_id && p.title@ == title@ && p.description@ == description@ && p.amount
            == amount && p.recipient == recipient && p.yes_votes == 0 && p.no_votes == 0
            && p.voters@.len() == 0 && p.voting_deadline == voting_deadline && !p.is_executed
            && p.created_at == now && p.addr == proposal_addr_of(squad, proposal_id),
{
    if title.len() > MAX_TITLE_LEN {
        return Err(VoteError::TitleTooLong);
    }
    if description.len() > MAX_DESCRIPTION_LEN {
        return Err(VoteError::DescriptionTooLong);
    }
    if voting_deadline <= now {
        return Err(VoteError::DeadlineInPast);
    }
    if amount == 0 {
        return Err(VoteError::InvalidAmount);
    }
    let addr = derive_record_id(squad, TAG_PROPOSAL, proposal_id);
    Ok(
        Proposal {
            addr,
            squad,
            proposer,
            proposal_id,
            title,
            description,
            amount,
            recipient,
            yes_votes: 0,
            no_votes: 0,
            voters: Vec::new(),
            voting_deadline,
            is_executed: false,
            created_at: now,
        },
    )
}

/// Records one yes-or-no vote for `voter`. Each distinct identity votes
/// at most once; votes are accepted only up to the deadline, on a
/// proposal that was not executed, while the voter list has room.
pub fn cast_vote(proposal: &mut Proposal, voter: Identity, vote_yes: bool, now: i64) -> (r: Result<
    (),
    VoteError,
>)
    requires
        old(proposal).wf(),
    ensures
        final(proposal).wf(),
        r == Err::<(), VoteError>(VoteError::VotingClosed) <==> now > old(proposal).voting_deadline,
        r == Err::<(), VoteError>(VoteError::AlreadyExecuted) <==> now <= old(proposal).voting_deadline && old(proposal).is_executed,
        r == Err::<(), VoteError>(VoteError::AlreadyVoted) <==> now <= old(proposal).voting_deadline
            && !old(proposal).is_executed && old(proposal).voters@.contains(voter),
        r == Err::<(), VoteError>(VoteError::TooManyVoters) <==> now <= old(proposal).voting_deadline && !old(proposal).is_executed && !old(proposal).voters@.contains(voter)
            && old(proposal).voters@.len() >= MAX_VOTERS as int,
        r is Ok <==> now <= old(proposal).voting_deadline && !old(proposal).is_executed && !old(proposal).voters@.contains(voter) && old(proposal).voters@.len() < MAX_VOTERS as int,
        r is Ok ==> final(proposal).voters@ == old(proposal).voters@.push(voter) && final(proposal).yes_votes == old(proposal).yes_votes + (if vote_yes {
            1int
        } else {
            0int
        }) && final(proposal).no_votes == old(proposal).no_votes + (if vote_yes {
            0int
        } else {
            1int
        }) && !final(proposal).is_executed && same_proposal_core(*final(proposal), *old(proposal)),
        r is Err ==> *final(proposal) == *old(proposal),
{
    if now > proposal.voting_deadline {
        return Err(VoteError::VotingClosed);
    }
    if proposal.is_executed {
        return Err(VoteError::AlreadyExecuted);
    }
    if contains_id(&proposal.voters, voter) {
        return Err(VoteError::AlreadyVoted);
    }
    if proposal.voters.len() >= MAX_VOTERS {
        return Err(VoteError::TooManyVoters);
    }
    let ghost before = proposal.voters@;
    proposal.voters.push(voter);
    proof {
        assert(ids_unique(proposal.voters@)) by {
            assert forall|i: int, j: int|
                0 <= i < j < proposal.voters@.len() implies proposal.voters@[i]
                != proposal.voters@[j] by {
                if j == proposal.voters@.len() - 1 {
                    assert(before.contains(before[i]));
                }
            }
        }
    }
    if vote_yes {
        match proposal.yes_votes.checked_add(1) {
            Some(y) => {
                proposal.yes_votes = y;
            },
            None => {
                // The tally is bounded by the voter capacity, so this
                // cannot be reached.
                assert(false);
                return Err(VoteError::Overflow);
            },
        }
    } else {
        match proposal.no_votes.checked_add(1) {
            Some(n) => {
                proposal.no_votes = n;
            },
            None => {
                // The tally is bounded by the voter capacity, so this
                // cannot be reached.
                assert(false);
                return Err(VoteError::Overflow);
            },
        }
    }
    Ok(())
}

/// Marks the proposal executed if voting has closed, the yes tally
/// reaches the quorum for `total_squad_members`, and yes strictly
/// outnumbers no. Execution flips the flag only: it moves no funds.
pub fn execute_proposal(proposal: &mut Proposal, total_squad_members: u8, now: i64) -> (r: Result<
    (),
    VoteError,
>)
    requires
        old(proposal).wf(),
    ensures
        final(proposal).wf(),
        r == Err::<(), VoteError>(VoteError::AlreadyExecuted) <==> old(proposal).is_executed,
        r == Err::<(), VoteError>(VoteError::VotingStillOpen) <==> !old(proposal).is_executed && now
            < old(proposal).voting_deadline,
        r == Err::<(), VoteError>(VoteError::QuorumNotReached) <==> !old(proposal).is_executed
            && now >= old(proposal).voting_deadline && old(proposal).yes_votes < quorum_of(
            total_squad_members,
        ),
        r == Err::<(), VoteError>(VoteError::ProposalRejected) <==> !old(proposal).is_executed
            && now >= old(proposal).voting_deadline && old(proposal).yes_votes >= quorum_of(
            total_squad_members,
        ) && old(proposal).yes_votes <= old(proposal).no_votes,
        r is Ok <==> !old(proposal).is_executed && now >= old(proposal).voting_deadline && old(proposal).yes_votes >= quorum_of(total_squad_members) && old(proposal).yes_votes > old(proposal).no_votes,
        r is Ok ==> final(proposal).is_executed && final(proposal).yes_votes == old(proposal).yes_votes && final(proposal).no_votes == old(proposal).no_votes && final(proposal).voters@
            == old(proposal).voters@ && same_proposal_core(*final(proposal), *old(proposal)),
        r is Err ==> *final(proposal) == *old(proposal),
{
    if proposal.is_executed {
        return Err(VoteError::AlreadyExecuted);
    }
    if now < proposal.voting_deadline {
        return Err(VoteError::VotingStillOpen);
    }
    let q = quorum(total_squad_members);
    if proposal.yes_votes < q {
        return Err(VoteError::QuorumNotReached);
    }
    if proposal.yes_votes <= proposal.no_votes {
        return Err(VoteError::ProposalRejected);
    }
    proposal.is_executed = true;
    Ok(())
}

} // verus!
