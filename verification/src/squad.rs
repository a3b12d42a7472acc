//! Shared wallets gated by a spend threshold.
//!
//! A squad is a pooled wallet: a member list (at most
//! [`MAX_MEMBERS`], unique, always containing the authority), a positive
//! spend threshold, and a vault on the external ledger addressed
//! deterministically from the squad record. Members may spend freely
//! below the threshold; above it the caller must assert that a vote
//! passed — that flag is not verified against any proposal record, a
//! deliberate asymmetry of the design. Deposits are counted in
//! `total_deposited`; withdrawals only reduce the vault's ledger balance.

use vstd::prelude::*;

use crate::ident::{contains_id, derive_record_id, derived_id, Identity, TAG_SQUAD, TAG_SQUAD_VAULT};
use crate::ledger::Ledger;

verus! {

/// Most members a squad can hold.
pub const MAX_MEMBERS: usize = 10;

/// Longest squad name, in bytes.
pub const MAX_NAME_LEN: usize = 32;

/// Failures of the squad wallet operations.
#[derive(Clone, Copy, PartialEq, Eq, Structural, Debug)]
pub enum RallySquadError {
    /// The name exceeds [`MAX_NAME_LEN`] bytes.
    NameTooLong,
    /// The member list would exceed [`MAX_MEMBERS`] entries.
    TooManyMembers,
    /// The spend threshold is zero.
    InvalidThreshold,
    /// The amount is zero.
    InvalidAmount,
    /// The identity is already a member.
    AlreadyMember,
    /// The caller or target is not a member.
    NotAMember,
    /// The authority cannot be removed from its own squad.
    CannotRemoveAuthority,
    /// The caller is not the squad authority.
    Unauthorized,
    /// The vault (or the depositor) holds less than the requested amount.
    InsufficientFunds,
    /// A withdrawal above the spend threshold needs a passed vote.
    VoteRequired,
    /// A counter would overflow `u64`.
    Overflow,
}

/// A shared wallet.
pub struct Squad {
    /// This squad's own derived record identifier.
    pub addr: Identity,
    /// The identity that created the squad and manages membership.
    pub authority: Identity,
    /// Display name, at most [`MAX_NAME_LEN`] bytes.
    pub name: Vec<u8>,
    /// The identities allowed to deposit and withdraw.
    pub members: Vec<Identity>,
    /// The vault holding the pooled balance, derived from `addr`.
    pub vault: Identity,
    /// Spending above this amount needs a passed vote.
    pub spend_threshold: u64,
    /// Sum of all deposits ever made; never decreases.
    pub total_deposited: u64,
    /// Creation time, as given by the external clock.
    pub created_at: i64,
}

/// The record identifier of the squad created by `authority`.
pub open spec fn squad_addr_of(authority: Identity) -> Identity {
    derived_id(authority, TAG_SQUAD, 0)
}

/// The vault identifier of the squad record `addr`.
pub open spec fn squad_vault_of(addr: Identity) -> Identity {
    derived_id(addr, TAG_SQUAD_VAULT, 0)
}

/// `s` with later duplicates removed: each identity keeps its first
/// occurrence.
pub open spec fn dedup(s: Seq<Identity>) -> Seq<Identity>
    decreases s.len(),
{
    if s.len() == 0 {
        Seq::empty()
    } else {
        let rest = dedup(s.drop_last());
        if rest.contains(s.last()) {
            rest
        } else {
            rest.push(s.last())
        }
    }
}

/// No identity occurs twice in `s`.
pub open spec fn ids_unique(s: Seq<Identity>) -> bool {
    forall|i: int, j: int| 0 <= i < j < s.len() ==> s[i] != s[j]
}

/// The member list a new squad starts with: the distinct given members,
/// with the authority appended if it was absent.
pub open spec fn initial_members(authority: Identity, members: Seq<Identity>) -> Seq<Identity> {
    let d = dedup(members);
    if d.contains(authority) {
        d
    } else {
        d.push(authority)
    }
}

/// Deduplication keeps exactly the identities of the input and yields a
/// duplicate-free list no longer than the input.
pub proof fn lemma_dedup(s: Seq<Identity>)
    ensures
        ids_unique(dedup(s)),
        forall|x: Identity| #[trigger] dedup(s).contains(x) <==> s.contains(x),
        dedup(s).len() <= s.len(),
    decreases s.len(),
{
    if s.len() > 0 {
        lemma_dedup(s.drop_last());
        let rest = dedup(s.drop_last());
        assert forall|x: Identity| #[trigger] dedup(s).contains(x) implies s.contains(x) by {
            if x == s.last() {
                assert(s[s.len() - 1] == x);
            } else {
                if rest.contains(x) {
                    let k = choose|k: int| 0 <= k < s.drop_last().len() && s.drop_last()[k] == x;
                    assert(s[k] == x);
                } else {
                    let k = choose|k: int| 0 <= k < dedup(s).len() && dedup(s)[k] == x;
                    assert(rest.contains(x) || x == s.last());
                }
            }
        }
        assert forall|x: Identity| s.contains(x) implies #[trigger] dedup(s).contains(x) by {
            let k = choose|k: int| 0 <= k < s.len() && s[k] == x;
            if k < s.len() - 1 {
                assert(s.drop_last()[k] == x);
                assert(rest.contains(x));
                if !rest.contains(s.last()) {
                    let j = choose|j: int| 0 <= j < rest.len() && rest[j] == x;
                    assert(dedup(s)[j] == x);
                }
            } else {
                if rest.contains(x) {
                    let j = choose|j: int| 0 <= j < rest.len() && rest[j] == x;
                    assert(dedup(s)[j] == x);
                } else {
                    assert(dedup(s)[dedup(s).len() - 1] == x);
                }
            }
        }
        if !rest.contains(s.last()) {
            assert forall|i: int, j: int| 0 <= i < j < dedup(s).len() implies dedup(s)[i]
                != dedup(s)[j] by {
                if j == dedup(s).len() - 1 {
                    assert(rest.contains(rest[i]));
                }
            }
        }
    }
}

/// Everything of a squad but its member list.
pub open spec fn same_but_members(a: Squad, b: Squad) -> bool {
    a.addr == b.addr && a.authority == b.authority && a.name@ == b.name@ && a.vault == b.vault
        && a.spend_threshold == b.spend_threshold && a.total_deposited == b.total_deposited
        && a.created_at == b.created_at
}

impl Squad {
    /// The structural invariant every squad operation preserves.
    pub open spec fn wf(self) -> bool {
        &&& self.members@.contains(self.authority)
        &&& self.members@.len() <= MAX_MEMBERS as int
        &&& ids_unique(self.members@)
        &&& self.name@.len() <= MAX_NAME_LEN as int
        &&& self.spend_threshold > 0
        &&& self.addr == squad_addr_of(self.authority)
        &&& self.vault == squad_vault_of(self.addr)
    }

    /// The serialized size, in bytes, of a squad record sized for
    /// `num_members` members (identities stored as 32-byte keys, with
    /// room for the authority to be appended, capped at
    /// [`MAX_MEMBERS`], plus padding for in-place growth).
    pub fn space(num_members: usize) -> (r: usize)
        ensures
            r == 8 + 32 + (4 + 32) + (4 + 32 * (if num_members + 1 <= 10 {
                num_members + 1
            } else {
                10int
            })) + 1 + 8 + 8 + 8 + 64,
    {
        let capped: usize = if num_members >= 10 {
            10
        } else {
            num_members + 1
        };
        8 + 32 + (4 + 32) + (4 + 32 * capped) + 1 + 8 + 8 + 8 + 64
    }
}

/// `input` with later duplicates dropped, first occurrences kept in
/// order.
fn dedup_ids(input: &Vec<Identity>) -> (r: Vec<Identity>)
    ensures
        r@ == dedup(input@),
{
    let mut out: Vec<Identity> = Vec::new();
    let n = input.len();
    for i in 0..n
        invariant
            n == input@.len(),
            out@ == dedup(input@.take(i as int)),
    {
        proof {
            assert(input@.take(i + 1).drop_last() =~= input@.take(i as int));
            assert(input@.take(i + 1).last() == input@[i as int]);
        }
        if !contains_id(&out, input[i]) {
            out.push(input[i]);
        }
    }
    proof {
        assert(input@.take(n as int) =~= input@);
    }
    out
}

/// Creates a squad whose caller becomes the authority. The member list
/// is the distinct given identities with the authority included; it must
/// fit in [`MAX_MEMBERS`] entries. The squad starts with nothing
/// deposited; its record and vault identifiers are derived from the
/// authority.
pub fn initialize_squad(
    authority: Identity,
    name: Vec<u8>,
    members: Vec<Identity>,
    spend_threshold: u64,
    now: i64,
) -> (r: Result<Squad, RallySquadError>)
    ensures
        r is Ok <==> name@.len() <= MAX_NAME_LEN as int && initial_members(authority, members@).len()
            <= MAX_MEMBERS as int && spend_threshold > 0,
        r == Err::<Squad, RallySquadError>(RallySquadError::NameTooLong) <==> name@.len()
            > MAX_NAME_LEN as int,
        r == Err::<Squad, RallySquadError>(RallySquadError::TooManyMembers) <==> name@.len()
            <= MAX_NAME_LEN as int && initial_members(authority, members@).len() > MAX_MEMBERS as int,
        r == Err::<Squad, RallySquadError>(RallySquadError::InvalidThreshold) <==> name@.len()
            <= MAX_NAME_LEN as int && initial_members(authority, members@).len() <= MAX_MEMBERS as int
            && spend_threshold == 0,
        r matches Ok(s) ==> s.wf() && s.authority == authority && s.name@ == name@ && s.members@
            == initial_members(authority, members@) && s.spend_threshold == spend_threshold
            && s.total_deposited == 0 && s.created_at == now && s.addr == squad_addr_of(authority)
            && s.vault == squad_vault_of(s.addr),
{
    if name.len() > MAX_NAME_LEN {
        return Err(RallySquadError::NameTooLong);
    }
    let mut member_list = dedup_ids(&members);
    proof {
        lemma_dedup(members@);
    }
    if !contains_id(&member_list, authority) {
        member_list.push(authority);
        proof {
            assert(member_list@.last() == authority);
            assert(member_list@.contains(authority));
            assert(ids_unique(member_list@)) by {
                assert forall|i: int, j: int| 0 <= i < j < member_list@.len() implies member_list@[i]
                    != member_list@[j] by {
                    if j == member_list@.len() - 1 {
                        assert(dedup(members@).contains(dedup(members@)[i]));
                    }
                }
            }
        }
    }
    if member_list.len() > MAX_MEMBERS {
        return Err(RallySquadError::TooManyMembers);
    }
    if spend_threshold == 0 {
        return Err(RallySquadError::InvalidThreshold);
    }
    let addr = derive_record_id(authority, TAG_SQUAD, 0);
    let vault = derive_record_id(addr, TAG_SQUAD_VAULT, 0);
    Ok(
        Squad {
            addr,
            authority,
            name,
            members: member_list,
            vault,
            spend_threshold,
            total_deposited: 0,
            created_at: now,
        },
    )
}

/// Adds `new_member` to the squad. Only the authority may do this; the
/// list must have room and must not already hold the identity.
pub fn add_member(squad: &mut Squad, caller: Identity, new_member: Identity) -> (r: Result<
    (),
    RallySquadError,
>)
    requires
        old(squad).wf(),
    ensures
        final(squad).wf(),
        r is Ok <==> caller == old(squad).authority && old(squad).members@.len() < MAX_MEMBERS as int
            && !old(squad).members@.contains(new_member),
        r == Err::<(), RallySquadError>(RallySquadError::Unauthorized) <==> caller != old(squad).authority,
        r == Err::<(), RallySquadError>(RallySquadError::TooManyMembers) <==> caller == old(squad).authority && old(squad).members@.len() >= MAX_MEMBERS as int,
        r == Err::<(), RallySquadError>(RallySquadError::AlreadyMember) <==> caller == old(squad).authority && old(squad).members@.len() < MAX_MEMBERS as int && old(squad).members@.contains(new_member),
        r is Ok ==> final(squad).members@ == old(squad).members@.push(new_member)
            && same_but_members(*final(squad), *old(squad)),
        r is Err ==> *final(squad) == *old(squad),
{
    if caller != squad.authority {
        return Err(RallySquadError::Unauthorized);
    }
    if squad.members.len() >= MAX_MEMBERS {
        return Err(RallySquadError::TooManyMembers);
    }
    if contains_id(&squad.members, new_member) {
        return Err(RallySquadError::AlreadyMember);
    }
    let ghost before = squad.members@;
    squad.members.push(new_member);
    proof {
        assert(squad.members@.last() == new_member);
        assert(squad.members@[before.index_of(squad.authority)] == squad.authority);
        assert(squad.members@.contains(squad.authority));
        assert(ids_unique(squad.members@)) by {
            assert forall|i: int, j: int| 0 <= i < j < squad.members@.len() implies squad.members@[i]
                != squad.members@[j] by {
                if j == squad.members@.len() - 1 {
                    assert(before.contains(before[i]));
                }
            }
        }
    }
    Ok(())
}

/// Removes `member` from the squad. Only the authority may do this; the
/// authority itself cannot be removed, and the target must be present.
pub fn remove_member(squad: &mut Squad, caller: Identity, member: Identity) -> (r: Result<
    (),
    RallySquadError,
>)
    requires
        old(squad).wf(),
    ensures
        final(squad).wf(),
        r is Ok <==> caller == old(squad).authority && member != old(squad).authority && old(squad).members@.contains(member),
        r == Err::<(), RallySquadError>(RallySquadError::Unauthorized) <==> caller != old(squad).authority,
        r == Err::<(), RallySquadError>(RallySquadError::CannotRemoveAuthority) <==> caller == old(squad).authority && member == old(squad).authority,
        r == Err::<(), RallySquadError>(RallySquadError::NotAMember) <==> caller == old(squad).authority && member != old(squad).authority && !old(squad).members@.contains(member),
        r is Ok ==> exists|i: int|
            0 <= i < old(squad).members@.len() && old(squad).members@[i] == member && final(squad).members@ == old(squad).members@.remove(i) && same_but_members(
                *final(squad),
                *old(squad),
            ),
        r is Err ==> *final(squad) == *old(squad),
{
    if caller != squad.authority {
        return Err(RallySquadError::Unauthorized);
    }
    if member == squad.authority {
        return Err(RallySquadError::CannotRemoveAuthority);
    }
    let n = squad.members.len();
    let mut idx: usize = 0;
    let mut found = false;
    for i in 0..n
        invariant
            n == squad.members@.len(),
            !found ==> forall|k: int| 0 <= k < i ==> squad.members@[k] != member,
            found ==> idx < n && squad.members@[idx as int] == member,
    {
        if !found && squad.members[i] == member {
            idx = i;
            found = true;
        }
    }
    if !found {
        assert(!squad.members@.contains(member));
        return Err(RallySquadError::NotAMember);
    }
    let ghost before = squad.members@;
    let ghost i = idx as int;
    squad.members.remove(idx);
    proof {
        assert(squad.members@ =~= before.remove(i));
        let a = before.index_of(squad.authority);
        if a < i {
            assert(squad.members@[a] == squad.authority);
        } else {
            assert(before[a] != member);
            assert(squad.members@[a - 1] == squad.authority);
        }
        assert(squad.members@.contains(squad.authority));
        assert(ids_unique(squad.members@)) by {
            assert forall|p: int, q: int| 0 <= p < q < squad.members@.len() implies squad.members@[p]
                != squad.members@[q] by {
                let bp = if p < i {
                    p
                } else {
                    p + 1
                };
                let bq = if q < i {
                    q
                } else {
                    q + 1
                };
                assert(squad.members@[p] == before[bp]);
                assert(squad.members@[q] == before[bq]);
            }
        }
    }
    Ok(())
}

/// Deposits `amount` from a member's own account into the squad vault
/// and counts it in `total_deposited`. Fails, changing nothing, on a
/// zero amount, a non-member, a counter overflow, or an underfunded
/// depositor.
pub fn deposit(squad: &mut Squad, ledger: &mut Ledger, depositor: Identity, amount: u64) -> (r:
    Result<(), RallySquadError>)
    requires
        old(squad).wf(),
        old(ledger).wf(),
        // A vault is a derived record identifier, not an authenticated
        // caller, so it can never be the depositor.
        depositor != old(squad).vault,
    ensures
        final(squad).wf(),
        final(ledger).wf(),
        final(ledger).supply() == old(ledger).supply(),
        r is Ok <==> amount > 0 && old(squad).members@.contains(depositor) && old(ledger).balance(depositor) >= amount && old(squad).total_deposited + amount <= u64::MAX,
        r == Err::<(), RallySquadError>(RallySquadError::InvalidAmount) <==> amount == 0,
        r == Err::<(), RallySquadError>(RallySquadError::NotAMember) <==> amount > 0 && !old(squad).members@.contains(depositor),
        r == Err::<(), RallySquadError>(RallySquadError::InsufficientFunds) <==> amount > 0 && old(squad).members@.contains(depositor) && old(ledger).balance(depositor) < amount,
        r == Err::<(), RallySquadError>(RallySquadError::Overflow) <==> amount > 0 && old(squad).members@.contains(depositor) && old(ledger).balance(depositor) >= amount && old(squad).total_deposited + amount > u64::MAX,
        r is Ok ==> final(squad).total_deposited == old(squad).total_deposited + amount
            && final(squad).members@ == old(squad).members@ && same_but_total(
            *final(squad),
            *old(squad),
        ) && final(ledger).balance(old(squad).vault) == old(ledger).balance(old(squad).vault)
            + amount && final(ledger).balance(depositor) == old(ledger).balance(depositor) - amount
            && forall|x: Identity|
            x != depositor && x != old(squad).vault ==> final(ledger).balance(x) == old(ledger).balance(x),
        r is Err ==> *final(squad) == *old(squad) && *final(ledger) == *old(ledger),
{
    if amount == 0 {
        return Err(RallySquadError::InvalidAmount);
    }
    if !contains_id(&squad.members, depositor) {
        return Err(RallySquadError::NotAMember);
    }
    if ledger.balance_of(depositor) < amount {
        return Err(RallySquadError::InsufficientFunds);
    }
    if amount > u64::MAX - squad.total_deposited {
        return Err(RallySquadError::Overflow);
    }
    let res = ledger.transfer(depositor, squad.vault, amount);
    if res.is_err() {
        // The balance was checked above, so the ledger cannot refuse.
        assert(false);
        return Err(RallySquadError::InsufficientFunds);
    }
    squad.total_deposited = squad.total_deposited + amount;
    Ok(())
}

/// Everything of a squad but its deposit counter.
pub open spec fn same_but_total(a: Squad, b: Squad) -> bool {
    a.addr == b.addr && a.authority == b.authority && a.name@ == b.name@ && a.members@ == b.members@
        && a.vault == b.vault && a.spend_threshold == b.spend_threshold && a.created_at
        == b.created_at
}

/// Moves `amount` from the squad vault to `recipient`. Any member may
/// withdraw; above the spend threshold the caller must assert a passed
/// vote via `vote_passed` (the flag is taken at its word). The squad
/// record itself is not changed: the vault's ledger balance is the
/// authoritative remaining balance.
pub fn withdraw(
    squad: &Squad,
    ledger: &mut Ledger,
    withdrawer: Identity,
    recipient: Identity,
    amount: u64,
    vote_passed: bool,
) -> (r: Result<(), RallySquadError>)
    requires
        squad.wf(),
        old(ledger).wf(),
        // Paying the vault out to itself would be a self-transfer that
        // moves nothing; the environment never pairs those accounts.
        recipient != squad.vault,
    ensures
        final(ledger).wf(),
        final(ledger).supply() == old(ledger).supply(),
        r is Ok <==> amount > 0 && squad.members@.contains(withdrawer) && (amount
            <= squad.spend_threshold || vote_passed) && old(ledger).balance(squad.vault) >= amount,
        r == Err::<(), RallySquadError>(RallySquadError::InvalidAmount) <==> amount == 0,
        r == Err::<(), RallySquadError>(RallySquadError::NotAMember) <==> amount > 0
            && !squad.members@.contains(withdrawer),
        r == Err::<(), RallySquadError>(RallySquadError::VoteRequired) <==> amount > 0
            && squad.members@.contains(withdrawer) && amount > squad.spend_threshold
            && !vote_passed,
        r == Err::<(), RallySquadError>(RallySquadError::InsufficientFunds) <==> amount > 0
            && squad.members@.contains(withdrawer) && (amount <= squad.spend_threshold
            || vote_passed) && old(ledger).balance(squad.vault) < amount,
        r is Ok ==> final(ledger).balance(squad.vault) == old(ledger).balance(squad.vault) - amount
            && final(ledger).balance(recipient) == old(ledger).balance(recipient) + amount
            && forall|x: Identity|
            x != squad.vault && x != recipient ==> final(ledger).balance(x) == old(ledger).balance(x),
        r is Err ==> *final(ledger) == *old(ledger),
{
    if amount == 0 {
        return Err(RallySquadError::InvalidAmount);
    }
    if !contains_id(&squad.members, withdrawer) {
        return Err(RallySquadError::NotAMember);
    }
    if amount > squad.spend_threshold && !vote_passed {
        return Err(RallySquadError::VoteRequired);
    }
    if ledger.balance_of(squad.vault) < amount {
        return Err(RallySquadError::InsufficientFunds);
    }
    let res = ledger.transfer(squad.vault, recipient, amount);
    if res.is_err() {
        // The vault balance was checked above, so the ledger cannot
        // refuse.
        assert(false);
        return Err(RallySquadError::InsufficientFunds);
    }
    Ok(())
}

} // verus!
