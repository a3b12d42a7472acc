//! Linear payment streams with high-water-mark withdrawal accounting.
//!
//! A stream entitles its recipient to `amount_per_second` for every
//! second between `start_time` and `end_time`. The full entitlement is
//! moved into the stream's vault when the stream is created. The
//! recipient may withdraw what has accrued so far; the sender may cancel,
//! which settles the recipient's earned-but-unwithdrawn share first and
//! then returns the rest of the vault to the sender. `total_withdrawn`
//! counts what was actually paid out and never decreases.

use vstd::prelude::*;

use crate::ident::{derive_record_id, derived_id, Identity, TAG_STREAM, TAG_STREAM_VAULT};
use crate::ledger::Ledger;

verus! {

/// Failures of the stream operations.
#[derive(Clone, Copy, PartialEq, Eq, Structural, Debug)]
pub enum StreamError {
    /// The start time lies more than the grace period in the past.
    InvalidStartTime,
    /// The end time does not lie after the start time.
    InvalidEndTime,
    /// The rate is zero.
    InvalidRate,
    /// The computed entitlement is zero.
    InvalidAmount,
    /// The stream was already cancelled.
    StreamCancelled,
    /// Only the recorded sender or recipient may perform this action.
    Unauthorized,
    /// Nothing has accrued beyond what was already withdrawn.
    NothingToWithdraw,
    /// An arithmetic step would overflow, or the withdrawal accounting
    /// is out of step with the accrual.
    Overflow,
    /// The sender holds less than the full entitlement to fund up front.
    InsufficientFunds,
}

/// Seconds a stream's start time may lie in the past at creation.
pub const START_GRACE_SECONDS: u64 = 60;

/// A payment stream.
pub struct PaymentStream {
    /// This stream's own derived record identifier.
    pub addr: Identity,
    /// Who funds the stream and may cancel it.
    pub sender: Identity,
    /// Who accrues the entitlement and may withdraw it.
    pub recipient: Identity,
    /// Disambiguates several streams of one sender.
    pub stream_id: u64,
    /// The accrual rate, in smallest currency units per second.
    pub amount_per_second: u64,
    /// When accrual begins.
    pub start_time: i64,
    /// When accrual stops; strictly after `start_time`.
    pub end_time: i64,
    /// The full entitlement, `amount_per_second * (end_time - start_time)`,
    /// funded up front.
    pub total_deposited: u64,
    /// Everything ever paid out of the vault to the recipient; never
    /// decreases and never exceeds what has accrued.
    pub total_withdrawn: u64,
    /// Terminal flag: once set, no operation changes the stream.
    pub is_cancelled: bool,
    /// The vault holding the escrowed entitlement, derived from `addr`.
    pub vault: Identity,
    /// Creation time, as given by the external clock.
    pub created_at: i64,
}

/// The record identifier of `sender`'s stream number `stream_id`.
pub open spec fn stream_addr_of(sender: Identity, stream_id: u64) -> Identity {
    derived_id(sender, TAG_STREAM, stream_id)
}

/// The vault identifier of the stream record `addr`.
pub open spec fn stream_vault_of(addr: Identity) -> Identity {
    derived_id(addr, TAG_STREAM_VAULT, 0)
}

/// Everything of a stream but its withdrawal counter and terminal flag.
pub open spec fn same_stream_core(a: PaymentStream, b: PaymentStream) -> bool {
    a.addr == b.addr && a.sender == b.sender && a.recipient == b.recipient && a.stream_id
        == b.stream_id && a.amount_per_second == b.amount_per_second && a.start_time == b.start_time
        && a.end_time == b.end_time && a.total_deposited == b.total_deposited && a.vault == b.vault
        && a.created_at == b.created_at
}

impl PaymentStream {
    /// The length of the accrual window, in seconds.
    pub open spec fn duration(self) -> int {
        self.end_time - self.start_time
    }

    /// Seconds of accrual completed at time `now`: the time inside the
    /// window, clamped to it.
    pub open spec fn elapsed_at(self, now: i64) -> int {
        let effective = if now <= self.end_time {
            now as int
        } else {
            self.end_time as int
        };
        if effective >= self.start_time {
            effective - self.start_time
        } else {
            0
        }
    }

    /// The entitlement accrued by time `now`.
    pub open spec fn earned_at(self, now: i64) -> int {
        self.amount_per_second * self.elapsed_at(now)
    }

    /// The structural invariant every stream operation preserves.
    pub open spec fn wf(self) -> bool {
        &&& self.amount_per_second > 0
        &&& self.end_time > self.start_time
        &&& self.total_deposited == self.amount_per_second * self.duration()
        &&& self.total_withdrawn <= self.total_deposited
        &&& self.addr == stream_addr_of(self.sender, self.stream_id)
        &&& self.vault == stream_vault_of(self.addr)
        &&& self.sender != self.vault
        &&& self.recipient != self.vault
    }
}

/// Accrual is linear: zero before the window, `rate * (t - start)`
/// inside it, and capped at the full entitlement past the end.
pub proof fn lemma_accrual(s: PaymentStream, t: i64)
    requires
        s.wf(),
    ensures
        t < s.start_time ==> s.earned_at(t) == 0,
        s.start_time <= t <= s.end_time ==> s.earned_at(t) == s.amount_per_second * (t
            - s.start_time),
        t > s.end_time ==> s.earned_at(t) == s.total_deposited,
{
}

/// Accrual never decreases as time advances.
pub proof fn lemma_accrual_monotone(s: PaymentStream, t1: i64, t2: i64)
    requires
        s.wf(),
        t1 <= t2,
    ensures
        s.earned_at(t1) <= s.earned_at(t2),
{
    let e1 = s.elapsed_at(t1);
    let e2 = s.elapsed_at(t2);
    assert(0 <= e1 <= e2);
    assert(s.amount_per_second * e1 <= s.amount_per_second * e2) by (nonlinear_arith)
        requires
            0 <= e1 <= e2,
            s.amount_per_second >= 0,
    ;
}

/// Accrual never exceeds the entitlement funded at creation.
pub proof fn lemma_accrual_bounded(s: PaymentStream, t: i64)
    requires
        s.wf(),
    ensures
        0 <= s.earned_at(t) <= s.total_deposited,
{
    let e = s.elapsed_at(t);
    let d = s.duration();
    assert(0 <= e <= d);
    assert(0 <= s.amount_per_second * e <= s.amount_per_second * d) by (nonlinear_arith)
        requires
            0 <= e <= d,
            s.amount_per_second >= 0,
    ;
}

/// Creates a stream and escrows the full entitlement in its vault. The
/// start time may lie at most [`START_GRACE_SECONDS`] in the past; the
/// window must be non-empty, the rate positive, the entitlement
/// representable, and the sender able to fund it.
pub fn create_stream(
    sender: Identity,
    recipient: Identity,
    stream_id: u64,
    amount_per_second: u64,
    start_time: i64,
    end_time: i64,
    now: i64,
    ledger: &mut Ledger,
) -> (r: Result<PaymentStream, StreamError>)
    requires
        old(ledger).wf(),
        // A vault is a derived record identifier, not a participant:
        // neither party of the stream can be its own escrow.
        sender != stream_vault_of(stream_addr_of(sender, stream_id)),
        recipient != stream_vault_of(stream_addr_of(sender, stream_id)),
    ensures
        final(ledger).wf(),
        final(ledger).supply() == old(ledger).supply(),
        r is Ok <==> start_time >= now - START_GRACE_SECONDS && end_time > start_time
            && amount_per_second > 0 && amount_per_second * (end_time - start_time) <= u64::MAX
            && amount_per_second * (end_time - start_time) <= old(ledger).balance(sender),
        r == Err::<PaymentStream, StreamError>(StreamError::InvalidStartTime) <==> start_time < now
            - START_GRACE_SECONDS,
        r == Err::<PaymentStream, StreamError>(StreamError::InvalidEndTime) <==> start_time >= now
            - START_GRACE_SECONDS && end_time <= start_time,
        r == Err::<PaymentStream, StreamError>(StreamError::InvalidRate) <==> start_time >= now
            - START_GRACE_SECONDS && end_time > start_time && amount_per_second == 0,
        r == Err::<PaymentStream, StreamError>(StreamError::Overflow) <==> start_time >= now
            - START_GRACE_SECONDS && end_time > start_time && amount_per_second > 0
            && amount_per_second * (end_time - start_time) > u64::MAX,
        r == Err::<PaymentStream, StreamError>(StreamError::InsufficientFunds) <==> start_time >= now
            - START_GRACE_SECONDS && end_time > start_time && amount_per_second > 0
            && amount_per_second * (end_time - start_time) <= u64::MAX && amount_per_second * (
        end_time - start_time) > old(ledger).balance(sender),
        r matches Ok(s) ==> s.wf() && s.sender == sender && s.recipient == recipient && s.stream_id
            == stream_id && s.amount_per_second == amount_per_second && s.start_time == start_time
            && s.end_time == end_time && s.total_deposited == amount_per_second * (end_time
            - start_time) && s.total_withdrawn == 0 && !s.is_cancelled && s.created_at == now
            && s.addr == stream_addr_of(sender, stream_id) && s.vault == stream_vault_of(s.addr),
        r matches Ok(s) ==> final(ledger).balance(s.vault) == old(ledger).balance(s.vault)
            + s.total_deposited && final(ledger).balance(sender) == old(ledger).balance(sender)
            - s.total_deposited && forall|x: Identity|
            x != sender && x != s.vault ==> final(ledger).balance(x) == old(ledger).balance(x),
        r is Err ==> *final(ledger) == *old(ledger),
{
    if (start_time as i128) < (now as i128) - (START_GRACE_SECONDS as i128) {
        return Err(StreamError::InvalidStartTime);
    }
    if end_time <= start_time {
        return Err(StreamError::InvalidEndTime);
    }
    if amount_per_second == 0 {
        return Err(StreamError::InvalidRate);
    }
    let duration_wide: i128 = (end_time as i128) - (start_time as i128);
    assert(0 < duration_wide <= u64::MAX);
    let duration: u64 = duration_wide as u64;
    let total_deposit = match amount_per_second.checked_mul(duration) {
        Some(t) => t,
        None => {
            return Err(StreamError::Overflow);
        },
    };
    assert(total_deposit > 0) by (nonlinear_arith)
        requires
            total_deposit == amount_per_second * duration,
            amount_per_second >= 1,
            duration >= 1,
    ;
    if total_deposit == 0 {
        // A positive rate over a non-empty window always earns something,
        // so this guard can never fire.
        return Err(StreamError::InvalidAmount);
    }
    let addr = derive_record_id(sender, TAG_STREAM, stream_id);
    let vault = derive_record_id(addr, TAG_STREAM_VAULT, 0);
    if ledger.balance_of(sender) < total_deposit {
        return Err(StreamError::InsufficientFunds);
    }
    let res = ledger.transfer(sender, vault, total_deposit);
    if res.is_err() {
        // The sender's balance was checked above, so the ledger cannot
        // refuse.
        assert(false);
        return Err(StreamError::InsufficientFunds);
    }
    Ok(
        PaymentStream {
            addr,
            sender,
            recipient,
            stream_id,
            amount_per_second,
            start_time,
            end_time,
            total_deposited: total_deposit,
            total_withdrawn: 0,
            is_cancelled: false,
            vault,
            created_at: now,
        },
    )
}

/// Computes the seconds of accrual completed at `now`, matching
/// [`PaymentStream::elapsed_at`].
fn elapsed_seconds(stream: &PaymentStream, now: i64) -> (r: u64)
    requires
        stream.end_time > stream.start_time,
    ensures
        r == stream.elapsed_at(now),
{
    let effective: i128 = if now <= stream.end_time {
        now as i128
    } else {
        stream.end_time as i128
    };
    let start: i128 = stream.start_time as i128;
    if effective >= start {
        (effective - start) as u64
    } else {
        0
    }
}

/// Pays the recipient what has accrued beyond `total_withdrawn`,
/// clamped to the vault's remaining balance. The counter records what
/// was actually paid, so it never decreases and never exceeds the
/// accrued entitlement.
pub fn withdraw_from_stream(
    stream: &mut PaymentStream,
    ledger: &mut Ledger,
    caller: Identity,
    now: i64,
) -> (r: Result<(), StreamError>)
    requires
        old(stream).wf(),
        old(ledger).wf(),
    ensures
        final(stream).wf(),
        final(ledger).wf(),
        final(ledger).supply() == old(ledger).supply(),
        final(stream).total_withdrawn >= old(stream).total_withdrawn,
        r == Err::<(), StreamError>(StreamError::StreamCancelled) <==> old(stream).is_cancelled,
        r == Err::<(), StreamError>(StreamError::Unauthorized) <==> !old(stream).is_cancelled
            && caller != old(stream).recipient,
        r == Err::<(), StreamError>(StreamError::Overflow) <==> !old(stream).is_cancelled && caller
            == old(stream).recipient && (old(stream).earned_at(now) > u64::MAX || old(
            stream,
        ).earned_at(now) < old(stream).total_withdrawn),
        r == Err::<(), StreamError>(StreamError::NothingToWithdraw) <==> !old(stream).is_cancelled
            && caller == old(stream).recipient && old(stream).earned_at(now) == old(
            stream,
        ).total_withdrawn,
        r is Ok <==> !old(stream).is_cancelled && caller == old(stream).recipient && old(
            stream,
        ).total_withdrawn < old(stream).earned_at(now) <= u64::MAX,
        r is Ok ==> ({
            let earned = old(stream).earned_at(now);
            let withdrawable = earned - old(stream).total_withdrawn;
            let vault_balance = old(ledger).balance(old(stream).vault);
            let paid = if withdrawable <= vault_balance {
                withdrawable
            } else {
                vault_balance as int
            };
            &&& final(stream).total_withdrawn == old(stream).total_withdrawn + paid
            &&& same_stream_core(*final(stream), *old(stream))
            &&& !final(stream).is_cancelled
            &&& final(ledger).balance(old(stream).vault) == vault_balance - paid
            &&& final(ledger).balance(old(stream).recipient) == old(ledger).balance(
                old(stream).recipient,
            ) + paid
            &&& forall|x: Identity|
                x != old(stream).vault && x != old(stream).recipient ==> final(ledger).balance(x)
                    == old(ledger).balance(x)
        }),
        r is Err ==> *final(stream) == *old(stream) && *final(ledger) == *old(ledger),
{
    if stream.is_cancelled {
        return Err(StreamError::StreamCancelled);
    }
    if caller != stream.recipient {
        return Err(StreamError::Unauthorized);
    }
    let elapsed = elapsed_seconds(stream, now);
    let total_earned = match stream.amount_per_second.checked_mul(elapsed) {
        Some(e) => e,
        None => {
            return Err(StreamError::Overflow);
        },
    };
    let withdrawable = match total_earned.checked_sub(stream.total_withdrawn) {
        Some(w) => w,
        None => {
            return Err(StreamError::Overflow);
        },
    };
    if withdrawable == 0 {
        return Err(StreamError::NothingToWithdraw);
    }
    let vault_balance = ledger.balance_of(stream.vault);
    let transfer_amount = if withdrawable <= vault_balance {
        withdrawable
    } else {
        vault_balance
    };
    let res = ledger.transfer(stream.vault, stream.recipient, transfer_amount);
    if res.is_err() {
        // The amount is clamped to the vault balance, so the ledger
        // cannot refuse.
        assert(false);
        return Err(StreamError::Overflow);
    }
    proof {
        lemma_accrual_bounded(*old(stream), now);
    }
    stream.total_withdrawn = stream.total_withdrawn + transfer_amount;
    Ok(())
}

/// Cancels the stream: settles the recipient's earned-but-unwithdrawn
/// share out of the vault first, returns the remaining vault balance to
/// the sender, and marks the stream terminal. Afterwards the vault is
/// empty and `total_withdrawn` reflects everything ever paid to the
/// recipient.
pub fn cancel_stream(
    stream: &mut PaymentStream,
    ledger: &mut Ledger,
    caller: Identity,
    now: i64,
) -> (r: Result<(), StreamError>)
    requires
        old(stream).wf(),
        old(ledger).wf(),
    ensures
        final(stream).wf(),
        final(ledger).wf(),
        final(ledger).supply() == old(ledger).supply(),
        final(stream).total_withdrawn >= old(stream).total_withdrawn,
        r == Err::<(), StreamError>(StreamError::StreamCancelled) <==> old(stream).is_cancelled,
        r == Err::<(), StreamError>(StreamError::Unauthorized) <==> !old(stream).is_cancelled
            && caller != old(stream).sender,
        r == Err::<(), StreamError>(StreamError::Overflow) <==> !old(stream).is_cancelled && caller
            == old(stream).sender && old(stream).earned_at(now) > u64::MAX,
        r is Ok <==> !old(stream).is_cancelled && caller == old(stream).sender && old(
            stream,
        ).earned_at(now) <= u64::MAX,
        r is Ok ==> ({
            let earned = old(stream).earned_at(now);
            let owed = if earned >= old(stream).total_withdrawn {
                earned - old(stream).total_withdrawn
            } else {
                0
            };
            let vault_balance = old(ledger).balance(old(stream).vault);
            let paid = if owed <= vault_balance {
                owed
            } else {
                vault_balance as int
            };
            &&& final(stream).is_cancelled
            &&& final(stream).total_withdrawn == old(stream).total_withdrawn + paid
            &&& same_stream_core(*final(stream), *old(stream))
            &&& final(ledger).balance(old(stream).vault) == 0
            &&& (old(stream).sender != old(stream).recipient ==> final(ledger).balance(
                old(stream).recipient,
            ) == old(ledger).balance(old(stream).recipient) + paid && final(ledger).balance(
                old(stream).sender,
            ) == old(ledger).balance(old(stream).sender) + (vault_balance - paid))
            &&& (old(stream).sender == old(stream).recipient ==> final(ledger).balance(
                old(stream).sender,
            ) == old(ledger).balance(old(stream).sender) + vault_balance)
            &&& forall|x: Identity|
                x != old(stream).vault && x != old(stream).recipient && x != old(stream).sender
                    ==> final(ledger).balance(x) == old(ledger).balance(x)
        }),
        r is Err ==> *final(stream) == *old(stream) && *final(ledger) == *old(ledger),
{
    if stream.is_cancelled {
        return Err(StreamError::StreamCancelled);
    }
    if caller != stream.sender {
        return Err(StreamError::Unauthorized);
    }
    let elapsed = elapsed_seconds(stream, now);
    let total_earned = match stream.amount_per_second.checked_mul(elapsed) {
        Some(e) => e,
        None => {
            return Err(StreamError::Overflow);
        },
    };
    let owed_to_recipient = total_earned.saturating_sub(stream.total_withdrawn);
    let vault_balance = ledger.balance_of(stream.vault);
    let pay_recipient = if owed_to_recipient <= vault_balance {
        owed_to_recipient
    } else {
        vault_balance
    };
    let res = ledger.transfer(stream.vault, stream.recipient, pay_recipient);
    if res.is_err() {
        // The amount is clamped to the vault balance, so the ledger
        // cannot refuse.
        assert(false);
        return Err(StreamError::Overflow);
    }
    proof {
        lemma_accrual_bounded(*old(stream), now);
    }
    stream.total_withdrawn = stream.total_withdrawn + pay_recipient;
    let remaining = ledger.balance_of(stream.vault);
    let res2 = ledger.transfer(stream.vault, stream.sender, remaining);
    if res2.is_err() {
        // A vault can always part with its whole balance.
        assert(false);
        return Err(StreamError::Overflow);
    }
    stream.is_cancelled = true;
    Ok(())
}

} // verus!
