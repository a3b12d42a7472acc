use rally::ident::Identity;
use rally::ledger::Ledger;
use rally::stream::{cancel_stream, create_stream, withdraw_from_stream, StreamError};

fn id(value: u64) -> Identity {
    Identity { value }
}

const SENDER: u64 = 3;
const RECIPIENT: u64 = 4;

fn funded_ledger(amount: u64) -> Ledger {
    let mut l = Ledger::new();
    l.mint(id(SENDER), amount).unwrap();
    l
}

#[test]
fn create_stream_escrows_full_entitlement() {
    let mut ledger = funded_ledger(10_000);
    let s = create_stream(id(SENDER), id(RECIPIENT), 1, 10, 100, 200, 100, &mut ledger).unwrap();
    assert_eq!(s.sender, id(SENDER));
    assert_eq!(s.recipient, id(RECIPIENT));
    assert_eq!(s.stream_id, 1);
    assert_eq!(s.amount_per_second, 10);
    assert_eq!(s.total_deposited, 1000);
    assert_eq!(s.total_withdrawn, 0);
    assert!(!s.is_cancelled);
    assert_eq!(s.created_at, 100);
    assert_eq!(ledger.balance_of(s.vault), 1000);
    assert_eq!(ledger.balance_of(id(SENDER)), 9000);
}

#[test]
fn create_stream_rejects_bad_windows() {
    let mut ledger = funded_ledger(10_000);
    // more than sixty seconds in the past
    let r = create_stream(id(SENDER), id(RECIPIENT), 1, 10, 39, 200, 100, &mut ledger);
    assert!(matches!(r, Err(StreamError::InvalidStartTime)));
    // exactly sixty seconds in the past is allowed
    let r = create_stream(id(SENDER), id(RECIPIENT), 1, 10, 40, 200, 100, &mut ledger);
    assert!(r.is_ok());
    // the window must be non-empty
    let r = create_stream(id(SENDER), id(RECIPIENT), 2, 10, 200, 200, 100, &mut ledger);
    assert!(matches!(r, Err(StreamError::InvalidEndTime)));
    let r = create_stream(id(SENDER), id(RECIPIENT), 2, 10, 200, 150, 100, &mut ledger);
    assert!(matches!(r, Err(StreamError::InvalidEndTime)));
}

#[test]
fn create_stream_rejects_zero_rate_overflow_and_shortfall() {
    let mut ledger = funded_ledger(100);
    let r = create_stream(id(SENDER), id(RECIPIENT), 1, 0, 100, 200, 100, &mut ledger);
    assert!(matches!(r, Err(StreamError::InvalidRate)));
    let r = create_stream(id(SENDER), id(RECIPIENT), 1, u64::MAX, 100, 102, 100, &mut ledger);
    assert!(matches!(r, Err(StreamError::Overflow)));
    let r = create_stream(id(SENDER), id(RECIPIENT), 1, 10, 100, 200, 100, &mut ledger);
    assert!(matches!(r, Err(StreamError::InsufficientFunds)));
    assert_eq!(ledger.balance_of(id(SENDER)), 100);
}

#[test]
fn accrual_is_linear_and_withdrawals_are_monotonic() {
    let mut ledger = funded_ledger(1000);
    let mut s = create_stream(id(SENDER), id(RECIPIENT), 1, 10, 100, 200, 100, &mut ledger)
        .unwrap();
    // nothing has accrued before the window opens
    assert_eq!(
        withdraw_from_stream(&mut s, &mut ledger, id(RECIPIENT), 90),
        Err(StreamError::NothingToWithdraw)
    );
    // halfway through, half the entitlement has accrued
    assert_eq!(withdraw_from_stream(&mut s, &mut ledger, id(RECIPIENT), 150), Ok(()));
    assert_eq!(s.total_withdrawn, 500);
    assert_eq!(ledger.balance_of(id(RECIPIENT)), 500);
    assert_eq!(ledger.balance_of(s.vault), 500);
    // the same instant again: the high-water mark blocks a second payout
    assert_eq!(
        withdraw_from_stream(&mut s, &mut ledger, id(RECIPIENT), 150),
        Err(StreamError::NothingToWithdraw)
    );
    assert_eq!(s.total_withdrawn, 500);
    // past the end the accrual is capped at the full entitlement
    assert_eq!(withdraw_from_stream(&mut s, &mut ledger, id(RECIPIENT), 999), Ok(()));
    assert_eq!(s.total_withdrawn, 1000);
    assert_eq!(ledger.balance_of(id(RECIPIENT)), 1000);
    assert_eq!(ledger.balance_of(s.vault), 0);
}

#[test]
fn withdraw_requires_the_recipient() {
    let mut ledger = funded_ledger(1000);
    let mut s = create_stream(id(SENDER), id(RECIPIENT), 1, 10, 100, 200, 100, &mut ledger)
        .unwrap();
    assert_eq!(
        withdraw_from_stream(&mut s, &mut ledger, id(SENDER), 150),
        Err(StreamError::Unauthorized)
    );
    assert_eq!(s.total_withdrawn, 0);
}

#[test]
fn clock_regression_surfaces_accounting_mismatch() {
    let mut ledger = funded_ledger(1000);
    let mut s = create_stream(id(SENDER), id(RECIPIENT), 1, 10, 100, 200, 100, &mut ledger)
        .unwrap();
    assert_eq!(withdraw_from_stream(&mut s, &mut ledger, id(RECIPIENT), 200), Ok(()));
    assert_eq!(s.total_withdrawn, 1000);
    // a clock reading before the recorded high-water mark is an
    // inconsistency, surfaced as the arithmetic error
    assert_eq!(
        withdraw_from_stream(&mut s, &mut ledger, id(RECIPIENT), 150),
        Err(StreamError::Overflow)
    );
}

#[test]
fn cancel_settles_recipient_then_returns_rest() {
    let mut ledger = funded_ledger(1000);
    let mut s = create_stream(id(SENDER), id(RECIPIENT), 1, 10, 100, 200, 100, &mut ledger)
        .unwrap();
    // recipient takes the first 300 seconds' worth at t=130
    assert_eq!(withdraw_from_stream(&mut s, &mut ledger, id(RECIPIENT), 130), Ok(()));
    assert_eq!(s.total_withdrawn, 300);
    // sender cancels at t=160: 600 accrued, 300 still owed to recipient
    assert_eq!(cancel_stream(&mut s, &mut ledger, id(SENDER), 160), Ok(()));
    assert!(s.is_cancelled);
    assert_eq!(s.total_withdrawn, 600);
    assert_eq!(ledger.balance_of(id(RECIPIENT)), 600);
    assert_eq!(ledger.balance_of(id(SENDER)), 400);
    assert_eq!(ledger.balance_of(s.vault), 0);
}

#[test]
fn cancelled_stream_is_terminal() {
    let mut ledger = funded_ledger(1000);
    let mut s = create_stream(id(SENDER), id(RECIPIENT), 1, 10, 100, 200, 100, &mut ledger)
        .unwrap();
    assert_eq!(cancel_stream(&mut s, &mut ledger, id(SENDER), 150), Ok(()));
    assert_eq!(ledger.balance_of(s.vault), 0);
    assert_eq!(
        cancel_stream(&mut s, &mut ledger, id(SENDER), 160),
        Err(StreamError::StreamCancelled)
    );
    assert_eq!(
        withdraw_from_stream(&mut s, &mut ledger, id(RECIPIENT), 160),
        Err(StreamError::StreamCancelled)
    );
    assert_eq!(s.total_withdrawn, 500);
}

#[test]
fn cancel_requires_the_sender() {
    let mut ledger = funded_ledger(1000);
    let mut s = create_stream(id(SENDER), id(RECIPIENT), 1, 10, 100, 200, 100, &mut ledger)
        .unwrap();
    assert_eq!(
        cancel_stream(&mut s, &mut ledger, id(RECIPIENT), 150),
        Err(StreamError::Unauthorized)
    );
    assert!(!s.is_cancelled);
}

#[test]
fn cancel_before_any_accrual_refunds_everything() {
    let mut ledger = funded_ledger(1000);
    let mut s = create_stream(id(SENDER), id(RECIPIENT), 1, 10, 100, 200, 100, &mut ledger)
        .unwrap();
    assert_eq!(cancel_stream(&mut s, &mut ledger, id(SENDER), 100), Ok(()));
    assert_eq!(s.total_withdrawn, 0);
    assert_eq!(ledger.balance_of(id(SENDER)), 1000);
    assert_eq!(ledger.balance_of(id(RECIPIENT)), 0);
    assert_eq!(ledger.balance_of(s.vault), 0);
}
