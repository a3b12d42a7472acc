//! Pooled-value custody primitives.
//!
//! Three independent modules share one underlying problem: authorizing a
//! mutation of a shared balance according to a policy and recording that
//! authorization unambiguously.
//!
//! - [`squad`]: a shared wallet with a member list, an authority, and a
//!   spend threshold that gates large withdrawals behind a vote flag.
//! - [`stream`]: a payment stream that accrues an entitlement linearly
//!   over a time window, with high-water-mark withdrawal accounting and a
//!   cancel-and-settle operation.
//! - [`vote`]: a governance proposal with one vote per distinct voter,
//!   deadline enforcement, and a quorum-gated execution flag.
//!
//! The execution environment (caller authentication, atomic commits, the
//! clock, and movement of underlying value) is a collaborator, not part of
//! this library. Operations therefore take the authenticated caller
//! identity and the current time as plain arguments, and move value
//! through the explicit [`ledger::Ledger`] model.

pub mod ident;
pub mod ledger;
pub mod squad;
pub mod stream;
pub mod vote;
