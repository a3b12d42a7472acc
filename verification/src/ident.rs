//! Identities and deterministic derived record identifiers.
//!
//! An [`Identity`] names a balance holder or a caller. Dependent records
//! (a squad's vault, a stream, a proposal) are addressed by a pure
//! derivation from stable inputs, so a caller can compute the identifier
//! of a dependent record without a lookup.

use vstd::prelude::*;

verus! {

/// An authenticated identity: a caller, a balance holder, or a derived
/// record identifier.
#[derive(Clone, Copy, PartialEq, Eq, Structural, Debug)]
pub struct Identity {
    pub value: u64,
}

/// Discriminator for a squad record derived from its authority.
pub const TAG_SQUAD: u64 = 1;
/// Discriminator for a squad's vault derived from the squad record.
pub const TAG_SQUAD_VAULT: u64 = 2;
/// Discriminator for a stream record derived from its sender.
pub const TAG_STREAM: u64 = 3;
/// Discriminator for a stream's vault derived from the stream record.
pub const TAG_STREAM_VAULT: u64 = 4;
/// Discriminator for a proposal record derived from its squad.
pub const TAG_PROPOSAL: u64 = 5;

/// The derived identifier of a dependent record: a pure function of the
/// owning record's identity, a discriminator tag, and a nonce.
pub open spec fn derived_id(owner: Identity, tag: u64, nonce: u64) -> Identity {
    Identity { value: owner.value ^ (tag << 56) ^ nonce }
}

/// Computes the identifier of a dependent record from stable inputs.
pub fn derive_record_id(owner: Identity, tag: u64, nonce: u64) -> (r: Identity)
    ensures
        r == derived_id(owner, tag, nonce),
{
    Identity { value: owner.value ^ (tag << 56) ^ nonce }
}

/// Whether `v` holds `x`.
pub(crate) fn contains_id(v: &Vec<Identity>, x: Identity) -> (r: bool)
    ensures
        r == v@.contains(x),
{
    let n = v.len();
    for i in 0..n
        invariant
            n == v@.len(),
            forall|k: int| 0 <= k < i ==> v@[k] != x,
    {
        if v[i] == x {
            assert(v@.contains(x));
            return true;
        }
    }
    assert(!v@.contains(x));
    false
}

} // verus!
