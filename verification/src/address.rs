//! Derivation of the storage address that belongs to a requesting identity.

use solana_pubkey::Pubkey;
use vstd::prelude::*;

verus! {

/// An address or identity: 32 bytes.
pub type Address = [u8; 32];

/// The fixed seed under which every record's address is derived: the
/// letters `fib`.
pub const SEED: [u8; 3] = [102, 105, 98];

/// The address and discriminator that the host's derivation gives for a
/// seed, an identity and the program that owns the record, or `None` where
/// its search finds none.
pub uninterp spec fn program_address(seed: Seq<u8>, identity: Seq<u8>, program_id: Seq<u8>) -> Option<(Seq<u8>, u8)>;

/// A derivation result with its address taken as a byte sequence.
pub open spec fn derived_view(found: Option<(Address, u8)>) -> Option<(Seq<u8>, u8)> {
    match found {
        Some((address, discriminator)) => Some((address@, discriminator)),
        None => None,
    }
}

/// `Pubkey::try_find_program_address` on the two seeds `seed` and `identity`.
/// Off the host it hashes the seeds, a candidate discriminator, the program
/// id and a marker, trying discriminators from 255 downward until the hash is
/// no curve point. Nothing but its arguments enters the search, so the
/// result is named `program_address` of them; where the search fails, or a
/// seed is longer than the host accepts, it returns `None` and does not
/// panic.
#[verifier::external_body]
fn try_find_program_address(seed: &[u8], identity: &Address, program_id: &Address) -> (found: Option<(Address, u8)>)
    ensures
        derived_view(found) == program_address(seed@, identity@, program_id@),
{
    match Pubkey::try_find_program_address(&[seed, identity], &Pubkey::new_from_array(*program_id)) {
        Some((address, discriminator)) => Some((address.to_bytes(), discriminator)),
        None => None,
    }
}

/// The storage address of `identity` under `program_id`, with the
/// discriminator that the search found. The result is a function of the two
/// arguments alone: the same pair always yields the same address and
/// discriminator.
pub fn derive_address(identity: &Address, program_id: &Address) -> (found: Option<(Address, u8)>)
    ensures
        derived_view(found) == program_address(SEED@, identity@, program_id@),
{
    let seed: [u8; 3] = SEED;
    try_find_program_address(seed.as_slice(), identity, program_id)
}

/// Whether two addresses hold the same bytes.
pub fn same_address(left: &Address, right: &Address) -> (same: bool)
    ensures
        same == (left@ == right@),
{
    let mut i: usize = 0;
    while i < 32
        invariant
            i <= 32,
            forall|j: int| 0 <= j < i ==> left@[j] == right@[j],
        decreases 32 - i,
    {
        if left[i] != right[i] {
            return false;
        }
        i += 1;
    }
    assert(left@ =~= right@);
    true
}

} // verus!
