//! The ways in which an invocation, or the transaction around it, fails.

use vstd::prelude::*;

verus! {

/// Why an invocation was refused or aborted. Every fault is fatal to the
/// transaction that encloses the invocation: nothing of it is kept.
#[derive(Clone, Copy, Debug, PartialEq, Eq, Structural)]
pub enum Fault {
    /// Fewer than the three parties were supplied.
    NotEnoughAccounts,
    /// The record is absent and the payload is shorter than a step count.
    PayloadTooShort,
    /// The funding party did not authorize the invocation.
    PayerNotSigner,
    /// The third party is not the allocation authority.
    WrongSystemProgram,
    /// No discriminator puts the derived address outside the key space.
    NoViableAddress,
    /// The named storage address is not the one derived for the requester.
    WrongAddress,
    /// The allocation authority did not create the record.
    AllocationRefused,
    /// The record is present but is not `DATA_LEN` bytes long.
    MalformedRecord,
    /// The next value of the recurrence does not fit in 64 bits.
    Overflow,
    /// A continuation would nest deeper than the host allows.
    DepthExceeded,
}

} // verus!
