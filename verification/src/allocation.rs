//! The request that asks the allocation authority to create the storage
//! record: its funding amount and its wire form.

use crate::address::Address;
use vstd::bytes::*;
use vstd::prelude::*;

verus! {

/// Bytes the host accounts for on top of a record's own data.
pub const ACCOUNT_OVERHEAD: u64 = 128;

/// Funding owed per byte and per year of storage.
pub const RATE: u64 = 3_480;

/// Years of storage that a record is funded for.
pub const YEARS: u64 = 2;

/// The allocation authority's selector for "create a new record".
pub const CREATE_ACCOUNT: u32 = 0;

/// The address of the allocation authority: 32 zero bytes.
pub const SYSTEM_PROGRAM: Address = [
    0, 0, 0, 0, 0, 0, 0, 0, 0, 0, 0, 0, 0, 0, 0, 0,
    0, 0, 0, 0, 0, 0, 0, 0, 0, 0, 0, 0, 0, 0, 0, 0,
];

/// The allocation authority's address as a byte sequence.
pub open spec fn system_program() -> Seq<u8> {
    Seq::new(32, |i: int| 0u8)
}

/// One party of a request: its address, whether it authorizes the request,
/// and whether the request may change it.
#[derive(Clone, Copy, Debug, PartialEq, Eq)]
pub struct AccountMeta {
    pub pubkey: Address,
    pub is_signer: bool,
    pub is_writable: bool,
}

/// An `AccountMeta` with its address as a byte sequence.
pub ghost struct AccountMetaView {
    pub pubkey: Seq<u8>,
    pub is_signer: bool,
    pub is_writable: bool,
}

impl View for AccountMeta {
    type V = AccountMetaView;

    open spec fn view(&self) -> AccountMetaView {
        AccountMetaView {
            pubkey: self.pubkey@,
            is_signer: self.is_signer,
            is_writable: self.is_writable,
        }
    }
}

/// A request to a program: whom it addresses, the parties in order, and
/// the payload.
#[derive(Clone, Debug, PartialEq, Eq)]
pub struct Instruction {
    pub program_id: Address,
    pub accounts: Vec<AccountMeta>,
    pub data: Vec<u8>,
}

/// An `Instruction` as sequences.
pub ghost struct InstructionView {
    pub program_id: Seq<u8>,
    pub accounts: Seq<AccountMetaView>,
    pub data: Seq<u8>,
}

impl View for Instruction {
    type V = InstructionView;

    open spec fn view(&self) -> InstructionView {
        InstructionView {
            program_id: self.program_id@,
            accounts: self.accounts@.map_values(|meta: AccountMeta| meta@),
            data: self.data@,
        }
    }
}

/// A party that the request may change.
pub open spec fn writable(pubkey: Seq<u8>, is_signer: bool) -> AccountMetaView {
    AccountMetaView { pubkey, is_signer, is_writable: true }
}

/// A party that the request only reads.
pub open spec fn readonly(pubkey: Seq<u8>, is_signer: bool) -> AccountMetaView {
    AccountMetaView { pubkey, is_signer, is_writable: false }
}

/// The funding amount for a record of `data_len` bytes, as a number.
pub open spec fn rent_minimum_spec(data_len: int) -> int {
    (ACCOUNT_OVERHEAD + data_len) * RATE * YEARS
}

/// The creation request on the wire. It addresses the allocation authority
/// and names the funding party and the new record, both authorizing and both
/// changed. Its payload is the selector in 4 bytes, the funding amount and
/// the byte length in 8 bytes each, all little-endian, and the 32 bytes of
/// the record's controlling authority: 52 bytes.
pub open spec fn create_account_spec(
    from: Seq<u8>,
    to: Seq<u8>,
    lamports: u64,
    space: u64,
    owner: Seq<u8>,
) -> InstructionView {
    InstructionView {
        program_id: system_program(),
        accounts: seq![writable(from, true), writable(to, true)],
        data: spec_u32_to_le_bytes(CREATE_ACCOUNT) + spec_u64_to_le_bytes(lamports)
            + spec_u64_to_le_bytes(space) + owner,
    }
}

/// The funding amount for a record of `data_len` bytes:
/// `(128 + data_len) * RATE * 2`. The amount has to fit in 64 bits.
pub fn rent_minimum(data_len: u64) -> (lamports: u64)
    requires
        rent_minimum_spec(data_len as int) <= u64::MAX,
    ensures
        lamports == rent_minimum_spec(data_len as int),
{
    (ACCOUNT_OVERHEAD + data_len) * RATE * YEARS
}

/// Appends the bytes of an address to `data`.
fn extend_with_address(data: &mut Vec<u8>, address: &Address)
    ensures
        final(data)@ == old(data)@ + address@,
{
    let mut i: usize = 0;
    while i < 32
        invariant
            i <= 32,
            data@ == old(data)@ + address@.subrange(0, i as int),
        decreases 32 - i,
    {
        data.push(address[i]);
        assert(address@.subrange(0, i + 1) =~= address@.subrange(0, i as int).push(address@[i as int]));
        i += 1;
    }
    assert(address@.subrange(0, 32) =~= address@);
}

/// Builds the request that creates the record `to`, funded by `from` with
/// `lamports`, `space` bytes long and controlled by `owner`.
pub fn create_account_ix(
    from: &Address,
    to: &Address,
    lamports: u64,
    space: u64,
    owner: &Address,
) -> (ix: Instruction)
    ensures
        ix@ == create_account_spec(from@, to@, lamports, space, owner@),
        ix@.data.len() == 52,
{
    let mut data: Vec<u8> = u32_to_le_bytes(CREATE_ACCOUNT);
    let mut amount: Vec<u8> = u64_to_le_bytes(lamports);
    let mut length: Vec<u8> = u64_to_le_bytes(space);
    data.append(&mut amount);
    data.append(&mut length);
    extend_with_address(&mut data, owner);
    let mut accounts: Vec<AccountMeta> = Vec::new();
    accounts.push(AccountMeta { pubkey: *from, is_signer: true, is_writable: true });
    accounts.push(AccountMeta { pubkey: *to, is_signer: true, is_writable: true });
    let ix = Instruction { program_id: SYSTEM_PROGRAM, accounts, data };
    proof {
        lemma_auto_spec_u64_to_from_le_bytes();
        lemma_auto_spec_u32_to_from_le_bytes();
        assert(ix@.program_id =~= system_program());
        assert(ix@.accounts =~= seq![writable(from@, true), writable(to@, true)]);
    }
    ix
}

} // verus!
