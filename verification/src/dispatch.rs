//! The entry point's decisions: whether an invocation initializes or
//! resumes, what it stores, and whether it asks to be invoked again.

use crate::address::{derive_address, derived_view, program_address, same_address, Address, SEED};
use crate::allocation::{
    create_account_ix, create_account_spec, readonly, rent_minimum, rent_minimum_spec,
    system_program, writable, AccountMeta, Instruction, InstructionView, SYSTEM_PROGRAM,
};
use crate::engine::{initial_state, step, step_spec, Step};
use crate::fault::Fault;
use crate::state::{decode, decode_spec, encode, encode_spec, ComputationState, DATA_LEN};
use vstd::bytes::*;
use vstd::prelude::*;
use vstd::slice::slice_subrange;

verus! {

/// A party as the entry point sees it: its address, whether it authorized
/// the invocation, and the bytes stored under it (none where nothing is).
#[derive(Clone, Debug, PartialEq, Eq)]
pub struct Account {
    pub key: Address,
    pub is_signer: bool,
    pub data: Vec<u8>,
}

/// An `Account` as sequences.
pub ghost struct AccountView {
    pub key: Seq<u8>,
    pub is_signer: bool,
    pub data: Seq<u8>,
}

impl View for Account {
    type V = AccountView;

    open spec fn view(&self) -> AccountView {
        AccountView { key: self.key@, is_signer: self.is_signer, data: self.data@ }
    }
}

/// The seeds by which the program authorizes a request on behalf of a
/// derived address: the fixed seed, the identity, and the discriminator.
#[derive(Clone, Copy, Debug, PartialEq, Eq)]
pub struct SignerSeeds {
    pub seed: [u8; 3],
    pub identity: Address,
    pub discriminator: u8,
}

/// `SignerSeeds` as sequences.
pub ghost struct SignerSeedsView {
    pub seed: Seq<u8>,
    pub identity: Seq<u8>,
    pub discriminator: u8,
}

impl View for SignerSeeds {
    type V = SignerSeedsView;

    open spec fn view(&self) -> SignerSeedsView {
        SignerSeedsView {
            seed: self.seed@,
            identity: self.identity@,
            discriminator: self.discriminator,
        }
    }
}

/// What the host is to do for one invocation, in this order: send the
/// allocation request, if there is one; store `record`; send the
/// continuation, if there is one. A request that fails aborts the rest.
#[derive(Clone, Debug, PartialEq, Eq)]
pub enum Plan {
    /// The record is absent: create it, store the initial state.
    Initialize {
        allocation: Instruction,
        signer_seeds: SignerSeeds,
        state: ComputationState,
        record: Vec<u8>,
        continuation: Option<Instruction>,
    },
    /// A step was taken: store the state after it.
    Advance { state: ComputationState, record: Vec<u8>, continuation: Option<Instruction> },
    /// No step was left: report `result`, store nothing, send nothing.
    Finished { result: u64 },
}

/// A `Plan` as sequences.
pub ghost enum PlanView {
    Initialize {
        allocation: InstructionView,
        signer_seeds: SignerSeedsView,
        state: ComputationState,
        record: Seq<u8>,
        continuation: Option<InstructionView>,
    },
    Advance { state: ComputationState, record: Seq<u8>, continuation: Option<InstructionView> },
    Finished { result: u64 },
}

/// An optional request as sequences.
pub open spec fn request_view(request: Option<Instruction>) -> Option<InstructionView> {
    match request {
        Some(ix) => Some(ix@),
        None => None,
    }
}

impl View for Plan {
    type V = PlanView;

    open spec fn view(&self) -> PlanView {
        match *self {
            Plan::Initialize { allocation, signer_seeds, state, record, continuation } => {
                PlanView::Initialize {
                    allocation: allocation@,
                    signer_seeds: signer_seeds@,
                    state,
                    record: record@,
                    continuation: request_view(continuation),
                }
            },
            Plan::Advance { state, record, continuation } => PlanView::Advance {
                state,
                record: record@,
                continuation: request_view(continuation),
            },
            Plan::Finished { result } => PlanView::Finished { result },
        }
    }
}

/// The outcome of a decision as sequences.
pub open spec fn outcome_view(outcome: Result<Plan, Fault>) -> Result<PlanView, Fault> {
    match outcome {
        Ok(plan) => Ok(plan@),
        Err(fault) => Err(fault),
    }
}

/// The parties of an invocation as sequences.
pub open spec fn accounts_view(accounts: Seq<Account>) -> Seq<AccountView> {
    accounts.map_values(|account: Account| account@)
}

/// The self-invocation: it addresses the program itself, names the record
/// (changed, not authorizing), the requester (changed, authorizing) and the
/// allocation authority (read), and carries no payload.
pub open spec fn self_cpi_spec(program_id: Seq<u8>, pda: Seq<u8>, payer: Seq<u8>) -> InstructionView {
    InstructionView {
        program_id,
        accounts: seq![writable(pda, false), writable(payer, true), readonly(system_program(), false)],
        data: Seq::empty(),
    }
}

/// The continuation that follows a stored state: a self-invocation while
/// steps remain, none once they are used up.
pub open spec fn continuation_spec(
    program_id: Seq<u8>,
    pda: Seq<u8>,
    payer: Seq<u8>,
    remaining: u64,
) -> Option<InstructionView> {
    if remaining > 0 {
        Some(self_cpi_spec(program_id, pda, payer))
    } else {
        None
    }
}

/// The step count that an initializing payload carries: its first 8 bytes,
/// little-endian.
pub open spec fn step_count(payload: Seq<u8>) -> u64 {
    spec_u64_from_le_bytes(payload.subrange(0, 8))
}

/// What is checked of an initializing invocation before any address is
/// derived, in this order: the payload holds a step count, the funding party
/// authorized, and the third party is the allocation authority.
pub open spec fn validation_spec(payer: AccountView, system: AccountView, payload: Seq<u8>) -> Result<u64, Fault> {
    if payload.len() < 8 {
        Err(Fault::PayloadTooShort)
    } else if !payer.is_signer {
        Err(Fault::PayerNotSigner)
    } else if system.key != system_program() {
        Err(Fault::WrongSystemProgram)
    } else {
        Ok(step_count(payload))
    }
}

/// The plan of a validated initialization, given what the derivation found
/// for the requester. A named address other than the derived one is refused;
/// otherwise the record is created with `DATA_LEN` bytes, funded with the
/// amount for that length and controlled by the program, the state
/// `(0, 1, n)` is stored with the discriminator, and a self-invocation
/// follows if `n` is positive.
pub open spec fn initialization_spec(
    program_id: Seq<u8>,
    pda: Seq<u8>,
    payer: Seq<u8>,
    n: u64,
    derived: Option<(Seq<u8>, u8)>,
) -> Result<PlanView, Fault> {
    match derived {
        None => Err(Fault::NoViableAddress),
        Some((address, discriminator)) => {
            if pda != address {
                Err(Fault::WrongAddress)
            } else {
                let state = initial_state(n, discriminator);
                Ok(
                    PlanView::Initialize {
                        allocation: create_account_spec(
                            payer,
                            pda,
                            rent_minimum_spec(DATA_LEN as int) as u64,
                            DATA_LEN,
                            program_id,
                        ),
                        signer_seeds: SignerSeedsView { seed: SEED@, identity: payer, discriminator },
                        state,
                        record: encode_spec(state),
                        continuation: continuation_spec(program_id, pda, payer, n),
                    },
                )
            }
        },
    }
}

/// The plan of a resumption. A record of another length than `DATA_LEN` is
/// refused. With no step remaining the plan reports `b` and changes nothing;
/// otherwise one step is taken, the state after it is stored with the
/// discriminator unchanged, and a self-invocation follows while steps remain.
pub open spec fn resumption_spec(program_id: Seq<u8>, pda: AccountView, payer: Seq<u8>) -> Result<PlanView, Fault> {
    match decode_spec(pda.data) {
        None => Err(Fault::MalformedRecord),
        Some(s) => match step_spec(s.a, s.b, s.remaining) {
            Err(fault) => Err(fault),
            Ok(Step::Done { result }) => Ok(PlanView::Finished { result }),
            Ok(Step::Continue { a, b, remaining }) => {
                let state = ComputationState { a, b, remaining, discriminator: s.discriminator };
                Ok(
                    PlanView::Advance {
                        state,
                        record: encode_spec(state),
                        continuation: continuation_spec(program_id, pda.key, payer, remaining),
                    },
                )
            },
        },
    }
}

/// The decision for one invocation. The parties are, in order, the storage
/// record, the requesting identity and the allocation authority. Whether the
/// record holds any bytes, and nothing else, tells an initialization from a
/// resumption; a resumption does not look at the payload.
pub open spec fn process_spec(
    program_id: Seq<u8>,
    accounts: Seq<AccountView>,
    payload: Seq<u8>,
    derived: Option<(Seq<u8>, u8)>,
) -> Result<PlanView, Fault> {
    if accounts.len() < 3 {
        Err(Fault::NotEnoughAccounts)
    } else if accounts[0].data.len() == 0 {
        match validation_spec(accounts[1], accounts[2], payload) {
            Err(fault) => Err(fault),
            Ok(n) => initialization_spec(program_id, accounts[0].key, accounts[1].key, n, derived),
        }
    } else {
        resumption_spec(program_id, accounts[0], accounts[1].key)
    }
}

/// What the derivation gives for the requester of an invocation.
pub open spec fn derived_for(program_id: Seq<u8>, accounts: Seq<AccountView>) -> Option<(Seq<u8>, u8)> {
    if accounts.len() < 3 {
        None
    } else {
        program_address(SEED@, accounts[1].key, program_id)
    }
}

/// Builds the request by which the program asks to be invoked again for the
/// same record and requester.
pub fn self_cpi(program_id: &Address, pda: &Address, payer: &Address) -> (ix: Instruction)
    ensures
        ix@ == self_cpi_spec(program_id@, pda@, payer@),
{
    let mut accounts: Vec<AccountMeta> = Vec::new();
    accounts.push(AccountMeta { pubkey: *pda, is_signer: false, is_writable: true });
    accounts.push(AccountMeta { pubkey: *payer, is_signer: true, is_writable: true });
    accounts.push(AccountMeta { pubkey: SYSTEM_PROGRAM, is_signer: false, is_writable: false });
    let ix = Instruction { program_id: *program_id, accounts, data: Vec::new() };
    proof {
        assert(SYSTEM_PROGRAM@ =~= system_program());
        assert(ix@.accounts =~= self_cpi_spec(program_id@, pda@, payer@).accounts);
        assert(ix@.data =~= Seq::<u8>::empty());
    }
    ix
}

/// The continuation after a state with `remaining` steps left was stored.
fn continuation(program_id: &Address, pda: &Address, payer: &Address, remaining: u64) -> (next: Option<Instruction>)
    ensures
        request_view(next) == continuation_spec(program_id@, pda@, payer@, remaining),
{
    if remaining > 0 {
        Some(self_cpi(program_id, pda, payer))
    } else {
        None
    }
}

/// Checks an initializing invocation and reads its step count.
pub fn validate(payer: &Account, system: &Account, instruction_data: &[u8]) -> (checked: Result<u64, Fault>)
    ensures
        checked == validation_spec(payer@, system@, instruction_data@),
{
    if instruction_data.len() < 8 {
        return Err(Fault::PayloadTooShort);
    }
    if !payer.is_signer {
        return Err(Fault::PayerNotSigner);
    }
    let authority: Address = SYSTEM_PROGRAM;
    proof {
        assert(SYSTEM_PROGRAM@ =~= system_program());
    }
    if !same_address(&system.key, &authority) {
        return Err(Fault::WrongSystemProgram);
    }
    Ok(u64_from_le_bytes(slice_subrange(instruction_data, 0, 8)))
}

/// Plans a validated initialization with step count `n`, given what the
/// derivation found for `payer`.
pub fn plan_initialization(
    program_id: &Address,
    pda: &Address,
    payer: &Address,
    n: u64,
    derived: Option<(Address, u8)>,
) -> (outcome: Result<Plan, Fault>)
    ensures
        outcome_view(outcome) == initialization_spec(
            program_id@,
            pda@,
            payer@,
            n,
            derived_view(derived),
        ),
{
    match derived {
        None => Err(Fault::NoViableAddress),
        Some((address, discriminator)) => {
            if !same_address(pda, &address) {
                return Err(Fault::WrongAddress);
            }
            let state = ComputationState { a: 0, b: 1, remaining: n, discriminator };
            Ok(
                Plan::Initialize {
                    allocation: create_account_ix(
                        payer,
                        pda,
                        rent_minimum(DATA_LEN),
                        DATA_LEN,
                        program_id,
                    ),
                    signer_seeds: SignerSeeds { seed: SEED, identity: *payer, discriminator },
                    state,
                    record: encode(&state),
                    continuation: continuation(program_id, pda, payer, n),
                },
            )
        },
    }
}

/// Plans a resumption from the stored record.
pub fn plan_resumption(program_id: &Address, pda: &Account, payer: &Address) -> (outcome: Result<Plan, Fault>)
    ensures
        outcome_view(outcome) == resumption_spec(program_id@, pda@, payer@),
{
    let stored = match decode(pda.data.as_slice()) {
        Some(stored) => stored,
        None => { return Err(Fault::MalformedRecord); },
    };
    match step(stored.a, stored.b, stored.remaining) {
        Err(fault) => Err(fault),
        Ok(Step::Done { result }) => Ok(Plan::Finished { result }),
        Ok(Step::Continue { a, b, remaining }) => {
            let state = ComputationState { a, b, remaining, discriminator: stored.discriminator };
            Ok(
                Plan::Advance {
                    state,
                    record: encode(&state),
                    continuation: continuation(program_id, &pda.key, payer, remaining),
                },
            )
        },
    }
}

/// Decides one invocation. An absent record is initialized only after the
/// payload, the authorization and the named address have been checked, the
/// address against the one derived for the requester; a present record is
/// advanced by one step, or reported where it is finished. The plan is the
/// one that `process_spec` gives for the address that the derivation finds.
pub fn process_instruction(
    program_id: &Address,
    accounts: &[Account],
    instruction_data: &[u8],
) -> (outcome: Result<Plan, Fault>)
    ensures
        outcome_view(outcome) == process_spec(
            program_id@,
            accounts_view(accounts@),
            instruction_data@,
            derived_for(program_id@, accounts_view(accounts@)),
        ),
{
    if accounts.len() < 3 {
        return Err(Fault::NotEnoughAccounts);
    }
    let pda = &accounts[0];
    let payer = &accounts[1];
    let system = &accounts[2];
    if pda.data.is_empty() {
        match validate(payer, system, instruction_data) {
            Err(fault) => Err(fault),
            Ok(n) => {
                let derived = derive_address(&payer.key, program_id);
                plan_initialization(program_id, &pda.key, &payer.key, n, derived)
            },
        }
    } else {
        plan_resumption(program_id, pda, &payer.key)
    }
}

} // verus!
