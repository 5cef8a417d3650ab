//! A whole transaction: the initiating invocation and the continuations it
//! asks for, nested one level deeper each, under a ceiling on the depth.
//! Either every invocation of the chain succeeds and the record is as the
//! last one left it, or the record is as it was before the first.

use crate::address::{program_address, Address, SEED};
use crate::dispatch::{
    accounts_view, derived_for, process_instruction, process_spec, validation_spec, Account,
    AccountView, Plan, PlanView,
};
use crate::engine::{
    advance, fib, initial_state, lemma_advance_fib, lemma_fib_monotonic, step_spec, Step,
};
use crate::fault::Fault;
use crate::state::{decode_spec, encode_spec, lemma_decode_encode, lemma_encode_decode, ComputationState};
use vstd::prelude::*;
use vstd::slice::slice_to_vec;

verus! {

/// The parties with `record` stored under the first of them.
pub open spec fn with_record(accounts: Seq<AccountView>, record: Seq<u8>) -> Seq<AccountView> {
    accounts.update(
        0,
        AccountView { key: accounts[0].key, is_signer: accounts[0].is_signer, data: record },
    )
}

/// What the host contributes to a transaction, as far as the entry point
/// can tell: how deep invocations may nest, the initiating one included,
/// and whether the allocation authority grants a creation request.
#[derive(Clone, Copy, Debug, PartialEq, Eq, Structural)]
pub struct Host {
    pub ceiling: u64,
    pub grants_allocation: bool,
}

/// The record that a chain of invocations leaves, or the fault that aborts
/// it. The chain starts with `payload` and may nest `depth_left` levels,
/// this one included. Each invocation is decided by `process_spec`. An
/// initialization stores nothing unless the allocation is `granted`. What
/// an invocation stores is seen by the continuation, which carries the
/// payload of the request that asked for it; within the depth that is left
/// the host grants every continuation.
pub open spec fn chain_spec(
    program_id: Seq<u8>,
    accounts: Seq<AccountView>,
    payload: Seq<u8>,
    derived: Option<(Seq<u8>, u8)>,
    granted: bool,
    depth_left: nat,
) -> Result<Seq<u8>, Fault>
    decreases depth_left,
{
    if depth_left == 0 {
        Err(Fault::DepthExceeded)
    } else {
        match process_spec(program_id, accounts, payload, derived) {
            Err(fault) => Err(fault),
            Ok(PlanView::Finished { result }) => Ok(accounts[0].data),
            Ok(PlanView::Initialize { record, continuation, .. }) => {
                if !granted {
                    Err(Fault::AllocationRefused)
                } else {
                    match continuation {
                        None => Ok(record),
                        Some(ix) => chain_spec(
                            program_id,
                            with_record(accounts, record),
                            ix.data,
                            derived,
                            granted,
                            (depth_left - 1) as nat,
                        ),
                    }
                }
            },
            Ok(PlanView::Advance { record, continuation: None, .. }) => Ok(record),
            Ok(PlanView::Advance { record, continuation: Some(ix), .. }) => chain_spec(
                program_id,
                with_record(accounts, record),
                ix.data,
                derived,
                granted,
                (depth_left - 1) as nat,
            ),
        }
    }
}

/// What a transaction does to the parties: a chain that succeeds leaves its
/// last record under the first party, a chain that fails leaves everything
/// as it was.
pub open spec fn transaction_spec(
    host: Host,
    program_id: Seq<u8>,
    accounts: Seq<AccountView>,
    payload: Seq<u8>,
) -> (Result<(), Fault>, Seq<AccountView>) {
    match chain_spec(
        program_id,
        accounts,
        payload,
        derived_for(program_id, accounts),
        host.grants_allocation,
        host.ceiling as nat,
    ) {
        Ok(record) => (Ok(()), with_record(accounts, record)),
        Err(fault) => (Err(fault), accounts),
    }
}

/// Stores `record` under the first party.
fn store(accounts: &mut Vec<Account>, record: Vec<u8>)
    requires
        old(accounts)@.len() >= 3,
    ensures
        accounts_view(final(accounts)@) == with_record(accounts_view(old(accounts)@), record@),
        final(accounts)@.len() == old(accounts)@.len(),
{
    let key: Address = accounts[0].key;
    let is_signer: bool = accounts[0].is_signer;
    accounts.set(0, Account { key, is_signer, data: record });
    assert(accounts_view(accounts@) =~= with_record(accounts_view(old(accounts)@), record@));
}

/// Runs a transaction that starts with `instruction_data` for the parties
/// `accounts` on the given host. The entry point decides every invocation;
/// a refused allocation or a continuation that would pass the ceiling, like
/// any other fault, undoes the whole transaction.
pub fn run_transaction(
    host: &Host,
    program_id: &Address,
    accounts: &mut Vec<Account>,
    instruction_data: &[u8],
) -> (outcome: Result<(), Fault>)
    ensures
        (outcome, accounts_view(final(accounts)@)) == transaction_spec(
            *host,
            program_id@,
            accounts_view(old(accounts)@),
            instruction_data@,
        ),
        final(accounts)@.len() == old(accounts)@.len(),
{
    let ghost before = accounts_view(accounts@);
    let ghost derived = derived_for(program_id@, before);
    let ceiling: u64 = host.ceiling;
    let ghost granted = host.grants_allocation;
    if ceiling == 0 {
        return Err(Fault::DepthExceeded);
    }
    if accounts.len() < 3 {
        return Err(Fault::NotEnoughAccounts);
    }
    let saved: Vec<u8> = accounts[0].data.clone();
    let mut payload: Vec<u8> = slice_to_vec(instruction_data);
    let mut depth_left: u64 = ceiling;
    proof {
        assert(with_record(before, saved@) =~= before);
    }
    loop
        invariant
            accounts@.len() == old(accounts)@.len(),
            accounts@.len() >= 3,
            depth_left > 0,
            saved@ == before[0].data,
            before == accounts_view(old(accounts)@),
            derived == derived_for(program_id@, before),
            accounts_view(accounts@) == with_record(before, accounts@[0].data@),
            ceiling == host.ceiling,
            granted == host.grants_allocation,
            chain_spec(
                program_id@,
                accounts_view(accounts@),
                payload@,
                derived,
                granted,
                depth_left as nat,
            ) == chain_spec(
                program_id@,
                before,
                instruction_data@,
                derived,
                granted,
                ceiling as nat,
            ),
        decreases depth_left,
    {
        let ghost current = accounts_view(accounts@);
        proof {
            assert(derived_for(program_id@, current) == derived);
        }
        match process_instruction(program_id, accounts.as_slice(), payload.as_slice()) {
            Err(fault) => {
                store(accounts, saved);
                proof {
                    assert(accounts_view(accounts@) =~= before);
                }
                return Err(fault);
            },
            Ok(Plan::Finished { result }) => {
                proof {
                    assert(accounts_view(accounts@) =~= with_record(before, current[0].data));
                }
                return Ok(());
            },
            Ok(Plan::Initialize { record, continuation, .. }) => {
                if !host.grants_allocation {
                    store(accounts, saved);
                    proof {
                        assert(accounts_view(accounts@) =~= before);
                    }
                    return Err(Fault::AllocationRefused);
                }
                let ghost stored = record@;
                store(accounts, record);
                proof {
                    assert(accounts_view(accounts@) =~= with_record(before, stored));
                }
                match continuation {
                    None => {
                        return Ok(());
                    },
                    Some(ix) => {
                        payload = ix.data;
                        depth_left = depth_left - 1;
                    },
                }
            },
            Ok(Plan::Advance { record, continuation, .. }) => {
                let ghost stored = record@;
                store(accounts, record);
                proof {
                    assert(accounts_view(accounts@) =~= with_record(before, stored));
                }
                match continuation {
                    None => {
                        return Ok(());
                    },
                    Some(ix) => {
                        payload = ix.data;
                        depth_left = depth_left - 1;
                    },
                }
            },
        }
        if depth_left == 0 {
            assert(chain_spec(program_id@, accounts_view(accounts@), payload@, derived, granted, 0)
                == Err::<Seq<u8>, Fault>(Fault::DepthExceeded));
            store(accounts, saved);
            proof {
                assert(accounts_view(accounts@) =~= before);
            }
            return Err(Fault::DepthExceeded);
        }
    }
}

/// The record that a resumption from state `s` leaves when `depth_left`
/// levels may be used. Each level takes one step. A finished state is left
/// as it is; otherwise the first `min(s.remaining, depth_left)` steps are
/// taken, and the chain succeeds if none of them overflows and they use up
/// what remains.
pub open spec fn resumed_spec(s: ComputationState, depth_left: nat) -> Result<Seq<u8>, Fault> {
    if depth_left == 0 {
        Err(Fault::DepthExceeded)
    } else if s.remaining == 0 {
        Ok(encode_spec(s))
    } else {
        let steps = if s.remaining <= depth_left {
            s.remaining as nat
        } else {
            depth_left
        };
        match advance(s, steps) {
            Err(fault) => Err(fault),
            Ok(last) => if s.remaining <= depth_left {
                Ok(encode_spec(last))
            } else {
                Err(Fault::DepthExceeded)
            },
        }
    }
}

/// The record that a valid initialization with step count `n` leaves on a
/// host with the given ceiling. The initiating level stores the initial
/// state, if the allocation is granted, and takes no step; the levels below
/// it resume from there.
pub open spec fn initialized_spec(
    n: u64,
    discriminator: u8,
    granted: bool,
    ceiling: nat,
) -> Result<Seq<u8>, Fault> {
    if ceiling == 0 {
        Err(Fault::DepthExceeded)
    } else if !granted {
        Err(Fault::AllocationRefused)
    } else if n == 0 {
        Ok(encode_spec(initial_state(0, discriminator)))
    } else {
        resumed_spec(initial_state(n, discriminator), (ceiling - 1) as nat)
    }
}

/// A chain that starts on a present record resumes from the state stored
/// there: it leaves what `resumed_spec` says, whatever the payload, whoever
/// the requester and whatever the allocation authority would grant.
pub proof fn lemma_resumed_chain(
    program_id: Seq<u8>,
    accounts: Seq<AccountView>,
    payload: Seq<u8>,
    derived: Option<(Seq<u8>, u8)>,
    granted: bool,
    depth_left: nat,
    s: ComputationState,
)
    requires
        accounts.len() >= 3,
        decode_spec(accounts[0].data) == Some(s),
    ensures
        chain_spec(program_id, accounts, payload, derived, granted, depth_left) == resumed_spec(
            s,
            depth_left,
        ),
    decreases depth_left,
{
    lemma_encode_decode(accounts[0].data);
    if depth_left > 0 {
        match step_spec(s.a, s.b, s.remaining) {
            Ok(Step::Continue { a, b, remaining }) => {
                let next = ComputationState { a, b, remaining, discriminator: s.discriminator };
                let after = with_record(accounts, encode_spec(next));
                lemma_decode_encode(next);
                assert(advance(next, 0) == Ok::<ComputationState, Fault>(next));
                if remaining > 0 {
                    let request = process_spec(program_id, accounts, payload, derived);
                    let ix = request->Ok_0->Advance_continuation->Some_0;
                    lemma_resumed_chain(
                        program_id,
                        after,
                        ix.data,
                        derived,
                        granted,
                        (depth_left - 1) as nat,
                        next,
                    );
                }
            },
            _ => {},
        }
    }
}

/// A chain that starts on an absent record with a valid request for `n`
/// steps, naming the address derived for the requester, leaves what
/// `initialized_spec` says.
pub proof fn lemma_initialized_chain(
    program_id: Seq<u8>,
    accounts: Seq<AccountView>,
    payload: Seq<u8>,
    n: u64,
    discriminator: u8,
    granted: bool,
    ceiling: nat,
)
    requires
        accounts.len() >= 3,
        accounts[0].data.len() == 0,
        validation_spec(accounts[1], accounts[2], payload) == Ok::<u64, Fault>(n),
    ensures
        chain_spec(
            program_id,
            accounts,
            payload,
            Some((accounts[0].key, discriminator)),
            granted,
            ceiling,
        ) == initialized_spec(n, discriminator, granted, ceiling),
{
    let derived = Some((accounts[0].key, discriminator));
    if ceiling > 0 && n > 0 && granted {
        let first = initial_state(n, discriminator);
        let request = process_spec(program_id, accounts, payload, derived);
        let ix = request->Ok_0->Initialize_continuation->Some_0;
        lemma_decode_encode(first);
        lemma_resumed_chain(
            program_id,
            with_record(accounts, encode_spec(first)),
            ix.data,
            derived,
            granted,
            (ceiling - 1) as nat,
            first,
        );
    }
}

/// What `initialized_spec` comes to. With a ceiling of at most `n` levels
/// it is a fault. With more, and the allocation granted, it is the record
/// with no step remaining and `b == fib(n + 1)`, or an overflow where that
/// number does not fit in 64 bits.
pub proof fn lemma_initialized_outcome(n: u64, discriminator: u8, granted: bool, ceiling: nat)
    ensures
        ({
            let chain = initialized_spec(n, discriminator, granted, ceiling);
            let fits = fib((n + 1) as nat) <= u64::MAX;
            &&& n >= ceiling ==> chain is Err
            &&& n >= ceiling && granted && fits ==> chain == Err::<Seq<u8>, Fault>(
                Fault::DepthExceeded,
            )
            &&& n < ceiling && !granted ==> chain == Err::<Seq<u8>, Fault>(
                Fault::AllocationRefused,
            )
            &&& n < ceiling && granted && !fits ==> chain == Err::<Seq<u8>, Fault>(
                Fault::Overflow,
            )
            &&& n < ceiling && granted && fits ==> chain == Ok::<Seq<u8>, Fault>(
                encode_spec(
                    ComputationState {
                        a: fib(n as nat) as u64,
                        b: fib((n + 1) as nat) as u64,
                        remaining: 0,
                        discriminator,
                    },
                ),
            )
        }),
{
    let first = initial_state(n, discriminator);
    if ceiling > 0 && n > 0 {
        let levels = (ceiling - 1) as nat;
        if n < ceiling {
            lemma_advance_fib(first, 0, n as nat);
        } else if levels > 0 {
            lemma_advance_fib(first, 0, levels);
            lemma_fib_monotonic(levels + 1, (n + 1) as nat);
        }
    }
}

/// Depth boundary and recurrence. A valid request for `n` steps on an
/// absent record, naming the address derived for the requester, needs the
/// initiating level and `n` continuations. On a host whose ceiling is at
/// most `n` the transaction fails, the initializing step included, and no
/// record persists. On a host that allows more and grants the allocation,
/// the transaction leaves the record with no step remaining, `a == fib(n)`
/// and `b == fib(n + 1)`; where `fib(n + 1)` does not fit in 64 bits it
/// fails with an overflow instead.
pub proof fn lemma_depth_boundary(
    host: Host,
    program_id: Seq<u8>,
    accounts: Seq<AccountView>,
    payload: Seq<u8>,
    n: u64,
    discriminator: u8,
)
    requires
        accounts.len() >= 3,
        accounts[0].data.len() == 0,
        validation_spec(accounts[1], accounts[2], payload) == Ok::<u64, Fault>(n),
        program_address(SEED@, accounts[1].key, program_id) == Some(
            (accounts[0].key, discriminator),
        ),
    ensures
        ({
            let (outcome, after) = transaction_spec(host, program_id, accounts, payload);
            let fits = fib((n + 1) as nat) <= u64::MAX;
            let granted = host.grants_allocation;
            &&& n >= host.ceiling ==> outcome is Err && after == accounts
            &&& n >= host.ceiling && granted && fits ==> outcome == Err::<(), Fault>(
                Fault::DepthExceeded,
            )
            &&& n < host.ceiling && !granted ==> outcome == Err::<(), Fault>(
                Fault::AllocationRefused,
            )
            &&& n < host.ceiling && granted && !fits ==> outcome == Err::<(), Fault>(
                Fault::Overflow,
            )
            &&& n < host.ceiling && granted && fits ==> outcome == Ok::<(), Fault>(()) && after
                == with_record(
                accounts,
                encode_spec(
                    ComputationState {
                        a: fib(n as nat) as u64,
                        b: fib((n + 1) as nat) as u64,
                        remaining: 0,
                        discriminator,
                    },
                ),
            )
        }),
{
    lemma_initialized_chain(
        program_id,
        accounts,
        payload,
        n,
        discriminator,
        host.grants_allocation,
        host.ceiling as nat,
    );
    lemma_initialized_outcome(n, discriminator, host.grants_allocation, host.ceiling as nat);
}

/// A transaction on a present record resumes from the state stored there,
/// whatever the payload and whoever the requester: it succeeds with the
/// record that `resumed_spec` gives, or fails with its fault and changes
/// nothing.
pub proof fn lemma_resumed_transaction(
    host: Host,
    program_id: Seq<u8>,
    accounts: Seq<AccountView>,
    payload: Seq<u8>,
    s: ComputationState,
)
    requires
        accounts.len() >= 3,
        decode_spec(accounts[0].data) == Some(s),
    ensures
        transaction_spec(host, program_id, accounts, payload) == (match resumed_spec(
            s,
            host.ceiling as nat,
        ) {
            Ok(record) => (Ok::<(), Fault>(()), with_record(accounts, record)),
            Err(fault) => (Err::<(), Fault>(fault), accounts),
        }),
{
    lemma_resumed_chain(
        program_id,
        accounts,
        payload,
        derived_for(program_id, accounts),
        host.grants_allocation,
        host.ceiling as nat,
        s,
    );
}

/// Idempotent terminal state: on a record with no step remaining every
/// invocation reports the stored `b` and plans no write and no request, and
/// every transaction succeeds and leaves the parties as they were.
pub proof fn lemma_terminal_state(
    host: Host,
    program_id: Seq<u8>,
    accounts: Seq<AccountView>,
    payload: Seq<u8>,
    derived: Option<(Seq<u8>, u8)>,
    s: ComputationState,
)
    requires
        accounts.len() >= 3,
        decode_spec(accounts[0].data) == Some(s),
        s.remaining == 0,
        host.ceiling > 0,
    ensures
        process_spec(program_id, accounts, payload, derived) == Ok::<PlanView, Fault>(
            PlanView::Finished { result: s.b },
        ),
        transaction_spec(host, program_id, accounts, payload) == (Ok::<(), Fault>(()), accounts),
{
    assert(with_record(accounts, accounts[0].data) =~= accounts);
}

/// Address integrity: while the record is absent, an invocation that names
/// another address than the one derived for the requester is refused, and
/// so is one for which the derivation finds no address. No plan comes of
/// it, so nothing is allocated and nothing stored, and the transaction
/// leaves the parties as they were.
pub proof fn lemma_address_integrity(
    host: Host,
    program_id: Seq<u8>,
    accounts: Seq<AccountView>,
    payload: Seq<u8>,
)
    requires
        accounts.len() >= 3,
        accounts[0].data.len() == 0,
        program_address(SEED@, accounts[1].key, program_id) matches Some((address, _))
            ==> address != accounts[0].key,
    ensures
        process_spec(program_id, accounts, payload, derived_for(program_id, accounts)) is Err,
        transaction_spec(host, program_id, accounts, payload).0 is Err,
        transaction_spec(host, program_id, accounts, payload).1 == accounts,
{
}

/// Whether two lists of parties agree in all that an invocation looks at:
/// the record with its address, the requester's address and authorization,
/// and the third party's address. What is stored under any other party, or
/// under the requester, is left open.
pub open spec fn same_request(accounts: Seq<AccountView>, others: Seq<AccountView>) -> bool {
    &&& accounts.len() >= 3
    &&& others.len() >= 3
    &&& others[0] == accounts[0]
    &&& others[1].key == accounts[1].key
    &&& others[1].is_signer == accounts[1].is_signer
    &&& others[2].key == accounts[2].key
}

/// A chain reads no stored bytes but those of the record it names.
pub proof fn lemma_chain_reads_one_record(
    program_id: Seq<u8>,
    accounts: Seq<AccountView>,
    others: Seq<AccountView>,
    payload: Seq<u8>,
    derived: Option<(Seq<u8>, u8)>,
    granted: bool,
    depth_left: nat,
)
    requires
        same_request(accounts, others),
    ensures
        chain_spec(program_id, accounts, payload, derived, granted, depth_left) == chain_spec(
            program_id,
            others,
            payload,
            derived,
            granted,
            depth_left,
        ),
    decreases depth_left,
{
    if depth_left > 0 {
        match process_spec(program_id, accounts, payload, derived) {
            Ok(PlanView::Initialize { record, continuation: Some(ix), .. }) => {
                lemma_chain_reads_one_record(
                    program_id,
                    with_record(accounts, record),
                    with_record(others, record),
                    ix.data,
                    derived,
                    granted,
                    (depth_left - 1) as nat,
                );
            },
            Ok(PlanView::Advance { record, continuation: Some(ix), .. }) => {
                lemma_chain_reads_one_record(
                    program_id,
                    with_record(accounts, record),
                    with_record(others, record),
                    ix.data,
                    derived,
                    granted,
                    (depth_left - 1) as nat,
                );
            },
            _ => {},
        }
    }
}

/// Isolation: a transaction neither reads nor writes what is stored
/// elsewhere than under the record it names. Its outcome and the record it
/// leaves are the same whatever any other party holds, every other party is
/// left as it was, and a transaction that fails changes nothing at all.
pub proof fn lemma_isolation(
    host: Host,
    program_id: Seq<u8>,
    accounts: Seq<AccountView>,
    others: Seq<AccountView>,
    payload: Seq<u8>,
)
    requires
        same_request(accounts, others),
    ensures
        ({
            let (outcome, after) = transaction_spec(host, program_id, accounts, payload);
            let (other_outcome, other_after) = transaction_spec(host, program_id, others, payload);
            &&& outcome == other_outcome
            &&& after[0] == other_after[0]
            &&& after[0].key == accounts[0].key
            &&& after.len() == accounts.len()
            &&& forall|i: int| 1 <= i < accounts.len() ==> after[i] == accounts[i]
            &&& forall|i: int| 1 <= i < others.len() ==> other_after[i] == others[i]
            &&& outcome is Err ==> after == accounts
        }),
{
    lemma_chain_reads_one_record(
        program_id,
        accounts,
        others,
        payload,
        derived_for(program_id, accounts),
        host.grants_allocation,
        host.ceiling as nat,
    );
}

} // verus!
