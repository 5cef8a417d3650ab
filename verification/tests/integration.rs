use solana_fib_cpi::allocation::SYSTEM_PROGRAM;
use solana_fib_cpi::dispatch::{process_instruction, Account, Plan};
use solana_fib_cpi::fault::Fault;
use solana_fib_cpi::transaction::{run_transaction, Host};
use solana_pubkey::Pubkey;

const SEED: &[u8] = b"fib";

/// The host: invocations nest five deep, the initiating call and four
/// continuations, and the payer can fund the record.
const HOST: Host = Host { ceiling: 5, grants_allocation: true };

const PROGRAM: [u8; 32] = [
    11, 22, 33, 44, 55, 66, 77, 88, 99, 110, 121, 132, 143, 154, 165, 176, 187, 198, 209, 220,
    231, 242, 253, 8, 19, 30, 41, 52, 63, 74, 85, 96,
];

const PAYER: [u8; 32] = [
    1, 2, 3, 4, 5, 6, 7, 8, 9, 10, 11, 12, 13, 14, 15, 16, 17, 18, 19, 20, 21, 22, 23, 24, 25,
    26, 27, 28, 29, 30, 31, 32,
];

fn find_pda(payer: &[u8; 32]) -> ([u8; 32], u8) {
    let (pda, bump) =
        Pubkey::find_program_address(&[SEED, payer], &Pubkey::new_from_array(PROGRAM));
    (pda.to_bytes(), bump)
}

fn init_accounts(pda: [u8; 32], payer: [u8; 32]) -> Vec<Account> {
    vec![
        Account { key: pda, is_signer: false, data: vec![] },
        Account { key: payer, is_signer: true, data: vec![] },
        Account { key: SYSTEM_PROGRAM, is_signer: false, data: vec![] },
    ]
}

fn read_state(data: &[u8]) -> (u64, u64, u64, u8) {
    let a = u64::from_le_bytes(data[0..8].try_into().unwrap());
    let b = u64::from_le_bytes(data[8..16].try_into().unwrap());
    let n = u64::from_le_bytes(data[16..24].try_into().unwrap());
    let bump = data[24];
    (a, b, n, bump)
}

#[test]
fn init_n_zero() {
    let (pda, bump) = find_pda(&PAYER);
    let mut accounts = init_accounts(pda, PAYER);

    let plan = process_instruction(&PROGRAM, &accounts, &0u64.to_le_bytes()).unwrap();
    let owner = match plan {
        Plan::Initialize { allocation, .. } => allocation.data[20..52].to_vec(),
        _ => panic!("an absent record is initialized"),
    };

    run_transaction(&HOST, &PROGRAM, &mut accounts, &0u64.to_le_bytes()).unwrap();

    let (a, b, n, stored_bump) = read_state(&accounts[0].data);
    assert_eq!(a, 0);
    assert_eq!(b, 1);
    assert_eq!(n, 0);
    assert_eq!(stored_bump, bump);
    assert_eq!(owner, PROGRAM.to_vec());
}

#[test]
fn fibonacci_n1() {
    let (pda, _) = find_pda(&PAYER);
    let mut accounts = init_accounts(pda, PAYER);

    run_transaction(&HOST, &PROGRAM, &mut accounts, &1u64.to_le_bytes()).unwrap();

    // init: a=0, b=1, n=1
    // step: a=1, b=0+1=1, n=0
    let (a, b, n, _) = read_state(&accounts[0].data);
    assert_eq!(a, 1);
    assert_eq!(b, 1);
    assert_eq!(n, 0);
}

#[test]
fn fibonacci_n3() {
    let (pda, _) = find_pda(&PAYER);
    let mut accounts = init_accounts(pda, PAYER);

    run_transaction(&HOST, &PROGRAM, &mut accounts, &3u64.to_le_bytes()).unwrap();

    // init:   a=0, b=1, n=3
    // step 1: a=1, b=1, n=2
    // step 2: a=1, b=2, n=1
    // step 3: a=2, b=3, n=0
    let (a, b, n, _) = read_state(&accounts[0].data);
    assert_eq!(a, 2);
    assert_eq!(b, 3);
    assert_eq!(n, 0);
}

#[test]
fn fibonacci_n4_max_depth() {
    // init(h=1) -> step(h=2) -> step(h=3) -> step(h=4) -> step(h=5) = OK
    let (pda, _) = find_pda(&PAYER);
    let mut accounts = init_accounts(pda, PAYER);

    run_transaction(&HOST, &PROGRAM, &mut accounts, &4u64.to_le_bytes()).unwrap();

    // init:   a=0, b=1, n=4
    // step 1: a=1, b=1, n=3
    // step 2: a=1, b=2, n=2
    // step 3: a=2, b=3, n=1
    // step 4: a=3, b=5, n=0
    let (a, b, n, _) = read_state(&accounts[0].data);
    assert_eq!(a, 3);
    assert_eq!(b, 5);
    assert_eq!(n, 0);
}

#[test]
fn fibonacci_n5_exceeds_depth() {
    // n=5 needs 5 continuations, reaching depth 6 > limit of 5.
    let (pda, _) = find_pda(&PAYER);
    let mut accounts = init_accounts(pda, PAYER);

    let result = run_transaction(&HOST, &PROGRAM, &mut accounts, &5u64.to_le_bytes());
    assert!(result.is_err(), "n=5 should exceed CPI depth limit");
    assert_eq!(result, Err(Fault::DepthExceeded));
    assert_eq!(accounts, init_accounts(pda, PAYER));
}

#[test]
fn wrong_pda_fails() {
    let wrong_pda = [200u8; 32];
    let mut accounts = init_accounts(wrong_pda, PAYER);

    let result = run_transaction(&HOST, &PROGRAM, &mut accounts, &0u64.to_le_bytes());
    assert!(result.is_err(), "wrong PDA should fail");
    assert_eq!(result, Err(Fault::WrongAddress));
    assert_eq!(accounts, init_accounts(wrong_pda, PAYER));
}
