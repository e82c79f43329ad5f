use my_program::account::{load_counter, same_key, store_counter};
use my_program::instruction::{push_le, read_le};
use my_program::processor::{addresses_distinct, validate_accounts};
use my_program::{process_instruction, AccountRef, AccountRequirement, DispatchError, Instruction};

const PROGRAM: [u8; 32] = [7u8; 32];
const OTHER_PROGRAM: [u8; 32] = [9u8; 32];

fn key(b: u8) -> [u8; 32] {
    let mut k = [0u8; 32];
    k[0] = b;
    k
}

fn counter_data(v: u64, extra: &[u8]) -> Vec<u8> {
    let mut d = v.to_le_bytes().to_vec();
    d.extend_from_slice(extra);
    d
}

fn state(address: u8, signer: bool, counter: u64) -> AccountRef {
    AccountRef {
        address: key(address),
        is_signer: signer,
        is_writable: true,
        owner: PROGRAM,
        lamports: 1_000,
        data: counter_data(counter, &[]),
    }
}

fn datas(accounts: &[AccountRef]) -> Vec<Vec<u8>> {
    accounts.iter().map(|a| a.data.clone()).collect()
}

#[test]
fn round_trip_every_variant() {
    let samples = vec![
        Instruction::Noop,
        Instruction::Initialize { value: 0 },
        Instruction::Initialize { value: 42 },
        Instruction::Initialize { value: u64::MAX },
        Instruction::Transfer { amount: 1 },
        Instruction::Transfer { amount: 0x0102_0304_0506_0708 },
    ];
    for ix in samples {
        let bytes = ix.pack();
        assert_eq!(Instruction::unpack(&bytes), Ok(ix));
    }
}

#[test]
fn wire_form_is_tag_then_little_endian_fields() {
    assert_eq!(Instruction::Noop.pack(), vec![0u8]);
    assert_eq!(
        Instruction::Initialize { value: 0x0102_0304_0506_0708 }.pack(),
        vec![1u8, 8, 7, 6, 5, 4, 3, 2, 1]
    );
    assert_eq!(Instruction::Transfer { amount: 256 }.pack(), vec![2u8, 0, 1, 0, 0, 0, 0, 0, 0]);
    assert_eq!(
        Instruction::unpack(&[2u8, 5, 0, 0, 0, 0, 0, 0, 0]),
        Ok(Instruction::Transfer { amount: 5 })
    );
}

#[test]
fn malformed_payloads_are_rejected() {
    let bad: Vec<Vec<u8>> = vec![
        vec![],
        vec![3u8],
        vec![255u8],
        vec![0u8, 0],
        vec![1u8, 0, 0],
        vec![1u8, 0, 0, 0, 0, 0, 0, 0],
        vec![2u8, 0, 0, 0, 0, 0, 0, 0, 0, 0],
        vec![3u8, 0, 0, 0, 0, 0, 0, 0, 0],
    ];
    for payload in bad {
        assert_eq!(Instruction::unpack(&payload), Err(DispatchError::MalformedInstruction));
        let mut accounts = vec![state(1, true, 10), state(2, false, 10)];
        let before = datas(&accounts);
        assert_eq!(
            process_instruction(&PROGRAM, &mut accounts, &payload),
            Err(DispatchError::MalformedInstruction)
        );
        assert_eq!(datas(&accounts), before);
    }
}

#[test]
fn one_account_short_is_not_enough() {
    let mut one = vec![state(1, true, 10)];
    let payload = Instruction::Transfer { amount: 1 }.pack();
    assert_eq!(
        process_instruction(&PROGRAM, &mut one, &payload),
        Err(DispatchError::NotEnoughAccounts)
    );
    let mut none: Vec<AccountRef> = vec![];
    let payload = Instruction::Initialize { value: 1 }.pack();
    assert_eq!(
        process_instruction(&PROGRAM, &mut none, &payload),
        Err(DispatchError::NotEnoughAccounts)
    );
}

#[test]
fn too_few_accounts_is_reported_before_flags() {
    let mut one = vec![state(1, false, 10)];
    let payload = Instruction::Transfer { amount: 1 }.pack();
    assert_eq!(
        process_instruction(&PROGRAM, &mut one, &payload),
        Err(DispatchError::NotEnoughAccounts)
    );
}

#[test]
fn missing_signer_fails_before_any_write() {
    let mut accounts = vec![state(1, false, 10)];
    let before = datas(&accounts);
    let payload = Instruction::Initialize { value: 99 }.pack();
    assert_eq!(
        process_instruction(&PROGRAM, &mut accounts, &payload),
        Err(DispatchError::MissingRequiredSignature)
    );
    assert_eq!(datas(&accounts), before);
}

#[test]
fn read_only_account_is_not_writable() {
    let mut accounts = vec![state(1, true, 10), state(2, false, 10)];
    accounts[1].is_writable = false;
    let before = datas(&accounts);
    let payload = Instruction::Transfer { amount: 3 }.pack();
    assert_eq!(
        process_instruction(&PROGRAM, &mut accounts, &payload),
        Err(DispatchError::AccountNotWritable)
    );
    assert_eq!(datas(&accounts), before);
}

#[test]
fn foreign_owner_is_rejected() {
    let mut accounts = vec![state(1, true, 10), state(2, false, 10)];
    accounts[1].owner = OTHER_PROGRAM;
    let before = datas(&accounts);
    let payload = Instruction::Transfer { amount: 3 }.pack();
    assert_eq!(
        process_instruction(&PROGRAM, &mut accounts, &payload),
        Err(DispatchError::IncorrectProgramOwner)
    );
    assert_eq!(datas(&accounts), before);
}

#[test]
fn first_broken_requirement_wins() {
    let mut accounts = vec![state(1, false, 10), state(2, false, 10)];
    accounts[0].owner = OTHER_PROGRAM;
    accounts[1].is_writable = false;
    let payload = Instruction::Transfer { amount: 3 }.pack();
    assert_eq!(
        process_instruction(&PROGRAM, &mut accounts, &payload),
        Err(DispatchError::MissingRequiredSignature)
    );
    accounts[0].is_signer = true;
    assert_eq!(
        process_instruction(&PROGRAM, &mut accounts, &payload),
        Err(DispatchError::IncorrectProgramOwner)
    );
    accounts[0].owner = PROGRAM;
    assert_eq!(
        process_instruction(&PROGRAM, &mut accounts, &payload),
        Err(DispatchError::AccountNotWritable)
    );
}

#[test]
fn duplicate_transfer_accounts_are_rejected() {
    let mut accounts = vec![state(1, true, 10), state(1, false, 10)];
    let before = datas(&accounts);
    let payload = Instruction::Transfer { amount: 4 }.pack();
    assert_eq!(
        process_instruction(&PROGRAM, &mut accounts, &payload),
        Err(DispatchError::DuplicateAccount)
    );
    assert_eq!(datas(&accounts), before);
}

#[test]
fn distinct_transfer_accounts_are_accepted() {
    let mut accounts = vec![state(1, true, 10), state(2, false, 5)];
    accounts[1].data = counter_data(5, &[0xaa, 0xbb]);
    let payload = Instruction::Transfer { amount: 4 }.pack();
    assert_eq!(process_instruction(&PROGRAM, &mut accounts, &payload), Ok(()));
    assert_eq!(accounts[0].data, counter_data(6, &[]));
    assert_eq!(accounts[1].data, counter_data(9, &[0xaa, 0xbb]));
    assert_eq!(accounts[0].lamports, 1_000);
    assert_eq!(accounts[1].address, key(2));
}

#[test]
fn initialize_duplicates_are_tolerated() {
    let mut accounts = vec![state(1, true, 0), state(1, true, 0)];
    let payload = Instruction::Initialize { value: 12 }.pack();
    assert_eq!(process_instruction(&PROGRAM, &mut accounts, &payload), Ok(()));
    assert_eq!(accounts[0].data, counter_data(12, &[]));
    assert_eq!(accounts[1].data, counter_data(0, &[]));
}

#[test]
fn transfer_of_whole_balance_and_limits() {
    let mut accounts = vec![state(1, true, 10), state(2, false, 0)];
    let payload = Instruction::Transfer { amount: 11 }.pack();
    assert_eq!(
        process_instruction(&PROGRAM, &mut accounts, &payload),
        Err(DispatchError::InsufficientFunds)
    );
    let payload = Instruction::Transfer { amount: 10 }.pack();
    assert_eq!(process_instruction(&PROGRAM, &mut accounts, &payload), Ok(()));
    assert_eq!(accounts[0].data, counter_data(0, &[]));
    assert_eq!(accounts[1].data, counter_data(10, &[]));

    let mut full = vec![state(1, true, 1), state(2, false, u64::MAX)];
    let before = datas(&full);
    let payload = Instruction::Transfer { amount: 1 }.pack();
    assert_eq!(
        process_instruction(&PROGRAM, &mut full, &payload),
        Err(DispatchError::ArithmeticOverflow)
    );
    assert_eq!(datas(&full), before);
}

#[test]
fn short_data_buffer_is_too_small() {
    let mut accounts = vec![state(1, true, 0)];
    accounts[0].data = vec![1u8, 2, 3, 4, 5, 6, 7];
    let payload = Instruction::Initialize { value: 1 }.pack();
    assert_eq!(
        process_instruction(&PROGRAM, &mut accounts, &payload),
        Err(DispatchError::AccountDataTooSmall)
    );
    assert_eq!(accounts[0].data, vec![1u8, 2, 3, 4, 5, 6, 7]);
}

#[test]
fn initialize_stores_value_and_keeps_the_rest() {
    let mut accounts = vec![state(1, true, 0)];
    accounts[0].data = counter_data(3, &[1, 2, 3]);
    let payload = Instruction::Initialize { value: 0x1122_3344_5566_7788 }.pack();
    assert_eq!(process_instruction(&PROGRAM, &mut accounts, &payload), Ok(()));
    assert_eq!(accounts[0].data, vec![0x88u8, 0x77, 0x66, 0x55, 0x44, 0x33, 0x22, 0x11, 1, 2, 3]);
}

#[test]
fn noop_without_accounts_succeeds_and_writes_nothing() {
    let payload = Instruction::Noop.pack();
    let mut none: Vec<AccountRef> = vec![];
    assert_eq!(process_instruction(&PROGRAM, &mut none, &payload), Ok(()));
    assert!(none.is_empty());

    let mut accounts = vec![state(1, false, 5), state(1, false, 6)];
    accounts[0].owner = OTHER_PROGRAM;
    let before = datas(&accounts);
    assert_eq!(process_instruction(&PROGRAM, &mut accounts, &payload), Ok(()));
    assert_eq!(datas(&accounts), before);
}

#[test]
fn requirements_per_variant() {
    let authority = AccountRequirement { signer: true, writable: true, owned: true };
    let writable = AccountRequirement { signer: false, writable: true, owned: true };
    assert!(Instruction::Noop.requirements().is_empty());
    assert_eq!(Instruction::Initialize { value: 1 }.requirements(), vec![authority]);
    assert_eq!(Instruction::Transfer { amount: 1 }.requirements(), vec![authority, writable]);
    assert_eq!(Instruction::Transfer { amount: 1 }.distinct_accounts(), 2);
    assert_eq!(Instruction::Noop.distinct_accounts(), 0);
}

#[test]
fn validation_alone() {
    let reqs = Instruction::Transfer { amount: 0 }.requirements();
    let good = vec![state(1, true, 0), state(2, false, 0)];
    assert_eq!(validate_accounts(&PROGRAM, &reqs, &good), Ok(()));
    assert_eq!(
        validate_accounts(&OTHER_PROGRAM, &reqs, &good),
        Err(DispatchError::IncorrectProgramOwner)
    );
}

#[test]
fn distinct_addresses_checks_every_pair() {
    let accounts = vec![state(1, true, 0), state(2, true, 0), state(1, true, 0)];
    assert!(addresses_distinct(&accounts, 2));
    assert!(!addresses_distinct(&accounts, 3));
    assert!(addresses_distinct(&accounts, 0));
}

#[test]
fn keys_and_counters() {
    assert!(same_key(&key(3), &key(3)));
    assert!(!same_key(&key(3), &key(4)));
    let mut last = [0u8; 32];
    last[31] = 1;
    assert!(!same_key(&[0u8; 32], &last));

    let mut data = vec![0u8; 10];
    store_counter(&mut data, 513);
    assert_eq!(data, vec![1u8, 2, 0, 0, 0, 0, 0, 0, 0, 0]);
    assert_eq!(load_counter(&data), 513);

    let mut out = vec![9u8];
    push_le(&mut out, 0xabcd);
    assert_eq!(out, vec![9u8, 0xcd, 0xab, 0, 0, 0, 0, 0, 0]);
    assert_eq!(read_le(&out, 1), 0xabcd);
}
