use std::str::FromStr;

use solana_program::pubkey::Pubkey;
use solana_program::rent::Rent;
use soldb_program::accounts::{SolTable, SolValue};
use soldb_program::error::{ProgramError, SolDbError};
use soldb_program::instructions::{Delete, InitTable, Insert, Put, SolDbIntructions};
use soldb_program::processor::process_instruction;
use soldb_program::state::{AccountState, Action};

const PROGRAM_ID: &str = "SDBPbpwuFzj8zjhf4LjQJwYoy2SAJETeBDGKb8keRpq";
const SYSTEM_PROGRAM: [u8; 32] = [0u8; 32];

fn program_id() -> Pubkey {
    Pubkey::from_str(PROGRAM_ID).unwrap()
}

fn payer_key() -> Pubkey {
    Pubkey::new_from_array([7u8; 32])
}

fn min_balance(n: usize) -> u64 {
    Rent::default().minimum_balance(n)
}

/// A writable account; the payer (the first) also signs.
fn account(key: Pubkey, owner: [u8; 32], lamports: u64, data: Vec<u8>) -> AccountState {
    let is_signer = key == payer_key();
    AccountState { key: key.to_bytes(), owner, lamports, data, is_signer, is_writable: true }
}

fn system_program_account() -> AccountState {
    AccountState {
        key: SYSTEM_PROGRAM,
        owner: SYSTEM_PROGRAM,
        lamports: 1,
        data: Vec::new(),
        is_signer: false,
        is_writable: false,
    }
}

/// Carries out the actions as the runtime would, on the account states.
fn apply(accounts: &mut Vec<AccountState>, actions: &[Action]) -> Result<(), String> {
    for action in actions {
        match action {
            Action::CreateAccount { payer, account, lamports, space, owner, .. } => {
                let target = &accounts[*account];
                if target.lamports != 0 || target.owner != SYSTEM_PROGRAM || !target.data.is_empty() {
                    return Err("account already in use".to_string());
                }
                if accounts[*payer].lamports < *lamports {
                    return Err("insufficient funds".to_string());
                }
                accounts[*payer].lamports -= lamports;
                accounts[*account].lamports = *lamports;
                accounts[*account].data = vec![0u8; *space as usize];
                accounts[*account].owner = *owner;
            }
            Action::Transfer { from, to, lamports } | Action::MoveLamports { from, to, lamports } => {
                if accounts[*from].lamports < *lamports {
                    return Err("insufficient funds".to_string());
                }
                accounts[*from].lamports -= lamports;
                accounts[*to].lamports += lamports;
            }
            Action::Resize { account, len } => accounts[*account].data.resize(*len, 0),
            Action::WriteData { account, bytes } => {
                let data = &mut accounts[*account].data;
                if bytes.len() > data.len() {
                    return Err("data too small".to_string());
                }
                data[..bytes.len()].copy_from_slice(bytes);
            }
            Action::ZeroData { account } => accounts[*account].data.fill(0),
        }
    }
    Ok(())
}

fn run(accounts: &mut Vec<AccountState>, ix: &SolDbIntructions) -> Result<(), ProgramError> {
    let data = ix.pack();
    let actions = process_instruction(&program_id().to_bytes(), accounts, &data, &min_balance)?;
    apply(accounts, &actions).unwrap();
    Ok(())
}

fn table_address(name: &str, owner: &Pubkey) -> (Pubkey, u8) {
    Pubkey::find_program_address(&[name.as_bytes(), owner.as_ref()], &program_id())
}

fn value_address(key: &[u8], table: &Pubkey, owner: &Pubkey) -> (Pubkey, u8) {
    Pubkey::find_program_address(&[key, &table.to_bytes(), owner.as_ref()], &program_id())
}

/// A ledger with a funded payer and a table named `name`; gives the table's
/// address and bump.
fn with_table(name: &str) -> (Vec<AccountState>, Pubkey, u8) {
    let payer = payer_key();
    let (pda, bump) = table_address(name, &payer);
    let mut accounts = vec![
        account(payer, SYSTEM_PROGRAM, 10_000_000_000, Vec::new()),
        account(pda, SYSTEM_PROGRAM, 0, Vec::new()),
        system_program_account(),
    ];
    run(&mut accounts, &SolDbIntructions::InitTable(InitTable { name: name.to_string(), bump })).unwrap();
    (accounts, pda, bump)
}

/// Accounts for `Insert`: payer, table, value address, system program.
fn insert_accounts(table: &AccountState, key: &str) -> (Vec<AccountState>, Pubkey, u8) {
    let payer = payer_key();
    let table_key = Pubkey::new_from_array(table.key);
    let (pda, bump) = value_address(key.as_bytes(), &table_key, &payer);
    let accounts = vec![
        account(payer, SYSTEM_PROGRAM, 10_000_000_000, Vec::new()),
        table.clone(),
        account(pda, SYSTEM_PROGRAM, 0, Vec::new()),
        system_program_account(),
    ];
    (accounts, pda, bump)
}

#[test]
fn test_init_table_ok() {
    let name = "TestInit".to_string();
    let table = SolTable { name: name.clone(), keys: Vec::new() };
    let (accounts, _pda, _bump) = with_table(&name);

    let serialized = table.try_to_vec().unwrap();
    let expected_space = serialized.len();
    let min_lamports = min_balance(expected_space);

    let account = &accounts[1];
    assert_eq!(account.owner, program_id().to_bytes(), "PDA account is not owned by the program");
    assert!(
        account.lamports >= min_lamports,
        "PDA account has insufficient lamports ({} < {})",
        account.lamports,
        min_lamports
    );
    assert_eq!(account.data.len(), expected_space, "PDA account data length mismatch");
    let sol_table = SolTable::try_from_slice(&account.data).unwrap();
    assert_eq!(sol_table.name, name);
}

#[test]
fn test_init_table_pda_mismatch_name() {
    let payer = payer_key();
    let correct_name = "TestInitPdaMismatch".to_string();
    let wrong_name = "Wrong".to_string();
    let (pda, bump) = table_address(&correct_name, &payer);
    let mut accounts = vec![
        account(payer, SYSTEM_PROGRAM, 10_000_000_000, Vec::new()),
        account(pda, SYSTEM_PROGRAM, 0, Vec::new()),
        system_program_account(),
    ];
    let ix = SolDbIntructions::InitTable(InitTable { name: wrong_name, bump });
    assert_eq!(run(&mut accounts, &ix), Err(ProgramError::InvalidSeeds));
}

#[test]
fn test_init_table_wrong_bump() {
    let payer = payer_key();
    let name = "TestInitWrongBump".to_string();
    let (pda, correct_bump) = table_address(&name, &payer);
    let wrong_bump = correct_bump.wrapping_add(1);
    let mut accounts = vec![
        account(payer, SYSTEM_PROGRAM, 10_000_000_000, Vec::new()),
        account(pda, SYSTEM_PROGRAM, 0, Vec::new()),
        system_program_account(),
    ];
    let ix = SolDbIntructions::InitTable(InitTable { name, bump: wrong_bump });
    assert_eq!(run(&mut accounts, &ix), Err(ProgramError::InvalidSeeds));
}

#[test]
fn test_insert() {
    let (table_accounts, _pda_table, _bump) = with_table("Test");
    let value: Vec<u8> = "v-0".into();
    let (mut accounts, _pda_val, bump) = insert_accounts(&table_accounts[1], "k-0");
    let ix = SolDbIntructions::Insert(Insert { key: "k-0".to_string(), payload: value.clone(), bump });
    run(&mut accounts, &ix).unwrap();

    let account = &accounts[2];
    let sol_value = SolValue::try_from_slice(&account.data).unwrap();
    assert_eq!(sol_value.val, value);
    let expected_space = sol_value.try_to_vec().unwrap().len();
    let min_lamports = min_balance(expected_space);
    assert_eq!(account.owner, program_id().to_bytes(), "PDA account is not owned by the program");
    assert!(
        account.lamports >= min_lamports,
        "PDA account has insufficient lamports ({} < {})",
        account.lamports,
        min_lamports
    );
    assert_eq!(account.data.len(), expected_space, "PDA account data length mismatch");
}

/// Sets up a table "Test" with "k-0" inserted; gives the accounts for Put
/// and Delete (payer, table, value, system program) and the bumps.
fn with_value(value: &[u8]) -> (Vec<AccountState>, u8, u8) {
    let (table_accounts, _pda_table, table_bump) = with_table("Test");
    let (mut accounts, _pda_val, value_bump) = insert_accounts(&table_accounts[1], "k-0");
    let ix = SolDbIntructions::Insert(Insert {
        key: "k-0".to_string(),
        payload: value.to_vec(),
        bump: value_bump,
    });
    run(&mut accounts, &ix).unwrap();
    (accounts, table_bump, value_bump)
}

#[test]
fn test_put() {
    let (mut accounts, table_bump, value_bump) = with_value(b"v-0");
    let new_payload: Vec<u8> = "v-10".into();
    let owner_before = accounts[0].lamports;
    let old_len = accounts[2].data.len();
    let old_min = min_balance(old_len);

    let ix = SolDbIntructions::Put(Put {
        table: "Test".to_string(),
        table_bump,
        key: "k-0".into(),
        key_bump: value_bump,
        payload: new_payload.clone(),
    });
    run(&mut accounts, &ix).unwrap();

    let stored = SolValue::try_from_slice(&accounts[2].data).unwrap();
    assert_eq!(stored.val, new_payload, "payload must be updated");
    let new_len = accounts[2].data.len();
    assert!(new_len >= old_len, "should have grown or stayed same");
    let new_min = min_balance(new_len);
    assert_eq!(accounts[2].lamports, new_min, "value account should be funded exactly to new rent minimum");
    let actual_topup = owner_before.saturating_sub(accounts[0].lamports);
    let expected_topup = new_min.saturating_sub(old_min);
    assert_eq!(actual_topup, expected_topup, "payer should fund exactly the rent delta (net of tx fee)");
}

#[test]
fn test_delete() {
    let (mut accounts, table_bump, value_bump) = with_value(b"v-0");
    let owner_before = accounts[0].lamports;
    let old_val_lamports = accounts[2].lamports;
    let ix = SolDbIntructions::Delete(Delete {
        table: "Test".to_string(),
        table_bump,
        key: "k-0".into(),
        key_bump: value_bump,
    });
    run(&mut accounts, &ix).unwrap();
    assert_eq!(
        accounts[0].lamports,
        owner_before + old_val_lamports,
        "El pagador debería recuperar los lamports de la cuenta cerrada menos el fee"
    );
    assert_eq!(accounts[2].lamports, 0, "La cuenta del valor debería estar cerrada tras Delete");
    assert!(accounts[2].data.iter().all(|b| *b == 0));
}

fn total(accounts: &[AccountState]) -> u128 {
    accounts.iter().map(|a| a.lamports as u128).sum()
}

fn put_ix(table_bump: u8, value_bump: u8, payload: &[u8]) -> SolDbIntructions {
    SolDbIntructions::Put(Put {
        table: "Test".to_string(),
        table_bump,
        key: "k-0".into(),
        key_bump: value_bump,
        payload: payload.to_vec(),
    })
}

#[test]
fn unknown_instruction_is_refused() {
    let mut accounts = vec![system_program_account()];
    let actions = process_instruction(&program_id().to_bytes(), &accounts, &[7, 1, 2], &min_balance);
    assert_eq!(actions, Err(ProgramError::InvalidInstructionData));
    let ix = SolDbIntructions::InitTable(InitTable { name: "T".to_string(), bump: 1 });
    let mut data = ix.pack();
    data.push(0);
    let actions = process_instruction(&program_id().to_bytes(), &accounts, &data, &min_balance);
    assert_eq!(actions, Err(ProgramError::InvalidInstructionData));
    accounts.clear();
}

#[test]
fn missing_accounts_are_refused() {
    let payer = payer_key();
    let (pda, bump) = table_address("T", &payer);
    let mut accounts = vec![account(payer, SYSTEM_PROGRAM, 10, Vec::new()), account(pda, SYSTEM_PROGRAM, 0, Vec::new())];
    let ix = SolDbIntructions::InitTable(InitTable { name: "T".to_string(), bump });
    assert_eq!(run(&mut accounts, &ix), Err(ProgramError::NotEnoughAccountKeys));
    let (mut accounts, table_bump, value_bump) = with_value(b"v-0");
    accounts.pop();
    assert_eq!(run(&mut accounts, &put_ix(table_bump, value_bump, b"x")), Err(ProgramError::NotEnoughAccountKeys));
}

#[test]
fn table_name_too_long_for_an_address() {
    let payer = payer_key();
    let name = "a-table-name-longer-than-32-bytes!".to_string();
    assert!(name.len() > 32);
    let mut accounts = vec![
        account(payer, SYSTEM_PROGRAM, 10_000_000_000, Vec::new()),
        account(Pubkey::new_from_array([3u8; 32]), SYSTEM_PROGRAM, 0, Vec::new()),
        system_program_account(),
    ];
    let ix = SolDbIntructions::InitTable(InitTable { name, bump: 255 });
    assert_eq!(run(&mut accounts, &ix), Err(ProgramError::UnviableProgramAddress));
}

#[test]
fn init_table_plan_and_funding() {
    let payer = payer_key();
    let (pda, bump) = table_address("TestInit", &payer);
    let accounts = vec![
        account(payer, SYSTEM_PROGRAM, 10_000_000_000, Vec::new()),
        account(pda, SYSTEM_PROGRAM, 0, Vec::new()),
        system_program_account(),
    ];
    let data = SolDbIntructions::InitTable(InitTable { name: "TestInit".to_string(), bump }).pack();
    let actions = process_instruction(&program_id().to_bytes(), &accounts, &data, &min_balance).unwrap();
    let table_bytes = SolTable::new("TestInit".to_string()).try_to_vec().unwrap();
    let expected = vec![
        Action::CreateAccount {
            payer: 0,
            account: 1,
            lamports: min_balance(16),
            space: 16,
            owner: program_id().to_bytes(),
            seeds: vec![b"TestInit".to_vec(), payer.to_bytes().to_vec(), vec![bump]],
        },
        Action::WriteData { account: 1, bytes: table_bytes },
    ];
    assert_eq!(actions, expected);
    let mut after = accounts.clone();
    apply(&mut after, &actions).unwrap();
    assert_eq!(after[0].lamports, 10_000_000_000 - min_balance(16));
    assert_eq!(total(&after), total(&accounts));
}

#[test]
fn insert_adds_the_key_to_the_table() {
    let (table_accounts, _pda_table, _bump) = with_table("Test");
    let before_len = table_accounts[1].data.len();
    let (mut accounts, _pda_val, bump) = insert_accounts(&table_accounts[1], "k-0");
    let before = total(&accounts);
    let ix = SolDbIntructions::Insert(Insert { key: "k-0".to_string(), payload: b"v-0".to_vec(), bump });
    run(&mut accounts, &ix).unwrap();
    let table = SolTable::try_from_slice(&accounts[1].data).unwrap();
    assert_eq!(table.name, "Test");
    assert_eq!(table.keys, vec!["k-0".to_string()]);
    assert_eq!(accounts[1].data.len(), before_len + 4 + 3);
    assert_eq!(accounts[1].lamports, min_balance(accounts[1].data.len()));
    assert_eq!(accounts[2].lamports, min_balance(7));
    assert_eq!(total(&accounts), before);
}

#[test]
fn insert_needs_a_table() {
    let payer = payer_key();
    let table_key = Pubkey::new_from_array([5u8; 32]);
    let (pda, bump) = value_address(b"k-0", &table_key, &payer);
    let mut accounts = vec![
        account(payer, SYSTEM_PROGRAM, 10_000_000_000, Vec::new()),
        account(table_key, program_id().to_bytes(), 1_000_000, vec![1, 2, 3]),
        account(pda, SYSTEM_PROGRAM, 0, Vec::new()),
        system_program_account(),
    ];
    let ix = SolDbIntructions::Insert(Insert { key: "k-0".to_string(), payload: b"v".to_vec(), bump });
    assert_eq!(run(&mut accounts, &ix), Err(ProgramError::InvalidAccountData));
}

#[test]
fn put_refuses_accounts_of_another_owner() {
    let (mut accounts, table_bump, value_bump) = with_value(b"v-0");
    accounts[1].owner = [9u8; 32];
    assert_eq!(
        run(&mut accounts, &put_ix(table_bump, value_bump, b"x")),
        Err(ProgramError::from(SolDbError::WrongOwner))
    );
    let (mut accounts, table_bump, value_bump) = with_value(b"v-0");
    accounts[2].owner = [9u8; 32];
    assert_eq!(run(&mut accounts, &put_ix(table_bump, value_bump, b"x")), Err(ProgramError::Custom(0)));
}

#[test]
fn put_refuses_wrong_addresses() {
    let (mut accounts, table_bump, value_bump) = with_value(b"v-0");
    assert_eq!(
        run(&mut accounts, &put_ix(table_bump.wrapping_add(1), value_bump, b"x")),
        Err(ProgramError::Custom(1))
    );
    assert_eq!(
        run(&mut accounts, &put_ix(table_bump, value_bump.wrapping_add(1), b"x")),
        Err(ProgramError::Custom(1))
    );
}

#[test]
fn put_refuses_a_table_that_does_not_read() {
    let (mut accounts, table_bump, value_bump) = with_value(b"v-0");
    accounts[1].data.push(0);
    assert_eq!(run(&mut accounts, &put_ix(table_bump, value_bump, b"x")), Err(ProgramError::Custom(2)));
}

#[test]
fn put_refuses_growth_past_the_limit() {
    let (mut accounts, table_bump, value_bump) = with_value(b"v-0");
    // the value account holds 7 bytes; 10240 more is the most allowed
    let at_limit = vec![1u8; 3 + 10240];
    let past_limit = vec![1u8; 3 + 10241];
    assert_eq!(
        run(&mut accounts, &put_ix(table_bump, value_bump, &past_limit)),
        Err(ProgramError::Custom(3))
    );
    run(&mut accounts, &put_ix(table_bump, value_bump, &at_limit)).unwrap();
    assert_eq!(accounts[2].data.len(), 7 + 10240);
}

#[test]
fn put_that_shrinks_refunds_the_owner() {
    let (mut accounts, table_bump, value_bump) = with_value(b"v-000000");
    let owner_before = accounts[0].lamports;
    let held = accounts[2].lamports;
    let before = total(&accounts);
    run(&mut accounts, &put_ix(table_bump, value_bump, b"v")).unwrap();
    assert_eq!(SolValue::try_from_slice(&accounts[2].data).unwrap().val, b"v".to_vec());
    assert_eq!(accounts[2].data.len(), 5);
    assert_eq!(accounts[2].lamports, min_balance(5));
    assert_eq!(accounts[0].lamports, owner_before + held - min_balance(5));
    assert_eq!(total(&accounts), before);
}

#[test]
fn delete_refuses_wrong_owner_and_address() {
    let (mut accounts, table_bump, value_bump) = with_value(b"v-0");
    let ix = SolDbIntructions::Delete(Delete {
        table: "Other".to_string(),
        table_bump,
        key: "k-0".into(),
        key_bump: value_bump,
    });
    assert_eq!(run(&mut accounts, &ix), Err(ProgramError::Custom(1)));
    accounts[2].owner = SYSTEM_PROGRAM;
    let ix = SolDbIntructions::Delete(Delete {
        table: "Test".to_string(),
        table_bump,
        key: "k-0".into(),
        key_bump: value_bump,
    });
    assert_eq!(run(&mut accounts, &ix), Err(ProgramError::Custom(0)));
}

#[test]
fn test_init_table_owner_not_signer() {
    let owner = Pubkey::new_from_array([11u8; 32]);
    let name = "TestInitOwnerNotSigner".to_string();
    let (pda, bump) = table_address(&name, &owner);
    let mut accounts = vec![
        account(owner, SYSTEM_PROGRAM, 10_000_000_000, Vec::new()),
        account(pda, SYSTEM_PROGRAM, 0, Vec::new()),
        system_program_account(),
    ];
    accounts[0].is_writable = false;
    assert!(!accounts[0].is_signer);
    let before = accounts.clone();
    let ix = SolDbIntructions::InitTable(InitTable { name, bump });
    assert_eq!(run(&mut accounts, &ix), Err(ProgramError::MissingRequiredSignature));
    assert_eq!(accounts, before);
}

#[test]
fn test_init_table_wrong_system_program() {
    let payer = payer_key();
    let name = "TestInitWrongSysProgram".to_string();
    let (pda, bump) = table_address(&name, &payer);
    let fake_sys = Pubkey::new_from_array([12u8; 32]);
    let mut fake = system_program_account();
    fake.key = fake_sys.to_bytes();
    let mut accounts = vec![
        account(payer, SYSTEM_PROGRAM, 10_000_000_000, Vec::new()),
        account(pda, SYSTEM_PROGRAM, 0, Vec::new()),
        fake,
    ];
    let ix = SolDbIntructions::InitTable(InitTable { name, bump });
    assert_eq!(run(&mut accounts, &ix), Err(ProgramError::IncorrectProgramId));
}

#[test]
fn test_init_table_pda_not_writer() {
    let payer = payer_key();
    let owner = Pubkey::new_from_array([13u8; 32]);
    let name = "TestInitPdaNotWritable".to_string();
    let (pda, bump) = table_address(&name, &owner);
    let mut accounts = vec![
        account(payer, SYSTEM_PROGRAM, 10_000_000_000, Vec::new()),
        account(pda, SYSTEM_PROGRAM, 0, Vec::new()),
        system_program_account(),
    ];
    accounts[1].is_writable = false;
    let ix = SolDbIntructions::InitTable(InitTable { name, bump });
    assert_eq!(run(&mut accounts, &ix), Err(ProgramError::Custom(5)));
}

#[test]
fn insert_refuses_a_table_at_another_address() {
    let (table_accounts, _pda_table, _bump) = with_table("Test");
    let mut table = table_accounts[1].clone();
    table.key = [21u8; 32];
    let (mut accounts, _pda_val, bump) = insert_accounts(&table, "k-0");
    let before = accounts.clone();
    let ix = SolDbIntructions::Insert(Insert { key: "k-0".to_string(), payload: b"v".to_vec(), bump });
    assert_eq!(run(&mut accounts, &ix), Err(ProgramError::Custom(1)));
    assert_eq!(accounts, before);
}

#[test]
fn put_repeated_changes_nothing() {
    let (mut accounts, table_bump, value_bump) = with_value(b"v-0");
    run(&mut accounts, &put_ix(table_bump, value_bump, b"v-10")).unwrap();
    let once = accounts.clone();
    let data = put_ix(table_bump, value_bump, b"v-10").pack();
    let actions = process_instruction(&program_id().to_bytes(), &accounts, &data, &min_balance).unwrap();
    assert_eq!(actions.len(), 2);
    run(&mut accounts, &put_ix(table_bump, value_bump, b"v-10")).unwrap();
    assert_eq!(accounts, once);
}

#[test]
fn init_table_over_an_existing_table_is_refused() {
    let (accounts, _pda, bump) = with_table("Test");
    let data = SolDbIntructions::InitTable(InitTable { name: "Test".to_string(), bump }).pack();
    let actions = process_instruction(&program_id().to_bytes(), &accounts, &data, &min_balance).unwrap();
    let mut after = accounts.clone();
    assert!(apply(&mut after, &actions).is_err());
    assert_eq!(after, accounts);
    // an emptied table account that still holds its data is refused too
    let mut drained = accounts.clone();
    drained[0].lamports += drained[1].lamports;
    drained[1].lamports = 0;
    let mut after = drained.clone();
    let actions = process_instruction(&program_id().to_bytes(), &drained, &data, &min_balance).unwrap();
    assert!(apply(&mut after, &actions).is_err());
    assert_eq!(after, drained);
}

#[test]
fn insert_of_an_existing_key_is_refused() {
    let (table_accounts, _pda_table, _bump) = with_table("Test");
    let (mut accounts, _pda_val, bump) = insert_accounts(&table_accounts[1], "k-0");
    let ix = SolDbIntructions::Insert(Insert { key: "k-0".to_string(), payload: b"v-0".to_vec(), bump });
    run(&mut accounts, &ix).unwrap();
    let once = accounts.clone();
    let actions =
        process_instruction(&program_id().to_bytes(), &accounts, &ix.pack(), &min_balance).unwrap();
    let mut after = accounts.clone();
    assert!(apply(&mut after, &actions).is_err());
    assert_eq!(after, once);
    let table = SolTable::try_from_slice(&once[1].data).unwrap();
    assert_eq!(table.keys, vec!["k-0".to_string()]);
}
