//! The processor: from an instruction and the accounts it names to the
//! actions that carry it out, or the error that refuses it.
use vstd::prelude::*;
use vstd::utf8::encode_utf8;
use crate::accounts::{lemma_value_round_trip, parse_table, parse_value, value_bytes, SolTable, SolValue};
use crate::address::{program_address, try_find_program_address};
use crate::codec::bytes_fit;
use crate::error::{error_code, ProgramError, SolDbError};
use crate::instructions::{
    instruction_bytes, instruction_fits, lemma_unpack_pack, parse_instruction, Delete, DeleteModel, InstructionModel, Put, PutModel, SolDbIntructions,
};
use crate::processor::init_table::{init_table_answers, process_init_table};
use crate::processor::insert::{insert_answers, process_insert};
use crate::state::{
    actions_view, apply_action, apply_actions, keys_equal, lemma_apply_concat, lemma_apply_one,
    lamport_sources_ok, resized, with_data, zeros, AccountModel, AccountState, Action, ActionModel,
};

pub mod init_table;
pub mod insert;

verus! {

/// The most by which `Put` may grow a value account in one instruction.
pub const MAX_INCREASE: u64 = 10240;

/// The views of a list of accounts.
pub open spec fn accounts_view(v: Seq<AccountState>) -> Seq<AccountModel> {
    v.map_values(|a: AccountState| a@)
}

/// The view of a processor's answer.
pub open spec fn answer_view(r: Result<Vec<Action>, ProgramError>) -> Result<
    Seq<ActionModel>,
    ProgramError,
> {
    match r {
        Ok(v) => Ok(actions_view(v@)),
        Err(e) => Err(e),
    }
}

/// The seeds of a table's address: the table's name and its owner's key.
pub open spec fn table_seeds(name: Seq<char>, owner: Seq<u8>) -> Seq<Seq<u8>> {
    seq![encode_utf8(name), owner]
}

/// The seeds of a value's address: its key, the table's key and the
/// owner's key.
pub open spec fn value_seeds(key: Seq<u8>, table: Seq<u8>, owner: Seq<u8>) -> Seq<Seq<u8>> {
    seq![key, table, owner]
}

/// The check that an account sits at the address derived from `seeds` with
/// the expected bump seed.
pub open spec fn address_check(
    seeds: Seq<Seq<u8>>,
    program_id: Seq<u8>,
    key: Seq<u8>,
    bump: u8,
    mismatch: ProgramError,
) -> Result<(), ProgramError> {
    match program_address(seeds, program_id) {
        None => Err(ProgramError::UnviableProgramAddress),
        Some((k, b)) => if key != k || bump != b {
            Err(mismatch)
        } else {
            Ok(())
        },
    }
}

/// The check that an account sits at the address derived from `seeds`,
/// whatever its bump seed.
pub open spec fn key_address_check(
    seeds: Seq<Seq<u8>>,
    program_id: Seq<u8>,
    key: Seq<u8>,
    mismatch: ProgramError,
) -> Result<(), ProgramError> {
    match program_address(seeds, program_id) {
        None => Err(ProgramError::UnviableProgramAddress),
        Some((k, b)) => if key != k {
            Err(mismatch)
        } else {
            Ok(())
        },
    }
}

/// The checks that `Put` and `Delete` share, in the order they are made:
/// four accounts; the table and the value owned by the program; the table
/// at its address; the table's data a table; the value at its address.
pub open spec fn entry_check(
    table: Seq<char>,
    table_bump: u8,
    key: Seq<u8>,
    key_bump: u8,
    program_id: Seq<u8>,
    a: Seq<AccountModel>,
) -> Result<(), ProgramError> {
    let wrong_owner = ProgramError::Custom(error_code(SolDbError::WrongOwner));
    let mismatch = ProgramError::Custom(error_code(SolDbError::PdaMismatch));
    if a.len() < 4 {
        Err(ProgramError::NotEnoughAccountKeys)
    } else if a[1].owner != program_id || a[2].owner != program_id {
        Err(wrong_owner)
    } else if address_check(table_seeds(table, a[0].key), program_id, a[1].key, table_bump, mismatch) is Err {
        address_check(table_seeds(table, a[0].key), program_id, a[1].key, table_bump, mismatch)
    } else if parse_table(a[1].data) is None {
        Err(ProgramError::Custom(error_code(SolDbError::NotTable)))
    } else {
        address_check(value_seeds(key, a[1].key, a[0].key), program_id, a[2].key, key_bump, mismatch)
    }
}

/// What `Put` answers before it needs the rent-exempt minimum.
pub open spec fn put_check(ix: PutModel, program_id: Seq<u8>, a: Seq<AccountModel>) -> Result<
    (),
    ProgramError,
> {
    if entry_check(ix.table, ix.table_bump, ix.key, ix.key_bump, program_id, a) is Err {
        entry_check(ix.table, ix.table_bump, ix.key, ix.key_bump, program_id, a)
    } else if !bytes_fit(ix.payload) {
        Err(ProgramError::BorshIoError)
    } else if value_bytes(ix.payload).len() > a[2].data.len() && value_bytes(ix.payload).len()
        - a[2].data.len() > MAX_INCREASE {
        Err(ProgramError::Custom(error_code(SolDbError::GrowthTooLarge)))
    } else {
        Ok(())
    }
}

/// The actions of an accepted `Put`, given the rent-exempt minimum `min`
/// for the new value: top the value account up to `min` from the owner if
/// it holds less; resize it to the new value; when it shrank, hand what it
/// holds beyond `min` back to the owner; write the value.
pub open spec fn put_actions(ix: PutModel, a: Seq<AccountModel>, min: u64) -> Seq<ActionModel> {
    let bytes = value_bytes(ix.payload);
    let new_space = bytes.len();
    let old_space = a[2].data.len();
    let held = a[2].lamports;
    let top_up = if min > held {
        seq![ActionModel::Transfer { from: 0, to: 2, lamports: (min - held) as u64 }]
    } else {
        Seq::empty()
    };
    let after = if min > held {
        min
    } else {
        held
    };
    let refund = if new_space < old_space && after > min {
        seq![ActionModel::MoveLamports { from: 2, to: 0, lamports: (after - min) as u64 }]
    } else {
        Seq::empty()
    };
    top_up + seq![ActionModel::Resize { account: 2, len: new_space }] + refund + seq![
        ActionModel::WriteData { account: 2, bytes },
    ]
}

/// `r` is what `Put` answers, with `min_balance` giving the rent-exempt
/// minimum.
pub open spec fn put_answers<F: Fn(usize) -> u64>(
    r: Result<Seq<ActionModel>, ProgramError>,
    ix: PutModel,
    program_id: Seq<u8>,
    a: Seq<AccountModel>,
    min_balance: F,
) -> bool {
    match put_check(ix, program_id, a) {
        Err(e) => r == Err::<Seq<ActionModel>, ProgramError>(e),
        Ok(()) => exists|min: u64|
            #![trigger min_balance.ensures((value_bytes(ix.payload).len() as usize,), min)]
            min_balance.ensures((value_bytes(ix.payload).len() as usize,), min) && r == Ok::<
                Seq<ActionModel>,
                ProgramError,
            >(put_actions(ix, a, min)),
    }
}

/// What `Delete` answers.
pub open spec fn delete_answer(ix: DeleteModel, program_id: Seq<u8>, a: Seq<AccountModel>) -> Result<
    Seq<ActionModel>,
    ProgramError,
> {
    match entry_check(ix.table, ix.table_bump, ix.key, ix.key_bump, program_id, a) {
        Err(e) => Err(e),
        Ok(()) => Ok(
            seq![
                ActionModel::MoveLamports { from: 2, to: 0, lamports: a[2].lamports },
                ActionModel::ZeroData { account: 2 },
            ],
        ),
    }
}

// ---------------------------------------------------------------------------

/// A byte vector's deep view is its view.
pub proof fn lemma_bytes_deep_view(v: Vec<u8>)
    ensures
        v.deep_view() == v@,
{
    assert(v.deep_view() =~= v@);
}

/// The bytes of a key.
pub fn key_bytes(k: &[u8; 32]) -> (r: Vec<u8>)
    ensures
        r@ == k@,
{
    vstd::slice::slice_to_vec(k.as_slice())
}

/// Derives the address for `seeds` and checks that `key` and `bump` are
/// the ones derived; `mismatch` is the error when they are not.
pub fn check_address(
    seeds: &Vec<Vec<u8>>,
    program_id: &[u8; 32],
    key: &[u8; 32],
    bump: u8,
    mismatch: ProgramError,
) -> (r: Result<(), ProgramError>)
    ensures
        r == address_check(seeds.deep_view(), program_id@, key@, bump, mismatch),
{
    match try_find_program_address(seeds, program_id) {
        None => Err(ProgramError::UnviableProgramAddress),
        Some((expected, expected_bump)) => {
            if !keys_equal(key, &expected) || bump != expected_bump {
                Err(mismatch)
            } else {
                Ok(())
            }
        },
    }
}

/// Derives the address for `seeds` and checks that `key` is the one
/// derived; `mismatch` is the error when it is not.
pub fn check_key_address(
    seeds: &Vec<Vec<u8>>,
    program_id: &[u8; 32],
    key: &[u8; 32],
    mismatch: ProgramError,
) -> (r: Result<(), ProgramError>)
    ensures
        r == key_address_check(seeds.deep_view(), program_id@, key@, mismatch),
{
    match try_find_program_address(seeds, program_id) {
        None => Err(ProgramError::UnviableProgramAddress),
        Some((expected, _bump)) => {
            if !keys_equal(key, &expected) {
                Err(mismatch)
            } else {
                Ok(())
            }
        },
    }
}

/// The checks that `Put` and `Delete` share.
fn check_entry(
    table: &String,
    table_bump: u8,
    key: &Vec<u8>,
    key_bump: u8,
    program_id: &[u8; 32],
    accounts: &Vec<AccountState>,
) -> (r: Result<(), ProgramError>)
    ensures
        r == entry_check(table@, table_bump, key@, key_bump, program_id@, accounts_view(accounts@)),
{
    let ghost a = accounts_view(accounts@);
    if accounts.len() < 4 {
        return Err(ProgramError::NotEnoughAccountKeys);
    }
    assert(a[0] == accounts@[0]@ && a[1] == accounts@[1]@ && a[2] == accounts@[2]@);
    let owner = &accounts[0];
    let table_info = &accounts[1];
    let val_info = &accounts[2];
    if !keys_equal(&table_info.owner, program_id) {
        return Err(SolDbError::WrongOwner.into());
    }
    if !keys_equal(&val_info.owner, program_id) {
        return Err(SolDbError::WrongOwner.into());
    }
    let mut table_seeds: Vec<Vec<u8>> = Vec::new();
    table_seeds.push(vstd::slice::slice_to_vec(table.as_str().as_bytes()));
    table_seeds.push(key_bytes(&owner.key));
    proof {
        lemma_bytes_deep_view(table_seeds@[0]);
        lemma_bytes_deep_view(table_seeds@[1]);
    }
    assert(table_seeds.deep_view() =~= crate::processor::table_seeds(table@, a[0].key));
    check_address(&table_seeds, program_id, &table_info.key, table_bump, SolDbError::PdaMismatch.into())?;
    if SolTable::try_from_slice(table_info.data.as_slice()).is_none() {
        return Err(SolDbError::NotTable.into());
    }
    let mut val_seeds: Vec<Vec<u8>> = Vec::new();
    val_seeds.push(key.clone());
    val_seeds.push(key_bytes(&table_info.key));
    val_seeds.push(key_bytes(&owner.key));
    proof {
        lemma_bytes_deep_view(val_seeds@[0]);
        lemma_bytes_deep_view(val_seeds@[1]);
        lemma_bytes_deep_view(val_seeds@[2]);
    }
    assert(val_seeds@[0]@ =~= key@);
    assert(val_seeds.deep_view() =~= value_seeds(key@, a[1].key, a[0].key));
    check_address(&val_seeds, program_id, &val_info.key, key_bump, SolDbError::PdaMismatch.into())
}


/// Processes `Put`: overwrites the value stored under `put.key` in the
/// table `put.table`. Accounts: the owner, the table, the value account and
/// the system program. `min_balance` gives the rent-exempt minimum for a
/// number of bytes.
pub fn process_put<F: Fn(usize) -> u64>(
    put: &Put,
    program_id: &[u8; 32],
    accounts: &Vec<AccountState>,
    min_balance: &F,
) -> (r: Result<Vec<Action>, ProgramError>)
    requires
        forall|n: usize| min_balance.requires((n,)),
    ensures
        put_answers(answer_view(r), put@, program_id@, accounts_view(accounts@), *min_balance),
{
    let ghost a = accounts_view(accounts@);
    check_entry(&put.table, put.table_bump, &put.key, put.key_bump, program_id, accounts)?;
    assert(a[2] == accounts@[2]@);
    let val_info = &accounts[2];
    let sol_value = SolValue { val: put.payload.clone() };
    let serialized = sol_value.try_to_vec()?;
    let new_space = serialized.len() as u64;
    let old_space = val_info.data.len() as u64;
    if new_space > old_space {
        let inc = new_space - old_space;
        if inc > MAX_INCREASE {
            return Err(SolDbError::GrowthTooLarge.into());
        }
    }
    let new_min = min_balance(new_space as usize);
    let held = val_info.lamports;
    let mut out: Vec<Action> = Vec::new();
    if new_min > held {
        out.push(Action::Transfer { from: 0, to: 2, lamports: new_min - held });
    }
    out.push(Action::Resize { account: 2, len: new_space as usize });
    if new_space < old_space {
        let cur = if new_min > held {
            new_min
        } else {
            held
        };
        if cur > new_min {
            out.push(Action::MoveLamports { from: 2, to: 0, lamports: cur - new_min });
        }
    }
    out.push(Action::WriteData { account: 2, bytes: serialized });
    assert(actions_view(out@) =~= put_actions(put@, a, new_min));
    Ok(out)
}

/// Processes `Delete`: empties the value account of `delete.key` in the
/// table `delete.table`, handing its lamports to the owner. Accounts: the
/// owner, the table, the value account and the system program.
pub fn process_delete(delete: &Delete, program_id: &[u8; 32], accounts: &Vec<AccountState>) -> (r:
    Result<Vec<Action>, ProgramError>)
    ensures
        answer_view(r) == delete_answer(delete@, program_id@, accounts_view(accounts@)),
{
    let ghost a = accounts_view(accounts@);
    check_entry(
        &delete.table,
        delete.table_bump,
        &delete.key,
        delete.key_bump,
        program_id,
        accounts,
    )?;
    assert(a[2] == accounts@[2]@);
    let mut out: Vec<Action> = Vec::new();
    out.push(Action::MoveLamports { from: 2, to: 0, lamports: accounts[2].lamports });
    out.push(Action::ZeroData { account: 2 });
    assert(actions_view(out@) =~= delete_answer(delete@, program_id@, a).unwrap());
    Ok(out)
}


/// `r` is what the program answers to instruction data that reads as
/// `ix` (`None`: data that does not read as an instruction).
pub open spec fn instruction_answers<F: Fn(usize) -> u64>(
    r: Result<Seq<ActionModel>, ProgramError>,
    ix: Option<InstructionModel>,
    program_id: Seq<u8>,
    a: Seq<AccountModel>,
    min_balance: F,
) -> bool {
    match ix {
        None => r == Err::<Seq<ActionModel>, ProgramError>(ProgramError::InvalidInstructionData),
        Some(InstructionModel::InitTable(m)) => init_table_answers(r, m, program_id, a, min_balance),
        Some(InstructionModel::Insert(m)) => insert_answers(r, m, program_id, a, min_balance),
        Some(InstructionModel::Put(m)) => put_answers(r, m, program_id, a, min_balance),
        Some(InstructionModel::Delete(m)) => r == delete_answer(m, program_id, a),
    }
}

/// The program's entry point: reads the instruction from
/// `instruction_data` and processes it against `accounts`. `min_balance`
/// gives the rent-exempt minimum for a number of bytes.
pub fn process_instruction<F: Fn(usize) -> u64>(
    program_id: &[u8; 32],
    accounts: &Vec<AccountState>,
    instruction_data: &[u8],
    min_balance: &F,
) -> (r: Result<Vec<Action>, ProgramError>)
    requires
        forall|n: usize| min_balance.requires((n,)),
    ensures
        instruction_answers(
            answer_view(r),
            parse_instruction(instruction_data@),
            program_id@,
            accounts_view(accounts@),
            *min_balance,
        ),
{
    let instruction = SolDbIntructions::unpack(instruction_data)?;
    match instruction {
        SolDbIntructions::InitTable(init_table) => {
            process_init_table(&init_table, program_id, accounts, min_balance)
        },
        SolDbIntructions::Insert(insert) => {
            process_insert(&insert, program_id, accounts, min_balance)
        },
        SolDbIntructions::Put(put) => process_put(&put, program_id, accounts, min_balance),
        SolDbIntructions::Delete(delete) => process_delete(&delete, program_id, accounts),
    }
}


// ---------------------------------------------------------------------------
// What the accepted instructions do to the accounts.

/// An accepted `Delete` hands every lamport of the value account to the
/// owner and zeroes the value's data, leaving every other account as it
/// was. In the model of `apply_actions` it goes through exactly when the
/// owner's and the value's lamports together fit in a `u64`.
pub proof fn lemma_delete_effect(ix: DeleteModel, program_id: Seq<u8>, a: Seq<AccountModel>)
    requires
        delete_answer(ix, program_id, a) is Ok,
    ensures
        apply_actions(a, delete_answer(ix, program_id, a).unwrap()) is Some <==> a[0].lamports
            + a[2].lamports <= u64::MAX,
        apply_actions(a, delete_answer(ix, program_id, a).unwrap()) matches Some(post) ==> {
            &&& post.len() == a.len()
            &&& post[2].lamports == 0
            &&& post[2].data == zeros(a[2].data.len())
            &&& post[2].key == a[2].key && post[2].owner == a[2].owner
            &&& post[0].lamports == a[0].lamports + a[2].lamports
            &&& post[0].data == a[0].data && post[0].key == a[0].key && post[0].owner
                == a[0].owner
            &&& forall|i: int| 0 <= i < a.len() && i != 0 && i != 2 ==> post[i] == a[i]
        },
{
    let plan = delete_answer(ix, program_id, a).unwrap();
    let m = plan[0];
    let z = plan[1];
    assert(plan =~= seq![m] + seq![z]);
    lemma_apply_concat(a, seq![m], seq![z]);
    lemma_apply_one(a, m);
    if let Some(s1) = apply_action(a, m) {
        lemma_apply_one(s1, z);
    }
}


/// The lamports that the value account holds after an accepted `Put` with
/// rent-exempt minimum `min`: exactly `min` when the value shrank, else
/// `min` or what it held, whichever is larger.
pub open spec fn put_final_lamports(ix: PutModel, a: Seq<AccountModel>, min: u64) -> u64 {
    if value_bytes(ix.payload).len() < a[2].data.len() {
        min
    } else if min > a[2].lamports {
        min
    } else {
        a[2].lamports
    }
}

/// An accepted `Put` leaves the value account holding exactly the new
/// value's bytes, which read back as the new value, funded to the
/// rent-exempt minimum as `put_final_lamports` says; the owner pays the
/// top-up or receives the refund; every other account stays as it was. In
/// the model of `apply_actions` it goes through exactly when the owner can
/// pay the top-up and can take the refund without overflow.
pub proof fn lemma_put_effect(ix: PutModel, program_id: Seq<u8>, a: Seq<AccountModel>, min: u64)
    requires
        put_check(ix, program_id, a) is Ok,
    ensures
        apply_actions(a, put_actions(ix, a, min)) is Some <==> {
            &&& min > a[2].lamports ==> min - a[2].lamports <= a[0].lamports
            &&& value_bytes(ix.payload).len() < a[2].data.len() && a[2].lamports > min
                ==> a[0].lamports + a[2].lamports - min <= u64::MAX
        },
        apply_actions(a, put_actions(ix, a, min)) matches Some(post) ==> {
            &&& post.len() == a.len()
            &&& post[2].data == value_bytes(ix.payload)
            &&& parse_value(post[2].data) == Some(ix.payload)
            &&& post[2].lamports == put_final_lamports(ix, a, min)
            &&& post[2].key == a[2].key && post[2].owner == a[2].owner
            &&& post[0].lamports == a[0].lamports + a[2].lamports - post[2].lamports
            &&& post[0].data == a[0].data && post[0].key == a[0].key && post[0].owner
                == a[0].owner
            &&& forall|i: int| 0 <= i < a.len() && i != 0 && i != 2 ==> post[i] == a[i]
        },
{
    let bytes = value_bytes(ix.payload);
    let new_space = bytes.len();
    let old_space = a[2].data.len();
    let held = a[2].lamports;
    let top_up = if min > held {
        seq![ActionModel::Transfer { from: 0, to: 2, lamports: (min - held) as u64 }]
    } else {
        Seq::empty()
    };
    let after = if min > held {
        min
    } else {
        held
    };
    let refund = if new_space < old_space && after > min {
        seq![ActionModel::MoveLamports { from: 2, to: 0, lamports: (after - min) as u64 }]
    } else {
        Seq::empty()
    };
    let resize = seq![ActionModel::Resize { account: 2, len: new_space }];
    let write = seq![ActionModel::WriteData { account: 2, bytes }];
    assert(put_actions(ix, a, min) == top_up + resize + refund + write);
    lemma_apply_concat(a, top_up + resize + refund, write);
    lemma_apply_concat(a, top_up + resize, refund);
    lemma_apply_concat(a, top_up, resize);
    lemma_value_round_trip(ix.payload);
    // top-up
    let s1 = if min > held {
        lemma_apply_one(a, top_up[0]);
        assert(top_up =~= seq![top_up[0]]);
        apply_action(a, top_up[0])
    } else {
        assert(apply_actions(a, top_up) == Some(a));
        Some(a)
    };
    assert(apply_actions(a, top_up) == s1);
    if let Some(t1) = s1 {
        lemma_apply_one(t1, resize[0]);
        assert(resize =~= seq![resize[0]]);
        let t2 = apply_action(t1, resize[0]).unwrap();
        assert(t2[2].data.len() == new_space);
        let s3 = if new_space < old_space && after > min {
            lemma_apply_one(t2, refund[0]);
            assert(refund =~= seq![refund[0]]);
            apply_action(t2, refund[0])
        } else {
            assert(apply_actions(t2, refund) == Some(t2));
            Some(t2)
        };
        assert(apply_actions(t2, refund) == s3);
        if let Some(t3) = s3 {
            lemma_apply_one(t3, write[0]);
            assert(write =~= seq![write[0]]);
            assert(t3[2].data.len() == new_space);
            let t4 = apply_action(t3, write[0]).unwrap();
            assert(t4[2].data =~= bytes);
        }
    }
}


/// Repeating an accepted `Put`, with the same rent-exempt minimum, on the
/// accounts it left is accepted again, makes no transfer and no refund, and
/// leaves the accounts exactly as they were.
pub proof fn lemma_put_repeat(ix: PutModel, program_id: Seq<u8>, a: Seq<AccountModel>, min: u64)
    requires
        put_check(ix, program_id, a) is Ok,
        apply_actions(a, put_actions(ix, a, min)) is Some,
    ensures
        ({
            let post = apply_actions(a, put_actions(ix, a, min)).unwrap();
            &&& put_check(ix, program_id, post) is Ok
            &&& put_actions(ix, post, min) == seq![
                ActionModel::Resize { account: 2, len: value_bytes(ix.payload).len() },
                ActionModel::WriteData { account: 2, bytes: value_bytes(ix.payload) },
            ]
            &&& apply_actions(post, put_actions(ix, post, min)) == Some(post)
        }),
{
    lemma_put_effect(ix, program_id, a, min);
    let post = apply_actions(a, put_actions(ix, a, min)).unwrap();
    let bytes = value_bytes(ix.payload);
    assert(post[1] == a[1]);
    assert(entry_check(ix.table, ix.table_bump, ix.key, ix.key_bump, program_id, post)
        == entry_check(ix.table, ix.table_bump, ix.key, ix.key_bump, program_id, a));
    let resize = ActionModel::Resize { account: 2, len: bytes.len() };
    let write = ActionModel::WriteData { account: 2, bytes };
    assert(put_actions(ix, post, min) =~= seq![resize, write]);
    assert(seq![resize, write] =~= seq![resize] + seq![write]);
    lemma_apply_concat(post, seq![resize], seq![write]);
    lemma_apply_one(post, resize);
    let p1 = apply_action(post, resize).unwrap();
    assert(resized(post[2].data, bytes.len()) =~= post[2].data);
    assert(p1 =~= post);
    lemma_apply_one(p1, write);
    assert(bytes + post[2].data.skip(bytes.len() as int) =~= post[2].data);
    assert(with_data(post[2], post[2].data) == post[2]);
    assert(apply_action(p1, write).unwrap() =~= post);
}

/// Instruction data packed from an instruction is answered as the
/// processor of that instruction answers it.
pub proof fn lemma_packed_instruction_answers<F: Fn(usize) -> u64>(
    r: Result<Seq<ActionModel>, ProgramError>,
    ix: InstructionModel,
    program_id: Seq<u8>,
    a: Seq<AccountModel>,
    min_balance: F,
)
    requires
        instruction_fits(ix),
    ensures
        instruction_answers(r, parse_instruction(instruction_bytes(ix)), program_id, a, min_balance)
            == match ix {
            InstructionModel::InitTable(m) => init_table_answers(r, m, program_id, a, min_balance),
            InstructionModel::Insert(m) => insert_answers(r, m, program_id, a, min_balance),
            InstructionModel::Put(m) => put_answers(r, m, program_id, a, min_balance),
            InstructionModel::Delete(m) => r == delete_answer(m, program_id, a),
        },
{
    lemma_unpack_pack(ix);
}


/// An accepted `Put` takes lamports only as the runtime allows: the
/// top-up is a system-program transfer from the owner, and the refund is
/// taken by the program from the value account, which it owns.
pub proof fn lemma_put_lamport_sources(ix: PutModel, program_id: Seq<u8>, a: Seq<AccountModel>, min: u64)
    requires
        put_check(ix, program_id, a) is Ok,
    ensures
        lamport_sources_ok(put_actions(ix, a, min), program_id, a),
{
    let plan = put_actions(ix, a, min);
    assert forall|i: int| 0 <= i < plan.len() implies match #[trigger] plan[i] {
        ActionModel::Transfer { from, to, lamports } => from == 0 && to != 0,
        ActionModel::MoveLamports { from, to, lamports } => 0 <= from < a.len() && a[from].owner
            == program_id,
        _ => true,
    } by {
        assert(a.len() >= 4 && a[2].owner == program_id);
    }
}

/// An accepted `Delete` takes the value account's lamports by the program
/// itself, from the value account, which it owns; it makes no transfer.
pub proof fn lemma_delete_lamport_sources(ix: DeleteModel, program_id: Seq<u8>, a: Seq<AccountModel>)
    requires
        delete_answer(ix, program_id, a) is Ok,
    ensures
        lamport_sources_ok(delete_answer(ix, program_id, a).unwrap(), program_id, a),
{
    let plan = delete_answer(ix, program_id, a).unwrap();
    assert(entry_check(ix.table, ix.table_bump, ix.key, ix.key_bump, program_id, a) is Ok);
    assert(a.len() >= 4 && a[2].owner == program_id);
    assert forall|i: int| 0 <= i < plan.len() implies match #[trigger] plan[i] {
        ActionModel::Transfer { from, to, lamports } => from == 0 && to != 0,
        ActionModel::MoveLamports { from, to, lamports } => 0 <= from < a.len() && a[from].owner
            == program_id,
        _ => true,
    } by {}
}

} // verus!
