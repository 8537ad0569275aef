//! Processing `Insert`.
use vstd::prelude::*;
use vstd::utf8::encode_utf8;
use crate::accounts::{
    lemma_table_round_trip, lemma_value_round_trip, parse_table, parse_value, table_bytes,
    table_fits, value_bytes, SolTable, SolValue, TableModel,
};
use crate::codec::{bytes_fit, enc_string, lemma_enc_string_items_push};
use crate::accounts::lemma_table_bytes_canonical;
use crate::error::{error_code, ProgramError, SolDbError};
use crate::instructions::{Insert, InsertModel};
use crate::processor::{
    value_seeds, accounts_view, answer_view, check_key_address, key_address_check, key_bytes,
    lemma_bytes_deep_view, table_seeds,
};
use crate::state::{
    actions_view, apply_action, apply_actions, is_fresh, lamport_sources_ok, lemma_apply_concat, lemma_apply_one, AccountModel,
    AccountState, Action, ActionModel,
};
use crate::utils::{create_account_with_data, create_with_data_model};

verus! {

/// The table with `key` added at the end of its keys.
pub open spec fn inserted_table(t: TableModel, key: Seq<char>) -> TableModel {
    TableModel { name: t.name, keys: t.keys.push(key) }
}

/// What `Insert` answers before it needs a rent-exempt minimum, in the
/// order of its checks: four accounts; the second holding a table; that
/// account at the address derived from the table's name and the owner's
/// key; the value and the grown table both writable as bytes.
pub open spec fn insert_check(ix: InsertModel, program_id: Seq<u8>, a: Seq<AccountModel>) -> Result<
    (),
    ProgramError,
> {
    if a.len() < 4 {
        Err(ProgramError::NotEnoughAccountKeys)
    } else {
        match parse_table(a[1].data) {
            None => Err(ProgramError::InvalidAccountData),
            Some(t) => if key_address_check(
                table_seeds(t.name, a[0].key),
                program_id,
                a[1].key,
                ProgramError::Custom(error_code(SolDbError::PdaMismatch)),
            ) is Err {
                key_address_check(
                    table_seeds(t.name, a[0].key),
                    program_id,
                    a[1].key,
                    ProgramError::Custom(error_code(SolDbError::PdaMismatch)),
                )
            } else if !bytes_fit(ix.payload) {
                Err(ProgramError::BorshIoError)
            } else if !table_fits(inserted_table(t, ix.key)) {
                Err(ProgramError::BorshIoError)
            } else {
                Ok(())
            },
        }
    }
}

/// The new bytes of the table account after an insert of `key`.
pub open spec fn grown_table_bytes(ix: InsertModel, a: Seq<AccountModel>) -> Seq<u8> {
    table_bytes(inserted_table(parse_table(a[1].data).unwrap(), ix.key))
}

/// The actions that bring the table account (index 1) to the bytes `tb`,
/// given the rent-exempt minimum `min` for them: when its size changes, a
/// growing account is first topped up to `min` from the owner and then
/// resized, a shrinking one is resized and then hands what it holds beyond
/// `min` back to the owner; in every case `tb` is written.
pub open spec fn table_resize_actions(table: AccountModel, tb: Seq<u8>, min: u64) -> Seq<ActionModel> {
    let new_len = tb.len();
    let cur = table.data.len();
    let now = table.lamports;
    let write = seq![ActionModel::WriteData { account: 1, bytes: tb }];
    if new_len != cur {
        if new_len > cur {
            let top_up = if now < min {
                seq![ActionModel::Transfer { from: 0, to: 1, lamports: (min - now) as u64 }]
            } else {
                Seq::empty()
            };
            top_up + seq![ActionModel::Resize { account: 1, len: new_len }] + write
        } else {
            let refund = if now > min {
                seq![ActionModel::MoveLamports { from: 1, to: 0, lamports: (now - min) as u64 }]
            } else {
                Seq::empty()
            };
            seq![ActionModel::Resize { account: 1, len: new_len }] + refund + write
        }
    } else {
        write
    }
}

/// The actions of an accepted `Insert`, given the rent-exempt minimums for
/// the value (`value_min`) and for the grown table (`table_min`): create
/// the value account, paid by the owner and signed for with the key, the
/// table's key, the owner's key and the bump; write the value; then bring
/// the table account to the table with the key added.
pub open spec fn insert_actions(
    ix: InsertModel,
    program_id: Seq<u8>,
    a: Seq<AccountModel>,
    value_min: u64,
    table_min: u64,
) -> Seq<ActionModel> {
    create_with_data_model(
        0,
        2,
        value_min,
        value_bytes(ix.payload),
        program_id,
        seq![encode_utf8(ix.key), a[1].key, a[0].key, seq![ix.bump]],
    ) + table_resize_actions(a[1], grown_table_bytes(ix, a), table_min)
}

/// `r` is what `Insert` answers, with `min_balance` giving the rent-exempt
/// minimums (the table's only asked for when its size changes).
pub open spec fn insert_answers<F: Fn(usize) -> u64>(
    r: Result<Seq<ActionModel>, ProgramError>,
    ix: InsertModel,
    program_id: Seq<u8>,
    a: Seq<AccountModel>,
    min_balance: F,
) -> bool {
    match insert_check(ix, program_id, a) {
        Err(e) => r == Err::<Seq<ActionModel>, ProgramError>(e),
        Ok(()) => exists|value_min: u64|
            #![trigger min_balance.ensures((value_bytes(ix.payload).len() as usize,), value_min)]
            {
                &&& min_balance.ensures((value_bytes(ix.payload).len() as usize,), value_min)
                &&& if grown_table_bytes(ix, a).len() != a[1].data.len() {
                    exists|table_min: u64|
                        #![trigger min_balance.ensures((grown_table_bytes(ix, a).len() as usize,), table_min)]
                        min_balance.ensures((grown_table_bytes(ix, a).len() as usize,), table_min)
                            && r == Ok::<Seq<ActionModel>, ProgramError>(
                            insert_actions(ix, program_id, a, value_min, table_min),
                        )
                } else {
                    r == Ok::<Seq<ActionModel>, ProgramError>(
                        insert_actions(ix, program_id, a, value_min, 0),
                    )
                }
            },
    }
}

/// The actions that bring the table account to `tbuf`, as
/// `table_resize_actions` says.
fn table_update(table: &AccountState, tbuf: Vec<u8>, min: u64) -> (r: Vec<Action>)
    ensures
        actions_view(r@) == table_resize_actions(table@, tbuf@, min),
{
    let new_len = tbuf.len();
    let current_len = table.data.len();
    let now = table.lamports;
    let mut out: Vec<Action> = Vec::new();
    if new_len != current_len {
        if new_len > current_len {
            if now < min {
                out.push(Action::Transfer { from: 0, to: 1, lamports: min - now });
            }
            out.push(Action::Resize { account: 1, len: new_len });
        } else {
            out.push(Action::Resize { account: 1, len: new_len });
            if now > min {
                out.push(Action::MoveLamports { from: 1, to: 0, lamports: now - min });
            }
        }
    }
    out.push(Action::WriteData { account: 1, bytes: tbuf });
    assert(actions_view(out@) =~= table_resize_actions(table@, tbuf@, min));
    out
}

/// Appends `more` to `out`.
fn append_actions(out: &mut Vec<Action>, more: Vec<Action>)
    ensures
        actions_view(final(out)@) == actions_view(old(out)@) + actions_view(more@),
{
    let mut more = more;
    let ghost start = old(out)@;
    let ghost rest = more@;
    out.append(&mut more);
    assert(out@ =~= start + rest);
    assert(actions_view(start + rest) =~= actions_view(start) + actions_view(rest));
}

/// Processes `Insert`: creates the value account for `insert.key` under the
/// table and adds the key to the table. Accounts: the owner, the table, the
/// value's address and the system program.
pub fn process_insert<F: Fn(usize) -> u64>(
    insert: &Insert,
    program_id: &[u8; 32],
    accounts: &Vec<AccountState>,
    min_balance: &F,
) -> (r: Result<Vec<Action>, ProgramError>)
    requires
        forall|n: usize| min_balance.requires((n,)),
    ensures
        insert_answers(answer_view(r), insert@, program_id@, accounts_view(accounts@), *min_balance),
{
    let ghost a = accounts_view(accounts@);
    if accounts.len() < 4 {
        return Err(ProgramError::NotEnoughAccountKeys);
    }
    assert(a[0] == accounts@[0]@ && a[1] == accounts@[1]@);
    let owner_info = &accounts[0];
    let table_info = &accounts[1];
    let mut sol_table = match SolTable::try_from_slice(table_info.data.as_slice()) {
        Some(t) => t,
        None => return Err(ProgramError::InvalidAccountData),
    };
    let ghost t = sol_table@;
    let mut table_seeds: Vec<Vec<u8>> = Vec::new();
    table_seeds.push(vstd::slice::slice_to_vec(sol_table.name.as_str().as_bytes()));
    table_seeds.push(key_bytes(&owner_info.key));
    proof {
        lemma_bytes_deep_view(table_seeds@[0]);
        lemma_bytes_deep_view(table_seeds@[1]);
    }
    assert(table_seeds.deep_view() =~= crate::processor::table_seeds(t.name, a[0].key));
    check_key_address(
        &table_seeds,
        program_id,
        &table_info.key,
        SolDbError::PdaMismatch.into(),
    )?;
    let sol_value = SolValue { val: insert.payload.clone() };
    let serialized = sol_value.try_to_vec()?;
    sol_table.keys.push(insert.key.clone());
    assert(sol_table@.keys =~= t.keys.push(insert.key@));
    assert(sol_table@ == inserted_table(t, insert.key@));
    let tbuf = sol_table.try_to_vec()?;
    let mut seeds: Vec<Vec<u8>> = Vec::new();
    seeds.push(vstd::slice::slice_to_vec(insert.key.as_str().as_bytes()));
    seeds.push(key_bytes(&table_info.key));
    seeds.push(key_bytes(&owner_info.key));
    let mut bump_seed: Vec<u8> = Vec::new();
    bump_seed.push(insert.bump);
    seeds.push(bump_seed);
    proof {
        lemma_bytes_deep_view(seeds@[0]);
        lemma_bytes_deep_view(seeds@[1]);
        lemma_bytes_deep_view(seeds@[2]);
        lemma_bytes_deep_view(seeds@[3]);
    }
    assert(seeds.deep_view() =~= seq![encode_utf8(insert.key@), a[1].key, a[0].key, seq![insert.bump]]);
    let ghost value_len = serialized@.len();
    let mut out = create_account_with_data(0, 2, serialized, seeds, program_id, min_balance);
    let ghost value_min = choose|m: u64|
        min_balance.ensures((value_len as usize,), m) && actions_view(out@) == create_with_data_model(
            0,
            2,
            m,
            value_bytes(insert.payload@),
            program_id@,
            seq![encode_utf8(insert.key@), a[1].key, a[0].key, seq![insert.bump]],
        );
    let ghost tb = tbuf@;
    assert(parse_table(a[1].data) == Some(t));
    assert(tb == grown_table_bytes(insert@, a));
    assert(value_len == value_bytes(insert.payload@).len());
    let min = if tbuf.len() != table_info.data.len() {
        min_balance(tbuf.len())
    } else {
        0
    };
    let rest = table_update(table_info, tbuf, min);
    append_actions(&mut out, rest);
    assert(actions_view(out@) == insert_actions(insert@, program_id@, a, value_min, min));
    assert((*min_balance).ensures((value_bytes(insert.payload@).len() as usize,), value_min));
    assert(tb.len() != a[1].data.len() ==> (*min_balance).ensures((tb.len() as usize,), min));
    Ok(out)
}

/// The lamports that the table account holds once brought to `tb`: topped
/// up to `min` when it grew, brought down to `min` when it shrank and held
/// more, unchanged otherwise.
pub open spec fn table_final_lamports(table: AccountModel, tb: Seq<u8>, min: u64) -> u64 {
    if tb.len() > table.data.len() && table.lamports < min {
        min
    } else if tb.len() < table.data.len() && table.lamports > min {
        min
    } else {
        table.lamports
    }
}

/// Bringing the table account (index 1) to `tb` leaves exactly `tb` in it
/// and moves lamports only between it and the owner (index 0).
pub proof fn lemma_table_resize_effect(s: Seq<AccountModel>, tb: Seq<u8>, min: u64)
    requires
        s.len() >= 2,
    ensures
        apply_actions(s, table_resize_actions(s[1], tb, min)) matches Some(post) ==> {
            &&& post.len() == s.len()
            &&& post[1].data == tb
            &&& post[1].lamports == table_final_lamports(s[1], tb, min)
            &&& post[1].key == s[1].key && post[1].owner == s[1].owner
            &&& post[0].lamports == s[0].lamports + s[1].lamports - post[1].lamports
            &&& post[0].data == s[0].data && post[0].key == s[0].key && post[0].owner
                == s[0].owner
            &&& forall|i: int| 0 <= i < s.len() && i != 0 && i != 1 ==> post[i] == s[i]
        },
{
    let new_len = tb.len();
    let cur = s[1].data.len();
    let now = s[1].lamports;
    let write = seq![ActionModel::WriteData { account: 1, bytes: tb }];
    let resize = seq![ActionModel::Resize { account: 1, len: new_len }];
    let plan = table_resize_actions(s[1], tb, min);
    if new_len != cur {
        if new_len > cur {
            let top_up = if now < min {
                seq![ActionModel::Transfer { from: 0, to: 1, lamports: (min - now) as u64 }]
            } else {
                Seq::empty()
            };
            assert(plan == top_up + resize + write);
            lemma_apply_concat(s, top_up + resize, write);
            lemma_apply_concat(s, top_up, resize);
            let s1 = if now < min {
                lemma_apply_one(s, top_up[0]);
                assert(top_up =~= seq![top_up[0]]);
                apply_action(s, top_up[0])
            } else {
                assert(apply_actions(s, top_up) == Some(s));
                Some(s)
            };
            assert(apply_actions(s, top_up) == s1);
            if let Some(t1) = s1 {
                lemma_apply_one(t1, resize[0]);
                assert(resize =~= seq![resize[0]]);
                let t2 = apply_action(t1, resize[0]).unwrap();
                lemma_apply_one(t2, write[0]);
                assert(write =~= seq![write[0]]);
                if let Some(t3) = apply_action(t2, write[0]) {
                    assert(t3[1].data =~= tb);
                }
            }
        } else {
            let refund = if now > min {
                seq![ActionModel::MoveLamports { from: 1, to: 0, lamports: (now - min) as u64 }]
            } else {
                Seq::empty()
            };
            assert(plan == resize + refund + write);
            lemma_apply_concat(s, resize + refund, write);
            lemma_apply_concat(s, resize, refund);
            lemma_apply_one(s, resize[0]);
            assert(resize =~= seq![resize[0]]);
            let t1 = apply_action(s, resize[0]).unwrap();
            let s2 = if now > min {
                lemma_apply_one(t1, refund[0]);
                assert(refund =~= seq![refund[0]]);
                apply_action(t1, refund[0])
            } else {
                assert(apply_actions(t1, refund) == Some(t1));
                Some(t1)
            };
            assert(apply_actions(t1, refund) == s2);
            if let Some(t2) = s2 {
                lemma_apply_one(t2, write[0]);
                assert(write =~= seq![write[0]]);
                if let Some(t3) = apply_action(t2, write[0]) {
                    assert(t3[1].data =~= tb);
                }
            }
        }
    } else {
        assert(plan == write);
        lemma_apply_one(s, write[0]);
        assert(write =~= seq![write[0]]);
        if let Some(t1) = apply_action(s, write[0]) {
            assert(t1[1].data =~= tb);
        }
    }
}

/// An insert always grows the table account: by the key's bytes and the
/// four bytes of their length.
pub proof fn lemma_insert_grows_table(ix: InsertModel, program_id: Seq<u8>, a: Seq<AccountModel>)
    requires
        insert_check(ix, program_id, a) is Ok,
    ensures
        grown_table_bytes(ix, a).len() == a[1].data.len() + enc_string(ix.key).len(),
        enc_string(ix.key).len() == 4 + encode_utf8(ix.key).len(),
{
    let t = parse_table(a[1].data).unwrap();
    lemma_table_bytes_canonical(a[1].data);
    lemma_enc_string_items_push(t.keys, ix.key);
}

/// An accepted `Insert` leaves a new value account owned by the program,
/// funded with the rent-exempt minimum `value_min` paid by the owner and
/// holding exactly the value's bytes, which read back as the value; and
/// leaves the table account, grown by the key, holding exactly the table
/// with the key added, topped up to the rent-exempt minimum `table_min` of
/// its new size when it held less. Lamports move only between these
/// accounts and the owner; every other account stays as it was. When an
/// account already exists at the value's address (with lamports, data, or
/// another owner than the system program), nothing goes through: the value
/// is not created again and the key is not added a second time.
pub proof fn lemma_insert_effect(
    ix: InsertModel,
    program_id: Seq<u8>,
    a: Seq<AccountModel>,
    value_min: u64,
    table_min: u64,
)
    requires
        insert_check(ix, program_id, a) is Ok,
    ensures
        !is_fresh(a[2]) ==> apply_actions(a, insert_actions(ix, program_id, a, value_min, table_min))
            is None,
        apply_actions(a, insert_actions(ix, program_id, a, value_min, table_min)) matches Some(
            post,
        ) ==> {
            &&& post.len() == a.len()
            &&& post[2].data == value_bytes(ix.payload)
            &&& parse_value(post[2].data) == Some(ix.payload)
            &&& post[2].owner == program_id
            &&& post[2].lamports == value_min
            &&& post[1].data == grown_table_bytes(ix, a)
            &&& parse_table(post[1].data) == Some(
                inserted_table(parse_table(a[1].data).unwrap(), ix.key),
            )
            &&& post[1].data.len() == a[1].data.len() + 4 + encode_utf8(ix.key).len()
            &&& post[1].lamports == if a[1].lamports < table_min {
                table_min
            } else {
                a[1].lamports
            }
            &&& post[1].key == a[1].key && post[1].owner == a[1].owner
            &&& post[0].lamports == a[0].lamports + a[1].lamports - value_min - post[1].lamports
            &&& post[0].key == a[0].key && post[0].data == a[0].data && post[0].owner
                == a[0].owner
            &&& forall|i: int| 0 <= i < a.len() && i != 0 && i != 1 && i != 2 ==> post[i] == a[i]
        },
{
    let tb = grown_table_bytes(ix, a);
    let plan = insert_actions(ix, program_id, a, value_min, table_min);
    let c = plan[0];
    let w = plan[1];
    let rest = table_resize_actions(a[1], tb, table_min);
    assert(plan =~= seq![c] + seq![w] + rest);
    lemma_apply_concat(a, seq![c] + seq![w], rest);
    lemma_apply_concat(a, seq![c], seq![w]);
    lemma_apply_one(a, c);
    lemma_value_round_trip(ix.payload);
    lemma_table_round_trip(inserted_table(parse_table(a[1].data).unwrap(), ix.key));
    lemma_insert_grows_table(ix, program_id, a);
    if let Some(s1) = apply_action(a, c) {
        lemma_apply_one(s1, w);
        if let Some(s2) = apply_action(s1, w) {
            assert(s2[2].data =~= value_bytes(ix.payload));
            assert(s2[1] == a[1]);
            lemma_table_resize_effect(s2, tb, table_min);
        }
    }
}


/// An accepted `Insert` creates the value account (index 2), paid by the
/// owner and owned by the program, signing for it with the seeds from which
/// `Put` and `Delete` derive a value's address (the key, the table's key,
/// the owner's key), followed by the bump seed.
pub proof fn lemma_insert_signs_with_value_seeds(
    ix: InsertModel,
    program_id: Seq<u8>,
    a: Seq<AccountModel>,
    value_min: u64,
    table_min: u64,
)
    requires
        insert_check(ix, program_id, a) is Ok,
    ensures
        insert_actions(ix, program_id, a, value_min, table_min)[0] matches ActionModel::CreateAccount {
            payer,
            account,
            owner,
            seeds,
            ..
        } && payer == 0 && account == 2 && owner == program_id && seeds == value_seeds(
            encode_utf8(ix.key),
            a[1].key,
            a[0].key,
        ).push(seq![ix.bump]),
{
    assert(seq![encode_utf8(ix.key), a[1].key, a[0].key, seq![ix.bump]] =~= value_seeds(
        encode_utf8(ix.key),
        a[1].key,
        a[0].key,
    ).push(seq![ix.bump]));
}

/// An accepted `Insert` takes lamports only by system-program transfers
/// from the owner (the value's funding and the table's top-up); it never
/// has the program debit an account.
pub proof fn lemma_insert_lamport_sources(
    ix: InsertModel,
    program_id: Seq<u8>,
    a: Seq<AccountModel>,
    value_min: u64,
    table_min: u64,
)
    requires
        insert_check(ix, program_id, a) is Ok,
    ensures
        lamport_sources_ok(insert_actions(ix, program_id, a, value_min, table_min), program_id, a),
        forall|i: int|
            0 <= i < insert_actions(ix, program_id, a, value_min, table_min).len()
                ==> !(#[trigger] insert_actions(ix, program_id, a, value_min, table_min)[i] is MoveLamports),
{
    lemma_insert_grows_table(ix, program_id, a);
    let plan = insert_actions(ix, program_id, a, value_min, table_min);
    let tb = grown_table_bytes(ix, a);
    let head = create_with_data_model(
        0,
        2,
        value_min,
        value_bytes(ix.payload),
        program_id,
        seq![encode_utf8(ix.key), a[1].key, a[0].key, seq![ix.bump]],
    );
    let tail = table_resize_actions(a[1], tb, table_min);
    assert(plan == head + tail);
    assert forall|i: int| 0 <= i < plan.len() implies !(#[trigger] plan[i] is MoveLamports) && match plan[i] {
        ActionModel::Transfer { from, to, lamports } => from == 0 && to != 0,
        ActionModel::MoveLamports { from, to, lamports } => 0 <= from < a.len() && a[from].owner
            == program_id,
        _ => true,
    } by {
        if i >= 2 {
            assert(plan[i] == tail[i - 2]);
        }
    }
}

} // verus!
