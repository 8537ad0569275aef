//! Processing `InitTable`.
use vstd::prelude::*;
use vstd::utf8::encode_utf8;
use crate::accounts::{lemma_table_round_trip, parse_table, table_bytes, table_fits, SolTable, TableModel};
use crate::error::{error_code, ProgramError, SolDbError};
use crate::instructions::{InitTable, InitTableModel};
use crate::address::program_address;
use crate::processor::{
    accounts_view, address_check, answer_view, check_address, key_bytes, lemma_bytes_deep_view,
    table_seeds,
};
use crate::state::{
    apply_action, apply_actions, is_fresh, is_system_program, lamport_sources_ok, lemma_apply_concat, lemma_apply_one,
    system_program_id, AccountModel, AccountState, Action, ActionModel,
};
use crate::utils::{create_account_with_data, create_with_data_model};

verus! {

/// A table with the given name and no keys.
pub open spec fn new_table(name: Seq<char>) -> TableModel {
    TableModel { name, keys: Seq::empty() }
}

/// What `InitTable` answers before it needs the rent-exempt minimum, in the
/// order of its checks: three accounts; the owner signs; the table's address
/// is writable; the third account is the system program; the table's
/// address is the one derived from the name and the owner, with the given
/// bump seed.
pub open spec fn init_table_check(
    ix: InitTableModel,
    program_id: Seq<u8>,
    a: Seq<AccountModel>,
) -> Result<(), ProgramError> {
    if a.len() < 3 {
        Err(ProgramError::NotEnoughAccountKeys)
    } else if !a[0].is_signer {
        Err(ProgramError::MissingRequiredSignature)
    } else if !a[1].is_writable {
        Err(ProgramError::Custom(error_code(SolDbError::NotWritable)))
    } else if a[2].key != system_program_id() {
        Err(ProgramError::IncorrectProgramId)
    } else if address_check(
        table_seeds(ix.name, a[0].key),
        program_id,
        a[1].key,
        ix.bump,
        ProgramError::InvalidSeeds,
    ) is Err {
        address_check(
            table_seeds(ix.name, a[0].key),
            program_id,
            a[1].key,
            ix.bump,
            ProgramError::InvalidSeeds,
        )
    } else if !table_fits(new_table(ix.name)) {
        Err(ProgramError::BorshIoError)
    } else {
        Ok(())
    }
}

/// The actions of an accepted `InitTable`, given the rent-exempt minimum
/// `min` for the table's bytes: create the table account, paid by the
/// owner and signed for with the table's seeds and bump, and write the
/// empty table into it.
pub open spec fn init_table_actions(ix: InitTableModel, program_id: Seq<u8>, a: Seq<AccountModel>, min: u64) -> Seq<
    ActionModel,
> {
    create_with_data_model(
        0,
        1,
        min,
        table_bytes(new_table(ix.name)),
        program_id,
        seq![encode_utf8(ix.name), a[0].key, seq![ix.bump]],
    )
}

/// `r` is what `InitTable` answers, with `min_balance` giving the
/// rent-exempt minimum.
pub open spec fn init_table_answers<F: Fn(usize) -> u64>(
    r: Result<Seq<ActionModel>, ProgramError>,
    ix: InitTableModel,
    program_id: Seq<u8>,
    a: Seq<AccountModel>,
    min_balance: F,
) -> bool {
    match init_table_check(ix, program_id, a) {
        Err(e) => r == Err::<Seq<ActionModel>, ProgramError>(e),
        Ok(()) => exists|min: u64|
            #![trigger min_balance.ensures((table_bytes(new_table(ix.name)).len() as usize,), min)]
            min_balance.ensures((table_bytes(new_table(ix.name)).len() as usize,), min) && r
                == Ok::<Seq<ActionModel>, ProgramError>(init_table_actions(ix, program_id, a, min)),
    }
}

/// Processes `InitTable`: creates the table account at the address derived
/// from the table's name and the owner's key. Accounts: the owner, the
/// table's address and the system program.
pub fn process_init_table<F: Fn(usize) -> u64>(
    init_table: &InitTable,
    program_id: &[u8; 32],
    accounts: &Vec<AccountState>,
    min_balance: &F,
) -> (r: Result<Vec<Action>, ProgramError>)
    requires
        forall|n: usize| min_balance.requires((n,)),
    ensures
        init_table_answers(
            answer_view(r),
            init_table@,
            program_id@,
            accounts_view(accounts@),
            *min_balance,
        ),
{
    let ghost a = accounts_view(accounts@);
    if accounts.len() < 3 {
        return Err(ProgramError::NotEnoughAccountKeys);
    }
    assert(a[0] == accounts@[0]@ && a[1] == accounts@[1]@ && a[2] == accounts@[2]@);
    let owner_info = &accounts[0];
    let pda_info = &accounts[1];
    let sys_prog = &accounts[2];
    if !owner_info.is_signer {
        return Err(ProgramError::MissingRequiredSignature);
    }
    if !pda_info.is_writable {
        return Err(SolDbError::NotWritable.into());
    }
    if !is_system_program(&sys_prog.key) {
        return Err(ProgramError::IncorrectProgramId);
    }
    let name_bytes = vstd::slice::slice_to_vec(init_table.name.as_str().as_bytes());
    let mut seeds: Vec<Vec<u8>> = Vec::new();
    seeds.push(name_bytes.clone());
    seeds.push(key_bytes(&owner_info.key));
    proof {
        lemma_bytes_deep_view(seeds@[0]);
        lemma_bytes_deep_view(seeds@[1]);
    }
    assert(seeds@[0]@ =~= name_bytes@);
    assert(seeds.deep_view() =~= table_seeds(init_table.name@, a[0].key));
    check_address(&seeds, program_id, &pda_info.key, init_table.bump, ProgramError::InvalidSeeds)?;
    let sol_table = SolTable::new(init_table.name.clone());
    let data = sol_table.try_to_vec()?;
    let mut signer_seeds: Vec<Vec<u8>> = Vec::new();
    signer_seeds.push(name_bytes);
    signer_seeds.push(key_bytes(&owner_info.key));
    let mut bump_seed: Vec<u8> = Vec::new();
    bump_seed.push(init_table.bump);
    signer_seeds.push(bump_seed);
    proof {
        lemma_bytes_deep_view(signer_seeds@[0]);
        lemma_bytes_deep_view(signer_seeds@[1]);
        lemma_bytes_deep_view(signer_seeds@[2]);
    }
    assert(signer_seeds.deep_view() =~= seq![encode_utf8(init_table.name@), a[0].key, seq![init_table.bump]]);
    assert(sol_table@ == new_table(init_table.name@));
    Ok(create_account_with_data(0, 1, data, signer_seeds, program_id, min_balance))
}


/// An accepted `InitTable` leaves the table account owned by the program,
/// funded with the rent-exempt minimum `min` paid by the owner, and holding
/// exactly the bytes of the named table with no keys, which read back as
/// that table; every other account stays as it was. In the model of
/// `apply_actions` it goes through exactly when the owner holds `min` and no
/// account exists yet at the table's address: an existing table (one with
/// lamports, data, or another owner than the system program) is never
/// created again, and then nothing changes.
pub proof fn lemma_init_table_effect(
    ix: InitTableModel,
    program_id: Seq<u8>,
    a: Seq<AccountModel>,
    min: u64,
)
    requires
        init_table_check(ix, program_id, a) is Ok,
    ensures
        apply_actions(a, init_table_actions(ix, program_id, a, min)) is Some <==> min
            <= a[0].lamports && is_fresh(a[1]),
        apply_actions(a, init_table_actions(ix, program_id, a, min)) matches Some(post) ==> {
            &&& post.len() == a.len()
            &&& post[1].data == table_bytes(new_table(ix.name))
            &&& parse_table(post[1].data) == Some(new_table(ix.name))
            &&& post[1].owner == program_id
            &&& post[1].lamports == min
            &&& post[1].key == a[1].key
            &&& post[0].lamports == a[0].lamports - min
            &&& post[0].data == a[0].data && post[0].key == a[0].key && post[0].owner
                == a[0].owner
            &&& forall|i: int| 0 <= i < a.len() && i != 0 && i != 1 ==> post[i] == a[i]
        },
{
    let plan = init_table_actions(ix, program_id, a, min);
    let c = plan[0];
    let w = plan[1];
    assert(plan =~= seq![c] + seq![w]);
    lemma_apply_concat(a, seq![c], seq![w]);
    lemma_apply_one(a, c);
    lemma_table_round_trip(new_table(ix.name));
    if let Some(s1) = apply_action(a, c) {
        lemma_apply_one(s1, w);
        let s2 = apply_action(s1, w).unwrap();
        assert(s2[1].data =~= table_bytes(new_table(ix.name)));
    }
}


/// An accepted `InitTable` creates the table account (index 1), paid by
/// the owner and owned by the program, signing for it with the table's
/// seeds (its name and the owner's key) and the bump seed: seeds that derive
/// exactly that account's key. It makes no other lamport movement.
pub proof fn lemma_init_table_signs_for_table(
    ix: InitTableModel,
    program_id: Seq<u8>,
    a: Seq<AccountModel>,
    min: u64,
)
    requires
        init_table_check(ix, program_id, a) is Ok,
    ensures
        init_table_actions(ix, program_id, a, min)[0] matches ActionModel::CreateAccount {
            payer,
            account,
            owner,
            seeds,
            ..
        } && payer == 0 && account == 1 && owner == program_id && seeds == table_seeds(
            ix.name,
            a[0].key,
        ).push(seq![ix.bump]),
        program_address(table_seeds(ix.name, a[0].key), program_id) == Some((a[1].key, ix.bump)),
        lamport_sources_ok(init_table_actions(ix, program_id, a, min), program_id, a),
{
    let plan = init_table_actions(ix, program_id, a, min);
    assert(seq![encode_utf8(ix.name), a[0].key, seq![ix.bump]] =~= table_seeds(ix.name, a[0].key).push(
        seq![ix.bump],
    ));
    assert forall|i: int| 0 <= i < plan.len() implies match #[trigger] plan[i] {
        ActionModel::Transfer { from, to, lamports } => from == 0 && to != 0,
        ActionModel::MoveLamports { from, to, lamports } => 0 <= from < a.len() && a[from].owner
            == program_id,
        _ => true,
    } by {}
}

} // verus!
