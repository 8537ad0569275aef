//! Building the actions that create a program account.
use vstd::prelude::*;
use crate::state::{Action, ActionModel};

verus! {

/// The view of the action that creates account `pda`, paid by `owner`.
pub open spec fn create_model(
    owner: int,
    pda: int,
    lamports: u64,
    space: nat,
    program_id: Seq<u8>,
    seeds: Seq<Seq<u8>>,
) -> ActionModel {
    ActionModel::CreateAccount { payer: owner, account: pda, lamports, space, owner: program_id, seeds }
}

/// The views of the actions that create account `pda` for `data` and write
/// `data` into it.
pub open spec fn create_with_data_model(
    owner: int,
    pda: int,
    lamports: u64,
    data: Seq<u8>,
    program_id: Seq<u8>,
    seeds: Seq<Seq<u8>>,
) -> Seq<ActionModel> {
    seq![
        create_model(owner, pda, lamports, data.len(), program_id, seeds),
        ActionModel::WriteData { account: pda, bytes: data },
    ]
}

/// The action that creates the account at index `pda`, funded by `owner`
/// with the rent-exempt minimum for `space` bytes (as `min_balance` gives
/// it), owned by `program_id` and signed for with `signer_seeds`.
pub fn create_account<F: Fn(usize) -> u64>(
    owner: usize,
    pda: usize,
    space: u64,
    signer_seeds: Vec<Vec<u8>>,
    program_id: &[u8; 32],
    min_balance: &F,
) -> (r: Action)
    requires
        min_balance.requires((space as usize,)),
    ensures
        exists|lamports: u64|
            #![trigger min_balance.ensures((space as usize,), lamports)]
            min_balance.ensures((space as usize,), lamports) && r@ == create_model(
                owner as int,
                pda as int,
                lamports,
                space as nat,
                program_id@,
                signer_seeds.deep_view(),
            ),
{
    let lamports = min_balance(space as usize);
    Action::CreateAccount {
        payer: owner,
        account: pda,
        lamports,
        space,
        owner: *program_id,
        seeds: signer_seeds,
    }
}

/// The actions that create the account at index `pda` just large enough for
/// `data`, as `create_account` does, and then write `data` into it.
pub fn create_account_with_data<F: Fn(usize) -> u64>(
    owner: usize,
    pda: usize,
    data: Vec<u8>,
    signer_seeds: Vec<Vec<u8>>,
    program_id: &[u8; 32],
    min_balance: &F,
) -> (r: Vec<Action>)
    requires
        min_balance.requires((data@.len() as usize,)),
    ensures
        exists|lamports: u64|
            #![trigger min_balance.ensures((data@.len() as usize,), lamports)]
            min_balance.ensures((data@.len() as usize,), lamports) && crate::state::actions_view(
                r@,
            ) == create_with_data_model(
                owner as int,
                pda as int,
                lamports,
                data@,
                program_id@,
                signer_seeds.deep_view(),
            ),
{
    let space = data.len() as u64;
    let create = create_account(owner, pda, space, signer_seeds, program_id, min_balance);
    let mut out: Vec<Action> = Vec::new();
    out.push(create);
    out.push(Action::WriteData { account: pda, bytes: data });
    assert(crate::state::actions_view(out@) =~= seq![out@[0]@, out@[1]@]);
    out
}

} // verus!
