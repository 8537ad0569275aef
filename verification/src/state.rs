//! The accounts that an instruction names, and the changes that the program
//! makes to them.
//!
//! The processor does not touch accounts itself: it answers with a list of
//! `Action`s, which the caller carries out in order against the real
//! accounts (a call of the system program for `CreateAccount` and
//! `Transfer`, a direct change for the others). `apply_actions` is a model
//! of what each action does to the accounts: it holds the lamport and length
//! conditions under which an action can go through, and that only an account
//! that does not exist yet can be created; each index names a distinct
//! account. The runtime checks more than the model does (that the
//! payer and the created account sign, that changed accounts are writable,
//! that a transfer's source belongs to the system program, that the seeds
//! derive the created address): where it refuses, the instruction fails and
//! nothing changes.
use vstd::prelude::*;

verus! {

/// What the program reads of an account: its key, owner, lamports and
/// data, and whether the instruction marks it as signed and as writable.
#[derive(Clone, Debug, PartialEq, Eq)]
pub struct AccountState {
    pub key: [u8; 32],
    pub owner: [u8; 32],
    pub lamports: u64,
    pub data: Vec<u8>,
    pub is_signer: bool,
    pub is_writable: bool,
}

pub struct AccountModel {
    pub key: Seq<u8>,
    pub owner: Seq<u8>,
    pub lamports: u64,
    pub data: Seq<u8>,
    pub is_signer: bool,
    pub is_writable: bool,
}

impl View for AccountState {
    type V = AccountModel;

    open spec fn view(&self) -> AccountModel {
        AccountModel {
            key: self.key@,
            owner: self.owner@,
            lamports: self.lamports,
            data: self.data@,
            is_signer: self.is_signer,
            is_writable: self.is_writable,
        }
    }
}

/// A change to the accounts of an instruction; accounts are named by their
/// index in the instruction's account list.
#[derive(Clone, Debug, PartialEq, Eq)]
pub enum Action {
    /// The system program's `create_account`, signed for `account` with
    /// `seeds`: `payer` funds it with `lamports`, it gets `space` zero bytes
    /// and `owner` as its owner.
    CreateAccount {
        payer: usize,
        account: usize,
        lamports: u64,
        space: u64,
        owner: [u8; 32],
        seeds: Vec<Vec<u8>>,
    },
    /// The system program's `transfer`.
    Transfer { from: usize, to: usize, lamports: u64 },
    /// Lamports taken from one account and added to another by the program
    /// itself.
    MoveLamports { from: usize, to: usize, lamports: u64 },
    /// The account's data truncated or extended with zeros to `len` bytes.
    Resize { account: usize, len: usize },
    /// `bytes` written over the front of the account's data.
    WriteData { account: usize, bytes: Vec<u8> },
    /// Every byte of the account's data set to zero.
    ZeroData { account: usize },
}

pub enum ActionModel {
    CreateAccount {
        payer: int,
        account: int,
        lamports: u64,
        space: nat,
        owner: Seq<u8>,
        seeds: Seq<Seq<u8>>,
    },
    Transfer { from: int, to: int, lamports: u64 },
    MoveLamports { from: int, to: int, lamports: u64 },
    Resize { account: int, len: nat },
    WriteData { account: int, bytes: Seq<u8> },
    ZeroData { account: int },
}

impl View for Action {
    type V = ActionModel;

    open spec fn view(&self) -> ActionModel {
        match self {
            Action::CreateAccount { payer, account, lamports, space, owner, seeds } => {
                ActionModel::CreateAccount {
                    payer: *payer as int,
                    account: *account as int,
                    lamports: *lamports,
                    space: *space as nat,
                    owner: owner@,
                    seeds: seeds.deep_view(),
                }
            },
            Action::Transfer { from, to, lamports } => ActionModel::Transfer {
                from: *from as int,
                to: *to as int,
                lamports: *lamports,
            },
            Action::MoveLamports { from, to, lamports } => ActionModel::MoveLamports {
                from: *from as int,
                to: *to as int,
                lamports: *lamports,
            },
            Action::Resize { account, len } => ActionModel::Resize {
                account: *account as int,
                len: *len as nat,
            },
            Action::WriteData { account, bytes } => ActionModel::WriteData {
                account: *account as int,
                bytes: bytes@,
            },
            Action::ZeroData { account } => ActionModel::ZeroData { account: *account as int },
        }
    }
}

/// The views of a list of actions.
pub open spec fn actions_view(v: Seq<Action>) -> Seq<ActionModel> {
    v.map_values(|a: Action| a@)
}

/// `n` zero bytes.
pub open spec fn zeros(n: nat) -> Seq<u8> {
    Seq::new(n, |i: int| 0u8)
}

/// Data truncated or extended with zeros to `n` bytes.
pub open spec fn resized(d: Seq<u8>, n: nat) -> Seq<u8> {
    if n <= d.len() {
        d.take(n as int)
    } else {
        d + zeros((n - d.len()) as nat)
    }
}

pub open spec fn with_lamports(a: AccountModel, lamports: u64) -> AccountModel {
    AccountModel { lamports, ..a }
}

pub open spec fn with_data(a: AccountModel, data: Seq<u8>) -> AccountModel {
    AccountModel { data, ..a }
}

/// Lamports moved between two distinct accounts; `None` when the source
/// holds too few or the destination would overflow.
pub open spec fn move_lamports(s: Seq<AccountModel>, from: int, to: int, n: u64) -> Option<
    Seq<AccountModel>,
> {
    if 0 <= from < s.len() && 0 <= to < s.len() && from != to && n <= s[from].lamports
        && s[to].lamports + n <= u64::MAX {
        Some(
            s.update(from, with_lamports(s[from], (s[from].lamports - n) as u64)).update(
                to,
                with_lamports(s[to], (s[to].lamports + n) as u64),
            ),
        )
    } else {
        None
    }
}

/// An account that does not exist yet: no lamports, no data, and owned by
/// the system program. The system program creates only such accounts.
pub open spec fn is_fresh(a: AccountModel) -> bool {
    &&& a.lamports == 0
    &&& a.owner == system_program_id()
    &&& a.data.len() == 0
}

/// What one action does to the accounts; `None` where its conditions fail
/// (lamports, lengths, and for a creation an account that does not exist
/// yet).
pub open spec fn apply_action(s: Seq<AccountModel>, a: ActionModel) -> Option<Seq<AccountModel>> {
    match a {
        ActionModel::CreateAccount { payer, account, lamports, space, owner, seeds } => {
            if 0 <= payer < s.len() && 0 <= account < s.len() && payer != account && lamports
                <= s[payer].lamports && is_fresh(s[account]) {
                Some(
                    s.update(payer, with_lamports(s[payer], (s[payer].lamports - lamports) as u64)).update(
                        account,
                        AccountModel { lamports, owner, data: zeros(space), ..s[account] },
                    ),
                )
            } else {
                None
            }
        },
        ActionModel::Transfer { from, to, lamports } => move_lamports(s, from, to, lamports),
        ActionModel::MoveLamports { from, to, lamports } => move_lamports(s, from, to, lamports),
        ActionModel::Resize { account, len } => if 0 <= account < s.len() {
            Some(s.update(account, with_data(s[account], resized(s[account].data, len))))
        } else {
            None
        },
        ActionModel::WriteData { account, bytes } => if 0 <= account < s.len() && bytes.len()
            <= s[account].data.len() {
            Some(
                s.update(
                    account,
                    with_data(s[account], bytes + s[account].data.skip(bytes.len() as int)),
                ),
            )
        } else {
            None
        },
        ActionModel::ZeroData { account } => if 0 <= account < s.len() {
            Some(s.update(account, with_data(s[account], zeros(s[account].data.len()))))
        } else {
            None
        },
    }
}

/// What a list of actions, carried out in order, does to the accounts;
/// `None` when the conditions of one of them fail.
pub open spec fn apply_actions(s: Seq<AccountModel>, acts: Seq<ActionModel>) -> Option<
    Seq<AccountModel>,
>
    decreases acts.len(),
{
    if acts.len() == 0 {
        Some(s)
    } else {
        match apply_action(s, acts[0]) {
            Some(s2) => apply_actions(s2, acts.drop_first()),
            None => None,
        }
    }
}

/// The lamports held by all the accounts together.
pub open spec fn total_lamports(s: Seq<AccountModel>) -> int
    decreases s.len(),
{
    if s.len() == 0 {
        0
    } else {
        s[0].lamports + total_lamports(s.drop_first())
    }
}

/// Replacing one account changes the total by the difference of its lamports.
pub proof fn lemma_total_update(s: Seq<AccountModel>, i: int, a: AccountModel)
    requires
        0 <= i < s.len(),
    ensures
        total_lamports(s.update(i, a)) == total_lamports(s) - s[i].lamports + a.lamports,
    decreases s.len(),
{
    if i > 0 {
        lemma_total_update(s.drop_first(), i - 1, a);
        assert(s.update(i, a).drop_first() =~= s.drop_first().update(i - 1, a));
    } else {
        assert(s.update(i, a).drop_first() =~= s.drop_first());
    }
}

/// No action creates or destroys lamports: it only moves them.
pub proof fn lemma_action_conserves_lamports(s: Seq<AccountModel>, a: ActionModel)
    ensures
        apply_action(s, a) matches Some(s2) ==> total_lamports(s2) == total_lamports(s),
{
    match a {
        ActionModel::CreateAccount { payer, account, lamports, space, owner, seeds } => {
            if apply_action(s, a) is Some {
                let s1 = s.update(payer, with_lamports(s[payer], (s[payer].lamports - lamports) as u64));
                lemma_total_update(s, payer, with_lamports(s[payer], (s[payer].lamports - lamports) as u64));
                lemma_total_update(s1, account, AccountModel { lamports, owner, data: zeros(space), ..s1[account] });
            }
        },
        ActionModel::Transfer { from, to, lamports } => {
            lemma_move_conserves(s, from, to, lamports);
        },
        ActionModel::MoveLamports { from, to, lamports } => {
            lemma_move_conserves(s, from, to, lamports);
        },
        ActionModel::Resize { account, len } => {
            if apply_action(s, a) is Some {
                lemma_total_update(s, account, with_data(s[account], resized(s[account].data, len)));
            }
        },
        ActionModel::WriteData { account, bytes } => {
            if apply_action(s, a) is Some {
                lemma_total_update(
                    s,
                    account,
                    with_data(s[account], bytes + s[account].data.skip(bytes.len() as int)),
                );
            }
        },
        ActionModel::ZeroData { account } => {
            if apply_action(s, a) is Some {
                lemma_total_update(s, account, with_data(s[account], zeros(s[account].data.len())));
            }
        },
    }
}

proof fn lemma_move_conserves(s: Seq<AccountModel>, from: int, to: int, n: u64)
    ensures
        move_lamports(s, from, to, n) matches Some(s2) ==> total_lamports(s2) == total_lamports(s),
{
    if move_lamports(s, from, to, n) is Some {
        let s1 = s.update(from, with_lamports(s[from], (s[from].lamports - n) as u64));
        lemma_total_update(s, from, with_lamports(s[from], (s[from].lamports - n) as u64));
        lemma_total_update(s1, to, with_lamports(s1[to], (s1[to].lamports + n) as u64));
    }
}

/// Whatever list of actions the program answers with, carrying it out
/// leaves the total of lamports over the instruction's accounts unchanged.
pub proof fn lemma_actions_conserve_lamports(s: Seq<AccountModel>, acts: Seq<ActionModel>)
    ensures
        apply_actions(s, acts) matches Some(s2) ==> total_lamports(s2) == total_lamports(s),
    decreases acts.len(),
{
    if acts.len() > 0 {
        lemma_action_conserves_lamports(s, acts[0]);
        if let Some(s1) = apply_action(s, acts[0]) {
            lemma_actions_conserve_lamports(s1, acts.drop_first());
        }
    }
}

/// Lamports leave accounts only in the two ways the runtime allows: every
/// `Transfer` (a system-program transfer, which only a system account
/// without data can make) takes them from the owner, index 0, who pays; and
/// every `MoveLamports` (made by the program itself, which may only debit
/// an account it owns) takes them from an account that `program_id` owns.
pub open spec fn lamport_sources_ok(
    plan: Seq<ActionModel>,
    program_id: Seq<u8>,
    a: Seq<AccountModel>,
) -> bool {
    forall|i: int|
        0 <= i < plan.len() ==> match #[trigger] plan[i] {
            ActionModel::Transfer { from, to, lamports } => from == 0 && to != 0,
            ActionModel::MoveLamports { from, to, lamports } => 0 <= from < a.len() && a[from].owner
                == program_id,
            _ => true,
        }
}

/// Carrying out `x + y` is carrying out `x`, then `y`.
pub proof fn lemma_apply_concat(s: Seq<AccountModel>, x: Seq<ActionModel>, y: Seq<ActionModel>)
    ensures
        apply_actions(s, x + y) == match apply_actions(s, x) {
            Some(s2) => apply_actions(s2, y),
            None => None,
        },
    decreases x.len(),
{
    if x.len() == 0 {
        assert(x + y =~= y);
    } else {
        assert((x + y)[0] == x[0]);
        assert((x + y).drop_first() =~= x.drop_first() + y);
        if let Some(s1) = apply_action(s, x[0]) {
            lemma_apply_concat(s1, x.drop_first(), y);
        }
    }
}

/// Carrying out one action.
pub proof fn lemma_apply_one(s: Seq<AccountModel>, a: ActionModel)
    ensures
        apply_actions(s, seq![a]) == apply_action(s, a),
{
    assert(seq![a].drop_first() =~= Seq::<ActionModel>::empty());
    assert(seq![a][0] == a);
    if let Some(s1) = apply_action(s, a) {
        assert(apply_actions(s1, Seq::<ActionModel>::empty()) == Some(s1));
    }
}

/// The key of the system program: 32 zero bytes.
pub open spec fn system_program_id() -> Seq<u8> {
    zeros(32)
}

/// Whether `k` is the system program's key.
pub fn is_system_program(k: &[u8; 32]) -> (r: bool)
    ensures
        r == (k@ == system_program_id()),
{
    let mut i: usize = 0;
    while i < 32
        invariant
            i <= 32,
            k@.len() == 32,
            forall|j: int| 0 <= j < i ==> k@[j] == 0u8,
        decreases 32 - i,
    {
        if k[i] != 0 {
            assert(k@[i as int] != system_program_id()[i as int]);
            return false;
        }
        i = i + 1;
    }
    assert(k@ =~= system_program_id());
    true
}

/// Compares two keys.
pub fn keys_equal(a: &[u8; 32], b: &[u8; 32]) -> (r: bool)
    ensures
        r == (a@ == b@),
{
    let mut i: usize = 0;
    while i < 32
        invariant
            i <= 32,
            a@.len() == 32,
            b@.len() == 32,
            forall|j: int| 0 <= j < i ==> a@[j] == b@[j],
        decreases 32 - i,
    {
        if a[i] != b[i] {
            return false;
        }
        i = i + 1;
    }
    assert(a@ =~= b@);
    true
}

} // verus!
