//! The GCRED token program: role-checked minting and burning, and purchases
//! and transfers whose amount is split between the recipient, the MD and DAO
//! accounts, and a burn.
use vstd::prelude::*;
use vstd::string::StringSliceAdditionalSpecFns;
use crate::pubkey::{Pubkey, is_zero_key};
use crate::amount::{parse_amount, is_amount_text, amount_value};

verus! {

/// The program's account.
#[derive(Clone, Copy, Debug, PartialEq, Eq)]
pub struct BaseAccount {
    pub default_admin_role: Pubkey,
    pub owner_role: Pubkey,
    pub bridge_role: Pubkey,
    pub staking_role: Pubkey,
    pub md_account: Pubkey,
    pub dao_account: Pubkey,
    pub staking_reward: Pubkey,
    pub paused: bool,
}

/// The program's errors.
#[derive(Clone, Copy, Debug, PartialEq, Eq, Structural)]
pub enum ErrorCode {
    NotOwnerAccount,
    NotStakingRoleAccount,
    NotBridgeRoleAccount,
    FailTransferToMDAddress,
    FailTransferToDAOAddress,
    FailTransferToTargetAddress,
    FailBurn,
    ContractPaused,
    NotMDAccount,
    NotDAOAccount,
}

/// Emitted when a role address changes.
#[derive(Clone, Copy, Debug, PartialEq, Eq)]
pub struct StakingRewardUpdated {
    pub staking_reward: Pubkey,
}

/// Emitted when the MD account changes.
#[derive(Clone, Copy, Debug, PartialEq, Eq)]
pub struct MNAddressUpdated {
    pub md_address: Pubkey,
}

/// Emitted when the DAO account changes.
#[derive(Clone, Copy, Debug, PartialEq, Eq)]
pub struct DAOAddressUpdated {
    pub dao_address: Pubkey,
}

/// The account of an instruction that a transfer credits.
#[derive(Clone, Copy, Debug, PartialEq, Eq, Structural)]
pub enum Recipient {
    /// `md_account` of a purchase (checked to be the program's MD account).
    MdAccount,
    /// `dao_account` of a purchase (checked to be the program's DAO account).
    DaoAccount,
    /// `to` of a transfer.
    To,
    /// `md` of a transfer.
    Md,
}

/// A token-program operation on the payer's (`from`) token account.
#[derive(Clone, Copy, Debug, PartialEq, Eq, Structural)]
pub enum TokenOp {
    /// Moves `amount` from `from` to the recipient.
    Transfer { to: Recipient, amount: u64 },
    /// Burns `amount` from `from`.
    Burn { amount: u64 },
}

/// One operation of an instruction and the error the instruction answers
/// when it fails; `None` hands the token program's own error back.
#[derive(Clone, Copy, Debug, PartialEq, Eq, Structural)]
pub struct TokenStep {
    pub op: TokenOp,
    pub on_failure: Option<ErrorCode>,
}

/// Where the run of an instruction's token operations stands.
#[derive(Clone, Copy, Debug, PartialEq, Eq, Structural)]
pub enum Progress {
    /// Perform the operation at this position next.
    Perform(usize),
    /// Every operation succeeded: the instruction succeeds.
    Finished,
    /// An operation failed and nothing more is performed: the instruction
    /// answers this error, or the token program's own error for `None`.
    Failed(Option<ErrorCode>),
}

/// Where a run of `steps` begins.
pub fn start(steps: &Vec<TokenStep>) -> (r: Progress)
    ensures
        r == if steps@.len() == 0 {
            Progress::Finished
        } else {
            Progress::Perform(0)
        },
{
    if steps.len() == 0 {
        Progress::Finished
    } else {
        Progress::Perform(0)
    }
}

/// Where a run of `steps` goes once the operation at `i` has been performed:
/// a failure stops the run with that operation's error, a success moves on
/// to the next operation or finishes after the last.
pub fn after_step(steps: &Vec<TokenStep>, i: usize, succeeded: bool) -> (r: Progress)
    requires
        i < steps@.len(),
    ensures
        r == if !succeeded {
            Progress::Failed(steps@[i as int].on_failure)
        } else if i + 1 < steps@.len() {
            Progress::Perform((i + 1) as usize)
        } else {
            Progress::Finished
        },
{
    if !succeeded {
        Progress::Failed(steps[i].on_failure)
    } else if i < steps.len() - 1 {
        Progress::Perform(i + 1)
    } else {
        Progress::Finished
    }
}

// ---------------------------------------------------------------------------
// Refusals
// ---------------------------------------------------------------------------

/// What an instruction answers given its refusal: the error, or `ok` when
/// nothing refuses it.
pub open spec fn gated<T>(refusal: Option<ErrorCode>, ok: T) -> Result<T, ErrorCode> {
    match refusal {
        Some(e) => Err(e),
        None => Ok(ok),
    }
}

/// Refusal of an owner-only instruction that is also stopped by the pause.
pub open spec fn owner_gate(base: BaseAccount, user: Pubkey) -> Option<ErrorCode> {
    if base.paused {
        Some(ErrorCode::ContractPaused)
    } else if base.owner_role != user {
        Some(ErrorCode::NotOwnerAccount)
    } else {
        None
    }
}

/// Refusal of a mint or burn reserved to `role`, answering `not_role` to anyone else.
pub open spec fn role_gate(
    base: BaseAccount,
    role: Pubkey,
    authority: Pubkey,
    not_role: ErrorCode,
) -> Option<ErrorCode> {
    if base.paused {
        Some(ErrorCode::ContractPaused)
    } else if role != authority {
        Some(not_role)
    } else {
        None
    }
}

/// Refusal of a purchase: the MD and DAO accounts are checked first, then the pause.
pub open spec fn purchase_gate(base: BaseAccount, md_account: Pubkey, dao_account: Pubkey) -> Option<
    ErrorCode,
> {
    if base.md_account != md_account {
        Some(ErrorCode::NotMDAccount)
    } else if base.dao_account != dao_account {
        Some(ErrorCode::NotDAOAccount)
    } else if base.paused {
        Some(ErrorCode::ContractPaused)
    } else {
        None
    }
}

/// Refusal of a transfer.
pub open spec fn transfer_gate(base: BaseAccount) -> Option<ErrorCode> {
    if base.paused {
        Some(ErrorCode::ContractPaused)
    } else {
        None
    }
}

/// A paused program refuses every instruction except `pause` and `unpause`
/// with `ContractPaused`, whoever calls it and with whatever accounts (a
/// purchase naming the program's own MD and DAO accounts); a refused
/// instruction leaves the account as it was, so only `unpause` ends the pause.
pub proof fn law_paused_refuses(
    base: BaseAccount,
    user: Pubkey,
    authority: Pubkey,
    role: Pubkey,
    not_role: ErrorCode,
)
    requires
        base.paused,
    ensures
        owner_gate(base, user) == Some(ErrorCode::ContractPaused),
        role_gate(base, role, authority, not_role) == Some(ErrorCode::ContractPaused),
        purchase_gate(base, base.md_account, base.dao_account) == Some(ErrorCode::ContractPaused),
        transfer_gate(base) == Some(ErrorCode::ContractPaused),
{
}

// ---------------------------------------------------------------------------
// Shares
// ---------------------------------------------------------------------------

/// Share of a purchase that goes to the MD account: 25%, rounded down.
pub open spec fn purchase_md_share(v: int) -> int {
    25 * v / 100
}

/// Share of a purchase that goes to the DAO account: 5%, rounded down.
pub open spec fn purchase_dao_share(v: int) -> int {
    5 * v / 100
}

/// Share of a purchase that is burnt: 70%, rounded down.
pub open spec fn purchase_burn_share(v: int) -> int {
    70 * v / 100
}

/// Fee of a transfer that goes to the MD account: 2%, rounded down.
pub open spec fn transfer_md_fee(v: int) -> int {
    2 * v / 100
}

/// Fee of a transfer that is burnt: 3%, rounded down.
pub open spec fn transfer_burn_fee(v: int) -> int {
    3 * v / 100
}

/// The operations of an accepted purchase of `v`.
pub open spec fn purchase_steps(v: int) -> Seq<TokenStep> {
    seq![
        TokenStep {
            op: TokenOp::Transfer { to: Recipient::MdAccount, amount: purchase_md_share(v) as u64 },
            on_failure: Some(ErrorCode::FailTransferToMDAddress),
        },
        TokenStep {
            op: TokenOp::Transfer { to: Recipient::DaoAccount, amount: purchase_dao_share(v) as u64 },
            on_failure: Some(ErrorCode::FailTransferToDAOAddress),
        },
        TokenStep {
            op: TokenOp::Burn { amount: purchase_burn_share(v) as u64 },
            on_failure: Some(ErrorCode::FailBurn),
        },
    ]
}

/// The operations of an accepted transfer of `v` to `to`.
pub open spec fn transfer_steps(base: BaseAccount, to: Pubkey, v: int) -> Seq<TokenStep> {
    if base.md_account == to || base.dao_account == to {
        seq![TokenStep { op: TokenOp::Transfer { to: Recipient::To, amount: v as u64 }, on_failure: None }]
    } else {
        seq![
            TokenStep {
                op: TokenOp::Transfer {
                    to: Recipient::To,
                    amount: (v - transfer_md_fee(v) - transfer_burn_fee(v)) as u64,
                },
                on_failure: Some(ErrorCode::FailTransferToTargetAddress),
            },
            TokenStep {
                op: TokenOp::Transfer { to: Recipient::Md, amount: transfer_md_fee(v) as u64 },
                on_failure: Some(ErrorCode::FailTransferToMDAddress),
            },
            TokenStep {
                op: TokenOp::Burn { amount: transfer_burn_fee(v) as u64 },
                on_failure: Some(ErrorCode::FailBurn),
            },
        ]
    }
}

/// The amount that an operation takes from the payer.
pub open spec fn debit(step: TokenStep) -> int {
    match step.op {
        TokenOp::Transfer { amount, .. } => amount as int,
        TokenOp::Burn { amount } => amount as int,
    }
}

/// The amount that a list of operations takes from the payer.
pub open spec fn total_debit(steps: Seq<TokenStep>) -> int
    decreases steps.len(),
{
    if steps.len() == 0 {
        0
    } else {
        total_debit(steps.drop_last()) + debit(steps.last())
    }
}

/// The amount taken by one operation.
pub proof fn lemma_total_debit_one(a: TokenStep)
    ensures
        total_debit(seq![a]) == debit(a),
{
    assert(seq![a].drop_last() =~= Seq::<TokenStep>::empty());
    assert(seq![a].last() == a);
    assert(total_debit(Seq::<TokenStep>::empty()) == 0);
    assert(total_debit(seq![a]) == total_debit(seq![a].drop_last()) + debit(seq![a].last()));
}

/// The amount taken by three operations.
pub proof fn lemma_total_debit_three(a: TokenStep, b: TokenStep, c: TokenStep)
    ensures
        total_debit(seq![a, b, c]) == debit(a) + debit(b) + debit(c),
{
    let s = seq![a, b, c];
    assert(s.drop_last() =~= seq![a, b]);
    assert(seq![a, b].drop_last() =~= seq![a]);
    lemma_total_debit_one(a);
    assert(total_debit(seq![a, b]) == total_debit(seq![a]) + debit(b));
    assert(total_debit(s) == total_debit(seq![a, b]) + debit(c));
}

/// The three shares of a purchase add up to the price, less at most two
/// units lost to rounding.
pub proof fn lemma_purchase_shares(v: int)
    requires
        v >= 0,
    ensures
        0 <= purchase_md_share(v) + purchase_dao_share(v) + purchase_burn_share(v) <= v,
        v - (purchase_md_share(v) + purchase_dao_share(v) + purchase_burn_share(v)) <= 2,
{
    let a = purchase_md_share(v);
    let b = purchase_dao_share(v);
    let c = purchase_burn_share(v);
    assert(100 * a <= 25 * v < 100 * a + 100);
    assert(100 * b <= 5 * v < 100 * b + 100);
    assert(100 * c <= 70 * v < 100 * c + 100);
}

/// How a purchase of `v` is split, in order: 25% to the MD account, 5% to
/// the DAO account, 70% burnt, each rounded down; a failed leg answers
/// `FailTransferToMDAddress`, `FailTransferToDAOAddress` or `FailBurn`.
pub proof fn law_purchase_split(v: int)
    requires
        0 <= v,
        70 * v <= u64::MAX,
    ensures
        purchase_steps(v).len() == 3,
        purchase_steps(v)[0].op matches TokenOp::Transfer { to, amount } && to
            == Recipient::MdAccount && 100 * amount <= 25 * v && 25 * v < 100 * amount + 100,
        purchase_steps(v)[1].op matches TokenOp::Transfer { to, amount } && to
            == Recipient::DaoAccount && 100 * amount <= 5 * v && 5 * v < 100 * amount + 100,
        purchase_steps(v)[2].op matches TokenOp::Burn { amount } && 100 * amount <= 70 * v && 70
            * v < 100 * amount + 100,
        purchase_steps(v)[0].on_failure == Some(ErrorCode::FailTransferToMDAddress),
        purchase_steps(v)[1].on_failure == Some(ErrorCode::FailTransferToDAOAddress),
        purchase_steps(v)[2].on_failure == Some(ErrorCode::FailBurn),
{
}

/// How a transfer of `v` to `to` is split. To the MD or DAO account, one
/// transfer of the whole amount whose failure is the token program's own.
/// To anyone else, in order: `to` receives the rest after the fees, the
/// `md` account 2% and 3% is burnt (fees rounded down), the three adding up
/// to `v`; a failed leg answers `FailTransferToTargetAddress`,
/// `FailTransferToMDAddress` or `FailBurn`.
pub proof fn law_transfer_split(base: BaseAccount, to: Pubkey, v: int)
    requires
        0 <= v,
        3 * v <= u64::MAX,
    ensures
        base.md_account == to || base.dao_account == to ==> transfer_steps(base, to, v) == seq![
            TokenStep {
                op: TokenOp::Transfer { to: Recipient::To, amount: v as u64 },
                on_failure: None,
            },
        ],
        base.md_account != to && base.dao_account != to ==> {
            let s = transfer_steps(base, to, v);
            &&& s.len() == 3
            &&& match (s[0].op, s[1].op, s[2].op) {
                (
                    TokenOp::Transfer { to: r0, amount: rest },
                    TokenOp::Transfer { to: r1, amount: md },
                    TokenOp::Burn { amount: burnt },
                ) => {
                    &&& r0 == Recipient::To
                    &&& r1 == Recipient::Md
                    &&& 100 * md <= 2 * v < 100 * md + 100
                    &&& 100 * burnt <= 3 * v < 100 * burnt + 100
                    &&& rest + md + burnt == v
                },
                _ => false,
            }
            &&& s[0].on_failure == Some(ErrorCode::FailTransferToTargetAddress)
            &&& s[1].on_failure == Some(ErrorCode::FailTransferToMDAddress)
            &&& s[2].on_failure == Some(ErrorCode::FailBurn)
        },
{
}

/// Creates the program's account: `user` holds the admin and owner roles,
/// the MD and DAO accounts are as given, and the program starts paused.
pub fn initialize(user: Pubkey, md_account: Pubkey, dao_account: Pubkey) -> (r: BaseAccount)
    ensures
        r.default_admin_role == user,
        r.owner_role == user,
        r.md_account == md_account,
        r.dao_account == dao_account,
        is_zero_key(r.bridge_role),
        is_zero_key(r.staking_role),
        is_zero_key(r.staking_reward),
        r.paused,
{
    BaseAccount {
        default_admin_role: user,
        owner_role: user,
        bridge_role: Pubkey::zeroed(),
        staking_role: Pubkey::zeroed(),
        md_account,
        dao_account,
        staking_reward: Pubkey::zeroed(),
        paused: true,
    }
}

/// Buys an item for `amount` (decimal text) GCRED: 25% to the MD account,
/// 5% to the DAO account, 70% burnt, in that order.
///
/// The instruction's `md_account` and `dao_account` must be the program's;
/// refused while paused. The caller runs the returned operations with
/// `start` and `after_step`.
pub fn proxy_buy_item(base: &BaseAccount, md_account: Pubkey, dao_account: Pubkey, amount: &str) -> (r:
    Result<Vec<TokenStep>, ErrorCode>)
    requires
        base.md_account == md_account && base.dao_account == dao_account && !base.paused ==> {
            &&& is_amount_text(amount.spec_bytes())
            &&& 70 * amount_value(amount.spec_bytes()) <= u64::MAX
        },
    ensures
        purchase_gate(*base, md_account, dao_account) matches Some(e) ==> r == Err::<
            Vec<TokenStep>,
            ErrorCode,
        >(e),
        purchase_gate(*base, md_account, dao_account) is None ==> r is Ok,
        r matches Ok(steps) ==> {
            &&& steps@ == purchase_steps(amount_value(amount.spec_bytes()))
            &&& total_debit(steps@) <= amount_value(amount.spec_bytes()) <= total_debit(steps@)
                + 2
        },
{
    if base.md_account != md_account {
        return Err(ErrorCode::NotMDAccount);
    }
    if base.dao_account != dao_account {
        return Err(ErrorCode::NotDAOAccount);
    }
    if base.paused {
        return Err(ErrorCode::ContractPaused);
    }
    let amount: u64 = parse_amount(amount).unwrap();
    let burn_amount = 70 * amount / 100;
    let md_amount = 25 * amount / 100;
    let dao_amount = 5 * amount / 100;
    let mut steps: Vec<TokenStep> = Vec::new();
    steps.push(
        TokenStep {
            op: TokenOp::Transfer { to: Recipient::MdAccount, amount: md_amount },
            on_failure: Some(ErrorCode::FailTransferToMDAddress),
        },
    );
    steps.push(
        TokenStep {
            op: TokenOp::Transfer { to: Recipient::DaoAccount, amount: dao_amount },
            on_failure: Some(ErrorCode::FailTransferToDAOAddress),
        },
    );
    steps.push(
        TokenStep {
            op: TokenOp::Burn { amount: burn_amount },
            on_failure: Some(ErrorCode::FailBurn),
        },
    );
    proof {
        let v = amount as int;
        assert(steps@ =~= purchase_steps(v));
        lemma_purchase_shares(v);
        lemma_total_debit_three(steps@[0], steps@[1], steps@[2]);
        assert(steps@ =~= seq![steps@[0], steps@[1], steps@[2]]);
    }
    Ok(steps)
}

/// Mints `amount` (decimal text) to the instruction's `to`, for the owner.
///
/// Answers the amount that the caller then mints through the token program,
/// whose result is the instruction's.
pub fn proxy_mint(base: &BaseAccount, authority: Pubkey, amount: &str) -> (r: Result<u64, ErrorCode>)
    requires
        is_amount_text(amount.spec_bytes()),
    ensures
        r == gated(
            role_gate(*base, base.owner_role, authority, ErrorCode::NotOwnerAccount),
            amount_value(amount.spec_bytes()) as u64,
        ),
{
    let amount: u64 = parse_amount(amount).unwrap();
    if base.paused {
        return Err(ErrorCode::ContractPaused);
    }
    if base.owner_role != authority {
        return Err(ErrorCode::NotOwnerAccount);
    }
    Ok(amount)
}

/// Mints `amount` (decimal text) as a staking reward, for the staking-reward role.
pub fn proxy_mint_for_reward(base: &BaseAccount, authority: Pubkey, amount: &str) -> (r: Result<
    u64,
    ErrorCode,
>)
    requires
        is_amount_text(amount.spec_bytes()),
    ensures
        r == gated(
            role_gate(*base, base.staking_reward, authority, ErrorCode::NotStakingRoleAccount),
            amount_value(amount.spec_bytes()) as u64,
        ),
{
    let amount: u64 = parse_amount(amount).unwrap();
    if base.paused {
        return Err(ErrorCode::ContractPaused);
    }
    if base.staking_reward != authority {
        return Err(ErrorCode::NotStakingRoleAccount);
    }
    Ok(amount)
}

/// Mints `amount` (decimal text) for the bridge role.
pub fn proxy_bridge_mint(base: &BaseAccount, authority: Pubkey, amount: &str) -> (r: Result<
    u64,
    ErrorCode,
>)
    requires
        is_amount_text(amount.spec_bytes()),
    ensures
        r == gated(
            role_gate(*base, base.bridge_role, authority, ErrorCode::NotBridgeRoleAccount),
            amount_value(amount.spec_bytes()) as u64,
        ),
{
    let amount: u64 = parse_amount(amount).unwrap();
    if base.paused {
        return Err(ErrorCode::ContractPaused);
    }
    if base.bridge_role != authority {
        return Err(ErrorCode::NotBridgeRoleAccount);
    }
    Ok(amount)
}

/// Burns `amount` (decimal text) from the instruction's `to`, for the bridge role.
pub fn proxy_bridge_burn(base: &BaseAccount, authority: Pubkey, amount: &str) -> (r: Result<
    u64,
    ErrorCode,
>)
    requires
        is_amount_text(amount.spec_bytes()),
    ensures
        r == gated(
            role_gate(*base, base.bridge_role, authority, ErrorCode::NotBridgeRoleAccount),
            amount_value(amount.spec_bytes()) as u64,
        ),
{
    let amount: u64 = parse_amount(amount).unwrap();
    if base.paused {
        return Err(ErrorCode::ContractPaused);
    }
    if base.bridge_role != authority {
        return Err(ErrorCode::NotBridgeRoleAccount);
    }
    Ok(amount)
}

/// Sets the bridge role (`update_type` 1) or the staking-reward role (any
/// other type); only the owner may, and not while paused.
pub fn update_role(
    base: &mut BaseAccount,
    user: Pubkey,
    update_role_address: Pubkey,
    update_type: i32,
) -> (r: Result<StakingRewardUpdated, ErrorCode>)
    ensures
        r == gated(owner_gate(*old(base), user), StakingRewardUpdated { staking_reward: update_role_address }),
        r is Err ==> *final(base) == *old(base),
        r is Ok && update_type == 1 ==> *final(base) == (BaseAccount {
            bridge_role: update_role_address,
            ..*old(base)
        }),
        r is Ok && update_type != 1 ==> *final(base) == (BaseAccount {
            staking_reward: update_role_address,
            ..*old(base)
        }),
{
    if base.paused {
        return Err(ErrorCode::ContractPaused);
    }
    if base.owner_role != user {
        return Err(ErrorCode::NotOwnerAccount);
    }
    if update_type == 1 {
        base.bridge_role = update_role_address;
    } else {
        base.staking_reward = update_role_address;
    }
    Ok(StakingRewardUpdated { staking_reward: update_role_address })
}

/// Sets the MD account; only the owner may, and not while paused.
pub fn update_md_account(base: &mut BaseAccount, user: Pubkey, md_account: Pubkey) -> (r: Result<
    MNAddressUpdated,
    ErrorCode,
>)
    ensures
        r == gated(owner_gate(*old(base), user), MNAddressUpdated { md_address: md_account }),
        r is Err ==> *final(base) == *old(base),
        r is Ok ==> *final(base) == (BaseAccount { md_account, ..*old(base) }),
{
    if base.paused {
        return Err(ErrorCode::ContractPaused);
    }
    if base.owner_role != user {
        return Err(ErrorCode::NotOwnerAccount);
    }
    base.md_account = md_account;
    Ok(MNAddressUpdated { md_address: md_account })
}

/// Sets the DAO account; only the owner may, and not while paused.
pub fn update_dao_account(base: &mut BaseAccount, user: Pubkey, dao_account: Pubkey) -> (r: Result<
    DAOAddressUpdated,
    ErrorCode,
>)
    ensures
        r == gated(owner_gate(*old(base), user), DAOAddressUpdated { dao_address: dao_account }),
        r is Err ==> *final(base) == *old(base),
        r is Ok ==> *final(base) == (BaseAccount { dao_account, ..*old(base) }),
{
    if base.paused {
        return Err(ErrorCode::ContractPaused);
    }
    if base.owner_role != user {
        return Err(ErrorCode::NotOwnerAccount);
    }
    base.dao_account = dao_account;
    Ok(DAOAddressUpdated { dao_address: dao_account })
}

/// Pauses the program; only the owner may.
pub fn pause(base: &mut BaseAccount, user: Pubkey) -> (r: Result<(), ErrorCode>)
    ensures
        r == if old(base).owner_role == user {
            Ok::<(), ErrorCode>(())
        } else {
            Err(ErrorCode::NotOwnerAccount)
        },
        r is Ok ==> *final(base) == (BaseAccount { paused: true, ..*old(base) }),
        r is Err ==> *final(base) == *old(base),
{
    if base.owner_role != user {
        return Err(ErrorCode::NotOwnerAccount);
    }
    base.paused = true;
    Ok(())
}

/// Unpauses the program; only the owner may.
pub fn unpause(base: &mut BaseAccount, user: Pubkey) -> (r: Result<(), ErrorCode>)
    ensures
        r == if old(base).owner_role == user {
            Ok::<(), ErrorCode>(())
        } else {
            Err(ErrorCode::NotOwnerAccount)
        },
        r is Ok ==> *final(base) == (BaseAccount { paused: false, ..*old(base) }),
        r is Err ==> *final(base) == *old(base),
{
    if base.owner_role != user {
        return Err(ErrorCode::NotOwnerAccount);
    }
    base.paused = false;
    Ok(())
}

/// Transfers `amount` (decimal text) GCRED to `to`.
///
/// To the MD or DAO account the whole amount moves. To anyone else, 2% goes
/// to the instruction's `md` account and 3% is burnt (both rounded down),
/// and `to` receives the rest. Refused while paused. The caller runs the
/// returned operations with `start` and `after_step`: a failed transfer to
/// `to` answers `FailTransferToTargetAddress`, one to `md`
/// `FailTransferToMDAddress`, a failed burn `FailBurn`, and the single
/// transfer to the MD or DAO account the token program's own error.
pub fn proxy_transfer(base: &BaseAccount, to: Pubkey, amount: &str) -> (r: Result<
    Vec<TokenStep>,
    ErrorCode,
>)
    requires
        is_amount_text(amount.spec_bytes()),
        !base.paused && base.md_account != to && base.dao_account != to ==> 3 * amount_value(
            amount.spec_bytes(),
        ) <= u64::MAX,
    ensures
        transfer_gate(*base) matches Some(e) ==> r == Err::<Vec<TokenStep>, ErrorCode>(e),
        transfer_gate(*base) is None ==> r is Ok,
        r matches Ok(steps) ==> {
            &&& steps@ == transfer_steps(*base, to, amount_value(amount.spec_bytes()))
            &&& total_debit(steps@) == amount_value(amount.spec_bytes())
        },
{
    let amount: u64 = parse_amount(amount).unwrap();
    if base.paused {
        return Err(ErrorCode::ContractPaused);
    }
    let mut steps: Vec<TokenStep> = Vec::new();
    if base.md_account == to || base.dao_account == to {
        steps.push(
            TokenStep { op: TokenOp::Transfer { to: Recipient::To, amount }, on_failure: None },
        );
        proof {
            assert(steps@ =~= transfer_steps(*base, to, amount as int));
            lemma_total_debit_one(steps@[0]);
            assert(steps@ =~= seq![steps@[0]]);
        }
    } else {
        let md_amount = 2 * amount / 100;
        let burn_amount = 3 * amount / 100;
        let transfer_amount = amount - md_amount - burn_amount;
        steps.push(
            TokenStep {
                op: TokenOp::Transfer { to: Recipient::To, amount: transfer_amount },
                on_failure: Some(ErrorCode::FailTransferToTargetAddress),
            },
        );
        steps.push(
            TokenStep {
                op: TokenOp::Transfer { to: Recipient::Md, amount: md_amount },
                on_failure: Some(ErrorCode::FailTransferToMDAddress),
            },
        );
        steps.push(
            TokenStep {
                op: TokenOp::Burn { amount: burn_amount },
                on_failure: Some(ErrorCode::FailBurn),
            },
        );
        proof {
            assert(steps@ =~= transfer_steps(*base, to, amount as int));
            lemma_total_debit_three(steps@[0], steps@[1], steps@[2]);
            assert(steps@ =~= seq![steps@[0], steps@[1], steps@[2]]);
        }
    }
    Ok(steps)
}

} // verus!
