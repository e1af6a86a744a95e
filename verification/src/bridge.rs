//! The bridge program: its owner mints or burns EXO or GCRED on behalf of
//! transfers to and from another chain, through the token programs' bridge
//! instructions.
use vstd::prelude::*;
use vstd::string::StringSliceAdditionalSpecFns;
use crate::pubkey::Pubkey;
use crate::amount::{parse_amount, is_amount_text, amount_value};

verus! {

/// The program's account.
#[derive(Clone, Copy, Debug, PartialEq, Eq)]
pub struct BaseAccount {
    pub owner_role: Pubkey,
    pub exo_mint: Pubkey,
    pub gcred_mint: Pubkey,
    pub paused: bool,
}

/// The program's errors.
#[derive(Clone, Copy, Debug, PartialEq, Eq, Structural)]
pub enum ErrorCode {
    NotOwnerRole,
    ContractPaused,
    NotCorrectTokenAddress,
}

/// Direction of a bridge transfer.
#[derive(Clone, Copy, Debug, PartialEq, Eq, Structural)]
pub enum Step {
    Burn,
    Mint,
}

/// Emitted for every bridge transfer.
#[derive(Clone, Debug, PartialEq, Eq)]
pub struct Transfer {
    pub from: Pubkey,
    pub to: Pubkey,
    pub target: String,
    pub amount: u64,
    pub step: Step,
}

/// The token program that a bridge transfer goes through.
#[derive(Clone, Copy, Debug, PartialEq, Eq, Structural)]
pub enum BridgedToken {
    Exo,
    Gcred,
}

/// An accepted bridge transfer: the caller emits `event`, then calls the
/// bridge instruction of `token`'s program with the same amount text, whose
/// result is the instruction's.
#[derive(Clone, Debug, PartialEq, Eq)]
pub struct BridgeRequest {
    pub token: BridgedToken,
    pub event: Transfer,
}

/// Whether the bridge accepts a transfer of `mint` by `authority`.
pub open spec fn bridge_accepts(base: BaseAccount, authority: Pubkey, mint: Pubkey) -> bool {
    !base.paused && base.owner_role == authority && (mint == base.exo_mint || mint
        == base.gcred_mint)
}

/// The token program that handles `mint` (EXO first if both mints are equal).
pub open spec fn bridged_token(base: BaseAccount, mint: Pubkey) -> BridgedToken {
    if mint == base.exo_mint {
        BridgedToken::Exo
    } else {
        BridgedToken::Gcred
    }
}

/// Creates the program's account: `user` is the owner, the two mints are
/// as given, not paused.
pub fn initialize(user: Pubkey, exo_mint: Pubkey, gcred_mint: Pubkey) -> (r: BaseAccount)
    ensures
        r == (BaseAccount { owner_role: user, exo_mint, gcred_mint, paused: false }),
{
    BaseAccount { owner_role: user, exo_mint, gcred_mint, paused: false }
}

/// The checks and routing shared by bridge mints and burns.
fn route(
    base: &BaseAccount,
    authority: Pubkey,
    mint: Pubkey,
    to: Pubkey,
    amount: &str,
    target: String,
    step: Step,
) -> (r: Result<BridgeRequest, ErrorCode>)
    requires
        bridge_accepts(*base, authority, mint) ==> is_amount_text(amount.spec_bytes()),
    ensures
        base.paused ==> r == Err::<BridgeRequest, ErrorCode>(ErrorCode::ContractPaused),
        !base.paused && base.owner_role != authority ==> r == Err::<BridgeRequest, ErrorCode>(
            ErrorCode::NotOwnerRole,
        ),
        !base.paused && base.owner_role == authority && mint != base.exo_mint && mint
            != base.gcred_mint ==> r == Err::<BridgeRequest, ErrorCode>(
            ErrorCode::NotCorrectTokenAddress,
        ),
        bridge_accepts(*base, authority, mint) ==> r is Ok,
        r matches Ok(req) ==> {
            &&& req.token == bridged_token(*base, mint)
            &&& req.event.from == authority
            &&& req.event.to == to
            &&& req.event.target@ == target@
            &&& req.event.amount == amount_value(amount.spec_bytes())
            &&& req.event.step == step
        },
{
    if base.paused {
        return Err(ErrorCode::ContractPaused);
    }
    if base.owner_role != authority {
        return Err(ErrorCode::NotOwnerRole);
    }
    let token = if mint == base.exo_mint {
        BridgedToken::Exo
    } else if mint == base.gcred_mint {
        BridgedToken::Gcred
    } else {
        return Err(ErrorCode::NotCorrectTokenAddress);
    };
    let value: u64 = parse_amount(amount).unwrap();
    Ok(BridgeRequest { token, event: Transfer { from: authority, to, target, amount: value, step } })
}

/// Mints `amount` (decimal text) of `mint` to `to` for a transfer from
/// `target` on the other chain; only the owner, not while paused, and only
/// for the EXO or GCRED mint.
pub fn proxy_bridge_mint(
    base: &BaseAccount,
    authority: Pubkey,
    mint: Pubkey,
    to: Pubkey,
    amount: &str,
    target: String,
) -> (r: Result<BridgeRequest, ErrorCode>)
    requires
        bridge_accepts(*base, authority, mint) ==> is_amount_text(amount.spec_bytes()),
    ensures
        base.paused ==> r == Err::<BridgeRequest, ErrorCode>(ErrorCode::ContractPaused),
        !base.paused && base.owner_role != authority ==> r == Err::<BridgeRequest, ErrorCode>(
            ErrorCode::NotOwnerRole,
        ),
        !base.paused && base.owner_role == authority && mint != base.exo_mint && mint
            != base.gcred_mint ==> r == Err::<BridgeRequest, ErrorCode>(
            ErrorCode::NotCorrectTokenAddress,
        ),
        bridge_accepts(*base, authority, mint) ==> r is Ok,
        r matches Ok(req) ==> {
            &&& req.token == bridged_token(*base, mint)
            &&& req.event.from == authority
            &&& req.event.to == to
            &&& req.event.target@ == target@
            &&& req.event.amount == amount_value(amount.spec_bytes())
            &&& req.event.step == Step::Mint
        },
{
    route(base, authority, mint, to, amount, target, Step::Mint)
}

/// Burns `amount` (decimal text) of `mint` from `to` for a transfer to
/// `target` on the other chain; only the owner, not while paused, and only
/// for the EXO or GCRED mint.
pub fn proxy_bridge_burn(
    base: &BaseAccount,
    authority: Pubkey,
    mint: Pubkey,
    to: Pubkey,
    amount: &str,
    target: String,
) -> (r: Result<BridgeRequest, ErrorCode>)
    requires
        bridge_accepts(*base, authority, mint) ==> is_amount_text(amount.spec_bytes()),
    ensures
        base.paused ==> r == Err::<BridgeRequest, ErrorCode>(ErrorCode::ContractPaused),
        !base.paused && base.owner_role != authority ==> r == Err::<BridgeRequest, ErrorCode>(
            ErrorCode::NotOwnerRole,
        ),
        !base.paused && base.owner_role == authority && mint != base.exo_mint && mint
            != base.gcred_mint ==> r == Err::<BridgeRequest, ErrorCode>(
            ErrorCode::NotCorrectTokenAddress,
        ),
        bridge_accepts(*base, authority, mint) ==> r is Ok,
        r matches Ok(req) ==> {
            &&& req.token == bridged_token(*base, mint)
            &&& req.event.from == authority
            &&& req.event.to == to
            &&& req.event.target@ == target@
            &&& req.event.amount == amount_value(amount.spec_bytes())
            &&& req.event.step == Step::Burn
        },
{
    route(base, authority, mint, to, amount, target, Step::Burn)
}

/// Pauses the bridge; any signer may.
pub fn pause(base: &mut BaseAccount) -> (r: Result<(), ErrorCode>)
    ensures
        r == Ok::<(), ErrorCode>(()),
        *final(base) == (BaseAccount { paused: true, ..*old(base) }),
{
    base.paused = true;
    Ok(())
}

/// Unpauses the bridge; any signer may.
pub fn unpause(base: &mut BaseAccount) -> (r: Result<(), ErrorCode>)
    ensures
        r == Ok::<(), ErrorCode>(()),
        *final(base) == (BaseAccount { paused: false, ..*old(base) }),
{
    base.paused = false;
    Ok(())
}

} // verus!
