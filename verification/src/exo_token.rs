//! The EXO token program: role-checked minting and burning through the
//! token program, role administration and pausing.
use vstd::prelude::*;
use vstd::string::StringSliceAdditionalSpecFns;
use crate::pubkey::{Pubkey, is_zero_key};
use crate::amount::{parse_amount, is_amount_text, amount_value};

verus! {

/// The EXO supply recorded at initialization: ten billion tokens of nine decimals.
pub const INITIAL_TOTAL_SUPPLY: u64 = 10000000000000000000u64;

/// The program's account.
#[derive(Clone, Copy, Debug, PartialEq, Eq)]
pub struct BaseAccount {
    pub default_admin_role: Pubkey,
    pub pause_role: Pubkey,
    pub minter_role: Pubkey,
    pub bridge_role: Pubkey,
    pub staking_reward: Pubkey,
    pub bridge_account: Pubkey,
    pub paused: bool,
    pub total_supply: u64,
}

/// The program's errors.
#[derive(Clone, Copy, Debug, PartialEq, Eq, Structural)]
pub enum ErrorCode {
    NotAdminRole,
    NotMinterAccount,
    NotStakingRoleAccount,
    NotBridgeRoleAccount,
    FailBurn,
    ContractPaused,
    NotZeroAddress,
}

/// Creates the program's account: `user` holds the admin, pause and minter
/// roles, the total supply is `INITIAL_TOTAL_SUPPLY`, not paused.
pub fn initialize(user: Pubkey) -> (r: BaseAccount)
    ensures
        r.default_admin_role == user,
        r.pause_role == user,
        r.minter_role == user,
        is_zero_key(r.bridge_role),
        is_zero_key(r.staking_reward),
        is_zero_key(r.bridge_account),
        !r.paused,
        r.total_supply == INITIAL_TOTAL_SUPPLY,
{
    BaseAccount {
        default_admin_role: user,
        pause_role: user,
        minter_role: user,
        bridge_role: Pubkey::zeroed(),
        staking_reward: Pubkey::zeroed(),
        bridge_account: Pubkey::zeroed(),
        paused: false,
        total_supply: INITIAL_TOTAL_SUPPLY,
    }
}

/// Mints `amount` (decimal text) to the instruction's `to`, for the minter role.
///
/// Answers the amount that the caller then mints through the token program,
/// whose result is the instruction's.
pub fn proxy_mint(base: &BaseAccount, authority: Pubkey, amount: &str) -> (r: Result<u64, ErrorCode>)
    requires
        is_amount_text(amount.spec_bytes()),
    ensures
        r == if base.paused {
            Err(ErrorCode::ContractPaused)
        } else if base.minter_role != authority {
            Err(ErrorCode::NotMinterAccount)
        } else {
            Ok(amount_value(amount.spec_bytes()) as u64)
        },
{
    let amount: u64 = parse_amount(amount).unwrap();
    if base.paused {
        return Err(ErrorCode::ContractPaused);
    }
    if base.minter_role != authority {
        return Err(ErrorCode::NotMinterAccount);
    }
    Ok(amount)
}

/// Mints `amount` (decimal text) for the bridge role.
pub fn proxy_bridge_mint(base: &BaseAccount, authority: Pubkey, amount: &str) -> (r: Result<
    u64,
    ErrorCode,
>)
    requires
        is_amount_text(amount.spec_bytes()),
    ensures
        r == if base.paused {
            Err(ErrorCode::ContractPaused)
        } else if base.bridge_role != authority {
            Err(ErrorCode::NotBridgeRoleAccount)
        } else {
            Ok(amount_value(amount.spec_bytes()) as u64)
        },
{
    let amount: u64 = parse_amount(amount).unwrap();
    if base.paused {
        return Err(ErrorCode::ContractPaused);
    }
    if base.bridge_role != authority {
        return Err(ErrorCode::NotBridgeRoleAccount);
    }
    Ok(amount)
}

/// Burns `amount` (decimal text) from the instruction's `to`, for the bridge role.
pub fn proxy_bridge_burn(base: &BaseAccount, authority: Pubkey, amount: &str) -> (r: Result<
    u64,
    ErrorCode,
>)
    requires
        is_amount_text(amount.spec_bytes()),
    ensures
        r == if base.paused {
            Err(ErrorCode::ContractPaused)
        } else if base.bridge_role != authority {
            Err(ErrorCode::NotBridgeRoleAccount)
        } else {
            Ok(amount_value(amount.spec_bytes()) as u64)
        },
{
    let amount: u64 = parse_amount(amount).unwrap();
    if base.paused {
        return Err(ErrorCode::ContractPaused);
    }
    if base.bridge_role != authority {
        return Err(ErrorCode::NotBridgeRoleAccount);
    }
    Ok(amount)
}

/// Sets the bridge role (`update_type` 1) or the staking-reward role (any
/// other type), for the admin and not while paused; the zero address is refused.
pub fn update_role(
    base: &mut BaseAccount,
    user: Pubkey,
    update_role_address: Pubkey,
    update_type: i32,
) -> (r: Result<(), ErrorCode>)
    ensures
        r == if old(base).paused {
            Err(ErrorCode::ContractPaused)
        } else if old(base).default_admin_role != user {
            Err(ErrorCode::NotAdminRole)
        } else if is_zero_key(update_role_address) {
            Err(ErrorCode::NotZeroAddress)
        } else {
            Ok(())
        },
        r is Err ==> *final(base) == *old(base),
        r is Ok && update_type == 1 ==> *final(base) == (BaseAccount {
            bridge_role: update_role_address,
            ..*old(base)
        }),
        r is Ok && update_type != 1 ==> *final(base) == (BaseAccount {
            staking_reward: update_role_address,
            ..*old(base)
        }),
{
    if base.paused {
        return Err(ErrorCode::ContractPaused);
    }
    if base.default_admin_role != user {
        return Err(ErrorCode::NotAdminRole);
    }
    if update_role_address.is_zero() {
        return Err(ErrorCode::NotZeroAddress);
    }
    if update_type == 1 {
        base.bridge_role = update_role_address;
    } else {
        base.staking_reward = update_role_address;
    }
    Ok(())
}

/// Pauses the program; any signer may.
pub fn pause(base: &mut BaseAccount) -> (r: Result<(), ErrorCode>)
    ensures
        r == Ok::<(), ErrorCode>(()),
        *final(base) == (BaseAccount { paused: true, ..*old(base) }),
{
    base.paused = true;
    Ok(())
}

/// Unpauses the program; any signer may.
pub fn unpause(base: &mut BaseAccount) -> (r: Result<(), ErrorCode>)
    ensures
        r == Ok::<(), ErrorCode>(()),
        *final(base) == (BaseAccount { paused: false, ..*old(base) }),
{
    base.paused = false;
    Ok(())
}

/// Transfers EXO: accepted and moves nothing (no transfer is implemented).
pub fn proxy_transfer(_amount: &str) -> (r: Result<(), ErrorCode>)
    ensures
        r == Ok::<(), ErrorCode>(()),
{
    Ok(())
}

} // verus!
