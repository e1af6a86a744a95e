use exo_programs::gcred_token::{
    initialize, pause, proxy_bridge_burn, proxy_bridge_mint, proxy_buy_item, proxy_mint,
    proxy_mint_for_reward, proxy_transfer, unpause, update_dao_account, update_md_account,
    update_role, after_step, start, BaseAccount, Progress, DAOAddressUpdated, ErrorCode, MNAddressUpdated, Recipient,
    StakingRewardUpdated, TokenOp, TokenStep,
};
use exo_programs::pubkey::Pubkey;

fn key(b: u8) -> Pubkey {
    Pubkey::new([b; 32])
}

const OWNER: u8 = 1;
const MD: u8 = 2;
const DAO: u8 = 3;

fn running() -> BaseAccount {
    let mut base = initialize(key(OWNER), key(MD), key(DAO));
    unpause(&mut base, key(OWNER)).unwrap();
    base
}

fn debit(steps: &[TokenStep]) -> u64 {
    steps
        .iter()
        .map(|s| match s.op {
            TokenOp::Transfer { amount, .. } => amount,
            TokenOp::Burn { amount } => amount,
        })
        .sum()
}

#[test]
fn gcred_initialize_starts_paused() {
    let base = initialize(key(OWNER), key(MD), key(DAO));
    assert!(base.paused);
    assert_eq!(base.owner_role, key(OWNER));
    assert_eq!(base.default_admin_role, key(OWNER));
    assert_eq!(base.md_account, key(MD));
    assert_eq!(base.dao_account, key(DAO));
    assert_eq!(base.bridge_role, Pubkey::zeroed());
    assert_eq!(base.staking_reward, Pubkey::zeroed());
    assert_eq!(proxy_buy_item(&base, key(MD), key(DAO), "100"), Err(ErrorCode::ContractPaused));
}

#[test]
fn gcred_buy_item_splits_25_5_70() {
    let base = running();
    let steps = proxy_buy_item(&base, key(MD), key(DAO), "1000").unwrap();
    assert_eq!(
        steps,
        vec![
            TokenStep {
                op: TokenOp::Transfer { to: Recipient::MdAccount, amount: 250 },
                on_failure: Some(ErrorCode::FailTransferToMDAddress),
            },
            TokenStep {
                op: TokenOp::Transfer { to: Recipient::DaoAccount, amount: 50 },
                on_failure: Some(ErrorCode::FailTransferToDAOAddress),
            },
            TokenStep { op: TokenOp::Burn { amount: 700 }, on_failure: Some(ErrorCode::FailBurn) },
        ]
    );
}

#[test]
fn gcred_buy_item_rounding_loses_at_most_two() {
    let base = running();
    for v in [0u64, 1, 3, 19, 99, 101, 12345, 999_999] {
        let steps = proxy_buy_item(&base, key(MD), key(DAO), &v.to_string()).unwrap();
        let d = debit(&steps);
        assert!(d <= v && v - d <= 2, "amount {}", v);
    }
    let steps = proxy_buy_item(&base, key(MD), key(DAO), "99").unwrap();
    assert_eq!(debit(&steps), 24 + 4 + 69);
}

#[test]
fn gcred_buy_item_account_checks() {
    let base = running();
    assert_eq!(proxy_buy_item(&base, key(9), key(DAO), "1"), Err(ErrorCode::NotMDAccount));
    assert_eq!(proxy_buy_item(&base, key(9), key(9), "1"), Err(ErrorCode::NotMDAccount));
    assert_eq!(proxy_buy_item(&base, key(MD), key(9), "1"), Err(ErrorCode::NotDAOAccount));
    let mut paused = base;
    paused.paused = true;
    // the accounts are checked before the pause and before the amount is read
    assert_eq!(proxy_buy_item(&paused, key(MD), key(9), "x"), Err(ErrorCode::NotDAOAccount));
    assert_eq!(proxy_buy_item(&paused, key(MD), key(DAO), "x"), Err(ErrorCode::ContractPaused));
}

#[test]
fn gcred_transfer_to_md_or_dao_is_whole() {
    let base = running();
    for to in [MD, DAO] {
        assert_eq!(
            proxy_transfer(&base, key(to), "1000"),
            Ok(vec![TokenStep { op: TokenOp::Transfer { to: Recipient::To, amount: 1000 }, on_failure: None }])
        );
    }
}

#[test]
fn gcred_transfer_takes_fees() {
    let base = running();
    let steps = proxy_transfer(&base, key(7), "1000").unwrap();
    assert_eq!(
        steps,
        vec![
            TokenStep {
                op: TokenOp::Transfer { to: Recipient::To, amount: 950 },
                on_failure: Some(ErrorCode::FailTransferToTargetAddress),
            },
            TokenStep {
                op: TokenOp::Transfer { to: Recipient::Md, amount: 20 },
                on_failure: Some(ErrorCode::FailTransferToMDAddress),
            },
            TokenStep { op: TokenOp::Burn { amount: 30 }, on_failure: Some(ErrorCode::FailBurn) },
        ]
    );
    for v in [0u64, 1, 49, 50, 99, 12345] {
        let steps = proxy_transfer(&base, key(7), &v.to_string()).unwrap();
        assert_eq!(debit(&steps), v);
    }
    let mut paused = base;
    paused.paused = true;
    assert_eq!(proxy_transfer(&paused, key(7), "10"), Err(ErrorCode::ContractPaused));
}

#[test]
fn gcred_mints_check_roles() {
    let mut base = running();
    assert_eq!(proxy_mint(&base, key(OWNER), "5"), Ok(5));
    assert_eq!(proxy_mint(&base, key(4), "5"), Err(ErrorCode::NotOwnerAccount));
    assert_eq!(proxy_mint_for_reward(&base, key(4), "5"), Err(ErrorCode::NotStakingRoleAccount));
    assert_eq!(proxy_bridge_mint(&base, key(4), "5"), Err(ErrorCode::NotBridgeRoleAccount));
    assert_eq!(proxy_bridge_burn(&base, key(4), "5"), Err(ErrorCode::NotBridgeRoleAccount));
    assert_eq!(update_role(&mut base, key(OWNER), key(4), 1), Ok(StakingRewardUpdated { staking_reward: key(4) }));
    assert_eq!(update_role(&mut base, key(OWNER), key(5), 2), Ok(StakingRewardUpdated { staking_reward: key(5) }));
    assert_eq!(base.bridge_role, key(4));
    assert_eq!(base.staking_reward, key(5));
    assert_eq!(proxy_bridge_mint(&base, key(4), "6"), Ok(6));
    assert_eq!(proxy_bridge_burn(&base, key(4), "6"), Ok(6));
    assert_eq!(proxy_mint_for_reward(&base, key(5), "8"), Ok(8));
    pause(&mut base, key(OWNER)).unwrap();
    assert_eq!(proxy_mint(&base, key(OWNER), "5"), Err(ErrorCode::ContractPaused));
    assert_eq!(proxy_mint_for_reward(&base, key(5), "5"), Err(ErrorCode::ContractPaused));
    assert_eq!(proxy_bridge_mint(&base, key(4), "5"), Err(ErrorCode::ContractPaused));
    assert_eq!(proxy_bridge_burn(&base, key(4), "5"), Err(ErrorCode::ContractPaused));
}

#[test]
fn gcred_address_updates() {
    let mut base = running();
    let before = base;
    assert_eq!(update_md_account(&mut base, key(4), key(8)), Err(ErrorCode::NotOwnerAccount));
    assert_eq!(update_dao_account(&mut base, key(4), key(8)), Err(ErrorCode::NotOwnerAccount));
    assert_eq!(update_role(&mut base, key(4), key(8), 1), Err(ErrorCode::NotOwnerAccount));
    assert_eq!(base, before);
    assert_eq!(update_md_account(&mut base, key(OWNER), key(8)), Ok(MNAddressUpdated { md_address: key(8) }));
    assert_eq!(update_dao_account(&mut base, key(OWNER), key(9)), Ok(DAOAddressUpdated { dao_address: key(9) }));
    assert_eq!(base.md_account, key(8));
    assert_eq!(base.dao_account, key(9));
    pause(&mut base, key(OWNER)).unwrap();
    assert_eq!(update_md_account(&mut base, key(OWNER), key(2)), Err(ErrorCode::ContractPaused));
    assert_eq!(update_dao_account(&mut base, key(OWNER), key(2)), Err(ErrorCode::ContractPaused));
    assert_eq!(update_role(&mut base, key(OWNER), key(2), 1), Err(ErrorCode::ContractPaused));
}

#[test]
fn gcred_pause_needs_owner() {
    let mut base = running();
    assert_eq!(pause(&mut base, key(4)), Err(ErrorCode::NotOwnerAccount));
    assert!(!base.paused);
    assert_eq!(pause(&mut base, key(OWNER)), Ok(()));
    assert!(base.paused);
    assert_eq!(unpause(&mut base, key(4)), Err(ErrorCode::NotOwnerAccount));
    assert!(base.paused);
    assert_eq!(unpause(&mut base, key(OWNER)), Ok(()));
    assert_eq!(base, running());
}

#[test]
fn gcred_step_run_stops_at_first_failure() {
    let base = running();
    let steps = proxy_transfer(&base, key(7), "1000").unwrap();
    assert_eq!(start(&steps), Progress::Perform(0));
    assert_eq!(after_step(&steps, 0, true), Progress::Perform(1));
    assert_eq!(after_step(&steps, 1, true), Progress::Perform(2));
    assert_eq!(after_step(&steps, 2, true), Progress::Finished);
    assert_eq!(after_step(&steps, 0, false), Progress::Failed(Some(ErrorCode::FailTransferToTargetAddress)));
    assert_eq!(after_step(&steps, 1, false), Progress::Failed(Some(ErrorCode::FailTransferToMDAddress)));
    assert_eq!(after_step(&steps, 2, false), Progress::Failed(Some(ErrorCode::FailBurn)));
    let whole = proxy_transfer(&base, key(MD), "1000").unwrap();
    assert_eq!(after_step(&whole, 0, false), Progress::Failed(None));
    assert_eq!(after_step(&whole, 0, true), Progress::Finished);
    let buy = proxy_buy_item(&base, key(MD), key(DAO), "1000").unwrap();
    assert_eq!(after_step(&buy, 0, false), Progress::Failed(Some(ErrorCode::FailTransferToMDAddress)));
    assert_eq!(after_step(&buy, 1, false), Progress::Failed(Some(ErrorCode::FailTransferToDAOAddress)));
    assert_eq!(start(&Vec::new()), Progress::Finished);
}
