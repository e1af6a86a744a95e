use exo_programs::pubkey::Pubkey;
use exo_programs::staking_reward::{
    getStakingPeriod, getTierAmount, initialize, pause, set_exo_address, set_fn_address,
    set_gcred_address, stake, unpause, unstake, BaseAccount, ErrorCode, ExoAddressUpdated,
    FoundationNodeUpdated, GCREDAddressUpdated, Stake, Tier, TierCandiate, UnStake,
};

fn key(b: u8) -> Pubkey {
    Pubkey::new([b; 32])
}

const OWNER: u8 = 1;
const HOLDER: u8 = 5;
const DAY: i64 = 24 * 3600;
const BIG: u64 = u64::MAX;

/// A newly initialized account, given one zero counter per interest rate
/// (`initialize` creates none, and no stake can be counted without them).
fn fresh() -> BaseAccount {
    let mut base = initialize(key(OWNER), key(2), key(3), 254);
    base.interest_holder_counter = vec![0u32; 16];
    base
}

#[test]
fn staking_initialize() {
    let base = initialize(key(OWNER), key(2), key(3), 254);
    assert_eq!(base.default_admin_role, key(OWNER));
    assert_eq!(base.owner_role, key(OWNER));
    assert_eq!(base.exo_role, key(2));
    assert_eq!(base.exo_address, key(2));
    assert_eq!(base.gcred_address, key(3));
    assert_eq!(base.bump, 254);
    assert_eq!(base.foundation_node, Pubkey::zeroed());
    assert!(base.interest_holder_counter.is_empty());
    assert!(base.staking_infos.is_empty());
    assert!(base.tier.is_empty());
    assert!(base.tier_candidate.is_empty());
    assert!(!base.paused);
    assert!(base.is_well_formed());
}

#[test]
fn staking_tables() {
    assert_eq!(getTierAmount(), vec![0, 2_000_000_000_000_000, 4_000_000_000_000_000, 8_000_000_000_000_000]);
    assert_eq!(getStakingPeriod(), vec![0, 30 * DAY, 60 * DAY, 90 * DAY]);
}

#[test]
fn stake_records_and_counts() {
    let mut base = fresh();
    let ev = stake(&mut base, key(HOLDER), 1000, 0, 1_000, "100", 1).unwrap();
    assert_eq!(ev, Stake { holder: key(HOLDER), amount: 100, interest_rate: 1 });
    assert_eq!(base.staking_infos.len(), 1);
    let rec = base.staking_infos[0];
    assert_eq!(rec.holder, key(HOLDER));
    assert_eq!(rec.amount, 100);
    assert_eq!(rec.start_date, 1_000);
    assert_eq!(rec.expire_date, 1_000 + 30 * DAY);
    assert_eq!(rec.duration, 1);
    assert_eq!(rec.claim_day, 0);
    assert_eq!(rec.interest_rate, 1);
    assert_eq!(rec.index, 1);
    assert_eq!(base.interest_holder_counter[1], 1);
    let ev2 = stake(&mut base, key(HOLDER), 1000, 0, 2_000, "50", 3).unwrap();
    assert_eq!(ev2.interest_rate, 3);
    assert_eq!(base.staking_infos[1].index, 2);
    assert_eq!(base.staking_infos[1].expire_date, 2_000 + 90 * DAY);
    assert_eq!(base.interest_holder_counter[3], 1);
    // another holder starts its own numbering
    stake(&mut base, key(6), 1000, 0, 2_000, "1", 0).unwrap();
    assert_eq!(base.staking_infos[2].index, 1);
    assert!(base.is_well_formed());
}

#[test]
fn stake_refusals() {
    let mut base = fresh();
    assert_eq!(stake(&mut base, key(HOLDER), 99, 0, 0, "100", 1), Err(ErrorCode::NotEnoughExoToken));
    assert_eq!(stake(&mut base, key(HOLDER), 100, 0, 0, "100", 4), Err(ErrorCode::DurationNotMatch));
    assert_eq!(pause(&mut base, key(9)), Err(ErrorCode::NotOwnerAccount));
    assert_eq!(pause(&mut base, key(OWNER)), Ok(()));
    assert_eq!(stake(&mut base, key(HOLDER), 100, 0, 0, "100", 1), Err(ErrorCode::ErrorForPause));
    assert_eq!(unstake(&mut base, key(HOLDER), 0, 1), Err(ErrorCode::ErrorForPause));
    assert_eq!(base.staking_infos.len(), 0);
    assert_eq!(unpause(&mut base, key(9)), Err(ErrorCode::NotOwnerAccount));
    assert_eq!(unpause(&mut base, key(OWNER)), Ok(()));
    assert_eq!(base, fresh());
}

#[test]
fn foundation_node_stake_sets_reward_only() {
    let mut base = fresh();
    assert_eq!(set_fn_address(&mut base, key(OWNER), key(HOLDER)), Ok(FoundationNodeUpdated { foundation_node: key(HOLDER) }));
    let ev = stake(&mut base, key(HOLDER), 500, 365_000_000, 0, "200", 2).unwrap();
    assert_eq!(ev, Stake { holder: key(HOLDER), amount: 200, interest_rate: 2 });
    assert_eq!(base.fn_reward, 365_000_000 * 75 / 1000 / 365);
    assert_eq!(base.fn_reward, 75_000);
    assert!(base.staking_infos.is_empty());
    assert_eq!(base.interest_holder_counter, vec![0u32; 16]);
}

#[test]
fn latest_stake_cannot_be_unstaked() {
    let mut base = fresh();
    stake(&mut base, key(HOLDER), 1000, 0, 0, "100", 0).unwrap();
    let before = base.clone();
    assert_eq!(unstake(&mut base, key(HOLDER), 10, 1), Err(ErrorCode::InvalidStakingIndex));
    assert_eq!(unstake(&mut base, key(HOLDER), 10, 0), Err(ErrorCode::InvalidStakingIndex));
    assert_eq!(unstake(&mut base, key(7), 10, 0), Err(ErrorCode::InvalidStakingIndex));
    assert_eq!(base, before);
}

#[test]
fn stake_refund_after_expiry() {
    let mut base = fresh();
    stake(&mut base, key(HOLDER), 1000, 0, 0, "100", 1).unwrap();
    stake(&mut base, key(HOLDER), 1000, 0, 5, "40", 2).unwrap();
    assert_eq!(unstake(&mut base, key(HOLDER), 30 * DAY - 1, 1), Err(ErrorCode::UnStakingFailed));
    let ev = unstake(&mut base, key(HOLDER), 30 * DAY, 1).unwrap();
    assert_eq!(ev, UnStake { holder: key(HOLDER), amount: 100, interest_rate: 1 });
    // the paid-out stake is renumbered below the last one, and the last one is deleted
    assert_eq!(base.staking_infos.len(), 1);
    assert_eq!(base.staking_infos[0].amount, 100);
    assert_eq!(base.staking_infos[0].index, 1);
    assert_eq!(base.interest_holder_counter[1], 0);
    assert_eq!(base.interest_holder_counter[2], 1);
    assert!(base.is_well_formed());
    // the remaining record is now the holder's last: it cannot be unstaked
    assert_eq!(unstake(&mut base, key(HOLDER), 60 * DAY, 1), Err(ErrorCode::InvalidStakingIndex));
}

#[test]
fn zero_duration_stake_unlocked_at_once() {
    let mut base = fresh();
    stake(&mut base, key(HOLDER), 1000, 0, 100, "70", 0).unwrap();
    stake(&mut base, key(HOLDER), 1000, 0, 100, "30", 0).unwrap();
    let ev = unstake(&mut base, key(HOLDER), 100, 1).unwrap();
    assert_eq!(ev.amount, 70);
    assert_eq!(ev.interest_rate, 0);
    assert_eq!(base.interest_holder_counter[0], 1);
    assert_eq!(base.staking_infos.len(), 1);
    assert_eq!(base.staking_infos[0].amount, 70);
}

#[test]
fn tier_candidacy_and_promotion() {
    let mut base = fresh();
    let big = "2000000000000001";
    stake(&mut base, key(HOLDER), BIG, 0, 0, big, 1).unwrap();
    assert_eq!(base.tier_candidate, vec![TierCandiate { address: key(HOLDER), value: false }]);
    stake(&mut base, key(HOLDER), BIG, 0, 0, big, 1).unwrap();
    assert_eq!(base.tier_candidate, vec![TierCandiate { address: key(HOLDER), value: true }]);
    // not above the threshold: no change
    stake(&mut base, key(HOLDER), BIG, 0, 0, "2000000000000000", 1).unwrap();
    assert_eq!(base.tier_candidate.len(), 1);
    // the first stake is unlocked after 30 days; unstaking it promotes the holder
    let ev = unstake(&mut base, key(HOLDER), 30 * DAY, 1).unwrap();
    assert_eq!(ev.amount, 2_000_000_000_000_001);
    assert_eq!(base.tier, vec![Tier { address: key(HOLDER), value: 1 }]);
    assert_eq!(base.tier_candidate, vec![TierCandiate { address: key(HOLDER), value: false }]);
    // the next stake earns the tier-1 rates
    let ev = stake(&mut base, key(HOLDER), BIG, 0, 0, "5", 2).unwrap();
    assert_eq!(ev.interest_rate, 6);
    assert!(base.is_well_formed());
}

#[test]
fn tier_never_exceeds_three() {
    let mut base = fresh();
    base.tier.push(Tier { address: key(HOLDER), value: 3 });
    base.tier_candidate.push(TierCandiate { address: key(HOLDER), value: true });
    stake(&mut base, key(HOLDER), BIG, 0, 0, "1", 3).unwrap();
    stake(&mut base, key(HOLDER), BIG, 0, 0, "1", 3).unwrap();
    assert_eq!(base.staking_infos[0].interest_rate, 15);
    // a stake shorter than the tier does not promote
    let mut short = base.clone();
    short.staking_infos[0].duration = 2;
    short.staking_infos[0].interest_rate = 14;
    short.interest_holder_counter[15] = 1;
    short.interest_holder_counter[14] = 1;
    unstake(&mut short, key(HOLDER), 90 * DAY, 1).unwrap();
    assert!(short.tier_candidate[0].value);
    // a long enough stake resets the candidacy but the tier stays at 3
    unstake(&mut base, key(HOLDER), 90 * DAY, 1).unwrap();
    assert_eq!(base.tier[0].value, 3);
    assert!(!base.tier_candidate[0].value);
}

#[test]
fn address_setters_need_owner() {
    let mut base = fresh();
    assert_eq!(set_gcred_address(&mut base, key(9), key(8)), Err(ErrorCode::NotOwnerAccount));
    assert_eq!(set_exo_address(&mut base, key(9), key(8)), Err(ErrorCode::NotOwnerAccount));
    assert_eq!(set_fn_address(&mut base, key(9), key(8)), Err(ErrorCode::NotOwnerAccount));
    assert_eq!(base, fresh());
    assert_eq!(set_gcred_address(&mut base, key(OWNER), key(8)), Ok(GCREDAddressUpdated { gcred_address: key(8) }));
    assert_eq!(set_exo_address(&mut base, key(OWNER), key(7)), Ok(ExoAddressUpdated { exo_address: key(7) }));
    assert_eq!(base.gcred_address, key(8));
    assert_eq!(base.exo_address, key(7));
    assert_eq!(base.exo_role, key(2));
}

#[test]
fn well_formedness_check() {
    let mut base = fresh();
    stake(&mut base, key(HOLDER), 1000, 0, 0, "10", 1).unwrap();
    assert!(base.is_well_formed());
    let mut more = base.clone();
    more.interest_holder_counter.push(0);
    assert!(more.is_well_formed());
    let mut fewer = base.clone();
    fewer.interest_holder_counter.clear();
    assert!(fewer.is_well_formed());
    let mut broken = base.clone();
    broken.staking_infos[0].interest_rate = 2;
    assert!(!broken.is_well_formed());
    let mut broken = base.clone();
    broken.staking_infos[0].index = 0;
    assert!(!broken.is_well_formed());
    let mut broken = base;
    broken.tier.push(Tier { address: key(1), value: 4 });
    assert!(!broken.is_well_formed());
}

#[test]
fn stake_limits() {
    let mut base = fresh();
    assert!(base.stake_fits_limits(key(HOLDER), 1000, 0, 0, "10", 1));
    base.interest_holder_counter[1] = u32::MAX;
    assert!(!base.stake_fits_limits(key(HOLDER), 1000, 0, 0, "10", 1));
    // refused stakes never reach the counter
    assert!(base.stake_fits_limits(key(HOLDER), 5, 0, 0, "10", 1));
    assert!(base.stake_fits_limits(key(HOLDER), 1000, 0, 0, "10", 4));
    assert!(!base.stake_fits_limits(key(HOLDER), 1000, 0, i64::MAX, "10", 2));
    assert!(base.stake_fits_limits(key(HOLDER), 1000, 0, i64::MAX, "10", 0));
    let mut indexed = fresh();
    stake(&mut indexed, key(HOLDER), 1000, 0, 0, "10", 0).unwrap();
    indexed.staking_infos[0].index = u16::MAX;
    assert!(!indexed.stake_fits_limits(key(HOLDER), 1000, 0, 0, "10", 0));
    assert!(indexed.stake_fits_limits(key(6), 1000, 0, 0, "10", 0));
    let mut node = fresh();
    set_fn_address(&mut node, key(OWNER), key(HOLDER)).unwrap();
    assert!(node.stake_fits_limits(key(HOLDER), 1000, u64::MAX / 75, 0, "10", 0));
    assert!(!node.stake_fits_limits(key(HOLDER), 1000, u64::MAX / 75 + 1, 0, "10", 0));
}

#[test]
fn unstake_limits() {
    let mut base = fresh();
    stake(&mut base, key(HOLDER), 1000, 0, 0, "10", 0).unwrap();
    stake(&mut base, key(HOLDER), 1000, 0, 0, "10", 0).unwrap();
    assert!(base.unstake_fits_limits(key(HOLDER), 0, 1));
    base.interest_holder_counter[0] = 0;
    assert!(!base.unstake_fits_limits(key(HOLDER), 0, 1));
    // a refused unstake never touches the counter
    assert!(base.unstake_fits_limits(key(HOLDER), 0, 2));
    assert!(base.unstake_fits_limits(key(7), 0, 1));
}

#[test]
fn bare_account_cannot_count_stakes() {
    let mut base = initialize(key(OWNER), key(2), key(3), 254);
    // an ordinary stake would index a missing counter
    assert!(!base.stake_fits_limits(key(HOLDER), 1000, 0, 0, "10", 1));
    // refused stakes and the foundation node's stake never touch the counters
    assert!(base.stake_fits_limits(key(HOLDER), 5, 0, 0, "10", 1));
    set_fn_address(&mut base, key(OWNER), key(HOLDER)).unwrap();
    assert!(base.stake_fits_limits(key(HOLDER), 1000, 3650, 0, "10", 1));
    assert_eq!(stake(&mut base, key(HOLDER), 1000, 3650, 0, "10", 1).map(|e| e.amount), Ok(10));
    assert_eq!(base.fn_reward, 3650 * 75 / 1000 / 365);
}
