//! The EXO staking program: holders lock EXO for a chosen duration at an
//! interest rate given by their tier and that duration; the program keeps a
//! record per stake and, per interest rate, a counter that each stake raises
//! and each unstake lowers.
use vstd::prelude::*;
use vstd::string::StringSliceAdditionalSpecFns;
use crate::pubkey::{Pubkey, is_zero_key};
use crate::amount::{parse_amount, is_amount_text, amount_value};

verus! {

/// Number of interest rates: four tiers times four durations.
pub const INTEREST_RATE_COUNT: usize = 16;

/// Highest tier a holder can reach.
pub const MAX_TIER: u8 = 3;

/// Number of staking durations (0, 30, 60 and 90 days).
pub const DURATION_COUNT: u8 = 4;

/// One open stake.
#[derive(Clone, Copy, Debug, PartialEq, Eq)]
pub struct StakingInfo {
    pub total_index: u16,
    pub holder: Pubkey,
    pub amount: u64,
    pub start_date: i64,
    pub expire_date: i64,
    pub duration: u8,
    pub claim_day: u8,
    pub interest_rate: u8,
    pub index: u16,
}

/// The tier a holder has reached.
#[derive(Clone, Copy, Debug, PartialEq, Eq)]
pub struct Tier {
    pub address: Pubkey,
    pub value: u8,
}

/// A holder registered for promotion to the next tier; `value` is set once a
/// second qualifying stake confirms the candidacy.
#[derive(Clone, Copy, Debug, PartialEq, Eq)]
pub struct TierCandiate {
    pub address: Pubkey,
    pub value: bool,
}

/// The program's account.
#[derive(Clone, Debug, PartialEq, Eq)]
pub struct BaseAccount {
    pub default_admin_role: Pubkey,
    pub owner_role: Pubkey,
    pub exo_role: Pubkey,
    pub exo_address: Pubkey,
    pub gcred_address: Pubkey,
    pub max_reward: u64,
    pub total_reward_amount: u64,
    pub foundation_node: Pubkey,
    pub fn_reward: u64,
    pub staking_infos: Vec<StakingInfo>,
    pub interest_holder_counter: Vec<u32>,
    pub tier: Vec<Tier>,
    pub tier_candidate: Vec<TierCandiate>,
    pub paused: bool,
    pub bump: u8,
}

/// The account as a mathematical value.
pub struct StakingState {
    pub default_admin_role: Pubkey,
    pub owner_role: Pubkey,
    pub exo_role: Pubkey,
    pub exo_address: Pubkey,
    pub gcred_address: Pubkey,
    pub max_reward: u64,
    pub total_reward_amount: u64,
    pub foundation_node: Pubkey,
    pub fn_reward: u64,
    pub staking_infos: Seq<StakingInfo>,
    pub interest_holder_counter: Seq<u32>,
    pub tier: Seq<Tier>,
    pub tier_candidate: Seq<TierCandiate>,
    pub paused: bool,
    pub bump: u8,
}

impl View for BaseAccount {
    type V = StakingState;

    open spec fn view(&self) -> StakingState {
        StakingState {
            default_admin_role: self.default_admin_role,
            owner_role: self.owner_role,
            exo_role: self.exo_role,
            exo_address: self.exo_address,
            gcred_address: self.gcred_address,
            max_reward: self.max_reward,
            total_reward_amount: self.total_reward_amount,
            foundation_node: self.foundation_node,
            fn_reward: self.fn_reward,
            staking_infos: self.staking_infos@,
            interest_holder_counter: self.interest_holder_counter@,
            tier: self.tier@,
            tier_candidate: self.tier_candidate@,
            paused: self.paused,
            bump: self.bump,
        }
    }
}

/// The program's errors.
#[derive(Clone, Copy, Debug, PartialEq, Eq, Structural)]
pub enum ErrorCode {
    NotOwnerAccount,
    NotEnoughExoToken,
    DurationNotMatch,
    ErrorForPause,
    InvalidStakingIndex,
    UnStakingFailed,
}

/// Emitted when a holder stakes.
#[derive(Clone, Copy, Debug, PartialEq, Eq)]
pub struct Stake {
    pub holder: Pubkey,
    pub amount: u64,
    pub interest_rate: u8,
}

/// Emitted when a holder unstakes.
#[derive(Clone, Copy, Debug, PartialEq, Eq)]
pub struct UnStake {
    pub holder: Pubkey,
    pub amount: u64,
    pub interest_rate: u8,
}

/// Emitted when the GCRED address changes.
#[derive(Clone, Copy, Debug, PartialEq, Eq)]
pub struct GCREDAddressUpdated {
    pub gcred_address: Pubkey,
}

/// Emitted when the foundation node changes.
#[derive(Clone, Copy, Debug, PartialEq, Eq)]
pub struct FoundationNodeUpdated {
    pub foundation_node: Pubkey,
}

/// Emitted when the EXO address changes.
#[derive(Clone, Copy, Debug, PartialEq, Eq)]
pub struct ExoAddressUpdated {
    pub exo_address: Pubkey,
}

// ---------------------------------------------------------------------------
// Tables
// ---------------------------------------------------------------------------

/// Least amount that a stake must exceed to qualify for tier `t`.
pub open spec fn tier_amount(t: int) -> int {
    if t == 1 {
        2000000000000000
    } else if t == 2 {
        4000000000000000
    } else if t == 3 {
        8000000000000000
    } else {
        0
    }
}

/// Length in seconds of the staking duration `d` (0, 30, 60 or 90 days).
pub open spec fn staking_period(d: int) -> int {
    d * 30 * 3600 * 24
}

/// The tier thresholds, indexed by tier.
#[allow(non_snake_case)]
pub fn getTierAmount() -> (r: Vec<u64>)
    ensures
        r@.len() == 4,
        forall|t: int| 0 <= t < 4 ==> r@[t] == tier_amount(t),
{
    let r: Vec<u64> = vec![0, 2000000000000000, 4000000000000000, 8000000000000000];
    r
}

/// The staking periods in seconds, indexed by duration.
#[allow(non_snake_case)]
pub fn getStakingPeriod() -> (r: Vec<i64>)
    ensures
        r@.len() == 4,
        forall|d: int| 0 <= d < 4 ==> r@[d] == staking_period(d),
{
    let r: Vec<i64> = vec![0, 30 * 3600 * 24, 60 * 3600 * 24, 90 * 3600 * 24];
    r
}

// ---------------------------------------------------------------------------
// Specifications over the account's lists
// ---------------------------------------------------------------------------

/// Position of the last element of `s` that satisfies `f`, or -1.
pub open spec fn last_match<A>(s: Seq<A>, f: spec_fn(A) -> bool) -> int
    decreases s.len(),
{
    if s.len() == 0 {
        -1
    } else if f(s.last()) {
        s.len() - 1
    } else {
        last_match(s.drop_last(), f)
    }
}

/// Tier entries of `holder`.
pub open spec fn tier_of_holder(holder: Pubkey) -> spec_fn(Tier) -> bool {
    |t: Tier| t.address == holder
}

/// Candidacies of `holder`.
pub open spec fn candidate_of_holder(holder: Pubkey) -> spec_fn(TierCandiate) -> bool {
    |c: TierCandiate| c.address == holder
}

/// Stakes of `holder`.
pub open spec fn stake_of_holder(holder: Pubkey) -> spec_fn(StakingInfo) -> bool {
    |s: StakingInfo| s.holder == holder
}

/// Stakes of `holder` that carry the staking index `index`.
pub open spec fn stake_with_index(holder: Pubkey, index: u16) -> spec_fn(StakingInfo) -> bool {
    |s: StakingInfo| s.holder == holder && s.index == index
}

/// The tier of `holder`: the value of its last tier entry, 0 if it has none.
pub open spec fn tier_value(tiers: Seq<Tier>, holder: Pubkey) -> int {
    let p = last_match(tiers, tier_of_holder(holder));
    if p < 0 {
        0
    } else {
        tiers[p].value as int
    }
}

/// The staking index of the last stake of `holder`, 0 if it has none.
pub open spec fn last_stake_index(infos: Seq<StakingInfo>, holder: Pubkey) -> int {
    let p = last_match(infos, stake_of_holder(holder));
    if p < 0 {
        0
    } else {
        infos[p].index as int
    }
}

/// Whether `holder` is confirmed as a tier candidate (its last candidacy is set).
pub open spec fn is_confirmed_candidate(cands: Seq<TierCandiate>, holder: Pubkey) -> bool {
    let p = last_match(cands, candidate_of_holder(holder));
    p >= 0 && cands[p].value
}

/// Sum of the amounts of the open stakes.
pub open spec fn total_staked(infos: Seq<StakingInfo>) -> int
    decreases infos.len(),
{
    if infos.len() == 0 {
        0
    } else {
        total_staked(infos.drop_last()) + infos.last().amount
    }
}

/// A candidacy of `holder` confirmed; others unchanged.
pub open spec fn confirm_one(c: TierCandiate, holder: Pubkey) -> TierCandiate {
    if c.address == holder {
        TierCandiate { address: c.address, value: true }
    } else {
        c
    }
}

/// The candidacy list after a qualifying stake of `holder`: its candidacies
/// are confirmed if it has any, else an unconfirmed one is added.
pub open spec fn register_candidate(cands: Seq<TierCandiate>, holder: Pubkey) -> Seq<TierCandiate> {
    if exists|i: int| 0 <= i < cands.len() && #[trigger] cands[i].address == holder {
        Seq::new(cands.len(), |i: int| confirm_one(cands[i], holder))
    } else {
        cands.push(TierCandiate { address: holder, value: false })
    }
}

/// A stake's duration is one of the four, its rate is four per tier plus
/// that duration, and its staking index is at least 1.
pub open spec fn stake_is_consistent(s: StakingInfo) -> bool {
    &&& s.index >= 1
    &&& s.duration < DURATION_COUNT
    &&& s.interest_rate < INTEREST_RATE_COUNT
    &&& s.interest_rate % 4 == s.duration
}

impl StakingState {
    /// The account's invariant: every stake consistent (see
    /// `stake_is_consistent`) and every tier at most 3.
    pub open spec fn wf(self) -> bool {
        &&& forall|i: int|
            0 <= i < self.staking_infos.len() ==> stake_is_consistent(
                #[trigger] self.staking_infos[i],
            )
        &&& forall|i: int| 0 <= i < self.tier.len() ==> #[trigger] self.tier[i].value <= MAX_TIER
    }
}

impl BaseAccount {
    /// The account's invariant (see `StakingState::wf`).
    pub open spec fn wf(&self) -> bool {
        self@.wf()
    }
}

// ---------------------------------------------------------------------------
// Lemmas
// ---------------------------------------------------------------------------

/// `last_match` over one more element.
pub proof fn lemma_last_match_step<A>(s: Seq<A>, f: spec_fn(A) -> bool, i: int)
    requires
        0 <= i < s.len(),
    ensures
        last_match(s.take(i + 1), f) == if f(s[i]) {
            i
        } else {
            last_match(s.take(i), f)
        },
{
    assert(s.take(i + 1).drop_last() =~= s.take(i));
    assert(s.take(i + 1).last() == s[i]);
}

/// `last_match` names the last position that satisfies `f`.
pub proof fn lemma_last_match_props<A>(s: Seq<A>, f: spec_fn(A) -> bool)
    ensures
        -1 <= last_match(s, f) < s.len(),
        last_match(s, f) >= 0 ==> f(s[last_match(s, f)]),
        forall|j: int| last_match(s, f) < j < s.len() ==> !f(#[trigger] s[j]),
        last_match(s, f) < 0 ==> forall|j: int| 0 <= j < s.len() ==> !f(#[trigger] s[j]),
    decreases s.len(),
{
    if s.len() > 0 {
        lemma_last_match_props(s.drop_last(), f);
        if !f(s.last()) {
            assert forall|j: int| last_match(s, f) < j < s.len() implies !f(#[trigger] s[j]) by {
                if j < s.len() - 1 {
                    assert(s[j] == s.drop_last()[j]);
                }
            }
        }
    }
}

/// `last_match` of a whole sequence from its last prefix.
pub proof fn lemma_last_match_full<A>(s: Seq<A>, f: spec_fn(A) -> bool)
    ensures
        last_match(s.take(s.len() as int), f) == last_match(s, f),
{
    assert(s.take(s.len() as int) =~= s);
}

/// The total after adding one stake.
pub proof fn lemma_total_staked_push(infos: Seq<StakingInfo>, x: StakingInfo)
    ensures
        total_staked(infos.push(x)) == total_staked(infos) + x.amount,
{
    assert(infos.push(x).drop_last() =~= infos);
}

/// The total after replacing one stake.
pub proof fn lemma_total_staked_update(infos: Seq<StakingInfo>, p: int, x: StakingInfo)
    requires
        0 <= p < infos.len(),
    ensures
        total_staked(infos.update(p, x)) == total_staked(infos) - infos[p].amount + x.amount,
    decreases infos.len(),
{
    if p == infos.len() - 1 {
        assert(infos.update(p, x).drop_last() =~= infos.drop_last());
    } else {
        lemma_total_staked_update(infos.drop_last(), p, x);
        assert(infos.update(p, x).drop_last() =~= infos.drop_last().update(p, x));
    }
}

/// The total after removing one stake.
pub proof fn lemma_total_staked_remove(infos: Seq<StakingInfo>, p: int)
    requires
        0 <= p < infos.len(),
    ensures
        total_staked(infos.remove(p)) == total_staked(infos) - infos[p].amount,
    decreases infos.len(),
{
    if p == infos.len() - 1 {
        assert(infos.remove(p) =~= infos.drop_last());
    } else {
        lemma_total_staked_remove(infos.drop_last(), p);
        assert(infos.remove(p).drop_last() =~= infos.drop_last().remove(p));
        assert(infos.remove(p).last() == infos.last());
    }
}

// ---------------------------------------------------------------------------
// Searches
// ---------------------------------------------------------------------------

/// `Some(p)` as the integer `p`, `None` as -1.
pub open spec fn position(o: Option<usize>) -> int {
    match o {
        Some(p) => p as int,
        None => -1,
    }
}

/// Position of the last tier entry of `holder`.
fn find_tier(tiers: &Vec<Tier>, holder: &Pubkey) -> (r: Option<usize>)
    ensures
        position(r) == last_match(tiers@, tier_of_holder(*holder)),
{
    let mut found: Option<usize> = None;
    let mut i: usize = 0;
    while i < tiers.len()
        invariant
            i <= tiers@.len(),
            position(found) == last_match(tiers@.take(i as int), tier_of_holder(*holder)),
        decreases tiers@.len() - i,
    {
        proof {
            lemma_last_match_step(tiers@, tier_of_holder(*holder), i as int);
        }
        if tiers[i].address == *holder {
            found = Some(i);
        }
        i = i + 1;
    }
    proof {
        lemma_last_match_full(tiers@, tier_of_holder(*holder));
    }
    found
}

/// Position of the last candidacy of `holder`.
fn find_candidate(cands: &Vec<TierCandiate>, holder: &Pubkey) -> (r: Option<usize>)
    ensures
        position(r) == last_match(cands@, candidate_of_holder(*holder)),
{
    let mut found: Option<usize> = None;
    let mut i: usize = 0;
    while i < cands.len()
        invariant
            i <= cands@.len(),
            position(found) == last_match(cands@.take(i as int), candidate_of_holder(*holder)),
        decreases cands@.len() - i,
    {
        proof {
            lemma_last_match_step(cands@, candidate_of_holder(*holder), i as int);
        }
        if cands[i].address == *holder {
            found = Some(i);
        }
        i = i + 1;
    }
    proof {
        lemma_last_match_full(cands@, candidate_of_holder(*holder));
    }
    found
}

/// Position of the last stake of `holder`.
fn find_last_stake(infos: &Vec<StakingInfo>, holder: &Pubkey) -> (r: Option<usize>)
    ensures
        position(r) == last_match(infos@, stake_of_holder(*holder)),
{
    let mut found: Option<usize> = None;
    let mut i: usize = 0;
    while i < infos.len()
        invariant
            i <= infos@.len(),
            position(found) == last_match(infos@.take(i as int), stake_of_holder(*holder)),
        decreases infos@.len() - i,
    {
        proof {
            lemma_last_match_step(infos@, stake_of_holder(*holder), i as int);
        }
        if infos[i].holder == *holder {
            found = Some(i);
        }
        i = i + 1;
    }
    proof {
        lemma_last_match_full(infos@, stake_of_holder(*holder));
    }
    found
}

/// Position of the last stake of `holder` with staking index `index`.
fn find_stake(infos: &Vec<StakingInfo>, holder: &Pubkey, index: u16) -> (r: Option<usize>)
    ensures
        position(r) == last_match(infos@, stake_with_index(*holder, index)),
{
    let mut found: Option<usize> = None;
    let mut i: usize = 0;
    while i < infos.len()
        invariant
            i <= infos@.len(),
            position(found) == last_match(
                infos@.take(i as int),
                stake_with_index(*holder, index),
            ),
        decreases infos@.len() - i,
    {
        proof {
            lemma_last_match_step(infos@, stake_with_index(*holder, index), i as int);
        }
        if infos[i].holder == *holder && infos[i].index == index {
            found = Some(i);
        }
        i = i + 1;
    }
    proof {
        lemma_last_match_full(infos@, stake_with_index(*holder, index));
    }
    found
}

// ---------------------------------------------------------------------------
// Effects of the instructions
// ---------------------------------------------------------------------------

/// Whether a stake of `v` for `duration` passes the program's checks.
pub open spec fn stake_accepted(s: StakingState, holder_balance: u64, v: int, duration: u8) -> bool {
    !s.paused && v <= holder_balance && duration < DURATION_COUNT
}

/// The interest rate of a stake: four per tier, plus the duration.
pub open spec fn stake_rate(s: StakingState, holder: Pubkey, duration: u8) -> int {
    tier_value(s.tier, holder) * 4 + duration
}

/// Whether a stake makes `holder` a candidate for the next tier: it exceeds
/// the next tier's threshold and is longer than the current tier.
pub open spec fn qualifies_for_next_tier(s: StakingState, holder: Pubkey, v: int, duration: u8) -> bool {
    let t = tier_value(s.tier, holder);
    t < MAX_TIER && v > tier_amount(t + 1) && duration > t
}

/// The record of a new stake.
pub open spec fn stake_record(
    s: StakingState,
    holder: Pubkey,
    v: int,
    now: i64,
    duration: u8,
) -> StakingInfo {
    StakingInfo {
        total_index: 0,
        holder,
        amount: v as u64,
        start_date: now,
        expire_date: (now + staking_period(duration as int)) as i64,
        duration,
        claim_day: 0,
        interest_rate: stake_rate(s, holder, duration) as u8,
        index: (last_stake_index(s.staking_infos, holder) + 1) as u16,
    }
}

/// Daily reward of the foundation node for a balance: 7.5% a year over 365 days.
pub open spec fn foundation_reward(balance: u64) -> int {
    balance * 75 / 1000 / 365
}

/// What `stake` answers.
pub open spec fn stake_outcome(
    s: StakingState,
    holder: Pubkey,
    holder_balance: u64,
    v: int,
    duration: u8,
) -> Result<Stake, ErrorCode> {
    if s.paused {
        Err(ErrorCode::ErrorForPause)
    } else if v > holder_balance {
        Err(ErrorCode::NotEnoughExoToken)
    } else if duration >= DURATION_COUNT {
        Err(ErrorCode::DurationNotMatch)
    } else {
        Ok(
            Stake {
                holder,
                amount: v as u64,
                interest_rate: stake_rate(s, holder, duration) as u8,
            },
        )
    }
}

/// Whether an accepted stake stays within the program's limits: the
/// foundation node's reward computation, the expiry date and the next
/// staking index (computed from every stake of the holder) must not
/// overflow, and the counter of the stake's rate must exist and not overflow.
pub open spec fn stake_within_limits(
    s: StakingState,
    holder: Pubkey,
    holder_balance: u64,
    foundation_node_balance: u64,
    now: i64,
    v: int,
    duration: u8,
) -> bool {
    stake_accepted(s, holder_balance, v, duration) ==> if holder == s.foundation_node {
        foundation_node_balance * 75 <= u64::MAX
    } else {
        &&& now + staking_period(duration as int) <= i64::MAX
        &&& forall|i: int|
            0 <= i < s.staking_infos.len() && #[trigger] s.staking_infos[i].holder == holder
                ==> s.staking_infos[i].index < u16::MAX
        &&& stake_rate(s, holder, duration) < s.interest_holder_counter.len()
        &&& s.interest_holder_counter[stake_rate(s, holder, duration)] < u32::MAX
    }
}

/// The account after an accepted stake.
pub open spec fn stake_effect(
    s: StakingState,
    holder: Pubkey,
    foundation_node_balance: u64,
    now: i64,
    v: int,
    duration: u8,
) -> StakingState {
    if holder == s.foundation_node {
        StakingState { fn_reward: foundation_reward(foundation_node_balance) as u64, ..s }
    } else {
        let rate = stake_rate(s, holder, duration);
        StakingState {
            staking_infos: s.staking_infos.push(stake_record(s, holder, v, now, duration)),
            interest_holder_counter: s.interest_holder_counter.update(
                rate,
                (s.interest_holder_counter[rate] + 1) as u32,
            ),
            tier_candidate: if qualifies_for_next_tier(s, holder, v, duration) {
                register_candidate(s.tier_candidate, holder)
            } else {
                s.tier_candidate
            },
            ..s
        }
    }
}

/// Position of the stake that `unstake` pays out.
pub open spec fn unstake_target(s: StakingState, holder: Pubkey, staking_index: u16) -> int {
    last_match(s.staking_infos, stake_with_index(holder, staking_index))
}

/// What `unstake` answers.
pub open spec fn unstake_outcome(
    s: StakingState,
    holder: Pubkey,
    now: i64,
    staking_index: u16,
) -> Result<UnStake, ErrorCode> {
    let p = unstake_target(s, holder, staking_index);
    if s.paused {
        Err(ErrorCode::ErrorForPause)
    } else if last_stake_index(s.staking_infos, holder) <= staking_index || p < 0 {
        Err(ErrorCode::InvalidStakingIndex)
    } else if now < s.staking_infos[p].expire_date && s.staking_infos[p].interest_rate % 4 != 0 {
        Err(ErrorCode::UnStakingFailed)
    } else {
        Ok(
            UnStake {
                holder,
                amount: s.staking_infos[p].amount,
                interest_rate: s.staking_infos[p].interest_rate,
            },
        )
    }
}

/// Whether unstaking `target` promotes `holder`: the stake lasted at least
/// the holder's tier and the holder is a confirmed candidate.
pub open spec fn promotes(s: StakingState, holder: Pubkey, target: StakingInfo) -> bool {
    target.duration >= tier_value(s.tier, holder) && is_confirmed_candidate(s.tier_candidate, holder)
}

/// The tier list after a promotion of `holder` (none past tier 3).
pub open spec fn promoted_tiers(tiers: Seq<Tier>, holder: Pubkey) -> Seq<Tier> {
    let p = last_match(tiers, tier_of_holder(holder));
    let t = tier_value(tiers, holder);
    if t >= MAX_TIER {
        tiers
    } else if p >= 0 {
        tiers.update(p, Tier { address: holder, value: (t + 1) as u8 })
    } else {
        tiers.push(Tier { address: holder, value: 1 })
    }
}

/// The candidacy list after a promotion of `holder`: its last candidacy is reset.
pub open spec fn retired_candidates(cands: Seq<TierCandiate>, holder: Pubkey) -> Seq<TierCandiate> {
    cands.update(
        last_match(cands, candidate_of_holder(holder)),
        TierCandiate { address: holder, value: false },
    )
}

/// Position of the holder's last stake.
pub open spec fn last_stake_position(s: StakingState, holder: Pubkey) -> int {
    last_match(s.staking_infos, stake_of_holder(holder))
}

/// Whether an accepted unstake stays within the program's limits: the
/// counter of the paid-out stake's rate must exist and not go below zero.
pub open spec fn unstake_within_limits(
    s: StakingState,
    holder: Pubkey,
    now: i64,
    staking_index: u16,
) -> bool {
    let rate = s.staking_infos[unstake_target(s, holder, staking_index)].interest_rate as int;
    unstake_outcome(s, holder, now, staking_index) is Ok ==> {
        &&& rate < s.interest_holder_counter.len()
        &&& s.interest_holder_counter[rate] > 0
    }
}

/// The account after an accepted unstake. The paid-out stake keeps its
/// record, renumbered to one below the staking index of the holder's last
/// stake; the holder's last stake is deleted; the paid-out stake's rate is
/// counted down; a confirmed candidate moves up one tier.
pub open spec fn unstake_effect(s: StakingState, holder: Pubkey, staking_index: u16) -> StakingState {
    let p = unstake_target(s, holder, staking_index);
    let lp = last_stake_position(s, holder);
    let target = s.staking_infos[p];
    let rate = target.interest_rate as int;
    let renumbered = s.staking_infos.update(
        p,
        StakingInfo { index: (s.staking_infos[lp].index - 1) as u16, ..target },
    );
    StakingState {
        staking_infos: renumbered.remove(lp),
        interest_holder_counter: s.interest_holder_counter.update(
            rate,
            (s.interest_holder_counter[rate] - 1) as u32,
        ),
        tier: if promotes(s, holder, target) {
            promoted_tiers(s.tier, holder)
        } else {
            s.tier
        },
        tier_candidate: if promotes(s, holder, target) {
            retired_candidates(s.tier_candidate, holder)
        } else {
            s.tier_candidate
        },
        ..s
    }
}

// ---------------------------------------------------------------------------
// Instructions
// ---------------------------------------------------------------------------

/// Creates the program's account: `user` holds the admin and owner roles,
/// nothing staked, no rate counters, not paused.
pub fn initialize(user: Pubkey, exo_address: Pubkey, gcred_address: Pubkey, bump: u8) -> (r: BaseAccount)
    ensures
        r.wf(),
        r.default_admin_role == user,
        r.owner_role == user,
        r.exo_role == exo_address,
        r.exo_address == exo_address,
        r.gcred_address == gcred_address,
        r.bump == bump,
        is_zero_key(r.foundation_node),
        r.max_reward == 0,
        r.total_reward_amount == 0,
        r.fn_reward == 0,
        r.staking_infos@.len() == 0,
        r.interest_holder_counter@.len() == 0,
        r.tier@.len() == 0,
        r.tier_candidate@.len() == 0,
        !r.paused,
{
    BaseAccount {
        default_admin_role: user,
        owner_role: user,
        exo_role: exo_address,
        exo_address,
        gcred_address,
        max_reward: 0,
        total_reward_amount: 0,
        foundation_node: Pubkey::zeroed(),
        fn_reward: 0,
        staking_infos: Vec::new(),
        interest_holder_counter: Vec::new(),
        tier: Vec::new(),
        tier_candidate: Vec::new(),
        paused: false,
        bump,
    }
}

/// Confirms the candidacies of `holder`, or adds an unconfirmed one.
fn register_candidate_in(cands: &mut Vec<TierCandiate>, holder: &Pubkey)
    ensures
        final(cands)@ == register_candidate(old(cands)@, *holder),
{
    let ghost s = cands@;
    let mut found = false;
    let mut i: usize = 0;
    while i < cands.len()
        invariant
            cands@.len() == s.len(),
            0 <= i <= s.len(),
            forall|j: int| 0 <= j < i ==> #[trigger] cands@[j] == confirm_one(s[j], *holder),
            forall|j: int| i <= j < s.len() ==> #[trigger] cands@[j] == s[j],
            found == exists|j: int| 0 <= j < i && #[trigger] s[j].address == *holder,
        decreases s.len() - i,
    {
        if cands[i].address == *holder {
            let a = cands[i].address;
            cands.set(i, TierCandiate { address: a, value: true });
            found = true;
            assert(s[i as int].address == *holder);
        }
        i = i + 1;
    }
    if !found {
        cands.push(TierCandiate { address: *holder, value: false });
        assert(cands@ =~= register_candidate(s, *holder));
    } else {
        assert(cands@ =~= register_candidate(s, *holder));
    }
}

/// Stakes `amount` (decimal text) EXO of `holder` for `duration` (0 to 3).
///
/// Refused while paused, beyond the holder's balance, or for a duration past 3.
/// For the foundation node it only sets the node's daily reward from the
/// node's balance; for anyone else it records the stake at the holder's
/// rate, counts it in its rate's counter, and registers a tier candidacy
/// when the stake qualifies.
/// On success the caller transfers the returned amount from the holder to
/// the program's account.
pub fn stake(
    base: &mut BaseAccount,
    holder: Pubkey,
    holder_balance: u64,
    foundation_node_balance: u64,
    now: i64,
    amount: &str,
    duration: u8,
) -> (r: Result<Stake, ErrorCode>)
    requires
        old(base).wf(),
        is_amount_text(amount.spec_bytes()),
        stake_within_limits(
            old(base)@,
            holder,
            holder_balance,
            foundation_node_balance,
            now,
            amount_value(amount.spec_bytes()),
            duration,
        ),
    ensures
        r == stake_outcome(
            old(base)@,
            holder,
            holder_balance,
            amount_value(amount.spec_bytes()),
            duration,
        ),
        r is Err ==> final(base)@ == old(base)@,
        r is Ok ==> final(base)@ == stake_effect(
            old(base)@,
            holder,
            foundation_node_balance,
            now,
            amount_value(amount.spec_bytes()),
            duration,
        ),
        final(base).wf(),
        total_staked(final(base)@.staking_infos) == total_staked(old(base)@.staking_infos) + if r
            is Ok && holder != old(base).foundation_node {
            amount_value(amount.spec_bytes())
        } else {
            0
        },
{
    let ghost s = base@;
    let parsed = parse_amount(amount);
    let v = parsed.unwrap();
    if base.paused {
        return Err(ErrorCode::ErrorForPause);
    }
    if v > holder_balance {
        return Err(ErrorCode::NotEnoughExoToken);
    }
    if duration >= DURATION_COUNT {
        return Err(ErrorCode::DurationNotMatch);
    }
    let tier_pos = find_tier(&base.tier, &holder);
    proof {
        lemma_last_match_props(s.tier, tier_of_holder(holder));
    }
    let tier_holder: u8 = match tier_pos {
        Some(p) => base.tier[p].value,
        None => 0,
    };
    assert(tier_holder == tier_value(s.tier, holder));
    let interest_rate: u8 = tier_holder * 4 + duration;
    if holder == base.foundation_node {
        base.fn_reward = foundation_node_balance * 75 / 1000 / 365;
        assert(base@ == stake_effect(s, holder, foundation_node_balance, now, v as int, duration));
    } else {
        let min_amount = getTierAmount();
        let period = getStakingPeriod();
        let last = find_last_stake(&base.staking_infos, &holder);
        proof {
            lemma_last_match_props(s.staking_infos, stake_of_holder(holder));
        }
        let index: u16 = match last {
            Some(p) => base.staking_infos[p].index + 1,
            None => 1,
        };
        let record = StakingInfo {
            total_index: 0,
            holder,
            amount: v,
            start_date: now,
            expire_date: now + period[duration as usize],
            duration,
            claim_day: 0,
            interest_rate,
            index,
        };
        assert(record == stake_record(s, holder, v as int, now, duration));
        assert(stake_is_consistent(record));
        base.staking_infos.push(record);
        proof {
            lemma_total_staked_push(s.staking_infos, record);
        }
        let c = base.interest_holder_counter[interest_rate as usize];
        base.interest_holder_counter.set(interest_rate as usize, c + 1);
        if tier_holder < MAX_TIER && v > min_amount[(tier_holder + 1) as usize] && duration
            > tier_holder {
            register_candidate_in(&mut base.tier_candidate, &holder);
        }
        proof {
            assert(base@ == stake_effect(s, holder, foundation_node_balance, now, v as int, duration));
        }
    }
    Ok(Stake { holder, amount: v, interest_rate })
}

/// Unstakes the stake of `holder` whose staking index is `staking_index`,
/// at time `now`.
///
/// Refused while paused; for an index that is not below the staking index
/// of the holder's last stake or that names none of its stakes; and for a
/// stake with a non-zero duration that has not expired yet. Otherwise the
/// paid-out stake is renumbered to one below the holder's last staking index
/// and the holder's last stake is deleted; the paid-out stake's rate is
/// counted down; a confirmed tier candidate whose stake lasted at least its
/// tier moves up one tier (to at most 3) and its candidacy is reset. The
/// caller then transfers the returned amount from the program's account
/// back to the holder.
pub fn unstake(base: &mut BaseAccount, holder: Pubkey, now: i64, staking_index: u16) -> (r: Result<
    UnStake,
    ErrorCode,
>)
    requires
        old(base).wf(),
        unstake_within_limits(old(base)@, holder, now, staking_index),
    ensures
        r == unstake_outcome(old(base)@, holder, now, staking_index),
        r is Err ==> final(base)@ == old(base)@,
        r is Ok ==> final(base)@ == unstake_effect(old(base)@, holder, staking_index),
        final(base).wf(),
        r is Ok ==> total_staked(final(base)@.staking_infos) == total_staked(
            old(base)@.staking_infos,
        ) - old(base)@.staking_infos[last_stake_position(old(base)@, holder)].amount,
{
    let ghost s = base@;
    if base.paused {
        return Err(ErrorCode::ErrorForPause);
    }
    let last = find_last_stake(&base.staking_infos, &holder);
    proof {
        lemma_last_match_props(s.staking_infos, stake_of_holder(holder));
        lemma_last_match_props(s.staking_infos, stake_with_index(holder, staking_index));
        lemma_last_match_props(s.tier, tier_of_holder(holder));
        lemma_last_match_props(s.tier_candidate, candidate_of_holder(holder));
    }
    let max_length: u16 = match last {
        Some(p) => base.staking_infos[p].index,
        None => 0,
    };
    if max_length <= staking_index {
        return Err(ErrorCode::InvalidStakingIndex);
    }
    let last_pos = match last {
        Some(p) => p,
        None => {
            return Err(ErrorCode::InvalidStakingIndex);
        },
    };
    let target_pos = match find_stake(&base.staking_infos, &holder, staking_index) {
        Some(p) => p,
        None => {
            return Err(ErrorCode::InvalidStakingIndex);
        },
    };
    let target = base.staking_infos[target_pos];
    if now < target.expire_date && target.interest_rate % 4 != 0 {
        return Err(ErrorCode::UnStakingFailed);
    }
    assert(stake_is_consistent(target));
    assert(target_pos != last_pos);
    let cand_pos = find_candidate(&base.tier_candidate, &holder);
    let tier_pos = find_tier(&base.tier, &holder);
    let tier_value: u8 = match tier_pos {
        Some(p) => base.tier[p].value,
        None => 0,
    };
    let confirmed: bool = match cand_pos {
        Some(p) => base.tier_candidate[p].value,
        None => false,
    };
    assert(confirmed == is_confirmed_candidate(s.tier_candidate, holder));
    if target.duration >= tier_value && confirmed {
        if tier_value < MAX_TIER {
            match tier_pos {
                Some(p) => {
                    base.tier.set(p, Tier { address: holder, value: tier_value + 1 });
                },
                None => {
                    base.tier.push(Tier { address: holder, value: 1 });
                },
            }
        }
        match cand_pos {
            Some(p) => {
                base.tier_candidate.set(p, TierCandiate { address: holder, value: false });
            },
            None => {},
        }
        assert(base@.tier =~= promoted_tiers(s.tier, holder));
    }
    let rate = target.interest_rate as usize;
    let c = base.interest_holder_counter[rate];
    base.interest_holder_counter.set(rate, c - 1);
    let renumbered = StakingInfo { index: max_length - 1, ..target };
    base.staking_infos.set(target_pos, renumbered);
    let ghost updated = base@.staking_infos;
    base.staking_infos.remove(last_pos);
    proof {
        assert(stake_is_consistent(renumbered));
        lemma_total_staked_update(s.staking_infos, target_pos as int, renumbered);
        lemma_total_staked_remove(updated, last_pos as int);
        assert(updated[last_pos as int] == s.staking_infos[last_pos as int]);
        assert forall|i: int| 0 <= i < base@.staking_infos.len() implies stake_is_consistent(
            #[trigger] base@.staking_infos[i],
        ) by {
            if i < last_pos {
                assert(base@.staking_infos[i] == updated[i]);
            } else {
                assert(base@.staking_infos[i] == updated[i + 1]);
            }
        }
        assert(base@ == unstake_effect(s, holder, staking_index));
    }
    Ok(UnStake { holder, amount: target.amount, interest_rate: target.interest_rate })
}

/// Pauses the program; only the owner may.
pub fn pause(base: &mut BaseAccount, user: Pubkey) -> (r: Result<(), ErrorCode>)
    ensures
        r == if old(base).owner_role == user {
            Ok::<(), ErrorCode>(())
        } else {
            Err(ErrorCode::NotOwnerAccount)
        },
        r is Ok ==> final(base)@ == (StakingState { paused: true, ..old(base)@ }),
        r is Err ==> final(base)@ == old(base)@,
        old(base).wf() ==> final(base).wf(),
{
    if base.owner_role != user {
        return Err(ErrorCode::NotOwnerAccount);
    }
    base.paused = true;
    Ok(())
}

/// Unpauses the program; only the owner may.
pub fn unpause(base: &mut BaseAccount, user: Pubkey) -> (r: Result<(), ErrorCode>)
    ensures
        r == if old(base).owner_role == user {
            Ok::<(), ErrorCode>(())
        } else {
            Err(ErrorCode::NotOwnerAccount)
        },
        r is Ok ==> final(base)@ == (StakingState { paused: false, ..old(base)@ }),
        r is Err ==> final(base)@ == old(base)@,
        old(base).wf() ==> final(base).wf(),
{
    if base.owner_role != user {
        return Err(ErrorCode::NotOwnerAccount);
    }
    base.paused = false;
    Ok(())
}

/// Sets the GCRED token address; only the owner may.
pub fn set_gcred_address(base: &mut BaseAccount, user: Pubkey, gcred_address: Pubkey) -> (r: Result<
    GCREDAddressUpdated,
    ErrorCode,
>)
    ensures
        r == if old(base).owner_role == user {
            Ok(GCREDAddressUpdated { gcred_address })
        } else {
            Err(ErrorCode::NotOwnerAccount)
        },
        r is Ok ==> final(base)@ == (StakingState { gcred_address, ..old(base)@ }),
        r is Err ==> final(base)@ == old(base)@,
        old(base).wf() ==> final(base).wf(),
{
    if base.owner_role != user {
        return Err(ErrorCode::NotOwnerAccount);
    }
    base.gcred_address = gcred_address;
    Ok(GCREDAddressUpdated { gcred_address })
}

/// Sets the foundation node; only the owner may.
pub fn set_fn_address(base: &mut BaseAccount, user: Pubkey, foundation_node: Pubkey) -> (r: Result<
    FoundationNodeUpdated,
    ErrorCode,
>)
    ensures
        r == if old(base).owner_role == user {
            Ok(FoundationNodeUpdated { foundation_node })
        } else {
            Err(ErrorCode::NotOwnerAccount)
        },
        r is Ok ==> final(base)@ == (StakingState { foundation_node, ..old(base)@ }),
        r is Err ==> final(base)@ == old(base)@,
        old(base).wf() ==> final(base).wf(),
{
    if base.owner_role != user {
        return Err(ErrorCode::NotOwnerAccount);
    }
    base.foundation_node = foundation_node;
    Ok(FoundationNodeUpdated { foundation_node })
}

/// Sets the EXO token address; only the owner may.
pub fn set_exo_address(base: &mut BaseAccount, user: Pubkey, exo_address: Pubkey) -> (r: Result<
    ExoAddressUpdated,
    ErrorCode,
>)
    ensures
        r == if old(base).owner_role == user {
            Ok(ExoAddressUpdated { exo_address })
        } else {
            Err(ErrorCode::NotOwnerAccount)
        },
        r is Ok ==> final(base)@ == (StakingState { exo_address, ..old(base)@ }),
        r is Err ==> final(base)@ == old(base)@,
        old(base).wf() ==> final(base).wf(),
{
    if base.owner_role != user {
        return Err(ErrorCode::NotOwnerAccount);
    }
    base.exo_address = exo_address;
    Ok(ExoAddressUpdated { exo_address })
}

impl BaseAccount {
    /// Checks the account's invariant, for an account read back from storage.
    pub fn is_well_formed(&self) -> (r: bool)
        ensures
            r == self.wf(),
    {
        let ghost s = self@;
        let n = self.staking_infos.len();
        let mut i: usize = 0;
        while i < n
            invariant
                s == self@,
                n == s.staking_infos.len(),
                i <= n,
                forall|j: int| 0 <= j < i ==> stake_is_consistent(#[trigger] s.staking_infos[j]),
            decreases n - i,
        {
            let st = self.staking_infos[i];
            if !(st.index >= 1 && st.duration < DURATION_COUNT && (st.interest_rate as usize)
                < INTEREST_RATE_COUNT && st.interest_rate % 4 == st.duration) {
                return false;
            }
            i = i + 1;
        }
        let m = self.tier.len();
        let mut j: usize = 0;
        while j < m
            invariant
                s == self@,
                m == s.tier.len(),
                j <= m,
                forall|x: int| 0 <= x < j ==> #[trigger] s.tier[x].value <= MAX_TIER,
            decreases m - j,
        {
            if self.tier[j].value > MAX_TIER {
                return false;
            }
            j = j + 1;
        }
        true
    }

    /// Whether a stake with these arguments stays within the limits that
    /// `stake` requires (`stake_within_limits`).
    pub fn stake_fits_limits(
        &self,
        holder: Pubkey,
        holder_balance: u64,
        foundation_node_balance: u64,
        now: i64,
        amount: &str,
        duration: u8,
    ) -> (r: bool)
        requires
            self.wf(),
            is_amount_text(amount.spec_bytes()),
        ensures
            r == stake_within_limits(
                self@,
                holder,
                holder_balance,
                foundation_node_balance,
                now,
                amount_value(amount.spec_bytes()),
                duration,
            ),
    {
        let ghost s = self@;
        let v = parse_amount(amount).unwrap();
        if self.paused || v > holder_balance || duration >= DURATION_COUNT {
            return true;
        }
        if holder == self.foundation_node {
            let fits = foundation_node_balance <= u64::MAX / 75;
            assert(fits == (foundation_node_balance * 75 <= u64::MAX)) by (nonlinear_arith)
                requires
                    fits == (foundation_node_balance <= u64::MAX / 75),
            ;
            return fits;
        }
        let period = getStakingPeriod();
        let p = period[duration as usize];
        assert(p == staking_period(duration as int));
        assert(p >= 0);
        if now > i64::MAX - p {
            return false;
        }
        let n = self.staking_infos.len();
        let mut i: usize = 0;
        while i < n
            invariant
                s == self@,
                n == s.staking_infos.len(),
                i <= n,
                forall|j: int|
                    0 <= j < i && #[trigger] s.staking_infos[j].holder == holder
                        ==> s.staking_infos[j].index < u16::MAX,
                !s.paused,
                v <= holder_balance,
                duration < DURATION_COUNT,
                holder != s.foundation_node,
                v == amount_value(amount.spec_bytes()),
            decreases n - i,
        {
            if self.staking_infos[i].holder == holder && self.staking_infos[i].index == u16::MAX {
                assert(s.staking_infos[i as int].holder == holder);
                assert(s.staking_infos[i as int].index == u16::MAX);
                return false;
            }
            i = i + 1;
        }
        let tier_pos = find_tier(&self.tier, &holder);
        proof {
            lemma_last_match_props(s.tier, tier_of_holder(holder));
        }
        let tier_holder: u8 = match tier_pos {
            Some(q) => self.tier[q].value,
            None => 0,
        };
        let rate = (tier_holder * 4 + duration) as usize;
        rate < self.interest_holder_counter.len() && self.interest_holder_counter[rate] < u32::MAX
    }

    /// Whether an unstake with these arguments stays within the limits that
    /// `unstake` requires (`unstake_within_limits`).
    pub fn unstake_fits_limits(&self, holder: Pubkey, now: i64, staking_index: u16) -> (r: bool)
        requires
            self.wf(),
        ensures
            r == unstake_within_limits(self@, holder, now, staking_index),
    {
        let ghost s = self@;
        if self.paused {
            return true;
        }
        let last = find_last_stake(&self.staking_infos, &holder);
        proof {
            lemma_last_match_props(s.staking_infos, stake_of_holder(holder));
            lemma_last_match_props(s.staking_infos, stake_with_index(holder, staking_index));
        }
        let max_length: u16 = match last {
            Some(p) => self.staking_infos[p].index,
            None => 0,
        };
        if max_length <= staking_index {
            return true;
        }
        let target_pos = match find_stake(&self.staking_infos, &holder, staking_index) {
            Some(p) => p,
            None => {
                return true;
            },
        };
        let target = self.staking_infos[target_pos];
        if now < target.expire_date && target.interest_rate % 4 != 0 {
            return true;
        }
        assert(stake_is_consistent(target));
        let rate = target.interest_rate as usize;
        rate < self.interest_holder_counter.len() && self.interest_holder_counter[rate] > 0
    }
}

// ---------------------------------------------------------------------------
// Laws
// ---------------------------------------------------------------------------

/// A holder's latest stake can never be unstaked: right after a stake is
/// recorded, unstaking it by its staking index is refused (the index must be
/// below that of the holder's last stake).
pub proof fn law_latest_stake_not_unstakable(
    s: StakingState,
    holder: Pubkey,
    holder_balance: u64,
    foundation_node_balance: u64,
    now: i64,
    v: int,
    duration: u8,
    later: i64,
)
    requires
        s.wf(),
        stake_accepted(s, holder_balance, v, duration),
        holder != s.foundation_node,
        last_stake_index(s.staking_infos, holder) < u16::MAX,
    ensures
        unstake_outcome(
            stake_effect(s, holder, foundation_node_balance, now, v, duration),
            holder,
            later,
            stake_record(s, holder, v, now, duration).index,
        ) == Err::<UnStake, ErrorCode>(ErrorCode::InvalidStakingIndex),
{
    let s1 = stake_effect(s, holder, foundation_node_balance, now, v, duration);
    let rec = stake_record(s, holder, v, now, duration);
    assert(s1.staking_infos.last() == rec);
    assert(last_match(s1.staking_infos, stake_of_holder(holder)) == s.staking_infos.len());
}

/// A recorded stake is refunded in full: after a holder stakes `v1` and then
/// stakes again, unstaking the first stake once it is unlocked (its duration
/// is 0 or it has expired) answers `v1` at the first stake's rate.
pub proof fn law_stake_refund(
    s: StakingState,
    holder: Pubkey,
    balance1: u64,
    balance2: u64,
    foundation_node_balance: u64,
    now1: i64,
    v1: int,
    d1: u8,
    now2: i64,
    v2: int,
    d2: u8,
    now3: i64,
)
    requires
        s.wf(),
        holder != s.foundation_node,
        stake_accepted(s, balance1, v1, d1),
        stake_accepted(
            stake_effect(s, holder, foundation_node_balance, now1, v1, d1),
            balance2,
            v2,
            d2,
        ),
        last_stake_index(s.staking_infos, holder) + 2 <= u16::MAX,
        now1 + staking_period(d1 as int) <= i64::MAX,
        d1 == 0 || now3 >= now1 + staking_period(d1 as int),
    ensures
        unstake_outcome(
            stake_effect(
                stake_effect(s, holder, foundation_node_balance, now1, v1, d1),
                holder,
                foundation_node_balance,
                now2,
                v2,
                d2,
            ),
            holder,
            now3,
            stake_record(s, holder, v1, now1, d1).index,
        ) == Ok::<UnStake, ErrorCode>(
            UnStake {
                holder,
                amount: v1 as u64,
                interest_rate: stake_rate(s, holder, d1) as u8,
            },
        ),
{
    let s1 = stake_effect(s, holder, foundation_node_balance, now1, v1, d1);
    let r1 = stake_record(s, holder, v1, now1, d1);
    let s2 = stake_effect(s1, holder, foundation_node_balance, now2, v2, d2);
    let r2 = stake_record(s1, holder, v2, now2, d2);
    let n = s.staking_infos.len();
    let k = r1.index;
    assert(s1.staking_infos.last() == r1);
    assert(last_match(s1.staking_infos, stake_of_holder(holder)) == n);
    assert(r2.index == k + 1);
    assert(s2.staking_infos.last() == r2);
    assert(last_match(s2.staking_infos, stake_of_holder(holder)) == n + 1);
    assert(s2.staking_infos.drop_last() =~= s1.staking_infos);
    assert(!stake_with_index(holder, k)(r2));
    assert(stake_with_index(holder, k)(r1));
    let f = stake_with_index(holder, k);
    assert(last_match(s1.staking_infos, f) == n);
    assert(last_match(s2.staking_infos, f) == last_match(s2.staking_infos.drop_last(), f));
    assert(unstake_target(s2, holder, k) == n);
    assert(s2.staking_infos[n as int] == r1);
    lemma_last_match_props(s.tier, tier_of_holder(holder));
    let t = tier_value(s.tier, holder);
    assert(0 <= t <= 3);
    assert((t * 4 + d1) % 4 == d1 as int) by (nonlinear_arith)
        requires
            0 <= d1 < 4,
            0 <= t,
    ;
}

/// Number of stakes at interest rate `rate`.
pub open spec fn stakes_at_rate(infos: Seq<StakingInfo>, rate: int) -> nat
    decreases infos.len(),
{
    if infos.len() == 0 {
        0
    } else {
        stakes_at_rate(infos.drop_last(), rate) + if infos.last().interest_rate == rate {
            1nat
        } else {
            0nat
        }
    }
}

/// Whether every rate counter equals the number of stakes at its rate.
pub open spec fn counters_count_stakes(s: StakingState) -> bool {
    forall|r: int|
        0 <= r < s.interest_holder_counter.len() ==> #[trigger] s.interest_holder_counter[r]
            == stakes_at_rate(s.staking_infos, r)
}

/// Counting after adding one stake.
pub proof fn lemma_stakes_at_rate_push(infos: Seq<StakingInfo>, x: StakingInfo, rate: int)
    ensures
        stakes_at_rate(infos.push(x), rate) == stakes_at_rate(infos, rate) + if x.interest_rate
            == rate {
            1int
        } else {
            0int
        },
{
    assert(infos.push(x).drop_last() =~= infos);
}

/// Counting after replacing one stake by one of the same rate.
pub proof fn lemma_stakes_at_rate_update(infos: Seq<StakingInfo>, p: int, x: StakingInfo, rate: int)
    requires
        0 <= p < infos.len(),
        x.interest_rate == infos[p].interest_rate,
    ensures
        stakes_at_rate(infos.update(p, x), rate) == stakes_at_rate(infos, rate),
    decreases infos.len(),
{
    if p == infos.len() - 1 {
        assert(infos.update(p, x).drop_last() =~= infos.drop_last());
    } else {
        lemma_stakes_at_rate_update(infos.drop_last(), p, x, rate);
        assert(infos.update(p, x).drop_last() =~= infos.drop_last().update(p, x));
    }
}

/// Counting after removing one stake.
pub proof fn lemma_stakes_at_rate_remove(infos: Seq<StakingInfo>, p: int, rate: int)
    requires
        0 <= p < infos.len(),
    ensures
        stakes_at_rate(infos.remove(p), rate) == stakes_at_rate(infos, rate) - if infos[p].interest_rate
            == rate {
            1int
        } else {
            0int
        },
    decreases infos.len(),
{
    if p == infos.len() - 1 {
        assert(infos.remove(p) =~= infos.drop_last());
    } else {
        lemma_stakes_at_rate_remove(infos.drop_last(), p, rate);
        assert(infos.remove(p).drop_last() =~= infos.drop_last().remove(p));
        assert(infos.remove(p).last() == infos.last());
    }
}

/// A stake keeps the rate counters counting: if every counter equals the
/// number of stakes at its rate before an accepted stake, it still does
/// after, and no counter is added or dropped.
pub proof fn law_stake_keeps_counts(
    s: StakingState,
    holder: Pubkey,
    holder_balance: u64,
    foundation_node_balance: u64,
    now: i64,
    v: int,
    duration: u8,
)
    requires
        s.wf(),
        counters_count_stakes(s),
        stake_accepted(s, holder_balance, v, duration),
        stake_within_limits(s, holder, holder_balance, foundation_node_balance, now, v, duration),
    ensures
        stake_effect(
            s,
            holder,
            foundation_node_balance,
            now,
            v,
            duration,
        ).interest_holder_counter.len() == s.interest_holder_counter.len(),
        counters_count_stakes(stake_effect(s, holder, foundation_node_balance, now, v, duration)),
{
    let s1 = stake_effect(s, holder, foundation_node_balance, now, v, duration);
    if holder != s.foundation_node {
        let rec = stake_record(s, holder, v, now, duration);
        let rate = stake_rate(s, holder, duration);
        lemma_last_match_props(s.tier, tier_of_holder(holder));
        assert(rec.interest_rate == rate);
        assert forall|r: int| 0 <= r < s1.interest_holder_counter.len() implies #[trigger] s1.interest_holder_counter[r]
            == stakes_at_rate(s1.staking_infos, r) by {
            lemma_stakes_at_rate_push(s.staking_infos, rec, r);
        }
    }
}

/// An unstake keeps the rate counters counting when the paid-out stake and
/// the holder's last stake (the one deleted) have the same rate.
pub proof fn law_unstake_keeps_counts_same_rate(
    s: StakingState,
    holder: Pubkey,
    now: i64,
    staking_index: u16,
)
    requires
        s.wf(),
        counters_count_stakes(s),
        unstake_outcome(s, holder, now, staking_index) is Ok,
        unstake_within_limits(s, holder, now, staking_index),
        s.staking_infos[unstake_target(s, holder, staking_index)].interest_rate
            == s.staking_infos[last_stake_position(s, holder)].interest_rate,
    ensures
        unstake_effect(s, holder, staking_index).interest_holder_counter.len()
            == s.interest_holder_counter.len(),
        counters_count_stakes(unstake_effect(s, holder, staking_index)),
{
    let p = unstake_target(s, holder, staking_index);
    let lp = last_stake_position(s, holder);
    lemma_last_match_props(s.staking_infos, stake_of_holder(holder));
    lemma_last_match_props(s.staking_infos, stake_with_index(holder, staking_index));
    let target = s.staking_infos[p];
    let renumbered = StakingInfo { index: (s.staking_infos[lp].index - 1) as u16, ..target };
    let updated = s.staking_infos.update(p, renumbered);
    let s1 = unstake_effect(s, holder, staking_index);
    assert(p != lp);
    assert(updated[lp] == s.staking_infos[lp]);
    assert forall|r: int| 0 <= r < s1.interest_holder_counter.len() implies #[trigger] s1.interest_holder_counter[r]
        == stakes_at_rate(s1.staking_infos, r) by {
        lemma_stakes_at_rate_update(s.staking_infos, p, renumbered, r);
        lemma_stakes_at_rate_remove(updated, lp, r);
    }
}

/// `last_match` is unchanged when its match is replaced by another match.
pub proof fn lemma_last_match_update<A>(s: Seq<A>, f: spec_fn(A) -> bool, p: int, x: A)
    requires
        0 <= p,
        p == last_match(s, f),
        f(x),
    ensures
        last_match(s.update(p, x), f) == p,
    decreases s.len(),
{
    lemma_last_match_props(s, f);
    if p == s.len() - 1 {
        assert(s.update(p, x).last() == x);
    } else {
        assert(!f(s.last()));
        assert(s.update(p, x).last() == s.last());
        assert(s.update(p, x).drop_last() =~= s.drop_last().update(p, x));
        lemma_last_match_update(s.drop_last(), f, p, x);
    }
}

/// Which stakes register or confirm a tier candidacy. A holder of tier `t`
/// becomes a candidate only with a stake above the threshold of tier `t + 1`
/// that is longer than `t`, and never past tier 3: any other stake, and any
/// stake of the foundation node, leaves the candidacy list as it was. A
/// qualifying stake adds an unconfirmed candidacy for a holder without one,
/// and confirms the candidacies of a holder that has some.
pub proof fn law_stake_candidacy(
    s: StakingState,
    holder: Pubkey,
    holder_balance: u64,
    foundation_node_balance: u64,
    now: i64,
    v: int,
    duration: u8,
)
    requires
        s.wf(),
        stake_accepted(s, holder_balance, v, duration),
    ensures
        ({
            let t = tier_value(s.tier, holder);
            let after = stake_effect(s, holder, foundation_node_balance, now, v, duration).tier_candidate;
            &&& (holder == s.foundation_node || t >= 3 || v <= tier_amount(t + 1) || duration <= t)
                ==> after == s.tier_candidate
            &&& (holder != s.foundation_node && t < 3 && v > tier_amount(t + 1) && duration > t
                && forall|i: int|
                0 <= i < s.tier_candidate.len() ==> #[trigger] s.tier_candidate[i].address != holder)
                ==> after == s.tier_candidate.push(TierCandiate { address: holder, value: false })
            &&& (holder != s.foundation_node && t < 3 && v > tier_amount(t + 1) && duration > t
                && exists|i: int|
                0 <= i < s.tier_candidate.len() && #[trigger] s.tier_candidate[i].address == holder)
                ==> {
                &&& after.len() == s.tier_candidate.len()
                &&& forall|i: int|
                    0 <= i < after.len() ==> #[trigger] after[i] == if s.tier_candidate[i].address
                        == holder {
                        TierCandiate { address: holder, value: true }
                    } else {
                        s.tier_candidate[i]
                    }
            }
        }),
{
    let t = tier_value(s.tier, holder);
    lemma_last_match_props(s.tier, tier_of_holder(holder));
    let after = stake_effect(s, holder, foundation_node_balance, now, v, duration).tier_candidate;
    if holder != s.foundation_node && t < 3 && v > tier_amount(t + 1) && duration > t {
        if exists|i: int|
            0 <= i < s.tier_candidate.len() && #[trigger] s.tier_candidate[i].address == holder {
            assert forall|i: int| 0 <= i < after.len() implies #[trigger] after[i] == if s.tier_candidate[i].address
                == holder {
                TierCandiate { address: holder, value: true }
            } else {
                s.tier_candidate[i]
            } by {
                assert(after[i] == confirm_one(s.tier_candidate[i], holder));
            }
        }
    }
}

/// Tier promotion on unstake. When the holder's last candidacy is confirmed
/// and the paid-out stake lasted at least the holder's tier `t`, the holder
/// moves to tier `t + 1` (staying at 3 from 3) and is no longer a confirmed
/// candidate. When the holder has no confirmed last candidacy, or the stake
/// was shorter than its tier, the tiers and candidacies are left as they were.
pub proof fn law_unstake_promotion(s: StakingState, holder: Pubkey, now: i64, staking_index: u16)
    requires
        s.wf(),
        unstake_outcome(s, holder, now, staking_index) is Ok,
    ensures
        ({
            let t = tier_value(s.tier, holder);
            let target = s.staking_infos[unstake_target(s, holder, staking_index)];
            let s1 = unstake_effect(s, holder, staking_index);
            let cands = s.tier_candidate;
            let confirmed = exists|c: int|
                0 <= c < cands.len() && #[trigger] cands[c].address == holder && cands[c].value
                    && forall|j: int| c < j < cands.len() ==> #[trigger] cands[j].address != holder;
            &&& confirmed && target.duration >= t && t < 3 ==> tier_value(s1.tier, holder) == t + 1
            &&& confirmed && target.duration >= t && t >= 3 ==> tier_value(s1.tier, holder) == t
            &&& confirmed && target.duration >= t ==> !is_confirmed_candidate(
                s1.tier_candidate,
                holder,
            ) && s1.tier_candidate.len() == cands.len()
            &&& !confirmed || target.duration < t ==> s1.tier == s.tier && s1.tier_candidate
                == cands
        }),
{
    let t = tier_value(s.tier, holder);
    let target = s.staking_infos[unstake_target(s, holder, staking_index)];
    let s1 = unstake_effect(s, holder, staking_index);
    let cands = s.tier_candidate;
    let ft = tier_of_holder(holder);
    let fc = candidate_of_holder(holder);
    lemma_last_match_props(s.tier, ft);
    lemma_last_match_props(cands, fc);
    let cp = last_match(cands, fc);
    let confirmed = exists|c: int|
        0 <= c < cands.len() && #[trigger] cands[c].address == holder && cands[c].value && forall|
            j: int,
        | c < j < cands.len() ==> #[trigger] cands[j].address != holder;
    if confirmed {
        let c = choose|c: int|
            0 <= c < cands.len() && #[trigger] cands[c].address == holder && cands[c].value
                && forall|j: int| c < j < cands.len() ==> #[trigger] cands[j].address != holder;
        assert(fc(cands[c]));
        assert(c == cp) by {
            if cp > c {
                assert(cands[cp].address != holder);
            }
        }
        assert(is_confirmed_candidate(cands, holder));
    } else {
        if is_confirmed_candidate(cands, holder) {
            assert(cands[cp].address == holder);
            assert(forall|j: int| cp < j < cands.len() ==> !fc(#[trigger] cands[j]));
            assert(forall|j: int| cp < j < cands.len() ==> #[trigger] cands[j].address != holder);
        }
        assert(!is_confirmed_candidate(cands, holder));
    }
    if is_confirmed_candidate(cands, holder) && target.duration >= t {
        let tp = last_match(s.tier, ft);
        if t < 3 {
            if tp >= 0 {
                lemma_last_match_update(s.tier, ft, tp, Tier { address: holder, value: (t + 1) as u8 });
            } else {
                assert(s.tier.push(Tier { address: holder, value: 1 }).last().address == holder);
            }
        }
        let x = TierCandiate { address: holder, value: false };
        lemma_last_match_update(cands, fc, cp, x);
        assert(s1.tier_candidate == cands.update(cp, x));
    }
}

/// The records after an unstake. The paid-out stake keeps its record, in
/// its place, with every field but its staking index unchanged; its index
/// becomes one below the staking index of the holder's last stake, and that
/// last stake is deleted. If no other stake of the holder carried the
/// unstaked index, and the index was not one below the last, a second
/// unstake of the same index is refused.
pub proof fn law_unstake_renumbers(
    s: StakingState,
    holder: Pubkey,
    now: i64,
    staking_index: u16,
    later: i64,
)
    requires
        s.wf(),
        unstake_outcome(s, holder, now, staking_index) is Ok,
    ensures
        ({
            let p = unstake_target(s, holder, staking_index);
            let lp = last_stake_position(s, holder);
            let last_index = last_stake_index(s.staking_infos, holder);
            let s1 = unstake_effect(s, holder, staking_index);
            &&& 0 <= p < lp < s.staking_infos.len()
            &&& s1.staking_infos.len() == s.staking_infos.len() - 1
            &&& s1.staking_infos[p].index == last_index - 1
            &&& s1.staking_infos[p] == (StakingInfo {
                index: s1.staking_infos[p].index,
                ..s.staking_infos[p]
            })
            &&& forall|i: int| 0 <= i < lp && i != p ==> #[trigger] s1.staking_infos[i] == s.staking_infos[i]
            &&& forall|i: int|
                lp <= i < s1.staking_infos.len() ==> #[trigger] s1.staking_infos[i]
                    == s.staking_infos[i + 1]
            &&& (staking_index + 1 != last_index && forall|i: int|
                0 <= i < s.staking_infos.len() && i != p && #[trigger] s.staking_infos[i].holder
                    == holder ==> s.staking_infos[i].index != staking_index) ==> unstake_outcome(
                s1,
                holder,
                later,
                staking_index,
            ) == Err::<UnStake, ErrorCode>(ErrorCode::InvalidStakingIndex)
        }),
{
    let p = unstake_target(s, holder, staking_index);
    let lp = last_stake_position(s, holder);
    let last_index = last_stake_index(s.staking_infos, holder);
    let s1 = unstake_effect(s, holder, staking_index);
    let f = stake_with_index(holder, staking_index);
    lemma_last_match_props(s.staking_infos, stake_of_holder(holder));
    lemma_last_match_props(s.staking_infos, f);
    assert(s.staking_infos[p].holder == holder);
    assert(p != lp);
    assert(p < lp);
    if staking_index + 1 != last_index && forall|i: int|
        0 <= i < s.staking_infos.len() && i != p && #[trigger] s.staking_infos[i].holder == holder
            ==> s.staking_infos[i].index != staking_index {
        assert forall|i: int| 0 <= i < s1.staking_infos.len() implies !f(
            #[trigger] s1.staking_infos[i],
        ) by {
            if i >= lp {
                assert(s1.staking_infos[i] == s.staking_infos[i + 1]);
                assert(!stake_of_holder(holder)(s.staking_infos[i + 1]));
            } else if i != p {
                assert(s1.staking_infos[i] == s.staking_infos[i]);
            }
        }
        lemma_last_match_props(s1.staking_infos, f);
    }
}

/// What an accepted stake records. For the foundation node only the daily
/// reward changes: 7.5% a year of the node's balance over 365 days. For any
/// other holder of tier `t`, one record is appended and nothing else changes
/// but the counters and candidacies: it holds the holder, the amount, the
/// time, an expiry `duration` times 30 days later, rate `4 t + duration` and
/// the staking index after the holder's last; the counter of that rate goes
/// up by one and no other counter changes.
pub proof fn law_stake_record(
    s: StakingState,
    holder: Pubkey,
    holder_balance: u64,
    foundation_node_balance: u64,
    now: i64,
    v: int,
    duration: u8,
)
    requires
        s.wf(),
        0 <= v,
        stake_accepted(s, holder_balance, v, duration),
        stake_within_limits(s, holder, holder_balance, foundation_node_balance, now, v, duration),
    ensures
        ({
            let s1 = stake_effect(s, holder, foundation_node_balance, now, v, duration);
            let t = tier_value(s.tier, holder);
            let n = s.staking_infos.len();
            let rate = 4 * t + duration;
            &&& s1.tier == s.tier
            &&& s1.paused == s.paused && s1.owner_role == s.owner_role
            &&& holder == s.foundation_node ==> {
                &&& s1.fn_reward == foundation_node_balance * 75 / 1000 / 365
                &&& s1.staking_infos == s.staking_infos
                &&& s1.interest_holder_counter == s.interest_holder_counter
                &&& s1.tier_candidate == s.tier_candidate
            }
            &&& holder != s.foundation_node ==> {
                &&& s1.fn_reward == s.fn_reward
                &&& s1.staking_infos.len() == n + 1
                &&& forall|i: int| 0 <= i < n ==> #[trigger] s1.staking_infos[i] == s.staking_infos[i]
                &&& s1.staking_infos[n as int].holder == holder
                &&& s1.staking_infos[n as int].amount == v
                &&& s1.staking_infos[n as int].start_date == now
                &&& s1.staking_infos[n as int].expire_date == now + duration * 2592000
                &&& s1.staking_infos[n as int].duration == duration
                &&& s1.staking_infos[n as int].claim_day == 0
                &&& s1.staking_infos[n as int].interest_rate == rate
                &&& s1.staking_infos[n as int].index == last_stake_index(s.staking_infos, holder)
                    + 1
                &&& s1.interest_holder_counter.len() == s.interest_holder_counter.len()
                &&& s1.interest_holder_counter[rate] == s.interest_holder_counter[rate] + 1
                &&& forall|r: int|
                    0 <= r < s.interest_holder_counter.len() && r != rate
                        ==> #[trigger] s1.interest_holder_counter[r]
                        == s.interest_holder_counter[r]
            }
        }),
{
    lemma_last_match_props(s.tier, tier_of_holder(holder));
    lemma_last_match_props(s.staking_infos, stake_of_holder(holder));
}

/// When an unstake is accepted and what it pays. A paused program refuses
/// it. An accepted unstake pays the amount, at the rate, of a stake of the
/// holder that carries the staking index, is below the staking index of the
/// holder's last stake, and has a zero duration or has expired. Conversely,
/// when the program runs, the index is below the holder's last, and every
/// stake of the holder carrying it is unlocked (and one does), it is
/// accepted. The paid stake's rate counter goes down by one and no other.
pub proof fn law_unstake_outcome(s: StakingState, holder: Pubkey, now: i64, staking_index: u16)
    requires
        s.wf(),
    ensures
        s.paused ==> unstake_outcome(s, holder, now, staking_index) == Err::<UnStake, ErrorCode>(
            ErrorCode::ErrorForPause,
        ),
        unstake_outcome(s, holder, now, staking_index) matches Ok(e) ==> {
            &&& e.holder == holder
            &&& exists|i: int|
                0 <= i < s.staking_infos.len() && #[trigger] s.staking_infos[i].holder == holder
                    && s.staking_infos[i].index == staking_index && e.amount
                    == s.staking_infos[i].amount && e.interest_rate
                    == s.staking_infos[i].interest_rate && (s.staking_infos[i].duration == 0
                    || now >= s.staking_infos[i].expire_date)
            &&& exists|l: int|
                0 <= l < s.staking_infos.len() && #[trigger] s.staking_infos[l].holder == holder
                    && staking_index < s.staking_infos[l].index && forall|j: int|
                    l < j < s.staking_infos.len() ==> #[trigger] s.staking_infos[j].holder
                        != holder
        },
        (!s.paused && staking_index < last_stake_index(s.staking_infos, holder) && (exists|i: int|
            0 <= i < s.staking_infos.len() && #[trigger] s.staking_infos[i].holder == holder
                && s.staking_infos[i].index == staking_index) && forall|i: int|
            0 <= i < s.staking_infos.len() && #[trigger] s.staking_infos[i].holder == holder
                && s.staking_infos[i].index == staking_index ==> (s.staking_infos[i].duration == 0
                || now >= s.staking_infos[i].expire_date)) ==> unstake_outcome(
            s,
            holder,
            now,
            staking_index,
        ) is Ok,
        unstake_outcome(s, holder, now, staking_index) matches Ok(e) ==> e.interest_rate
            < s.interest_holder_counter.len() ==> {
            let s1 = unstake_effect(s, holder, staking_index);
            &&& s1.interest_holder_counter.len() == s.interest_holder_counter.len()
            &&& s1.interest_holder_counter[e.interest_rate as int] == (
            s.interest_holder_counter[e.interest_rate as int] - 1) as u32
            &&& forall|r: int|
                0 <= r < s.interest_holder_counter.len() && r != e.interest_rate
                    ==> #[trigger] s1.interest_holder_counter[r] == s.interest_holder_counter[r]
        },
{
    let f = stake_with_index(holder, staking_index);
    let fh = stake_of_holder(holder);
    lemma_last_match_props(s.staking_infos, f);
    lemma_last_match_props(s.staking_infos, fh);
    let p = last_match(s.staking_infos, f);
    let lp = last_match(s.staking_infos, fh);
    if p >= 0 {
        assert(stake_is_consistent(s.staking_infos[p]));
        assert(s.staking_infos[p].holder == holder);
    }
    if lp >= 0 {
        assert(s.staking_infos[lp].holder == holder);
    }
    if !s.paused && staking_index < last_stake_index(s.staking_infos, holder) && (exists|i: int|
        0 <= i < s.staking_infos.len() && #[trigger] s.staking_infos[i].holder == holder
            && s.staking_infos[i].index == staking_index) {
        let i = choose|i: int|
            0 <= i < s.staking_infos.len() && #[trigger] s.staking_infos[i].holder == holder
                && s.staking_infos[i].index == staking_index;
        assert(f(s.staking_infos[i]));
    }
}

} // verus!
