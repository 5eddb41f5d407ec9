use vstd::prelude::*;

verus! {

/// Gauge-wide settings, changed only by the administrative operations.
#[derive(Debug)]
pub struct Config {
    /// The reward token.
    pub astro_token: String,
    /// Receives the dev cut of every emission; may hand the role on.
    pub dev_addr: String,
    /// May add pools and change their weights.
    pub owner: String,
    /// The upstream reward source, claimed once per settlement cycle.
    pub vesting_contract: String,
    /// Reward units emitted per block, over all pools.
    pub tokens_per_block: u128,
    /// No reward accrues before this block.
    pub start_block: u64,
    /// Last block of the bonus period.
    pub bonus_end_block: u64,
    /// Sum of the weights of all pools.
    pub total_alloc_point: u64,
    /// Proxies that a pool may delegate its LP custody to.
    pub allowed_reward_proxies: Vec<String>,
}

/// Accrual state of one pool.
#[derive(Debug, PartialEq, Eq)]
pub struct PoolInfo {
    /// Weight of the pool in the emission.
    pub alloc_point: u64,
    /// Block up to which the direct track is settled.
    pub last_reward_block: u64,
    /// Fixed-point reward of the direct track per staked unit.
    pub acc_per_share: u128,
    /// The proxy that holds the pool's LP tokens, if any.
    pub reward_proxy: Option<String>,
    /// Fixed-point reward of the proxy track per staked unit.
    pub acc_per_share_on_proxy: u128,
    /// Proxy reward balance seen when the current settlement cycle began.
    pub proxy_reward_balance_before_update: u128,
}

/// Stake and reward debt of one account in one pool.
#[derive(Debug, Clone, Copy, PartialEq, Eq, Structural)]
pub struct UserInfo {
    pub amount: u128,
    pub reward_debt: u128,
    pub reward_debt_proxy: u128,
}

/// A registered pool and the LP token it is keyed by.
#[derive(Debug)]
pub struct PoolEntry {
    pub lp_token: String,
    pub info: PoolInfo,
}

/// A position and the (pool, account) pair it is keyed by.
#[derive(Debug)]
pub struct UserEntry {
    pub lp_token: String,
    pub account: String,
    pub info: UserInfo,
}

/// An action deferred until the upstream reward source acknowledges its claim.
#[derive(Debug, PartialEq, Eq)]
pub enum ExecuteOnReply {
    MassUpdatePools,
    UpdatePool { lp_token: String },
    Deposit { lp_token: String, account: String, amount: u128 },
    Withdraw { lp_token: String, account: String, amount: u128 },
}

/// A request to an outside contract, issued by the gauge.
#[derive(Debug, PartialEq, Eq)]
pub enum Msg {
    /// The proxy refreshes its own reward accounting.
    ProxyUpdateRewards { proxy: String },
    /// The proxy pays `amount` of its reward to `account`.
    ProxySendRewards { proxy: String, account: String, amount: u128 },
    /// The gauge pays `amount` of the reward token to `recipient`.
    RewardTransfer { recipient: String, amount: u128 },
    /// `owner`'s LP tokens go to the proxy as a deposit on `owner`'s behalf.
    LpSendToProxy { lp_token: String, owner: String, proxy: String, amount: u128 },
    /// `owner`'s LP tokens go to the gauge.
    LpTransferFrom { lp_token: String, owner: String, amount: u128 },
    /// The gauge returns LP tokens to `recipient`.
    LpTransfer { lp_token: String, recipient: String, amount: u128 },
    /// The proxy returns `account`'s LP tokens.
    ProxyWithdraw { proxy: String, account: String, amount: u128 },
    /// The proxy returns `account`'s LP tokens, rewards forfeited.
    ProxyEmergencyWithdraw { proxy: String, account: String, amount: u128 },
    /// The upstream reward source releases the gauge's emission; its
    /// acknowledgment resumes the deferred action.
    VestingClaim { vesting_contract: String },
}

/// Figures read from outside before a pool is settled.
#[derive(Debug, Clone, Copy, PartialEq, Eq, Structural)]
pub struct Observation {
    /// Staked LP supply: the gauge's LP balance, or the proxy's deposit.
    pub lp_supply: u128,
    /// The proxy's cumulative reward balance (unused for a self-custodied pool).
    pub proxy_reward: u128,
}

/// A copy of an optional identity.
pub fn clone_identity(o: &Option<String>) -> (r: Option<String>)
    ensures
        r == *o,
{
    match o {
        Some(s) => Some(s.clone()),
        None => None,
    }
}

/// A copy of a pool's state.
pub fn clone_pool(p: &PoolInfo) -> (r: PoolInfo)
    ensures
        r == *p,
{
    PoolInfo {
        alloc_point: p.alloc_point,
        last_reward_block: p.last_reward_block,
        acc_per_share: p.acc_per_share,
        reward_proxy: clone_identity(&p.reward_proxy),
        acc_per_share_on_proxy: p.acc_per_share_on_proxy,
        proxy_reward_balance_before_update: p.proxy_reward_balance_before_update,
    }
}

} // verus!

verus! {

/// Settings the gauge is created with.
#[derive(Debug)]
pub struct InstantiateMsg {
    pub astro_token: String,
    pub dev_addr: String,
    pub vesting_contract: String,
    pub tokens_per_block: u128,
    pub start_block: u64,
    pub bonus_end_block: u64,
    pub allowed_reward_proxies: Vec<String>,
}

/// What a user's position would be paid if it were settled now.
#[derive(Debug, Clone, Copy, PartialEq, Eq, Structural)]
pub struct PendingTokenResponse {
    /// Reward of the direct track.
    pub pending: u128,
    /// Reward of the proxy track, when the proxy reports one.
    pub pending_on_proxy: Option<u128>,
}

} // verus!

verus! {

/// An operation submitted to the gauge.
#[derive(Debug, PartialEq, Eq)]
pub enum ExecuteMsg {
    Add { lp_token: String, alloc_point: u64, with_update: bool, reward_proxy: Option<String> },
    SetPoolWeight { lp_token: String, alloc_point: u64, with_update: bool },
    MassUpdatePools,
    UpdatePool { lp_token: String },
    Deposit { lp_token: String, amount: u128 },
    Withdraw { lp_token: String, amount: u128 },
    EmergencyWithdraw { lp_token: String },
    SetDev { dev_address: String },
    SetAllowedRewardProxies { proxies: Vec<String> },
}

} // verus!
