use vstd::prelude::*;
use crate::error::ContractError;
use crate::math::{
    decimal_from_ratio, get_multiplier, multiplier_ok, multiplier_spec, ratio_spec,
    DECIMAL_FRACTIONAL,
};
use crate::state::{clone_identity, Config, Msg, Observation, PoolInfo};

verus! {

/// The dev cut of an emission: a tenth, rounded down.
pub open spec fn dev_cut(x: int) -> int {
    x / 10
}

/// Weighted blocks since the pool's last settlement.
pub open spec fn pool_multiplier(pool: PoolInfo, cfg: &Config, height: u64) -> int {
    multiplier_spec(pool.last_reward_block as int, height as int, cfg.bonus_end_block as int)
}

/// `calculate_rewards` succeeds exactly when the multiplier is defined, no product leaves
/// `u128` and some weight is registered.
pub open spec fn reward_ok(pool: PoolInfo, cfg: &Config, height: u64) -> bool {
    let m = pool_multiplier(pool, cfg, height);
    &&& multiplier_ok(pool.last_reward_block as int, height as int, cfg.bonus_end_block as int)
    &&& m * cfg.tokens_per_block <= u128::MAX
    &&& m * cfg.tokens_per_block * pool.alloc_point <= u128::MAX
    &&& cfg.total_alloc_point > 0
}

/// The pool's share of the emission since its last settlement.
pub open spec fn reward_for_pool(pool: PoolInfo, cfg: &Config, height: u64) -> int {
    pool_multiplier(pool, cfg, height) * cfg.tokens_per_block * pool.alloc_point / (
    cfg.total_alloc_point as int)
}

/// The pool's emission since its last settlement: weighted blocks times the rate, split by
/// weight, rounded down.
pub fn calculate_rewards(pool: &PoolInfo, cfg: &Config, height: u64) -> (r: Result<
    u128,
    ContractError,
>)
    ensures
        r is Ok <==> reward_ok(*pool, cfg, height),
        r is Ok ==> r->Ok_0 == reward_for_pool(*pool, cfg, height),
        r is Err ==> r->Err_0 == ContractError::Arithmetic,
{
    let m = get_multiplier(pool.last_reward_block, height, cfg.bonus_end_block)?;
    let a = match (m as u128).checked_mul(cfg.tokens_per_block) {
        None => { return Err(ContractError::Arithmetic); },
        Some(a) => a,
    };
    let b = match a.checked_mul(pool.alloc_point as u128) {
        None => { return Err(ContractError::Arithmetic); },
        Some(b) => b,
    };
    if cfg.total_alloc_point == 0 {
        return Err(ContractError::Arithmetic);
    }
    Ok(b / (cfg.total_alloc_point as u128))
}

/// The proxy track runs when the pool is proxied and something is staked.
pub open spec fn proxy_track_runs(pool: PoolInfo, obs: Observation) -> bool {
    pool.reward_proxy is Some && obs.lp_supply != 0
}

/// Proxy reward gained since the settlement cycle began.
pub open spec fn proxy_delta(pool: PoolInfo, obs: Observation) -> int {
    obs.proxy_reward - pool.proxy_reward_balance_before_update
}

/// Per-share increment of the proxy track.
pub open spec fn proxy_share(pool: PoolInfo, obs: Observation) -> int {
    let delta = proxy_delta(pool, obs);
    ratio_spec(delta - dev_cut(delta), obs.lp_supply as int)
}

pub open spec fn proxy_track_ok(pool: PoolInfo, obs: Observation) -> bool {
    proxy_track_runs(pool, obs) ==> {
        &&& proxy_delta(pool, obs) >= 0
        &&& proxy_share(pool, obs) <= u128::MAX
        &&& pool.acc_per_share_on_proxy + proxy_share(pool, obs) <= u128::MAX
    }
}

/// The direct track pays out when blocks have passed and something is staked.
pub open spec fn direct_track_runs(pool: PoolInfo, height: u64, obs: Observation) -> bool {
    height > pool.last_reward_block && obs.lp_supply != 0
}

/// Per-share increment of the direct track: the emission less the dev cut, over the supply.
pub open spec fn direct_share(pool: PoolInfo, cfg: &Config, height: u64, obs: Observation) -> int {
    let rewards = reward_for_pool(pool, cfg, height);
    ratio_spec(rewards - dev_cut(rewards), obs.lp_supply as int)
}

pub open spec fn direct_track_ok(pool: PoolInfo, cfg: &Config, height: u64, obs: Observation) -> bool {
    direct_track_runs(pool, height, obs) ==> {
        &&& reward_ok(pool, cfg, height)
        &&& direct_share(pool, cfg, height, obs) <= u128::MAX
        &&& pool.acc_per_share + direct_share(pool, cfg, height, obs) <= u128::MAX
    }
}

/// Settlement succeeds exactly when neither track meets an arithmetic failure.
pub open spec fn settle_ok(pool: PoolInfo, cfg: &Config, height: u64, obs: Observation) -> bool {
    proxy_track_ok(pool, obs) && direct_track_ok(pool, cfg, height, obs)
}

/// The pool after settlement at `height`; a proxied pool records the observed proxy
/// balance as the base of its next delta.
pub open spec fn settled_pool(pool: PoolInfo, cfg: &Config, height: u64, obs: Observation) -> PoolInfo {
    PoolInfo {
        acc_per_share_on_proxy: if proxy_track_runs(pool, obs) {
            (pool.acc_per_share_on_proxy + proxy_share(pool, obs)) as u128
        } else {
            pool.acc_per_share_on_proxy
        },
        acc_per_share: if direct_track_runs(pool, height, obs) {
            (pool.acc_per_share + direct_share(pool, cfg, height, obs)) as u128
        } else {
            pool.acc_per_share
        },
        last_reward_block: if height > pool.last_reward_block {
            height
        } else {
            pool.last_reward_block
        },
        proxy_reward_balance_before_update: if pool.reward_proxy is Some {
            obs.proxy_reward
        } else {
            pool.proxy_reward_balance_before_update
        },
        ..pool
    }
}

/// The smaller of two amounts.
pub open spec fn min_amount(a: int, b: int) -> int {
    if a <= b {
        a
    } else {
        b
    }
}

/// The requests a settlement issues: the proxy track's dev cut when it is nonzero, then
/// the direct track's dev cut, capped at the gauge's reward-token balance.
pub open spec fn settle_msgs(
    pool: PoolInfo,
    cfg: &Config,
    height: u64,
    obs: Observation,
    reward_balance: u128,
) -> Seq<Msg> {
    let delta = proxy_delta(pool, obs);
    let rewards = reward_for_pool(pool, cfg, height);
    (if proxy_track_runs(pool, obs) && dev_cut(delta) != 0 {
        seq![
            Msg::ProxySendRewards {
                proxy: pool.reward_proxy->Some_0,
                account: cfg.dev_addr,
                amount: dev_cut(delta) as u128,
            },
        ]
    } else {
        seq![]
    }) + (if direct_track_runs(pool, height, obs) {
        seq![
            Msg::RewardTransfer {
                recipient: cfg.dev_addr,
                amount: min_amount(dev_cut(rewards), reward_balance as int) as u128,
            },
        ]
    } else {
        seq![]
    })
}

/// Brings both accrual tracks of a pool up to `height`, given the observed LP supply and
/// proxy reward balance and the gauge's reward-token balance.
pub fn update_pool_rewards(
    pool: &PoolInfo,
    cfg: &Config,
    height: u64,
    obs: Observation,
    reward_balance: u128,
) -> (r: Result<(PoolInfo, Vec<Msg>), ContractError>)
    ensures
        r is Ok <==> settle_ok(*pool, cfg, height, obs),
        r is Ok ==> r->Ok_0.0 == settled_pool(*pool, cfg, height, obs),
        r is Ok ==> r->Ok_0.1@ == settle_msgs(*pool, cfg, height, obs, reward_balance),
        r is Err ==> r->Err_0 == ContractError::Arithmetic,
{
    let mut msgs: Vec<Msg> = Vec::new();
    let mut acc_on_proxy = pool.acc_per_share_on_proxy;
    if let Some(proxy) = &pool.reward_proxy {
        if obs.lp_supply != 0 {
            let delta = match obs.proxy_reward.checked_sub(pool.proxy_reward_balance_before_update) {
                None => { return Err(ContractError::Arithmetic); },
                Some(d) => d,
            };
            let dev = delta / 10;
            let share = match decimal_from_ratio(delta - dev, obs.lp_supply) {
                None => { return Err(ContractError::Arithmetic); },
                Some(s) => s,
            };
            acc_on_proxy = match acc_on_proxy.checked_add(share) {
                None => { return Err(ContractError::Arithmetic); },
                Some(a) => a,
            };
            if dev != 0 {
                msgs.push(
                    Msg::ProxySendRewards {
                        proxy: proxy.clone(),
                        account: cfg.dev_addr.clone(),
                        amount: dev,
                    },
                );
            }
        }
    }
    let mut acc = pool.acc_per_share;
    let mut last = pool.last_reward_block;
    if height > pool.last_reward_block {
        if obs.lp_supply != 0 {
            let rewards = calculate_rewards(pool, cfg, height)?;
            let dev = rewards / 10;
            let share = match decimal_from_ratio(rewards - dev, obs.lp_supply) {
                None => { return Err(ContractError::Arithmetic); },
                Some(s) => s,
            };
            acc = match acc.checked_add(share) {
                None => { return Err(ContractError::Arithmetic); },
                Some(a) => a,
            };
            let paid = if dev <= reward_balance { dev } else { reward_balance };
            msgs.push(Msg::RewardTransfer { recipient: cfg.dev_addr.clone(), amount: paid });
        }
        last = height;
    }
    let settled = PoolInfo {
        alloc_point: pool.alloc_point,
        last_reward_block: last,
        acc_per_share: acc,
        reward_proxy: clone_identity(&pool.reward_proxy),
        acc_per_share_on_proxy: acc_on_proxy,
        proxy_reward_balance_before_update: if pool.reward_proxy.is_some() {
            obs.proxy_reward
        } else {
            pool.proxy_reward_balance_before_update
        },
    };
    proof {
        assert(msgs@ =~= settle_msgs(*pool, cfg, height, obs, reward_balance));
    }
    Ok((settled, msgs))
}

/// Settling a pool a second time at the same height changes neither its direct accrual
/// nor its checkpoint and issues no reward-token transfer. When the proxy balance is also
/// unchanged (or the pool is self-custodied) the second settlement leaves the pool exactly
/// as it was and issues no request at all.
pub proof fn lemma_settle_idempotent(
    pool: PoolInfo,
    cfg: &Config,
    height: u64,
    obs: Observation,
    again: Observation,
    reward_balance: u128,
)
    requires
        settle_ok(pool, cfg, height, obs),
    ensures
        ({
            let once = settled_pool(pool, cfg, height, obs);
            let twice = settled_pool(once, cfg, height, again);
            let msgs = settle_msgs(once, cfg, height, again, reward_balance);
            &&& direct_track_ok(once, cfg, height, again)
            &&& twice.acc_per_share == once.acc_per_share
            &&& twice.last_reward_block == once.last_reward_block
            &&& forall|i: int| 0 <= i < msgs.len() ==> !(msgs[i] is RewardTransfer)
            &&& (once.reward_proxy is None || again.proxy_reward == obs.proxy_reward) ==> {
                &&& settle_ok(once, cfg, height, again)
                &&& twice == once
                &&& msgs.len() == 0
            }
        }),
{
    let once = settled_pool(pool, cfg, height, obs);
    assert(!direct_track_runs(once, height, again));
    let msgs = settle_msgs(once, cfg, height, again, reward_balance);
    let delta = proxy_delta(once, again);
    if proxy_track_runs(once, again) && dev_cut(delta) != 0 {
        assert(msgs.len() == 1);
    } else {
        assert(msgs.len() == 0);
    }
    if once.reward_proxy is None || again.proxy_reward == obs.proxy_reward {
        if proxy_track_runs(once, again) {
            assert(delta == 0);
            assert(0 * DECIMAL_FRACTIONAL == 0);
            assert(proxy_share(once, again) == 0);
        }
        assert(settled_pool(once, cfg, height, again) == once);
    }
}

proof fn lemma_ratio_nonneg(n: int, d: int)
    requires
        n >= 0,
        d > 0,
    ensures
        ratio_spec(n, d) >= 0,
{
    assert(n * DECIMAL_FRACTIONAL >= 0) by (nonlinear_arith)
        requires n >= 0;
    assert((n * DECIMAL_FRACTIONAL) / d >= 0) by (nonlinear_arith)
        requires n * DECIMAL_FRACTIONAL >= 0, d > 0;
}

/// A successful settlement never lowers either accrual or the checkpoint.
pub proof fn lemma_settle_monotonic(pool: PoolInfo, cfg: &Config, height: u64, obs: Observation)
    requires
        settle_ok(pool, cfg, height, obs),
    ensures
        ({
            let p = settled_pool(pool, cfg, height, obs);
            &&& p.acc_per_share >= pool.acc_per_share
            &&& p.acc_per_share_on_proxy >= pool.acc_per_share_on_proxy
            &&& p.last_reward_block >= pool.last_reward_block
            &&& p.alloc_point == pool.alloc_point
            &&& p.reward_proxy == pool.reward_proxy
        }),
{
    if proxy_track_runs(pool, obs) {
        let delta = proxy_delta(pool, obs);
        lemma_ratio_nonneg(delta - dev_cut(delta), obs.lp_supply as int);
    }
    if direct_track_runs(pool, height, obs) {
        let m = pool_multiplier(pool, cfg, height);
        assert(m >= 0);
        assert(m * cfg.tokens_per_block * pool.alloc_point >= 0) by (nonlinear_arith)
            requires m >= 0, cfg.tokens_per_block >= 0, pool.alloc_point >= 0;
        assert(m * cfg.tokens_per_block * pool.alloc_point / (cfg.total_alloc_point as int) >= 0)
            by (nonlinear_arith)
            requires m * cfg.tokens_per_block * pool.alloc_point >= 0, cfg.total_alloc_point > 0;
        let rewards = reward_for_pool(pool, cfg, height);
        lemma_ratio_nonneg(rewards - dev_cut(rewards), obs.lp_supply as int);
    }
}

} // verus!
