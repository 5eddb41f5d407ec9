use vstd::prelude::*;
use crate::accrual::{
    calculate_rewards, dev_cut, direct_track_ok, settle_msgs, settle_ok, settled_pool,
    update_pool_rewards,
};
use crate::error::ContractError;
use crate::ledger::{
    deposit_msgs, deposit_ok, deposit_position, pending_ok, pending_reward, pending_spec, rebased,
    withdraw_msgs, withdraw_ok, withdraw_position,
};
use crate::math::{decimal_from_ratio, get_multiplier, multiplier_ok, multiplier_spec, ratio_spec};
use crate::registry::{
    added_pools, empty_user, has_pool, has_user, is_sorted_pos, key_bytes, key_less, key_lt,
    lemma_bytes_lt_total, lemma_bytes_lt_transitive, lemma_key_bytes_injective, lemma_pool_keys_update,
    lemma_pool_pos, lemma_sorted_insert, lemma_sorted_pos_exists, lemma_sorted_unique, lemma_sum_alloc_insert,
    lemma_sum_alloc_update, lemma_user_of_push, lemma_user_of_remove, lemma_user_of_update,
    lemma_user_pos, pool_keys_unique, pool_pos, pools_sorted, sum_alloc, user_keys_unique,
    user_matches, user_of, user_pos,
};
use crate::state::{
    clone_pool, Config, ExecuteMsg, ExecuteOnReply, InstantiateMsg, Msg, Observation, PoolEntry,
    PendingTokenResponse, PoolInfo, UserEntry, UserInfo,
};

verus! {

/// The gauge's whole state: settings, pools, positions and the deferred action, if any.
#[derive(Debug)]
pub struct Gauge {
    pub config: Config,
    pub pools: Vec<PoolEntry>,
    pub users: Vec<UserEntry>,
    pub pending: Option<ExecuteOnReply>,
}

/// Whether a pool is touched by a refresh limited to `only` (all pools when `None`).
pub open spec fn in_scope(e: PoolEntry, only: Option<String>) -> bool {
    only is None || e.lp_token@ == only->Some_0@
}

/// A proxied pool records the proxy reward balance seen as a settlement cycle begins.
pub open spec fn snapshot_pool(info: PoolInfo, reward: u128) -> PoolInfo {
    if info.reward_proxy is Some {
        PoolInfo { proxy_reward_balance_before_update: reward, ..info }
    } else {
        info
    }
}

/// The pools as a settlement cycle begins: those in scope record their proxy's balance,
/// read from `rewards` at the same position.
pub open spec fn snapshot_pools(pools: Seq<PoolEntry>, rewards: Seq<u128>, only: Option<String>) -> Seq<
    PoolEntry,
> {
    Seq::new(
        pools.len(),
        |i: int|
            PoolEntry {
                lp_token: pools[i].lp_token,
                info: if in_scope(pools[i], only) {
                    snapshot_pool(pools[i].info, rewards[i])
                } else {
                    pools[i].info
                },
            },
    )
}

/// Refresh requests to the proxies of the pools in scope, in pool order (ascending LP token).
pub open spec fn refresh_msgs(pools: Seq<PoolEntry>, only: Option<String>) -> Seq<Msg>
    decreases pools.len(),
{
    if pools.len() == 0 {
        seq![]
    } else {
        let e = pools.last();
        refresh_msgs(pools.drop_last(), only) + if in_scope(e, only) && e.info.reward_proxy is Some {
            seq![Msg::ProxyUpdateRewards { proxy: e.info.reward_proxy->Some_0 }]
        } else {
            seq![]
        }
    }
}

/// Two pool sequences with the same keys and weights, position by position.
pub open spec fn same_keys_and_weights(a: Seq<PoolEntry>, b: Seq<PoolEntry>) -> bool {
    &&& a.len() == b.len()
    &&& forall|i: int|
        0 <= i < a.len() ==> a[i].lp_token@ == b[i].lp_token@ && a[i].info.alloc_point
            == b[i].info.alloc_point
}

/// Sequences with the same keys and weights agree on uniqueness and on the weight sum.
pub proof fn lemma_sum_alloc_same(a: Seq<PoolEntry>, b: Seq<PoolEntry>)
    requires
        same_keys_and_weights(a, b),
    ensures
        sum_alloc(a) == sum_alloc(b),
        pool_keys_unique(a) == pool_keys_unique(b),
        pools_sorted(a) == pools_sorted(b),
    decreases a.len(),
{
    if a.len() > 0 {
        lemma_sum_alloc_same(a.drop_last(), b.drop_last());
    }
    if pools_sorted(a) {
        assert forall|i: int, j: int| 0 <= i < j < b.len() implies key_lt(
            #[trigger] b[i].lp_token@,
            #[trigger] b[j].lp_token@,
        ) by {
            assert(key_lt(a[i].lp_token@, a[j].lp_token@));
        }
    }
    if pools_sorted(b) {
        assert forall|i: int, j: int| 0 <= i < j < a.len() implies key_lt(
            #[trigger] a[i].lp_token@,
            #[trigger] a[j].lp_token@,
        ) by {
            assert(key_lt(b[i].lp_token@, b[j].lp_token@));
        }
    }
}

/// A new pool's state: weight `alloc_point`, checkpoint at the later of the start block
/// and `height`, nothing accrued.
pub open spec fn new_pool(cfg: &Config, alloc_point: u64, height: u64, reward_proxy: Option<String>) -> PoolInfo {
    PoolInfo {
        alloc_point,
        last_reward_block: if cfg.start_block >= height {
            cfg.start_block
        } else {
            height
        },
        acc_per_share: 0,
        reward_proxy,
        acc_per_share_on_proxy: 0,
        proxy_reward_balance_before_update: 0,
    }
}

/// Why `add` fails, checked in this order, if it does.
pub open spec fn add_error(
    g: Gauge,
    sender: String,
    lp_token: String,
    alloc_point: u64,
    with_update: bool,
    reward_proxy: Option<String>,
) -> Option<ContractError> {
    if sender@ != g.config.owner@ {
        Some(ContractError::Unauthorized)
    } else if has_pool(g.pools@, lp_token@) {
        Some(ContractError::TokenPoolAlreadyExists)
    } else if reward_proxy is Some && !proxy_allowed(&g.config, reward_proxy->Some_0) {
        Some(ContractError::RewardProxyNotAllowed)
    } else if g.config.total_alloc_point + alloc_point > u64::MAX {
        Some(ContractError::Arithmetic)
    } else if with_update && g.pending is Some {
        Some(ContractError::RepeatedReply)
    } else {
        None
    }
}

/// Why `set` fails, checked in this order, if it does.
pub open spec fn set_error(g: Gauge, sender: String, lp_token: String, alloc_point: u64, with_update: bool) -> Option<
    ContractError,
> {
    if sender@ != g.config.owner@ {
        Some(ContractError::Unauthorized)
    } else if !has_pool(g.pools@, lp_token@) {
        Some(ContractError::PoolNotFound)
    } else if g.config.total_alloc_point - g.pools@[pool_pos(g.pools@, lp_token@)].info.alloc_point
        + alloc_point > u64::MAX {
        Some(ContractError::Arithmetic)
    } else if with_update && g.pending is Some {
        Some(ContractError::RepeatedReply)
    } else {
        None
    }
}

/// Every position but that of (`lp_token`, `account`) is the same in both sequences.
pub open spec fn users_agree_except(
    a: Seq<UserEntry>,
    b: Seq<UserEntry>,
    lp_token: Seq<char>,
    account: Seq<char>,
) -> bool {
    forall|l: Seq<char>, c: Seq<char>|
        #![trigger user_of(a, l, c)]
        #![trigger user_of(b, l, c)]
        !(l == lp_token && c == account) ==> user_of(a, l, c) == user_of(b, l, c)
}

/// Every pool settled at `height` with its observation (by position).
pub open spec fn settled_pools(pools: Seq<PoolEntry>, cfg: &Config, height: u64, obs: Seq<Observation>) -> Seq<
    PoolEntry,
> {
    Seq::new(
        pools.len(),
        |i: int|
            PoolEntry {
                lp_token: pools[i].lp_token,
                info: settled_pool(pools[i].info, cfg, height, obs[i]),
            },
    )
}

/// The requests of settling every pool, in pool order (ascending LP token).
pub open spec fn mass_msgs(
    pools: Seq<PoolEntry>,
    cfg: &Config,
    height: u64,
    obs: Seq<Observation>,
    reward_balance: u128,
) -> Seq<Msg>
    decreases pools.len(),
{
    if pools.len() == 0 {
        seq![]
    } else {
        mass_msgs(pools.drop_last(), cfg, height, obs, reward_balance) + settle_msgs(
            pools.last().info,
            cfg,
            height,
            obs[pools.len() - 1],
            reward_balance,
        )
    }
}

/// The request that returns a whole stake at once.
pub open spec fn emergency_msg(pool: PoolInfo, lp_token: String, account: String, amount: u128) -> Msg {
    if pool.reward_proxy is Some {
        Msg::ProxyEmergencyWithdraw { proxy: pool.reward_proxy->Some_0, account, amount }
    } else {
        Msg::LpTransfer { lp_token, recipient: account, amount }
    }
}

/// The proxy projection runs when the pool is proxied, something is staked and the proxy
/// reports a pending amount.
pub open spec fn proxy_projection_runs(pool: PoolInfo, obs: Observation, proxy_pending: Option<u128>) -> bool {
    pool.reward_proxy is Some && obs.lp_supply != 0 && proxy_pending is Some
}

/// Per-share increment the proxy's pending amount would bring, after the dev cut.
pub open spec fn projected_proxy_share(obs: Observation, pending: u128) -> int {
    ratio_spec(pending - dev_cut(pending as int), obs.lp_supply as int)
}

pub open spec fn pending_token_ok(
    pool: PoolInfo,
    cfg: &Config,
    height: u64,
    obs: Observation,
    proxy_pending: Option<u128>,
    user: UserInfo,
) -> bool {
    let share = projected_proxy_share(obs, proxy_pending->Some_0);
    &&& proxy_projection_runs(pool, obs, proxy_pending) ==> {
        &&& share <= u128::MAX
        &&& pool.acc_per_share_on_proxy + share <= u128::MAX
        &&& pending_ok(
            user.amount,
            (pool.acc_per_share_on_proxy + share) as u128,
            user.reward_debt_proxy,
        )
    }
    &&& direct_track_ok(pool, cfg, height, obs)
    &&& pending_ok(user.amount, settled_pool(pool, cfg, height, obs).acc_per_share, user.reward_debt)
}

/// The rewards a position would be paid were its pool settled now.
pub open spec fn pending_token_spec(
    pool: PoolInfo,
    cfg: &Config,
    height: u64,
    obs: Observation,
    proxy_pending: Option<u128>,
    user: UserInfo,
) -> PendingTokenResponse {
    let share = projected_proxy_share(obs, proxy_pending->Some_0);
    PendingTokenResponse {
        pending: pending_spec(
            user.amount,
            settled_pool(pool, cfg, height, obs).acc_per_share,
            user.reward_debt,
        ) as u128,
        pending_on_proxy: if proxy_projection_runs(pool, obs, proxy_pending) {
            Some(
                pending_spec(
                    user.amount,
                    (pool.acc_per_share_on_proxy + share) as u128,
                    user.reward_debt_proxy,
                ) as u128,
            )
        } else {
            None
        },
    }
}

/// A result with its requests seen as a sequence.
pub open spec fn seq_result(r: Result<Vec<Msg>, ContractError>) -> Result<Seq<Msg>, ContractError> {
    match r {
        Ok(v) => Ok(v@),
        Err(e) => Err(e),
    }
}

/// What `Gauge::update_rewards_and_execute` does: from `old` to `new`, returning `r`.
pub open spec fn begin_result(
    old: Gauge,
    new: Gauge,
    r: Result<Seq<Msg>, ContractError>,
    only: Option<String>,
    on_reply: ExecuteOnReply,
    rewards: Seq<u128>,
) -> bool {
    &&& (r is Ok <==> old.pending is None && (only is Some ==> has_pool(
        old.pools@,
        only->Some_0@,
    )))
    &&& (r is Err ==> new == old && r->Err_0 == if old.pending is Some {
        ContractError::RepeatedReply
    } else {
        ContractError::PoolNotFound
    })
    &&& (r is Ok ==> new.pools@ == snapshot_pools(old.pools@, rewards, only))
    &&& (r is Ok ==> new.pending == Some(on_reply))
    &&& (r is Ok ==> new.config == old.config && new.users == old.users)
    &&& (r is Ok ==> r->Ok_0 == refresh_msgs(old.pools@, only).push(
        Msg::VestingClaim { vesting_contract: old.config.vesting_contract },
    ))
}

/// What `Gauge::add` does: from `old` to `new`, returning `r`.
pub open spec fn add_result(
    old: Gauge,
    new: Gauge,
    r: Result<Seq<Msg>, ContractError>,
    sender: String,
    lp_token: String,
    alloc_point: u64,
    with_update: bool,
    reward_proxy: Option<String>,
    height: u64,
    rewards: Seq<u128>,
) -> bool {
    &&& (r is Err <==> add_error(old, sender, lp_token, alloc_point, with_update, reward_proxy)
        is Some)
    &&& (r is Err ==> new == old && r->Err_0 == add_error(
        old,
        sender,
        lp_token,
        alloc_point,
        with_update,
        reward_proxy,
    )->Some_0)
    &&& (r is Ok ==> ({
        let cfg = old.config;
        let pools = added_pools(
            old.pools@,
            PoolEntry { lp_token, info: new_pool(&cfg, alloc_point, height, reward_proxy) },
        );
        &&& new.config == Config {
            total_alloc_point: (cfg.total_alloc_point + alloc_point) as u64,
            ..cfg
        }
        &&& new.users == old.users
        &&& if with_update {
            &&& new.pools@ == snapshot_pools(pools, rewards, None)
            &&& new.pending == Some(ExecuteOnReply::MassUpdatePools)
            &&& r->Ok_0 == refresh_msgs(pools, None).push(
                Msg::VestingClaim { vesting_contract: cfg.vesting_contract },
            )
        } else {
            &&& new.pools@ == pools
            &&& new.pending == old.pending
            &&& r->Ok_0.len() == 0
        }
    }))
}

/// What `Gauge::set` does: from `old` to `new`, returning `r`.
pub open spec fn set_result(
    old: Gauge,
    new: Gauge,
    r: Result<Seq<Msg>, ContractError>,
    sender: String,
    lp_token: String,
    alloc_point: u64,
    with_update: bool,
    rewards: Seq<u128>,
) -> bool {
    &&& (r is Err <==> set_error(old, sender, lp_token, alloc_point, with_update) is Some)
    &&& (r is Err ==> new == old && r->Err_0 == set_error(
        old,
        sender,
        lp_token,
        alloc_point,
        with_update,
    )->Some_0)
    &&& (r is Ok ==> ({
        let cfg = old.config;
        let i = pool_pos(old.pools@, lp_token@);
        let e = old.pools@[i];
        let pools = old.pools@.update(
            i,
            PoolEntry { lp_token: e.lp_token, info: PoolInfo { alloc_point, ..e.info } },
        );
        &&& new.config == Config {
            total_alloc_point: (cfg.total_alloc_point - e.info.alloc_point + alloc_point) as u64,
            ..cfg
        }
        &&& new.users == old.users
        &&& if with_update {
            &&& new.pools@ == snapshot_pools(pools, rewards, Some(lp_token))
            &&& new.pending == Some(ExecuteOnReply::UpdatePool { lp_token })
            &&& r->Ok_0 == refresh_msgs(pools, Some(lp_token)).push(
                Msg::VestingClaim { vesting_contract: cfg.vesting_contract },
            )
        } else {
            &&& new.pools@ == pools
            &&& new.pending == old.pending
            &&& r->Ok_0.len() == 0
        }
    }))
}

/// What `Gauge::emergency_withdraw` does: from `old` to `new`, returning `r`.
pub open spec fn emergency_result(
    old: Gauge,
    new: Gauge,
    r: Result<Seq<Msg>, ContractError>,
    sender: String,
    lp_token: String,
) -> bool {
    &&& (r is Err ==> new == old)
    &&& (!has_pool(old.pools@, lp_token@) ==> r == Err::<Seq<Msg>, ContractError>(
        ContractError::PoolNotFound,
    ))
    &&& (has_pool(old.pools@, lp_token@) && !has_user(old.users@, lp_token@, sender@)
        ==> r == Err::<Seq<Msg>, ContractError>(ContractError::UserNotFound))
    &&& (has_pool(old.pools@, lp_token@) && has_user(old.users@, lp_token@, sender@)
        ==> ({
        let pool = old.pools@[pool_pos(old.pools@, lp_token@)].info;
        let user = user_of(old.users@, lp_token@, sender@);
        &&& r is Ok
        &&& r->Ok_0 == seq![emergency_msg(pool, lp_token, sender, user.amount)]
        &&& !has_user(new.users@, lp_token@, sender@)
        &&& user_of(new.users@, lp_token@, sender@) == empty_user()
        &&& users_agree_except(new.users@, old.users@, lp_token@, sender@)
        &&& new.pools == old.pools
        &&& new.config == old.config
        &&& new.pending == old.pending
    }))
}

/// What `Gauge::mass_update_pools` does: from `old` to `new`, returning `r`.
pub open spec fn mass_update_result(
    old: Gauge,
    new: Gauge,
    r: Result<Seq<Msg>, ContractError>,
    height: u64,
    obs: Seq<Observation>,
    reward_balance: u128,
) -> bool {
    &&& (r is Ok <==> forall|i: int|
        0 <= i < old.pools@.len() ==> settle_ok(
            #[trigger] old.pools@[i].info,
            &old.config,
            height,
            obs[i],
        ))
    &&& (r is Err ==> new == old && r->Err_0 == ContractError::Arithmetic)
    &&& (r is Ok ==> new.pools@ == settled_pools(
        old.pools@,
        &old.config,
        height,
        obs,
    ))
    &&& (r is Ok ==> r->Ok_0 == mass_msgs(
        old.pools@,
        &old.config,
        height,
        obs,
        reward_balance,
    ))
    &&& (r is Ok ==> new.config == old.config && new.users == old.users && new.pending == old.pending)
}

/// What `Gauge::update_pool` does: from `old` to `new`, returning `r`.
pub open spec fn update_pool_result(
    old: Gauge,
    new: Gauge,
    r: Result<Seq<Msg>, ContractError>,
    lp_token: String,
    height: u64,
    obs: Observation,
    reward_balance: u128,
) -> bool {
    &&& (!has_pool(old.pools@, lp_token@) ==> r == Err::<Seq<Msg>, ContractError>(
        ContractError::PoolNotFound,
    ))
    &&& (r is Err ==> new == old)
    &&& (has_pool(old.pools@, lp_token@) ==> ({
        let i = pool_pos(old.pools@, lp_token@);
        let e = old.pools@[i];
        let cfg = &old.config;
        &&& r is Ok <==> settle_ok(e.info, cfg, height, obs)
        &&& r is Err ==> r->Err_0 == ContractError::Arithmetic
        &&& r is Ok ==> new.pools@ == old.pools@.update(
            i,
            PoolEntry { lp_token: e.lp_token, info: settled_pool(e.info, cfg, height, obs) },
        )
        &&& r is Ok ==> r->Ok_0 == settle_msgs(e.info, cfg, height, obs, reward_balance)
        &&& r is Ok ==> new.config == old.config && new.users
            == old.users && new.pending == old.pending
    }))
}

/// What `Gauge::deposit` does: from `old` to `new`, returning `r`.
pub open spec fn deposit_result(
    old: Gauge,
    new: Gauge,
    r: Result<Seq<Msg>, ContractError>,
    lp_token: String,
    account: String,
    amount: u128,
    height: u64,
    obs: Observation,
    reward_balance: u128,
) -> bool {
    &&& (!has_pool(old.pools@, lp_token@) ==> r == Err::<Seq<Msg>, ContractError>(
        ContractError::PoolNotFound,
    ))
    &&& (r is Err ==> new == old)
    &&& (has_pool(old.pools@, lp_token@) ==> ({
        let i = pool_pos(old.pools@, lp_token@);
        let e = old.pools@[i];
        let cfg = &old.config;
        let user = user_of(old.users@, lp_token@, account@);
        let settled = settled_pool(e.info, cfg, height, obs);
        &&& r is Ok <==> settle_ok(e.info, cfg, height, obs) && deposit_ok(user, settled, amount)
        &&& r is Err ==> r->Err_0 == ContractError::Arithmetic
        &&& r is Ok ==> new.pools@ == old.pools@.update(
            i,
            PoolEntry { lp_token: e.lp_token, info: settled },
        )
        &&& r is Ok ==> has_user(new.users@, lp_token@, account@)
        &&& r is Ok ==> user_of(new.users@, lp_token@, account@) == rebased(
            settled,
            (user.amount + amount) as u128,
        )
        &&& r is Ok ==> users_agree_except(new.users@, old.users@, lp_token@, account@)
        &&& r is Ok ==> new.config == old.config && new.pending
            == old.pending
        &&& r is Ok ==> r->Ok_0 == settle_msgs(e.info, cfg, height, obs, reward_balance)
            + deposit_msgs(user, settled, lp_token, account, amount, reward_balance)
    }))
}

/// What `Gauge::withdraw` does: from `old` to `new`, returning `r`.
pub open spec fn withdraw_result(
    old: Gauge,
    new: Gauge,
    r: Result<Seq<Msg>, ContractError>,
    lp_token: String,
    account: String,
    amount: u128,
    height: u64,
    obs: Observation,
    reward_balance: u128,
) -> bool {
    &&& (r is Err ==> new == old)
    &&& (!has_user(old.users@, lp_token@, account@) ==> r == Err::<Seq<Msg>, ContractError>(
        ContractError::UserNotFound,
    ))
    &&& (has_user(old.users@, lp_token@, account@) && amount > user_of(
        old.users@,
        lp_token@,
        account@,
    ).amount ==> r == Err::<Seq<Msg>, ContractError>(ContractError::BalanceTooSmall))
    &&& (has_user(old.users@, lp_token@, account@) && amount <= user_of(
        old.users@,
        lp_token@,
        account@,
    ).amount && !has_pool(old.pools@, lp_token@) ==> r == Err::<Seq<Msg>, ContractError>(
        ContractError::PoolNotFound,
    ))
    &&& (has_user(old.users@, lp_token@, account@) && has_pool(old.pools@, lp_token@)
        && amount <= user_of(old.users@, lp_token@, account@).amount ==> ({
        let i = pool_pos(old.pools@, lp_token@);
        let e = old.pools@[i];
        let cfg = &old.config;
        let user = user_of(old.users@, lp_token@, account@);
        let settled = settled_pool(e.info, cfg, height, obs);
        &&& r is Ok <==> settle_ok(e.info, cfg, height, obs) && withdraw_ok(user, settled, amount)
        &&& r is Err ==> r->Err_0 == ContractError::Arithmetic
        &&& r is Ok ==> new.pools@ == old.pools@.update(
            i,
            PoolEntry { lp_token: e.lp_token, info: settled },
        )
        &&& r is Ok ==> has_user(new.users@, lp_token@, account@)
        &&& r is Ok ==> user_of(new.users@, lp_token@, account@) == rebased(
            settled,
            (user.amount - amount) as u128,
        )
        &&& r is Ok ==> users_agree_except(new.users@, old.users@, lp_token@, account@)
        &&& r is Ok ==> new.config == old.config && new.pending
            == old.pending
        &&& r is Ok ==> r->Ok_0 == settle_msgs(e.info, cfg, height, obs, reward_balance)
            + withdraw_msgs(user, settled, lp_token, account, amount, reward_balance)
    }))
}

/// The observation of the pool of `lp_token` (by position); an empty one where there is
/// no such pool.
pub open spec fn observation_of(pools: Seq<PoolEntry>, obs: Seq<Observation>, lp_token: Seq<char>) -> Observation {
    if has_pool(pools, lp_token) {
        obs[pool_pos(pools, lp_token)]
    } else {
        Observation { lp_supply: 0, proxy_reward: 0 }
    }
}

/// What `Gauge::reply` does: with no action outstanding, nothing; otherwise the deferred
/// operation, run on the state with the action cleared.
pub open spec fn reply_result(
    old: Gauge,
    new: Gauge,
    r: Result<Seq<Msg>, ContractError>,
    height: u64,
    obs: Seq<Observation>,
    reward_balance: u128,
) -> bool {
    let cleared = Gauge { pending: None, ..old };
    match old.pending {
        None => r == Ok::<Seq<Msg>, ContractError>(seq![]) && new == old,
        Some(ExecuteOnReply::MassUpdatePools) => mass_update_result(
            cleared,
            new,
            r,
            height,
            obs,
            reward_balance,
        ),
        Some(ExecuteOnReply::UpdatePool { lp_token }) => update_pool_result(
            cleared,
            new,
            r,
            lp_token,
            height,
            observation_of(old.pools@, obs, lp_token@),
            reward_balance,
        ),
        Some(ExecuteOnReply::Deposit { lp_token, account, amount }) => deposit_result(
            cleared,
            new,
            r,
            lp_token,
            account,
            amount,
            height,
            observation_of(old.pools@, obs, lp_token@),
            reward_balance,
        ),
        Some(ExecuteOnReply::Withdraw { lp_token, account, amount }) => withdraw_result(
            cleared,
            new,
            r,
            lp_token,
            account,
            amount,
            height,
            observation_of(old.pools@, obs, lp_token@),
            reward_balance,
        ),
    }
}

/// Whether `proxy` is on the allow-list.
pub open spec fn proxy_allowed(cfg: &Config, proxy: String) -> bool {
    exists|i: int| 0 <= i < cfg.allowed_reward_proxies@.len() && cfg.allowed_reward_proxies@[i]@ == proxy@
}

fn contains_identity(list: &Vec<String>, s: &String) -> (r: bool)
    ensures
        r == exists|i: int| 0 <= i < list@.len() && list@[i]@ == s@,
{
    let mut i: usize = 0;
    while i < list.len()
        invariant
            i <= list@.len(),
            forall|k: int| 0 <= k < i ==> list@[k]@ != s@,
        decreases list@.len() - i,
    {
        if list[i] == *s {
            return true;
        }
        i = i + 1;
    }
    false
}

/// The pools right after a successful `add` hold the new pool, at its sorted place, and
/// weigh its weight more than before.
proof fn lemma_added_pools(old: Gauge, e: PoolEntry, with_update: bool, rewards: Seq<u128>) -> (p: int)
    requires
        old.wf(),
        !has_pool(old.pools@, e.lp_token@),
    ensures
        0 <= p <= old.pools@.len(),
        ({
            let pools = added_pools(old.pools@, e);
            let after = if with_update {
                snapshot_pools(pools, rewards, None)
            } else {
                pools
            };
            &&& pools == old.pools@.insert(p, e)
            &&& sum_alloc(after) == sum_alloc(old.pools@) + e.info.alloc_point
            &&& after[p].lp_token@ == e.lp_token@
            &&& after.len() == old.pools@.len() + 1
        }),
{
    let p = lemma_sorted_pos_exists(old.pools@, e.lp_token@);
    lemma_sorted_insert(old.pools@, e, p);
    lemma_sum_alloc_insert(old.pools@, p, e);
    let pools = old.pools@.insert(p, e);
    lemma_sum_alloc_same(pools, snapshot_pools(pools, rewards, None));
    p
}

/// Registering a pool raises the registered weight by the pool's weight, and the registered
/// weight stays the sum of the pools' weights, whether the call succeeds or fails.
pub proof fn lemma_add_keeps_weight_sum(
    old: Gauge,
    new: Gauge,
    r: Result<Seq<Msg>, ContractError>,
    sender: String,
    lp_token: String,
    alloc_point: u64,
    with_update: bool,
    reward_proxy: Option<String>,
    height: u64,
    rewards: Seq<u128>,
)
    requires
        old.wf(),
        add_result(old, new, r, sender, lp_token, alloc_point, with_update, reward_proxy, height, rewards),
    ensures
        new.config.total_alloc_point == sum_alloc(new.pools@),
        r is Ok ==> new.config.total_alloc_point == old.config.total_alloc_point + alloc_point,
        r is Err ==> new.config.total_alloc_point == old.config.total_alloc_point,
{
    if r is Ok {
        let e = PoolEntry { lp_token, info: new_pool(&old.config, alloc_point, height, reward_proxy) };
        lemma_added_pools(old, e, with_update, rewards);
    }
}

/// Registering the same LP token a second time fails with `TokenPoolAlreadyExists` and
/// changes nothing, the registered weight included.
pub proof fn lemma_add_twice_conflicts(
    g0: Gauge,
    g1: Gauge,
    r1: Result<Seq<Msg>, ContractError>,
    g2: Gauge,
    r2: Result<Seq<Msg>, ContractError>,
    sender: String,
    lp_token: String,
    first_alloc: u64,
    first_update: bool,
    first_proxy: Option<String>,
    first_height: u64,
    first_rewards: Seq<u128>,
    second_alloc: u64,
    second_update: bool,
    second_proxy: Option<String>,
    second_height: u64,
    second_rewards: Seq<u128>,
)
    requires
        g0.wf(),
        add_result(
            g0,
            g1,
            r1,
            sender,
            lp_token,
            first_alloc,
            first_update,
            first_proxy,
            first_height,
            first_rewards,
        ),
        r1 is Ok,
        add_result(
            g1,
            g2,
            r2,
            sender,
            lp_token,
            second_alloc,
            second_update,
            second_proxy,
            second_height,
            second_rewards,
        ),
    ensures
        r2 == Err::<Seq<Msg>, ContractError>(ContractError::TokenPoolAlreadyExists),
        g2 == g1,
        g2.config.total_alloc_point == g1.config.total_alloc_point,
{
    let e = PoolEntry { lp_token, info: new_pool(&g0.config, first_alloc, first_height, first_proxy) };
    lemma_added_pools(g0, e, first_update, first_rewards);
    assert(has_pool(g1.pools@, lp_token@));
}

impl Gauge {
    /// Pools and positions are keyed uniquely, pools stand in ascending order of their LP
    /// tokens, and the registered weight is the sum of the
    /// pools' weights.
    pub open spec fn wf(&self) -> bool {
        &&& pool_keys_unique(self.pools@)
        &&& pools_sorted(self.pools@)
        &&& user_keys_unique(self.users@)
        &&& self.config.total_alloc_point == sum_alloc(self.pools@)
    }

    /// A gauge with no pool, no position and no deferred action; `sender` becomes the owner.
    pub fn instantiate(sender: String, msg: InstantiateMsg) -> (r: Gauge)
        ensures
            r.wf(),
            r.pools@.len() == 0,
            r.users@.len() == 0,
            r.pending is None,
            r.config == (Config {
                astro_token: msg.astro_token,
                dev_addr: msg.dev_addr,
                owner: sender,
                vesting_contract: msg.vesting_contract,
                tokens_per_block: msg.tokens_per_block,
                start_block: msg.start_block,
                bonus_end_block: msg.bonus_end_block,
                total_alloc_point: 0,
                allowed_reward_proxies: msg.allowed_reward_proxies,
            }),
    {
        let config = Config {
            astro_token: msg.astro_token,
            dev_addr: msg.dev_addr,
            owner: sender,
            vesting_contract: msg.vesting_contract,
            tokens_per_block: msg.tokens_per_block,
            start_block: msg.start_block,
            bonus_end_block: msg.bonus_end_block,
            total_alloc_point: 0,
            allowed_reward_proxies: msg.allowed_reward_proxies,
        };
        Gauge { config, pools: Vec::new(), users: Vec::new(), pending: None }
    }

    /// Position of the pool of `lp_token`.
    pub fn find_pool(&self, lp_token: &String) -> (r: Option<usize>)
        requires
            self.wf(),
        ensures
            r is None <==> !has_pool(self.pools@, lp_token@),
            r is Some ==> r->0 == pool_pos(self.pools@, lp_token@) && r->0 < self.pools@.len(),
    {
        let mut i: usize = 0;
        while i < self.pools.len()
            invariant
                self.wf(),
                i <= self.pools@.len(),
                forall|k: int| 0 <= k < i ==> self.pools@[k].lp_token@ != lp_token@,
            decreases self.pools@.len() - i,
        {
            if self.pools[i].lp_token == *lp_token {
                proof {
                    lemma_pool_pos(self.pools@, i as int);
                }
                return Some(i);
            }
            i = i + 1;
        }
        None
    }

    /// Position of the position of `account` in the pool of `lp_token`.
    pub fn find_user(&self, lp_token: &String, account: &String) -> (r: Option<usize>)
        requires
            self.wf(),
        ensures
            r is None <==> !has_user(self.users@, lp_token@, account@),
            r is Some ==> r->0 == user_pos(self.users@, lp_token@, account@) && r->0
                < self.users@.len() && self.users@[r->0 as int].info == user_of(
                self.users@,
                lp_token@,
                account@,
            ),
    {
        let mut i: usize = 0;
        while i < self.users.len()
            invariant
                self.wf(),
                i <= self.users@.len(),
                forall|k: int|
                    0 <= k < i ==> !user_matches(#[trigger] self.users@[k], lp_token@, account@),
            decreases self.users@.len() - i,
        {
            if self.users[i].lp_token == *lp_token && self.users[i].account == *account {
                proof {
                    lemma_user_pos(self.users@, i as int);
                }
                return Some(i);
            }
            i = i + 1;
        }
        None
    }

    /// Number of registered pools.
    pub fn pool_length(&self) -> (r: usize)
        ensures
            r == self.pools@.len(),
    {
        self.pools.len()
    }

    /// Stake of `user` in the pool of `lp_token`; zero where there is no position.
    pub fn query_deposit(&self, lp_token: &String, user: &String) -> (r: u128)
        requires
            self.wf(),
        ensures
            r == user_of(self.users@, lp_token@, user@).amount,
    {
        match self.find_user(lp_token, user) {
            Some(i) => self.users[i].info.amount,
            None => 0,
        }
    }

    /// Weighted blocks between two checkpoints, `from` raised to the start block.
    pub fn reward_multiplier(&self, from: u64, to: u64) -> (r: Result<u64, ContractError>)
        ensures
            ({
                let f = if from >= self.config.start_block {
                    from
                } else {
                    self.config.start_block
                };
                &&& r is Ok <==> multiplier_ok(f as int, to as int, self.config.bonus_end_block as int)
                &&& r is Ok ==> r->Ok_0 == multiplier_spec(
                    f as int,
                    to as int,
                    self.config.bonus_end_block as int,
                )
                &&& r is Err ==> r->Err_0 == ContractError::Arithmetic
            }),
    {
        let f = if from >= self.config.start_block {
            from
        } else {
            self.config.start_block
        };
        get_multiplier(f, to, self.config.bonus_end_block)
    }

    /// Hands the dev role on; only the current dev may.
    pub fn set_dev(&mut self, sender: &String, dev_address: String) -> (r: Result<(), ContractError>)
        ensures
            r is Ok <==> sender@ == old(self).config.dev_addr@,
            r is Err ==> r->Err_0 == ContractError::Unauthorized && *final(self) == *old(self),
            r is Ok ==> *final(self) == (Gauge {
                config: Config { dev_addr: dev_address, ..old(self).config },
                ..*old(self)
            }),
    {
        if *sender != self.config.dev_addr {
            return Err(ContractError::Unauthorized);
        }
        self.config.dev_addr = dev_address;
        Ok(())
    }

    /// Replaces the proxy allow-list; only the owner may.
    pub fn set_allowed_reward_proxies(&mut self, sender: &String, proxies: Vec<String>) -> (r: Result<
        (),
        ContractError,
    >)
        ensures
            r is Ok <==> sender@ == old(self).config.owner@,
            r is Err ==> r->Err_0 == ContractError::Unauthorized && *final(self) == *old(self),
            r is Ok ==> *final(self) == (Gauge {
                config: Config { allowed_reward_proxies: proxies, ..old(self).config },
                ..*old(self)
            }),
    {
        if *sender != self.config.owner {
            return Err(ContractError::Unauthorized);
        }
        self.config.allowed_reward_proxies = proxies;
        Ok(())
    }

    /// Begins a settlement cycle: records `on_reply` as the deferred action, records the
    /// proxy reward balance (`proxy_rewards`, by pool position) of each proxied pool in
    /// scope, and issues a refresh to each such proxy and then the claim whose
    /// acknowledgment resumes the action. Fails while another action is outstanding, and
    /// when the pool named by `only` is not registered.
    pub fn update_rewards_and_execute(
        &mut self,
        only: Option<String>,
        on_reply: ExecuteOnReply,
        proxy_rewards: &Vec<u128>,
    ) -> (r: Result<Vec<Msg>, ContractError>)
        requires
            old(self).wf(),
            proxy_rewards@.len() == old(self).pools@.len(),
        ensures
            final(self).wf(),
            begin_result(*old(self), *final(self), seq_result(r), only, on_reply, proxy_rewards@),
    {
        if self.pending.is_some() {
            return Err(ContractError::RepeatedReply);
        }
        if let Some(lp) = &only {
            if self.find_pool(lp).is_none() {
                return Err(ContractError::PoolNotFound);
            }
        }
        let ghost pools0 = self.pools@;
        let mut pools: Vec<PoolEntry> = Vec::new();
        let mut msgs: Vec<Msg> = Vec::new();
        let mut i: usize = 0;
        while i < self.pools.len()
            invariant
                pools0 == self.pools@,
                i <= pools0.len(),
                proxy_rewards@.len() == pools0.len(),
                pools@.len() == i,
                forall|k: int|
                    0 <= k < i ==> pools@[k] == snapshot_pools(pools0, proxy_rewards@, only)[k],
                msgs@ == refresh_msgs(pools0.take(i as int), only),
            decreases pools0.len() - i,
        {
            let e = &self.pools[i];
            let scoped = match &only {
                None => true,
                Some(lp) => e.lp_token == *lp,
            };
            let mut info = clone_pool(&e.info);
            if scoped {
                if let Some(proxy) = &e.info.reward_proxy {
                    info.proxy_reward_balance_before_update = proxy_rewards[i];
                    msgs.push(Msg::ProxyUpdateRewards { proxy: proxy.clone() });
                }
            }
            pools.push(PoolEntry { lp_token: e.lp_token.clone(), info });
            proof {
                assert(pools0.take(i + 1).drop_last() =~= pools0.take(i as int));
                assert(pools0.take(i + 1).last() == pools0[i as int]);
            }
            i = i + 1;
        }
        proof {
            assert(pools0.take(pools0.len() as int) =~= pools0);
            assert(pools@ =~= snapshot_pools(pools0, proxy_rewards@, only));
            lemma_sum_alloc_same(pools0, pools@);
        }
        self.pools = pools;
        msgs.push(Msg::VestingClaim { vesting_contract: self.config.vesting_contract.clone() });
        self.pending = Some(on_reply);
        Ok(msgs)
    }

    /// Handles the acknowledgment of the claim: clears the deferred action and carries it
    /// out at `height`, given each pool's observation (by position) and the gauge's
    /// reward-token balance. With no action outstanding it does nothing.
    pub fn reply(
        &mut self,
        height: u64,
        obs: &Vec<Observation>,
        reward_balance: u128,
    ) -> (r: Result<Vec<Msg>, ContractError>)
        requires
            old(self).wf(),
            obs@.len() == old(self).pools@.len(),
        ensures
            final(self).wf(),
            final(self).pending is None,
            reply_result(*old(self), *final(self), seq_result(r), height, obs@, reward_balance),
    {
        let action = match self.pending.take() {
            None => { return Ok(Vec::new()); },
            Some(action) => action,
        };
        match action {
            ExecuteOnReply::MassUpdatePools => self.mass_update_pools(height, obs, reward_balance),
            ExecuteOnReply::UpdatePool { lp_token } => {
                let o = self.observation_of(&lp_token, obs);
                self.update_pool(&lp_token, height, o, reward_balance)
            },
            ExecuteOnReply::Deposit { lp_token, account, amount } => {
                let o = self.observation_of(&lp_token, obs);
                self.deposit(&lp_token, &account, amount, height, o, reward_balance)
            },
            ExecuteOnReply::Withdraw { lp_token, account, amount } => {
                let o = self.observation_of(&lp_token, obs);
                self.withdraw(&lp_token, &account, amount, height, o, reward_balance)
            },
        }
    }

    fn observation_of(&self, lp_token: &String, obs: &Vec<Observation>) -> (r: Observation)
        requires
            self.wf(),
            obs@.len() == self.pools@.len(),
        ensures
            r == observation_of(self.pools@, obs@, lp_token@),
    {
        match self.find_pool(lp_token) {
            Some(i) => obs[i],
            None => Observation { lp_supply: 0, proxy_reward: 0 },
        }
    }

    /// Registers a pool for `lp_token`; only the owner may. Its checkpoint starts at the
    /// later of the start block and `height`, and it takes its place in LP-token order.
    /// With `with_update` a settlement cycle over all pools begins as well
    /// (`proxy_rewards` by position among the pools with the new one in place).
    pub fn add(
        &mut self,
        sender: &String,
        lp_token: String,
        alloc_point: u64,
        with_update: bool,
        reward_proxy: Option<String>,
        height: u64,
        proxy_rewards: &Vec<u128>,
    ) -> (r: Result<Vec<Msg>, ContractError>)
        requires
            old(self).wf(),
            with_update ==> proxy_rewards@.len() == old(self).pools@.len() + 1,
        ensures
            final(self).wf(),
            add_result(*old(self), *final(self), seq_result(r), *sender, lp_token, alloc_point, with_update, reward_proxy, height, proxy_rewards@),
    {
        if *sender != self.config.owner {
            return Err(ContractError::Unauthorized);
        }
        if self.find_pool(&lp_token).is_some() {
            return Err(ContractError::TokenPoolAlreadyExists);
        }
        if let Some(proxy) = &reward_proxy {
            if !contains_identity(&self.config.allowed_reward_proxies, proxy) {
                return Err(ContractError::RewardProxyNotAllowed);
            }
        }
        let total = match self.config.total_alloc_point.checked_add(alloc_point) {
            None => { return Err(ContractError::Arithmetic); },
            Some(t) => t,
        };
        if with_update && self.pending.is_some() {
            return Err(ContractError::RepeatedReply);
        }
        let start = if self.config.start_block >= height {
            self.config.start_block
        } else {
            height
        };
        let info = PoolInfo {
            alloc_point,
            last_reward_block: start,
            acc_per_share: 0,
            reward_proxy,
            acc_per_share_on_proxy: 0,
            proxy_reward_balance_before_update: 0,
        };
        let mut p: usize = 0;
        let mut searching = true;
        while searching && p < self.pools.len()
            invariant
                self.wf(),
                !has_pool(self.pools@, lp_token@),
                p <= self.pools@.len(),
                forall|k: int| 0 <= k < p ==> key_lt(#[trigger] self.pools@[k].lp_token@, lp_token@),
                !searching ==> p < self.pools@.len() && key_lt(lp_token@, self.pools@[p as int].lp_token@),
            decreases self.pools@.len() - p + if searching { 1int } else { 0int },
        {
            if key_less(&lp_token, &self.pools[p].lp_token) {
                searching = false;
            } else {
                proof {
                    let k = self.pools@[p as int].lp_token@;
                    assert(k != lp_token@);
                    lemma_key_bytes_injective(k, lp_token@);
                    lemma_bytes_lt_total(key_bytes(k), key_bytes(lp_token@));
                }
                p = p + 1;
            }
        }
        let entry = PoolEntry { lp_token, info };
        proof {
            let e = entry;
            let old_pools = self.pools@;
            assert forall|i: int| p <= i < old_pools.len() implies key_lt(
                e.lp_token@,
                #[trigger] old_pools[i].lp_token@,
            ) by {
                if i > p {
                    assert(key_lt(old_pools[p as int].lp_token@, old_pools[i].lp_token@));
                    lemma_bytes_lt_transitive(
                        key_bytes(e.lp_token@),
                        key_bytes(old_pools[p as int].lp_token@),
                        key_bytes(old_pools[i].lp_token@),
                    );
                }
            }
            assert(is_sorted_pos(old_pools, e.lp_token@, p as int));
            lemma_sorted_insert(old_pools, e, p as int);
            lemma_sorted_unique(old_pools.insert(p as int, e));
            lemma_sum_alloc_insert(old_pools, p as int, e);
        }
        self.config.total_alloc_point = total;
        self.pools.insert(p, entry);
        if with_update {
            self.update_rewards_and_execute(None, ExecuteOnReply::MassUpdatePools, proxy_rewards)
        } else {
            Ok(Vec::new())
        }
    }

    /// Changes the weight of the pool of `lp_token`; only the owner may. With
    /// `with_update` a settlement cycle for that pool begins as well (`proxy_rewards` by
    /// position).
    pub fn set(
        &mut self,
        sender: &String,
        lp_token: String,
        alloc_point: u64,
        with_update: bool,
        proxy_rewards: &Vec<u128>,
    ) -> (r: Result<Vec<Msg>, ContractError>)
        requires
            old(self).wf(),
            with_update ==> proxy_rewards@.len() == old(self).pools@.len(),
        ensures
            final(self).wf(),
            set_result(*old(self), *final(self), seq_result(r), *sender, lp_token, alloc_point, with_update, proxy_rewards@),
    {
        if *sender != self.config.owner {
            return Err(ContractError::Unauthorized);
        }
        let i = match self.find_pool(&lp_token) {
            None => { return Err(ContractError::PoolNotFound); },
            Some(i) => i,
        };
        proof {
            let e = self.pools@[i as int];
            lemma_pool_keys_update(self.pools@, i as int, PoolInfo { alloc_point, ..e.info });
            lemma_sum_alloc_update(self.pools@, i as int, e);
        }
        let rest = self.config.total_alloc_point - self.pools[i].info.alloc_point;
        let total = match rest.checked_add(alloc_point) {
            None => { return Err(ContractError::Arithmetic); },
            Some(t) => t,
        };
        if with_update && self.pending.is_some() {
            return Err(ContractError::RepeatedReply);
        }
        let mut info = clone_pool(&self.pools[i].info);
        info.alloc_point = alloc_point;
        let entry = PoolEntry { lp_token: self.pools[i].lp_token.clone(), info };
        self.pools.set(i, entry);
        self.config.total_alloc_point = total;
        if with_update {
            proof {
                lemma_pool_pos(self.pools@, i as int);
            }
            let lp = lp_token.clone();
            self.update_rewards_and_execute(Some(lp), ExecuteOnReply::UpdatePool { lp_token }, proxy_rewards)
        } else {
            Ok(Vec::new())
        }
    }

    fn store_pool(&mut self, i: usize, info: PoolInfo)
        requires
            old(self).wf(),
            i < old(self).pools@.len(),
            info.alloc_point == old(self).pools@[i as int].info.alloc_point,
        ensures
            final(self).wf(),
            final(self).pools@ == old(self).pools@.update(
                i as int,
                PoolEntry { lp_token: old(self).pools@[i as int].lp_token, info },
            ),
            final(self).config == old(self).config,
            final(self).users == old(self).users,
            final(self).pending == old(self).pending,
    {
        proof {
            lemma_pool_keys_update(self.pools@, i as int, info);
        }
        let entry = PoolEntry { lp_token: self.pools[i].lp_token.clone(), info };
        self.pools.set(i, entry);
    }

    fn store_user(&mut self, lp_token: &String, account: &String, info: UserInfo)
        requires
            old(self).wf(),
        ensures
            final(self).wf(),
            has_user(final(self).users@, lp_token@, account@),
            user_of(final(self).users@, lp_token@, account@) == info,
            users_agree_except(final(self).users@, old(self).users@, lp_token@, account@),
            final(self).config == old(self).config,
            final(self).pools == old(self).pools,
            final(self).pending == old(self).pending,
    {
        let entry = UserEntry { lp_token: lp_token.clone(), account: account.clone(), info };
        match self.find_user(lp_token, account) {
            Some(j) => {
                proof {
                    lemma_user_pos(self.users@, j as int);
                    assert forall|l: Seq<char>, c: Seq<char>|
                        user_of(self.users@.update(j as int, entry), l, c) == if user_matches(
                            entry,
                            l,
                            c,
                        ) {
                            info
                        } else {
                            user_of(self.users@, l, c)
                        } by {
                        lemma_user_of_update(self.users@, j as int, entry, l, c);
                    }
                    lemma_user_of_update(self.users@, j as int, entry, lp_token@, account@);
                    lemma_user_pos(self.users@.update(j as int, entry), j as int);
                }
                self.users.set(j, entry);
            },
            None => {
                proof {
                    assert forall|l: Seq<char>, c: Seq<char>|
                        user_of(self.users@.push(entry), l, c) == if user_matches(entry, l, c) {
                            info
                        } else {
                            user_of(self.users@, l, c)
                        } by {
                        lemma_user_of_push(self.users@, entry, l, c);
                    }
                    lemma_user_of_push(self.users@, entry, lp_token@, account@);
                    lemma_user_pos(self.users@.push(entry), self.users@.len() as int);
                }
                self.users.push(entry);
            },
        }
    }

    /// Settles every pool at `height`, given each pool's observation (by position). Fails,
    /// changing nothing, when any pool's settlement fails.
    pub fn mass_update_pools(
        &mut self,
        height: u64,
        obs: &Vec<Observation>,
        reward_balance: u128,
    ) -> (r: Result<Vec<Msg>, ContractError>)
        requires
            old(self).wf(),
            obs@.len() == old(self).pools@.len(),
        ensures
            final(self).wf(),
            mass_update_result(*old(self), *final(self), seq_result(r), height, obs@, reward_balance),
    {
        let ghost pools0 = self.pools@;
        let mut pools: Vec<PoolEntry> = Vec::new();
        let mut msgs: Vec<Msg> = Vec::new();
        let mut i: usize = 0;
        while i < self.pools.len()
            invariant
                pools0 == self.pools@,
                self.wf(),
                i <= pools0.len(),
                obs@.len() == pools0.len(),
                pools@.len() == i,
                forall|k: int|
                    0 <= k < i ==> pools@[k] == settled_pools(pools0, &self.config, height, obs@)[k],
                forall|k: int|
                    0 <= k < i ==> settle_ok(#[trigger] pools0[k].info, &self.config, height, obs@[k]),
                msgs@ == mass_msgs(pools0.take(i as int), &self.config, height, obs@, reward_balance),
            decreases pools0.len() - i,
        {
            let e = &self.pools[i];
            let (info, mut m) = match update_pool_rewards(&e.info, &self.config, height, obs[i], reward_balance) {
                Err(err) => { return Err(err); },
                Ok(x) => x,
            };
            msgs.append(&mut m);
            pools.push(PoolEntry { lp_token: e.lp_token.clone(), info });
            proof {
                assert(pools0.take(i + 1).drop_last() =~= pools0.take(i as int));
                assert(pools0.take(i + 1).last() == pools0[i as int]);
            }
            i = i + 1;
        }
        proof {
            assert(pools0.take(pools0.len() as int) =~= pools0);
            assert(pools@ =~= settled_pools(pools0, &self.config, height, obs@));
            lemma_sum_alloc_same(pools0, pools@);
        }
        self.pools = pools;
        Ok(msgs)
    }

    /// Settles the pool of `lp_token` at `height`, given its observation.
    pub fn update_pool(
        &mut self,
        lp_token: &String,
        height: u64,
        obs: Observation,
        reward_balance: u128,
    ) -> (r: Result<Vec<Msg>, ContractError>)
        requires
            old(self).wf(),
        ensures
            final(self).wf(),
            update_pool_result(*old(self), *final(self), seq_result(r), *lp_token, height, obs, reward_balance),
    {
        let i = match self.find_pool(lp_token) {
            None => { return Err(ContractError::PoolNotFound); },
            Some(i) => i,
        };
        let (info, msgs) = update_pool_rewards(&self.pools[i].info, &self.config, height, obs, reward_balance)?;
        self.store_pool(i, info);
        Ok(msgs)
    }

    /// The deferred deposit: settles the pool of `lp_token` at `height`, then adds `amount`
    /// to `account`'s position there (creating it if needed), paying what it had earned.
    pub fn deposit(
        &mut self,
        lp_token: &String,
        account: &String,
        amount: u128,
        height: u64,
        obs: Observation,
        reward_balance: u128,
    ) -> (r: Result<Vec<Msg>, ContractError>)
        requires
            old(self).wf(),
        ensures
            final(self).wf(),
            deposit_result(*old(self), *final(self), seq_result(r), *lp_token, *account, amount, height, obs, reward_balance),
    {
        let i = match self.find_pool(lp_token) {
            None => { return Err(ContractError::PoolNotFound); },
            Some(i) => i,
        };
        let user = match self.find_user(lp_token, account) {
            Some(j) => self.users[j].info,
            None => UserInfo { amount: 0, reward_debt: 0, reward_debt_proxy: 0 },
        };
        let (info, mut msgs) = update_pool_rewards(&self.pools[i].info, &self.config, height, obs, reward_balance)?;
        let (updated, mut paid) = deposit_position(&user, &info, lp_token, account, amount, reward_balance)?;
        msgs.append(&mut paid);
        self.store_pool(i, info);
        self.store_user(lp_token, account, updated);
        Ok(msgs)
    }

    /// The deferred withdrawal: settles the pool of `lp_token` at `height`, then takes
    /// `amount` out of `account`'s position there, paying what it had earned. Fails when
    /// there is no position or it holds less than `amount`; the entry stays at zero.
    pub fn withdraw(
        &mut self,
        lp_token: &String,
        account: &String,
        amount: u128,
        height: u64,
        obs: Observation,
        reward_balance: u128,
    ) -> (r: Result<Vec<Msg>, ContractError>)
        requires
            old(self).wf(),
        ensures
            final(self).wf(),
            withdraw_result(*old(self), *final(self), seq_result(r), *lp_token, *account, amount, height, obs, reward_balance),
    {
        let user = match self.find_user(lp_token, account) {
            None => { return Err(ContractError::UserNotFound); },
            Some(j) => self.users[j].info,
        };
        if amount > user.amount {
            return Err(ContractError::BalanceTooSmall);
        }
        let i = match self.find_pool(lp_token) {
            None => { return Err(ContractError::PoolNotFound); },
            Some(i) => i,
        };
        let (info, mut msgs) = update_pool_rewards(&self.pools[i].info, &self.config, height, obs, reward_balance)?;
        let (updated, mut paid) = withdraw_position(&user, &info, lp_token, account, amount, reward_balance)?;
        msgs.append(&mut paid);
        self.store_pool(i, info);
        self.store_user(lp_token, account, updated);
        Ok(msgs)
    }

    /// Returns `sender`'s whole stake in the pool of `lp_token` at once and deletes the
    /// position, forfeiting whatever reward it had earned.
    pub fn emergency_withdraw(&mut self, sender: &String, lp_token: &String) -> (r: Result<
        Vec<Msg>,
        ContractError,
    >)
        requires
            old(self).wf(),
        ensures
            final(self).wf(),
            emergency_result(*old(self), *final(self), seq_result(r), *sender, *lp_token),
    {
        let i = match self.find_pool(lp_token) {
            None => { return Err(ContractError::PoolNotFound); },
            Some(i) => i,
        };
        let j = match self.find_user(lp_token, sender) {
            None => { return Err(ContractError::UserNotFound); },
            Some(j) => j,
        };
        let amount = self.users[j].info.amount;
        let msg = match &self.pools[i].info.reward_proxy {
            Some(proxy) => Msg::ProxyEmergencyWithdraw {
                proxy: proxy.clone(),
                account: sender.clone(),
                amount,
            },
            None => Msg::LpTransfer { lp_token: lp_token.clone(), recipient: sender.clone(), amount },
        };
        proof {
            lemma_user_pos(self.users@, j as int);
            assert forall|l: Seq<char>, c: Seq<char>|
                user_of(self.users@.remove(j as int), l, c) == if user_matches(
                    self.users@[j as int],
                    l,
                    c,
                ) {
                    empty_user()
                } else {
                    user_of(self.users@, l, c)
                } by {
                lemma_user_of_remove(self.users@, j as int, l, c);
            }
            lemma_user_of_remove(self.users@, j as int, lp_token@, sender@);
        }
        self.users.remove(j);
        let mut msgs: Vec<Msg> = Vec::new();
        msgs.push(msg);
        proof {
            assert(msgs@ =~= seq![msg]);
        }
        Ok(msgs)
    }

    /// What `user`'s position in the pool of `lp_token` would be paid if the pool were
    /// settled at `height`: the direct reward, and the proxy reward when the proxy reports
    /// a pending amount (`proxy_pending`) and something is staked.
    pub fn pending_token(
        &self,
        lp_token: &String,
        user: &String,
        height: u64,
        obs: Observation,
        proxy_pending: Option<u128>,
    ) -> (r: Result<PendingTokenResponse, ContractError>)
        requires
            self.wf(),
        ensures
            !has_pool(self.pools@, lp_token@) ==> r == Err::<PendingTokenResponse, ContractError>(
                ContractError::PoolNotFound,
            ),
            has_pool(self.pools@, lp_token@) ==> ({
                let pool = self.pools@[pool_pos(self.pools@, lp_token@)].info;
                let u = user_of(self.users@, lp_token@, user@);
                &&& r is Ok <==> pending_token_ok(pool, &self.config, height, obs, proxy_pending, u)
                &&& r is Err ==> r->Err_0 == ContractError::Arithmetic
                &&& r is Ok ==> r->Ok_0 == pending_token_spec(
                    pool,
                    &self.config,
                    height,
                    obs,
                    proxy_pending,
                    u,
                )
            }),
    {
        let i = match self.find_pool(lp_token) {
            None => { return Err(ContractError::PoolNotFound); },
            Some(i) => i,
        };
        let u = match self.find_user(lp_token, user) {
            Some(j) => self.users[j].info,
            None => UserInfo { amount: 0, reward_debt: 0, reward_debt_proxy: 0 },
        };
        let pool = &self.pools[i].info;
        let mut pending_on_proxy: Option<u128> = None;
        if pool.reward_proxy.is_some() && obs.lp_supply != 0 {
            if let Some(t) = proxy_pending {
                let share = match decimal_from_ratio(t - t / 10, obs.lp_supply) {
                    None => { return Err(ContractError::Arithmetic); },
                    Some(x) => x,
                };
                let acc = match pool.acc_per_share_on_proxy.checked_add(share) {
                    None => { return Err(ContractError::Arithmetic); },
                    Some(a) => a,
                };
                pending_on_proxy = Some(pending_reward(u.amount, acc, u.reward_debt_proxy)?);
            }
        }
        let mut acc = pool.acc_per_share;
        if height > pool.last_reward_block && obs.lp_supply != 0 {
            let rewards = calculate_rewards(pool, &self.config, height)?;
            let share = match decimal_from_ratio(rewards - rewards / 10, obs.lp_supply) {
                None => { return Err(ContractError::Arithmetic); },
                Some(x) => x,
            };
            acc = match acc.checked_add(share) {
                None => { return Err(ContractError::Arithmetic); },
                Some(a) => a,
            };
        }
        let pending = pending_reward(u.amount, acc, u.reward_debt)?;
        Ok(PendingTokenResponse { pending, pending_on_proxy })
    }

    /// Runs an operation submitted by `sender` at `height`. Deposits, withdrawals and
    /// pool updates only begin a settlement cycle here and are carried out once the claim
    /// is acknowledged; the other operations act at once. `proxy_rewards` holds the proxy
    /// reward balance of each pool by position (for `Add`, among the pools with the new
    /// one in place).
    pub fn execute(
        &mut self,
        sender: &String,
        height: u64,
        msg: ExecuteMsg,
        proxy_rewards: &Vec<u128>,
    ) -> (r: Result<Vec<Msg>, ContractError>)
        requires
            old(self).wf(),
            proxy_rewards@.len() == old(self).pools@.len() + if msg is Add {
                1int
            } else {
                0int
            },
        ensures
            final(self).wf(),
            (match msg {
                ExecuteMsg::Add { lp_token, alloc_point, with_update, reward_proxy } => add_result(
                    *old(self),
                    *final(self),
                    seq_result(r),
                    *sender,
                    lp_token,
                    alloc_point,
                    with_update,
                    reward_proxy,
                    height,
                    proxy_rewards@,
                ),
                ExecuteMsg::SetPoolWeight { lp_token, alloc_point, with_update } => set_result(
                    *old(self),
                    *final(self),
                    seq_result(r),
                    *sender,
                    lp_token,
                    alloc_point,
                    with_update,
                    proxy_rewards@,
                ),
                ExecuteMsg::MassUpdatePools => begin_result(
                    *old(self),
                    *final(self),
                    seq_result(r),
                    None,
                    ExecuteOnReply::MassUpdatePools,
                    proxy_rewards@,
                ),
                ExecuteMsg::UpdatePool { lp_token } => begin_result(
                    *old(self),
                    *final(self),
                    seq_result(r),
                    Some(lp_token),
                    ExecuteOnReply::UpdatePool { lp_token },
                    proxy_rewards@,
                ),
                ExecuteMsg::Deposit { lp_token, amount } => begin_result(
                    *old(self),
                    *final(self),
                    seq_result(r),
                    Some(lp_token),
                    ExecuteOnReply::Deposit { lp_token, account: *sender, amount },
                    proxy_rewards@,
                ),
                ExecuteMsg::Withdraw { lp_token, amount } => begin_result(
                    *old(self),
                    *final(self),
                    seq_result(r),
                    Some(lp_token),
                    ExecuteOnReply::Withdraw { lp_token, account: *sender, amount },
                    proxy_rewards@,
                ),
                ExecuteMsg::EmergencyWithdraw { lp_token } => emergency_result(
                    *old(self),
                    *final(self),
                    seq_result(r),
                    *sender,
                    lp_token,
                ),
                ExecuteMsg::SetDev { dev_address } => {
                    &&& r is Ok <==> sender@ == old(self).config.dev_addr@
                    &&& r is Err ==> r->Err_0 == ContractError::Unauthorized && *final(self) == *old(self)
                    &&& r is Ok ==> r->Ok_0@.len() == 0 && *final(self) == (Gauge {
                        config: Config { dev_addr: dev_address, ..old(self).config },
                        ..*old(self)
                    })
                },
                ExecuteMsg::SetAllowedRewardProxies { proxies } => {
                    &&& r is Ok <==> sender@ == old(self).config.owner@
                    &&& r is Err ==> r->Err_0 == ContractError::Unauthorized && *final(self) == *old(self)
                    &&& r is Ok ==> r->Ok_0@.len() == 0 && *final(self) == (Gauge {
                        config: Config { allowed_reward_proxies: proxies, ..old(self).config },
                        ..*old(self)
                    })
                },
            }),
    {
        match msg {
            ExecuteMsg::Add { lp_token, alloc_point, with_update, reward_proxy } => self.add(
                sender,
                lp_token,
                alloc_point,
                with_update,
                reward_proxy,
                height,
                proxy_rewards,
            ),
            ExecuteMsg::SetPoolWeight { lp_token, alloc_point, with_update } => self.set(
                sender,
                lp_token,
                alloc_point,
                with_update,
                proxy_rewards,
            ),
            ExecuteMsg::MassUpdatePools => self.update_rewards_and_execute(
                None,
                ExecuteOnReply::MassUpdatePools,
                proxy_rewards,
            ),
            ExecuteMsg::UpdatePool { lp_token } => {
                let only = lp_token.clone();
                self.update_rewards_and_execute(
                    Some(only),
                    ExecuteOnReply::UpdatePool { lp_token },
                    proxy_rewards,
                )
            },
            ExecuteMsg::Deposit { lp_token, amount } => {
                let only = lp_token.clone();
                let account = sender.clone();
                self.update_rewards_and_execute(
                    Some(only),
                    ExecuteOnReply::Deposit { lp_token, account, amount },
                    proxy_rewards,
                )
            },
            ExecuteMsg::Withdraw { lp_token, amount } => {
                let only = lp_token.clone();
                let account = sender.clone();
                self.update_rewards_and_execute(
                    Some(only),
                    ExecuteOnReply::Withdraw { lp_token, account, amount },
                    proxy_rewards,
                )
            },
            ExecuteMsg::EmergencyWithdraw { lp_token } => self.emergency_withdraw(sender, &lp_token),
            ExecuteMsg::SetDev { dev_address } => {
                self.set_dev(sender, dev_address)?;
                Ok(Vec::new())
            },
            ExecuteMsg::SetAllowedRewardProxies { proxies } => {
                self.set_allowed_reward_proxies(sender, proxies)?;
                Ok(Vec::new())
            },
        }
    }
}

} // verus!
