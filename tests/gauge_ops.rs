use gauge::accrual::{calculate_rewards, update_pool_rewards};
use gauge::error::ContractError;
use gauge::gauge::Gauge;
use gauge::ledger::{deposit_position, pending_reward, withdraw_position};
use gauge::math::{decimal_from_ratio, decimal_mul, get_multiplier, BONUS_MULTIPLIER, DECIMAL_FRACTIONAL};
use gauge::state::{
    Config, ExecuteMsg, ExecuteOnReply, InstantiateMsg, Msg, Observation, PendingTokenResponse, PoolInfo,
    UserInfo,
};

fn s(x: &str) -> String {
    x.to_string()
}

fn config(total_alloc_point: u64) -> Config {
    Config {
        astro_token: s("astro"),
        dev_addr: s("dev"),
        owner: s("owner"),
        vesting_contract: s("vesting"),
        tokens_per_block: 1000,
        start_block: 0,
        bonus_end_block: 1000,
        total_alloc_point,
        allowed_reward_proxies: vec![s("proxy")],
    }
}

fn direct_pool(alloc_point: u64, last_reward_block: u64) -> PoolInfo {
    PoolInfo {
        alloc_point,
        last_reward_block,
        acc_per_share: 0,
        reward_proxy: None,
        acc_per_share_on_proxy: 0,
        proxy_reward_balance_before_update: 0,
    }
}

fn new_gauge() -> Gauge {
    Gauge::instantiate(
        s("owner"),
        InstantiateMsg {
            astro_token: s("astro"),
            dev_addr: s("dev"),
            vesting_contract: s("vesting"),
            tokens_per_block: 1000,
            start_block: 100,
            bonus_end_block: 1000,
            allowed_reward_proxies: vec![s("proxy")],
        },
    )
}

fn obs(lp_supply: u128) -> Observation {
    Observation { lp_supply, proxy_reward: 0 }
}

fn total_of(g: &Gauge) -> u64 {
    g.pools.iter().map(|p| p.info.alloc_point).sum()
}

#[test]
fn multiplier_within_bonus() {
    assert_eq!(get_multiplier(10, 20, 100), Ok(10 * BONUS_MULTIPLIER));
    assert_eq!(get_multiplier(10, 100, 100), Ok(900));
}

#[test]
fn multiplier_after_bonus() {
    assert_eq!(get_multiplier(100, 130, 100), Ok(30));
    assert_eq!(get_multiplier(150, 150, 100), Ok(0));
}

#[test]
fn multiplier_straddling_bonus_end() {
    assert_eq!(get_multiplier(90, 110, 100), Ok(10 * BONUS_MULTIPLIER + 10));
}

#[test]
fn multiplier_rejects_reversed_span_and_overflow() {
    assert_eq!(get_multiplier(20, 10, 100), Err(ContractError::Arithmetic));
    assert_eq!(get_multiplier(0, u64::MAX, u64::MAX), Err(ContractError::Arithmetic));
}

#[test]
fn reward_multiplier_clamps_to_start_block() {
    let g = new_gauge();
    assert_eq!(g.reward_multiplier(0, 110), Ok(100));
}

#[test]
fn emission_over_ten_bonus_blocks() {
    let cfg = config(100);
    let pool = direct_pool(100, 0);
    assert_eq!(calculate_rewards(&pool, &cfg, 10), Ok(100_000));
    let (settled, msgs) = update_pool_rewards(&pool, &cfg, 10, obs(3), u128::MAX).unwrap();
    assert_eq!(msgs, vec![Msg::RewardTransfer { recipient: s("dev"), amount: 10_000 }]);
    assert_eq!(settled.acc_per_share, 90_000 * DECIMAL_FRACTIONAL / 3);
    assert_eq!(settled.last_reward_block, 10);
}

#[test]
fn emission_needs_registered_weight() {
    let cfg = config(0);
    let pool = direct_pool(0, 0);
    assert_eq!(calculate_rewards(&pool, &cfg, 10), Err(ContractError::Arithmetic));
}

#[test]
fn dev_cut_capped_at_treasury_balance() {
    let cfg = config(100);
    let pool = direct_pool(100, 0);
    let (_, msgs) = update_pool_rewards(&pool, &cfg, 10, obs(1), 7).unwrap();
    assert_eq!(msgs, vec![Msg::RewardTransfer { recipient: s("dev"), amount: 7 }]);
}

#[test]
fn zero_supply_advances_checkpoint_without_accrual() {
    let cfg = config(100);
    let pool = direct_pool(100, 0);
    let (settled, msgs) = update_pool_rewards(&pool, &cfg, 10, obs(0), 100).unwrap();
    assert!(msgs.is_empty());
    assert_eq!(settled.acc_per_share, 0);
    assert_eq!(settled.last_reward_block, 10);
}

#[test]
fn settling_twice_at_same_height_is_a_no_op() {
    let cfg = config(100);
    let pool = direct_pool(100, 0);
    let (once, _) = update_pool_rewards(&pool, &cfg, 10, obs(5), u128::MAX).unwrap();
    let (twice, msgs) = update_pool_rewards(&once, &cfg, 10, obs(5), u128::MAX).unwrap();
    assert_eq!(twice, once);
    assert!(msgs.is_empty());
}

#[test]
fn proxy_track_takes_dev_cut_of_reward_delta() {
    let cfg = config(100);
    let mut pool = direct_pool(100, 10);
    pool.reward_proxy = Some(s("proxy"));
    pool.proxy_reward_balance_before_update = 50;
    let o = Observation { lp_supply: 9, proxy_reward: 150 };
    let (settled, msgs) = update_pool_rewards(&pool, &cfg, 10, o, 0).unwrap();
    assert_eq!(
        msgs,
        vec![Msg::ProxySendRewards { proxy: s("proxy"), account: s("dev"), amount: 10 }]
    );
    assert_eq!(settled.acc_per_share_on_proxy, 10 * DECIMAL_FRACTIONAL);
    let shrunk = Observation { lp_supply: 9, proxy_reward: 40 };
    assert_eq!(update_pool_rewards(&pool, &cfg, 10, shrunk, 0), Err(ContractError::Arithmetic));
}

#[test]
fn fixed_point_helpers_use_wide_intermediates() {
    assert_eq!(decimal_from_ratio(1, 3), Some(333_333_333_333_333_333));
    assert_eq!(decimal_from_ratio(u128::MAX, 2 * DECIMAL_FRACTIONAL), Some(u128::MAX / 2));
    assert_eq!(decimal_from_ratio(u128::MAX, 1), None);
    assert_eq!(decimal_mul(3, 3 * DECIMAL_FRACTIONAL / 2), Some(4));
    assert_eq!(decimal_mul(u128::MAX / 2, 2 * DECIMAL_FRACTIONAL), Some(u128::MAX - 1));
    assert_eq!(decimal_mul(u128::MAX, 2 * DECIMAL_FRACTIONAL), None);
    assert_eq!(decimal_mul(0, u128::MAX), Some(0));
}

#[test]
fn pending_reward_below_debt_fails() {
    assert_eq!(pending_reward(2, 3 * DECIMAL_FRACTIONAL, 1), Ok(5));
    assert_eq!(pending_reward(2, DECIMAL_FRACTIONAL, 3), Err(ContractError::Arithmetic));
}

#[test]
fn ledger_round_trip_restores_stake() {
    let mut pool = direct_pool(100, 0);
    pool.acc_per_share = 7 * DECIMAL_FRACTIONAL;
    let user = UserInfo { amount: 10, reward_debt: 70, reward_debt_proxy: 0 };
    let (after, msgs) = deposit_position(&user, &pool, &s("lp"), &s("alice"), 5, 1000).unwrap();
    assert_eq!(msgs, vec![Msg::LpTransferFrom { lp_token: s("lp"), owner: s("alice"), amount: 5 }]);
    assert_eq!(after, UserInfo { amount: 15, reward_debt: 105, reward_debt_proxy: 0 });
    let (back, msgs) = withdraw_position(&after, &pool, &s("lp"), &s("alice"), 5, 1000).unwrap();
    assert_eq!(msgs, vec![Msg::LpTransfer { lp_token: s("lp"), recipient: s("alice"), amount: 5 }]);
    assert_eq!(back.amount, 10);
}

#[test]
fn add_keeps_total_weight_in_step() {
    let mut g = new_gauge();
    g.add(&s("owner"), s("lp1"), 30, false, None, 50, &vec![]).unwrap();
    g.add(&s("owner"), s("lp2"), 70, false, Some(s("proxy")), 150, &vec![]).unwrap();
    assert_eq!(g.pool_length(), 2);
    assert_eq!(g.config.total_alloc_point, 100);
    assert_eq!(total_of(&g), 100);
    assert_eq!(g.pools[0].info.last_reward_block, 100);
    assert_eq!(g.pools[1].info.last_reward_block, 150);
    g.set(&s("owner"), s("lp1"), 10, false, &vec![]).unwrap();
    assert_eq!(g.config.total_alloc_point, 80);
    assert_eq!(total_of(&g), 80);
}

#[test]
fn add_twice_conflicts() {
    let mut g = new_gauge();
    g.add(&s("owner"), s("lp"), 30, false, None, 0, &vec![]).unwrap();
    let again = g.add(&s("owner"), s("lp"), 40, false, None, 0, &vec![]);
    assert_eq!(again, Err(ContractError::TokenPoolAlreadyExists));
    assert_eq!(g.config.total_alloc_point, 30);
    assert_eq!(g.pool_length(), 1);
}

#[test]
fn admin_errors() {
    let mut g = new_gauge();
    assert_eq!(g.add(&s("eve"), s("lp"), 1, false, None, 0, &vec![]), Err(ContractError::Unauthorized));
    assert_eq!(
        g.add(&s("owner"), s("lp"), 1, false, Some(s("rogue")), 0, &vec![]),
        Err(ContractError::RewardProxyNotAllowed)
    );
    assert_eq!(g.set(&s("owner"), s("lp"), 1, false, &vec![]), Err(ContractError::PoolNotFound));
    g.add(&s("owner"), s("lp"), u64::MAX, false, None, 0, &vec![]).unwrap();
    assert_eq!(
        g.add(&s("owner"), s("lp2"), 1, false, None, 0, &vec![]),
        Err(ContractError::Arithmetic)
    );
    assert_eq!(g.set_dev(&s("owner"), s("dev2")), Err(ContractError::Unauthorized));
    assert_eq!(g.set_dev(&s("dev"), s("dev2")), Ok(()));
    assert_eq!(g.config.dev_addr, s("dev2"));
    assert_eq!(
        g.set_allowed_reward_proxies(&s("eve"), vec![]),
        Err(ContractError::Unauthorized)
    );
    assert_eq!(g.set_allowed_reward_proxies(&s("owner"), vec![s("proxy_b")]), Ok(()));
    assert_eq!(g.config.allowed_reward_proxies, vec![s("proxy_b")]);
}

#[test]
fn settlement_cycle_defers_one_action() {
    let mut g = new_gauge();
    g.add(&s("owner"), s("lp1"), 50, false, None, 0, &vec![]).unwrap();
    g.add(&s("owner"), s("lp2"), 50, false, Some(s("proxy")), 0, &vec![]).unwrap();
    let msgs = g
        .update_rewards_and_execute(None, ExecuteOnReply::MassUpdatePools, &vec![0, 42])
        .unwrap();
    assert_eq!(
        msgs,
        vec![
            Msg::ProxyUpdateRewards { proxy: s("proxy") },
            Msg::VestingClaim { vesting_contract: s("vesting") },
        ]
    );
    assert_eq!(g.pools[1].info.proxy_reward_balance_before_update, 42);
    let second = g.update_rewards_and_execute(
        Some(s("lp1")),
        ExecuteOnReply::UpdatePool { lp_token: s("lp1") },
        &vec![0, 0],
    );
    assert_eq!(second, Err(ContractError::RepeatedReply));
    let msgs = g.reply(100, &vec![obs(0), obs(0)], 0).unwrap();
    assert!(msgs.is_empty());
    assert!(g.pending.is_none());
    assert_eq!(g.reply(100, &vec![obs(0), obs(0)], 0), Ok(vec![]));
    let missing = g.update_rewards_and_execute(
        Some(s("nope")),
        ExecuteOnReply::UpdatePool { lp_token: s("nope") },
        &vec![0, 0],
    );
    assert_eq!(missing, Err(ContractError::PoolNotFound));
    assert!(g.pending.is_none());
}

#[test]
fn add_with_update_starts_mass_update() {
    let mut g = new_gauge();
    let msgs = g.add(&s("owner"), s("lp"), 5, true, Some(s("proxy")), 0, &vec![9]).unwrap();
    assert_eq!(msgs.len(), 2);
    assert_eq!(g.pending, Some(ExecuteOnReply::MassUpdatePools));
    assert_eq!(g.pools[0].info.proxy_reward_balance_before_update, 9);
}

#[test]
fn mass_update_settles_every_pool() {
    let mut g = new_gauge();
    g.add(&s("owner"), s("lp1"), 50, false, None, 0, &vec![]).unwrap();
    g.add(&s("owner"), s("lp2"), 50, false, None, 0, &vec![]).unwrap();
    let msgs = g.mass_update_pools(110, &vec![obs(1), obs(0)], u128::MAX).unwrap();
    assert_eq!(msgs, vec![Msg::RewardTransfer { recipient: s("dev"), amount: 5_000 }]);
    assert_eq!(g.pools[0].info.acc_per_share, 45_000 * DECIMAL_FRACTIONAL);
    assert_eq!(g.pools[1].info.acc_per_share, 0);
    assert_eq!(g.pools[0].info.last_reward_block, 110);
    assert_eq!(g.pools[1].info.last_reward_block, 110);
}

#[test]
fn deposit_then_withdraw_same_block_pays_nothing() {
    let mut g = new_gauge();
    g.add(&s("owner"), s("lp"), 100, false, None, 0, &vec![]).unwrap();
    g.deposit(&s("lp"), &s("alice"), 10, 100, obs(0), u128::MAX).unwrap();
    g.update_pool(&s("lp"), 110, obs(10), u128::MAX).unwrap();
    let before = g.query_deposit(&s("lp"), &s("alice"));
    let msgs = g.deposit(&s("lp"), &s("alice"), 5, 110, obs(10), u128::MAX).unwrap();
    assert!(msgs.contains(&Msg::RewardTransfer { recipient: s("alice"), amount: 90_000 }));
    let msgs = g.withdraw(&s("lp"), &s("alice"), 5, 110, obs(15), u128::MAX).unwrap();
    assert_eq!(msgs, vec![Msg::LpTransfer { lp_token: s("lp"), recipient: s("alice"), amount: 5 }]);
    assert_eq!(g.query_deposit(&s("lp"), &s("alice")), before);
}

#[test]
fn withdraw_more_than_stake_fails() {
    let mut g = new_gauge();
    g.add(&s("owner"), s("lp"), 100, false, None, 0, &vec![]).unwrap();
    g.deposit(&s("lp"), &s("alice"), 10, 100, obs(0), 0).unwrap();
    let r = g.withdraw(&s("lp"), &s("alice"), 11, 100, obs(10), 0);
    assert_eq!(r, Err(ContractError::BalanceTooSmall));
    assert_eq!(g.query_deposit(&s("lp"), &s("alice")), 10);
    let r = g.withdraw(&s("lp"), &s("bob"), 1, 100, obs(10), 0);
    assert_eq!(r, Err(ContractError::UserNotFound));
}

#[test]
fn withdraw_to_zero_keeps_position() {
    let mut g = new_gauge();
    g.add(&s("owner"), s("lp"), 100, false, None, 0, &vec![]).unwrap();
    g.deposit(&s("lp"), &s("alice"), 10, 100, obs(0), 0).unwrap();
    g.withdraw(&s("lp"), &s("alice"), 10, 100, obs(10), 0).unwrap();
    assert_eq!(g.query_deposit(&s("lp"), &s("alice")), 0);
    assert_eq!(g.users.len(), 1);
}

#[test]
fn deposit_into_proxied_pool_goes_to_proxy() {
    let mut g = new_gauge();
    g.add(&s("owner"), s("lp"), 100, false, Some(s("proxy")), 0, &vec![]).unwrap();
    let msgs = g.deposit(&s("lp"), &s("alice"), 10, 100, obs(0), 0).unwrap();
    assert_eq!(
        msgs,
        vec![Msg::LpSendToProxy { lp_token: s("lp"), owner: s("alice"), proxy: s("proxy"), amount: 10 }]
    );
    let msgs = g.withdraw(&s("lp"), &s("alice"), 4, 100, obs(10), 0).unwrap();
    assert_eq!(msgs, vec![Msg::ProxyWithdraw { proxy: s("proxy"), account: s("alice"), amount: 4 }]);
    assert_eq!(g.deposit(&s("nope"), &s("alice"), 1, 100, obs(0), 0), Err(ContractError::PoolNotFound));
}

#[test]
fn emergency_withdraw_drops_position_and_reward() {
    let mut g = new_gauge();
    g.add(&s("owner"), s("lp"), 100, false, None, 0, &vec![]).unwrap();
    g.deposit(&s("lp"), &s("alice"), 10, 100, obs(0), 0).unwrap();
    g.update_pool(&s("lp"), 120, obs(10), u128::MAX).unwrap();
    let p = g.pending_token(&s("lp"), &s("alice"), 120, obs(10), None).unwrap();
    assert!(p.pending > 0);
    let msgs = g.emergency_withdraw(&s("alice"), &s("lp")).unwrap();
    assert_eq!(msgs, vec![Msg::LpTransfer { lp_token: s("lp"), recipient: s("alice"), amount: 10 }]);
    assert_eq!(g.query_deposit(&s("lp"), &s("alice")), 0);
    assert!(g.users.is_empty());
    assert_eq!(g.emergency_withdraw(&s("alice"), &s("lp")), Err(ContractError::UserNotFound));
    assert_eq!(g.emergency_withdraw(&s("alice"), &s("x")), Err(ContractError::PoolNotFound));
}

#[test]
fn pending_token_projects_unsettled_blocks() {
    let mut g = new_gauge();
    g.add(&s("owner"), s("lp"), 100, false, Some(s("proxy")), 0, &vec![]).unwrap();
    g.deposit(&s("lp"), &s("alice"), 10, 100, obs(0), 0).unwrap();
    let p = g.pending_token(&s("lp"), &s("alice"), 110, obs(10), Some(100)).unwrap();
    assert_eq!(p, PendingTokenResponse { pending: 90_000, pending_on_proxy: Some(90) });
    let p = g.pending_token(&s("lp"), &s("alice"), 110, obs(10), None).unwrap();
    assert_eq!(p.pending_on_proxy, None);
    assert_eq!(g.pending_token(&s("x"), &s("alice"), 110, obs(10), None), Err(ContractError::PoolNotFound));
}

#[test]
fn execute_defers_deposit_until_reply() {
    let mut g = new_gauge();
    let add = ExecuteMsg::Add { lp_token: s("lp"), alloc_point: 10, with_update: false, reward_proxy: None };
    assert_eq!(g.execute(&s("owner"), 100, add, &vec![0]), Ok(vec![]));
    let dep = ExecuteMsg::Deposit { lp_token: s("lp"), amount: 7 };
    let msgs = g.execute(&s("alice"), 100, dep, &vec![0]).unwrap();
    assert_eq!(msgs, vec![Msg::VestingClaim { vesting_contract: s("vesting") }]);
    let again = ExecuteMsg::Withdraw { lp_token: s("lp"), amount: 1 };
    assert_eq!(g.execute(&s("alice"), 100, again, &vec![0]), Err(ContractError::RepeatedReply));
    let msgs = g.reply(100, &vec![obs(0)], 0).unwrap();
    assert_eq!(msgs, vec![Msg::LpTransferFrom { lp_token: s("lp"), owner: s("alice"), amount: 7 }]);
    assert!(g.pending.is_none());
    assert_eq!(g.query_deposit(&s("lp"), &s("alice")), 7);
    let weight = ExecuteMsg::SetPoolWeight { lp_token: s("lp"), alloc_point: 4, with_update: false };
    assert_eq!(g.execute(&s("owner"), 100, weight, &vec![0]), Ok(vec![]));
    assert_eq!(g.config.total_alloc_point, 4);
    let dev = ExecuteMsg::SetDev { dev_address: s("dev2") };
    assert_eq!(g.execute(&s("alice"), 100, dev, &vec![0]), Err(ContractError::Unauthorized));
    let out = ExecuteMsg::EmergencyWithdraw { lp_token: s("lp") };
    let msgs = g.execute(&s("alice"), 100, out, &vec![0]).unwrap();
    assert_eq!(msgs, vec![Msg::LpTransfer { lp_token: s("lp"), recipient: s("alice"), amount: 7 }]);
}

#[test]
fn proxy_settlement_moves_snapshot() {
    let cfg = config(100);
    let mut pool = direct_pool(100, 10);
    pool.reward_proxy = Some(s("proxy"));
    pool.proxy_reward_balance_before_update = 50;
    let o = Observation { lp_supply: 9, proxy_reward: 150 };
    let (once, _) = update_pool_rewards(&pool, &cfg, 10, o, 0).unwrap();
    assert_eq!(once.proxy_reward_balance_before_update, 150);
    let (twice, msgs) = update_pool_rewards(&once, &cfg, 10, o, 0).unwrap();
    assert_eq!(twice, once);
    assert!(msgs.is_empty());
}

#[test]
fn debt_follows_stake_at_zero_accrual() {
    let pool = direct_pool(100, 0);
    let user = UserInfo { amount: 0, reward_debt: 7, reward_debt_proxy: 7 };
    let (after, _) = deposit_position(&user, &pool, &s("lp"), &s("alice"), 5, 0).unwrap();
    assert_eq!(after, UserInfo { amount: 5, reward_debt: 0, reward_debt_proxy: 0 });
    let (back, msgs) = withdraw_position(&after, &pool, &s("lp"), &s("alice"), 5, 0).unwrap();
    assert_eq!(back.amount, 0);
    assert_eq!(msgs, vec![Msg::LpTransfer { lp_token: s("lp"), recipient: s("alice"), amount: 5 }]);
}

#[test]
fn reply_runs_deferred_mass_update() {
    let mut g = new_gauge();
    g.add(&s("owner"), s("lp"), 100, false, None, 0, &vec![]).unwrap();
    g.execute(&s("anyone"), 100, ExecuteMsg::MassUpdatePools, &vec![0]).unwrap();
    let msgs = g.reply(110, &vec![obs(1)], u128::MAX).unwrap();
    assert_eq!(msgs, vec![Msg::RewardTransfer { recipient: s("dev"), amount: 10_000 }]);
    assert_eq!(g.pools[0].info.last_reward_block, 110);
}

#[test]
fn pools_kept_in_lp_token_order() {
    let mut g = new_gauge();
    g.add(&s("owner"), s("lp_c"), 1, false, None, 0, &vec![]).unwrap();
    g.add(&s("owner"), s("lp_a"), 2, false, None, 0, &vec![]).unwrap();
    g.add(&s("owner"), s("lp_b"), 3, false, None, 0, &vec![]).unwrap();
    g.add(&s("owner"), s("lp"), 4, false, None, 0, &vec![]).unwrap();
    let keys: Vec<String> = g.pools.iter().map(|p| p.lp_token.clone()).collect();
    assert_eq!(keys, vec![s("lp"), s("lp_a"), s("lp_b"), s("lp_c")]);
    assert_eq!(g.config.total_alloc_point, 10);
    let msgs = g.mass_update_pools(110, &vec![obs(1), obs(1), obs(1), obs(1)], u128::MAX).unwrap();
    let amounts: Vec<u128> = msgs
        .iter()
        .map(|m| match m {
            Msg::RewardTransfer { amount, .. } => *amount,
            _ => 0,
        })
        .collect();
    assert_eq!(amounts, vec![4_000, 2_000, 3_000, 1_000]);
}
