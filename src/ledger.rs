use vstd::prelude::*;
use crate::accrual::{lemma_settle_idempotent, min_amount, settle_msgs, settle_ok, settled_pool};
use crate::error::ContractError;
use crate::math::{decimal_mul, product_spec, DECIMAL_FRACTIONAL};
use crate::state::{Config, Msg, Observation, PoolInfo, UserInfo};

verus! {

/// Reward owed on a stake: the stake priced at the current accrual, less what is priced in.
pub open spec fn pending_spec(amount: u128, acc: u128, debt: u128) -> int {
    product_spec(amount as int, acc as int) - debt
}

pub open spec fn pending_ok(amount: u128, acc: u128, debt: u128) -> bool {
    product_spec(amount as int, acc as int) <= u128::MAX && pending_spec(amount, acc, debt) >= 0
}

/// Reward owed on a stake; fails when the priced stake leaves `u128` or is below the debt.
pub fn pending_reward(amount: u128, acc: u128, debt: u128) -> (r: Result<u128, ContractError>)
    ensures
        r is Ok <==> pending_ok(amount, acc, debt),
        r is Ok ==> r->Ok_0 == pending_spec(amount, acc, debt),
        r is Err ==> r->Err_0 == ContractError::Arithmetic,
{
    match decimal_mul(amount, acc) {
        None => Err(ContractError::Arithmetic),
        Some(p) => match p.checked_sub(debt) {
            None => Err(ContractError::Arithmetic),
            Some(d) => Ok(d),
        },
    }
}

/// Resetting the debts to a new stake is possible when each priced stake fits in `u128`.
pub open spec fn rebase_ok(pool: PoolInfo, amount: u128) -> bool {
    &&& product_spec(amount as int, pool.acc_per_share as int) <= u128::MAX
    &&& product_spec(amount as int, pool.acc_per_share_on_proxy as int) <= u128::MAX
}

/// The position holding `amount`, with each debt set to the stake priced at the current
/// accrual, so that nothing is pending right after.
pub open spec fn rebased(pool: PoolInfo, amount: u128) -> UserInfo {
    UserInfo {
        amount,
        reward_debt: product_spec(amount as int, pool.acc_per_share as int) as u128,
        reward_debt_proxy: product_spec(amount as int, pool.acc_per_share_on_proxy as int) as u128,
    }
}

fn rebase(pool: &PoolInfo, amount: u128) -> (r: Result<UserInfo, ContractError>)
    ensures
        r is Ok <==> rebase_ok(*pool, amount),
        r is Ok ==> r->Ok_0 == rebased(*pool, amount),
        r is Err ==> r->Err_0 == ContractError::Arithmetic,
{
    let debt = match decimal_mul(amount, pool.acc_per_share) {
        None => { return Err(ContractError::Arithmetic); },
        Some(d) => d,
    };
    let debt_proxy = match decimal_mul(amount, pool.acc_per_share_on_proxy) {
        None => { return Err(ContractError::Arithmetic); },
        Some(d) => d,
    };
    Ok(UserInfo { amount, reward_debt: debt, reward_debt_proxy: debt_proxy })
}

/// Harvesting succeeds when each track's pending reward is defined (the proxy track only
/// for a proxied pool).
pub open spec fn harvest_ok(user: UserInfo, pool: PoolInfo) -> bool {
    &&& pending_ok(user.amount, pool.acc_per_share, user.reward_debt)
    &&& pool.reward_proxy is Some ==> pending_ok(
        user.amount,
        pool.acc_per_share_on_proxy,
        user.reward_debt_proxy,
    )
}

/// The payouts of a harvest: the direct reward, capped at the gauge's reward-token balance,
/// then the proxy reward through the proxy; a zero reward is not sent.
pub open spec fn harvest_msgs(
    user: UserInfo,
    pool: PoolInfo,
    account: String,
    reward_balance: u128,
) -> Seq<Msg> {
    let pending = pending_spec(user.amount, pool.acc_per_share, user.reward_debt);
    let pending_proxy = pending_spec(
        user.amount,
        pool.acc_per_share_on_proxy,
        user.reward_debt_proxy,
    );
    (if pending != 0 {
        seq![
            Msg::RewardTransfer {
                recipient: account,
                amount: min_amount(pending, reward_balance as int) as u128,
            },
        ]
    } else {
        seq![]
    }) + (if pool.reward_proxy is Some && pending_proxy != 0 {
        seq![
            Msg::ProxySendRewards {
                proxy: pool.reward_proxy->Some_0,
                account,
                amount: pending_proxy as u128,
            },
        ]
    } else {
        seq![]
    })
}

fn harvest(user: &UserInfo, pool: &PoolInfo, account: &String, reward_balance: u128) -> (r: Result<
    Vec<Msg>,
    ContractError,
>)
    ensures
        r is Ok <==> harvest_ok(*user, *pool),
        r is Ok ==> r->Ok_0@ == harvest_msgs(*user, *pool, *account, reward_balance),
        r is Err ==> r->Err_0 == ContractError::Arithmetic,
{
    let mut msgs: Vec<Msg> = Vec::new();
    let pending = pending_reward(user.amount, pool.acc_per_share, user.reward_debt)?;
    if pending != 0 {
        let paid = if pending <= reward_balance { pending } else { reward_balance };
        msgs.push(Msg::RewardTransfer { recipient: account.clone(), amount: paid });
    }
    if let Some(proxy) = &pool.reward_proxy {
        let pending_proxy = pending_reward(
            user.amount,
            pool.acc_per_share_on_proxy,
            user.reward_debt_proxy,
        )?;
        if pending_proxy != 0 {
            msgs.push(
                Msg::ProxySendRewards {
                    proxy: proxy.clone(),
                    account: account.clone(),
                    amount: pending_proxy,
                },
            );
        }
    }
    proof {
        assert(msgs@ =~= harvest_msgs(*user, *pool, *account, reward_balance));
    }
    Ok(msgs)
}

/// LP custody moving in on a deposit: to the proxy, or to the gauge.
pub open spec fn stake_in_msgs(pool: PoolInfo, lp_token: String, account: String, amount: u128) -> Seq<Msg> {
    if amount == 0 {
        seq![]
    } else if pool.reward_proxy is Some {
        seq![
            Msg::LpSendToProxy {
                lp_token,
                owner: account,
                proxy: pool.reward_proxy->Some_0,
                amount,
            },
        ]
    } else {
        seq![Msg::LpTransferFrom { lp_token, owner: account, amount }]
    }
}

/// LP custody moving out on a withdrawal: from the proxy, or from the gauge.
pub open spec fn stake_out_msgs(pool: PoolInfo, lp_token: String, account: String, amount: u128) -> Seq<Msg> {
    if amount == 0 {
        seq![]
    } else if pool.reward_proxy is Some {
        seq![Msg::ProxyWithdraw { proxy: pool.reward_proxy->Some_0, account, amount }]
    } else {
        seq![Msg::LpTransfer { lp_token, recipient: account, amount }]
    }
}

pub open spec fn deposit_ok(user: UserInfo, pool: PoolInfo, amount: u128) -> bool {
    &&& user.amount != 0 ==> harvest_ok(user, pool)
    &&& user.amount + amount <= u128::MAX
    &&& rebase_ok(pool, (user.amount + amount) as u128)
}

pub open spec fn deposit_msgs(
    user: UserInfo,
    pool: PoolInfo,
    lp_token: String,
    account: String,
    amount: u128,
    reward_balance: u128,
) -> Seq<Msg> {
    (if user.amount != 0 {
        harvest_msgs(user, pool, account, reward_balance)
    } else {
        seq![]
    }) + stake_in_msgs(pool, lp_token, account, amount)
}

/// Adds `amount` to a position of a settled pool: pays what a nonzero stake has earned,
/// takes the LP tokens into custody and resets the debts to the new stake.
pub fn deposit_position(
    user: &UserInfo,
    pool: &PoolInfo,
    lp_token: &String,
    account: &String,
    amount: u128,
    reward_balance: u128,
) -> (r: Result<(UserInfo, Vec<Msg>), ContractError>)
    ensures
        r is Ok <==> deposit_ok(*user, *pool, amount),
        r is Ok ==> r->Ok_0.0 == rebased(*pool, (user.amount + amount) as u128),
        r is Ok ==> r->Ok_0.1@ == deposit_msgs(
            *user,
            *pool,
            *lp_token,
            *account,
            amount,
            reward_balance,
        ),
        r is Err ==> r->Err_0 == ContractError::Arithmetic,
{
    let mut msgs: Vec<Msg> = if user.amount != 0 {
        harvest(user, pool, account, reward_balance)?
    } else {
        Vec::new()
    };
    let ghost paid = msgs@;
    if amount != 0 {
        match &pool.reward_proxy {
            Some(proxy) => msgs.push(
                Msg::LpSendToProxy {
                    lp_token: lp_token.clone(),
                    owner: account.clone(),
                    proxy: proxy.clone(),
                    amount,
                },
            ),
            None => msgs.push(
                Msg::LpTransferFrom { lp_token: lp_token.clone(), owner: account.clone(), amount },
            ),
        }
    }
    let total = match user.amount.checked_add(amount) {
        None => { return Err(ContractError::Arithmetic); },
        Some(t) => t,
    };
    let updated = rebase(pool, total)?;
    proof {
        assert(msgs@ =~= paid + stake_in_msgs(*pool, *lp_token, *account, amount));
    }
    Ok((updated, msgs))
}

pub open spec fn withdraw_ok(user: UserInfo, pool: PoolInfo, amount: u128) -> bool {
    &&& amount <= user.amount
    &&& harvest_ok(user, pool)
    &&& rebase_ok(pool, (user.amount - amount) as u128)
}

pub open spec fn withdraw_msgs(
    user: UserInfo,
    pool: PoolInfo,
    lp_token: String,
    account: String,
    amount: u128,
    reward_balance: u128,
) -> Seq<Msg> {
    harvest_msgs(user, pool, account, reward_balance) + stake_out_msgs(
        pool,
        lp_token,
        account,
        amount,
    )
}

/// Takes `amount` out of a position of a settled pool: pays what the stake has earned,
/// returns the LP tokens and resets the debts to the remaining stake.
pub fn withdraw_position(
    user: &UserInfo,
    pool: &PoolInfo,
    lp_token: &String,
    account: &String,
    amount: u128,
    reward_balance: u128,
) -> (r: Result<(UserInfo, Vec<Msg>), ContractError>)
    ensures
        r is Ok <==> withdraw_ok(*user, *pool, amount),
        r is Ok ==> r->Ok_0.0 == rebased(*pool, (user.amount - amount) as u128),
        r is Ok ==> r->Ok_0.1@ == withdraw_msgs(
            *user,
            *pool,
            *lp_token,
            *account,
            amount,
            reward_balance,
        ),
        r is Err ==> r->Err_0 == (if amount > user.amount {
            ContractError::BalanceTooSmall
        } else {
            ContractError::Arithmetic
        }),
{
    if amount > user.amount {
        return Err(ContractError::BalanceTooSmall);
    }
    let mut msgs = harvest(user, pool, account, reward_balance)?;
    let ghost paid = msgs@;
    if amount != 0 {
        match &pool.reward_proxy {
            Some(proxy) => msgs.push(
                Msg::ProxyWithdraw { proxy: proxy.clone(), account: account.clone(), amount },
            ),
            None => msgs.push(
                Msg::LpTransfer { lp_token: lp_token.clone(), recipient: account.clone(), amount },
            ),
        }
    }
    let updated = rebase(pool, user.amount - amount)?;
    proof {
        assert(msgs@ =~= paid + stake_out_msgs(*pool, *lp_token, *account, amount));
    }
    Ok((updated, msgs))
}

proof fn lemma_product_monotonic(a: u128, b: u128, ratio: u128)
    requires
        a <= b,
    ensures
        product_spec(a as int, ratio as int) <= product_spec(b as int, ratio as int),
        product_spec(a as int, 0) == 0,
{
    assert(a * ratio <= b * ratio) by (nonlinear_arith)
        requires a <= b, ratio >= 0;
    vstd::arithmetic::div_mod::lemma_div_is_ordered(
        a * ratio,
        b * ratio,
        DECIMAL_FRACTIONAL as int,
    );
    assert(a * 0int == 0) by (nonlinear_arith);
}

/// Depositing `amount` and withdrawing it again without any accrual in between leaves no
/// reward pending, pays nothing and gives back the stake held before.
pub proof fn lemma_deposit_withdraw_round_trip(
    user: UserInfo,
    pool: PoolInfo,
    amount: u128,
    account: String,
    reward_balance: u128,
)
    requires
        deposit_ok(user, pool, amount),
    ensures
        ({
            let after = rebased(pool, (user.amount + amount) as u128);
            &&& pending_spec(after.amount, pool.acc_per_share, after.reward_debt) == 0
            &&& pending_spec(after.amount, pool.acc_per_share_on_proxy, after.reward_debt_proxy)
                == 0
            &&& withdraw_ok(after, pool, amount)
            &&& harvest_msgs(after, pool, account, reward_balance).len() == 0
            &&& rebased(pool, (after.amount - amount) as u128).amount == user.amount
        }),
{
    let total = (user.amount + amount) as u128;
    lemma_product_monotonic(user.amount, total, pool.acc_per_share);
    lemma_product_monotonic(user.amount, total, pool.acc_per_share_on_proxy);
    let after = rebased(pool, total);
    assert(harvest_msgs(after, pool, account, reward_balance) =~= seq![]);
}

/// A deposit and a withdrawal of the same amount at the same height, each preceded by the
/// pool's settlement as the gauge does it, with no new proxy reward in between, pay nothing
/// on the withdrawal and give back the stake held before the deposit.
pub proof fn lemma_round_trip_at_same_height(
    pool: PoolInfo,
    cfg: &Config,
    height: u64,
    first: Observation,
    second: Observation,
    user: UserInfo,
    amount: u128,
    lp_token: String,
    account: String,
    reward_balance: u128,
)
    requires
        pool.reward_proxy is None || second.proxy_reward == first.proxy_reward,
        settle_ok(pool, cfg, height, first),
        deposit_ok(user, settled_pool(pool, cfg, height, first), amount),
    ensures
        ({
            let once = settled_pool(pool, cfg, height, first);
            let after = rebased(once, (user.amount + amount) as u128);
            let twice = settled_pool(once, cfg, height, second);
            &&& settle_ok(once, cfg, height, second)
            &&& twice == once
            &&& settle_msgs(once, cfg, height, second, reward_balance).len() == 0
            &&& withdraw_ok(after, twice, amount)
            &&& withdraw_msgs(after, twice, lp_token, account, amount, reward_balance)
                == stake_out_msgs(twice, lp_token, account, amount)
            &&& rebased(twice, (after.amount - amount) as u128).amount == user.amount
        }),
{
    let once = settled_pool(pool, cfg, height, first);
    lemma_settle_idempotent(pool, cfg, height, first, second, reward_balance);
    lemma_deposit_withdraw_round_trip(user, once, amount, account, reward_balance);
    let after = rebased(once, (user.amount + amount) as u128);
    assert(withdraw_msgs(after, once, lp_token, account, amount, reward_balance) =~= stake_out_msgs(
        once,
        lp_token,
        account,
        amount,
    ));
}

} // verus!
