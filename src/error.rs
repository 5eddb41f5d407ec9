use vstd::prelude::*;

verus! {

/// Errors of the gauge's operations.
#[derive(Debug, Clone, Copy, PartialEq, Eq, Structural)]
pub enum ContractError {
    /// The sender lacks the role the operation asks for.
    Unauthorized,
    /// No pool is registered for the given LP token.
    PoolNotFound,
    /// The account holds no position in the pool.
    UserNotFound,
    /// A pool is already registered for the LP token.
    TokenPoolAlreadyExists,
    /// The reward proxy is not on the allow-list.
    RewardProxyNotAllowed,
    /// An overflow, underflow or division by zero.
    Arithmetic,
    /// A withdrawal asks for more than the account has staked.
    BalanceTooSmall,
    /// A deferred action was recorded while another one was outstanding.
    RepeatedReply,
}

} // verus!
