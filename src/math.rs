use vstd::prelude::*;
use crate::error::ContractError;

verus! {

/// Emission weight of a block inside the bonus period.
pub const BONUS_MULTIPLIER: u64 = 10;

/// Fixed-point scale of a per-share ratio: a ratio `x` is stored as `x * DECIMAL_FRACTIONAL`.
pub const DECIMAL_FRACTIONAL: u128 = 1_000_000_000_000_000_000;

/// Weighted number of blocks in `[from, to)`: bonus blocks (up to `bonus_end`) count
/// `BONUS_MULTIPLIER` times.
pub open spec fn multiplier_spec(from: int, to: int, bonus_end: int) -> int {
    if to <= bonus_end {
        (to - from) * BONUS_MULTIPLIER
    } else if from >= bonus_end {
        to - from
    } else {
        (bonus_end - from) * BONUS_MULTIPLIER + (to - bonus_end)
    }
}

/// `get_multiplier` succeeds exactly on ordered checkpoints whose weight fits in `u64`.
pub open spec fn multiplier_ok(from: int, to: int, bonus_end: int) -> bool {
    from <= to && multiplier_spec(from, to, bonus_end) <= u64::MAX
}

/// Weighted number of blocks between two checkpoints; fails on `from > to` or overflow.
pub fn get_multiplier(from: u64, to: u64, bonus_end_block: u64) -> (r: Result<u64, ContractError>)
    ensures
        r is Ok <==> multiplier_ok(from as int, to as int, bonus_end_block as int),
        r is Ok ==> r->Ok_0 == multiplier_spec(from as int, to as int, bonus_end_block as int),
        r is Err ==> r->Err_0 == ContractError::Arithmetic,
{
    if to <= bonus_end_block {
        match to.checked_sub(from) {
            None => Err(ContractError::Arithmetic),
            Some(d) => match d.checked_mul(BONUS_MULTIPLIER) {
                None => Err(ContractError::Arithmetic),
                Some(m) => Ok(m),
            },
        }
    } else if from >= bonus_end_block {
        match to.checked_sub(from) {
            None => Err(ContractError::Arithmetic),
            Some(d) => Ok(d),
        }
    } else {
        let bonus: u64 = bonus_end_block - from;
        let rest: u64 = to - bonus_end_block;
        match bonus.checked_mul(BONUS_MULTIPLIER) {
            None => Err(ContractError::Arithmetic),
            Some(m) => match m.checked_add(rest) {
                None => Err(ContractError::Arithmetic),
                Some(s) => Ok(s),
            },
        }
    }
}

/// A span wholly inside the bonus period is weighted by `BONUS_MULTIPLIER`.
pub proof fn lemma_multiplier_within_bonus(from: int, to: int, bonus_end: int)
    requires
        from <= to <= bonus_end,
    ensures
        multiplier_spec(from, to, bonus_end) == (to - from) * BONUS_MULTIPLIER,
{
}

/// A span wholly after the bonus period is unweighted.
pub proof fn lemma_multiplier_after_bonus(from: int, to: int, bonus_end: int)
    requires
        bonus_end <= from <= to,
    ensures
        multiplier_spec(from, to, bonus_end) == to - from,
{
}

/// A span across the end of the bonus period is weighted on its bonus part only.
pub proof fn lemma_multiplier_straddling(from: int, to: int, bonus_end: int)
    requires
        from < bonus_end < to,
    ensures
        multiplier_spec(from, to, bonus_end) == (bonus_end - from) * BONUS_MULTIPLIER + (
        to - bonus_end),
{
}

/// The fixed-point value of `n / d`, rounded down.
pub open spec fn ratio_spec(n: int, d: int) -> int {
    n * DECIMAL_FRACTIONAL / d
}

/// An amount times a fixed-point ratio, rounded down.
pub open spec fn product_spec(a: int, ratio: int) -> int {
    a * ratio / (DECIMAL_FRACTIONAL as int)
}

/// Relies on cosmwasm_std::Uint128::multiply_ratio: `a * num / den` rounded down, computed
/// over 256 bits; it panics on a zero denominator or when the quotient leaves `u128`.
#[verifier::external_body]
fn multiply_ratio(a: u128, num: u128, den: u128) -> (r: u128)
    requires
        den > 0,
        a * num / (den as int) <= u128::MAX,
    ensures
        r == a * num / (den as int),
{
    cosmwasm_std::Uint128::new(a).multiply_ratio(num, den).u128()
}

proof fn lemma_split_quotient(x: int, y: int, d: int)
    requires
        d > 0,
        x >= 0,
        y >= 0,
    ensures
        (x * d + y) / d == x + y / d,
{
    vstd::arithmetic::div_mod::lemma_hoist_over_denominator(y, x, d as nat);
    assert(y + x * d == x * d + y);
}

/// The ratio `n / d` as a fixed-point value, or `None` when it does not fit in `u128`.
pub fn decimal_from_ratio(n: u128, d: u128) -> (r: Option<u128>)
    requires
        d > 0,
    ensures
        r is Some <==> ratio_spec(n as int, d as int) <= u128::MAX,
        r is Some ==> r->0 == ratio_spec(n as int, d as int),
{
    let s = DECIMAL_FRACTIONAL;
    if d >= s {
        proof {
            assert(n * s <= n * d) by (nonlinear_arith)
                requires d >= s, n >= 0;
            vstd::arithmetic::div_mod::lemma_div_is_ordered((n * s) as int, (n * d) as int, d as int);
            vstd::arithmetic::div_mod::lemma_div_multiples_vanish(n as int, d as int);
            assert(n * d == d * n) by (nonlinear_arith);
        }
        return Some(multiply_ratio(n, s, d));
    }
    let q: u128 = n / d;
    let rem: u128 = n % d;
    proof {
        vstd::arithmetic::div_mod::lemma_fundamental_div_mod(n as int, d as int);
        assert(n * s == (q * s) * d + rem * s) by (nonlinear_arith)
            requires n == d * q + rem;
        assert(rem * s < s * s) by (nonlinear_arith)
            requires rem < d, d < s;
        lemma_split_quotient(q * s, rem * s, d as int);
        assert((rem * s) / (d as int) >= 0) by (nonlinear_arith)
            requires rem * s >= 0, d > 0;
    }
    let low: u128 = rem * s / d;
    match q.checked_mul(s) {
        None => {
            None
        },
        Some(hi) => {
            if low > u128::MAX - hi {
                None
            } else {
                Some(multiply_ratio(n, s, d))
            }
        },
    }
}

/// A stake times a fixed-point ratio, rounded down, or `None` when it does not fit in `u128`.
pub fn decimal_mul(a: u128, ratio: u128) -> (r: Option<u128>)
    ensures
        r is Some <==> product_spec(a as int, ratio as int) <= u128::MAX,
        r is Some ==> r->0 == product_spec(a as int, ratio as int),
{
    let s = DECIMAL_FRACTIONAL;
    let q: u128 = ratio / s;
    let rem: u128 = ratio % s;
    let a_hi: u128 = a / s;
    let a_lo: u128 = a % s;
    proof {
        vstd::arithmetic::div_mod::lemma_fundamental_div_mod(ratio as int, s as int);
        vstd::arithmetic::div_mod::lemma_fundamental_div_mod(a as int, s as int);
        assert(a * ratio == (a * q + a_hi * rem) * s + a_lo * rem) by (nonlinear_arith)
            requires ratio == s * q + rem, a == s * a_hi + a_lo;
        assert(a_lo * rem < s * s) by (nonlinear_arith)
            requires a_lo < s, rem < s, a_lo >= 0, rem >= 0;
        assert(a * q >= 0 && a_hi * rem >= 0) by (nonlinear_arith)
            requires a >= 0, q >= 0, a_hi >= 0, rem >= 0;
        lemma_split_quotient(a * q + a_hi * rem, a_lo * rem, s as int);
        assert((a_lo * rem) / (s as int) >= 0) by (nonlinear_arith)
            requires a_lo * rem >= 0, s > 0;
    }
    let low: u128 = a_lo * rem / s;
    let t1 = match a.checked_mul(q) {
        None => { return None; },
        Some(t) => t,
    };
    let t2 = match a_hi.checked_mul(rem) {
        None => { return None; },
        Some(t) => t,
    };
    let t12 = match t1.checked_add(t2) {
        None => { return None; },
        Some(t) => t,
    };
    if low > u128::MAX - t12 {
        None
    } else if a == 0 || ratio == 0 {
        Some(0)
    } else {
        Some(multiply_ratio(a, ratio, s))
    }
}

} // verus!
