//! Pricing and liquidity mathematics of the constant-product pool.
//!
//! All division is floor division; products are formed over `int` in the
//! specifications and over `u128` in the executable code, so no
//! intermediate can overflow.

use vstd::prelude::*;

verus! {

use vstd::arithmetic::div_mod::{
    lemma_div_is_ordered, lemma_div_multiples_vanish, lemma_fundamental_div_mod,
    lemma_div_pos_is_pos,
};
use vstd::arithmetic::mul::{lemma_mul_inequality, lemma_mul_is_commutative};
use crate::errors::AmmError;

/// What a trade returns: `floor(input * reserve_out / (reserve_in + input))`,
/// or zero when either reserve is empty.
pub open spec fn swap_output_spec(input: int, reserve_in: int, reserve_out: int) -> int {
    if reserve_in == 0 || reserve_out == 0 {
        0
    } else {
        (input * reserve_out) / (reserve_in + input)
    }
}

/// The constant-product quote.  Fails with `InsufficientLiquidity`
/// exactly when either reserve is empty: a trade cannot be priced
/// against an unfunded pool.
pub fn calculate_constant_product_swap_output(
    input_amount: u64,
    input_reserve: u64,
    output_reserve: u64,
) -> (r: Result<u64, AmmError>)
    ensures
        r is Ok <==> input_reserve > 0 && output_reserve > 0,
        r matches Ok(output) ==> output == swap_output_spec(
            input_amount as int,
            input_reserve as int,
            output_reserve as int,
        ) && output <= output_reserve,
        r matches Err(e) ==> e == AmmError::InsufficientLiquidity,
{
    if input_reserve == 0 || output_reserve == 0 {
        return Err(AmmError::InsufficientLiquidity);
    }
    proof {
        lemma_mul_inequality(input_amount as int, u64::MAX as int, output_reserve as int);
        lemma_mul_inequality(output_reserve as int, u64::MAX as int, u64::MAX as int);
        lemma_mul_is_commutative(u64::MAX as int, output_reserve as int);
    }
    let numerator: u128 = (input_amount as u128) * (output_reserve as u128);
    let denominator: u128 = (input_reserve as u128) + (input_amount as u128);
    let quotient: u128 = numerator / denominator;
    proof {
        lemma_swap_output_le_reserve_out(
            input_amount as int,
            input_reserve as int,
            output_reserve as int,
        );
    }
    Ok(quotient as u64)
}

/// The quoted output never exceeds the outgoing reserve.
pub proof fn lemma_swap_output_le_reserve_out(input: int, reserve_in: int, reserve_out: int)
    requires
        input >= 0,
        reserve_in > 0,
        reserve_out >= 0,
    ensures
        0 <= (input * reserve_out) / (reserve_in + input) <= reserve_out,
{
    let d = reserve_in + input;
    lemma_mul_inequality(input, d, reserve_out);
    lemma_div_is_ordered(input * reserve_out, d * reserve_out, d);
    lemma_mul_is_commutative(d, reserve_out);
    lemma_div_multiples_vanish(reserve_out, d);
    vstd::arithmetic::mul::lemma_mul_nonnegative(input, reserve_out);
    vstd::arithmetic::div_mod::lemma_div_basics_2(d);
    lemma_div_is_ordered(0, input * reserve_out, d);
}

/// For positive reserves and a positive input, the quote is strictly below
/// the outgoing reserve: a swap can never drain the far side of the pool.
pub proof fn lemma_swap_output_bounds(input: int, reserve_in: int, reserve_out: int)
    requires
        input > 0,
        reserve_in > 0,
        reserve_out > 0,
    ensures
        0 <= swap_output_spec(input, reserve_in, reserve_out) < reserve_out,
{
    let d = reserve_in + input;
    lemma_swap_output_le_reserve_out(input, reserve_in, reserve_out);
    let q = (input * reserve_out) / d;
    lemma_fundamental_div_mod(input * reserve_out, d);
    let r = (input * reserve_out) % d;
    assert(input * reserve_out == d * q + r);
    assert(0 <= r < d) by {
        vstd::arithmetic::div_mod::lemma_mod_bound(input * reserve_out, d);
    }
    if q >= reserve_out {
        assert(d * q >= d * reserve_out) by {
            lemma_mul_inequality(reserve_out, q, d);
            lemma_mul_is_commutative(d, q);
            lemma_mul_is_commutative(d, reserve_out);
        }
        assert(d * reserve_out == reserve_in * reserve_out + input * reserve_out) by {
            vstd::arithmetic::mul::lemma_mul_is_distributive_add_other_way(
                reserve_out,
                reserve_in,
                input,
            );
        }
        assert(reserve_in * reserve_out > 0) by {
            vstd::arithmetic::mul::lemma_mul_strictly_positive(reserve_in, reserve_out);
        }
        assert(false);
    }
}

/// LP shares owed for a deposit: the bootstrap average on the first deposit,
/// the proportionally smaller side afterwards.
pub open spec fn lp_mint_spec(
    amount_a: int,
    amount_b: int,
    total_lp_supply: int,
    reserve_a: int,
    reserve_b: int,
) -> int {
    if total_lp_supply == 0 {
        (amount_a + amount_b) / 2
    } else {
        let from_a = (amount_a * total_lp_supply) / reserve_a;
        let from_b = (amount_b * total_lp_supply) / reserve_b;
        if from_a <= from_b {
            from_a
        } else {
            from_b
        }
    }
}

/// LP shares to mint for a deposit of `(amount_a, amount_b)` against the
/// current reserves and share supply, with every product formed in 128
/// bits.  An established pool must have both reserves funded.
///
/// Fails with `ArithmeticOverflow` when the credited share count would
/// leave the 64-bit share domain, before anything is credited.
pub fn calculate_lp_tokens_to_mint(
    amount_a: u64,
    amount_b: u64,
    total_lp_supply: u64,
    reserve_a: u64,
    reserve_b: u64,
) -> (r: Result<u64, AmmError>)
    requires
        total_lp_supply > 0 ==> reserve_a > 0 && reserve_b > 0,
    ensures
        r is Ok <==> lp_mint_spec(
            amount_a as int,
            amount_b as int,
            total_lp_supply as int,
            reserve_a as int,
            reserve_b as int,
        ) <= u64::MAX,
        r matches Ok(lp) ==> lp == lp_mint_spec(
            amount_a as int,
            amount_b as int,
            total_lp_supply as int,
            reserve_a as int,
            reserve_b as int,
        ),
        r matches Err(e) ==> e == AmmError::ArithmeticOverflow,
{
    if total_lp_supply == 0 {
        let sum: u128 = (amount_a as u128) + (amount_b as u128);
        return Ok((sum / 2) as u64);
    }
    proof {
        lemma_mul_inequality(amount_a as int, u64::MAX as int, total_lp_supply as int);
        lemma_mul_inequality(amount_b as int, u64::MAX as int, total_lp_supply as int);
        lemma_mul_inequality(total_lp_supply as int, u64::MAX as int, u64::MAX as int);
        lemma_mul_is_commutative(u64::MAX as int, total_lp_supply as int);
        lemma_div_pos_is_pos(amount_a as int * total_lp_supply as int, reserve_a as int);
        lemma_div_pos_is_pos(amount_b as int * total_lp_supply as int, reserve_b as int);
        vstd::arithmetic::mul::lemma_mul_nonnegative(amount_a as int, total_lp_supply as int);
        vstd::arithmetic::mul::lemma_mul_nonnegative(amount_b as int, total_lp_supply as int);
    }
    let lp_from_a: u128 = ((amount_a as u128) * (total_lp_supply as u128)) / (reserve_a as u128);
    let lp_from_b: u128 = ((amount_b as u128) * (total_lp_supply as u128)) / (reserve_b as u128);
    let lp: u128 = if lp_from_a <= lp_from_b {
        lp_from_a
    } else {
        lp_from_b
    };
    if lp > (u64::MAX as u128) {
        return Err(AmmError::ArithmeticOverflow);
    }
    Ok(lp as u64)
}

/// `r` is the integer square root of `n`.
pub open spec fn is_isqrt(n: int, r: int) -> bool {
    &&& 0 <= r
    &&& r * r <= n
    &&& n < (r + 1) * (r + 1)
}

/// The integer square root, defined by counting up.
pub open spec fn isqrt_spec(n: int) -> int
    recommends
        n >= 0,
    decreases n,
{
    if n <= 0 {
        0
    } else {
        let p = isqrt_spec(n - 1);
        if (p + 1) * (p + 1) <= n {
            p + 1
        } else {
            p
        }
    }
}

/// `isqrt_spec` satisfies the square-root characterization.
pub proof fn lemma_isqrt_spec_correct(n: int)
    requires
        n >= 0,
    ensures
        is_isqrt(n, isqrt_spec(n)),
    decreases n,
{
    if n == 0 {
    } else {
        lemma_isqrt_spec_correct(n - 1);
        let p = isqrt_spec(n - 1);
        if (p + 1) * (p + 1) <= n {
            assert(is_isqrt(n, p + 1)) by (nonlinear_arith)
                requires
                    is_isqrt(n - 1, p),
                    (p + 1) * (p + 1) <= n,
            ;
        }
    }
}

/// Any two integer square roots of the same value agree.
pub proof fn lemma_isqrt_unique(n: int, r1: int, r2: int)
    requires
        is_isqrt(n, r1),
        is_isqrt(n, r2),
    ensures
        r1 == r2,
{
    assert(r1 == r2) by (nonlinear_arith)
        requires
            0 <= r1,
            r1 * r1 <= n,
            n < (r1 + 1) * (r1 + 1),
            0 <= r2,
            r2 * r2 <= n,
            n < (r2 + 1) * (r2 + 1),
    ;
}

/// Newton's method for the integer square root.
pub fn integer_sqrt(n: u64) -> (r: u64)
    ensures
        r == isqrt_spec(n as int),
        is_isqrt(n as int, r as int),
{
    proof {
        lemma_isqrt_spec_correct(n as int);
    }
    if n == 0 {
        return 0;
    }
    let mut x: u64 = n;
    let mut y: u64 = (((x as u128) + 1) / 2) as u64;
    proof {
        vstd::arithmetic::div_mod::lemma_div_by_self(n as int);
        lemma_fundamental_div_mod(n as int + 1, 2);
        assert(n < (n + 1) * (n + 1)) by (nonlinear_arith)
            requires
                n >= 1,
        ;
        assert(n < (y + 1) * (y + 1)) by (nonlinear_arith)
            requires
                n >= 1,
                n as int + 1 == 2 * (y as int) + (n as int + 1) % 2,
                0 <= (n as int + 1) % 2 < 2,
        ;
    }
    while y < x
        invariant
            1 <= x <= n,
            1 <= y,
            n < (x + 1) * (x + 1),
            n < (y + 1) * (y + 1),
            y == (x as int + n as int / x as int) / 2,
        decreases x,
    {
        x = y;
        let d: u64 = n / x;
        proof {
            lemma_div_pos_is_pos(n as int, x as int);
            vstd::arithmetic::div_mod::lemma_div_non_zero(n as int, x as int);
            lemma_newton_step(n as int, x as int, d as int);
        }
        let sum: u128 = (x as u128) + (d as u128);
        y = (sum / 2) as u64;
        proof {
            lemma_fundamental_div_mod(x as int + d as int, 2);
            assert(y >= 1) by (nonlinear_arith)
                requires
                    x as int >= 1,
                    d as int >= 1,
                    x as int + d as int == 2 * (y as int) + (x as int + d as int) % 2,
                    0 <= (x as int + d as int) % 2 < 2,
            ;
        }
    }
    proof {
        let d = n as int / x as int;
        lemma_fundamental_div_mod(x as int + d, 2);
        lemma_fundamental_div_mod(n as int, x as int);
        assert(x as int <= d);
        lemma_mul_inequality(x as int, d, x as int);
        lemma_mul_is_commutative(d, x as int);
        assert(x as int * x as int <= n as int);
        lemma_isqrt_unique(n as int, x as int, isqrt_spec(n as int));
    }
    x
}

/// The fixed-point scale: amounts carry six decimal places, and the
/// overflow-sensitive formulas work on amounts truncated by this factor.
pub const RESERVE_SCALE: u64 = 1_000_000;

/// LP shares owed under the geometric-mean policy:
/// `isqrt((a / scale) * (b / scale)) * scale`.
pub open spec fn scaled_geometric_lp_spec(amount_a: int, amount_b: int) -> int {
    isqrt_spec((amount_a / (RESERVE_SCALE as int)) * (amount_b / (RESERVE_SCALE as int)))
        * (RESERVE_SCALE as int)
}

/// LP shares to mint under the geometric-mean policy, with both amounts
/// truncated by the scale before the product is formed so the intermediate
/// stays inside 64 bits. Rejects a deposit whose truncated product would
/// not fit.
pub fn calculate_liquidity_tokens(amount_a: u64, amount_b: u64) -> (r: Result<u64, AmmError>)
    ensures
        r is Ok <==> (amount_a as int / (RESERVE_SCALE as int)) * (amount_b as int / (
        RESERVE_SCALE as int)) <= u64::MAX,
        r matches Ok(lp) ==> lp == scaled_geometric_lp_spec(amount_a as int, amount_b as int),
        r matches Err(e) ==> e == AmmError::ArithmeticOverflow,
{
    let scaled_a: u64 = amount_a / RESERVE_SCALE;
    let scaled_b: u64 = amount_b / RESERVE_SCALE;
    let scaled_product: u64 = match scaled_a.checked_mul(scaled_b) {
        Some(p) => p,
        None => {
            return Err(AmmError::ArithmeticOverflow);
        },
    };
    let scaled_root: u64 = integer_sqrt(scaled_product);
    proof {
        assert(scaled_root as int * scaled_root as int <= u64::MAX);
        assert(scaled_root < 0x1_0000_0000) by (nonlinear_arith)
            requires
                scaled_root as int * scaled_root as int <= u64::MAX,
        ;
        assert(scaled_root as int * (RESERVE_SCALE as int) <= u64::MAX) by (nonlinear_arith)
            requires
                scaled_root < 0x1_0000_0000,
        ;
    }
    Ok(scaled_root * RESERVE_SCALE)
}

/// The scaled pool invariant: the product of both reserves truncated by
/// the scale.
pub open spec fn scaled_invariant_spec(reserve_a: int, reserve_b: int) -> int {
    (reserve_a / (RESERVE_SCALE as int)) * (reserve_b / (RESERVE_SCALE as int))
}

/// The scaled pool invariant, computed exactly in 128 bits.
pub fn compute_scaled_invariant(reserve_a: u64, reserve_b: u64) -> (r: u128)
    ensures
        r == scaled_invariant_spec(reserve_a as int, reserve_b as int),
{
    let sa: u64 = reserve_a / RESERVE_SCALE;
    let sb: u64 = reserve_b / RESERVE_SCALE;
    proof {
        lemma_mul_inequality(sa as int, u64::MAX as int, sb as int);
        lemma_mul_inequality(sb as int, u64::MAX as int, u64::MAX as int);
        lemma_mul_is_commutative(u64::MAX as int, sb as int);
        vstd::arithmetic::mul::lemma_mul_nonnegative(sa as int, sb as int);
    }
    (sa as u128) * (sb as u128)
}

/// A constant-product trade never lowers the product of the reserves:
/// `(A + I) * (B - O) >= A * B` for the quote `O = (I * B) / (A + I)`.
pub proof fn lemma_quote_preserves_product(reserve_in: int, reserve_out: int, input: int)
    requires
        reserve_in > 0,
        reserve_out > 0,
        input >= 0,
    ensures
        (reserve_in + input) * (reserve_out - swap_output_spec(
            input,
            reserve_in,
            reserve_out,
        )) >= reserve_in * reserve_out,
{
    let a = reserve_in;
    let b = reserve_out;
    let i = input;
    let d = a + i;
    let o = (i * b) / d;
    lemma_fundamental_div_mod(i * b, d);
    assert(d * o <= i * b) by {
        vstd::arithmetic::div_mod::lemma_mod_bound(i * b, d);
    }
    assert(d * (b - o) == d * b - d * o) by {
        vstd::arithmetic::mul::lemma_mul_is_distributive_sub(d, b, o);
    }
    assert(d * b == a * b + i * b) by {
        vstd::arithmetic::mul::lemma_mul_is_distributive_add_other_way(b, a, i);
    }
}

/// One Newton step keeps the iterate at or above the square root:
/// `n < (y + 1)^2` for `y = (x + n/x) / 2`.
proof fn lemma_newton_step(n: int, x: int, d: int)
    requires
        n >= 1,
        x >= 1,
        d == n / x,
    ensures
        n < ((x + d) / 2 + 1) * ((x + d) / 2 + 1),
{
    lemma_fundamental_div_mod(n, x);
    let q = (x + d) / 2;
    lemma_fundamental_div_mod(x + d, 2);
    // From floor division: 2q >= x + d - 1, so 2(q + 1) >= x + d + 1.
    // (x + d + 1)^2 - 4n >= (x - d - 1)^2 + 4 > 0 because n <= xd + x - 1.
    assert(n < (q + 1) * (q + 1)) by (nonlinear_arith)
        requires
            n >= 1,
            x >= 1,
            d >= 0,
            n == x * d + n % x,
            0 <= n % x < x,
            x + d == 2 * q + (x + d) % 2,
            0 <= (x + d) % 2 < 2,
    ;
}

} // verus!
