use hook_amm::errors::AmmError;
use hook_amm::liquidity;
use hook_amm::math;
use hook_amm::state::Amm;
use hook_amm::swap;

fn key(n: u8) -> [u8; 32] {
    [n; 32]
}

fn created_amm(fee: u64) -> Amm {
    let mut amm = Amm::default();
    amm.create_amm(Vec::new(), key(1), fee, key(2), true).unwrap();
    amm
}

#[test]
fn constant_product_quote_exact() {
    // floor(5 * 100 / (10 + 5)) = 33
    assert_eq!(math::calculate_constant_product_swap_output(5, 10, 100), Ok(33));
}

#[test]
fn constant_product_quote_fails_on_zero_reserve() {
    assert_eq!(
        math::calculate_constant_product_swap_output(1, 0, 100),
        Err(AmmError::InsufficientLiquidity)
    );
    assert_eq!(
        math::calculate_constant_product_swap_output(7, 100, 0),
        Err(AmmError::InsufficientLiquidity)
    );
}

#[test]
fn constant_product_quote_stays_below_reserve_out() {
    // Large values that would overflow a 64-bit product.
    let out = math::calculate_constant_product_swap_output(u64::MAX, 1, u64::MAX).unwrap();
    assert!(out < u64::MAX);
    for &(input, reserve_in, reserve_out) in
        [(1u64, 1u64, 1u64), (1000, 3, 999), (u64::MAX, u64::MAX, u64::MAX)].iter()
    {
        let out =
            math::calculate_constant_product_swap_output(input, reserve_in, reserve_out).unwrap();
        assert!(out < reserve_out);
    }
}

#[test]
fn first_deposit_bootstrap_average() {
    // Averaging rule on an empty pool.
    assert_eq!(math::calculate_lp_tokens_to_mint(1_000_000, 1_000_000, 0, 0, 0), Ok(1_000_000));
}

#[test]
fn first_deposit_bootstrap_geometric() {
    // Geometric-mean rule on the same deposit.
    assert_eq!(math::calculate_liquidity_tokens(1_000_000, 1_000_000), Ok(1_000_000));
}

#[test]
fn proportional_deposit_credits_smaller_side() {
    // min(10*50/100, 20*50/200) = min(5, 5) = 5
    assert_eq!(math::calculate_lp_tokens_to_mint(10, 20, 50, 100, 200), Ok(5));
}

#[test]
fn proportional_deposit_imbalanced() {
    // min(30*50/100, 20*50/200) = min(15, 5) = 5
    assert_eq!(math::calculate_lp_tokens_to_mint(30, 20, 50, 100, 200), Ok(5));
}

#[test]
fn proportional_deposit_overflow_detected() {
    // Both credited sides exceed the 64-bit share domain.
    assert_eq!(
        math::calculate_lp_tokens_to_mint(u64::MAX, u64::MAX, u64::MAX, 1, 1),
        Err(AmmError::ArithmeticOverflow)
    );
}

#[test]
fn integer_sqrt_exact_values() {
    assert_eq!(math::integer_sqrt(0), 0);
    assert_eq!(math::integer_sqrt(1), 1);
    assert_eq!(math::integer_sqrt(3), 1);
    assert_eq!(math::integer_sqrt(4), 2);
    assert_eq!(math::integer_sqrt(99), 9);
    assert_eq!(math::integer_sqrt(100), 10);
    assert_eq!(math::integer_sqrt(u64::MAX), 4294967295);
}

#[test]
fn geometric_lp_overflow_detected() {
    assert_eq!(
        math::calculate_liquidity_tokens(u64::MAX, u64::MAX),
        Err(AmmError::ArithmeticOverflow)
    );
}

#[test]
fn swap_with_zero_reserve_is_insufficient_liquidity() {
    assert_eq!(
        swap::calculate_output_amount(true, 1, 0, 100),
        Err(AmmError::InsufficientLiquidity)
    );
    let amm = created_amm(1);
    let r = swap::swap_exact_tokens_for_tokens(&amm, 0, 100, 1, 0, 1, 0, 1, 0);
    assert_eq!(r.err(), Some(AmmError::InsufficientLiquidity));
}

#[test]
fn slippage_rejection_performs_no_transfer() {
    // Quote is floor(1900 * 100 / (100 + 1900)) = 95, below the minimum of 100.
    let r = swap::swap(true, 1900, 100, 100, 100, 1900, 0);
    assert_eq!(r.err(), Some(AmmError::SlippageExceeded));
}

#[test]
fn direct_swap_settles_both_legs() {
    let s = swap::swap(true, 1900, 95, 100, 100, 1900, 0).unwrap();
    assert_eq!(s.output, 95);
    assert_eq!(s.new_pool_a, 2000);
    assert_eq!(s.new_pool_b, 5);
    assert_eq!(s.new_user_a, 0);
    assert_eq!(s.new_user_b, 95);
}

#[test]
fn settlement_swap_quotes_the_exact_formula() {
    let amm = created_amm(5_000);
    let pool_in = 100_000_000;
    let pool_out = 100_000_000;
    let s = swap::swap_exact_tokens_for_tokens(
        &amm, pool_in, pool_out, 100_000_000, 0, 10_000, 0, 100_000_000, 50_000_000,
    )
    .unwrap();
    // floor(100e6 * 100e6 / (100e6 + 100e6)) = 50,000,000, untruncated.
    assert_eq!(s.input_used, 100_000_000);
    assert_eq!(s.output, 50_000_000);
    assert_eq!(s.sol_fee, 5_000);
    assert_eq!(s.new_payer_lamports, 5_000);
    assert_eq!(s.new_collector_lamports, 5_000);
    assert_eq!(s.new_pool_in, 200_000_000);
    assert_eq!(s.new_pool_out, 50_000_000);
    assert_eq!(s.scaled_invariant, 100 * 100);
    // This settlement applied exactly also passes the truncated check.
    assert!(swap::check_invariant(s.scaled_invariant, s.new_pool_in, s.new_pool_out).is_ok());
}

#[test]
fn settlement_swap_is_not_truncated() {
    let amm = created_amm(1);
    let s = swap::swap_exact_tokens_for_tokens(
        &amm, 10_000_000, 10_000_000, 5_000_000, 0, 1, 0, 5_000_000, 0,
    )
    .unwrap();
    // floor(5e6 * 10e6 / 15e6) = 3,333,333: the quote keeps every digit.
    assert_eq!(s.output, 3_333_333);
}

#[test]
fn settlement_swap_clamps_input_to_balance() {
    let amm = created_amm(1);
    let s = swap::swap_exact_tokens_for_tokens(
        &amm, 100_000_000, 100_000_000, 20_000_000, 0, 1, 0, u64::MAX, 0,
    )
    .unwrap();
    assert_eq!(s.input_used, 20_000_000);
    // floor(20e6 * 100e6 / 120e6) = 16,666,666.
    assert_eq!(s.output, 16_666_666);
}

#[test]
fn settlement_swap_rejects_small_output() {
    let amm = created_amm(1);
    let r = swap::swap_exact_tokens_for_tokens(
        &amm, 100_000_000, 100_000_000, 20_000_000, 0, 1, 0, 20_000_000, 17_000_000,
    );
    assert_eq!(r.err(), Some(AmmError::SlippageExceeded));
}

#[test]
fn settlement_swap_requires_created_market() {
    let amm = Amm::default();
    let r = swap::swap_exact_tokens_for_tokens(
        &amm, 100_000_000, 100_000_000, 1_000_000, 0, 0, 0, 1_000_000, 0,
    );
    assert_eq!(r.err(), Some(AmmError::PoolDoesNotExist));
}

#[test]
fn invariant_check_rejects_a_decrease() {
    assert_eq!(
        swap::check_invariant(10_000, 1_000_000, 1_000_000).err(),
        Some(AmmError::InvariantViolated)
    );
    assert!(swap::check_invariant(1, 1_000_000, 1_000_000).is_ok());
}

#[test]
fn deposit_updates_supply_and_balances() {
    let amm = created_amm(1);
    let program_id = key(9);
    let (mut pool, _authority) =
        hook_amm::state::Pool::create_pool(key(3), key(4), key(5), key(6), program_id, false)
            .unwrap();
    assert_eq!(pool.total_liquidity, 0);
    let _ = amm;
    let s = liquidity::deposit_liquidity(
        &mut pool,
        2_000_000,
        8_000_000,
        0,
        0,
        2_000_000,
        8_000_000,
        0,
    )
    .unwrap();
    // isqrt(2 * 8) = 4, scaled back up.
    assert_eq!(s.lp_minted, 4_000_000);
    assert_eq!(pool.total_liquidity, 4_000_000);
    assert_eq!(s.new_pool_a, 2_000_000);
    assert_eq!(s.new_pool_b, 8_000_000);
    assert_eq!(s.new_user_a, 0);
    assert_eq!(s.new_user_b, 0);
    assert_eq!(s.new_user_lp, 4_000_000);
}

#[test]
fn mint_lp_tokens_falls_back_to_average() {
    assert_eq!(liquidity::mint_lp_tokens(10, 0), Ok(5));
    assert_eq!(liquidity::mint_lp_tokens(0, 0), Ok(0));
    assert_eq!(liquidity::mint_lp_tokens(3_000_000, 3_000_000), Ok(3_000_000));
}

#[test]
fn swap_leg_plans_carry_validation_record() {
    let (user_leg, pool_leg) = swap::plan_swap_transfers(
        true,
        10,
        7,
        key(1),
        key(2),
        key(3),
        key(4),
        key(5),
        key(6),
        key(7),
        key(8),
        key(9),
        key(10),
        6,
    );
    assert_eq!(user_leg.source, key(1));
    assert_eq!(user_leg.destination, key(3));
    assert_eq!(user_leg.authority, key(7));
    assert_eq!(user_leg.amount, 10);
    assert_eq!(user_leg.extra_accounts.len(), 1);
    assert_eq!(user_leg.extra_accounts[0].key, key(9));
    assert_eq!(pool_leg.source, key(4));
    assert_eq!(pool_leg.destination, key(2));
    assert_eq!(pool_leg.authority, key(8));
    assert_eq!(pool_leg.amount, 7);
    assert_eq!(pool_leg.extra_accounts[0].key, key(10));
}

#[test]
fn deposit_leg_plans_carry_hook_accounts() {
    let (leg_a, leg_b) = liquidity::plan_deposit_transfers(
        5,
        0,
        key(1),
        key(2),
        key(3),
        key(4),
        key(5),
        key(6),
        key(7),
        key(8),
        key(9),
        key(10),
        key(11),
        key(12),
        key(13),
        6,
    );
    let leg_a = leg_a.unwrap();
    assert!(leg_b.is_none());
    assert_eq!(leg_a.extra_accounts.len(), 3);
    assert_eq!(leg_a.extra_accounts[0].key, key(8));
    assert_eq!(leg_a.extra_accounts[1].key, key(10));
    assert_eq!(leg_a.extra_accounts[2].key, key(12));
    assert!(leg_a.extra_accounts[2].is_writable);
}
