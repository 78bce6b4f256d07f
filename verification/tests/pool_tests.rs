use stable_pool::account::AccountId;
use stable_pool::constants::RATE_PRECISION;
use stable_pool::errors::{MathError, StablePoolError};
use stable_pool::fees::Fees;
use stable_pool::math::{amounts_to_rated_amounts, compute_d, rated_compute_lp_amount_for_deposit};
use stable_pool::mocks::{MockSazeroRateContract, SazeroMockContract};
use stable_pool::pool::StablePoolContract;
use stable_pool::rate_provider::RateProvider;
use stable_pool::token_rate::TokenRate;

fn acc(id: u128) -> AccountId {
    AccountId::new(id)
}

/// Two six-decimal tokens, reserves 100_000 units each, A = 1000,
/// trade fee 0.06%, protocol fee 20% of it.
fn setup_two_pool(fee_receiver: Option<AccountId>) -> StablePoolContract {
    let owner = acc(1);
    let mut pool = StablePoolContract::new_stable(
        vec![acc(10), acc(11)],
        vec![6, 6],
        1000,
        owner,
        600_000,
        200_000_000,
        fee_receiver,
    )
    .expect("valid configuration");
    let minted = pool
        .add_liquidity(
            0,
            &vec![0, 0],
            1,
            &vec![100_000_000_000, 100_000_000_000],
            acc(2),
        )
        .expect("initial deposit");
    assert!(minted.0 > 0);
    pool
}

#[test]
fn two_token_swap_exact_in() {
    let mut pool = setup_two_pool(None);
    let (amount_out, fee) = pool
        .swap_exact_in(0, &vec![0, 0], acc(10), acc(11), 10_000_000_000, 1, acc(2))
        .expect("swap succeeds");
    assert!((9_993_495_534..=9_993_495_536).contains(&amount_out));
    assert!((5_999_696..=5_999_698).contains(&fee));
    let reserves = pool.reserves();
    assert_eq!(reserves[0], 110_000_000_000);
    assert_eq!(reserves[1], 100_000_000_000 - amount_out);
}

#[test]
fn asymmetric_decimals_swap_exact_in() {
    let owner = acc(1);
    let mut pool = StablePoolContract::new_stable(
        vec![acc(10), acc(11)],
        vec![12, 18],
        1000,
        owner,
        600_000,
        200_000_000,
        None,
    )
    .expect("valid configuration");
    pool.add_liquidity(
        0,
        &vec![0, 0],
        1,
        &vec![100_000_000_000_000_000, 100_000_000_000_000_000_000_000],
        acc(2),
    )
    .expect("initial deposit");
    let (amount_out, fee) = pool
        .swap_exact_in(
            0,
            &vec![0, 0],
            acc(10),
            acc(11),
            10_000_000_000_000_000,
            1,
            acc(2),
        )
        .expect("swap succeeds");
    let gross = amount_out + fee;
    let expected_gross: u128 = 9_999_495_232_752_197_989_995;
    assert!(gross >= expected_gross - 5 && gross <= expected_gross + 5);
    // fee is 0.06% of the gross output, rounded down in the pool's favor
    assert!(fee * 1_000_000_000 <= gross * 600_000);
    assert!((fee + 2) * 1_000_000_000 >= gross * 600_000);
}

#[test]
fn empty_pool_zero_amount_rejected() {
    let mut pool = StablePoolContract::new_stable(
        vec![acc(10), acc(11)],
        vec![6, 6],
        1000,
        acc(1),
        600_000,
        200_000_000,
        None,
    )
    .expect("valid configuration");
    let r = pool.add_liquidity(0, &vec![0, 0], 1, &vec![0, 100_000_000_000], acc(2));
    assert!(matches!(
        r,
        Err(StablePoolError::MathError(MathError::DivByZero(_)))
    ));
}

#[test]
fn minimum_output_violation_leaves_state() {
    let mut pool = setup_two_pool(None);
    let reserves_before = pool.reserves();
    let supply_before = pool.total_supply();
    let r = pool.swap_exact_in(
        0,
        &vec![0, 0],
        acc(10),
        acc(11),
        10_000_000_000,
        10_000_000_001,
        acc(2),
    );
    assert!(matches!(r, Err(StablePoolError::InsufficientOutputAmount)));
    assert_eq!(pool.reserves(), reserves_before);
    assert_eq!(pool.total_supply(), supply_before);
}

#[test]
fn protocol_fee_materializes_as_shares() {
    let receiver = acc(9);
    let mut pool = setup_two_pool(Some(receiver));
    assert_eq!(pool.balance_of(receiver), 0);
    let supply_before = pool.total_supply();
    let reserves_before = pool.reserves();
    let (amount_out, fee) = pool
        .swap_exact_in(0, &vec![0, 0], acc(10), acc(11), 10_000_000_000, 1, acc(2))
        .expect("swap succeeds");
    let got = pool.balance_of(receiver);
    assert!(got > 0, "protocol fee shares were minted");
    assert_eq!(pool.total_supply(), supply_before + got);
    // cross-check: the minted shares are the LP value of the protocol's
    // 20% of the fee, deposited at the post-swap reserves
    let fees = Fees::new(600_000, 200_000_000).unwrap();
    let protocol_fee = fee * 200_000_000 / 1_000_000_000;
    let scaled = vec![
        RATE_PRECISION * 1_000_000_000_000,
        RATE_PRECISION * 1_000_000_000_000,
    ];
    let reserves_after_swap = vec![
        reserves_before[0] + 10_000_000_000,
        reserves_before[1] - amount_out,
    ];
    let lowered = vec![
        reserves_after_swap[0],
        reserves_after_swap[1] - protocol_fee,
    ];
    let deposit = vec![0, protocol_fee];
    let (expected_lp, _) = rated_compute_lp_amount_for_deposit(
        &scaled,
        &deposit,
        &lowered,
        supply_before,
        None,
        1000,
    )
    .expect("protocol fee deposit computes");
    assert_eq!(got, expected_lp);
    let _ = fees;
}

#[test]
fn admin_gate_only_owner() {
    let mut pool = setup_two_pool(None);
    let r = pool.set_amp_coef(acc(77), 500);
    assert!(matches!(r, Err(StablePoolError::OnlyOwner)));
    assert_eq!(pool.amp_coef(), 1000);
    pool.set_amp_coef(acc(1), 500).expect("owner may set");
    assert_eq!(pool.amp_coef(), 500);
}

#[test]
fn setters_validate_and_apply() {
    let mut pool = setup_two_pool(None);
    assert!(matches!(
        pool.set_fee(acc(3), 1, 1),
        Err(StablePoolError::OnlyOwner)
    ));
    assert!(matches!(
        pool.set_fee(acc(1), 10_000_001, 0),
        Err(StablePoolError::InvalidFee)
    ));
    pool.set_fee(acc(1), 1_000, 500_000_000).expect("valid fee");
    assert_eq!(pool.fees(), (1_000, 500_000_000));
    assert!(matches!(
        pool.set_amp_coef(acc(1), 0),
        Err(StablePoolError::InvalidAmpCoef)
    ));
    assert!(matches!(
        pool.set_amp_coef(acc(1), 1_000_001),
        Err(StablePoolError::InvalidAmpCoef)
    ));
    pool.set_fee_receiver(acc(1), Some(acc(50))).expect("owner");
    pool.set_owner(acc(1), acc(42)).expect("owner handoff");
    assert!(matches!(
        pool.set_owner(acc(1), acc(1)),
        Err(StablePoolError::OnlyOwner)
    ));
}

#[test]
fn constructor_validation_errors() {
    let mk = |tokens: Vec<AccountId>, decimals: Vec<u8>, amp: u128, tf: u32| {
        StablePoolContract::new_stable(tokens, decimals, amp, acc(1), tf, 0, None)
    };
    assert!(matches!(
        mk(vec![acc(10), acc(11)], vec![6, 6], 0, 600_000),
        Err(StablePoolError::InvalidAmpCoef)
    ));
    assert!(matches!(
        mk(vec![acc(10), acc(10)], vec![6, 6], 1000, 600_000),
        Err(StablePoolError::IdenticalTokenId)
    ));
    assert!(matches!(
        mk(vec![acc(10), acc(11)], vec![6], 1000, 600_000),
        Err(StablePoolError::IncorrectTokenCount)
    ));
    assert!(matches!(
        mk(vec![acc(10)], vec![6], 1000, 600_000),
        Err(StablePoolError::IncorrectTokenCount)
    ));
    assert!(matches!(
        mk(vec![acc(10), acc(11)], vec![6, 19], 1000, 600_000),
        Err(StablePoolError::TooLargeTokenDecimal)
    ));
    assert!(matches!(
        mk(vec![acc(10), acc(11)], vec![6, 6], 1000, 10_000_001),
        Err(StablePoolError::InvalidFee)
    ));
}

#[test]
fn swap_argument_validation() {
    let mut pool = setup_two_pool(None);
    assert!(matches!(
        pool.swap_exact_in(0, &vec![0, 0], acc(10), acc(10), 1, 1, acc(2)),
        Err(StablePoolError::IdenticalTokenId)
    ));
    assert!(matches!(
        pool.swap_exact_in(0, &vec![0, 0], acc(10), acc(99), 1, 1, acc(2)),
        Err(StablePoolError::InvalidTokenId(_))
    ));
    assert!(matches!(
        pool.swap_exact_in(0, &vec![0, 0], acc(10), acc(11), 0, 0, acc(2)),
        Err(StablePoolError::InsufficientInputAmount)
    ));
    assert!(matches!(
        pool.swap_exact_out(0, &vec![0, 0], acc(10), acc(11), 10_000_000_000, 1, acc(2)),
        Err(StablePoolError::TooLargeInputAmount)
    ));
    assert!(matches!(
        pool.get_mint_liquidity_for_amounts(0, &vec![0, 0], &vec![1, 2, 3]),
        Err(StablePoolError::IncorrectAmountsCount)
    ));
}

#[test]
fn swap_exact_out_round_trip() {
    let mut pool = setup_two_pool(None);
    let (amount_in, fee) = pool
        .swap_exact_out(
            0,
            &vec![0, 0],
            acc(10),
            acc(11),
            9_993_495_535,
            u128::MAX,
            acc(2),
        )
        .expect("swap succeeds");
    // paying this much in yields at least the requested output
    assert!((9_999_999_990..=10_000_000_030).contains(&amount_in));
    assert!(fee > 0);
    let reserves = pool.reserves();
    assert_eq!(reserves[0], 100_000_000_000 + amount_in);
    assert_eq!(reserves[1], 100_000_000_000 - 9_993_495_535);
}

#[test]
fn swap_received_uses_excess_balance() {
    let mut pool = setup_two_pool(None);
    // reserve is 100_000_000_000; the pool holds 10_000_000_000 extra
    let (amount_out, fee) = pool
        .swap_received(
            0,
            &vec![0, 0],
            acc(10),
            acc(11),
            110_000_000_000,
            1,
            acc(2),
        )
        .expect("swap succeeds");
    assert!((9_993_495_534..=9_993_495_536).contains(&amount_out));
    assert!(fee > 0);
    // no excess: nothing to swap
    let r = pool.swap_received(0, &vec![0, 0], acc(10), acc(11), pool.reserves()[0], 1, acc(2));
    assert!(matches!(r, Err(StablePoolError::InsufficientInputAmount)));
}

#[test]
fn remove_liquidity_by_shares_floor_formula() {
    let mut pool = setup_two_pool(None);
    let supply = pool.total_supply();
    let holder = acc(2);
    let shares = supply / 3;
    let reserves = pool.reserves();
    let expect0 = (primitive_types::U256::from(reserves[0]) * primitive_types::U256::from(shares)
        / primitive_types::U256::from(supply))
    .as_u128();
    let expect1 = (primitive_types::U256::from(reserves[1]) * primitive_types::U256::from(shares)
        / primitive_types::U256::from(supply))
    .as_u128();
    let amounts = pool
        .remove_liquidity_by_shares(holder, shares, &vec![1, 1], acc(2))
        .expect("withdraw succeeds");
    assert_eq!(amounts, vec![expect0, expect1]);
    assert_eq!(pool.total_supply(), supply - shares);
    assert_eq!(pool.balance_of(holder), supply - shares);
    let r2 = pool.reserves();
    assert_eq!(r2[0], reserves[0] - expect0);
    assert_eq!(r2[1], reserves[1] - expect1);
}

#[test]
fn remove_liquidity_slippage_guards() {
    let mut pool = setup_two_pool(None);
    let supply = pool.total_supply();
    assert!(matches!(
        pool.remove_liquidity_by_shares(acc(2), supply / 2, &vec![u128::MAX, 1], acc(2)),
        Err(StablePoolError::InsufficientOutputAmount)
    ));
    assert!(matches!(
        pool.remove_liquidity_by_amounts(
            acc(2),
            0,
            &vec![0, 0],
            1,
            &vec![1_000_000_000, 1_000_000_000],
            acc(2)
        ),
        Err(StablePoolError::InsufficientLiquidityBurned)
    ));
    assert!(matches!(
        pool.add_liquidity(0, &vec![0, 0], u128::MAX, &vec![1_000_000, 1_000_000], acc(2)),
        Err(StablePoolError::InsufficientLiquidityMinted)
    ));
}

#[test]
fn empty_pool_after_full_exit() {
    let mut pool = setup_two_pool(None);
    let supply = pool.total_supply();
    pool.remove_liquidity_by_shares(acc(2), supply, &vec![0, 0], acc(2))
        .expect("full exit");
    assert_eq!(pool.total_supply(), 0);
    assert_eq!(pool.reserves(), vec![0, 0]);
}

#[test]
fn d_strictly_grows_on_deposit_and_shrinks_on_withdrawal() {
    let mut pool = setup_two_pool(None);
    let scaled = vec![1_000_000_000_000_000_000_000_000u128; 2];
    let rated_before =
        amounts_to_rated_amounts(&pool.reserves(), &scaled).expect("rated reserves");
    let d_before = compute_d(&rated_before, 1000).unwrap();
    pool.add_liquidity(0, &vec![0, 0], 1, &vec![5_000_000_000, 1_000_000_000], acc(2))
        .expect("deposit");
    let rated_mid = amounts_to_rated_amounts(&pool.reserves(), &scaled).expect("rated reserves");
    let d_mid = compute_d(&rated_mid, 1000).unwrap();
    assert!(d_mid.gt(d_before), "every deposit strictly increases D");
    pool.remove_liquidity_by_shares(acc(2), pool.total_supply() / 10, &vec![0, 0], acc(2))
        .expect("withdraw");
    let rated_after = amounts_to_rated_amounts(&pool.reserves(), &scaled).expect("rated reserves");
    let d_after = compute_d(&rated_after, 1000).unwrap();
    assert!(d_mid.gt(d_after), "every withdrawal strictly decreases D");
}

#[test]
fn fee_free_swap_preserves_d_up_to_rounding() {
    let mut pool = StablePoolContract::new_stable(
        vec![acc(10), acc(11)],
        vec![6, 6],
        1000,
        acc(1),
        0,
        0,
        None,
    )
    .expect("valid configuration");
    pool.add_liquidity(0, &vec![0, 0], 1, &vec![100_000_000_000, 100_000_000_000], acc(2))
        .expect("initial deposit");
    let scaled = vec![1_000_000_000_000_000_000_000_000u128; 2];
    let rated_before = amounts_to_rated_amounts(&pool.reserves(), &scaled).unwrap();
    let d_before = compute_d(&rated_before, 1000).unwrap();
    pool.swap_exact_in(0, &vec![0, 0], acc(10), acc(11), 10_000_000_000, 1, acc(2))
        .expect("swap");
    let rated_after = amounts_to_rated_amounts(&pool.reserves(), &scaled).unwrap();
    let d_after = compute_d(&rated_after, 1000).unwrap();
    // |D_before - D_after| <= 1 in the common-precision scale of this pool
    let lo = primitive_types::U256::from(d_before.lo)
        | (primitive_types::U256::from(d_before.hi) << 128);
    let hi = primitive_types::U256::from(d_after.lo)
        | (primitive_types::U256::from(d_after.hi) << 128);
    let diff = if lo > hi { lo - hi } else { hi - lo };
    assert!(
        diff <= primitive_types::U256::from(1_000_000_000_000u128),
        "fee-free swap keeps D within one token unit"
    );
}

#[test]
fn external_rate_refresh_respects_ttl() {
    let oracle = acc(30);
    let mut rate = TokenRate::new_external(1_000, oracle, 10_000, RATE_PRECISION);
    assert_eq!(rate.get_rate(), RATE_PRECISION);
    // before expiry nothing changes
    assert!(!rate.update_rate(5_000, 2 * RATE_PRECISION));
    assert_eq!(rate.get_rate(), RATE_PRECISION);
    // at expiry the fresh reading is cached
    assert!(rate.update_rate(11_000, 2 * RATE_PRECISION));
    assert_eq!(rate.get_rate(), 2 * RATE_PRECISION);
    // a forced refresh ignores the TTL
    assert!(rate.force_update_rate(11_500, 3 * RATE_PRECISION));
    assert_eq!(rate.get_rate(), 3 * RATE_PRECISION);
    let mut constant = TokenRate::new_constant(RATE_PRECISION);
    assert!(!constant.force_update_rate(0, 5 * RATE_PRECISION));
    assert_eq!(constant.get_rate(), RATE_PRECISION);
}

#[test]
fn rated_pool_uses_oracle_rate() {
    let oracle = acc(30);
    let mut pool = StablePoolContract::new_rated(
        vec![acc(10), acc(11)],
        vec![6, 6],
        vec![Some(oracle), None],
        10_000,
        1000,
        acc(1),
        0,
        0,
        None,
        0,
        vec![2 * RATE_PRECISION, 0],
    )
    .expect("valid configuration");
    // token0 is worth twice token1: a balanced pool holds half as much of it
    pool.add_liquidity(
        0,
        &vec![2 * RATE_PRECISION, 0],
        1,
        &vec![50_000_000_000, 100_000_000_000],
        acc(2),
    )
    .expect("initial deposit");
    let (amount_out, _fee) = pool
        .swap_exact_in(0, &vec![2 * RATE_PRECISION, 0], acc(10), acc(11), 1_000_000, 1, acc(2))
        .expect("swap");
    // one unit of token0 buys about two units of token1
    assert!((1_990_000..=2_000_000).contains(&amount_out));
}

#[test]
fn mock_rate_providers() {
    let mut mock = MockSazeroRateContract::new();
    assert_eq!(mock.get_rate(), RATE_PRECISION);
    mock.set_rate(3 * RATE_PRECISION);
    assert_eq!(mock.get_rate(), 3 * RATE_PRECISION);
    let clock_mock = SazeroMockContract::new(0);
    assert_eq!(clock_mock.get_rate(0), RATE_PRECISION);
}

#[test]
fn test_1() {
    let minute: u64 = 60 * 1000;
    let rate_contract = SazeroMockContract::new(0);
    // after 10000 minutes the rate should be doubled
    assert_eq!(rate_contract.get_rate(minute * 10000), RATE_PRECISION * 2);
}

#[test]
fn u128_ratio_mixes_its_inputs() {
    // would fail if the 256-bit multiply or divide handed an argument back
    assert_eq!(stable_pool::fees::u128_ratio(100, 3, 2), Ok(150));
    assert_eq!(
        stable_pool::fees::u128_ratio(u128::MAX, 1_000_000_000, 1_000_000_000),
        Ok(u128::MAX)
    );
    assert!(matches!(
        stable_pool::fees::u128_ratio(u128::MAX, 2, 1),
        Err(MathError::CastOverflow(_))
    ));
    assert!(matches!(
        stable_pool::fees::u128_ratio(1, 1, 0),
        Err(MathError::DivByZero(_))
    ));
}

#[test]
fn share_ledger_round_trip() {
    let mut pool = setup_two_pool(None);
    let holder = acc(2);
    let other = acc(3);
    let bal = pool.balance_of(holder);
    assert!(bal > 0);
    pool.transfer(holder, other, 100).expect("transfer");
    assert_eq!(pool.balance_of(other), 100);
    assert_eq!(pool.balance_of(holder), bal - 100);
    pool.approve(other, holder, 40).expect("approve");
    assert_eq!(pool.allowance(other, holder), 40);
    pool.transfer_from(holder, other, holder, 30).expect("transfer_from");
    assert_eq!(pool.allowance(other, holder), 10);
    assert_eq!(pool.balance_of(other), 70);
    assert_eq!(pool.balance_of(holder), bal - 70);
}

#[test]
fn quotes_agree_with_operations() {
    let mut pool = setup_two_pool(None);
    let quote = pool
        .get_swap_amount_out(0, &vec![0, 0], acc(10), acc(11), 10_000_000_000)
        .expect("quote");
    let done = pool
        .swap_exact_in(0, &vec![0, 0], acc(10), acc(11), 10_000_000_000, 1, acc(2))
        .expect("swap");
    assert_eq!(quote, done);

    let mut pool2 = setup_two_pool(None);
    let quote_in = pool2
        .get_swap_amount_in(0, &vec![0, 0], acc(10), acc(11), 5_000_000_000)
        .expect("quote");
    let done_in = pool2
        .swap_exact_out(0, &vec![0, 0], acc(10), acc(11), 5_000_000_000, u128::MAX, acc(2))
        .expect("swap");
    assert_eq!(quote_in, done_in);

    let mut pool3 = setup_two_pool(None);
    let amounts = vec![3_000_000_000, 1_000_000_000];
    let quote_mint = pool3
        .get_mint_liquidity_for_amounts(0, &vec![0, 0], &amounts)
        .expect("quote");
    let done_mint = pool3
        .add_liquidity(0, &vec![0, 0], 1, &amounts, acc(2))
        .expect("deposit");
    assert_eq!(quote_mint, done_mint);
}

#[test]
fn remove_liquidity_by_amounts_with_protocol_fee() {
    let receiver = acc(9);
    let mut pool = setup_two_pool(Some(receiver));
    let holder = acc(2);
    let supply_before = pool.total_supply();
    let reserves_before = pool.reserves();
    // an imbalanced withdrawal pays an imbalance fee, part of which the
    // receiver collects as freshly minted shares
    let amounts = vec![10_000_000_000, 1_000_000_000];
    let (shares, fee_part) = pool
        .remove_liquidity_by_amounts(holder, 0, &vec![0, 0], u128::MAX, &amounts, holder)
        .expect("withdraw");
    assert!(shares > 0 && fee_part > 0);
    let expected_protocol = fee_part * 200_000_000 / 1_000_000_000;
    assert_eq!(pool.balance_of(receiver), expected_protocol);
    assert_eq!(pool.total_supply(), supply_before - shares + expected_protocol);
    let reserves_after = pool.reserves();
    assert_eq!(reserves_after[0], reserves_before[0] - amounts[0]);
    assert_eq!(reserves_after[1], reserves_before[1] - amounts[1]);
}

#[test]
fn burning_more_than_held_is_rejected() {
    let mut pool = setup_two_pool(None);
    let stranger = acc(55);
    let r = pool.remove_liquidity_by_shares(stranger, 1, &vec![0, 0], stranger);
    assert!(matches!(
        r,
        Err(StablePoolError::PSP22Error(
            stable_pool::errors::PSP22Error::InsufficientBalance
        ))
    ));
}

#[test]
fn rate_ttl_applies_inside_pool_operations() {
    let oracle = acc(30);
    let mut pool = StablePoolContract::new_rated(
        vec![acc(10), acc(11)],
        vec![6, 6],
        vec![Some(oracle), None],
        10_000,
        1000,
        acc(1),
        0,
        0,
        None,
        0,
        vec![RATE_PRECISION, 0],
    )
    .expect("valid configuration");
    pool.add_liquidity(
        0,
        &vec![RATE_PRECISION, 0],
        1,
        &vec![100_000_000_000, 100_000_000_000],
        acc(2),
    )
    .expect("initial deposit");
    // before the TTL expires a doubled oracle reading is ignored
    let (out_stale, _) = pool
        .get_swap_amount_out(5_000, &vec![2 * RATE_PRECISION, 0], acc(10), acc(11), 1_000_000)
        .expect("quote");
    assert!((999_000..=1_000_001).contains(&out_stale));
    // once it expires the same reading roughly doubles the price
    let (out_fresh, _) = pool
        .get_swap_amount_out(20_000, &vec![2 * RATE_PRECISION, 0], acc(10), acc(11), 1_000_000)
        .expect("quote");
    assert!((1_990_000..=2_000_000).contains(&out_fresh));
}

#[test]
fn mock_implements_rate_provider() {
    let mut mock = MockSazeroRateContract::new();
    mock.set_rate(7);
    let reading = RateProvider::get_rate(&mut mock);
    assert_eq!(reading, 7);
}
