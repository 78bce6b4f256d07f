use stable_pool::fees::Fees;
use stable_pool::math::{
    compute_d, compute_lp_amount_for_deposit, compute_lp_amount_for_withdraw,
    compute_deposit_amounts_for_lp, compute_withdraw_amounts_for_lp, compute_y, swap_from,
    swap_to,
};
use stable_pool::wide::{casted_mul, Wide};

fn fees(trade_fee: u32, protocol_fee: u32) -> Fees {
    Fees::new(trade_fee, protocol_fee).expect("fees within bounds")
}

#[test]
fn mod_d_computation_high_amp_coef() {
    let amp_coef: u128 = 1_000_000_000_000;
    let reserve_0: u128 = 400_000_000_000;
    let reserve_1: u128 = 500_000_000_000;
    let d = compute_d(&Vec::from([reserve_0, reserve_1]), amp_coef)
        .unwrap_or_else(|err| panic!("Should compute: {err:?}"));
    assert_eq!(
        d,
        Wide::from_u128(reserve_0 + reserve_1),
        "Invariant should be equal constant sum invariant"
    )
}

#[test]
fn mod_d_computation_low_amp_coef() {
    let amp_coef: u128 = 1;
    let reserve_0: u128 = 400_000_000_000;
    let reserve_1: u128 = 500_000_000_000;
    let d = compute_d(&Vec::from([reserve_0, reserve_1]), amp_coef)
        .unwrap_or_else(|err| panic!("Should compute: {err:?}"));
    assert_eq!(d.hi, 0);
    assert!(
        d.lo < reserve_0 + reserve_1,
        "Invariant should be less than const sum invariant"
    );
    let prod = primitive_types::U256::from(reserve_0) * primitive_types::U256::from(reserve_1);
    let prod_d = (prod.integer_sqrt() * primitive_types::U256::from(2u8)).as_u128();
    assert!(
        d.lo > prod_d,
        "Invariant should be greater than const prod invariant"
    );
    // the trusted 256-bit product agrees with the native one here
    let w = casted_mul(reserve_0, reserve_1);
    assert_eq!(w.lo, reserve_0 * reserve_1);
    assert_eq!(w.hi, 0);
}

#[test]
fn mod_y_computation_high_amp_coef() {
    let amp_coef: u128 = 1_000_000_000_000;
    let reserve_0: u128 = 500_000_000_000;
    let reserve_1: u128 = 500_000_000_000;
    let reserve_delta: u128 = 40_000_000_000;
    let reserve_0_after = reserve_0 - reserve_delta;
    let reserve_1_after = compute_y(
        reserve_0_after,
        &Vec::from([reserve_0, reserve_1]),
        0,
        1,
        amp_coef,
    )
    .unwrap_or_else(|err| panic!("Should compute y. Err: {err:?}"));
    assert_eq!(
        reserve_1_after,
        reserve_1 + reserve_delta,
        "Reserve change should be linear"
    );
}

#[test]
fn mod_y_computation_low_amp_coef() {
    let amp_coef: u128 = 1;
    let reserve_0: u128 = 400_000_000_000;
    let reserve_1: u128 = 500_000_000_000;
    let reserve_delta: u128 = 40_000_000_000;
    let reserve_0_after = reserve_0 - reserve_delta;
    let reserve_1_after = compute_y(
        reserve_0_after,
        &Vec::from([reserve_0, reserve_1]),
        0,
        1,
        amp_coef,
    )
    .unwrap_or_else(|err| panic!("Should compute y. Err: {err:?}"));
    assert!(
        reserve_1_after > reserve_1 + reserve_delta,
        "Destination reserve change should be greater than in const sum swap"
    );
    let const_prod_y = (reserve_1 * (reserve_0 + reserve_delta)) / reserve_0;
    assert!(
        const_prod_y > reserve_1_after,
        "Destination reserve change should be less than in const prod swap"
    );
}

#[test]
fn mod_swap_to_computation_no_fees() {
    let amp_coef: u128 = 1000;
    let fees = Fees::zero();
    let reserves: Vec<u128> = vec![100000000000, 100000000000];
    let token_in = 10000000000;
    let expect_token_out = 9999495232;
    let (amount_out, fee) = swap_to(0, token_in, 1, &reserves, &fees, amp_coef)
        .unwrap_or_else(|_| panic!("Should return SwapResult"));
    assert_eq!(amount_out, expect_token_out, "Incorrect swap ammount");
    assert_eq!(fee, 0, "Fee should nbe 0");
}

#[test]
fn mod_swap_from_computation_no_fees() {
    let amp_coef: u128 = 1000;
    let fees = Fees::zero();
    let reserves: Vec<u128> = vec![100000000000, 100000000000];
    let token_out = 9999495232;
    let expect_token_in = 10000000000;
    let (amount_in, fee) = swap_from(0, token_out, 1, &reserves, &fees, amp_coef)
        .unwrap_or_else(|_| panic!("Should return SwapResult"));
    assert_eq!(amount_in, expect_token_in, "Incorrect swap ammount");
    assert_eq!(fee, 0, "Fee should nbe 0");
}

#[test]
fn mod_swap_to_computation_with_fees() {
    let amp_coef: u128 = 1000;
    let fees = fees(1000, 0);
    let reserves: Vec<u128> = vec![100000000000, 100000000000];
    let token_in = 10000000000;
    let expect_token_out = 9999495232;
    let expect_fee = expect_token_out * 1000 / 1_000_000_000;
    let expect_token_out_minus_fee = expect_token_out - expect_fee;
    let (amount_out, fee) = swap_to(0, token_in, 1, &reserves, &fees, amp_coef)
        .unwrap_or_else(|_| panic!("Should return SwapResult"));
    assert_eq!(
        amount_out, expect_token_out_minus_fee,
        "Incorrect swap ammount"
    );
    assert_eq!(fee, expect_fee, "Incorrect total fee ammount");
}

#[test]
fn mod_swap_from_computation_with_fees() {
    let amp_coef: u128 = 1000;
    let fees = fees(1000, 0);
    let reserves: Vec<u128> = vec![100000000000, 100000000000];
    let token_out = 9999495232;
    let expect_fee: u128 = token_out * 1000 / 1_000_000_000;
    let token_out_minus_expect_fee = token_out - expect_fee;
    let expect_token_in = 10000000000;
    let (amount_in, fee) = swap_from(0, token_out_minus_expect_fee, 1, &reserves, &fees, amp_coef)
        .unwrap_or_else(|_| panic!("Should return SwapResult"));
    assert_eq!(amount_in, expect_token_in, "Incorrect swap ammount");
    assert_eq!(fee, expect_fee, "Incorrect total fee ammount");
}

#[test]
fn mod_swap_to_from_computation() {
    let amp_coef: u128 = 1000;
    let fees = fees(2137, 0);
    let reserves: Vec<u128> = vec![12341234123412341234, 5343245543253432435];
    let token_0_in: u128 = 62463425433;
    let (amount_out, fee_out) = swap_to(0, token_0_in, 1, &reserves, &fees, amp_coef)
        .unwrap_or_else(|_| panic!("Should return SwapResult"));
    let (amount_in, fee_in) = swap_from(1, amount_out, 0, &reserves, &fees, amp_coef)
        .unwrap_or_else(|_| panic!("Should return SwapResult"));
    assert_eq!(amount_in, token_0_in, "Incorrect swap amount");
    assert_eq!(fee_out, fee_in, "Incorrect fee amount");
}

#[test]
fn mod_swap_from_to_computation() {
    let amp_coef: u128 = 1000;
    let fees = fees(2137, 0);
    let reserves: Vec<u128> = vec![12341234123412341234, 5343245543253432435];
    let token_0_out: u128 = 62463425433;
    let (amount_in, fee_in) = swap_from(0, token_0_out, 1, &reserves, &fees, amp_coef)
        .unwrap_or_else(|_| panic!("Should return SwapResult"));
    let (amount_out, fee_out) = swap_to(1, amount_in, 0, &reserves, &fees, amp_coef)
        .unwrap_or_else(|_| panic!("Should return SwapResult"));
    assert_eq!(amount_out, token_0_out, "Incorrect swap amount");
    assert_eq!(fee_in, fee_out, "Incorrect fee amount");
}

#[test]
fn swap_to_from_computation_edge_case() {
    let amp_coef: u128 = 80;
    let fees = fees(1000, 0);
    let reserves: Vec<u128> = vec![100000000000, 100000000000];
    let token_0_in: u128 = 1000000;
    let (amount_out, fee_out) = swap_to(1, token_0_in, 0, &reserves, &fees, amp_coef)
        .unwrap_or_else(|_| panic!("Should return SwapResult"));
    let (amount_in, fee_in) = swap_from(0, amount_out, 1, &reserves, &fees, amp_coef)
        .unwrap_or_else(|_| panic!("Should return SwapResult"));
    // the one-unit anti-rounding margins can overshoot the round trip by 1
    assert!(
        amount_in == token_0_in || amount_in == token_0_in + 1,
        "Incorrect swap amount"
    );
    // a gross-side and a net-side fee of this tiny trade differ by at most 1
    assert!(fee_in >= fee_out && fee_in - fee_out <= 1, "Incorrect fee amount");
}

#[test]
fn swap_from_to_computation_edge_case() {
    let amp_coef: u128 = 80;
    let fees = fees(1000, 0);
    let reserves: Vec<u128> = vec![100000000000, 100000000000];
    let token_0_out: u128 = 1000000;
    let (amount_in, fee_in) = swap_from(0, token_0_out, 1, &reserves, &fees, amp_coef)
        .unwrap_or_else(|_| panic!("Should return SwapResult"));
    let (amount_out, fee_out) = swap_to(1, amount_in, 0, &reserves, &fees, amp_coef)
        .unwrap_or_else(|_| panic!("Should return SwapResult"));
    assert_eq!(amount_out, token_0_out, "Incorrect swap amount");
    assert_eq!(fee_in, fee_out, "Incorrect fee amount");
}

#[test]
fn withdraw_liquidity_by_share_and_by_amounts_equality_1() {
    let amp_coef: u128 = 85;
    let fees = fees(2137, 0);
    let reserves: Vec<u128> = Vec::from([500_000_000_000, 500_000_000_000]);
    let token_supply = compute_d(&reserves, amp_coef).unwrap().to_u128().unwrap();
    let share = token_supply / 20; // 5%
    let (withdraw_amounts_by_share, _) =
        compute_withdraw_amounts_for_lp(share, &reserves, token_supply)
            .unwrap_or_else(|_| panic!("Should work"));
    let (share_by_withdraw_amounts, fee_part) = compute_lp_amount_for_withdraw(
        &withdraw_amounts_by_share,
        &reserves,
        token_supply,
        Some(&fees),
        amp_coef,
    )
    .unwrap_or_else(|_| panic!("Should work"));
    assert_eq!(fee_part, 0, "Fee should be 0");
    assert_eq!(
        share_by_withdraw_amounts, share,
        "Share amounts should match"
    );
}

#[test]
fn deposit_liquidity_by_share_and_by_amounts_equality_1() {
    let amp_coef: u128 = 85;
    let fees = fees(2137, 0);
    let reserves: Vec<u128> = Vec::from([500_000_000_000, 500_000_000_000]);
    let token_supply = compute_d(&reserves, amp_coef).unwrap().to_u128().unwrap();
    let share = token_supply / 20; // 5%
    let (deposit_amounts, reserves_b) = compute_deposit_amounts_for_lp(share, &reserves, token_supply)
        .unwrap_or_else(|_| panic!("Should mint liquidity"));
    let (share_by_deposit, fee_part) = compute_lp_amount_for_deposit(
        &deposit_amounts,
        &reserves,
        token_supply,
        Some(&fees),
        amp_coef,
    )
    .unwrap_or_else(|_| panic!("Should mint liquidity"));
    assert_eq!(fee_part, 0, "Fee should be 0");
    let reserves_a = vec![
        reserves[0] + deposit_amounts[0],
        reserves[1] + deposit_amounts[1],
    ];
    assert_eq!(share, share_by_deposit, "Deposit amounts differ.");
    assert_eq!(reserves_a, reserves_b, "Reserves should match");
}

#[test]
fn withdraw_liquidity_by_share_and_by_amounts_equality_2() {
    let amp_coef: u128 = 85;
    let fees = fees(2137, 0);
    let reserves: Vec<u128> = Vec::from([12341234123412341234, 5343245543253432435]);
    let token_supply = compute_d(&reserves, amp_coef).unwrap().to_u128().unwrap();
    let share = token_supply / 20; // 5%
    let (withdraw_amounts_by_share, _) =
        compute_withdraw_amounts_for_lp(share, &reserves, token_supply)
            .unwrap_or_else(|_| panic!("Should work"));
    let (share_by_withdraw_amounts, fee_part) = compute_lp_amount_for_withdraw(
        &withdraw_amounts_by_share,
        &reserves,
        token_supply,
        Some(&fees),
        amp_coef,
    )
    .unwrap_or_else(|_| panic!("Should work"));
    assert_eq!(fee_part, 0, "Fee should be 0");
    // floor rounding of the per-token amounts costs a few share units
    assert!(share_by_withdraw_amounts <= share, "Share amounts should match");
    assert!(share - share_by_withdraw_amounts <= 3, "Share amounts should match");
}

#[test]
fn deposit_liquidity_by_share_and_by_amounts_equality_2() {
    let amp_coef: u128 = 85;
    let fees = fees(2137, 0);
    let reserves: Vec<u128> = Vec::from([12341234123412341234, 5343245543253432435]);
    let token_supply = compute_d(&reserves, amp_coef).unwrap().to_u128().unwrap();
    let share = token_supply / 20; // 5%
    let (deposit_amounts, reserves_b) = compute_deposit_amounts_for_lp(share, &reserves, token_supply)
        .unwrap_or_else(|_| panic!("Should mint liquidity"));
    let (share_by_deposit, fee_part) = compute_lp_amount_for_deposit(
        &deposit_amounts,
        &reserves,
        token_supply,
        Some(&fees),
        amp_coef,
    )
    .unwrap_or_else(|_| panic!("Should mint liquidity"));
    assert_eq!(fee_part, 0, "Fee should be 0");
    let reserves_a = vec![
        reserves[0] + deposit_amounts[0],
        reserves[1] + deposit_amounts[1],
    ];
    assert_eq!(reserves_a, reserves_b, "Reserves should match");
    // floor rounding of the per-token amounts costs a few share units
    assert!(share_by_deposit <= share, "Deposit amounts differ.");
    assert!(share - share_by_deposit <= 3, "Deposit amounts differ.");
}

#[test]
fn biggie() {
    let res = 10u128.checked_pow(12).unwrap();
    assert!(res
        .checked_mul(1_000_000_000_000_000_000_000_000_00)
        .is_some())
}
