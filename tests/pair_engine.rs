use uniswap_core::account::AccountId;
use uniswap_core::ledger::PSP22Error;
use uniswap_core::pair::{
    Burn, Mint, PairContract, PairError, PairEvent, Sync, Transfer, MAX_RESERVE, MINIMUM_LIQUIDITY,
};
use uniswap_core::wide::Wide;

fn acct(b: u8) -> AccountId {
    let mut bytes = [0u8; 32];
    bytes[0] = b;
    bytes[31] = b;
    AccountId::from_bytes(bytes)
}

fn pair() -> PairContract {
    PairContract::new(acct(200), acct(10), acct(20))
}

fn no_fee() -> AccountId {
    AccountId::zero()
}

/// A pair whose reserves were set to `r0`, `r1` without any shares.
fn pair_with_reserves(r0: u128, r1: u128) -> PairContract {
    let mut p = pair();
    p.sync(r0, r1, 0).unwrap();
    p
}

/// A pair with a first deposit of `a0`, `a1` made by `acct(1)`.
fn funded(a0: u128, a1: u128) -> PairContract {
    let mut p = pair();
    p.mint(&acct(1), &acct(1), a0, a1, 0, &no_fee()).unwrap();
    p
}

fn swap(p: &mut PairContract, out0: u128, out1: u128, b0: u128, b1: u128) -> Result<(), PairError> {
    p.begin_swap(out0, out1, &acct(5))?;
    p.swap(&acct(5), out0, out1, &acct(5), b0, b1, 1)
}

#[test]
fn swap_with_enough_input_passes_invariant() {
    let mut p = pair_with_reserves(1000, 1000);
    assert_eq!(swap(&mut p, 0, 90, 1100, 910), Ok(()));
    assert_eq!(p.get_reserves(), (1100, 910, 1));
    assert!(!p.locked);
}

#[test]
fn swap_with_short_input_violates_invariant() {
    let mut p = pair_with_reserves(1000, 1000);
    assert_eq!(swap(&mut p, 0, 90, 1090, 910), Err(PairError::K));
    assert_eq!(p.get_reserves(), (1000, 1000, 0));
    assert!(!p.locked);
}

#[test]
fn swap_event_records_inputs() {
    let mut p = pair_with_reserves(1000, 1000);
    swap(&mut p, 0, 90, 1100, 910).unwrap();
    match p.events.last() {
        Some(PairEvent::Swap(s)) => {
            assert_eq!(s.amount_0_in, 100);
            assert_eq!(s.amount_1_in, 0);
            assert_eq!(s.amount_1_out, 90);
        }
        other => panic!("unexpected event {:?}", other),
    }
}

#[test]
fn swap_sequence_keeps_product() {
    let mut p = pair_with_reserves(10_000, 10_000);
    let mut last = 10_000u128 * 10_000;
    let steps: [(u128, u128, u128, u128); 3] =
        [(0, 900, 11_000, 9_100), (1_000, 0, 10_000, 10_100), (0, 500, 10_600, 9_600)];
    for (o0, o1, b0, b1) in steps {
        swap(&mut p, o0, o1, b0, b1).unwrap();
        let (r0, r1, _) = p.get_reserves();
        assert!(r0 * r1 >= last);
        last = r0 * r1;
    }
}

#[test]
fn swap_request_errors() {
    let mut p = pair_with_reserves(1000, 1000);
    assert_eq!(p.begin_swap(0, 0, &acct(5)), Err(PairError::InsufficientOutputAmount));
    assert_eq!(p.begin_swap(1000, 0, &acct(5)), Err(PairError::InsufficientLiquidity));
    assert_eq!(p.begin_swap(0, 10, &acct(10)), Err(PairError::InvalidTo));
    assert_eq!(p.begin_swap(0, 10, &acct(20)), Err(PairError::InvalidTo));
    assert!(!p.locked);
}

#[test]
fn swap_without_input_fails() {
    let mut p = pair_with_reserves(1000, 1000);
    assert_eq!(swap(&mut p, 0, 90, 1000, 910), Err(PairError::InsufficientInputAmount));
    assert!(!p.locked);
}

#[test]
fn swap_over_reserve_cap_overflows() {
    let mut p = pair_with_reserves(1000, 1000);
    assert_eq!(swap(&mut p, 0, 90, MAX_RESERVE + 1, 910), Err(PairError::Overflow));
}

#[test]
fn guard_blocks_nested_calls() {
    let mut p = pair_with_reserves(1000, 1000);
    p.begin_swap(0, 90, &acct(5)).unwrap();
    assert_eq!(p.begin_swap(0, 90, &acct(5)), Err(PairError::Locked));
    assert_eq!(p.mint(&acct(1), &acct(1), 2000, 2000, 1, &no_fee()), Err(PairError::Locked));
    assert_eq!(p.burn(&acct(1), &acct(1), 2000, 2000, 1, &no_fee()), Err(PairError::Locked));
    assert_eq!(p.sync(2000, 2000, 1), Err(PairError::Locked));
    assert_eq!(p.skim(2000, 2000), Err(PairError::Locked));
    assert_eq!(p.swap(&acct(5), 0, 90, &acct(5), 1100, 910, 1), Ok(()));
    assert!(!p.locked);
    assert_eq!(p.sync(1100, 910, 2), Ok(()));
}

#[test]
fn first_mint_locks_minimum_liquidity() {
    let mut p = pair();
    let minted = p.mint(&acct(1), &acct(2), 4000, 4000, 0, &no_fee());
    assert_eq!(minted, Ok(4000 - MINIMUM_LIQUIDITY));
    assert_eq!(p.balance_of(&AccountId::zero()), MINIMUM_LIQUIDITY);
    assert_eq!(p.balance_of(&acct(2)), 3000);
    assert_eq!(p.total_supply(), 4000);
    assert_eq!(p.get_reserves(), (4000, 4000, 0));
}

#[test]
fn first_mint_below_minimum_fails() {
    let mut p = pair();
    assert_eq!(
        p.mint(&acct(1), &acct(1), 1000, 1000, 0, &no_fee()),
        Err(PairError::InsufficientLiquidityMinted)
    );
    assert_eq!(p.total_supply(), 0);
}

#[test]
fn minimum_liquidity_is_never_burned() {
    let mut p = funded(4000, 4000);
    let own = p.address;
    p.transfer(&acct(1), &own, 3000).unwrap();
    assert_eq!(p.burn(&acct(1), &acct(1), 4000, 4000, 1, &no_fee()), Ok((3000, 3000)));
    assert_eq!(p.total_supply(), MINIMUM_LIQUIDITY);
    assert_eq!(p.balance_of(&AccountId::zero()), MINIMUM_LIQUIDITY);
    assert_eq!(p.get_reserves(), (1000, 1000, 1));
    assert_eq!(
        p.burn(&acct(1), &acct(1), 1000, 1000, 2, &no_fee()),
        Err(PairError::InsufficientLiquidityBurned)
    );
}

#[test]
fn proportional_mint_gets_exact_share() {
    let mut p = funded(10_000, 20_000);
    let supply = p.total_supply();
    let got = p.mint(&acct(3), &acct(3), 11_000, 22_000, 1, &no_fee()).unwrap();
    assert_eq!(got, 1000 * supply / 10_000);
    assert_eq!(p.balance_of(&acct(3)), got);
}

#[test]
fn imbalanced_mint_takes_lesser_side() {
    let mut p = funded(10_000, 10_000);
    let got = p.mint(&acct(3), &acct(3), 11_000, 15_000, 1, &no_fee()).unwrap();
    assert_eq!(got, 1000);
}

#[test]
fn mint_then_burn_returns_at_most_deposit() {
    let mut p = funded(10_000, 20_000);
    let got = p.mint(&acct(3), &acct(3), 11_000, 22_000, 1, &no_fee()).unwrap();
    let own = p.address;
    p.transfer(&acct(3), &own, got).unwrap();
    let (a0, a1) = p.burn(&acct(3), &acct(3), 11_000, 22_000, 1, &no_fee()).unwrap();
    assert!(a0 <= 1000 && a1 <= 2000);
    assert!(a0 >= 999 && a1 >= 1999);
}

#[test]
fn mint_with_balance_below_reserve_overflows() {
    let mut p = funded(4000, 4000);
    assert_eq!(p.mint(&acct(1), &acct(1), 3999, 5000, 1, &no_fee()), Err(PairError::Overflow));
}

#[test]
fn mint_with_nothing_deposited_fails() {
    let mut p = funded(4000, 4000);
    assert_eq!(
        p.mint(&acct(1), &acct(1), 4000, 4000, 1, &no_fee()),
        Err(PairError::InsufficientLiquidityMinted)
    );
}

#[test]
fn burn_without_shares_fails() {
    let mut p = funded(4000, 4000);
    assert_eq!(
        p.burn(&acct(1), &acct(1), 4000, 4000, 1, &no_fee()),
        Err(PairError::InsufficientLiquidityBurned)
    );
}

#[test]
fn protocol_fee_mints_sixth_of_growth() {
    let fee_to = acct(9);
    let mut p = pair();
    p.mint(&acct(1), &acct(1), 1_000_000, 1_000_000, 0, &fee_to).unwrap();
    assert_eq!(p.k_last, Wide { hi: 0, lo: 1_000_000_000_000 });
    swap(&mut p, 0, 90_000, 1_100_000, 910_000).unwrap();
    // k grew from 10^12 to 1_100_000 * 910_000; sqrt = 1_000_499.
    let own = p.address;
    p.transfer(&acct(1), &own, 1000).unwrap();
    p.burn(&acct(1), &acct(1), 1_100_000, 910_000, 2, &fee_to).unwrap();
    let expected = 1_000_000u128 * (1_000_499 - 1_000_000) / (1_000_499 * 5 + 1_000_000);
    assert_eq!(p.balance_of(&fee_to), expected);
    assert_eq!(expected, 83);
}

#[test]
fn fee_off_clears_k_last() {
    let mut p = pair();
    p.mint(&acct(1), &acct(1), 1_000_000, 1_000_000, 0, &acct(9)).unwrap();
    assert!(!p.k_last.is_zero());
    p.mint(&acct(1), &acct(1), 1_100_000, 1_100_000, 1, &no_fee()).unwrap();
    assert!(p.k_last.is_zero());
}

#[test]
fn price_accumulators_advance_with_time() {
    let mut p = pair();
    p.sync(1000, 2000, 0).unwrap();
    p.sync(1000, 2000, 10).unwrap();
    assert_eq!(p.price_0_cumulative_last, Wide { hi: 0, lo: 20u128 << 112 });
    assert_eq!(p.price_1_cumulative_last, Wide { hi: 0, lo: 5u128 << 112 });
    assert_eq!(p.get_reserves(), (1000, 2000, 10));
}

#[test]
fn timestamp_wraps_at_32_bits() {
    let mut p = pair();
    p.sync(1000, 1000, 0xffff_fff0).unwrap();
    p.sync(1000, 1000, 0x1_0000_0010).unwrap();
    assert_eq!(p.block_timestamp_last, 0x10);
    assert_eq!(p.price_0_cumulative_last, Wide { hi: 0, lo: 32u128 << 112 });
}

#[test]
fn no_accumulation_without_reserves() {
    let mut p = pair();
    p.sync(0, 2000, 0).unwrap();
    p.sync(1000, 2000, 10).unwrap();
    assert!(p.price_0_cumulative_last.is_zero());
}

#[test]
fn sync_over_cap_overflows() {
    let mut p = pair();
    assert_eq!(p.sync(MAX_RESERVE + 1, 1, 0), Err(PairError::Overflow));
}

#[test]
fn skim_returns_excess() {
    let p = pair_with_reserves(1000, 1000);
    assert_eq!(p.skim(1500, 1000), Ok((500, 0)));
    assert_eq!(p.skim(999, 1000), Err(PairError::Overflow));
}

#[test]
fn share_transfers_and_allowances() {
    let mut p = funded(4000, 4000);
    assert_eq!(p.transfer(&acct(1), &acct(2), 5000), Err(PSP22Error::InsufficientBalance));
    p.approve(&acct(1), &acct(3), 100);
    assert_eq!(p.allowance(&acct(1), &acct(3)), 100);
    assert_eq!(
        p.transfer_from(&acct(3), &acct(1), &acct(4), 101),
        Err(PSP22Error::InsufficientAllowance)
    );
    assert_eq!(p.transfer_from(&acct(3), &acct(1), &acct(4), 60), Ok(()));
    assert_eq!(p.allowance(&acct(1), &acct(3)), 40);
    assert_eq!(p.balance_of(&acct(4)), 60);
    assert_eq!(p.balance_of(&acct(1)), 2940);
    assert_eq!(p.total_supply(), 4000);
}

#[test]
fn unlimited_allowance_is_not_spent() {
    let mut p = funded(4000, 4000);
    p.approve(&acct(1), &acct(3), u128::MAX);
    p.transfer_from(&acct(3), &acct(1), &acct(4), 500).unwrap();
    assert_eq!(p.allowance(&acct(1), &acct(3)), u128::MAX);
}

#[test]
fn transfer_from_short_balance() {
    let mut p = funded(4000, 4000);
    p.approve(&acct(1), &acct(3), u128::MAX);
    assert_eq!(
        p.transfer_from(&acct(3), &acct(1), &acct(4), 3001),
        Err(PSP22Error::InsufficientBalance)
    );
}

#[test]
fn first_mint_notifications() {
    let mut p = pair();
    p.mint(&acct(1), &acct(2), 4000, 9000, 0, &no_fee()).unwrap();
    assert_eq!(
        p.events,
        vec![
            PairEvent::Transfer(Transfer { from: None, to: Some(AccountId::zero()), value: 1000 }),
            PairEvent::Transfer(Transfer { from: None, to: Some(acct(2)), value: 5000 }),
            PairEvent::Sync(Sync { reserve_0: 4000, reserve_1: 9000 }),
            PairEvent::Mint(Mint { sender: acct(1), amount_0: 4000, amount_1: 9000 }),
        ]
    );
}

#[test]
fn burn_notifications() {
    let mut p = funded(4000, 4000);
    let own = p.address;
    p.transfer(&acct(1), &own, 2000).unwrap();
    let before = p.events.len();
    p.burn(&acct(1), &acct(6), 4000, 4000, 1, &no_fee()).unwrap();
    assert_eq!(
        p.events[before..].to_vec(),
        vec![
            PairEvent::Transfer(Transfer { from: Some(own), to: None, value: 2000 }),
            PairEvent::Sync(Sync { reserve_0: 2000, reserve_1: 2000 }),
            PairEvent::Burn(Burn { sender: acct(1), amount_0: 2000, amount_1: 2000, to: acct(6) }),
        ]
    );
}
