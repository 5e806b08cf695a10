use coffee_vaults::{calculate_compound_yield, Error, TokenMetadata, VaultType, YieldToken};

const ADMIN: u64 = 1;
const VAULT: u64 = 100;
const ALICE: u64 = 10;
const BOB: u64 = 11;
const DAY: u64 = 86400;
const T0: u64 = 1_700_000_000;

fn metadata() -> TokenMetadata {
    TokenMetadata {
        decimal: 6,
        name: "Coffee Yield Token".to_string(),
        symbol: "CYT".to_string(),
    }
}

fn ledger() -> YieldToken {
    let mut t = YieldToken::initialize(ADMIN, metadata(), T0);
    assert_eq!(t.authorize_vault(ADMIN, VAULT), Ok(()));
    t
}

#[test]
fn initialize_sets_empty_supply_and_metadata() {
    let t = YieldToken::initialize(ADMIN, metadata(), T0);
    assert_eq!(t.total_supply(), 0);
    assert_eq!(t.balance(ALICE), 0);
    assert_eq!(t.name(), "Coffee Yield Token".to_string());
    assert_eq!(t.symbol(), "CYT".to_string());
    assert_eq!(t.decimals(), 6);
    assert_eq!(t.get_global_yield_rate(), 500);
    assert_eq!(t.get_last_rebase(), T0);
}

#[test]
fn only_admin_authorizes_vaults() {
    let mut t = YieldToken::initialize(ADMIN, metadata(), T0);
    assert_eq!(t.authorize_vault(ALICE, VAULT), Err(Error::NotAuthorized));
    assert!(!t.is_authorized_vault(VAULT));
    assert_eq!(t.authorize_vault(ADMIN, VAULT), Ok(()));
    assert!(t.is_authorized_vault(VAULT));
}

#[test]
fn mint_credits_holder_and_supply() {
    let mut t = ledger();
    assert_eq!(t.mint_for_deposit(VAULT, ALICE, 1000, VaultType::USDC, 750, T0), Ok(()));
    assert_eq!(t.balance(ALICE), 1000);
    assert_eq!(t.total_supply(), 1000);
    assert_eq!(t.get_user_interest_rate(ALICE), 750);
    let info = t.get_user_yield_info(ALICE, T0 + 5);
    assert_eq!(info.principal, 1000);
    assert_eq!(info.last_compound_time, T0);
    assert_eq!(info.total_yield_earned, 0);
}

#[test]
fn mint_refuses_zero_amount_and_unknown_vault() {
    let mut t = ledger();
    assert_eq!(t.mint_for_deposit(VAULT, ALICE, 0, VaultType::USDC, 500, T0), Err(Error::InvalidAmount));
    assert_eq!(t.mint_for_deposit(ALICE, ALICE, 10, VaultType::USDC, 500, T0), Err(Error::NotAuthorizedVault));
    assert_eq!(t.total_supply(), 0);
    assert_eq!(t.balance(ALICE), 0);
}

#[test]
fn mint_refuses_supply_beyond_i128() {
    let mut t = ledger();
    let max = i128::MAX as u128;
    assert_eq!(t.mint_for_deposit(VAULT, ALICE, max, VaultType::USDC, 500, T0), Ok(()));
    assert_eq!(t.mint_for_deposit(VAULT, BOB, 1, VaultType::USDC, 500, T0), Err(Error::Overflow));
    assert_eq!(t.total_supply(), i128::MAX);
}

#[test]
fn mint_resets_rate_and_accrual_clock() {
    let mut t = ledger();
    t.mint_for_deposit(VAULT, ALICE, 1_000_000_000, VaultType::USDC, 500, T0).unwrap();
    t.compound_interest(ALICE, T0 + 10 * DAY).unwrap();
    assert!(t.get_user_yield_info(ALICE, 0).total_yield_earned > 0);
    let before = t.balance(ALICE) as u128;
    t.mint_for_deposit(VAULT, ALICE, 5, VaultType::PAXG, 1000, T0 + 11 * DAY).unwrap();
    let info = t.get_user_yield_info(ALICE, 0);
    assert_eq!(info.principal, before + 5);
    assert_eq!(info.yield_rate, 1000);
    assert_eq!(info.last_compound_time, T0 + 11 * DAY);
    assert_eq!(info.total_yield_earned, 0);
}

#[test]
fn burn_for_withdrawal_debits_and_checks_balance() {
    let mut t = ledger();
    t.mint_for_deposit(VAULT, ALICE, 1000, VaultType::USDC, 500, T0).unwrap();
    assert_eq!(t.burn_for_withdrawal(VAULT, ALICE, 1001), Err(Error::InsufficientBalance));
    assert_eq!(t.burn_for_withdrawal(ALICE, ALICE, 10), Err(Error::NotAuthorizedVault));
    assert_eq!(t.burn_for_withdrawal(VAULT, ALICE, 400), Ok(()));
    assert_eq!(t.balance(ALICE), 600);
    assert_eq!(t.total_supply(), 600);
}

#[test]
fn supply_equals_sum_of_balances_through_mints_and_burns() {
    let mut t = ledger();
    let holders = [ALICE, BOB, 12, 13];
    let mut step: u128 = 0;
    for round in 0..5u128 {
        for (k, h) in holders.iter().enumerate() {
            step += 1;
            t.mint_for_deposit(VAULT, *h, 100 * (k as u128 + 1) + round, VaultType::USDC, 500, T0).unwrap();
            if step % 3 == 0 {
                t.burn_for_withdrawal(VAULT, *h, 50).unwrap();
            }
            let sum: i128 = holders.iter().map(|x| t.balance(*x)).sum();
            assert_eq!(t.total_supply(), sum);
        }
    }
    assert!(t.total_supply() > 0);
}

#[test]
fn accrue_twice_at_one_instant_changes_nothing_the_second_time() {
    let mut t = ledger();
    t.mint_for_deposit(VAULT, ALICE, 1_000_000_000, VaultType::USDC, 500, T0).unwrap();
    let first = t.compound_interest(ALICE, T0 + 90 * DAY).unwrap();
    let info = t.get_user_yield_info(ALICE, 0);
    let supply = t.total_supply();
    let second = t.compound_interest(ALICE, T0 + 90 * DAY).unwrap();
    assert_eq!(first, second);
    assert_eq!(t.get_user_yield_info(ALICE, 0), info);
    assert_eq!(t.total_supply(), supply);
}

#[test]
fn accrue_compounds_whole_days_and_grows_supply() {
    let mut t = ledger();
    t.mint_for_deposit(VAULT, ALICE, 1_000_000_000, VaultType::USDC, 500, T0).unwrap();
    assert_eq!(t.accrued_balance(ALICE, T0 + 90 * DAY), Ok(1_009_040_132));
    assert_eq!(t.compound_interest(ALICE, T0 + 90 * DAY), Ok(1_009_040_132));
    assert_eq!(t.balance(ALICE), 1_009_040_132);
    assert_eq!(t.total_supply(), 1_009_040_132);
    let info = t.get_user_yield_info(ALICE, 0);
    assert_eq!(info.total_yield_earned, 9_040_132);
    assert_eq!(info.last_compound_time, T0 + 90 * DAY);
}

#[test]
fn accrue_of_unknown_holder_is_zero() {
    let mut t = ledger();
    assert_eq!(t.compound_interest(BOB, T0 + DAY), Ok(0));
    assert_eq!(t.total_supply(), 0);
    assert_eq!(t.get_user_interest_rate(BOB), 500);
}

#[test]
fn accrue_before_last_accrual_changes_nothing() {
    let mut t = ledger();
    t.mint_for_deposit(VAULT, ALICE, 1_000_000_000, VaultType::USDC, 500, T0).unwrap();
    assert_eq!(t.compound_interest(ALICE, T0 - 5), Ok(1_000_000_000));
    assert_eq!(t.get_user_yield_info(ALICE, 0).last_compound_time, T0);
}

#[test]
fn compound_yield_exact_values() {
    assert_eq!(calculate_compound_yield(1000, 500, 90 * DAY), Some(1000));
    assert_eq!(calculate_compound_yield(1_000_000_000, 500, 90 * DAY), Some(1_009_040_132));
    assert_eq!(calculate_compound_yield(1_000_000_000, 750, 180 * DAY), Some(1_036_652_024));
    assert_eq!(calculate_compound_yield(1_000_000_000_000, 1000, 365 * DAY), Some(1_075_722_684_969));
    assert_eq!(calculate_compound_yield(1_000_000, 3650, 10 * DAY), Some(1_010_045));
}

#[test]
fn compound_yield_ignores_partial_days() {
    assert_eq!(calculate_compound_yield(1_000_000, 3650, 10 * DAY + 3600), Some(1_010_045));
    assert_eq!(calculate_compound_yield(1_000_000, 3650, DAY - 1), Some(1_000_000));
    assert_eq!(calculate_compound_yield(1_000_000, 3650, 0), Some(1_000_000));
}

#[test]
fn compound_yield_reports_overflow() {
    assert_eq!(calculate_compound_yield(u128::MAX, 3650, DAY), None);
    assert_eq!(calculate_compound_yield(u128::MAX, 0, 100 * DAY), Some(u128::MAX));
}

#[test]
fn transfer_moves_balance() {
    let mut t = ledger();
    t.mint_for_deposit(VAULT, ALICE, 1000, VaultType::USDC, 750, T0).unwrap();
    assert_eq!(t.transfer(ALICE, BOB, 300, T0 + 7), Ok(()));
    assert_eq!(t.balance(ALICE), 700);
    assert_eq!(t.balance(BOB), 300);
    assert_eq!(t.total_supply(), 1000);
    let bob = t.get_user_yield_info(BOB, 0);
    assert_eq!(bob.yield_rate, 500);
    assert_eq!(bob.last_compound_time, T0 + 7);
}

#[test]
fn transfer_refuses_negative_and_excessive_amounts() {
    let mut t = ledger();
    t.mint_for_deposit(VAULT, ALICE, 1000, VaultType::USDC, 500, T0).unwrap();
    assert_eq!(t.transfer(ALICE, BOB, -1, T0), Err(Error::InvalidAmount));
    assert_eq!(t.transfer(ALICE, BOB, 1001, T0), Err(Error::InsufficientBalance));
    assert_eq!(t.balance(ALICE), 1000);
    assert_eq!(t.balance(BOB), 0);
}

#[test]
fn transfer_to_self_changes_nothing() {
    let mut t = ledger();
    t.mint_for_deposit(VAULT, ALICE, 1000, VaultType::USDC, 500, T0).unwrap();
    assert_eq!(t.transfer(ALICE, ALICE, 400, T0), Ok(()));
    assert_eq!(t.balance(ALICE), 1000);
    assert_eq!(t.total_supply(), 1000);
}

#[test]
fn holder_burn_debits_own_balance() {
    let mut t = ledger();
    t.mint_for_deposit(VAULT, ALICE, 1000, VaultType::USDC, 500, T0).unwrap();
    assert_eq!(t.burn(ALICE, -3), Err(Error::InvalidAmount));
    assert_eq!(t.burn(ALICE, 2000), Err(Error::InsufficientBalance));
    assert_eq!(t.burn(ALICE, 250), Ok(()));
    assert_eq!(t.balance(ALICE), 750);
    assert_eq!(t.total_supply(), 750);
}

#[test]
fn delegated_spending_is_refused() {
    let mut t = ledger();
    t.mint_for_deposit(VAULT, ALICE, 1000, VaultType::USDC, 500, T0).unwrap();
    assert_eq!(t.allowance(ALICE, BOB), 0);
    assert_eq!(t.approve(ALICE, BOB, 10, 99), Err(Error::Unsupported));
    assert_eq!(t.transfer_from(BOB, ALICE, BOB, 10), Err(Error::Unsupported));
    assert_eq!(t.burn_from(BOB, ALICE, 10), Err(Error::Unsupported));
    assert_eq!(t.balance(ALICE), 1000);
}

#[test]
fn rebase_waits_for_a_whole_interval() {
    let mut t = ledger();
    t.rebase(T0 + DAY - 1);
    assert_eq!(t.get_last_rebase(), T0);
    t.rebase(T0 + DAY);
    assert_eq!(t.get_last_rebase(), T0 + DAY);
}

#[test]
fn global_rate_can_be_updated() {
    let mut t = ledger();
    t.update_global_yield_rate(VAULT, 900);
    assert_eq!(t.get_global_yield_rate(), 900);
}
