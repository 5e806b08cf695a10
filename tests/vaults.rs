use coffee_vaults::{
    Error, GoldVault, LockPeriod, TokenMetadata, USDCVault, VaultType, YieldToken,
};

const ADMIN: u64 = 1;
const USDC_VAULT: u64 = 100;
const GOLD_VAULT: u64 = 101;
const USDC: u64 = 200;
const PAXG: u64 = 201;
const WTGOLD: u64 = 202;
const ORACLE: u64 = 300;
const LEDGER: u64 = 400;
const ALICE: u64 = 10;
const BOB: u64 = 11;
const DAY: u64 = 86400;
const T0: u64 = 1_700_000_000;

fn ledger() -> YieldToken {
    let meta = TokenMetadata { decimal: 6, name: "Coffee Yield Token".to_string(), symbol: "CYT".to_string() };
    let mut t = YieldToken::initialize(ADMIN, meta, T0);
    t.authorize_vault(ADMIN, USDC_VAULT).unwrap();
    t.authorize_vault(ADMIN, GOLD_VAULT).unwrap();
    t
}

fn usdc_vault() -> USDCVault {
    USDCVault::initialize(USDC_VAULT, ADMIN, USDC, LEDGER)
}

fn gold_vault() -> GoldVault {
    GoldVault::initialize(GOLD_VAULT, ADMIN, LEDGER, ORACLE, vec![PAXG, WTGOLD])
}

#[test]
fn unlock_times_and_rates_by_lock_period() {
    assert_eq!(USDCVault::calculate_unlock_time(T0, &LockPeriod::ThreeMonths), T0 + 90 * DAY);
    assert_eq!(USDCVault::calculate_unlock_time(T0, &LockPeriod::SixMonths), T0 + 180 * DAY);
    assert_eq!(GoldVault::calculate_unlock_time(T0, &LockPeriod::TwelveMonths), T0 + 365 * DAY);
    assert_eq!(USDCVault::calculate_yield_rate(LockPeriod::ThreeMonths), 500);
    assert_eq!(USDCVault::calculate_yield_rate(LockPeriod::SixMonths), 750);
    assert_eq!(GoldVault::calculate_yield_rate(LockPeriod::TwelveMonths), 1000);
}

#[test]
fn deposit_records_and_mints() {
    let mut t = ledger();
    let mut v = usdc_vault();
    assert_eq!(v.deposit(&mut t, ALICE, 1000, LockPeriod::SixMonths, T0), Ok(()));
    let info = v.get_deposit_info(ALICE).unwrap();
    assert_eq!(info.amount, 1000);
    assert_eq!(info.deposit_time, T0);
    assert_eq!(info.unlock_time, T0 + 180 * DAY);
    assert_eq!(info.lock_period, LockPeriod::SixMonths);
    assert_eq!(info.vault_type, VaultType::USDC);
    assert_eq!(v.get_lock_expiry(ALICE), Ok(T0 + 180 * DAY));
    assert_eq!(v.get_vault_balance(), 1000);
    assert_eq!(t.balance(ALICE), 1000);
    assert_eq!(t.get_user_interest_rate(ALICE), 750);
}

#[test]
fn deposit_refusals_change_nothing() {
    let mut t = ledger();
    let mut v = usdc_vault();
    assert_eq!(v.deposit(&mut t, ALICE, 0, LockPeriod::ThreeMonths, T0), Err(Error::InvalidAmount));
    assert_eq!(v.deposit(&mut t, ALICE, 1000, LockPeriod::ThreeMonths, T0), Ok(()));
    assert_eq!(v.deposit(&mut t, ALICE, 5, LockPeriod::ThreeMonths, T0 + 1), Err(Error::DepositExists));
    assert_eq!(v.deposit(&mut t, BOB, 5, LockPeriod::ThreeMonths, u64::MAX - 10), Err(Error::Overflow));
    assert_eq!(t.balance(ALICE), 1000);
    assert_eq!(v.get_vault_balance(), 1000);
    assert_eq!(v.get_lock_expiry(BOB), Err(Error::NoDeposit));
}

#[test]
fn deposit_fails_whole_when_the_ledger_refuses() {
    let mut t = ledger();
    let mut v = USDCVault::initialize(999, ADMIN, USDC, LEDGER);
    assert_eq!(v.deposit(&mut t, ALICE, 1000, LockPeriod::ThreeMonths, T0), Err(Error::NotAuthorizedVault));
    assert_eq!(v.get_deposit_info(ALICE), None);
    assert_eq!(v.get_vault_balance(), 0);
    assert_eq!(t.total_supply(), 0);
}

#[test]
fn withdraw_before_unlock_fails_then_succeeds_once() {
    let mut t = ledger();
    let mut v = usdc_vault();
    v.deposit(&mut t, ALICE, 1000, LockPeriod::ThreeMonths, T0).unwrap();
    assert_eq!(v.withdraw(&mut t, ALICE, T0), Err(Error::LockStillActive));
    assert_eq!(v.withdraw(&mut t, ALICE, T0 + 90 * DAY - 1), Err(Error::LockStillActive));
    assert!(v.get_deposit_info(ALICE).is_some());
    assert_eq!(v.withdraw(&mut t, ALICE, T0 + 90 * DAY), Ok(1000));
    assert_eq!(v.get_deposit_info(ALICE), None);
    assert_eq!(v.withdraw(&mut t, ALICE, T0 + 91 * DAY), Err(Error::NoDeposit));
    assert_eq!(t.balance(ALICE), 0);
    assert_eq!(t.total_supply(), 0);
}

#[test]
fn three_month_deposit_of_1000_after_90_days() {
    let mut t = ledger();
    let mut v = usdc_vault();
    v.deposit(&mut t, ALICE, 1000, LockPeriod::ThreeMonths, T0).unwrap();
    assert_eq!(v.withdraw(&mut t, ALICE, T0 + 90 * DAY), Ok(1000));
}

#[test]
fn three_month_deposit_of_a_billion_after_90_days() {
    let mut t = ledger();
    let mut v = usdc_vault();
    v.deposit(&mut t, ALICE, 1_000_000_000, LockPeriod::ThreeMonths, T0).unwrap();
    assert_eq!(v.withdraw(&mut t, ALICE, T0 + 90 * DAY), Ok(1_009_040_132));
    assert_eq!(t.balance(ALICE), 0);
    assert_eq!(v.get_vault_balance(), 0);
}

#[test]
fn withdraw_without_deposit_fails() {
    let mut t = ledger();
    let mut v = usdc_vault();
    assert_eq!(v.withdraw(&mut t, BOB, T0), Err(Error::NoDeposit));
}

#[test]
fn emergency_withdraw_keeps_ten_percent() {
    let mut t = ledger();
    let mut v = usdc_vault();
    v.deposit(&mut t, ALICE, 1000, LockPeriod::TwelveMonths, T0).unwrap();
    t.compound_interest(ALICE, T0 + 200 * DAY).unwrap();
    assert_eq!(v.emergency_withdraw(ADMIN, ALICE), Ok(900));
    assert_eq!(v.get_deposit_info(ALICE), None);
    assert_eq!(v.get_vault_balance(), 0);
}

#[test]
fn emergency_withdraw_is_admin_only() {
    let mut t = ledger();
    let mut v = usdc_vault();
    v.deposit(&mut t, ALICE, 1000, LockPeriod::ThreeMonths, T0).unwrap();
    assert_eq!(v.emergency_withdraw(ALICE, ALICE), Err(Error::NotAuthorized));
    assert_eq!(v.emergency_withdraw(ADMIN, BOB), Err(Error::NoDeposit));
    assert!(v.get_deposit_info(ALICE).is_some());
}

#[test]
fn emergency_penalty_truncates() {
    let mut t = ledger();
    let mut v = usdc_vault();
    v.deposit(&mut t, ALICE, 1005, LockPeriod::ThreeMonths, T0).unwrap();
    assert_eq!(v.emergency_withdraw(ADMIN, ALICE), Ok(905));
}

#[test]
fn gold_value_uses_fixed_price() {
    let v = gold_vault();
    assert_eq!(v.get_usd_value(PAXG, 1_000_000), 2_000_000_000);
    assert_eq!(v.get_usd_value(WTGOLD, 3), 6000);
}

#[test]
fn gold_asset_kinds() {
    let v = gold_vault();
    assert!(v.is_paxg_asset(PAXG));
    assert!(!v.is_paxg_asset(WTGOLD));
    assert_eq!(v.determine_vault_type(PAXG), VaultType::PAXG);
    assert_eq!(v.determine_vault_type(WTGOLD), VaultType::WisdomTreeGold);
    assert_eq!(v.verify_supported_asset(WTGOLD), Ok(()));
    assert_eq!(v.verify_supported_asset(USDC), Err(Error::UnsupportedAsset));
}

#[test]
fn gold_deposit_records_value_and_mints_it() {
    let mut t = ledger();
    let mut v = gold_vault();
    assert_eq!(v.deposit(&mut t, ALICE, WTGOLD, 1_000_000, LockPeriod::ThreeMonths, T0), Ok(()));
    let info = v.get_deposit_info(ALICE).unwrap();
    assert_eq!(info.amount, 2_000_000_000);
    assert_eq!(info.vault_type, VaultType::WisdomTreeGold);
    assert_eq!(v.get_lock_expiry(ALICE), Ok(T0 + 90 * DAY));
    assert_eq!(t.balance(ALICE), 2_000_000_000);
    assert_eq!(v.get_vault_balance(), 2_000_000_000);
}

#[test]
fn gold_deposit_refusals() {
    let mut t = ledger();
    let mut v = gold_vault();
    assert_eq!(v.deposit(&mut t, ALICE, PAXG, 0, LockPeriod::ThreeMonths, T0), Err(Error::InvalidAmount));
    assert_eq!(v.deposit(&mut t, ALICE, USDC, 5, LockPeriod::ThreeMonths, T0), Err(Error::UnsupportedAsset));
    assert_eq!(v.deposit(&mut t, ALICE, PAXG, u128::MAX, LockPeriod::ThreeMonths, T0), Err(Error::Overflow));
    assert_eq!(v.deposit(&mut t, ALICE, PAXG, 5, LockPeriod::ThreeMonths, T0), Ok(()));
    assert_eq!(v.deposit(&mut t, ALICE, PAXG, 5, LockPeriod::ThreeMonths, T0), Err(Error::DepositExists));
    assert_eq!(t.total_supply(), 10_000);
}

#[test]
fn gold_withdraw_returns_gold_worth_the_accrued_value() {
    let mut t = ledger();
    let mut v = gold_vault();
    v.deposit(&mut t, ALICE, PAXG, 1_000_000, LockPeriod::ThreeMonths, T0).unwrap();
    assert_eq!(v.withdraw(&mut t, ALICE, T0 + 90 * DAY - 1), Err(Error::LockStillActive));
    assert_eq!(v.withdraw(&mut t, ALICE, T0 + 90 * DAY), Ok(1_009_040));
    assert_eq!(v.get_deposit_info(ALICE), None);
    assert_eq!(t.balance(ALICE), 0);
    assert_eq!(v.withdraw(&mut t, ALICE, T0 + 90 * DAY), Err(Error::NoDeposit));
}

#[test]
fn gold_assets_added_by_admin_only() {
    let mut v = gold_vault();
    assert_eq!(v.add_supported_asset(ALICE, USDC), Err(Error::NotAuthorized));
    assert_eq!(v.verify_supported_asset(USDC), Err(Error::UnsupportedAsset));
    assert_eq!(v.add_supported_asset(ADMIN, USDC), Ok(()));
    assert_eq!(v.verify_supported_asset(USDC), Ok(()));
    assert_eq!(v.determine_vault_type(USDC), VaultType::WisdomTreeGold);
}
