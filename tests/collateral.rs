use coffee_vaults::{CoffeeCollateral, CollateralStatus, Error};

const REGISTRY: u64 = 500;
const ADMIN: u64 = 1;
const COMMITTEE: u64 = 2;
const ORACLE: u64 = 3;
const ISSUER: u64 = 40;
const T0: u64 = 1_700_000_000;

fn registry() -> CoffeeCollateral {
    CoffeeCollateral::initialize(REGISTRY, ADMIN, COMMITTEE, ORACLE)
}

fn with_asset(value: u128) -> CoffeeCollateral {
    let mut r = registry();
    let asset = r
        .create_coffee_asset(ISSUER, "BATCH-1".to_string(), 85, 1200, value, "Huila".to_string(), "2024-11".to_string(), T0)
        .unwrap();
    assert_eq!(asset, REGISTRY);
    r
}

#[test]
fn asset_creation_validates_inputs() {
    let mut r = registry();
    let mk = |r: &mut CoffeeCollateral, g: u32, q: u128, v: u128| {
        r.create_coffee_asset(ISSUER, "B".to_string(), g, q, v, "F".to_string(), "H".to_string(), T0)
    };
    assert_eq!(mk(&mut r, 0, 10, 10), Err(Error::InvalidGrade));
    assert_eq!(mk(&mut r, 101, 10, 10), Err(Error::InvalidGrade));
    assert_eq!(mk(&mut r, 50, 0, 10), Err(Error::InvalidAmount));
    assert_eq!(mk(&mut r, 50, 10, 0), Err(Error::InvalidAmount));
    assert_eq!(r.get_collateral_info(REGISTRY), None);
    assert_eq!(mk(&mut r, 100, 10, 10), Ok(REGISTRY));
    assert_eq!(mk(&mut r, 1, 10, 10), Ok(REGISTRY));
}

#[test]
fn created_asset_is_active_with_details() {
    let r = with_asset(30_000);
    let info = r.get_collateral_info(REGISTRY).unwrap();
    assert_eq!(info.asset_address, REGISTRY);
    assert_eq!(info.quality_grade, 85);
    assert_eq!(info.quantity_kg, 1200);
    assert_eq!(info.estimated_value_usd, 30_000);
    assert_eq!(info.creation_time, T0);
    assert_eq!(info.status, CollateralStatus::Active);
    let (batch, farm, harvest, issuer) = r.get_coffee_details(REGISTRY).unwrap();
    assert_eq!(batch, "BATCH-1");
    assert_eq!(farm, "Huila");
    assert_eq!(harvest, "2024-11");
    assert_eq!(issuer, ISSUER);
    assert_eq!(r.get_coffee_details(9), Err(Error::IssuerNotFound));
}

#[test]
fn required_collateral_is_150_percent() {
    assert_eq!(CoffeeCollateral::calculate_required_collateral(1000), 1500);
    assert_eq!(CoffeeCollateral::calculate_required_collateral(3), 4);
    assert_eq!(CoffeeCollateral::calculate_required_collateral(0), 0);
}

#[test]
fn registration_checks_ratio_and_caller() {
    let mut r = with_asset(15_000);
    let loan = [7u8; 32];
    assert_eq!(r.register_collateral(ADMIN, REGISTRY, loan, 10_000), Err(Error::NotAuthorized));
    assert_eq!(r.register_collateral(COMMITTEE, 9, loan, 10_000), Err(Error::CollateralNotFound));
    assert_eq!(r.register_collateral(COMMITTEE, REGISTRY, loan, 10_001), Err(Error::InsufficientCollateral));
    assert_eq!(r.register_collateral(COMMITTEE, REGISTRY, loan, u128::MAX), Err(Error::Overflow));
    assert_eq!(r.get_loan_collateral(&loan), None);
    assert!(!r.verify_collateral(&loan));
    assert_eq!(r.register_collateral(COMMITTEE, REGISTRY, loan, 10_000), Ok(()));
    assert_eq!(r.get_loan_collateral(&loan), Some(REGISTRY));
    assert!(r.verify_collateral(&loan));
}

#[test]
fn liquidation_deactivates_collateral() {
    let mut r = with_asset(15_000);
    let loan = [7u8; 32];
    assert_eq!(r.liquidate_collateral(COMMITTEE, &loan), Err(Error::CollateralNotFound));
    r.register_collateral(COMMITTEE, REGISTRY, loan, 100).unwrap();
    assert_eq!(r.liquidate_collateral(ORACLE, &loan), Err(Error::NotAuthorized));
    assert_eq!(r.liquidate_collateral(COMMITTEE, &loan), Ok(()));
    assert_eq!(r.get_collateral_info(REGISTRY).unwrap().status, CollateralStatus::Liquidated);
    assert!(!r.verify_collateral(&loan));
    assert_eq!(r.register_collateral(COMMITTEE, REGISTRY, [8u8; 32], 100), Err(Error::CollateralInactive));
}

#[test]
fn valuation_updated_by_oracle_only() {
    let mut r = with_asset(15_000);
    assert_eq!(r.update_valuation(ADMIN, REGISTRY, 1), Err(Error::NotAuthorized));
    assert_eq!(r.update_valuation(ORACLE, 9, 1), Err(Error::CollateralNotFound));
    assert_eq!(r.update_valuation(ORACLE, REGISTRY, 45_000), Ok(()));
    assert_eq!(r.get_collateral_info(REGISTRY).unwrap().estimated_value_usd, 45_000);
    assert_eq!(r.get_coffee_details(REGISTRY).unwrap().0, "BATCH-1");
}

#[test]
fn expiry_marked_by_admin_only() {
    let mut r = with_asset(15_000);
    assert_eq!(r.mark_expired(COMMITTEE, REGISTRY), Err(Error::NotAuthorized));
    assert_eq!(r.mark_expired(ADMIN, 9), Err(Error::CollateralNotFound));
    assert_eq!(r.mark_expired(ADMIN, REGISTRY), Ok(()));
    assert_eq!(r.get_collateral_info(REGISTRY).unwrap().status, CollateralStatus::Expired);
}

#[test]
fn active_collateral_is_not_indexed() {
    let r = with_asset(15_000);
    assert!(r.list_active_collateral().is_empty());
}
