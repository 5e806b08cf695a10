use std::collections::HashMap;
use vstd::prelude::*;
use crate::book::Book;
use crate::types::{
    Address, CollateralInfo, CollateralStatus, Error, ProposalId, COLLATERAL_RATIO_BASIS_POINTS,
};

verus! {

broadcast use vstd::std_specs::hash::group_hash_axioms;

/// Collateral value a loan of `loan_amount` needs: 150% of it.
pub open spec fn required_collateral(loan_amount: u128) -> int {
    loan_amount * COLLATERAL_RATIO_BASIS_POINTS / 10000
}

pub open spec fn with_collateral_status(i: CollateralInfo, s: CollateralStatus) -> CollateralInfo {
    CollateralInfo { status: s, ..i }
}

pub open spec fn with_value(i: CollateralInfo, v: u128) -> CollateralInfo {
    CollateralInfo { estimated_value_usd: v, ..i }
}

/// A registered coffee batch: its collateral record and the batch details.
pub struct CoffeeAsset {
    pub info: CollateralInfo,
    pub batch_id: String,
    pub farm_location: String,
    pub harvest_date: String,
    pub issuer: Address,
}

/// Registry of coffee batches used as loan collateral.
pub struct CoffeeCollateral {
    address: Address,
    admin: Address,
    committee_contract: Address,
    valuation_oracle: Address,
    asset_counter: u64,
    assets: HashMap<Address, CoffeeAsset>,
    loan_collateral: Book<Address>,
}

impl CoffeeCollateral {
    /// The registry's own address, under which each new batch is filed.
    pub closed spec fn address(&self) -> Address {
        self.address
    }

    pub closed spec fn admin(&self) -> Address {
        self.admin
    }

    pub closed spec fn committee(&self) -> Address {
        self.committee_contract
    }

    pub closed spec fn oracle(&self) -> Address {
        self.valuation_oracle
    }

    /// Number of batches created.
    pub closed spec fn counter(&self) -> u64 {
        self.asset_counter
    }

    pub closed spec fn assets(&self) -> Map<Address, CoffeeAsset> {
        self.assets@
    }

    /// The collateral asset registered for each loan id.
    pub closed spec fn loans(&self) -> Map<Seq<u8>, Address> {
        self.loan_collateral@
    }

    pub closed spec fn wf(&self) -> bool {
        self.loan_collateral.wf()
    }

    pub open spec fn same_config(&self, other: &Self) -> bool {
        &&& self.address() == other.address()
        &&& self.admin() == other.admin()
        &&& self.committee() == other.committee()
        &&& self.oracle() == other.oracle()
    }

    /// `new` differs from `old` only in the collateral record of `asset`,
    /// which is now `info`.
    pub open spec fn info_replaced(old: Self, new: Self, asset: Address, info: CollateralInfo) -> bool {
        &&& new.same_config(&old)
        &&& new.counter() == old.counter()
        &&& new.loans() == old.loans()
        &&& new.assets().dom() == old.assets().dom()
        &&& new.assets()[asset].info == info
        &&& new.assets()[asset].batch_id == old.assets()[asset].batch_id
        &&& new.assets()[asset].farm_location == old.assets()[asset].farm_location
        &&& new.assets()[asset].harvest_date == old.assets()[asset].harvest_date
        &&& new.assets()[asset].issuer == old.assets()[asset].issuer
        &&& forall|a: Address| a != asset ==> #[trigger] new.assets()[a] == old.assets()[a]
    }

    pub fn initialize(
        address: Address,
        admin: Address,
        committee_contract: Address,
        valuation_oracle: Address,
    ) -> (r: Self)
        ensures
            r.wf(),
            r.address() == address,
            r.admin() == admin,
            r.committee() == committee_contract,
            r.oracle() == valuation_oracle,
            r.counter() == 0,
            r.assets() == Map::<Address, CoffeeAsset>::empty(),
            r.loans() == Map::<Seq<u8>, Address>::empty(),
    {
        CoffeeCollateral {
            address,
            admin,
            committee_contract,
            valuation_oracle,
            asset_counter: 0,
            assets: HashMap::new(),
            loan_collateral: Book::new(),
        }
    }

    /// Registers a coffee batch as an active collateral asset. The grade must
    /// lie in 1..=100, quantity and value must be positive. The batch is filed
    /// under the registry's own address, which is returned.
    pub fn create_coffee_asset(
        &mut self,
        issuer: Address,
        coffee_batch_id: String,
        quality_grade: u32,
        quantity_kg: u128,
        estimated_value_usd: u128,
        farm_location: String,
        harvest_date: String,
        now: u64,
    ) -> (r: Result<Address, Error>)
        requires
            old(self).wf(),
        ensures
            final(self).wf(),
            r == (if quality_grade == 0 || quality_grade > 100 {
                Err(Error::InvalidGrade)
            } else if quantity_kg == 0 || estimated_value_usd == 0 {
                Err(Error::InvalidAmount)
            } else if old(self).counter() == u64::MAX {
                Err(Error::Overflow)
            } else {
                Ok(old(self).address())
            }),
            r is Err ==> *final(self) == *old(self),
            r is Ok ==> {
                &&& final(self).same_config(&*old(self))
                &&& final(self).counter() == old(self).counter() + 1
                &&& final(self).loans() == old(self).loans()
                &&& final(self).assets() == old(self).assets().insert(
                    old(self).address(),
                    CoffeeAsset {
                        info: CollateralInfo {
                            asset_address: old(self).address(),
                            quality_grade,
                            quantity_kg,
                            estimated_value_usd,
                            creation_time: now,
                            status: CollateralStatus::Active,
                        },
                        batch_id: coffee_batch_id,
                        farm_location,
                        harvest_date,
                        issuer,
                    },
                )
            },
    {
        if quality_grade == 0 || quality_grade > 100 {
            return Err(Error::InvalidGrade);
        }
        if quantity_kg == 0 {
            return Err(Error::InvalidAmount);
        }
        if estimated_value_usd == 0 {
            return Err(Error::InvalidAmount);
        }
        if self.asset_counter == u64::MAX {
            return Err(Error::Overflow);
        }
        self.asset_counter = self.asset_counter + 1;
        let coffee_asset = self.address;
        let collateral_info = CollateralInfo {
            asset_address: coffee_asset,
            quality_grade,
            quantity_kg,
            estimated_value_usd,
            creation_time: now,
            status: CollateralStatus::Active,
        };
        let record = CoffeeAsset {
            info: collateral_info,
            batch_id: coffee_batch_id,
            farm_location,
            harvest_date,
            issuer,
        };
        self.assets.insert(coffee_asset, record);
        Ok(coffee_asset)
    }

    /// Replaces the collateral record of a registered asset.
    fn replace_info(&mut self, asset: Address, info: CollateralInfo)
        requires
            old(self).assets().contains_key(asset),
        ensures
            final(self).wf() == old(self).wf(),
            Self::info_replaced(*old(self), *final(self), asset, info),
    {
        match self.assets.remove(&asset) {
            Some(record) => {
                let updated = CoffeeAsset { info, ..record };
                self.assets.insert(asset, updated);
                proof {
                    assert(self.assets@.dom() =~= old(self).assets@.dom());
                }
            },
            None => {},
        }
    }

    /// The committee registers an active asset as a loan's collateral. Its
    /// value must cover 150% of the loan.
    pub fn register_collateral(
        &mut self,
        committee: Address,
        coffee_asset: Address,
        loan_id: ProposalId,
        loan_amount: u128,
    ) -> (r: Result<(), Error>)
        requires
            old(self).wf(),
        ensures
            final(self).wf(),
            r == (if committee != old(self).committee() {
                Err(Error::NotAuthorized)
            } else if !old(self).assets().contains_key(coffee_asset) {
                Err(Error::CollateralNotFound)
            } else if old(self).assets()[coffee_asset].info.status != CollateralStatus::Active {
                Err(Error::CollateralInactive)
            } else if loan_amount * COLLATERAL_RATIO_BASIS_POINTS > u128::MAX {
                Err(Error::Overflow)
            } else if old(self).assets()[coffee_asset].info.estimated_value_usd
                < required_collateral(loan_amount) {
                Err(Error::InsufficientCollateral)
            } else {
                Ok(())
            }),
            r is Err ==> *final(self) == *old(self),
            r is Ok ==> {
                &&& final(self).same_config(&*old(self))
                &&& final(self).counter() == old(self).counter()
                &&& final(self).assets() == old(self).assets()
                &&& final(self).loans() == old(self).loans().insert(loan_id@, coffee_asset)
            },
    {
        if committee != self.committee_contract {
            return Err(Error::NotAuthorized);
        }
        let info = match self.assets.get(&coffee_asset) {
            Some(a) => a.info,
            None => {
                return Err(Error::CollateralNotFound);
            },
        };
        if info.status != CollateralStatus::Active {
            return Err(Error::CollateralInactive);
        }
        if loan_amount > u128::MAX / COLLATERAL_RATIO_BASIS_POINTS {
            return Err(Error::Overflow);
        }
        let required_collateral_value = Self::calculate_required_collateral(loan_amount);
        if info.estimated_value_usd < required_collateral_value {
            return Err(Error::InsufficientCollateral);
        }
        self.loan_collateral.set(loan_id, coffee_asset);
        Ok(())
    }

    /// Whether the loan has registered collateral that is still active.
    pub fn verify_collateral(&self, loan_id: &ProposalId) -> (r: bool)
        requires
            self.wf(),
        ensures
            r == (self.loans().contains_key(loan_id@) && self.assets().contains_key(
                self.loans()[loan_id@],
            ) && self.assets()[self.loans()[loan_id@]].info.status == CollateralStatus::Active),
    {
        match self.loan_collateral.get(loan_id) {
            Some(asset) => match self.assets.get(asset) {
                Some(a) => a.info.status == CollateralStatus::Active,
                None => false,
            },
            None => false,
        }
    }

    /// The committee marks a defaulted loan's collateral as liquidated.
    pub fn liquidate_collateral(&mut self, committee: Address, loan_id: &ProposalId) -> (r: Result<
        (),
        Error,
    >)
        requires
            old(self).wf(),
        ensures
            final(self).wf(),
            r == (if committee != old(self).committee() {
                Err(Error::NotAuthorized)
            } else if !old(self).loans().contains_key(loan_id@) || !old(self).assets().contains_key(
                old(self).loans()[loan_id@],
            ) {
                Err(Error::CollateralNotFound)
            } else {
                Ok(())
            }),
            r is Err ==> *final(self) == *old(self),
            r is Ok ==> {
                let asset = old(self).loans()[loan_id@];
                Self::info_replaced(
                    *old(self),
                    *final(self),
                    asset,
                    with_collateral_status(
                        old(self).assets()[asset].info,
                        CollateralStatus::Liquidated,
                    ),
                )
            },
    {
        if committee != self.committee_contract {
            return Err(Error::NotAuthorized);
        }
        let coffee_asset = match self.loan_collateral.get(loan_id) {
            Some(a) => *a,
            None => {
                return Err(Error::CollateralNotFound);
            },
        };
        let mut info = match self.assets.get(&coffee_asset) {
            Some(a) => a.info,
            None => {
                return Err(Error::CollateralNotFound);
            },
        };
        info.status = CollateralStatus::Liquidated;
        self.replace_info(coffee_asset, info);
        Ok(())
    }

    /// The valuation oracle sets a new value for an asset.
    pub fn update_valuation(&mut self, oracle: Address, coffee_asset: Address, new_valuation: u128) -> (r:
        Result<(), Error>)
        requires
            old(self).wf(),
        ensures
            final(self).wf(),
            r == (if oracle != old(self).oracle() {
                Err(Error::NotAuthorized)
            } else if !old(self).assets().contains_key(coffee_asset) {
                Err(Error::CollateralNotFound)
            } else {
                Ok(())
            }),
            r is Err ==> *final(self) == *old(self),
            r is Ok ==> Self::info_replaced(
                *old(self),
                *final(self),
                coffee_asset,
                with_value(old(self).assets()[coffee_asset].info, new_valuation),
            ),
    {
        if oracle != self.valuation_oracle {
            return Err(Error::NotAuthorized);
        }
        let mut info = match self.assets.get(&coffee_asset) {
            Some(a) => a.info,
            None => {
                return Err(Error::CollateralNotFound);
            },
        };
        info.estimated_value_usd = new_valuation;
        self.replace_info(coffee_asset, info);
        Ok(())
    }

    /// The administrator marks an asset as expired.
    pub fn mark_expired(&mut self, admin: Address, coffee_asset: Address) -> (r: Result<(), Error>)
        requires
            old(self).wf(),
        ensures
            final(self).wf(),
            r == (if admin != old(self).admin() {
                Err(Error::NotAuthorized)
            } else if !old(self).assets().contains_key(coffee_asset) {
                Err(Error::CollateralNotFound)
            } else {
                Ok(())
            }),
            r is Err ==> *final(self) == *old(self),
            r is Ok ==> Self::info_replaced(
                *old(self),
                *final(self),
                coffee_asset,
                with_collateral_status(
                    old(self).assets()[coffee_asset].info,
                    CollateralStatus::Expired,
                ),
            ),
    {
        if admin != self.admin {
            return Err(Error::NotAuthorized);
        }
        let mut info = match self.assets.get(&coffee_asset) {
            Some(a) => a.info,
            None => {
                return Err(Error::CollateralNotFound);
            },
        };
        info.status = CollateralStatus::Expired;
        self.replace_info(coffee_asset, info);
        Ok(())
    }

    pub fn get_collateral_info(&self, coffee_asset: Address) -> (r: Option<CollateralInfo>)
        ensures
            r == (if self.assets().contains_key(coffee_asset) {
                Some(self.assets()[coffee_asset].info)
            } else {
                None
            }),
    {
        match self.assets.get(&coffee_asset) {
            Some(a) => Some(a.info),
            None => None,
        }
    }

    pub fn get_loan_collateral(&self, loan_id: &ProposalId) -> (r: Option<Address>)
        requires
            self.wf(),
        ensures
            r == (if self.loans().contains_key(loan_id@) {
                Some(self.loans()[loan_id@])
            } else {
                None
            }),
    {
        match self.loan_collateral.get(loan_id) {
            Some(a) => Some(*a),
            None => None,
        }
    }

    /// Batch id, farm location, harvest date and issuer of an asset.
    pub fn get_coffee_details(&self, coffee_asset: Address) -> (r: Result<
        (String, String, String, Address),
        Error,
    >)
        ensures
            !self.assets().contains_key(coffee_asset) ==> r == Err::<
                (String, String, String, Address),
                Error,
            >(Error::IssuerNotFound),
            self.assets().contains_key(coffee_asset) ==> (r matches Ok(d) && {
                let a = self.assets()[coffee_asset];
                &&& d.0 == a.batch_id
                &&& d.1 == a.farm_location
                &&& d.2 == a.harvest_date
                &&& d.3 == a.issuer
            }),
    {
        match self.assets.get(&coffee_asset) {
            Some(a) => Ok(
                (a.batch_id.clone(), a.farm_location.clone(), a.harvest_date.clone(), a.issuer),
            ),
            None => Err(Error::IssuerNotFound),
        }
    }

    /// Active collateral is not indexed, so no asset is listed.
    pub fn list_active_collateral(&self) -> (r: Vec<Address>)
        ensures
            r@ == Seq::<Address>::empty(),
    {
        Vec::new()
    }

    /// Collateral value required for a loan of `loan_amount`: 150% of it.
    pub fn calculate_required_collateral(loan_amount: u128) -> (r: u128)
        requires
            loan_amount * COLLATERAL_RATIO_BASIS_POINTS <= u128::MAX,
        ensures
            r == required_collateral(loan_amount),
    {
        (loan_amount * COLLATERAL_RATIO_BASIS_POINTS) / 10000
    }
}

} // verus!
