use std::collections::HashMap;
use vstd::prelude::*;
use crate::types::{
    lock_seconds, yield_rate_for, Address, DepositInfo, Error, LockPeriod, VaultType,
};
use crate::usdc_vault::{new_deposit, saturating_sub};
use crate::yield_token::YieldToken;

verus! {

broadcast use vstd::std_specs::hash::group_hash_axioms;

/// Price of one unit of gold in the accounting unit, with six decimals
/// ($2000). A fixed price stands in for the oracle.
pub const GOLD_PRICE_USD: u128 = 2000_000000;

/// Scale of `GOLD_PRICE_USD`.
pub const PRICE_SCALE: u128 = 1_000_000;

/// Accounting-unit value of `amount` of gold.
pub open spec fn usd_value(amount: u128) -> int {
    amount * GOLD_PRICE_USD / PRICE_SCALE as int
}

/// Gold returned for a deposit of `gold` now worth `paid` in the accounting
/// unit: the deposited quantity scaled by `paid` over its value at today's
/// price, or the deposited quantity where that value is zero.
pub open spec fn gold_to_return(gold: u128, paid: u128) -> int {
    if usd_value(gold) > 0 {
        gold * paid / usd_value(gold)
    } else {
        gold as int
    }
}

/// A gold deposit: its record, valued in the accounting unit, and the gold
/// that was moved in.
#[derive(Clone, Copy, Debug, PartialEq, Eq, Structural)]
pub struct GoldDeposit {
    pub info: DepositInfo,
    pub gold_amount: u128,
    pub gold_asset: Address,
}

/// The vault for price-varying gold tokens. Deposits are valued in the
/// accounting unit at the current price, and that value is minted on the
/// ledger; the gold quantity is kept to be returned on withdrawal.
pub struct GoldVault {
    address: Address,
    admin: Address,
    yield_token_contract: Address,
    oracle_contract: Address,
    supported_assets: Vec<Address>,
    vault_balance: u128,
    deposits: HashMap<Address, GoldDeposit>,
}

impl GoldVault {
    pub closed spec fn address(&self) -> Address {
        self.address
    }

    pub closed spec fn admin(&self) -> Address {
        self.admin
    }

    pub closed spec fn ledger_address(&self) -> Address {
        self.yield_token_contract
    }

    pub closed spec fn oracle(&self) -> Address {
        self.oracle_contract
    }

    /// Supported gold tokens; the first is taken to be PAXG.
    pub closed spec fn supported(&self) -> Seq<Address> {
        self.supported_assets@
    }

    /// Value held, in the accounting unit, as recorded.
    pub closed spec fn balance(&self) -> u128 {
        self.vault_balance
    }

    pub closed spec fn deposits(&self) -> Map<Address, GoldDeposit> {
        self.deposits@
    }

    /// Every stored gold quantity can be valued without overflow.
    pub open spec fn wf(&self) -> bool {
        forall|u: Address|
            #[trigger] self.deposits().contains_key(u) ==> self.deposits()[u].gold_amount
                * GOLD_PRICE_USD <= u128::MAX
    }

    pub open spec fn same_config(&self, other: &Self) -> bool {
        &&& self.address() == other.address()
        &&& self.admin() == other.admin()
        &&& self.ledger_address() == other.ledger_address()
        &&& self.oracle() == other.oracle()
        &&& self.supported() == other.supported()
    }

    pub open spec fn kind_of(&self, asset: Address) -> VaultType {
        if self.supported().len() > 0 && self.supported()[0] == asset {
            VaultType::PAXG
        } else {
            VaultType::WisdomTreeGold
        }
    }

    /// Outcome of `deposit`.
    pub open spec fn deposit_outcome(
        &self,
        ledger: &YieldToken,
        user: Address,
        asset: Address,
        amount: u128,
        lock: LockPeriod,
        now: u64,
    ) -> Result<(), Error> {
        if amount == 0 {
            Err(Error::InvalidAmount)
        } else if !self.supported().contains(asset) {
            Err(Error::UnsupportedAsset)
        } else if now + lock_seconds(lock) > u64::MAX {
            Err(Error::Overflow)
        } else if self.deposits().contains_key(user) {
            Err(Error::DepositExists)
        } else if amount * GOLD_PRICE_USD > u128::MAX {
            Err(Error::Overflow)
        } else if self.balance() + usd_value(amount) > u128::MAX {
            Err(Error::Overflow)
        } else {
            ledger.mint_outcome(self.address(), usd_value(amount) as u128)
        }
    }

    /// Outcome of `withdraw`: the gold to return.
    pub open spec fn withdraw_outcome(&self, ledger: &YieldToken, user: Address, now: u64) -> Result<
        u128,
        Error,
    > {
        if !self.deposits().contains_key(user) {
            Err(Error::NoDeposit)
        } else if now < self.deposits()[user].info.unlock_time {
            Err(Error::LockStillActive)
        } else if !ledger.is_vault(self.address()) {
            Err(Error::NotAuthorizedVault)
        } else {
            match ledger.accrue_result(user, now) {
                Err(e) => Err(e),
                Ok(paid) => {
                    let gold = self.deposits()[user].gold_amount;
                    if usd_value(gold) > 0 && gold * paid > u128::MAX {
                        Err(Error::Overflow)
                    } else {
                        Ok(gold_to_return(gold, paid) as u128)
                    }
                },
            }
        }
    }

    pub fn initialize(
        address: Address,
        admin: Address,
        yield_token_contract: Address,
        oracle_contract: Address,
        supported_gold_assets: Vec<Address>,
    ) -> (r: Self)
        ensures
            r.wf(),
            r.address() == address,
            r.admin() == admin,
            r.ledger_address() == yield_token_contract,
            r.oracle() == oracle_contract,
            r.supported() == supported_gold_assets@,
            r.balance() == 0,
            r.deposits() == Map::<Address, GoldDeposit>::empty(),
    {
        GoldVault {
            address,
            admin,
            yield_token_contract,
            oracle_contract,
            supported_assets: supported_gold_assets,
            vault_balance: 0,
            deposits: HashMap::new(),
        }
    }

    /// Unlock time of a deposit made at `current_time`.
    pub fn calculate_unlock_time(current_time: u64, lock_period: &LockPeriod) -> (r: u64)
        requires
            current_time + lock_seconds(*lock_period) <= u64::MAX,
        ensures
            r == current_time + lock_seconds(*lock_period),
    {
        match lock_period {
            LockPeriod::ThreeMonths => current_time + (90 * 24 * 60 * 60),
            LockPeriod::SixMonths => current_time + (180 * 24 * 60 * 60),
            LockPeriod::TwelveMonths => current_time + (365 * 24 * 60 * 60),
        }
    }

    /// Annual rate, in basis points, of a deposit with this lock: 5%, 7.5% or 10%.
    pub fn calculate_yield_rate(lock_period: LockPeriod) -> (r: u128)
        ensures
            r == yield_rate_for(lock_period),
    {
        let base_rate: u128 = 500;
        match lock_period {
            LockPeriod::ThreeMonths => base_rate,
            LockPeriod::SixMonths => (base_rate * 15) / 10,
            LockPeriod::TwelveMonths => base_rate * 2,
        }
    }

    /// Accounting-unit value of `gold_amount` of `gold_asset`.
    pub fn get_usd_value(&self, gold_asset: Address, gold_amount: u128) -> (r: u128)
        requires
            gold_amount * GOLD_PRICE_USD <= u128::MAX,
        ensures
            r == usd_value(gold_amount),
    {
        (gold_amount * GOLD_PRICE_USD) / PRICE_SCALE
    }

    /// Whether `asset` is supported.
    pub fn verify_supported_asset(&self, asset: Address) -> (r: Result<(), Error>)
        ensures
            r == (if self.supported().contains(asset) {
                Ok(())
            } else {
                Err(Error::UnsupportedAsset)
            }),
    {
        let mut i: usize = 0;
        while i < self.supported_assets.len()
            invariant
                0 <= i <= self.supported_assets@.len(),
                forall|k: int| 0 <= k < i ==> self.supported_assets@[k] != asset,
            decreases self.supported_assets@.len() - i,
        {
            if self.supported_assets[i] == asset {
                return Ok(());
            }
            i = i + 1;
        }
        Err(Error::UnsupportedAsset)
    }

    /// Whether `asset` is PAXG: the first supported asset.
    pub fn is_paxg_asset(&self, asset: Address) -> (r: bool)
        ensures
            r == (self.supported().len() > 0 && self.supported()[0] == asset),
    {
        if self.supported_assets.len() > 0 {
            self.supported_assets[0] == asset
        } else {
            false
        }
    }

    pub fn determine_vault_type(&self, gold_asset: Address) -> (r: VaultType)
        ensures
            r == self.kind_of(gold_asset),
    {
        if self.is_paxg_asset(gold_asset) {
            VaultType::PAXG
        } else {
            VaultType::WisdomTreeGold
        }
    }

    /// Adds a supported gold token; administrator only.
    pub fn add_supported_asset(&mut self, admin: Address, new_asset: Address) -> (r: Result<(), Error>)
        requires
            old(self).wf(),
        ensures
            final(self).wf(),
            r == (if admin != old(self).admin() {
                Err(Error::NotAuthorized)
            } else {
                Ok(())
            }),
            r is Err ==> *final(self) == *old(self),
            r is Ok ==> {
                &&& final(self).supported() == old(self).supported().push(new_asset)
                &&& final(self).deposits() == old(self).deposits()
                &&& final(self).balance() == old(self).balance()
                &&& final(self).admin() == old(self).admin()
                &&& final(self).address() == old(self).address()
            },
    {
        if admin != self.admin {
            return Err(Error::NotAuthorized);
        }
        self.supported_assets.push(new_asset);
        Ok(())
    }

    /// Takes `amount` of a supported gold token into a locked deposit for
    /// `user`: its value at the current price is recorded and minted on the
    /// ledger at the lock's rate, and the quantity is kept for withdrawal.
    pub fn deposit(
        &mut self,
        ledger: &mut YieldToken,
        user: Address,
        gold_asset: Address,
        amount: u128,
        lock_period: LockPeriod,
        now: u64,
    ) -> (r: Result<(), Error>)
        requires
            old(self).wf(),
            old(ledger).wf(),
        ensures
            final(self).wf(),
            final(ledger).wf(),
            r == old(self).deposit_outcome(&*old(ledger), user, gold_asset, amount, lock_period, now),
            r is Err ==> *final(self) == *old(self) && *final(ledger) == *old(ledger),
            r is Ok ==> {
                let usd = usd_value(amount) as u128;
                &&& final(self).same_config(&*old(self))
                &&& final(self).deposits() == old(self).deposits().insert(
                    user,
                    GoldDeposit {
                        info: new_deposit(usd, now, lock_period, old(self).kind_of(gold_asset)),
                        gold_amount: amount,
                        gold_asset,
                    },
                )
                &&& final(self).balance() == old(self).balance() + usd
                &&& YieldToken::minted(
                    *old(ledger),
                    *final(ledger),
                    user,
                    usd,
                    yield_rate_for(lock_period) as u128,
                    now,
                )
            },
    {
        if amount == 0 {
            return Err(Error::InvalidAmount);
        }
        match self.verify_supported_asset(gold_asset) {
            Err(e) => {
                return Err(e);
            },
            Ok(()) => {},
        }
        let secs: u64 = match lock_period {
            LockPeriod::ThreeMonths => 90 * 24 * 60 * 60,
            LockPeriod::SixMonths => 180 * 24 * 60 * 60,
            LockPeriod::TwelveMonths => 365 * 24 * 60 * 60,
        };
        if now > u64::MAX - secs {
            return Err(Error::Overflow);
        }
        let unlock_time = Self::calculate_unlock_time(now, &lock_period);
        if self.deposits.contains_key(&user) {
            return Err(Error::DepositExists);
        }
        if amount > u128::MAX / GOLD_PRICE_USD {
            return Err(Error::Overflow);
        }
        let usd_value = self.get_usd_value(gold_asset, amount);
        if self.vault_balance > u128::MAX - usd_value {
            return Err(Error::Overflow);
        }
        let vault_type = self.determine_vault_type(gold_asset);
        let yield_rate = Self::calculate_yield_rate(lock_period);
        match ledger.mint_for_deposit(self.address, user, usd_value, vault_type, yield_rate, now) {
            Err(e) => {
                return Err(e);
            },
            Ok(()) => {},
        }
        self.vault_balance = self.vault_balance + usd_value;
        let record = GoldDeposit {
            info: DepositInfo {
                amount: usd_value,
                deposit_time: now,
                unlock_time,
                lock_period,
                vault_type,
            },
            gold_amount: amount,
            gold_asset,
        };
        self.deposits.insert(user, record);
        Ok(())
    }

    /// Ends `user`'s deposit once unlocked: accrues its yield on the ledger,
    /// burns the whole balance, and returns the gold quantity that balance is
    /// worth relative to the deposit's value at today's price.
    pub fn withdraw(&mut self, ledger: &mut YieldToken, user: Address, now: u64) -> (r: Result<
        u128,
        Error,
    >)
        requires
            old(self).wf(),
            old(ledger).wf(),
        ensures
            final(self).wf(),
            final(ledger).wf(),
            r == old(self).withdraw_outcome(&*old(ledger), user, now),
            r is Err ==> *final(self) == *old(self) && *final(ledger) == *old(ledger),
            r is Ok ==> {
                let paid = old(ledger).accrue_result(user, now)->Ok_0;
                &&& final(self).same_config(&*old(self))
                &&& final(self).deposits() == old(self).deposits().remove(user)
                &&& final(self).balance() == saturating_sub(old(self).balance(), paid as int)
                &&& exists|mid: YieldToken|
                    YieldToken::accrue_post(*old(ledger), mid, user, now, Ok(paid))
                        && #[trigger] YieldToken::debited(mid, *final(ledger), user, paid as int)
                &&& final(ledger).balance_of(user) == 0
            },
    {
        let record = match self.deposits.get(&user) {
            Some(d) => *d,
            None => {
                return Err(Error::NoDeposit);
            },
        };
        if now < record.info.unlock_time {
            return Err(Error::LockStillActive);
        }
        if !ledger.is_authorized_vault(self.address) {
            return Err(Error::NotAuthorizedVault);
        }
        let withdrawal_usd_value = match ledger.accrued_balance(user, now) {
            Ok(b) => b,
            Err(e) => {
                return Err(e);
            },
        };
        let original_gold_amount = record.gold_amount;
        let current_gold_usd_value = self.get_usd_value(record.gold_asset, original_gold_amount);
        let gold_amount_to_return = if current_gold_usd_value > 0 {
            match original_gold_amount.checked_mul(withdrawal_usd_value) {
                Some(v) => v / current_gold_usd_value,
                None => {
                    return Err(Error::Overflow);
                },
            }
        } else {
            original_gold_amount
        };
        let accrued = ledger.compound_interest(user, now);
        let ghost l1 = *ledger;
        proof {
            assert(accrued == Ok::<u128, Error>(withdrawal_usd_value));
        }
        let burned = ledger.burn_for_withdrawal(self.address, user, withdrawal_usd_value);
        proof {
            assert(burned is Ok);
            assert(YieldToken::debited(l1, *ledger, user, withdrawal_usd_value as int));
        }
        self.vault_balance = if self.vault_balance >= withdrawal_usd_value {
            self.vault_balance - withdrawal_usd_value
        } else {
            0
        };
        self.deposits.remove(&user);
        Ok(gold_amount_to_return)
    }

    pub fn get_deposit_info(&self, user: Address) -> (r: Option<DepositInfo>)
        ensures
            r == (if self.deposits().contains_key(user) {
                Some(self.deposits()[user].info)
            } else {
                None
            }),
    {
        match self.deposits.get(&user) {
            Some(d) => Some(d.info),
            None => None,
        }
    }

    /// The user's deposit record with the gold quantity and token behind it.
    pub fn get_gold_deposit(&self, user: Address) -> (r: Option<GoldDeposit>)
        ensures
            r == (if self.deposits().contains_key(user) {
                Some(self.deposits()[user])
            } else {
                None
            }),
    {
        match self.deposits.get(&user) {
            Some(d) => Some(*d),
            None => None,
        }
    }

    pub fn get_lock_expiry(&self, user: Address) -> (r: Result<u64, Error>)
        ensures
            r == (if self.deposits().contains_key(user) {
                Ok(self.deposits()[user].info.unlock_time)
            } else {
                Err(Error::NoDeposit)
            }),
    {
        match self.deposits.get(&user) {
            Some(d) => Ok(d.info.unlock_time),
            None => Err(Error::NoDeposit),
        }
    }

    pub fn get_vault_balance(&self) -> (r: u128)
        ensures
            r == self.balance(),
    {
        self.vault_balance
    }
}

/// Once unlocked, a gold withdrawal succeeds when the vault is authorized on
/// the ledger, accrual fits, and the gold quantity times the accrued value
/// fits a `u128`; after it the record is gone, so a second one fails.
pub proof fn lemma_gold_withdraw_once(
    v1: GoldVault,
    v2: GoldVault,
    ledger: YieldToken,
    user: Address,
    now: u64,
    later_ledger: YieldToken,
    later: u64,
)
    requires
        v1.deposits().contains_key(user),
        now >= v1.deposits()[user].info.unlock_time,
        ledger.is_vault(v1.address()),
        ledger.accrue_result(user, now) is Ok,
        v1.deposits()[user].gold_amount * ledger.accrue_result(user, now)->Ok_0 <= u128::MAX,
        v2.deposits() == v1.deposits().remove(user),
    ensures
        v1.withdraw_outcome(&ledger, user, now) is Ok,
        !v2.deposits().contains_key(user),
        v2.withdraw_outcome(&later_ledger, user, later) == Err::<u128, Error>(Error::NoDeposit),
{
}

} // verus!
