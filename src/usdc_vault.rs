use std::collections::HashMap;
use vstd::prelude::*;
use crate::types::{
    lock_seconds, yield_rate_for, Address, DepositInfo, Error, LockPeriod, VaultType,
};
use crate::yield_token::YieldToken;

verus! {

broadcast use vstd::std_specs::hash::group_hash_axioms;

/// Penalty on an emergency withdrawal, in basis points of the deposit.
pub const EMERGENCY_PENALTY_BASIS_POINTS: u128 = 1000;

/// The record a deposit of `amount` at `now` creates.
pub open spec fn new_deposit(amount: u128, now: u64, lock: LockPeriod, kind: VaultType) -> DepositInfo {
    DepositInfo {
        amount,
        deposit_time: now,
        unlock_time: (now + lock_seconds(lock)) as u64,
        lock_period: lock,
        vault_type: kind,
    }
}

/// What an emergency withdrawal of a deposit of `amount` pays out.
pub open spec fn after_penalty(amount: u128) -> int {
    amount - amount * EMERGENCY_PENALTY_BASIS_POINTS / 10000
}

/// `a - b`, or zero where `b` is larger.
pub open spec fn saturating_sub(a: u128, b: int) -> u128 {
    if a >= b {
        (a - b) as u128
    } else {
        0
    }
}

/// The stable-asset vault: one time-locked deposit per user, valued at face
/// value. The host moves the asset in before a deposit and out after a
/// withdrawal, by the amounts these methods record and return.
pub struct USDCVault {
    address: Address,
    admin: Address,
    usdc_contract: Address,
    yield_token_contract: Address,
    vault_balance: u128,
    deposits: HashMap<Address, DepositInfo>,
}

impl USDCVault {
    /// This vault's own address, the one the ledger knows it by.
    pub closed spec fn address(&self) -> Address {
        self.address
    }

    pub closed spec fn admin(&self) -> Address {
        self.admin
    }

    pub closed spec fn usdc(&self) -> Address {
        self.usdc_contract
    }

    pub closed spec fn ledger_address(&self) -> Address {
        self.yield_token_contract
    }

    /// Amount of the asset the vault holds, as recorded.
    pub closed spec fn balance(&self) -> u128 {
        self.vault_balance
    }

    /// The active deposit of each user.
    pub closed spec fn deposits(&self) -> Map<Address, DepositInfo> {
        self.deposits@
    }

    pub open spec fn same_config(&self, other: &Self) -> bool {
        &&& self.address() == other.address()
        &&& self.admin() == other.admin()
        &&& self.usdc() == other.usdc()
        &&& self.ledger_address() == other.ledger_address()
    }

    /// Outcome of `deposit`.
    pub open spec fn deposit_outcome(
        &self,
        ledger: &YieldToken,
        user: Address,
        amount: u128,
        lock: LockPeriod,
        now: u64,
    ) -> Result<(), Error> {
        if amount == 0 {
            Err(Error::InvalidAmount)
        } else if now + lock_seconds(lock) > u64::MAX {
            Err(Error::Overflow)
        } else if self.deposits().contains_key(user) {
            Err(Error::DepositExists)
        } else if self.balance() + amount > u128::MAX {
            Err(Error::Overflow)
        } else {
            ledger.mint_outcome(self.address(), amount)
        }
    }

    /// Outcome of `withdraw`.
    pub open spec fn withdraw_outcome(&self, ledger: &YieldToken, user: Address, now: u64) -> Result<
        u128,
        Error,
    > {
        if !self.deposits().contains_key(user) {
            Err(Error::NoDeposit)
        } else if now < self.deposits()[user].unlock_time {
            Err(Error::LockStillActive)
        } else if !ledger.is_vault(self.address()) {
            Err(Error::NotAuthorizedVault)
        } else {
            ledger.accrue_result(user, now)
        }
    }

    /// What a successful `deposit` did.
    pub open spec fn deposited(
        old_vault: Self,
        new_vault: Self,
        old_ledger: YieldToken,
        new_ledger: YieldToken,
        user: Address,
        amount: u128,
        lock: LockPeriod,
        now: u64,
    ) -> bool {
        &&& new_vault.same_config(&old_vault)
        &&& new_vault.deposits() == old_vault.deposits().insert(
            user,
            new_deposit(amount, now, lock, VaultType::USDC),
        )
        &&& new_vault.balance() == old_vault.balance() + amount
        &&& YieldToken::minted(
            old_ledger,
            new_ledger,
            user,
            amount,
            yield_rate_for(lock) as u128,
            now,
        )
    }

    /// What a successful `withdraw` paying `paid` did: the ledger accrued the
    /// user's yield, then burned the whole balance; the record is gone.
    pub open spec fn withdrawn(
        old_vault: Self,
        new_vault: Self,
        old_ledger: YieldToken,
        new_ledger: YieldToken,
        user: Address,
        now: u64,
        paid: u128,
    ) -> bool {
        &&& new_vault.same_config(&old_vault)
        &&& new_vault.deposits() == old_vault.deposits().remove(user)
        &&& new_vault.balance() == saturating_sub(old_vault.balance(), paid as int)
        &&& exists|mid: YieldToken|
            YieldToken::accrue_post(old_ledger, mid, user, now, Ok(paid))
                && #[trigger] YieldToken::debited(mid, new_ledger, user, paid as int)
        &&& new_ledger.balance_of(user) == 0
    }

    pub fn initialize(
        address: Address,
        admin: Address,
        usdc_contract: Address,
        yield_token_contract: Address,
    ) -> (r: Self)
        ensures
            r.address() == address,
            r.admin() == admin,
            r.usdc() == usdc_contract,
            r.ledger_address() == yield_token_contract,
            r.balance() == 0,
            r.deposits() == Map::<Address, DepositInfo>::empty(),
    {
        USDCVault {
            address,
            admin,
            usdc_contract,
            yield_token_contract,
            vault_balance: 0,
            deposits: HashMap::new(),
        }
    }

    /// Unlock time of a deposit made at `current_time`.
    pub fn calculate_unlock_time(current_time: u64, lock_period: &LockPeriod) -> (r: u64)
        requires
            current_time + lock_seconds(*lock_period) <= u64::MAX,
        ensures
            r == current_time + lock_seconds(*lock_period),
    {
        match lock_period {
            LockPeriod::ThreeMonths => current_time + (90 * 24 * 60 * 60),
            LockPeriod::SixMonths => current_time + (180 * 24 * 60 * 60),
            LockPeriod::TwelveMonths => current_time + (365 * 24 * 60 * 60),
        }
    }

    /// Annual rate, in basis points, of a deposit with this lock: 5%, 7.5% or 10%.
    pub fn calculate_yield_rate(lock_period: LockPeriod) -> (r: u128)
        ensures
            r == yield_rate_for(lock_period),
    {
        let base_rate: u128 = 500;
        match lock_period {
            LockPeriod::ThreeMonths => base_rate,
            LockPeriod::SixMonths => (base_rate * 15) / 10,
            LockPeriod::TwelveMonths => base_rate * 2,
        }
    }

    /// Records a locked deposit of `amount` for `user` and mints as much on
    /// the ledger at the lock's rate. Fails, changing nothing, on a zero
    /// amount, on an active deposit, or where the ledger refuses the mint.
    pub fn deposit(
        &mut self,
        ledger: &mut YieldToken,
        user: Address,
        amount: u128,
        lock_period: LockPeriod,
        now: u64,
    ) -> (r: Result<(), Error>)
        requires
            old(ledger).wf(),
        ensures
            final(ledger).wf(),
            r == old(self).deposit_outcome(&*old(ledger), user, amount, lock_period, now),
            r is Err ==> *final(self) == *old(self) && *final(ledger) == *old(ledger),
            r is Ok ==> Self::deposited(
                *old(self),
                *final(self),
                *old(ledger),
                *final(ledger),
                user,
                amount,
                lock_period,
                now,
            ),
    {
        if amount == 0 {
            return Err(Error::InvalidAmount);
        }
        let secs: u64 = match lock_period {
            LockPeriod::ThreeMonths => 90 * 24 * 60 * 60,
            LockPeriod::SixMonths => 180 * 24 * 60 * 60,
            LockPeriod::TwelveMonths => 365 * 24 * 60 * 60,
        };
        if now > u64::MAX - secs {
            return Err(Error::Overflow);
        }
        let unlock_time = Self::calculate_unlock_time(now, &lock_period);
        if self.deposits.contains_key(&user) {
            return Err(Error::DepositExists);
        }
        if self.vault_balance > u128::MAX - amount {
            return Err(Error::Overflow);
        }
        let yield_rate = Self::calculate_yield_rate(lock_period);
        match ledger.mint_for_deposit(self.address, user, amount, VaultType::USDC, yield_rate, now) {
            Err(e) => {
                return Err(e);
            },
            Ok(()) => {},
        }
        self.vault_balance = self.vault_balance + amount;
        let deposit_info = DepositInfo {
            amount,
            deposit_time: now,
            unlock_time,
            lock_period,
            vault_type: VaultType::USDC,
        };
        self.deposits.insert(user, deposit_info);
        Ok(())
    }

    /// Ends `user`'s deposit once unlocked: accrues its yield on the ledger,
    /// burns the whole balance and returns it, the amount to release.
    pub fn withdraw(&mut self, ledger: &mut YieldToken, user: Address, now: u64) -> (r: Result<
        u128,
        Error,
    >)
        requires
            old(ledger).wf(),
        ensures
            final(ledger).wf(),
            r == old(self).withdraw_outcome(&*old(ledger), user, now),
            r is Err ==> *final(self) == *old(self) && *final(ledger) == *old(ledger),
            r is Ok ==> Self::withdrawn(
                *old(self),
                *final(self),
                *old(ledger),
                *final(ledger),
                user,
                now,
                r->Ok_0,
            ),
    {
        let deposit_info = match self.deposits.get(&user) {
            Some(d) => *d,
            None => {
                return Err(Error::NoDeposit);
            },
        };
        if now < deposit_info.unlock_time {
            return Err(Error::LockStillActive);
        }
        if !ledger.is_authorized_vault(self.address) {
            return Err(Error::NotAuthorizedVault);
        }
        let withdrawal_amount = match ledger.compound_interest(user, now) {
            Ok(b) => b,
            Err(e) => {
                return Err(e);
            },
        };
        let ghost l1 = *ledger;
        let burned = ledger.burn_for_withdrawal(self.address, user, withdrawal_amount);
        proof {
            assert(burned is Ok);
            assert(YieldToken::debited(l1, *ledger, user, withdrawal_amount as int));
        }
        self.vault_balance = if self.vault_balance >= withdrawal_amount {
            self.vault_balance - withdrawal_amount
        } else {
            0
        };
        self.deposits.remove(&user);
        Ok(withdrawal_amount)
    }

    /// Ends `user`'s deposit at once, before or after its unlock; administrator
    /// only. Pays the recorded amount less a 10% penalty; the ledger balance
    /// and any yield on it are left behind.
    pub fn emergency_withdraw(&mut self, admin: Address, user: Address) -> (r: Result<u128, Error>)
        ensures
            r == (if admin != old(self).admin() {
                Err(Error::NotAuthorized)
            } else if !old(self).deposits().contains_key(user) {
                Err(Error::NoDeposit)
            } else {
                Ok(after_penalty(old(self).deposits()[user].amount) as u128)
            }),
            r is Err ==> *final(self) == *old(self),
            r is Ok ==> {
                &&& final(self).same_config(&*old(self))
                &&& final(self).deposits() == old(self).deposits().remove(user)
                &&& final(self).balance() == saturating_sub(
                    old(self).balance(),
                    old(self).deposits()[user].amount as int,
                )
            },
    {
        if admin != self.admin {
            return Err(Error::NotAuthorized);
        }
        let deposit_info = match self.deposits.get(&user) {
            Some(d) => *d,
            None => {
                return Err(Error::NoDeposit);
            },
        };
        let amount = deposit_info.amount;
        let penalty = amount / 10;
        proof {
            assert(amount * EMERGENCY_PENALTY_BASIS_POINTS / 10000 == amount / 10) by (nonlinear_arith);
        }
        let withdrawal_amount = amount - penalty;
        self.vault_balance = if self.vault_balance >= amount {
            self.vault_balance - amount
        } else {
            0
        };
        self.deposits.remove(&user);
        Ok(withdrawal_amount)
    }

    pub fn get_deposit_info(&self, user: Address) -> (r: Option<DepositInfo>)
        ensures
            r == (if self.deposits().contains_key(user) {
                Some(self.deposits()[user])
            } else {
                None
            }),
    {
        match self.deposits.get(&user) {
            Some(d) => Some(*d),
            None => None,
        }
    }

    pub fn get_lock_expiry(&self, user: Address) -> (r: Result<u64, Error>)
        ensures
            r == (if self.deposits().contains_key(user) {
                Ok(self.deposits()[user].unlock_time)
            } else {
                Err(Error::NoDeposit)
            }),
    {
        match self.deposits.get(&user) {
            Some(d) => Ok(d.unlock_time),
            None => Err(Error::NoDeposit),
        }
    }

    pub fn get_vault_balance(&self) -> (r: u128)
        ensures
            r == self.balance(),
    {
        self.vault_balance
    }
}

/// A withdrawal right after a deposit: before the unlock time it fails as
/// still locked; from the unlock time on it succeeds, unless accruing the
/// yield would overflow the ledger.
pub proof fn lemma_deposit_then_withdraw(
    v0: USDCVault,
    v1: USDCVault,
    l0: YieldToken,
    l1: YieldToken,
    user: Address,
    amount: u128,
    lock: LockPeriod,
    t_deposit: u64,
    t_withdraw: u64,
)
    requires
        l0.wf(),
        v0.deposit_outcome(&l0, user, amount, lock, t_deposit) is Ok,
        USDCVault::deposited(v0, v1, l0, l1, user, amount, lock, t_deposit),
    ensures
        t_withdraw < t_deposit + lock_seconds(lock) ==> v1.withdraw_outcome(&l1, user, t_withdraw)
            == Err::<u128, Error>(Error::LockStillActive),
        t_withdraw >= t_deposit + lock_seconds(lock) ==> {
            ||| v1.withdraw_outcome(&l1, user, t_withdraw) is Ok
            ||| v1.withdraw_outcome(&l1, user, t_withdraw) == Err::<u128, Error>(Error::Overflow)
        },
{
    assert(v1.deposits().contains_key(user));
    assert(v1.deposits()[user] == new_deposit(amount, t_deposit, lock, VaultType::USDC));
    assert(l1.vaults() == l0.vaults());
}

/// After a successful withdrawal the deposit record is gone: a second
/// withdrawal fails, at any time and against any ledger.
pub proof fn lemma_withdraw_only_once(
    v1: USDCVault,
    v2: USDCVault,
    l1: YieldToken,
    l2: YieldToken,
    user: Address,
    now: u64,
    paid: u128,
    later_ledger: YieldToken,
    later: u64,
)
    requires
        USDCVault::withdrawn(v1, v2, l1, l2, user, now, paid),
    ensures
        !v2.deposits().contains_key(user),
        v2.withdraw_outcome(&later_ledger, user, later) == Err::<u128, Error>(Error::NoDeposit),
{
}

} // verus!
