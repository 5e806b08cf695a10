use vstd::prelude::*;
use crate::types::{Address, Error, UserYieldInfo, VaultType, REBASE_INTERVAL};

verus! {

/// Name, symbol and decimal places of the yield token.
#[derive(Clone, Debug)]
pub struct TokenMetadata {
    pub decimal: u32,
    pub name: String,
    pub symbol: String,
}

/// One holder's yield state; `info.principal` is the holder's balance.
#[derive(Clone, Copy, Debug, PartialEq, Eq, Structural)]
pub struct Holding {
    pub holder: Address,
    pub info: UserYieldInfo,
}

/// Rate given to a holder that has never been minted to.
pub const DEFAULT_YIELD_RATE: u128 = 500;

/// Sum of the principals of all holdings.
pub open spec fn sum_principal(s: Seq<Holding>) -> int
    decreases s.len(),
{
    if s.len() == 0 {
        0
    } else {
        sum_principal(s.drop_last()) + s.last().info.principal
    }
}

/// The yield state recorded for `h`, if any.
pub open spec fn record_of(s: Seq<Holding>, h: Address) -> Option<UserYieldInfo>
    decreases s.len(),
{
    if s.len() == 0 {
        None
    } else if s.last().holder == h {
        Some(s.last().info)
    } else {
        record_of(s.drop_last(), h)
    }
}

pub open spec fn holders_unique(s: Seq<Holding>) -> bool {
    forall|i: int, j: int|
        0 <= i < s.len() && 0 <= j < s.len() && i != j ==> s[i].holder != s[j].holder
}

/// Balance of `h`: its principal, or zero when it holds nothing.
pub open spec fn balance_in(s: Seq<Holding>, h: Address) -> int {
    match record_of(s, h) {
        Some(i) => i.principal as int,
        None => 0,
    }
}

pub open spec fn with_principal(i: UserYieldInfo, p: int) -> UserYieldInfo {
    UserYieldInfo { principal: p as u128, ..i }
}

/// A holder's state right after a mint.
pub open spec fn fresh_info(principal: int, rate: u128, now: u64) -> UserYieldInfo {
    UserYieldInfo {
        principal: principal as u128,
        yield_rate: rate,
        last_compound_time: now,
        total_yield_earned: 0,
    }
}

/// A balance after one whole day at `daily` basis points, truncated.
pub open spec fn grow(r: nat, daily: nat) -> nat {
    r + r * daily / 10000
}

/// A balance after `days` whole days of daily compounding.
pub open spec fn compound(p: nat, daily: nat, days: nat) -> nat
    decreases days,
{
    if days == 0 {
        p
    } else {
        grow(compound(p, daily, (days - 1) as nat), daily)
    }
}

/// Whether every daily step of `compound`, product included, fits in a `u128`.
pub open spec fn compound_fits(p: nat, daily: nat, days: nat) -> bool
    decreases days,
{
    if days == 0 {
        p <= u128::MAX
    } else {
        let r = compound(p, daily, (days - 1) as nat);
        compound_fits(p, daily, (days - 1) as nat) && r * daily <= u128::MAX && grow(r, daily)
            <= u128::MAX
    }
}

/// What `calculate_compound_yield` returns.
pub open spec fn compound_yield(principal: u128, annual_rate: u128, time_elapsed: u64) -> Option<
    u128,
> {
    let daily = (annual_rate / 365) as nat;
    let days = (time_elapsed / 86400) as nat;
    if compound_fits(principal as nat, daily, days) {
        Some(compound(principal as nat, daily, days) as u128)
    } else {
        None
    }
}

/// A holder's state after accruing up to `now` (`now` past its last accrual),
/// or `None` where a value would not fit.
pub open spec fn accrued_info(i: UserYieldInfo, now: u64) -> Option<UserYieldInfo> {
    match compound_yield(i.principal, i.yield_rate, (now - i.last_compound_time) as u64) {
        None => None,
        Some(n) => if i.total_yield_earned + (n - i.principal) > u128::MAX {
            None
        } else {
            Some(
                UserYieldInfo {
                    principal: n,
                    yield_rate: i.yield_rate,
                    last_compound_time: now,
                    total_yield_earned: (i.total_yield_earned + (n - i.principal)) as u128,
                },
            )
        },
    }
}

proof fn lemma_record_none(s: Seq<Holding>, h: Address)
    ensures
        record_of(s, h) is None <==> (forall|i: int| 0 <= i < s.len() ==> s[i].holder != h),
    decreases s.len(),
{
    if s.len() > 0 {
        lemma_record_none(s.drop_last(), h);
        if record_of(s, h) is None {
            assert forall|i: int| 0 <= i < s.len() implies s[i].holder != h by {
                if i < s.len() - 1 {
                    assert(s[i] == s.drop_last()[i]);
                }
            }
        }
        if forall|i: int| 0 <= i < s.len() ==> s[i].holder != h {
            assert(s.last().holder != h);
            assert forall|i: int| 0 <= i < s.drop_last().len() implies s.drop_last()[i].holder
                != h by {
                assert(s.drop_last()[i] == s[i]);
            }
        }
    }
}

proof fn lemma_record_at(s: Seq<Holding>, i: int)
    requires
        holders_unique(s),
        0 <= i < s.len(),
    ensures
        record_of(s, s[i].holder) == Some(s[i].info),
    decreases s.len(),
{
    if i < s.len() - 1 {
        assert(s.last() == s[s.len() - 1]);
        assert(s[s.len() - 1].holder != s[i].holder);
        assert(s.drop_last()[i] == s[i]);
        lemma_record_at(s.drop_last(), i);
    }
}

proof fn lemma_record_update(s: Seq<Holding>, i: int, x: Holding, g: Address)
    requires
        holders_unique(s),
        0 <= i < s.len(),
        x.holder == s[i].holder,
    ensures
        holders_unique(s.update(i, x)),
        record_of(s.update(i, x), g) == if g == x.holder {
            Some(x.info)
        } else {
            record_of(s, g)
        },
    decreases s.len(),
{
    let u = s.update(i, x);
    assert(holders_unique(u)) by {
        assert forall|a: int, b: int|
            0 <= a < u.len() && 0 <= b < u.len() && a != b implies u[a].holder != u[b].holder by {
            assert(u[a].holder == s[a].holder);
            assert(u[b].holder == s[b].holder);
        }
    }
    if g == x.holder {
        lemma_record_at(u, i);
    } else if i == s.len() - 1 {
        assert(u.drop_last() =~= s.drop_last());
    } else {
        assert(u.drop_last() =~= s.drop_last().update(i, x));
        assert(u.last() == s.last());
        assert(holders_unique(s.drop_last()));
        lemma_record_update(s.drop_last(), i, x, g);
    }
}

proof fn lemma_record_push(s: Seq<Holding>, x: Holding, g: Address)
    ensures
        record_of(s.push(x), g) == if g == x.holder {
            Some(x.info)
        } else {
            record_of(s, g)
        },
{
    assert(s.push(x).drop_last() =~= s);
}

proof fn lemma_sum_update(s: Seq<Holding>, i: int, x: Holding)
    requires
        0 <= i < s.len(),
    ensures
        sum_principal(s.update(i, x)) == sum_principal(s) - s[i].info.principal
            + x.info.principal,
    decreases s.len(),
{
    let u = s.update(i, x);
    if i == s.len() - 1 {
        assert(u.drop_last() =~= s.drop_last());
    } else {
        assert(u.drop_last() =~= s.drop_last().update(i, x));
        lemma_sum_update(s.drop_last(), i, x);
    }
}

proof fn lemma_sum_push(s: Seq<Holding>, x: Holding)
    ensures
        sum_principal(s.push(x)) == sum_principal(s) + x.info.principal,
{
    assert(s.push(x).drop_last() =~= s);
}

proof fn lemma_sum_nonneg(s: Seq<Holding>)
    ensures
        sum_principal(s) >= 0,
    decreases s.len(),
{
    if s.len() > 0 {
        lemma_sum_nonneg(s.drop_last());
    }
}

proof fn lemma_sum_ge(s: Seq<Holding>, i: int, j: int)
    requires
        0 <= i < s.len(),
        0 <= j < s.len(),
    ensures
        sum_principal(s) >= s[i].info.principal,
        i != j ==> sum_principal(s) >= s[i].info.principal + s[j].info.principal,
    decreases s.len(),
{
    let n = s.len() - 1;
    lemma_sum_nonneg(s.drop_last());
    if i < n && j < n {
        assert(s.drop_last()[i] == s[i]);
        assert(s.drop_last()[j] == s[j]);
        lemma_sum_ge(s.drop_last(), i, j);
    } else if i < n {
        assert(s.drop_last()[i] == s[i]);
        lemma_sum_ge(s.drop_last(), i, i);
    } else if j < n {
        assert(s.drop_last()[j] == s[j]);
        lemma_sum_ge(s.drop_last(), j, j);
    }
}

/// With unique holders, a balance never exceeds the sum of all balances.
proof fn lemma_balance_le_sum(s: Seq<Holding>, h: Address)
    requires
        holders_unique(s),
    ensures
        0 <= balance_in(s, h) <= sum_principal(s),
{
    lemma_sum_nonneg(s);
    lemma_record_none(s, h);
    if record_of(s, h) is Some {
        let i = choose|i: int| 0 <= i < s.len() && s[i].holder == h;
        lemma_record_at(s, i);
        lemma_sum_ge(s, i, i);
    }
}

proof fn lemma_compound_fixed(p: nat, daily: nat, days: nat)
    requires
        p * daily < 10000,
        p <= u128::MAX,
    ensures
        compound(p, daily, days) == p,
        compound_fits(p, daily, days),
    decreases days,
{
    assert(p * daily / 10000 == 0) by (nonlinear_arith)
        requires
            p * daily < 10000,
    ;
    if days > 0 {
        lemma_compound_fixed(p, daily, (days - 1) as nat);
    }
}

proof fn lemma_fits_prefix(p: nat, daily: nat, m: nat, n: nat)
    requires
        m <= n,
        compound_fits(p, daily, n),
    ensures
        compound_fits(p, daily, m),
    decreases n,
{
    if m < n {
        lemma_fits_prefix(p, daily, m, (n - 1) as nat);
    }
}

/// Daily compounding of `principal` at `annual_rate` basis points over the
/// whole days in `time_elapsed` seconds: each day adds the balance times
/// `annual_rate / 365`, divided by 10000, both divisions truncating.
/// `None` where a step would not fit in a `u128`.
pub fn calculate_compound_yield(principal: u128, annual_rate: u128, time_elapsed: u64) -> (r:
    Option<u128>)
    ensures
        r == compound_yield(principal, annual_rate, time_elapsed),
{
    let days: u64 = time_elapsed / 86400;
    let daily_rate: u128 = annual_rate / 365;
    match principal.checked_mul(daily_rate) {
        Some(x) => {
            if x < 10000 {
                proof {
                    lemma_compound_fixed(principal as nat, daily_rate as nat, days as nat);
                }
                return Some(principal);
            }
        },
        None => {},
    }
    let mut result: u128 = principal;
    let mut i: u64 = 0;
    while i < days
        invariant
            i <= days,
            days == time_elapsed / 86400,
            daily_rate == annual_rate / 365,
            result as nat == compound(principal as nat, daily_rate as nat, i as nat),
            compound_fits(principal as nat, daily_rate as nat, i as nat),
        decreases days - i,
    {
        proof {
            assert(compound(principal as nat, daily_rate as nat, (i + 1) as nat) == grow(compound(principal as nat, daily_rate as nat, i as nat), daily_rate as nat));
        }
        let prod = match result.checked_mul(daily_rate) {
            Some(v) => v,
            None => {
                proof {
                    assert(!compound_fits(principal as nat, daily_rate as nat, (i + 1) as nat));
                    if compound_fits(principal as nat, daily_rate as nat, days as nat) {
                        lemma_fits_prefix(principal as nat, daily_rate as nat, (i + 1) as nat, days as nat);
                    }
                }
                return None;
            },
        };
        proof {
            assert(prod as nat == compound(principal as nat, daily_rate as nat, i as nat) * (daily_rate as nat));
        }
        let next = match result.checked_add(prod / 10000) {
            Some(v) => v,
            None => {
                proof {
                    assert(!compound_fits(principal as nat, daily_rate as nat, (i + 1) as nat));
                    if compound_fits(principal as nat, daily_rate as nat, days as nat) {
                        lemma_fits_prefix(principal as nat, daily_rate as nat, (i + 1) as nat, days as nat);
                    }
                }
                return None;
            },
        };
        result = next;
        i = i + 1;
    }
    Some(result)
}

/// The rebasing yield ledger.
pub struct YieldToken {
    admin: Address,
    metadata: TokenMetadata,
    vaults: Vec<Address>,
    holdings: Vec<Holding>,
    total_supply: u128,
    global_yield_rate: u128,
    last_rebase: u64,
}

impl YieldToken {
    pub closed spec fn holdings(&self) -> Seq<Holding> {
        self.holdings@
    }

    pub closed spec fn supply(&self) -> int {
        self.total_supply as int
    }

    pub closed spec fn admin(&self) -> Address {
        self.admin
    }

    /// The vault contracts allowed to mint and burn.
    pub closed spec fn vaults(&self) -> Seq<Address> {
        self.vaults@
    }

    pub closed spec fn global_rate(&self) -> u128 {
        self.global_yield_rate
    }

    pub closed spec fn last_rebase_time(&self) -> u64 {
        self.last_rebase
    }

    pub closed spec fn name_view(&self) -> Seq<char> {
        self.metadata.name@
    }

    pub closed spec fn symbol_view(&self) -> Seq<char> {
        self.metadata.symbol@
    }

    /// Holders are unique, and the total supply is the sum of all balances and
    /// fits an `i128`.
    pub open spec fn wf(&self) -> bool {
        &&& holders_unique(self.holdings())
        &&& self.supply() == sum_principal(self.holdings())
        &&& self.supply() <= i128::MAX
    }

    pub open spec fn balance_of(&self, h: Address) -> int {
        balance_in(self.holdings(), h)
    }

    pub open spec fn record(&self, h: Address) -> Option<UserYieldInfo> {
        record_of(self.holdings(), h)
    }

    pub open spec fn is_vault(&self, v: Address) -> bool {
        self.vaults().contains(v)
    }

    /// Everything but the holdings and the supply is the same.
    pub open spec fn same_config(&self, other: &Self) -> bool {
        &&& self.admin() == other.admin()
        &&& self.vaults() == other.vaults()
        &&& self.global_rate() == other.global_rate()
        &&& self.last_rebase_time() == other.last_rebase_time()
        &&& self.name_view() == other.name_view()
        &&& self.symbol_view() == other.symbol_view()
    }

    /// The records of all holders but `h` are the same.
    pub open spec fn others_same(&self, other: &Self, h: Address) -> bool {
        forall|g: Address|
            g != h ==> #[trigger] record_of(self.holdings(), g) == record_of(other.holdings(), g)
    }

    /// Outcome of `mint_for_deposit`.
    pub open spec fn mint_outcome(&self, vault: Address, amount: u128) -> Result<(), Error> {
        if !self.is_vault(vault) {
            Err(Error::NotAuthorizedVault)
        } else if amount == 0 {
            Err(Error::InvalidAmount)
        } else if self.supply() + amount > i128::MAX {
            Err(Error::Overflow)
        } else {
            Ok(())
        }
    }

    /// `new` is `old` after a mint of `amount` to `user` at `rate`: the user's
    /// balance grows by `amount`, its accrual restarts at `now`.
    pub open spec fn minted(old: Self, new: Self, user: Address, amount: u128, rate: u128, now: u64) -> bool {
        &&& new.same_config(&old)
        &&& new.supply() == old.supply() + amount
        &&& new.record(user) == Some(fresh_info(old.balance_of(user) + amount, rate, now))
        &&& new.others_same(&old, user)
    }

    /// `new` is `old` with `amount` taken from `user`'s balance and the supply.
    pub open spec fn debited(old: Self, new: Self, user: Address, amount: int) -> bool {
        &&& new.same_config(&old)
        &&& new.supply() == old.supply() - amount
        &&& new.record(user) == match old.record(user) {
            Some(i) => Some(with_principal(i, i.principal - amount)),
            None => None,
        }
        &&& new.others_same(&old, user)
    }

    /// What `compound_interest` returns.
    pub open spec fn accrue_result(&self, user: Address, now: u64) -> Result<u128, Error> {
        match self.record(user) {
            None => Ok(0),
            Some(i) => if now <= i.last_compound_time {
                Ok(i.principal)
            } else {
                match accrued_info(i, now) {
                    None => Err(Error::Overflow),
                    Some(j) => if self.supply() + j.principal - i.principal > i128::MAX {
                        Err(Error::Overflow)
                    } else {
                        Ok(j.principal)
                    },
                }
            },
        }
    }

    /// What `compound_interest` does on `old`, giving `new` and `r`.
    pub open spec fn accrue_post(old: Self, new: Self, user: Address, now: u64, r: Result<u128, Error>) -> bool {
        match old.record(user) {
            None => r == Ok::<u128, Error>(0) && new == old,
            Some(i) => if now <= i.last_compound_time {
                r == Ok::<u128, Error>(i.principal) && new == old
            } else {
                match accrued_info(i, now) {
                    None => r == Err::<u128, Error>(Error::Overflow) && new == old,
                    Some(j) => if old.supply() + j.principal - i.principal > i128::MAX {
                        r == Err::<u128, Error>(Error::Overflow) && new == old
                    } else {
                        &&& r == Ok::<u128, Error>(j.principal)
                        &&& new.same_config(&old)
                        &&& new.supply() == old.supply() + j.principal - i.principal
                        &&& new.record(user) == Some(j)
                        &&& new.others_same(&old, user)
                    }
                }
            },
        }
    }

    /// A ledger with no holders and the base rate of 5%.
    pub fn initialize(admin: Address, metadata: TokenMetadata, now: u64) -> (r: Self)
        ensures
            r.wf(),
            r.holdings() == Seq::<Holding>::empty(),
            r.supply() == 0,
            r.admin() == admin,
            r.vaults() == Seq::<Address>::empty(),
            r.global_rate() == 500,
            r.last_rebase_time() == now,
            r.name_view() == metadata.name@,
            r.symbol_view() == metadata.symbol@,
    {
        YieldToken {
            admin,
            metadata,
            vaults: Vec::new(),
            holdings: Vec::new(),
            total_supply: 0,
            global_yield_rate: 500,
            last_rebase: now,
        }
    }

    /// Allows `vault` to mint and burn; administrator only.
    pub fn authorize_vault(&mut self, caller: Address, vault: Address) -> (r: Result<(), Error>)
        requires
            old(self).wf(),
        ensures
            final(self).wf(),
            caller != old(self).admin() ==> r == Err::<(), Error>(Error::NotAuthorized)
                && *final(self) == *old(self),
            caller == old(self).admin() ==> {
                &&& (r is Ok)
                &&& final(self).vaults() == old(self).vaults().push(vault)
                &&& final(self).holdings() == old(self).holdings()
                &&& final(self).supply() == old(self).supply()
                &&& final(self).admin() == old(self).admin()
            },
    {
        if caller != self.admin {
            return Err(Error::NotAuthorized);
        }
        self.vaults.push(vault);
        Ok(())
    }

    /// Whether `vault` may mint and burn.
    pub fn is_authorized_vault(&self, vault: Address) -> (r: bool)
        ensures
            r == self.is_vault(vault),
    {
        let mut i: usize = 0;
        while i < self.vaults.len()
            invariant
                0 <= i <= self.vaults@.len(),
                forall|k: int| 0 <= k < i ==> self.vaults@[k] != vault,
            decreases self.vaults@.len() - i,
        {
            if self.vaults[i] == vault {
                return true;
            }
            i = i + 1;
        }
        false
    }

    fn find(&self, h: Address) -> (r: Option<usize>)
        ensures
            match r {
                Some(i) => i < self.holdings@.len() && self.holdings@[i as int].holder == h,
                None => forall|i: int| 0 <= i < self.holdings@.len() ==> self.holdings@[i].holder != h,
            },
    {
        let mut i: usize = 0;
        while i < self.holdings.len()
            invariant
                0 <= i <= self.holdings@.len(),
                forall|k: int| 0 <= k < i ==> self.holdings@[k].holder != h,
            decreases self.holdings@.len() - i,
        {
            if self.holdings[i].holder == h {
                return Some(i);
            }
            i = i + 1;
        }
        None
    }

    /// Writes `info` as `h`'s record, adding `h` if new; the supply is left as is.
    fn put(&mut self, h: Address, info: UserYieldInfo)
        requires
            holders_unique(old(self).holdings()),
        ensures
            holders_unique(final(self).holdings()),
            final(self).record(h) == Some(info),
            final(self).others_same(&*old(self), h),
            sum_principal(final(self).holdings()) == sum_principal(old(self).holdings())
                - old(self).balance_of(h) + info.principal,
            final(self).same_config(&*old(self)),
            final(self).total_supply == old(self).total_supply,
    {
        let x = Holding { holder: h, info };
        match self.find(h) {
            Some(i) => {
                proof {
                    lemma_record_at(self.holdings@, i as int);
                    lemma_sum_update(self.holdings@, i as int, x);
                    assert forall|g: Address| true implies record_of(
                        self.holdings@.update(i as int, x),
                        g,
                    ) == (if g == h {
                        Some(info)
                    } else {
                        record_of(self.holdings@, g)
                    }) by {
                        lemma_record_update(self.holdings@, i as int, x, g);
                    }
                    lemma_record_update(self.holdings@, i as int, x, h);
                }
                self.holdings.set(i, x);
            },
            None => {
                proof {
                    lemma_record_none(self.holdings@, h);
                    lemma_sum_push(self.holdings@, x);
                    assert forall|g: Address| true implies record_of(self.holdings@.push(x), g) == (
                    if g == h {
                        Some(info)
                    } else {
                        record_of(self.holdings@, g)
                    }) by {
                        lemma_record_push(self.holdings@, x, g);
                    }
                    assert(holders_unique(self.holdings@.push(x))) by {
                        let s = self.holdings@.push(x);
                        assert forall|a: int, b: int|
                            0 <= a < s.len() && 0 <= b < s.len() && a != b implies s[a].holder
                            != s[b].holder by {
                            if a < s.len() - 1 {
                                assert(s[a] == self.holdings@[a]);
                            }
                            if b < s.len() - 1 {
                                assert(s[b] == self.holdings@[b]);
                            }
                        }
                    }
                }
                self.holdings.push(x);
            },
        }
    }

    /// Balance of `id`, zero for an unknown holder.
    pub fn balance(&self, id: Address) -> (r: i128)
        requires
            self.wf(),
        ensures
            r as int == self.balance_of(id),
    {
        proof {
            lemma_balance_le_sum(self.holdings@, id);
        }
        match self.find(id) {
            Some(i) => {
                proof {
                    lemma_record_at(self.holdings@, i as int);
                }
                self.holdings[i].info.principal as i128
            },
            None => {
                proof {
                    lemma_record_none(self.holdings@, id);
                }
                0
            },
        }
    }

    fn balance_u128(&self, id: Address) -> (r: u128)
        requires
            self.wf(),
        ensures
            r as int == self.balance_of(id),
            r <= i128::MAX,
    {
        proof {
            lemma_balance_le_sum(self.holdings@, id);
        }
        let b = self.balance(id);
        b as u128
    }

    /// Total supply: the sum of all balances.
    pub fn total_supply(&self) -> (r: i128)
        requires
            self.wf(),
        ensures
            r as int == self.supply(),
            r as int == sum_principal(self.holdings()),
    {
        self.total_supply as i128
    }

    /// The holder's yield state, or the state of a holder that has none.
    pub fn get_user_yield_info(&self, user: Address, now: u64) -> (r: UserYieldInfo)
        requires
            self.wf(),
        ensures
            r == match self.record(user) {
                Some(i) => i,
                None => fresh_info(0, DEFAULT_YIELD_RATE, now),
            },
    {
        match self.find(user) {
            Some(i) => {
                proof {
                    lemma_record_at(self.holdings@, i as int);
                }
                self.holdings[i].info
            },
            None => {
                proof {
                    lemma_record_none(self.holdings@, user);
                }
                UserYieldInfo {
                    principal: 0,
                    yield_rate: DEFAULT_YIELD_RATE,
                    last_compound_time: now,
                    total_yield_earned: 0,
                }
            },
        }
    }

    /// The holder's annual rate in basis points.
    pub fn get_user_interest_rate(&self, user: Address) -> (r: u128)
        requires
            self.wf(),
        ensures
            r == match self.record(user) {
                Some(i) => i.yield_rate,
                None => DEFAULT_YIELD_RATE,
            },
    {
        let info = self.get_user_yield_info(user, 0);
        info.yield_rate
    }

    pub fn get_global_yield_rate(&self) -> (r: u128)
        ensures
            r == self.global_rate(),
    {
        self.global_yield_rate
    }

    /// Sets the global rate.
    pub fn update_global_yield_rate(&mut self, caller: Address, new_rate: u128)
        requires
            old(self).wf(),
        ensures
            final(self).wf(),
            final(self).global_rate() == new_rate,
            final(self).holdings() == old(self).holdings(),
            final(self).supply() == old(self).supply(),
            final(self).admin() == old(self).admin(),
            final(self).vaults() == old(self).vaults(),
    {
        self.global_yield_rate = new_rate;
    }

    /// Mints `amount` to `user` for a vault deposit. The user's balance grows
    /// by `amount`, its rate becomes `yield_rate` and its accrual restarts at
    /// `now` with no yield earned: any earlier unaccrued yield is dropped.
    pub fn mint_for_deposit(
        &mut self,
        vault_contract: Address,
        user: Address,
        amount: u128,
        vault_type: VaultType,
        yield_rate: u128,
        now: u64,
    ) -> (r: Result<(), Error>)
        requires
            old(self).wf(),
        ensures
            final(self).wf(),
            final(self).supply() == sum_principal(final(self).holdings()),
            r == old(self).mint_outcome(vault_contract, amount),
            r is Err ==> *final(self) == *old(self),
            r is Ok ==> Self::minted(*old(self), *final(self), user, amount, yield_rate, now),
    {
        if !self.is_authorized_vault(vault_contract) {
            return Err(Error::NotAuthorizedVault);
        }
        if amount == 0 {
            return Err(Error::InvalidAmount);
        }
        if amount > (i128::MAX as u128) || self.total_supply > (i128::MAX as u128) - amount {
            return Err(Error::Overflow);
        }
        let current_balance = self.balance_u128(user);
        proof {
            lemma_balance_le_sum(self.holdings@, user);
        }
        let new_balance = current_balance + amount;
        let info = UserYieldInfo {
            principal: new_balance,
            yield_rate,
            last_compound_time: now,
            total_yield_earned: 0,
        };
        self.put(user, info);
        self.total_supply = self.total_supply + amount;
        Ok(())
    }

    /// Outcome of `burn_for_withdrawal`.
    pub open spec fn burn_outcome(&self, vault: Address, amount: u128) -> Result<(), Error> {
        if !self.is_vault(vault) {
            Err(Error::NotAuthorizedVault)
        } else {
            Ok(())
        }
    }

    /// Takes `amount` from `user` and the supply; the amount must be covered.
    fn debit(&mut self, user: Address, amount: u128)
        requires
            old(self).wf(),
            amount <= old(self).balance_of(user),
        ensures
            final(self).wf(),
            Self::debited(*old(self), *final(self), user, amount as int),
    {
        proof {
            lemma_balance_le_sum(self.holdings@, user);
        }
        match self.find(user) {
            Some(i) => {
                proof {
                    lemma_record_at(self.holdings@, i as int);
                }
                let mut info = self.holdings[i].info;
                proof {
                    assert(self.balance_of(user) == info.principal);
                }
                info.principal = info.principal - amount;
                self.put(user, info);
                proof {
                    assert(sum_principal(self.holdings@) == old(self).total_supply - amount);
                }
                self.total_supply = self.total_supply - amount;
            },
            None => {
                proof {
                    lemma_record_none(self.holdings@, user);
                }
            },
        }
    }

    /// Burns `amount` of `user`'s balance for a vault withdrawal.
    pub fn burn_for_withdrawal(&mut self, vault_contract: Address, user: Address, amount: u128) -> (r:
        Result<(), Error>)
        requires
            old(self).wf(),
        ensures
            final(self).wf(),
            final(self).supply() == sum_principal(final(self).holdings()),
            r == (if !old(self).is_vault(vault_contract) {
                Err(Error::NotAuthorizedVault)
            } else if old(self).balance_of(user) < amount {
                Err(Error::InsufficientBalance)
            } else {
                Ok(())
            }),
            r is Err ==> *final(self) == *old(self),
            r is Ok ==> Self::debited(*old(self), *final(self), user, amount as int),
    {
        if !self.is_authorized_vault(vault_contract) {
            return Err(Error::NotAuthorizedVault);
        }
        let current_balance = self.balance_u128(user);
        if current_balance < amount {
            return Err(Error::InsufficientBalance);
        }
        self.debit(user, amount);
        Ok(())
    }

    /// The holder's state after accrual up to `now`: `Ok(None)` where nothing
    /// changes, `Ok(Some((i, info)))` for the new state at index `i`.
    fn plan_accrual(&self, user: Address, now: u64) -> (r: Result<Option<(usize, UserYieldInfo)>, Error>)
        requires
            self.wf(),
        ensures
            match self.record(user) {
                None => r == Ok::<Option<(usize, UserYieldInfo)>, Error>(None),
                Some(i) => if now <= i.last_compound_time {
                    r == Ok::<Option<(usize, UserYieldInfo)>, Error>(None)
                } else {
                    match accrued_info(i, now) {
                        None => r == Err::<Option<(usize, UserYieldInfo)>, Error>(Error::Overflow),
                        Some(j) => if self.supply() + j.principal - i.principal > i128::MAX {
                            r == Err::<Option<(usize, UserYieldInfo)>, Error>(Error::Overflow)
                        } else {
                            &&& (r is Ok)
                            &&& (r->Ok_0 is Some)
                            &&& r->Ok_0->Some_0.1 == j
                            &&& r->Ok_0->Some_0.0 < self.holdings().len()
                            &&& self.holdings()[r->Ok_0->Some_0.0 as int].holder == user
                        }
                    }
                },
            },
    {
        let k = match self.find(user) {
            Some(k) => k,
            None => {
                proof {
                    lemma_record_none(self.holdings@, user);
                }
                return Ok(None);
            },
        };
        proof {
            lemma_record_at(self.holdings@, k as int);
            lemma_sum_ge(self.holdings@, k as int, k as int);
        }
        let info = self.holdings[k].info;
        if now <= info.last_compound_time {
            return Ok(None);
        }
        let elapsed = now - info.last_compound_time;
        let grown = match calculate_compound_yield(info.principal, info.yield_rate, elapsed) {
            Some(v) => v,
            None => {
                return Err(Error::Overflow);
            },
        };
        proof {
            let daily = (info.yield_rate / 365) as nat;
            let days = (elapsed / 86400) as nat;
            lemma_compound_ge(info.principal as nat, daily, days);
        }
        let gained = grown - info.principal;
        if info.total_yield_earned > u128::MAX - gained {
            return Err(Error::Overflow);
        }
        if grown - info.principal > (i128::MAX as u128) - self.total_supply {
            return Err(Error::Overflow);
        }
        let next = UserYieldInfo {
            principal: grown,
            yield_rate: info.yield_rate,
            last_compound_time: now,
            total_yield_earned: info.total_yield_earned + gained,
        };
        Ok(Some((k, next)))
    }

    /// The balance `compound_interest` would leave, without changing anything.
    pub fn accrued_balance(&self, user: Address, now: u64) -> (r: Result<u128, Error>)
        requires
            self.wf(),
        ensures
            r == self.accrue_result(user, now),
    {
        match self.plan_accrual(user, now) {
            Err(e) => Err(e),
            Ok(Some((_, next))) => Ok(next.principal),
            Ok(None) => {
                let b = self.balance_u128(user);
                Ok(b)
            },
        }
    }

    /// Accrues the holder's yield up to `now`: over each whole day elapsed
    /// since the last accrual, the balance grows by `balance * (rate / 365) /
    /// 10000`; the growth is added to the holder's earned yield and to the
    /// supply, and the accrual time moves to `now`. Nothing changes where `now`
    /// is not past the last accrual. Returns the holder's balance.
    pub fn compound_interest(&mut self, user: Address, now: u64) -> (r: Result<u128, Error>)
        requires
            old(self).wf(),
        ensures
            final(self).wf(),
            r == old(self).accrue_result(user, now),
            Self::accrue_post(*old(self), *final(self), user, now, r),
    {
        match self.plan_accrual(user, now) {
            Err(e) => Err(e),
            Ok(None) => {
                proof {
                    lemma_balance_le_sum(self.holdings@, user);
                }
                let b = self.balance_u128(user);
                Ok(b)
            },
            Ok(Some((k, next))) => {
                proof {
                    lemma_record_at(self.holdings@, k as int);
                    lemma_sum_ge(self.holdings@, k as int, k as int);
                    let i = self.holdings@[k as int].info;
                    lemma_compound_ge(
                        i.principal as nat,
                        (i.yield_rate / 365) as nat,
                        ((now - i.last_compound_time) as u64 / 86400) as nat,
                    );
                }
                let old_principal = self.holdings[k].info.principal;
                self.put(user, next);
                self.total_supply = self.total_supply + (next.principal - old_principal);
                Ok(next.principal)
            },
        }
    }

    /// Time of the last rebase.
    pub fn get_last_rebase(&self) -> (r: u64)
        ensures
            r == self.last_rebase_time(),
    {
        self.last_rebase
    }

    /// Marks a rebase when a whole interval has passed since the last one.
    pub fn rebase(&mut self, now: u64)
        requires
            old(self).wf(),
        ensures
            final(self).wf(),
            final(self).last_rebase_time() == if now >= old(self).last_rebase_time()
                + REBASE_INTERVAL {
                now
            } else {
                old(self).last_rebase_time()
            },
            final(self).holdings() == old(self).holdings(),
            final(self).supply() == old(self).supply(),
            final(self).vaults() == old(self).vaults(),
            final(self).admin() == old(self).admin(),
    {
        if now >= self.last_rebase && now - self.last_rebase >= REBASE_INTERVAL {
            self.last_rebase = now;
        }
    }

    /// Delegated spending is not offered: always zero.
    pub fn allowance(&self, from: Address, spender: Address) -> (r: i128)
        ensures
            r == 0,
    {
        0
    }

    /// Delegated spending is not offered.
    pub fn approve(&mut self, from: Address, spender: Address, amount: i128, expiration_ledger: u32) -> (r: Result<(), Error>)
        ensures
            r == Err::<(), Error>(Error::Unsupported),
            *final(self) == *old(self),
    {
        Err(Error::Unsupported)
    }

    /// Delegated spending is not offered.
    pub fn transfer_from(&mut self, spender: Address, from: Address, to: Address, amount: i128) -> (r: Result<(), Error>)
        ensures
            r == Err::<(), Error>(Error::Unsupported),
            *final(self) == *old(self),
    {
        Err(Error::Unsupported)
    }

    /// Delegated spending is not offered.
    pub fn burn_from(&mut self, spender: Address, from: Address, amount: i128) -> (r: Result<(), Error>)
        ensures
            r == Err::<(), Error>(Error::Unsupported),
            *final(self) == *old(self),
    {
        Err(Error::Unsupported)
    }

    /// Moves `amount` from `from` to `to`. A recipient without a record starts
    /// at the base rate with its accrual time at `now`. Moving to oneself
    /// changes nothing.
    pub fn transfer(&mut self, from: Address, to: Address, amount: i128, now: u64) -> (r: Result<(), Error>)
        requires
            old(self).wf(),
        ensures
            final(self).wf(),
            r == (if amount < 0 {
                Err(Error::InvalidAmount)
            } else if old(self).balance_of(from) < amount {
                Err(Error::InsufficientBalance)
            } else {
                Ok(())
            }),
            r is Err || from == to ==> *final(self) == *old(self),
            r is Ok && from != to ==> {
                &&& final(self).same_config(&*old(self))
                &&& final(self).supply() == old(self).supply()
                &&& final(self).record(from) == match old(self).record(from) {
                    Some(i) => Some(with_principal(i, i.principal - amount)),
                    None => None,
                }
                &&& final(self).record(to) == match old(self).record(to) {
                    Some(i) => Some(with_principal(i, i.principal + amount)),
                    None => Some(fresh_info(amount as int, DEFAULT_YIELD_RATE, now)),
                }
                &&& forall|g: Address|
                    g != from && g != to ==> #[trigger] final(self).record(g) == old(self).record(g)
            },
    {
        if amount < 0 {
            return Err(Error::InvalidAmount);
        }
        let amount = amount as u128;
        let from_balance = self.balance_u128(from);
        if from_balance < amount {
            return Err(Error::InsufficientBalance);
        }
        if from == to {
            return Ok(());
        }
        let ghost s0 = *self;
        proof {
            lemma_record_none(self.holdings@, to);
            lemma_record_none(self.holdings@, from);
            if record_of(self.holdings@, to) is Some && amount > 0 {
                let i = choose|i: int| 0 <= i < self.holdings@.len() && self.holdings@[i].holder == from;
                let j = choose|j: int| 0 <= j < self.holdings@.len() && self.holdings@[j].holder == to;
                lemma_record_at(self.holdings@, i);
                lemma_record_at(self.holdings@, j);
                lemma_sum_ge(self.holdings@, i, j);
            }
        }
        let to_info = self.get_user_yield_info(to, now);
        self.debit(from, amount);
        let ghost s1 = *self;
        proof {
            assert(self.record(to) == s0.record(to));
            lemma_balance_le_sum(s0.holdings@, to);
            lemma_balance_le_sum(s0.holdings@, from);
        }
        let mut credited = to_info;
        credited.principal = to_info.principal + amount;
        self.put(to, credited);
        self.total_supply = self.total_supply + amount;
        proof {
            assert forall|g: Address| g != from && g != to implies #[trigger] self.record(g) == s0.record(g) by {
                assert(self.record(g) == s1.record(g));
            }
            assert(self.record(from) == s1.record(from));
        }
        Ok(())
    }

    /// Burns `amount` of the holder's own balance.
    pub fn burn(&mut self, from: Address, amount: i128) -> (r: Result<(), Error>)
        requires
            old(self).wf(),
        ensures
            final(self).wf(),
            r == (if amount < 0 {
                Err(Error::InvalidAmount)
            } else if old(self).balance_of(from) < amount {
                Err(Error::InsufficientBalance)
            } else {
                Ok(())
            }),
            r is Err ==> *final(self) == *old(self),
            r is Ok ==> Self::debited(*old(self), *final(self), from, amount as int),
    {
        if amount < 0 {
            return Err(Error::InvalidAmount);
        }
        let amount = amount as u128;
        let balance = self.balance_u128(from);
        if balance < amount {
            return Err(Error::InsufficientBalance);
        }
        self.debit(from, amount);
        Ok(())
    }

    /// Decimal places of the token.
    pub fn decimals(&self) -> (r: u32)
        ensures
            r == 6,
    {
        6
    }

    pub fn name(&self) -> (r: String)
        ensures
            r@ == self.name_view(),
    {
        self.metadata.name.clone()
    }

    pub fn symbol(&self) -> (r: String)
        ensures
            r@ == self.symbol_view(),
    {
        self.metadata.symbol.clone()
    }
}

proof fn lemma_compound_ge(p: nat, daily: nat, days: nat)
    ensures
        compound(p, daily, days) >= p,
    decreases days,
{
    if days > 0 {
        lemma_compound_ge(p, daily, (days - 1) as nat);
    }
}

/// Accrual is idempotent at one instant: a second `compound_interest` at the
/// same `now` returns what the first did and changes nothing.
pub proof fn lemma_accrue_idempotent(
    a: YieldToken,
    b: YieldToken,
    c: YieldToken,
    user: Address,
    now: u64,
    r1: Result<u128, Error>,
    r2: Result<u128, Error>,
)
    requires
        a.wf(),
        YieldToken::accrue_post(a, b, user, now, r1),
        YieldToken::accrue_post(b, c, user, now, r2),
    ensures
        c == b,
        r2 == r1,
{
}

/// The holders of a ledger, in the order of their records.
pub open spec fn holders_of(s: Seq<Holding>) -> Seq<Address> {
    s.map_values(|h: Holding| h.holder)
}

/// Sum of the balances, in `s`, of the holders `hs`.
pub open spec fn balances_sum(s: Seq<Holding>, hs: Seq<Address>) -> int
    decreases hs.len(),
{
    if hs.len() == 0 {
        0
    } else {
        balances_sum(s, hs.drop_last()) + balance_in(s, hs.last())
    }
}

proof fn lemma_balances_sum_prefix(s: Seq<Holding>, k: int)
    requires
        holders_unique(s),
        0 <= k <= s.len(),
    ensures
        balances_sum(s, holders_of(s).take(k)) == sum_principal(s.take(k)),
    decreases k,
{
    if k > 0 {
        lemma_balances_sum_prefix(s, k - 1);
        assert(holders_of(s).take(k).drop_last() =~= holders_of(s).take(k - 1));
        assert(s.take(k).drop_last() =~= s.take(k - 1));
        lemma_record_at(s, k - 1);
    }
}

/// The total supply is the sum of the balances of all holders, and any
/// address that is not a holder has a zero balance. Every ledger operation
/// (mint, burn, transfer, accrual) keeps `wf`, so this holds after each.
pub proof fn lemma_supply_is_sum_of_balances(t: YieldToken)
    requires
        t.wf(),
    ensures
        t.supply() == balances_sum(t.holdings(), holders_of(t.holdings())),
        forall|h: Address| !holders_of(t.holdings()).contains(h) ==> #[trigger] t.balance_of(h) == 0,
        forall|h: Address| 0 <= #[trigger] t.balance_of(h) <= t.supply(),
{
    let s = t.holdings();
    lemma_balances_sum_prefix(s, s.len() as int);
    assert(s.take(s.len() as int) =~= s);
    assert(holders_of(s).take(s.len() as int) =~= holders_of(s));
    assert forall|h: Address| !holders_of(s).contains(h) implies #[trigger] t.balance_of(h) == 0 by {
        lemma_record_none(s, h);
        assert forall|i: int| 0 <= i < s.len() implies s[i].holder != h by {
            assert(holders_of(s)[i] == s[i].holder);
        }
    }
    assert forall|h: Address| 0 <= #[trigger] t.balance_of(h) <= t.supply() by {
        lemma_balance_le_sum(s, h);
    }
}

/// A mint by an authorized vault, of a positive amount that keeps the supply
/// within `i128`, succeeds; a burn by an authorized vault of no more than the
/// holder's balance succeeds. In the ledger either leaves (`after`, which
/// `mint_for_deposit` and `burn_for_withdrawal` ensure is well formed), the
/// supply is the sum of the balances of all holders.
pub proof fn lemma_mint_burn_keep_supply_sum(
    before: YieldToken,
    after: YieldToken,
    vault: Address,
    user: Address,
    amount: u128,
)
    requires
        before.wf(),
        before.is_vault(vault),
        after.wf(),
    ensures
        amount > 0 && before.supply() + amount <= i128::MAX ==> before.mint_outcome(vault, amount)
            == Ok::<(), Error>(()),
        amount <= before.balance_of(user) ==> before.burn_outcome(vault, amount) == Ok::<
            (),
            Error,
        >(()),
        before.supply() == balances_sum(before.holdings(), holders_of(before.holdings())),
        after.supply() == balances_sum(after.holdings(), holders_of(after.holdings())),
{
    lemma_supply_is_sum_of_balances(before);
    lemma_supply_is_sum_of_balances(after);
}

} // verus!
