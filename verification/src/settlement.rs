use crate::contract::FairWage;
use crate::employee::{BatchPayResult, Employee, Payment};
use crate::error::Error;
use vstd::prelude::*;

verus! {

broadcast use vstd::std_specs::hash::group_hash_axioms;

/// Whether `id` has an account to which something is owed at `now`.
pub open spec fn is_due(accounts: Map<u64, Employee>, id: u64, now: u64) -> bool {
    accounts.contains_key(id) && accounts[id].total_owed(now) > 0
}

/// Whom a sweep over `ids` pays: each identifier that is due, once, in the
/// order of its first occurrence. Unknown identifiers, repeated ones and
/// those to whom nothing is owed are passed over.
pub open spec fn sweep_payees(accounts: Map<u64, Employee>, ids: Seq<u64>, now: u64) -> Seq<u64>
    decreases ids.len(),
{
    if ids.len() == 0 {
        Seq::empty()
    } else {
        let earlier = ids.drop_last();
        let id = ids.last();
        if is_due(accounts, id, now) && !earlier.contains(id) {
            sweep_payees(accounts, earlier, now).push(id)
        } else {
            sweep_payees(accounts, earlier, now)
        }
    }
}

/// The sum of what is owed at `now` to each of `payees`.
pub open spec fn owed_sum(accounts: Map<u64, Employee>, payees: Seq<u64>, now: u64) -> int
    decreases payees.len(),
{
    if payees.len() == 0 {
        0
    } else {
        owed_sum(accounts, payees.drop_last(), now) + accounts[payees.last()].total_owed(now)
    }
}

/// Whether what is owed to some known identifier among `ids` cannot be
/// computed in 128 bits.
pub open spec fn some_owed_overflows(accounts: Map<u64, Employee>, ids: Seq<u64>, now: u64) -> bool {
    exists|i: int|
        0 <= i < ids.len() && accounts.contains_key(#[trigger] ids[i])
            && accounts[ids[i]].owed_overflows(now)
}

/// One payment to each of `payees`, of what is owed to them at `now`.
pub open spec fn payment_list(accounts: Map<u64, Employee>, payees: Seq<u64>, now: u64) -> Seq<
    Payment,
> {
    Seq::new(
        payees.len(),
        |j: int| Payment { employee: payees[j], amount: accounts[payees[j]].total_owed(now) as i128 },
    )
}

/// The sum of the amounts of `payments`.
pub open spec fn paid_sum(payments: Seq<Payment>) -> int
    decreases payments.len(),
{
    if payments.len() == 0 {
        0
    } else {
        paid_sum(payments.drop_last()) + payments.last().amount
    }
}

/// The accounts after each of `payees` was settled at `now`; every other
/// account is as it was.
pub open spec fn settled_for(accounts: Map<u64, Employee>, payees: Seq<u64>, now: u64) -> Map<
    u64,
    Employee,
> {
    Map::new(
        |id: u64| accounts.contains_key(id),
        |id: u64|
            if payees.contains(id) {
                accounts[id].settled(now)
            } else {
                accounts[id]
            },
    )
}

/// A sweep pays exactly the identifiers among `ids` that are due.
pub proof fn lemma_sweep_payees_contains(
    accounts: Map<u64, Employee>,
    ids: Seq<u64>,
    now: u64,
    x: u64,
)
    ensures
        sweep_payees(accounts, ids, now).contains(x) <==> (ids.contains(x) && is_due(
            accounts,
            x,
            now,
        )),
    decreases ids.len(),
{
    if ids.len() > 0 {
        let earlier = ids.drop_last();
        let id = ids.last();
        lemma_sweep_payees_contains(accounts, earlier, now, x);
        let rest = sweep_payees(accounts, earlier, now);
        assert(ids[ids.len() - 1] == id);
        if ids.contains(x) {
            let i = choose|i: int| 0 <= i < ids.len() && ids[i] == x;
            if i < ids.len() - 1 {
                assert(earlier[i] == x);
            }
        }
        if earlier.contains(x) {
            let i = choose|i: int| 0 <= i < earlier.len() && earlier[i] == x;
            assert(ids[i] == x);
        }
        if is_due(accounts, id, now) && !earlier.contains(id) {
            let out = rest.push(id);
            assert(out[out.len() - 1] == id);
            if rest.contains(x) {
                let i = choose|i: int| 0 <= i < rest.len() && rest[i] == x;
                assert(out[i] == x);
            }
            if out.contains(x) {
                let i = choose|i: int| 0 <= i < out.len() && out[i] == x;
                if i < rest.len() {
                    assert(rest[i] == x);
                }
            }
        }
    }
}

/// A sweep pays nobody twice.
pub proof fn lemma_sweep_payees_distinct(accounts: Map<u64, Employee>, ids: Seq<u64>, now: u64)
    ensures
        sweep_payees(accounts, ids, now).no_duplicates(),
    decreases ids.len(),
{
    if ids.len() > 0 {
        let earlier = ids.drop_last();
        let id = ids.last();
        lemma_sweep_payees_distinct(accounts, earlier, now);
        lemma_sweep_payees_contains(accounts, earlier, now, id);
        let rest = sweep_payees(accounts, earlier, now);
        if is_due(accounts, id, now) && !earlier.contains(id) {
            let out = rest.push(id);
            assert forall|i: int, j: int|
                0 <= i < out.len() && 0 <= j < out.len() && i != j implies out[i] != out[j] by {
                if i < rest.len() && j < rest.len() {
                } else if i < rest.len() {
                    assert(rest[i] == out[i]);
                    assert(rest.contains(out[i]));
                } else {
                    assert(rest[j] == out[j]);
                    assert(rest.contains(out[j]));
                }
            }
        }
    }
}

/// The payments to `payees` add up to what is owed to them, where each of
/// these amounts fits in 128 bits.
pub proof fn lemma_payments_add_up(accounts: Map<u64, Employee>, payees: Seq<u64>, now: u64)
    requires
        forall|j: int|
            0 <= j < payees.len() ==> 0 <= accounts[#[trigger] payees[j]].total_owed(now)
                <= i128::MAX,
    ensures
        paid_sum(payment_list(accounts, payees, now)) == owed_sum(accounts, payees, now),
    decreases payees.len(),
{
    if payees.len() > 0 {
        let head = payees.drop_last();
        let payments = payment_list(accounts, payees, now);
        assert forall|j: int| 0 <= j < head.len() implies 0
            <= accounts[#[trigger] head[j]].total_owed(now) <= i128::MAX by {
            assert(head[j] == payees[j]);
        }
        lemma_payments_add_up(accounts, head, now);
        assert(payments.drop_last() =~= payment_list(accounts, head, now));
        assert(payees.last() == payees[payees.len() - 1]);
        assert(payments.last().amount == accounts[payees.last()].total_owed(now));
    }
}

/// A sweep over the first `i` of `ids` pays no more, and no more people,
/// than the sweep over all of them.
pub proof fn lemma_sweep_prefix(accounts: Map<u64, Employee>, ids: Seq<u64>, i: int, now: u64)
    requires
        0 <= i <= ids.len(),
    ensures
        0 <= owed_sum(accounts, sweep_payees(accounts, ids.take(i), now), now) <= owed_sum(
            accounts,
            sweep_payees(accounts, ids, now),
            now,
        ),
        sweep_payees(accounts, ids.take(i), now).len() <= sweep_payees(accounts, ids, now).len(),
    decreases ids.len(),
{
    if ids.len() > 0 {
        let earlier = ids.drop_last();
        let last = ids.len() - 1;
        assert(ids.take(ids.len() as int) == ids);
        assert(ids.take(last) == earlier);
        lemma_sweep_step(accounts, ids, last, now);
        if i == ids.len() {
            assert(earlier.take(last) == earlier);
            lemma_sweep_prefix(accounts, earlier, last, now);
        } else {
            assert(earlier.take(i) == ids.take(i));
            lemma_sweep_prefix(accounts, earlier, i, now);
        }
    } else {
        assert(ids.take(i) == ids);
    }
}

/// What one more identifier adds to a sweep: a payee with a positive
/// amount where it is due and new, else nothing.
pub proof fn lemma_sweep_step(accounts: Map<u64, Employee>, ids: Seq<u64>, i: int, now: u64)
    requires
        0 <= i < ids.len(),
    ensures
        ({
            let before = sweep_payees(accounts, ids.take(i), now);
            let after = sweep_payees(accounts, ids.take(i + 1), now);
            if is_due(accounts, ids[i], now) && !ids.take(i).contains(ids[i]) {
                &&& after == before.push(ids[i])
                &&& owed_sum(accounts, after, now) == owed_sum(accounts, before, now)
                    + accounts[ids[i]].total_owed(now)
            } else {
                after == before
            }
        }),
{
    let next = ids.take(i + 1);
    assert(next.drop_last() == ids.take(i));
    assert(next.last() == ids[i]);
    let before = sweep_payees(accounts, ids.take(i), now);
    if is_due(accounts, ids[i], now) && !ids.take(i).contains(ids[i]) {
        let after = before.push(ids[i]);
        assert(after.drop_last() == before);
        assert(after.last() == ids[i]);
    }
}

/// Whether `ids[i]` occurs among the identifiers before it.
fn seen_before(ids: &Vec<u64>, i: usize) -> (b: bool)
    requires
        i < ids.len(),
    ensures
        b == ids@.take(i as int).contains(ids@[i as int]),
{
    let id: u64 = ids[i];
    let mut k: usize = 0;
    while k < i
        invariant
            k <= i < ids.len(),
            id == ids@[i as int],
            forall|j: int| 0 <= j < k ==> ids@[j] != id,
        decreases i - k,
    {
        if ids[k] == id {
            proof {
                assert(ids@.take(i as int)[k as int] == id);
            }
            return true;
        }
        k = k + 1;
    }
    proof {
        let earlier = ids@.take(i as int);
        if earlier.contains(id) {
            let j = choose|j: int| 0 <= j < earlier.len() && earlier[j] == id;
            assert(ids@[j] == id);
        }
    }
    false
}

impl FairWage {
    /// Everything owed to the employee at `now`, banked and live.
    /// `EmployeeNotFound` where there is no account, `Overflow` where the
    /// amount cannot be computed. The state is only read.
    pub fn get_accrued_balance(&self, employee_address: u64, now: u64) -> (r: Result<i128, Error>)
        requires
            self.wf(),
        ensures
            r == self.balance_at(employee_address, now),
    {
        let data: Employee = match self.get_employee_info(employee_address) {
            Err(e) => {
                return Err(e);
            },
            Ok(data) => data,
        };
        Self::owed(&data, now)
    }

    /// What a query for the employee's balance at `now` returns.
    pub open spec fn balance_at(&self, id: u64, now: u64) -> Result<i128, Error> {
        if !self.employees@.contains_key(id) {
            Err(Error::EmployeeNotFound)
        } else if self.employees@[id].owed_overflows(now) {
            Err(Error::Overflow)
        } else {
            Ok(self.employees@[id].total_owed(now) as i128)
        }
    }

    /// The same as `get_accrued_balance`.
    pub fn get_live_accrued_balance(&self, employee_address: u64, now: u64) -> (r: Result<
        i128,
        Error,
    >)
        requires
            self.wf(),
        ensures
            r == self.balance_at(employee_address, now),
    {
        self.get_accrued_balance(employee_address, now)
    }

    /// The pool's balance as the token reports it, for a payroll whose token
    /// is set; `TokenNotConfigured` for one without.
    pub fn get_contract_balance(&self, contract_balance: i128) -> (r: Result<i128, Error>)
        ensures
            match r {
                Ok(balance) => self.token.is_some() && balance == contract_balance,
                Err(e) => self.token.is_none() && e == Error::TokenNotConfigured,
            },
    {
        match self.read_token() {
            Err(e) => Err(e),
            Ok(_) => Ok(contract_balance),
        }
    }

    /// Why a deposit is rejected, if it is.
    pub open spec fn deposit_error(&self, amount: i128) -> Option<Error> {
        if self.employer.is_none() {
            Some(Error::NotAuthorized)
        } else if amount <= 0 {
            Some(Error::InvalidAmount)
        } else if self.token.is_none() {
            Some(Error::TokenNotConfigured)
        } else {
            None
        }
    }

    /// Admits a deposit of `amount` by the employer into the pool.
    pub fn deposit(&self, amount: i128) -> (r: Result<(), Error>)
        ensures
            match r {
                Ok(_) => self.deposit_error(amount).is_none(),
                Err(e) => self.deposit_error(amount) == Some(e),
            },
    {
        if self.employer.is_none() {
            return Err(Error::NotAuthorized);
        }
        if amount <= 0 {
            return Err(Error::InvalidAmount);
        }
        if self.token.is_none() {
            return Err(Error::TokenNotConfigured);
        }
        Ok(())
    }

    /// Why the employer may not take `amount` back from the pool, if so.
    pub open spec fn surplus_error(&self, amount: i128, contract_balance: i128) -> Option<Error> {
        if self.deposit_error(amount).is_some() {
            self.deposit_error(amount)
        } else if amount > contract_balance {
            Some(Error::InsufficientContractBalance)
        } else {
            None
        }
    }

    /// Admits that the employer takes `amount` back from the pool, which
    /// must hold that much.
    pub fn withdraw_surplus(&self, amount: i128, contract_balance: i128) -> (r: Result<(), Error>)
        ensures
            match r {
                Ok(_) => self.surplus_error(amount, contract_balance).is_none(),
                Err(e) => self.surplus_error(amount, contract_balance) == Some(e),
            },
    {
        match self.deposit(amount) {
            Err(e) => Err(e),
            Ok(_) => {
                if amount > contract_balance {
                    Err(Error::InsufficientContractBalance)
                } else {
                    Ok(())
                }
            },
        }
    }

    /// Why a payment of `amount` out of what an employee is owed is
    /// rejected, if it is.
    pub open spec fn spend_error(&self, id: u64, amount: i128, now: u64, contract_balance: i128)
        -> Option<Error> {
        if amount <= 0 {
            Some(Error::InvalidAmount)
        } else if !self.employees@.contains_key(id) {
            Some(Error::EmployeeNotFound)
        } else if Self::withdrawal_error(self.employees@[id], amount, now).is_some() {
            Self::withdrawal_error(self.employees@[id], amount, now)
        } else if self.token.is_none() {
            Some(Error::TokenNotConfigured)
        } else if amount > contract_balance {
            Some(Error::InsufficientContractBalance)
        } else {
            None
        }
    }

    /// Pays `amount` to an employee at their own request, out of what they
    /// are owed at `now`. The pool must cover it. On success the amount is
    /// to be transferred from the pool to the employee.
    pub fn withdraw(&mut self, employee_address: u64, amount: i128, now: u64, contract_balance: i128)
        -> (r: Result<(), Error>)
        requires
            old(self).wf(),
        ensures
            final(self).wf(),
            old(self).coherent() ==> final(self).coherent(),
            match r {
                Ok(_) => {
                    &&& old(self).spend_error(employee_address, amount, now, contract_balance).is_none()
                    &&& 0 < amount <= old(self).employees@[employee_address].total_owed(now)
                    &&& amount <= contract_balance
                    &&& final(self).same_frame(old(self))
                    &&& final(self).employees@ == old(self).employees@.insert(
                        employee_address,
                        old(self).employees@[employee_address].after_withdrawal(amount),
                    )
                    &&& final(self).employees@[employee_address].total_owed(now)
                        >= old(self).employees@[employee_address].total_owed(now) - amount
                },
                Err(e) => old(self).spend_error(employee_address, amount, now, contract_balance)
                    == Some(e) && final(self).same_as(old(self)),
            },
    {
        if amount <= 0 {
            return Err(Error::InvalidAmount);
        }
        let mut data: Employee = match self.get_employee_info(employee_address) {
            Err(e) => {
                return Err(e);
            },
            Ok(data) => data,
        };
        match Self::apply_withdrawal(&mut data, amount, now) {
            Err(e) => {
                return Err(e);
            },
            Ok(_) => {},
        }
        if self.token.is_none() {
            return Err(Error::TokenNotConfigured);
        }
        if amount > contract_balance {
            return Err(Error::InsufficientContractBalance);
        }
        self.write_employee(employee_address, data);
        Ok(())
    }

    /// Pays `amount` to an employee at the employer's request: as
    /// `withdraw`, but `NotAuthorized` before all else where no employer is
    /// set.
    pub fn pay_partial_by_employer(
        &mut self,
        employee_address: u64,
        amount: i128,
        now: u64,
        contract_balance: i128,
    ) -> (r: Result<(), Error>)
        requires
            old(self).wf(),
        ensures
            final(self).wf(),
            old(self).coherent() ==> final(self).coherent(),
            match r {
                Ok(_) => {
                    &&& old(self).employer.is_some()
                    &&& old(self).spend_error(employee_address, amount, now, contract_balance).is_none()
                    &&& 0 < amount <= old(self).employees@[employee_address].total_owed(now)
                    &&& amount <= contract_balance
                    &&& final(self).same_frame(old(self))
                    &&& final(self).employees@ == old(self).employees@.insert(
                        employee_address,
                        old(self).employees@[employee_address].after_withdrawal(amount),
                    )
                    &&& final(self).employees@[employee_address].total_owed(now)
                        >= old(self).employees@[employee_address].total_owed(now) - amount
                },
                Err(e) => final(self).same_as(old(self)) && if old(self).employer.is_none() {
                    e == Error::NotAuthorized
                } else {
                    old(self).spend_error(employee_address, amount, now, contract_balance) == Some(
                        e,
                    )
                },
            },
    {
        if self.employer.is_none() {
            return Err(Error::NotAuthorized);
        }
        self.withdraw(employee_address, amount, now, contract_balance)
    }

    /// Why a sweep of one employee is rejected, if it is.
    pub open spec fn sweep_error(&self, id: u64, now: u64, contract_balance: i128) -> Option<
        Error,
    > {
        if self.employer.is_none() {
            Some(Error::NotAuthorized)
        } else if !self.employees@.contains_key(id) {
            Some(Error::EmployeeNotFound)
        } else if self.employees@[id].owed_overflows(now) {
            Some(Error::Overflow)
        } else if self.employees@[id].total_owed(now) <= 0 {
            Some(Error::NothingToWithdraw)
        } else if self.token.is_none() {
            Some(Error::TokenNotConfigured)
        } else if self.employees@[id].total_owed(now) > contract_balance {
            Some(Error::InsufficientContractBalance)
        } else {
            None
        }
    }

    /// Settles one employee at `now` and returns what is to be paid to
    /// them: everything owed, which must be positive and within the pool.
    pub fn payday_sweep(&mut self, employee_address: u64, now: u64, contract_balance: i128) -> (r:
        Result<i128, Error>)
        requires
            old(self).wf(),
        ensures
            final(self).wf(),
            old(self).coherent() ==> final(self).coherent(),
            match r {
                Ok(paid) => {
                    &&& old(self).sweep_error(employee_address, now, contract_balance).is_none()
                    &&& paid == old(self).employees@[employee_address].total_owed(now)
                    &&& 0 < paid <= contract_balance
                    &&& final(self).same_frame(old(self))
                    &&& final(self).employees@ == old(self).employees@.insert(
                        employee_address,
                        old(self).employees@[employee_address].settled(now),
                    )
                },
                Err(e) => old(self).sweep_error(employee_address, now, contract_balance) == Some(e)
                    && final(self).same_as(old(self)),
            },
    {
        if self.employer.is_none() {
            return Err(Error::NotAuthorized);
        }
        let mut data: Employee = match self.get_employee_info(employee_address) {
            Err(e) => {
                return Err(e);
            },
            Ok(data) => data,
        };
        let total_owed: i128 = match Self::owed(&data, now) {
            Err(e) => {
                return Err(e);
            },
            Ok(total) => total,
        };
        if total_owed <= 0 {
            return Err(Error::NothingToWithdraw);
        }
        if self.token.is_none() {
            return Err(Error::TokenNotConfigured);
        }
        if total_owed > contract_balance {
            return Err(Error::InsufficientContractBalance);
        }
        data.accrued_balance = 0;
        data.last_accrual_timestamp = now;
        self.write_employee(employee_address, data);
        Ok(total_owed)
    }

    /// Why a sweep of many employees is rejected, if it is.
    pub open spec fn batch_error(&self, ids: Seq<u64>, now: u64, contract_balance: i128) -> Option<
        Error,
    > {
        let payees = sweep_payees(self.employees@, ids, now);
        let total = owed_sum(self.employees@, payees, now);
        if self.employer.is_none() {
            Some(Error::NotAuthorized)
        } else if some_owed_overflows(self.employees@, ids, now) || total > i128::MAX
            || payees.len() > u32::MAX {
            Some(Error::Overflow)
        } else if total <= 0 {
            Some(Error::NothingToWithdraw)
        } else if self.token.is_none() {
            Some(Error::TokenNotConfigured)
        } else if total > contract_balance {
            Some(Error::InsufficientContractBalance)
        } else {
            None
        }
    }

    /// Settles at `now` every employee among `employees` to whom something
    /// is owed, all or none.
    ///
    /// Unknown identifiers and repeated ones are passed over. First the
    /// amounts are added up and held against the pool; only where the pool
    /// covers the sum is any account touched. On success the result counts
    /// the employees paid and the sum, and lists the payments to be made, one
    /// for each employee paid, in the order in which they were first named.
    pub fn payday_sweep_many(&mut self, employees: &Vec<u64>, now: u64, contract_balance: i128)
        -> (r: Result<(BatchPayResult, Vec<Payment>), Error>)
        requires
            old(self).wf(),
        ensures
            final(self).wf(),
            old(self).coherent() ==> final(self).coherent(),
            match r {
                Ok((paid, payments)) => {
                    let payees = sweep_payees(old(self).employees@, employees@, now);
                    &&& old(self).batch_error(employees@, now, contract_balance).is_none()
                    &&& paid.paid_count == payees.len()
                    &&& paid.total_amount == owed_sum(old(self).employees@, payees, now)
                    &&& 0 < paid.total_amount <= contract_balance
                    &&& payments@ == payment_list(old(self).employees@, payees, now)
                    &&& paid_sum(payments@) == paid.total_amount
                    &&& final(self).same_frame(old(self))
                    &&& final(self).employees@ == settled_for(old(self).employees@, payees, now)
                },
                Err(e) => old(self).batch_error(employees@, now, contract_balance) == Some(e)
                    && final(self).same_as(old(self)),
            },
            contract_balance < owed_sum(
                old(self).employees@,
                sweep_payees(old(self).employees@, employees@, now),
                now,
            ) ==> r.is_err() && final(self).employees@ == old(self).employees@,
    {
        if self.employer.is_none() {
            return Err(Error::NotAuthorized);
        }
        let ghost accounts = self.employees@;
        let ghost ids = employees@;
        let n: usize = employees.len();
        let mut payments: Vec<Payment> = Vec::new();
        let mut total: i128 = 0;
        let mut count: u32 = 0;
        let mut i: usize = 0;
        while i < n
            invariant
                i <= n,
                n == ids.len(),
                ids == employees@,
                accounts == old(self).employees@,
                self.wf(),
                self.same_as(old(self)),
                self.employer.is_some(),
                forall|k: int|
                    0 <= k < i && accounts.contains_key(#[trigger] ids[k])
                        ==> !accounts[ids[k]].owed_overflows(now),
                payments@ == payment_list(accounts, sweep_payees(accounts, ids.take(i as int), now), now),
                total == owed_sum(accounts, sweep_payees(accounts, ids.take(i as int), now), now),
                count == sweep_payees(accounts, ids.take(i as int), now).len(),
            decreases n - i,
        {
            let addr: u64 = employees[i];
            proof {
                lemma_sweep_step(accounts, ids, i as int, now);
                lemma_sweep_prefix(accounts, ids, i as int, now);
                lemma_sweep_prefix(accounts, ids, i + 1, now);
            }
            match self.get_employee_info(addr) {
                Err(_) => {},
                Ok(emp) => {
                    let owed: i128 = match Self::owed(&emp, now) {
                        Err(e) => {
                            return Err(e);
                        },
                        Ok(owed) => owed,
                    };
                    if owed > 0 && !seen_before(employees, i) {
                        total = match total.checked_add(owed) {
                            None => {
                                return Err(Error::Overflow);
                            },
                            Some(sum) => sum,
                        };
                        count = match count.checked_add(1) {
                            None => {
                                return Err(Error::Overflow);
                            },
                            Some(more) => more,
                        };
                        payments.push(Payment { employee: addr, amount: owed });
                        proof {
                            let after = sweep_payees(accounts, ids.take(i + 1), now);
                            assert(payments@ =~= payment_list(accounts, after, now));
                        }
                    }
                },
            }
            i = i + 1;
        }
        proof {
            assert(ids.take(n as int) == ids);
            lemma_sweep_prefix(accounts, ids, 0, now);
        }
        let ghost payees = sweep_payees(accounts, ids, now);
        if total <= 0 {
            return Err(Error::NothingToWithdraw);
        }
        if self.token.is_none() {
            return Err(Error::TokenNotConfigured);
        }
        if total > contract_balance {
            return Err(Error::InsufficientContractBalance);
        }
        let m: usize = payments.len();
        let mut j: usize = 0;
        while j < m
            invariant
                j <= m,
                m == payments@.len(),
                payees == sweep_payees(accounts, ids, now),
                payments@ == payment_list(accounts, payees, now),
                accounts == old(self).employees@,
                forall|k: int|
                    0 <= k < ids.len() && accounts.contains_key(#[trigger] ids[k])
                        ==> !accounts[ids[k]].owed_overflows(now),
                old(self).wf(),
                self.wf(),
                self.same_frame(old(self)),
                self.employees@ == settled_for(accounts, payees.take(j as int), now),
            decreases m - j,
        {
            let addr: u64 = payments[j].employee;
            proof {
                assert(addr == payees[j as int]);
                assert(payees.contains(addr));
                lemma_sweep_payees_contains(accounts, ids, now, addr);
            }
            match self.get_employee_info(addr) {
                Err(_) => {},
                Ok(emp) => {
                    let mut data: Employee = emp;
                    data.accrued_balance = 0;
                    data.last_accrual_timestamp = now;
                    self.write_employee(addr, data);
                },
            }
            proof {
                let before = payees.take(j as int);
                let after = payees.take(j + 1);
                assert(after.drop_last() == before);
                assert(after.last() == addr);
                assert forall|x: u64| after.contains(x) <==> (before.contains(x) || x == addr) by {
                    if before.contains(x) {
                        let k = choose|k: int| 0 <= k < before.len() && before[k] == x;
                        assert(after[k] == x);
                    }
                    if after.contains(x) {
                        let k = choose|k: int| 0 <= k < after.len() && after[k] == x;
                        if k < before.len() {
                            assert(before[k] == x);
                        }
                    }
                    assert(after[j as int] == addr);
                }
                assert(self.employees@ =~= settled_for(accounts, after, now));
            }
            j = j + 1;
        }
        proof {
            assert(payees.take(m as int) == payees);
            assert forall|k: int| 0 <= k < payees.len() implies 0
                <= accounts[#[trigger] payees[k]].total_owed(now) <= i128::MAX by {
                let id = payees[k];
                assert(payees.contains(id));
                lemma_sweep_payees_contains(accounts, ids, now, id);
                let at = choose|at: int| 0 <= at < ids.len() && ids[at] == id;
                assert(accounts.contains_key(ids[at]));
            }
            lemma_payments_add_up(accounts, payees, now);
        }
        Ok((BatchPayResult { paid_count: count, total_amount: total }, payments))
    }
}

} // verus!
