use crate::contract::FairWage;
use crate::employee::{Employee, WAGE_PERIOD_MONTH};
use crate::error::Error;
use vstd::prelude::*;

verus! {

broadcast use vstd::std_specs::hash::group_hash_axioms;

/// `list` with every occurrence of `id` taken out, the rest in order.
pub open spec fn without(list: Seq<u64>, id: u64) -> Seq<u64>
    decreases list.len(),
{
    if list.len() == 0 {
        Seq::empty()
    } else if list.last() == id {
        without(list.drop_last(), id)
    } else {
        without(list.drop_last(), id).push(list.last())
    }
}

/// `without(list, id)` holds exactly the entries of `list` other than `id`.
pub proof fn lemma_without_contains(list: Seq<u64>, id: u64, x: u64)
    ensures
        without(list, id).contains(x) <==> (list.contains(x) && x != id),
    decreases list.len(),
{
    if list.len() > 0 {
        let head = list.drop_last();
        lemma_without_contains(head, id, x);
        let rest = without(head, id);
        if list.contains(x) {
            let i = choose|i: int| 0 <= i < list.len() && list[i] == x;
            if i < list.len() - 1 {
                assert(head[i] == x);
            }
        }
        if head.contains(x) {
            let i = choose|i: int| 0 <= i < head.len() && head[i] == x;
            assert(list[i] == x);
        }
        if list.last() != id {
            let out = rest.push(list.last());
            assert(out[out.len() - 1] == list.last());
            assert(list[list.len() - 1] == list.last());
            if rest.contains(x) {
                let i = choose|i: int| 0 <= i < rest.len() && rest[i] == x;
                assert(out[i] == x);
            }
            if out.contains(x) {
                let i = choose|i: int| 0 <= i < out.len() && out[i] == x;
                if i < rest.len() {
                    assert(rest[i] == x);
                }
            }
        } else {
            assert(list[list.len() - 1] == id);
        }
    }
}

/// Taking an entry out of a list without repeats leaves a list without
/// repeats.
pub proof fn lemma_without_distinct(list: Seq<u64>, id: u64)
    requires
        list.no_duplicates(),
    ensures
        without(list, id).no_duplicates(),
    decreases list.len(),
{
    if list.len() > 0 {
        let head = list.drop_last();
        let rest = without(head, id);
        assert(head.no_duplicates());
        lemma_without_distinct(head, id);
        lemma_without_contains(head, id, list.last());
        if list.last() != id {
            if head.contains(list.last()) {
                let i = choose|i: int| 0 <= i < head.len() && head[i] == list.last();
                assert(list[i] == list[list.len() - 1]);
            }
            let out = rest.push(list.last());
            assert forall|i: int, j: int|
                0 <= i < out.len() && 0 <= j < out.len() && i != j implies out[i] != out[j] by {
                if i < rest.len() && j < rest.len() {
                } else if i < rest.len() {
                    assert(rest[i] == out[i]);
                    assert(rest.contains(out[i]));
                } else {
                    assert(rest[j] == out[j]);
                    assert(rest.contains(out[j]));
                }
            }
        }
    }
}

impl FairWage {
    /// Names the employer and the token, once. The registry starts empty.
    /// `AlreadyInitialized` where an employer is set.
    pub fn initialize(&mut self, employer: u64, token_address: u64) -> (r: Result<(), Error>)
        requires
            old(self).wf(),
        ensures
            final(self).wf(),
            old(self).coherent() ==> final(self).coherent(),
            match r {
                Ok(_) => {
                    &&& old(self).employer.is_none()
                    &&& final(self).employer == Some(employer)
                    &&& final(self).token == Some(token_address)
                    &&& final(self).employee_list@ == Seq::<u64>::empty()
                    &&& final(self).employees@ == old(self).employees@
                },
                Err(e) => old(self).employer.is_some() && e == Error::AlreadyInitialized
                    && final(self).same_as(old(self)),
            },
    {
        if self.employer.is_some() {
            return Err(Error::AlreadyInitialized);
        }
        self.employer = Some(employer);
        self.token = Some(token_address);
        self.employee_list = Vec::new();
        proof {
            if old(self).coherent() {
                assert(self.employee_list@ =~= old(self).employee_list@);
            }
        }
        Ok(())
    }

    /// Why a hire is rejected, if it is.
    pub open spec fn hire_error(&self, id: u64, wage_rate: i128, wage_period: u32) -> Option<
        Error,
    > {
        if self.employer.is_none() {
            Some(Error::NotAuthorized)
        } else if wage_rate <= 0 {
            Some(Error::InvalidWageRate)
        } else if wage_period > WAGE_PERIOD_MONTH {
            Some(Error::InvalidWagePeriod)
        } else if self.employees@.contains_key(id) {
            Some(Error::EmployeeAlreadyExists)
        } else {
            None
        }
    }

    /// Hires an employee at `now`: a new active account with nothing
    /// banked and its checkpoint at `now`, entered last in the registry.
    pub fn add_employee(
        &mut self,
        employee_address: u64,
        wage_rate: i128,
        wage_period: u32,
        now: u64,
    ) -> (r: Result<(), Error>)
        requires
            old(self).wf(),
        ensures
            final(self).wf(),
            old(self).coherent() ==> final(self).coherent(),
            match r {
                Ok(_) => {
                    &&& old(self).hire_error(employee_address, wage_rate, wage_period).is_none()
                    &&& final(self).employer == old(self).employer
                    &&& final(self).token == old(self).token
                    &&& final(self).employees@ == old(self).employees@.insert(
                        employee_address,
                        Employee::hired(wage_rate, wage_period, now),
                    )
                    &&& final(self).employee_list@ == old(self).employee_list@.push(
                        employee_address,
                    )
                },
                Err(e) => old(self).hire_error(employee_address, wage_rate, wage_period) == Some(
                    e,
                ) && final(self).same_as(old(self)),
            },
    {
        if self.employer.is_none() {
            return Err(Error::NotAuthorized);
        }
        if wage_rate <= 0 {
            return Err(Error::InvalidWageRate);
        }
        if wage_period > WAGE_PERIOD_MONTH {
            return Err(Error::InvalidWagePeriod);
        }
        if self.employees.contains_key(&employee_address) {
            return Err(Error::EmployeeAlreadyExists);
        }
        let data = Employee {
            wage_rate,
            last_accrual_timestamp: now,
            wage_period,
            accrued_balance: 0,
            active: true,
        };
        self.write_employee(employee_address, data);
        self.employee_list.push(employee_address);
        proof {
            if old(self).coherent() {
                let before = old(self).employee_list@;
                let after = self.employee_list@;
                assert(!before.contains(employee_address));
                assert(after[after.len() - 1] == employee_address);
                assert forall|id: u64| #[trigger]
                    after.contains(id) <==> self.employees@.contains_key(id) by {
                    if before.contains(id) {
                        let i = choose|i: int| 0 <= i < before.len() && before[i] == id;
                        assert(after[i] == id);
                    }
                    if after.contains(id) {
                        let i = choose|i: int| 0 <= i < after.len() && after[i] == id;
                        if i < before.len() {
                            assert(before[i] == id);
                        }
                    }
                }
                assert forall|i: int, j: int|
                    0 <= i < after.len() && 0 <= j < after.len() && i != j implies after[i]
                    != after[j] by {
                    if i < before.len() {
                        assert(before[i] == after[i]);
                    }
                    if j < before.len() {
                        assert(before[j] == after[j]);
                    }
                }
            }
        }
        Ok(())
    }

    /// Why a rate update is rejected, if it is.
    pub open spec fn rate_error(&self, id: u64, new_wage_rate: i128, now: u64) -> Option<Error> {
        if self.employer.is_none() {
            Some(Error::NotAuthorized)
        } else if new_wage_rate <= 0 {
            Some(Error::InvalidWageRate)
        } else if !self.employees@.contains_key(id) {
            Some(Error::EmployeeNotFound)
        } else if self.employees@[id].owed_overflows(now) {
            Some(Error::Overflow)
        } else {
            None
        }
    }

    /// Changes an employee's rate at `now`. What accrued under the old rate
    /// is banked first, and the checkpoint moves to `now`.
    pub fn update_wage_rate(&mut self, employee_address: u64, new_wage_rate: i128, now: u64) -> (r:
        Result<(), Error>)
        requires
            old(self).wf(),
        ensures
            final(self).wf(),
            old(self).coherent() ==> final(self).coherent(),
            match r {
                Ok(_) => {
                    &&& old(self).rate_error(employee_address, new_wage_rate, now).is_none()
                    &&& final(self).same_frame(old(self))
                    &&& final(self).employees@ == old(self).employees@.insert(
                        employee_address,
                        old(self).employees@[employee_address].with_rate(new_wage_rate, now),
                    )
                },
                Err(e) => old(self).rate_error(employee_address, new_wage_rate, now) == Some(e)
                    && final(self).same_as(old(self)),
            },
    {
        if self.employer.is_none() {
            return Err(Error::NotAuthorized);
        }
        if new_wage_rate <= 0 {
            return Err(Error::InvalidWageRate);
        }
        let mut data: Employee = match self.get_employee_info(employee_address) {
            Err(e) => {
                return Err(e);
            },
            Ok(data) => data,
        };
        let total: i128 = match Self::owed(&data, now) {
            Err(e) => {
                return Err(e);
            },
            Ok(total) => total,
        };
        data.accrued_balance = total;
        data.wage_rate = new_wage_rate;
        data.last_accrual_timestamp = now;
        self.write_employee(employee_address, data);
        Ok(())
    }

    /// Why a freeze is rejected, if it is.
    pub open spec fn freeze_error(&self, id: u64, now: u64, contract_balance: i128) -> Option<
        Error,
    > {
        if self.employer.is_none() {
            Some(Error::NotAuthorized)
        } else if !self.employees@.contains_key(id) {
            Some(Error::EmployeeNotFound)
        } else if self.employees@[id].owed_overflows(now) {
            Some(Error::Overflow)
        } else if self.employees@[id].total_owed(now) <= 0 {
            None
        } else if self.token.is_none() {
            Some(Error::TokenNotConfigured)
        } else if self.employees@[id].total_owed(now) > contract_balance {
            Some(Error::InsufficientContractBalance)
        } else {
            None
        }
    }

    /// The account after a freeze at `now`: inactive, and settled where
    /// anything was owed.
    pub open spec fn frozen(data: Employee, now: u64) -> Employee {
        if data.total_owed(now) > 0 {
            Employee { active: false, ..data.settled(now) }
        } else {
            Employee { active: false, ..data }
        }
    }

    /// Freezes an employee at `now` and returns what is to be paid to them:
    /// everything owed, which the pool must cover. The account is inactive
    /// afterwards, also where nothing was owed.
    pub fn freeze_employee(&mut self, employee_address: u64, now: u64, contract_balance: i128) -> (r:
        Result<i128, Error>)
        requires
            old(self).wf(),
        ensures
            final(self).wf(),
            old(self).coherent() ==> final(self).coherent(),
            match r {
                Ok(paid) => {
                    &&& old(self).freeze_error(employee_address, now, contract_balance).is_none()
                    &&& paid == old(self).employees@[employee_address].total_owed(now)
                    &&& 0 <= paid
                    &&& paid > 0 ==> paid <= contract_balance
                    &&& final(self).same_frame(old(self))
                    &&& final(self).employees@ == old(self).employees@.insert(
                        employee_address,
                        Self::frozen(old(self).employees@[employee_address], now),
                    )
                },
                Err(e) => old(self).freeze_error(employee_address, now, contract_balance) == Some(
                    e,
                ) && final(self).same_as(old(self)),
            },
    {
        if self.employer.is_none() {
            return Err(Error::NotAuthorized);
        }
        let mut data: Employee = match self.get_employee_info(employee_address) {
            Err(e) => {
                return Err(e);
            },
            Ok(data) => data,
        };
        let total_owed: i128 = match Self::owed(&data, now) {
            Err(e) => {
                return Err(e);
            },
            Ok(total) => total,
        };
        if total_owed > 0 {
            if self.token.is_none() {
                return Err(Error::TokenNotConfigured);
            }
            if total_owed > contract_balance {
                return Err(Error::InsufficientContractBalance);
            }
            data.accrued_balance = 0;
            data.last_accrual_timestamp = now;
        }
        data.active = false;
        self.write_employee(employee_address, data);
        Ok(total_owed)
    }

    /// Why a lookup on the employer's behalf is rejected, if it is.
    pub open spec fn lookup_error(&self, id: u64) -> Option<Error> {
        if self.employer.is_none() {
            Some(Error::NotAuthorized)
        } else if !self.employees@.contains_key(id) {
            Some(Error::EmployeeNotFound)
        } else {
            None
        }
    }

    /// The account after activation at `now`. A frozen account becomes
    /// active with its checkpoint at `now`, so that nothing accrues for the
    /// time it was frozen. An active one stays as it is.
    pub open spec fn activated(data: Employee, now: u64) -> Employee {
        if data.active {
            data
        } else {
            Employee { active: true, last_accrual_timestamp: now, ..data }
        }
    }

    /// Activates an employee at `now`.
    pub fn activate_employee(&mut self, employee_address: u64, now: u64) -> (r: Result<(), Error>)
        requires
            old(self).wf(),
        ensures
            final(self).wf(),
            old(self).coherent() ==> final(self).coherent(),
            match r {
                Ok(_) => {
                    &&& old(self).lookup_error(employee_address).is_none()
                    &&& final(self).same_frame(old(self))
                    &&& final(self).employees@ == old(self).employees@.insert(
                        employee_address,
                        Self::activated(old(self).employees@[employee_address], now),
                    )
                },
                Err(e) => old(self).lookup_error(employee_address) == Some(e)
                    && final(self).same_as(old(self)),
            },
    {
        if self.employer.is_none() {
            return Err(Error::NotAuthorized);
        }
        let mut data: Employee = match self.get_employee_info(employee_address) {
            Err(e) => {
                return Err(e);
            },
            Ok(data) => data,
        };
        if !data.active {
            data.active = true;
            data.last_accrual_timestamp = now;
        }
        self.write_employee(employee_address, data);
        Ok(())
    }

    /// Why a removal is rejected, if it is: an employee who is active, or
    /// who is still owed anything, cannot be removed.
    pub open spec fn remove_error(&self, id: u64) -> Option<Error> {
        if self.employer.is_none() {
            Some(Error::NotAuthorized)
        } else if !self.employees@.contains_key(id) {
            Some(Error::EmployeeNotFound)
        } else if self.employees@[id].active || self.employees@[id].accrued_balance > 0 {
            Some(Error::CannotRemoveActiveEmployee)
        } else {
            None
        }
    }

    /// Removes a frozen employee to whom nothing is owed: the account goes,
    /// and the registry lists the employee no longer.
    pub fn remove_employee(&mut self, employee_address: u64) -> (r: Result<(), Error>)
        requires
            old(self).wf(),
        ensures
            final(self).wf(),
            old(self).coherent() ==> final(self).coherent(),
            match r {
                Ok(_) => {
                    &&& old(self).remove_error(employee_address).is_none()
                    &&& final(self).employer == old(self).employer
                    &&& final(self).token == old(self).token
                    &&& final(self).employees@ == old(self).employees@.remove(employee_address)
                    &&& final(self).employee_list@ == without(
                        old(self).employee_list@,
                        employee_address,
                    )
                    &&& !final(self).employee_list@.contains(employee_address)
                    &&& final(self).account(employee_address).is_none()
                },
                Err(e) => old(self).remove_error(employee_address) == Some(e)
                    && final(self).same_as(old(self)),
            },
    {
        if self.employer.is_none() {
            return Err(Error::NotAuthorized);
        }
        let data: Employee = match self.get_employee_info(employee_address) {
            Err(e) => {
                return Err(e);
            },
            Ok(data) => data,
        };
        if data.active || data.accrued_balance > 0 {
            return Err(Error::CannotRemoveActiveEmployee);
        }
        self.employees.remove(&employee_address);
        let mut new_list: Vec<u64> = Vec::new();
        let n: usize = self.employee_list.len();
        let mut i: usize = 0;
        while i < n
            invariant
                i <= n,
                n == self.employee_list@.len(),
                self.employee_list@ == old(self).employee_list@,
                self.employer == old(self).employer,
                self.token == old(self).token,
                self.employees@ == old(self).employees@.remove(employee_address),
                new_list@ == without(self.employee_list@.take(i as int), employee_address),
            decreases n - i,
        {
            let addr: u64 = self.employee_list[i];
            proof {
                let next = self.employee_list@.take(i + 1);
                assert(next.drop_last() == self.employee_list@.take(i as int));
                assert(next.last() == addr);
            }
            if addr != employee_address {
                new_list.push(addr);
            }
            i = i + 1;
        }
        proof {
            assert(self.employee_list@.take(n as int) == self.employee_list@);
            lemma_without_contains(old(self).employee_list@, employee_address, employee_address);
            if old(self).coherent() {
                lemma_without_distinct(old(self).employee_list@, employee_address);
                assert forall|id: u64| #[trigger]
                    new_list@.contains(id) <==> self.employees@.contains_key(id) by {
                    lemma_without_contains(old(self).employee_list@, employee_address, id);
                }
            }
        }
        self.employee_list = new_list;
        Ok(())
    }

    /// The account after its checkpoint was repaired at `now`: an unset
    /// checkpoint becomes `now`, a set one stays.
    pub open spec fn repaired(data: Employee, now: u64) -> Employee {
        if data.last_accrual_timestamp == 0 {
            Employee { last_accrual_timestamp: now, ..data }
        } else {
            data
        }
    }

    /// Repairs an employee's unset checkpoint.
    pub fn fix_employee_timestamp(&mut self, employee_address: u64, now: u64) -> (r: Result<
        (),
        Error,
    >)
        requires
            old(self).wf(),
        ensures
            final(self).wf(),
            old(self).coherent() ==> final(self).coherent(),
            match r {
                Ok(_) => {
                    &&& old(self).lookup_error(employee_address).is_none()
                    &&& final(self).same_frame(old(self))
                    &&& final(self).employees@ == old(self).employees@.insert(
                        employee_address,
                        Self::repaired(old(self).employees@[employee_address], now),
                    )
                },
                Err(e) => old(self).lookup_error(employee_address) == Some(e)
                    && final(self).same_as(old(self)),
            },
    {
        if self.employer.is_none() {
            return Err(Error::NotAuthorized);
        }
        let mut data: Employee = match self.get_employee_info(employee_address) {
            Err(e) => {
                return Err(e);
            },
            Ok(data) => data,
        };
        if data.last_accrual_timestamp == 0 {
            data.last_accrual_timestamp = now;
        }
        self.write_employee(employee_address, data);
        Ok(())
    }
}

} // verus!
