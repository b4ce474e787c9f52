use crate::employee::Employee;
use crate::error::Error;
use std::collections::HashMap;
use vstd::prelude::*;

verus! {

broadcast use vstd::std_specs::hash::group_hash_axioms;

/// The payroll's whole state: who the employer is, which token pays the
/// wages, one account for each known employee, and the registry that lists
/// the employees in the order in which they were hired.
///
/// Parties are named by keys: two keys name the same party exactly when they
/// are equal. The pool of funds is not part of the state. Each operation that
/// pays out is handed the pool's balance, and says what is to be transferred.
pub struct FairWage {
    pub employer: Option<u64>,
    pub token: Option<u64>,
    pub employees: HashMap<u64, Employee>,
    pub employee_list: Vec<u64>,
}

impl FairWage {
    /// The state's invariant: every account meets its own.
    pub open spec fn wf(&self) -> bool {
        forall|id: u64| #[trigger]
            self.employees@.contains_key(id) ==> self.employees@[id].wf()
    }

    /// What holds of every payroll that grew from a new one by its
    /// operations: the registry lists exactly the employees that have an
    /// account, each once; a payroll without an employer has no employee;
    /// and a frozen employee has nothing banked, since a freeze pays
    /// everything out.
    pub open spec fn coherent(&self) -> bool {
        &&& self.employee_list@.no_duplicates()
        &&& forall|id: u64| #[trigger]
            self.employee_list@.contains(id) <==> self.employees@.contains_key(id)
        &&& self.employer.is_none() ==> self.employee_list@.len() == 0
        &&& forall|id: u64| #[trigger]
            self.employees@.contains_key(id) && !self.employees@[id].active
                ==> self.employees@[id].accrued_balance == 0
    }

    /// The account under `id`, where there is one.
    pub open spec fn account(&self, id: u64) -> Option<Employee> {
        if self.employees@.contains_key(id) {
            Some(self.employees@[id])
        } else {
            None
        }
    }

    /// A payroll that nobody has initialized: no employer, no token, no
    /// employee.
    pub fn new() -> (s: FairWage)
        ensures
            s.wf(),
            s.coherent(),
            s.employer.is_none(),
            s.token.is_none(),
            s.employees@ == Map::<u64, Employee>::empty(),
            s.employee_list@ == Seq::<u64>::empty(),
    {
        FairWage {
            employer: None,
            token: None,
            employees: HashMap::new(),
            employee_list: Vec::new(),
        }
    }

    /// Whether `other` has the same employer, token and registry.
    pub open spec fn same_frame(&self, other: &FairWage) -> bool {
        &&& self.employer == other.employer
        &&& self.token == other.token
        &&& self.employee_list@ == other.employee_list@
    }

    /// Whether `other` holds the same state.
    pub open spec fn same_as(&self, other: &FairWage) -> bool {
        self.same_frame(other) && self.employees@ == other.employees@
    }

    /// The employer, who must authorize what the payroll does;
    /// `NotAuthorized` until the payroll is initialized.
    pub fn require_employer_auth(&self) -> (r: Result<u64, Error>)
        ensures
            match r {
                Ok(employer) => self.employer == Some(employer),
                Err(e) => self.employer.is_none() && e == Error::NotAuthorized,
            },
    {
        match self.employer {
            Some(employer) => Ok(employer),
            None => Err(Error::NotAuthorized),
        }
    }

    /// The token that pays the wages; `TokenNotConfigured` where none is
    /// set.
    pub fn read_token(&self) -> (r: Result<u64, Error>)
        ensures
            match r {
                Ok(token) => self.token == Some(token),
                Err(e) => self.token.is_none() && e == Error::TokenNotConfigured,
            },
    {
        match self.token {
            Some(token) => Ok(token),
            None => Err(Error::TokenNotConfigured),
        }
    }

    /// The account under `employee_address`; `EmployeeNotFound` where there
    /// is none.
    pub fn get_employee_info(&self, employee_address: u64) -> (r: Result<Employee, Error>)
        ensures
            match r {
                Ok(data) => self.account(employee_address) == Some(data),
                Err(e) => self.account(employee_address).is_none() && e
                    == Error::EmployeeNotFound,
            },
    {
        match self.employees.get(&employee_address) {
            Some(data) => Ok(*data),
            None => Err(Error::EmployeeNotFound),
        }
    }

    /// Puts `data` under `addr`, in place of what was there.
    pub(crate) fn write_employee(&mut self, addr: u64, data: Employee)
        requires
            old(self).wf(),
            data.wf(),
        ensures
            final(self).wf(),
            final(self).same_frame(old(self)),
            final(self).employees@ == old(self).employees@.insert(addr, data),
    {
        self.employees.insert(addr, data);
    }

    /// The registry: the known employees in the order in which they were
    /// hired.
    pub fn list_employees(&self) -> (list: Vec<u64>)
        ensures
            list@ == self.employee_list@,
    {
        self.employee_list.clone()
    }
}

} // verus!
