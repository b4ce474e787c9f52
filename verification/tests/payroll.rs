use fair_wage::employee::{WAGE_PERIOD_DAY, WAGE_PERIOD_HOUR, WAGE_PERIOD_MONTH};
use fair_wage::{BatchPayResult, Employee, Error, FairWage, Payment};
use std::collections::HashMap;

const EMPLOYER: u64 = 100;
const TOKEN: u64 = 200;
const T0: u64 = 1_000_000;

fn payroll() -> FairWage {
    let mut contract = FairWage::new();
    contract.initialize(EMPLOYER, TOKEN).unwrap();
    contract
}

fn payroll_without_token() -> FairWage {
    FairWage {
        employer: Some(EMPLOYER),
        token: None,
        employees: HashMap::new(),
        employee_list: Vec::new(),
    }
}

#[test]
fn initialize_once() {
    let mut contract = FairWage::new();
    assert_eq!(contract.require_employer_auth(), Err(Error::NotAuthorized));
    assert_eq!(contract.read_token(), Err(Error::TokenNotConfigured));
    assert_eq!(contract.initialize(EMPLOYER, TOKEN), Ok(()));
    assert_eq!(contract.require_employer_auth(), Ok(EMPLOYER));
    assert_eq!(contract.read_token(), Ok(TOKEN));
    assert_eq!(contract.list_employees(), Vec::<u64>::new());
    assert_eq!(contract.initialize(7, 8), Err(Error::AlreadyInitialized));
    assert_eq!(contract.require_employer_auth(), Ok(EMPLOYER));
    assert_eq!(contract.read_token(), Ok(TOKEN));
}

#[test]
fn nothing_is_authorized_before_initialization() {
    let mut contract = FairWage::new();
    assert_eq!(contract.add_employee(1, 10, WAGE_PERIOD_HOUR, T0), Err(Error::NotAuthorized));
    assert_eq!(contract.update_wage_rate(1, 10, T0), Err(Error::NotAuthorized));
    assert_eq!(contract.freeze_employee(1, T0, 0), Err(Error::NotAuthorized));
    assert_eq!(contract.activate_employee(1, T0), Err(Error::NotAuthorized));
    assert_eq!(contract.remove_employee(1), Err(Error::NotAuthorized));
    assert_eq!(contract.fix_employee_timestamp(1, T0), Err(Error::NotAuthorized));
    assert_eq!(contract.deposit(5), Err(Error::NotAuthorized));
    assert_eq!(contract.withdraw_surplus(5, 10), Err(Error::NotAuthorized));
    assert_eq!(contract.pay_partial_by_employer(1, 5, T0, 10), Err(Error::NotAuthorized));
    assert_eq!(contract.payday_sweep(1, T0, 10), Err(Error::NotAuthorized));
    assert_eq!(contract.payday_sweep_many(&vec![1], T0, 10), Err(Error::NotAuthorized));
    assert_eq!(contract.withdraw(1, 5, T0, 10), Err(Error::EmployeeNotFound));
}

#[test]
fn hire_rejections() {
    let mut contract = payroll();
    assert_eq!(contract.add_employee(1, 0, WAGE_PERIOD_HOUR, T0), Err(Error::InvalidWageRate));
    assert_eq!(contract.add_employee(1, -3, WAGE_PERIOD_HOUR, T0), Err(Error::InvalidWageRate));
    assert_eq!(contract.add_employee(1, 10, 4, T0), Err(Error::InvalidWagePeriod));
    assert_eq!(contract.add_employee(1, 10, u32::MAX, T0), Err(Error::InvalidWagePeriod));
    assert_eq!(contract.list_employees(), Vec::<u64>::new());
    assert_eq!(contract.add_employee(1, 10, WAGE_PERIOD_MONTH, T0), Ok(()));
    assert_eq!(
        contract.add_employee(1, 20, WAGE_PERIOD_HOUR, T0 + 1),
        Err(Error::EmployeeAlreadyExists)
    );
    assert_eq!(contract.list_employees(), vec![1]);
    assert_eq!(
        contract.get_employee_info(1),
        Ok(Employee {
            wage_rate: 10,
            last_accrual_timestamp: T0,
            wage_period: WAGE_PERIOD_MONTH,
            accrued_balance: 0,
            active: true,
        })
    );
}

#[test]
fn hire_then_query_at_once_is_zero() {
    let mut contract = payroll();
    contract.add_employee(1, 1_000_000_000, WAGE_PERIOD_HOUR, T0).unwrap();
    assert_eq!(contract.get_accrued_balance(1, T0), Ok(0));
    assert_eq!(contract.get_live_accrued_balance(1, T0), Ok(0));
    assert_eq!(contract.get_accrued_balance(1, T0 + 1), Ok(277_777));
    assert_eq!(contract.get_live_accrued_balance(1, T0 + 1), Ok(277_777));
}

#[test]
fn rate_change_banks_the_old_accrual() {
    let mut contract = payroll();
    contract.add_employee(1, 3600, WAGE_PERIOD_HOUR, T0).unwrap();
    let now = T0 + 125;
    let before = contract.get_accrued_balance(1, now).unwrap();
    assert_eq!(before, 125);
    assert_eq!(contract.update_wage_rate(1, 0, now), Err(Error::InvalidWageRate));
    assert_eq!(contract.update_wage_rate(2, 7200, now), Err(Error::EmployeeNotFound));
    assert_eq!(contract.update_wage_rate(1, 7200, now), Ok(()));
    assert_eq!(contract.get_accrued_balance(1, now), Ok(before));
    assert_eq!(
        contract.get_employee_info(1),
        Ok(Employee {
            wage_rate: 7200,
            last_accrual_timestamp: now,
            wage_period: WAGE_PERIOD_HOUR,
            accrued_balance: 125,
            active: true,
        })
    );
    // from here on the new rate counts
    assert_eq!(contract.get_accrued_balance(1, now + 10), Ok(145));
}

#[test]
fn activation_starts_the_clock_anew() {
    let mut contract = payroll();
    contract.add_employee(1, 3600, WAGE_PERIOD_HOUR, T0).unwrap();
    assert_eq!(contract.activate_employee(2, T0), Err(Error::EmployeeNotFound));
    // activating an active employee changes nothing
    let before = contract.get_employee_info(1).unwrap();
    assert_eq!(contract.activate_employee(1, T0 + 40), Ok(()));
    assert_eq!(contract.get_employee_info(1), Ok(before));
    assert_eq!(contract.freeze_employee(1, T0 + 100, 1_000), Ok(100));
    assert_eq!(contract.get_accrued_balance(1, T0 + 5_000), Ok(0));
    assert_eq!(contract.activate_employee(1, T0 + 5_000), Ok(()));
    assert_eq!(contract.get_accrued_balance(1, T0 + 5_000), Ok(0));
    assert_eq!(contract.get_accrued_balance(1, T0 + 5_010), Ok(10));
    let data = contract.get_employee_info(1).unwrap();
    assert!(data.active);
    assert_eq!(data.last_accrual_timestamp, T0 + 5_000);
}

#[test]
fn freeze_needs_a_token_only_where_something_is_owed() {
    let mut contract = payroll_without_token();
    contract.add_employee(1, 3600, WAGE_PERIOD_HOUR, T0).unwrap();
    contract.add_employee(2, 3600, WAGE_PERIOD_HOUR, T0 + 10).unwrap();
    assert_eq!(contract.freeze_employee(1, T0 + 10, 1_000), Err(Error::TokenNotConfigured));
    assert_eq!(contract.freeze_employee(2, T0 + 10, 1_000), Ok(0));
    assert!(contract.get_employee_info(1).unwrap().active);
    assert!(!contract.get_employee_info(2).unwrap().active);
    assert_eq!(contract.freeze_employee(3, T0 + 10, 1_000), Err(Error::EmployeeNotFound));
}

#[test]
fn repair_of_an_unset_checkpoint() {
    let mut contract = payroll();
    contract.add_employee(1, 3600, WAGE_PERIOD_HOUR, 0).unwrap();
    assert_eq!(contract.get_accrued_balance(1, 500), Ok(0));
    assert_eq!(contract.fix_employee_timestamp(2, 500), Err(Error::EmployeeNotFound));
    assert_eq!(contract.fix_employee_timestamp(1, 500), Ok(()));
    assert_eq!(contract.get_employee_info(1).unwrap().last_accrual_timestamp, 500);
    assert_eq!(contract.get_accrued_balance(1, 530), Ok(30));
    // a set checkpoint stays
    assert_eq!(contract.fix_employee_timestamp(1, 900), Ok(()));
    assert_eq!(contract.get_employee_info(1).unwrap().last_accrual_timestamp, 500);
}

#[test]
fn removal_needs_a_clean_account() {
    let mut contract = payroll();
    contract.employees.insert(
        5,
        Employee {
            wage_rate: 10,
            last_accrual_timestamp: T0,
            wage_period: WAGE_PERIOD_DAY,
            accrued_balance: 8,
            active: false,
        },
    );
    contract.employee_list.push(5);
    assert_eq!(contract.remove_employee(5), Err(Error::CannotRemoveActiveEmployee));
    assert_eq!(contract.list_employees(), vec![5]);
    assert_eq!(contract.freeze_employee(5, T0 + 1, 8), Ok(8));
    assert_eq!(contract.remove_employee(5), Ok(()));
    assert_eq!(contract.list_employees(), Vec::<u64>::new());
}

#[test]
fn deposits_and_surplus() {
    let contract = payroll();
    assert_eq!(contract.deposit(0), Err(Error::InvalidAmount));
    assert_eq!(contract.deposit(-1), Err(Error::InvalidAmount));
    assert_eq!(contract.deposit(1), Ok(()));
    assert_eq!(contract.withdraw_surplus(0, 10), Err(Error::InvalidAmount));
    assert_eq!(contract.withdraw_surplus(11, 10), Err(Error::InsufficientContractBalance));
    assert_eq!(contract.withdraw_surplus(10, 10), Ok(()));
    let bare = payroll_without_token();
    assert_eq!(bare.deposit(1), Err(Error::TokenNotConfigured));
    assert_eq!(bare.withdraw_surplus(1, 10), Err(Error::TokenNotConfigured));
}

#[test]
fn pool_balance_needs_a_token() {
    assert_eq!(payroll().get_contract_balance(4_300), Ok(4_300));
    assert_eq!(payroll().get_contract_balance(0), Ok(0));
    assert_eq!(payroll_without_token().get_contract_balance(4_300), Err(Error::TokenNotConfigured));
    assert_eq!(FairWage::new().get_contract_balance(4_300), Err(Error::TokenNotConfigured));
}

#[test]
fn partial_payment_by_the_employer() {
    let mut contract = payroll();
    contract.add_employee(1, 3600, WAGE_PERIOD_HOUR, T0).unwrap();
    let now = T0 + 60;
    assert_eq!(contract.pay_partial_by_employer(1, 0, now, 100), Err(Error::InvalidAmount));
    assert_eq!(contract.pay_partial_by_employer(2, 5, now, 100), Err(Error::EmployeeNotFound));
    assert_eq!(
        contract.pay_partial_by_employer(1, 61, now, 100),
        Err(Error::WithdrawalExceedsAccrued)
    );
    assert_eq!(
        contract.pay_partial_by_employer(1, 60, now, 59),
        Err(Error::InsufficientContractBalance)
    );
    assert_eq!(contract.get_accrued_balance(1, now), Ok(60));
    assert_eq!(contract.pay_partial_by_employer(1, 25, now, 100), Ok(()));
    assert_eq!(contract.get_accrued_balance(1, now), Ok(35));
    assert_eq!(contract.get_employee_info(1).unwrap().last_accrual_timestamp, T0 + 25);
    assert_eq!(contract.withdraw(1, 36, now, 100), Err(Error::WithdrawalExceedsAccrued));
    assert_eq!(contract.withdraw(1, 35, now, 34), Err(Error::InsufficientContractBalance));
    assert_eq!(contract.withdraw(1, 35, now, 35), Ok(()));
    assert_eq!(contract.get_accrued_balance(1, now), Ok(0));
}

#[test]
fn payment_needs_a_token() {
    let mut contract = payroll_without_token();
    contract.add_employee(1, 3600, WAGE_PERIOD_HOUR, T0).unwrap();
    assert_eq!(contract.withdraw(1, 5, T0 + 10, 100), Err(Error::TokenNotConfigured));
    assert_eq!(contract.payday_sweep(1, T0 + 10, 100), Err(Error::TokenNotConfigured));
    assert_eq!(contract.payday_sweep_many(&vec![1], T0 + 10, 100), Err(Error::TokenNotConfigured));
    assert_eq!(contract.get_accrued_balance(1, T0 + 10), Ok(10));
}

#[test]
fn sweep_of_one_employee() {
    let mut contract = payroll();
    contract.add_employee(1, 3600, WAGE_PERIOD_HOUR, T0).unwrap();
    assert_eq!(contract.payday_sweep(2, T0 + 10, 100), Err(Error::EmployeeNotFound));
    assert_eq!(contract.payday_sweep(1, T0, 100), Err(Error::NothingToWithdraw));
    assert_eq!(contract.payday_sweep(1, T0 + 10, 9), Err(Error::InsufficientContractBalance));
    assert_eq!(contract.get_accrued_balance(1, T0 + 10), Ok(10));
    assert_eq!(contract.payday_sweep(1, T0 + 10, 10), Ok(10));
    assert_eq!(
        contract.get_employee_info(1),
        Ok(Employee {
            wage_rate: 3600,
            last_accrual_timestamp: T0 + 10,
            wage_period: WAGE_PERIOD_HOUR,
            accrued_balance: 0,
            active: true,
        })
    );
    assert_eq!(contract.payday_sweep(1, T0 + 10, 10), Err(Error::NothingToWithdraw));
}

#[test]
fn batch_sweep_pays_all_or_none() {
    let mut contract = payroll();
    contract.add_employee(1, 3600, WAGE_PERIOD_HOUR, T0).unwrap();
    contract.add_employee(2, 7200, WAGE_PERIOD_HOUR, T0).unwrap();
    contract.add_employee(3, 3600, WAGE_PERIOD_HOUR, T0 + 30).unwrap();
    let now = T0 + 30;
    let ids = vec![2, 77, 1, 2, 3, 1];
    // owed: 60 to the second, 30 to the first, none to the third
    assert_eq!(
        contract.payday_sweep_many(&ids, now, 89),
        Err(Error::InsufficientContractBalance)
    );
    assert_eq!(contract.get_accrued_balance(1, now), Ok(30));
    assert_eq!(contract.get_accrued_balance(2, now), Ok(60));
    assert_eq!(contract.get_employee_info(1).unwrap().last_accrual_timestamp, T0);
    assert_eq!(contract.get_employee_info(2).unwrap().last_accrual_timestamp, T0);

    let (paid, payments) = contract.payday_sweep_many(&ids, now, 90).unwrap();
    assert_eq!(paid, BatchPayResult { paid_count: 2, total_amount: 90 });
    assert_eq!(
        payments,
        vec![Payment { employee: 2, amount: 60 }, Payment { employee: 1, amount: 30 }]
    );
    assert_eq!(contract.get_accrued_balance(1, now), Ok(0));
    assert_eq!(contract.get_accrued_balance(2, now), Ok(0));
    assert_eq!(contract.get_employee_info(1).unwrap().last_accrual_timestamp, now);
    assert_eq!(contract.get_employee_info(2).unwrap().last_accrual_timestamp, now);
    assert_eq!(contract.get_employee_info(3).unwrap().last_accrual_timestamp, T0 + 30);
    assert_eq!(contract.payday_sweep_many(&ids, now, 90), Err(Error::NothingToWithdraw));
    assert_eq!(contract.payday_sweep_many(&vec![], now, 90), Err(Error::NothingToWithdraw));
    assert_eq!(contract.payday_sweep_many(&vec![77, 78], now, 90), Err(Error::NothingToWithdraw));
}

#[test]
fn batch_sweep_reports_overflow() {
    let mut contract = payroll();
    contract.add_employee(1, i128::MAX, WAGE_PERIOD_HOUR, T0).unwrap();
    contract.add_employee(2, 3600, WAGE_PERIOD_HOUR, T0).unwrap();
    assert_eq!(contract.payday_sweep_many(&vec![2, 1], T0 + 2, i128::MAX), Err(Error::Overflow));
    assert_eq!(contract.get_accrued_balance(2, T0 + 2), Ok(2));
    assert_eq!(contract.get_accrued_balance(1, T0 + 2), Err(Error::Overflow));
    assert_eq!(contract.freeze_employee(1, T0 + 2, i128::MAX), Err(Error::Overflow));
    assert_eq!(contract.update_wage_rate(1, 5, T0 + 2), Err(Error::Overflow));
    assert_eq!(contract.payday_sweep(1, T0 + 2, i128::MAX), Err(Error::Overflow));
}
