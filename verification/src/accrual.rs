use crate::contract::FairWage;
use crate::employee::{
    period_seconds, Employee, DAY_SECONDS, HOUR_SECONDS, MONTH_SECONDS, WAGE_PERIOD_DAY,
    WAGE_PERIOD_HOUR, WAGE_PERIOD_MONTH, WAGE_PERIOD_WEEK, WEEK_SECONDS,
};
use crate::error::Error;
use vstd::prelude::*;

verus! {

/// Rounding down loses less than one divisor: for `x >= 0` and `d > 0`,
/// `(x / d) * d <= x < (x / d) * d + d`.
pub proof fn lemma_floor_bounds(x: int, d: int)
    requires
        x >= 0,
        d > 0,
    ensures
        0 <= x / d,
        (x / d) * d <= x,
        x < (x / d) * d + d,
{
    vstd::arithmetic::div_mod::lemma_fundamental_div_mod(x, d);
    vstd::arithmetic::div_mod::lemma_mod_bound(x, d);
    vstd::arithmetic::div_mod::lemma_div_pos_is_pos(x, d);
    assert(d * (x / d) == (x / d) * d) by (nonlinear_arith);
}

/// Rounding down keeps the order: for `0 <= x <= y` and `d > 0`,
/// `x / d <= y / d`.
pub proof fn lemma_floor_monotonic(x: int, y: int, d: int)
    requires
        0 <= x <= y,
        d > 0,
    ensures
        x / d <= y / d,
{
    vstd::arithmetic::div_mod::lemma_div_is_ordered(x, y, d);
}

/// Taking `k` whole divisors away before rounding down takes `k` away from
/// the quotient.
pub proof fn lemma_floor_minus_multiple(x: int, k: int, d: int)
    requires
        d > 0,
    ensures
        (x - k * d) / d == x / d - k,
{
    vstd::arithmetic::div_mod::lemma_fundamental_div_mod(x, d);
    vstd::arithmetic::div_mod::lemma_mod_bound(x, d);
    let q = x / d - k;
    let r = x % d;
    assert(x - k * d == q * d + r) by (nonlinear_arith)
        requires
            x == d * (x / d) + r,
            q == x / d - k,
    ;
    vstd::arithmetic::div_mod::lemma_fundamental_div_mod_converse(x - k * d, d, q, r);
}

impl FairWage {
    /// Narrows a 128-bit amount to 64 bits without a sign, or reports
    /// `Overflow` where it does not fit.
    pub fn i128_to_u64(v: i128) -> (r: Result<u64, Error>)
        ensures
            match r {
                Ok(n) => 0 <= v <= u64::MAX && n == v,
                Err(e) => !(0 <= v <= u64::MAX) && e == Error::Overflow,
            },
    {
        if v < 0 || v > u64::MAX as i128 {
            Err(Error::Overflow)
        } else {
            Ok(v as u64)
        }
    }

    /// The length in seconds of one of the four wage periods.
    pub fn get_period_seconds(wage_period: u32) -> (seconds: u64)
        requires
            wage_period <= WAGE_PERIOD_MONTH,
        ensures
            seconds == period_seconds(wage_period),
            wage_period == WAGE_PERIOD_HOUR ==> seconds == 3_600,
            wage_period == WAGE_PERIOD_DAY ==> seconds == 86_400,
            wage_period == WAGE_PERIOD_WEEK ==> seconds == 604_800,
            wage_period == WAGE_PERIOD_MONTH ==> seconds == 2_592_000,
    {
        if wage_period == WAGE_PERIOD_HOUR {
            HOUR_SECONDS
        } else if wage_period == WAGE_PERIOD_DAY {
            DAY_SECONDS
        } else if wage_period == WAGE_PERIOD_WEEK {
            WEEK_SECONDS
        } else {
            MONTH_SECONDS
        }
    }

    /// What `calculate_accrued` returns, as a function of its arguments.
    pub open spec fn accrued(employee: Employee, now: u64) -> Result<i128, Error> {
        if employee.accrual_overflows(now) {
            Err(Error::Overflow)
        } else {
            Ok(employee.live_accrual(now) as i128)
        }
    }

    /// The live accrual at `current_timestamp`: zero for an inactive
    /// employee, an unset checkpoint or a clock that has not moved past the
    /// checkpoint; else rate times elapsed seconds over the period's
    /// seconds, rounded down. `Overflow` exactly where that product leaves
    /// the 128-bit range. The account is only read, so the result depends on
    /// the two arguments alone.
    pub fn calculate_accrued(employee: &Employee, current_timestamp: u64) -> (r: Result<
        i128,
        Error,
    >)
        requires
            employee.wf(),
        ensures
            r == Self::accrued(*employee, current_timestamp),
            match r {
                Ok(v) => !employee.accrual_overflows(current_timestamp) && v
                    == employee.live_accrual(current_timestamp) && v >= 0,
                Err(e) => employee.accrual_overflows(current_timestamp) && e == Error::Overflow,
            },
    {
        if !employee.active {
            return Ok(0);
        }
        if employee.last_accrual_timestamp == 0 || current_timestamp
            <= employee.last_accrual_timestamp {
            return Ok(0);
        }
        let elapsed: u64 = current_timestamp - employee.last_accrual_timestamp;
        let period: u64 = Self::get_period_seconds(employee.wage_period);
        match employee.wage_rate.checked_mul(elapsed as i128) {
            None => {
                proof {
                    assert(employee.wage_rate * elapsed >= 0) by (nonlinear_arith)
                        requires
                            employee.wage_rate > 0,
                            elapsed > 0,
                    ;
                }
                Err(Error::Overflow)
            },
            Some(num) => {
                proof {
                    assert(employee.wage_rate * elapsed >= 0) by (nonlinear_arith)
                        requires
                            employee.wage_rate > 0,
                            elapsed > 0,
                    ;
                    lemma_floor_bounds(num as int, period as int);
                }
                Ok(num / (period as i128))
            },
        }
    }

    /// Everything owed to the employee at `now`, banked and live. `Overflow`
    /// exactly where the accrual or the sum leaves the 128-bit range.
    pub fn owed(employee: &Employee, now: u64) -> (r: Result<i128, Error>)
        requires
            employee.wf(),
        ensures
            match r {
                Ok(v) => !employee.owed_overflows(now) && v == employee.total_owed(now)
                    && employee.live_accrual(now) >= 0,
                Err(e) => employee.owed_overflows(now) && e == Error::Overflow,
            },
    {
        match Self::calculate_accrued(employee, now) {
            Err(e) => Err(e),
            Ok(accrued) => match employee.accrued_balance.checked_add(accrued) {
                None => Err(Error::Overflow),
                Some(total) => Ok(total),
            },
        }
    }

    /// Whether `apply_withdrawal` rejects `amount` at `now`, and why.
    pub open spec fn withdrawal_error(employee: Employee, amount: i128, now: u64) -> Option<
        Error,
    > {
        if amount <= 0 {
            Some(Error::InvalidAmount)
        } else if employee.owed_overflows(now) {
            Some(Error::Overflow)
        } else if amount > employee.total_owed(now) {
            Some(Error::WithdrawalExceedsAccrued)
        } else {
            None
        }
    }

    /// Takes `amount` out of what the employee is owed at `now`.
    ///
    /// Rejected, with the account unchanged: an amount that is not positive
    /// (`InvalidAmount`), an owed amount that cannot be computed
    /// (`Overflow`), an amount above what is owed
    /// (`WithdrawalExceedsAccrued`). Else the amount comes out of the banked
    /// balance as far as that reaches; the rest comes out of the live accrual
    /// by moving the checkpoint forward by the seconds it pays for, rounded
    /// down, and never past `now`. What stays owed at `now` is at least what
    /// was owed less the amount.
    pub fn apply_withdrawal(employee_data: &mut Employee, amount: i128, now: u64) -> (r: Result<
        (),
        Error,
    >)
        requires
            old(employee_data).wf(),
        ensures
            final(employee_data).wf(),
            match r {
                Ok(_) => Self::withdrawal_error(*old(employee_data), amount, now).is_none()
                    && *final(employee_data) == old(employee_data).after_withdrawal(amount),
                Err(e) => Self::withdrawal_error(*old(employee_data), amount, now) == Some(e)
                    && *final(employee_data) == *old(employee_data),
            },
            r.is_ok() ==> 0 < amount <= old(employee_data).total_owed(now),
            r.is_ok() ==> final(employee_data).total_owed(now)
                >= old(employee_data).total_owed(now) - amount >= 0,
            r.is_ok() ==> old(employee_data).last_accrual_timestamp
                <= final(employee_data).last_accrual_timestamp,
            r.is_ok() && amount > old(employee_data).accrued_balance
                ==> final(employee_data).last_accrual_timestamp <= now,
    {
        if amount <= 0 {
            return Err(Error::InvalidAmount);
        }
        let available: i128 = match Self::owed(employee_data, now) {
            Err(e) => {
                return Err(e);
            },
            Ok(v) => v,
        };
        if amount > available {
            return Err(Error::WithdrawalExceedsAccrued);
        }
        if amount <= employee_data.accrued_balance {
            employee_data.accrued_balance = employee_data.accrued_balance - amount;
            return Ok(());
        }
        let from_current: i128 = amount - employee_data.accrued_balance;
        let period_seconds: u64 = Self::get_period_seconds(employee_data.wage_period);
        proof {
            lemma_withdrawal_from_live(*employee_data, from_current as int, now);
        }
        let sec_num: i128 = (period_seconds as i128) * from_current;
        // The seconds paid for lie within the elapsed time, so they fit.
        let seconds_paid: u64 = match Self::i128_to_u64(sec_num / employee_data.wage_rate) {
            Err(e) => {
                return Err(e);
            },
            Ok(seconds) => seconds,
        };
        employee_data.accrued_balance = 0;
        employee_data.last_accrual_timestamp = employee_data.last_accrual_timestamp + seconds_paid;
        Ok(())
    }
}

/// Paying `from_current` out of the live accrual moves the checkpoint by
/// whole seconds that fit between the checkpoint and `now`, and what accrues
/// from the new checkpoint to `now` is at least the live accrual less
/// `from_current`.
pub proof fn lemma_withdrawal_from_live(e: Employee, from_current: int, now: u64)
    requires
        e.wf(),
        !e.accrual_overflows(now),
        0 < from_current <= e.live_accrual(now),
    ensures
        e.accruing(now),
        0 <= period_seconds(e.wage_period) * from_current <= i128::MAX,
        0 <= e.seconds_paid(from_current) <= now - e.last_accrual_timestamp,
        (Employee {
            accrued_balance: 0,
            last_accrual_timestamp: (e.last_accrual_timestamp + e.seconds_paid(
                from_current,
            )) as u64,
            ..e
        }).live_accrual(now) >= e.live_accrual(now) - from_current,
{
    let rate = e.wage_rate as int;
    let period = period_seconds(e.wage_period);
    let elapsed = now - e.last_accrual_timestamp;
    let product = rate * elapsed;
    let live = e.live_accrual(now);
    assert(product >= 0) by (nonlinear_arith)
        requires
            product == rate * elapsed,
            rate > 0,
            elapsed > 0,
    ;
    lemma_floor_bounds(product, period);
    let paid = period * from_current;
    assert(0 <= paid <= live * period) by (nonlinear_arith)
        requires
            paid == period * from_current,
            0 < from_current <= live,
            period > 0,
    ;
    let seconds = e.seconds_paid(from_current);
    assert(seconds == paid / rate);
    lemma_floor_bounds(paid, rate);
    lemma_floor_monotonic(paid, product, rate);
    assert(product / rate == elapsed) by {
        vstd::arithmetic::div_mod::lemma_div_multiples_vanish(elapsed, rate);
        assert(rate * elapsed == elapsed * rate) by (nonlinear_arith);
    }
    let rest = elapsed - seconds;
    assert(rate * rest == product - seconds * rate) by (nonlinear_arith)
        requires
            rest == elapsed - seconds,
            product == rate * elapsed,
    ;
    assert(rate * rest >= product - from_current * period) by (nonlinear_arith)
        requires
            rate * rest == product - seconds * rate,
            seconds * rate <= paid,
            paid == period * from_current,
    ;
    lemma_floor_minus_multiple(product, from_current, period);
    if rest > 0 {
        lemma_floor_monotonic(product - from_current * period, rate * rest, period);
    } else {
        assert(rate * rest == 0) by (nonlinear_arith)
            requires
                rest == 0,
        ;
    }
}

} // verus!
