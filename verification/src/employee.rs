use vstd::prelude::*;

verus! {

pub const HOUR_SECONDS: u64 = 3_600;

pub const DAY_SECONDS: u64 = 86_400;

pub const WEEK_SECONDS: u64 = 604_800;

/// A month is taken as thirty days.
pub const MONTH_SECONDS: u64 = 2_592_000;

pub const WAGE_PERIOD_HOUR: u32 = 0;

pub const WAGE_PERIOD_DAY: u32 = 1;

pub const WAGE_PERIOD_WEEK: u32 = 2;

pub const WAGE_PERIOD_MONTH: u32 = 3;

/// One employee's account.
///
/// `wage_rate` is owed per full wage period. `last_accrual_timestamp` is the
/// checkpoint: pay accrues only for the seconds after it, and a checkpoint of
/// zero accrues nothing. `accrued_balance` is what has been banked and not
/// yet paid out.
#[derive(Clone, Copy, Debug, PartialEq, Eq, Structural)]
pub struct Employee {
    pub wage_rate: i128,
    pub last_accrual_timestamp: u64,
    pub wage_period: u32,
    pub accrued_balance: i128,
    pub active: bool,
}

/// What a batch sweep paid: how many employees, and how much in all.
#[derive(Clone, Copy, Debug, PartialEq, Eq, Structural)]
pub struct BatchPayResult {
    pub paid_count: u32,
    pub total_amount: i128,
}

/// One transfer from the pool to an employee.
#[derive(Clone, Copy, Debug, PartialEq, Eq, Structural)]
pub struct Payment {
    pub employee: u64,
    pub amount: i128,
}

/// The length of a wage period in seconds.
pub open spec fn period_seconds(wage_period: u32) -> int {
    if wage_period == WAGE_PERIOD_HOUR {
        3_600
    } else if wage_period == WAGE_PERIOD_DAY {
        86_400
    } else if wage_period == WAGE_PERIOD_WEEK {
        604_800
    } else {
        2_592_000
    }
}

impl Employee {
    /// The account's invariant: a positive rate, one of the four wage
    /// periods, and a balance that is not negative.
    pub open spec fn wf(self) -> bool {
        &&& self.wage_rate > 0
        &&& self.wage_period <= WAGE_PERIOD_MONTH
        &&& self.accrued_balance >= 0
    }

    /// Whether pay accrues at `now`: the employee is active, the checkpoint
    /// is set, and time has passed since it.
    pub open spec fn accruing(self, now: u64) -> bool {
        self.active && self.last_accrual_timestamp != 0 && now > self.last_accrual_timestamp
    }

    /// Pay earned since the checkpoint and not yet banked, rounded down.
    pub open spec fn live_accrual(self, now: u64) -> int {
        if self.accruing(now) {
            (self.wage_rate * (now - self.last_accrual_timestamp)) / period_seconds(
                self.wage_period,
            )
        } else {
            0
        }
    }

    /// Everything owed at `now`: the banked balance and the live accrual.
    pub open spec fn total_owed(self, now: u64) -> int {
        self.accrued_balance + self.live_accrual(now)
    }

    /// Whether the product of rate and elapsed seconds leaves the 128-bit
    /// range, so that the live accrual cannot be computed.
    pub open spec fn accrual_overflows(self, now: u64) -> bool {
        self.accruing(now) && self.wage_rate * (now - self.last_accrual_timestamp) > i128::MAX
    }

    /// Whether the amount owed at `now` cannot be computed in 128 bits.
    pub open spec fn owed_overflows(self, now: u64) -> bool {
        self.accrual_overflows(now) || self.total_owed(now) > i128::MAX
    }

    /// The account after `amount` was taken from what is owed at `now`.
    ///
    /// An amount within the banked balance leaves the checkpoint alone. A
    /// larger one empties the balance and moves the checkpoint forward by
    /// the seconds that the rest pays for, rounded down.
    pub open spec fn after_withdrawal(self, amount: i128) -> Employee {
        if amount <= self.accrued_balance {
            Employee { accrued_balance: (self.accrued_balance - amount) as i128, ..self }
        } else {
            Employee {
                accrued_balance: 0,
                last_accrual_timestamp: (self.last_accrual_timestamp + self.seconds_paid(
                    amount - self.accrued_balance,
                )) as u64,
                ..self
            }
        }
    }

    /// The seconds of accrual that `from_current` pays for, rounded down.
    pub open spec fn seconds_paid(self, from_current: int) -> int {
        (period_seconds(self.wage_period) * from_current) / (self.wage_rate as int)
    }

    /// The account after everything owed was paid out at `now`.
    pub open spec fn settled(self, now: u64) -> Employee {
        Employee { accrued_balance: 0, last_accrual_timestamp: now, ..self }
    }

    /// The account after the rate changed at `now`: what had accrued under
    /// the old rate is banked first.
    pub open spec fn with_rate(self, new_wage_rate: i128, now: u64) -> Employee {
        Employee {
            wage_rate: new_wage_rate,
            accrued_balance: self.total_owed(now) as i128,
            last_accrual_timestamp: now,
            ..self
        }
    }

    /// The account of an employee hired at `now`.
    pub open spec fn hired(wage_rate: i128, wage_period: u32, now: u64) -> Employee {
        Employee {
            wage_rate,
            last_accrual_timestamp: now,
            wage_period,
            accrued_balance: 0,
            active: true,
        }
    }

    /// Whether the account meets its invariant.
    pub fn is_valid(&self) -> (b: bool)
        ensures
            b == self.wf(),
    {
        self.wage_rate > 0 && self.wage_period <= WAGE_PERIOD_MONTH && self.accrued_balance >= 0
    }
}

} // verus!
