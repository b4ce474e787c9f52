use vstd::prelude::*;

verus! {

/// Why an operation was rejected. Every rejection leaves the state as it was.
#[derive(Clone, Copy, Debug, PartialEq, Eq, Structural)]
pub enum Error {
    AlreadyInitialized,
    InvalidWageRate,
    WithdrawalExceedsAccrued,
    EmployeeNotFound,
    NotAuthorized,
    InvalidAmount,
    EmployeeAlreadyExists,
    TokenNotConfigured,
    NothingToWithdraw,
    CannotRemoveActiveEmployee,
    InsufficientContractBalance,
    InvalidWagePeriod,
    Overflow,
}

impl Error {
    /// The number under which a host reports this error.
    pub open spec fn spec_code(self) -> u32 {
        match self {
            Error::AlreadyInitialized => 1,
            Error::InvalidWageRate => 2,
            Error::WithdrawalExceedsAccrued => 3,
            Error::EmployeeNotFound => 4,
            Error::NotAuthorized => 5,
            Error::InvalidAmount => 6,
            Error::EmployeeAlreadyExists => 7,
            Error::TokenNotConfigured => 8,
            Error::NothingToWithdraw => 9,
            Error::CannotRemoveActiveEmployee => 10,
            Error::InsufficientContractBalance => 11,
            Error::InvalidWagePeriod => 12,
            Error::Overflow => 13,
        }
    }

    /// The number under which a host reports this error: 1 to 13, in the
    /// order of the variants.
    pub fn code(self) -> (c: u32)
        ensures
            c == self.spec_code(),
            1 <= c <= 13,
    {
        match self {
            Error::AlreadyInitialized => 1,
            Error::InvalidWageRate => 2,
            Error::WithdrawalExceedsAccrued => 3,
            Error::EmployeeNotFound => 4,
            Error::NotAuthorized => 5,
            Error::InvalidAmount => 6,
            Error::EmployeeAlreadyExists => 7,
            Error::TokenNotConfigured => 8,
            Error::NothingToWithdraw => 9,
            Error::CannotRemoveActiveEmployee => 10,
            Error::InsufficientContractBalance => 11,
            Error::InvalidWagePeriod => 12,
            Error::Overflow => 13,
        }
    }
}

} // verus!
