use crate::accrual::{lemma_floor_bounds, lemma_floor_monotonic, lemma_withdrawal_from_live};
use crate::contract::FairWage;
use crate::employee::{period_seconds, Employee, WAGE_PERIOD_MONTH};
use crate::lifecycle::{lemma_without_contains, without};
use crate::settlement::{lemma_sweep_payees_contains, owed_sum, settled_for, sweep_payees, is_due};
use vstd::prelude::*;

verus! {

/// What an employee is owed never falls as time passes, and stays at the
/// banked balance for as long as the employee is inactive.
pub proof fn law_total_owed_monotonic(e: Employee, earlier: u64, later: u64)
    requires
        e.wf(),
        earlier <= later,
    ensures
        e.total_owed(earlier) <= e.total_owed(later),
        0 <= e.live_accrual(earlier) <= e.live_accrual(later),
        !e.active ==> e.total_owed(earlier) == e.total_owed(later) == e.accrued_balance,
{
    let rate = e.wage_rate as int;
    let period = period_seconds(e.wage_period);
    if e.accruing(later) {
        let long = later - e.last_accrual_timestamp;
        assert(rate * long >= 0) by (nonlinear_arith)
            requires
                rate > 0,
                long > 0,
        ;
        lemma_floor_bounds(rate * long, period);
        if e.accruing(earlier) {
            let short = earlier - e.last_accrual_timestamp;
            assert(0 <= rate * short <= rate * long) by (nonlinear_arith)
                requires
                    rate > 0,
                    0 < short <= long,
            ;
            lemma_floor_bounds(rate * short, period);
            lemma_floor_monotonic(rate * short, rate * long, period);
        }
    }
}

/// A withdrawal that is admitted takes no more than is owed, leaves an
/// account that meets its invariant, and leaves owed at least what was owed
/// less the amount, which is never negative.
pub proof fn law_withdrawal_within_owed(e: Employee, amount: i128, now: u64)
    requires
        e.wf(),
        FairWage::withdrawal_error(e, amount, now).is_none(),
    ensures
        0 < amount <= e.total_owed(now),
        e.after_withdrawal(amount).wf(),
        e.after_withdrawal(amount).total_owed(now) >= e.total_owed(now) - amount >= 0,
        e.last_accrual_timestamp <= e.after_withdrawal(amount).last_accrual_timestamp,
        amount > e.accrued_balance ==> e.after_withdrawal(amount).last_accrual_timestamp <= now,
{
    if amount > e.accrued_balance {
        lemma_withdrawal_from_live(e, amount - e.accrued_balance, now);
    }
}

/// The checkpoint moves by the most whole seconds that `from_current` pays
/// for in full: it falls short of the exact time by less than one second, so
/// that the fraction of a second is still to accrue.
pub proof fn law_checkpoint_advance_is_proportional(e: Employee, from_current: int)
    requires
        e.wf(),
        from_current >= 0,
    ensures
        e.seconds_paid(from_current) >= 0,
        e.wage_rate * e.seconds_paid(from_current) <= from_current * period_seconds(e.wage_period),
        from_current * period_seconds(e.wage_period) < e.wage_rate * (e.seconds_paid(from_current)
            + 1),
{
    let rate = e.wage_rate as int;
    let paid = period_seconds(e.wage_period) * from_current;
    let seconds = e.seconds_paid(from_current);
    assert(paid >= 0) by (nonlinear_arith)
        requires
            paid == period_seconds(e.wage_period) * from_current,
            period_seconds(e.wage_period) > 0,
            from_current >= 0,
    ;
    lemma_floor_bounds(paid, rate);
    assert(paid == from_current * period_seconds(e.wage_period)) by (nonlinear_arith)
        requires
            paid == period_seconds(e.wage_period) * from_current,
    ;
    assert(rate * seconds == seconds * rate && rate * (seconds + 1) == seconds * rate + rate)
        by (nonlinear_arith);
}

/// An employee hired at `now` is owed nothing at `now`.
pub proof fn law_hired_owes_nothing(wage_rate: i128, wage_period: u32, now: u64)
    requires
        wage_rate > 0,
        wage_period <= WAGE_PERIOD_MONTH,
    ensures
        Employee::hired(wage_rate, wage_period, now).wf(),
        Employee::hired(wage_rate, wage_period, now).total_owed(now) == 0,
        !Employee::hired(wage_rate, wage_period, now).owed_overflows(now),
{
}

/// After a hire at `now`, a query for the new employee's balance at `now`
/// returns zero.
pub proof fn law_hire_then_query(
    before: FairWage,
    after: FairWage,
    id: u64,
    wage_rate: i128,
    wage_period: u32,
    now: u64,
)
    requires
        before.hire_error(id, wage_rate, wage_period).is_none(),
        after.employees@ == before.employees@.insert(
            id,
            Employee::hired(wage_rate, wage_period, now),
        ),
    ensures
        after.balance_at(id, now) == Ok::<i128, crate::error::Error>(0i128),
{
    law_hired_owes_nothing(wage_rate, wage_period, now);
}

/// A change of rate creates and destroys nothing: what is owed at the
/// moment of the change is the same before and after it.
pub proof fn law_rate_change_neutral(e: Employee, new_wage_rate: i128, now: u64)
    requires
        e.wf(),
        new_wage_rate > 0,
        !e.owed_overflows(now),
    ensures
        e.with_rate(new_wage_rate, now).wf(),
        e.with_rate(new_wage_rate, now).total_owed(now) == e.total_owed(now),
{
    law_total_owed_monotonic(e, now, now);
}

/// After a settlement at `now` nothing is owed at `now`.
pub proof fn law_settled_owes_nothing(e: Employee, now: u64)
    requires
        e.wf(),
    ensures
        e.settled(now).wf(),
        e.settled(now).total_owed(now) == 0,
        e.settled(now).settled(now) == e.settled(now),
{
}

/// A frozen employee is owed nothing after the freeze, at any time.
pub proof fn law_frozen_owes_nothing(e: Employee, now: u64, later: u64)
    requires
        e.wf(),
    ensures
        FairWage::frozen(e, now).wf(),
        !FairWage::frozen(e, now).active,
        FairWage::frozen(e, now).total_owed(later) == 0,
{
    law_total_owed_monotonic(e, now, now);
}

/// Activation grants nothing for the time spent frozen: a frozen employee
/// activated at `now` is owed at `now` what was banked.
pub proof fn law_activation_not_retroactive(e: Employee, now: u64)
    requires
        e.wf(),
        !e.active,
    ensures
        FairWage::activated(e, now).wf(),
        FairWage::activated(e, now).active,
        FairWage::activated(e, now).total_owed(now) == e.total_owed(now) == e.accrued_balance,
{
}

/// No operation on an account breaks its invariant or changes its wage
/// period.
pub proof fn law_transitions_keep_invariant(e: Employee, new_wage_rate: i128, amount: i128, now: u64)
    requires
        e.wf(),
    ensures
        e.settled(now).wf() && e.settled(now).wage_period == e.wage_period,
        FairWage::frozen(e, now).wf() && FairWage::frozen(e, now).wage_period == e.wage_period,
        FairWage::activated(e, now).wf() && FairWage::activated(e, now).wage_period
            == e.wage_period,
        FairWage::repaired(e, now).wf() && FairWage::repaired(e, now).wage_period == e.wage_period,
        new_wage_rate > 0 && !e.owed_overflows(now) ==> e.with_rate(new_wage_rate, now).wf()
            && e.with_rate(new_wage_rate, now).wage_period == e.wage_period,
        FairWage::withdrawal_error(e, amount, now).is_none() ==> e.after_withdrawal(amount).wf()
            && e.after_withdrawal(amount).wage_period == e.wage_period,
{
    law_total_owed_monotonic(e, now, now);
    if new_wage_rate > 0 && !e.owed_overflows(now) {
        law_rate_change_neutral(e, new_wage_rate, now);
    }
    if FairWage::withdrawal_error(e, amount, now).is_none() {
        law_withdrawal_within_owed(e, amount, now);
    }
}

/// With a clock that does not run backwards no operation moves a checkpoint
/// back: not a settlement, a change of rate, a freeze, an activation or a
/// repair at `now`, nor a withdrawal at any time.
pub proof fn law_checkpoint_never_decreases(e: Employee, new_wage_rate: i128, amount: i128, now: u64)
    requires
        e.wf(),
        e.last_accrual_timestamp <= now,
    ensures
        e.last_accrual_timestamp <= e.settled(now).last_accrual_timestamp,
        e.last_accrual_timestamp <= e.with_rate(new_wage_rate, now).last_accrual_timestamp,
        e.last_accrual_timestamp <= FairWage::frozen(e, now).last_accrual_timestamp,
        e.last_accrual_timestamp <= FairWage::activated(e, now).last_accrual_timestamp,
        e.last_accrual_timestamp <= FairWage::repaired(e, now).last_accrual_timestamp,
        FairWage::withdrawal_error(e, amount, now).is_none() ==> e.last_accrual_timestamp
            <= e.after_withdrawal(amount).last_accrual_timestamp,
{
    if FairWage::withdrawal_error(e, amount, now).is_none() {
        law_withdrawal_within_owed(e, amount, now);
    }
}

/// A batch sweep that the pool cannot cover is rejected, whatever else
/// holds; and a rejected sweep changes no account, as the contract of
/// `payday_sweep_many` says of every rejection.
pub proof fn law_batch_sweep_all_or_nothing(
    state: FairWage,
    ids: Seq<u64>,
    now: u64,
    contract_balance: i128,
)
    requires
        contract_balance < owed_sum(state.employees@, sweep_payees(state.employees@, ids, now), now),
    ensures
        state.batch_error(ids, now, contract_balance).is_some(),
{
}

/// A batch sweep settles exactly the known identifiers among `ids` to whom
/// something is owed, and leaves every other account as it was.
pub proof fn law_batch_sweep_accounts(accounts: Map<u64, Employee>, ids: Seq<u64>, now: u64, id: u64)
    requires
        accounts.contains_key(id),
    ensures
        ({
            let after = settled_for(accounts, sweep_payees(accounts, ids, now), now);
            &&& after.contains_key(id)
            &&& ids.contains(id) && is_due(accounts, id, now) ==> after[id] == accounts[id].settled(now)
            &&& !(ids.contains(id) && is_due(accounts, id, now)) ==> after[id] == accounts[id]
        }),
{
    lemma_sweep_payees_contains(accounts, ids, now, id);
}

/// Removal takes an employee out of the registry and leaves every other
/// entry in it.
pub proof fn law_removed_not_listed(list: Seq<u64>, id: u64, other: u64)
    ensures
        !without(list, id).contains(id),
        other != id ==> (without(list, id).contains(other) <==> list.contains(other)),
{
    lemma_without_contains(list, id, id);
    lemma_without_contains(list, id, other);
}

} // verus!
