//! The ledger operations that programs perform: minting, transfers and the life of a loan.
//! Each operation checks its own conditions, changes the ledger, and then checks the ledger's
//! invariants; an error after a change leaves the change in place.
use vstd::prelude::*;
use crate::decimal::{decimal_text, push_decimal, ratio_at_least, Decimal};
use crate::keys::same_text;
use crate::table::lemma_key_order_finite;
use crate::state::{
    balance_of, invariant_error, invariants_hold, lemma_closed_loan_owes_nothing, lemma_new_debt_keeps_invariants, lemma_with_balance_invariants, pledge_owner, pledged_asset, required_of, spec_ratio, spec_update_status, unit_view,
    with_balance, FinancialState, LoanStatus, SpecState,
};
use crate::text::{nat_text, push_nat, push_str, text};

verus! {

/// An operation's outcome and the ledger after it.
pub type Step = (Result<(), Seq<char>>, SpecState);

/// The outcome of checking the invariants on a changed ledger.
pub open spec fn finish(s: SpecState) -> Step {
    match invariant_error(s) {
        Some(m) => (Err(m), s),
        None => (Ok(()), s),
    }
}

/// Adding to a balance.
pub open spec fn spec_try_add(s: SpecState, account: Seq<char>, amount: u64) -> Step {
    if balance_of(s, account) + amount > u64::MAX {
        (Err("Balance overflow for "@ + account), s)
    } else {
        (Ok(()), with_balance(s, account, (balance_of(s, account) + amount) as u64))
    }
}

/// Taking from a balance.
pub open spec fn spec_sub(s: SpecState, account: Seq<char>, amount: u64) -> Step {
    if balance_of(s, account) < amount {
        (
            Err(
                "Insufficient balance for "@ + account + ": has "@ + nat_text(balance_of(s, account))
                    + ", needs "@ + nat_text(amount as nat),
            ),
            s,
        )
    } else {
        (Ok(()), with_balance(s, account, (balance_of(s, account) - amount) as u64))
    }
}

pub open spec fn spec_mint(s: SpecState, account: Seq<char>, amount: u64) -> Step {
    let (r, s1) = spec_try_add(s, account, amount);
    match r {
        Err(m) => (Err(m), s1),
        Ok(()) => finish(s1),
    }
}

pub open spec fn spec_transfer(s: SpecState, asset_id: Seq<char>, from: Seq<char>, to: Seq<char>) -> Step {
    if !s.assets.contains_key(asset_id) {
        (Err("Asset "@ + asset_id + " not found"@), s)
    } else if s.assets[asset_id] != from {
        (Err("Asset "@ + asset_id + " not owned by "@ + from), s)
    } else {
        finish(SpecState { assets: s.assets.insert(asset_id, to), ..s })
    }
}

/// The ledger once a loan's money has moved: the pledge, the claim and the debt recorded.
pub open spec fn record_loan(
    s: SpecState,
    loan_id: Seq<char>,
    amount: u64,
    collateral_asset_id: Seq<char>,
    collateral_value: u64,
    required_ratio: Decimal,
) -> SpecState {
    SpecState {
        assets: s.assets.insert(collateral_asset_id, pledge_owner(loan_id)),
        asset_value: s.asset_value.insert(collateral_asset_id, collateral_value),
        receivables: s.receivables.insert(loan_id, amount),
        debts: s.debts.insert(loan_id, amount),
        collaterals: s.collaterals.insert(loan_id, collateral_value),
        required_ratio: s.required_ratio.insert(loan_id, required_ratio),
        ..s
    }
}

pub open spec fn spec_create_loan(
    s: SpecState,
    borrower: Seq<char>,
    lender_pool: Seq<char>,
    loan_id: Seq<char>,
    amount: u64,
    collateral_asset_id: Seq<char>,
    collateral_value: u64,
    required_ratio: Decimal,
) -> Step {
    if amount == 0 {
        (Err("Loan amount must be > 0"@), s)
    } else if required_ratio.mantissa == 0 {
        (Err("Required ratio must be > 0"@), s)
    } else if s.debts.contains_key(loan_id) || s.loan_status.contains_key(loan_id) {
        (Err("Loan "@ + loan_id + " already exists"@), s)
    } else if !s.assets.contains_key(collateral_asset_id) {
        (Err("Collateral asset "@ + collateral_asset_id + " not found"@), s)
    } else if s.assets[collateral_asset_id] != borrower {
        (Err("Collateral asset "@ + collateral_asset_id + " not owned by borrower"@), s)
    } else if collateral_value == 0 {
        (Err("Collateral value must be > 0"@), s)
    } else if !required_ratio.at_most_ratio(collateral_value as nat, amount as nat) {
        (
            Err(
                "Collateral ratio too low: "@ + nat_text(collateral_value as nat) + " / "@ + nat_text(
                    amount as nat,
                ) + " < "@ + decimal_text(required_ratio),
            ),
            s,
        )
    } else {
        let (r1, s1) = spec_sub(s, lender_pool, amount);
        match r1 {
            Err(m) => (Err(m), s1),
            Ok(()) => {
                let (r2, s2) = spec_try_add(s1, borrower, amount);
                match r2 {
                    Err(m) => (Err(m), s2),
                    Ok(()) => finish(
                        spec_update_status(
                            record_loan(s2, loan_id, amount, collateral_asset_id, collateral_value, required_ratio),
                            loan_id,
                        ),
                    ),
                }
            },
        }
    }
}

/// The ledger once a loan is fully repaid: closed, its pledge back with the borrower, and its
/// debt and claim gone.
pub open spec fn close_repaid(s: SpecState, borrower: Seq<char>, loan_id: Seq<char>) -> SpecState {
    let s1 = SpecState { loan_status: s.loan_status.insert(loan_id, LoanStatus::Closed), ..s };
    let s2 = match pledged_asset(s1, loan_id) {
        Some(a) => SpecState { assets: s1.assets.insert(a, borrower), ..s1 },
        None => s1,
    };
    SpecState { debts: s2.debts.remove(loan_id), receivables: s2.receivables.remove(loan_id), ..s2 }
}

pub open spec fn spec_repay(
    s: SpecState,
    borrower: Seq<char>,
    lender_pool: Seq<char>,
    loan_id: Seq<char>,
    payment: u64,
) -> Step {
    if !s.debts.contains_key(loan_id) {
        (Err("Loan "@ + loan_id + " not found"@), s)
    } else if payment == 0 {
        (Err("Payment must be > 0"@), s)
    } else if payment > s.debts[loan_id] {
        (Err("Payment exceeds debt"@), s)
    } else {
        let debt = s.debts[loan_id];
        let (r1, s1) = spec_sub(s, borrower, payment);
        match r1 {
            Err(m) => (Err(m), s1),
            Ok(()) => {
                let (r2, s2) = spec_try_add(s1, lender_pool, payment);
                match r2 {
                    Err(m) => (Err(m), s2),
                    Ok(()) => {
                        let new_debt = (debt - payment) as u64;
                        let s3 = SpecState {
                            debts: s2.debts.insert(loan_id, new_debt),
                            receivables: s2.receivables.insert(loan_id, new_debt),
                            ..s2
                        };
                        if new_debt == 0 {
                            finish(close_repaid(s3, borrower, loan_id))
                        } else {
                            finish(spec_update_status(s3, loan_id))
                        }
                    },
                }
            },
        }
    }
}

pub open spec fn spec_price_update(s: SpecState, loan_id: Seq<char>, new_collateral_value: u64) -> Step {
    if new_collateral_value == 0 {
        (Err("Price update must be > 0"@), s)
    } else if !s.debts.contains_key(loan_id) {
        (Err("Loan "@ + loan_id + " not found"@), s)
    } else if s.debts[loan_id] == 0 {
        finish(SpecState { loan_status: s.loan_status.insert(loan_id, LoanStatus::Closed), ..s })
    } else {
        let s1 = SpecState { collaterals: s.collaterals.insert(loan_id, new_collateral_value), ..s };
        let s2 = match pledged_asset(s1, loan_id) {
            Some(a) => SpecState { asset_value: s1.asset_value.insert(a, new_collateral_value), ..s1 },
            None => s1,
        };
        finish(spec_update_status(s2, loan_id))
    }
}

/// The ledger once a liquidated loan is settled: closed with nothing owed, its pledge removed.
pub open spec fn settle_liquidated(s: SpecState, loan_id: Seq<char>) -> SpecState {
    let s1 = SpecState {
        debts: s.debts.insert(loan_id, 0),
        receivables: s.receivables.insert(loan_id, 0),
        loan_status: s.loan_status.insert(loan_id, LoanStatus::Closed),
        ..s
    };
    match pledged_asset(s1, loan_id) {
        Some(a) => SpecState { assets: s1.assets.remove(a), asset_value: s1.asset_value.remove(a), ..s1 },
        None => s1,
    }
}

pub open spec fn spec_liquidate(s: SpecState, loan_id: Seq<char>) -> Step {
    if !(s.loan_status.contains_key(loan_id) && s.loan_status[loan_id] == LoanStatus::Liquidatable) {
        (Err("Loan "@ + loan_id + " is not Liquidatable"@), s)
    } else if !s.debts.contains_key(loan_id) {
        (Err("Loan "@ + loan_id + " not found"@), s)
    } else if s.debts[loan_id] == 0 {
        (Err("Loan already closed"@), s)
    } else if !s.collaterals.contains_key(loan_id) {
        (Err("Loan "@ + loan_id + " has no collateral"@), s)
    } else if s.collaterals[loan_id] < s.debts[loan_id] {
        (Err("Collateral value insufficient to cover debt"@), s)
    } else {
        let debt = s.debts[loan_id];
        let surplus = (s.collaterals[loan_id] - debt) as u64;
        let (r1, s1) = spec_try_add(s, "liquidation_pool"@, debt);
        match r1 {
            Err(m) => (Err(m), s1),
            Ok(()) => {
                let (r2, s2) = if surplus > 0 {
                    spec_try_add(s1, "surplus_pool"@, surplus)
                } else {
                    (Ok(()), s1)
                };
                match r2 {
                    Err(m) => (Err(m), s2),
                    Ok(()) => finish(settle_liquidated(s2, loan_id)),
                }
            },
        }
    }
}

// ---------------------------------------------------------------------------------------------
// The operations.

/// Mints money into an account.
pub fn mint(state: &mut FinancialState, account: &str, amount: u64) -> (r: Result<(), String>)
    ensures
        (unit_view(r), final(state)@) == spec_mint(old(state)@, account@, amount),
        r is Ok ==> invariants_hold(final(state)@),
        r is Ok ==> final(state)@ == with_balance(old(state)@, account@, (balance_of(old(state)@, account@) + amount) as u64),
        balance_of(old(state)@, account@) + amount > u64::MAX ==> r is Err && final(state)@ == old(state)@,
        invariants_hold(old(state)@) ==> (r is Ok <==> balance_of(old(state)@, account@) + amount <= u64::MAX / 2),
{
    state.balances.lemma_keys();
    match state.try_add_balance(account, amount) {
        Ok(()) => {},
        Err(m) => {
            return Err(m);
        },
    }
    state.balances.lemma_keys();
    proof {
        if invariants_hold(old(state)@) {
            let v = (balance_of(old(state)@, account@) + amount) as u64;
            assert(state@.balances.dom() =~= old(state)@.balances.dom().insert(account@));
            lemma_with_balance_invariants(old(state)@, account@, v);
        }
    }
    state.check_invariants()
}

/// Hands an asset from its owner to another account.
pub fn transfer_asset(state: &mut FinancialState, asset_id: &str, from: &str, to: &str) -> (r: Result<(), String>)
    ensures
        (unit_view(r), final(state)@) == spec_transfer(old(state)@, asset_id@, from@, to@),
        r is Ok ==> invariants_hold(final(state)@),
{
    match state.assets.get(asset_id) {
        None => {
            let mut m = text("Asset ");
            push_str(&mut m, asset_id);
            push_str(&mut m, " not found");
            return Err(m);
        },
        Some(owner) => {
            if !same_text(owner.as_str(), from) {
                let mut m = text("Asset ");
                push_str(&mut m, asset_id);
                push_str(&mut m, " not owned by ");
                push_str(&mut m, from);
                return Err(m);
            }
        },
    }
    state.assets.insert(text(asset_id), text(to));
    state.check_invariants()
}

fn record(
    state: &mut FinancialState,
    loan_id: &str,
    amount: u64,
    collateral_asset_id: &str,
    collateral_value: u64,
    required_ratio: Decimal,
)
    ensures
        final(state)@ == record_loan(old(state)@, loan_id@, amount, collateral_asset_id@, collateral_value, required_ratio),
{
    let mut owner = text("loan:");
    push_str(&mut owner, loan_id);
    state.assets.insert(text(collateral_asset_id), owner);
    state.asset_value.insert(text(collateral_asset_id), collateral_value);
    state.receivables.insert(text(loan_id), amount);
    state.debts.insert(text(loan_id), amount);
    state.collaterals.insert(text(loan_id), collateral_value);
    state.required_ratio.insert(text(loan_id), required_ratio);
}

/// Opens a loan: the lender pool pays the borrower, whose asset is pledged as collateral worth
/// at least the required ratio of the amount.
pub fn create_loan(
    state: &mut FinancialState,
    borrower: &str,
    lender_pool: &str,
    loan_id: &str,
    amount: u64,
    collateral_asset_id: &str,
    collateral_value: u64,
    required_ratio: Decimal,
) -> (r: Result<(), String>)
    ensures
        (unit_view(r), final(state)@) == spec_create_loan(
            old(state)@,
            borrower@,
            lender_pool@,
            loan_id@,
            amount,
            collateral_asset_id@,
            collateral_value,
            required_ratio,
        ),
        r is Ok ==> invariants_hold(final(state)@),
{
    if amount == 0 {
        return Err(text("Loan amount must be > 0"));
    }
    if required_ratio.mantissa == 0 {
        return Err(text("Required ratio must be > 0"));
    }
    if state.debts.contains_key(loan_id) || state.loan_status.contains_key(loan_id) {
        let mut m = text("Loan ");
        push_str(&mut m, loan_id);
        push_str(&mut m, " already exists");
        return Err(m);
    }
    match state.assets.get(collateral_asset_id) {
        None => {
            let mut m = text("Collateral asset ");
            push_str(&mut m, collateral_asset_id);
            push_str(&mut m, " not found");
            return Err(m);
        },
        Some(owner) => {
            if !same_text(owner.as_str(), borrower) {
                let mut m = text("Collateral asset ");
                push_str(&mut m, collateral_asset_id);
                push_str(&mut m, " not owned by borrower");
                return Err(m);
            }
        },
    }
    if collateral_value == 0 {
        return Err(text("Collateral value must be > 0"));
    }
    if !ratio_at_least(collateral_value, amount, required_ratio) {
        let mut m = text("Collateral ratio too low: ");
        push_nat(&mut m, collateral_value);
        push_str(&mut m, " / ");
        push_nat(&mut m, amount);
        push_str(&mut m, " < ");
        push_decimal(&mut m, required_ratio);
        return Err(m);
    }
    match state.sub_balance(lender_pool, amount) {
        Ok(()) => {},
        Err(m) => {
            return Err(m);
        },
    }
    match state.try_add_balance(borrower, amount) {
        Ok(()) => {},
        Err(m) => {
            return Err(m);
        },
    }
    record(state, loan_id, amount, collateral_asset_id, collateral_value, required_ratio);
    let _ = state.update_loan_status(loan_id);
    state.check_invariants()
}

fn close_loan(state: &mut FinancialState, borrower: &str, loan_id: &str)
    ensures
        final(state)@ == close_repaid(old(state)@, borrower@, loan_id@),
{
    state.loan_status.insert(text(loan_id), LoanStatus::Closed);
    match state.pledged_asset(loan_id) {
        Some(asset_id) => {
            state.assets.insert(asset_id, text(borrower));
        },
        None => {},
    }
    state.debts.remove(loan_id);
    state.receivables.remove(loan_id);
}

/// Repays part or all of a loan; a loan repaid in full is closed and its pledge returned.
pub fn repay(state: &mut FinancialState, borrower: &str, lender_pool: &str, loan_id: &str, payment: u64) -> (r: Result<(), String>)
    ensures
        (unit_view(r), final(state)@) == spec_repay(old(state)@, borrower@, lender_pool@, loan_id@, payment),
        r is Ok ==> invariants_hold(final(state)@),
{
    let debt = match state.debts.get(loan_id) {
        Some(d) => *d,
        None => {
            let mut m = text("Loan ");
            push_str(&mut m, loan_id);
            push_str(&mut m, " not found");
            return Err(m);
        },
    };
    if payment == 0 {
        return Err(text("Payment must be > 0"));
    }
    if payment > debt {
        return Err(text("Payment exceeds debt"));
    }
    match state.sub_balance(borrower, payment) {
        Ok(()) => {},
        Err(m) => {
            return Err(m);
        },
    }
    match state.try_add_balance(lender_pool, payment) {
        Ok(()) => {},
        Err(m) => {
            return Err(m);
        },
    }
    let new_debt = debt - payment;
    state.debts.insert(text(loan_id), new_debt);
    state.receivables.insert(text(loan_id), new_debt);
    if new_debt == 0 {
        close_loan(state, borrower, loan_id);
    } else {
        let _ = state.update_loan_status(loan_id);
    }
    state.check_invariants()
}

/// Revalues a loan's collateral and recomputes its status.
pub fn price_update(state: &mut FinancialState, loan_id: &str, new_collateral_value: u64) -> (r: Result<(), String>)
    ensures
        (unit_view(r), final(state)@) == spec_price_update(old(state)@, loan_id@, new_collateral_value),
        r is Ok ==> invariants_hold(final(state)@),
{
    if new_collateral_value == 0 {
        return Err(text("Price update must be > 0"));
    }
    let debt = match state.debts.get(loan_id) {
        Some(d) => *d,
        None => {
            let mut m = text("Loan ");
            push_str(&mut m, loan_id);
            push_str(&mut m, " not found");
            return Err(m);
        },
    };
    if debt == 0 {
        state.loan_status.insert(text(loan_id), LoanStatus::Closed);
    } else {
        state.collaterals.insert(text(loan_id), new_collateral_value);
        match state.pledged_asset(loan_id) {
            Some(asset_id) => {
                state.asset_value.insert(asset_id, new_collateral_value);
            },
            None => {},
        }
        let _ = state.update_loan_status(loan_id);
    }
    state.check_invariants()
}

fn settle(state: &mut FinancialState, loan_id: &str)
    ensures
        final(state)@ == settle_liquidated(old(state)@, loan_id@),
{
    state.debts.insert(text(loan_id), 0);
    state.receivables.insert(text(loan_id), 0);
    state.loan_status.insert(text(loan_id), LoanStatus::Closed);
    match state.pledged_asset(loan_id) {
        Some(asset_id) => {
            state.assets.remove(asset_id.as_str());
            state.asset_value.remove(asset_id.as_str());
        },
        None => {},
    }
}

/// Liquidates a loan below its required ratio: the debt goes to the liquidation pool, any
/// surplus of the collateral to the surplus pool, and the pledge is removed.
pub fn liquidate(state: &mut FinancialState, loan_id: &str) -> (r: Result<(), String>)
    ensures
        (unit_view(r), final(state)@) == spec_liquidate(old(state)@, loan_id@),
        r is Ok ==> invariants_hold(final(state)@),
{
    let liquidatable = match state.loan_status.get(loan_id) {
        Some(st) => match st {
            LoanStatus::Liquidatable => true,
            _ => false,
        },
        None => false,
    };
    if !liquidatable {
        let mut m = text("Loan ");
        push_str(&mut m, loan_id);
        push_str(&mut m, " is not Liquidatable");
        return Err(m);
    }
    let debt = match state.debts.get(loan_id) {
        Some(d) => *d,
        None => {
            let mut m = text("Loan ");
            push_str(&mut m, loan_id);
            push_str(&mut m, " not found");
            return Err(m);
        },
    };
    if debt == 0 {
        return Err(text("Loan already closed"));
    }
    let collateral_value = match state.collaterals.get(loan_id) {
        Some(c) => *c,
        None => {
            let mut m = text("Loan ");
            push_str(&mut m, loan_id);
            push_str(&mut m, " has no collateral");
            return Err(m);
        },
    };
    if collateral_value < debt {
        return Err(text("Collateral value insufficient to cover debt"));
    }
    match state.try_add_balance("liquidation_pool", debt) {
        Ok(()) => {},
        Err(m) => {
            return Err(m);
        },
    }
    let surplus = collateral_value - debt;
    if surplus > 0 {
        match state.try_add_balance("surplus_pool", surplus) {
            Ok(()) => {},
            Err(m) => {
                return Err(m);
            },
        }
    }
    settle(state, loan_id);
    state.check_invariants()
}


// ---------------------------------------------------------------------------------------------
// Laws of the ledger operations.

/// On a ledger that keeps its invariants, minting succeeds exactly when the new balance stays
/// within half of `u64::MAX`; it then changes that balance alone, and an amount that would
/// overflow leaves the ledger untouched.
pub proof fn law_mint_within_bound(s: SpecState, account: Seq<char>, amount: u64)
    requires
        invariants_hold(s),
        s.balances.dom().finite(),
    ensures
        spec_mint(s, account, amount).0 is Ok <==> balance_of(s, account) + amount <= u64::MAX / 2,
        spec_mint(s, account, amount).0 is Ok ==> spec_mint(s, account, amount).1 == with_balance(
            s,
            account,
            (balance_of(s, account) + amount) as u64,
        ),
        balance_of(s, account) + amount > u64::MAX ==> spec_mint(s, account, amount).1 == s,
{
    lemma_key_order_finite(s.balances.dom());
    lemma_key_order_finite(s.balances.dom().insert(account));
    if balance_of(s, account) + amount <= u64::MAX {
        lemma_with_balance_invariants(s, account, (balance_of(s, account) + amount) as u64);
    }
}

/// Minting adds exactly the amount to the account's balance.
pub proof fn law_mint_adds(s: SpecState, account: Seq<char>, amount: u64)
    requires
        spec_mint(s, account, amount).0 is Ok,
    ensures
        balance_of(spec_mint(s, account, amount).1, account) == balance_of(s, account) + amount,
{
}

/// A transfer succeeds only for the asset's owner, and leaves the asset with the receiver.
pub proof fn law_transfer_by_owner(s: SpecState, asset_id: Seq<char>, from: Seq<char>, to: Seq<char>)
    requires
        spec_transfer(s, asset_id, from, to).0 is Ok,
    ensures
        s.assets.contains_key(asset_id) && s.assets[asset_id] == from,
        spec_transfer(s, asset_id, from, to).1.assets[asset_id] == to,
{
}

/// A repayment moves the payment from the borrower to the lender pool.
pub proof fn law_repay_moves_payment(
    s: SpecState,
    borrower: Seq<char>,
    lender_pool: Seq<char>,
    loan_id: Seq<char>,
    payment: u64,
)
    requires
        spec_repay(s, borrower, lender_pool, loan_id, payment).0 is Ok,
        borrower != lender_pool,
    ensures
        s.debts.contains_key(loan_id) && 0 < payment <= s.debts[loan_id],
        balance_of(spec_repay(s, borrower, lender_pool, loan_id, payment).1, borrower) + payment
            == balance_of(s, borrower),
        balance_of(spec_repay(s, borrower, lender_pool, loan_id, payment).1, lender_pool)
            == balance_of(s, lender_pool) + payment,
{
    let (r1, s1) = spec_sub(s, borrower, payment);
    let (r2, s2) = spec_try_add(s1, lender_pool, payment);
    assert(balance_of(s1, lender_pool) == balance_of(s, lender_pool));
    assert(balance_of(s2, borrower) == balance_of(s1, borrower));
}

/// A loan that opens meets its required ratio; the lender pool pays the amount to the borrower,
/// the pledge is locked to the loan, the debt and the claim are recorded, and the loan is safe.
pub proof fn law_create_loan_records(
    s: SpecState,
    borrower: Seq<char>,
    lender_pool: Seq<char>,
    loan_id: Seq<char>,
    amount: u64,
    collateral_asset_id: Seq<char>,
    collateral_value: u64,
    required_ratio: Decimal,
)
    requires
        spec_create_loan(s, borrower, lender_pool, loan_id, amount, collateral_asset_id, collateral_value, required_ratio).0 is Ok,
        borrower != lender_pool,
    ensures
        ({
            let t = spec_create_loan(
                s,
                borrower,
                lender_pool,
                loan_id,
                amount,
                collateral_asset_id,
                collateral_value,
                required_ratio,
            ).1;
            &&& required_ratio.at_most_ratio(collateral_value as nat, amount as nat)
            &&& s.assets[collateral_asset_id] == borrower
            &&& balance_of(t, borrower) == balance_of(s, borrower) + amount
            &&& balance_of(t, lender_pool) + amount == balance_of(s, lender_pool)
            &&& t.assets[collateral_asset_id] == pledge_owner(loan_id)
            &&& t.debts[loan_id] == amount
            &&& t.receivables[loan_id] == amount
            &&& t.collaterals[loan_id] == collateral_value
            &&& t.loan_status[loan_id] == LoanStatus::ActiveSafe
        }),
{
    let (r1, s1) = spec_sub(s, lender_pool, amount);
    let (r2, s2) = spec_try_add(s1, borrower, amount);
    assert(balance_of(s1, borrower) == balance_of(s, borrower));
    assert(balance_of(s2, lender_pool) == balance_of(s1, lender_pool));
    let s3 = record_loan(s2, loan_id, amount, collateral_asset_id, collateral_value, required_ratio);
    assert(spec_ratio(s3, loan_id) == Some((collateral_value, amount)));
    assert(required_of(s3, loan_id) == required_ratio);
}

/// A repayment short of the debt leaves the rest owed and claimed, and the loan open.
pub proof fn law_partial_repayment_keeps_loan_open(
    s: SpecState,
    borrower: Seq<char>,
    lender_pool: Seq<char>,
    loan_id: Seq<char>,
    payment: u64,
)
    requires
        spec_repay(s, borrower, lender_pool, loan_id, payment).0 is Ok,
        payment < s.debts[loan_id],
        s.loan_status.dom().finite(),
    ensures
        spec_repay(s, borrower, lender_pool, loan_id, payment).1.debts[loan_id] == s.debts[loan_id] - payment,
        spec_repay(s, borrower, lender_pool, loan_id, payment).1.receivables[loan_id] == s.debts[loan_id] - payment,
        spec_repay(s, borrower, lender_pool, loan_id, payment).1.loan_status[loan_id] != LoanStatus::Closed,
{
    let t = spec_repay(s, borrower, lender_pool, loan_id, payment).1;
    assert(t.loan_status.dom() =~= s.loan_status.dom().insert(loan_id));
    if t.loan_status[loan_id] == LoanStatus::Closed {
        lemma_closed_loan_owes_nothing(t, loan_id);
    }
}

/// On a ledger that keeps its invariants, a repayment short of the debt of a loan with a
/// pledge succeeds whenever the borrower can pay and the lender pool stays within half of
/// `u64::MAX`; the rest stays owed, and the loan's status is the one its new ratio calls for:
/// safe while the collateral covers the required ratio of the remaining debt, liquidatable
/// otherwise.
pub proof fn law_partial_repayment_recomputes_status(
    s: SpecState,
    borrower: Seq<char>,
    lender_pool: Seq<char>,
    loan_id: Seq<char>,
    payment: u64,
)
    requires
        invariants_hold(s),
        s.balances.dom().finite(),
        s.loan_status.dom().finite(),
        s.debts.contains_key(loan_id),
        0 < payment < s.debts[loan_id],
        s.collaterals.contains_key(loan_id),
        borrower != lender_pool,
        balance_of(s, borrower) >= payment,
        balance_of(s, lender_pool) + payment <= u64::MAX / 2,
    ensures
        ({
            let (r, t) = spec_repay(s, borrower, lender_pool, loan_id, payment);
            &&& r is Ok
            &&& t.debts[loan_id] == s.debts[loan_id] - payment
            &&& t.loan_status[loan_id] == if required_of(s, loan_id).at_most_ratio(
                s.collaterals[loan_id] as nat,
                (s.debts[loan_id] - payment) as nat,
            ) {
                LoanStatus::ActiveSafe
            } else {
                LoanStatus::Liquidatable
            }
        }),
{
    let s1 = with_balance(s, borrower, (balance_of(s, borrower) - payment) as u64);
    lemma_key_order_finite(s.balances.dom());
    lemma_key_order_finite(s.balances.dom().insert(borrower));
    if s.balances.contains_key(borrower) {
        lemma_with_balance_invariants(s, borrower, s.balances[borrower]);
        assert(with_balance(s, borrower, s.balances[borrower]).balances =~= s.balances);
        assert(with_balance(s, borrower, s.balances[borrower]) == s);
    }
    lemma_with_balance_invariants(s, borrower, (balance_of(s, borrower) - payment) as u64);
    assert(s1.balances.dom() =~= s.balances.dom().insert(borrower));
    assert(balance_of(s1, lender_pool) == balance_of(s, lender_pool));
    let s2 = with_balance(s1, lender_pool, (balance_of(s1, lender_pool) + payment) as u64);
    lemma_key_order_finite(s1.balances.dom());
    lemma_key_order_finite(s1.balances.dom().insert(lender_pool));
    lemma_with_balance_invariants(s1, lender_pool, (balance_of(s1, lender_pool) + payment) as u64);
    let d = (s.debts[loan_id] - payment) as u64;
    lemma_new_debt_keeps_invariants(s2, loan_id, d);
    let s3 = SpecState { debts: s2.debts.insert(loan_id, d), receivables: s2.receivables.insert(loan_id, d), ..s2 };
    assert(spec_ratio(s3, loan_id) == Some((s.collaterals[loan_id], d)));
    assert(required_of(s3, loan_id) == required_of(s, loan_id));
}

/// Repaying the whole debt closes the loan, removes its debt and claim, and gives the pledged
/// asset back to the borrower.
pub proof fn law_full_repayment_closes(
    s: SpecState,
    borrower: Seq<char>,
    lender_pool: Seq<char>,
    loan_id: Seq<char>,
    payment: u64,
)
    requires
        spec_repay(s, borrower, lender_pool, loan_id, payment).0 is Ok,
        payment == s.debts[loan_id],
    ensures
        spec_repay(s, borrower, lender_pool, loan_id, payment).1.loan_status[loan_id] == LoanStatus::Closed,
        !spec_repay(s, borrower, lender_pool, loan_id, payment).1.debts.contains_key(loan_id),
        !spec_repay(s, borrower, lender_pool, loan_id, payment).1.receivables.contains_key(loan_id),
        pledged_asset(s, loan_id) matches Some(a) ==> spec_repay(s, borrower, lender_pool, loan_id, payment).1.assets[a]
            == borrower,
{
    let (r1, s1) = spec_sub(s, borrower, payment);
    let (r2, s2) = spec_try_add(s1, lender_pool, payment);
    let s3 = SpecState { debts: s2.debts.insert(loan_id, 0), receivables: s2.receivables.insert(loan_id, 0), ..s2 };
    let s4 = SpecState { loan_status: s3.loan_status.insert(loan_id, LoanStatus::Closed), ..s3 };
    assert(s4.assets == s.assets);
    assert(pledged_asset(s4, loan_id) == pledged_asset(s, loan_id));
}

/// A price update on an open loan records the new collateral value and recomputes the status:
/// safe while the collateral covers the required ratio of the debt, liquidatable otherwise.
pub proof fn law_price_update_recomputes_status(s: SpecState, loan_id: Seq<char>, new_collateral_value: u64)
    requires
        spec_price_update(s, loan_id, new_collateral_value).0 is Ok,
        s.debts[loan_id] > 0,
    ensures
        spec_price_update(s, loan_id, new_collateral_value).1.collaterals[loan_id] == new_collateral_value,
        spec_price_update(s, loan_id, new_collateral_value).1.loan_status[loan_id] == if required_of(
            s,
            loan_id,
        ).at_most_ratio(new_collateral_value as nat, s.debts[loan_id] as nat) {
            LoanStatus::ActiveSafe
        } else {
            LoanStatus::Liquidatable
        },
{
}

/// Only a liquidatable loan is liquidated; it ends closed with nothing owed, the debt paid into
/// the liquidation pool.
pub proof fn law_liquidation(s: SpecState, loan_id: Seq<char>)
    requires
        spec_liquidate(s, loan_id).0 is Ok,
    ensures
        s.loan_status[loan_id] == LoanStatus::Liquidatable,
        spec_liquidate(s, loan_id).1.loan_status[loan_id] == LoanStatus::Closed,
        spec_liquidate(s, loan_id).1.debts[loan_id] == 0,
        balance_of(spec_liquidate(s, loan_id).1, "liquidation_pool"@) == balance_of(s, "liquidation_pool"@)
            + s.debts[loan_id],
{
    reveal_strlit("liquidation_pool");
    reveal_strlit("surplus_pool");
    let debt = s.debts[loan_id];
    let (r1, s1) = spec_try_add(s, "liquidation_pool"@, debt);
    let surplus = (s.collaterals[loan_id] - debt) as u64;
    let (r2, s2) = if surplus > 0 {
        spec_try_add(s1, "surplus_pool"@, surplus)
    } else {
        (Ok(()), s1)
    };
    assert("liquidation_pool"@ != "surplus_pool"@) by {
        assert("liquidation_pool"@[0] != "surplus_pool"@[0]);
    }
    assert(balance_of(s2, "liquidation_pool"@) == balance_of(s1, "liquidation_pool"@));
}

} // verus!
