//! The ledger that programs act on: balances, assets, loans and their invariants.
use vstd::prelude::*;
use crate::decimal::{decimal_text, default_ratio, default_required_ratio, push_decimal, ratio_at_least, Decimal};
use crate::keys::same_text;
use crate::table::{lemma_key_order_finite, key_order, Dup, Table};
use crate::text::{nat_text, push_nat, push_str, text};

verus! {

#[derive(Debug, Clone, Copy, PartialEq, Eq, Hash, Structural)]
pub enum Currency {
    USD,
}

/// Where a loan stands.
#[derive(Debug, Clone, Copy, PartialEq, Eq, Hash, Structural)]
pub enum LoanStatus {
    ActiveSafe,
    Liquidatable,
    Closed,
}

impl View for LoanStatus {
    type V = LoanStatus;

    open spec fn view(&self) -> LoanStatus {
        *self
    }
}

impl Dup for LoanStatus {
    fn dup(&self) -> (r: Self) {
        *self
    }
}

/// The ledger, each table keyed by an account, asset or loan name.
#[derive(Debug, PartialEq)]
pub struct FinancialState {
    pub balances: Table<u64>,
    pub assets: Table<String>,
    pub receivables: Table<u64>,
    pub debts: Table<u64>,
    pub collaterals: Table<u64>,
    pub loan_status: Table<LoanStatus>,
    pub required_ratio: Table<Decimal>,
    pub asset_value: Table<u64>,
}

/// The ledger as maps.
pub struct SpecState {
    pub balances: Map<Seq<char>, u64>,
    pub assets: Map<Seq<char>, Seq<char>>,
    pub receivables: Map<Seq<char>, u64>,
    pub debts: Map<Seq<char>, u64>,
    pub collaterals: Map<Seq<char>, u64>,
    pub loan_status: Map<Seq<char>, LoanStatus>,
    pub required_ratio: Map<Seq<char>, Decimal>,
    pub asset_value: Map<Seq<char>, u64>,
}

impl View for FinancialState {
    type V = SpecState;

    open spec fn view(&self) -> SpecState {
        SpecState {
            balances: self.balances@,
            assets: self.assets@,
            receivables: self.receivables@,
            debts: self.debts@,
            collaterals: self.collaterals@,
            loan_status: self.loan_status@,
            required_ratio: self.required_ratio@,
            asset_value: self.asset_value@,
        }
    }
}

// ---------------------------------------------------------------------------------------------
// The ledger's rules, on views.

/// An empty ledger.
pub open spec fn empty_state() -> SpecState {
    SpecState {
        balances: Map::empty(),
        assets: Map::empty(),
        receivables: Map::empty(),
        debts: Map::empty(),
        collaterals: Map::empty(),
        loan_status: Map::empty(),
        required_ratio: Map::empty(),
        asset_value: Map::empty(),
    }
}

/// The balance of an account; an account without an entry holds nothing.
pub open spec fn balance_of(s: SpecState, account: Seq<char>) -> nat {
    if s.balances.contains_key(account) {
        s.balances[account] as nat
    } else {
        0
    }
}

/// The ledger with one balance set.
pub open spec fn with_balance(s: SpecState, account: Seq<char>, amount: u64) -> SpecState {
    SpecState { balances: s.balances.insert(account, amount), ..s }
}

/// The sum of the values at the given keys.
pub open spec fn keys_sum(m: Map<Seq<char>, u64>, ks: Seq<Seq<char>>) -> nat
    decreases ks.len(),
{
    if ks.len() == 0 {
        0
    } else {
        keys_sum(m, ks.drop_last()) + (m[ks.last()] as nat)
    }
}

/// The sum of all values of a map.
pub open spec fn map_sum(m: Map<Seq<char>, u64>) -> nat {
    keys_sum(m, key_order(m.dom()))
}

/// The net value of the ledger: cash, asset values and receivables, less debts.
pub open spec fn spec_net_value(s: SpecState) -> Result<u64, Seq<char>> {
    let assets = map_sum(s.balances) + map_sum(s.asset_value) + map_sum(s.receivables);
    if assets > u64::MAX {
        Err("Net value overflow"@)
    } else if assets < map_sum(s.debts) {
        Err("Net value cannot be negative"@)
    } else {
        Ok((assets - map_sum(s.debts)) as u64)
    }
}

/// Collateral over debt of a loan with a nonzero debt and a recorded collateral.
pub open spec fn spec_ratio(s: SpecState, loan_id: Seq<char>) -> Option<(u64, u64)> {
    if s.debts.contains_key(loan_id) && s.debts[loan_id] != 0 && s.collaterals.contains_key(loan_id) {
        Some((s.collaterals[loan_id], s.debts[loan_id]))
    } else {
        None
    }
}

/// The ratio a loan requires: its recorded one, else 1.5.
pub open spec fn required_of(s: SpecState, loan_id: Seq<char>) -> Decimal {
    if s.required_ratio.contains_key(loan_id) {
        s.required_ratio[loan_id]
    } else {
        default_ratio()
    }
}

/// The status that a loan's ratio calls for.
pub open spec fn status_for(s: SpecState, loan_id: Seq<char>) -> LoanStatus {
    match spec_ratio(s, loan_id) {
        Some((c, d)) => if required_of(s, loan_id).at_most_ratio(c as nat, d as nat) {
            LoanStatus::ActiveSafe
        } else {
            LoanStatus::Liquidatable
        },
        None => LoanStatus::Closed,
    }
}

/// The ledger with a loan's status recomputed.
pub open spec fn spec_update_status(s: SpecState, loan_id: Seq<char>) -> SpecState {
    SpecState { loan_status: s.loan_status.insert(loan_id, status_for(s, loan_id)), ..s }
}

/// A ratio, written as collateral over debt.
pub open spec fn ratio_text(c: u64, d: u64) -> Seq<char> {
    nat_text(c as nat) + "/"@ + nat_text(d as nat)
}

/// The invariant broken by one balance, if any: no balance may exceed half of `u64::MAX`.
pub open spec fn balance_error(s: SpecState, account: Seq<char>) -> Option<Seq<char>> {
    if s.balances[account] > u64::MAX / 2 {
        Some("Balance overflow for "@ + account)
    } else {
        None
    }
}

/// The invariant broken by one loan status, if any: a closed loan owes nothing, and an active
/// loan's ratio agrees with its status.
pub open spec fn status_error(s: SpecState, loan_id: Seq<char>) -> Option<Seq<char>> {
    let req = required_of(s, loan_id);
    match s.loan_status[loan_id] {
        LoanStatus::Closed => if s.debts.contains_key(loan_id) && s.debts[loan_id] > 0 {
            Some("Loan "@ + loan_id + " Closed but debt > 0"@)
        } else {
            None
        },
        LoanStatus::ActiveSafe => match spec_ratio(s, loan_id) {
            None => Some("Loan "@ + loan_id + " ActiveSafe but no ratio"@),
            Some((c, d)) => if !req.at_most_ratio(c as nat, d as nat) {
                Some(
                    "Loan "@ + loan_id + " ActiveSafe but ratio "@ + ratio_text(c, d) + " < required "@
                        + decimal_text(req),
                )
            } else {
                None
            },
        },
        LoanStatus::Liquidatable => match spec_ratio(s, loan_id) {
            None => Some("Loan "@ + loan_id + " Liquidatable but no ratio"@),
            Some((c, d)) => if req.at_most_ratio(c as nat, d as nat) {
                Some(
                    "Loan "@ + loan_id + " Liquidatable but ratio "@ + ratio_text(c, d) + " >= required "@
                        + decimal_text(req),
                )
            } else {
                None
            },
        },
    }
}

/// The first balance, in key order, that breaks the invariant.
pub open spec fn first_balance_error(s: SpecState, ks: Seq<Seq<char>>) -> Option<Seq<char>>
    decreases ks.len(),
{
    if ks.len() == 0 {
        None
    } else {
        match balance_error(s, ks[0]) {
            Some(m) => Some(m),
            None => first_balance_error(s, ks.drop_first()),
        }
    }
}

/// The first loan status, in key order, that breaks the invariant.
pub open spec fn first_status_error(s: SpecState, ks: Seq<Seq<char>>) -> Option<Seq<char>>
    decreases ks.len(),
{
    if ks.len() == 0 {
        None
    } else {
        match status_error(s, ks[0]) {
            Some(m) => Some(m),
            None => first_status_error(s, ks.drop_first()),
        }
    }
}

/// The first broken invariant: balances are checked before loans, each in key order.
pub open spec fn invariant_error(s: SpecState) -> Option<Seq<char>> {
    match first_balance_error(s, key_order(s.balances.dom())) {
        Some(m) => Some(m),
        None => first_status_error(s, key_order(s.loan_status.dom())),
    }
}

/// No balance in the list breaks the invariant exactly when the first-error search finds none.
proof fn lemma_first_balance_error(s: SpecState, ks: Seq<Seq<char>>)
    ensures
        first_balance_error(s, ks) is None <==> forall|i: int| 0 <= i < ks.len() ==> #[trigger] balance_error(s, ks[i]) is None,
    decreases ks.len(),
{
    if ks.len() > 0 {
        lemma_first_balance_error(s, ks.drop_first());
        if first_balance_error(s, ks) is None {
            assert forall|i: int| 0 <= i < ks.len() implies #[trigger] balance_error(s, ks[i]) is None by {
                if i > 0 {
                    assert(ks.drop_first()[i - 1] == ks[i]);
                }
            }
        } else if balance_error(s, ks[0]) is None {
            let i = choose|i: int| 0 <= i < ks.drop_first().len() && balance_error(s, #[trigger] ks.drop_first()[i]) is Some;
            assert(ks[i + 1] == ks.drop_first()[i]);
        }
    }
}

/// The loan checks read no balance.
proof fn lemma_first_status_error_ignores_balances(s: SpecState, t: SpecState, ks: Seq<Seq<char>>)
    requires
        t == (SpecState { balances: t.balances, ..s }),
    ensures
        first_status_error(s, ks) == first_status_error(t, ks),
    decreases ks.len(),
{
    if ks.len() > 0 {
        assert(status_error(s, ks[0]) == status_error(t, ks[0]));
        lemma_first_status_error_ignores_balances(s, t, ks.drop_first());
    }
}

/// Setting one balance on a ledger that keeps its invariants keeps them exactly when the new
/// balance is at most half of `u64::MAX`.
pub proof fn lemma_with_balance_invariants(s: SpecState, account: Seq<char>, v: u64)
    requires
        invariants_hold(s),
        key_order(s.balances.dom()).to_set() == s.balances.dom(),
        key_order(s.balances.dom().insert(account)).to_set() == s.balances.dom().insert(account),
    ensures
        invariants_hold(with_balance(s, account, v)) <==> v <= u64::MAX / 2,
{
    let t = with_balance(s, account, v);
    let ks0 = key_order(s.balances.dom());
    let ks1 = key_order(t.balances.dom());
    assert(t.balances.dom() =~= s.balances.dom().insert(account));
    lemma_first_balance_error(s, ks0);
    lemma_first_balance_error(t, ks1);
    lemma_first_status_error_ignores_balances(s, t, key_order(s.loan_status.dom()));
    assert(ks1.to_set().contains(account));
    assert(ks1.contains(account));
    let ia = choose|i: int| 0 <= i < ks1.len() && ks1[i] == account;
    if v <= u64::MAX / 2 {
        assert forall|i: int| 0 <= i < ks1.len() implies #[trigger] balance_error(t, ks1[i]) is None by {
            let k = ks1[i];
            assert(ks1.contains(k));
            assert(ks1.to_set().contains(k));
            if k != account {
                assert(s.balances.dom().contains(k));
                assert(ks0.to_set().contains(k));
                assert(ks0.contains(k));
                let j = choose|j: int| 0 <= j < ks0.len() && ks0[j] == k;
                assert(balance_error(s, ks0[j]) is None);
            }
        }
    } else {
        assert(balance_error(t, ks1[ia]) is Some);
    }
}

/// On a ledger that keeps its invariants, a loan marked closed owes nothing.
pub proof fn lemma_closed_loan_owes_nothing(s: SpecState, loan_id: Seq<char>)
    requires
        invariants_hold(s),
        s.loan_status.contains_key(loan_id),
        s.loan_status[loan_id] == LoanStatus::Closed,
        s.loan_status.dom().finite(),
    ensures
        !(s.debts.contains_key(loan_id) && s.debts[loan_id] > 0),
{
    lemma_key_order_finite(s.loan_status.dom());
    let ks = key_order(s.loan_status.dom());
    lemma_first_status_error(s, ks);
    assert(ks.to_set().contains(loan_id));
    assert(ks.contains(loan_id));
    let i = choose|i: int| 0 <= i < ks.len() && ks[i] == loan_id;
    assert(status_error(s, ks[i]) is None);
}

/// No loan in the list breaks the invariant exactly when the first-error search finds none.
proof fn lemma_first_status_error(s: SpecState, ks: Seq<Seq<char>>)
    ensures
        first_status_error(s, ks) is None <==> forall|i: int| 0 <= i < ks.len() ==> #[trigger] status_error(s, ks[i]) is None,
    decreases ks.len(),
{
    if ks.len() > 0 {
        lemma_first_status_error(s, ks.drop_first());
        if first_status_error(s, ks) is None {
            assert forall|i: int| 0 <= i < ks.len() implies #[trigger] status_error(s, ks[i]) is None by {
                if i > 0 {
                    assert(ks.drop_first()[i - 1] == ks[i]);
                }
            }
        } else if status_error(s, ks[0]) is None {
            let i = choose|i: int| 0 <= i < ks.drop_first().len() && status_error(s, #[trigger] ks.drop_first()[i]) is Some;
            assert(ks[i + 1] == ks.drop_first()[i]);
        }
    }
}

/// Changing a loan's debt and claim to a positive amount and recomputing its status keeps the
/// invariants of a ledger that holds a collateral for the loan.
pub proof fn lemma_new_debt_keeps_invariants(s: SpecState, loan_id: Seq<char>, debt: u64)
    requires
        invariants_hold(s),
        s.loan_status.dom().finite(),
        s.collaterals.contains_key(loan_id),
        debt > 0,
    ensures
        invariants_hold(
            spec_update_status(
                SpecState {
                    debts: s.debts.insert(loan_id, debt),
                    receivables: s.receivables.insert(loan_id, debt),
                    ..s
                },
                loan_id,
            ),
        ),
{
    let s3 = SpecState { debts: s.debts.insert(loan_id, debt), receivables: s.receivables.insert(loan_id, debt), ..s };
    let t = spec_update_status(s3, loan_id);
    let kb = key_order(s.balances.dom());
    lemma_first_balance_error(s, kb);
    lemma_first_balance_error(t, kb);
    assert forall|i: int| 0 <= i < kb.len() implies #[trigger] balance_error(t, kb[i]) is None by {
        assert(balance_error(s, kb[i]) is None);
    }
    lemma_key_order_finite(s.loan_status.dom());
    assert(t.loan_status.dom() =~= s.loan_status.dom().insert(loan_id));
    lemma_key_order_finite(t.loan_status.dom());
    let k0 = key_order(s.loan_status.dom());
    let k1 = key_order(t.loan_status.dom());
    lemma_first_status_error(s, k0);
    lemma_first_status_error(t, k1);
    assert forall|i: int| 0 <= i < k1.len() implies #[trigger] status_error(t, k1[i]) is None by {
        let k = k1[i];
        assert(k1.contains(k));
        assert(k1.to_set().contains(k));
        if k == loan_id {
            assert(spec_ratio(s3, loan_id) == Some((s.collaterals[loan_id], debt)));
            assert(required_of(t, loan_id) == required_of(s3, loan_id));
            assert(spec_ratio(t, loan_id) == spec_ratio(s3, loan_id));
        } else {
            assert(s.loan_status.dom().contains(k));
            assert(k0.to_set().contains(k));
            assert(k0.contains(k));
            let j = choose|j: int| 0 <= j < k0.len() && k0[j] == k;
            assert(status_error(s, k0[j]) is None);
            assert(required_of(t, k) == required_of(s, k));
            assert(spec_ratio(t, k) == spec_ratio(s, k));
            assert(t.loan_status[k] == s.loan_status[k]);
            assert(status_error(t, k) == status_error(s, k));
        }
    }
}

/// The ledger keeps its invariants.
pub open spec fn invariants_hold(s: SpecState) -> bool {
    invariant_error(s) is None
}

/// The first key, in the given order, whose value is `v`.
pub open spec fn first_key_with(m: Map<Seq<char>, Seq<char>>, ks: Seq<Seq<char>>, v: Seq<char>) -> Option<Seq<char>>
    decreases ks.len(),
{
    if ks.len() == 0 {
        None
    } else if m[ks[0]] == v {
        Some(ks[0])
    } else {
        first_key_with(m, ks.drop_first(), v)
    }
}

/// The owner name that marks an asset as pledged to a loan.
pub open spec fn pledge_owner(loan_id: Seq<char>) -> Seq<char> {
    "loan:"@ + loan_id
}

/// The asset pledged to a loan: the first asset, in key order, owned by `loan:<id>`.
pub open spec fn pledged_asset(s: SpecState, loan_id: Seq<char>) -> Option<Seq<char>> {
    first_key_with(s.assets, key_order(s.assets.dom()), pledge_owner(loan_id))
}

/// The message of an outcome.
pub open spec fn unit_view(r: Result<(), String>) -> Result<(), Seq<char>> {
    match r {
        Ok(()) => Ok(()),
        Err(m) => Err(m@),
    }
}

// ---------------------------------------------------------------------------------------------
// The ledger.

fn sum_values(t: &Table<u64>) -> (r: u64)
    requires
        map_sum(t@) <= u64::MAX,
    ensures
        r == map_sum(t@),
{
    t.lemma_keys();
    let ghost ks = key_order(t@.dom());
    let n = t.len();
    let mut total: u64 = 0;
    let mut i: usize = 0;
    while i < n
        invariant
            i <= n,
            n == t.listing().len(),
            ks == key_order(t@.dom()),
            ks == t.listing().map_values(|e: (Seq<char>, u64)| e.0),
            forall|j: int| 0 <= j < t.listing().len() ==> #[trigger] t@.contains_key(t.listing()[j].0)
                && t@[t.listing()[j].0] == t.listing()[j].1,
            total == keys_sum(t@, ks.take(i as int)),
            keys_sum(t@, ks) <= u64::MAX,
        decreases n - i,
    {
        proof {
            assert(ks.take(i + 1).drop_last() =~= ks.take(i as int));
            lemma_keys_sum_prefix(t@, ks, i + 1);
            assert(t@.contains_key(t.listing()[i as int].0));
        }
        total = total + *t.value_at(i);
        i = i + 1;
    }
    assert(ks.take(n as int) =~= ks);
    total
}

proof fn lemma_keys_sum_prefix(m: Map<Seq<char>, u64>, ks: Seq<Seq<char>>, i: int)
    requires
        0 <= i <= ks.len(),
    ensures
        keys_sum(m, ks.take(i)) <= keys_sum(m, ks),
    decreases ks.len(),
{
    if i < ks.len() {
        assert(ks.drop_last().take(i) =~= ks.take(i));
        lemma_keys_sum_prefix(m, ks.drop_last(), i);
    } else {
        assert(ks.take(i) =~= ks);
    }
}

impl Default for FinancialState {
    /// An empty ledger.
    fn default() -> (r: Self)
        ensures
            r@ == empty_state(),
    {
        FinancialState::new()
    }
}

impl FinancialState {
    pub fn new() -> (r: Self)
        ensures
            r@ == empty_state(),
    {
        FinancialState {
            balances: Table::new(),
            assets: Table::new(),
            receivables: Table::new(),
            debts: Table::new(),
            collaterals: Table::new(),
            loan_status: Table::new(),
            required_ratio: Table::new(),
            asset_value: Table::new(),
        }
    }

    /// A copy of the ledger.
    pub fn copy(&self) -> (r: Self)
        ensures
            r@ == self@,
    {
        FinancialState {
            balances: self.balances.duplicate(),
            assets: self.assets.duplicate(),
            receivables: self.receivables.duplicate(),
            debts: self.debts.duplicate(),
            collaterals: self.collaterals.duplicate(),
            loan_status: self.loan_status.duplicate(),
            required_ratio: self.required_ratio.duplicate(),
            asset_value: self.asset_value.duplicate(),
        }
    }

    pub fn set_balance(&mut self, account: &str, amount: u64)
        ensures
            final(self)@ == with_balance(old(self)@, account@, amount),
    {
        self.balances.insert(text(account), amount);
    }

    pub fn get_balance(&self, account: &str) -> (r: u64)
        ensures
            r == balance_of(self@, account@),
    {
        match self.balances.get(account) {
            Some(b) => *b,
            None => 0,
        }
    }

    /// Adds to a balance, refusing a sum that does not fit in 64 bits.
    pub fn try_add_balance(&mut self, account: &str, amount: u64) -> (r: Result<(), String>)
        ensures
            balance_of(old(self)@, account@) + amount > u64::MAX ==> {
                &&& unit_view(r) == Err::<(), Seq<char>>("Balance overflow for "@ + account@)
                &&& final(self)@ == old(self)@
            },
            balance_of(old(self)@, account@) + amount <= u64::MAX ==> {
                &&& r is Ok
                &&& final(self)@ == with_balance(
                    old(self)@,
                    account@,
                    (balance_of(old(self)@, account@) + amount) as u64,
                )
            },
    {
        let current = self.get_balance(account);
        match current.checked_add(amount) {
            Some(next) => {
                self.set_balance(account, next);
                Ok(())
            },
            None => {
                let mut m = text("Balance overflow for ");
                push_str(&mut m, account);
                Err(m)
            },
        }
    }

    /// Adds to a balance whose sum fits in 64 bits.
    pub fn add_balance(&mut self, account: &str, amount: u64)
        requires
            balance_of(old(self)@, account@) + amount <= u64::MAX,
        ensures
            final(self)@ == with_balance(old(self)@, account@, (balance_of(old(self)@, account@) + amount) as u64),
    {
        let _ = self.try_add_balance(account, amount);
    }

    /// Takes from a balance, refusing to go below zero.
    pub fn sub_balance(&mut self, account: &str, amount: u64) -> (r: Result<(), String>)
        ensures
            balance_of(old(self)@, account@) < amount ==> {
                &&& unit_view(r) == Err::<(), Seq<char>>(
                    "Insufficient balance for "@ + account@ + ": has "@ + nat_text(
                        balance_of(old(self)@, account@),
                    ) + ", needs "@ + nat_text(amount as nat),
                )
                &&& final(self)@ == old(self)@
            },
            balance_of(old(self)@, account@) >= amount ==> {
                &&& r is Ok
                &&& final(self)@ == with_balance(
                    old(self)@,
                    account@,
                    (balance_of(old(self)@, account@) - amount) as u64,
                )
            },
    {
        let current = self.get_balance(account);
        if current < amount {
            let mut m = text("Insufficient balance for ");
            push_str(&mut m, account);
            push_str(&mut m, ": has ");
            push_nat(&mut m, current);
            push_str(&mut m, ", needs ");
            push_nat(&mut m, amount);
            return Err(m);
        }
        self.set_balance(account, current - amount);
        Ok(())
    }

    pub fn total_cash(&self) -> (r: u64)
        requires
            map_sum(self@.balances) <= u64::MAX,
        ensures
            r == map_sum(self@.balances),
    {
        sum_values(&self.balances)
    }

    pub fn total_asset_value(&self) -> (r: u64)
        requires
            map_sum(self@.asset_value) <= u64::MAX,
        ensures
            r == map_sum(self@.asset_value),
    {
        sum_values(&self.asset_value)
    }

    pub fn total_receivables(&self) -> (r: u64)
        requires
            map_sum(self@.receivables) <= u64::MAX,
        ensures
            r == map_sum(self@.receivables),
    {
        sum_values(&self.receivables)
    }

    pub fn total_debts(&self) -> (r: u64)
        requires
            map_sum(self@.debts) <= u64::MAX,
        ensures
            r == map_sum(self@.debts),
    {
        sum_values(&self.debts)
    }

    /// Cash plus asset values plus receivables, less debts; each total must fit in 64 bits.
    pub fn checked_net_value(&self) -> (r: Result<u64, String>)
        requires
            map_sum(self@.balances) <= u64::MAX,
            map_sum(self@.asset_value) <= u64::MAX,
            map_sum(self@.receivables) <= u64::MAX,
            map_sum(self@.debts) <= u64::MAX,
        ensures
            match r {
                Ok(v) => spec_net_value(self@) == Ok::<u64, Seq<char>>(v),
                Err(m) => spec_net_value(self@) == Err::<u64, Seq<char>>(m@),
            },
    {
        let cash = self.total_cash();
        let values = self.total_asset_value();
        let receivables = self.total_receivables();
        let debts = self.total_debts();
        let assets = match cash.checked_add(values) {
            Some(v) => v.checked_add(receivables),
            None => None,
        };
        match assets {
            None => Err(text("Net value overflow")),
            Some(a) => match a.checked_sub(debts) {
                Some(v) => Ok(v),
                None => Err(text("Net value cannot be negative")),
            },
        }
    }

    /// The net value, or zero where it cannot be computed.
    pub fn net_value(&self) -> (r: u64)
        requires
            map_sum(self@.balances) <= u64::MAX,
            map_sum(self@.asset_value) <= u64::MAX,
            map_sum(self@.receivables) <= u64::MAX,
            map_sum(self@.debts) <= u64::MAX,
        ensures
            r == match spec_net_value(self@) {
                Ok(v) => v,
                Err(_) => 0,
            },
    {
        match self.checked_net_value() {
            Ok(v) => v,
            Err(_) => 0,
        }
    }

    /// Collateral and debt of a loan with a nonzero debt and a recorded collateral.
    pub fn collateral_ratio(&self, loan_id: &str) -> (r: Option<(u64, u64)>)
        ensures
            r == spec_ratio(self@, loan_id@),
    {
        let debt = match self.debts.get(loan_id) {
            Some(d) => *d,
            None => {
                return None;
            },
        };
        if debt == 0 {
            return None;
        }
        match self.collaterals.get(loan_id) {
            Some(c) => Some((*c, debt)),
            None => None,
        }
    }

    /// The ratio a loan requires.
    pub fn required_for(&self, loan_id: &str) -> (r: Decimal)
        ensures
            r == required_of(self@, loan_id@),
    {
        match self.required_ratio.get(loan_id) {
            Some(d) => *d,
            None => default_required_ratio(),
        }
    }

    /// Sets a loan's status from its ratio: safe at or above the required ratio, liquidatable
    /// below it, closed without a ratio.
    pub fn update_loan_status(&mut self, loan_id: &str) -> (r: Result<(), String>)
        ensures
            r is Ok,
            final(self)@ == spec_update_status(old(self)@, loan_id@),
    {
        let ratio = self.collateral_ratio(loan_id);
        let required = self.required_for(loan_id);
        let status = match ratio {
            Some((c, d)) => if ratio_at_least(c, d, required) {
                LoanStatus::ActiveSafe
            } else {
                LoanStatus::Liquidatable
            },
            None => LoanStatus::Closed,
        };
        self.loan_status.insert(text(loan_id), status);
        Ok(())
    }

    fn balance_error_at(&self, i: usize) -> (r: Option<String>)
        requires
            i < self.balances.listing().len(),
        ensures
            match balance_error(self@, self.balances.listing()[i as int].0) {
                Some(m) => r matches Some(x) && x@ == m,
                None => r is None,
            },
    {
        self.balances.lemma_keys();
        assert(self.balances@.contains_key(self.balances.listing()[i as int].0));
        let b = *self.balances.value_at(i);
        if b > u64::MAX / 2 {
            let mut m = text("Balance overflow for ");
            push_str(&mut m, self.balances.key_at(i).as_str());
            Some(m)
        } else {
            None
        }
    }

    fn status_error_at(&self, i: usize) -> (r: Option<String>)
        requires
            i < self.loan_status.listing().len(),
        ensures
            match status_error(self@, self.loan_status.listing()[i as int].0) {
                Some(m) => r matches Some(x) && x@ == m,
                None => r is None,
            },
    {
        self.loan_status.lemma_keys();
        assert(self.loan_status@.contains_key(self.loan_status.listing()[i as int].0));
        let id = self.loan_status.key_at(i).as_str();
        let status = *self.loan_status.value_at(i);
        let req = self.required_for(id);
        match status {
            LoanStatus::Closed => {
                match self.debts.get(id) {
                    Some(d) => if *d > 0 {
                        let mut m = text("Loan ");
                        push_str(&mut m, id);
                        push_str(&mut m, " Closed but debt > 0");
                        return Some(m);
                    },
                    None => {},
                }
                None
            },
            LoanStatus::ActiveSafe => match self.collateral_ratio(id) {
                None => {
                    let mut m = text("Loan ");
                    push_str(&mut m, id);
                    push_str(&mut m, " ActiveSafe but no ratio");
                    Some(m)
                },
                Some((c, d)) => if !ratio_at_least(c, d, req) {
                    let mut m = text("Loan ");
                    push_str(&mut m, id);
                    push_str(&mut m, " ActiveSafe but ratio ");
                    push_nat(&mut m, c);
                    push_str(&mut m, "/");
                    push_nat(&mut m, d);
                    push_str(&mut m, " < required ");
                    push_decimal(&mut m, req);
                    assert(m@ =~= "Loan "@ + id@ + " ActiveSafe but ratio "@ + ratio_text(c, d) + " < required "@
                        + decimal_text(req));
                    Some(m)
                } else {
                    None
                },
            },
            LoanStatus::Liquidatable => match self.collateral_ratio(id) {
                None => {
                    let mut m = text("Loan ");
                    push_str(&mut m, id);
                    push_str(&mut m, " Liquidatable but no ratio");
                    Some(m)
                },
                Some((c, d)) => if ratio_at_least(c, d, req) {
                    let mut m = text("Loan ");
                    push_str(&mut m, id);
                    push_str(&mut m, " Liquidatable but ratio ");
                    push_nat(&mut m, c);
                    push_str(&mut m, "/");
                    push_nat(&mut m, d);
                    push_str(&mut m, " >= required ");
                    push_decimal(&mut m, req);
                    assert(m@ =~= "Loan "@ + id@ + " Liquidatable but ratio "@ + ratio_text(c, d) + " >= required "@
                        + decimal_text(req));
                    Some(m)
                } else {
                    None
                },
            },
        }
    }

    /// Checks the ledger's invariants, reporting the first one broken.
    pub fn check_invariants(&self) -> (r: Result<(), String>)
        ensures
            match invariant_error(self@) {
                Some(m) => r matches Err(x) && x@ == m,
                None => r is Ok,
            },
    {
        self.balances.lemma_keys();
        self.loan_status.lemma_keys();
        let ghost bk = key_order(self@.balances.dom());
        let ghost sk = key_order(self@.loan_status.dom());
        let nb = self.balances.len();
        assert(bk.skip(0) =~= bk);
        assert(sk.skip(0) =~= sk);
        let mut i: usize = 0;
        while i < nb
            invariant
                i <= nb,
                nb == self.balances.listing().len(),
                bk == self.balances.listing().map_values(|e: (Seq<char>, u64)| e.0),
                bk == key_order(self@.balances.dom()),
                first_balance_error(self@, bk) == first_balance_error(self@, bk.skip(i as int)),
            decreases nb - i,
        {
            assert(bk.skip(i as int)[0] == bk[i as int]);
            assert(bk.skip(i as int).drop_first() =~= bk.skip(i + 1));
            match self.balance_error_at(i) {
                Some(m) => {
                    return Err(m);
                },
                None => {},
            }
            i = i + 1;
        }
        assert(bk.skip(nb as int) =~= Seq::<Seq<char>>::empty());
        let ns = self.loan_status.len();
        let mut j: usize = 0;
        while j < ns
            invariant
                j <= ns,
                ns == self.loan_status.listing().len(),
                sk == self.loan_status.listing().map_values(|e: (Seq<char>, LoanStatus)| e.0),
                first_balance_error(self@, bk) is None,
                bk == key_order(self@.balances.dom()),
                sk == key_order(self@.loan_status.dom()),
                first_status_error(self@, sk) == first_status_error(self@, sk.skip(j as int)),
            decreases ns - j,
        {
            assert(sk.skip(j as int)[0] == sk[j as int]);
            assert(sk.skip(j as int).drop_first() =~= sk.skip(j + 1));
            match self.status_error_at(j) {
                Some(m) => {
                    return Err(m);
                },
                None => {},
            }
            j = j + 1;
        }
        assert(sk.skip(ns as int) =~= Seq::<Seq<char>>::empty());
        Ok(())
    }

    /// The asset pledged to a loan, if any.
    pub fn pledged_asset(&self, loan_id: &str) -> (r: Option<String>)
        ensures
            match pledged_asset(self@, loan_id@) {
                Some(a) => r matches Some(x) && x@ == a,
                None => r is None,
            },
    {
        self.assets.lemma_keys();
        let ghost ks = key_order(self@.assets.dom());
        let mut owner = text("loan:");
        push_str(&mut owner, loan_id);
        let n = self.assets.len();
        assert(ks.skip(0) =~= ks);
        let mut i: usize = 0;
        while i < n
            invariant
                i <= n,
                n == self.assets.listing().len(),
                ks == self.assets.listing().map_values(|e: (Seq<char>, Seq<char>)| e.0),
                ks == key_order(self@.assets.dom()),
                forall|j: int| 0 <= j < self.assets.listing().len() ==> #[trigger] self.assets@.contains_key(
                    self.assets.listing()[j].0,
                ) && self.assets@[self.assets.listing()[j].0] == self.assets.listing()[j].1,
                owner@ == pledge_owner(loan_id@),
                pledged_asset(self@, loan_id@) == first_key_with(self@.assets, ks.skip(i as int), owner@),
            decreases n - i,
        {
            assert(ks.skip(i as int)[0] == ks[i as int]);
            assert(ks.skip(i as int).drop_first() =~= ks.skip(i + 1));
            assert(self.assets@.contains_key(self.assets.listing()[i as int].0));
            if same_text(self.assets.value_at(i).as_str(), owner.as_str()) {
                return Some(text(self.assets.key_at(i).as_str()));
            }
            i = i + 1;
        }
        assert(ks.skip(n as int) =~= Seq::<Seq<char>>::empty());
        None
    }
}

} // verus!
