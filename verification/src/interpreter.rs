//! Runtime values, and a direct interpreter of typed trees.
use vstd::prelude::*;
use crate::abstract_interpreter::{
    create_loan, liquidate, mint, price_update, repay, spec_create_loan, spec_liquidate, spec_mint,
    spec_price_update, spec_repay, spec_transfer, transfer_asset,
};
use crate::ast::{dup_names, names_view, BinOp, PolicyId, SourceId, SpecPolicy};
use crate::machine::{checked_result, overflow_text};
use crate::state::{unit_view, FinancialState, SpecState};
use crate::table::Table;
use crate::text::{nat_text, push_nat, push_str};
use crate::types::{SpecType, Type};
use crate::keys::same_text;
use crate::table::Dup;
use crate::text::text;
use crate::typed_ast::{names_same, SpecTyped, TypedExpr};

verus! {

/// A value computed by a program.
#[derive(Debug, PartialEq)]
pub enum Value {
    U64(u64),
    Bool(bool),
    Function { params: Vec<String>, body: Box<TypedExpr> },
    Loan(String),
    Asset(String),
    Unit,
}

/// A value, with names as character sequences.
pub enum SpecValue {
    U64(u64),
    Bool(bool),
    Function { params: Seq<Seq<char>>, body: SpecTyped },
    Loan(Seq<char>),
    Asset(Seq<char>),
    Unit,
}

impl View for Value {
    type V = SpecValue;

    open spec fn view(&self) -> SpecValue {
        match self {
            Value::U64(n) => SpecValue::U64(*n),
            Value::Bool(b) => SpecValue::Bool(*b),
            Value::Function { params, body } => SpecValue::Function { params: names_view(params@), body: (**body)@ },
            Value::Loan(id) => SpecValue::Loan(id@),
            Value::Asset(id) => SpecValue::Asset(id@),
            Value::Unit => SpecValue::Unit,
        }
    }
}

impl Value {
    /// A copy of the value.
    pub fn copy(&self) -> (r: Value)
        ensures
            r@ == self@,
    {
        match self {
            Value::U64(n) => Value::U64(*n),
            Value::Bool(b) => Value::Bool(*b),
            Value::Function { params, body } => Value::Function {
                params: dup_names(params),
                body: Box::new(body.copy()),
            },
            Value::Loan(id) => Value::Loan(text(id.as_str())),
            Value::Asset(id) => Value::Asset(text(id.as_str())),
            Value::Unit => Value::Unit,
        }
    }

    /// Whether two values are equal.
    pub fn same(&self, other: &Value) -> (r: bool)
        ensures
            r == (self@ == other@),
    {
        match (self, other) {
            (Value::U64(a), Value::U64(b)) => *a == *b,
            (Value::Bool(a), Value::Bool(b)) => *a == *b,
            (Value::Function { params: p1, body: b1 }, Value::Function { params: p2, body: b2 }) => names_same(p1, p2)
                && b1.same(b2),
            (Value::Loan(a), Value::Loan(b)) => same_text(a.as_str(), b.as_str()),
            (Value::Asset(a), Value::Asset(b)) => same_text(a.as_str(), b.as_str()),
            (Value::Unit, Value::Unit) => true,
            _ => false,
        }
    }
}

impl Dup for Value {
    fn dup(&self) -> (r: Self) {
        self.copy()
    }
}

/// The value of a binary operation, or why it has none: arithmetic is checked, and comparisons
/// other than equality take numbers.
pub open spec fn binary_value(op: BinOp, l: SpecValue, r: SpecValue) -> Result<SpecValue, Seq<char>> {
    match op {
        BinOp::Eq => Ok(SpecValue::Bool(l == r)),
        _ => match (l, r) {
            (SpecValue::U64(a), SpecValue::U64(b)) => match op {
                BinOp::Add => if a + b > u64::MAX {
                    Err("addition overflow"@)
                } else {
                    Ok(SpecValue::U64((a + b) as u64))
                },
                BinOp::Sub => if a < b {
                    Err("subtraction underflow"@)
                } else {
                    Ok(SpecValue::U64((a - b) as u64))
                },
                BinOp::Mul => if a * b > u64::MAX {
                    Err("multiplication overflow"@)
                } else {
                    Ok(SpecValue::U64((a * b) as u64))
                },
                BinOp::Div => if b == 0 {
                    Err("division by zero"@)
                } else {
                    Ok(SpecValue::U64((a / b) as u64))
                },
                BinOp::Lt => Ok(SpecValue::Bool(a < b)),
                BinOp::Gt => Ok(SpecValue::Bool(a > b)),
                BinOp::Le => Ok(SpecValue::Bool(a <= b)),
                _ => Ok(SpecValue::Bool(a >= b)),
            },
            _ => match op {
                BinOp::Add | BinOp::Sub | BinOp::Mul | BinOp::Div => Err("arithmetic expects numbers"@),
                _ => Err("comparison expects numbers"@),
            },
        },
    }
}

/// Applies a binary operation.
pub fn binary(op: BinOp, l: &Value, r: &Value) -> (res: Result<Value, String>)
    ensures
        match res {
            Ok(v) => binary_value(op, l@, r@) == Ok::<SpecValue, Seq<char>>(v@),
            Err(m) => binary_value(op, l@, r@) == Err::<SpecValue, Seq<char>>(m@),
        },
{
    if let BinOp::Eq = op {
        return Ok(Value::Bool(l.same(r)));
    }
    let (a, b) = match (l, r) {
        (Value::U64(a), Value::U64(b)) => (*a, *b),
        _ => {
            return match op {
                BinOp::Add | BinOp::Sub | BinOp::Mul | BinOp::Div => Err(text("arithmetic expects numbers")),
                _ => Err(text("comparison expects numbers")),
            };
        },
    };
    match op {
        BinOp::Add => match a.checked_add(b) {
            Some(v) => Ok(Value::U64(v)),
            None => Err(text("addition overflow")),
        },
        BinOp::Sub => match a.checked_sub(b) {
            Some(v) => Ok(Value::U64(v)),
            None => Err(text("subtraction underflow")),
        },
        BinOp::Mul => match a.checked_mul(b) {
            Some(v) => Ok(Value::U64(v)),
            None => Err(text("multiplication overflow")),
        },
        BinOp::Div => if b == 0 {
            Err(text("division by zero"))
        } else {
            Ok(Value::U64(a / b))
        },
        BinOp::Lt => Ok(Value::Bool(a < b)),
        BinOp::Gt => Ok(Value::Bool(a > b)),
        BinOp::Le => Ok(Value::Bool(a <= b)),
        _ => Ok(Value::Bool(a >= b)),
    }
}


// ---------------------------------------------------------------------------------------------
// The direct interpreter.

/// How deeply policy checks may nest. A policy may check its own name, and so nest without
/// end; the bound makes every interpretation finish. It lies far beyond the depth at which a
/// thread's stack is spent by nested checks, so a program stopped by it could not have
/// finished on any machine anyway.
pub const MAX_POLICY_DEPTH: usize = 1000000;

/// A defined policy: its parameter and predicate.
pub struct PolicyDefinition {
    pub parameter: String,
    pub predicate: TypedExpr,
}

impl View for PolicyDefinition {
    type V = (Seq<char>, SpecTyped);

    open spec fn view(&self) -> (Seq<char>, SpecTyped) {
        (self.parameter@, self.predicate@)
    }
}

impl Dup for PolicyDefinition {
    fn dup(&self) -> (r: Self) {
        PolicyDefinition { parameter: text(self.parameter.as_str()), predicate: self.predicate.copy() }
    }
}

/// An interpreter: variables, oracle queues by feed name, and defined policies.
pub struct Interpreter {
    env: Table<Value>,
    oracle_values: Table<Vec<u64>>,
    policies: Table<PolicyDefinition>,
    depth: usize,
}

pub struct SpecInterp {
    pub env: Map<Seq<char>, SpecValue>,
    pub oracle_values: Map<Seq<char>, Seq<u64>>,
    pub policies: Map<Seq<char>, (Seq<char>, SpecTyped)>,
}

impl View for Interpreter {
    type V = SpecInterp;

    closed spec fn view(&self) -> SpecInterp {
        SpecInterp { env: self.env@, oracle_values: self.oracle_values@, policies: self.policies@ }
    }
}

/// An interpreter with nothing in it.
pub open spec fn empty_interp() -> SpecInterp {
    SpecInterp { env: Map::empty(), oracle_values: Map::empty(), policies: Map::empty() }
}

/// How many more levels of policy checks an interpreter at this depth allows.
pub open spec fn policy_depth_left(depth: nat) -> nat {
    if depth < MAX_POLICY_DEPTH {
        (MAX_POLICY_DEPTH - depth) as nat
    } else {
        0
    }
}

/// An evaluation's outcome: its value or a message, the interpreter and the ledger after it.
pub type EvalOutcome = (Result<SpecValue, Seq<char>>, SpecInterp, SpecState);

/// A variable's value: a linear one is consumed, any other is read.
pub open spec fn spec_get_var(it: SpecInterp, name: Seq<char>, ty: SpecType) -> (Result<SpecValue, Seq<char>>, SpecInterp) {
    if Type::spec_is_linear(ty) {
        if it.env.contains_key(name) {
            (Ok(it.env[name]), SpecInterp { env: it.env.remove(name), ..it })
        } else {
            (Err("Linear variable "@ + name + " not found or already consumed"@), it)
        }
    } else if it.env.contains_key(name) {
        (Ok(it.env[name]), it)
    } else {
        (Err("Variable "@ + name + " not found"@), it)
    }
}

/// The name under which a feed's values are queued.
pub open spec fn feed_key(f: SourceId) -> Seq<char> {
    match f {
        SourceId::FeedA => "FeedA"@,
        SourceId::FeedB => "FeedB"@,
    }
}

/// Reading the next value of a feed.
pub open spec fn spec_oracle_read(it: SpecInterp, f: SourceId) -> (Result<SpecValue, Seq<char>>, SpecInterp) {
    let key = feed_key(f);
    if !it.oracle_values.contains_key(key) {
        (Err("No oracle value for "@ + key), it)
    } else if it.oracle_values[key].len() == 0 {
        (Err("No oracle value available for "@ + key), it)
    } else {
        (
            Ok(SpecValue::U64(it.oracle_values[key][0])),
            SpecInterp { oracle_values: it.oracle_values.insert(key, it.oracle_values[key].drop_first()), ..it },
        )
    }
}

/// What a ledger operation gives: its message, or the value.
pub open spec fn after_ledger(r: Result<(), Seq<char>>, it: SpecInterp, st: SpecState, v: SpecValue) -> EvalOutcome {
    match r {
        Err(m) => (Err(m), it, st),
        Ok(()) => (Ok(v), it, st),
    }
}

/// Evaluates a typed tree against a ledger. Errors stop evaluation where they occur: the
/// interpreter and the ledger keep what was done before.
pub open spec fn spec_interp(e: SpecTyped, depth: nat, it: SpecInterp, st: SpecState) -> EvalOutcome
    decreases policy_depth_left(depth), e,
{
    match e {
        SpecTyped::Int { value, .. } => (Ok(SpecValue::U64(value)), it, st),
        SpecTyped::Bool { value, .. } => (Ok(SpecValue::Bool(value)), it, st),
        SpecTyped::Binary { op, left, right, .. } => {
            let (l, it1, st1) = spec_interp(*left, depth, it, st);
            match l {
                Err(m) => (Err(m), it1, st1),
                Ok(lv) => {
                    let (r, it2, st2) = spec_interp(*right, depth, it1, st1);
                    match r {
                        Err(m) => (Err(m), it2, st2),
                        Ok(rv) => (binary_value(op, lv, rv), it2, st2),
                    }
                },
            }
        },
        SpecTyped::If { condition, then_branch, else_branch, .. } => {
            let (c, it1, st1) = spec_interp(*condition, depth, it, st);
            match c {
                Err(m) => (Err(m), it1, st1),
                Ok(SpecValue::Bool(true)) => spec_interp(*then_branch, depth, it1, st1),
                Ok(SpecValue::Bool(false)) => spec_interp(*else_branch, depth, it1, st1),
                Ok(_) => (Err("if condition must be boolean"@), it1, st1),
            }
        },
        SpecTyped::Function { .. } => (Err("function runtime integration pending"@), it, st),
        SpecTyped::Call { .. } => (Err("function call runtime integration pending"@), it, st),
        SpecTyped::PolicyDef { name, parameter, predicate, body, .. } => spec_interp(
            *body,
            depth,
            SpecInterp { policies: it.policies.insert(name, (parameter, *predicate)), ..it },
            st,
        ),
        SpecTyped::Var { name, ty } => {
            let (r, it1) = spec_get_var(it, name, ty);
            (r, it1, st)
        },
        SpecTyped::Let { name, value, body, .. } => {
            let (v, it1, st1) = spec_interp(*value, depth, it, st);
            match v {
                Err(m) => (Err(m), it1, st1),
                Ok(x) => spec_interp(*body, depth, SpecInterp { env: it1.env.insert(name, x), ..it1 }, st1),
            }
        },
        SpecTyped::Transfer { from, to, asset, .. } => {
            let (a, it1, st1) = spec_interp(*asset, depth, it, st);
            match a {
                Err(m) => (Err(m), it1, st1),
                Ok(SpecValue::Asset(id)) => {
                    let (r, st2) = spec_transfer(st1, id, from, to);
                    after_ledger(r, it1, st2, SpecValue::Unit)
                },
                Ok(_) => (Err("transfer expects asset"@), it1, st1),
            }
        },
        SpecTyped::Mint { account, amount, .. } => {
            let (a, it1, st1) = spec_interp(*amount, depth, it, st);
            match a {
                Err(m) => (Err(m), it1, st1),
                Ok(SpecValue::U64(n)) => {
                    let (r, st2) = spec_mint(st1, account, n);
                    after_ledger(r, it1, st2, SpecValue::Unit)
                },
                Ok(_) => (Err("mint expects numeric amount"@), it1, st1),
            }
        },
        SpecTyped::OracleRead { feed, .. } => {
            let (r, it1) = spec_oracle_read(it, feed);
            (r, it1, st)
        },
        SpecTyped::Validate { oracle, policy, .. } => {
            let (a, it1, st1) = spec_interp(*oracle, depth, it, st);
            match a {
                Err(m) => (Err(m), it1, st1),
                Ok(SpecValue::U64(v)) => match policy {
                    SpecPolicy::PriceBounds => if v < 100 || v > 200 {
                        (Err("Validation failed for PriceBounds: "@ + nat_text(v as nat)), it1, st1)
                    } else {
                        (Ok(SpecValue::U64(v)), it1, st1)
                    },
                    SpecPolicy::Named(name) => if !it1.policies.contains_key(name) {
                        (Err("Policy '"@ + name + "' is not defined"@), it1, st1)
                    } else if depth >= MAX_POLICY_DEPTH {
                        (Err("policy depth limit exceeded"@), it1, st1)
                    } else {
                        let (parameter, predicate) = it1.policies[name];
                        let child = SpecInterp { env: it1.env.insert(parameter, SpecValue::U64(v)), ..it1 };
                        let (p, _, st2) = spec_interp(predicate, depth + 1, child, st1);
                        match p {
                            Err(m) => (Err(m), it1, st2),
                            Ok(SpecValue::Bool(true)) => (Ok(SpecValue::U64(v)), it1, st2),
                            Ok(SpecValue::Bool(false)) => (
                                Err("policy '"@ + name + "' rejected value "@ + nat_text(v as nat)),
                                it1,
                                st2,
                            ),
                            Ok(_) => (Err("policy predicate must return Bool"@), it1, st2),
                        }
                    },
                },
                Ok(_) => (Err("validate expects numeric value"@), it1, st1),
            }
        },
        SpecTyped::ToAmount { verified, .. } => spec_interp(*verified, depth, it, st),
        SpecTyped::UnsafeAssumeTrusted { oracle, .. } => spec_interp(*oracle, depth, it, st),
        SpecTyped::CreateLoan {
            borrower,
            lender_pool,
            loan_id,
            amount,
            collateral_asset,
            collateral_value,
            required_ratio,
            ..
        } => {
            let (a, it1, st1) = spec_interp(*amount, depth, it, st);
            match a {
                Err(m) => (Err(m), it1, st1),
                Ok(SpecValue::U64(amt)) => {
                    let (c, it2, st2) = spec_interp(*collateral_value, depth, it1, st1);
                    match c {
                        Err(m) => (Err(m), it2, st2),
                        Ok(SpecValue::U64(coll)) => {
                            let (r, st3) = spec_create_loan(
                                st2,
                                borrower,
                                lender_pool,
                                loan_id,
                                amt,
                                collateral_asset,
                                coll,
                                required_ratio,
                            );
                            after_ledger(r, it2, st3, SpecValue::Loan(loan_id))
                        },
                        Ok(_) => (Err("createLoan expects numeric collateral value"@), it2, st2),
                    }
                },
                Ok(_) => (Err("createLoan expects numeric amount"@), it1, st1),
            }
        },
        SpecTyped::Repay { borrower, lender_pool, loan, payment, .. } => {
            let (l, it1, st1) = spec_interp(*loan, depth, it, st);
            match l {
                Err(m) => (Err(m), it1, st1),
                Ok(SpecValue::Loan(id)) => {
                    let (p, it2, st2) = spec_interp(*payment, depth, it1, st1);
                    match p {
                        Err(m) => (Err(m), it2, st2),
                        Ok(SpecValue::U64(pmt)) => {
                            let (r, st3) = spec_repay(st2, borrower, lender_pool, id, pmt);
                            after_ledger(r, it2, st3, SpecValue::Loan(id))
                        },
                        Ok(_) => (Err("repay expects numeric payment"@), it2, st2),
                    }
                },
                Ok(_) => (Err("repay expects loan"@), it1, st1),
            }
        },
        SpecTyped::PriceUpdate { loan, new_price, .. } => {
            let (l, it1, st1) = spec_interp(*loan, depth, it, st);
            match l {
                Err(m) => (Err(m), it1, st1),
                Ok(SpecValue::Loan(id)) => {
                    let (p, it2, st2) = spec_interp(*new_price, depth, it1, st1);
                    match p {
                        Err(m) => (Err(m), it2, st2),
                        Ok(SpecValue::U64(price)) => {
                            let (r, st3) = spec_price_update(st2, id, price);
                            after_ledger(r, it2, st3, SpecValue::Loan(id))
                        },
                        Ok(_) => (Err("priceUpdate expects numeric price"@), it2, st2),
                    }
                },
                Ok(_) => (Err("priceUpdate expects loan"@), it1, st1),
            }
        },
        SpecTyped::Liquidate { loan, .. } => {
            let (l, it1, st1) = spec_interp(*loan, depth, it, st);
            match l {
                Err(m) => (Err(m), it1, st1),
                Ok(SpecValue::Loan(id)) => {
                    let (r, st2) = spec_liquidate(st1, id);
                    after_ledger(r, it1, st2, SpecValue::Unit)
                },
                Ok(_) => (Err("liquidate expects loan"@), it1, st1),
            }
        },
    }
}


/// An evaluation's outcome, as views.
pub open spec fn eval_result(r: Result<Value, String>) -> Result<SpecValue, Seq<char>> {
    match r {
        Ok(v) => Ok(v@),
        Err(m) => Err(m@),
    }
}

/// An evaluation agrees with the interpreter's semantics.
pub open spec fn eval_agrees(
    e: SpecTyped,
    depth: nat,
    it0: SpecInterp,
    st0: SpecState,
    r: Result<SpecValue, Seq<char>>,
    it1: SpecInterp,
    st1: SpecState,
) -> bool {
    (r, it1, st1) == spec_interp(e, depth, it0, st0)
}

fn ledger_value(r: Result<(), String>, v: Value) -> (out: Result<Value, String>)
    ensures
        match unit_view(r) {
            Err(m) => out matches Err(x) && x@ == m,
            Ok(()) => out matches Ok(y) && y@ == v@,
        },
{
    match r {
        Err(m) => Err(m),
        Ok(()) => Ok(v),
    }
}

impl Default for Interpreter {
    /// An interpreter with nothing bound.
    fn default() -> (r: Self)
        ensures
            r@ == empty_interp(),
            r.depth() == 0,
    {
        Interpreter::new()
    }
}

impl Interpreter {
    /// How deeply the interpreter is nested in policy checks.
    pub closed spec fn depth(&self) -> nat {
        self.depth as nat
    }

    pub fn new() -> (r: Interpreter)
        ensures
            r@ == empty_interp(),
            r.depth() == 0,
    {
        Interpreter { env: Table::new(), oracle_values: Table::new(), policies: Table::new(), depth: 0 }
    }

    /// A copy of the interpreter, one level deeper.
    fn nested(&self) -> (r: Interpreter)
        requires
            self.depth() < MAX_POLICY_DEPTH,
        ensures
            r@ == self@,
            r.depth() == self.depth() + 1,
    {
        Interpreter {
            env: self.env.duplicate(),
            oracle_values: self.oracle_values.duplicate(),
            policies: self.policies.duplicate(),
            depth: self.depth + 1,
        }
    }

    /// A copy of the interpreter.
    fn copy(&self) -> (r: Interpreter)
        ensures
            r@ == self@,
            r.depth() == self.depth(),
    {
        Interpreter {
            env: self.env.duplicate(),
            oracle_values: self.oracle_values.duplicate(),
            policies: self.policies.duplicate(),
            depth: self.depth,
        }
    }

    /// Queues a value on a feed.
    pub fn set_oracle_value(&mut self, feed: &str, value: u64)
        ensures
            final(self).depth() == old(self).depth(),
            final(self)@ == (SpecInterp {
                oracle_values: old(self)@.oracle_values.insert(
                    feed@,
                    if old(self)@.oracle_values.contains_key(feed@) {
                        old(self)@.oracle_values[feed@]
                    } else {
                        Seq::empty()
                    }.push(value),
                ),
                ..old(self)@
            }),
    {
        let mut q: Vec<u64> = match self.oracle_values.get(feed) {
            Some(q) => q.dup(),
            None => Vec::new(),
        };
        q.push(value);
        self.oracle_values.insert(text(feed), q);
    }

    /// Binds a name to an asset.
    pub fn set_asset(&mut self, name: &str, asset_id: &str)
        ensures
            final(self).depth() == old(self).depth(),
            final(self)@ == (SpecInterp { env: old(self)@.env.insert(name@, SpecValue::Asset(asset_id@)), ..old(self)@ }),
    {
        self.env.insert(text(name), Value::Asset(text(asset_id)));
    }

    /// Binds a name to a loan.
    pub fn set_loan(&mut self, name: &str, loan_id: &str)
        ensures
            final(self).depth() == old(self).depth(),
            final(self)@ == (SpecInterp { env: old(self)@.env.insert(name@, SpecValue::Loan(loan_id@)), ..old(self)@ }),
    {
        self.env.insert(text(name), Value::Loan(text(loan_id)));
    }

    fn get_var(&mut self, name: &str, ty: &Type) -> (r: Result<Value, String>)
        ensures
            final(self).depth() == old(self).depth(),
            (eval_result(r), final(self)@) == spec_get_var(old(self)@, name@, ty@),
    {
        if ty.is_linear() {
            match self.env.remove(name) {
                Some(v) => Ok(v),
                None => {
                    let mut m = text("Linear variable ");
                    push_str(&mut m, name);
                    push_str(&mut m, " not found or already consumed");
                    assert(self@.env =~= old(self)@.env);
                    Err(m)
                },
            }
        } else {
            match self.env.get(name) {
                Some(v) => Ok(v.copy()),
                None => {
                    let mut m = text("Variable ");
                    push_str(&mut m, name);
                    push_str(&mut m, " not found");
                    Err(m)
                },
            }
        }
    }

    fn oracle_read(&mut self, feed: SourceId) -> (r: Result<Value, String>)
        ensures
            final(self).depth() == old(self).depth(),
            (eval_result(r), final(self)@) == spec_oracle_read(old(self)@, feed),
    {
        let key = match feed {
            SourceId::FeedA => "FeedA",
            SourceId::FeedB => "FeedB",
        };
        let mut q = match self.oracle_values.get(key) {
            Some(q) => q.dup(),
            None => {
                let mut m = text("No oracle value for ");
                push_str(&mut m, key);
                return Err(m);
            },
        };
        if q.len() == 0 {
            let mut m = text("No oracle value available for ");
            push_str(&mut m, key);
            return Err(m);
        }
        let v = q.remove(0);
        self.oracle_values.insert(text(key), q);
        Ok(Value::U64(v))
    }

    fn interpret_flow(&mut self, expr: &TypedExpr, state: &mut FinancialState) -> (r: Result<Value, String>)
        requires
            expr is Binary || expr is If || expr is PolicyDef || expr is Let,
        ensures
            final(self).depth() == old(self).depth(),
            eval_agrees(expr@, old(self).depth(), old(self)@, old(state)@, eval_result(r), final(self)@, final(state)@),
        decreases policy_depth_left(self.depth()), expr, 0int,
    {
        match expr {
            TypedExpr::Binary { op, left, right, .. } => {
                let l = match self.interpret(left, state) {
                    Ok(v) => v,
                    Err(m) => {
                        return Err(m);
                    },
                };
                let r = match self.interpret(right, state) {
                    Ok(v) => v,
                    Err(m) => {
                        return Err(m);
                    },
                };
                binary(*op, &l, &r)
            },
            TypedExpr::If { condition, then_branch, else_branch, .. } => {
                match self.interpret(condition, state) {
                    Ok(Value::Bool(true)) => self.interpret(then_branch, state),
                    Ok(Value::Bool(false)) => self.interpret(else_branch, state),
                    Ok(_) => Err(text("if condition must be boolean")),
                    Err(m) => Err(m),
                }
            },
            TypedExpr::PolicyDef { name, parameter, predicate, body, .. } => {
                self.policies.insert(
                    text(name.as_str()),
                    PolicyDefinition { parameter: text(parameter.as_str()), predicate: predicate.copy() },
                );
                self.interpret(body, state)
            },
            TypedExpr::Let { name, value, body, .. } => {
                let v = match self.interpret(value, state) {
                    Ok(v) => v,
                    Err(m) => {
                        return Err(m);
                    },
                };
                self.env.insert(text(name.as_str()), v);
                self.interpret(body, state)
            },
            _ => {
                assert(false);
                Err(text(""))
            },
        }
    }

    fn interpret_validate(&mut self, expr: &TypedExpr, state: &mut FinancialState) -> (r: Result<Value, String>)
        requires
            expr is Validate,
        ensures
            final(self).depth() == old(self).depth(),
            eval_agrees(expr@, old(self).depth(), old(self)@, old(state)@, eval_result(r), final(self)@, final(state)@),
        decreases policy_depth_left(self.depth()), expr, 0int,
    {
        let (oracle, policy) = match expr {
            TypedExpr::Validate { oracle, policy, .. } => (oracle, policy),
            _ => {
                assert(false);
                return Err(text(""));
            },
        };
        let v = match self.interpret(oracle, state) {
            Ok(Value::U64(n)) => n,
            Ok(_) => {
                return Err(text("validate expects numeric value"));
            },
            Err(m) => {
                return Err(m);
            },
        };
        match policy {
            PolicyId::PriceBounds => {
                if v < 100 || v > 200 {
                    let mut m = text("Validation failed for PriceBounds: ");
                    push_nat(&mut m, v);
                    return Err(m);
                }
                Ok(Value::U64(v))
            },
            PolicyId::Named(name) => {
                let value = v;
                let (parameter, predicate) = match self.policies.get(name.as_str()) {
                    Some(d) => (text(d.parameter.as_str()), d.predicate.copy()),
                    None => {
                        let mut m = text("Policy '");
                        push_str(&mut m, name.as_str());
                        push_str(&mut m, "' is not defined");
                        return Err(m);
                    },
                };
                if self.depth >= MAX_POLICY_DEPTH {
                    return Err(text("policy depth limit exceeded"));
                }
                let mut child = self.nested();
                child.env.insert(parameter, Value::U64(value));
                match child.interpret(&predicate, state) {
                    Ok(Value::Bool(true)) => Ok(Value::U64(value)),
                    Ok(Value::Bool(false)) => {
                        let mut m = text("policy '");
                        push_str(&mut m, name.as_str());
                        push_str(&mut m, "' rejected value ");
                        push_nat(&mut m, value);
                        Err(m)
                    },
                    Ok(_) => Err(text("policy predicate must return Bool")),
                    Err(m) => Err(m),
                }
            },
        }
    }

    fn interpret_ledger(&mut self, expr: &TypedExpr, state: &mut FinancialState) -> (r: Result<Value, String>)
        requires
            expr is Transfer || expr is Mint || expr is CreateLoan || expr is Repay || expr is PriceUpdate
                || expr is Liquidate,
        ensures
            final(self).depth() == old(self).depth(),
            eval_agrees(expr@, old(self).depth(), old(self)@, old(state)@, eval_result(r), final(self)@, final(state)@),
        decreases policy_depth_left(self.depth()), expr, 0int,
    {
        match expr {
            TypedExpr::Transfer { from, to, asset, .. } => {
                let id = match self.interpret(asset, state) {
                    Ok(Value::Asset(id)) => id,
                    Ok(_) => {
                        return Err(text("transfer expects asset"));
                    },
                    Err(m) => {
                        return Err(m);
                    },
                };
                let r = transfer_asset(state, id.as_str(), from.as_str(), to.as_str());
                ledger_value(r, Value::Unit)
            },
            TypedExpr::Mint { account, amount, .. } => {
                let n = match self.interpret(amount, state) {
                    Ok(Value::U64(n)) => n,
                    Ok(_) => {
                        return Err(text("mint expects numeric amount"));
                    },
                    Err(m) => {
                        return Err(m);
                    },
                };
                let r = mint(state, account.as_str(), n);
                ledger_value(r, Value::Unit)
            },
            TypedExpr::CreateLoan {
                borrower,
                lender_pool,
                loan_id,
                amount,
                collateral_asset,
                collateral_value,
                required_ratio,
                ..
            } => {
                let amt = match self.interpret(amount, state) {
                    Ok(Value::U64(n)) => n,
                    Ok(_) => {
                        return Err(text("createLoan expects numeric amount"));
                    },
                    Err(m) => {
                        return Err(m);
                    },
                };
                let coll = match self.interpret(collateral_value, state) {
                    Ok(Value::U64(n)) => n,
                    Ok(_) => {
                        return Err(text("createLoan expects numeric collateral value"));
                    },
                    Err(m) => {
                        return Err(m);
                    },
                };
                let r = create_loan(
                    state,
                    borrower.as_str(),
                    lender_pool.as_str(),
                    loan_id.as_str(),
                    amt,
                    collateral_asset.as_str(),
                    coll,
                    *required_ratio,
                );
                ledger_value(r, Value::Loan(text(loan_id.as_str())))
            },
            TypedExpr::Repay { borrower, lender_pool, loan, payment, .. } => {
                let id = match self.interpret(loan, state) {
                    Ok(Value::Loan(id)) => id,
                    Ok(_) => {
                        return Err(text("repay expects loan"));
                    },
                    Err(m) => {
                        return Err(m);
                    },
                };
                let pmt = match self.interpret(payment, state) {
                    Ok(Value::U64(n)) => n,
                    Ok(_) => {
                        return Err(text("repay expects numeric payment"));
                    },
                    Err(m) => {
                        return Err(m);
                    },
                };
                let r = repay(state, borrower.as_str(), lender_pool.as_str(), id.as_str(), pmt);
                ledger_value(r, Value::Loan(id))
            },
            TypedExpr::PriceUpdate { loan, new_price, .. } => {
                let id = match self.interpret(loan, state) {
                    Ok(Value::Loan(id)) => id,
                    Ok(_) => {
                        return Err(text("priceUpdate expects loan"));
                    },
                    Err(m) => {
                        return Err(m);
                    },
                };
                let price = match self.interpret(new_price, state) {
                    Ok(Value::U64(n)) => n,
                    Ok(_) => {
                        return Err(text("priceUpdate expects numeric price"));
                    },
                    Err(m) => {
                        return Err(m);
                    },
                };
                let r = price_update(state, id.as_str(), price);
                ledger_value(r, Value::Loan(id))
            },
            TypedExpr::Liquidate { loan, .. } => {
                let id = match self.interpret(loan, state) {
                    Ok(Value::Loan(id)) => id,
                    Ok(_) => {
                        return Err(text("liquidate expects loan"));
                    },
                    Err(m) => {
                        return Err(m);
                    },
                };
                let r = liquidate(state, id.as_str());
                ledger_value(r, Value::Unit)
            },
            _ => {
                assert(false);
                Err(text(""))
            },
        }
    }

    /// Evaluates a typed tree against a ledger. Errors stop evaluation where they occur: the
    /// interpreter and the ledger keep what was done before.
    pub fn interpret(&mut self, expr: &TypedExpr, state: &mut FinancialState) -> (r: Result<Value, String>)
        ensures
            final(self).depth() == old(self).depth(),
            eval_agrees(expr@, old(self).depth(), old(self)@, old(state)@, eval_result(r), final(self)@, final(state)@),
        decreases policy_depth_left(self.depth()), expr, 1int,
    {
        match expr {
            TypedExpr::Int { value, .. } => Ok(Value::U64(*value)),
            TypedExpr::Bool { value, .. } => Ok(Value::Bool(*value)),
            TypedExpr::Binary { .. } | TypedExpr::If { .. } | TypedExpr::PolicyDef { .. } | TypedExpr::Let { .. } => self.interpret_flow(expr, state),
            TypedExpr::Function { .. } => Err(text("function runtime integration pending")),
            TypedExpr::Call { .. } => Err(text("function call runtime integration pending")),
            TypedExpr::Var { name, ty } => self.get_var(name.as_str(), ty),
            TypedExpr::OracleRead { feed, .. } => self.oracle_read(*feed),
            TypedExpr::Validate { .. } => self.interpret_validate(expr, state),
            TypedExpr::ToAmount { verified, .. } => self.interpret(verified, state),
            TypedExpr::UnsafeAssumeTrusted { oracle, .. } => self.interpret(oracle, state),
            TypedExpr::Transfer { .. } | TypedExpr::Mint { .. } | TypedExpr::CreateLoan { .. } | TypedExpr::Repay { .. }
            | TypedExpr::PriceUpdate { .. } | TypedExpr::Liquidate { .. } => self.interpret_ledger(expr, state),
        }
    }

    /// Evaluates a typed tree as one transaction: a staged copy of the interpreter and of the
    /// ledger does the work, and the ledger takes the staged changes only when evaluation
    /// succeeds. The interpreter itself is left as it was.
    pub fn interpret_atomic(&self, expr: &TypedExpr, state: &mut FinancialState) -> (r: Result<Value, String>)
        ensures
            ({
                let (res, _, st) = spec_interp(expr@, self.depth(), self@, old(state)@);
                &&& eval_result(r) == res
                &&& final(state)@ == if res is Ok {
                    st
                } else {
                    old(state)@
                }
            }),
    {
        let mut staged = self.copy();
        let mut staged_state = state.copy();
        let result = staged.interpret(expr, &mut staged_state);
        if result.is_ok() {
            *state = staged_state;
        }
        result
    }
}

// ---------------------------------------------------------------------------------------------
// Laws of interpretation.

/// Whether `a op b` holds, for the comparison operators, read as on numbers.
pub open spec fn comparison_holds(op: BinOp, a: u64, b: u64) -> bool {
    match op {
        BinOp::Lt => a < b,
        BinOp::Gt => a > b,
        BinOp::Le => a <= b,
        BinOp::Ge => a >= b,
        _ => a == b,
    }
}

/// Whether an operator compares.
pub open spec fn is_comparison_op(op: BinOp) -> bool {
    op == BinOp::Lt || op == BinOp::Gt || op == BinOp::Le || op == BinOp::Ge || op == BinOp::Eq
}

/// Comparing two numbers gives whether the comparison holds of them: `<` is strict, `<=` is
/// not, and so on; nothing else changes.
pub proof fn law_interpret_comparison(
    op: BinOp,
    a: u64,
    b: u64,
    ta: SpecType,
    tb: SpecType,
    ty: SpecType,
    depth: nat,
    it: SpecInterp,
    st: SpecState,
)
    requires
        is_comparison_op(op),
    ensures
        spec_interp(
            SpecTyped::Binary {
                op,
                left: Box::new(SpecTyped::Int { value: a, ty: ta }),
                right: Box::new(SpecTyped::Int { value: b, ty: tb }),
                ty,
            },
            depth,
            it,
            st,
        ) == (Ok::<SpecValue, Seq<char>>(SpecValue::Bool(comparison_holds(op, a, b))), it, st),
{
    assert(spec_interp(SpecTyped::Int { value: a, ty: ta }, depth, it, st) == (
        Ok::<SpecValue, Seq<char>>(SpecValue::U64(a)),
        it,
        st,
    ));
    assert(spec_interp(SpecTyped::Int { value: b, ty: tb }, depth, it, st) == (
        Ok::<SpecValue, Seq<char>>(SpecValue::U64(b)),
        it,
        st,
    ));
    assert(binary_value(op, SpecValue::U64(a), SpecValue::U64(b)) == Ok::<SpecValue, Seq<char>>(
        SpecValue::Bool(comparison_holds(op, a, b)),
    ));
}

/// A conditional whose condition comes out `true` gives what its first branch gives, run after
/// the condition; one whose condition comes out `false` gives what its second branch gives.
pub proof fn law_interpret_if(
    condition: SpecTyped,
    then_branch: SpecTyped,
    else_branch: SpecTyped,
    ty: SpecType,
    depth: nat,
    it: SpecInterp,
    st: SpecState,
)
    ensures
        ({
            let e = SpecTyped::If {
                condition: Box::new(condition),
                then_branch: Box::new(then_branch),
                else_branch: Box::new(else_branch),
                ty,
            };
            let (c, it1, st1) = spec_interp(condition, depth, it, st);
            &&& c == Ok::<SpecValue, Seq<char>>(SpecValue::Bool(true)) ==> spec_interp(e, depth, it, st)
                == spec_interp(then_branch, depth, it1, st1)
            &&& c == Ok::<SpecValue, Seq<char>>(SpecValue::Bool(false)) ==> spec_interp(e, depth, it, st)
                == spec_interp(else_branch, depth, it1, st1)
        }),
{
}

/// Arithmetic on two numbers is checked: an addition, subtraction or multiplication gives the
/// exact result when it lies in `u64` and its overflow message otherwise; it never wraps.
pub proof fn law_interpret_arithmetic(
    op: BinOp,
    a: u64,
    b: u64,
    ta: SpecType,
    tb: SpecType,
    ty: SpecType,
    depth: nat,
    it: SpecInterp,
    st: SpecState,
)
    requires
        op == BinOp::Add || op == BinOp::Sub || op == BinOp::Mul,
    ensures
        spec_interp(
            SpecTyped::Binary {
                op,
                left: Box::new(SpecTyped::Int { value: a, ty: ta }),
                right: Box::new(SpecTyped::Int { value: b, ty: tb }),
                ty,
            },
            depth,
            it,
            st,
        ) == (
            match checked_result(op, a, b) {
                Some(m) => Ok::<SpecValue, Seq<char>>(SpecValue::U64(m)),
                None => Err::<SpecValue, Seq<char>>(overflow_text(op)),
            },
            it,
            st,
        ),
{
    assert(spec_interp(SpecTyped::Int { value: a, ty: ta }, depth, it, st) == (
        Ok::<SpecValue, Seq<char>>(SpecValue::U64(a)),
        it,
        st,
    ));
    assert(spec_interp(SpecTyped::Int { value: b, ty: tb }, depth, it, st) == (
        Ok::<SpecValue, Seq<char>>(SpecValue::U64(b)),
        it,
        st,
    ));
}

} // verus!
