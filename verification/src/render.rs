//! The text of syntax trees, typed trees, instructions and tokens, written as `{:?}` writes
//! them: `Variant(a, b)` for tuple variants, `Variant { field: value, .. }` for the others,
//! names in escaped double quotes, lists in square brackets, and decimal numbers as a float
//! is written.
use vstd::prelude::*;
use crate::ast::{names_view, exprs_view, lemma_exprs_view, BinOp, Decimal, Expr, SpecExpr};
use crate::bytecode::{ops_view, OpCode, SpecOp};
use crate::lexer::{SpecToken, Token};
use crate::decimal::{decimal_text, push_decimal};
use crate::text::{nat_text, push_nat, push_quoted_text, push_str, quoted_text};
use crate::typed_ast::{lemma_typed_list_view, typed_list_view, SpecTyped, TypedExpr};
use crate::types::{policy_text, push_policy, push_source, push_type, source_text, type_text};

verus! {

pub open spec fn bool_text(b: bool) -> Seq<char> {
    if b {
        "true"@
    } else {
        "false"@
    }
}

fn push_bool(s: &mut String, b: bool)
    ensures
        final(s)@ == old(s)@ + bool_text(b),
{
    if b {
        push_str(s, "true");
    } else {
        push_str(s, "false");
    }
}

/// A decimal number as `{:?}` writes a float: its plain decimal writing, with `.0` after a
/// whole number.
pub open spec fn float_debug(d: Decimal) -> Seq<char> {
    if decimal_text(d).contains('.') {
        decimal_text(d)
    } else {
        decimal_text(d) + ".0"@
    }
}

fn has_point(t: &str) -> (r: bool)
    ensures
        r == t@.contains('.'),
{
    let ghost all = t@;
    let mut found = false;
    proof {
        vstd::string::axiom_spec_iter(t);
    }
    for c in it: t.chars()
        invariant
            it.seq() == all,
            found == all.take(it.index() as int).contains('.'),
    {
        let ghost i = it.index();
        if c == '.' {
            found = true;
        }
        proof {
            let a = all.take(i as int);
            let b = all.take(i + 1);
            assert(b =~= a.push(c));
            if found {
                if c == '.' {
                    assert(b[i as int] == '.');
                } else {
                    let k = choose|k: int| 0 <= k < a.len() && a[k] == '.';
                    assert(b[k] == '.');
                }
            } else {
                assert forall|k: int| 0 <= k < b.len() implies b[k] != '.' by {
                    if k < i {
                        assert(b[k] == a[k]);
                    }
                }
            }
        }
    }
    assert(all.take(all.len() as int) =~= all);
    found
}

fn push_float_debug(s: &mut String, d: &Decimal)
    ensures
        final(s)@ == old(s)@ + float_debug(*d),
{
    let mut t = String::new();
    push_decimal(&mut t, *d);
    let point = has_point(t.as_str());
    push_str(s, t.as_str());
    if !point {
        push_str(s, ".0");
    }
}

pub open spec fn binop_text(o: BinOp) -> Seq<char> {
    match o {
        BinOp::Add => "Add"@,
        BinOp::Sub => "Sub"@,
        BinOp::Mul => "Mul"@,
        BinOp::Div => "Div"@,
        BinOp::Lt => "Lt"@,
        BinOp::Gt => "Gt"@,
        BinOp::Le => "Le"@,
        BinOp::Ge => "Ge"@,
        BinOp::Eq => "Eq"@,
    }
}

fn push_binop(s: &mut String, o: BinOp)
    ensures
        final(s)@ == old(s)@ + binop_text(o),
{
    match o {
        BinOp::Add => push_str(s, "Add"),
        BinOp::Sub => push_str(s, "Sub"),
        BinOp::Mul => push_str(s, "Mul"),
        BinOp::Div => push_str(s, "Div"),
        BinOp::Lt => push_str(s, "Lt"),
        BinOp::Gt => push_str(s, "Gt"),
        BinOp::Le => push_str(s, "Le"),
        BinOp::Ge => push_str(s, "Ge"),
        BinOp::Eq => push_str(s, "Eq"),
    }
}

/// Names in double quotes, separated by commas.
pub open spec fn names_list(ns: Seq<Seq<char>>) -> Seq<char>
    decreases ns.len(),
{
    if ns.len() == 0 {
        Seq::empty()
    } else if ns.len() == 1 {
        quoted_text(ns[0])
    } else {
        names_list(ns.drop_last()) + ", "@ + quoted_text(ns.last())
    }
}

/// A list of names in square brackets.
pub open spec fn names_text(ns: Seq<Seq<char>>) -> Seq<char> {
    "["@ + names_list(ns) + "]"@
}

fn push_names(s: &mut String, v: &Vec<String>)
    ensures
        final(s)@ == old(s)@ + names_text(names_view(v@)),
{
    let ghost s0 = s@;
    let ghost ns = names_view(v@);
    push_str(s, "[");
    let ghost s1 = s@;
    let mut i: usize = 0;
    while i < v.len()
        invariant
            i <= v@.len(),
            ns == names_view(v@),
            s@ == s1 + names_list(ns.take(i as int)),
        decreases v@.len() - i,
    {
        if i > 0 {
            push_str(s, ", ");
        }
        push_quoted_text(s, v[i].as_str());
        proof {
            assert(ns.take(i + 1).drop_last() =~= ns.take(i as int));
            assert(ns.take(i + 1).last() == ns[i as int]);
            if i == 0 {
                assert(ns.take(0) =~= Seq::<Seq<char>>::empty());
            }
        }
        i = i + 1;
    }
    assert(ns.take(v@.len() as int) =~= ns);
    push_str(s, "]");
    assert(s@ =~= s0 + names_text(ns));
}

// ---------------------------------------------------------------------------------------------
// Syntax trees.

/// A syntax tree as `{:?}` writes it.
pub open spec fn expr_text(e: SpecExpr) -> Seq<char>
    decreases e,
{
    match e {
        SpecExpr::Int(n) => "Int("@ + nat_text(n as nat) + ")"@,
        SpecExpr::Bool(b) => "Bool("@ + bool_text(b) + ")"@,
        SpecExpr::Function { params, body } => "Function { params: "@ + names_text(params) + ", body: "@ + expr_text(*body) + " }"@,
        SpecExpr::Call { function, args } => "Call { function: "@ + expr_text(*function) + ", args: ["@ + exprs_text(args) + "] }"@,
        SpecExpr::PolicyDef { name, parameter, predicate, body } => "PolicyDef { name: "@ + quoted_text(name) + ", parameter: "@ + quoted_text(parameter) + ", predicate: "@ + expr_text(*predicate) + ", body: "@ + expr_text(*body) + " }"@,
        SpecExpr::Binary { op, left, right } => "Binary { op: "@ + binop_text(op) + ", left: "@ + expr_text(*left) + ", right: "@ + expr_text(*right) + " }"@,
        SpecExpr::If { condition, then_branch, else_branch } => "If { condition: "@ + expr_text(*condition) + ", then_branch: "@ + expr_text(*then_branch) + ", else_branch: "@ + expr_text(*else_branch) + " }"@,
        SpecExpr::Transfer { from, to, asset } => "Transfer { from: "@ + quoted_text(from) + ", to: "@ + quoted_text(to) + ", asset: "@ + expr_text(*asset) + " }"@,
        SpecExpr::Mint { account, amount } => "Mint { account: "@ + quoted_text(account) + ", amount: "@ + expr_text(*amount) + " }"@,
        SpecExpr::OracleRead { feed } => "OracleRead { feed: "@ + source_text(feed) + " }"@,
        SpecExpr::Validate { oracle, policy } => "Validate { oracle: "@ + expr_text(*oracle) + ", policy: "@ + policy_text(policy) + " }"@,
        SpecExpr::ToAmount { verified } => "ToAmount { verified: "@ + expr_text(*verified) + " }"@,
        SpecExpr::UnsafeAssumeTrusted { oracle } => "UnsafeAssumeTrusted { oracle: "@ + expr_text(*oracle) + " }"@,
        SpecExpr::Let { name, value, body } => "Let { name: "@ + quoted_text(name) + ", value: "@ + expr_text(*value) + ", body: "@ + expr_text(*body) + " }"@,
        SpecExpr::Var { name } => "Var { name: "@ + quoted_text(name) + " }"@,
        SpecExpr::CreateLoan { borrower, lender_pool, loan_id, amount, collateral_asset, collateral_value, required_ratio } => "CreateLoan { borrower: "@ + quoted_text(borrower) + ", lender_pool: "@ + quoted_text(lender_pool) + ", loan_id: "@ + quoted_text(loan_id) + ", amount: "@ + expr_text(*amount) + ", collateral_asset: "@ + quoted_text(collateral_asset) + ", collateral_value: "@ + expr_text(*collateral_value) + ", required_ratio: "@ + float_debug(required_ratio) + " }"@,
        SpecExpr::Repay { borrower, lender_pool, loan, payment } => "Repay { borrower: "@ + quoted_text(borrower) + ", lender_pool: "@ + quoted_text(lender_pool) + ", loan: "@ + expr_text(*loan) + ", payment: "@ + expr_text(*payment) + " }"@,
        SpecExpr::PriceUpdate { loan, new_price } => "PriceUpdate { loan: "@ + expr_text(*loan) + ", new_price: "@ + expr_text(*new_price) + " }"@,
        SpecExpr::Liquidate { loan } => "Liquidate { loan: "@ + expr_text(*loan) + " }"@,
    }
}
/// The texts of a list, separated by commas.
pub open spec fn exprs_text(xs: Seq<SpecExpr>) -> Seq<char>
    decreases xs,
{
    if xs.len() == 0 {
        Seq::empty()
    } else if xs.len() == 1 {
        expr_text(xs[0])
    } else {
        exprs_text(xs.drop_last()) + ", "@ + expr_text(xs.last())
    }
}
/// Appends the text of a syntax tree.
#[verifier::spinoff_prover]
#[verifier::rlimit(100)]
pub fn push_expr(s: &mut String, e: &Expr)
    ensures
        final(s)@ == old(s)@ + expr_text(e@),
    decreases e,
{
    let ghost s0 = s@;
    match e {
        Expr::Int(n) => {
            push_str(s, "Int(");
            push_nat(s, *n);
            push_str(s, ")");
            assert(s@ =~= s0 + expr_text(e@));
        },
        Expr::Bool(b) => {
            push_str(s, "Bool(");
            push_bool(s, *b);
            push_str(s, ")");
            assert(s@ =~= s0 + expr_text(e@));
        },
        Expr::Function { params, body } => {
            push_str(s, "Function { params: ");
            push_names(s, params);
            push_str(s, ", body: ");
            push_expr(s, body);
            push_str(s, " }");
            assert(s@ =~= s0 + expr_text(e@));
        },
        Expr::Call { function, args } => {
            push_str(s, "Call { function: ");
            push_expr(s, function);
            push_str(s, ", args: [");
            push_exprs(s, args);
            push_str(s, "] }");
            assert(s@ =~= s0 + expr_text(e@));
        },
        Expr::PolicyDef { name, parameter, predicate, body } => {
            push_str(s, "PolicyDef { name: ");
            push_quoted_text(s, name.as_str());
            push_str(s, ", parameter: ");
            push_quoted_text(s, parameter.as_str());
            push_str(s, ", predicate: ");
            push_expr(s, predicate);
            push_str(s, ", body: ");
            push_expr(s, body);
            push_str(s, " }");
            assert(s@ =~= s0 + expr_text(e@));
        },
        Expr::Binary { op, left, right } => {
            push_str(s, "Binary { op: ");
            push_binop(s, *op);
            push_str(s, ", left: ");
            push_expr(s, left);
            push_str(s, ", right: ");
            push_expr(s, right);
            push_str(s, " }");
            assert(s@ =~= s0 + expr_text(e@));
        },
        Expr::If { condition, then_branch, else_branch } => {
            push_str(s, "If { condition: ");
            push_expr(s, condition);
            push_str(s, ", then_branch: ");
            push_expr(s, then_branch);
            push_str(s, ", else_branch: ");
            push_expr(s, else_branch);
            push_str(s, " }");
            assert(s@ =~= s0 + expr_text(e@));
        },
        Expr::Transfer { from, to, asset } => {
            push_str(s, "Transfer { from: ");
            push_quoted_text(s, from.as_str());
            push_str(s, ", to: ");
            push_quoted_text(s, to.as_str());
            push_str(s, ", asset: ");
            push_expr(s, asset);
            push_str(s, " }");
            assert(s@ =~= s0 + expr_text(e@));
        },
        Expr::Mint { account, amount } => {
            push_str(s, "Mint { account: ");
            push_quoted_text(s, account.as_str());
            push_str(s, ", amount: ");
            push_expr(s, amount);
            push_str(s, " }");
            assert(s@ =~= s0 + expr_text(e@));
        },
        Expr::OracleRead { feed } => {
            push_str(s, "OracleRead { feed: ");
            push_source(s, *feed);
            push_str(s, " }");
            assert(s@ =~= s0 + expr_text(e@));
        },
        Expr::Validate { oracle, policy } => {
            push_str(s, "Validate { oracle: ");
            push_expr(s, oracle);
            push_str(s, ", policy: ");
            push_policy(s, policy);
            push_str(s, " }");
            assert(s@ =~= s0 + expr_text(e@));
        },
        Expr::ToAmount { verified } => {
            push_str(s, "ToAmount { verified: ");
            push_expr(s, verified);
            push_str(s, " }");
            assert(s@ =~= s0 + expr_text(e@));
        },
        Expr::UnsafeAssumeTrusted { oracle } => {
            push_str(s, "UnsafeAssumeTrusted { oracle: ");
            push_expr(s, oracle);
            push_str(s, " }");
            assert(s@ =~= s0 + expr_text(e@));
        },
        Expr::Let { name, value, body } => {
            push_str(s, "Let { name: ");
            push_quoted_text(s, name.as_str());
            push_str(s, ", value: ");
            push_expr(s, value);
            push_str(s, ", body: ");
            push_expr(s, body);
            push_str(s, " }");
            assert(s@ =~= s0 + expr_text(e@));
        },
        Expr::Var { name } => {
            push_str(s, "Var { name: ");
            push_quoted_text(s, name.as_str());
            push_str(s, " }");
            assert(s@ =~= s0 + expr_text(e@));
        },
        Expr::CreateLoan { borrower, lender_pool, loan_id, amount, collateral_asset, collateral_value, required_ratio } => {
            push_str(s, "CreateLoan { borrower: ");
            push_quoted_text(s, borrower.as_str());
            push_str(s, ", lender_pool: ");
            push_quoted_text(s, lender_pool.as_str());
            push_str(s, ", loan_id: ");
            push_quoted_text(s, loan_id.as_str());
            push_str(s, ", amount: ");
            push_expr(s, amount);
            push_str(s, ", collateral_asset: ");
            push_quoted_text(s, collateral_asset.as_str());
            push_str(s, ", collateral_value: ");
            push_expr(s, collateral_value);
            push_str(s, ", required_ratio: ");
            push_float_debug(s, required_ratio);
            push_str(s, " }");
            assert(s@ =~= s0 + expr_text(e@));
        },
        Expr::Repay { borrower, lender_pool, loan, payment } => {
            push_str(s, "Repay { borrower: ");
            push_quoted_text(s, borrower.as_str());
            push_str(s, ", lender_pool: ");
            push_quoted_text(s, lender_pool.as_str());
            push_str(s, ", loan: ");
            push_expr(s, loan);
            push_str(s, ", payment: ");
            push_expr(s, payment);
            push_str(s, " }");
            assert(s@ =~= s0 + expr_text(e@));
        },
        Expr::PriceUpdate { loan, new_price } => {
            push_str(s, "PriceUpdate { loan: ");
            push_expr(s, loan);
            push_str(s, ", new_price: ");
            push_expr(s, new_price);
            push_str(s, " }");
            assert(s@ =~= s0 + expr_text(e@));
        },
        Expr::Liquidate { loan } => {
            push_str(s, "Liquidate { loan: ");
            push_expr(s, loan);
            push_str(s, " }");
            assert(s@ =~= s0 + expr_text(e@));
        },
    }
}
/// Appends the texts of a list, separated by commas.
pub fn push_exprs(s: &mut String, v: &Vec<Expr>)
    ensures
        final(s)@ == old(s)@ + exprs_text(exprs_view(v@)),
    decreases v,
{
    let ghost s1 = s@;
    let ghost xs = exprs_view(v@);
    proof {
        lemma_exprs_view(v@);
    }
    let mut i: usize = 0;
    while i < v.len()
        invariant
            i <= v@.len(),
            xs == exprs_view(v@),
            xs.len() == v@.len(),
            forall|j: int| 0 <= j < v@.len() ==> #[trigger] xs[j] == v@[j]@,
            s@ == s1 + exprs_text(xs.take(i as int)),
        decreases v@.len() - i,
    {
        if i > 0 {
            push_str(s, ", ");
        }
        push_expr(s, &v[i]);
        proof {
            assert(xs.take(i + 1).drop_last() =~= xs.take(i as int));
            assert(xs.take(i + 1).last() == xs[i as int]);
            if i == 0 {
                assert(xs.take(0) =~= Seq::<_>::empty());
            }
        }
        i = i + 1;
    }
    assert(xs.take(v@.len() as int) =~= xs);
}
// ---------------------------------------------------------------------------------------------
// Typed trees.

/// A typed tree as `{:?}` writes it.
pub open spec fn typed_text(e: SpecTyped) -> Seq<char>
    decreases e,
{
    match e {
        SpecTyped::Int { value, ty } => "Int { value: "@ + nat_text(value as nat) + ", ty: "@ + type_text(ty) + " }"@,
        SpecTyped::Bool { value, ty } => "Bool { value: "@ + bool_text(value) + ", ty: "@ + type_text(ty) + " }"@,
        SpecTyped::Function { params, body, ty } => "Function { params: "@ + names_text(params) + ", body: "@ + typed_text(*body) + ", ty: "@ + type_text(ty) + " }"@,
        SpecTyped::Call { function, args, ty } => "Call { function: "@ + typed_text(*function) + ", args: ["@ + typeds_text(args) + "], ty: "@ + type_text(ty) + " }"@,
        SpecTyped::PolicyDef { name, parameter, predicate, body, ty } => "PolicyDef { name: "@ + quoted_text(name) + ", parameter: "@ + quoted_text(parameter) + ", predicate: "@ + typed_text(*predicate) + ", body: "@ + typed_text(*body) + ", ty: "@ + type_text(ty) + " }"@,
        SpecTyped::Binary { op, left, right, ty } => "Binary { op: "@ + binop_text(op) + ", left: "@ + typed_text(*left) + ", right: "@ + typed_text(*right) + ", ty: "@ + type_text(ty) + " }"@,
        SpecTyped::If { condition, then_branch, else_branch, ty } => "If { condition: "@ + typed_text(*condition) + ", then_branch: "@ + typed_text(*then_branch) + ", else_branch: "@ + typed_text(*else_branch) + ", ty: "@ + type_text(ty) + " }"@,
        SpecTyped::Transfer { from, to, asset, ty } => "Transfer { from: "@ + quoted_text(from) + ", to: "@ + quoted_text(to) + ", asset: "@ + typed_text(*asset) + ", ty: "@ + type_text(ty) + " }"@,
        SpecTyped::Mint { account, amount, ty } => "Mint { account: "@ + quoted_text(account) + ", amount: "@ + typed_text(*amount) + ", ty: "@ + type_text(ty) + " }"@,
        SpecTyped::OracleRead { feed, ty } => "OracleRead { feed: "@ + source_text(feed) + ", ty: "@ + type_text(ty) + " }"@,
        SpecTyped::Validate { oracle, policy, ty } => "Validate { oracle: "@ + typed_text(*oracle) + ", policy: "@ + policy_text(policy) + ", ty: "@ + type_text(ty) + " }"@,
        SpecTyped::ToAmount { verified, ty } => "ToAmount { verified: "@ + typed_text(*verified) + ", ty: "@ + type_text(ty) + " }"@,
        SpecTyped::UnsafeAssumeTrusted { oracle, ty } => "UnsafeAssumeTrusted { oracle: "@ + typed_text(*oracle) + ", ty: "@ + type_text(ty) + " }"@,
        SpecTyped::Let { name, value, body, ty } => "Let { name: "@ + quoted_text(name) + ", value: "@ + typed_text(*value) + ", body: "@ + typed_text(*body) + ", ty: "@ + type_text(ty) + " }"@,
        SpecTyped::Var { name, ty } => "Var { name: "@ + quoted_text(name) + ", ty: "@ + type_text(ty) + " }"@,
        SpecTyped::CreateLoan { borrower, lender_pool, loan_id, amount, collateral_asset, collateral_value, required_ratio, ty } => "CreateLoan { borrower: "@ + quoted_text(borrower) + ", lender_pool: "@ + quoted_text(lender_pool) + ", loan_id: "@ + quoted_text(loan_id) + ", amount: "@ + typed_text(*amount) + ", collateral_asset: "@ + quoted_text(collateral_asset) + ", collateral_value: "@ + typed_text(*collateral_value) + ", required_ratio: "@ + float_debug(required_ratio) + ", ty: "@ + type_text(ty) + " }"@,
        SpecTyped::Repay { borrower, lender_pool, loan, payment, ty } => "Repay { borrower: "@ + quoted_text(borrower) + ", lender_pool: "@ + quoted_text(lender_pool) + ", loan: "@ + typed_text(*loan) + ", payment: "@ + typed_text(*payment) + ", ty: "@ + type_text(ty) + " }"@,
        SpecTyped::PriceUpdate { loan, new_price, ty } => "PriceUpdate { loan: "@ + typed_text(*loan) + ", new_price: "@ + typed_text(*new_price) + ", ty: "@ + type_text(ty) + " }"@,
        SpecTyped::Liquidate { loan, ty } => "Liquidate { loan: "@ + typed_text(*loan) + ", ty: "@ + type_text(ty) + " }"@,
    }
}
/// The texts of a list, separated by commas.
pub open spec fn typeds_text(xs: Seq<SpecTyped>) -> Seq<char>
    decreases xs,
{
    if xs.len() == 0 {
        Seq::empty()
    } else if xs.len() == 1 {
        typed_text(xs[0])
    } else {
        typeds_text(xs.drop_last()) + ", "@ + typed_text(xs.last())
    }
}
/// Appends the text of a typed tree.
#[verifier::spinoff_prover]
#[verifier::rlimit(100)]
pub fn push_typed(s: &mut String, e: &TypedExpr)
    ensures
        final(s)@ == old(s)@ + typed_text(e@),
    decreases e, 2int,
{
    let ghost s0 = s@;
    match e {
        TypedExpr::Int { value, ty } => {
            push_str(s, "Int { value: ");
            push_nat(s, *value);
            push_str(s, ", ty: ");
            push_type(s, ty);
            push_str(s, " }");
            assert(s@ =~= s0 + typed_text(e@));
        },
        TypedExpr::Bool { value, ty } => {
            push_str(s, "Bool { value: ");
            push_bool(s, *value);
            push_str(s, ", ty: ");
            push_type(s, ty);
            push_str(s, " }");
            assert(s@ =~= s0 + typed_text(e@));
        },
        TypedExpr::Function { params, body, ty } => {
            push_str(s, "Function { params: ");
            push_names(s, params);
            push_str(s, ", body: ");
            push_typed(s, body);
            push_str(s, ", ty: ");
            push_type(s, ty);
            push_str(s, " }");
            assert(s@ =~= s0 + typed_text(e@));
        },
        TypedExpr::Call { function, args, ty } => {
            push_str(s, "Call { function: ");
            push_typed(s, function);
            push_str(s, ", args: [");
            push_typeds(s, args);
            push_str(s, "], ty: ");
            push_type(s, ty);
            push_str(s, " }");
            assert(s@ =~= s0 + typed_text(e@));
        },
        TypedExpr::PolicyDef { name, parameter, predicate, body, ty } => {
            push_str(s, "PolicyDef { name: ");
            push_quoted_text(s, name.as_str());
            push_str(s, ", parameter: ");
            push_quoted_text(s, parameter.as_str());
            push_str(s, ", predicate: ");
            push_typed(s, predicate);
            push_str(s, ", body: ");
            push_typed(s, body);
            push_str(s, ", ty: ");
            push_type(s, ty);
            push_str(s, " }");
            assert(s@ =~= s0 + typed_text(e@));
        },
        TypedExpr::Binary { op, left, right, ty } => {
            push_str(s, "Binary { op: ");
            push_binop(s, *op);
            push_str(s, ", left: ");
            push_typed(s, left);
            push_str(s, ", right: ");
            push_typed(s, right);
            push_str(s, ", ty: ");
            push_type(s, ty);
            push_str(s, " }");
            assert(s@ =~= s0 + typed_text(e@));
        },
        TypedExpr::If { condition, then_branch, else_branch, ty } => {
            push_str(s, "If { condition: ");
            push_typed(s, condition);
            push_str(s, ", then_branch: ");
            push_typed(s, then_branch);
            push_str(s, ", else_branch: ");
            push_typed(s, else_branch);
            push_str(s, ", ty: ");
            push_type(s, ty);
            push_str(s, " }");
            assert(s@ =~= s0 + typed_text(e@));
        },
        TypedExpr::Transfer { from, to, asset, ty } => {
            push_str(s, "Transfer { from: ");
            push_quoted_text(s, from.as_str());
            push_str(s, ", to: ");
            push_quoted_text(s, to.as_str());
            push_str(s, ", asset: ");
            push_typed(s, asset);
            push_str(s, ", ty: ");
            push_type(s, ty);
            push_str(s, " }");
            assert(s@ =~= s0 + typed_text(e@));
        },
        _ => push_typed_part1(s, e),
    }
}

#[verifier::spinoff_prover]
#[verifier::rlimit(100)]
fn push_typed_part1(s: &mut String, e: &TypedExpr)
    requires
        e is Mint || e is OracleRead || e is Validate || e is ToAmount || e is UnsafeAssumeTrusted || e is Let || e is Var || e is CreateLoan || e is Repay || e is PriceUpdate || e is Liquidate,
    ensures
        final(s)@ == old(s)@ + typed_text(e@),
    decreases e, 1int,
{
    let ghost s0 = s@;
    match e {
        TypedExpr::Mint { account, amount, ty } => {
            push_str(s, "Mint { account: ");
            push_quoted_text(s, account.as_str());
            push_str(s, ", amount: ");
            push_typed(s, amount);
            push_str(s, ", ty: ");
            push_type(s, ty);
            push_str(s, " }");
            assert(s@ =~= s0 + typed_text(e@));
        },
        TypedExpr::OracleRead { feed, ty } => {
            push_str(s, "OracleRead { feed: ");
            push_source(s, *feed);
            push_str(s, ", ty: ");
            push_type(s, ty);
            push_str(s, " }");
            assert(s@ =~= s0 + typed_text(e@));
        },
        TypedExpr::Validate { oracle, policy, ty } => {
            push_str(s, "Validate { oracle: ");
            push_typed(s, oracle);
            push_str(s, ", policy: ");
            push_policy(s, policy);
            push_str(s, ", ty: ");
            push_type(s, ty);
            push_str(s, " }");
            assert(s@ =~= s0 + typed_text(e@));
        },
        TypedExpr::ToAmount { verified, ty } => {
            push_str(s, "ToAmount { verified: ");
            push_typed(s, verified);
            push_str(s, ", ty: ");
            push_type(s, ty);
            push_str(s, " }");
            assert(s@ =~= s0 + typed_text(e@));
        },
        TypedExpr::UnsafeAssumeTrusted { oracle, ty } => {
            push_str(s, "UnsafeAssumeTrusted { oracle: ");
            push_typed(s, oracle);
            push_str(s, ", ty: ");
            push_type(s, ty);
            push_str(s, " }");
            assert(s@ =~= s0 + typed_text(e@));
        },
        TypedExpr::Let { name, value, body, ty } => {
            push_str(s, "Let { name: ");
            push_quoted_text(s, name.as_str());
            push_str(s, ", value: ");
            push_typed(s, value);
            push_str(s, ", body: ");
            push_typed(s, body);
            push_str(s, ", ty: ");
            push_type(s, ty);
            push_str(s, " }");
            assert(s@ =~= s0 + typed_text(e@));
        },
        _ => push_typed_part2(s, e),
    }
}

#[verifier::spinoff_prover]
#[verifier::rlimit(100)]
fn push_typed_part2(s: &mut String, e: &TypedExpr)
    requires
        e is Var || e is CreateLoan || e is Repay || e is PriceUpdate || e is Liquidate,
    ensures
        final(s)@ == old(s)@ + typed_text(e@),
    decreases e, 0int,
{
    let ghost s0 = s@;
    match e {
        TypedExpr::Var { name, ty } => {
            push_str(s, "Var { name: ");
            push_quoted_text(s, name.as_str());
            push_str(s, ", ty: ");
            push_type(s, ty);
            push_str(s, " }");
            assert(s@ =~= s0 + typed_text(e@));
        },
        TypedExpr::CreateLoan { borrower, lender_pool, loan_id, amount, collateral_asset, collateral_value, required_ratio, ty } => {
            push_str(s, "CreateLoan { borrower: ");
            push_quoted_text(s, borrower.as_str());
            push_str(s, ", lender_pool: ");
            push_quoted_text(s, lender_pool.as_str());
            push_str(s, ", loan_id: ");
            push_quoted_text(s, loan_id.as_str());
            push_str(s, ", amount: ");
            push_typed(s, amount);
            push_str(s, ", collateral_asset: ");
            push_quoted_text(s, collateral_asset.as_str());
            push_str(s, ", collateral_value: ");
            push_typed(s, collateral_value);
            push_str(s, ", required_ratio: ");
            push_float_debug(s, required_ratio);
            push_str(s, ", ty: ");
            push_type(s, ty);
            push_str(s, " }");
            assert(s@ =~= s0 + typed_text(e@));
        },
        TypedExpr::Repay { borrower, lender_pool, loan, payment, ty } => {
            push_str(s, "Repay { borrower: ");
            push_quoted_text(s, borrower.as_str());
            push_str(s, ", lender_pool: ");
            push_quoted_text(s, lender_pool.as_str());
            push_str(s, ", loan: ");
            push_typed(s, loan);
            push_str(s, ", payment: ");
            push_typed(s, payment);
            push_str(s, ", ty: ");
            push_type(s, ty);
            push_str(s, " }");
            assert(s@ =~= s0 + typed_text(e@));
        },
        TypedExpr::PriceUpdate { loan, new_price, ty } => {
            push_str(s, "PriceUpdate { loan: ");
            push_typed(s, loan);
            push_str(s, ", new_price: ");
            push_typed(s, new_price);
            push_str(s, ", ty: ");
            push_type(s, ty);
            push_str(s, " }");
            assert(s@ =~= s0 + typed_text(e@));
        },
        TypedExpr::Liquidate { loan, ty } => {
            push_str(s, "Liquidate { loan: ");
            push_typed(s, loan);
            push_str(s, ", ty: ");
            push_type(s, ty);
            push_str(s, " }");
            assert(s@ =~= s0 + typed_text(e@));
        },
        _ => {
            assert(false);
        },
    }
}
/// Appends the texts of a list, separated by commas.
pub fn push_typeds(s: &mut String, v: &Vec<TypedExpr>)
    ensures
        final(s)@ == old(s)@ + typeds_text(typed_list_view(v@)),
    decreases v, 0int,
{
    let ghost s1 = s@;
    let ghost xs = typed_list_view(v@);
    proof {
        lemma_typed_list_view(v@);
    }
    let mut i: usize = 0;
    while i < v.len()
        invariant
            i <= v@.len(),
            xs == typed_list_view(v@),
            xs.len() == v@.len(),
            forall|j: int| 0 <= j < v@.len() ==> #[trigger] xs[j] == v@[j]@,
            s@ == s1 + typeds_text(xs.take(i as int)),
        decreases v@.len() - i,
    {
        if i > 0 {
            push_str(s, ", ");
        }
        push_typed(s, &v[i]);
        proof {
            assert(xs.take(i + 1).drop_last() =~= xs.take(i as int));
            assert(xs.take(i + 1).last() == xs[i as int]);
            if i == 0 {
                assert(xs.take(0) =~= Seq::<_>::empty());
            }
        }
        i = i + 1;
    }
    assert(xs.take(v@.len() as int) =~= xs);
}
// ---------------------------------------------------------------------------------------------
// Instructions.

/// An instruction as `{:?}` writes it.
pub open spec fn op_text(op: SpecOp) -> Seq<char>
    decreases op,
{
    match op {
        SpecOp::Push(n) => "Push("@ + nat_text(n as nat) + ")"@,
        SpecOp::PushBool(b) => "PushBool("@ + bool_text(b) + ")"@,
        SpecOp::Binary(o) => "Binary("@ + binop_text(o) + ")"@,
        SpecOp::Select { then_ops, else_ops } => "Select { then_ops: ["@ + ops_text(then_ops) + "], else_ops: ["@ + ops_text(else_ops) + "] }"@,
        SpecOp::Trap(m) => "Trap("@ + quoted_text(m) + ")"@,
        SpecOp::Function { params, body } => "Function { params: "@ + names_text(params) + ", body: "@ + typed_text(body) + " }"@,
        SpecOp::Call(n) => "Call("@ + nat_text(n as nat) + ")"@,
        SpecOp::DefinePolicy { name, parameter, predicate } => "DefinePolicy { name: "@ + quoted_text(name) + ", parameter: "@ + quoted_text(parameter) + ", predicate: "@ + typed_text(predicate) + " }"@,
        SpecOp::CallPolicy(n) => "CallPolicy("@ + quoted_text(n) + ")"@,
        SpecOp::Load(n) => "Load("@ + quoted_text(n) + ")"@,
        SpecOp::Store(n) => "Store("@ + quoted_text(n) + ")"@,
        SpecOp::Pop => "Pop"@,
        SpecOp::OracleRead(f) => "OracleRead("@ + source_text(f) + ")"@,
        SpecOp::Validate(p) => "Validate("@ + policy_text(p) + ")"@,
        SpecOp::ToAmount => "ToAmount"@,
        SpecOp::UnsafeAssumeTrusted => "UnsafeAssumeTrusted"@,
        SpecOp::Mint(a) => "Mint("@ + quoted_text(a) + ")"@,
        SpecOp::Transfer(a, b) => "Transfer("@ + quoted_text(a) + ", "@ + quoted_text(b) + ")"@,
        SpecOp::CreateLoan { borrower, lender_pool, loan_id, collateral_asset, required_ratio } => "CreateLoan { borrower: "@ + quoted_text(borrower) + ", lender_pool: "@ + quoted_text(lender_pool) + ", loan_id: "@ + quoted_text(loan_id) + ", collateral_asset: "@ + quoted_text(collateral_asset) + ", required_ratio: "@ + float_debug(required_ratio) + " }"@,
        SpecOp::Repay { borrower, lender_pool } => "Repay { borrower: "@ + quoted_text(borrower) + ", lender_pool: "@ + quoted_text(lender_pool) + " }"@,
        SpecOp::PriceUpdate => "PriceUpdate"@,
        SpecOp::Liquidate => "Liquidate"@,
        SpecOp::Halt => "Halt"@,
    }
}
/// The texts of a list, separated by commas.
pub open spec fn ops_text(xs: Seq<SpecOp>) -> Seq<char>
    decreases xs,
{
    if xs.len() == 0 {
        Seq::empty()
    } else if xs.len() == 1 {
        op_text(xs[0])
    } else {
        ops_text(xs.drop_last()) + ", "@ + op_text(xs.last())
    }
}
/// Appends the text of an instruction.
#[verifier::spinoff_prover]
#[verifier::rlimit(100)]
pub fn push_op(s: &mut String, op: &OpCode)
    ensures
        final(s)@ == old(s)@ + op_text(op@),
    decreases op,
{
    let ghost s0 = s@;
    match op {
        OpCode::Push(n) => {
            push_str(s, "Push(");
            push_nat(s, *n);
            push_str(s, ")");
            assert(s@ =~= s0 + op_text(op@));
        },
        OpCode::PushBool(b) => {
            push_str(s, "PushBool(");
            push_bool(s, *b);
            push_str(s, ")");
            assert(s@ =~= s0 + op_text(op@));
        },
        OpCode::Binary(o) => {
            push_str(s, "Binary(");
            push_binop(s, *o);
            push_str(s, ")");
            assert(s@ =~= s0 + op_text(op@));
        },
        OpCode::Select { then_ops, else_ops } => {
            push_str(s, "Select { then_ops: [");
            push_ops(s, then_ops);
            push_str(s, "], else_ops: [");
            push_ops(s, else_ops);
            push_str(s, "] }");
            proof {
                assert(op@->Select_then_ops =~= ops_view(then_ops@));
                assert(op@->Select_else_ops =~= ops_view(else_ops@));
            }
            assert(s@ =~= s0 + op_text(op@));
        },
        OpCode::Trap(m) => {
            push_str(s, "Trap(");
            push_quoted_text(s, m.as_str());
            push_str(s, ")");
            assert(s@ =~= s0 + op_text(op@));
        },
        OpCode::Function { params, body } => {
            push_str(s, "Function { params: ");
            push_names(s, params);
            push_str(s, ", body: ");
            push_typed(s, body);
            push_str(s, " }");
            assert(s@ =~= s0 + op_text(op@));
        },
        OpCode::Call(n) => {
            push_str(s, "Call(");
            push_nat(s, *n as u64);
            push_str(s, ")");
            assert(s@ =~= s0 + op_text(op@));
        },
        OpCode::DefinePolicy { name, parameter, predicate } => {
            push_str(s, "DefinePolicy { name: ");
            push_quoted_text(s, name.as_str());
            push_str(s, ", parameter: ");
            push_quoted_text(s, parameter.as_str());
            push_str(s, ", predicate: ");
            push_typed(s, predicate);
            push_str(s, " }");
            assert(s@ =~= s0 + op_text(op@));
        },
        OpCode::CallPolicy(n) => {
            push_str(s, "CallPolicy(");
            push_quoted_text(s, n.as_str());
            push_str(s, ")");
            assert(s@ =~= s0 + op_text(op@));
        },
        OpCode::Load(n) => {
            push_str(s, "Load(");
            push_quoted_text(s, n.as_str());
            push_str(s, ")");
            assert(s@ =~= s0 + op_text(op@));
        },
        OpCode::Store(n) => {
            push_str(s, "Store(");
            push_quoted_text(s, n.as_str());
            push_str(s, ")");
            assert(s@ =~= s0 + op_text(op@));
        },
        OpCode::Pop => {
            push_str(s, "Pop");
            assert(s@ =~= s0 + op_text(op@));
        },
        OpCode::OracleRead(f) => {
            push_str(s, "OracleRead(");
            push_source(s, *f);
            push_str(s, ")");
            assert(s@ =~= s0 + op_text(op@));
        },
        OpCode::Validate(p) => {
            push_str(s, "Validate(");
            push_policy(s, p);
            push_str(s, ")");
            assert(s@ =~= s0 + op_text(op@));
        },
        OpCode::ToAmount => {
            push_str(s, "ToAmount");
            assert(s@ =~= s0 + op_text(op@));
        },
        OpCode::UnsafeAssumeTrusted => {
            push_str(s, "UnsafeAssumeTrusted");
            assert(s@ =~= s0 + op_text(op@));
        },
        OpCode::Mint(a) => {
            push_str(s, "Mint(");
            push_quoted_text(s, a.as_str());
            push_str(s, ")");
            assert(s@ =~= s0 + op_text(op@));
        },
        OpCode::Transfer(a, b) => {
            push_str(s, "Transfer(");
            push_quoted_text(s, a.as_str());
            push_str(s, ", ");
            push_quoted_text(s, b.as_str());
            push_str(s, ")");
            assert(s@ =~= s0 + op_text(op@));
        },
        OpCode::CreateLoan { borrower, lender_pool, loan_id, collateral_asset, required_ratio } => {
            push_str(s, "CreateLoan { borrower: ");
            push_quoted_text(s, borrower.as_str());
            push_str(s, ", lender_pool: ");
            push_quoted_text(s, lender_pool.as_str());
            push_str(s, ", loan_id: ");
            push_quoted_text(s, loan_id.as_str());
            push_str(s, ", collateral_asset: ");
            push_quoted_text(s, collateral_asset.as_str());
            push_str(s, ", required_ratio: ");
            push_float_debug(s, required_ratio);
            push_str(s, " }");
            assert(s@ =~= s0 + op_text(op@));
        },
        OpCode::Repay { borrower, lender_pool } => {
            push_str(s, "Repay { borrower: ");
            push_quoted_text(s, borrower.as_str());
            push_str(s, ", lender_pool: ");
            push_quoted_text(s, lender_pool.as_str());
            push_str(s, " }");
            assert(s@ =~= s0 + op_text(op@));
        },
        OpCode::PriceUpdate => {
            push_str(s, "PriceUpdate");
            assert(s@ =~= s0 + op_text(op@));
        },
        OpCode::Liquidate => {
            push_str(s, "Liquidate");
            assert(s@ =~= s0 + op_text(op@));
        },
        OpCode::Halt => {
            push_str(s, "Halt");
            assert(s@ =~= s0 + op_text(op@));
        },
    }
}
/// Appends the texts of a list, separated by commas.
pub fn push_ops(s: &mut String, v: &Vec<OpCode>)
    ensures
        final(s)@ == old(s)@ + ops_text(ops_view(v@)),
    decreases v,
{
    let ghost s1 = s@;
    let ghost xs = ops_view(v@);
    proof {
        
    }
    let mut i: usize = 0;
    while i < v.len()
        invariant
            i <= v@.len(),
            xs == ops_view(v@),
            xs.len() == v@.len(),
            forall|j: int| 0 <= j < v@.len() ==> #[trigger] xs[j] == v@[j]@,
            s@ == s1 + ops_text(xs.take(i as int)),
        decreases v@.len() - i,
    {
        if i > 0 {
            push_str(s, ", ");
        }
        push_op(s, &v[i]);
        proof {
            assert(xs.take(i + 1).drop_last() =~= xs.take(i as int));
            assert(xs.take(i + 1).last() == xs[i as int]);
            if i == 0 {
                assert(xs.take(0) =~= Seq::<_>::empty());
            }
        }
        i = i + 1;
    }
    assert(xs.take(v@.len() as int) =~= xs);
}
/// The text of an instruction.
pub fn op_string(op: &OpCode) -> (r: String)
    ensures
        r@ == op_text(op@),
{
    let mut s = String::new();
    push_op(&mut s, op);
    s
}

// ---------------------------------------------------------------------------------------------
// Tokens.

/// A token as `{:?}` writes it.
#[verifier::opaque]
pub open spec fn token_text(t: SpecToken) -> Seq<char>
{
    match t {
        SpecToken::Let => "Let"@,
        SpecToken::In => "In"@,
        SpecToken::Fn => "Fn"@,
        SpecToken::Policy => "Policy"@,
        SpecToken::If => "If"@,
        SpecToken::Then => "Then"@,
        SpecToken::Else => "Else"@,
        SpecToken::True => "True"@,
        SpecToken::False => "False"@,
        SpecToken::Transfer => "Transfer"@,
        SpecToken::Mint => "Mint"@,
        SpecToken::OracleRead => "OracleRead"@,
        SpecToken::Validate => "Validate"@,
        SpecToken::ToAmount => "ToAmount"@,
        SpecToken::UnsafeAssumeTrusted => "UnsafeAssumeTrusted"@,
        SpecToken::CreateLoan => "CreateLoan"@,
        SpecToken::Repay => "Repay"@,
        SpecToken::PriceUpdate => "PriceUpdate"@,
        SpecToken::Liquidate => "Liquidate"@,
        SpecToken::LParen => "LParen"@,
        SpecToken::RParen => "RParen"@,
        SpecToken::Comma => "Comma"@,
        SpecToken::Equals => "Equals"@,
        SpecToken::EqEq => "EqEq"@,
        SpecToken::Lt => "Lt"@,
        SpecToken::Gt => "Gt"@,
        SpecToken::Le => "Le"@,
        SpecToken::Ge => "Ge"@,
        SpecToken::Plus => "Plus"@,
        SpecToken::Minus => "Minus"@,
        SpecToken::Star => "Star"@,
        SpecToken::Slash => "Slash"@,
        SpecToken::Colon => "Colon"@,
        SpecToken::Semicolon => "Semicolon"@,
        SpecToken::Arrow => "Arrow"@,
        SpecToken::LBrace => "LBrace"@,
        SpecToken::RBrace => "RBrace"@,
        SpecToken::Number(n) => "Number("@ + nat_text(n as nat) + ")"@,
        SpecToken::Float(d) => "Float("@ + float_debug(d) + ")"@,
        SpecToken::Ident(x) => "Ident("@ + quoted_text(x) + ")"@,
        SpecToken::EOF => "EOF"@,
    }
}
/// Appends the text of a token.
#[verifier::spinoff_prover]
pub fn push_token(s: &mut String, t: &Token)
    ensures
        final(s)@ == old(s)@ + token_text(t@),
{
    let ghost s0 = s@;
    proof {
        reveal(token_text);
    }
    match t {
        Token::Let => {
            push_str(s, "Let");
            assert(s@ =~= s0 + token_text(t@));
        },
        Token::In => {
            push_str(s, "In");
            assert(s@ =~= s0 + token_text(t@));
        },
        Token::Fn => {
            push_str(s, "Fn");
            assert(s@ =~= s0 + token_text(t@));
        },
        Token::Policy => {
            push_str(s, "Policy");
            assert(s@ =~= s0 + token_text(t@));
        },
        Token::If => {
            push_str(s, "If");
            assert(s@ =~= s0 + token_text(t@));
        },
        Token::Then => {
            push_str(s, "Then");
            assert(s@ =~= s0 + token_text(t@));
        },
        Token::Else => {
            push_str(s, "Else");
            assert(s@ =~= s0 + token_text(t@));
        },
        Token::True => {
            push_str(s, "True");
            assert(s@ =~= s0 + token_text(t@));
        },
        Token::False => {
            push_str(s, "False");
            assert(s@ =~= s0 + token_text(t@));
        },
        Token::Transfer => {
            push_str(s, "Transfer");
            assert(s@ =~= s0 + token_text(t@));
        },
        Token::Mint => {
            push_str(s, "Mint");
            assert(s@ =~= s0 + token_text(t@));
        },
        Token::OracleRead => {
            push_str(s, "OracleRead");
            assert(s@ =~= s0 + token_text(t@));
        },
        Token::Validate => {
            push_str(s, "Validate");
            assert(s@ =~= s0 + token_text(t@));
        },
        Token::ToAmount => {
            push_str(s, "ToAmount");
            assert(s@ =~= s0 + token_text(t@));
        },
        Token::UnsafeAssumeTrusted => {
            push_str(s, "UnsafeAssumeTrusted");
            assert(s@ =~= s0 + token_text(t@));
        },
        Token::CreateLoan => {
            push_str(s, "CreateLoan");
            assert(s@ =~= s0 + token_text(t@));
        },
        Token::Repay => {
            push_str(s, "Repay");
            assert(s@ =~= s0 + token_text(t@));
        },
        Token::PriceUpdate => {
            push_str(s, "PriceUpdate");
            assert(s@ =~= s0 + token_text(t@));
        },
        Token::Liquidate => {
            push_str(s, "Liquidate");
            assert(s@ =~= s0 + token_text(t@));
        },
        Token::LParen => {
            push_str(s, "LParen");
            assert(s@ =~= s0 + token_text(t@));
        },
        Token::RParen => {
            push_str(s, "RParen");
            assert(s@ =~= s0 + token_text(t@));
        },
        Token::Comma => {
            push_str(s, "Comma");
            assert(s@ =~= s0 + token_text(t@));
        },
        Token::Equals => {
            push_str(s, "Equals");
            assert(s@ =~= s0 + token_text(t@));
        },
        Token::EqEq => {
            push_str(s, "EqEq");
            assert(s@ =~= s0 + token_text(t@));
        },
        Token::Lt => {
            push_str(s, "Lt");
            assert(s@ =~= s0 + token_text(t@));
        },
        Token::Gt => {
            push_str(s, "Gt");
            assert(s@ =~= s0 + token_text(t@));
        },
        Token::Le => {
            push_str(s, "Le");
            assert(s@ =~= s0 + token_text(t@));
        },
        Token::Ge => {
            push_str(s, "Ge");
            assert(s@ =~= s0 + token_text(t@));
        },
        Token::Plus => {
            push_str(s, "Plus");
            assert(s@ =~= s0 + token_text(t@));
        },
        Token::Minus => {
            push_str(s, "Minus");
            assert(s@ =~= s0 + token_text(t@));
        },
        Token::Star => {
            push_str(s, "Star");
            assert(s@ =~= s0 + token_text(t@));
        },
        Token::Slash => {
            push_str(s, "Slash");
            assert(s@ =~= s0 + token_text(t@));
        },
        Token::Colon => {
            push_str(s, "Colon");
            assert(s@ =~= s0 + token_text(t@));
        },
        Token::Semicolon => {
            push_str(s, "Semicolon");
            assert(s@ =~= s0 + token_text(t@));
        },
        Token::Arrow => {
            push_str(s, "Arrow");
            assert(s@ =~= s0 + token_text(t@));
        },
        Token::LBrace => {
            push_str(s, "LBrace");
            assert(s@ =~= s0 + token_text(t@));
        },
        Token::RBrace => {
            push_str(s, "RBrace");
            assert(s@ =~= s0 + token_text(t@));
        },
        Token::Number(n) => {
            push_str(s, "Number(");
            push_nat(s, *n);
            push_str(s, ")");
            assert(s@ =~= s0 + token_text(t@));
        },
        Token::Float(d) => {
            push_str(s, "Float(");
            push_float_debug(s, d);
            push_str(s, ")");
            assert(s@ =~= s0 + token_text(t@));
        },
        Token::Ident(x) => {
            push_str(s, "Ident(");
            push_quoted_text(s, x.as_str());
            push_str(s, ")");
            assert(s@ =~= s0 + token_text(t@));
        },
        Token::EOF => {
            push_str(s, "EOF");
            assert(s@ =~= s0 + token_text(t@));
        },
    }
}
/// The text of a token.
pub fn token_string(t: &Token) -> (r: String)
    ensures
        r@ == token_text(t@),
{
    let mut s = String::new();
    push_token(&mut s, t);
    s
}

} // verus!
