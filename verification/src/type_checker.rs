//! Static checking of programs: types, linear resources and effect policies.
use vstd::prelude::*;
use crate::ast::{dup_names, exprs_view, lemma_exprs_view, names_view, BinOp, Currency, Expr, PolicyId, SourceId, SpecExpr, SpecPolicy};
use crate::effects::{
    effects_text, is_unsafe, is_untrusted, liquidation_policy_ok, loan_policy_ok, mint_policy_ok, push_effects, repay_policy_ok,
    spec_policy_ok, Effect, Effects, SpecEffect,
};
use crate::table::{key_order, lemma_key_order, Table};
use crate::text::{nat_text, push_nat, push_str, text};
use crate::typed_ast::{lemma_typed_list_view, typed_list_view, SpecTyped, TypedExpr};
use crate::types::{
    already_defined_text, not_found_text, push_quoted, quoted, push_source, push_type, source_text, spec_plain_usd, type_text,
    types_view, AmountKind, SpecAmountKind, SpecEnv, SpecType, Type, TypeEnv,
};

verus! {

// ---------------------------------------------------------------------------------------------
// The checking rules, as a function on views.

/// The outcome of checking one expression: the typed tree and its type, or a message.
pub type SpecOutcome = Result<(SpecTyped, SpecType), Seq<char>>;

/// Adds an effect to an ordered set.
pub open spec fn eff_insert(s: Seq<SpecEffect>, e: SpecEffect) -> Seq<SpecEffect> {
    if s.contains(e) {
        s
    } else {
        s.push(e)
    }
}

/// Removes an effect from an ordered set.
pub open spec fn eff_remove(s: Seq<SpecEffect>, e: SpecEffect) -> Seq<SpecEffect> {
    if s.contains(e) {
        s.remove(s.index_of(e))
    } else {
        s
    }
}

/// The variables after binding each parameter as a plain USD amount.
pub open spec fn with_params(vars: Map<Seq<char>, SpecType>, params: Seq<Seq<char>>) -> Map<Seq<char>, SpecType>
    decreases params.len(),
{
    if params.len() == 0 {
        vars
    } else {
        with_params(vars, params.drop_last()).insert(params.last(), spec_plain_usd())
    }
}

pub open spec fn is_comparison(op: BinOp) -> bool {
    match op {
        BinOp::Lt | BinOp::Gt | BinOp::Le | BinOp::Ge | BinOp::Eq => true,
        _ => false,
    }
}

pub open spec fn is_verified_amount(t: SpecType) -> bool {
    t matches SpecType::Amount { kind: SpecAmountKind::FromVerified { .. }, .. }
}

/// Checks the arguments of a call against the parameter types, left to right.
pub open spec fn check_args(
    args: Seq<SpecExpr>,
    params: Seq<SpecType>,
    env: SpecEnv,
    eff: Seq<SpecEffect>,
) -> (Result<Seq<SpecTyped>, Seq<char>>, SpecEnv, Seq<SpecEffect>)
    decreases args,
{
    if args.len() == 0 || params.len() == 0 {
        (Ok(Seq::empty()), env, eff)
    } else {
        let (r, env1, eff1) = check(args[0], env, eff);
        match r {
            Err(m) => (Err(m), env1, eff1),
            Ok((ta, t)) => if t != params[0] {
                (
                    Err("argument type mismatch: "@ + type_text(t) + " != "@ + type_text(params[0])),
                    env1,
                    eff1,
                )
            } else {
                let (rest, env2, eff2) = check_args(args.drop_first(), params.drop_first(), env1, eff1);
                match rest {
                    Err(m) => (Err(m), env2, eff2),
                    Ok(tas) => (Ok(seq![ta] + tas), env2, eff2),
                }
            },
        }
    }
}

/// Checks one expression under an environment and a set of effects: the outcome, and the
/// environment and effects after it.
pub open spec fn check(e: SpecExpr, env: SpecEnv, eff: Seq<SpecEffect>) -> (
    SpecOutcome,
    SpecEnv,
    Seq<SpecEffect>,
)
    decreases e,
{
    match e {
        SpecExpr::Function { params, body } => {
            let local = SpecEnv { vars: with_params(env.vars, params), ..env };
            let (rb, _, eff1) = check(*body, local, eff);
            match rb {
                Err(m) => (Err(m), env, eff1),
                Ok((tb, result)) => {
                    let ty = SpecType::Function {
                        params: Seq::new(params.len(), |i: int| spec_plain_usd()),
                        result: Box::new(result),
                    };
                    (Ok((SpecTyped::Function { params, body: Box::new(tb), ty }, ty)), env, eff1)
                },
            }
        },
        SpecExpr::Call { function, args } => {
            let (rf, env1, eff1) = check(*function, env, eff);
            match rf {
                Err(m) => (Err(m), env1, eff1),
                Ok((tf, ft)) => match ft {
                    SpecType::Function { params, result } => if params.len() != args.len() {
                        (
                            Err("function expects "@ + nat_text(params.len()) + " arguments"@),
                            env1,
                            eff1,
                        )
                    } else {
                        let (ra, env2, eff2) = check_args(args, params, env1, eff1);
                        match ra {
                            Err(m) => (Err(m), env2, eff2),
                            Ok(tas) => (
                                Ok(
                                    (
                                        SpecTyped::Call { function: Box::new(tf), args: tas, ty: *result },
                                        *result,
                                    ),
                                ),
                                env2,
                                eff2,
                            ),
                        }
                    },
                    _ => (Err("call expects a function"@), env1, eff1),
                },
            }
        },
        SpecExpr::PolicyDef { name, parameter, predicate, body } => {
            let local = SpecEnv { vars: env.vars.insert(parameter, spec_plain_usd()), ..env };
            let (rp, _, eff1) = check(*predicate, local, eff);
            match rp {
                Err(m) => (Err(m), env, eff1),
                Ok((tp, pty)) => if pty != SpecType::Bool {
                    (Err("policy predicate must be Bool"@), env, eff1)
                } else {
                    let env1 = SpecEnv { policies: env.policies.insert(name, SpecType::Bool), ..env };
                    let (rb, env2, eff2) = check(*body, env1, eff1);
                    match rb {
                        Err(m) => (Err(m), env2, eff2),
                        Ok((tb, ty)) => (
                            Ok(
                                (
                                    SpecTyped::PolicyDef {
                                        name,
                                        parameter,
                                        predicate: Box::new(tp),
                                        body: Box::new(tb),
                                        ty,
                                    },
                                    ty,
                                ),
                            ),
                            env2,
                            eff2,
                        ),
                    }
                },
            }
        },
        SpecExpr::Bool(value) => (Ok((SpecTyped::Bool { value, ty: SpecType::Bool }, SpecType::Bool)), env, eff),
        SpecExpr::Binary { op, left, right } => {
            let (rl, env1, eff1) = check(*left, env, eff);
            match rl {
                Err(m) => (Err(m), env1, eff1),
                Ok((tl, lty)) => {
                    let (rr, env2, eff2) = check(*right, env1, eff1);
                    match rr {
                        Err(m) => (Err(m), env2, eff2),
                        Ok((tr, rty)) => if is_comparison(op) {
                            if lty != rty {
                                (
                                    Err(
                                        "comparison requires equal operand types, got "@ + type_text(lty)
                                            + " and "@ + type_text(rty),
                                    ),
                                    env2,
                                    eff2,
                                )
                            } else {
                                (
                                    Ok(
                                        (
                                            SpecTyped::Binary {
                                                op,
                                                left: Box::new(tl),
                                                right: Box::new(tr),
                                                ty: SpecType::Bool,
                                            },
                                            SpecType::Bool,
                                        ),
                                    ),
                                    env2,
                                    eff2,
                                )
                            }
                        } else {
                            let ok = match (lty, rty) {
                                (
                                    SpecType::Amount { currency: lc, .. },
                                    SpecType::Amount { currency: rc, .. },
                                ) => lc == rc,
                                _ => false,
                            };
                            if !ok {
                                (
                                    Err(
                                        "arithmetic requires two Amount operands, got "@ + type_text(lty)
                                            + " and "@ + type_text(rty),
                                    ),
                                    env2,
                                    eff2,
                                )
                            } else {
                                (
                                    Ok(
                                        (
                                            SpecTyped::Binary {
                                                op,
                                                left: Box::new(tl),
                                                right: Box::new(tr),
                                                ty: lty,
                                            },
                                            lty,
                                        ),
                                    ),
                                    env2,
                                    eff2,
                                )
                            }
                        },
                    }
                },
            }
        },
        SpecExpr::If { condition, then_branch, else_branch } => {
            let (rc, env1, eff1) = check(*condition, env, eff);
            match rc {
                Err(m) => (Err(m), env1, eff1),
                Ok((tc, cty)) => if cty != SpecType::Bool {
                    (Err("if condition must be Bool, got "@ + type_text(cty)), env1, eff1)
                } else {
                    let (rt, then_env, _) = check(*then_branch, env1, eff1);
                    match rt {
                        Err(m) => (Err(m), env1, eff1),
                        Ok((tt, tty)) => {
                            let (re, else_env, _) = check(*else_branch, env1, eff1);
                            match re {
                                Err(m) => (Err(m), env1, eff1),
                                Ok((te, ety)) => if tty != ety {
                                    (
                                        Err(
                                            "if branches must have equal types, got "@ + type_text(tty)
                                                + " and "@ + type_text(ety),
                                        ),
                                        env1,
                                        eff1,
                                    )
                                } else if then_env.linear != Map::<Seq<char>, SpecType>::empty()
                                    || else_env.linear != Map::<Seq<char>, SpecType>::empty() {
                                    (Err("linear resources cannot escape conditional branches"@), env1, eff1)
                                } else {
                                    (
                                        Ok(
                                            (
                                                SpecTyped::If {
                                                    condition: Box::new(tc),
                                                    then_branch: Box::new(tt),
                                                    else_branch: Box::new(te),
                                                    ty: tty,
                                                },
                                                tty,
                                            ),
                                        ),
                                        env1,
                                        eff1,
                                    )
                                },
                            }
                        },
                    }
                },
            }
        },
        SpecExpr::Int(n) => (Ok((SpecTyped::Int { value: n, ty: spec_plain_usd() }, spec_plain_usd())), env, eff),
        SpecExpr::Mint { account, amount } => {
            let (ra, env1, eff1) = check(*amount, env, eff);
            match ra {
                Err(m) => (Err(m), env1, eff1),
                Ok((ta, aty)) => match aty {
                    SpecType::Amount { .. } => if !spec_policy_ok(eff1) {
                        (Err("MintPolicy violated: "@ + effects_text(eff1)), env1, eff1)
                    } else {
                        (
                            Ok((SpecTyped::Mint { account, amount: Box::new(ta), ty: SpecType::Unit }, SpecType::Unit)),
                            env1,
                            eff1,
                        )
                    },
                    _ => (Err("mint expects Amount, got "@ + type_text(aty)), env1, eff1),
                },
            }
        },
        SpecExpr::OracleRead { feed } => {
            let ty = SpecType::Oracle(Currency::USD, feed);
            (Ok((SpecTyped::OracleRead { feed, ty }, ty)), env, eff_insert(eff, SpecEffect::UntrustedData(feed)))
        },
        SpecExpr::Validate { oracle, policy } => {
            let (ro, env1, eff1) = check(*oracle, env, eff);
            match ro {
                Err(m) => (Err(m), env1, eff1),
                Ok((to, oty)) => match oty {
                    SpecType::Oracle(currency, source) => if policy matches SpecPolicy::Named(name)
                        && !env1.policies.contains_key(name) {
                        (Err("Policy '"@ + policy->Named_0 + "' is not defined"@), env1, eff1)
                    } else if !eff1.contains(SpecEffect::UntrustedData(source)) {
                        (
                            Err("UntrustedData("@ + source_text(source) + ") not present; cannot validate"@),
                            env1,
                            eff1,
                        )
                    } else {
                        let eff2 = eff_insert(
                            eff_remove(eff1, SpecEffect::UntrustedData(source)),
                            SpecEffect::Validation(policy, source),
                        );
                        let ty = SpecType::Verified(currency, policy, source);
                        (Ok((SpecTyped::Validate { oracle: Box::new(to), policy, ty }, ty)), env1, eff2)
                    },
                    _ => (Err("validate expects Oracle, got "@ + type_text(oty)), env1, eff1),
                },
            }
        },
        SpecExpr::ToAmount { verified } => {
            let (rv, env1, eff1) = check(*verified, env, eff);
            match rv {
                Err(m) => (Err(m), env1, eff1),
                Ok((tv, vty)) => match vty {
                    SpecType::Verified(currency, policy, source) => {
                        let ty = SpecType::Amount {
                            currency,
                            kind: SpecAmountKind::FromVerified { policy, source },
                        };
                        (
                            Ok((SpecTyped::ToAmount { verified: Box::new(tv), ty }, ty)),
                            env1,
                            eff_insert(eff1, SpecEffect::ValidatedData(source)),
                        )
                    },
                    _ => (Err("toAmount expects Verified, got "@ + type_text(vty)), env1, eff1),
                },
            }
        },
        SpecExpr::UnsafeAssumeTrusted { oracle } => {
            let (ro, env1, eff1) = check(*oracle, env, eff);
            match ro {
                Err(m) => (Err(m), env1, eff1),
                Ok((to, oty)) => match oty {
                    SpecType::Oracle(currency, source) => {
                        let ty = SpecType::Amount { currency, kind: SpecAmountKind::Plain };
                        (
                            Ok((SpecTyped::UnsafeAssumeTrusted { oracle: Box::new(to), ty }, ty)),
                            env1,
                            eff_insert(eff_insert(eff1, SpecEffect::TrustAssumption(source)), SpecEffect::Unsafe),
                        )
                    },
                    _ => (Err("unsafeAssumeTrusted expects Oracle, got "@ + type_text(oty)), env1, eff1),
                },
            }
        },
        SpecExpr::Transfer { from, to, asset } => {
            let (ra, env1, eff1) = check(*asset, env, eff);
            match ra {
                Err(m) => (Err(m), env1, eff1),
                Ok((ta, aty)) => match aty {
                    SpecType::LinearAsset(_) => (
                        Ok((SpecTyped::Transfer { from, to, asset: Box::new(ta), ty: SpecType::Unit }, SpecType::Unit)),
                        env1,
                        eff1,
                    ),
                    _ => (Err("transfer expects LinearAsset, got "@ + type_text(aty)), env1, eff1),
                },
            }
        },
        SpecExpr::Let { name, value, body } => {
            let (rv, env1, eff1) = check(*value, env, eff);
            match rv {
                Err(m) => (Err(m), env1, eff1),
                Ok((tv, vty)) => if Type::spec_is_linear(vty) && env1.linear.contains_key(name) {
                    (Err(already_defined_text(name)), env1, eff1)
                } else {
                    let env2 = if Type::spec_is_linear(vty) {
                        SpecEnv { linear: env1.linear.insert(name, vty), ..env1 }
                    } else {
                        SpecEnv { vars: env1.vars.insert(name, vty), ..env1 }
                    };
                    let (rb, env3, eff3) = check(*body, env2, eff1);
                    match rb {
                        Err(m) => (Err(m), env3, eff3),
                        Ok((tb, bty)) => (
                            Ok((SpecTyped::Let { name, value: Box::new(tv), body: Box::new(tb), ty: bty }, bty)),
                            env3,
                            eff3,
                        ),
                    }
                },
            }
        },
        SpecExpr::Var { name } => if env.vars.contains_key(name) {
            let ty = env.vars[name];
            (Ok((SpecTyped::Var { name, ty }, ty)), env, eff)
        } else if env.linear.contains_key(name) {
            let ty = env.linear[name];
            (Ok((SpecTyped::Var { name, ty }, ty)), SpecEnv { linear: env.linear.remove(name), ..env }, eff)
        } else {
            (Err(not_found_text(name)), env, eff)
        },
        SpecExpr::CreateLoan {
            borrower,
            lender_pool,
            loan_id,
            amount,
            collateral_asset,
            collateral_value,
            required_ratio,
        } => {
            let (ra, env1, eff1) = check(*amount, env, eff);
            match ra {
                Err(m) => (Err(m), env1, eff1),
                Ok((ta, aty)) => if !is_verified_amount(aty) {
                    (Err("createLoan expects verified amount"@), env1, eff1)
                } else {
                    let (rc, env2, eff2) = check(*collateral_value, env1, eff1);
                    match rc {
                        Err(m) => (Err(m), env2, eff2),
                        Ok((tc, cty)) => if !is_verified_amount(cty) {
                            (Err("createLoan requires verified collateral value"@), env2, eff2)
                        } else if !spec_policy_ok(eff2) {
                            (Err("LoanPolicy violated: "@ + effects_text(eff2)), env2, eff2)
                        } else {
                            let ty = SpecType::Loan { id: loan_id };
                            (
                                Ok(
                                    (
                                        SpecTyped::CreateLoan {
                                            borrower,
                                            lender_pool,
                                            loan_id,
                                            amount: Box::new(ta),
                                            collateral_asset,
                                            collateral_value: Box::new(tc),
                                            required_ratio,
                                            ty,
                                        },
                                        ty,
                                    ),
                                ),
                                env2,
                                eff2,
                            )
                        },
                    }
                },
            }
        },
        SpecExpr::Repay { borrower, lender_pool, loan, payment } => {
            let (rl, env1, eff1) = check(*loan, env, eff);
            match rl {
                Err(m) => (Err(m), env1, eff1),
                Ok((tl, lty)) => match lty {
                    SpecType::Loan { id } => {
                        let (rp, env2, eff2) = check(*payment, env1, eff1);
                        match rp {
                            Err(m) => (Err(m), env2, eff2),
                            Ok((tp, pty)) => match pty {
                                SpecType::Amount { .. } => if !spec_policy_ok(eff2) {
                                    (Err("RepayPolicy violated: "@ + effects_text(eff2)), env2, eff2)
                                } else {
                                    let ty = SpecType::Loan { id };
                                    (
                                        Ok(
                                            (
                                                SpecTyped::Repay {
                                                    borrower,
                                                    lender_pool,
                                                    loan: Box::new(tl),
                                                    payment: Box::new(tp),
                                                    ty,
                                                },
                                                ty,
                                            ),
                                        ),
                                        env2,
                                        eff2,
                                    )
                                },
                                _ => (Err("repay expects Amount for payment"@), env2, eff2),
                            },
                        }
                    },
                    _ => (Err("repay expects Loan"@), env1, eff1),
                },
            }
        },
        SpecExpr::PriceUpdate { loan, new_price } => {
            let (rl, env1, eff1) = check(*loan, env, eff);
            match rl {
                Err(m) => (Err(m), env1, eff1),
                Ok((tl, lty)) => match lty {
                    SpecType::Loan { id } => {
                        let (rp, env2, eff2) = check(*new_price, env1, eff1);
                        match rp {
                            Err(m) => (Err(m), env2, eff2),
                            Ok((tp, pty)) => if is_verified_amount(pty) {
                                let ty = SpecType::Loan { id };
                                (
                                    Ok(
                                        (
                                            SpecTyped::PriceUpdate {
                                                loan: Box::new(tl),
                                                new_price: Box::new(tp),
                                                ty,
                                            },
                                            ty,
                                        ),
                                    ),
                                    env2,
                                    eff2,
                                )
                            } else {
                                (Err("priceUpdate requires verified price"@), env2, eff2)
                            },
                        }
                    },
                    _ => (Err("priceUpdate expects Loan"@), env1, eff1),
                },
            }
        },
        SpecExpr::Liquidate { loan } => {
            let (rl, env1, eff1) = check(*loan, env, eff);
            match rl {
                Err(m) => (Err(m), env1, eff1),
                Ok((tl, lty)) => match lty {
                    SpecType::Loan { .. } => if !spec_policy_ok(eff1) {
                        (Err("LiquidationPolicy violated: "@ + effects_text(eff1)), env1, eff1)
                    } else {
                        (
                            Ok((SpecTyped::Liquidate { loan: Box::new(tl), ty: SpecType::Unit }, SpecType::Unit)),
                            env1,
                            eff1,
                        )
                    },
                    _ => (Err("liquidate expects Loan"@), env1, eff1),
                },
            }
        },
    }
}

/// The outcome of checking, as views.
pub open spec fn outcome_view(r: Result<(TypedExpr, Type), String>) -> SpecOutcome {
    match r {
        Ok((t, ty)) => Ok((t@, ty@)),
        Err(m) => Err(m@),
    }
}

// ---------------------------------------------------------------------------------------------
// Messages.

fn msg_type(prefix: &str, t: &Type) -> (r: String)
    ensures
        r@ == prefix@ + type_text(t@),
{
    let mut m = text(prefix);
    push_type(&mut m, t);
    m
}

fn msg_types(prefix: &str, a: &Type, mid: &str, b: &Type) -> (r: String)
    ensures
        r@ == prefix@ + type_text(a@) + mid@ + type_text(b@),
{
    let mut m = text(prefix);
    push_type(&mut m, a);
    push_str(&mut m, mid);
    push_type(&mut m, b);
    m
}

fn msg_effects(prefix: &str, e: &Effects) -> (r: String)
    ensures
        r@ == prefix@ + effects_text(e.items()),
{
    let mut m = text(prefix);
    push_effects(&mut m, e);
    m
}

fn msg_around(prefix: &str, mid: &str, suffix: &str) -> (r: String)
    ensures
        r@ == prefix@ + mid@ + suffix@,
{
    let mut m = text(prefix);
    push_str(&mut m, mid);
    push_str(&mut m, suffix);
    m
}

fn msg_source(prefix: &str, src: SourceId, suffix: &str) -> (r: String)
    ensures
        r@ == prefix@ + source_text(src) + suffix@,
{
    let mut m = text(prefix);
    push_source(&mut m, src);
    push_str(&mut m, suffix);
    m
}

fn msg_count(prefix: &str, n: usize, suffix: &str) -> (r: String)
    ensures
        r@ == prefix@ + nat_text(n as nat) + suffix@,
{
    let mut m = text(prefix);
    push_nat(&mut m, n as u64);
    push_str(&mut m, suffix);
    m
}

// ---------------------------------------------------------------------------------------------
// The checker.

/// Checks an expression, threading the environment and the effects through it.
#[verifier::rlimit(80)]
pub fn type_check(expr: &Expr, env: &mut TypeEnv, effects: &mut Effects) -> (r: Result<(TypedExpr, Type), String>)
    ensures
        (outcome_view(r), final(env)@, final(effects).items()) == check(expr@, old(env)@, old(effects).items()),
    decreases expr, 1nat,
{
    let ghost env0 = env@;
    let ghost eff0 = effects.items();
    match expr {
        Expr::Function { .. } => check_function(expr, env, effects),
        Expr::Call { .. } => check_call(expr, env, effects),
        Expr::PolicyDef { name, parameter, predicate, body } => {
            let mut local = env.copy();
            local.vars.insert(parameter.clone(), Type::plain_usd());
            let (pred, pty) = match type_check(predicate, &mut local, effects) {
                Ok(x) => x,
                Err(m) => {
                    return Err(m);
                },
            };
            if !matches!(pty, Type::Bool) {
                return Err(text("policy predicate must be Bool"));
            }
            env.policies.insert(name.clone(), Type::Bool);
            let (b, ty) = match type_check(body, env, effects) {
                Ok(x) => x,
                Err(m) => {
                    return Err(m);
                },
            };
            let out = ty.copy();
            Ok((
                TypedExpr::PolicyDef {
                    name: name.clone(),
                    parameter: parameter.clone(),
                    predicate: Box::new(pred),
                    body: Box::new(b),
                    ty: ty,
                },
                out,
            ))
        },
        Expr::Bool(value) => Ok((TypedExpr::Bool { value: *value, ty: Type::Bool }, Type::Bool)),
        Expr::Binary { op, left, right } => {
            let (lt, lty) = match type_check(left, env, effects) {
                Ok(x) => x,
                Err(m) => {
                    return Err(m);
                },
            };
            let (rt, rty) = match type_check(right, env, effects) {
                Ok(x) => x,
                Err(m) => {
                    return Err(m);
                },
            };
            let comparison = matches!(op, BinOp::Lt | BinOp::Gt | BinOp::Le | BinOp::Ge | BinOp::Eq);
            if comparison {
                if !lty.same(&rty) {
                    return Err(msg_types("comparison requires equal operand types, got ", &lty, " and ", &rty));
                }
                Ok((TypedExpr::Binary { op: *op, left: Box::new(lt), right: Box::new(rt), ty: Type::Bool }, Type::Bool))
            } else {
                let ok = match (&lty, &rty) {
                    (Type::Amount { currency: lc, .. }, Type::Amount { currency: rc, .. }) => *lc == *rc,
                    _ => false,
                };
                if !ok {
                    return Err(msg_types("arithmetic requires two Amount operands, got ", &lty, " and ", &rty));
                }
                let ty = lty.copy();
                Ok((TypedExpr::Binary { op: *op, left: Box::new(lt), right: Box::new(rt), ty: lty }, ty))
            }
        },
        Expr::If { condition, then_branch, else_branch } => {
            let (ct, cty) = match type_check(condition, env, effects) {
                Ok(x) => x,
                Err(m) => {
                    return Err(m);
                },
            };
            if !matches!(cty, Type::Bool) {
                return Err(msg_type("if condition must be Bool, got ", &cty));
            }
            let mut then_env = env.copy();
            let mut then_effects = effects.copy();
            let mut else_env = env.copy();
            let mut else_effects = effects.copy();
            let (tt, tty) = match type_check(then_branch, &mut then_env, &mut then_effects) {
                Ok(x) => x,
                Err(m) => {
                    return Err(m);
                },
            };
            let (et, ety) = match type_check(else_branch, &mut else_env, &mut else_effects) {
                Ok(x) => x,
                Err(m) => {
                    return Err(m);
                },
            };
            if !tty.same(&ety) {
                return Err(msg_types("if branches must have equal types, got ", &tty, " and ", &ety));
            }
            if !then_env.linear.bindings.is_empty() || !else_env.linear.bindings.is_empty() {
                return Err(text("linear resources cannot escape conditional branches"));
            }
            let ty = tty.copy();
            Ok((
                TypedExpr::If {
                    condition: Box::new(ct),
                    then_branch: Box::new(tt),
                    else_branch: Box::new(et),
                    ty: tty,
                },
                ty,
            ))
        },
        Expr::Int(n) => Ok((TypedExpr::Int { value: *n, ty: Type::plain_usd() }, Type::plain_usd())),
        Expr::Mint { .. } | Expr::OracleRead { .. } | Expr::Validate { .. } | Expr::ToAmount { .. } | Expr::UnsafeAssumeTrusted { .. } | Expr::Transfer { .. } => check_assets(expr, env, effects),
        Expr::Let { .. } | Expr::Var { .. } => check_binding(expr, env, effects),
        Expr::CreateLoan { .. } | Expr::Repay { .. } | Expr::PriceUpdate { .. } | Expr::Liquidate { .. } => check_loans(expr, env, effects),
    }
}


fn check_function(expr: &Expr, env: &mut TypeEnv, effects: &mut Effects) -> (r: Result<(TypedExpr, Type), String>)
    requires
        expr is Function,
    ensures
        (outcome_view(r), final(env)@, final(effects).items()) == check(expr@, old(env)@, old(effects).items()),
    decreases expr, 0nat,
{
    let ghost env0 = env@;
    let (params, body) = match expr {
        Expr::Function { params, body } => (params, body),
        _ => {
            assert(false);
            return Err(text(""));
        },
    };
            let mut local = env.copy();
            let mut param_types: Vec<Type> = Vec::new();
            let ghost names = names_view(params@);
            let mut i: usize = 0;
            while i < params.len()
                invariant
                    i <= params@.len(),
                    names == names_view(params@),
                    local@ == (SpecEnv { vars: with_params(env0.vars, names.take(i as int)), ..env0 }),
                    param_types@.len() == i,
                    forall|j: int| 0 <= j < i ==> (#[trigger] param_types@[j])@ == spec_plain_usd(),
                decreases params@.len() - i,
            {
                assert(names.take(i + 1).drop_last() =~= names.take(i as int));
                local.vars.insert(params[i].clone(), Type::plain_usd());
                param_types.push(Type::plain_usd());
                i = i + 1;
            }
            assert(names.take(params@.len() as int) =~= names);
            let (typed_body, result) = match type_check(body, &mut local, effects) {
                Ok(x) => x,
                Err(m) => {
                    return Err(m);
                },
            };
            let ty = Type::Function { params: param_types, result: Box::new(result) };
            assert(ty@->Function_params =~= Seq::new(names.len(), |k: int| spec_plain_usd()));
            Ok((TypedExpr::Function { params: dup_names(params), body: Box::new(typed_body), ty: ty.copy() }, ty))
}

fn check_call(expr: &Expr, env: &mut TypeEnv, effects: &mut Effects) -> (r: Result<(TypedExpr, Type), String>)
    requires
        expr is Call,
    ensures
        (outcome_view(r), final(env)@, final(effects).items()) == check(expr@, old(env)@, old(effects).items()),
    decreases expr, 0nat,
{
    let ghost target = check(expr@, env@, effects.items());
    let (function, args) = match expr {
        Expr::Call { function, args } => (function, args),
        _ => {
            assert(false);
            return Err(text(""));
        },
    };
            let (tf, ft) = match type_check(function, env, effects) {
                Ok(x) => x,
                Err(m) => {
                    return Err(m);
                },
            };
            let ghost ftv = ft@;
            let (params, result) = match ft {
                Type::Function { params, result } => (params, result),
                _ => {
                    return Err(text("call expects a function"));
                },
            };
            proof {
                lemma_exprs_view(args@);
            }
            if params.len() != args.len() {
                return Err(msg_count("function expects ", params.len(), " arguments"));
            }
            let ghost av = exprs_view(args@);
            let ghost pv = types_view(params@);
            let ghost env1 = env@;
            let ghost eff1 = effects.items();
            let ghost whole = check_args(av, pv, env1, eff1);
            assert(expr@ == SpecExpr::Call { function: Box::new((**function)@), args: av });
            assert(ftv == SpecType::Function { params: pv, result: Box::new((*result)@) }) by {
                assert(ftv->Function_params =~= pv);
            }
            assert(target.1 == whole.1 && target.2 == whole.2);
            assert(whole.0 is Err ==> target.0 == Err::<(SpecTyped, SpecType), Seq<char>>(whole.0->Err_0));
            assert(whole.0 is Ok ==> target.0 == Ok::<(SpecTyped, SpecType), Seq<char>>((
                SpecTyped::Call { function: Box::new(tf@), args: whole.0->Ok_0, ty: (*result)@ },
                (*result)@,
            )));
            proof {
                lemma_exprs_view(args@);
                assert(av.skip(0) =~= av);
                assert(pv.skip(0) =~= pv);
            }
            let mut ta: Vec<TypedExpr> = Vec::new();
            let mut i: usize = 0;
            while i < args.len()
                invariant
                    i <= args@.len(),
                    params@.len() == args@.len(),
                    *expr == (Expr::Call { function: *function, args: *args }),
                    av == exprs_view(args@),
                    av.len() == args@.len(),
                    forall|j: int| 0 <= j < args@.len() ==> #[trigger] av[j] == args@[j]@,
                    pv == types_view(params@),
                    target == check(expr@, old(env)@, old(effects).items()),
                    target.1 == whole.1,
                    target.2 == whole.2,
                    whole.0 is Err ==> target.0 == Err::<(SpecTyped, SpecType), Seq<char>>(whole.0->Err_0),
                    whole.0 is Ok ==> target.0 == Ok::<(SpecTyped, SpecType), Seq<char>>((
                        SpecTyped::Call { function: Box::new(tf@), args: whole.0->Ok_0, ty: (*result)@ },
                        (*result)@,
                    )),
                    ta@.len() == i,
                    whole.1 == check_args(av.skip(i as int), pv.skip(i as int), env@, effects.items()).1,
                    whole.2 == check_args(av.skip(i as int), pv.skip(i as int), env@, effects.items()).2,
                    whole.0 == match check_args(av.skip(i as int), pv.skip(i as int), env@, effects.items()).0 {
                        Err(m) => Err(m),
                        Ok(tas) => Ok(typed_list_view(ta@) + tas),
                    },
                decreases args@.len() - i,
            {
                assert(av.skip(i as int)[0] == av[i as int]);
                assert(pv.skip(i as int)[0] == pv[i as int]);
                assert(av.skip(i as int).drop_first() =~= av.skip(i + 1));
                assert(pv.skip(i as int).drop_first() =~= pv.skip(i + 1));
                assert(expr->Call_args == *args);
                assert(decreases_to!(*expr => expr->Call_args));
                let ghost ta_old = ta@;
                let (x, t) = match type_check(&args[i], env, effects) {
                    Ok(y) => y,
                    Err(m) => {
                        return Err(m);
                    },
                };
                if !t.same(&params[i]) {
                    return Err(msg_types("argument type mismatch: ", &t, " != ", &params[i]));
                }
                proof {
                    lemma_typed_list_view(ta_old);
                    lemma_typed_list_view(ta_old.push(x));
                    assert(typed_list_view(ta_old.push(x)) =~= typed_list_view(ta_old) + seq![x@]);
                }
                ta.push(x);
                i = i + 1;
                proof {
                    let rest = check_args(av.skip(i as int), pv.skip(i as int), env@, effects.items());
                    match rest.0 {
                        Ok(tas) => {
                            assert(typed_list_view(ta@) + tas =~= typed_list_view(ta_old) + (seq![x@] + tas));
                        },
                        Err(_) => {},
                    }
                }
            }
            proof {
                assert(av.skip(i as int).len() == 0);
            }
            let ty = result.copy();
            Ok((TypedExpr::Call { function: Box::new(tf), args: ta, ty: result.copy() }, ty))
}


fn check_assets(expr: &Expr, env: &mut TypeEnv, effects: &mut Effects) -> (r: Result<(TypedExpr, Type), String>)
    requires
        expr is Mint || expr is OracleRead || expr is Validate || expr is ToAmount || expr is UnsafeAssumeTrusted || expr is Transfer,
    ensures
        (outcome_view(r), final(env)@, final(effects).items()) == check(expr@, old(env)@, old(effects).items()),
    decreases expr, 0nat,
{
    let ghost env0 = env@;
    let ghost eff0 = effects.items();
    match expr {
        Expr::Mint { account, amount } => {
            let (at, aty) = match type_check(amount, env, effects) {
                Ok(x) => x,
                Err(m) => {
                    return Err(m);
                },
            };
            match aty {
                Type::Amount { .. } => {
                    if !mint_policy_ok(effects) {
                        return Err(msg_effects("MintPolicy violated: ", effects));
                    }
                    Ok((TypedExpr::Mint { account: account.clone(), amount: Box::new(at), ty: Type::Unit }, Type::Unit))
                },
                _ => Err(msg_type("mint expects Amount, got ", &aty)),
            }
        },
        Expr::OracleRead { feed } => {
            effects.insert(Effect::UntrustedData(*feed));
            Ok((
                TypedExpr::OracleRead { feed: *feed, ty: Type::Oracle(Currency::USD, *feed) },
                Type::Oracle(Currency::USD, *feed),
            ))
        },
        Expr::Validate { oracle, policy } => {
            let (ot, oty) = match type_check(oracle, env, effects) {
                Ok(x) => x,
                Err(m) => {
                    return Err(m);
                },
            };
            match oty {
                Type::Oracle(currency, source) => {
                    if let PolicyId::Named(name) = policy {
                        if !env.policies.contains_key(name.as_str()) {
                            return Err(msg_around("Policy '", name.as_str(), "' is not defined"));
                        }
                    }
                    let obligation = Effect::UntrustedData(source);
                    if !effects.remove(&obligation) {
                        return Err(msg_source("UntrustedData(", source, ") not present; cannot validate"));
                    }
                    effects.insert(Effect::Validation(policy.copy(), source));
                    Ok((
                        TypedExpr::Validate {
                            oracle: Box::new(ot),
                            policy: policy.copy(),
                            ty: Type::Verified(currency, policy.copy(), source),
                        },
                        Type::Verified(currency, policy.copy(), source),
                    ))
                },
                _ => Err(msg_type("validate expects Oracle, got ", &oty)),
            }
        },
        Expr::ToAmount { verified } => {
            let (vt, vty) = match type_check(verified, env, effects) {
                Ok(x) => x,
                Err(m) => {
                    return Err(m);
                },
            };
            match vty {
                Type::Verified(currency, policy, source) => {
                    effects.insert(Effect::ValidatedData(source));
                    let kind = AmountKind::FromVerified { policy: policy.copy(), source };
                    let ty = Type::Amount { currency, kind: AmountKind::FromVerified { policy, source } };
                    Ok((TypedExpr::ToAmount { verified: Box::new(vt), ty: Type::Amount { currency, kind } }, ty))
                },
                _ => Err(msg_type("toAmount expects Verified, got ", &vty)),
            }
        },
        Expr::UnsafeAssumeTrusted { oracle } => {
            let (ot, oty) = match type_check(oracle, env, effects) {
                Ok(x) => x,
                Err(m) => {
                    return Err(m);
                },
            };
            match oty {
                Type::Oracle(currency, source) => {
                    effects.insert(Effect::TrustAssumption(source));
                    effects.insert(Effect::Unsafe);
                    let ty = Type::Amount { currency, kind: AmountKind::Plain };
                    Ok((
                        TypedExpr::UnsafeAssumeTrusted {
                            oracle: Box::new(ot),
                            ty: Type::Amount { currency, kind: AmountKind::Plain },
                        },
                        ty,
                    ))
                },
                _ => Err(msg_type("unsafeAssumeTrusted expects Oracle, got ", &oty)),
            }
        },
        Expr::Transfer { from, to, asset } => {
            let (at, aty) = match type_check(asset, env, effects) {
                Ok(x) => x,
                Err(m) => {
                    return Err(m);
                },
            };
            match aty {
                Type::LinearAsset(_) => Ok((
                    TypedExpr::Transfer { from: from.clone(), to: to.clone(), asset: Box::new(at), ty: Type::Unit },
                    Type::Unit,
                )),
                _ => Err(msg_type("transfer expects LinearAsset, got ", &aty)),
            }
        },
        _ => {
            assert(false);
            Err(text(""))
        },
    }
}

fn check_binding(expr: &Expr, env: &mut TypeEnv, effects: &mut Effects) -> (r: Result<(TypedExpr, Type), String>)
    requires
        expr is Let || expr is Var,
    ensures
        (outcome_view(r), final(env)@, final(effects).items()) == check(expr@, old(env)@, old(effects).items()),
    decreases expr, 0nat,
{
    let ghost env0 = env@;
    let ghost eff0 = effects.items();
    match expr {
        Expr::Let { name, value, body } => {
            let (vt, vty) = match type_check(value, env, effects) {
                Ok(x) => x,
                Err(m) => {
                    return Err(m);
                },
            };
            if vty.is_linear() {
                match env.linear.insert(name.clone(), vty.copy()) {
                    Ok(()) => {},
                    Err(m) => {
                        return Err(m);
                    },
                }
            } else {
                env.vars.insert(name.clone(), vty.copy());
            }
            let (bt, bty) = match type_check(body, env, effects) {
                Ok(x) => x,
                Err(m) => {
                    return Err(m);
                },
            };
            let ty = bty.copy();
            Ok((TypedExpr::Let { name: name.clone(), value: Box::new(vt), body: Box::new(bt), ty: bty }, ty))
        },
        Expr::Var { name } => {
            let ty = match env.vars.get(name.as_str()) {
                Some(t) => t.copy(),
                None => match env.linear.take(name.as_str()) {
                    Ok(t) => t,
                    Err(m) => {
                        assert(env.linear.bindings@ =~= env0.linear);
                        return Err(m);
                    },
                },
            };
            Ok((TypedExpr::Var { name: name.clone(), ty: ty.copy() }, ty))
        },
        _ => {
            assert(false);
            Err(text(""))
        },
    }
}

fn check_loans(expr: &Expr, env: &mut TypeEnv, effects: &mut Effects) -> (r: Result<(TypedExpr, Type), String>)
    requires
        expr is CreateLoan || expr is Repay || expr is PriceUpdate || expr is Liquidate,
    ensures
        (outcome_view(r), final(env)@, final(effects).items()) == check(expr@, old(env)@, old(effects).items()),
    decreases expr, 0nat,
{
    let ghost env0 = env@;
    let ghost eff0 = effects.items();
    match expr {
        Expr::CreateLoan {
            borrower,
            lender_pool,
            loan_id,
            amount,
            collateral_asset,
            collateral_value,
            required_ratio,
        } => {
            let (at, aty) = match type_check(amount, env, effects) {
                Ok(x) => x,
                Err(m) => {
                    return Err(m);
                },
            };
            if !matches!(aty, Type::Amount { kind: AmountKind::FromVerified { .. }, .. }) {
                return Err(text("createLoan expects verified amount"));
            }
            let (ct, cty) = match type_check(collateral_value, env, effects) {
                Ok(x) => x,
                Err(m) => {
                    return Err(m);
                },
            };
            if !matches!(cty, Type::Amount { kind: AmountKind::FromVerified { .. }, .. }) {
                return Err(text("createLoan requires verified collateral value"));
            }
            if !loan_policy_ok(effects) {
                return Err(msg_effects("LoanPolicy violated: ", effects));
            }
            Ok((
                TypedExpr::CreateLoan {
                    borrower: borrower.clone(),
                    lender_pool: lender_pool.clone(),
                    loan_id: loan_id.clone(),
                    amount: Box::new(at),
                    collateral_asset: collateral_asset.clone(),
                    collateral_value: Box::new(ct),
                    required_ratio: *required_ratio,
                    ty: Type::Loan { id: loan_id.clone() },
                },
                Type::Loan { id: loan_id.clone() },
            ))
        },
        Expr::Repay { borrower, lender_pool, loan, payment } => {
            let (lt, lty) = match type_check(loan, env, effects) {
                Ok(x) => x,
                Err(m) => {
                    return Err(m);
                },
            };
            let id = match lty {
                Type::Loan { id } => id,
                _ => {
                    return Err(text("repay expects Loan"));
                },
            };
            let (pt, pty) = match type_check(payment, env, effects) {
                Ok(x) => x,
                Err(m) => {
                    return Err(m);
                },
            };
            match pty {
                Type::Amount { .. } => {
                    if !repay_policy_ok(effects) {
                        return Err(msg_effects("RepayPolicy violated: ", effects));
                    }
                    Ok((
                        TypedExpr::Repay {
                            borrower: borrower.clone(),
                            lender_pool: lender_pool.clone(),
                            loan: Box::new(lt),
                            payment: Box::new(pt),
                            ty: Type::Loan { id: id.clone() },
                        },
                        Type::Loan { id },
                    ))
                },
                _ => Err(text("repay expects Amount for payment")),
            }
        },
        Expr::PriceUpdate { loan, new_price } => {
            let (lt, lty) = match type_check(loan, env, effects) {
                Ok(x) => x,
                Err(m) => {
                    return Err(m);
                },
            };
            let id = match lty {
                Type::Loan { id } => id,
                _ => {
                    return Err(text("priceUpdate expects Loan"));
                },
            };
            let (pt, pty) = match type_check(new_price, env, effects) {
                Ok(x) => x,
                Err(m) => {
                    return Err(m);
                },
            };
            if matches!(pty, Type::Amount { kind: AmountKind::FromVerified { .. }, .. }) {
                Ok((
                    TypedExpr::PriceUpdate {
                        loan: Box::new(lt),
                        new_price: Box::new(pt),
                        ty: Type::Loan { id: id.clone() },
                    },
                    Type::Loan { id },
                ))
            } else {
                Err(text("priceUpdate requires verified price"))
            }
        },
        Expr::Liquidate { loan } => {
            let (lt, lty) = match type_check(loan, env, effects) {
                Ok(x) => x,
                Err(m) => {
                    return Err(m);
                },
            };
            match lty {
                Type::Loan { .. } => {
                    if !liquidation_policy_ok(effects) {
                        return Err(msg_effects("LiquidationPolicy violated: ", effects));
                    }
                    Ok((TypedExpr::Liquidate { loan: Box::new(lt), ty: Type::Unit }, Type::Unit))
                },
                _ => Err(text("liquidate expects Loan")),
            }
        },
        _ => {
            assert(false);
            Err(text(""))
        },
    }
}


// ---------------------------------------------------------------------------------------------
// Whole programs.

/// The keys of a listing, in its order.
pub open spec fn listing_keys(s: Seq<(Seq<char>, SpecType)>) -> Seq<Seq<char>> {
    s.map_values(|e: (Seq<char>, SpecType)| e.0)
}

/// Names, each in double quotes, separated by commas.
pub open spec fn quoted_list(ks: Seq<Seq<char>>) -> Seq<char>
    decreases ks.len(),
{
    if ks.len() == 0 {
        Seq::empty()
    } else if ks.len() == 1 {
        quoted(ks[0])
    } else {
        quoted_list(ks.drop_last()) + ", "@ + quoted(ks.last())
    }
}

/// The message for resources still unused at the end of a program, listed in key order.
pub open spec fn unused_text(ks: Seq<Seq<char>>) -> Seq<char> {
    "Unused linear resources at end of program: ["@ + quoted_list(ks) + "]"@
}

/// Checks a whole program: it type-checks, and every linear resource has been used.
pub fn check_program_with_env(expr: &Expr, env: &mut TypeEnv, effects: &mut Effects) -> (r: Result<(TypedExpr, Type), String>)
    ensures
        ({
            let c = check(expr@, old(env)@, old(effects).items());
            &&& final(env)@ == c.1
            &&& final(effects).items() == c.2
            &&& match c.0 {
                Err(m) => r matches Err(m2) && m2@ == m,
                Ok((te, t)) => if c.1.linear.len() == 0 {
                    r matches Ok((x, y)) && x@ == te && y@ == t
                } else {
                    r matches Err(m2) && m2@ == unused_text(key_order(c.1.linear.dom()))
                },
            }
        }),
{
    let (typed_expr, ty) = match type_check(expr, env, effects) {
        Ok(x) => x,
        Err(m) => {
            return Err(m);
        },
    };
    env.linear.bindings.lemma_listing();
    if !env.linear.bindings.is_empty() {
        let ghost ks = listing_keys(env.linear.bindings.listing());
        let mut m = text("Unused linear resources at end of program: [");
        let ghost m0 = m@;
        let n = env.linear.bindings.len();
        let mut i: usize = 0;
        while i < n
            invariant
                i <= n,
                n == env.linear.bindings.listing().len(),
                ks == listing_keys(env.linear.bindings.listing()),
                m@ == m0 + quoted_list(ks.take(i as int)),
            decreases n - i,
        {
            let ghost before = m@;
            if i > 0 {
                push_str(&mut m, ", ");
            }
            push_quoted(&mut m, env.linear.bindings.key_at(i).as_str());
            proof {
                let t1 = ks.take(i + 1);
                assert(t1.drop_last() =~= ks.take(i as int));
                assert(t1.last() == ks[i as int]);
                if i == 0 {
                    assert(quoted_list(ks.take(0)) =~= Seq::<char>::empty());
                    assert(m@ =~= m0 + quoted_list(t1));
                } else {
                    assert(m@ =~= m0 + quoted_list(t1));
                }
            }
            i = i + 1;
        }
        assert(ks.take(n as int) =~= ks);
        push_str(&mut m, "]");
        proof {
            lemma_key_order(env.linear.bindings.listing());
        }
        proof {
            assert(env@.linear.len() != 0) by {
                if env@.linear.len() == 0 {
                    assert(env@.linear.dom() =~= Set::<Seq<char>>::empty());
                    assert(env@.linear =~= Map::<Seq<char>, SpecType>::empty());
                }
            }
        }
        return Err(m);
    }
    assert(env@.linear.len() == 0);
    Ok((typed_expr, ty))
}

/// The outcome of checking a whole program from an empty environment and no effects.
pub open spec fn spec_check_program(e: SpecExpr) -> Result<(SpecTyped, SpecType), Seq<char>> {
    let c = check(e, SpecEnv { vars: Map::empty(), linear: Map::empty(), policies: Map::empty() }, Seq::empty());
    match c.0 {
        Err(m) => Err(m),
        Ok((te, t)) => if c.1.linear.len() == 0 {
            Ok((te, t))
        } else {
            Err(unused_text(key_order(c.1.linear.dom())))
        },
    }
}

/// Checks a whole program from an empty environment and no effects.
pub fn check_program(expr: &Expr) -> (r: Result<(TypedExpr, Type), String>)
    ensures
        match spec_check_program(expr@) {
            Ok((te, t)) => r matches Ok((x, y)) && x@ == te && y@ == t,
            Err(m) => r matches Err(x) && x@ == m,
        },
{
    let mut env = TypeEnv::new();
    let mut effects = Effects::new();
    check_program_with_env(expr, &mut env, &mut effects)
}

// ---------------------------------------------------------------------------------------------
// Crossing an unsafe trust boundary is never forgotten.

/// Every unsafe trust mark in `a` is still in `b`.
pub open spec fn keeps_trust_marks(a: Seq<SpecEffect>, b: Seq<SpecEffect>) -> bool {
    forall|x: SpecEffect| is_unsafe(x) && #[trigger] a.contains(x) ==> b.contains(x)
}

proof fn lemma_insert_keeps(s: Seq<SpecEffect>, e: SpecEffect)
    ensures
        keeps_trust_marks(s, eff_insert(s, e)),
        eff_insert(s, e).contains(e),
{
    if !s.contains(e) {
        assert forall|x: SpecEffect| is_unsafe(x) && #[trigger] s.contains(x) implies s.push(e).contains(x) by {
            let i = choose|i: int| 0 <= i < s.len() && s[i] == x;
            assert(s.push(e)[i] == x);
        }
        assert(s.push(e)[s.len() as int] == e);
    }
}

proof fn lemma_remove_untrusted_keeps(s: Seq<SpecEffect>, f: SourceId)
    ensures
        keeps_trust_marks(s, eff_remove(s, SpecEffect::UntrustedData(f))),
{
    let e = SpecEffect::UntrustedData(f);
    if s.contains(e) {
        let k = s.index_of(e);
        assert forall|x: SpecEffect| is_unsafe(x) && #[trigger] s.contains(x) implies s.remove(k).contains(x) by {
            let i = choose|i: int| 0 <= i < s.len() && s[i] == x;
            assert(i != k);
            if i < k {
                assert(s.remove(k)[i] == x);
            } else {
                assert(s.remove(k)[i - 1] == x);
            }
        }
    }
}

proof fn lemma_check_keeps(e: SpecExpr, env: SpecEnv, eff: Seq<SpecEffect>)
    ensures
        keeps_trust_marks(eff, check(e, env, eff).2),
    decreases e,
{
    match e {
        SpecExpr::Function { params, body } => {
            lemma_check_keeps(*body, SpecEnv { vars: with_params(env.vars, params), ..env }, eff);
        },
        SpecExpr::Call { function, args } => {
            let (rf, env1, eff1) = check(*function, env, eff);
            lemma_check_keeps(*function, env, eff);
            if let Ok((_, SpecType::Function { params, .. })) = rf {
                lemma_check_args_keeps(args, params, env1, eff1);
            }
        },
        SpecExpr::PolicyDef { name, parameter, predicate, body } => {
            let local = SpecEnv { vars: env.vars.insert(parameter, spec_plain_usd()), ..env };
            let (_, _, eff1) = check(*predicate, local, eff);
            lemma_check_keeps(*predicate, local, eff);
            lemma_check_keeps(*body, SpecEnv { policies: env.policies.insert(name, SpecType::Bool), ..env }, eff1);
        },
        SpecExpr::Binary { left, right, .. } => {
            let (_, env1, eff1) = check(*left, env, eff);
            lemma_check_keeps(*left, env, eff);
            lemma_check_keeps(*right, env1, eff1);
        },
        SpecExpr::If { condition, .. } => {
            lemma_check_keeps(*condition, env, eff);
        },
        SpecExpr::Mint { amount, .. } => {
            lemma_check_keeps(*amount, env, eff);
        },
        SpecExpr::OracleRead { feed } => {
            lemma_insert_keeps(eff, SpecEffect::UntrustedData(feed));
        },
        SpecExpr::Validate { oracle, policy } => {
            let (_, _, eff1) = check(*oracle, env, eff);
            lemma_check_keeps(*oracle, env, eff);
            if let SpecType::Oracle(_, source) = check(*oracle, env, eff).0->Ok_0.1 {
                lemma_remove_untrusted_keeps(eff1, source);
                lemma_insert_keeps(
                    eff_remove(eff1, SpecEffect::UntrustedData(source)),
                    SpecEffect::Validation(policy, source),
                );
            }
        },
        SpecExpr::ToAmount { verified } => {
            let (_, _, eff1) = check(*verified, env, eff);
            lemma_check_keeps(*verified, env, eff);
            if let SpecType::Verified(_, _, source) = check(*verified, env, eff).0->Ok_0.1 {
                lemma_insert_keeps(eff1, SpecEffect::ValidatedData(source));
            }
        },
        SpecExpr::UnsafeAssumeTrusted { oracle } => {
            let (_, _, eff1) = check(*oracle, env, eff);
            lemma_check_keeps(*oracle, env, eff);
            if let SpecType::Oracle(_, source) = check(*oracle, env, eff).0->Ok_0.1 {
                lemma_insert_keeps(eff1, SpecEffect::TrustAssumption(source));
                lemma_insert_keeps(eff_insert(eff1, SpecEffect::TrustAssumption(source)), SpecEffect::Unsafe);
            }
        },
        SpecExpr::Transfer { asset, .. } => {
            lemma_check_keeps(*asset, env, eff);
        },
        SpecExpr::Let { name, value, body } => {
            let (rv, env1, eff1) = check(*value, env, eff);
            lemma_check_keeps(*value, env, eff);
            if let Ok((_, vty)) = rv {
                let env2 = if Type::spec_is_linear(vty) {
                    SpecEnv { linear: env1.linear.insert(name, vty), ..env1 }
                } else {
                    SpecEnv { vars: env1.vars.insert(name, vty), ..env1 }
                };
                lemma_check_keeps(*body, env2, eff1);
            }
        },
        SpecExpr::CreateLoan { amount, collateral_value, .. } => {
            let (_, env1, eff1) = check(*amount, env, eff);
            lemma_check_keeps(*amount, env, eff);
            lemma_check_keeps(*collateral_value, env1, eff1);
        },
        SpecExpr::Repay { loan, payment, .. } => {
            let (_, env1, eff1) = check(*loan, env, eff);
            lemma_check_keeps(*loan, env, eff);
            lemma_check_keeps(*payment, env1, eff1);
        },
        SpecExpr::PriceUpdate { loan, new_price } => {
            let (_, env1, eff1) = check(*loan, env, eff);
            lemma_check_keeps(*loan, env, eff);
            lemma_check_keeps(*new_price, env1, eff1);
        },
        SpecExpr::Liquidate { loan } => {
            lemma_check_keeps(*loan, env, eff);
        },
        _ => {},
    }
}

proof fn lemma_check_args_keeps(args: Seq<SpecExpr>, params: Seq<SpecType>, env: SpecEnv, eff: Seq<SpecEffect>)
    ensures
        keeps_trust_marks(eff, check_args(args, params, env, eff).2),
    decreases args,
{
    if args.len() > 0 && params.len() > 0 {
        let (_, env1, eff1) = check(args[0], env, eff);
        assert(decreases_to!(args => args[0]));
        lemma_check_keeps(args[0], env, eff);
        lemma_check_args_keeps(args.drop_first(), params.drop_first(), env1, eff1);
    }
}

/// Once a program has crossed an unsafe trust boundary (an assumed-trusted value), no later
/// mint, loan, repayment or liquidation passes the checker.
pub proof fn law_unsafe_blocks_sensitive_operations(e: SpecExpr, env: SpecEnv, eff: Seq<SpecEffect>, x: SpecEffect)
    requires
        is_unsafe(x),
        eff.contains(x),
        e is Mint || e is CreateLoan || e is Repay || e is Liquidate,
    ensures
        check(e, env, eff).0 is Err,
{
    match e {
        SpecExpr::Mint { amount, .. } => {
            lemma_check_keeps(*amount, env, eff);
        },
        SpecExpr::CreateLoan { amount, collateral_value, .. } => {
            let (_, env1, eff1) = check(*amount, env, eff);
            lemma_check_keeps(*amount, env, eff);
            lemma_check_keeps(*collateral_value, env1, eff1);
        },
        SpecExpr::Repay { loan, payment, .. } => {
            let (_, env1, eff1) = check(*loan, env, eff);
            lemma_check_keeps(*loan, env, eff);
            lemma_check_keeps(*payment, env1, eff1);
        },
        SpecExpr::Liquidate { loan } => {
            lemma_check_keeps(*loan, env, eff);
        },
        _ => {},
    }
}

/// A linear resource is removed from the environment when it is used, so a second use of it is
/// ill-typed.
pub proof fn law_linear_use_consumes(name: Seq<char>, env: SpecEnv, eff: Seq<SpecEffect>)
    requires
        env.linear.contains_key(name),
        !env.vars.contains_key(name),
    ensures
        ({
            let (r1, env1, eff1) = check(SpecExpr::Var { name }, env, eff);
            &&& r1 is Ok
            &&& !env1.linear.contains_key(name)
            &&& check(SpecExpr::Var { name }, env1, eff1).0 == Err::<(SpecTyped, SpecType), Seq<char>>(not_found_text(name))
        }),
{
}

/// A conditional type-checks only when its condition is a `Bool` and both of its branches
/// type-check, after the condition, to one type, which is then the conditional's type.
pub proof fn law_if_branches_agree(
    condition: SpecExpr,
    then_branch: SpecExpr,
    else_branch: SpecExpr,
    env: SpecEnv,
    eff: Seq<SpecEffect>,
)
    ensures
        ({
            let r = check(
                SpecExpr::If {
                    condition: Box::new(condition),
                    then_branch: Box::new(then_branch),
                    else_branch: Box::new(else_branch),
                },
                env,
                eff,
            ).0;
            let (rc, env1, eff1) = check(condition, env, eff);
            let rt = check(then_branch, env1, eff1).0;
            let re = check(else_branch, env1, eff1).0;
            r is Ok ==> {
                &&& rc is Ok && rc->Ok_0.1 == SpecType::Bool
                &&& rt is Ok && rt->Ok_0.1 == r->Ok_0.1
                &&& re is Ok && re->Ok_0.1 == r->Ok_0.1
            }
        }),
{
}

} // verus!
