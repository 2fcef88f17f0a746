//! Recursive-descent parsing of tokens into syntax trees.
use vstd::prelude::*;
use crate::ast::{exprs_view, lemma_exprs_view, names_view, BinOp, Decimal, Expr, PolicyId, SourceId, SpecExpr, SpecPolicy};
use crate::keys::same_text;
use crate::render::{token_string, token_text};
use crate::lexer::{SpecToken, Token};
use crate::text::{nat_text, push_nat, push_str, text};

verus! {

/// A parse of one construct from a position: the tree and how many tokens it took, or a message.
pub type Parsed<T> = Result<(T, nat), Seq<char>>;

/// The token at a position; past the end, `EOF`.
pub open spec fn peek(ts: Seq<SpecToken>, pos: nat) -> SpecToken {
    if pos < ts.len() {
        ts[pos as int]
    } else {
        SpecToken::EOF
    }
}

/// A message at a position, counting tokens from one.
pub open spec fn err_at(s: Seq<char>, pos: nat) -> Seq<char> {
    s + " at token "@ + nat_text(pos + 1)
}

/// The tokens left from a position.
pub open spec fn left(ts: Seq<SpecToken>, pos: nat) -> nat {
    if pos <= ts.len() {
        (ts.len() - pos) as nat
    } else {
        0
    }
}

/// The name taken at a position; a position is used up either way.
pub open spec fn name_at(ts: Seq<SpecToken>, pos: nat, s: Seq<char>) -> Result<Seq<char>, Seq<char>> {
    match peek(ts, pos) {
        SpecToken::Ident(x) => Ok(x),
        _ => Err(err_at(s, pos + 1)),
    }
}

/// A whole expression: `policy`, `let`, `if`, or a comparison.
pub open spec fn p_expr(ts: Seq<SpecToken>, pos: nat) -> Parsed<SpecExpr>
    decreases left(ts, pos), 9nat,
{
    match peek(ts, pos) {
        SpecToken::Policy => p_policy_def(ts, pos),
        SpecToken::Let => match name_at(ts, pos + 1, "Expected name"@) {
            Err(m) => Err(m),
            Ok(n) => if peek(ts, pos + 2) != SpecToken::Equals {
                Err(err_at("Expected '='"@, pos + 2))
            } else {
                match p_expr(ts, pos + 3) {
                    Err(m) => Err(m),
                    Ok((v, c1)) => if peek(ts, pos + 3 + c1) != SpecToken::In {
                        Err(err_at("Expected 'in'"@, pos + 3 + c1))
                    } else {
                        match p_expr(ts, pos + 4 + c1) {
                            Err(m) => Err(m),
                            Ok((b, c2)) => Ok(
                                (SpecExpr::Let { name: n, value: Box::new(v), body: Box::new(b) }, 4 + c1 + c2),
                            ),
                        }
                    },
                }
            },
        },
        SpecToken::If => match p_expr(ts, pos + 1) {
            Err(m) => Err(m),
            Ok((c, c1)) => if peek(ts, pos + 1 + c1) != SpecToken::Then {
                Err(err_at("Expected 'then'"@, pos + 1 + c1))
            } else {
                match p_expr(ts, pos + 2 + c1) {
                    Err(m) => Err(m),
                    Ok((t, c2)) => if peek(ts, pos + 2 + c1 + c2) != SpecToken::Else {
                        Err(err_at("Expected 'else'"@, pos + 2 + c1 + c2))
                    } else {
                        match p_expr(ts, pos + 3 + c1 + c2) {
                            Err(m) => Err(m),
                            Ok((e, c3)) => Ok(
                                (
                                    SpecExpr::If {
                                        condition: Box::new(c),
                                        then_branch: Box::new(t),
                                        else_branch: Box::new(e),
                                    },
                                    3 + c1 + c2 + c3,
                                ),
                            ),
                        }
                    },
                }
            },
        },
        _ => p_compare(ts, pos),
    }
}

/// The comparison operator a token stands for, if any.
pub open spec fn compare_op(t: SpecToken) -> Option<BinOp> {
    match t {
        SpecToken::Lt => Some(BinOp::Lt),
        SpecToken::Gt => Some(BinOp::Gt),
        SpecToken::Le => Some(BinOp::Le),
        SpecToken::Ge => Some(BinOp::Ge),
        SpecToken::EqEq => Some(BinOp::Eq),
        _ => None,
    }
}

/// The additive operator a token stands for, if any.
pub open spec fn add_op(t: SpecToken) -> Option<BinOp> {
    match t {
        SpecToken::Plus => Some(BinOp::Add),
        SpecToken::Minus => Some(BinOp::Sub),
        _ => None,
    }
}

/// The multiplicative operator a token stands for, if any.
pub open spec fn mul_op(t: SpecToken) -> Option<BinOp> {
    match t {
        SpecToken::Star => Some(BinOp::Mul),
        SpecToken::Slash => Some(BinOp::Div),
        _ => None,
    }
}

/// Comparisons, left to right.
pub open spec fn p_compare(ts: Seq<SpecToken>, pos: nat) -> Parsed<SpecExpr>
    decreases left(ts, pos), 8nat,
{
    match p_add(ts, pos) {
        Err(m) => Err(m),
        Ok((e, c1)) => match p_compare_rest(ts, pos + c1, e) {
            Err(m) => Err(m),
            Ok((r, c2)) => Ok((r, c1 + c2)),
        },
    }
}

pub open spec fn p_compare_rest(ts: Seq<SpecToken>, pos: nat, e: SpecExpr) -> Parsed<SpecExpr>
    decreases left(ts, pos), 7nat,
{
    match compare_op(peek(ts, pos)) {
        None => Ok((e, 0)),
        Some(op) => match p_add(ts, pos + 1) {
            Err(m) => Err(m),
            Ok((r, c1)) => match p_compare_rest(
                ts,
                pos + 1 + c1,
                SpecExpr::Binary { op, left: Box::new(e), right: Box::new(r) },
            ) {
                Err(m) => Err(m),
                Ok((x, c2)) => Ok((x, 1 + c1 + c2)),
            },
        },
    }
}

/// Sums and differences, left to right.
pub open spec fn p_add(ts: Seq<SpecToken>, pos: nat) -> Parsed<SpecExpr>
    decreases left(ts, pos), 6nat,
{
    match p_mul(ts, pos) {
        Err(m) => Err(m),
        Ok((e, c1)) => match p_add_rest(ts, pos + c1, e) {
            Err(m) => Err(m),
            Ok((r, c2)) => Ok((r, c1 + c2)),
        },
    }
}

pub open spec fn p_add_rest(ts: Seq<SpecToken>, pos: nat, e: SpecExpr) -> Parsed<SpecExpr>
    decreases left(ts, pos), 5nat,
{
    match add_op(peek(ts, pos)) {
        None => Ok((e, 0)),
        Some(op) => match p_mul(ts, pos + 1) {
            Err(m) => Err(m),
            Ok((r, c1)) => match p_add_rest(
                ts,
                pos + 1 + c1,
                SpecExpr::Binary { op, left: Box::new(e), right: Box::new(r) },
            ) {
                Err(m) => Err(m),
                Ok((x, c2)) => Ok((x, 1 + c1 + c2)),
            },
        },
    }
}

/// Products and quotients, left to right.
pub open spec fn p_mul(ts: Seq<SpecToken>, pos: nat) -> Parsed<SpecExpr>
    decreases left(ts, pos), 4nat,
{
    match p_atom(ts, pos) {
        Err(m) => Err(m),
        Ok((e, c1)) => match p_mul_rest(ts, pos + c1, e) {
            Err(m) => Err(m),
            Ok((r, c2)) => Ok((r, c1 + c2)),
        },
    }
}

pub open spec fn p_mul_rest(ts: Seq<SpecToken>, pos: nat, e: SpecExpr) -> Parsed<SpecExpr>
    decreases left(ts, pos), 3nat,
{
    match mul_op(peek(ts, pos)) {
        None => Ok((e, 0)),
        Some(op) => match p_atom(ts, pos + 1) {
            Err(m) => Err(m),
            Ok((r, c1)) => match p_mul_rest(
                ts,
                pos + 1 + c1,
                SpecExpr::Binary { op, left: Box::new(e), right: Box::new(r) },
            ) {
                Err(m) => Err(m),
                Ok((x, c2)) => Ok((x, 1 + c1 + c2)),
            },
        },
    }
}

/// Expressions separated by commas, up to the first that is not followed by a comma.
pub open spec fn p_args(ts: Seq<SpecToken>, pos: nat) -> Parsed<Seq<SpecExpr>>
    decreases left(ts, pos), 10nat,
{
    match p_expr(ts, pos) {
        Err(m) => Err(m),
        Ok((a, c1)) => if peek(ts, pos + c1) == SpecToken::Comma {
            match p_args(ts, pos + c1 + 1) {
                Err(m) => Err(m),
                Ok((rest, c2)) => Ok((seq![a] + rest, c1 + 1 + c2)),
            }
        } else {
            Ok((seq![a], c1))
        },
    }
}

/// The arguments of a call after `(`, through `)`.
pub open spec fn p_call_args(ts: Seq<SpecToken>, pos: nat) -> Parsed<Seq<SpecExpr>>
    decreases left(ts, pos), 11nat,
{
    if peek(ts, pos) == SpecToken::RParen {
        Ok((Seq::empty(), 1))
    } else {
        match p_args(ts, pos) {
            Err(m) => Err(m),
            Ok((args, c)) => if peek(ts, pos + c) != SpecToken::RParen {
                Err(err_at("Expected ')'"@, pos + c))
            } else {
                Ok((args, c + 1))
            },
        }
    }
}

/// Parameter names, each with an optional type, separated by commas.
pub open spec fn p_params(ts: Seq<SpecToken>, pos: nat) -> Parsed<Seq<Seq<char>>>
    decreases left(ts, pos), 1nat,
{
    match name_at(ts, pos, "Expected parameter name"@) {
        Err(m) => Err(m),
        Ok(p) => {
            let typed = peek(ts, pos + 1) == SpecToken::Colon;
            let t = if typed {
                match name_at(ts, pos + 2, "Expected parameter type"@) {
                    Err(m) => Err(m),
                    Ok(_) => Ok(3nat),
                }
            } else {
                Ok(1nat)
            };
            match t {
                Err(m) => Err(m),
                Ok(c1) => if peek(ts, pos + c1) == SpecToken::Comma {
                    match p_params(ts, pos + c1 + 1) {
                        Err(m) => Err(m),
                        Ok((rest, c2)) => Ok((seq![p] + rest, c1 + 1 + c2)),
                    }
                } else {
                    Ok((seq![p], c1))
                },
            }
        },
    }
}

/// A function literal after `fn`.
pub open spec fn p_function(ts: Seq<SpecToken>, pos: nat) -> Parsed<SpecExpr>
    decreases left(ts, pos), 1nat,
{
    if peek(ts, pos) != SpecToken::LParen {
        Err(err_at("Expected '('"@, pos))
    } else {
        let ps: Parsed<Seq<Seq<char>>> = if peek(ts, pos + 1) == SpecToken::RParen {
            Ok((Seq::empty(), 0))
        } else {
            p_params(ts, pos + 1)
        };
        match ps {
            Err(m) => Err(m),
            Ok((params, c1)) => {
                let p = pos + 1 + c1;
                if peek(ts, p) != SpecToken::RParen {
                    Err(err_at("Expected ')'"@, p))
                } else if peek(ts, p + 1) != SpecToken::Arrow {
                    Err(err_at("Expected '->'"@, p + 1))
                } else {
                    match name_at(ts, p + 2, "Expected return type"@) {
                        Err(m) => Err(m),
                        Ok(_) => if peek(ts, p + 3) != SpecToken::LBrace {
                            Err(err_at("Expected '{'"@, p + 3))
                        } else {
                            match p_expr(ts, p + 4) {
                                Err(m) => Err(m),
                                Ok((body, c2)) => if peek(ts, p + 4 + c2) != SpecToken::RBrace {
                                    Err(err_at("Expected '}'"@, p + 4 + c2))
                                } else {
                                    Ok(
                                        (
                                            SpecExpr::Function { params, body: Box::new(body) },
                                            (p + 5 + c2 - pos) as nat,
                                        ),
                                    )
                                },
                            }
                        },
                    }
                }
            },
        }
    }
}

/// A policy definition at `policy`.
pub open spec fn p_policy_def(ts: Seq<SpecToken>, pos: nat) -> Parsed<SpecExpr>
    decreases left(ts, pos), 1nat,
{
    match name_at(ts, pos + 1, "Expected policy name"@) {
        Err(m) => Err(m),
        Ok(name) => if peek(ts, pos + 2) != SpecToken::LParen {
            Err(err_at("Expected '('"@, pos + 2))
        } else {
            match name_at(ts, pos + 3, "Expected policy parameter"@) {
                Err(m) => Err(m),
                Ok(parameter) => {
                    let typed = peek(ts, pos + 4) == SpecToken::Colon;
                    let t: Result<nat, Seq<char>> = if typed {
                        match name_at(ts, pos + 5, "Expected policy parameter type"@) {
                            Err(m) => Err(m),
                            Ok(_) => Ok(pos + 6),
                        }
                    } else {
                        Ok(pos + 4)
                    };
                    match t {
                        Err(m) => Err(m),
                        Ok(p) => if peek(ts, p) != SpecToken::RParen {
                            Err(err_at("Expected ')'"@, p))
                        } else if peek(ts, p + 1) != SpecToken::LBrace {
                            Err(err_at("Expected '{'"@, p + 1))
                        } else {
                            match p_expr(ts, p + 2) {
                                Err(m) => Err(m),
                                Ok((predicate, c1)) => if peek(ts, p + 2 + c1) != SpecToken::RBrace {
                                    Err(err_at("Expected '}'"@, p + 2 + c1))
                                } else if peek(ts, p + 3 + c1) != SpecToken::In {
                                    Err(err_at("Expected 'in' after policy"@, p + 3 + c1))
                                } else {
                                    match p_expr(ts, p + 4 + c1) {
                                        Err(m) => Err(m),
                                        Ok((body, c2)) => Ok(
                                            (
                                                SpecExpr::PolicyDef {
                                                    name,
                                                    parameter,
                                                    predicate: Box::new(predicate),
                                                    body: Box::new(body),
                                                },
                                                (p + 4 + c1 + c2 - pos) as nat,
                                            ),
                                        ),
                                    }
                                },
                            }
                        },
                    }
                },
            }
        },
    }
}

/// The feed a name stands for.
pub open spec fn feed_of(n: Seq<char>) -> Option<SourceId> {
    if n == "feedA"@ {
        Some(SourceId::FeedA)
    } else if n == "feedB"@ {
        Some(SourceId::FeedB)
    } else {
        None
    }
}

/// The policy a name stands for.
pub open spec fn policy_of(n: Seq<char>) -> SpecPolicy {
    if n == "PriceBounds"@ {
        SpecPolicy::PriceBounds
    } else {
        SpecPolicy::Named(n)
    }
}

/// `(` expression `)` after a keyword, or with a second expression after a comma.
pub open spec fn p_unary(ts: Seq<SpecToken>, pos: nat) -> Parsed<SpecExpr>
    decreases left(ts, pos), 1nat,
{
    if peek(ts, pos) != SpecToken::LParen {
        Err(err_at("Expected '('"@, pos))
    } else {
        match p_expr(ts, pos + 1) {
            Err(m) => Err(m),
            Ok((x, c)) => if peek(ts, pos + 1 + c) != SpecToken::RParen {
                Err(err_at("Expected ')'"@, pos + 1 + c))
            } else {
                Ok((x, 2 + c))
            },
        }
    }
}

/// Two expressions separated by a comma, then `)`.
pub open spec fn p_binary_args_after(ts: Seq<SpecToken>, pos: nat) -> Parsed<(SpecExpr, SpecExpr)>
    decreases left(ts, pos), 10nat,
{
    match p_expr(ts, pos) {
        Err(m) => Err(m),
        Ok((a, c1)) => if peek(ts, pos + c1) != SpecToken::Comma {
            Err(err_at("Expected ','"@, pos + c1))
        } else {
            match p_expr(ts, pos + 1 + c1) {
                Err(m) => Err(m),
                Ok((b, c2)) => if peek(ts, pos + 1 + c1 + c2) != SpecToken::RParen {
                    Err(err_at("Expected ')'"@, pos + 1 + c1 + c2))
                } else {
                    Ok(((a, b), 2 + c1 + c2))
                },
            }
        },
    }
}

/// A name followed by a comma: two tokens.
pub open spec fn p_name_comma(ts: Seq<SpecToken>, pos: nat, msg: Seq<char>) -> Result<Seq<char>, Seq<char>> {
    match name_at(ts, pos, msg) {
        Err(m) => Err(m),
        Ok(n) => if peek(ts, pos + 1) != SpecToken::Comma {
            Err(err_at("Expected ','"@, pos + 1))
        } else {
            Ok(n)
        },
    }
}

/// The atoms: literals, names, calls, parenthesized expressions and the operations.
pub open spec fn p_atom(ts: Seq<SpecToken>, pos: nat) -> Parsed<SpecExpr>
    decreases left(ts, pos), 2nat,
{
    let p = pos + 1;
    match peek(ts, pos) {
        SpecToken::Number(n) => Ok((SpecExpr::Int(n), 1)),
        SpecToken::True => Ok((SpecExpr::Bool(true), 1)),
        SpecToken::False => Ok((SpecExpr::Bool(false), 1)),
        SpecToken::Fn => match p_function(ts, p) {
            Err(m) => Err(m),
            Ok((e, c)) => Ok((e, 1 + c)),
        },
        SpecToken::Ident(n) => if peek(ts, p) == SpecToken::LParen {
            match p_call_args(ts, p + 1) {
                Err(m) => Err(m),
                Ok((args, c)) => Ok(
                    (SpecExpr::Call { function: Box::new(SpecExpr::Var { name: n }), args }, 2 + c),
                ),
            }
        } else {
            Ok((SpecExpr::Var { name: n }, 1))
        },
        SpecToken::LParen => match p_expr(ts, p) {
            Err(m) => Err(m),
            Ok((e, c)) => if peek(ts, p + c) != SpecToken::RParen {
                Err(err_at("Expected ')'"@, p + c))
            } else {
                Ok((e, 2 + c))
            },
        },
        SpecToken::Mint => if peek(ts, p) != SpecToken::LParen {
            Err(err_at("Expected '('"@, p))
        } else {
            match name_at(ts, p + 1, "Expected identifier"@) {
                Err(m) => Err(m),
                Ok(a) => if peek(ts, p + 2) != SpecToken::Comma {
                    Err(err_at("Expected ','"@, p + 2))
                } else {
                    match p_expr(ts, p + 3) {
                        Err(m) => Err(m),
                        Ok((x, c)) => if peek(ts, p + 3 + c) != SpecToken::RParen {
                            Err(err_at("Expected ')'"@, p + 3 + c))
                        } else {
                            Ok((SpecExpr::Mint { account: a, amount: Box::new(x) }, 5 + c))
                        },
                    }
                },
            }
        },
        SpecToken::Transfer => if peek(ts, p) != SpecToken::LParen {
            Err(err_at("Expected '('"@, p))
        } else {
            match p_name_comma(ts, p + 1, "Expected identifier"@) {
                Err(m) => Err(m),
                Ok(from) => match p_name_comma(ts, p + 3, "Expected identifier"@) {
                    Err(m) => Err(m),
                    Ok(to) => match p_expr(ts, p + 5) {
                        Err(m) => Err(m),
                        Ok((x, c)) => if peek(ts, p + 5 + c) != SpecToken::RParen {
                            Err(err_at("Expected ')'"@, p + 5 + c))
                        } else {
                            Ok((SpecExpr::Transfer { from, to, asset: Box::new(x) }, 7 + c))
                        },
                    },
                },
            }
        },
        SpecToken::OracleRead => if peek(ts, p) != SpecToken::LParen {
            Err(err_at("Expected '('"@, p))
        } else {
            match name_at(ts, p + 1, "Expected feed"@) {
                Err(m) => Err(m),
                Ok(f) => match feed_of(f) {
                    None => Err(err_at("Expected feedA or feedB"@, p + 2)),
                    Some(feed) => if peek(ts, p + 2) != SpecToken::RParen {
                        Err(err_at("Expected ')'"@, p + 2))
                    } else {
                        Ok((SpecExpr::OracleRead { feed }, 4))
                    },
                },
            }
        },
        SpecToken::Validate => if peek(ts, p) != SpecToken::LParen {
            Err(err_at("Expected '('"@, p))
        } else {
            match p_expr(ts, p + 1) {
                Err(m) => Err(m),
                Ok((o, c)) => if peek(ts, p + 1 + c) != SpecToken::Comma {
                    Err(err_at("Expected ','"@, p + 1 + c))
                } else {
                    match name_at(ts, p + 2 + c, "Expected policy"@) {
                        Err(m) => Err(m),
                        Ok(name) => if peek(ts, p + 3 + c) != SpecToken::RParen {
                            Err(err_at("Expected ')'"@, p + 3 + c))
                        } else {
                            Ok((SpecExpr::Validate { oracle: Box::new(o), policy: policy_of(name) }, 5 + c))
                        },
                    }
                },
            }
        },
        SpecToken::ToAmount => match p_unary(ts, p) {
            Err(m) => Err(m),
            Ok((x, c)) => Ok((SpecExpr::ToAmount { verified: Box::new(x) }, 1 + c)),
        },
        SpecToken::UnsafeAssumeTrusted => match p_unary(ts, p) {
            Err(m) => Err(m),
            Ok((x, c)) => Ok((SpecExpr::UnsafeAssumeTrusted { oracle: Box::new(x) }, 1 + c)),
        },
        SpecToken::CreateLoan => p_loan(ts, pos),
        SpecToken::Repay => p_repay(ts, pos),
        SpecToken::PriceUpdate => if peek(ts, p) != SpecToken::LParen {
            Err(err_at("Expected '('"@, p))
        } else {
            match p_binary_args_after(ts, p + 1) {
                Err(m) => Err(m),
                Ok(((l, x), c)) => Ok((SpecExpr::PriceUpdate { loan: Box::new(l), new_price: Box::new(x) }, 2 + c)),
            }
        },
        SpecToken::Liquidate => match p_unary(ts, p) {
            Err(m) => Err(m),
            Ok((l, c)) => Ok((SpecExpr::Liquidate { loan: Box::new(l) }, 1 + c)),
        },
        t => Err(err_at("Unexpected token "@ + token_text(t), p)),
    }
}

/// A ratio literal: a whole number or a decimal.
pub open spec fn ratio_of(t: SpecToken) -> Option<Decimal> {
    match t {
        SpecToken::Number(n) => Some(Decimal { mantissa: n, scale: 0 }),
        SpecToken::Float(d) => Some(d),
        _ => None,
    }
}

/// `createLoan(borrower, pool, id, amount, collateral, value, ratio)`.
pub open spec fn p_loan(ts: Seq<SpecToken>, pos: nat) -> Parsed<SpecExpr>
    decreases left(ts, pos), 1nat,
{
    let p = pos + 1;
    if peek(ts, p) != SpecToken::LParen {
        Err(err_at("Expected '('"@, p))
    } else {
        match p_name_comma(ts, p + 1, "Expected borrower"@) {
            Err(m) => Err(m),
            Ok(borrower) => match p_name_comma(ts, p + 3, "Expected pool"@) {
                Err(m) => Err(m),
                Ok(lender_pool) => match p_name_comma(ts, p + 5, "Expected loan id"@) {
                    Err(m) => Err(m),
                    Ok(loan_id) => match p_expr(ts, p + 7) {
                        Err(m) => Err(m),
                        Ok((amount, c1)) => {
                            let q = p + 7 + c1;
                            if peek(ts, q) != SpecToken::Comma {
                                Err(err_at("Expected ','"@, q))
                            } else {
                                match p_name_comma(ts, q + 1, "Expected collateral"@) {
                                    Err(m) => Err(m),
                                    Ok(collateral_asset) => match p_expr(ts, q + 3) {
                                        Err(m) => Err(m),
                                        Ok((value, c2)) => {
                                            let r = q + 3 + c2;
                                            if peek(ts, r) != SpecToken::Comma {
                                                Err(err_at("Expected ','"@, r))
                                            } else {
                                                match ratio_of(peek(ts, r + 1)) {
                                                    None => Err(err_at("Expected ratio"@, r + 2)),
                                                    Some(ratio) => if peek(ts, r + 2) != SpecToken::RParen {
                                                        Err(err_at("Expected ')'"@, r + 2))
                                                    } else {
                                                        Ok(
                                                            (
                                                                SpecExpr::CreateLoan {
                                                                    borrower,
                                                                    lender_pool,
                                                                    loan_id,
                                                                    amount: Box::new(amount),
                                                                    collateral_asset,
                                                                    collateral_value: Box::new(value),
                                                                    required_ratio: ratio,
                                                                },
                                                                (r + 3 - pos) as nat,
                                                            ),
                                                        )
                                                    },
                                                }
                                            }
                                        },
                                    },
                                }
                            }
                        },
                    },
                },
            },
        }
    }
}

/// `repay(borrower, pool, loan, payment)`.
pub open spec fn p_repay(ts: Seq<SpecToken>, pos: nat) -> Parsed<SpecExpr>
    decreases left(ts, pos), 1nat,
{
    let p = pos + 1;
    if peek(ts, p) != SpecToken::LParen {
        Err(err_at("Expected '('"@, p))
    } else {
        match p_name_comma(ts, p + 1, "Expected borrower"@) {
            Err(m) => Err(m),
            Ok(borrower) => match p_name_comma(ts, p + 3, "Expected pool"@) {
                Err(m) => Err(m),
                Ok(lender_pool) => match p_binary_args_after(ts, p + 5) {
                    Err(m) => Err(m),
                    Ok(((loan, payment), c)) => Ok(
                        (
                            SpecExpr::Repay {
                                borrower,
                                lender_pool,
                                loan: Box::new(loan),
                                payment: Box::new(payment),
                            },
                            6 + c,
                        ),
                    ),
                },
            },
        }
    }
}

/// A whole program: an expression, an optional `;`, and nothing after it.
pub open spec fn spec_parse(ts: Seq<SpecToken>) -> Result<SpecExpr, Seq<char>> {
    match p_expr(ts, 0) {
        Err(m) => Err(m),
        Ok((e, c)) => {
            let p = if peek(ts, c) == SpecToken::Semicolon {
                c + 1
            } else {
                c
            };
            if peek(ts, p) != SpecToken::EOF {
                Err(err_at("Unexpected tokens after expression"@, p))
            } else {
                Ok(e)
            }
        },
    }
}


// ---------------------------------------------------------------------------------------------
// The parser.

/// The views of a list of tokens.
#[verifier::opaque]
pub open spec fn toks(ts: Seq<Token>) -> Seq<SpecToken> {
    Seq::new(ts.len(), |i: int| ts[i]@)
}


/// The views of a list of tokens, element by element.
pub proof fn lemma_toks(ts: Seq<Token>)
    ensures
        toks(ts) == Seq::new(ts.len(), |i: int| ts[i]@),
{
    reveal(toks);
}

pub open spec fn expr_agrees(p: Parsed<SpecExpr>, r: Result<(Expr, usize), String>) -> bool {
    match p {
        Ok((e, c)) => r matches Ok((x, k)) && x@ == e && k == c,
        Err(m) => r matches Err(x) && x@ == m,
    }
}

pub open spec fn exprs_agree(p: Parsed<Seq<SpecExpr>>, r: Result<(Vec<Expr>, usize), String>) -> bool {
    match p {
        Ok((e, c)) => r matches Ok((x, k)) && exprs_view(x@) == e && k == c,
        Err(m) => r matches Err(x) && x@ == m,
    }
}

pub open spec fn names_agree(p: Parsed<Seq<Seq<char>>>, r: Result<(Vec<String>, usize), String>) -> bool {
    match p {
        Ok((e, c)) => r matches Ok((x, k)) && names_view(x@) == e && k == c,
        Err(m) => r matches Err(x) && x@ == m,
    }
}

pub open spec fn pair_agrees(p: Parsed<(SpecExpr, SpecExpr)>, r: Result<((Expr, Expr), usize), String>) -> bool {
    match p {
        Ok(((a, b), c)) => r matches Ok(((x, y), k)) && x@ == a && y@ == b && k == c,
        Err(m) => r matches Err(x) && x@ == m,
    }
}

/// The count a successful parse took stays within the tokens.
pub open spec fn within<T, U>(r: Result<(T, usize), U>, pos: usize, n: nat) -> bool {
    r matches Ok((_, c)) ==> pos + c <= n
}

proof fn lemma_exprs_view_concat(a: Seq<Expr>, b: Seq<Expr>)
    ensures
        exprs_view(a + b) == exprs_view(a) + exprs_view(b),
{
    lemma_exprs_view(a);
    lemma_exprs_view(b);
    lemma_exprs_view(a + b);
    assert(exprs_view(a + b) =~= exprs_view(a) + exprs_view(b));
}

fn err_msg(s: &str, pos: usize) -> (r: String)
    requires
        pos < usize::MAX,
    ensures
        r@ == err_at(s@, pos as nat),
{
    let mut m = text(s);
    push_str(&mut m, " at token ");
    push_nat(&mut m, (pos + 1) as u64);
    m
}

fn peek_tok(ts: &[Token], pos: usize) -> (t: Token)
    ensures
        t@ == peek(toks(ts@), pos as nat),
        pos >= ts@.len() ==> t@ == SpecToken::EOF,
        toks(ts@).len() == ts@.len(),
{
    proof {
        reveal(toks);
    }
    if pos < ts.len() {
        ts[pos].copy()
    } else {
        Token::EOF
    }
}

fn name_at_e(ts: &[Token], pos: usize, s: &str) -> (r: Result<String, String>)
    requires
        pos + 1 < usize::MAX,
    ensures
        match name_at(toks(ts@), pos as nat, s@) {
            Ok(n) => r matches Ok(x) && x@ == n && pos < ts@.len(),
            Err(m) => r matches Err(x) && x@ == m,
        },
{
    match peek_tok(ts, pos) {
        Token::Ident(x) => Ok(x),
        _ => Err(err_msg(s, pos + 1)),
    }
}

fn name_comma_e(ts: &[Token], pos: usize, s: &str) -> (r: Result<String, String>)
    requires
        pos + 2 < usize::MAX,
    ensures
        match p_name_comma(toks(ts@), pos as nat, s@) {
            Ok(n) => r matches Ok(x) && x@ == n && pos + 1 < ts@.len(),
            Err(m) => r matches Err(x) && x@ == m,
        },
{
    let n = match name_at_e(ts, pos, s) {
        Ok(n) => n,
        Err(m) => {
            return Err(m);
        },
    };
    if !matches!(peek_tok(ts, pos + 1), Token::Comma) {
        return Err(err_msg("Expected ','", pos + 1));
    }
    Ok(n)
}

/// Whether the token at a position is the given punctuation or keyword.
fn at(ts: &[Token], pos: usize, t: &Token) -> (r: bool)
    requires
        !(t is Ident) && !(t is Number) && !(t is Float),
    ensures
        r == (peek(toks(ts@), pos as nat) == t@),
        r && !(t is EOF) ==> pos < ts@.len(),
{
    let x = peek_tok(ts, pos);
    let r = match (&x, t) {
        (Token::Let, Token::Let) | (Token::In, Token::In) | (Token::Fn, Token::Fn) | (Token::Policy, Token::Policy)
        | (Token::If, Token::If) | (Token::Then, Token::Then) | (Token::Else, Token::Else) | (Token::True, Token::True)
        | (Token::False, Token::False) | (Token::Transfer, Token::Transfer) | (Token::Mint, Token::Mint)
        | (Token::OracleRead, Token::OracleRead) | (Token::Validate, Token::Validate)
        | (Token::ToAmount, Token::ToAmount) | (Token::UnsafeAssumeTrusted, Token::UnsafeAssumeTrusted)
        | (Token::CreateLoan, Token::CreateLoan) | (Token::Repay, Token::Repay)
        | (Token::PriceUpdate, Token::PriceUpdate) | (Token::Liquidate, Token::Liquidate)
        | (Token::LParen, Token::LParen) | (Token::RParen, Token::RParen) | (Token::Comma, Token::Comma)
        | (Token::Equals, Token::Equals) | (Token::EqEq, Token::EqEq) | (Token::Lt, Token::Lt) | (Token::Gt, Token::Gt)
        | (Token::Le, Token::Le) | (Token::Ge, Token::Ge) | (Token::Plus, Token::Plus) | (Token::Minus, Token::Minus)
        | (Token::Star, Token::Star) | (Token::Slash, Token::Slash) | (Token::Colon, Token::Colon)
        | (Token::Semicolon, Token::Semicolon) | (Token::Arrow, Token::Arrow) | (Token::LBrace, Token::LBrace)
        | (Token::RBrace, Token::RBrace) | (Token::EOF, Token::EOF) => true,
        _ => false,
    };
    r
}



fn binop_of(t: &Token, which: u8) -> (r: Option<BinOp>)
    ensures
        which == 0 ==> r == compare_op(t@),
        which == 1 ==> r == add_op(t@),
        which == 2 ==> r == mul_op(t@),
{
    if which == 0 {
        match t {
            Token::Lt => Some(BinOp::Lt),
            Token::Gt => Some(BinOp::Gt),
            Token::Le => Some(BinOp::Le),
            Token::Ge => Some(BinOp::Ge),
            Token::EqEq => Some(BinOp::Eq),
            _ => None,
        }
    } else if which == 1 {
        match t {
            Token::Plus => Some(BinOp::Add),
            Token::Minus => Some(BinOp::Sub),
            _ => None,
        }
    } else {
        match t {
            Token::Star => Some(BinOp::Mul),
            Token::Slash => Some(BinOp::Div),
            _ => None,
        }
    }
}

#[verifier::spinoff_prover]
fn e_expr(ts: &[Token], pos: usize) -> (r: Result<(Expr, usize), String>)
    requires
        pos <= ts@.len(),
        ts@.len() + 8 < usize::MAX,
    ensures
        expr_agrees(p_expr(toks(ts@), pos as nat), r),
        within(r, pos, ts@.len() as nat),
    decreases left(toks(ts@), pos as nat), 9nat,
{
    let ghost t = toks(ts@);
    if at(ts, pos, &Token::Policy) {
        return e_policy_def(ts, pos);
    }
    if at(ts, pos, &Token::Let) {
        let n = match name_at_e(ts, pos + 1, "Expected name") {
            Ok(n) => n,
            Err(m) => {
                return Err(m);
            },
        };
        if !at(ts, pos + 2, &Token::Equals) {
            return Err(err_msg("Expected '='", pos + 2));
        }
        let (v, c1) = match e_expr(ts, pos + 3) {
            Ok(x) => x,
            Err(m) => {
                return Err(m);
            },
        };
        if !at(ts, pos + 3 + c1, &Token::In) {
            return Err(err_msg("Expected 'in'", pos + 3 + c1));
        }
        let (b, c2) = match e_expr(ts, pos + 4 + c1) {
            Ok(x) => x,
            Err(m) => {
                return Err(m);
            },
        };
        return Ok((Expr::Let { name: n, value: Box::new(v), body: Box::new(b) }, 4 + c1 + c2));
    }
    if at(ts, pos, &Token::If) {
        let (c, c1) = match e_expr(ts, pos + 1) {
            Ok(x) => x,
            Err(m) => {
                return Err(m);
            },
        };
        if !at(ts, pos + 1 + c1, &Token::Then) {
            return Err(err_msg("Expected 'then'", pos + 1 + c1));
        }
        let (th, c2) = match e_expr(ts, pos + 2 + c1) {
            Ok(x) => x,
            Err(m) => {
                return Err(m);
            },
        };
        if !at(ts, pos + 2 + c1 + c2, &Token::Else) {
            return Err(err_msg("Expected 'else'", pos + 2 + c1 + c2));
        }
        let (el, c3) = match e_expr(ts, pos + 3 + c1 + c2) {
            Ok(x) => x,
            Err(m) => {
                return Err(m);
            },
        };
        return Ok(
            (
                Expr::If { condition: Box::new(c), then_branch: Box::new(th), else_branch: Box::new(el) },
                3 + c1 + c2 + c3,
            ),
        );
    }
    e_compare(ts, pos)
}

#[verifier::spinoff_prover]
fn e_compare(ts: &[Token], pos: usize) -> (r: Result<(Expr, usize), String>)
    requires
        pos <= ts@.len(),
        ts@.len() + 8 < usize::MAX,
    ensures
        expr_agrees(p_compare(toks(ts@), pos as nat), r),
        within(r, pos, ts@.len() as nat),
    decreases left(toks(ts@), pos as nat), 8nat,
{
    let (e, c1) = match e_add(ts, pos) {
        Ok(x) => x,
        Err(m) => {
            return Err(m);
        },
    };
    match e_compare_rest(ts, pos + c1, e) {
        Ok((x, c2)) => Ok((x, c1 + c2)),
        Err(m) => Err(m),
    }
}

#[verifier::spinoff_prover]
fn e_compare_rest(ts: &[Token], pos: usize, e: Expr) -> (r: Result<(Expr, usize), String>)
    requires
        pos <= ts@.len(),
        ts@.len() + 8 < usize::MAX,
    ensures
        expr_agrees(p_compare_rest(toks(ts@), pos as nat, e@), r),
        within(r, pos, ts@.len() as nat),
    decreases left(toks(ts@), pos as nat), 7nat,
{
    let op = match binop_of(&peek_tok(ts, pos), 0) {
        Some(op) => op,
        None => {
            return Ok((e, 0));
        },
    };
    let (rhs, c1) = match e_add(ts, pos + 1) {
        Ok(x) => x,
        Err(m) => {
            return Err(m);
        },
    };
    match e_compare_rest(ts, pos + 1 + c1, Expr::Binary { op, left: Box::new(e), right: Box::new(rhs) }) {
        Ok((x, c2)) => Ok((x, 1 + c1 + c2)),
        Err(m) => Err(m),
    }
}

#[verifier::spinoff_prover]
fn e_add(ts: &[Token], pos: usize) -> (r: Result<(Expr, usize), String>)
    requires
        pos <= ts@.len(),
        ts@.len() + 8 < usize::MAX,
    ensures
        expr_agrees(p_add(toks(ts@), pos as nat), r),
        within(r, pos, ts@.len() as nat),
    decreases left(toks(ts@), pos as nat), 6nat,
{
    let (e, c1) = match e_mul(ts, pos) {
        Ok(x) => x,
        Err(m) => {
            return Err(m);
        },
    };
    match e_add_rest(ts, pos + c1, e) {
        Ok((x, c2)) => Ok((x, c1 + c2)),
        Err(m) => Err(m),
    }
}

#[verifier::spinoff_prover]
fn e_add_rest(ts: &[Token], pos: usize, e: Expr) -> (r: Result<(Expr, usize), String>)
    requires
        pos <= ts@.len(),
        ts@.len() + 8 < usize::MAX,
    ensures
        expr_agrees(p_add_rest(toks(ts@), pos as nat, e@), r),
        within(r, pos, ts@.len() as nat),
    decreases left(toks(ts@), pos as nat), 5nat,
{
    let op = match binop_of(&peek_tok(ts, pos), 1) {
        Some(op) => op,
        None => {
            return Ok((e, 0));
        },
    };
    let (rhs, c1) = match e_mul(ts, pos + 1) {
        Ok(x) => x,
        Err(m) => {
            return Err(m);
        },
    };
    match e_add_rest(ts, pos + 1 + c1, Expr::Binary { op, left: Box::new(e), right: Box::new(rhs) }) {
        Ok((x, c2)) => Ok((x, 1 + c1 + c2)),
        Err(m) => Err(m),
    }
}

#[verifier::spinoff_prover]
fn e_mul(ts: &[Token], pos: usize) -> (r: Result<(Expr, usize), String>)
    requires
        pos <= ts@.len(),
        ts@.len() + 8 < usize::MAX,
    ensures
        expr_agrees(p_mul(toks(ts@), pos as nat), r),
        within(r, pos, ts@.len() as nat),
    decreases left(toks(ts@), pos as nat), 4nat,
{
    let (e, c1) = match e_atom(ts, pos) {
        Ok(x) => x,
        Err(m) => {
            return Err(m);
        },
    };
    match e_mul_rest(ts, pos + c1, e) {
        Ok((x, c2)) => Ok((x, c1 + c2)),
        Err(m) => Err(m),
    }
}

#[verifier::spinoff_prover]
fn e_mul_rest(ts: &[Token], pos: usize, e: Expr) -> (r: Result<(Expr, usize), String>)
    requires
        pos <= ts@.len(),
        ts@.len() + 8 < usize::MAX,
    ensures
        expr_agrees(p_mul_rest(toks(ts@), pos as nat, e@), r),
        within(r, pos, ts@.len() as nat),
    decreases left(toks(ts@), pos as nat), 3nat,
{
    let op = match binop_of(&peek_tok(ts, pos), 2) {
        Some(op) => op,
        None => {
            return Ok((e, 0));
        },
    };
    let (rhs, c1) = match e_atom(ts, pos + 1) {
        Ok(x) => x,
        Err(m) => {
            return Err(m);
        },
    };
    match e_mul_rest(ts, pos + 1 + c1, Expr::Binary { op, left: Box::new(e), right: Box::new(rhs) }) {
        Ok((x, c2)) => Ok((x, 1 + c1 + c2)),
        Err(m) => Err(m),
    }
}

#[verifier::spinoff_prover]
fn e_args(ts: &[Token], pos: usize) -> (r: Result<(Vec<Expr>, usize), String>)
    requires
        pos <= ts@.len(),
        ts@.len() + 8 < usize::MAX,
    ensures
        exprs_agree(p_args(toks(ts@), pos as nat), r),
        within(r, pos, ts@.len() as nat),
    decreases left(toks(ts@), pos as nat), 10nat,
{
    let (a, c1) = match e_expr(ts, pos) {
        Ok(x) => x,
        Err(m) => {
            return Err(m);
        },
    };
    let mut v: Vec<Expr> = Vec::new();
    v.push(a);
    proof {
        lemma_exprs_view(v@);
        assert(exprs_view(v@) =~= seq![v@[0]@]);
    }
    if at(ts, pos + c1, &Token::Comma) {
        let (mut rest, c2) = match e_args(ts, pos + c1 + 1) {
            Ok(x) => x,
            Err(m) => {
                return Err(m);
            },
        };
        let ghost first = v@;
        let ghost second = rest@;
        v.append(&mut rest);
        proof {
            lemma_exprs_view_concat(first, second);
            assert(v@ =~= first + second);
        }
        Ok((v, c1 + 1 + c2))
    } else {
        Ok((v, c1))
    }
}

#[verifier::spinoff_prover]
fn e_call_args(ts: &[Token], pos: usize) -> (r: Result<(Vec<Expr>, usize), String>)
    requires
        pos <= ts@.len(),
        ts@.len() + 8 < usize::MAX,
    ensures
        exprs_agree(p_call_args(toks(ts@), pos as nat), r),
        within(r, pos, ts@.len() as nat),
    decreases left(toks(ts@), pos as nat), 11nat,
{
    if at(ts, pos, &Token::RParen) {
        let v: Vec<Expr> = Vec::new();
        proof {
            lemma_exprs_view(v@);
            assert(exprs_view(v@) =~= Seq::<SpecExpr>::empty());
        }
        return Ok((v, 1));
    }
    let (args, c) = match e_args(ts, pos) {
        Ok(x) => x,
        Err(m) => {
            return Err(m);
        },
    };
    if !at(ts, pos + c, &Token::RParen) {
        return Err(err_msg("Expected ')'", pos + c));
    }
    Ok((args, c + 1))
}

#[verifier::spinoff_prover]
fn e_params(ts: &[Token], pos: usize) -> (r: Result<(Vec<String>, usize), String>)
    requires
        pos <= ts@.len(),
        ts@.len() + 8 < usize::MAX,
    ensures
        names_agree(p_params(toks(ts@), pos as nat), r),
        within(r, pos, ts@.len() as nat),
    decreases left(toks(ts@), pos as nat), 1nat,
{
    let p = match name_at_e(ts, pos, "Expected parameter name") {
        Ok(n) => n,
        Err(m) => {
            return Err(m);
        },
    };
    let c1: usize = if at(ts, pos + 1, &Token::Colon) {
        match name_at_e(ts, pos + 2, "Expected parameter type") {
            Ok(_) => 3,
            Err(m) => {
                return Err(m);
            },
        }
    } else {
        1
    };
    let mut v: Vec<String> = Vec::new();
    v.push(p);
    assert(names_view(v@) =~= seq![v@[0]@]);
    if at(ts, pos + c1, &Token::Comma) {
        let (mut rest, c2) = match e_params(ts, pos + c1 + 1) {
            Ok(x) => x,
            Err(m) => {
                return Err(m);
            },
        };
        let ghost first = v@;
        let ghost second = rest@;
        v.append(&mut rest);
        assert(names_view(v@) =~= names_view(first) + names_view(second));
        Ok((v, c1 + 1 + c2))
    } else {
        Ok((v, c1))
    }
}

#[verifier::spinoff_prover]
#[verifier::rlimit(100)]
fn e_function(ts: &[Token], pos: usize) -> (r: Result<(Expr, usize), String>)
    requires
        pos <= ts@.len(),
        ts@.len() + 8 < usize::MAX,
    ensures
        expr_agrees(p_function(toks(ts@), pos as nat), r),
        within(r, pos, ts@.len() as nat),
    decreases left(toks(ts@), pos as nat), 1nat,
{
    if !at(ts, pos, &Token::LParen) {
        return Err(err_msg("Expected '('", pos));
    }
    let (params, c1) = if at(ts, pos + 1, &Token::RParen) {
        let v: Vec<String> = Vec::new();
        assert(names_view(v@) =~= Seq::<Seq<char>>::empty());
        (v, 0)
    } else {
        match e_params(ts, pos + 1) {
            Ok(x) => x,
            Err(m) => {
                return Err(m);
            },
        }
    };
    let p = pos + 1 + c1;
    if !at(ts, p, &Token::RParen) {
        return Err(err_msg("Expected ')'", p));
    }
    if !at(ts, p + 1, &Token::Arrow) {
        return Err(err_msg("Expected '->'", p + 1));
    }
    match name_at_e(ts, p + 2, "Expected return type") {
        Ok(_) => {},
        Err(m) => {
            return Err(m);
        },
    }
    if !at(ts, p + 3, &Token::LBrace) {
        return Err(err_msg("Expected '{'", p + 3));
    }
    let (body, c2) = match e_expr(ts, p + 4) {
        Ok(x) => x,
        Err(m) => {
            return Err(m);
        },
    };
    if !at(ts, p + 4 + c2, &Token::RBrace) {
        return Err(err_msg("Expected '}'", p + 4 + c2));
    }
    Ok((Expr::Function { params, body: Box::new(body) }, p + 5 + c2 - pos))
}

#[verifier::spinoff_prover]
fn e_policy_def(ts: &[Token], pos: usize) -> (r: Result<(Expr, usize), String>)
    requires
        pos <= ts@.len(),
        ts@.len() + 8 < usize::MAX,
    ensures
        expr_agrees(p_policy_def(toks(ts@), pos as nat), r),
        within(r, pos, ts@.len() as nat),
    decreases left(toks(ts@), pos as nat), 1nat,
{
    let name = match name_at_e(ts, pos + 1, "Expected policy name") {
        Ok(n) => n,
        Err(m) => {
            return Err(m);
        },
    };
    if !at(ts, pos + 2, &Token::LParen) {
        return Err(err_msg("Expected '('", pos + 2));
    }
    let parameter = match name_at_e(ts, pos + 3, "Expected policy parameter") {
        Ok(n) => n,
        Err(m) => {
            return Err(m);
        },
    };
    let p: usize = if at(ts, pos + 4, &Token::Colon) {
        match name_at_e(ts, pos + 5, "Expected policy parameter type") {
            Ok(_) => pos + 6,
            Err(m) => {
                return Err(m);
            },
        }
    } else {
        pos + 4
    };
    if !at(ts, p, &Token::RParen) {
        return Err(err_msg("Expected ')'", p));
    }
    if !at(ts, p + 1, &Token::LBrace) {
        return Err(err_msg("Expected '{'", p + 1));
    }
    let (predicate, c1) = match e_expr(ts, p + 2) {
        Ok(x) => x,
        Err(m) => {
            return Err(m);
        },
    };
    if !at(ts, p + 2 + c1, &Token::RBrace) {
        return Err(err_msg("Expected '}'", p + 2 + c1));
    }
    if !at(ts, p + 3 + c1, &Token::In) {
        return Err(err_msg("Expected 'in' after policy", p + 3 + c1));
    }
    let (body, c2) = match e_expr(ts, p + 4 + c1) {
        Ok(x) => x,
        Err(m) => {
            return Err(m);
        },
    };
    Ok(
        (
            Expr::PolicyDef { name, parameter, predicate: Box::new(predicate), body: Box::new(body) },
            p + 4 + c1 + c2 - pos,
        ),
    )
}

#[verifier::spinoff_prover]
#[verifier::rlimit(100)]
fn e_unary(ts: &[Token], pos: usize) -> (r: Result<(Expr, usize), String>)
    requires
        pos <= ts@.len(),
        ts@.len() + 8 < usize::MAX,
    ensures
        expr_agrees(p_unary(toks(ts@), pos as nat), r),
        within(r, pos, ts@.len() as nat),
    decreases left(toks(ts@), pos as nat), 1nat,
{
    if !at(ts, pos, &Token::LParen) {
        return Err(err_msg("Expected '('", pos));
    }
    let (x, c) = match e_expr(ts, pos + 1) {
        Ok(x) => x,
        Err(m) => {
            return Err(m);
        },
    };
    if !at(ts, pos + 1 + c, &Token::RParen) {
        return Err(err_msg("Expected ')'", pos + 1 + c));
    }
    Ok((x, 2 + c))
}

#[verifier::spinoff_prover]
#[verifier::rlimit(100)]
fn e_binary_args_after(ts: &[Token], pos: usize) -> (r: Result<((Expr, Expr), usize), String>)
    requires
        pos <= ts@.len(),
        ts@.len() + 8 < usize::MAX,
    ensures
        pair_agrees(p_binary_args_after(toks(ts@), pos as nat), r),
        within(r, pos, ts@.len() as nat),
    decreases left(toks(ts@), pos as nat), 10nat,
{
    let (a, c1) = match e_expr(ts, pos) {
        Ok(x) => x,
        Err(m) => {
            return Err(m);
        },
    };
    if !at(ts, pos + c1, &Token::Comma) {
        return Err(err_msg("Expected ','", pos + c1));
    }
    let (b, c2) = match e_expr(ts, pos + 1 + c1) {
        Ok(x) => x,
        Err(m) => {
            return Err(m);
        },
    };
    if !at(ts, pos + 1 + c1 + c2, &Token::RParen) {
        return Err(err_msg("Expected ')'", pos + 1 + c1 + c2));
    }
    Ok(((a, b), 2 + c1 + c2))
}

fn feed_e(n: &str) -> (r: Option<SourceId>)
    ensures
        r == feed_of(n@),
{
    if same_text(n, "feedA") {
        Some(SourceId::FeedA)
    } else if same_text(n, "feedB") {
        Some(SourceId::FeedB)
    } else {
        None
    }
}

fn policy_e(n: String) -> (r: PolicyId)
    ensures
        r@ == policy_of(n@),
{
    if same_text(n.as_str(), "PriceBounds") {
        PolicyId::PriceBounds
    } else {
        PolicyId::Named(n)
    }
}

fn ratio_e(t: &Token) -> (r: Option<Decimal>)
    ensures
        r == ratio_of(t@),
{
    match t {
        Token::Number(n) => Some(Decimal { mantissa: *n, scale: 0 }),
        Token::Float(d) => Some(*d),
        _ => None,
    }
}

#[verifier::spinoff_prover]
#[verifier::rlimit(100)]
fn e_loan(ts: &[Token], pos: usize) -> (r: Result<(Expr, usize), String>)
    requires
        pos <= ts@.len(),
        ts@.len() + 8 < usize::MAX,
    ensures
        expr_agrees(p_loan(toks(ts@), pos as nat), r),
        within(r, pos, ts@.len() as nat),
    decreases left(toks(ts@), pos as nat), 1nat,
{
    let p = pos + 1;
    if !at(ts, p, &Token::LParen) {
        return Err(err_msg("Expected '('", p));
    }
    let borrower = match name_comma_e(ts, p + 1, "Expected borrower") {
        Ok(n) => n,
        Err(m) => {
            return Err(m);
        },
    };
    let lender_pool = match name_comma_e(ts, p + 3, "Expected pool") {
        Ok(n) => n,
        Err(m) => {
            return Err(m);
        },
    };
    let loan_id = match name_comma_e(ts, p + 5, "Expected loan id") {
        Ok(n) => n,
        Err(m) => {
            return Err(m);
        },
    };
    let (amount, c1) = match e_expr(ts, p + 7) {
        Ok(x) => x,
        Err(m) => {
            return Err(m);
        },
    };
    let q = p + 7 + c1;
    if !at(ts, q, &Token::Comma) {
        return Err(err_msg("Expected ','", q));
    }
    let collateral_asset = match name_comma_e(ts, q + 1, "Expected collateral") {
        Ok(n) => n,
        Err(m) => {
            return Err(m);
        },
    };
    let (value, c2) = match e_expr(ts, q + 3) {
        Ok(x) => x,
        Err(m) => {
            return Err(m);
        },
    };
    let r = q + 3 + c2;
    if !at(ts, r, &Token::Comma) {
        return Err(err_msg("Expected ','", r));
    }
    let ratio = match ratio_e(&peek_tok(ts, r + 1)) {
        Some(d) => d,
        None => {
            return Err(err_msg("Expected ratio", r + 2));
        },
    };
    if !at(ts, r + 2, &Token::RParen) {
        return Err(err_msg("Expected ')'", r + 2));
    }
    Ok(
        (
            Expr::CreateLoan {
                borrower,
                lender_pool,
                loan_id,
                amount: Box::new(amount),
                collateral_asset,
                collateral_value: Box::new(value),
                required_ratio: ratio,
            },
            r + 3 - pos,
        ),
    )
}

#[verifier::spinoff_prover]
#[verifier::rlimit(100)]
fn e_repay(ts: &[Token], pos: usize) -> (r: Result<(Expr, usize), String>)
    requires
        pos <= ts@.len(),
        ts@.len() + 8 < usize::MAX,
    ensures
        expr_agrees(p_repay(toks(ts@), pos as nat), r),
        within(r, pos, ts@.len() as nat),
    decreases left(toks(ts@), pos as nat), 1nat,
{
    let p = pos + 1;
    if !at(ts, p, &Token::LParen) {
        return Err(err_msg("Expected '('", p));
    }
    let borrower = match name_comma_e(ts, p + 1, "Expected borrower") {
        Ok(n) => n,
        Err(m) => {
            return Err(m);
        },
    };
    let lender_pool = match name_comma_e(ts, p + 3, "Expected pool") {
        Ok(n) => n,
        Err(m) => {
            return Err(m);
        },
    };
    let ((loan, payment), c) = match e_binary_args_after(ts, p + 5) {
        Ok(x) => x,
        Err(m) => {
            return Err(m);
        },
    };
    Ok((Expr::Repay { borrower, lender_pool, loan: Box::new(loan), payment: Box::new(payment) }, 6 + c))
}


#[verifier::spinoff_prover]
#[verifier::rlimit(100)]
fn e_atom_ops(ts: &[Token], pos: usize) -> (r: Result<(Expr, usize), String>)
    requires
        pos <= ts@.len(),
        ts@.len() + 8 < usize::MAX,
        peek(toks(ts@), pos as nat) is Mint || peek(toks(ts@), pos as nat) is Transfer || peek(toks(ts@), pos as nat) is OracleRead
            || peek(toks(ts@), pos as nat) is Validate,
    ensures
        expr_agrees(p_atom(toks(ts@), pos as nat), r),
        within(r, pos, ts@.len() as nat),
    decreases left(toks(ts@), pos as nat), 1nat,
{
    let p = pos + 1;
    let t = peek_tok(ts, pos);
    match t {
        Token::Mint => {
            if !at(ts, p, &Token::LParen) {
                return Err(err_msg("Expected '('", p));
            }
            let a = match name_at_e(ts, p + 1, "Expected identifier") {
                Ok(n) => n,
                Err(m) => {
                    return Err(m);
                },
            };
            if !at(ts, p + 2, &Token::Comma) {
                return Err(err_msg("Expected ','", p + 2));
            }
            let (x, c) = match e_expr(ts, p + 3) {
                Ok(x) => x,
                Err(m) => {
                    return Err(m);
                },
            };
            if !at(ts, p + 3 + c, &Token::RParen) {
                return Err(err_msg("Expected ')'", p + 3 + c));
            }
            Ok((Expr::Mint { account: a, amount: Box::new(x) }, 5 + c))
        },
        Token::Transfer => {
            if !at(ts, p, &Token::LParen) {
                return Err(err_msg("Expected '('", p));
            }
            let from = match name_comma_e(ts, p + 1, "Expected identifier") {
                Ok(n) => n,
                Err(m) => {
                    return Err(m);
                },
            };
            let to = match name_comma_e(ts, p + 3, "Expected identifier") {
                Ok(n) => n,
                Err(m) => {
                    return Err(m);
                },
            };
            let (x, c) = match e_expr(ts, p + 5) {
                Ok(x) => x,
                Err(m) => {
                    return Err(m);
                },
            };
            if !at(ts, p + 5 + c, &Token::RParen) {
                return Err(err_msg("Expected ')'", p + 5 + c));
            }
            Ok((Expr::Transfer { from, to, asset: Box::new(x) }, 7 + c))
        },
        Token::OracleRead => {
            if !at(ts, p, &Token::LParen) {
                return Err(err_msg("Expected '('", p));
            }
            let f = match name_at_e(ts, p + 1, "Expected feed") {
                Ok(n) => n,
                Err(m) => {
                    return Err(m);
                },
            };
            let feed = match feed_e(f.as_str()) {
                Some(feed) => feed,
                None => {
                    return Err(err_msg("Expected feedA or feedB", p + 2));
                },
            };
            if !at(ts, p + 2, &Token::RParen) {
                return Err(err_msg("Expected ')'", p + 2));
            }
            Ok((Expr::OracleRead { feed }, 4))
        },
        Token::Validate => {
            if !at(ts, p, &Token::LParen) {
                return Err(err_msg("Expected '('", p));
            }
            let (o, c) = match e_expr(ts, p + 1) {
                Ok(x) => x,
                Err(m) => {
                    return Err(m);
                },
            };
            if !at(ts, p + 1 + c, &Token::Comma) {
                return Err(err_msg("Expected ','", p + 1 + c));
            }
            let name = match name_at_e(ts, p + 2 + c, "Expected policy") {
                Ok(n) => n,
                Err(m) => {
                    return Err(m);
                },
            };
            if !at(ts, p + 3 + c, &Token::RParen) {
                return Err(err_msg("Expected ')'", p + 3 + c));
            }
            Ok((Expr::Validate { oracle: Box::new(o), policy: policy_e(name) }, 5 + c))
        },
        _ => {
            assert(false);
            Err(text(""))
        },
    }
}

fn make_call(name: String, args: Vec<Expr>) -> (e: Expr)
    ensures
        e@ == (SpecExpr::Call { function: Box::new(SpecExpr::Var { name: name@ }), args: exprs_view(args@) }),
{
    let f = Expr::Var { name };
    assert(f@ == SpecExpr::Var { name: f->Var_name@ });
    Expr::Call { function: Box::new(f), args }
}

#[verifier::spinoff_prover]
#[verifier::rlimit(100)]
fn e_atom_name(ts: &[Token], pos: usize) -> (r: Result<(Expr, usize), String>)
    requires
        pos <= ts@.len(),
        ts@.len() + 8 < usize::MAX,
        peek(toks(ts@), pos as nat) is Ident,
    ensures
        expr_agrees(p_atom(toks(ts@), pos as nat), r),
        within(r, pos, ts@.len() as nat),
    decreases left(toks(ts@), pos as nat), 0nat,
{
    let p = pos + 1;
    let t = peek_tok(ts, pos);
    match t {
        Token::Ident(n) => if at(ts, p, &Token::LParen) {
            match e_call_args(ts, p + 1) {
                Ok((args, c)) => Ok((make_call(n, args), 2 + c)),
                Err(m) => Err(m),
            }
        } else {
            Ok((Expr::Var { name: n }, 1))
        },
        _ => {
            assert(false);
            Err(text(""))
        },
    }
}

#[verifier::spinoff_prover]
#[verifier::rlimit(100)]
fn e_atom_simple(ts: &[Token], pos: usize) -> (r: Result<(Expr, usize), String>)
    requires
        pos <= ts@.len(),
        ts@.len() + 8 < usize::MAX,
        peek(toks(ts@), pos as nat) is Number || peek(toks(ts@), pos as nat) is True || peek(toks(ts@), pos as nat) is False
            || peek(toks(ts@), pos as nat) is Fn || peek(toks(ts@), pos as nat) is Ident || peek(toks(ts@), pos as nat) is LParen,
    ensures
        expr_agrees(p_atom(toks(ts@), pos as nat), r),
        within(r, pos, ts@.len() as nat),
    decreases left(toks(ts@), pos as nat), 1nat,
{
    let p = pos + 1;
    let t = peek_tok(ts, pos);
    match t {
        Token::Number(n) => Ok((Expr::Int(n), 1)),
        Token::True => Ok((Expr::Bool(true), 1)),
        Token::False => Ok((Expr::Bool(false), 1)),
        Token::Fn => match e_function(ts, p) {
            Ok((e, c)) => Ok((e, 1 + c)),
            Err(m) => Err(m),
        },
        Token::Ident(_) => e_atom_name(ts, pos),
        Token::LParen => {
            let (e, c) = match e_expr(ts, p) {
                Ok(x) => x,
                Err(m) => {
                    return Err(m);
                },
            };
            if !at(ts, p + c, &Token::RParen) {
                return Err(err_msg("Expected ')'", p + c));
            }
            Ok((e, 2 + c))
        },
        _ => {
            assert(false);
            Err(text(""))
        },
    }
}

#[verifier::spinoff_prover]
#[verifier::rlimit(100)]
fn e_atom(ts: &[Token], pos: usize) -> (r: Result<(Expr, usize), String>)
    requires
        pos <= ts@.len(),
        ts@.len() + 8 < usize::MAX,
    ensures
        expr_agrees(p_atom(toks(ts@), pos as nat), r),
        within(r, pos, ts@.len() as nat),
    decreases left(toks(ts@), pos as nat), 2nat,
{
    let p = pos + 1;
    let t = peek_tok(ts, pos);
    match t {
        Token::Number(_) | Token::True | Token::False | Token::Fn | Token::Ident(_) | Token::LParen => e_atom_simple(ts, pos),
        Token::Mint | Token::Transfer | Token::OracleRead | Token::Validate => e_atom_ops(ts, pos),
        Token::ToAmount => match e_unary(ts, p) {
            Ok((x, c)) => Ok((Expr::ToAmount { verified: Box::new(x) }, 1 + c)),
            Err(m) => Err(m),
        },
        Token::UnsafeAssumeTrusted => match e_unary(ts, p) {
            Ok((x, c)) => Ok((Expr::UnsafeAssumeTrusted { oracle: Box::new(x) }, 1 + c)),
            Err(m) => Err(m),
        },
        Token::CreateLoan => e_loan(ts, pos),
        Token::Repay => e_repay(ts, pos),
        Token::PriceUpdate => {
            if !at(ts, p, &Token::LParen) {
                return Err(err_msg("Expected '('", p));
            }
            match e_binary_args_after(ts, p + 1) {
                Ok(((l, x), c)) => Ok((Expr::PriceUpdate { loan: Box::new(l), new_price: Box::new(x) }, 2 + c)),
                Err(m) => Err(m),
            }
        },
        Token::Liquidate => match e_unary(ts, p) {
            Ok((l, c)) => Ok((Expr::Liquidate { loan: Box::new(l) }, 1 + c)),
            Err(m) => Err(m),
        },
        other => {
            let mut m = text("Unexpected token ");
            let d = token_string(&other);
            push_str(&mut m, d.as_str());
            Err(err_msg(m.as_str(), p))
        },
    }
}

/// Parses a whole program: an expression, an optional `;`, and then `EOF`.
pub fn parse(tokens: &[Token]) -> (r: Result<Expr, String>)
    requires
        tokens@.len() + 8 < usize::MAX,
    ensures
        match spec_parse(toks(tokens@)) {
            Ok(e) => r matches Ok(x) && x@ == e,
            Err(m) => r matches Err(x) && x@ == m,
        },
{
    let (e, c) = match e_expr(tokens, 0) {
        Ok(x) => x,
        Err(m) => {
            return Err(m);
        },
    };
    let p = if at(tokens, c, &Token::Semicolon) {
        c + 1
    } else {
        c
    };
    if !at(tokens, p, &Token::EOF) {
        return Err(err_msg("Unexpected tokens after expression", p));
    }
    Ok(e)
}

// ---------------------------------------------------------------------------------------------
// Laws of parsing.

/// The operator a comparison token writes, read off its spelling: `<` is less-than, `>`
/// greater-than, `<=` at-most, `>=` at-least and `==` equality.
pub open spec fn written_comparison(t: SpecToken) -> Option<BinOp> {
    if t == SpecToken::Lt {
        Some(BinOp::Lt)
    } else if t == SpecToken::Gt {
        Some(BinOp::Gt)
    } else if t == SpecToken::Le {
        Some(BinOp::Le)
    } else if t == SpecToken::Ge {
        Some(BinOp::Ge)
    } else if t == SpecToken::EqEq {
        Some(BinOp::Eq)
    } else {
        None
    }
}

/// A number followed by a token that continues no sum or product is an operand on its own.
proof fn lemma_number_operand(ts: Seq<SpecToken>, pos: nat, n: u64)
    requires
        pos < ts.len(),
        ts[pos as int] == SpecToken::Number(n),
        add_op(peek(ts, pos + 1)) is None,
        mul_op(peek(ts, pos + 1)) is None,
    ensures
        p_add(ts, pos) == Ok::<(SpecExpr, nat), Seq<char>>((SpecExpr::Int(n), 1nat)),
{
    assert(p_atom(ts, pos) == Ok::<(SpecExpr, nat), Seq<char>>((SpecExpr::Int(n), 1nat)));
    assert(p_mul_rest(ts, pos + 1, SpecExpr::Int(n)) == Ok::<(SpecExpr, nat), Seq<char>>((SpecExpr::Int(n), 0nat)));
    assert(p_mul(ts, pos) == Ok::<(SpecExpr, nat), Seq<char>>((SpecExpr::Int(n), 1nat)));
    assert(p_add_rest(ts, pos + 1, SpecExpr::Int(n)) == Ok::<(SpecExpr, nat), Seq<char>>((SpecExpr::Int(n), 0nat)));
}

/// A comparison of two numbers parses to the operator its token writes, with the numbers in
/// their order: `a < b`, `a > b`, `a <= b`, `a >= b` and `a == b` each give their own operator.
pub proof fn law_parse_comparison(a: u64, t: SpecToken, b: u64)
    requires
        written_comparison(t) is Some,
    ensures
        spec_parse(seq![SpecToken::Number(a), t, SpecToken::Number(b), SpecToken::EOF]) == Ok::<SpecExpr, Seq<char>>(
            SpecExpr::Binary {
                op: written_comparison(t)->Some_0,
                left: Box::new(SpecExpr::Int(a)),
                right: Box::new(SpecExpr::Int(b)),
            },
        ),
{
    let ts = seq![SpecToken::Number(a), t, SpecToken::Number(b), SpecToken::EOF];
    let op = written_comparison(t)->Some_0;
    let e = SpecExpr::Binary { op, left: Box::new(SpecExpr::Int(a)), right: Box::new(SpecExpr::Int(b)) };
    assert(peek(ts, 1) == t);
    assert(peek(ts, 3) == SpecToken::EOF);
    lemma_number_operand(ts, 0, a);
    lemma_number_operand(ts, 2, b);
    assert(compare_op(t) == Some(op));
    assert(p_compare_rest(ts, 3, e) == Ok::<(SpecExpr, nat), Seq<char>>((e, 0nat)));
    assert(p_compare_rest(ts, 1, SpecExpr::Int(a)) == Ok::<(SpecExpr, nat), Seq<char>>((e, 2nat)));
    assert(p_compare(ts, 0) == Ok::<(SpecExpr, nat), Seq<char>>((e, 3nat)));
    assert(p_expr(ts, 0) == Ok::<(SpecExpr, nat), Seq<char>>((e, 3nat)));
}

/// The operator an arithmetic token writes: `+` addition, `-` subtraction, `*` multiplication
/// and `/` division.
pub open spec fn written_arithmetic(t: SpecToken) -> Option<BinOp> {
    if t == SpecToken::Plus {
        Some(BinOp::Add)
    } else if t == SpecToken::Minus {
        Some(BinOp::Sub)
    } else if t == SpecToken::Star {
        Some(BinOp::Mul)
    } else if t == SpecToken::Slash {
        Some(BinOp::Div)
    } else {
        None
    }
}

/// An arithmetic operation on two numbers parses to the operator its token writes, with the
/// numbers in their order.
pub proof fn law_parse_arithmetic(a: u64, t: SpecToken, b: u64)
    requires
        written_arithmetic(t) is Some,
    ensures
        spec_parse(seq![SpecToken::Number(a), t, SpecToken::Number(b), SpecToken::EOF]) == Ok::<SpecExpr, Seq<char>>(
            SpecExpr::Binary {
                op: written_arithmetic(t)->Some_0,
                left: Box::new(SpecExpr::Int(a)),
                right: Box::new(SpecExpr::Int(b)),
            },
        ),
{
    let ts = seq![SpecToken::Number(a), t, SpecToken::Number(b), SpecToken::EOF];
    let op = written_arithmetic(t)->Some_0;
    let e = SpecExpr::Binary { op, left: Box::new(SpecExpr::Int(a)), right: Box::new(SpecExpr::Int(b)) };
    assert(peek(ts, 1) == t);
    assert(peek(ts, 3) == SpecToken::EOF);
    assert(p_atom(ts, 0) == Ok::<(SpecExpr, nat), Seq<char>>((SpecExpr::Int(a), 1nat)));
    assert(p_atom(ts, 2) == Ok::<(SpecExpr, nat), Seq<char>>((SpecExpr::Int(b), 1nat)));
    assert(p_mul_rest(ts, 3, SpecExpr::Int(b)) == Ok::<(SpecExpr, nat), Seq<char>>((SpecExpr::Int(b), 0nat)));
    assert(p_mul_rest(ts, 3, e) == Ok::<(SpecExpr, nat), Seq<char>>((e, 0nat)));
    assert(p_add_rest(ts, 3, e) == Ok::<(SpecExpr, nat), Seq<char>>((e, 0nat)));
    assert(p_compare_rest(ts, 3, e) == Ok::<(SpecExpr, nat), Seq<char>>((e, 0nat)));
    if t == SpecToken::Plus || t == SpecToken::Minus {
        assert(add_op(t) == Some(op));
        assert(p_mul_rest(ts, 1, SpecExpr::Int(a)) == Ok::<(SpecExpr, nat), Seq<char>>((SpecExpr::Int(a), 0nat)));
        assert(p_mul(ts, 0) == Ok::<(SpecExpr, nat), Seq<char>>((SpecExpr::Int(a), 1nat)));
        assert(p_mul(ts, 2) == Ok::<(SpecExpr, nat), Seq<char>>((SpecExpr::Int(b), 1nat)));
        assert(p_add_rest(ts, 1, SpecExpr::Int(a)) == Ok::<(SpecExpr, nat), Seq<char>>((e, 2nat)));
    } else {
        assert(mul_op(t) == Some(op));
        assert(p_mul_rest(ts, 1, SpecExpr::Int(a)) == Ok::<(SpecExpr, nat), Seq<char>>((e, 2nat)));
        assert(p_mul(ts, 0) == Ok::<(SpecExpr, nat), Seq<char>>((e, 3nat)));
    }
    assert(p_add(ts, 0) == Ok::<(SpecExpr, nat), Seq<char>>((e, 3nat)));
    assert(p_compare(ts, 0) == Ok::<(SpecExpr, nat), Seq<char>>((e, 3nat)));
    assert(p_expr(ts, 0) == Ok::<(SpecExpr, nat), Seq<char>>((e, 3nat)));
}

} // verus!
