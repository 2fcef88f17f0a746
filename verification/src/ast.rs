//! The syntax tree of source programs.
use vstd::prelude::*;
use crate::keys::same_text;
use crate::table::Dup;
use crate::text::text;
pub use crate::decimal::Decimal;

verus! {

#[derive(Debug, Clone, Copy, PartialEq, Eq, Hash, Structural)]
pub enum Currency {
    USD,
    EUR,
}

#[derive(Debug, Clone, Copy, PartialEq, Eq, Hash, Structural)]
pub enum SourceId {
    FeedA,
    FeedB,
}

#[derive(Debug, Clone, PartialEq, Eq, Hash)]
pub enum PolicyId {
    PriceBounds,
    Named(String),
}

/// A policy identifier, with its name as a character sequence.
pub enum SpecPolicy {
    PriceBounds,
    Named(Seq<char>),
}

impl View for PolicyId {
    type V = SpecPolicy;

    open spec fn view(&self) -> SpecPolicy {
        match self {
            PolicyId::PriceBounds => SpecPolicy::PriceBounds,
            PolicyId::Named(n) => SpecPolicy::Named(n@),
        }
    }
}

impl Dup for PolicyId {
    fn dup(&self) -> (r: Self) {
        self.copy()
    }
}

impl PolicyId {
    /// A copy of the identifier.
    pub fn copy(&self) -> (r: PolicyId)
        ensures
            r@ == self@,
    {
        match self {
            PolicyId::PriceBounds => PolicyId::PriceBounds,
            PolicyId::Named(n) => PolicyId::Named(text(n.as_str())),
        }
    }

    /// Whether two policy identifiers are the same.
    pub fn same(&self, other: &PolicyId) -> (r: bool)
        ensures
            r == (self@ == other@),
    {
        match (self, other) {
            (PolicyId::PriceBounds, PolicyId::PriceBounds) => true,
            (PolicyId::Named(a), PolicyId::Named(b)) => same_text(a.as_str(), b.as_str()),
            _ => false,
        }
    }
}

#[derive(Debug, Clone, Copy, PartialEq, Eq, Hash, Structural)]
pub enum AssetKind {
    Money(Currency),
}

pub type AccountId = String;

#[derive(Debug, Clone, Copy, PartialEq, Eq, Structural)]
pub enum BinOp {
    Add,
    Sub,
    Mul,
    Div,
    Lt,
    Gt,
    Le,
    Ge,
    Eq,
}

#[derive(Debug, PartialEq)]
pub enum Expr {
    Int(u64),
    Bool(bool),
    Function { params: Vec<String>, body: Box<Expr> },
    Call { function: Box<Expr>, args: Vec<Expr> },
    PolicyDef { name: String, parameter: String, predicate: Box<Expr>, body: Box<Expr> },
    Binary { op: BinOp, left: Box<Expr>, right: Box<Expr> },
    If { condition: Box<Expr>, then_branch: Box<Expr>, else_branch: Box<Expr> },
    Transfer { from: AccountId, to: AccountId, asset: Box<Expr> },
    Mint { account: AccountId, amount: Box<Expr> },
    OracleRead { feed: SourceId },
    Validate { oracle: Box<Expr>, policy: PolicyId },
    ToAmount { verified: Box<Expr> },
    UnsafeAssumeTrusted { oracle: Box<Expr> },
    Let { name: String, value: Box<Expr>, body: Box<Expr> },
    Var { name: String },
    CreateLoan {
        borrower: AccountId,
        lender_pool: AccountId,
        loan_id: String,
        amount: Box<Expr>,
        collateral_asset: String,
        collateral_value: Box<Expr>,
        required_ratio: Decimal,
    },
    Repay { borrower: AccountId, lender_pool: AccountId, loan: Box<Expr>, payment: Box<Expr> },
    PriceUpdate { loan: Box<Expr>, new_price: Box<Expr> },
    Liquidate { loan: Box<Expr> },
}

/// A syntax tree, with names as character sequences.
pub enum SpecExpr {
    Int(u64),
    Bool(bool),
    Function { params: Seq<Seq<char>>, body: Box<SpecExpr> },
    Call { function: Box<SpecExpr>, args: Seq<SpecExpr> },
    PolicyDef { name: Seq<char>, parameter: Seq<char>, predicate: Box<SpecExpr>, body: Box<SpecExpr> },
    Binary { op: BinOp, left: Box<SpecExpr>, right: Box<SpecExpr> },
    If { condition: Box<SpecExpr>, then_branch: Box<SpecExpr>, else_branch: Box<SpecExpr> },
    Transfer { from: Seq<char>, to: Seq<char>, asset: Box<SpecExpr> },
    Mint { account: Seq<char>, amount: Box<SpecExpr> },
    OracleRead { feed: SourceId },
    Validate { oracle: Box<SpecExpr>, policy: SpecPolicy },
    ToAmount { verified: Box<SpecExpr> },
    UnsafeAssumeTrusted { oracle: Box<SpecExpr> },
    Let { name: Seq<char>, value: Box<SpecExpr>, body: Box<SpecExpr> },
    Var { name: Seq<char> },
    CreateLoan {
        borrower: Seq<char>,
        lender_pool: Seq<char>,
        loan_id: Seq<char>,
        amount: Box<SpecExpr>,
        collateral_asset: Seq<char>,
        collateral_value: Box<SpecExpr>,
        required_ratio: Decimal,
    },
    Repay { borrower: Seq<char>, lender_pool: Seq<char>, loan: Box<SpecExpr>, payment: Box<SpecExpr> },
    PriceUpdate { loan: Box<SpecExpr>, new_price: Box<SpecExpr> },
    Liquidate { loan: Box<SpecExpr> },
}

/// The views of a list of trees.
pub open spec fn exprs_view(s: Seq<Expr>) -> Seq<SpecExpr>
    decreases s,
{
    if s.len() == 0 {
        Seq::empty()
    } else {
        seq![expr_view(s[0])] + exprs_view(s.drop_first())
    }
}

pub proof fn lemma_exprs_view(s: Seq<Expr>)
    ensures
        exprs_view(s).len() == s.len(),
        forall|i: int| 0 <= i < s.len() ==> #[trigger] exprs_view(s)[i] == s[i]@,
    decreases s.len(),
{
    if s.len() > 0 {
        lemma_exprs_view(s.drop_first());
        assert forall|i: int| 0 <= i < s.len() implies #[trigger] exprs_view(s)[i] == s[i]@ by {
            if i > 0 {
                assert(s.drop_first()[i - 1] == s[i]);
            }
        }
    }
}

/// The names of a list, as character sequences.
pub open spec fn names_view(v: Seq<String>) -> Seq<Seq<char>> {
    Seq::new(v.len(), |i: int| v[i]@)
}

pub open spec fn expr_view(e: Expr) -> SpecExpr
    decreases e,
{
    match e {
        Expr::Int(n) => SpecExpr::Int(n),
        Expr::Bool(b) => SpecExpr::Bool(b),
        Expr::Function { params, body } => SpecExpr::Function {
            params: names_view(params@),
            body: Box::new(expr_view(*body)),
        },
        Expr::Call { function, args } => SpecExpr::Call {
            function: Box::new(expr_view(*function)),
            args: exprs_view(args@),
        },
        Expr::PolicyDef { name, parameter, predicate, body } => SpecExpr::PolicyDef {
            name: name@,
            parameter: parameter@,
            predicate: Box::new(expr_view(*predicate)),
            body: Box::new(expr_view(*body)),
        },
        Expr::Binary { op, left, right } => SpecExpr::Binary {
            op: op,
            left: Box::new(expr_view(*left)),
            right: Box::new(expr_view(*right)),
        },
        Expr::If { condition, then_branch, else_branch } => SpecExpr::If {
            condition: Box::new(expr_view(*condition)),
            then_branch: Box::new(expr_view(*then_branch)),
            else_branch: Box::new(expr_view(*else_branch)),
        },
        Expr::Transfer { from, to, asset } => SpecExpr::Transfer {
            from: from@,
            to: to@,
            asset: Box::new(expr_view(*asset)),
        },
        Expr::Mint { account, amount } => SpecExpr::Mint {
            account: account@,
            amount: Box::new(expr_view(*amount)),
        },
        Expr::OracleRead { feed } => SpecExpr::OracleRead { feed: feed },
        Expr::Validate { oracle, policy } => SpecExpr::Validate {
            oracle: Box::new(expr_view(*oracle)),
            policy: policy@,
        },
        Expr::ToAmount { verified } => SpecExpr::ToAmount { verified: Box::new(expr_view(*verified)) },
        Expr::UnsafeAssumeTrusted { oracle } => SpecExpr::UnsafeAssumeTrusted {
            oracle: Box::new(expr_view(*oracle)),
        },
        Expr::Let { name, value, body } => SpecExpr::Let {
            name: name@,
            value: Box::new(expr_view(*value)),
            body: Box::new(expr_view(*body)),
        },
        Expr::Var { name } => SpecExpr::Var { name: name@ },
        Expr::CreateLoan {
            borrower,
            lender_pool,
            loan_id,
            amount,
            collateral_asset,
            collateral_value,
            required_ratio,
        } => SpecExpr::CreateLoan {
            borrower: borrower@,
            lender_pool: lender_pool@,
            loan_id: loan_id@,
            amount: Box::new(expr_view(*amount)),
            collateral_asset: collateral_asset@,
            collateral_value: Box::new(expr_view(*collateral_value)),
            required_ratio: required_ratio,
        },
        Expr::Repay { borrower, lender_pool, loan, payment } => SpecExpr::Repay {
            borrower: borrower@,
            lender_pool: lender_pool@,
            loan: Box::new(expr_view(*loan)),
            payment: Box::new(expr_view(*payment)),
        },
        Expr::PriceUpdate { loan, new_price } => SpecExpr::PriceUpdate {
            loan: Box::new(expr_view(*loan)),
            new_price: Box::new(expr_view(*new_price)),
        },
        Expr::Liquidate { loan } => SpecExpr::Liquidate { loan: Box::new(expr_view(*loan)) },
    }
}

impl View for Expr {
    type V = SpecExpr;

    open spec fn view(&self) -> SpecExpr {
        expr_view(*self)
    }
}

/// A copy of a list of names.
pub fn dup_names(v: &Vec<String>) -> (r: Vec<String>)
    ensures
        names_view(r@) == names_view(v@),
{
    let mut out: Vec<String> = Vec::new();
    let mut i: usize = 0;
    while i < v.len()
        invariant
            i <= v@.len(),
            out@.len() == i,
            forall|j: int| 0 <= j < i ==> (#[trigger] out@[j])@ == v@[j]@,
        decreases v@.len() - i,
    {
        out.push(v[i].clone());
        i = i + 1;
    }
    assert(names_view(out@) =~= names_view(v@));
    out
}

} // verus!
