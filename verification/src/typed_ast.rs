//! Syntax trees annotated with their static types.
use vstd::prelude::*;
use crate::ast::{dup_names, names_view, AccountId, BinOp, Decimal, PolicyId, SourceId, SpecPolicy};
use crate::keys::same_text;
use crate::text::text;
use crate::types::{SpecType, Type};

verus! {

#[derive(Debug, PartialEq)]
pub enum TypedExpr {
    Int { value: u64, ty: Type },
    Bool { value: bool, ty: Type },
    Function { params: Vec<String>, body: Box<TypedExpr>, ty: Type },
    Call { function: Box<TypedExpr>, args: Vec<TypedExpr>, ty: Type },
    PolicyDef {
        name: String,
        parameter: String,
        predicate: Box<TypedExpr>,
        body: Box<TypedExpr>,
        ty: Type,
    },
    Binary { op: BinOp, left: Box<TypedExpr>, right: Box<TypedExpr>, ty: Type },
    If {
        condition: Box<TypedExpr>,
        then_branch: Box<TypedExpr>,
        else_branch: Box<TypedExpr>,
        ty: Type,
    },
    Transfer { from: AccountId, to: AccountId, asset: Box<TypedExpr>, ty: Type },
    Mint { account: AccountId, amount: Box<TypedExpr>, ty: Type },
    OracleRead { feed: SourceId, ty: Type },
    Validate { oracle: Box<TypedExpr>, policy: PolicyId, ty: Type },
    ToAmount { verified: Box<TypedExpr>, ty: Type },
    UnsafeAssumeTrusted { oracle: Box<TypedExpr>, ty: Type },
    Let { name: String, value: Box<TypedExpr>, body: Box<TypedExpr>, ty: Type },
    Var { name: String, ty: Type },
    CreateLoan {
        borrower: AccountId,
        lender_pool: AccountId,
        loan_id: String,
        amount: Box<TypedExpr>,
        collateral_asset: String,
        collateral_value: Box<TypedExpr>,
        required_ratio: Decimal,
        ty: Type,
    },
    Repay {
        borrower: AccountId,
        lender_pool: AccountId,
        loan: Box<TypedExpr>,
        payment: Box<TypedExpr>,
        ty: Type,
    },
    PriceUpdate { loan: Box<TypedExpr>, new_price: Box<TypedExpr>, ty: Type },
    Liquidate { loan: Box<TypedExpr>, ty: Type },
}

/// A typed syntax tree, with names as character sequences.
pub enum SpecTyped {
    Int { value: u64, ty: SpecType },
    Bool { value: bool, ty: SpecType },
    Function { params: Seq<Seq<char>>, body: Box<SpecTyped>, ty: SpecType },
    Call { function: Box<SpecTyped>, args: Seq<SpecTyped>, ty: SpecType },
    PolicyDef {
        name: Seq<char>,
        parameter: Seq<char>,
        predicate: Box<SpecTyped>,
        body: Box<SpecTyped>,
        ty: SpecType,
    },
    Binary { op: BinOp, left: Box<SpecTyped>, right: Box<SpecTyped>, ty: SpecType },
    If {
        condition: Box<SpecTyped>,
        then_branch: Box<SpecTyped>,
        else_branch: Box<SpecTyped>,
        ty: SpecType,
    },
    Transfer { from: Seq<char>, to: Seq<char>, asset: Box<SpecTyped>, ty: SpecType },
    Mint { account: Seq<char>, amount: Box<SpecTyped>, ty: SpecType },
    OracleRead { feed: SourceId, ty: SpecType },
    Validate { oracle: Box<SpecTyped>, policy: SpecPolicy, ty: SpecType },
    ToAmount { verified: Box<SpecTyped>, ty: SpecType },
    UnsafeAssumeTrusted { oracle: Box<SpecTyped>, ty: SpecType },
    Let { name: Seq<char>, value: Box<SpecTyped>, body: Box<SpecTyped>, ty: SpecType },
    Var { name: Seq<char>, ty: SpecType },
    CreateLoan {
        borrower: Seq<char>,
        lender_pool: Seq<char>,
        loan_id: Seq<char>,
        amount: Box<SpecTyped>,
        collateral_asset: Seq<char>,
        collateral_value: Box<SpecTyped>,
        required_ratio: Decimal,
        ty: SpecType,
    },
    Repay {
        borrower: Seq<char>,
        lender_pool: Seq<char>,
        loan: Box<SpecTyped>,
        payment: Box<SpecTyped>,
        ty: SpecType,
    },
    PriceUpdate { loan: Box<SpecTyped>, new_price: Box<SpecTyped>, ty: SpecType },
    Liquidate { loan: Box<SpecTyped>, ty: SpecType },
}

pub open spec fn typed_view(e: TypedExpr) -> SpecTyped
    decreases e,
{
    match e {
        TypedExpr::Int { value, ty } => SpecTyped::Int { value: value, ty: ty@ },
        TypedExpr::Bool { value, ty } => SpecTyped::Bool { value: value, ty: ty@ },
        TypedExpr::Function { params, body, ty } => SpecTyped::Function {
            params: names_view(params@),
            body: Box::new(typed_view(*body)),
            ty: ty@,
        },
        TypedExpr::Call { function, args, ty } => SpecTyped::Call {
            function: Box::new(typed_view(*function)),
            args: typed_list_view(args@),
            ty: ty@,
        },
        TypedExpr::PolicyDef { name, parameter, predicate, body, ty } => SpecTyped::PolicyDef {
            name: name@,
            parameter: parameter@,
            predicate: Box::new(typed_view(*predicate)),
            body: Box::new(typed_view(*body)),
            ty: ty@,
        },
        TypedExpr::Binary { op, left, right, ty } => SpecTyped::Binary {
            op: op,
            left: Box::new(typed_view(*left)),
            right: Box::new(typed_view(*right)),
            ty: ty@,
        },
        TypedExpr::If { condition, then_branch, else_branch, ty } => SpecTyped::If {
            condition: Box::new(typed_view(*condition)),
            then_branch: Box::new(typed_view(*then_branch)),
            else_branch: Box::new(typed_view(*else_branch)),
            ty: ty@,
        },
        TypedExpr::Transfer { from, to, asset, ty } => SpecTyped::Transfer {
            from: from@,
            to: to@,
            asset: Box::new(typed_view(*asset)),
            ty: ty@,
        },
        TypedExpr::Mint { account, amount, ty } => SpecTyped::Mint {
            account: account@,
            amount: Box::new(typed_view(*amount)),
            ty: ty@,
        },
        TypedExpr::OracleRead { feed, ty } => SpecTyped::OracleRead { feed: feed, ty: ty@ },
        TypedExpr::Validate { oracle, policy, ty } => SpecTyped::Validate {
            oracle: Box::new(typed_view(*oracle)),
            policy: policy@,
            ty: ty@,
        },
        TypedExpr::ToAmount { verified, ty } => SpecTyped::ToAmount {
            verified: Box::new(typed_view(*verified)),
            ty: ty@,
        },
        TypedExpr::UnsafeAssumeTrusted { oracle, ty } => SpecTyped::UnsafeAssumeTrusted {
            oracle: Box::new(typed_view(*oracle)),
            ty: ty@,
        },
        TypedExpr::Let { name, value, body, ty } => SpecTyped::Let {
            name: name@,
            value: Box::new(typed_view(*value)),
            body: Box::new(typed_view(*body)),
            ty: ty@,
        },
        TypedExpr::Var { name, ty } => SpecTyped::Var { name: name@, ty: ty@ },
        TypedExpr::CreateLoan {
            borrower,
            lender_pool,
            loan_id,
            amount,
            collateral_asset,
            collateral_value,
            required_ratio,
            ty,
        } => SpecTyped::CreateLoan {
            borrower: borrower@,
            lender_pool: lender_pool@,
            loan_id: loan_id@,
            amount: Box::new(typed_view(*amount)),
            collateral_asset: collateral_asset@,
            collateral_value: Box::new(typed_view(*collateral_value)),
            required_ratio: required_ratio,
            ty: ty@,
        },
        TypedExpr::Repay { borrower, lender_pool, loan, payment, ty } => SpecTyped::Repay {
            borrower: borrower@,
            lender_pool: lender_pool@,
            loan: Box::new(typed_view(*loan)),
            payment: Box::new(typed_view(*payment)),
            ty: ty@,
        },
        TypedExpr::PriceUpdate { loan, new_price, ty } => SpecTyped::PriceUpdate {
            loan: Box::new(typed_view(*loan)),
            new_price: Box::new(typed_view(*new_price)),
            ty: ty@,
        },
        TypedExpr::Liquidate { loan, ty } => SpecTyped::Liquidate {
            loan: Box::new(typed_view(*loan)),
            ty: ty@,
        },
    }
}

impl View for TypedExpr {
    type V = SpecTyped;

    open spec fn view(&self) -> SpecTyped {
        typed_view(*self)
    }
}

/// The views of a list of typed trees.
pub open spec fn typed_list_view(s: Seq<TypedExpr>) -> Seq<SpecTyped>
    decreases s,
{
    if s.len() == 0 {
        Seq::empty()
    } else {
        seq![typed_view(s[0])] + typed_list_view(s.drop_first())
    }
}

pub proof fn lemma_typed_list_view(s: Seq<TypedExpr>)
    ensures
        typed_list_view(s).len() == s.len(),
        forall|i: int| 0 <= i < s.len() ==> #[trigger] typed_list_view(s)[i] == s[i]@,
    decreases s.len(),
{
    if s.len() > 0 {
        lemma_typed_list_view(s.drop_first());
        assert forall|i: int| 0 <= i < s.len() implies #[trigger] typed_list_view(s)[i] == s[i]@ by {
            if i > 0 {
                assert(s.drop_first()[i - 1] == s[i]);
            }
        }
    }
}

impl TypedExpr {
    /// A copy of the tree.
    pub fn copy(&self) -> (r: TypedExpr)
        ensures
            r@ == self@,
        decreases self,
    {
        match self {
            TypedExpr::Int { value, ty } => TypedExpr::Int { value: *value, ty: ty.copy() },
            TypedExpr::Bool { value, ty } => TypedExpr::Bool { value: *value, ty: ty.copy() },
            TypedExpr::Function { params, body, ty } => {
                let r = TypedExpr::Function {
                    params: dup_names(params),
                    body: Box::new(body.copy()),
                    ty: ty.copy(),
                };
                r
            },
            TypedExpr::Call { function, args, ty } => {
                let ghost sv = self@;
                proof {
                    lemma_typed_list_view(args@);
                }
                let mut out: Vec<TypedExpr> = Vec::new();
                let mut i: usize = 0;
                while i < args.len()
                    invariant
                        i <= args@.len(),
                        out@.len() == i,
                        *self == (TypedExpr::Call { function: *function, args: *args, ty: *ty }),
                        forall|j: int| 0 <= j < i ==> (#[trigger] out@[j])@ == args@[j]@,
                    decreases args@.len() - i,
                {
                    assert(self->Call_args == *args);
                    assert(decreases_to!(*self => self->Call_args));
                    assert(decreases_to!(*args => args@[i as int]));
                    out.push(args[i].copy());
                    i = i + 1;
                }
                let r = TypedExpr::Call { function: Box::new(function.copy()), args: out, ty: ty.copy() };
                proof {
                    lemma_typed_list_view(out@);
                }
                assert(r@->Call_args =~= sv->Call_args);
                r
            },
            TypedExpr::PolicyDef { name, parameter, predicate, body, ty } => TypedExpr::PolicyDef {
                name: text(name.as_str()),
                parameter: text(parameter.as_str()),
                predicate: Box::new(predicate.copy()),
                body: Box::new(body.copy()),
                ty: ty.copy(),
            },
            TypedExpr::Binary { op, left, right, ty } => TypedExpr::Binary {
                op: *op,
                left: Box::new(left.copy()),
                right: Box::new(right.copy()),
                ty: ty.copy(),
            },
            TypedExpr::If { condition, then_branch, else_branch, ty } => TypedExpr::If {
                condition: Box::new(condition.copy()),
                then_branch: Box::new(then_branch.copy()),
                else_branch: Box::new(else_branch.copy()),
                ty: ty.copy(),
            },
            TypedExpr::Transfer { from, to, asset, ty } => TypedExpr::Transfer {
                from: text(from.as_str()),
                to: text(to.as_str()),
                asset: Box::new(asset.copy()),
                ty: ty.copy(),
            },
            TypedExpr::Mint { account, amount, ty } => TypedExpr::Mint {
                account: text(account.as_str()),
                amount: Box::new(amount.copy()),
                ty: ty.copy(),
            },
            TypedExpr::OracleRead { feed, ty } => TypedExpr::OracleRead { feed: *feed, ty: ty.copy() },
            TypedExpr::Validate { oracle, policy, ty } => TypedExpr::Validate {
                oracle: Box::new(oracle.copy()),
                policy: policy.copy(),
                ty: ty.copy(),
            },
            TypedExpr::ToAmount { verified, ty } => TypedExpr::ToAmount {
                verified: Box::new(verified.copy()),
                ty: ty.copy(),
            },
            TypedExpr::UnsafeAssumeTrusted { oracle, ty } => TypedExpr::UnsafeAssumeTrusted {
                oracle: Box::new(oracle.copy()),
                ty: ty.copy(),
            },
            TypedExpr::Let { name, value, body, ty } => TypedExpr::Let {
                name: text(name.as_str()),
                value: Box::new(value.copy()),
                body: Box::new(body.copy()),
                ty: ty.copy(),
            },
            TypedExpr::Var { name, ty } => TypedExpr::Var { name: text(name.as_str()), ty: ty.copy() },
            TypedExpr::CreateLoan {
                borrower,
                lender_pool,
                loan_id,
                amount,
                collateral_asset,
                collateral_value,
                required_ratio,
                ty,
            } => TypedExpr::CreateLoan {
                borrower: text(borrower.as_str()),
                lender_pool: text(lender_pool.as_str()),
                loan_id: text(loan_id.as_str()),
                amount: Box::new(amount.copy()),
                collateral_asset: text(collateral_asset.as_str()),
                collateral_value: Box::new(collateral_value.copy()),
                required_ratio: *required_ratio,
                ty: ty.copy(),
            },
            TypedExpr::Repay { borrower, lender_pool, loan, payment, ty } => TypedExpr::Repay {
                borrower: text(borrower.as_str()),
                lender_pool: text(lender_pool.as_str()),
                loan: Box::new(loan.copy()),
                payment: Box::new(payment.copy()),
                ty: ty.copy(),
            },
            TypedExpr::PriceUpdate { loan, new_price, ty } => TypedExpr::PriceUpdate {
                loan: Box::new(loan.copy()),
                new_price: Box::new(new_price.copy()),
                ty: ty.copy(),
            },
            TypedExpr::Liquidate { loan, ty } => TypedExpr::Liquidate {
                loan: Box::new(loan.copy()),
                ty: ty.copy(),
            },
        }
    }
}


/// Whether two lists of names are the same.
pub fn names_same(a: &Vec<String>, b: &Vec<String>) -> (r: bool)
    ensures
        r == (names_view(a@) == names_view(b@)),
{
    if a.len() != b.len() {
        assert(names_view(a@).len() != names_view(b@).len());
        return false;
    }
    let mut i: usize = 0;
    while i < a.len()
        invariant
            i <= a@.len(),
            a@.len() == b@.len(),
            forall|j: int| 0 <= j < i ==> a@[j]@ == b@[j]@,
        decreases a@.len() - i,
    {
        if !same_text(a[i].as_str(), b[i].as_str()) {
            assert(names_view(a@)[i as int] != names_view(b@)[i as int]);
            return false;
        }
        i = i + 1;
    }
    assert(names_view(a@) =~= names_view(b@));
    true
}

impl TypedExpr {
    /// Whether two trees are the same.
    pub fn same(&self, other: &TypedExpr) -> (r: bool)
        ensures
            r == (self@ == other@),
        decreases self,
    {
        match (self, other) {
            (TypedExpr::Int { value: v1, ty: t1 }, TypedExpr::Int { value: v2, ty: t2 }) => *v1 == *v2 && t1.same(t2),
            (TypedExpr::Bool { value: v1, ty: t1 }, TypedExpr::Bool { value: v2, ty: t2 }) => *v1 == *v2 && t1.same(t2),
            (
                TypedExpr::Function { params: p1, body: b1, ty: t1 },
                TypedExpr::Function { params: p2, body: b2, ty: t2 },
            ) => names_same(p1, p2) && b1.same(b2) && t1.same(t2),
            (
                TypedExpr::Call { function: f1, args: a1, ty: t1 },
                TypedExpr::Call { function: f2, args: a2, ty: t2 },
            ) => {
                if !f1.same(f2) || !t1.same(t2) {
                    return false;
                }
                proof {
                    lemma_typed_list_view(a1@);
                    lemma_typed_list_view(a2@);
                }
                if a1.len() != a2.len() {
                    assert(typed_list_view(a1@).len() != typed_list_view(a2@).len());
                    return false;
                }
                let mut i: usize = 0;
                while i < a1.len()
                    invariant
                        i <= a1@.len(),
                        a1@.len() == a2@.len(),
                        *self == (TypedExpr::Call { function: *f1, args: *a1, ty: *t1 }),
                        *other == (TypedExpr::Call { function: *f2, args: *a2, ty: *t2 }),
                        f1@ == f2@,
                        t1@ == t2@,
                        typed_list_view(a1@).len() == a1@.len(),
                        typed_list_view(a2@).len() == a2@.len(),
                        forall|j: int| 0 <= j < a1@.len() ==> #[trigger] typed_list_view(a1@)[j] == a1@[j]@,
                        forall|j: int| 0 <= j < a2@.len() ==> #[trigger] typed_list_view(a2@)[j] == a2@[j]@,
                        forall|j: int| 0 <= j < i ==> a1@[j]@ == a2@[j]@,
                    decreases a1@.len() - i,
                {
                    assert(self->Call_args == *a1);
                    assert(decreases_to!(*self => self->Call_args));
                    assert(decreases_to!(*a1 => a1@[i as int]));
                    if !a1[i].same(&a2[i]) {
                        assert(typed_list_view(a1@)[i as int] != typed_list_view(a2@)[i as int]);
                        return false;
                    }
                    i = i + 1;
                }
                assert(typed_list_view(a1@) =~= typed_list_view(a2@));
                true
            },
            (
                TypedExpr::PolicyDef { name: n1, parameter: q1, predicate: p1, body: b1, ty: t1 },
                TypedExpr::PolicyDef { name: n2, parameter: q2, predicate: p2, body: b2, ty: t2 },
            ) => same_text(n1.as_str(), n2.as_str()) && same_text(q1.as_str(), q2.as_str()) && p1.same(p2)
                && b1.same(b2) && t1.same(t2),
            (
                TypedExpr::Binary { op: o1, left: l1, right: r1, ty: t1 },
                TypedExpr::Binary { op: o2, left: l2, right: r2, ty: t2 },
            ) => *o1 == *o2 && l1.same(l2) && r1.same(r2) && t1.same(t2),
            (
                TypedExpr::If { condition: c1, then_branch: a1, else_branch: e1, ty: t1 },
                TypedExpr::If { condition: c2, then_branch: a2, else_branch: e2, ty: t2 },
            ) => c1.same(c2) && a1.same(a2) && e1.same(e2) && t1.same(t2),
            (
                TypedExpr::Transfer { from: f1, to: o1, asset: a1, ty: t1 },
                TypedExpr::Transfer { from: f2, to: o2, asset: a2, ty: t2 },
            ) => same_text(f1.as_str(), f2.as_str()) && same_text(o1.as_str(), o2.as_str()) && a1.same(a2)
                && t1.same(t2),
            (
                TypedExpr::Mint { account: c1, amount: a1, ty: t1 },
                TypedExpr::Mint { account: c2, amount: a2, ty: t2 },
            ) => same_text(c1.as_str(), c2.as_str()) && a1.same(a2) && t1.same(t2),
            (TypedExpr::OracleRead { feed: f1, ty: t1 }, TypedExpr::OracleRead { feed: f2, ty: t2 }) => *f1 == *f2
                && t1.same(t2),
            (
                TypedExpr::Validate { oracle: o1, policy: p1, ty: t1 },
                TypedExpr::Validate { oracle: o2, policy: p2, ty: t2 },
            ) => o1.same(o2) && p1.same(p2) && t1.same(t2),
            (TypedExpr::ToAmount { verified: v1, ty: t1 }, TypedExpr::ToAmount { verified: v2, ty: t2 }) => v1.same(v2)
                && t1.same(t2),
            (
                TypedExpr::UnsafeAssumeTrusted { oracle: o1, ty: t1 },
                TypedExpr::UnsafeAssumeTrusted { oracle: o2, ty: t2 },
            ) => o1.same(o2) && t1.same(t2),
            (
                TypedExpr::Let { name: n1, value: v1, body: b1, ty: t1 },
                TypedExpr::Let { name: n2, value: v2, body: b2, ty: t2 },
            ) => same_text(n1.as_str(), n2.as_str()) && v1.same(v2) && b1.same(b2) && t1.same(t2),
            (TypedExpr::Var { name: n1, ty: t1 }, TypedExpr::Var { name: n2, ty: t2 }) => same_text(
                n1.as_str(),
                n2.as_str(),
            ) && t1.same(t2),
            (
                TypedExpr::CreateLoan {
                    borrower: b1,
                    lender_pool: l1,
                    loan_id: i1,
                    amount: a1,
                    collateral_asset: c1,
                    collateral_value: v1,
                    required_ratio: r1,
                    ty: t1,
                },
                TypedExpr::CreateLoan {
                    borrower: b2,
                    lender_pool: l2,
                    loan_id: i2,
                    amount: a2,
                    collateral_asset: c2,
                    collateral_value: v2,
                    required_ratio: r2,
                    ty: t2,
                },
            ) => same_text(b1.as_str(), b2.as_str()) && same_text(l1.as_str(), l2.as_str()) && same_text(
                i1.as_str(),
                i2.as_str(),
            ) && a1.same(a2) && same_text(c1.as_str(), c2.as_str()) && v1.same(v2) && *r1 == *r2 && t1.same(t2),
            (
                TypedExpr::Repay { borrower: b1, lender_pool: l1, loan: o1, payment: p1, ty: t1 },
                TypedExpr::Repay { borrower: b2, lender_pool: l2, loan: o2, payment: p2, ty: t2 },
            ) => same_text(b1.as_str(), b2.as_str()) && same_text(l1.as_str(), l2.as_str()) && o1.same(o2)
                && p1.same(p2) && t1.same(t2),
            (
                TypedExpr::PriceUpdate { loan: o1, new_price: p1, ty: t1 },
                TypedExpr::PriceUpdate { loan: o2, new_price: p2, ty: t2 },
            ) => o1.same(o2) && p1.same(p2) && t1.same(t2),
            (TypedExpr::Liquidate { loan: o1, ty: t1 }, TypedExpr::Liquidate { loan: o2, ty: t2 }) => o1.same(o2)
                && t1.same(t2),
            _ => false,
        }
    }
}

} // verus!
