//! Static types and typing environments.
use vstd::prelude::*;
use crate::ast::{AssetKind, Currency, PolicyId, SourceId, SpecPolicy};
use crate::keys::same_text;
use crate::table::{Dup, Table};
use crate::text::{push_quoted_text, push_str, quoted_text, text};

verus! {

#[derive(Debug, Clone, PartialEq, Eq)]
pub enum AmountKind {
    Plain,
    FromVerified { policy: PolicyId, source: SourceId },
}

#[derive(Debug)]
pub enum Type {
    Amount { currency: Currency, kind: AmountKind },
    LinearAsset(AssetKind),
    Account,
    Oracle(Currency, SourceId),
    Verified(Currency, PolicyId, SourceId),
    Unit,
    Bool,
    Function { params: Vec<Type>, result: Box<Type> },
    Loan { id: String },
    Debt(String, Currency),
    Collateral(String, Currency),
}

pub enum SpecAmountKind {
    Plain,
    FromVerified { policy: SpecPolicy, source: SourceId },
}

/// A type, with names as character sequences.
pub enum SpecType {
    Amount { currency: Currency, kind: SpecAmountKind },
    LinearAsset(AssetKind),
    Account,
    Oracle(Currency, SourceId),
    Verified(Currency, SpecPolicy, SourceId),
    Unit,
    Bool,
    Function { params: Seq<SpecType>, result: Box<SpecType> },
    Loan { id: Seq<char> },
    Debt(Seq<char>, Currency),
    Collateral(Seq<char>, Currency),
}

impl View for AmountKind {
    type V = SpecAmountKind;

    open spec fn view(&self) -> SpecAmountKind {
        match self {
            AmountKind::Plain => SpecAmountKind::Plain,
            AmountKind::FromVerified { policy, source } => SpecAmountKind::FromVerified {
                policy: policy@,
                source: *source,
            },
        }
    }
}

impl View for Type {
    type V = SpecType;

    open spec fn view(&self) -> SpecType
        decreases self,
    {
        match self {
            Type::Amount { currency, kind } => SpecType::Amount { currency: *currency, kind: kind@ },
            Type::LinearAsset(a) => SpecType::LinearAsset(*a),
            Type::Account => SpecType::Account,
            Type::Oracle(c, s) => SpecType::Oracle(*c, *s),
            Type::Verified(c, p, s) => SpecType::Verified(*c, p@, *s),
            Type::Unit => SpecType::Unit,
            Type::Bool => SpecType::Bool,
            Type::Function { params, result } => SpecType::Function {
                params: Seq::new(
                    params@.len(),
                    |i: int|
                        if 0 <= i < params@.len() {
                            params@[i].view()
                        } else {
                            SpecType::Unit
                        },
                ),
                result: Box::new((**result).view()),
            },
            Type::Loan { id } => SpecType::Loan { id: id@ },
            Type::Debt(i, c) => SpecType::Debt(i@, *c),
            Type::Collateral(i, c) => SpecType::Collateral(i@, *c),
        }
    }
}

/// The views of a list of types.
pub open spec fn types_view(v: Seq<Type>) -> Seq<SpecType> {
    Seq::new(v.len(), |i: int| v[i]@)
}

/// The plain USD amount type.
pub open spec fn spec_plain_usd() -> SpecType {
    SpecType::Amount { currency: Currency::USD, kind: SpecAmountKind::Plain }
}

impl Type {
    pub fn plain_usd() -> (r: Type)
        ensures
            r@ == spec_plain_usd(),
    {
        Type::Amount { currency: Currency::USD, kind: AmountKind::Plain }
    }

    /// Whether values of this type are linear resources.
    pub open spec fn spec_is_linear(t: SpecType) -> bool {
        match t {
            SpecType::Loan { .. } | SpecType::LinearAsset(_) | SpecType::Debt(..)
            | SpecType::Collateral(..) => true,
            _ => false,
        }
    }

    pub fn is_linear(&self) -> (r: bool)
        ensures
            r == Type::spec_is_linear(self@),
    {
        match self {
            Type::Loan { .. } | Type::LinearAsset(_) | Type::Debt(..) | Type::Collateral(..) => true,
            _ => false,
        }
    }

    /// Whether two types are the same.
    pub fn same(&self, other: &Type) -> (r: bool)
        ensures
            r == (self@ == other@),
        decreases self,
    {
        match (self, other) {
            (Type::Amount { currency: c1, kind: k1 }, Type::Amount { currency: c2, kind: k2 }) => {
                *c1 == *c2 && match (k1, k2) {
                    (AmountKind::Plain, AmountKind::Plain) => true,
                    (
                        AmountKind::FromVerified { policy: p1, source: s1 },
                        AmountKind::FromVerified { policy: p2, source: s2 },
                    ) => p1.same(p2) && *s1 == *s2,
                    _ => false,
                }
            },
            (Type::LinearAsset(a), Type::LinearAsset(b)) => *a == *b,
            (Type::Account, Type::Account) => true,
            (Type::Oracle(c1, s1), Type::Oracle(c2, s2)) => *c1 == *c2 && *s1 == *s2,
            (Type::Verified(c1, p1, s1), Type::Verified(c2, p2, s2)) => *c1 == *c2 && p1.same(p2) && *s1
                == *s2,
            (Type::Unit, Type::Unit) => true,
            (Type::Bool, Type::Bool) => true,
            (Type::Function { params: p1, result: r1 }, Type::Function { params: p2, result: r2 }) => {
                if p1.len() != p2.len() {
                    assert(self@->Function_params.len() != other@->Function_params.len());
                    return false;
                }
                let mut i: usize = 0;
                while i < p1.len()
                    invariant
                        i <= p1@.len(),
                        p1@.len() == p2@.len(),
                        *self == (Type::Function { params: *p1, result: *r1 }),
                        *other == (Type::Function { params: *p2, result: *r2 }),
                        forall|j: int| 0 <= j < i ==> (#[trigger] p1@[j])@ == p2@[j]@,
                    decreases p1@.len() - i,
                {
                    if !p1[i].same(&p2[i]) {
                        assert(self@->Function_params[i as int] != other@->Function_params[i as int]);
                        return false;
                    }
                    i = i + 1;
                }
                let rs = r1.same(r2);
                proof {
                    if rs {
                        assert(self@->Function_params =~= other@->Function_params);
                    }
                }
                rs
            },
            (Type::Loan { id: a }, Type::Loan { id: b }) => same_text(a.as_str(), b.as_str()),
            (Type::Debt(a, c1), Type::Debt(b, c2)) => same_text(a.as_str(), b.as_str()) && *c1 == *c2,
            (Type::Collateral(a, c1), Type::Collateral(b, c2)) => same_text(a.as_str(), b.as_str())
                && *c1 == *c2,
            _ => false,
        }
    }

    /// A copy of the type.
    pub fn copy(&self) -> (r: Type)
        ensures
            r@ == self@,
        decreases self,
    {
        match self {
            Type::Amount { currency, kind } => Type::Amount {
                currency: *currency,
                kind: match kind {
                    AmountKind::Plain => AmountKind::Plain,
                    AmountKind::FromVerified { policy, source } => AmountKind::FromVerified {
                        policy: policy.copy(),
                        source: *source,
                    },
                },
            },
            Type::LinearAsset(a) => Type::LinearAsset(*a),
            Type::Account => Type::Account,
            Type::Oracle(c, s) => Type::Oracle(*c, *s),
            Type::Verified(c, p, s) => Type::Verified(*c, p.copy(), *s),
            Type::Unit => Type::Unit,
            Type::Bool => Type::Bool,
            Type::Function { params, result } => {
                let mut ps: Vec<Type> = Vec::new();
                let mut i: usize = 0;
                while i < params.len()
                    invariant
                        i <= params@.len(),
                        ps@.len() == i,
                        *self == (Type::Function { params: *params, result: *result }),
                        forall|j: int| 0 <= j < i ==> (#[trigger] ps@[j])@ == params@[j]@,
                    decreases params@.len() - i,
                {
                    let p: &Type = &params[i];
                    assert(decreases_to!(*params => params@[i as int]));
                    assert(self->Function_params == *params);
                    assert(decreases_to!(*self => self->Function_params));
                    ps.push(p.copy());
                    i = i + 1;
                }
                let r = Type::Function { params: ps, result: Box::new(result.copy()) };
                assert(r@->Function_params =~= self@->Function_params);
                r
            },
            Type::Loan { id } => Type::Loan { id: text(id.as_str()) },
            Type::Debt(i, c) => Type::Debt(text(i.as_str()), *c),
            Type::Collateral(i, c) => Type::Collateral(text(i.as_str()), *c),
        }
    }
}

impl Dup for Type {
    fn dup(&self) -> (r: Self) {
        self.copy()
    }
}



impl Clone for Type {
    fn clone(&self) -> (r: Self)
        ensures
            r@ == self@,
    {
        self.copy()
    }
}

impl PartialEq for Type {
    fn eq(&self, other: &Type) -> (r: bool) {
        self.same(other)
    }
}

impl vstd::std_specs::cmp::PartialEqSpecImpl for Type {
    open spec fn obeys_eq_spec() -> bool {
        true
    }

    open spec fn eq_spec(&self, other: &Type) -> bool {
        self@ == other@
    }
}

// ---------------------------------------------------------------------------------------------
// Rendering types as text, in the form `{:?}` gives them.

pub open spec fn currency_text(c: Currency) -> Seq<char> {
    match c {
        Currency::USD => "USD"@,
        Currency::EUR => "EUR"@,
    }
}

pub open spec fn source_text(s: SourceId) -> Seq<char> {
    match s {
        SourceId::FeedA => "FeedA"@,
        SourceId::FeedB => "FeedB"@,
    }
}

pub open spec fn policy_text(p: SpecPolicy) -> Seq<char> {
    match p {
        SpecPolicy::PriceBounds => "PriceBounds"@,
        SpecPolicy::Named(n) => "Named("@ + quoted(n) + ")"@,
    }
}

/// A name as `{:?}` writes it: in double quotes, with quotes, backslashes and the common
/// control characters escaped.
pub open spec fn quoted(n: Seq<char>) -> Seq<char> {
    quoted_text(n)
}

pub open spec fn type_text(t: SpecType) -> Seq<char>
    decreases t,
{
    match t {
        SpecType::Amount { currency, kind } => "Amount { currency: "@ + currency_text(currency)
            + ", kind: "@ + match kind {
            SpecAmountKind::Plain => "Plain"@,
            SpecAmountKind::FromVerified { policy, source } => "FromVerified { policy: "@
                + policy_text(policy) + ", source: "@ + source_text(source) + " }"@,
        } + " }"@,
        SpecType::LinearAsset(AssetKind::Money(c)) => "LinearAsset(Money("@ + currency_text(c)
            + "))"@,
        SpecType::Account => "Account"@,
        SpecType::Oracle(c, s) => "Oracle("@ + currency_text(c) + ", "@ + source_text(s) + ")"@,
        SpecType::Verified(c, p, s) => "Verified("@ + currency_text(c) + ", "@ + policy_text(p)
            + ", "@ + source_text(s) + ")"@,
        SpecType::Unit => "Unit"@,
        SpecType::Bool => "Bool"@,
        SpecType::Function { params, result } => "Function { params: ["@ + types_text(params)
            + "], result: "@ + type_text(*result) + " }"@,
        SpecType::Loan { id } => "Loan { id: "@ + quoted(id) + " }"@,
        SpecType::Debt(i, c) => "Debt("@ + quoted(i) + ", "@ + currency_text(c) + ")"@,
        SpecType::Collateral(i, c) => "Collateral("@ + quoted(i) + ", "@ + currency_text(c)
            + ")"@,
    }
}

/// Types separated by commas.
pub open spec fn types_text(ts: Seq<SpecType>) -> Seq<char>
    decreases ts,
{
    if ts.len() == 0 {
        Seq::empty()
    } else if ts.len() == 1 {
        type_text(ts[0])
    } else {
        types_text(ts.drop_last()) + ", "@ + type_text(ts.last())
    }
}

pub fn push_currency(s: &mut String, c: Currency)
    ensures
        final(s)@ == old(s)@ + currency_text(c),
{
    match c {
        Currency::USD => push_str(s, "USD"),
        Currency::EUR => push_str(s, "EUR"),
    }
}

pub fn push_source(s: &mut String, src: SourceId)
    ensures
        final(s)@ == old(s)@ + source_text(src),
{
    match src {
        SourceId::FeedA => push_str(s, "FeedA"),
        SourceId::FeedB => push_str(s, "FeedB"),
    }
}

pub fn push_policy(s: &mut String, p: &PolicyId)
    ensures
        final(s)@ == old(s)@ + policy_text(p@),
{
    match p {
        PolicyId::PriceBounds => push_str(s, "PriceBounds"),
        PolicyId::Named(n) => {
            push_str(s, "Named(");
            push_quoted_text(s, n.as_str());
            push_str(s, ")");
            assert(final(s)@ =~= old(s)@ + policy_text(p@));
        },
    }
}

pub fn push_quoted(s: &mut String, n: &str)
    ensures
        final(s)@ == old(s)@ + quoted(n@),
{
    push_quoted_text(s, n);
}

/// Appends the texts of a list of types, separated by commas.
pub fn push_type_list(s: &mut String, params: &Vec<Type>)
    ensures
        final(s)@ == old(s)@ + types_text(types_view(params@)),
    decreases params,
{
    let ghost s1 = s@;
    let ghost ps = types_view(params@);
    let mut i: usize = 0;
    while i < params.len()
        invariant
            i <= params@.len(),
            ps == types_view(params@),
            s@ == s1 + types_text(ps.take(i as int)),
        decreases params@.len() - i,
    {
        if i > 0 {
            push_str(s, ", ");
        }
        push_type(s, &params[i]);
        proof {
            assert(ps.take(i + 1).drop_last() =~= ps.take(i as int));
            assert(ps.take(i + 1).last() == ps[i as int]);
            if i == 0 {
                assert(ps.take(0) =~= Seq::<SpecType>::empty());
            }
        }
        i = i + 1;
    }
    assert(ps.take(params@.len() as int) =~= ps);
}

#[verifier::spinoff_prover]
#[verifier::rlimit(60)]
pub fn push_type(s: &mut String, t: &Type)
    ensures
        final(s)@ == old(s)@ + type_text(t@),
    decreases t,
{
    let ghost s0 = s@;
    match t {
        Type::Amount { currency, kind } => {
            push_str(s, "Amount { currency: ");
            push_currency(s, *currency);
            push_str(s, ", kind: ");
            match kind {
                AmountKind::Plain => push_str(s, "Plain"),
                AmountKind::FromVerified { policy, source } => {
                    push_str(s, "FromVerified { policy: ");
                    push_policy(s, policy);
                    push_str(s, ", source: ");
                    push_source(s, *source);
                    push_str(s, " }");
                },
            }
            push_str(s, " }");
        },
        Type::LinearAsset(AssetKind::Money(c)) => {
            push_str(s, "LinearAsset(Money(");
            push_currency(s, *c);
            push_str(s, "))");
        },
        Type::Account => push_str(s, "Account"),
        Type::Oracle(c, src) => {
            push_str(s, "Oracle(");
            push_currency(s, *c);
            push_str(s, ", ");
            push_source(s, *src);
            push_str(s, ")");
        },
        Type::Verified(c, p, src) => {
            push_str(s, "Verified(");
            push_currency(s, *c);
            push_str(s, ", ");
            push_policy(s, p);
            push_str(s, ", ");
            push_source(s, *src);
            push_str(s, ")");
        },
        Type::Unit => push_str(s, "Unit"),
        Type::Bool => push_str(s, "Bool"),
        Type::Function { params, result } => {
            push_str(s, "Function { params: [");
            push_type_list(s, params);
            assert(t@->Function_params =~= types_view(params@));
            push_str(s, "], result: ");
            push_type(s, result);
            push_str(s, " }");
        },
        Type::Loan { id } => {
            push_str(s, "Loan { id: ");
            push_quoted(s, id.as_str());
            push_str(s, " }");
        },
        Type::Debt(i, c) => {
            push_str(s, "Debt(");
            push_quoted(s, i.as_str());
            push_str(s, ", ");
            push_currency(s, *c);
            push_str(s, ")");
        },
        Type::Collateral(i, c) => {
            push_str(s, "Collateral(");
            push_quoted(s, i.as_str());
            push_str(s, ", ");
            push_currency(s, *c);
            push_str(s, ")");
        },
    }
    assert(s@ =~= s0 + type_text(t@));
}

// ---------------------------------------------------------------------------------------------

/// The linear resources in scope, each usable once.
pub struct LinearContext {
    pub bindings: Table<Type>,
}

pub open spec fn already_defined_text(name: Seq<char>) -> Seq<char> {
    "Linear resource '"@ + name + "' already defined"@
}

pub open spec fn not_found_text(name: Seq<char>) -> Seq<char> {
    "Linear resource '"@ + name + "' not found or already consumed"@
}

impl Default for LinearContext {
    /// A context with no resources.
    fn default() -> (r: Self)
        ensures
            r.bindings@ == Map::<Seq<char>, SpecType>::empty(),
    {
        LinearContext::new()
    }
}

impl LinearContext {
    pub fn new() -> (r: Self)
        ensures
            r.bindings@ == Map::<Seq<char>, SpecType>::empty(),
    {
        LinearContext { bindings: Table::new() }
    }

    /// Adds a resource; a name may be bound once.
    pub fn insert(&mut self, name: String, ty: Type) -> (r: Result<(), String>)
        ensures
            old(self).bindings@.contains_key(name@) ==> r is Err && final(self).bindings@ == old(
                self,
            ).bindings@,
            r matches Err(m) ==> m@ == already_defined_text(name@),
            !old(self).bindings@.contains_key(name@) ==> r is Ok && final(self).bindings@ == old(
                self,
            ).bindings@.insert(name@, ty@),
    {
        if self.bindings.contains_key(name.as_str()) {
            let mut m = text("Linear resource '");
            push_str(&mut m, name.as_str());
            push_str(&mut m, "' already defined");
            assert(m@ =~= already_defined_text(name@));
            Err(m)
        } else {
            self.bindings.insert(name, ty);
            Ok(())
        }
    }

    /// Consumes a resource.
    pub fn take(&mut self, name: &str) -> (r: Result<Type, String>)
        ensures
            final(self).bindings@ == old(self).bindings@.remove(name@),
            r is Ok <==> old(self).bindings@.contains_key(name@),
            r matches Ok(t) ==> t@ == old(self).bindings@[name@],
            r matches Err(m) ==> m@ == not_found_text(name@),
    {
        match self.bindings.remove(name) {
            Some(t) => Ok(t),
            None => {
                let mut m = text("Linear resource '");
                push_str(&mut m, name);
                push_str(&mut m, "' not found or already consumed");
                assert(m@ =~= not_found_text(name@));
                Err(m)
            },
        }
    }

    pub fn copy(&self) -> (r: Self)
        ensures
            r.bindings@ == self.bindings@,
    {
        LinearContext { bindings: self.bindings.duplicate() }
    }
}

/// The typing environment: ordinary variables, linear resources and defined policies.
pub struct TypeEnv {
    pub vars: Table<Type>,
    pub linear: LinearContext,
    pub policies: Table<Type>,
}

/// A typing environment, as maps from names to types.
pub struct SpecEnv {
    pub vars: Map<Seq<char>, SpecType>,
    pub linear: Map<Seq<char>, SpecType>,
    pub policies: Map<Seq<char>, SpecType>,
}

impl View for TypeEnv {
    type V = SpecEnv;

    open spec fn view(&self) -> SpecEnv {
        SpecEnv { vars: self.vars@, linear: self.linear.bindings@, policies: self.policies@ }
    }
}

impl Default for TypeEnv {
    /// An environment with nothing bound.
    fn default() -> (r: Self)
        ensures
            r@ == (SpecEnv { vars: Map::empty(), linear: Map::empty(), policies: Map::empty() }),
    {
        TypeEnv::new()
    }
}

impl TypeEnv {
    pub fn new() -> (r: Self)
        ensures
            r@ == (SpecEnv {
                vars: Map::empty(),
                linear: Map::empty(),
                policies: Map::empty(),
            }),
    {
        TypeEnv { vars: Table::new(), linear: LinearContext::new(), policies: Table::new() }
    }

    pub fn copy(&self) -> (r: Self)
        ensures
            r@ == self@,
    {
        TypeEnv {
            vars: self.vars.duplicate(),
            linear: self.linear.copy(),
            policies: self.policies.duplicate(),
        }
    }
}

} // verus!
