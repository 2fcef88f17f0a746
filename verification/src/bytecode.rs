//! Stack bytecode for typed programs: the compiler, the stack-depth verifier, and a virtual
//! machine that runs a program against a staged copy of the ledger and commits it only when the
//! program halts.
use vstd::prelude::*;
use crate::ast::{dup_names, names_view, BinOp, Decimal, PolicyId, SourceId, SpecPolicy};
use crate::text::text;
use crate::typed_ast::{lemma_typed_list_view, typed_list_view, SpecTyped, TypedExpr};
pub use crate::digest::{
    digest_state, execution_statement, program_digest, verify_execution_statement, ExecutionStatement,
};
pub use crate::machine::{trace_root, ExecutionTrace, TraceStep, Vm, VmError, MAX_CALL_DEPTH};

verus! {

/// The bytecode format this compiler writes and this machine runs.
pub const BYTECODE_VERSION: u16 = 1;

#[derive(Debug, PartialEq)]
pub enum OpCode {
    Push(u64),
    PushBool(bool),
    Binary(BinOp),
    Select { then_ops: Vec<OpCode>, else_ops: Vec<OpCode> },
    Trap(String),
    Function { params: Vec<String>, body: Box<TypedExpr> },
    Call(usize),
    DefinePolicy { name: String, parameter: String, predicate: Box<TypedExpr> },
    CallPolicy(String),
    Load(String),
    Store(String),
    Pop,
    OracleRead(SourceId),
    Validate(PolicyId),
    ToAmount,
    UnsafeAssumeTrusted,
    Mint(String),
    Transfer(String, String),
    CreateLoan {
        borrower: String,
        lender_pool: String,
        loan_id: String,
        collateral_asset: String,
        required_ratio: Decimal,
    },
    Repay { borrower: String, lender_pool: String },
    PriceUpdate,
    Liquidate,
    Halt,
}

/// An instruction, with names as character sequences.
pub enum SpecOp {
    Push(u64),
    PushBool(bool),
    Binary(BinOp),
    Select { then_ops: Seq<SpecOp>, else_ops: Seq<SpecOp> },
    Trap(Seq<char>),
    Function { params: Seq<Seq<char>>, body: SpecTyped },
    Call(usize),
    DefinePolicy { name: Seq<char>, parameter: Seq<char>, predicate: SpecTyped },
    CallPolicy(Seq<char>),
    Load(Seq<char>),
    Store(Seq<char>),
    Pop,
    OracleRead(SourceId),
    Validate(SpecPolicy),
    ToAmount,
    UnsafeAssumeTrusted,
    Mint(Seq<char>),
    Transfer(Seq<char>, Seq<char>),
    CreateLoan {
        borrower: Seq<char>,
        lender_pool: Seq<char>,
        loan_id: Seq<char>,
        collateral_asset: Seq<char>,
        required_ratio: Decimal,
    },
    Repay { borrower: Seq<char>, lender_pool: Seq<char> },
    PriceUpdate,
    Liquidate,
    Halt,
}

pub open spec fn op_view(op: OpCode) -> SpecOp
    decreases op,
{
    match op {
        OpCode::Push(n) => SpecOp::Push(n),
        OpCode::PushBool(b) => SpecOp::PushBool(b),
        OpCode::Binary(o) => SpecOp::Binary(o),
        OpCode::Select { then_ops, else_ops } => SpecOp::Select {
            then_ops: Seq::new(
                then_ops@.len(),
                |i: int|
                    if 0 <= i < then_ops@.len() {
                        op_view(then_ops@[i])
                    } else {
                        SpecOp::Halt
                    },
            ),
            else_ops: Seq::new(
                else_ops@.len(),
                |i: int|
                    if 0 <= i < else_ops@.len() {
                        op_view(else_ops@[i])
                    } else {
                        SpecOp::Halt
                    },
            ),
        },
        OpCode::Trap(m) => SpecOp::Trap(m@),
        OpCode::Function { params, body } => SpecOp::Function { params: names_view(params@), body: (*body)@ },
        OpCode::Call(n) => SpecOp::Call(n),
        OpCode::DefinePolicy { name, parameter, predicate } => SpecOp::DefinePolicy {
            name: name@,
            parameter: parameter@,
            predicate: (*predicate)@,
        },
        OpCode::CallPolicy(n) => SpecOp::CallPolicy(n@),
        OpCode::Load(n) => SpecOp::Load(n@),
        OpCode::Store(n) => SpecOp::Store(n@),
        OpCode::Pop => SpecOp::Pop,
        OpCode::OracleRead(f) => SpecOp::OracleRead(f),
        OpCode::Validate(p) => SpecOp::Validate(p@),
        OpCode::ToAmount => SpecOp::ToAmount,
        OpCode::UnsafeAssumeTrusted => SpecOp::UnsafeAssumeTrusted,
        OpCode::Mint(a) => SpecOp::Mint(a@),
        OpCode::Transfer(a, b) => SpecOp::Transfer(a@, b@),
        OpCode::CreateLoan { borrower, lender_pool, loan_id, collateral_asset, required_ratio } => SpecOp::CreateLoan {
            borrower: borrower@,
            lender_pool: lender_pool@,
            loan_id: loan_id@,
            collateral_asset: collateral_asset@,
            required_ratio: required_ratio,
        },
        OpCode::Repay { borrower, lender_pool } => SpecOp::Repay { borrower: borrower@, lender_pool: lender_pool@ },
        OpCode::PriceUpdate => SpecOp::PriceUpdate,
        OpCode::Liquidate => SpecOp::Liquidate,
        OpCode::Halt => SpecOp::Halt,
    }
}

/// The views of a list of instructions.
pub open spec fn ops_view(s: Seq<OpCode>) -> Seq<SpecOp> {
    Seq::new(s.len(), |i: int| op_view(s[i]))
}

impl View for OpCode {
    type V = SpecOp;

    open spec fn view(&self) -> SpecOp {
        op_view(*self)
    }
}

#[derive(Debug, PartialEq)]
pub struct Bytecode {
    pub version: u16,
    pub ops: Vec<OpCode>,
}

/// A program: its format version and instructions.
pub struct SpecBytecode {
    pub version: u16,
    pub ops: Seq<SpecOp>,
}

impl View for Bytecode {
    type V = SpecBytecode;

    open spec fn view(&self) -> SpecBytecode {
        SpecBytecode { version: self.version, ops: ops_view(self.ops@) }
    }
}

#[derive(Debug, Clone, Copy, PartialEq, Eq, Structural)]
pub enum VerifyError {
    Empty,
    MissingHalt,
    StackUnderflow(usize),
    InvalidVersion(u16),
}

// ---------------------------------------------------------------------------------------------
// Compiling typed trees.

/// The instructions of one typed tree: they leave its value on the stack.
pub open spec fn spec_emit(e: SpecTyped) -> Seq<SpecOp>
    decreases e,
{
    match e {
        SpecTyped::Int { value, .. } => seq![SpecOp::Push(value)],
        SpecTyped::Bool { value, .. } => seq![SpecOp::PushBool(value)],
        SpecTyped::Binary { op, left, right, .. } => spec_emit(*left) + spec_emit(*right) + seq![
            SpecOp::Binary(op),
        ],
        SpecTyped::If { condition, then_branch, else_branch, .. } => spec_emit(*condition) + seq![
            SpecOp::Select { then_ops: spec_emit(*then_branch), else_ops: spec_emit(*else_branch) },
        ],
        SpecTyped::Function { params, body, .. } => seq![SpecOp::Function { params, body: *body }],
        SpecTyped::Call { function, args, .. } => spec_emit(*function) + spec_emit_all(args) + seq![
            SpecOp::Call(args.len() as usize),
        ],
        SpecTyped::PolicyDef { name, parameter, predicate, body, .. } => seq![
            SpecOp::DefinePolicy { name, parameter, predicate: *predicate },
        ] + spec_emit(*body),
        SpecTyped::Var { name, .. } => seq![SpecOp::Load(name)],
        SpecTyped::Let { name, value, body, .. } => spec_emit(*value) + seq![SpecOp::Store(name)] + spec_emit(
            *body,
        ),
        SpecTyped::OracleRead { feed, .. } => seq![SpecOp::OracleRead(feed)],
        SpecTyped::Validate { oracle, policy, .. } => spec_emit(*oracle) + match policy {
            SpecPolicy::PriceBounds => seq![SpecOp::Validate(policy)],
            SpecPolicy::Named(n) => seq![SpecOp::CallPolicy(n)],
        },
        SpecTyped::ToAmount { verified, .. } => spec_emit(*verified) + seq![SpecOp::ToAmount],
        SpecTyped::UnsafeAssumeTrusted { oracle, .. } => spec_emit(*oracle) + seq![SpecOp::UnsafeAssumeTrusted],
        SpecTyped::Mint { account, amount, .. } => spec_emit(*amount) + seq![SpecOp::Mint(account)],
        SpecTyped::Transfer { from, to, asset, .. } => spec_emit(*asset) + seq![SpecOp::Transfer(from, to)],
        SpecTyped::CreateLoan {
            borrower,
            lender_pool,
            loan_id,
            amount,
            collateral_asset,
            collateral_value,
            required_ratio,
            ..
        } => spec_emit(*amount) + spec_emit(*collateral_value) + seq![
            SpecOp::CreateLoan { borrower, lender_pool, loan_id, collateral_asset, required_ratio },
        ],
        SpecTyped::Repay { borrower, lender_pool, loan, payment, .. } => spec_emit(*loan) + spec_emit(*payment)
            + seq![SpecOp::Repay { borrower, lender_pool }],
        SpecTyped::PriceUpdate { loan, new_price, .. } => spec_emit(*loan) + spec_emit(*new_price) + seq![
            SpecOp::PriceUpdate,
        ],
        SpecTyped::Liquidate { loan, .. } => spec_emit(*loan) + seq![SpecOp::Liquidate],
    }
}

/// The instructions of each tree in turn.
pub open spec fn spec_emit_all(args: Seq<SpecTyped>) -> Seq<SpecOp>
    decreases args,
{
    if args.len() == 0 {
        Seq::empty()
    } else {
        spec_emit(args[0]) + spec_emit_all(args.drop_first())
    }
}

/// The program of a typed tree: its instructions, then `Halt`.
pub open spec fn spec_compile(e: SpecTyped) -> SpecBytecode {
    SpecBytecode { version: BYTECODE_VERSION, ops: spec_emit(e).push(SpecOp::Halt) }
}

fn push_op(out: &mut Vec<OpCode>, op: OpCode)
    ensures
        ops_view(final(out)@) == ops_view(old(out)@).push(op@),
{
    out.push(op);
    assert(ops_view(out@) =~= ops_view(old(out)@).push(op@));
}

fn emit(e: &TypedExpr, out: &mut Vec<OpCode>)
    ensures
        ops_view(final(out)@) == ops_view(old(out)@) + spec_emit(e@),
    decreases e,
{
    let ghost start = ops_view(out@);
    match e {
        TypedExpr::Int { value, .. } => push_op(out, OpCode::Push(*value)),
        TypedExpr::Bool { value, .. } => push_op(out, OpCode::PushBool(*value)),
        TypedExpr::Binary { op, left, right, .. } => {
            emit(left, out);
            emit(right, out);
            push_op(out, OpCode::Binary(*op));
        },
        TypedExpr::If { condition, then_branch, else_branch, .. } => {
            emit(condition, out);
            let mut t: Vec<OpCode> = Vec::new();
            let mut f: Vec<OpCode> = Vec::new();
            emit(then_branch, &mut t);
            emit(else_branch, &mut f);
            assert(ops_view(Seq::<OpCode>::empty()) =~= Seq::<SpecOp>::empty());
            let op = OpCode::Select { then_ops: t, else_ops: f };
            assert(op@ == SpecOp::Select { then_ops: spec_emit((**then_branch)@), else_ops: spec_emit((**else_branch)@) }) by {
                assert(op@->Select_then_ops =~= ops_view(t@));
                assert(op@->Select_else_ops =~= ops_view(f@));
            }
            push_op(out, op);
        },
        TypedExpr::Function { params, body, .. } => push_op(
            out,
            OpCode::Function { params: dup_names(params), body: Box::new(body.copy()) },
        ),
        TypedExpr::Call { function, args, .. } => {
            emit(function, out);
            let ghost mid = ops_view(out@);
            proof {
                lemma_typed_list_view(args@);
            }
            let ghost av = typed_list_view(args@);
            let mut i: usize = 0;
            assert(av.skip(0) =~= av);
            while i < args.len()
                invariant
                    i <= args@.len(),
                    av == typed_list_view(args@),
                    av.len() == args@.len(),
                    forall|j: int| 0 <= j < args@.len() ==> #[trigger] av[j] == args@[j]@,
                    *e == (TypedExpr::Call { function: e->Call_function, args: *args, ty: e->Call_ty }),
                    ops_view(out@) + spec_emit_all(av.skip(i as int)) == mid + spec_emit_all(av),
                decreases args@.len() - i,
            {
                assert(e->Call_args == *args);
                assert(decreases_to!(*e => e->Call_args));
                assert(decreases_to!(*args => args@[i as int]));
                let ghost before = ops_view(out@);
                emit(&args[i], out);
                assert(av.skip(i as int)[0] == av[i as int]);
                assert(av.skip(i as int).drop_first() =~= av.skip(i + 1));
                assert(spec_emit_all(av.skip(i as int)) == spec_emit(av[i as int]) + spec_emit_all(av.skip(i + 1)));
                assert(before + spec_emit_all(av.skip(i as int)) =~= ops_view(out@) + spec_emit_all(av.skip(i + 1)));
                i = i + 1;
            }
            assert(av.skip(args@.len() as int) =~= Seq::<SpecTyped>::empty());
            assert(spec_emit_all(Seq::<SpecTyped>::empty()) =~= Seq::<SpecOp>::empty());
            assert(ops_view(out@) =~= mid + spec_emit_all(av));
            push_op(out, OpCode::Call(args.len()));
        },
        TypedExpr::PolicyDef { name, parameter, predicate, body, .. } => {
            push_op(
                out,
                OpCode::DefinePolicy {
                    name: text(name.as_str()),
                    parameter: text(parameter.as_str()),
                    predicate: Box::new(predicate.copy()),
                },
            );
            emit(body, out);
        },
        TypedExpr::Var { name, .. } => push_op(out, OpCode::Load(text(name.as_str()))),
        TypedExpr::Let { name, value, body, .. } => {
            emit(value, out);
            push_op(out, OpCode::Store(text(name.as_str())));
            emit(body, out);
        },
        TypedExpr::OracleRead { feed, .. } => push_op(out, OpCode::OracleRead(*feed)),
        TypedExpr::Validate { oracle, policy, .. } => {
            emit(oracle, out);
            match policy {
                PolicyId::PriceBounds => push_op(out, OpCode::Validate(PolicyId::PriceBounds)),
                PolicyId::Named(name) => push_op(out, OpCode::CallPolicy(text(name.as_str()))),
            }
        },
        TypedExpr::ToAmount { verified, .. } => {
            emit(verified, out);
            push_op(out, OpCode::ToAmount);
        },
        TypedExpr::UnsafeAssumeTrusted { oracle, .. } => {
            emit(oracle, out);
            push_op(out, OpCode::UnsafeAssumeTrusted);
        },
        TypedExpr::Mint { account, amount, .. } => {
            emit(amount, out);
            push_op(out, OpCode::Mint(text(account.as_str())));
        },
        TypedExpr::Transfer { from, to, asset, .. } => {
            emit(asset, out);
            push_op(out, OpCode::Transfer(text(from.as_str()), text(to.as_str())));
        },
        TypedExpr::CreateLoan {
            borrower,
            lender_pool,
            loan_id,
            amount,
            collateral_asset,
            collateral_value,
            required_ratio,
            ..
        } => {
            emit(amount, out);
            emit(collateral_value, out);
            push_op(
                out,
                OpCode::CreateLoan {
                    borrower: text(borrower.as_str()),
                    lender_pool: text(lender_pool.as_str()),
                    loan_id: text(loan_id.as_str()),
                    collateral_asset: text(collateral_asset.as_str()),
                    required_ratio: *required_ratio,
                },
            );
        },
        TypedExpr::Repay { borrower, lender_pool, loan, payment, .. } => {
            emit(loan, out);
            emit(payment, out);
            push_op(out, OpCode::Repay { borrower: text(borrower.as_str()), lender_pool: text(lender_pool.as_str()) });
        },
        TypedExpr::PriceUpdate { loan, new_price, .. } => {
            emit(loan, out);
            emit(new_price, out);
            push_op(out, OpCode::PriceUpdate);
        },
        TypedExpr::Liquidate { loan, .. } => {
            emit(loan, out);
            push_op(out, OpCode::Liquidate);
        },
    }
    assert(ops_view(out@) =~= start + spec_emit(e@));
}

/// Compiles a typed tree into a program that ends with `Halt`.
pub fn compile(typed: &TypedExpr) -> (r: Bytecode)
    ensures
        r@ == spec_compile(typed@),
{
    let mut ops: Vec<OpCode> = Vec::new();
    assert(ops_view(ops@) =~= Seq::<SpecOp>::empty());
    emit(typed, &mut ops);
    push_op(&mut ops, OpCode::Halt);
    assert(ops_view(ops@) =~= spec_emit(typed@).push(SpecOp::Halt));
    Bytecode { version: BYTECODE_VERSION, ops }
}

// ---------------------------------------------------------------------------------------------
// Verifying stack depth.

/// How an instruction changes the stack depth, as the verifier counts it.
pub open spec fn op_delta(op: SpecOp) -> int {
    match op {
        SpecOp::Push(_) | SpecOp::PushBool(_) | SpecOp::Load(_) | SpecOp::OracleRead(_) => 1,
        SpecOp::Store(_) | SpecOp::Pop => -1,
        SpecOp::Binary(_) => -1,
        SpecOp::Function { .. } => 1,
        SpecOp::Call(n) => -(n as int),
        SpecOp::CreateLoan { .. } => -1,
        SpecOp::Repay { .. } | SpecOp::PriceUpdate => -1,
        _ => 0,
    }
}

/// The stack depth after the first `k` instructions.
pub open spec fn depth_after(ops: Seq<SpecOp>, k: int) -> int
    decreases k,
{
    if k <= 0 {
        0
    } else {
        depth_after(ops, k - 1) + op_delta(ops[k - 1])
    }
}

/// The counted depth drops below zero at instruction `k`.
pub open spec fn underflow_at(ops: Seq<SpecOp>, k: int) -> bool {
    depth_after(ops, k + 1) < 0
}

/// The first position at which the counted depth drops below zero, if any.
pub open spec fn first_underflow(ops: Seq<SpecOp>) -> Option<nat> {
    if exists|k: int| 0 <= k < ops.len() && #[trigger] underflow_at(ops, k) {
        Some(
            (choose|k: int|
                0 <= k < ops.len() && #[trigger] underflow_at(ops, k) && forall|j: int|
                    0 <= j < k ==> !#[trigger] underflow_at(ops, j)) as nat,
        )
    } else {
        None
    }
}

/// What the verifier says of a program: the version, a final `Halt`, and a counted depth that
/// never drops below zero.
pub open spec fn spec_verify(code: SpecBytecode) -> Result<(), VerifyError> {
    if code.version != BYTECODE_VERSION {
        Err(VerifyError::InvalidVersion(code.version))
    } else if code.ops.len() == 0 {
        Err(VerifyError::Empty)
    } else if code.ops.last() != SpecOp::Halt {
        Err(VerifyError::MissingHalt)
    } else {
        match first_underflow(code.ops) {
            Some(pc) => Err(VerifyError::StackUnderflow(pc as usize)),
            None => Ok(()),
        }
    }
}

fn delta_of(op: &OpCode) -> (d: i128)
    ensures
        d == op_delta(op@),
{
    match op {
        OpCode::Push(_) | OpCode::PushBool(_) | OpCode::Load(_) | OpCode::OracleRead(_) => 1,
        OpCode::Store(_) | OpCode::Pop => -1,
        OpCode::Binary(_) => -1,
        OpCode::Function { .. } => 1,
        OpCode::Call(n) => -(*n as i128),
        OpCode::CreateLoan { .. } => -1,
        OpCode::Repay { .. } | OpCode::PriceUpdate => -1,
        _ => 0,
    }
}

/// Checks a program's version, its final `Halt`, and its stack depth.
pub fn verify(code: &Bytecode) -> (r: Result<(), VerifyError>)
    ensures
        r == spec_verify(code@),
{
    if code.version != BYTECODE_VERSION {
        return Err(VerifyError::InvalidVersion(code.version));
    }
    if code.ops.len() == 0 {
        return Err(VerifyError::Empty);
    }
    let last_is_halt = match &code.ops[code.ops.len() - 1] {
        OpCode::Halt => true,
        _ => false,
    };
    assert(code@.ops.last() == code.ops@[code.ops@.len() - 1]@);
    if !last_is_halt {
        return Err(VerifyError::MissingHalt);
    }
    let ghost ops = code@.ops;
    let mut depth: i128 = 0;
    let mut pc: usize = 0;
    while pc < code.ops.len()
        invariant
            pc <= code.ops@.len(),
            ops == ops_view(code.ops@),
            ops.len() == code.ops@.len(),
            depth == depth_after(ops, pc as int),
            0 <= depth <= pc,
            forall|j: int| 0 <= j < pc ==> !#[trigger] underflow_at(ops, j),
            code@.version == BYTECODE_VERSION,
            code@.ops.len() > 0,
            code@.ops.last() == SpecOp::Halt,
        decreases code.ops@.len() - pc,
    {
        let d = delta_of(&code.ops[pc]);
        depth = depth + d;
        if depth < 0 {
            proof {
                assert(underflow_at(ops, pc as int));
                assert(forall|j: int| 0 <= j < pc ==> !#[trigger] underflow_at(ops, j));
                let k = choose|k: int|
                    0 <= k < ops.len() && #[trigger] underflow_at(ops, k) && forall|j: int|
                        0 <= j < k ==> !#[trigger] underflow_at(ops, j);
                assert(k == pc) by {
                    if k < pc {
                        assert(!underflow_at(ops, k));
                    }
                    if k > pc {
                        assert(!underflow_at(ops, pc as int));
                    }
                }
            }
            return Err(VerifyError::StackUnderflow(pc));
        }
        pc = pc + 1;
    }
    assert(!exists|k: int| 0 <= k < ops.len() && #[trigger] underflow_at(ops, k));
    Ok(())
}

// ---------------------------------------------------------------------------------------------
// Compiled programs pass the verifier.

/// The counted depth after all of the instructions.
pub open spec fn net_depth(ops: Seq<SpecOp>) -> int {
    depth_after(ops, ops.len() as int)
}

/// The counted depth never drops below zero along the instructions.
pub open spec fn stays_nonneg(ops: Seq<SpecOp>) -> bool {
    forall|k: int| 0 <= k <= ops.len() ==> #[trigger] depth_after(ops, k) >= 0
}

proof fn lemma_depth_prefix(a: Seq<SpecOp>, b: Seq<SpecOp>, k: int)
    requires
        0 <= k <= a.len(),
    ensures
        depth_after(a + b, k) == depth_after(a, k),
    decreases k,
{
    if k > 0 {
        lemma_depth_prefix(a, b, k - 1);
        assert((a + b)[k - 1] == a[k - 1]);
    }
}

proof fn lemma_depth_suffix(a: Seq<SpecOp>, b: Seq<SpecOp>, k: int)
    requires
        0 <= k <= b.len(),
    ensures
        depth_after(a + b, a.len() + k) == net_depth(a) + depth_after(b, k),
    decreases k,
{
    if k == 0 {
        lemma_depth_prefix(a, b, a.len() as int);
    } else {
        lemma_depth_suffix(a, b, k - 1);
        assert((a + b)[a.len() + k - 1] == b[k - 1]);
    }
}

/// Joining two runs of instructions: the second may dip as far as the first has climbed.
proof fn lemma_join(a: Seq<SpecOp>, b: Seq<SpecOp>)
    requires
        stays_nonneg(a),
        forall|k: int| 0 <= k <= b.len() ==> net_depth(a) + #[trigger] depth_after(b, k) >= 0,
    ensures
        stays_nonneg(a + b),
        net_depth(a + b) == net_depth(a) + net_depth(b),
{
    assert(depth_after(a, a.len() as int) >= 0);
    assert forall|k: int| 0 <= k <= (a + b).len() implies #[trigger] depth_after(a + b, k) >= 0 by {
        if k <= a.len() {
            lemma_depth_prefix(a, b, k);
        } else {
            lemma_depth_suffix(a, b, k - a.len());
        }
    }
    lemma_depth_suffix(a, b, b.len() as int);
}

proof fn lemma_single(op: SpecOp)
    ensures
        depth_after(seq![op], 0) == 0,
        depth_after(seq![op], 1) == op_delta(op),
        forall|k: int| 0 <= k <= 1 ==> #[trigger] depth_after(seq![op], k) == if k == 0 { 0 } else { op_delta(op) },
{
    assert(depth_after(seq![op], 1) == depth_after(seq![op], 0) + op_delta(seq![op][0]));
}

proof fn lemma_then_op(a: Seq<SpecOp>, op: SpecOp)
    requires
        stays_nonneg(a),
        net_depth(a) + op_delta(op) >= 0,
    ensures
        stays_nonneg(a + seq![op]),
        net_depth(a + seq![op]) == net_depth(a) + op_delta(op),
{
    lemma_single(op);
    lemma_join(a, seq![op]);
}

proof fn lemma_op_then(op: SpecOp, b: Seq<SpecOp>)
    requires
        op_delta(op) >= 0,
        stays_nonneg(b),
    ensures
        stays_nonneg(seq![op] + b),
        net_depth(seq![op] + b) == op_delta(op) + net_depth(b),
{
    lemma_single(op);
    assert(stays_nonneg(seq![op]));
    lemma_join(seq![op], b);
}

proof fn lemma_one(op: SpecOp)
    requires
        op_delta(op) == 1,
    ensures
        stays_nonneg(seq![op]),
        net_depth(seq![op]) == 1,
{
    lemma_single(op);
}

proof fn lemma_pair(a: Seq<SpecOp>, b: Seq<SpecOp>)
    requires
        stays_nonneg(a),
        stays_nonneg(b),
    ensures
        stays_nonneg(a + b),
        net_depth(a + b) == net_depth(a) + net_depth(b),
{
    lemma_join(a, b);
}

/// The instructions of a tree never dip below the depth they start from, and leave at least
/// one value.
proof fn lemma_emit_depth(e: SpecTyped)
    ensures
        stays_nonneg(spec_emit(e)),
        net_depth(spec_emit(e)) >= 1,
    decreases e,
{
    match e {
        SpecTyped::Int { value, .. } => lemma_one(SpecOp::Push(value)),
        SpecTyped::Bool { value, .. } => lemma_one(SpecOp::PushBool(value)),
        SpecTyped::Binary { op, left, right, .. } => {
            lemma_emit_depth(*left);
            lemma_emit_depth(*right);
            lemma_pair(spec_emit(*left), spec_emit(*right));
            lemma_then_op(spec_emit(*left) + spec_emit(*right), SpecOp::Binary(op));
        },
        SpecTyped::If { condition, then_branch, else_branch, .. } => {
            lemma_emit_depth(*condition);
            lemma_then_op(
                spec_emit(*condition),
                SpecOp::Select { then_ops: spec_emit(*then_branch), else_ops: spec_emit(*else_branch) },
            );
        },
        SpecTyped::Function { params, body, .. } => lemma_one(SpecOp::Function { params, body: *body }),
        SpecTyped::Call { function, args, .. } => {
            lemma_emit_depth(*function);
            lemma_emit_all_depth(args);
            lemma_pair(spec_emit(*function), spec_emit_all(args));
            let n = args.len() as usize;
            assert(n <= args.len());
            lemma_then_op(spec_emit(*function) + spec_emit_all(args), SpecOp::Call(n));
        },
        SpecTyped::PolicyDef { name, parameter, predicate, body, .. } => {
            lemma_emit_depth(*body);
            lemma_op_then(SpecOp::DefinePolicy { name, parameter, predicate: *predicate }, spec_emit(*body));
        },
        SpecTyped::Var { name, .. } => lemma_one(SpecOp::Load(name)),
        SpecTyped::Let { name, value, body, .. } => {
            lemma_emit_depth(*value);
            lemma_emit_depth(*body);
            lemma_then_op(spec_emit(*value), SpecOp::Store(name));
            lemma_pair(spec_emit(*value) + seq![SpecOp::Store(name)], spec_emit(*body));
        },
        SpecTyped::OracleRead { feed, .. } => lemma_one(SpecOp::OracleRead(feed)),
        SpecTyped::Validate { oracle, policy, .. } => {
            lemma_emit_depth(*oracle);
            match policy {
                SpecPolicy::PriceBounds => lemma_then_op(spec_emit(*oracle), SpecOp::Validate(policy)),
                SpecPolicy::Named(n) => lemma_then_op(spec_emit(*oracle), SpecOp::CallPolicy(n)),
            }
        },
        SpecTyped::ToAmount { verified, .. } => {
            lemma_emit_depth(*verified);
            lemma_then_op(spec_emit(*verified), SpecOp::ToAmount);
        },
        SpecTyped::UnsafeAssumeTrusted { oracle, .. } => {
            lemma_emit_depth(*oracle);
            lemma_then_op(spec_emit(*oracle), SpecOp::UnsafeAssumeTrusted);
        },
        SpecTyped::Mint { account, amount, .. } => {
            lemma_emit_depth(*amount);
            lemma_then_op(spec_emit(*amount), SpecOp::Mint(account));
        },
        SpecTyped::Transfer { from, to, asset, .. } => {
            lemma_emit_depth(*asset);
            lemma_then_op(spec_emit(*asset), SpecOp::Transfer(from, to));
        },
        SpecTyped::CreateLoan {
            borrower,
            lender_pool,
            loan_id,
            amount,
            collateral_asset,
            collateral_value,
            required_ratio,
            ..
        } => {
            lemma_emit_depth(*amount);
            lemma_emit_depth(*collateral_value);
            lemma_pair(spec_emit(*amount), spec_emit(*collateral_value));
            lemma_then_op(
                spec_emit(*amount) + spec_emit(*collateral_value),
                SpecOp::CreateLoan { borrower, lender_pool, loan_id, collateral_asset, required_ratio },
            );
        },
        SpecTyped::Repay { borrower, lender_pool, loan, payment, .. } => {
            lemma_emit_depth(*loan);
            lemma_emit_depth(*payment);
            lemma_pair(spec_emit(*loan), spec_emit(*payment));
            lemma_then_op(spec_emit(*loan) + spec_emit(*payment), SpecOp::Repay { borrower, lender_pool });
        },
        SpecTyped::PriceUpdate { loan, new_price, .. } => {
            lemma_emit_depth(*loan);
            lemma_emit_depth(*new_price);
            lemma_pair(spec_emit(*loan), spec_emit(*new_price));
            lemma_then_op(spec_emit(*loan) + spec_emit(*new_price), SpecOp::PriceUpdate);
        },
        SpecTyped::Liquidate { loan, .. } => {
            lemma_emit_depth(*loan);
            lemma_then_op(spec_emit(*loan), SpecOp::Liquidate);
        },
    }
}

/// The instructions of a list of trees leave at least one value per tree.
proof fn lemma_emit_all_depth(args: Seq<SpecTyped>)
    ensures
        stays_nonneg(spec_emit_all(args)),
        net_depth(spec_emit_all(args)) >= args.len(),
    decreases args,
{
    if args.len() == 0 {
        assert(depth_after(spec_emit_all(args), 0) == 0);
    } else {
        assert(decreases_to!(args => args[0]));
        lemma_emit_depth(args[0]);
        lemma_emit_all_depth(args.drop_first());
        lemma_pair(spec_emit(args[0]), spec_emit_all(args.drop_first()));
    }
}

/// Every program that `compile` makes of a typed tree passes the verifier.
pub proof fn law_compiled_programs_verify(e: SpecTyped)
    ensures
        spec_verify(spec_compile(e)) == Ok::<(), VerifyError>(()),
{
    let ops = spec_emit(e).push(SpecOp::Halt);
    lemma_emit_depth(e);
    lemma_then_op(spec_emit(e), SpecOp::Halt);
    assert(spec_emit(e) + seq![SpecOp::Halt] =~= ops);
    assert forall|k: int| 0 <= k < ops.len() implies !#[trigger] underflow_at(ops, k) by {
        assert(depth_after(ops, k + 1) >= 0);
    }
    assert(first_underflow(ops) is None);
}


impl OpCode {
    /// A copy of the instruction.
    pub fn copy(&self) -> (r: OpCode)
        ensures
            r@ == self@,
        decreases self,
    {
        match self {
            OpCode::Push(n) => OpCode::Push(*n),
            OpCode::PushBool(b) => OpCode::PushBool(*b),
            OpCode::Binary(o) => OpCode::Binary(*o),
            OpCode::Select { then_ops, else_ops } => {
                let t = copy_ops(then_ops, self);
                let f = copy_ops(else_ops, self);
                assert(ops_view(t@).len() == ops_view(then_ops@).len());
                assert(ops_view(f@).len() == ops_view(else_ops@).len());
                assert forall|i: int| 0 <= i < t@.len() implies op_view(#[trigger] t@[i]) == op_view(then_ops@[i]) by {
                    assert(ops_view(t@)[i] == ops_view(then_ops@)[i]);
                }
                assert forall|i: int| 0 <= i < f@.len() implies op_view(#[trigger] f@[i]) == op_view(else_ops@[i]) by {
                    assert(ops_view(f@)[i] == ops_view(else_ops@)[i]);
                }
                let r = OpCode::Select { then_ops: t, else_ops: f };
                assert(r@->Select_then_ops =~= self@->Select_then_ops);
                assert(r@->Select_else_ops =~= self@->Select_else_ops);
                r
            },
            OpCode::Trap(m) => OpCode::Trap(text(m.as_str())),
            OpCode::Function { params, body } => OpCode::Function {
                params: dup_names(params),
                body: Box::new(body.copy()),
            },
            OpCode::Call(n) => OpCode::Call(*n),
            OpCode::DefinePolicy { name, parameter, predicate } => OpCode::DefinePolicy {
                name: text(name.as_str()),
                parameter: text(parameter.as_str()),
                predicate: Box::new(predicate.copy()),
            },
            OpCode::CallPolicy(n) => OpCode::CallPolicy(text(n.as_str())),
            OpCode::Load(n) => OpCode::Load(text(n.as_str())),
            OpCode::Store(n) => OpCode::Store(text(n.as_str())),
            OpCode::Pop => OpCode::Pop,
            OpCode::OracleRead(f) => OpCode::OracleRead(*f),
            OpCode::Validate(p) => OpCode::Validate(p.copy()),
            OpCode::ToAmount => OpCode::ToAmount,
            OpCode::UnsafeAssumeTrusted => OpCode::UnsafeAssumeTrusted,
            OpCode::Mint(a) => OpCode::Mint(text(a.as_str())),
            OpCode::Transfer(a, b) => OpCode::Transfer(text(a.as_str()), text(b.as_str())),
            OpCode::CreateLoan { borrower, lender_pool, loan_id, collateral_asset, required_ratio } => OpCode::CreateLoan {
                borrower: text(borrower.as_str()),
                lender_pool: text(lender_pool.as_str()),
                loan_id: text(loan_id.as_str()),
                collateral_asset: text(collateral_asset.as_str()),
                required_ratio: *required_ratio,
            },
            OpCode::Repay { borrower, lender_pool } => OpCode::Repay {
                borrower: text(borrower.as_str()),
                lender_pool: text(lender_pool.as_str()),
            },
            OpCode::PriceUpdate => OpCode::PriceUpdate,
            OpCode::Liquidate => OpCode::Liquidate,
            OpCode::Halt => OpCode::Halt,
        }
    }
}

/// A copy of a list of instructions nested in `parent`.
fn copy_ops(ops: &Vec<OpCode>, parent: &OpCode) -> (r: Vec<OpCode>)
    requires
        parent is Select,
        parent->Select_then_ops == *ops || parent->Select_else_ops == *ops,
    ensures
        ops_view(r@) == ops_view(ops@),
    decreases parent, 0nat,
{
    let mut out: Vec<OpCode> = Vec::new();
    let mut i: usize = 0;
    while i < ops.len()
        invariant
            i <= ops@.len(),
            out@.len() == i,
            parent is Select,
            parent->Select_then_ops == *ops || parent->Select_else_ops == *ops,
            forall|j: int| 0 <= j < i ==> (#[trigger] out@[j])@ == ops@[j]@,
        decreases ops@.len() - i,
    {
        assert(decreases_to!(*parent => parent->Select_then_ops));
        assert(decreases_to!(*parent => parent->Select_else_ops));
        assert(decreases_to!(*ops => ops@[i as int]));
        out.push(ops[i].copy());
        i = i + 1;
    }
    assert(ops_view(out@) =~= ops_view(ops@));
    out
}

} // verus!
