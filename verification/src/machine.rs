//! The virtual machine that runs bytecode against a staged copy of the ledger.
use vstd::prelude::*;
use crate::abstract_interpreter::{
    create_loan, liquidate, mint, price_update, repay, spec_create_loan, spec_liquidate, spec_mint,
    spec_price_update, spec_repay, spec_transfer, transfer_asset,
};
use crate::ast::{dup_names, names_view, BinOp, PolicyId, SourceId, SpecPolicy};
use crate::bytecode::{
    compile, op_view, ops_view, spec_compile, spec_verify, verify, Bytecode, OpCode, SpecBytecode, SpecOp, VerifyError,
};
use crate::digest::{digest_state, spec_digest};
use crate::interpreter::{binary, binary_value, comparison_holds, is_comparison_op, SpecValue, Value};
use crate::state::{unit_view, FinancialState, SpecState};
use crate::table::Table;
use crate::text::{nat_text, push_char, push_nat, push_quoted_text, push_str, quoted_text, text};
use crate::typed_ast::{SpecTyped, TypedExpr};

verus! {

/// How deeply calls and policy checks may nest. Bytecode is run unchecked, so a function value
/// handed to itself as an argument can call itself without end; the bound makes every run
/// finish. It lies far beyond the depth at which a thread's stack is spent by nested machines,
/// so a program stopped by it could not have finished on any machine anyway.
pub const MAX_CALL_DEPTH: usize = 1000000;

/// One executed instruction, with the ledger digests before and after it.
#[derive(Debug, PartialEq)]
pub struct TraceStep {
    pub step: usize,
    pub pc: usize,
    pub opcode: OpCode,
    pub pre_digest: u64,
    pub post_digest: u64,
}

pub struct SpecStep {
    pub step: usize,
    pub pc: usize,
    pub opcode: SpecOp,
    pub pre_digest: u64,
    pub post_digest: u64,
}

impl View for TraceStep {
    type V = SpecStep;

    open spec fn view(&self) -> SpecStep {
        SpecStep {
            step: self.step,
            pc: self.pc,
            opcode: self.opcode@,
            pre_digest: self.pre_digest,
            post_digest: self.post_digest,
        }
    }
}

/// The steps a machine has executed, and the root over them once it has halted.
#[derive(Debug, PartialEq)]
pub struct ExecutionTrace {
    pub steps: Vec<TraceStep>,
    pub root: u64,
}

pub struct SpecTrace {
    pub steps: Seq<SpecStep>,
    pub root: u64,
}

pub open spec fn steps_view(s: Seq<TraceStep>) -> Seq<SpecStep> {
    Seq::new(s.len(), |i: int| s[i]@)
}

impl View for ExecutionTrace {
    type V = SpecTrace;

    open spec fn view(&self) -> SpecTrace {
        SpecTrace { steps: steps_view(self.steps@), root: self.root }
    }
}

/// Rotation of a 64-bit word left by five bits.
pub open spec fn rotl5(h: u64) -> u64 {
    (h << 5u64) | (h >> 59u64)
}

/// The root of a trace: each step folded into the running value.
pub open spec fn spec_root(steps: Seq<SpecStep>) -> u64
    decreases steps.len(),
{
    if steps.len() == 0 {
        0xcbf29ce484222325
    } else {
        let h = spec_root(steps.drop_last());
        let s = steps.last();
        rotl5(h) ^ s.pre_digest.wrapping_mul(31) ^ s.post_digest
    }
}

/// The root of a trace's steps.
pub fn trace_root(steps: &[TraceStep]) -> (r: u64)
    ensures
        r == spec_root(steps_view(steps@)),
{
    let mut h: u64 = 0xcbf29ce484222325;
    let mut i: usize = 0;
    while i < steps.len()
        invariant
            i <= steps@.len(),
            h == spec_root(steps_view(steps@).take(i as int)),
        decreases steps@.len() - i,
    {
        assert(steps_view(steps@).take(i + 1).drop_last() =~= steps_view(steps@).take(i as int));
        h = ((h << 5u64) | (h >> 59u64)) ^ steps[i].pre_digest.wrapping_mul(31) ^ steps[i].post_digest;
        i = i + 1;
    }
    assert(steps_view(steps@).take(steps@.len() as int) =~= steps_view(steps@));
    h
}

/// Why a machine stopped.
#[derive(Debug, PartialEq)]
pub enum VmError {
    Verification(VerifyError),
    Runtime { pc: usize, message: String },
    StackUnderflow(usize),
    InvalidValue(usize),
}

pub enum SpecVmError {
    Verification(VerifyError),
    Runtime { pc: usize, message: Seq<char> },
    StackUnderflow(usize),
    InvalidValue(usize),
}

impl View for VmError {
    type V = SpecVmError;

    open spec fn view(&self) -> SpecVmError {
        match self {
            VmError::Verification(e) => SpecVmError::Verification(*e),
            VmError::Runtime { pc, message } => SpecVmError::Runtime { pc: *pc, message: message@ },
            VmError::StackUnderflow(n) => SpecVmError::StackUnderflow(*n),
            VmError::InvalidValue(n) => SpecVmError::InvalidValue(*n),
        }
    }
}

/// The debug text of a verifier error.
pub open spec fn verify_error_text(e: VerifyError) -> Seq<char> {
    match e {
        VerifyError::Empty => "Empty"@,
        VerifyError::MissingHalt => "MissingHalt"@,
        VerifyError::StackUnderflow(n) => "StackUnderflow("@ + nat_text(n as nat) + ")"@,
        VerifyError::InvalidVersion(v) => "InvalidVersion("@ + nat_text(v as nat) + ")"@,
    }
}

/// How a machine error is reported: `VM execution failed: ` and its debug text.
pub open spec fn vm_error_text(e: SpecVmError) -> Seq<char> {
    "VM execution failed: "@ + match e {
        SpecVmError::Verification(v) => "Verification("@ + verify_error_text(v) + ")"@,
        SpecVmError::Runtime { pc, message } => "Runtime { pc: "@ + nat_text(pc as nat) + ", message: "@
            + quoted_text(message) + " }"@,
        SpecVmError::StackUnderflow(n) => "StackUnderflow("@ + nat_text(n as nat) + ")"@,
        SpecVmError::InvalidValue(n) => "InvalidValue("@ + nat_text(n as nat) + ")"@,
    }
}

fn push_verify_error(s: &mut String, e: VerifyError)
    ensures
        final(s)@ == old(s)@ + verify_error_text(e),
{
    match e {
        VerifyError::Empty => push_str(s, "Empty"),
        VerifyError::MissingHalt => push_str(s, "MissingHalt"),
        VerifyError::StackUnderflow(n) => {
            push_str(s, "StackUnderflow(");
            push_nat(s, n as u64);
            push_str(s, ")");
        },
        VerifyError::InvalidVersion(v) => {
            push_str(s, "InvalidVersion(");
            push_nat(s, v as u64);
            push_str(s, ")");
        },
    }
    assert(s@ =~= old(s)@ + verify_error_text(e));
}

impl VerifyError {
    /// The report of a verifier error: `bytecode verification failed: ` and its debug text.
    pub fn to_text(&self) -> (r: String)
        ensures
            r@ == "bytecode verification failed: "@ + verify_error_text(*self),
    {
        let mut s = text("bytecode verification failed: ");
        push_verify_error(&mut s, *self);
        s
    }
}

impl VmError {
    /// The report of a machine error.
    pub fn to_text(&self) -> (r: String)
        ensures
            r@ == vm_error_text(self@),
    {
        let mut s = text("VM execution failed: ");
        match self {
            VmError::Verification(v) => {
                push_str(&mut s, "Verification(");
                push_verify_error(&mut s, *v);
                push_str(&mut s, ")");
            },
            VmError::Runtime { pc, message } => {
                push_str(&mut s, "Runtime { pc: ");
                push_nat(&mut s, *pc as u64);
                push_str(&mut s, ", message: ");
                push_quoted_text(&mut s, message.as_str());
                push_str(&mut s, " }");
            },
            VmError::StackUnderflow(n) => {
                push_str(&mut s, "StackUnderflow(");
                push_nat(&mut s, *n as u64);
                push_str(&mut s, ")");
            },
            VmError::InvalidValue(n) => {
                push_str(&mut s, "InvalidValue(");
                push_nat(&mut s, *n as u64);
                push_str(&mut s, ")");
            },
        }
        assert(s@ =~= vm_error_text(self@));
        s
    }
}

/// A defined policy: its parameter and predicate.
pub struct PolicyEntry {
    pub parameter: String,
    pub predicate: TypedExpr,
}

impl View for PolicyEntry {
    type V = (Seq<char>, SpecTyped);

    open spec fn view(&self) -> (Seq<char>, SpecTyped) {
        (self.parameter@, self.predicate@)
    }
}

/// A virtual machine: variables, oracle queues, policies, how deeply it is nested in calls, and
/// the trace of what it has executed.
pub struct Vm {
    vars: Table<Value>,
    feed_a: Vec<u64>,
    feed_b: Vec<u64>,
    policies: Table<PolicyEntry>,
    depth: usize,
    pub trace: ExecutionTrace,
}

pub struct SpecVm {
    pub vars: Map<Seq<char>, SpecValue>,
    pub feed_a: Seq<u64>,
    pub feed_b: Seq<u64>,
    pub policies: Map<Seq<char>, (Seq<char>, SpecTyped)>,
    pub trace: SpecTrace,
}

impl View for Vm {
    type V = SpecVm;

    closed spec fn view(&self) -> SpecVm {
        SpecVm {
            vars: self.vars@,
            feed_a: self.feed_a@,
            feed_b: self.feed_b@,
            policies: self.policies@,
            trace: self.trace@,
        }
    }
}

impl Vm {
    /// How deeply the machine is nested in calls and policy checks.
    pub closed spec fn depth(&self) -> nat {
        self.depth as nat
    }
}

// ---------------------------------------------------------------------------------------------
// The machine's semantics.

/// How many more levels of nesting a machine at this depth allows.
pub open spec fn depth_left(depth: nat) -> nat {
    if depth < MAX_CALL_DEPTH {
        (MAX_CALL_DEPTH - depth) as nat
    } else {
        0
    }
}

/// A machine with nothing in it.
pub open spec fn empty_vm() -> SpecVm {
    SpecVm {
        vars: Map::empty(),
        feed_a: Seq::empty(),
        feed_b: Seq::empty(),
        policies: Map::empty(),
        trace: SpecTrace { steps: Seq::empty(), root: 0 },
    }
}

/// The size of an instruction, counting nested instructions.
pub open spec fn op_size(op: SpecOp) -> nat
    decreases op,
{
    match op {
        SpecOp::Select { then_ops, else_ops } => 1 + ops_size(then_ops) + ops_size(else_ops),
        _ => 1,
    }
}

/// The size of a list of instructions.
pub open spec fn ops_size(ops: Seq<SpecOp>) -> nat
    decreases ops,
{
    if ops.len() == 0 {
        0
    } else {
        1 + op_size(ops[0]) + ops_size(ops.drop_first())
    }
}

/// Binds each parameter to the argument at its position; a later parameter of the same name
/// wins.
pub open spec fn bind_args(params: Seq<Seq<char>>, args: Seq<SpecValue>) -> Map<Seq<char>, SpecValue>
    decreases params.len(),
{
    if params.len() == 0 || args.len() == 0 {
        Map::empty()
    } else {
        bind_args(params.drop_last(), args.drop_last()).insert(params.last(), args.last())
    }
}

/// The message for a value of the wrong kind.
pub open spec fn expected_text(what: Seq<char>, pc: nat) -> Seq<char> {
    "expected "@ + what + " at "@ + nat_text(pc)
}

/// Pops a number: the number or a message, and the stack after the pop.
pub open spec fn pop_num(stack: Seq<SpecValue>, pc: nat) -> (Result<u64, Seq<char>>, Seq<SpecValue>) {
    if stack.len() > 0 && stack.last() is U64 {
        (Ok(stack.last()->U64_0), stack.drop_last())
    } else if stack.len() > 0 {
        (Err(expected_text("numeric stack value"@, pc)), stack.drop_last())
    } else {
        (Err(expected_text("numeric stack value"@, pc)), stack)
    }
}

/// Pops a loan: its name or a message, and the stack after the pop.
pub open spec fn pop_loan(stack: Seq<SpecValue>, pc: nat) -> (Result<Seq<char>, Seq<char>>, Seq<SpecValue>) {
    if stack.len() > 0 && stack.last() is Loan {
        (Ok(stack.last()->Loan_0), stack.drop_last())
    } else if stack.len() > 0 {
        (Err(expected_text("loan"@, pc)), stack.drop_last())
    } else {
        (Err(expected_text("loan"@, pc)), stack)
    }
}

/// The stack without its top, if it has one.
pub open spec fn pop_any(stack: Seq<SpecValue>) -> Seq<SpecValue> {
    if stack.len() > 0 {
        stack.drop_last()
    } else {
        stack
    }
}

/// The outcome of one instruction: its value or a message, the machine, the stack and the
/// staged ledger after it.
pub type StepOutcome = (Result<SpecValue, Seq<char>>, SpecVm, Seq<SpecValue>, SpecState);

/// The outcome of running a whole program.
pub type RunOutcome = (Result<SpecValue, SpecVmError>, SpecVm, SpecState);

/// The name of a feed, as its debug text writes it.
pub open spec fn feed_text(f: SourceId) -> Seq<char> {
    match f {
        SourceId::FeedA => "FeedA"@,
        SourceId::FeedB => "FeedB"@,
    }
}

/// What a ledger operation gives back: its message, or `Unit` with the stack as left.
pub open spec fn ledger_outcome(
    r: Result<(), Seq<char>>,
    vm: SpecVm,
    stack: Seq<SpecValue>,
    st: SpecState,
    value: SpecValue,
    push: bool,
) -> StepOutcome {
    match r {
        Err(m) => (Err(m), vm, stack, st),
        Ok(()) => (Ok(value), vm, if push { stack.push(value) } else { stack }, st),
    }
}


/// Checking a value against a defined policy in a nested machine.
pub open spec fn spec_call_policy(name: Seq<char>, depth: nat, vm: SpecVm, stack: Seq<SpecValue>, st: SpecState) -> StepOutcome
    decreases depth_left(depth), 0int, 0int,
{
    let pc = vm.trace.steps.len();
    let (n, s1) = pop_num(stack, pc);
    match n {
        Err(m) => (Err(m), vm, s1, st),
        Ok(value) => if !vm.policies.contains_key(name) {
            (Err("policy '"@ + name + "' is not defined"@), vm, s1, st)
        } else if depth >= MAX_CALL_DEPTH {
            (Err("call depth limit exceeded"@), vm, s1, st)
        } else {
            let (parameter, predicate) = vm.policies[name];
            let child = SpecVm { vars: Map::empty().insert(parameter, SpecValue::U64(value)), ..empty_vm() };
            let (r, _, st1) = spec_execute(child, depth + 1, spec_compile(predicate), st);
            match r {
                Err(e) => (Err(vm_error_text(e)), vm, s1, st1),
                Ok(SpecValue::Bool(true)) => (
                    Ok(SpecValue::U64(value)),
                    vm,
                    s1.push(SpecValue::U64(value)),
                    st1,
                ),
                Ok(SpecValue::Bool(false)) => (
                    Err("policy '"@ + name + "' rejected value "@ + nat_text(value as nat)),
                    vm,
                    s1,
                    st1,
                ),
                Ok(_) => (Err("policy predicate must return Bool"@), vm, s1, st1),
            }
        },
    }
}

/// Calling a function value in a nested machine.
pub open spec fn spec_call(count: usize, depth: nat, vm: SpecVm, stack: Seq<SpecValue>, st: SpecState) -> StepOutcome
    decreases depth_left(depth), 0int, 0int,
{
    if stack.len() < count {
        (Err("call argument stack underflow"@), vm, Seq::empty(), st)
    } else {
        let args = stack.skip(stack.len() - count);
        let s1 = stack.take(stack.len() - count);
        if s1.len() == 0 {
            (Err("call target missing"@), vm, s1, st)
        } else {
            let s2 = s1.drop_last();
            match s1.last() {
                SpecValue::Function { params, body } => if params.len() != args.len() {
                    (Err("function argument count mismatch"@), vm, s2, st)
                } else if depth >= MAX_CALL_DEPTH {
                    (Err("call depth limit exceeded"@), vm, s2, st)
                } else {
                    let child = SpecVm { vars: bind_args(params, args), ..empty_vm() };
                    let (r, _, st1) = spec_execute(child, depth + 1, spec_compile(body), st);
                    match r {
                        Err(e) => (Err(vm_error_text(e)), vm, s2, st1),
                        Ok(v) => (Ok(v), vm, s2.push(v), st1),
                    }
                },
                _ => (Err("call target is not a function"@), vm, s2, st),
            }
        }
    }
}

/// One instruction.
pub open spec fn spec_step(op: SpecOp, depth: nat, vm: SpecVm, stack: Seq<SpecValue>, st: SpecState) -> StepOutcome
    decreases depth_left(depth), 0int, op_size(op),
{
    let pc = vm.trace.steps.len();
    match op {
        SpecOp::Push(n) => (Ok(SpecValue::U64(n)), vm, stack.push(SpecValue::U64(n)), st),
        SpecOp::PushBool(b) => (Ok(SpecValue::Bool(b)), vm, stack.push(SpecValue::Bool(b)), st),
        SpecOp::Binary(o) => if stack.len() == 0 {
            (Err("binary right operand missing"@), vm, stack, st)
        } else if stack.len() == 1 {
            (Err("binary left operand missing"@), vm, Seq::empty(), st)
        } else {
            let rest = stack.drop_last().drop_last();
            match binary_value(o, stack[stack.len() - 2], stack.last()) {
                Err(m) => (Err(m), vm, rest, st),
                Ok(v) => (Ok(v), vm, rest.push(v), st),
            }
        },
        SpecOp::Select { then_ops, else_ops } => if stack.len() > 0 && stack.last() is Bool {
            let chosen = if stack.last()->Bool_0 {
                then_ops
            } else {
                else_ops
            };
            spec_steps(chosen, depth, vm, stack.drop_last(), st, SpecValue::Unit)
        } else {
            (Err("if condition must be boolean"@), vm, pop_any(stack), st)
        },
        SpecOp::Trap(m) => (Err(m), vm, stack, st),
        SpecOp::DefinePolicy { name, parameter, predicate } => (
            Ok(SpecValue::Unit),
            SpecVm { policies: vm.policies.insert(name, (parameter, predicate)), ..vm },
            stack,
            st,
        ),
        SpecOp::CallPolicy(name) => spec_call_policy(name, depth, vm, stack, st),
        SpecOp::Function { params, body } => {
            let v = SpecValue::Function { params, body };
            (Ok(v), vm, stack.push(v), st)
        },
        SpecOp::Call(count) => spec_call(count, depth, vm, stack, st),
        SpecOp::Load(n) => if vm.vars.contains_key(n) {
            (Ok(vm.vars[n]), vm, stack.push(vm.vars[n]), st)
        } else {
            (Err("unknown variable "@ + n), vm, stack, st)
        },
        SpecOp::Store(n) => if stack.len() == 0 {
            (Err("store stack underflow"@), vm, stack, st)
        } else {
            (Ok(SpecValue::Unit), SpecVm { vars: vm.vars.insert(n, stack.last()), ..vm }, stack.drop_last(), st)
        },
        SpecOp::Pop => (Ok(SpecValue::Unit), vm, pop_any(stack), st),
        SpecOp::OracleRead(f) => {
            let q = match f {
                SourceId::FeedA => vm.feed_a,
                SourceId::FeedB => vm.feed_b,
            };
            if q.len() == 0 {
                (Err("oracle input unavailable for "@ + feed_text(f)), vm, stack, st)
            } else {
                let vm1 = match f {
                    SourceId::FeedA => SpecVm { feed_a: q.drop_first(), ..vm },
                    SourceId::FeedB => SpecVm { feed_b: q.drop_first(), ..vm },
                };
                (Ok(SpecValue::U64(q[0])), vm1, stack.push(SpecValue::U64(q[0])), st)
            }
        },
        SpecOp::Validate(p) => {
            let (n, s1) = pop_num(stack, pc);
            match n {
                Err(m) => (Err(m), vm, s1, st),
                Ok(v) => if p is PriceBounds && v == 0 {
                    (Err("validation failed: "@ + nat_text(v as nat)), vm, s1, st)
                } else {
                    (Ok(SpecValue::U64(v)), vm, s1.push(SpecValue::U64(v)), st)
                },
            }
        },
        SpecOp::ToAmount | SpecOp::UnsafeAssumeTrusted => if stack.len() == 0 {
            (Err("conversion stack underflow"@), vm, stack, st)
        } else {
            (Ok(stack.last()), vm, stack, st)
        },
        SpecOp::Mint(account) => {
            let (n, s1) = pop_num(stack, pc);
            match n {
                Err(m) => (Err(m), vm, s1, st),
                Ok(amount) => {
                    let (r, st1) = spec_mint(st, account, amount);
                    ledger_outcome(r, vm, s1, st1, SpecValue::Unit, false)
                },
            }
        },
        SpecOp::Transfer(from, to) => if stack.len() > 0 && stack.last() is Asset {
            let (r, st1) = spec_transfer(st, stack.last()->Asset_0, from, to);
            ledger_outcome(r, vm, stack.drop_last(), st1, SpecValue::Unit, false)
        } else {
            (Err("transfer expects asset"@), vm, pop_any(stack), st)
        },
        SpecOp::CreateLoan { borrower, lender_pool, loan_id, collateral_asset, required_ratio } => {
            let (c, s1) = pop_num(stack, pc);
            match c {
                Err(m) => (Err(m), vm, s1, st),
                Ok(coll) => {
                    let (a, s2) = pop_num(s1, pc);
                    match a {
                        Err(m) => (Err(m), vm, s2, st),
                        Ok(amount) => {
                            let (r, st1) = spec_create_loan(
                                st,
                                borrower,
                                lender_pool,
                                loan_id,
                                amount,
                                collateral_asset,
                                coll,
                                required_ratio,
                            );
                            ledger_outcome(r, vm, s2, st1, SpecValue::Loan(loan_id), true)
                        },
                    }
                },
            }
        },
        SpecOp::Repay { borrower, lender_pool } => {
            let (p, s1) = pop_num(stack, pc);
            match p {
                Err(m) => (Err(m), vm, s1, st),
                Ok(payment) => {
                    let (l, s2) = pop_loan(s1, pc);
                    match l {
                        Err(m) => (Err(m), vm, s2, st),
                        Ok(loan) => {
                            let (r, st1) = spec_repay(st, borrower, lender_pool, loan, payment);
                            ledger_outcome(r, vm, s2, st1, SpecValue::Loan(loan), true)
                        },
                    }
                },
            }
        },
        SpecOp::PriceUpdate => {
            let (p, s1) = pop_num(stack, pc);
            match p {
                Err(m) => (Err(m), vm, s1, st),
                Ok(price) => {
                    let (l, s2) = pop_loan(s1, pc);
                    match l {
                        Err(m) => (Err(m), vm, s2, st),
                        Ok(loan) => {
                            let (r, st1) = spec_price_update(st, loan, price);
                            ledger_outcome(r, vm, s2, st1, SpecValue::Loan(loan), true)
                        },
                    }
                },
            }
        },
        SpecOp::Liquidate => {
            let (l, s1) = pop_loan(stack, pc);
            match l {
                Err(m) => (Err(m), vm, s1, st),
                Ok(loan) => {
                    let (r, st1) = spec_liquidate(st, loan);
                    ledger_outcome(r, vm, s1, st1, SpecValue::Unit, false)
                },
            }
        },
        SpecOp::Halt => if stack.len() > 0 {
            (Ok(stack.last()), vm, stack.drop_last(), st)
        } else {
            (Ok(SpecValue::Unit), vm, stack, st)
        },
    }
}

/// A list of instructions in turn, stopping at the first error; the value is the last one's.
pub open spec fn spec_steps(
    ops: Seq<SpecOp>,
    depth: nat,
    vm: SpecVm,
    stack: Seq<SpecValue>,
    st: SpecState,
    last: SpecValue,
) -> StepOutcome
    decreases depth_left(depth), 0int, ops_size(ops),
{
    if ops.len() == 0 {
        (Ok(last), vm, stack, st)
    } else {
        let (r, vm1, s1, st1) = spec_step(ops[0], depth, vm, stack, st);
        match r {
            Err(m) => (Err(m), vm1, s1, st1),
            Ok(v) => spec_steps(ops.drop_first(), depth, vm1, s1, st1, v),
        }
    }
}

/// Runs a program from instruction `pc` on: each instruction is traced with the staged ledger's
/// digests before and after it; `Halt` commits the staged ledger, and an error leaves `orig`.
pub open spec fn spec_run(
    ops: Seq<SpecOp>,
    pc: nat,
    depth: nat,
    vm: SpecVm,
    stack: Seq<SpecValue>,
    staged: SpecState,
    orig: SpecState,
) -> RunOutcome
    decreases depth_left(depth), 1int, ops.len() - pc,
{
    if pc >= ops.len() {
        (
            Err(SpecVmError::Runtime { pc: ops.len() as usize, message: "execution reached end without halt"@ }),
            vm,
            orig,
        )
    } else {
        let (r, vm1, s1, staged1) = spec_step(ops[pc as int], depth, vm, stack, staged);
        let entry = SpecStep {
            step: vm1.trace.steps.len() as usize,
            pc: pc as usize,
            opcode: ops[pc as int],
            pre_digest: spec_digest(staged),
            post_digest: spec_digest(staged1),
        };
        let vm2 = SpecVm { trace: SpecTrace { steps: vm1.trace.steps.push(entry), ..vm1.trace }, ..vm1 };
        match r {
            Err(m) => (Err(SpecVmError::Runtime { pc: pc as usize, message: m }), vm2, orig),
            Ok(v) => if ops[pc as int] is Halt {
                (
                    Ok(v),
                    SpecVm { trace: SpecTrace { root: spec_root(vm2.trace.steps), ..vm2.trace }, ..vm2 },
                    staged1,
                )
            } else {
                spec_run(ops, pc + 1, depth, vm2, s1, staged1, orig)
            },
        }
    }
}

/// Runs a program: it must pass the verifier, and the ledger changes only if it halts.
pub open spec fn spec_execute(vm: SpecVm, depth: nat, code: SpecBytecode, st: SpecState) -> RunOutcome
    decreases depth_left(depth), 2int, 0int,
{
    match spec_verify(code) {
        Err(e) => (Err(SpecVmError::Verification(e)), vm, st),
        Ok(()) => spec_run(code.ops, 0, depth, vm, Seq::empty(), st, st),
    }
}


// ---------------------------------------------------------------------------------------------
// The machine.

/// The views of the values on a stack.
pub open spec fn values_view(s: Seq<Value>) -> Seq<SpecValue> {
    Seq::new(s.len(), |i: int| s[i]@)
}

/// An instruction's outcome, as views.
pub open spec fn value_result(r: Result<Value, String>) -> Result<SpecValue, Seq<char>> {
    match r {
        Ok(v) => Ok(v@),
        Err(m) => Err(m@),
    }
}

/// A program's outcome, as views.
pub open spec fn run_result(r: Result<Value, VmError>) -> Result<SpecValue, SpecVmError> {
    match r {
        Ok(v) => Ok(v@),
        Err(e) => Err(e@),
    }
}

fn push_value(stack: &mut Vec<Value>, v: Value)
    ensures
        values_view(final(stack)@) == values_view(old(stack)@).push(v@),
{
    stack.push(v);
    assert(values_view(stack@) =~= values_view(old(stack)@).push(v@));
}

fn pop_value(stack: &mut Vec<Value>) -> (r: Option<Value>)
    ensures
        values_view(final(stack)@) == pop_any(values_view(old(stack)@)),
        r is None <==> old(stack)@.len() == 0,
        r matches Some(v) ==> v@ == values_view(old(stack)@).last(),
{
    let r = stack.pop();
    assert(values_view(stack@) =~= pop_any(values_view(old(stack)@)));
    r
}

fn expected_message(what: &str, pc: usize) -> (r: String)
    ensures
        r@ == expected_text(what@, pc as nat),
{
    let mut m = text("expected ");
    push_str(&mut m, what);
    push_str(&mut m, " at ");
    push_nat(&mut m, pc as u64);
    m
}

fn pop_number(stack: &mut Vec<Value>, pc: usize) -> (r: Result<u64, String>)
    ensures
        (match r {
            Ok(n) => Ok::<u64, Seq<char>>(n),
            Err(m) => Err::<u64, Seq<char>>(m@),
        }, values_view(final(stack)@)) == pop_num(values_view(old(stack)@), pc as nat),
{
    match pop_value(stack) {
        Some(Value::U64(n)) => Ok(n),
        _ => Err(expected_message("numeric stack value", pc)),
    }
}

fn pop_loan_id(stack: &mut Vec<Value>, pc: usize) -> (r: Result<String, String>)
    ensures
        (match r {
            Ok(n) => Ok::<Seq<char>, Seq<char>>(n@),
            Err(m) => Err::<Seq<char>, Seq<char>>(m@),
        }, values_view(final(stack)@)) == pop_loan(values_view(old(stack)@), pc as nat),
{
    match pop_value(stack) {
        Some(Value::Loan(n)) => Ok(n),
        _ => Err(expected_message("loan", pc)),
    }
}

impl Default for Vm {
    /// A machine with no variables, feeds, policies or trace.
    fn default() -> (r: Self)
        ensures
            r@ == empty_vm(),
            r.depth() == 0,
    {
        Vm::new()
    }
}

impl Vm {
    pub fn new() -> (r: Vm)
        ensures
            r@ == empty_vm(),
            r.depth() == 0,
    {
        Vm::nested(0)
    }

    fn nested(depth: usize) -> (r: Vm)
        ensures
            r@ == empty_vm(),
            r.depth() == depth,
    {
        let r = Vm {
            vars: Table::new(),
            feed_a: Vec::new(),
            feed_b: Vec::new(),
            policies: Table::new(),
            depth,
            trace: ExecutionTrace { steps: Vec::new(), root: 0 },
        };
        assert(steps_view(r.trace.steps@) =~= Seq::<SpecStep>::empty());
        r
    }

    /// Queues an oracle value for a feed.
    pub fn set_oracle_value(&mut self, feed: SourceId, value: u64)
        ensures
            final(self).depth() == old(self).depth(),
            final(self)@ == (match feed {
                SourceId::FeedA => SpecVm { feed_a: old(self)@.feed_a.push(value), ..old(self)@ },
                SourceId::FeedB => SpecVm { feed_b: old(self)@.feed_b.push(value), ..old(self)@ },
            }),
    {
        match feed {
            SourceId::FeedA => self.feed_a.push(value),
            SourceId::FeedB => self.feed_b.push(value),
        }
    }

}



proof fn lemma_steps_unfold(ops: Seq<SpecOp>, d: nat, vm: SpecVm, stack: Seq<SpecValue>, st: SpecState, last: SpecValue)
    requires
        ops.len() > 0,
    ensures
        spec_steps(ops, d, vm, stack, st, last) == ({
            let (r, vm1, s1, st1) = spec_step(ops[0], d, vm, stack, st);
            match r {
                Err(m) => (Err(m), vm1, s1, st1),
                Ok(v) => spec_steps(ops.drop_first(), d, vm1, s1, st1, v),
            }
        }),
{
    reveal_with_fuel(spec_steps, 2);
}

proof fn lemma_step_select(t: Seq<SpecOp>, e: Seq<SpecOp>, d: nat, vm: SpecVm, stack: Seq<SpecValue>, st: SpecState)
    ensures
        spec_step(SpecOp::Select { then_ops: t, else_ops: e }, d, vm, stack, st) == if stack.len() > 0
            && stack.last() is Bool {
            spec_steps(if stack.last()->Bool_0 { t } else { e }, d, vm, stack.drop_last(), st, SpecValue::Unit)
        } else {
            (Err("if condition must be boolean"@), vm, pop_any(stack), st)
        },
{
}

proof fn lemma_run_unfold(
    ops: Seq<SpecOp>,
    pc: nat,
    d: nat,
    vm: SpecVm,
    stack: Seq<SpecValue>,
    staged: SpecState,
    orig: SpecState,
)
    requires
        pc < ops.len(),
    ensures
        spec_run(ops, pc, d, vm, stack, staged, orig) == ({
            let (r, vm1, s1, staged1) = spec_step(ops[pc as int], d, vm, stack, staged);
            let entry = SpecStep {
                step: vm1.trace.steps.len() as usize,
                pc: pc as usize,
                opcode: ops[pc as int],
                pre_digest: spec_digest(staged),
                post_digest: spec_digest(staged1),
            };
            let vm2 = SpecVm { trace: SpecTrace { steps: vm1.trace.steps.push(entry), ..vm1.trace }, ..vm1 };
            match r {
                Err(m) => (Err(SpecVmError::Runtime { pc: pc as usize, message: m }), vm2, orig),
                Ok(v) => if ops[pc as int] is Halt {
                    (
                        Ok(v),
                        SpecVm { trace: SpecTrace { root: spec_root(vm2.trace.steps), ..vm2.trace }, ..vm2 },
                        staged1,
                    )
                } else {
                    spec_run(ops, pc + 1, d, vm2, s1, staged1, orig)
                },
            }
        }),
{
}

/// An instruction's outcome agrees with the machine's semantics.
pub open spec fn step_agrees(
    op: SpecOp,
    depth: nat,
    vm0: SpecVm,
    s0: Seq<SpecValue>,
    st0: SpecState,
    r: Result<SpecValue, Seq<char>>,
    vm1: SpecVm,
    s1: Seq<SpecValue>,
    st1: SpecState,
) -> bool {
    (r, vm1, s1, st1) == spec_step(op, depth, vm0, s0, st0)
}

fn ledger_result(r: Result<(), String>, value: Value, stack: &mut Vec<Value>, push: bool) -> (out: Result<Value, String>)
    ensures
        match unit_view(r) {
            Err(m) => out matches Err(x) && x@ == m && values_view(final(stack)@) == values_view(old(stack)@),
            Ok(()) => out matches Ok(v) && v@ == value@ && values_view(final(stack)@) == if push {
                values_view(old(stack)@).push(value@)
            } else {
                values_view(old(stack)@)
            },
        },
{
    match r {
        Err(m) => Err(m),
        Ok(()) => {
            let out = value.copy();
            if push {
                push_value(stack, value);
            }
            Ok(out)
        },
    }
}

impl Vm {
    fn step_binary(&mut self, op: &OpCode, stack: &mut Vec<Value>, state: &mut FinancialState) -> (r: Result<Value, String>)
        requires
            op is Binary,
        ensures
            final(self).depth() == old(self).depth(),
            step_agrees(op@, old(self).depth(), old(self)@, values_view(old(stack)@), old(state)@, value_result(r),
                final(self)@, values_view(final(stack)@), final(state)@),
    {
        let o = match op {
            OpCode::Binary(o) => *o,
            _ => {
                assert(false);
                BinOp::Add
            },
        };
        let right = match pop_value(stack) {
            Some(v) => v,
            None => {
                return Err(text("binary right operand missing"));
            },
        };
        let left = match pop_value(stack) {
            Some(v) => v,
            None => {
                assert(values_view(stack@) =~= Seq::<SpecValue>::empty());
                return Err(text("binary left operand missing"));
            },
        };
        proof {
            let sv = values_view(old(stack)@);
            assert(sv[sv.len() - 2] == sv.drop_last().last());
        }
        match binary(o, &left, &right) {
            Ok(v) => {
                let out = v.copy();
                push_value(stack, v);
                Ok(out)
            },
            Err(m) => Err(m),
        }
    }

    fn step_oracle(&mut self, op: &OpCode, stack: &mut Vec<Value>, state: &mut FinancialState) -> (r: Result<Value, String>)
        requires
            op is OracleRead,
        ensures
            final(self).depth() == old(self).depth(),
            step_agrees(op@, old(self).depth(), old(self)@, values_view(old(stack)@), old(state)@, value_result(r),
                final(self)@, values_view(final(stack)@), final(state)@),
    {
        let feed = match op {
            OpCode::OracleRead(f) => *f,
            _ => {
                assert(false);
                SourceId::FeedA
            },
        };
        let q = match feed {
            SourceId::FeedA => &mut self.feed_a,
            SourceId::FeedB => &mut self.feed_b,
        };
        if q.len() == 0 {
            let mut m = text("oracle input unavailable for ");
            match feed {
                SourceId::FeedA => push_str(&mut m, "FeedA"),
                SourceId::FeedB => push_str(&mut m, "FeedB"),
            }
            return Err(m);
        }
        let v = q.remove(0);
        push_value(stack, Value::U64(v));
        Ok(Value::U64(v))
    }

    fn step_ledger(&mut self, op: &OpCode, stack: &mut Vec<Value>, state: &mut FinancialState) -> (r: Result<Value, String>)
        requires
            op is Mint || op is Transfer || op is CreateLoan || op is Repay || op is PriceUpdate || op is Liquidate,
        ensures
            final(self).depth() == old(self).depth(),
            step_agrees(op@, old(self).depth(), old(self)@, values_view(old(stack)@), old(state)@, value_result(r),
                final(self)@, values_view(final(stack)@), final(state)@),
    {
        let pc = self.trace.steps.len();
        assert(self@.trace.steps.len() == pc);
        match op {
            OpCode::Mint(account) => {
                let n = match pop_number(stack, pc) {
                    Ok(n) => n,
                    Err(m) => {
                        return Err(m);
                    },
                };
                let r = mint(state, account.as_str(), n);
                ledger_result(r, Value::Unit, stack, false)
            },
            OpCode::Transfer(from, to) => {
                let asset = match pop_value(stack) {
                    Some(Value::Asset(x)) => x,
                    _ => {
                        return Err(text("transfer expects asset"));
                    },
                };
                let r = transfer_asset(state, asset.as_str(), from.as_str(), to.as_str());
                ledger_result(r, Value::Unit, stack, false)
            },
            OpCode::CreateLoan { borrower, lender_pool, loan_id, collateral_asset, required_ratio } => {
                let coll = match pop_number(stack, pc) {
                    Ok(n) => n,
                    Err(m) => {
                        return Err(m);
                    },
                };
                let amount = match pop_number(stack, pc) {
                    Ok(n) => n,
                    Err(m) => {
                        return Err(m);
                    },
                };
                let r = create_loan(
                    state,
                    borrower.as_str(),
                    lender_pool.as_str(),
                    loan_id.as_str(),
                    amount,
                    collateral_asset.as_str(),
                    coll,
                    *required_ratio,
                );
                ledger_result(r, Value::Loan(text(loan_id.as_str())), stack, true)
            },
            OpCode::Repay { borrower, lender_pool } => {
                let payment = match pop_number(stack, pc) {
                    Ok(n) => n,
                    Err(m) => {
                        return Err(m);
                    },
                };
                let loan = match pop_loan_id(stack, pc) {
                    Ok(l) => l,
                    Err(m) => {
                        return Err(m);
                    },
                };
                let r = repay(state, borrower.as_str(), lender_pool.as_str(), loan.as_str(), payment);
                ledger_result(r, Value::Loan(loan), stack, true)
            },
            OpCode::PriceUpdate => {
                let price = match pop_number(stack, pc) {
                    Ok(n) => n,
                    Err(m) => {
                        return Err(m);
                    },
                };
                let loan = match pop_loan_id(stack, pc) {
                    Ok(l) => l,
                    Err(m) => {
                        return Err(m);
                    },
                };
                let r = price_update(state, loan.as_str(), price);
                ledger_result(r, Value::Loan(loan), stack, true)
            },
            OpCode::Liquidate => {
                let loan = match pop_loan_id(stack, pc) {
                    Ok(l) => l,
                    Err(m) => {
                        return Err(m);
                    },
                };
                let r = liquidate(state, loan.as_str());
                ledger_result(r, Value::Unit, stack, false)
            },
            _ => {
                assert(false);
                Err(text(""))
            },
        }
    }
}


proof fn lemma_ops_size_elem(s: Seq<SpecOp>, i: int)
    requires
        0 <= i < s.len(),
    ensures
        op_size(s[i]) < ops_size(s),
    decreases s.len(),
{
    if i > 0 {
        lemma_ops_size_elem(s.drop_first(), i - 1);
        assert(s.drop_first()[i - 1] == s[i]);
    }
}

impl Vm {
    #[verifier::rlimit(100)]
    fn step_select(&mut self, op: &OpCode, stack: &mut Vec<Value>, state: &mut FinancialState) -> (r: Result<Value, String>)
        requires
            op is Select,
        ensures
            final(self).depth() == old(self).depth(),
            step_agrees(op@, old(self).depth(), old(self)@, values_view(old(stack)@), old(state)@, value_result(r),
                final(self)@, values_view(final(stack)@), final(state)@),
        decreases depth_left(self.depth()), 0int, op_size(op@), 0int,
    {
        let ghost d = self.depth();
        let ghost size = op_size(op@);
        let (then_ops, else_ops) = match op {
            OpCode::Select { then_ops, else_ops } => (then_ops, else_ops),
            _ => {
                assert(false);
                return Err(text(""));
            },
        };
        assert(op@->Select_then_ops =~= ops_view(then_ops@));
        assert(op@->Select_else_ops =~= ops_view(else_ops@));
        assert(op@ == SpecOp::Select { then_ops: ops_view(then_ops@), else_ops: ops_view(else_ops@) });
        proof {
            lemma_step_select(ops_view(then_ops@), ops_view(else_ops@), d, self@, values_view(stack@), state@);
        }
        let cond = match pop_value(stack) {
            Some(Value::Bool(b)) => b,
            _ => {
                return Err(text("if condition must be boolean"));
            },
        };
        let chosen = if cond {
            then_ops
        } else {
            else_ops
        };
        let ghost cv = ops_view(chosen@);
        let ghost target = spec_steps(cv, d, self@, values_view(stack@), state@, SpecValue::Unit);
        let mut result = Value::Unit;
        let mut i: usize = 0;
        assert(cv.skip(0) =~= cv);
        while i < chosen.len()
            invariant
                i <= chosen@.len(),
                cv == ops_view(chosen@),
                cv.len() == chosen@.len(),
                self.depth() == d,
                old(self).depth() == d,
                size == op_size(op@),
                size == 1 + ops_size(ops_view(then_ops@)) + ops_size(ops_view(else_ops@)),
                cv == ops_view(then_ops@) || cv == ops_view(else_ops@),
                spec_step(op@, d, old(self)@, values_view(old(stack)@), old(state)@) == target,
                target == spec_steps(cv.skip(i as int), d, self@, values_view(stack@), state@, result@),
            decreases chosen@.len() - i,
        {
            proof {
                lemma_ops_size_elem(cv, i as int);
                assert(cv[i as int] == chosen@[i as int]@);
                assert(cv.skip(i as int)[0] == cv[i as int]);
                assert(cv.skip(i as int).drop_first() =~= cv.skip(i + 1));
                lemma_steps_unfold(cv.skip(i as int), d, self@, values_view(stack@), state@, result@);
            }
            let r = self.step(&chosen[i], stack, state);
            match r {
                Ok(v) => {
                    result = v;
                },
                Err(m) => {
                    return Err(m);
                },
            }
            i = i + 1;
        }
        assert(cv.skip(i as int) =~= Seq::<SpecOp>::empty());
        Ok(result)
    }

    #[verifier::rlimit(50)]
    fn step_call(&mut self, op: &OpCode, stack: &mut Vec<Value>, state: &mut FinancialState) -> (r: Result<Value, String>)
        requires
            op is Call,
        ensures
            final(self).depth() == old(self).depth(),
            (value_result(r), final(self)@, values_view(final(stack)@), final(state)@) == spec_call(
                op@->Call_0,
                old(self).depth(),
                old(self)@,
                values_view(old(stack)@),
                old(state)@,
            ),
        decreases depth_left(self.depth()), 0int, op_size(op@), 0int,
    {
        let count = match op {
            OpCode::Call(n) => *n,
            _ => {
                assert(false);
                0
            },
        };
        let ghost sv = values_view(stack@);
        if stack.len() < count {
            stack.clear();
            assert(values_view(stack@) =~= Seq::<SpecValue>::empty());
            return Err(text("call argument stack underflow"));
        }
        let at = stack.len() - count;
        let args = stack.split_off(at);
        assert(values_view(args@) =~= sv.skip(at as int));
        assert(values_view(stack@) =~= sv.take(at as int));
        let f = match pop_value(stack) {
            Some(v) => v,
            None => {
                return Err(text("call target missing"));
            },
        };
        let ghost fv = f@;
        let (params, body) = match f {
            Value::Function { params, body } => (params, body),
            _ => {
                return Err(text("call target is not a function"));
            },
        };
        assert(fv == SpecValue::Function { params: names_view(params@), body: (*body)@ });
        if params.len() != args.len() {
            return Err(text("function argument count mismatch"));
        }
        if self.depth >= MAX_CALL_DEPTH {
            return Err(text("call depth limit exceeded"));
        }
        let mut child = Vm::nested(self.depth + 1);
        let ghost pv = names_view(params@);
        let ghost av = values_view(args@);
        let mut i: usize = 0;
        while i < params.len()
            invariant
                i <= params@.len(),
                params@.len() == args@.len(),
                pv == names_view(params@),
                av == values_view(args@),
                child@ == (SpecVm { vars: bind_args(pv.take(i as int), av.take(i as int)), ..empty_vm() }),
                child.depth() == self.depth() + 1,
            decreases params@.len() - i,
        {
            proof {
                assert(pv.take(i + 1).drop_last() =~= pv.take(i as int));
                assert(av.take(i + 1).drop_last() =~= av.take(i as int));
            }
            child.vars.insert(text(params[i].as_str()), args[i].copy());
            i = i + 1;
        }
        assert(pv.take(params@.len() as int) =~= pv);
        assert(av.take(args@.len() as int) =~= av);
        assert(child@ == SpecVm { vars: bind_args(pv, av), ..empty_vm() });
        let code = compile(&body);
        assert(code@ == spec_compile((*body)@));
        match child.execute(&code, state) {
            Err(e) => Err(e.to_text()),
            Ok(v) => {
                let out = v.copy();
                push_value(stack, v);
                Ok(out)
            },
        }
    }

    fn step_call_policy(&mut self, op: &OpCode, stack: &mut Vec<Value>, state: &mut FinancialState) -> (r: Result<Value, String>)
        requires
            op is CallPolicy,
        ensures
            final(self).depth() == old(self).depth(),
            (value_result(r), final(self)@, values_view(final(stack)@), final(state)@) == spec_call_policy(
                op@->CallPolicy_0,
                old(self).depth(),
                old(self)@,
                values_view(old(stack)@),
                old(state)@,
            ),
        decreases depth_left(self.depth()), 0int, op_size(op@), 0int,
    {
        let name = match op {
            OpCode::CallPolicy(n) => n,
            _ => {
                assert(false);
                return Err(text(""));
            },
        };
        let pc = self.trace.steps.len();
        assert(self@.trace.steps.len() == pc);
        let value = match pop_number(stack, pc) {
            Ok(n) => n,
            Err(m) => {
                return Err(m);
            },
        };
        let entry = match self.policies.get(name.as_str()) {
            Some(e) => e,
            None => {
                let mut m = text("policy '");
                push_str(&mut m, name.as_str());
                push_str(&mut m, "' is not defined");
                return Err(m);
            },
        };
        if self.depth >= MAX_CALL_DEPTH {
            return Err(text("call depth limit exceeded"));
        }
        let mut child = Vm::nested(self.depth + 1);
        child.vars.insert(text(entry.parameter.as_str()), Value::U64(value));
        assert(child@.vars =~= Map::<Seq<char>, SpecValue>::empty().insert(entry.parameter@, SpecValue::U64(value)));
        assert(child@ == SpecVm {
            vars: Map::<Seq<char>, SpecValue>::empty().insert(entry.parameter@, SpecValue::U64(value)),
            ..empty_vm()
        });
        let code = compile(&entry.predicate);
        match child.execute(&code, state) {
            Err(e) => Err(e.to_text()),
            Ok(Value::Bool(true)) => {
                push_value(stack, Value::U64(value));
                Ok(Value::U64(value))
            },
            Ok(Value::Bool(false)) => {
                let mut m = text("policy '");
                push_str(&mut m, name.as_str());
                push_str(&mut m, "' rejected value ");
                push_nat(&mut m, value);
                Err(m)
            },
            Ok(_) => Err(text("policy predicate must return Bool")),
        }
    }

    fn step(&mut self, op: &OpCode, stack: &mut Vec<Value>, state: &mut FinancialState) -> (r: Result<Value, String>)
        ensures
            final(self).depth() == old(self).depth(),
            step_agrees(op@, old(self).depth(), old(self)@, values_view(old(stack)@), old(state)@, value_result(r),
                final(self)@, values_view(final(stack)@), final(state)@),
        decreases depth_left(self.depth()), 0int, op_size(op@), 1int,
    {
        match op {
            OpCode::Push(n) => {
                push_value(stack, Value::U64(*n));
                Ok(Value::U64(*n))
            },
            OpCode::PushBool(b) => {
                push_value(stack, Value::Bool(*b));
                Ok(Value::Bool(*b))
            },
            OpCode::Binary(_) => self.step_binary(op, stack, state),
            OpCode::Select { .. } => self.step_select(op, stack, state),
            OpCode::Trap(m) => Err(text(m.as_str())),
            OpCode::Function { params, body } => {
                let v = Value::Function { params: dup_names(params), body: Box::new(body.copy()) };
                let out = v.copy();
                push_value(stack, v);
                Ok(out)
            },
            OpCode::Call(_) => self.step_call(op, stack, state),
            OpCode::DefinePolicy { name, parameter, predicate } => {
                self.policies.insert(
                    text(name.as_str()),
                    PolicyEntry { parameter: text(parameter.as_str()), predicate: predicate.copy() },
                );
                Ok(Value::Unit)
            },
            OpCode::CallPolicy(_) => self.step_call_policy(op, stack, state),
            OpCode::Load(n) => match self.vars.get(n.as_str()) {
                Some(v) => {
                    let out = v.copy();
                    push_value(stack, v.copy());
                    Ok(out)
                },
                None => {
                    let mut m = text("unknown variable ");
                    push_str(&mut m, n.as_str());
                    Err(m)
                },
            },
            OpCode::Store(n) => match pop_value(stack) {
                Some(v) => {
                    self.vars.insert(text(n.as_str()), v);
                    Ok(Value::Unit)
                },
                None => Err(text("store stack underflow")),
            },
            OpCode::Pop => {
                let _ = pop_value(stack);
                Ok(Value::Unit)
            },
            OpCode::OracleRead(_) => self.step_oracle(op, stack, state),
            OpCode::Validate(p) => {
                let pc = self.trace.steps.len();
                assert(self@.trace.steps.len() == pc);
                let v = match pop_number(stack, pc) {
                    Ok(n) => n,
                    Err(m) => {
                        return Err(m);
                    },
                };
                let bounded = match p {
                    PolicyId::PriceBounds => true,
                    PolicyId::Named(_) => false,
                };
                if bounded && v == 0 {
                    let mut m = text("validation failed: ");
                    push_nat(&mut m, v);
                    return Err(m);
                }
                push_value(stack, Value::U64(v));
                Ok(Value::U64(v))
            },
            OpCode::ToAmount | OpCode::UnsafeAssumeTrusted => match pop_value(stack) {
                Some(v) => {
                    let out = v.copy();
                    push_value(stack, v);
                    assert(values_view(stack@) =~= values_view(old(stack)@));
                    Ok(out)
                },
                None => Err(text("conversion stack underflow")),
            },
            OpCode::Mint(_) | OpCode::Transfer(..) | OpCode::CreateLoan { .. } | OpCode::Repay { .. }
            | OpCode::PriceUpdate | OpCode::Liquidate => self.step_ledger(op, stack, state),
            OpCode::Halt => match pop_value(stack) {
                Some(v) => Ok(v),
                None => Ok(Value::Unit),
            },
        }
    }

    /// Runs a program. The program must pass the verifier; each instruction is traced with the
    /// staged ledger's digests before and after it. The ledger takes the staged changes only when
    /// the program halts; after an error it is as it was.
    pub fn execute(&mut self, code: &Bytecode, state: &mut FinancialState) -> (r: Result<Value, VmError>)
        ensures
            final(self).depth() == old(self).depth(),
            (run_result(r), final(self)@, final(state)@) == spec_execute(old(self)@, old(self).depth(), code@, old(state)@),
        decreases depth_left(self.depth()), 2int, 0int, 0int,
    {
        match verify(code) {
            Err(e) => {
                return Err(VmError::Verification(e));
            },
            Ok(()) => {},
        }
        let ghost d = self.depth();
        let ghost orig = state@;
        let ghost ops = code@.ops;
        let ghost target = spec_execute(self@, d, code@, state@);
        let mut staged = state.copy();
        let mut stack: Vec<Value> = Vec::new();
        assert(values_view(stack@) =~= Seq::<SpecValue>::empty());
        let mut pc: usize = 0;
        while pc < code.ops.len()
            invariant
                pc <= code.ops@.len(),
                ops == code@.ops,
                ops.len() == code.ops@.len(),
                self.depth() == d,
                old(self).depth() == d,
                self.depth == d,
                state@ == orig,
                orig == old(state)@,
                target == spec_execute(old(self)@, old(self).depth(), code@, old(state)@),
                target == spec_run(ops, pc as nat, d, self@, values_view(stack@), staged@, orig),
            decreases code.ops@.len() - pc,
        {
            let op = &code.ops[pc];
            assert(ops[pc as int] == op@);
            let ghost vm0 = self@;
            let ghost s0 = values_view(stack@);
            let ghost st0 = staged@;
            proof {
                lemma_run_unfold(ops, pc as nat, d, vm0, s0, st0, orig);
            }
            let pre = digest_state(&staged);
            let result = self.step(op, &mut stack, &mut staged);
            let ghost vm1 = self@;
            assert((value_result(result), vm1, values_view(stack@), staged@) == spec_step(ops[pc as int], d, vm0, s0, st0));
            let post = digest_state(&staged);
            let n = self.trace.steps.len();
            let ghost entry = SpecStep {
                step: vm1.trace.steps.len() as usize,
                pc: pc as usize,
                opcode: ops[pc as int],
                pre_digest: spec_digest(st0),
                post_digest: spec_digest(staged@),
            };
            self.trace.steps.push(TraceStep { step: n, pc, opcode: op.copy(), pre_digest: pre, post_digest: post });
            assert(self.trace@.steps =~= vm1.trace.steps.push(entry));
            assert(self@ == SpecVm { trace: SpecTrace { steps: vm1.trace.steps.push(entry), ..vm1.trace }, ..vm1 });
            match result {
                Err(m) => {
                    proof {
                        assert((pc as nat) as usize == pc);
                    }
                    assert(target == (Err::<SpecValue, SpecVmError>(SpecVmError::Runtime { pc: pc, message: m@ }), self@, orig));
                    return Err(VmError::Runtime { pc, message: m });
                },
                Ok(v) => {
                    let halt = match op {
                        OpCode::Halt => true,
                        _ => false,
                    };
                    if halt {
                        *state = staged;
                        let root = trace_root(self.trace.steps.as_slice());
                        self.trace.root = root;
                        assert(self@ == SpecVm {
                            trace: SpecTrace { root: spec_root(vm1.trace.steps.push(entry)), steps: vm1.trace.steps.push(entry) },
                            ..vm1
                        });
                        return Ok(v);
                    }
                },
            }
            pc = pc + 1;
        }
        Err(VmError::Runtime { pc: code.ops.len(), message: text("execution reached end without halt") })
    }
}


// ---------------------------------------------------------------------------------------------
// Laws of the machine.

proof fn lemma_run_rolls_back(
    ops: Seq<SpecOp>,
    pc: nat,
    d: nat,
    vm: SpecVm,
    stack: Seq<SpecValue>,
    staged: SpecState,
    orig: SpecState,
)
    ensures
        spec_run(ops, pc, d, vm, stack, staged, orig).0 is Err ==> spec_run(ops, pc, d, vm, stack, staged, orig).2
            == orig,
    decreases ops.len() - pc,
{
    if pc < ops.len() {
        let (r, vm1, s1, staged1) = spec_step(ops[pc as int], d, vm, stack, staged);
        let entry = SpecStep {
            step: vm1.trace.steps.len() as usize,
            pc: pc as usize,
            opcode: ops[pc as int],
            pre_digest: spec_digest(staged),
            post_digest: spec_digest(staged1),
        };
        let vm2 = SpecVm { trace: SpecTrace { steps: vm1.trace.steps.push(entry), ..vm1.trace }, ..vm1 };
        lemma_run_rolls_back(ops, pc + 1, d, vm2, s1, staged1, orig);
        lemma_run_unfold(ops, pc, d, vm, stack, staged, orig);
    }
}

/// A run that fails leaves the ledger exactly as it was: the machine works on a staged copy and
/// commits it only when the program halts.
pub proof fn law_failed_run_rolls_back(vm: SpecVm, depth: nat, code: SpecBytecode, st: SpecState)
    ensures
        spec_execute(vm, depth, code, st).0 is Err ==> spec_execute(vm, depth, code, st).2 == st,
{
    lemma_run_rolls_back(code.ops, 0, depth, vm, Seq::empty(), st, st);
}

/// A run is determined by the machine, the program and the ledger: the same inputs give the
/// same result, ledger and trace, root included.
pub proof fn law_run_is_deterministic(
    vm1: SpecVm,
    vm2: SpecVm,
    depth: nat,
    code1: SpecBytecode,
    code2: SpecBytecode,
    st1: SpecState,
    st2: SpecState,
)
    requires
        vm1 == vm2,
        code1 == code2,
        st1 == st2,
    ensures
        spec_execute(vm1, depth, code1, st1) == spec_execute(vm2, depth, code2, st2),
{
}

/// The exact result of checked arithmetic: `Some` of the integer sum, difference or product
/// when it lies in `u64`, `None` otherwise.
pub open spec fn checked_result(k: BinOp, a: u64, b: u64) -> Option<u64> {
    let m: int = match k {
        BinOp::Add => a + b,
        BinOp::Sub => a - b,
        _ => a * b,
    };
    if 0 <= m <= u64::MAX {
        Some(m as u64)
    } else {
        None
    }
}

/// The message of a failed checked operation.
pub open spec fn overflow_text(k: BinOp) -> Seq<char> {
    match k {
        BinOp::Add => "addition overflow"@,
        BinOp::Sub => "subtraction underflow"@,
        _ => "multiplication overflow"@,
    }
}

/// Arithmetic in the machine is checked: an addition, subtraction or multiplication of the two
/// numbers on top of the stack pushes the exact result when it lies in `u64`, and otherwise
/// fails with its overflow message, leaving the rest of the stack; it never wraps, and the
/// ledger and the machine are unchanged either way.
pub proof fn law_checked_arithmetic(
    k: BinOp,
    a: u64,
    b: u64,
    depth: nat,
    vm: SpecVm,
    below: Seq<SpecValue>,
    st: SpecState,
)
    requires
        k == BinOp::Add || k == BinOp::Sub || k == BinOp::Mul,
    ensures
        ({
            let (r, vm1, stack1, st1) = spec_step(
                SpecOp::Binary(k),
                depth,
                vm,
                below.push(SpecValue::U64(a)).push(SpecValue::U64(b)),
                st,
            );
            &&& vm1 == vm
            &&& st1 == st
            &&& match checked_result(k, a, b) {
                Some(m) => r == Ok::<SpecValue, Seq<char>>(SpecValue::U64(m)) && stack1 == below.push(
                    SpecValue::U64(m),
                ),
                None => r == Err::<SpecValue, Seq<char>>(overflow_text(k)) && stack1 == below,
            }
        }),
{
    let stack = below.push(SpecValue::U64(a)).push(SpecValue::U64(b));
    assert(stack.drop_last().drop_last() =~= below);
    assert(stack[stack.len() - 2] == SpecValue::U64(a));
    assert(stack.last() == SpecValue::U64(b));
}

/// Comparing the two numbers on top of the stack pushes whether the comparison holds of them,
/// leaving the machine and the ledger as they were.
pub proof fn law_machine_comparison(
    op: BinOp,
    a: u64,
    b: u64,
    depth: nat,
    vm: SpecVm,
    below: Seq<SpecValue>,
    st: SpecState,
)
    requires
        is_comparison_op(op),
    ensures
        spec_step(SpecOp::Binary(op), depth, vm, below.push(SpecValue::U64(a)).push(SpecValue::U64(b)), st) == (
            Ok::<SpecValue, Seq<char>>(SpecValue::Bool(comparison_holds(op, a, b))),
            vm,
            below.push(SpecValue::Bool(comparison_holds(op, a, b))),
            st,
        ),
{
    let stack = below.push(SpecValue::U64(a)).push(SpecValue::U64(b));
    assert(stack.drop_last().drop_last() =~= below);
    assert(stack[stack.len() - 2] == SpecValue::U64(a));
    assert(stack.last() == SpecValue::U64(b));
}

/// A selection runs its first list of instructions when the value on top of the stack is
/// `true` and its second when it is `false`, with that value taken off the stack.
pub proof fn law_select_branch(
    then_ops: Seq<SpecOp>,
    else_ops: Seq<SpecOp>,
    b: bool,
    depth: nat,
    vm: SpecVm,
    below: Seq<SpecValue>,
    st: SpecState,
)
    ensures
        spec_step(SpecOp::Select { then_ops, else_ops }, depth, vm, below.push(SpecValue::Bool(b)), st) == spec_steps(
            if b {
                then_ops
            } else {
                else_ops
            },
            depth,
            vm,
            below,
            st,
            SpecValue::Unit,
        ),
{
    assert(below.push(SpecValue::Bool(b)).drop_last() =~= below);
}

/// The queue of values waiting on a feed.
pub open spec fn feed_queue(vm: SpecVm, f: SourceId) -> Seq<u64> {
    match f {
        SourceId::FeedA => vm.feed_a,
        SourceId::FeedB => vm.feed_b,
    }
}

/// Oracle values are read first in, first out: a read takes the value at the front of its
/// feed's queue and leaves the rest in order.
pub proof fn law_oracle_reads_front(f: SourceId, depth: nat, vm: SpecVm, stack: Seq<SpecValue>, st: SpecState)
    requires
        feed_queue(vm, f).len() > 0,
    ensures
        spec_step(SpecOp::OracleRead(f), depth, vm, stack, st).0 == Ok::<SpecValue, Seq<char>>(
            SpecValue::U64(feed_queue(vm, f)[0]),
        ),
        feed_queue(spec_step(SpecOp::OracleRead(f), depth, vm, stack, st).1, f) == feed_queue(vm, f).drop_first(),
{
}

} // verus!
