//! Deterministic commitments: ledger digests, trace roots, program digests and execution
//! statements.
use vstd::prelude::*;
use crate::bytecode::{Bytecode, OpCode, SpecBytecode, SpecOp};
use crate::machine::{spec_root, trace_root, ExecutionTrace, SpecTrace};
use crate::state::{FinancialState, SpecState};
use crate::table::{key_order, Table};
use crate::render::{op_string, op_text};

verus! {

/// The FNV-1a offset basis.
pub const FNV_OFFSET: u64 = 1469598103934665603;

/// The FNV-1a prime.
pub const FNV_PRIME: u64 = 1099511628211;

/// One FNV-1a step.
pub open spec fn fnv_step(h: u64, b: u8) -> u64 {
    (h ^ (b as u64)).wrapping_mul(FNV_PRIME)
}

/// FNV-1a over a byte sequence, from a starting value.
pub open spec fn fnv(h: u64, bytes: Seq<u8>) -> u64
    decreases bytes.len(),
{
    if bytes.len() == 0 {
        h
    } else {
        fnv_step(fnv(h, bytes.drop_last()), bytes.last())
    }
}

/// Byte `j` of a number in little-endian order.
pub open spec fn le_byte(v: u64, j: u64) -> u8 {
    ((v >> (8 * j)) & 0xff) as u8
}

/// The eight little-endian bytes of a number.
pub open spec fn le_bytes(v: u64) -> Seq<u8> {
    Seq::new(8, |j: int| le_byte(v, j as u64))
}

/// The bytes of one entry: its key in UTF-8, the table's tag, and its value.
pub open spec fn entry_bytes(m: Map<Seq<char>, u64>, k: Seq<char>, tag: u8) -> Seq<u8> {
    vstd::utf8::encode_utf8(k) + seq![tag] + le_bytes(m[k])
}

/// The bytes of the entries at the given keys, in order.
pub open spec fn entries_bytes(m: Map<Seq<char>, u64>, ks: Seq<Seq<char>>, tag: u8) -> Seq<u8>
    decreases ks.len(),
{
    if ks.len() == 0 {
        Seq::empty()
    } else {
        entries_bytes(m, ks.drop_last(), tag) + entry_bytes(m, ks.last(), tag)
    }
}

/// The bytes of a table, in key order.
pub open spec fn table_bytes(m: Map<Seq<char>, u64>, tag: u8) -> Seq<u8> {
    entries_bytes(m, key_order(m.dom()), tag)
}

/// What the digest covers: balances, debts, receivables and collaterals, in that order.
pub open spec fn state_bytes(s: SpecState) -> Seq<u8> {
    table_bytes(s.balances, 98) + table_bytes(s.debts, 100) + table_bytes(s.receivables, 114) + table_bytes(
        s.collaterals,
        99,
    )
}

/// The digest of a ledger.
#[verifier::opaque]
pub open spec fn spec_digest(s: SpecState) -> u64 {
    fnv(FNV_OFFSET, state_bytes(s))
}

fn hash_byte(h: u64, b: u8) -> (r: u64)
    ensures
        r == fnv_step(h, b),
{
    (h ^ (b as u64)).wrapping_mul(FNV_PRIME)
}

proof fn lemma_fnv_push(h: u64, bytes: Seq<u8>, b: u8)
    ensures
        fnv(h, bytes.push(b)) == fnv_step(fnv(h, bytes), b),
{
    assert(bytes.push(b).drop_last() =~= bytes);
}

/// Hashes more bytes into a running digest.
fn hash_bytes(h: u64, bytes: &[u8], Ghost(done): Ghost<Seq<u8>>) -> (r: u64)
    requires
        h == fnv(FNV_OFFSET, done),
    ensures
        r == fnv(FNV_OFFSET, done + bytes@),
{
    let mut acc = h;
    let mut i: usize = 0;
    while i < bytes.len()
        invariant
            i <= bytes@.len(),
            acc == fnv(FNV_OFFSET, done + bytes@.take(i as int)),
        decreases bytes@.len() - i,
    {
        proof {
            lemma_fnv_push(FNV_OFFSET, done + bytes@.take(i as int), bytes@[i as int]);
            assert(done + bytes@.take(i + 1) =~= (done + bytes@.take(i as int)).push(bytes@[i as int]));
        }
        acc = hash_byte(acc, bytes[i]);
        i = i + 1;
    }
    assert(bytes@.take(bytes@.len() as int) =~= bytes@);
    acc
}

fn hash_table(h: u64, t: &Table<u64>, tag: u8, Ghost(done): Ghost<Seq<u8>>) -> (r: u64)
    requires
        h == fnv(FNV_OFFSET, done),
    ensures
        r == fnv(FNV_OFFSET, done + table_bytes(t@, tag)),
{
    t.lemma_keys();
    let ghost ks = key_order(t@.dom());
    let mut acc = h;
    let n = t.len();
    let mut i: usize = 0;
    while i < n
        invariant
            i <= n,
            n == t.listing().len(),
            ks == t.listing().map_values(|e: (Seq<char>, u64)| e.0),
            forall|j: int| 0 <= j < t.listing().len() ==> #[trigger] t@.contains_key(t.listing()[j].0)
                && t@[t.listing()[j].0] == t.listing()[j].1,
            acc == fnv(FNV_OFFSET, done + entries_bytes(t@, ks.take(i as int), tag)),
        decreases n - i,
    {
        let ghost before = done + entries_bytes(t@, ks.take(i as int), tag);
        assert(t@.contains_key(t.listing()[i as int].0));
        let key = t.key_at(i).as_str();
        acc = hash_bytes(acc, key.as_bytes(), Ghost(before));
        proof {
            lemma_fnv_push(FNV_OFFSET, before + vstd::utf8::encode_utf8(key@), tag);
        }
        acc = hash_byte(acc, tag);
        let v = *t.value_at(i);
        let mut le: Vec<u8> = Vec::new();
        let mut j: u64 = 0;
        while j < 8
            invariant
                j <= 8,
                le@ =~= le_bytes(v).take(j as int),
            decreases 8 - j,
        {
            le.push(((v >> (8 * j)) & 0xff) as u8);
            j = j + 1;
        }
        assert(le_bytes(v).take(8) =~= le_bytes(v));
        acc = hash_bytes(acc, le.as_slice(), Ghost((before + vstd::utf8::encode_utf8(key@)).push(tag)));
        proof {
            assert(ks.take(i + 1).drop_last() =~= ks.take(i as int));
            assert(ks.take(i + 1).last() == ks[i as int]);
            assert(((before + vstd::utf8::encode_utf8(key@)).push(tag)) + le@ =~= done + entries_bytes(
                t@,
                ks.take(i + 1),
                tag,
            ));
        }
        i = i + 1;
    }
    assert(ks.take(n as int) =~= ks);
    acc
}

/// The digest of a ledger: FNV-1a over its balances, debts, receivables and collaterals, each
/// table in key order.
pub fn digest_state(s: &FinancialState) -> (r: u64)
    ensures
        r == spec_digest(s@),
{
    let ghost e = Seq::<u8>::empty();
    let h0 = hash_table(FNV_OFFSET, &s.balances, 98, Ghost(e));
    let h1 = hash_table(h0, &s.debts, 100, Ghost(e + table_bytes(s@.balances, 98)));
    let h2 = hash_table(h1, &s.receivables, 114, Ghost(e + table_bytes(s@.balances, 98) + table_bytes(s@.debts, 100)));
    let h3 = hash_table(
        h2,
        &s.collaterals,
        99,
        Ghost(e + table_bytes(s@.balances, 98) + table_bytes(s@.debts, 100) + table_bytes(s@.receivables, 114)),
    );
    assert(e + table_bytes(s@.balances, 98) + table_bytes(s@.debts, 100) + table_bytes(s@.receivables, 114)
        + table_bytes(s@.collaterals, 99) =~= state_bytes(s@));
    proof {
        reveal(spec_digest);
    }
    h3
}

/// Two ledgers with the same contents have the same digest.
pub proof fn law_digest_depends_on_contents(a: SpecState, b: SpecState)
    requires
        a.balances == b.balances,
        a.debts == b.debts,
        a.receivables == b.receivables,
        a.collaterals == b.collaterals,
    ensures
        spec_digest(a) == spec_digest(b),
{
    reveal(spec_digest);
}


// ---------------------------------------------------------------------------------------------
// Program digests and execution statements.

/// The bytes a program digest covers: the text of each instruction (`op_text`) in UTF-8, in order.
pub open spec fn program_bytes(ops: Seq<SpecOp>) -> Seq<u8>
    decreases ops.len(),
{
    if ops.len() == 0 {
        Seq::empty()
    } else {
        program_bytes(ops.drop_last()) + vstd::utf8::encode_utf8(op_text(ops.last()))
    }
}

/// The digest of a program.
pub open spec fn spec_program_digest(code: SpecBytecode) -> u64 {
    fnv(FNV_OFFSET, program_bytes(code.ops))
}

/// The digest of a program: FNV-1a over the texts of its instructions.
pub fn program_digest(code: &Bytecode) -> (r: u64)
    ensures
        r == spec_program_digest(code@),
{
    let ghost ops = code@.ops;
    let mut h = FNV_OFFSET;
    let mut i: usize = 0;
    assert(program_bytes(ops.take(0)) =~= Seq::<u8>::empty());
    assert(fnv(FNV_OFFSET, Seq::<u8>::empty()) == FNV_OFFSET);
    while i < code.ops.len()
        invariant
            i <= code.ops@.len(),
            ops == code@.ops,
            ops.len() == code.ops@.len(),
            h == fnv(FNV_OFFSET, program_bytes(ops.take(i as int))),
        decreases code.ops@.len() - i,
    {
        let t = op_string(&code.ops[i]);
        assert(ops[i as int] == code.ops@[i as int]@);
        h = hash_bytes(h, t.as_str().as_bytes(), Ghost(program_bytes(ops.take(i as int))));
        assert(ops.take(i + 1).drop_last() =~= ops.take(i as int));
        i = i + 1;
    }
    assert(ops.take(code.ops@.len() as int) =~= ops);
    h
}

/// What an execution commits to: the ledger before and after, the program, and the trace.
#[derive(Debug, Clone, Copy, PartialEq, Eq, Structural)]
pub struct ExecutionStatement {
    pub initial_state_digest: u64,
    pub program_digest: u64,
    pub final_state_digest: u64,
    pub trace_root: u64,
}

/// The statement an execution makes: the digests of the ledger before and after and of the
/// program, and the trace's recorded root.
pub open spec fn spec_statement(code: SpecBytecode, initial: SpecState, final_state: SpecState, root: u64) -> ExecutionStatement {
    ExecutionStatement {
        initial_state_digest: spec_digest(initial),
        program_digest: spec_program_digest(code),
        final_state_digest: spec_digest(final_state),
        trace_root: root,
    }
}

/// Whether a statement matches a program, the ledger before and after, and a trace's steps.
pub open spec fn statement_matches(
    code: SpecBytecode,
    initial: SpecState,
    final_state: SpecState,
    trace: SpecTrace,
    statement: ExecutionStatement,
) -> bool {
    statement == spec_statement(code, initial, final_state, spec_root(trace.steps))
}

/// The statement of an execution.
pub fn execution_statement(
    code: &Bytecode,
    initial: &FinancialState,
    final_state: &FinancialState,
    trace: &ExecutionTrace,
) -> (r: ExecutionStatement)
    ensures
        r == spec_statement(code@, initial@, final_state@, trace.root),
{
    ExecutionStatement {
        initial_state_digest: digest_state(initial),
        program_digest: program_digest(code),
        final_state_digest: digest_state(final_state),
        trace_root: trace.root,
    }
}

/// Whether a statement matches a program, the ledger before and after, and a trace: the trace's
/// root is recomputed from its steps.
pub fn verify_execution_statement(
    code: &Bytecode,
    initial: &FinancialState,
    final_state: &FinancialState,
    trace: &ExecutionTrace,
    statement: &ExecutionStatement,
) -> (r: bool)
    ensures
        r == statement_matches(code@, initial@, final_state@, trace@, *statement),
{
    statement.program_digest == program_digest(code) && statement.initial_state_digest == digest_state(initial)
        && statement.final_state_digest == digest_state(final_state) && statement.trace_root == trace_root(
        trace.steps.as_slice(),
    )
}

/// The statement that `execution_statement` makes of a run whose trace root was computed from
/// its steps is accepted by `verify_execution_statement`, and it is the only statement accepted
/// for that program, those ledgers and that trace: changing any of its fields makes it fail.
pub proof fn law_statement_verifies(
    code: SpecBytecode,
    initial: SpecState,
    final_state: SpecState,
    trace: SpecTrace,
    other: ExecutionStatement,
)
    requires
        trace.root == spec_root(trace.steps),
    ensures
        statement_matches(code, initial, final_state, trace, spec_statement(code, initial, final_state, trace.root)),
        statement_matches(code, initial, final_state, trace, other) ==> other == spec_statement(
            code,
            initial,
            final_state,
            trace.root,
        ),
{
}

} // verus!
