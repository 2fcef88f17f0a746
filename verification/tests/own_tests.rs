use finlang_core::abstract_interpreter::{create_loan, liquidate, mint, price_update, repay, transfer_asset};
use finlang_core::bytecode::{
    compile, digest_state, execution_statement, program_digest, trace_root, verify, verify_execution_statement,
    Bytecode, OpCode, VerifyError, Vm, VmError,
};
use finlang_core::compiler::compile_source;
use finlang_core::decimal::Decimal;
use finlang_core::interpreter::{Interpreter, Value};
use finlang_core::lexer::lex;
use finlang_core::parser::parse;
use finlang_core::lexer::Token;
use finlang_core::render::token_string;
use finlang_core::ast::{AssetKind, BinOp, Currency, SourceId};
use finlang_core::effects::Effects;
use finlang_core::type_checker::check_program_with_env;
use finlang_core::types::{Type, TypeEnv};
use finlang_core::state::{FinancialState, LoanStatus};
use finlang_core::zk::{generate_keypair, prove, prove_with_nonce, verify as verify_proof};

fn ratio(m: u64, s: u32) -> Decimal {
    Decimal { mantissa: m, scale: s }
}

fn ledger_with_pledge() -> FinancialState {
    let mut s = FinancialState::new();
    s.set_balance("pool", 1000);
    s.assets.insert("gold".to_string(), "alice".to_string());
    s
}

#[test]
fn mint_adds_to_balance() {
    let mut s = FinancialState::new();
    assert_eq!(mint(&mut s, "alice", 10), Ok(()));
    assert_eq!(mint(&mut s, "alice", 5), Ok(()));
    assert_eq!(s.get_balance("alice"), 15);
}

#[test]
fn mint_overflow_is_refused() {
    let mut s = FinancialState::new();
    s.set_balance("alice", u64::MAX);
    assert_eq!(mint(&mut s, "alice", 1), Err("Balance overflow for alice".to_string()));
    assert_eq!(s.get_balance("alice"), u64::MAX);
}

#[test]
fn transfer_by_owner_moves_asset() {
    let mut s = ledger_with_pledge();
    assert_eq!(transfer_asset(&mut s, "gold", "alice", "bob"), Ok(()));
    assert_eq!(s.assets.get("gold"), Some(&"bob".to_string()));
}

#[test]
fn transfer_errors() {
    let mut s = ledger_with_pledge();
    assert_eq!(transfer_asset(&mut s, "gold", "carol", "bob"), Err("Asset gold not owned by carol".to_string()));
    assert_eq!(transfer_asset(&mut s, "silver", "alice", "bob"), Err("Asset silver not found".to_string()));
    assert_eq!(s.assets.get("gold"), Some(&"alice".to_string()));
}

#[test]
fn create_loan_pledges_collateral() {
    let mut s = ledger_with_pledge();
    assert_eq!(create_loan(&mut s, "alice", "pool", "L1", 100, "gold", 200, ratio(15, 1)), Ok(()));
    assert_eq!(s.get_balance("alice"), 100);
    assert_eq!(s.get_balance("pool"), 900);
    assert_eq!(s.debts.get("L1"), Some(&100));
    assert_eq!(s.receivables.get("L1"), Some(&100));
    assert_eq!(s.loan_status.get("L1"), Some(&LoanStatus::ActiveSafe));
    assert_eq!(s.assets.get("gold"), Some(&"loan:L1".to_string()));
    assert_eq!(s.asset_value.get("gold"), Some(&200));
}

#[test]
fn create_loan_errors() {
    let mut s = ledger_with_pledge();
    assert_eq!(
        create_loan(&mut s, "alice", "pool", "L1", 0, "gold", 200, ratio(15, 1)),
        Err("Loan amount must be > 0".to_string())
    );
    assert_eq!(
        create_loan(&mut s, "alice", "pool", "L1", 100, "gold", 200, ratio(0, 0)),
        Err("Required ratio must be > 0".to_string())
    );
    assert_eq!(
        create_loan(&mut s, "alice", "pool", "L1", 100, "silver", 200, ratio(15, 1)),
        Err("Collateral asset silver not found".to_string())
    );
    assert_eq!(
        create_loan(&mut s, "bob", "pool", "L1", 100, "gold", 200, ratio(15, 1)),
        Err("Collateral asset gold not owned by borrower".to_string())
    );
    assert_eq!(
        create_loan(&mut s, "alice", "pool", "L1", 100, "gold", 0, ratio(15, 1)),
        Err("Collateral value must be > 0".to_string())
    );
    assert_eq!(
        create_loan(&mut s, "alice", "pool", "L1", 100, "gold", 100, ratio(15, 1)),
        Err("Collateral ratio too low: 100 / 100 < 1.5".to_string())
    );
    assert_eq!(
        create_loan(&mut s, "alice", "pool", "L1", 2000, "gold", 4000, ratio(15, 1)),
        Err("Insufficient balance for pool: has 1000, needs 2000".to_string())
    );
    assert_eq!(create_loan(&mut s, "alice", "pool", "L1", 100, "gold", 200, ratio(15, 1)), Ok(()));
    assert_eq!(
        create_loan(&mut s, "alice", "pool", "L1", 100, "gold", 200, ratio(15, 1)),
        Err("Loan L1 already exists".to_string())
    );
}

#[test]
fn repay_moves_payment_and_full_repayment_closes() {
    let mut s = ledger_with_pledge();
    create_loan(&mut s, "alice", "pool", "L1", 100, "gold", 200, ratio(15, 1)).unwrap();
    assert_eq!(repay(&mut s, "alice", "pool", "L1", 40), Ok(()));
    assert_eq!(s.get_balance("alice"), 60);
    assert_eq!(s.get_balance("pool"), 940);
    assert_eq!(s.debts.get("L1"), Some(&60));
    assert_eq!(repay(&mut s, "alice", "pool", "L1", 60), Ok(()));
    assert_eq!(s.get_balance("pool"), 1000);
    assert_eq!(s.debts.get("L1"), None);
    assert_eq!(s.receivables.get("L1"), None);
    assert_eq!(s.loan_status.get("L1"), Some(&LoanStatus::Closed));
    assert_eq!(s.assets.get("gold"), Some(&"alice".to_string()));
}

#[test]
fn repay_errors() {
    let mut s = ledger_with_pledge();
    assert_eq!(repay(&mut s, "alice", "pool", "L9", 1), Err("Loan L9 not found".to_string()));
    create_loan(&mut s, "alice", "pool", "L1", 100, "gold", 200, ratio(15, 1)).unwrap();
    assert_eq!(repay(&mut s, "alice", "pool", "L1", 0), Err("Payment must be > 0".to_string()));
    assert_eq!(repay(&mut s, "alice", "pool", "L1", 101), Err("Payment exceeds debt".to_string()));
    assert_eq!(
        repay(&mut s, "bob", "pool", "L1", 50),
        Err("Insufficient balance for bob: has 0, needs 50".to_string())
    );
}

#[test]
fn price_drop_then_liquidation_settles_debt() {
    let mut s = ledger_with_pledge();
    create_loan(&mut s, "alice", "pool", "L1", 100, "gold", 200, ratio(15, 1)).unwrap();
    assert_eq!(liquidate(&mut s, "L1"), Err("Loan L1 is not Liquidatable".to_string()));
    assert_eq!(price_update(&mut s, "L1", 120), Ok(()));
    assert_eq!(s.loan_status.get("L1"), Some(&LoanStatus::Liquidatable));
    assert_eq!(s.asset_value.get("gold"), Some(&120));
    assert_eq!(liquidate(&mut s, "L1"), Ok(()));
    assert_eq!(s.get_balance("liquidation_pool"), 100);
    assert_eq!(s.get_balance("surplus_pool"), 20);
    assert_eq!(s.debts.get("L1"), Some(&0));
    assert_eq!(s.loan_status.get("L1"), Some(&LoanStatus::Closed));
    assert_eq!(s.assets.get("gold"), None);
    assert_eq!(s.asset_value.get("gold"), None);
}

#[test]
fn price_update_errors() {
    let mut s = ledger_with_pledge();
    assert_eq!(price_update(&mut s, "L1", 0), Err("Price update must be > 0".to_string()));
    assert_eq!(price_update(&mut s, "L1", 10), Err("Loan L1 not found".to_string()));
}

#[test]
fn liquidation_with_too_little_collateral_is_refused() {
    let mut s = ledger_with_pledge();
    create_loan(&mut s, "alice", "pool", "L1", 100, "gold", 200, ratio(15, 1)).unwrap();
    price_update(&mut s, "L1", 50).unwrap();
    assert_eq!(liquidate(&mut s, "L1"), Err("Collateral value insufficient to cover debt".to_string()));
}

#[test]
fn invariants_report_unsafe_loan() {
    let mut s = FinancialState::new();
    s.debts.insert("L1".to_string(), 100);
    s.collaterals.insert("L1".to_string(), 100);
    s.required_ratio.insert("L1".to_string(), ratio(15, 1));
    s.loan_status.insert("L1".to_string(), LoanStatus::Closed);
    assert_eq!(s.check_invariants(), Err("Loan L1 Closed but debt > 0".to_string()));
}

#[test]
fn digest_is_same_for_same_contents() {
    let mut a = FinancialState::new();
    a.set_balance("x", 1);
    a.set_balance("y", 2);
    let mut b = FinancialState::new();
    b.set_balance("y", 2);
    b.set_balance("x", 1);
    assert_eq!(digest_state(&a), digest_state(&b));
    b.set_balance("x", 3);
    assert_ne!(digest_state(&a), digest_state(&b));
}

#[test]
fn empty_ledger_digest_is_fnv_offset() {
    let s = FinancialState::new();
    let d = digest_state(&s);
    assert_eq!(d, digest_state(&FinancialState::new()));
    assert_ne!(d, 0);
}

#[test]
fn trace_root_of_no_steps_is_seed_and_grows() {
    let c = compile_source("mint(alice, 10)").unwrap();
    let code = compile(&c.typed_ast);
    let mut vm = Vm::new();
    let mut s = FinancialState::new();
    vm.execute(&code, &mut s).unwrap();
    assert_eq!(vm.trace.root, trace_root(&vm.trace.steps));
    assert_ne!(trace_root(&vm.trace.steps), trace_root(&[]));
}

#[test]
fn statement_of_a_run_verifies_and_tampering_fails() {
    let c = compile_source("mint(alice, 10)").unwrap();
    let code = compile(&c.typed_ast);
    let initial = FinancialState::new();
    let mut s = FinancialState::new();
    let mut vm = Vm::new();
    vm.execute(&code, &mut s).unwrap();
    let st = execution_statement(&code, &initial, &s, &vm.trace);
    assert_eq!(st.program_digest, program_digest(&code));
    assert!(verify_execution_statement(&code, &initial, &s, &vm.trace, &st));
    let mut forged = st;
    forged.final_state_digest ^= 1;
    assert!(!verify_execution_statement(&code, &initial, &s, &vm.trace, &forged));
    assert!(!verify_execution_statement(&code, &s, &s, &vm.trace, &st));
}

#[test]
fn program_digest_depends_on_ops() {
    let a = Bytecode { version: 1, ops: vec![OpCode::Push(1), OpCode::Halt] };
    let b = Bytecode { version: 1, ops: vec![OpCode::Push(2), OpCode::Halt] };
    assert_ne!(program_digest(&a), program_digest(&b));
    assert_eq!(program_digest(&a), program_digest(&Bytecode { version: 1, ops: vec![OpCode::Push(1), OpCode::Halt] }));
}

#[test]
fn verifier_errors() {
    assert_eq!(verify(&Bytecode { version: 1, ops: vec![] }), Err(VerifyError::Empty));
    assert_eq!(verify(&Bytecode { version: 2, ops: vec![OpCode::Halt] }), Err(VerifyError::InvalidVersion(2)));
    assert_eq!(verify(&Bytecode { version: 1, ops: vec![OpCode::Pop, OpCode::Halt] }), Err(VerifyError::StackUnderflow(0)));
    assert_eq!(verify(&Bytecode { version: 1, ops: vec![OpCode::Push(1)] }), Err(VerifyError::MissingHalt));
    assert_eq!(verify(&Bytecode { version: 1, ops: vec![OpCode::Push(1), OpCode::Halt] }), Ok(()));
}

#[test]
fn failed_run_rolls_back_ledger() {
    let mut s = FinancialState::new();
    s.set_balance("alice", 5);
    let code = Bytecode {
        version: 1,
        ops: vec![OpCode::Push(3), OpCode::Mint("alice".to_string()), OpCode::Push(1), OpCode::Push(0), OpCode::Binary(BinOp::Div), OpCode::Halt],
    };
    let mut vm = Vm::new();
    let r = vm.execute(&code, &mut s);
    assert!(matches!(r, Err(VmError::Runtime { .. })));
    assert_eq!(s.get_balance("alice"), 5);
}

#[test]
fn unverified_program_is_rejected_before_running() {
    let mut s = FinancialState::new();
    let mut vm = Vm::new();
    let code = Bytecode { version: 1, ops: vec![OpCode::Push(1), OpCode::Mint("a".to_string())] };
    assert_eq!(vm.execute(&code, &mut s), Err(VmError::Verification(VerifyError::MissingHalt)));
    assert_eq!(s.get_balance("a"), 0);
    assert!(vm.trace.steps.is_empty());
}

#[test]
fn same_program_same_result() {
    let c = compile_source("mint(alice, 7)").unwrap();
    let code = compile(&c.typed_ast);
    let mut s1 = FinancialState::new();
    let mut s2 = FinancialState::new();
    let mut v1 = Vm::new();
    let mut v2 = Vm::new();
    assert_eq!(v1.execute(&code, &mut s1), v2.execute(&code, &mut s2));
    assert_eq!(s1, s2);
    assert_eq!(v1.trace, v2.trace);
}

#[test]
fn atomic_interpretation_rolls_back_on_error() {
    let c = compile_source("mint(alice, 10 / 0)");
    // the type checker accepts it; the division fails at run time
    let c = c.unwrap();
    let interp = Interpreter::new();
    let mut s = FinancialState::new();
    s.set_balance("alice", 1);
    assert_eq!(interp.interpret_atomic(&c.typed_ast, &mut s), Err("division by zero".to_string()));
    assert_eq!(s.get_balance("alice"), 1);
}

#[test]
fn interpretation_mints() {
    let c = compile_source("mint(alice, 2 + 3)").unwrap();
    let mut interp = Interpreter::new();
    let mut s = FinancialState::new();
    assert_eq!(interp.interpret(&c.typed_ast, &mut s), Ok(Value::Unit));
    assert_eq!(s.get_balance("alice"), 5);
}

#[test]
fn lexer_errors() {
    assert_eq!(lex("mint(a, @)"), Err("Unexpected character '@' at 1:9".to_string()));
    assert_eq!(lex("99999999999999999999"), Err("Invalid number at 1:1".to_string()));
}

#[test]
fn parser_reports_token_position() {
    let t = lex("mint(a, 1").unwrap();
    let e = parse(&t).unwrap_err();
    assert!(e.ends_with("at token 6"), "{}", e);
    let t = lex("1 2").unwrap();
    assert_eq!(parse(&t), Err("Unexpected tokens after expression at token 2".to_string()));
}

#[test]
fn unused_linear_resources_are_named() {
    let mut env = TypeEnv::new();
    env.linear.insert("b".to_string(), Type::LinearAsset(AssetKind::Money(Currency::USD))).unwrap();
    env.linear.insert("a".to_string(), Type::LinearAsset(AssetKind::Money(Currency::USD))).unwrap();
    let e = parse(&lex("1").unwrap()).unwrap();
    let mut effects = Effects::new();
    assert_eq!(
        check_program_with_env(&e, &mut env, &mut effects).unwrap_err(),
        "Unused linear resources at end of program: [\"a\", \"b\"]".to_string()
    );
}

#[test]
fn nonce_fixes_the_proof() {
    let (s, _) = generate_keypair();
    let nonce = [7u8; 32];
    let p1 = prove_with_nonce(&s, &nonce, b"m");
    let p2 = prove_with_nonce(&s, &nonce, b"m");
    assert_eq!(p1, p2);
    let p3 = prove_with_nonce(&s, &nonce, b"n");
    assert_ne!(p1.response, p3.response);
    assert_eq!(p1.commitment, p3.commitment);
    assert!(verify_proof(&p1, b"m"));
}

#[test]
fn keypairs_differ_and_public_key_is_bound() {
    let (s1, pk1) = generate_keypair();
    let (s2, pk2) = generate_keypair();
    assert_ne!(s1, s2);
    assert_ne!(pk1, pk2);
    let p = prove(&s1, b"m");
    assert_eq!(p.public_key, pk1);
    let mut q = p;
    q.public_key = pk2;
    assert!(!verify_proof(&q, b"m"));
}

#[test]
fn garbage_points_are_refused() {
    let (s, _) = generate_keypair();
    let mut p = prove(&s, b"m");
    p.commitment = [0xffu8; 32];
    assert!(!verify_proof(&p, b"m"));
}

#[test]
fn second_use_of_linear_resource_is_refused() {
    let mut env = TypeEnv::default();
    env.linear.insert("a".to_string(), Type::LinearAsset(AssetKind::Money(Currency::USD))).unwrap();
    let e = parse(&lex("a").unwrap()).unwrap();
    let mut effects = Effects::new();
    assert!(check_program_with_env(&e, &mut env, &mut effects).is_ok());
    assert_eq!(
        check_program_with_env(&e, &mut env, &mut effects).unwrap_err(),
        "Linear resource 'a' not found or already consumed".to_string()
    );
}

#[test]
fn compiled_programs_pass_the_verifier() {
    for src in [
        "mint(alice, 10)",
        "if 1 < 2 then 3 else 4",
        "let x = 5 in x * 2",
        "(1 + 2) * (3 - 1) / 2",
    ] {
        let c = compile_source(src).unwrap();
        assert_eq!(verify(&compile(&c.typed_ast)), Ok(()), "{}", src);
    }
}

#[test]
fn partial_repayment_keeps_loan_open() {
    let mut s = ledger_with_pledge();
    create_loan(&mut s, "alice", "pool", "L1", 100, "gold", 200, ratio(15, 1)).unwrap();
    repay(&mut s, "alice", "pool", "L1", 99).unwrap();
    assert_eq!(s.debts.get("L1"), Some(&1));
    assert_eq!(s.loan_status.get("L1"), Some(&LoanStatus::ActiveSafe));
    assert_eq!(s.assets.get("gold"), Some(&"loan:L1".to_string()));
}

#[test]
fn defaults_are_empty() {
    assert_eq!(FinancialState::default(), FinancialState::new());
    assert!(Vm::default().trace.steps.is_empty());
    let mut i = Interpreter::default();
    let mut s = FinancialState::default();
    let c = compile_source("mint(bob, 1)").unwrap();
    assert_eq!(i.interpret(&c.typed_ast, &mut s), Ok(Value::Unit));
    assert_eq!(s.get_balance("bob"), 1);
}

#[test]
fn oracle_values_are_read_in_queue_order() {
    let code = Bytecode {
        version: 1,
        ops: vec![OpCode::OracleRead(SourceId::FeedA), OpCode::OracleRead(SourceId::FeedA), OpCode::Binary(BinOp::Lt), OpCode::Halt],
    };
    let mut vm = Vm::new();
    vm.set_oracle_value(SourceId::FeedA, 7);
    vm.set_oracle_value(SourceId::FeedA, 9);
    let mut s = FinancialState::new();
    assert_eq!(vm.execute(&code, &mut s), Ok(Value::Bool(true)));
    let mut vm = Vm::new();
    vm.set_oracle_value(SourceId::FeedA, 9);
    vm.set_oracle_value(SourceId::FeedA, 7);
    assert_eq!(vm.execute(&code, &mut s), Ok(Value::Bool(false)));
}

#[test]
fn unused_resource_names_are_escaped() {
    let mut env = TypeEnv::new();
    env.linear.insert("a\"b".to_string(), Type::LinearAsset(AssetKind::Money(Currency::USD))).unwrap();
    let e = parse(&lex("1").unwrap()).unwrap();
    let mut effects = Effects::new();
    assert_eq!(
        check_program_with_env(&e, &mut env, &mut effects).unwrap_err(),
        format!("Unused linear resources at end of program: {:?}", vec!["a\"b"])
    );
}

#[test]
fn price_recovery_makes_loan_safe_again() {
    let mut s = ledger_with_pledge();
    create_loan(&mut s, "alice", "pool", "L1", 100, "gold", 200, ratio(15, 1)).unwrap();
    price_update(&mut s, "L1", 149).unwrap();
    assert_eq!(s.loan_status.get("L1"), Some(&LoanStatus::Liquidatable));
    price_update(&mut s, "L1", 150).unwrap();
    assert_eq!(s.loan_status.get("L1"), Some(&LoanStatus::ActiveSafe));
    assert_eq!(s.collaterals.get("L1"), Some(&150));
}

#[test]
fn interpreted_named_policy_reads_the_oracle_once() {
    let src = "policy Minimum(x: Amount) { x >= 100 } in validate(oracleRead(feedA), Minimum)";
    let c = compile_source(src).unwrap();
    let mut interp = Interpreter::new();
    interp.set_oracle_value("FeedA", 150);
    let mut s = FinancialState::new();
    assert_eq!(interp.interpret(&c.typed_ast, &mut s), Ok(Value::U64(150)));
    let c = compile_source("policy Minimum(x: Amount) { x >= 200 } in validate(oracleRead(feedA), Minimum)").unwrap();
    let mut interp = Interpreter::new();
    interp.set_oracle_value("FeedA", 150);
    assert_eq!(interp.interpret(&c.typed_ast, &mut s), Err("policy 'Minimum' rejected value 150".to_string()));
}

const SAMPLE_PROGRAMS: [&str; 6] = [
    "mint(alice, 10)",
    "let x = 5 in if x >= 2 then x * 2 else 0",
    "policy Minimum(x: Amount) { x >= 100 } in validate(oracleRead(feedA), Minimum)",
    "mint(bob, toAmount(validate(oracleRead(feedB), PriceBounds)))",
    "let add = fn(x: Amount, y: Amount) -> Amount { x + y } in add(1, 2)",
    "createLoan(a, b, l, toAmount(validate(oracleRead(feedA), PriceBounds)), gold, toAmount(validate(oracleRead(feedB), PriceBounds)), 1.5)",
];

#[test]
fn printed_texts_match_debug_formatting() {
    for src in SAMPLE_PROGRAMS {
        let c = match compile_source(src) {
            Ok(c) => c,
            Err(_) => continue,
        };
        let as_float = |x: String| x.replace("Decimal { mantissa: 15, scale: 1 }", "1.5");
        assert_eq!(
            finlang_core::compiler::canonical_debug(&c),
            as_float(format!("version={} type={:?} ast={:?}", c.source_version, c.ty, c.ast)),
            "{}",
            src
        );
        for op in compile(&c.typed_ast).ops.iter() {
            assert_eq!(finlang_core::render::op_string(op), as_float(format!("{:?}", op)));
        }
        for t in lex(src).unwrap().iter() {
            assert_eq!(finlang_core::render::token_string(t), as_float(format!("{:?}", t)));
        }
    }
}

#[test]
fn unexpected_token_message_names_the_token() {
    let t = lex("mint(a, 1.5").unwrap();
    assert_eq!(parse(&t), Err("Unexpected token Float(1.5) at token 6".to_string()));
    let t = lex("2.0").unwrap();
    assert_eq!(parse(&t), Err("Unexpected token Float(2.0) at token 2".to_string()));
    let t = lex(")").unwrap();
    assert_eq!(parse(&t), Err("Unexpected token RParen at token 2".to_string()));
}

#[test]
fn compiled_programs_count() {
    let mut n = 0;
    for src in SAMPLE_PROGRAMS {
        if compile_source(src).is_ok() {
            n += 1;
        }
    }
    assert!(n >= 4, "{}", n);
}

#[test]
fn line_comment_adds_no_token() {
    assert_eq!(lex("mint(a, 1) //note"), lex("mint(a, 1)"));
    assert_eq!(lex("x //"), lex("x"));
    assert_eq!(lex(" //only a comment"), lex(""));
}

#[test]
fn spans_end_with_eof_at_length() {
    let v = finlang_core::lexer::lex_spanned("ab 12\n+ c").unwrap();
    let last = v.last().unwrap();
    assert_eq!(last.token, finlang_core::lexer::Token::EOF);
    assert_eq!(last.span.offset, 9);
    for w in v.windows(2) {
        assert!(w[0].span.offset < w[1].span.offset);
        assert!(w[0].token != finlang_core::lexer::Token::EOF);
    }
    assert!(v.iter().all(|t| t.span.line >= 1 && t.span.column >= 1));
}

#[test]
fn mint_stays_within_half_the_range() {
    let mut s = FinancialState::new();
    s.set_balance("a", u64::MAX / 2 - 1);
    assert_eq!(mint(&mut s, "a", 1), Ok(()));
    assert_eq!(s.get_balance("a"), u64::MAX / 2);
    assert_eq!(mint(&mut s, "a", 1), Err("Balance overflow for a".to_string()));
}

#[test]
fn partial_repayment_reduces_claim() {
    let mut s = ledger_with_pledge();
    create_loan(&mut s, "alice", "pool", "L1", 100, "gold", 200, ratio(15, 1)).unwrap();
    repay(&mut s, "alice", "pool", "L1", 30).unwrap();
    assert_eq!(s.receivables.get("L1"), Some(&70));
}

#[test]
fn decimals_print_as_floats() {
    assert_eq!(token_string(&Token::Float(ratio(15, 1))), "Float(1.5)");
    assert_eq!(token_string(&Token::Float(ratio(2, 0))), "Float(2.0)");
    assert_eq!(token_string(&Token::Float(ratio(5, 2))), "Float(0.05)");
    assert_eq!(token_string(&Token::Ident("x\"y".to_string())), format!("{:?}", Token::Ident("x\"y".to_string())));
}

#[test]
fn machine_arithmetic_never_wraps() {
    for (op, a, b, msg) in [
        (BinOp::Add, u64::MAX, 1, "addition overflow"),
        (BinOp::Sub, 1, 2, "subtraction underflow"),
        (BinOp::Mul, u64::MAX, 2, "multiplication overflow"),
    ] {
        let code = Bytecode { version: 1, ops: vec![OpCode::Push(a), OpCode::Push(b), OpCode::Binary(op), OpCode::Halt] };
        let mut s = FinancialState::new();
        let r = Vm::new().execute(&code, &mut s);
        assert_eq!(r, Err(VmError::Runtime { pc: 2, message: msg.to_string() }));
    }
    let code = Bytecode { version: 1, ops: vec![OpCode::Push(7), OpCode::Push(6), OpCode::Binary(BinOp::Mul), OpCode::Halt] };
    let mut s = FinancialState::new();
    assert_eq!(Vm::new().execute(&code, &mut s), Ok(Value::U64(42)));
}
