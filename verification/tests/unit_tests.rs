use curve25519_dalek::scalar::Scalar;
use finlang_core::bytecode::{compile, verify, Bytecode, OpCode, Vm};
use finlang_core::compiler::{compile_source, SEMANTICS_VERSION};
use finlang_core::decimal::Decimal;
use finlang_core::interpreter::Value;
use finlang_core::lexer::{lex, Token};
use finlang_core::state::FinancialState;
use finlang_core::zk::{generate_keypair, prove, verify as verify_proof};

#[test]
fn compiles_and_executes_bytecode() {
    let c = compile_source("mint(alice, 10)").unwrap();
    let b = compile(&c.typed_ast);
    let mut vm = Vm::new();
    let mut s = FinancialState::new();
    assert_eq!(vm.execute(&b, &mut s), Ok(Value::Unit));
    assert_eq!(s.get_balance("alice"), 10);
    assert!(!vm.trace.steps.is_empty());
}

#[test]
fn verifier_rejects_missing_halt() {
    assert!(verify(&Bytecode {
        version: 1,
        ops: vec![OpCode::Push(1)]
    })
    .is_err());
}

#[test]
fn pipeline_compiles_mint() {
    let c = compile_source("mint(alice, 10)").unwrap();
    assert_eq!(c.source_version, SEMANTICS_VERSION);
}

#[test]
fn lexes_all_operations() {
    let t = lex("createLoan(a,b,l,1,asset,200,1.5); repay(a,b,l,1);").unwrap();
    assert!(t.contains(&Token::CreateLoan));
    assert!(t.contains(&Token::Float(Decimal { mantissa: 15, scale: 1 })));
}

#[test]
fn reports_location() {
    assert!(lex("mint(a, @)").unwrap_err().contains("1:9"));
}

#[test]
fn valid_proof_verifies() {
    let (s, _) = generate_keypair();
    let p = prove(&s, b"statement");
    assert!(verify_proof(&p, b"statement"));
}

#[test]
fn modified_statement_fails() {
    let (s, _) = generate_keypair();
    let p = prove(&s, b"statement");
    assert!(!verify_proof(&p, b"changed"));
}

#[test]
fn modified_response_fails() {
    let (s, _) = generate_keypair();
    let mut p = prove(&s, b"statement");
    let response = Scalar::from_bytes_mod_order(p.response) + Scalar::ONE;
    p.response = response.to_bytes();
    assert!(!verify_proof(&p, b"statement"));
}
