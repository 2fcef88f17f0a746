//! The pipeline from source text to a checked, typed program.
use vstd::prelude::*;
use crate::ast::{Expr, SpecExpr};
use crate::lexer::{lemma_lex_len, lex, spec_lex, tokens_view, SpecToken, Span};
use crate::parser::{lemma_toks, parse, spec_parse};
use crate::text::{push_nat, push_str, text};
use crate::type_checker::{check_program, spec_check_program};
use crate::typed_ast::{SpecTyped, TypedExpr};
use crate::types::{push_type, type_text, SpecType, Type};
use crate::render::{expr_text, push_expr};

verus! {

/// The version of the language's semantics that this compiler implements.
pub const SEMANTICS_VERSION: &'static str = "finlang-0.1";

/// A checked program: the version of its semantics, its tree, its typed tree and its type.
#[derive(Debug, PartialEq)]
pub struct Compilation {
    pub source_version: &'static str,
    pub ast: Expr,
    pub typed_ast: TypedExpr,
    pub ty: Type,
}

/// Why a source text was refused: the phase that refused it, its message, and a position where
/// one is known.
#[derive(Debug, Clone, PartialEq)]
pub struct Diagnostic {
    pub phase: &'static str,
    pub message: String,
    pub line: Option<usize>,
    pub column: Option<usize>,
}

/// How a diagnostic is reported: `phase:line:column: message` with a position, else
/// `phase: message`.
pub open spec fn diagnostic_text(phase: Seq<char>, message: Seq<char>, line: Option<usize>, column: Option<usize>) -> Seq<char> {
    match (line, column) {
        (Some(l), Some(c)) => phase + ":"@ + crate::text::nat_text(l as nat) + ":"@ + crate::text::nat_text(c as nat)
            + ": "@ + message,
        _ => phase + ": "@ + message,
    }
}

impl Diagnostic {
    /// The report of the diagnostic.
    pub fn to_text(&self) -> (r: String)
        ensures
            r@ == diagnostic_text(self.phase@, self.message@, self.line, self.column),
    {
        let mut s = text(self.phase);
        match (self.line, self.column) {
            (Some(l), Some(c)) => {
                push_str(&mut s, ":");
                push_nat(&mut s, l as u64);
                push_str(&mut s, ":");
                push_nat(&mut s, c as u64);
                push_str(&mut s, ": ");
            },
            _ => {
                push_str(&mut s, ": ");
            },
        }
        push_str(&mut s, self.message.as_str());
        s
    }
}

/// What the pipeline makes of a source text: the tree, typed tree and type, or the refusing
/// phase and its message.
pub open spec fn spec_compile_source(cs: Seq<char>) -> Result<(SpecExpr, SpecTyped, SpecType), (Seq<char>, Seq<char>)> {
    match spec_lex(cs) {
        Err(m) => Err(("lexer"@, m)),
        Ok(ts) => match spec_parse(ts.map_values(|t: (SpecToken, Span)| t.0)) {
            Err(m) => Err(("parser"@, m)),
            Ok(e) => match spec_check_program(e) {
                Err(m) => Err(("type-checker"@, m)),
                Ok((te, t)) => Ok((e, te, t)),
            },
        },
    }
}

fn refused(phase: &'static str, message: String) -> (d: Diagnostic)
    ensures
        d.phase@ == phase@,
        d.message@ == message@,
        d.line is None,
        d.column is None,
{
    Diagnostic { phase, message, line: None, column: None }
}

/// Lexes, parses and checks a source text.
pub fn compile_source(source: &str) -> (r: Result<Compilation, Diagnostic>)
    requires
        source@.len() + 10 < usize::MAX,
    ensures
        match spec_compile_source(source@) {
            Ok((e, te, t)) => r matches Ok(c) && c.ast@ == e && c.typed_ast@ == te && c.ty@ == t
                && c.source_version@ == SEMANTICS_VERSION@,
            Err((phase, m)) => r matches Err(d) && d.phase@ == phase && d.message@ == m && d.line is None
                && d.column is None,
        },
{
    let tokens = match lex(source) {
        Ok(t) => t,
        Err(m) => {
            return Err(refused("lexer", m));
        },
    };
    proof {
        lemma_lex_len(source@, 0, 1, 1);
        lemma_toks(tokens@);
        assert(crate::parser::toks(tokens@) =~= tokens_view(tokens@));
    }
    let ast = match parse(tokens.as_slice()) {
        Ok(e) => e,
        Err(m) => {
            return Err(refused("parser", m));
        },
    };
    let (typed_ast, ty) = match check_program(&ast) {
        Ok(x) => x,
        Err(m) => {
            return Err(refused("type-checker", m));
        },
    };
    Ok(Compilation { source_version: SEMANTICS_VERSION, ast, typed_ast, ty })
}

/// The canonical text of a compilation: `version=` and the version, then ` type=` and
/// ` ast=` with the texts of the type and the tree as `{:?}` writes them.
pub open spec fn canonical_text(version: Seq<char>, ty: SpecType, ast: SpecExpr) -> Seq<char> {
    "version="@ + version + " type="@ + type_text(ty) + " ast="@ + expr_text(ast)
}

/// The canonical text of a compilation.
pub fn canonical_debug(c: &Compilation) -> (r: String)
    ensures
        r@ == canonical_text(c.source_version@, c.ty@, c.ast@),
{
    let mut s = text("version=");
    push_str(&mut s, c.source_version);
    push_str(&mut s, " type=");
    push_type(&mut s, &c.ty);
    push_str(&mut s, " ast=");
    push_expr(&mut s, &c.ast);
    assert(s@ =~= canonical_text(c.source_version@, c.ty@, c.ast@));
    s
}

} // verus!
