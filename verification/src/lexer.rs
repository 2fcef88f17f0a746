//! Splitting source text into tokens, each with its line, column and offset.
use vstd::prelude::*;
use crate::decimal::{strip_zeros, Decimal};
use crate::keys::same_text;
use crate::text::{nat_text, push_char, push_nat, push_str, text};
pub use crate::ast::{AssetKind, Currency, PolicyId, SourceId};

verus! {

#[derive(Debug, PartialEq)]
pub enum Token {
    Let,
    In,
    Fn,
    Policy,
    If,
    Then,
    Else,
    True,
    False,
    Transfer,
    Mint,
    OracleRead,
    Validate,
    ToAmount,
    UnsafeAssumeTrusted,
    CreateLoan,
    Repay,
    PriceUpdate,
    Liquidate,
    LParen,
    RParen,
    Comma,
    Equals,
    EqEq,
    Lt,
    Gt,
    Le,
    Ge,
    Plus,
    Minus,
    Star,
    Slash,
    Colon,
    Semicolon,
    Arrow,
    LBrace,
    RBrace,
    Number(u64),
    Float(Decimal),
    Ident(String),
    EOF,
}

/// A token, with names as character sequences.
pub enum SpecToken {
    Let,
    In,
    Fn,
    Policy,
    If,
    Then,
    Else,
    True,
    False,
    Transfer,
    Mint,
    OracleRead,
    Validate,
    ToAmount,
    UnsafeAssumeTrusted,
    CreateLoan,
    Repay,
    PriceUpdate,
    Liquidate,
    LParen,
    RParen,
    Comma,
    Equals,
    EqEq,
    Lt,
    Gt,
    Le,
    Ge,
    Plus,
    Minus,
    Star,
    Slash,
    Colon,
    Semicolon,
    Arrow,
    LBrace,
    RBrace,
    Number(u64),
    Float(Decimal),
    Ident(Seq<char>),
    EOF,
}

impl View for Token {
    type V = SpecToken;

    open spec fn view(&self) -> SpecToken {
        match self {
            Token::Let => SpecToken::Let,
            Token::In => SpecToken::In,
            Token::Fn => SpecToken::Fn,
            Token::Policy => SpecToken::Policy,
            Token::If => SpecToken::If,
            Token::Then => SpecToken::Then,
            Token::Else => SpecToken::Else,
            Token::True => SpecToken::True,
            Token::False => SpecToken::False,
            Token::Transfer => SpecToken::Transfer,
            Token::Mint => SpecToken::Mint,
            Token::OracleRead => SpecToken::OracleRead,
            Token::Validate => SpecToken::Validate,
            Token::ToAmount => SpecToken::ToAmount,
            Token::UnsafeAssumeTrusted => SpecToken::UnsafeAssumeTrusted,
            Token::CreateLoan => SpecToken::CreateLoan,
            Token::Repay => SpecToken::Repay,
            Token::PriceUpdate => SpecToken::PriceUpdate,
            Token::Liquidate => SpecToken::Liquidate,
            Token::LParen => SpecToken::LParen,
            Token::RParen => SpecToken::RParen,
            Token::Comma => SpecToken::Comma,
            Token::Equals => SpecToken::Equals,
            Token::EqEq => SpecToken::EqEq,
            Token::Lt => SpecToken::Lt,
            Token::Gt => SpecToken::Gt,
            Token::Le => SpecToken::Le,
            Token::Ge => SpecToken::Ge,
            Token::Plus => SpecToken::Plus,
            Token::Minus => SpecToken::Minus,
            Token::Star => SpecToken::Star,
            Token::Slash => SpecToken::Slash,
            Token::Colon => SpecToken::Colon,
            Token::Semicolon => SpecToken::Semicolon,
            Token::Arrow => SpecToken::Arrow,
            Token::LBrace => SpecToken::LBrace,
            Token::RBrace => SpecToken::RBrace,
            Token::Number(n) => SpecToken::Number(*n),
            Token::Float(d) => SpecToken::Float(*d),
            Token::Ident(s) => SpecToken::Ident(s@),
            Token::EOF => SpecToken::EOF,
        }
    }
}

impl Token {
    /// A copy of the token.
    pub fn copy(&self) -> (r: Token)
        ensures
            r@ == self@,
    {
        match self {
            Token::Let => Token::Let,
            Token::In => Token::In,
            Token::Fn => Token::Fn,
            Token::Policy => Token::Policy,
            Token::If => Token::If,
            Token::Then => Token::Then,
            Token::Else => Token::Else,
            Token::True => Token::True,
            Token::False => Token::False,
            Token::Transfer => Token::Transfer,
            Token::Mint => Token::Mint,
            Token::OracleRead => Token::OracleRead,
            Token::Validate => Token::Validate,
            Token::ToAmount => Token::ToAmount,
            Token::UnsafeAssumeTrusted => Token::UnsafeAssumeTrusted,
            Token::CreateLoan => Token::CreateLoan,
            Token::Repay => Token::Repay,
            Token::PriceUpdate => Token::PriceUpdate,
            Token::Liquidate => Token::Liquidate,
            Token::LParen => Token::LParen,
            Token::RParen => Token::RParen,
            Token::Comma => Token::Comma,
            Token::Equals => Token::Equals,
            Token::EqEq => Token::EqEq,
            Token::Lt => Token::Lt,
            Token::Gt => Token::Gt,
            Token::Le => Token::Le,
            Token::Ge => Token::Ge,
            Token::Plus => Token::Plus,
            Token::Minus => Token::Minus,
            Token::Star => Token::Star,
            Token::Slash => Token::Slash,
            Token::Colon => Token::Colon,
            Token::Semicolon => Token::Semicolon,
            Token::Arrow => Token::Arrow,
            Token::LBrace => Token::LBrace,
            Token::RBrace => Token::RBrace,
            Token::Number(n) => Token::Number(*n),
            Token::Float(d) => Token::Float(*d),
            Token::Ident(s) => Token::Ident(text(s.as_str())),
            Token::EOF => Token::EOF,
        }
    }
}

/// Where a token starts: line and column from one, and the offset in characters.
#[derive(Debug, Clone, Copy, PartialEq, Eq, Structural)]
pub struct Span {
    pub line: usize,
    pub column: usize,
    pub offset: usize,
}

#[derive(Debug, PartialEq)]
pub struct SpannedToken {
    pub token: Token,
    pub span: Span,
}

impl View for SpannedToken {
    type V = (SpecToken, Span);

    open spec fn view(&self) -> (SpecToken, Span) {
        (self.token@, self.span)
    }
}

// ---------------------------------------------------------------------------------------------
// The lexical rules.

/// The keyword a word spells, if any.
pub open spec fn keyword_of(s: Seq<char>) -> Option<SpecToken> {
    if s == "let"@ {
        Some(SpecToken::Let)
    } else if s == "in"@ {
        Some(SpecToken::In)
    } else if s == "fn"@ {
        Some(SpecToken::Fn)
    } else if s == "policy"@ {
        Some(SpecToken::Policy)
    } else if s == "if"@ {
        Some(SpecToken::If)
    } else if s == "then"@ {
        Some(SpecToken::Then)
    } else if s == "else"@ {
        Some(SpecToken::Else)
    } else if s == "true"@ {
        Some(SpecToken::True)
    } else if s == "false"@ {
        Some(SpecToken::False)
    } else if s == "transfer"@ {
        Some(SpecToken::Transfer)
    } else if s == "mint"@ {
        Some(SpecToken::Mint)
    } else if s == "oracleRead"@ {
        Some(SpecToken::OracleRead)
    } else if s == "validate"@ {
        Some(SpecToken::Validate)
    } else if s == "toAmount"@ {
        Some(SpecToken::ToAmount)
    } else if s == "unsafeAssumeTrusted"@ {
        Some(SpecToken::UnsafeAssumeTrusted)
    } else if s == "createLoan"@ {
        Some(SpecToken::CreateLoan)
    } else if s == "repay"@ {
        Some(SpecToken::Repay)
    } else if s == "priceUpdate"@ {
        Some(SpecToken::PriceUpdate)
    } else if s == "liquidate"@ {
        Some(SpecToken::Liquidate)
    } else {
        None
    }
}

/// The keyword token a word spells, if any.
pub fn keyword(s: &str) -> (r: Option<Token>)
    ensures
        match keyword_of(s@) {
            Some(t) => r matches Some(x) && x@ == t,
            None => r is None,
        },
{
    if same_text(s, "let") {
        Some(Token::Let)
    } else if same_text(s, "in") {
        Some(Token::In)
    } else if same_text(s, "fn") {
        Some(Token::Fn)
    } else if same_text(s, "policy") {
        Some(Token::Policy)
    } else if same_text(s, "if") {
        Some(Token::If)
    } else if same_text(s, "then") {
        Some(Token::Then)
    } else if same_text(s, "else") {
        Some(Token::Else)
    } else if same_text(s, "true") {
        Some(Token::True)
    } else if same_text(s, "false") {
        Some(Token::False)
    } else if same_text(s, "transfer") {
        Some(Token::Transfer)
    } else if same_text(s, "mint") {
        Some(Token::Mint)
    } else if same_text(s, "oracleRead") {
        Some(Token::OracleRead)
    } else if same_text(s, "validate") {
        Some(Token::Validate)
    } else if same_text(s, "toAmount") {
        Some(Token::ToAmount)
    } else if same_text(s, "unsafeAssumeTrusted") {
        Some(Token::UnsafeAssumeTrusted)
    } else if same_text(s, "createLoan") {
        Some(Token::CreateLoan)
    } else if same_text(s, "repay") {
        Some(Token::Repay)
    } else if same_text(s, "priceUpdate") {
        Some(Token::PriceUpdate)
    } else if same_text(s, "liquidate") {
        Some(Token::Liquidate)
    } else {
        None
    }
}

/// Whether a character is alphanumeric, as `char::is_alphanumeric` decides.
pub uninterp spec fn alphanumeric(c: char) -> bool;

/// Calls `char::is_alphanumeric`; the contract names its result, which depends on the
/// character alone.
#[verifier::external_body]
fn is_alphanumeric(c: char) -> (r: bool)
    ensures
        r == alphanumeric(c),
{
    c.is_alphanumeric()
}

pub open spec fn is_digit(c: char) -> bool {
    '0' <= c <= '9'
}

pub open spec fn starts_word(c: char) -> bool {
    ('a' <= c <= 'z') || ('A' <= c <= 'Z') || c == '_'
}

/// A character that continues a word: a letter, a digit or `_`. On ASCII characters
/// `char::is_alphanumeric` holds exactly of the letters and digits, so only other characters
/// are put to it.
pub open spec fn continues_word(c: char) -> bool {
    if c <= '\u{7f}' {
        ('a' <= c <= 'z') || ('A' <= c <= 'Z') || ('0' <= c <= '9') || c == '_'
    } else {
        alphanumeric(c)
    }
}

fn word_char(c: char) -> (r: bool)
    ensures
        r == continues_word(c),
{
    if c <= '\u{7f}' {
        ('a' <= c && c <= 'z') || ('A' <= c && c <= 'Z') || ('0' <= c && c <= '9') || c == '_'
    } else {
        is_alphanumeric(c)
    }
}

/// The end of the run of digits from `i`.
pub open spec fn digits_end(cs: Seq<char>, i: nat) -> nat
    decreases cs.len() - i,
{
    if i < cs.len() && is_digit(cs[i as int]) {
        digits_end(cs, i + 1)
    } else {
        i
    }
}

/// The end of the run of word characters from `i`.
pub open spec fn word_end(cs: Seq<char>, i: nat) -> nat
    decreases cs.len() - i,
{
    if i < cs.len() && continues_word(cs[i as int]) {
        word_end(cs, i + 1)
    } else {
        i
    }
}

/// The end of the line from `i`: the next newline, or the end of the text.
pub open spec fn line_end(cs: Seq<char>, i: nat) -> nat
    decreases cs.len() - i,
{
    if i < cs.len() && cs[i as int] != '\n' {
        line_end(cs, i + 1)
    } else {
        i
    }
}

/// The number a string of digits writes.
pub open spec fn digits_value(ds: Seq<char>) -> nat
    decreases ds.len(),
{
    if ds.len() == 0 {
        0
    } else {
        digits_value(ds.drop_last()) * 10 + ((ds.last() as int) - ('0' as int)) as nat
    }
}

/// A position, as `line:column`.
pub open spec fn location(line: nat, col: nat) -> Seq<char> {
    nat_text(line) + ":"@ + nat_text(col)
}

/// A punctuation token at `i`, and how many characters it takes.
pub open spec fn punctuation(cs: Seq<char>, i: nat) -> Option<(SpecToken, nat)> {
    let c = cs[i as int];
    let next_is = |d: char| i + 1 < cs.len() && cs[(i + 1) as int] == d;
    if c == '(' {
        Some((SpecToken::LParen, 1))
    } else if c == ')' {
        Some((SpecToken::RParen, 1))
    } else if c == ',' {
        Some((SpecToken::Comma, 1))
    } else if c == '=' {
        if next_is('=') {
            Some((SpecToken::EqEq, 2))
        } else {
            Some((SpecToken::Equals, 1))
        }
    } else if c == '<' {
        if next_is('=') {
            Some((SpecToken::Le, 2))
        } else {
            Some((SpecToken::Lt, 1))
        }
    } else if c == '>' {
        if next_is('=') {
            Some((SpecToken::Ge, 2))
        } else {
            Some((SpecToken::Gt, 1))
        }
    } else if c == '+' {
        Some((SpecToken::Plus, 1))
    } else if c == '-' {
        if next_is('>') {
            Some((SpecToken::Arrow, 2))
        } else {
            Some((SpecToken::Minus, 1))
        }
    } else if c == '*' {
        Some((SpecToken::Star, 1))
    } else if c == '/' {
        Some((SpecToken::Slash, 1))
    } else if c == '{' {
        Some((SpecToken::LBrace, 1))
    } else if c == '}' {
        Some((SpecToken::RBrace, 1))
    } else if c == ':' {
        Some((SpecToken::Colon, 1))
    } else if c == ';' {
        Some((SpecToken::Semicolon, 1))
    } else {
        None
    }
}

/// A numeric literal at `i`, and where it ends. A literal with a point is a decimal: its
/// digits, less trailing zeros after the point, form the mantissa.
pub open spec fn number_at(cs: Seq<char>, i: nat, line: nat, col: nat) -> Result<(SpecToken, nat), Seq<char>> {
    let j = digits_end(cs, i);
    if j < cs.len() && cs[j as int] == '.' {
        let k = digits_end(cs, j + 1);
        let frac = strip_zeros(cs.subrange((j + 1) as int, k as int));
        let m = digits_value(cs.subrange(i as int, j as int) + frac);
        if m > u64::MAX || frac.len() > u32::MAX {
            Err("Invalid decimal at "@ + location(line, col))
        } else {
            Ok((SpecToken::Float(Decimal { mantissa: m as u64, scale: frac.len() as u32 }), k))
        }
    } else {
        let v = digits_value(cs.subrange(i as int, j as int));
        if v > u64::MAX {
            Err("Invalid number at "@ + location(line, col))
        } else {
            Ok((SpecToken::Number(v as u64), j))
        }
    }
}

/// A word at `i`: a keyword or a name, and where it ends.
pub open spec fn word_at(cs: Seq<char>, i: nat) -> (SpecToken, nat) {
    let j = word_end(cs, i + 1);
    let w = cs.subrange(i as int, j as int);
    match keyword_of(w) {
        Some(k) => (k, j),
        None => (SpecToken::Ident(w), j),
    }
}

/// Tokens before an outcome.
pub open spec fn prepend(
    done: Seq<(SpecToken, Span)>,
    r: Result<Seq<(SpecToken, Span)>, Seq<char>>,
) -> Result<Seq<(SpecToken, Span)>, Seq<char>> {
    match r {
        Ok(rest) => Ok(done + rest),
        Err(m) => Err(m),
    }
}

pub open spec fn span(line: nat, col: nat, offset: nat) -> Span {
    Span { line: line as usize, column: col as usize, offset: offset as usize }
}

pub proof fn lemma_digits_end(cs: Seq<char>, i: nat)
    ensures
        digits_end(cs, i) >= i,
        digits_end(cs, i) <= cs.len() || digits_end(cs, i) == i,
    decreases cs.len() - i,
{
    if i < cs.len() && is_digit(cs[i as int]) {
        lemma_digits_end(cs, i + 1);
    }
}

pub proof fn lemma_word_end(cs: Seq<char>, i: nat)
    ensures
        word_end(cs, i) >= i,
        word_end(cs, i) <= cs.len() || word_end(cs, i) == i,
    decreases cs.len() - i,
{
    if i < cs.len() && continues_word(cs[i as int]) {
        lemma_word_end(cs, i + 1);
    }
}

pub proof fn lemma_line_end(cs: Seq<char>, i: nat)
    ensures
        line_end(cs, i) >= i,
        line_end(cs, i) <= cs.len() || line_end(cs, i) == i,
    decreases cs.len() - i,
{
    if i < cs.len() && cs[i as int] != '\n' {
        lemma_line_end(cs, i + 1);
    }
}

pub proof fn lemma_number_at(cs: Seq<char>, i: nat, line: nat, col: nat)
    requires
        i < cs.len(),
        is_digit(cs[i as int]),
    ensures
        number_at(cs, i, line, col) matches Ok((_, j)) ==> i < j <= cs.len(),
{
    lemma_digits_end(cs, i);
    lemma_digits_end(cs, i + 1);
    let j = digits_end(cs, i);
    assert(j == digits_end(cs, i + 1));
    if j < cs.len() && cs[j as int] == '.' {
        lemma_digits_end(cs, j + 1);
    }
}

/// The token that starts at `i`, which is neither blank nor a comment, and where it ends.
pub open spec fn next_token(cs: Seq<char>, i: nat, line: nat, col: nat) -> Result<(SpecToken, nat), Seq<char>> {
    let c = cs[i as int];
    match punctuation(cs, i) {
        Some((t, w)) => Ok((t, i + w)),
        None => if is_digit(c) {
            number_at(cs, i, line, col)
        } else if starts_word(c) {
            Ok(word_at(cs, i))
        } else {
            Err("Unexpected character '"@ + seq![c] + "' at "@ + location(line, col))
        },
    }
}

pub proof fn lemma_next_token(cs: Seq<char>, i: nat, line: nat, col: nat)
    requires
        i < cs.len(),
    ensures
        next_token(cs, i, line, col) matches Ok((_, j)) ==> i < j <= cs.len(),
{
    let c = cs[i as int];
    if punctuation(cs, i) is None {
        if is_digit(c) {
            lemma_number_at(cs, i, line, col);
        } else {
            lemma_word_end(cs, i + 1);
        }
    }
}

/// The tokens from position `i`, at the given line and column, ending with `EOF`.
pub open spec fn lex_from(cs: Seq<char>, i: nat, line: nat, col: nat) -> Result<Seq<(SpecToken, Span)>, Seq<char>>
    decreases cs.len() - i,
{
    if i >= cs.len() {
        Ok(seq![(SpecToken::EOF, span(line, col, i))])
    } else {
        let c = cs[i as int];
        if c == ' ' || c == '\t' || c == '\r' {
            lex_from(cs, i + 1, line, col + 1)
        } else if c == '\n' {
            lex_from(cs, i + 1, line + 1, 1)
        } else if c == '/' && i + 1 < cs.len() && cs[(i + 1) as int] == '/' {
            let j = line_end(cs, i + 1);
            proof {
                lemma_line_end(cs, i + 1);
            }
            lex_from(cs, j, line, (col + (j - i)) as nat)
        } else {
            proof {
                lemma_next_token(cs, i, line, col);
            }
            match next_token(cs, i, line, col) {
                Err(m) => Err(m),
                Ok((t, j)) => prepend(seq![(t, span(line, col, i))], lex_from(cs, j, line, (col + (j - i)) as nat)),
            }
        }
    }
}


/// A text of `n` characters has at most `n + 1` tokens.
pub proof fn lemma_lex_len(cs: Seq<char>, i: nat, line: nat, col: nat)
    requires
        i <= cs.len(),
    ensures
        lex_from(cs, i, line, col) matches Ok(ts) ==> ts.len() <= cs.len() - i + 1,
    decreases cs.len() - i,
{
    if i < cs.len() {
        let c = cs[i as int];
        if c == ' ' || c == '\t' || c == '\r' {
            lemma_lex_len(cs, i + 1, line, col + 1);
        } else if c == '\n' {
            lemma_lex_len(cs, i + 1, line + 1, 1);
        } else if c == '/' && i + 1 < cs.len() && cs[(i + 1) as int] == '/' {
            lemma_line_end(cs, i + 1);
            let j = line_end(cs, i + 1);
            lemma_lex_len(cs, j, line, (col + (j - i)) as nat);
        } else {
            lemma_next_token(cs, i, line, col);
            match next_token(cs, i, line, col) {
                Err(_) => {},
                Ok((t, j)) => {
                    lemma_lex_len(cs, j, line, (col + (j - i)) as nat);
                },
            }
        }
    }
}

/// The tokens of a text end with `EOF` at the text's length and nowhere else; offsets rise
/// strictly from the start position, and lines and columns count from one.
pub open spec fn well_spanned(ts: Seq<(SpecToken, Span)>, i: nat, n: nat) -> bool {
    &&& ts.len() >= 1
    &&& ts.last().0 == SpecToken::EOF
    &&& ts.last().1.offset == n
    &&& forall|k: int| 0 <= k < ts.len() - 1 ==> #[trigger] ts[k].0 != SpecToken::EOF
    &&& forall|a: int, b: int| 0 <= a < b < ts.len() ==> #[trigger] ts[a].1.offset < #[trigger] ts[b].1.offset
    &&& forall|k: int| 0 <= k < ts.len() ==> #[trigger] ts[k].1.offset >= i && ts[k].1.line >= 1 && ts[k].1.column >= 1
}

proof fn lemma_next_token_not_eof(cs: Seq<char>, i: nat, line: nat, col: nat)
    requires
        i < cs.len(),
    ensures
        next_token(cs, i, line, col) matches Ok((t, _)) ==> t != SpecToken::EOF,
{
    let c = cs[i as int];
    if punctuation(cs, i) is None && !is_digit(c) && starts_word(c) {
        let j = word_end(cs, i + 1);
        let w = cs.subrange(i as int, j as int);
        assert(keyword_of(w) matches Some(k) ==> k != SpecToken::EOF);
    }
}

proof fn lemma_lex_from_spans(cs: Seq<char>, i: nat, line: nat, col: nat)
    requires
        i <= cs.len(),
        cs.len() < usize::MAX,
        line >= 1,
        col >= 1,
        line + (cs.len() - i) <= usize::MAX,
        col + (cs.len() - i) <= usize::MAX,
    ensures
        lex_from(cs, i, line, col) matches Ok(ts) ==> well_spanned(ts, i, cs.len()),
    decreases cs.len() - i,
{
    if i < cs.len() {
        let c = cs[i as int];
        if c == ' ' || c == '\t' || c == '\r' {
            lemma_lex_from_spans(cs, i + 1, line, col + 1);
        } else if c == '\n' {
            lemma_lex_from_spans(cs, i + 1, line + 1, 1);
        } else if c == '/' && i + 1 < cs.len() && cs[(i + 1) as int] == '/' {
            lemma_line_end(cs, i + 1);
            let j = line_end(cs, i + 1);
            lemma_lex_from_spans(cs, j, line, (col + (j - i)) as nat);
        } else {
            lemma_next_token(cs, i, line, col);
            lemma_next_token_not_eof(cs, i, line, col);
            if let Ok((t, j)) = next_token(cs, i, line, col) {
                lemma_lex_from_spans(cs, j, line, (col + (j - i)) as nat);
                if let Ok(rest) = lex_from(cs, j, line, (col + (j - i)) as nat) {
                    let head = seq![(t, span(line, col, i))];
                    let ts = head + rest;
                    assert(ts.last() == rest.last());
                    assert forall|k: int| 0 <= k < ts.len() - 1 implies #[trigger] ts[k].0 != SpecToken::EOF by {
                        if k > 0 {
                            assert(ts[k] == rest[k - 1]);
                        }
                    }
                    assert forall|a: int, b: int| 0 <= a < b < ts.len() implies #[trigger] ts[a].1.offset
                        < #[trigger] ts[b].1.offset by {
                        assert(ts[b] == rest[b - 1]);
                        if a > 0 {
                            assert(ts[a] == rest[a - 1]);
                        }
                    }
                    assert forall|k: int| 0 <= k < ts.len() implies #[trigger] ts[k].1.offset >= i && ts[k].1.line
                        >= 1 && ts[k].1.column >= 1 by {
                        if k > 0 {
                            assert(ts[k] == rest[k - 1]);
                        }
                    }
                }
            }
        }
    }
}

/// The tokens of a text end with `EOF` at the text's length and nowhere else, their offsets
/// rise strictly, and every line and column counts from one.
pub proof fn law_lex_spans(cs: Seq<char>)
    requires
        cs.len() < usize::MAX,
    ensures
        spec_lex(cs) matches Ok(ts) ==> well_spanned(ts, 0, cs.len()),
{
    lemma_lex_from_spans(cs, 0, 1, 1);
}

/// The tokens of a text, each with its position.
pub open spec fn spec_lex(cs: Seq<char>) -> Result<Seq<(SpecToken, Span)>, Seq<char>> {
    lex_from(cs, 0, 1, 1)
}


// ---------------------------------------------------------------------------------------------
// The lexer.

/// The views of spanned tokens.
pub open spec fn spanned_view(v: Seq<SpannedToken>) -> Seq<(SpecToken, Span)> {
    Seq::new(v.len(), |i: int| v[i]@)
}

/// The views of tokens.
pub open spec fn tokens_view(v: Seq<Token>) -> Seq<SpecToken> {
    Seq::new(v.len(), |i: int| v[i]@)
}

fn chars_of(input: &str) -> (r: Vec<char>)
    ensures
        r@ == input@,
{
    let mut out: Vec<char> = Vec::new();
    proof {
        vstd::string::axiom_spec_iter(input);
    }
    for c in it: input.chars()
        invariant
            it.seq() == input@,
            out@ == input@.take(it.index() as int),
    {
        let ghost i = it.index();
        out.push(c);
        assert(out@ =~= input@.take(i + 1));
    }
    assert(out@ =~= input@);
    out
}

fn is_digit_char(c: char) -> (r: bool)
    ensures
        r == is_digit(c),
{
    '0' <= c && c <= '9'
}

fn scan_digits(cs: &Vec<char>, i: usize) -> (j: usize)
    requires
        i <= cs@.len(),
    ensures
        j == digits_end(cs@, i as nat),
        i <= j <= cs@.len(),
        forall|k: int| i <= k < j ==> is_digit(#[trigger] cs@[k]),
{
    let mut j = i;
    while j < cs.len() && is_digit_char(cs[j])
        invariant
            i <= j <= cs@.len(),
            digits_end(cs@, i as nat) == digits_end(cs@, j as nat),
            forall|k: int| i <= k < j ==> is_digit(#[trigger] cs@[k]),
        decreases cs@.len() - j,
    {
        j = j + 1;
    }
    j
}

fn scan_word(cs: &Vec<char>, i: usize) -> (j: usize)
    requires
        i <= cs@.len(),
    ensures
        j == word_end(cs@, i as nat),
        i <= j <= cs@.len(),
{
    let mut j = i;
    while j < cs.len() && word_char(cs[j])
        invariant
            i <= j <= cs@.len(),
            word_end(cs@, i as nat) == word_end(cs@, j as nat),
        decreases cs@.len() - j,
    {
        j = j + 1;
    }
    j
}

fn scan_line(cs: &Vec<char>, i: usize) -> (j: usize)
    requires
        i <= cs@.len(),
    ensures
        j == line_end(cs@, i as nat),
        i <= j <= cs@.len(),
{
    let mut j = i;
    while j < cs.len() && cs[j] != '\n'
        invariant
            i <= j <= cs@.len(),
            line_end(cs@, i as nat) == line_end(cs@, j as nat),
        decreases cs@.len() - j,
    {
        j = j + 1;
    }
    j
}

proof fn lemma_digits_value_grows(a: Seq<char>, b: Seq<char>)
    requires
        forall|k: int| 0 <= k < b.len() ==> is_digit(#[trigger] b[k]),
    ensures
        digits_value(a + b) >= digits_value(a),
    decreases b.len(),
{
    if b.len() > 0 {
        assert((a + b).drop_last() =~= a + b.drop_last());
        lemma_digits_value_grows(a, b.drop_last());
    } else {
        assert(a + b =~= a);
    }
}

/// The number that `prefix` followed by `cs[from..to]` writes, if it fits in 64 bits.
fn digits_number(cs: &Vec<char>, from: usize, to: usize, acc: u64, Ghost(prefix): Ghost<Seq<char>>) -> (r: Option<u64>)
    requires
        from <= to <= cs@.len(),
        acc == digits_value(prefix),
        forall|k: int| from <= k < to ==> is_digit(#[trigger] cs@[k]),
    ensures
        match r {
            Some(v) => v == digits_value(prefix + cs@.subrange(from as int, to as int)),
            None => digits_value(prefix + cs@.subrange(from as int, to as int)) > u64::MAX,
        },
{
    let mut v = acc;
    let mut k = from;
    while k < to
        invariant
            from <= k <= to <= cs@.len(),
            forall|x: int| from <= x < to ==> is_digit(#[trigger] cs@[x]),
            v == digits_value(prefix + cs@.subrange(from as int, k as int)),
        decreases to - k,
    {
        let c = cs[k];
        assert(is_digit(cs@[k as int]));
        let d = (c as u32 - '0' as u32) as u64;
        let ghost next = prefix + cs@.subrange(from as int, k + 1);
        assert(next.drop_last() =~= prefix + cs@.subrange(from as int, k as int));
        assert(next.last() == c);
        assert(digits_value(next) == v * 10 + d);
        let grown = match v.checked_mul(10) {
            Some(t) => t.checked_add(d),
            None => None,
        };
        match grown {
            Some(t) => {
                v = t;
            },
            None => {
                proof {
                    assert(cs@.subrange(k + 1, to as int).len() == to - k - 1);
                    assert forall|x: int| 0 <= x < cs@.subrange(k + 1, to as int).len() implies is_digit(
                        #[trigger] cs@.subrange(k + 1, to as int)[x],
                    ) by {
                        assert(cs@.subrange(k + 1, to as int)[x] == cs@[k + 1 + x]);
                    }
                    lemma_digits_value_grows(next, cs@.subrange(k + 1, to as int));
                    assert(next + cs@.subrange(k + 1, to as int) =~= prefix + cs@.subrange(from as int, to as int));
                }
                return None;
            },
        }
        k = k + 1;
    }
    Some(v)
}

fn location_text(prefix: &str, line: usize, col: usize) -> (r: String)
    ensures
        r@ == prefix@ + location(line as nat, col as nat),
{
    let mut m = text(prefix);
    push_nat(&mut m, line as u64);
    push_str(&mut m, ":");
    push_nat(&mut m, col as u64);
    m
}

/// The numeric literal at `i`.
fn number_token(cs: &Vec<char>, i: usize, line: usize, col: usize) -> (r: Result<(Token, usize), String>)
    requires
        i < cs@.len(),
        is_digit(cs@[i as int]),
    ensures
        match number_at(cs@, i as nat, line as nat, col as nat) {
            Ok((t, j)) => r matches Ok((x, k)) && x@ == t && k == j,
            Err(m) => r matches Err(x) && x@ == m,
        },
{
    let j = scan_digits(cs, i);
    if j < cs.len() && cs[j] == '.' {
        let k = scan_digits(cs, j + 1);
        let mut e = k;
        while e > j + 1 && cs[e - 1] == '0'
            invariant
                j + 1 <= e <= k,
                k <= cs@.len(),
                strip_zeros(cs@.subrange(j + 1, k as int)) == strip_zeros(cs@.subrange(j + 1, e as int)),
            decreases e,
        {
            assert(cs@.subrange(j + 1, e as int).drop_last() =~= cs@.subrange(j + 1, e - 1));
            e = e - 1;
        }
        let ghost frac = cs@.subrange(j + 1, e as int);
        assert(strip_zeros(frac) == frac);
        let whole = digits_number(cs, i, j, 0, Ghost(Seq::<char>::empty()));
        assert(Seq::<char>::empty() + cs@.subrange(i as int, j as int) =~= cs@.subrange(i as int, j as int));
        let m = match whole {
            Some(w) => digits_number(cs, j + 1, e, w, Ghost(cs@.subrange(i as int, j as int))),
            None => {
                proof {
                    assert forall|x: int| 0 <= x < frac.len() implies is_digit(#[trigger] frac[x]) by {
                        assert(frac[x] == cs@[j + 1 + x]);
                    }
                    lemma_digits_value_grows(cs@.subrange(i as int, j as int), frac);
                }
                None
            },
        };
        let scale = e - j - 1;
        match m {
            Some(mantissa) => {
                if scale > 4294967295usize {
                    return Err(location_text("Invalid decimal at ", line, col));
                }
                Ok((Token::Float(Decimal { mantissa, scale: scale as u32 }), k))
            },
            None => Err(location_text("Invalid decimal at ", line, col)),
        }
    } else {
        let v = digits_number(cs, i, j, 0, Ghost(Seq::<char>::empty()));
        assert(Seq::<char>::empty() + cs@.subrange(i as int, j as int) =~= cs@.subrange(i as int, j as int));
        match v {
            Some(n) => Ok((Token::Number(n), j)),
            None => Err(location_text("Invalid number at ", line, col)),
        }
    }
}

fn word_token(cs: &Vec<char>, i: usize) -> (r: (Token, usize))
    requires
        i < cs@.len(),
    ensures
        (r.0@, r.1 as nat) == word_at(cs@, i as nat),
{
    let _ = cs.len();
    let j = scan_word(cs, i + 1);
    let mut w = String::new();
    let mut k = i;
    while k < j
        invariant
            i <= k <= j <= cs@.len(),
            w@ == cs@.subrange(i as int, k as int),
        decreases j - k,
    {
        push_char(&mut w, cs[k]);
        assert(cs@.subrange(i as int, k + 1) =~= cs@.subrange(i as int, k as int).push(cs@[k as int]));
        k = k + 1;
    }
    match keyword(w.as_str()) {
        Some(t) => (t, j),
        None => (Token::Ident(w), j),
    }
}

fn punctuation_token(cs: &Vec<char>, i: usize) -> (r: Option<(Token, usize)>)
    requires
        i < cs@.len(),
    ensures
        match punctuation(cs@, i as nat) {
            Some((t, w)) => r matches Some((x, k)) && x@ == t && k == w,
            None => r is None,
        },
{
    let _ = cs.len();
    let c = cs[i];
    let next = if i + 1 < cs.len() {
        cs[i + 1]
    } else {
        ' '
    };
    if c == '(' {
        Some((Token::LParen, 1))
    } else if c == ')' {
        Some((Token::RParen, 1))
    } else if c == ',' {
        Some((Token::Comma, 1))
    } else if c == '=' {
        if next == '=' {
            Some((Token::EqEq, 2))
        } else {
            Some((Token::Equals, 1))
        }
    } else if c == '<' {
        if next == '=' {
            Some((Token::Le, 2))
        } else {
            Some((Token::Lt, 1))
        }
    } else if c == '>' {
        if next == '=' {
            Some((Token::Ge, 2))
        } else {
            Some((Token::Gt, 1))
        }
    } else if c == '+' {
        Some((Token::Plus, 1))
    } else if c == '-' {
        if next == '>' {
            Some((Token::Arrow, 2))
        } else {
            Some((Token::Minus, 1))
        }
    } else if c == '*' {
        Some((Token::Star, 1))
    } else if c == '/' {
        Some((Token::Slash, 1))
    } else if c == '{' {
        Some((Token::LBrace, 1))
    } else if c == '}' {
        Some((Token::RBrace, 1))
    } else if c == ':' {
        Some((Token::Colon, 1))
    } else if c == ';' {
        Some((Token::Semicolon, 1))
    } else {
        None
    }
}

proof fn lemma_prepend_push(
    before: Seq<(SpecToken, Span)>,
    entry: (SpecToken, Span),
    r: Result<Seq<(SpecToken, Span)>, Seq<char>>,
)
    ensures
        prepend(before.push(entry), r) == prepend(before, prepend(seq![entry], r)),
{
    match r {
        Ok(rest) => {
            assert(before.push(entry) + rest =~= before + (seq![entry] + rest));
        },
        Err(_) => {},
    }
}

fn next_token_at(cs: &Vec<char>, i: usize, line: usize, col: usize) -> (r: Result<(Token, usize), String>)
    requires
        i < cs@.len(),
    ensures
        match next_token(cs@, i as nat, line as nat, col as nat) {
            Ok((t, j)) => r matches Ok((x, k)) && x@ == t && k == j,
            Err(m) => r matches Err(x) && x@ == m,
        },
{
    let _ = cs.len();
    proof {
        lemma_next_token(cs@, i as nat, line as nat, col as nat);
    }
    let c = cs[i];
    match punctuation_token(cs, i) {
        Some((t, w)) => Ok((t, i + w)),
        None => if is_digit_char(c) {
            number_token(cs, i, line, col)
        } else if ('a' <= c && c <= 'z') || ('A' <= c && c <= 'Z') || c == '_' {
            Ok(word_token(cs, i))
        } else {
            let mut m = text("Unexpected character '");
            push_char(&mut m, c);
            push_str(&mut m, "' at ");
            push_nat(&mut m, line as u64);
            push_str(&mut m, ":");
            push_nat(&mut m, col as u64);
            assert(m@ =~= "Unexpected character '"@ + seq![c] + "' at "@ + location(line as nat, col as nat));
            Err(m)
        },
    }
}

fn push_spanned(out: &mut Vec<SpannedToken>, token: Token, line: usize, col: usize, offset: usize)
    ensures
        spanned_view(final(out)@) == spanned_view(old(out)@).push((token@, span(line as nat, col as nat, offset as nat))),
{
    out.push(SpannedToken { token, span: Span { line, column: col, offset } });
    assert(spanned_view(out@) =~= spanned_view(old(out)@).push((token@, span(line as nat, col as nat, offset as nat))));
}

/// The tokens of a text, each with its line, column and offset, ending with `EOF`.
pub fn lex_spanned(input: &str) -> (r: Result<Vec<SpannedToken>, String>)
    requires
        input@.len() < usize::MAX,
    ensures
        match spec_lex(input@) {
            Ok(ts) => r matches Ok(v) && spanned_view(v@) == ts,
            Err(m) => r matches Err(x) && x@ == m,
        },
{
    let cs = chars_of(input);
    let mut out: Vec<SpannedToken> = Vec::new();
    let mut i: usize = 0;
    let mut line: usize = 1;
    let mut col: usize = 1;
    assert(spanned_view(out@) =~= Seq::<(SpecToken, Span)>::empty());
    assert(prepend(Seq::empty(), lex_from(cs@, 0, 1, 1)) == lex_from(cs@, 0, 1, 1)) by {
        match lex_from(cs@, 0, 1, 1) {
            Ok(rest) => {
                assert(Seq::<(SpecToken, Span)>::empty() + rest =~= rest);
            },
            Err(_) => {},
        }
    }
    while i < cs.len()
        invariant
            cs@ == input@,
            cs@.len() < usize::MAX,
            i <= cs@.len(),
            1 <= line <= i + 1,
            1 <= col <= i + 1,
            spec_lex(input@) == prepend(spanned_view(out@), lex_from(cs@, i as nat, line as nat, col as nat)),
        decreases cs@.len() - i,
    {
        let c = cs[i];
        if c == ' ' || c == '\t' || c == '\r' {
            i = i + 1;
            col = col + 1;
        } else if c == '\n' {
            i = i + 1;
            line = line + 1;
            col = 1;
        } else if c == '/' && i + 1 < cs.len() && cs[i + 1] == '/' {
            let j = scan_line(&cs, i + 1);
            col = col + (j - i);
            i = j;
        } else {
            let ghost before = spanned_view(out@);
            let ghost (li, co, st) = (line as nat, col as nat, i as nat);
            let (tok, next) = match next_token_at(&cs, i, line, col) {
                Ok(x) => x,
                Err(m) => {
                    return Err(m);
                },
            };
            proof {
                lemma_next_token(cs@, i as nat, line as nat, col as nat);
            }
            let ghost entry = (tok@, span(li, co, st));
            push_spanned(&mut out, tok, line, col, i);
            proof {
                lemma_prepend_push(before, entry, lex_from(cs@, next as nat, li, (co + (next - st)) as nat));
                assert(lex_from(cs@, st, li, co) == prepend(
                    seq![entry],
                    lex_from(cs@, next as nat, li, (co + (next - st)) as nat),
                ));
            }
            col = col + (next - i);
            i = next;
        }
    }
    let ghost before = spanned_view(out@);
    push_spanned(&mut out, Token::EOF, line, col, i);
    assert(spanned_view(out@) =~= before + seq![(SpecToken::EOF, span(line as nat, col as nat, i as nat))]);
    Ok(out)
}

/// The tokens of a text, ending with `EOF`: those that `lex_spanned` gives, without their spans.
pub fn lex(input: &str) -> (r: Result<Vec<Token>, String>)
    requires
        input@.len() < usize::MAX,
    ensures
        match spec_lex(input@) {
            Ok(ts) => r matches Ok(v) && tokens_view(v@) == ts.map_values(|t: (SpecToken, Span)| t.0),
            Err(m) => r matches Err(x) && x@ == m,
        },
        (match r {
            Ok(v) => Ok(tokens_view(v@)),
            Err(m) => Err(m@),
        }) == tokens_of(spec_lex(input@)),
{
    let spanned = match lex_spanned(input) {
        Ok(v) => v,
        Err(m) => {
            return Err(m);
        },
    };
    let ghost sv = spanned_view(spanned@);
    let mut out: Vec<Token> = Vec::new();
    let mut i: usize = 0;
    while i < spanned.len()
        invariant
            i <= spanned@.len(),
            sv == spanned_view(spanned@),
            tokens_view(out@) =~= sv.take(i as int).map_values(|t: (SpecToken, Span)| t.0),
        decreases spanned@.len() - i,
    {
        let ghost before = tokens_view(out@);
        out.push(spanned[i].token.copy());
        assert(sv[i as int] == spanned@[i as int]@);
        assert(tokens_view(out@) =~= before.push(sv[i as int].0));
        assert(sv.take(i + 1) =~= sv.take(i as int).push(sv[i as int]));
        assert(tokens_view(out@) =~= sv.take(i + 1).map_values(|t: (SpecToken, Span)| t.0));
        i = i + 1;
    }
    assert(sv.take(spanned@.len() as int) =~= sv);
    Ok(out)
}

// ---------------------------------------------------------------------------------------------
// A line comment adds no token.

/// The tokens of a lexing outcome, without their spans.
pub open spec fn tokens_of(r: Result<Seq<(SpecToken, Span)>, Seq<char>>) -> Result<Seq<SpecToken>, Seq<char>> {
    match r {
        Ok(ts) => Ok(ts.map_values(|t: (SpecToken, Span)| t.0)),
        Err(m) => Err(m),
    }
}

/// The text followed by a space and a line comment.
pub open spec fn with_comment(cs: Seq<char>, t: Seq<char>) -> Seq<char> {
    cs + seq![' ', '/', '/'] + t
}

proof fn lemma_comment_chars(cs: Seq<char>, t: Seq<char>, m: nat)
    requires
        !t.contains('\n'),
        cs.len() <= m < with_comment(cs, t).len(),
    ensures
        with_comment(cs, t)[m as int] != '\n',
        m == cs.len() ==> with_comment(cs, t)[m as int] == ' ',
        m == cs.len() + 1 ==> with_comment(cs, t)[m as int] == '/',
        m == cs.len() + 2 ==> with_comment(cs, t)[m as int] == '/',
{
    let k = m - cs.len();
    if k >= 3 {
        assert(with_comment(cs, t)[m as int] == t[k - 3]);
    }
}

proof fn lemma_comment_prefix(cs: Seq<char>, t: Seq<char>, m: int)
    requires
        0 <= m < cs.len(),
    ensures
        with_comment(cs, t)[m] == cs[m],
{
}

proof fn lemma_comment_digits(cs: Seq<char>, t: Seq<char>, k: nat)
    requires
        !t.contains('\n'),
        k <= cs.len(),
    ensures
        digits_end(with_comment(cs, t), k) == digits_end(cs, k),
    decreases cs.len() - k,
{
    let cs2 = with_comment(cs, t);
    if k < cs.len() {
        lemma_comment_prefix(cs, t, k as int);
        lemma_comment_digits(cs, t, k + 1);
    } else {
        lemma_comment_chars(cs, t, k);
    }
}

proof fn lemma_comment_word(cs: Seq<char>, t: Seq<char>, k: nat)
    requires
        !t.contains('\n'),
        k <= cs.len(),
    ensures
        word_end(with_comment(cs, t), k) == word_end(cs, k),
    decreases cs.len() - k,
{
    if k < cs.len() {
        lemma_comment_prefix(cs, t, k as int);
        lemma_comment_word(cs, t, k + 1);
    } else {
        lemma_comment_chars(cs, t, k);
    }
}

proof fn lemma_comment_line_tail(cs: Seq<char>, t: Seq<char>, m: nat)
    requires
        !t.contains('\n'),
        cs.len() <= m <= with_comment(cs, t).len(),
    ensures
        line_end(with_comment(cs, t), m) == with_comment(cs, t).len(),
    decreases with_comment(cs, t).len() - m,
{
    if m < with_comment(cs, t).len() {
        lemma_comment_chars(cs, t, m);
        lemma_comment_line_tail(cs, t, m + 1);
    }
}

proof fn lemma_comment_line(cs: Seq<char>, t: Seq<char>, k: nat)
    requires
        !t.contains('\n'),
        k <= cs.len(),
    ensures
        line_end(cs, k) < cs.len() ==> line_end(with_comment(cs, t), k) == line_end(cs, k),
        line_end(cs, k) >= cs.len() ==> line_end(cs, k) == cs.len() && line_end(with_comment(cs, t), k)
            == with_comment(cs, t).len(),
    decreases cs.len() - k,
{
    if k < cs.len() {
        lemma_comment_prefix(cs, t, k as int);
        lemma_comment_line(cs, t, k + 1);
    } else {
        lemma_comment_line_tail(cs, t, k);
    }
}

proof fn lemma_comment_next_token(cs: Seq<char>, t: Seq<char>, i: nat, line: nat, col: nat)
    requires
        !t.contains('\n'),
        i < cs.len(),
    ensures
        next_token(with_comment(cs, t), i, line, col) == next_token(cs, i, line, col),
{
    let cs2 = with_comment(cs, t);
    lemma_comment_prefix(cs, t, i as int);
    if i + 1 < cs.len() {
        lemma_comment_prefix(cs, t, (i + 1) as int);
    } else {
        lemma_comment_chars(cs, t, i + 1);
    }
    assert(punctuation(cs2, i) == punctuation(cs, i));
    lemma_comment_digits(cs, t, i);
    lemma_digits_end(cs, i);
    let j = digits_end(cs, i);
    lemma_comment_digits(cs, t, i);
    if j < cs.len() {
        lemma_comment_prefix(cs, t, j as int);
        lemma_comment_digits(cs, t, j + 1);
        lemma_digits_end(cs, j + 1);
        let k = digits_end(cs, j + 1);
        assert(cs2.subrange((j + 1) as int, k as int) =~= cs.subrange((j + 1) as int, k as int));
    } else {
        lemma_comment_chars(cs, t, j);
    }
    assert(cs2.subrange(i as int, j as int) =~= cs.subrange(i as int, j as int));
    assert(number_at(cs2, i, line, col) == number_at(cs, i, line, col));
    lemma_comment_word(cs, t, i + 1);
    lemma_word_end(cs, i + 1);
    let w = word_end(cs, i + 1);
    assert(cs2.subrange(i as int, w as int) =~= cs.subrange(i as int, w as int));
    assert(word_at(cs2, i) == word_at(cs, i));
}

proof fn lemma_prepend_tokens(h: Seq<(SpecToken, Span)>, r1: Result<Seq<(SpecToken, Span)>, Seq<char>>, r2: Result<Seq<(SpecToken, Span)>, Seq<char>>)
    requires
        tokens_of(r1) == tokens_of(r2),
    ensures
        tokens_of(prepend(h, r1)) == tokens_of(prepend(h, r2)),
{
    if let (Ok(a), Ok(b)) = (r1, r2) {
        let f = |t: (SpecToken, Span)| t.0;
        assert((h + a).map_values(f) =~= h.map_values(f) + a.map_values(f));
        assert((h + b).map_values(f) =~= h.map_values(f) + b.map_values(f));
    }
}

proof fn lemma_eof_tokens(cs: Seq<char>, i: nat, line: nat, col: nat)
    requires
        i >= cs.len(),
    ensures
        tokens_of(lex_from(cs, i, line, col)) == Ok::<Seq<SpecToken>, Seq<char>>(seq![SpecToken::EOF]),
{
    match tokens_of(lex_from(cs, i, line, col)) {
        Ok(v) => {
            assert(v =~= seq![SpecToken::EOF]);
        },
        Err(_) => {},
    }
}

proof fn lemma_comment_lex_from(cs: Seq<char>, t: Seq<char>, i: nat, line: nat, col: nat)
    requires
        !t.contains('\n'),
        i <= cs.len(),
    ensures
        tokens_of(lex_from(with_comment(cs, t), i, line, col)) == tokens_of(lex_from(cs, i, line, col)),
    decreases cs.len() - i,
{
    let cs2 = with_comment(cs, t);
    if i == cs.len() {
        lemma_comment_chars(cs, t, i);
        lemma_comment_chars(cs, t, i + 1);
        lemma_comment_chars(cs, t, i + 2);
        lemma_comment_line_tail(cs, t, i + 2);
        let j = line_end(cs2, i + 2);
        assert(j == cs2.len());
        assert(lex_from(cs2, i, line, col) == lex_from(cs2, i + 1, line, col + 1));
        assert(lex_from(cs2, i + 1, line, col + 1) == lex_from(cs2, j, line, (col + 1 + (j - (i + 1))) as nat));
        lemma_eof_tokens(cs2, j, line, (col + 1 + (j - (i + 1))) as nat);
        lemma_eof_tokens(cs, i, line, col);
    } else {
        let c = cs[i as int];
        lemma_comment_prefix(cs, t, i as int);
        if i + 1 < cs.len() {
            lemma_comment_prefix(cs, t, (i + 1) as int);
        } else {
            lemma_comment_chars(cs, t, i + 1);
        }
        if c == ' ' || c == '\t' || c == '\r' {
            lemma_comment_lex_from(cs, t, i + 1, line, col + 1);
        } else if c == '\n' {
            lemma_comment_lex_from(cs, t, i + 1, line + 1, 1);
        } else if c == '/' && i + 1 < cs.len() && cs[(i + 1) as int] == '/' {
            lemma_line_end(cs, i + 1);
            lemma_comment_line(cs, t, i + 1);
            let j = line_end(cs, i + 1);
            if j < cs.len() {
                lemma_comment_lex_from(cs, t, j, line, (col + (j - i)) as nat);
            } else {
                let j2 = line_end(cs2, i + 1);
                lemma_eof_tokens(cs, j, line, (col + (j - i)) as nat);
                lemma_eof_tokens(cs2, j2, line, (col + (j2 - i)) as nat);
            }
        } else {
            lemma_comment_next_token(cs, t, i, line, col);
            lemma_next_token(cs, i, line, col);
            if let Ok((tk, j)) = next_token(cs, i, line, col) {
                lemma_comment_lex_from(cs, t, j, line, (col + (j - i)) as nat);
                lemma_prepend_tokens(
                    seq![(tk, span(line, col, i))],
                    lex_from(cs2, j, line, (col + (j - i)) as nat),
                    lex_from(cs, j, line, (col + (j - i)) as nat),
                );
            }
        }
    }
}

/// A `//` comment runs to the end of the line and adds no token: a text followed by a space
/// and a comment lexes to the same tokens as the text.
pub proof fn law_line_comment_adds_no_token(s: Seq<char>, t: Seq<char>)
    requires
        !t.contains('\n'),
    ensures
        tokens_of(spec_lex(with_comment(s, t))) == tokens_of(spec_lex(s)),
{
    lemma_comment_lex_from(s, t, 0, 1, 1);
}

} // verus!
