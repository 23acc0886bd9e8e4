//! The grammar of Green as a function from tokens to a syntax tree and the
//! errors met on the way.
//!
//! Each rule reads the tokens from a position and gives back what it built
//! (or the error that stopped it) and the state after it: the position
//! reached and the errors recorded so far.  Statement rules also see the
//! kinds of the blocks they stand in, innermost last.
use vstd::prelude::*;
use crate::common::keyword::{BoolKeyword, ControlKeyword, CoroutineControl, DeclarationKeyword, FunctionControl, LoopControl, TypeName};
use crate::common::operator::{Arithmetic, BinaryLogical, Logical, UnaryLogical};
use crate::common::types::{BlockType, Type};
use crate::error::error_code::ErrorCode;
use crate::lexer::token::{Lexeme, TokenView};
use crate::parser::node::{Block, Lit, Stmt};

verus! {

/// An error recorded by the parser.
pub struct PErr {
    pub code: ErrorCode,
    pub row: int,
    pub col: int,
    pub params: Seq<(Seq<char>, Seq<char>)>,
}

/// Where the parser stands and what it has recorded.
pub struct PState {
    pub pos: int,
    pub errs: Seq<PErr>,
}

/// A function definition.
pub struct FunDef {
    pub name: Seq<char>,
    pub parameters: Seq<(Seq<char>, Type)>,
    pub return_type: Option<Type>,
    pub block: Block,
    pub doc: Option<Seq<char>>,
}

/// A coroutine definition.
pub struct CoroDef {
    pub name: Seq<char>,
    pub block: Block,
    pub doc: Option<Seq<char>>,
}

/// What one statement rule builds.
pub enum Parsed {
    Statement(Stmt),
    Function(FunDef),
    Coroutine(CoroDef),
}

/// What a list of statements builds: the statements, and the definitions
/// among them.
pub struct Acc {
    pub stmts: Seq<Stmt>,
    pub funs: Seq<FunDef>,
    pub coros: Seq<CoroDef>,
}

/// A program: its functions and coroutines.
pub struct Program {
    pub functions: Seq<FunDef>,
    pub coroutines: Seq<CoroDef>,
}

pub open spec fn at_tok(code: ErrorCode, tk: TokenView, params: Seq<(Seq<char>, Seq<char>)>) -> PErr {
    PErr { code, row: tk.row, col: tk.col, params }
}

/// The error for a token that cannot stand where it stands.
pub open spec fn unexpected(tk: TokenView) -> PErr {
    at_tok(ErrorCode::Parse002, tk, seq![("token"@, tk.kind.text())])
}

/// The error for running past the last token.
pub open spec fn eof_err() -> PErr {
    PErr { code: ErrorCode::Parse003, row: 0, col: 0, params: seq![] }
}

pub open spec fn push(s: PState, e: PErr) -> PState {
    PState { pos: s.pos, errs: s.errs.push(e) }
}

pub open spec fn step(s: PState) -> PState {
    PState { pos: s.pos + 1, errs: s.errs }
}

/// `b` stands at or after `a`, within the tokens.
pub open spec fn kept(t: Seq<TokenView>, a: PState, b: PState) -> bool {
    a.pos <= b.pos <= t.len()
}

/// `b` stands after `a`, within the tokens.
pub open spec fn moved(t: Seq<TokenView>, a: PState, b: PState) -> bool {
    a.pos < b.pos <= t.len()
}

/// The next token, without reading it.
pub open spec fn p_peek(t: Seq<TokenView>, s: PState) -> Result<TokenView, PErr> {
    if 0 <= s.pos < t.len() {
        Ok(t[s.pos])
    } else {
        Err(eof_err())
    }
}

/// Reads the next token; the end marker is read but is an error.
pub open spec fn p_next(t: Seq<TokenView>, s: PState) -> (Result<TokenView, PErr>, PState) {
    if 0 <= s.pos < t.len() {
        let tk = t[s.pos];
        if tk.kind is EOF {
            (Err(at_tok(ErrorCode::Parse003, tk, seq![])), step(s))
        } else {
            (Ok(tk), step(s))
        }
    } else {
        (Err(eof_err()), s)
    }
}

/// Reads the next token if it is `k`, else records that `k` was expected.
pub open spec fn p_check(t: Seq<TokenView>, s: PState, k: Lexeme) -> PState {
    if 0 <= s.pos < t.len() {
        if t[s.pos].kind == k {
            step(s)
        } else {
            push(s, at_tok(ErrorCode::Parse005, t[s.pos], seq![("token"@, k.text())]))
        }
    } else {
        s
    }
}

pub open spec fn is_digit(c: char) -> bool {
    48 <= c as u32 <= 57
}

pub open spec fn all_digits(s: Seq<char>) -> bool {
    forall|i: int| 0 <= i < s.len() ==> is_digit(#[trigger] s[i])
}

/// The number that a string of decimal digits spells.
pub open spec fn digits_value(s: Seq<char>) -> int
    decreases s.len(),
{
    if s.len() == 0 {
        0
    } else {
        digits_value(s.drop_last()) * 10 + (s.last() as u32 - 48)
    }
}

/// What reading a text as an `i32` gives: an optional sign and one or more
/// decimal digits whose value fits.
pub open spec fn spec_parse_i32(s: Seq<char>) -> Option<i32> {
    let signed = s.len() > 0 && (s[0] == '+' || s[0] == '-');
    let body = if signed {
        s.drop_first()
    } else {
        s
    };
    let v = if signed && s[0] == '-' {
        -digits_value(body)
    } else {
        digits_value(body)
    };
    if body.len() == 0 || !all_digits(body) || v < i32::MIN || v > i32::MAX {
        None
    } else {
        Some(v as i32)
    }
}

/// The number of decimal digits at the start of `s`.
pub open spec fn leading_digits(s: Seq<char>) -> int
    decreases s.len(),
{
    if s.len() > 0 && is_digit(s[0]) {
        1 + leading_digits(s.drop_first())
    } else {
        0
    }
}

/// An exponent: `e` or `E`, an optional sign and one or more digits.
pub open spec fn exponent_ok(e: Seq<char>) -> bool {
    &&& e.len() >= 2
    &&& (e[0] == 'e' || e[0] == 'E')
    &&& {
        let r = if e[1] == '+' || e[1] == '-' {
            e.skip(2)
        } else {
            e.skip(1)
        };
        r.len() > 0 && all_digits(r)
    }
}

/// Whether the text after the point of a number written with a point reads
/// as a floating-point number: digits, then an optional exponent.
pub open spec fn fraction_ok(d: Seq<char>) -> bool {
    let k = leading_digits(d);
    k == d.len() || exponent_ok(d.skip(k))
}

// ---------------------------------------------------------------- expressions

/// A literal: a string, a number (an integer, or an integer, a point and a
/// fraction) or a boolean.
pub open spec fn p_literal(t: Seq<TokenView>, s: PState) -> (Result<Stmt, PErr>, PState) {
    let (r, s1) = p_next(t, s);
    match r {
        Err(e) => (Err(e), s1),
        Ok(tk) => match tk.kind {
            Lexeme::StringLiteral(v) => (Ok(Stmt::Literal { value: Lit::String(v) }), s1),
            Lexeme::NumberLiteral(n) => match spec_parse_i32(n) {
                None => (Err(at_tok(ErrorCode::Parse004, tk, seq![("number"@, n)])), s1),
                Some(i) => match p_peek(t, s1) {
                    Err(e) => (Err(e), s1),
                    Ok(dot) => if dot.kind is Dot {
                        let s2 = step(s1);
                        let (r3, s3) = p_next(t, s2);
                        match r3 {
                            Err(e) => (Err(e), s3),
                            Ok(tk3) => match tk3.kind {
                                Lexeme::NumberLiteral(d) => if fraction_ok(d) {
                                    (Ok(Stmt::Literal { value: Lit::Float(n + "."@ + d) }), s3)
                                } else {
                                    (
                                        Err(
                                            at_tok(
                                                ErrorCode::Parse004,
                                                tk3,
                                                seq![("number"@, n + "."@ + d)],
                                            ),
                                        ),
                                        s3,
                                    )
                                },
                                _ => (
                                    Err(at_tok(ErrorCode::Parse004, tk3, seq![("number"@, n + "."@)])),
                                    s3,
                                ),
                            },
                        }
                    } else {
                        (Ok(Stmt::Literal { value: Lit::Int(i) }), s1)
                    },
                },
            },
            Lexeme::BoolLiteral(b) => (
                Ok(Stmt::Literal { value: Lit::Bool(b == BoolKeyword::True) }),
                s1,
            ),
            _ => (Err(unexpected(tk)), s1),
        },
    }
}

/// A variable.
pub open spec fn p_variable(t: Seq<TokenView>, s: PState) -> (Result<Stmt, PErr>, PState) {
    let (r, s1) = p_next(t, s);
    match r {
        Err(e) => (Err(e), s1),
        Ok(tk) => match tk.kind {
            Lexeme::Identifier(name) => (Ok(Stmt::Variable { name }), s1),
            _ => (Err(unexpected(tk)), s1),
        },
    }
}

/// A number, a variable, or a sum in parentheses.
pub open spec fn p_primary(t: Seq<TokenView>, s: PState) -> (Result<Stmt, PErr>, PState)
    decreases t.len() - s.pos, 10int,
{
    match p_peek(t, s) {
        Err(e) => (Err(e), s),
        Ok(tk) => match tk.kind {
            Lexeme::NumberLiteral(_) => p_literal(t, s),
            Lexeme::LParen => {
                let (r, s2) = p_add(t, step(s));
                (r, p_check(t, s2, Lexeme::RParen))
            },
            Lexeme::Identifier(_) => p_variable(t, s),
            _ => (Err(unexpected(tk)), s),
        },
    }
}

/// A primary, possibly negated.
pub open spec fn p_unary(t: Seq<TokenView>, s: PState) -> (Result<Stmt, PErr>, PState)
    decreases t.len() - s.pos, 20int,
{
    match p_peek(t, s) {
        Err(e) => (Err(e), s),
        Ok(tk) => match tk.kind {
            Lexeme::NumberLiteral(_) | Lexeme::LParen | Lexeme::Identifier(_) | Lexeme::ArithmeticOperator(
                Arithmetic::Plus,
            ) => p_primary(t, s),
            Lexeme::ArithmeticOperator(Arithmetic::Minus) => {
                let (r, s2) = p_primary(t, step(s));
                match r {
                    Err(e) => (Err(e), s2),
                    Ok(n) => (
                        Ok(
                            Stmt::Arithmetic {
                                operator: Arithmetic::Minus,
                                left: Box::new(n),
                                right: None,
                            },
                        ),
                        s2,
                    ),
                }
            },
            _ => (Err(unexpected(tk)), s),
        },
    }
}

pub open spec fn is_mul_op(k: Lexeme) -> bool {
    k == Lexeme::ArithmeticOperator(Arithmetic::Multiply) || k == Lexeme::ArithmeticOperator(
        Arithmetic::Divide,
    )
}

pub open spec fn is_add_op(k: Lexeme) -> bool {
    k == Lexeme::ArithmeticOperator(Arithmetic::Plus) || k == Lexeme::ArithmeticOperator(
        Arithmetic::Minus,
    )
}

pub open spec fn arith_of(k: Lexeme) -> Arithmetic {
    match k {
        Lexeme::ArithmeticOperator(op) => op,
        _ => Arithmetic::Plus,
    }
}

/// The products and quotients that follow `left`.
pub open spec fn p_mul_rest(t: Seq<TokenView>, s: PState, left: Stmt) -> (Result<Stmt, PErr>, PState)
    decreases t.len() - s.pos, 25int,
{
    if 0 <= s.pos < t.len() && is_mul_op(t[s.pos].kind) {
        let op = arith_of(t[s.pos].kind);
        let (r, s2) = p_unary(t, step(s));
        match r {
            Err(e) => (Err(e), s2),
            Ok(right) => {
                let node = Stmt::Arithmetic {
                    operator: op,
                    left: Box::new(left),
                    right: Some(Box::new(right)),
                };
                if moved(t, s, s2) {
                    p_mul_rest(t, s2, node)
                } else {
                    (Err(eof_err()), s2)
                }
            },
        }
    } else {
        (Ok(left), s)
    }
}

/// Unary terms joined by `*` and `/`, from the left.
pub open spec fn p_mul(t: Seq<TokenView>, s: PState) -> (Result<Stmt, PErr>, PState)
    decreases t.len() - s.pos, 30int,
{
    let (r, s1) = p_unary(t, s);
    match r {
        Err(e) => (Err(e), s1),
        Ok(left) => if kept(t, s, s1) {
            p_mul_rest(t, s1, left)
        } else {
            (Err(eof_err()), s1)
        },
    }
}

/// The sums and differences that follow `left`.
pub open spec fn p_add_rest(t: Seq<TokenView>, s: PState, left: Stmt) -> (Result<Stmt, PErr>, PState)
    decreases t.len() - s.pos, 35int,
{
    if 0 <= s.pos < t.len() && is_add_op(t[s.pos].kind) {
        let op = arith_of(t[s.pos].kind);
        let (r, s2) = p_mul(t, step(s));
        match r {
            Err(e) => (Err(e), s2),
            Ok(right) => {
                let node = Stmt::Arithmetic {
                    operator: op,
                    left: Box::new(left),
                    right: Some(Box::new(right)),
                };
                if moved(t, s, s2) {
                    p_add_rest(t, s2, node)
                } else {
                    (Err(eof_err()), s2)
                }
            },
        }
    } else {
        (Ok(left), s)
    }
}

/// Products joined by `+` and `-`, from the left.
pub open spec fn p_add(t: Seq<TokenView>, s: PState) -> (Result<Stmt, PErr>, PState)
    decreases t.len() - s.pos, 40int,
{
    let (r, s1) = p_mul(t, s);
    match r {
        Err(e) => (Err(e), s1),
        Ok(left) => if kept(t, s, s1) {
            p_add_rest(t, s1, left)
        } else {
            (Err(eof_err()), s1)
        },
    }
}

/// A sum, or a string.
pub open spec fn p_value(t: Seq<TokenView>, s: PState) -> (Result<Stmt, PErr>, PState)
    decreases t.len() - s.pos, 50int,
{
    match p_peek(t, s) {
        Err(e) => (Err(e), s),
        Ok(tk) => match tk.kind {
            Lexeme::NumberLiteral(_) | Lexeme::LParen | Lexeme::Identifier(_) => p_add(t, s),
            Lexeme::ArithmeticOperator(op) => if op == Arithmetic::Plus || op == Arithmetic::Minus {
                p_add(t, s)
            } else {
                (Err(unexpected(tk)), s)
            },
            Lexeme::StringLiteral(_) => p_literal(t, s),
            _ => (Err(unexpected(tk)), s),
        },
    }
}

/// A value, or two values compared.
pub open spec fn p_compare(t: Seq<TokenView>, s: PState) -> (Result<Stmt, PErr>, PState)
    decreases t.len() - s.pos, 60int,
{
    let (left, s1) = p_value(t, s);
    if !kept(t, s, s1) {
        (Err(eof_err()), s1)
    } else {
        match p_peek(t, s1) {
            Err(e) => (Err(e), s1),
            Ok(tk) => match tk.kind {
                Lexeme::CompareOperator(op) => {
                    let (right, s3) = p_value(t, step(s1));
                    match right {
                        Err(e) => (Err(e), s3),
                        Ok(r) => match left {
                            Err(e) => (Err(e), s3),
                            Ok(l) => (
                                Ok(Stmt::Compare { operator: op, left: Box::new(l), right: Box::new(r) }),
                                s3,
                            ),
                        },
                    }
                },
                _ => (left, s1),
            },
        }
    }
}

/// `not` and an expression, a boolean, or a comparison.
pub open spec fn p_not(t: Seq<TokenView>, s: PState) -> (Result<Stmt, PErr>, PState)
    decreases t.len() - s.pos, 70int,
{
    match p_peek(t, s) {
        Err(e) => (Err(e), s),
        Ok(tk) => match tk.kind {
            Lexeme::LogicalOperator(Logical::Unary(UnaryLogical::Not)) => {
                let (r, s2) = p_expression(t, step(s));
                match r {
                    Err(e) => (Err(e), s2),
                    Ok(v) => (
                        Ok(Stmt::Logical { operator: Logical::Unary(UnaryLogical::Not), left: Box::new(v), right: None }),
                        s2,
                    ),
                }
            },
            Lexeme::BoolLiteral(_) => p_literal(t, s),
            _ => p_compare(t, s),
        },
    }
}

/// The `and` and `xor` terms that follow `left`.
pub open spec fn p_and_rest(t: Seq<TokenView>, s: PState, left: Stmt) -> (Result<Stmt, PErr>, PState)
    decreases t.len() - s.pos, 75int,
{
    match p_peek(t, s) {
        Err(e) => (Err(e), s),
        Ok(tk) => if tk.kind == Lexeme::LogicalOperator(Logical::Binary(BinaryLogical::And)) || tk.kind
            == Lexeme::LogicalOperator(Logical::Binary(BinaryLogical::Xor)) {
            let op = if tk.kind == Lexeme::LogicalOperator(Logical::Binary(BinaryLogical::And)) {
                Logical::Binary(BinaryLogical::And)
            } else {
                Logical::Binary(BinaryLogical::Xor)
            };
            let (r, s2) = p_not(t, step(s));
            match r {
                Err(e) => (Err(e), s2),
                Ok(right) => {
                    let node = Stmt::Logical {
                        operator: op,
                        left: Box::new(left),
                        right: Some(Box::new(right)),
                    };
                    if moved(t, s, s2) {
                        p_and_rest(t, s2, node)
                    } else {
                        (Err(eof_err()), s2)
                    }
                },
            }
        } else {
            (Ok(left), s)
        },
    }
}

/// Negations joined by `and` and `xor`, from the left.
pub open spec fn p_and(t: Seq<TokenView>, s: PState) -> (Result<Stmt, PErr>, PState)
    decreases t.len() - s.pos, 80int,
{
    let (r, s1) = p_not(t, s);
    match r {
        Err(e) => (Err(e), s1),
        Ok(left) => if kept(t, s, s1) {
            p_and_rest(t, s1, left)
        } else {
            (Err(eof_err()), s1)
        },
    }
}

/// The `or` terms that follow `left`.
pub open spec fn p_or_rest(t: Seq<TokenView>, s: PState, left: Stmt) -> (Result<Stmt, PErr>, PState)
    decreases t.len() - s.pos, 85int,
{
    match p_peek(t, s) {
        Err(e) => (Err(e), s),
        Ok(tk) => if tk.kind == Lexeme::LogicalOperator(Logical::Binary(BinaryLogical::Or)) {
            let (r, s2) = p_and(t, step(s));
            match r {
                Err(e) => (Err(e), s2),
                Ok(right) => {
                    let node = Stmt::Logical {
                        operator: Logical::Binary(BinaryLogical::Or),
                        left: Box::new(left),
                        right: Some(Box::new(right)),
                    };
                    if moved(t, s, s2) {
                        p_or_rest(t, s2, node)
                    } else {
                        (Err(eof_err()), s2)
                    }
                },
            }
        } else {
            (Ok(left), s)
        },
    }
}

/// Conjunctions joined by `or`, from the left.
pub open spec fn p_or(t: Seq<TokenView>, s: PState) -> (Result<Stmt, PErr>, PState)
    decreases t.len() - s.pos, 90int,
{
    let (r, s1) = p_and(t, s);
    match r {
        Err(e) => (Err(e), s1),
        Ok(left) => if kept(t, s, s1) {
            p_or_rest(t, s1, left)
        } else {
            (Err(eof_err()), s1)
        },
    }
}

/// An expression.
pub open spec fn p_expression(t: Seq<TokenView>, s: PState) -> (Result<Stmt, PErr>, PState)
    decreases t.len() - s.pos, 100int,
{
    p_or(t, s)
}

/// What can be assigned or passed: an expression, or a call whose value is
/// used.
pub open spec fn p_assignable(t: Seq<TokenView>, s: PState) -> (Result<Stmt, PErr>, PState)
    decreases t.len() - s.pos, 110int,
{
    match p_peek(t, s) {
        Err(e) => (Err(e), s),
        Ok(tk) => match tk.kind {
            Lexeme::StringLiteral(_) | Lexeme::NumberLiteral(_) | Lexeme::BoolLiteral(_)
            | Lexeme::LParen => p_expression(t, s),
            Lexeme::ArithmeticOperator(op) => if op == Arithmetic::Plus || op == Arithmetic::Minus {
                p_expression(t, s)
            } else {
                (Err(unexpected(tk)), s)
            },
            Lexeme::Identifier(name) => if s.pos + 1 < t.len() {
                if t[s.pos + 1].kind is LParen {
                    let (args, s3) = p_arguments(t, step(step(s)));
                    (
                        Ok(Stmt::FunctionCall { name, arguments: args, return_flg: true }),
                        p_check(t, s3, Lexeme::RParen),
                    )
                } else {
                    p_expression(t, s)
                }
            } else {
                (Err(at_tok(ErrorCode::Parse003, tk, seq![])), s)
            },
            _ => (Err(unexpected(tk)), s),
        },
    }
}

/// The arguments from the current one on, `acc` holding those read before.
pub open spec fn p_args_loop(t: Seq<TokenView>, s: PState, acc: Seq<Stmt>) -> (Seq<Stmt>, PState)
    decreases t.len() - s.pos, 115int,
{
    match p_peek(t, s) {
        Err(e) => (acc.push(Stmt::Error), push(s, e)),
        Ok(tk) => if tk.kind is RParen {
            (acc, s)
        } else {
            let (r, s1) = p_assignable(t, s);
            let (arg, s2) = match r {
                Ok(n) => (n, s1),
                Err(e) => (Stmt::Error, push(s1, e)),
            };
            let acc2 = acc.push(arg);
            match p_peek(t, s2) {
                Err(e) => (acc2, push(s2, e)),
                Ok(tk2) => match tk2.kind {
                    Lexeme::Comma => if moved(t, s, step(s2)) {
                        p_args_loop(t, step(s2), acc2)
                    } else {
                        (acc2, step(s2))
                    },
                    Lexeme::RParen => (acc2, s2),
                    _ => (acc2, push(s2, unexpected(tk2))),
                },
            }
        },
    }
}

/// The arguments of a call, up to its closing parenthesis.
pub open spec fn p_arguments(t: Seq<TokenView>, s: PState) -> (Seq<Stmt>, PState)
    decreases t.len() - s.pos, 120int,
{
    p_args_loop(t, s, seq![])
}

// ----------------------------------------------------------------- statements

/// The text of a documentation comment without the blanks before it.
pub open spec fn trim_start(s: Seq<char>) -> Seq<char>
    decreases s.len(),
{
    if s.len() > 0 && (s[0] == ' ' || s[0] == '\t') {
        trim_start(s.drop_first())
    } else {
        s
    }
}

/// Whether a documentation comment marks a step of the process.
pub open spec fn is_process(text: Seq<char>) -> bool {
    let body = trim_start(text);
    body.len() >= 8 && body.take(8) == "@process"@
}

/// The description of a step of the process.
pub open spec fn process_text(text: Seq<char>) -> Seq<char> {
    trim_start(trim_start(text).skip(8))
}

/// The documentation gathered so far with one more line.
pub open spec fn join_doc(doc: Option<Seq<char>>, line: Seq<char>) -> Option<Seq<char>> {
    match doc {
        None => Some(line),
        Some(d) => Some(d + "\n"@ + line),
    }
}

pub open spec fn add_item(acc: Acc, p: Parsed) -> Acc {
    match p {
        Parsed::Statement(st) => Acc { stmts: acc.stmts.push(st), ..acc },
        Parsed::Function(f) => Acc { funs: acc.funs.push(f), ..acc },
        Parsed::Coroutine(c) => Acc { coros: acc.coros.push(c), ..acc },
    }
}

pub open spec fn empty_acc() -> Acc {
    Acc { stmts: seq![], funs: seq![], coros: seq![] }
}

/// Whether the statement rule of a block stops at `}`.
pub open spec fn ends_at_brace(bt: BlockType) -> bool {
    bt != BlockType::Global
}

/// The statements from the current one on, `acc` holding those read before
/// and `doc` the documentation waiting for the next definition.
#[verifier::opaque]
pub open spec fn p_stmts_loop(
    t: Seq<TokenView>,
    s: PState,
    ctx: Seq<BlockType>,
    bt: BlockType,
    acc: Acc,
    doc: Option<Seq<char>>,
) -> (Acc, PState)
    decreases t.len() - s.pos, 295int,
{
    match p_peek(t, s) {
        Err(e) => (acc, push(s, e)),
        Ok(tk) => if (ends_at_brace(bt) && tk.kind is RBrace) || tk.kind is EOF {
            (acc, s)
        } else {
            match tk.kind {
                Lexeme::DocComment(text) => if is_process(text) {
                    p_stmts_loop(
                        t,
                        step(s),
                        ctx,
                        bt,
                        add_item(
                            acc,
                            Parsed::Statement(Stmt::ProcessComment { comment: process_text(text) }),
                        ),
                        doc,
                    )
                } else {
                    p_stmts_loop(t, step(s), ctx, bt, acc, join_doc(doc, trim_start(text)))
                },
                _ => {
                    let (r, s1) = p_statement(t, s, ctx, doc);
                    match r {
                        Err(e) => (acc, push(s1, e)),
                        Ok(p) => if moved(t, s, s1) {
                            p_stmts_loop(t, s1, ctx, bt, add_item(acc, p), None)
                        } else {
                            (acc, s1)
                        },
                    }
                },
            }
        },
    }
}

/// The statements of a block of kind `bt`, up to its end.
pub open spec fn p_statements(t: Seq<TokenView>, s: PState, ctx: Seq<BlockType>, bt: BlockType) -> (
    Acc,
    PState,
)
    decreases t.len() - s.pos, 300int,
{
    p_stmts_loop(t, s, ctx, bt, empty_acc(), None)
}

/// Records that `keyword` stands outside a block of the kind it needs.
pub open spec fn misplaced(tk: TokenView, keyword: Seq<char>, block: Seq<char>) -> PErr {
    at_tok(ErrorCode::Parse006, tk, seq![("statement"@, keyword), ("block"@, block)])
}

/// The statement that starts with the next token.
pub open spec fn p_statement(t: Seq<TokenView>, s: PState, ctx: Seq<BlockType>, doc: Option<Seq<char>>) -> (
    Result<Parsed, PErr>,
    PState,
)
    decreases t.len() - s.pos, 290int,
{
    match p_peek(t, s) {
        Err(e) => (Err(e), s),
        Ok(tk) => match tk.kind {
            Lexeme::Identifier(name) => p_identifier(t, s, name),
            Lexeme::ControlKeyword(k) => match k {
                ControlKeyword::If => p_if(t, s, ctx),
                ControlKeyword::While => p_loop(t, s, ctx),
                _ => (Err(at_tok(ErrorCode::Parse002, tk, seq![("token"@, k.text())])), s),
            },
            Lexeme::DeclarationKeyword(k) => p_declaration(t, s, ctx, k, doc),
            Lexeme::FunctionControl(k) => p_return(t, s, ctx, tk, k),
            Lexeme::LoopControl(k) => p_loop_control(t, s, ctx, tk, k),
            Lexeme::CoroutineControl(k) => p_coroutine_control(t, s, ctx, tk, k),
            _ => (Err(unexpected(tk)), s),
        },
    }
}

/// A `return` statement.
pub open spec fn p_return(t: Seq<TokenView>, s: PState, ctx: Seq<BlockType>, tk: TokenView, k: FunctionControl) -> (
    Result<Parsed, PErr>,
    PState,
) {
    let s0 = if ctx.contains(BlockType::Function) {
        s
    } else {
        push(s, misplaced(tk, k.text(), "function"@))
    };
    let (r1, s1) = p_next(t, s0);
    match r1 {
        Err(e) => (Err(e), s1),
        Ok(_) => {
            let (ra, s2) = p_assignable(t, s1);
            let (v, s3) = match ra {
                Ok(n) => (n, s2),
                Err(e) => (Stmt::Error, push(s2, e)),
            };
            (
                Ok(Parsed::Statement(Stmt::ReturnStatement { assignalbe: Box::new(v) })),
                p_check(t, s3, Lexeme::Semicolon),
            )
        },
    }
}

/// A `break` or `continue` statement.
pub open spec fn p_loop_control(t: Seq<TokenView>, s: PState, ctx: Seq<BlockType>, tk: TokenView, k: LoopControl) -> (
    Result<Parsed, PErr>,
    PState,
) {
    let s0 = if ctx.contains(BlockType::Loop) {
        s
    } else {
        push(s, misplaced(tk, k.text(), "loop"@))
    };
    let (r1, s1) = p_next(t, s0);
    match r1 {
        Err(e) => (Err(e), s1),
        Ok(_) => {
            let node = match k {
                LoopControl::Break => Stmt::Break,
                LoopControl::Continue => Stmt::Continue,
            };
            (Ok(Parsed::Statement(node)), p_check(t, s1, Lexeme::Semicolon))
        },
    }
}

/// A `resume` or `yield` statement.
pub open spec fn p_coroutine_control(
    t: Seq<TokenView>,
    s: PState,
    ctx: Seq<BlockType>,
    tk: TokenView,
    k: CoroutineControl,
) -> (Result<Parsed, PErr>, PState) {
    let (r1, s1) = p_next(t, s);
    match r1 {
        Err(e) => (Err(e), s1),
        Ok(_) => match k {
            CoroutineControl::Resume => {
                let (r2, s2) = p_next(t, s1);
                match r2 {
                    Err(e) => (Err(e), s2),
                    Ok(nt) => match nt.kind {
                        Lexeme::Identifier(task_name) => (
                            Ok(Parsed::Statement(Stmt::CoroutineResume { task_name })),
                            p_check(t, s2, Lexeme::Semicolon),
                        ),
                        _ => (Err(at_tok(ErrorCode::Parse005, nt, seq![])), s2),
                    },
                }
            },
            CoroutineControl::Yield => {
                let s2 = if ctx.contains(BlockType::Coroutine) {
                    s1
                } else {
                    push(s1, misplaced(tk, k.text(), "コルーチン"@))
                };
                (Ok(Parsed::Statement(Stmt::Yield)), p_check(t, s2, Lexeme::Semicolon))
            },
        },
    }
}

/// A statement that starts with a name: a call or an assignment.
pub open spec fn p_identifier(t: Seq<TokenView>, s: PState, name: Seq<char>) -> (
    Result<Parsed, PErr>,
    PState,
) {
    let (r0, s0) = p_next(t, s);
    match r0 {
        Err(e) => (Err(e), s0),
        Ok(_) => {
            let (r1, s1) = p_next(t, s0);
            match r1 {
                Err(e) => (Err(e), s1),
                Ok(tk) => match tk.kind {
                    Lexeme::LParen => {
                        let (args, s2) = p_arguments(t, s1);
                        let s3 = p_check(t, p_check(t, s2, Lexeme::RParen), Lexeme::Semicolon);
                        (
                            Ok(
                                Parsed::Statement(
                                    Stmt::FunctionCall { name, arguments: args, return_flg: false },
                                ),
                            ),
                            s3,
                        )
                    },
                    Lexeme::Equal => {
                        let (r2, s2) = p_expression(t, s1);
                        match r2 {
                            Err(e) => (Err(e), s2),
                            Ok(expr) => (
                                Ok(
                                    Parsed::Statement(
                                        Stmt::VariableAssignment { name, expression: Box::new(expr) },
                                    ),
                                ),
                                p_check(t, s2, Lexeme::Semicolon),
                            ),
                        }
                    },
                    _ => (Err(unexpected(tk)), s1),
                },
            }
        },
    }
}

/// The condition in parentheses that opens an `if` or a `while`, read after
/// the keyword; an error in it is recorded and stands in the tree.
pub open spec fn p_condition(t: Seq<TokenView>, s: PState) -> (Stmt, PState) {
    let s1 = p_check(t, s, Lexeme::LParen);
    let (r, s2) = p_expression(t, s1);
    let (c, s3) = match r {
        Ok(n) => (n, s2),
        Err(e) => (Stmt::Error, push(s2, e)),
    };
    (c, p_check(t, p_check(t, s3, Lexeme::RParen), Lexeme::LBrace))
}

/// An `if` statement.
pub open spec fn p_if(t: Seq<TokenView>, s: PState, ctx: Seq<BlockType>) -> (Result<Parsed, PErr>, PState)
    decreases t.len() - s.pos, 280int,
{
    let (r0, s0) = p_next(t, s);
    match r0 {
        Err(e) => (Err(e), s0),
        Ok(_) => {
            let (c, s1) = p_condition(t, s0);
            if !moved(t, s, s1) {
                (Err(eof_err()), s1)
            } else {
                let (then_acc, s2) = p_statements(t, s1, ctx.push(BlockType::Conditional), BlockType::Conditional);
                let s3 = p_check(t, s2, Lexeme::RBrace);
                let then_block = Block { block_type: BlockType::Conditional, statements: then_acc.stmts };
                if 0 <= s3.pos < t.len() && t[s3.pos].kind == Lexeme::ControlKeyword(ControlKeyword::Else) {
                    let s4 = p_check(t, step(s3), Lexeme::LBrace);
                    if !moved(t, s, s4) {
                        (Err(eof_err()), s4)
                    } else {
                        let (else_acc, s5) = p_statements(t, s4, ctx.push(BlockType::Conditional), BlockType::Conditional);
                        let else_block = Block { block_type: BlockType::Conditional, statements: else_acc.stmts };
                        (
                            Ok(
                                Parsed::Statement(
                                    Stmt::IfStatement {
                                        condition_node: Box::new(c),
                                        then_block,
                                        else_block: Some(else_block),
                                    },
                                ),
                            ),
                            p_check(t, s5, Lexeme::RBrace),
                        )
                    }
                } else {
                    (
                        Ok(
                            Parsed::Statement(
                                Stmt::IfStatement { condition_node: Box::new(c), then_block, else_block: None },
                            ),
                        ),
                        s3,
                    )
                }
            }
        },
    }
}

/// A `while` statement.
pub open spec fn p_loop(t: Seq<TokenView>, s: PState, ctx: Seq<BlockType>) -> (Result<Parsed, PErr>, PState)
    decreases t.len() - s.pos, 280int,
{
    let (r0, s0) = p_next(t, s);
    match r0 {
        Err(e) => (Err(e), s0),
        Ok(_) => {
            let (c, s1) = p_condition(t, s0);
            if !moved(t, s, s1) {
                (Err(eof_err()), s1)
            } else {
                let (acc, s2) = p_statements(t, s1, ctx.push(BlockType::Loop), BlockType::Loop);
                (
                    Ok(
                        Parsed::Statement(
                            Stmt::LoopStatement {
                                condition_node: Box::new(c),
                                block: Block { block_type: BlockType::Loop, statements: acc.stmts },
                            },
                        ),
                    ),
                    p_check(t, s2, Lexeme::RBrace),
                )
            }
        },
    }
}

/// The name a definition gives, or `None` where the token is no name (the
/// error is recorded).
pub open spec fn name_or_none(tk: TokenView, s: PState, what: Seq<char>, at: TokenView) -> (Seq<char>, PState) {
    match tk.kind {
        Lexeme::Identifier(n) => (n, s),
        _ => ("None"@, push(s, at_tok(ErrorCode::Parse005, at, seq![("token"@, what)]))),
    }
}

/// A declaration: of a variable, a function, a coroutine or a task.
pub open spec fn p_declaration(
    t: Seq<TokenView>,
    s: PState,
    ctx: Seq<BlockType>,
    k: DeclarationKeyword,
    doc: Option<Seq<char>>,
) -> (Result<Parsed, PErr>, PState)
    decreases t.len() - s.pos, 280int,
{
    match k {
        DeclarationKeyword::Let => p_let(t, s, doc),
        DeclarationKeyword::Function => p_function(t, s, ctx, doc),
        DeclarationKeyword::Coroutine => p_coroutine(t, s, ctx, doc),
        DeclarationKeyword::Coro => p_coro(t, s),
    }
}

/// The type a variable is declared with, or `bool` where the token is no
/// type (the error is recorded at `at`).
pub open spec fn type_or_bool(tk: TokenView, s: PState, at: TokenView) -> (Type, PState) {
    match tk.kind {
        Lexeme::TypeName(n) => (Type::spec_from_type_name(n), s),
        _ => (Type::Bool, push(s, at_tok(ErrorCode::Parse005, at, seq![("token"@, "型"@)]))),
    }
}

/// A variable declaration.
pub open spec fn p_let(t: Seq<TokenView>, s: PState, doc: Option<Seq<char>>) -> (Result<Parsed, PErr>, PState) {
    let (r0, s0) = p_next(t, s);
    match r0 {
        Err(e) => (Err(e), s0),
        Ok(_) => {
            let (r1, s1) = p_next(t, s0);
            match r1 {
                Err(e) => (Err(e), s1),
                Ok(name_tk) => {
                    let (name, s2) = name_or_none(name_tk, s1, "変数名"@, name_tk);
                    let s3 = p_check(t, s2, Lexeme::Colon);
                    let (r4, s4) = p_next(t, s3);
                    match r4 {
                        Err(e) => (Err(e), s4),
                        Ok(type_tk) => {
                            let (ty, s5) = type_or_bool(type_tk, s4, name_tk);
                            let (r6, s6) = p_next(t, s5);
                            match r6 {
                                Err(e) => (Err(e), s6),
                                Ok(next_tk) => {
                                    let decl = |init: Option<Box<Stmt>>|
                                        Parsed::Statement(
                                            Stmt::VariableDeclaration {
                                                name,
                                                variable_type: ty,
                                                initializer: init,
                                                doc,
                                            },
                                        );
                                    match next_tk.kind {
                                        Lexeme::Semicolon => (Ok(decl(None)), s6),
                                        Lexeme::Equal => {
                                            let (r7, s7) = p_assignable(t, s6);
                                            match r7 {
                                                Err(e) => (Err(e), s7),
                                                Ok(v) => (
                                                    Ok(decl(Some(Box::new(v)))),
                                                    p_check(t, s7, Lexeme::Semicolon),
                                                ),
                                            }
                                        },
                                        _ => (
                                            Ok(decl(None)),
                                            push(
                                                s6,
                                                at_tok(ErrorCode::Parse005, next_tk, seq![("token"@, ";"@)]),
                                            ),
                                        ),
                                    }
                                },
                            }
                        },
                    }
                },
            }
        },
    }
}

/// A task: `coro name = coroutine();`.
pub open spec fn p_coro(t: Seq<TokenView>, s: PState) -> (Result<Parsed, PErr>, PState) {
    let (r0, s0) = p_next(t, s);
    match r0 {
        Err(e) => (Err(e), s0),
        Ok(_) => {
            let (r1, s1) = p_next(t, s0);
            match r1 {
                Err(e) => (Err(e), s1),
                Ok(name_tk) => {
                    let (task_name, s2) = name_or_none(name_tk, s1, "インスタンス名"@, name_tk);
                    let s3 = p_check(t, s2, Lexeme::Equal);
                    match p_peek(t, s3) {
                        Err(e) => (Err(e), s3),
                        Ok(tk) => match tk.kind {
                            Lexeme::Identifier(coroutine_name) => {
                                let s4 = step(s3);
                                let s5 = p_check(t, p_check(t, p_check(t, s4, Lexeme::LParen), Lexeme::RParen), Lexeme::Semicolon);
                                (
                                    Ok(Parsed::Statement(Stmt::CoroutineInstantiation { task_name, coroutine_name })),
                                    s5,
                                )
                            },
                            _ => (
                                Err(at_tok(ErrorCode::Parse005, tk, seq![("token"@, "コルーチン名"@)])),
                                s3,
                            ),
                        },
                    }
                },
            }
        },
    }
}

/// Records that a definition stands outside the global block.
pub open spec fn at_global(ctx: Seq<BlockType>, s: PState, tk: TokenView, what: Seq<char>) -> PState {
    if ctx.len() > 0 && ctx.last() == BlockType::Global {
        s
    } else {
        push(s, misplaced(tk, what, "global_block"@))
    }
}

/// The parameters from the current one on, `acc` holding those read before.
pub open spec fn p_params(t: Seq<TokenView>, s: PState, acc: Seq<(Seq<char>, Type)>) -> (
    Result<Seq<(Seq<char>, Type)>, PErr>,
    PState,
)
    decreases t.len() - s.pos,
{
    match p_peek(t, s) {
        Err(e) => (Err(e), s),
        Ok(tk) => if tk.kind is RParen {
            (Ok(acc), s)
        } else {
            let (r1, s1) = p_next(t, s);
            match r1 {
                Err(e) => (Err(e), s1),
                Ok(name_tk) => {
                    let (name, s2) = match name_tk.kind {
                        Lexeme::Identifier(n) => (n, s1),
                        _ => ("None"@, push(s1, unexpected(name_tk))),
                    };
                    let s3 = p_check(t, s2, Lexeme::Colon);
                    let (r4, s4) = p_next(t, s3);
                    match r4 {
                        Err(e) => (Err(e), s4),
                        Ok(type_tk) => {
                            let (ty, s5) = match type_tk.kind {
                                Lexeme::TypeName(n) => (Type::spec_from_type_name(n), s4),
                                _ => (Type::Bool, push(s4, unexpected(type_tk))),
                            };
                            let acc2 = acc.push((name, ty));
                            match p_peek(t, s5) {
                                Err(e) => (Err(e), s5),
                                Ok(sep) => match sep.kind {
                                    Lexeme::RParen => (Ok(acc2), s5),
                                    Lexeme::Comma => if moved(t, s, step(s5)) {
                                        p_params(t, step(s5), acc2)
                                    } else {
                                        (Err(eof_err()), step(s5))
                                    },
                                    _ => {
                                        let s6 = push(s5, unexpected(sep));
                                        let (r7, s7) = p_next(t, s6);
                                        match r7 {
                                            Err(e) => (Err(e), s7),
                                            Ok(_) => if moved(t, s, s7) {
                                                p_params(t, s7, acc2)
                                            } else {
                                                (Err(eof_err()), s7)
                                            },
                                        }
                                    },
                                },
                            }
                        },
                    }
                },
            }
        },
    }
}

/// The type a function returns: `-> type` after the parameters, if written.
pub open spec fn p_return_type(t: Seq<TokenView>, s: PState) -> (Option<Type>, PState) {
    if 0 <= s.pos < t.len() && t[s.pos].kind is RArrow {
        let (r, s1) = p_next(t, step(s));
        match r {
            Err(e) => (None, push(s1, e)),
            Ok(tk) => match tk.kind {
                Lexeme::TypeName(n) => (Some(Type::spec_from_type_name(n)), s1),
                _ => (None, push(s1, at_tok(ErrorCode::Parse005, tk, seq![("token"@, "型"@)]))),
            },
        }
    } else {
        (None, s)
    }
}

/// A function definition.
pub open spec fn p_function(t: Seq<TokenView>, s: PState, ctx: Seq<BlockType>, doc: Option<Seq<char>>) -> (
    Result<Parsed, PErr>,
    PState,
)
    decreases t.len() - s.pos, 270int,
{
    let (r0, s0) = p_next(t, s);
    match r0 {
        Err(e) => (Err(e), s0),
        Ok(kw) => {
            let s1 = at_global(ctx, s0, kw, "function"@);
            let (r2, s2) = p_next(t, s1);
            match r2 {
                Err(e) => (Err(e), s2),
                Ok(name_tk) => {
                    let (name, s3) = name_or_none(name_tk, s2, "関数名"@, name_tk);
                    let s4 = p_check(t, s3, Lexeme::LParen);
                    let (rp, s5) = p_params(t, s4, seq![]);
                    match rp {
                        Err(e) => (Err(e), s5),
                        Ok(params) => {
                            let s6 = p_check(t, s5, Lexeme::RParen);
                            let (ret, s7) = p_return_type(t, s6);
                            let s8 = p_check(t, s7, Lexeme::LBrace);
                            if !moved(t, s, s8) {
                                (Err(eof_err()), s8)
                            } else {
                                let (acc, s9) = p_statements(t, s8, ctx.push(BlockType::Function), BlockType::Function);
                                (
                                    Ok(
                                        Parsed::Function(
                                            FunDef {
                                                name,
                                                parameters: params,
                                                return_type: ret,
                                                block: Block { block_type: BlockType::Function, statements: acc.stmts },
                                                doc,
                                            },
                                        ),
                                    ),
                                    p_check(t, s9, Lexeme::RBrace),
                                )
                            }
                        },
                    }
                },
            }
        },
    }
}

/// A coroutine definition.
pub open spec fn p_coroutine(t: Seq<TokenView>, s: PState, ctx: Seq<BlockType>, doc: Option<Seq<char>>) -> (
    Result<Parsed, PErr>,
    PState,
)
    decreases t.len() - s.pos, 270int,
{
    let (r0, s0) = p_next(t, s);
    match r0 {
        Err(e) => (Err(e), s0),
        Ok(kw) => {
            let s1 = at_global(ctx, s0, kw, "coroutine"@);
            let (r2, s2) = p_next(t, s1);
            match r2 {
                Err(e) => (Err(e), s2),
                Ok(name_tk) => {
                    let (name, s3) = name_or_none(name_tk, s2, "コルーチン名"@, name_tk);
                    let s4 = p_check(t, p_check(t, p_check(t, s3, Lexeme::LParen), Lexeme::RParen), Lexeme::LBrace);
                    if !moved(t, s, s4) {
                        (Err(eof_err()), s4)
                    } else {
                        let (acc, s5) = p_statements(t, s4, ctx.push(BlockType::Coroutine), BlockType::Coroutine);
                        (
                            Ok(
                                Parsed::Coroutine(
                                    CoroDef {
                                        name,
                                        block: Block { block_type: BlockType::Coroutine, statements: acc.stmts },
                                        doc,
                                    },
                                ),
                            ),
                            p_check(t, s5, Lexeme::RBrace),
                        )
                    }
                },
            }
        },
    }
}

/// A program: the definitions of its global block, and the errors met.
pub open spec fn spec_parse(t: Seq<TokenView>) -> (Program, Seq<PErr>) {
    let (acc, s) = p_statements(t, PState { pos: 0, errs: seq![] }, seq![BlockType::Global], BlockType::Global);
    (Program { functions: acc.funs, coroutines: acc.coros }, s.errs)
}


/// Every function gathered has a function block and every coroutine a
/// coroutine block.
pub open spec fn blocks_fit(acc: Acc) -> bool {
    &&& forall|i: int| 0 <= i < acc.funs.len() ==> (#[trigger] acc.funs[i]).block.block_type == BlockType::Function
    &&& forall|i: int|
        0 <= i < acc.coros.len() ==> (#[trigger] acc.coros[i]).block.block_type == BlockType::Coroutine
}

/// What a statement rule builds fits its kind.
pub open spec fn parsed_fits(r: Result<Parsed, PErr>) -> bool {
    match r {
        Ok(Parsed::Function(f)) => f.block.block_type == BlockType::Function,
        Ok(Parsed::Coroutine(c)) => c.block.block_type == BlockType::Coroutine,
        _ => true,
    }
}

proof fn lemma_function_fits(t: Seq<TokenView>, s: PState, ctx: Seq<BlockType>, doc: Option<Seq<char>>)
    ensures
        parsed_fits(p_function(t, s, ctx, doc).0),
{
}

proof fn lemma_coroutine_fits(t: Seq<TokenView>, s: PState, ctx: Seq<BlockType>, doc: Option<Seq<char>>)
    ensures
        parsed_fits(p_coroutine(t, s, ctx, doc).0),
{
}

proof fn lemma_declaration_fits(
    t: Seq<TokenView>,
    s: PState,
    ctx: Seq<BlockType>,
    k: DeclarationKeyword,
    doc: Option<Seq<char>>,
)
    ensures
        parsed_fits(p_declaration(t, s, ctx, k, doc).0),
{
    lemma_function_fits(t, s, ctx, doc);
    lemma_coroutine_fits(t, s, ctx, doc);
}

proof fn lemma_statement_fits(t: Seq<TokenView>, s: PState, ctx: Seq<BlockType>, doc: Option<Seq<char>>)
    ensures
        parsed_fits(p_statement(t, s, ctx, doc).0),
{
    if let Ok(tk) = p_peek(t, s) {
        if let Lexeme::DeclarationKeyword(k) = tk.kind {
            lemma_declaration_fits(t, s, ctx, k, doc);
        }
    }
}

proof fn lemma_loop_fits(
    t: Seq<TokenView>,
    s: PState,
    ctx: Seq<BlockType>,
    bt: BlockType,
    acc: Acc,
    doc: Option<Seq<char>>,
)
    requires
        blocks_fit(acc),
    ensures
        blocks_fit(p_stmts_loop(t, s, ctx, bt, acc, doc).0),
    decreases t.len() - s.pos,
{
    reveal(p_stmts_loop);
    if let Ok(tk) = p_peek(t, s) {
        if !((ends_at_brace(bt) && tk.kind is RBrace) || tk.kind is EOF) {
            match tk.kind {
                Lexeme::DocComment(text) => {
                    if is_process(text) {
                        let acc2 = add_item(
                            acc,
                            Parsed::Statement(Stmt::ProcessComment { comment: process_text(text) }),
                        );
                        lemma_loop_fits(t, step(s), ctx, bt, acc2, doc);
                    } else {
                        lemma_loop_fits(t, step(s), ctx, bt, acc, join_doc(doc, trim_start(text)));
                    }
                },
                _ => {
                    let (r, s1) = p_statement(t, s, ctx, doc);
                    lemma_statement_fits(t, s, ctx, doc);
                    if let Ok(p) = r {
                        if moved(t, s, s1) {
                            let acc2 = add_item(acc, p);
                            assert(blocks_fit(acc2));
                            lemma_loop_fits(t, s1, ctx, bt, acc2, None);
                        }
                    }
                },
            }
        }
    }
}

/// A sum or difference keeps its operands in the order written: what
/// stands before `+` or `-` is the left operand, the term after it the right
/// one, and the operator is the one written.
pub proof fn law_sum_keeps_operand_order(t: Seq<TokenView>, s: PState, left: Stmt)
    requires
        0 <= s.pos < t.len(),
        is_add_op(t[s.pos].kind),
        p_mul(t, step(s)).0 is Ok,
        moved(t, s, p_mul(t, step(s)).1),
        !(0 <= p_mul(t, step(s)).1.pos < t.len() && is_add_op(t[p_mul(t, step(s)).1.pos].kind)),
    ensures
        p_add_rest(t, s, left) == (
            Ok::<Stmt, PErr>(
                Stmt::Arithmetic {
                    operator: t[s.pos].kind->ArithmeticOperator_0,
                    left: Box::new(left),
                    right: Some(Box::new(p_mul(t, step(s)).0->Ok_0)),
                },
            ),
            p_mul(t, step(s)).1,
        ),
{
    let (r, s2) = p_mul(t, step(s));
    let node = Stmt::Arithmetic {
        operator: arith_of(t[s.pos].kind),
        left: Box::new(left),
        right: Some(Box::new(r->Ok_0)),
    };
    assert(p_add_rest(t, s2, node) == (Ok::<Stmt, PErr>(node), s2)) by {
        reveal(p_stmts_loop);
    }
    assert(p_add_rest(t, s, left) == p_add_rest(t, s2, node)) by {
        reveal(p_stmts_loop);
    }
}

/// A product or quotient keeps its operands in the order written.
pub proof fn law_product_keeps_operand_order(t: Seq<TokenView>, s: PState, left: Stmt)
    requires
        0 <= s.pos < t.len(),
        is_mul_op(t[s.pos].kind),
        p_unary(t, step(s)).0 is Ok,
        moved(t, s, p_unary(t, step(s)).1),
        !(0 <= p_unary(t, step(s)).1.pos < t.len() && is_mul_op(t[p_unary(t, step(s)).1.pos].kind)),
    ensures
        p_mul_rest(t, s, left) == (
            Ok::<Stmt, PErr>(
                Stmt::Arithmetic {
                    operator: t[s.pos].kind->ArithmeticOperator_0,
                    left: Box::new(left),
                    right: Some(Box::new(p_unary(t, step(s)).0->Ok_0)),
                },
            ),
            p_unary(t, step(s)).1,
        ),
{
    let (r, s2) = p_unary(t, step(s));
    let node = Stmt::Arithmetic {
        operator: arith_of(t[s.pos].kind),
        left: Box::new(left),
        right: Some(Box::new(r->Ok_0)),
    };
    assert(p_mul_rest(t, s2, node) == (Ok::<Stmt, PErr>(node), s2)) by {
        reveal(p_stmts_loop);
    }
    assert(p_mul_rest(t, s, left) == p_mul_rest(t, s2, node)) by {
        reveal(p_stmts_loop);
    }
}

/// Every function of a parsed program has a function block, and every
/// coroutine a coroutine block.
pub proof fn law_definitions_have_their_blocks(t: Seq<TokenView>)
    ensures
        forall|i: int|
            0 <= i < spec_parse(t).0.functions.len() ==> (#[trigger] spec_parse(t).0.functions[i]).block.block_type
                == BlockType::Function,
        forall|i: int|
            0 <= i < spec_parse(t).0.coroutines.len() ==> (#[trigger] spec_parse(t).0.coroutines[i]).block.block_type
                == BlockType::Coroutine,
{
    let s0 = PState { pos: 0, errs: seq![] };
    assert(blocks_fit(empty_acc()));
    lemma_loop_fits(t, s0, seq![BlockType::Global], BlockType::Global, empty_acc(), None);
    assert(p_statements(t, s0, seq![BlockType::Global], BlockType::Global) == p_stmts_loop(
        t,
        s0,
        seq![BlockType::Global],
        BlockType::Global,
        empty_acc(),
        None,
    )) by {
        reveal(p_stmts_loop);
    }
}

} // verus!
