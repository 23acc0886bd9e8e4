//! Tokenizing Green source text.
//!
//! The tokenizer is specified by `lex_step`, which says what is read at a
//! position of the text, and `lex_from`, which reads the whole text from a
//! position on.
use vstd::prelude::*;
use crate::common::keyword::{
    BoolKeyword, ControlKeyword, CoroutineControl, DeclarationKeyword, FunctionControl,
    LoopControl, TypeName,
};
use crate::common::operator::{Arithmetic, Comparison, Logical};
use crate::error::error_code::ErrorCode;
use crate::error::error_context::ErrorContext;
use crate::lexer::token::{Lexeme, Token, TokenKind, TokenView};
use crate::text::{chars_of, string_from_chars};

verus! {

/// Whether `c`, a character outside ASCII, has the Unicode `Alphabetic`
/// property (`char::is_alphabetic`).
pub uninterp spec fn is_alphabetic_char(c: char) -> bool;

/// Whether `c`, a character outside ASCII, is a Unicode numeric character
/// (`char::is_numeric`).
pub uninterp spec fn is_numeric_char(c: char) -> bool;

/// Whether `c` is an ASCII letter.
pub open spec fn ascii_letter(c: char) -> bool {
    (65 <= (c as u32) <= 90) || (97 <= (c as u32) <= 122)
}

/// Whether `c` is an ASCII digit.
pub open spec fn ascii_digit(c: char) -> bool {
    48 <= (c as u32) <= 57
}

/// Whether `c` is alphabetic: among ASCII characters exactly the letters.
pub open spec fn alphabetic_char(c: char) -> bool {
    if (c as u32) < 128 {
        ascii_letter(c)
    } else {
        is_alphabetic_char(c)
    }
}

/// Whether `c` is numeric: among ASCII characters exactly the digits.
pub open spec fn numeric_char(c: char) -> bool {
    if (c as u32) < 128 {
        ascii_digit(c)
    } else {
        is_numeric_char(c)
    }
}

/// Trusted: calls `char::is_alphabetic`. Its documentation gives the ASCII
/// letters as alphabetic and no other ASCII character is in the Unicode
/// `Alphabetic` property; outside ASCII the result depends on the character
/// alone and is named `is_alphabetic_char`, which characters have the
/// property there is not stated.
#[verifier::external_body]
fn char_is_alphabetic(c: char) -> (r: bool)
    ensures
        (c as u32) < 128 ==> r == ((65 <= (c as u32) <= 90) || (97 <= (c as u32) <= 122)),
        (c as u32) >= 128 ==> r == is_alphabetic_char(c),
{
    c.is_alphabetic()
}

/// Trusted: calls `char::is_numeric`. Among ASCII characters only the
/// digits `0`–`9` are numeric (general categories Nd, Nl, No); outside
/// ASCII the result depends on the character alone and is named
/// `is_numeric_char`, which characters are numeric there is not stated.
#[verifier::external_body]
fn char_is_numeric(c: char) -> (r: bool)
    ensures
        (c as u32) < 128 ==> r == (48 <= (c as u32) <= 57),
        (c as u32) >= 128 ==> r == is_numeric_char(c),
{
    c.is_numeric()
}

/// A position in the text: row and column, both counted from 1.
pub open spec fn next_pos(p: (int, int), c: char) -> (int, int) {
    if c == '\n' {
        (p.0 + 1, 1)
    } else {
        (p.0, p.1 + 1)
    }
}

/// The position reached from `p` by reading `s[i..j]`.
pub open spec fn advance(s: Seq<char>, i: int, j: int, p: (int, int)) -> (int, int)
    decreases j - i,
{
    if j <= i {
        p
    } else {
        next_pos(advance(s, i, j - 1, p), s[j - 1])
    }
}

/// The first index at or after `j` whose character does not satisfy `keep`
/// (the length of `s` if there is none).
pub open spec fn scan_while(s: Seq<char>, j: int, keep: spec_fn(char) -> bool) -> int
    decreases s.len() - j,
{
    if j >= s.len() {
        s.len() as int
    } else if keep(s[j]) {
        scan_while(s, j + 1, keep)
    } else {
        j
    }
}

/// Characters that continue an identifier.
pub open spec fn is_ident_char(c: char) -> bool {
    alphabetic_char(c) || numeric_char(c) || c == '_'
}

/// Characters inside a string literal.
pub open spec fn is_string_char(c: char) -> bool {
    c != '"' && c != '\n' && c != '\r'
}

/// Characters that continue an identifier, as a predicate.
pub open spec fn ident_keep() -> spec_fn(char) -> bool {
    |c: char| is_ident_char(c)
}

/// Numeric characters, as a predicate.
pub open spec fn numeric_keep() -> spec_fn(char) -> bool {
    |c: char| numeric_char(c)
}

/// Characters inside a string literal, as a predicate.
pub open spec fn string_keep() -> spec_fn(char) -> bool {
    |c: char| is_string_char(c)
}

/// Characters other than a newline, as a predicate.
pub open spec fn line_keep() -> spec_fn(char) -> bool {
    |c: char| c != '\n'
}

/// The character `=`, as a predicate.
pub open spec fn equals_keep() -> spec_fn(char) -> bool {
    |c: char| c == '='
}

/// The first `*/` at or after `k` (its index), or the length of `s`.
pub open spec fn block_close(s: Seq<char>, k: int) -> int
    decreases s.len() - k,
{
    if k + 1 >= s.len() {
        s.len() as int
    } else if s[k] == '*' && s[k + 1] == '/' {
        k
    } else {
        block_close(s, k + 1)
    }
}

/// `t` without its carriage returns.
pub open spec fn drop_cr(t: Seq<char>) -> Seq<char>
    decreases t.len(),
{
    if t.len() == 0 {
        t
    } else if t.last() == '\r' {
        drop_cr(t.drop_last())
    } else {
        drop_cr(t.drop_last()).push(t.last())
    }
}

/// The token of a word: a literal, an operator or a keyword where the word
/// spells one, an identifier otherwise.
pub open spec fn word_lexeme(w: Seq<char>) -> Lexeme {
    if let Some(k) = BoolKeyword::spec_from_str(w) {
        Lexeme::BoolLiteral(k)
    } else if let Some(o) = Logical::spec_from_str(w) {
        Lexeme::LogicalOperator(o)
    } else if let Some(k) = ControlKeyword::spec_from_str(w) {
        Lexeme::ControlKeyword(k)
    } else if let Some(k) = DeclarationKeyword::spec_from_str(w) {
        Lexeme::DeclarationKeyword(k)
    } else if let Some(k) = TypeName::spec_from_str(w) {
        Lexeme::TypeName(k)
    } else if let Some(k) = FunctionControl::spec_from_str(w) {
        Lexeme::FunctionControl(k)
    } else if let Some(k) = LoopControl::spec_from_str(w) {
        Lexeme::LoopControl(k)
    } else if let Some(k) = CoroutineControl::spec_from_str(w) {
        Lexeme::CoroutineControl(k)
    } else {
        Lexeme::Identifier(w)
    }
}

/// An error of the lexer: its code, position and message parameters.
pub struct LexFailure {
    pub code: ErrorCode,
    pub at: (int, int),
    pub params: Seq<(Seq<char>, Seq<char>)>,
}

/// What the lexer does at one position.
pub enum LexStep {
    /// Reads the text up to `next` and emits nothing.
    Skip { next: int },
    /// Reads the text up to `next` and emits a token standing at `at`.
    Emit { kind: Lexeme, at: (int, int), next: int },
    /// Stops with an error.
    Fail { failure: LexFailure },
}

pub open spec fn fail_at(code: ErrorCode, at: (int, int)) -> LexStep {
    LexStep::Fail { failure: LexFailure { code, at, params: seq![] } }
}

/// What the lexer does at a `/`.
pub open spec fn slash_step(s: Seq<char>, i: int, p: (int, int)) -> LexStep {
    if i + 1 >= s.len() {
        fail_at(ErrorCode::Lex004, advance(s, i, i + 1, p))
    } else if s[i + 1] == '/' {
        if i + 2 < s.len() && s[i + 2] == '/' {
            let e = scan_while(s, i + 3, line_keep());
            LexStep::Emit {
                kind: Lexeme::DocComment(drop_cr(s.subrange(i + 3, e))),
                at: p,
                next: if e < s.len() { e + 1 } else { e },
            }
        } else {
            let e = scan_while(s, i + 2, line_keep());
            LexStep::Skip { next: if e < s.len() { e + 1 } else { e } }
        }
    } else if s[i + 1] == '*' {
        let k = block_close(s, i + 2);
        if k >= s.len() {
            fail_at(ErrorCode::Lex004, advance(s, i, s.len() as int, p))
        } else {
            LexStep::Skip { next: k + 2 }
        }
    } else {
        LexStep::Emit { kind: Lexeme::ArithmeticOperator(Arithmetic::Divide), at: p, next: i + 1 }
    }
}

/// What the lexer does at a `"`.
pub open spec fn string_step(s: Seq<char>, i: int, p: (int, int)) -> LexStep {
    let e = scan_while(s, i + 1, string_keep());
    if e >= s.len() {
        fail_at(ErrorCode::Lex004, advance(s, i, e, p))
    } else if s[e] != '"' {
        fail_at(ErrorCode::Lex003, advance(s, i, e, p))
    } else {
        LexStep::Emit {
            kind: Lexeme::StringLiteral(s.subrange(i + 1, e)),
            at: advance(s, i, e + 1, p),
            next: e + 1,
        }
    }
}

/// What the lexer does at `<` or `>`.
pub open spec fn angle_step(s: Seq<char>, i: int, p: (int, int)) -> LexStep {
    let e = scan_while(s, i + 1, equals_keep());
    if e >= s.len() {
        fail_at(ErrorCode::Lex004, advance(s, i, e, p))
    } else if e - (i + 1) <= 1 {
        let op = if s[i] == '<' {
            if e == i + 1 {
                Comparison::Less
            } else {
                Comparison::LessEqual
            }
        } else {
            if e == i + 1 {
                Comparison::Greater
            } else {
                Comparison::GreaterEqual
            }
        };
        LexStep::Emit { kind: Lexeme::CompareOperator(op), at: advance(s, i, e, p), next: e }
    } else {
        LexStep::Fail {
            failure: LexFailure {
                code: ErrorCode::Lex005,
                at: p,
                params: seq![("operator"@, s.subrange(i, e))],
            },
        }
    }
}

/// What the lexer does at position `i` of `s`, the position in the text
/// being `p`.
pub open spec fn lex_step(s: Seq<char>, i: int, p: (int, int)) -> LexStep {
    let c = s[i];
    if c == ' ' || c == '\n' || c == '\r' || c == '\t' {
        LexStep::Skip { next: i + 1 }
    } else if c == '(' {
        LexStep::Emit { kind: Lexeme::LParen, at: p, next: i + 1 }
    } else if c == ')' {
        LexStep::Emit { kind: Lexeme::RParen, at: p, next: i + 1 }
    } else if c == '{' {
        LexStep::Emit { kind: Lexeme::LBrace, at: p, next: i + 1 }
    } else if c == '}' {
        LexStep::Emit { kind: Lexeme::RBrace, at: p, next: i + 1 }
    } else if c == ':' {
        LexStep::Emit { kind: Lexeme::Colon, at: p, next: i + 1 }
    } else if c == ';' {
        LexStep::Emit { kind: Lexeme::Semicolon, at: p, next: i + 1 }
    } else if c == ',' {
        LexStep::Emit { kind: Lexeme::Comma, at: p, next: i + 1 }
    } else if c == '.' {
        LexStep::Emit { kind: Lexeme::Dot, at: p, next: i + 1 }
    } else if c == '+' {
        LexStep::Emit { kind: Lexeme::ArithmeticOperator(Arithmetic::Plus), at: p, next: i + 1 }
    } else if c == '-' {
        if i + 1 < s.len() && s[i + 1] == '>' {
            LexStep::Emit { kind: Lexeme::RArrow, at: p, next: i + 2 }
        } else {
            LexStep::Emit {
                kind: Lexeme::ArithmeticOperator(Arithmetic::Minus),
                at: p,
                next: i + 1,
            }
        }
    } else if c == '*' {
        LexStep::Emit {
            kind: Lexeme::ArithmeticOperator(Arithmetic::Multiply),
            at: p,
            next: i + 1,
        }
    } else if c == '/' {
        slash_step(s, i, p)
    } else if c == '"' {
        string_step(s, i, p)
    } else if c == '=' {
        if i + 1 >= s.len() {
            fail_at(ErrorCode::Lex004, advance(s, i, i + 1, p))
        } else if s[i + 1] == '=' {
            LexStep::Emit {
                kind: Lexeme::CompareOperator(Comparison::Equal),
                at: advance(s, i, i + 1, p),
                next: i + 2,
            }
        } else {
            LexStep::Emit { kind: Lexeme::Equal, at: advance(s, i, i + 1, p), next: i + 1 }
        }
    } else if c == '!' {
        if i + 1 >= s.len() {
            fail_at(ErrorCode::Lex004, advance(s, i, i + 1, p))
        } else if s[i + 1] == '=' {
            LexStep::Emit {
                kind: Lexeme::CompareOperator(Comparison::NotEqual),
                at: advance(s, i, i + 1, p),
                next: i + 2,
            }
        } else {
            LexStep::Fail {
                failure: LexFailure {
                    code: ErrorCode::Lex005,
                    at: advance(s, i, i + 1, p),
                    params: seq![("operator"@, "!"@)],
                },
            }
        }
    } else if c == '<' || c == '>' {
        angle_step(s, i, p)
    } else if alphabetic_char(c) {
        let e = scan_while(s, i, ident_keep());
        if e >= s.len() {
            fail_at(ErrorCode::Lex004, advance(s, i, e, p))
        } else {
            LexStep::Emit { kind: word_lexeme(s.subrange(i, e)), at: p, next: e }
        }
    } else if numeric_char(c) {
        let e = scan_while(s, i, numeric_keep());
        LexStep::Emit { kind: Lexeme::NumberLiteral(s.subrange(i, e)), at: p, next: e }
    } else {
        LexStep::Fail {
            failure: LexFailure { code: ErrorCode::Lex002, at: p, params: seq![("char"@, seq![c])] },
        }
    }
}

/// The tokens read from position `i` on (the last one `EOF`), or those read
/// before an error together with that error.
pub open spec fn lex_from(s: Seq<char>, i: int, p: (int, int)) -> (Seq<TokenView>, Option<LexFailure>)
    decreases s.len() - i,
{
    if i < 0 || i >= s.len() {
        (seq![TokenView { kind: Lexeme::EOF, row: p.0, col: p.1 }], None)
    } else {
        match lex_step(s, i, p) {
            LexStep::Skip { next } => if i < next <= s.len() {
                lex_from(s, next, advance(s, i, next, p))
            } else {
                (seq![], None)
            },
            LexStep::Emit { kind, at, next } => if i < next <= s.len() {
                let rest = lex_from(s, next, advance(s, i, next, p));
                (seq![TokenView { kind, row: at.0, col: at.1 }] + rest.0, rest.1)
            } else {
                (seq![], None)
            },
            LexStep::Fail { failure } => (seq![], Some(failure)),
        }
    }
}

/// The tokens of a text, or those read before an error and the error.
pub open spec fn spec_lex(s: Seq<char>) -> (Seq<TokenView>, Option<LexFailure>) {
    lex_from(s, 0, (1, 1))
}

/// Whether a reported error is the given failure.
pub open spec fn reports(e: ErrorContext, f: LexFailure) -> bool {
    &&& e.error_code == f.code
    &&& e.row == f.at.0
    &&& e.col == f.at.1
    &&& e.params_view() == f.params
}

/// The models of a list of tokens.
pub open spec fn tokens_view(tokens: Seq<Token>) -> Seq<TokenView> {
    tokens.map_values(|t: Token| t@)
}

proof fn lemma_advance_split(s: Seq<char>, i: int, k: int, j: int, p: (int, int))
    requires
        i <= k <= j,
    ensures
        advance(s, i, j, p) == advance(s, k, j, advance(s, i, k, p)),
    decreases j - k,
{
    if j > k {
        lemma_advance_split(s, i, k, j - 1, p);
    }
}

proof fn lemma_advance_bounds(s: Seq<char>, i: int, j: int, p: (int, int))
    requires
        i <= j,
        p.0 >= 1,
        p.1 >= 1,
    ensures
        advance(s, i, j, p).0 >= 1,
        advance(s, i, j, p).1 >= 1,
        advance(s, i, j, p).0 + advance(s, i, j, p).1 <= p.0 + p.1 + (j - i),
    decreases j - i,
{
    if j > i {
        lemma_advance_bounds(s, i, j - 1, p);
    }
}

/// Reading no newline leaves the row as it is and moves the column on.
proof fn lemma_advance_no_newline(s: Seq<char>, i: int, j: int, p: (int, int))
    requires
        i <= j,
        forall|k: int| i <= k < j ==> s[k] != '\n',
    ensures
        advance(s, i, j, p) == (p.0, p.1 + (j - i)),
    decreases j - i,
{
    if j > i {
        lemma_advance_no_newline(s, i, j - 1, p);
    }
}

proof fn lemma_scan_step(s: Seq<char>, j: int, keep: spec_fn(char) -> bool)
    requires
        0 <= j < s.len(),
        keep(s[j]),
    ensures
        scan_while(s, j, keep) == scan_while(s, j + 1, keep),
{
}

proof fn lemma_scan_bounds(s: Seq<char>, j: int, keep: spec_fn(char) -> bool)
    requires
        0 <= j <= s.len(),
    ensures
        j <= scan_while(s, j, keep) <= s.len(),
        scan_while(s, j, keep) < s.len() ==> !keep(s[scan_while(s, j, keep)]),
        forall|k: int| j <= k < scan_while(s, j, keep) ==> keep(#[trigger] s[k]),
    decreases s.len() - j,
{
    if j < s.len() && keep(s[j]) {
        lemma_scan_bounds(s, j + 1, keep);
    }
}

fn in_string(c: char) -> (r: bool)
    ensures
        r == is_string_char(c),
{
    c != '"' && c != '\n' && c != '\r'
}

fn in_identifier(c: char) -> (r: bool)
    ensures
        r == is_ident_char(c),
{
    char_is_alphabetic(c) || char_is_numeric(c) || c == '_'
}

proof fn lemma_block_close_bounds(s: Seq<char>, k: int)
    requires
        0 <= k <= s.len(),
    ensures
        k <= block_close(s, k) <= s.len(),
        block_close(s, k) < s.len() ==> block_close(s, k) + 1 < s.len(),
    decreases s.len() - k,
{
    if k + 1 < s.len() && !(s[k] == '*' && s[k + 1] == '/') {
        lemma_block_close_bounds(s, k + 1);
    }
}

/// Each step that reads reads at least one character and stays within the
/// text.
proof fn lemma_step_moves(s: Seq<char>, i: int, p: (int, int))
    requires
        0 <= i < s.len(),
    ensures
        match lex_step(s, i, p) {
            LexStep::Skip { next } => i < next <= s.len(),
            LexStep::Emit { kind: _, at: _, next } => i < next <= s.len(),
            LexStep::Fail { failure: _ } => true,
        },
{
    let c = s[i];
    if c == '/' {
        if i + 2 <= s.len() {
            lemma_scan_bounds(s, i + 2, line_keep());
        }
        if i + 3 <= s.len() {
            lemma_scan_bounds(s, i + 3, line_keep());
        }
        if i + 2 <= s.len() {
            lemma_block_close_bounds(s, i + 2);
        }
    } else if c == '"' {
        lemma_scan_bounds(s, i + 1, string_keep());
    } else if c == '<' || c == '>' {
        lemma_scan_bounds(s, i + 1, equals_keep());
    } else if alphabetic_char(c) {
        assert(ident_keep()(c));
        lemma_scan_step(s, i, ident_keep());
        lemma_scan_bounds(s, i + 1, ident_keep());
    } else if numeric_char(c) {
        assert(numeric_keep()(c));
        lemma_scan_step(s, i, numeric_keep());
        lemma_scan_bounds(s, i + 1, numeric_keep());
    }
}

proof fn lemma_ends_with_eof(s: Seq<char>, i: int, p: (int, int))
    requires
        0 <= i,
    ensures
        lex_from(s, i, p).1 is None ==> lex_from(s, i, p).0.len() > 0 && lex_from(s, i, p).0.last().kind
            == Lexeme::EOF,
    decreases s.len() - i,
{
    if i < s.len() {
        lemma_step_moves(s, i, p);
        match lex_step(s, i, p) {
            LexStep::Skip { next } => {
                lemma_ends_with_eof(s, next, advance(s, i, next, p));
            },
            LexStep::Emit { kind, at, next } => {
                lemma_ends_with_eof(s, next, advance(s, i, next, p));
            },
            LexStep::Fail { failure: _ } => {},
        }
    }
}

/// A comparison that starts with `<` or `>` is read as written: the
/// operator of the token is the one whose text is the characters read, so
/// `<=` gives `LessEqual` and `<` gives `Less`; a `<` or `>` followed by one
/// `=` (and no more) reads both, and one followed by another character reads
/// only itself.
pub proof fn law_comparison_read_as_written(s: Seq<char>, i: int, p: (int, int))
    requires
        0 <= i < s.len(),
        s[i] == '<' || s[i] == '>',
    ensures
        lex_step(s, i, p) matches LexStep::Emit { kind, at: _, next } ==> (kind matches Lexeme::CompareOperator(
            op,
        ) && op.text() == s.subrange(i, next)),
        i + 2 < s.len() && s[i + 1] == '=' && s[i + 2] != '=' ==> (lex_step(s, i, p) matches LexStep::Emit {
            kind: _,
            at: _,
            next,
        } && next == i + 2),
        i + 1 < s.len() && s[i + 1] != '=' ==> (lex_step(s, i, p) matches LexStep::Emit { kind: _, at: _, next }
            && next == i + 1),
{
    reveal_strlit("<");
    reveal_strlit("<=");
    reveal_strlit(">");
    reveal_strlit(">=");
    lemma_scan_bounds(s, i + 1, equals_keep());
    let e = scan_while(s, i + 1, equals_keep());
    assert(lex_step(s, i, p) == angle_step(s, i, p));
    if e < s.len() && e - (i + 1) <= 1 {
        if e == i + 2 {
            assert(s[i + 1] == '=');
        }
        assert(s.subrange(i, e) =~= if e == i + 1 {
            seq![s[i]]
        } else {
            seq![s[i], '=']
        });
    }
    if i + 2 < s.len() && s[i + 1] == '=' && s[i + 2] != '=' {
        lemma_scan_step(s, i + 1, equals_keep());
    }
}

/// Every comparison or arithmetic operator the lexer reads is the operator
/// written by the characters it read: `==` is `Equal`, `!=` is `NotEqual`,
/// `+` is `Plus`, and so on.
pub proof fn law_operators_read_as_written(s: Seq<char>, i: int, p: (int, int))
    requires
        0 <= i < s.len(),
    ensures
        lex_step(s, i, p) matches LexStep::Emit { kind: Lexeme::CompareOperator(op), at: _, next } ==> op.text()
            == s.subrange(i, next),
        lex_step(s, i, p) matches LexStep::Emit { kind: Lexeme::ArithmeticOperator(op), at: _, next } ==> op.text()
            == s.subrange(i, next),
{
    reveal_strlit("==");
    reveal_strlit("!=");
    reveal_strlit("+");
    reveal_strlit("-");
    reveal_strlit("*");
    reveal_strlit("/");
    let c = s[i];
    if c == '<' || c == '>' {
        law_comparison_read_as_written(s, i, p);
    } else if c == '=' || c == '!' {
        if i + 1 < s.len() {
            assert(s.subrange(i, i + 2) =~= seq![c, s[i + 1]]);
        }
    } else if c == '+' || c == '-' || c == '*' || c == '/' {
        assert(s.subrange(i, i + 1) =~= seq![c]);
    }
}

/// A text the lexer reads without error gives tokens that end with the end
/// marker.
pub proof fn law_tokens_end_with_eof(s: Seq<char>)
    ensures
        spec_lex(s).1 is None ==> spec_lex(s).0.len() > 0 && spec_lex(s).0.last().kind == Lexeme::EOF,
{
    lemma_ends_with_eof(s, 0, (1, 1));
}

pub struct Lexer {
    chars: Vec<char>,
    pos: usize,
    tokens: Vec<Token>,
    row: u32,
    col: u32,
}

impl Lexer {
    /// The text, the tokens so far and the position agree.
    pub closed spec fn wf(&self) -> bool {
        &&& self.pos <= self.chars.len()
        &&& self.chars.len() + 4 < u32::MAX
        &&& (self.row as int, self.col as int) == advance(self.chars@, 0, self.pos as int, (1, 1))
    }

    pub closed spec fn text(&self) -> Seq<char> {
        self.chars@
    }

    pub closed spec fn at(&self) -> int {
        self.pos as int
    }

    pub closed spec fn place(&self) -> (int, int) {
        (self.row as int, self.col as int)
    }

    pub closed spec fn emitted(&self) -> Seq<TokenView> {
        tokens_view(self.tokens@)
    }

    /// One step of `lex_step` was taken from `old` to `new`, with result `r`.
    pub closed spec fn stepped(old: Lexer, new: Lexer, r: Result<(), ErrorContext>) -> bool {
        &&& new.wf()
        &&& new.chars@ == old.chars@
        &&& match lex_step(old.chars@, old.pos as int, old.place()) {
            LexStep::Skip { next } => {
                &&& r is Ok
                &&& old.pos < next <= old.chars.len()
                &&& new.pos == next
                &&& new.emitted() == old.emitted()
            },
            LexStep::Emit { kind, at, next } => {
                &&& r is Ok
                &&& old.pos < next <= old.chars.len()
                &&& new.pos == next
                &&& new.emitted() == old.emitted().push(TokenView { kind, row: at.0, col: at.1 })
            },
            LexStep::Fail { failure } => {
                &&& r matches Err(e) && reports(e, failure)
                &&& new.emitted() == old.emitted()
            },
        }
    }

    fn new(text: &str) -> (r: Self)
        requires
            text@.len() + 4 < u32::MAX,
        ensures
            r.wf(),
            r.text() == text@,
            r.at() == 0,
            r.emitted() == Seq::<TokenView>::empty(),
    {
        let chars = chars_of(text);
        let r = Self { chars, pos: 0, tokens: Vec::new(), row: 1, col: 1 };
        assert(r.emitted() =~= Seq::<TokenView>::empty());
        r
    }

    /// 次の文字へ進む
    /// 文字の行数や列数のカウントも行う
    /// At the end of the text nothing is read and only the column moves on.
    fn next_char(&mut self)
        requires
            old(self).wf(),
        ensures
            final(self).chars@ == old(self).chars@,
            final(self).tokens@ == old(self).tokens@,
            old(self).pos < old(self).chars.len() ==> {
                &&& final(self).wf()
                &&& final(self).pos == old(self).pos + 1
                &&& final(self).place() == next_pos(
                    old(self).place(),
                    old(self).chars@[old(self).pos as int],
                )
            },
            old(self).pos >= old(self).chars.len() ==> {
                &&& final(self).pos == old(self).pos
                &&& final(self).place() == (old(self).place().0, old(self).place().1 + 1)
            },
    {
        proof {
            lemma_advance_bounds(self.chars@, 0, self.pos as int, (1, 1));
        }
        if self.pos < self.chars.len() {
            let c = self.chars[self.pos];
            self.pos = self.pos + 1;
            if c == '\n' {
                self.row = self.row + 1;
                self.col = 1;
            } else {
                self.col = self.col + 1;
            }
        } else {
            self.col = self.col + 1;
        }
    }

    /// The character at the position, or `LEX004` at the end of the text.
    fn peek_char(&self) -> (r: Result<char, ErrorContext>)
        requires
            self.wf(),
        ensures
            self.pos < self.chars.len() ==> r == Ok::<char, ErrorContext>(self.chars@[self.pos as int]),
            self.pos >= self.chars.len() ==> (r matches Err(e) && reports(
                e,
                LexFailure { code: ErrorCode::Lex004, at: self.place(), params: seq![] },
            )),
    {
        if self.pos < self.chars.len() {
            Ok(self.chars[self.pos])
        } else {
            let e = ErrorContext::new(ErrorCode::Lex004, self.row, self.col, vec![]);
            assert(e.params_view() =~= seq![]);
            Err(e)
        }
    }


    /// Emits a token standing at the position and reads one character.
    fn emit_here(&mut self, kind: TokenKind)
        requires
            old(self).wf(),
            old(self).pos < old(self).chars.len(),
            lex_step(old(self).chars@, old(self).pos as int, old(self).place()) == (LexStep::Emit {
                kind: kind@,
                at: old(self).place(),
                next: old(self).pos + 1,
            }),
        ensures
            Self::stepped(*old(self), *final(self), Ok(())),
    {
        self.push_token(kind);
        self.next_char();
    }

    /// Reads one character and emits nothing.
    fn skip_here(&mut self)
        requires
            old(self).wf(),
            old(self).pos < old(self).chars.len(),
            lex_step(old(self).chars@, old(self).pos as int, old(self).place()) == (LexStep::Skip {
                next: old(self).pos + 1,
            }),
        ensures
            Self::stepped(*old(self), *final(self), Ok(())),
    {
        self.next_char();
    }

    /// 文字列の字句解析処理
    fn lex_string(&mut self) -> (r: Result<(), ErrorContext>)
        requires
            old(self).wf(),
            old(self).pos < old(self).chars.len(),
            old(self).chars@[old(self).pos as int] == '"',
        ensures
            Self::stepped(*old(self), *final(self), r),
    {
        let ghost s = self.chars@;
        let ghost i = self.pos as int;
        let ghost p = self.place();
        let ghost toks = self.emitted();
        self.next_char();  // 最初の「"」をスキップ
        let mut string: Vec<char> = Vec::new();
        proof {
            lemma_scan_bounds(s, i + 1, string_keep());
        }
        while self.pos < self.chars.len() && in_string(self.chars[self.pos])
            invariant
                self.wf(),
                self.chars@ == s,
                self.emitted() == toks,
                0 <= i,
                i + 1 <= self.pos <= s.len(),
                string@ == s.subrange(i + 1, self.pos as int),
                scan_while(s, i + 1, string_keep()) == scan_while(s, self.pos as int, string_keep()),
            decreases s.len() - self.pos,
        {
            let c = self.chars[self.pos];
            proof {
                lemma_scan_step(s, self.pos as int, string_keep());
            }
            string.push(c);
            self.next_char();
            assert(string@ =~= s.subrange(i + 1, self.pos as int));
        }
        let ghost e = self.pos as int;
        proof {
            lemma_advance_split(s, 0, i, e, (1, 1));
            if e < s.len() {
                assert(!string_keep()(s[e]));
            }
        }
        if self.pos >= self.chars.len() {
            let err = ErrorContext::new(ErrorCode::Lex004, self.row, self.col, vec![]);
            assert(err.params_view() =~= seq![]);
            return Err(err);
        }
        if self.chars[self.pos] != '"' {
            let err = ErrorContext::new(ErrorCode::Lex003, self.row, self.col, vec![]);
            assert(err.params_view() =~= seq![]);
            return Err(err);
        }
        self.next_char();  // 閉じる「"」をスキップ
        proof {
            lemma_advance_split(s, 0, i, e + 1, (1, 1));
        }
        self.push_token(TokenKind::StringLiteral(string_from_chars(&string)));
        Ok(())
    }

    /// 数値の字句解析
    fn lex_number(&mut self) -> (r: Result<(), ErrorContext>)
        requires
            old(self).wf(),
            old(self).pos < old(self).chars.len(),
            !alphabetic_char(old(self).chars@[old(self).pos as int]),
            numeric_char(old(self).chars@[old(self).pos as int]),
            lex_step(old(self).chars@, old(self).pos as int, old(self).place()) == ({
                let s = old(self).chars@;
                let i = old(self).pos as int;
                let e = scan_while(s, i, numeric_keep());
                LexStep::Emit { kind: Lexeme::NumberLiteral(s.subrange(i, e)), at: old(self).place(), next: e }
            }),
        ensures
            Self::stepped(*old(self), *final(self), r),
    {
        let ghost s = self.chars@;
        let ghost i = self.pos as int;
        let start_row = self.row;
        let start_col = self.col;
        let mut number_string: Vec<char> = Vec::new();
        proof {
            lemma_scan_bounds(s, i, numeric_keep());
        }
        while self.pos < self.chars.len() && char_is_numeric(self.chars[self.pos])
            invariant
                self.wf(),
                self.chars@ == s,
                self.tokens@ == old(self).tokens@,
                0 <= i <= self.pos <= s.len(),
                number_string@ == s.subrange(i, self.pos as int),
                scan_while(s, i, numeric_keep()) == scan_while(s, self.pos as int, numeric_keep()),
            decreases s.len() - self.pos,
        {
            let c = self.chars[self.pos];
            proof {
                lemma_scan_step(s, self.pos as int, numeric_keep());
            }
            number_string.push(c);
            self.next_char();
            assert(number_string@ =~= s.subrange(i, self.pos as int));
        }
        proof {
            if (self.pos as int) < s.len() {
                assert(!numeric_keep()(s[self.pos as int]));
            }
        }
        self.push_token_with_location(
            TokenKind::NumberLiteral(string_from_chars(&number_string)),
            start_row,
            start_col,
        );
        Ok(())
    }


    /// The error `LEX004` at the position (the text ended too early).
    fn unexpected_end(&self) -> (e: ErrorContext)
        ensures
            reports(e, LexFailure { code: ErrorCode::Lex004, at: self.place(), params: seq![] }),
    {
        let e = ErrorContext::new(ErrorCode::Lex004, self.row, self.col, vec![]);
        assert(e.params_view() =~= seq![]);
        e
    }

    /// 関数、変数、bool値などの字句解析処理
    fn lex_identifier(&mut self) -> (r: Result<(), ErrorContext>)
        requires
            old(self).wf(),
            old(self).pos < old(self).chars.len(),
            lex_step(old(self).chars@, old(self).pos as int, old(self).place()) == ({
                let s = old(self).chars@;
                let i = old(self).pos as int;
                let e = scan_while(s, i, ident_keep());
                if e >= s.len() {
                    fail_at(ErrorCode::Lex004, advance(s, i, e, old(self).place()))
                } else {
                    LexStep::Emit { kind: word_lexeme(s.subrange(i, e)), at: old(self).place(), next: e }
                }
            }),
            is_ident_char(old(self).chars@[old(self).pos as int]),
        ensures
            Self::stepped(*old(self), *final(self), r),
    {
        let ghost s = self.chars@;
        let ghost i = self.pos as int;
        let start_row = self.row;
        let start_col = self.col;
        let mut word: Vec<char> = Vec::new();
        proof {
            lemma_scan_bounds(s, i, ident_keep());
        }
        while self.pos < self.chars.len() && in_identifier(self.chars[self.pos])
            invariant
                self.wf(),
                self.chars@ == s,
                self.tokens@ == old(self).tokens@,
                0 <= i <= self.pos <= s.len(),
                word@ == s.subrange(i, self.pos as int),
                scan_while(s, i, ident_keep()) == scan_while(s, self.pos as int, ident_keep()),
            decreases s.len() - self.pos,
        {
            let c = self.chars[self.pos];
            proof {
                lemma_scan_step(s, self.pos as int, ident_keep());
            }
            word.push(c);
            self.next_char();
            assert(word@ =~= s.subrange(i, self.pos as int));
        }
        proof {
            lemma_advance_split(s, 0, i, self.pos as int, (1, 1));
            if (self.pos as int) < s.len() {
                assert(!ident_keep()(s[self.pos as int]));
            }
        }
        if self.pos >= self.chars.len() {
            return Err(self.unexpected_end());
        }
        let string = string_from_chars(&word);
        let kind = if let Some(keyword) = BoolKeyword::from_str(string.as_str()) {
            TokenKind::BoolLiteral(keyword)
        } else if let Some(op) = Logical::from_str(string.as_str()) {
            TokenKind::LogicalOperator(op)
        } else if let Some(keyword) = ControlKeyword::from_str(string.as_str()) {
            TokenKind::ControlKeyword(keyword)
        } else if let Some(keyword) = DeclarationKeyword::from_str(string.as_str()) {
            TokenKind::DeclarationKeyword(keyword)
        } else if let Some(keyword) = TypeName::from_str(string.as_str()) {
            TokenKind::TypeName(keyword)
        } else if let Some(keyword) = FunctionControl::from_str(string.as_str()) {
            TokenKind::FunctionControl(keyword)
        } else if let Some(keyword) = LoopControl::from_str(string.as_str()) {
            TokenKind::LoopControl(keyword)
        } else if let Some(keyword) = CoroutineControl::from_str(string.as_str()) {
            TokenKind::CoroutineControl(keyword)
        } else {
            TokenKind::Identifier(string)
        };
        self.push_token_with_location(kind, start_row, start_col);
        Ok(())
    }

    /// イコール記号の字句解析処理
    fn lex_equal(&mut self) -> (r: Result<(), ErrorContext>)
        requires
            old(self).wf(),
            old(self).pos < old(self).chars.len(),
            old(self).chars@[old(self).pos as int] == '=',
        ensures
            Self::stepped(*old(self), *final(self), r),
    {
        let ghost s = self.chars@;
        let ghost i = self.pos as int;
        self.next_char();
        proof {
            lemma_advance_split(s, 0, i, i + 1, (1, 1));
        }
        if self.pos >= self.chars.len() {
            return Err(self.unexpected_end());
        }
        if self.chars[self.pos] == '=' {
            self.push_token(TokenKind::CompareOperator(Comparison::Equal));
            self.next_char();
        } else {
            self.push_token(TokenKind::Equal);
        }
        Ok(())
    }

    /// ビックリマークの字句解析処理
    fn lex_exclamation(&mut self) -> (r: Result<(), ErrorContext>)
        requires
            old(self).wf(),
            old(self).pos < old(self).chars.len(),
            old(self).chars@[old(self).pos as int] == '!',
        ensures
            Self::stepped(*old(self), *final(self), r),
    {
        let ghost s = self.chars@;
        let ghost i = self.pos as int;
        self.next_char();
        proof {
            lemma_advance_split(s, 0, i, i + 1, (1, 1));
        }
        if self.pos >= self.chars.len() {
            return Err(self.unexpected_end());
        }
        if self.chars[self.pos] == '=' {
            self.push_token(TokenKind::CompareOperator(Comparison::NotEqual));
            self.next_char();
            Ok(())
        } else {
            let e = ErrorContext::new(ErrorCode::Lex005, self.row, self.col, vec![("operator", "!")]);
            proof {
                reveal_strlit("operator");
                reveal_strlit("!");
                assert(e.params_view() =~= seq![("operator"@, "!"@)]);
            }
            Err(e)
        }
    }

    /// `<`と`>`の字句解析
    fn lex_angle(&mut self) -> (r: Result<(), ErrorContext>)
        requires
            old(self).wf(),
            old(self).pos < old(self).chars.len(),
            old(self).chars@[old(self).pos as int] == '<' || old(self).chars@[old(self).pos as int]
                == '>',
        ensures
            Self::stepped(*old(self), *final(self), r),
    {
        let ghost s = self.chars@;
        let ghost i = self.pos as int;
        let ghost p = self.place();
        let start_row = self.row;
        let start_col = self.col;
        let first = self.chars[self.pos];
        let mut operator: Vec<char> = Vec::new();
        operator.push(first);
        self.next_char();
        let mut count: usize = 0;
        proof {
            lemma_scan_bounds(s, i + 1, equals_keep());
            assert(operator@ =~= s.subrange(i, self.pos as int));
        }
        while self.pos < self.chars.len() && self.chars[self.pos] == '='
            invariant
                self.wf(),
                self.chars@ == s,
                self.tokens@ == old(self).tokens@,
                0 <= i,
                i + 1 <= self.pos <= s.len(),
                count == self.pos - (i + 1),
                operator@ == s.subrange(i, self.pos as int),
                scan_while(s, i + 1, equals_keep()) == scan_while(s, self.pos as int, equals_keep()),
            decreases s.len() - self.pos,
        {
            proof {
                lemma_scan_step(s, self.pos as int, equals_keep());
            }
            operator.push('=');
            self.next_char();
            count = count + 1;
            assert(operator@ =~= s.subrange(i, self.pos as int));
        }
        proof {
            lemma_advance_split(s, 0, i, self.pos as int, (1, 1));
            if (self.pos as int) < s.len() {
                assert(!equals_keep()(s[self.pos as int]));
            }
        }
        if self.pos >= self.chars.len() {
            return Err(self.unexpected_end());
        }
        if count == 0 {
            if first == '<' {
                self.push_token(TokenKind::CompareOperator(Comparison::Less));
            } else {
                self.push_token(TokenKind::CompareOperator(Comparison::Greater));
            }
            Ok(())
        } else if count == 1 {
            if first == '<' {
                self.push_token(TokenKind::CompareOperator(Comparison::LessEqual));
            } else {
                self.push_token(TokenKind::CompareOperator(Comparison::GreaterEqual));
            }
            Ok(())
        } else {
            let text = string_from_chars(&operator);
            let e = ErrorContext::new(
                ErrorCode::Lex005,
                start_row,
                start_col,
                vec![("operator", text.as_str())],
            );
            proof {
                reveal_strlit("operator");
                assert(e.params_view() =~= seq![("operator"@, s.subrange(i, self.pos as int))]);
            }
            Err(e)
        }
    }

    /// スラッシュ記号の字句解析処理
    fn lex_slash(&mut self) -> (r: Result<(), ErrorContext>)
        requires
            old(self).wf(),
            old(self).pos < old(self).chars.len(),
            old(self).chars@[old(self).pos as int] == '/',
        ensures
            Self::stepped(*old(self), *final(self), r),
    {
        let ghost s = self.chars@;
        let ghost i = self.pos as int;
        let ghost p = self.place();
        let start_row = self.row;
        let start_col = self.col;
        self.next_char();  // 最初の`/`をスキップ
        proof {
            lemma_advance_split(s, 0, i, i + 1, (1, 1));
        }
        if self.pos >= self.chars.len() {
            return Err(self.unexpected_end());
        }
        let d = self.chars[self.pos];
        if d == '/' {
            self.next_char();
            if self.pos < self.chars.len() && self.chars[self.pos] == '/' {
                self.next_char();
                let mut doc_comment: Vec<char> = Vec::new();
                proof {
                    lemma_scan_bounds(s, i + 3, line_keep());
                    assert(s.subrange(i + 3, i + 3) =~= Seq::<char>::empty());
                }
                while self.pos < self.chars.len() && self.chars[self.pos] != '\n'
                    invariant
                        self.wf(),
                        old(self).chars@ == s,
                        old(self).pos == i,
                        old(self).place() == p,
                        p == advance(s, 0, i, (1, 1)),
                        s[i] == '/' && s[i + 1] == '/' && s[i + 2] == '/',
                        self.chars@ == s,
                        self.tokens@ == old(self).tokens@,
                        0 <= i,
                        i + 3 <= self.pos <= s.len(),
                        doc_comment@ == drop_cr(s.subrange(i + 3, self.pos as int)),
                        scan_while(s, i + 3, line_keep()) == scan_while(s, self.pos as int, line_keep()),
                    decreases s.len() - self.pos,
                {
                    let c = self.chars[self.pos];
                    let ghost k = self.pos as int;
                    proof {
                        lemma_scan_step(s, k, line_keep());
                        assert(s.subrange(i + 3, k + 1).drop_last() =~= s.subrange(i + 3, k));
                    }
                    if c != '\r' {
                        doc_comment.push(c);
                    }
                    self.next_char();
                }
                proof {
                    if (self.pos as int) < s.len() {
                        assert(!line_keep()(s[self.pos as int]));
                    }
                }
                let ghost e = self.pos as int;
                assert(scan_while(s, i + 3, line_keep()) == e);
                if self.pos < self.chars.len() {
                    self.next_char();
                }
                self.push_token_with_location(
                    TokenKind::DocComment(string_from_chars(&doc_comment)),
                    start_row,
                    start_col,
                );
                assert(lex_step(s, i, p) == slash_step(s, i, p));
                assert(slash_step(s, i, p) == (LexStep::Emit {
                    kind: Lexeme::DocComment(drop_cr(s.subrange(i + 3, e))),
                    at: p,
                    next: if e < s.len() { e + 1 } else { e },
                }));
            } else {
                proof {
                    lemma_scan_bounds(s, i + 2, line_keep());
                }
                while self.pos < self.chars.len() && self.chars[self.pos] != '\n'
                    invariant
                        self.wf(),
                        old(self).chars@ == s,
                        old(self).pos == i,
                        old(self).place() == p,
                        p == advance(s, 0, i, (1, 1)),
                        s[i] == '/' && s[i + 1] == '/' && !(i + 2 < s.len() && s[i + 2] == '/'),
                        self.chars@ == s,
                        self.tokens@ == old(self).tokens@,
                        0 <= i,
                        i + 2 <= self.pos <= s.len(),
                        scan_while(s, i + 2, line_keep()) == scan_while(s, self.pos as int, line_keep()),
                    decreases s.len() - self.pos,
                {
                    proof {
                        lemma_scan_step(s, self.pos as int, line_keep());
                    }
                    self.next_char();
                }
                proof {
                    if (self.pos as int) < s.len() {
                        assert(!line_keep()(s[self.pos as int]));
                    }
                }
                let ghost e = self.pos as int;
                assert(scan_while(s, i + 2, line_keep()) == e);
                if self.pos < self.chars.len() {
                    self.next_char();
                }
                assert(lex_step(s, i, p) == slash_step(s, i, p));
                assert(slash_step(s, i, p) == (LexStep::Skip {
                    next: if e < s.len() { e + 1 } else { e },
                }));
            }
            Ok(())
        } else if d == '*' {
            self.next_char();
            loop
                invariant_except_break
                    self.wf(),
                    self.chars@ == s,
                    self.tokens@ == old(self).tokens@,
                    old(self).chars@ == s,
                    old(self).pos == i,
                    old(self).place() == p,
                    p == advance(s, 0, i, (1, 1)),
                    s[i] == '/' && s[i + 1] == '*',
                    0 <= i,
                    i + 2 <= self.pos <= s.len(),
                    block_close(s, i + 2) == block_close(s, self.pos as int),
                ensures
                    self.wf(),
                    self.chars@ == s,
                    self.tokens@ == old(self).tokens@,
                    block_close(s, i + 2) + 2 == self.pos,
                    block_close(s, i + 2) < s.len(),
                decreases s.len() - self.pos,
            {
                if self.pos >= self.chars.len() {
                    proof {
                        lemma_advance_split(s, 0, i, self.pos as int, (1, 1));
                        assert(s[i] == '/');
                        assert(s[i + 1] == '*');
                        assert(lex_step(s, i, p) == slash_step(s, i, p));
                        assert(block_close(s, i + 2) >= s.len());
                        assert(self.place() == advance(s, i, s.len() as int, p));
                    }
                    return Err(self.unexpected_end());
                }
                let c = self.chars[self.pos];
                self.next_char();
                if c == '*' {
                    if self.pos >= self.chars.len() {
                        proof {
                            lemma_advance_split(s, 0, i, self.pos as int, (1, 1));
                        }
                        return Err(self.unexpected_end());
                    }
                    if self.chars[self.pos] == '/' {
                        self.next_char();
                        break;
                    }
                }
            }
            proof {
                lemma_block_close_bounds(s, i + 2);
            }
            Ok(())
        } else {
            self.push_token_with_location(
                TokenKind::ArithmeticOperator(Arithmetic::Divide),
                start_row,
                start_col,
            );
            assert(lex_step(s, i, p) == slash_step(s, i, p));
            assert(slash_step(s, i, p) == (LexStep::Emit {
                kind: Lexeme::ArithmeticOperator(Arithmetic::Divide),
                at: p,
                next: i + 1,
            }));
            Ok(())
        }
    }


    /// `-`, or `->` where a `>` follows.
    fn lex_minus(&mut self)
        requires
            old(self).wf(),
            old(self).pos < old(self).chars.len(),
            old(self).chars@[old(self).pos as int] == '-',
        ensures
            Self::stepped(*old(self), *final(self), Ok(())),
    {
        let ghost s = self.chars@;
        let ghost i = self.pos as int;
        if self.pos + 1 < self.chars.len() && self.chars[self.pos + 1] == '>' {
            self.push_token(TokenKind::RArrow);
            self.next_char();
            self.next_char();
        } else {
            self.push_token(TokenKind::ArithmeticOperator(Arithmetic::Minus));
            self.next_char();
        }
    }

    /// The error `LEX002` for an unexpected character at the position.
    fn unexpected_char(&self, c: char) -> (e: ErrorContext)
        ensures
            reports(
                e,
                LexFailure { code: ErrorCode::Lex002, at: self.place(), params: seq![("char"@, seq![c])] },
            ),
    {
        let mut v: Vec<char> = Vec::new();
        v.push(c);
        let text = string_from_chars(&v);
        let e = ErrorContext::new(ErrorCode::Lex002, self.row, self.col, vec![("char", text.as_str())]);
        proof {
            reveal_strlit("char");
            assert(e.params_view() =~= seq![("char"@, seq![c])]);
        }
        e
    }

    /// One step of the lexer at the position.
    fn lex_one(&mut self) -> (r: Result<(), ErrorContext>)
        requires
            old(self).wf(),
            old(self).pos < old(self).chars.len(),
        ensures
            Self::stepped(*old(self), *final(self), r),
    {
        let c = self.chars[self.pos];
        if c == ' ' || c == '\n' || c == '\r' || c == '\t' {
            self.skip_here();
            Ok(())
        } else if c == '(' {
            self.emit_here(TokenKind::LParen);
            Ok(())
        } else if c == ')' {
            self.emit_here(TokenKind::RParen);
            Ok(())
        } else if c == '{' {
            self.emit_here(TokenKind::LBrace);
            Ok(())
        } else if c == '}' {
            self.emit_here(TokenKind::RBrace);
            Ok(())
        } else if c == ':' {
            self.emit_here(TokenKind::Colon);
            Ok(())
        } else if c == ';' {
            self.emit_here(TokenKind::Semicolon);
            Ok(())
        } else if c == ',' {
            self.emit_here(TokenKind::Comma);
            Ok(())
        } else if c == '.' {
            self.emit_here(TokenKind::Dot);
            Ok(())
        } else if c == '+' {
            self.emit_here(TokenKind::ArithmeticOperator(Arithmetic::Plus));
            Ok(())
        } else if c == '-' {
            self.lex_minus();
            Ok(())
        } else if c == '*' {
            self.emit_here(TokenKind::ArithmeticOperator(Arithmetic::Multiply));
            Ok(())
        } else if c == '/' {
            self.lex_slash()
        } else if c == '"' {
            self.lex_string()
        } else if c == '=' {
            self.lex_equal()
        } else if c == '!' {
            self.lex_exclamation()
        } else if c == '<' || c == '>' {
            self.lex_angle()
        } else if char_is_alphabetic(c) {
            self.lex_identifier()
        } else if char_is_numeric(c) {
            self.lex_number()
        } else {
            Err(self.unexpected_char(c))
        }
    }

    /// Reads the text to its end, or to the first error.
    fn tokenize(self) -> (r: (Vec<Token>, Vec<ErrorContext>))
        requires
            self.wf(),
            self.at() == 0,
            self.emitted() == Seq::<TokenView>::empty(),
        ensures
            tokens_view(r.0@) == spec_lex(self.text()).0,
            match spec_lex(self.text()).1 {
                None => r.1@.len() == 0,
                Some(f) => r.1@.len() == 1 && reports(r.1@[0], f),
            },
    {
        let ghost s = self.chars@;
        let mut lexer = self;
        let ghost whole = spec_lex(s);
        assert(lexer.emitted() + lex_from(s, 0, (1, 1)).0 =~= whole.0);
        while lexer.pos < lexer.chars.len()
            invariant
                lexer.wf(),
                lexer.chars@ == s,
                whole == spec_lex(s),
                s == self.text(),
                lexer.emitted() + lex_from(s, lexer.pos as int, lexer.place()).0 == whole.0,
                lex_from(s, lexer.pos as int, lexer.place()).1 == whole.1,
            decreases s.len() - lexer.pos,
        {
            let ghost before = lexer;
            let r = lexer.lex_one();
            match r {
                Ok(()) => {
                    proof {
                        lemma_advance_split(s, 0, before.pos as int, lexer.pos as int, (1, 1));
                    }
                    assert(before.emitted() + lex_from(s, before.pos as int, before.place()).0 =~= lexer.emitted()
                        + lex_from(s, lexer.pos as int, lexer.place()).0);
                },
                Err(e) => {
                    assert(lex_step(s, before.pos as int, before.place()) is Fail);
                    assert(lex_from(s, before.pos as int, before.place()).0 =~= Seq::<TokenView>::empty());
                    assert(lexer.emitted() =~= whole.0);
                    let mut errors: Vec<ErrorContext> = Vec::new();
                    errors.push(e);
                    return (lexer.tokens, errors);
                },
            }
        }
        lexer.push_token(TokenKind::EOF);
        assert(lexer.emitted() =~= whole.0);
        (lexer.tokens, Vec::new())
    }

    /// tokenの追加
    fn push_token(&mut self, kind: TokenKind)
        ensures
            final(self).chars == old(self).chars,
            final(self).pos == old(self).pos,
            final(self).row == old(self).row,
            final(self).col == old(self).col,
            final(self).emitted() == old(self).emitted().push(
                TokenView { kind: kind@, row: old(self).row as int, col: old(self).col as int },
            ),
    {
        let t = Token { kind, row: self.row, col: self.col };
        let ghost before = self.tokens@;
        self.tokens.push(t);
        assert(tokens_view(self.tokens@) =~= tokens_view(before).push(t@));
    }

    /// ポジションを指定してtokenを追加する
    fn push_token_with_location(&mut self, kind: TokenKind, row: u32, col: u32)
        ensures
            final(self).chars == old(self).chars,
            final(self).pos == old(self).pos,
            final(self).row == old(self).row,
            final(self).col == old(self).col,
            final(self).emitted() == old(self).emitted().push(
                TokenView { kind: kind@, row: row as int, col: col as int },
            ),
    {
        let t = Token { kind, row, col };
        let ghost before = self.tokens@;
        self.tokens.push(t);
        assert(tokens_view(self.tokens@) =~= tokens_view(before).push(t@));
    }
}

} // verus!

verus! {

/// トークナイズを行う
///
/// The tokens are those of `spec_lex`; where the text holds an error, the
/// tokens read before it and that one error.
pub fn lex(text: &str) -> (r: (Vec<Token>, Vec<ErrorContext>))
    requires
        text@.len() + 4 < u32::MAX,
    ensures
        tokens_view(r.0@) == spec_lex(text@).0,
        match spec_lex(text@).1 {
            None => r.1@.len() == 0,
            Some(f) => r.1@.len() == 1 && reports(r.1@[0], f),
        },
{
    let lexer = Lexer::new(text);
    lexer.tokenize()
}

} // verus!
