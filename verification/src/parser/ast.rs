//! The recursive-descent parser, proved to follow the grammar.
use vstd::prelude::*;
use crate::common::keyword::{BoolKeyword, ControlKeyword, CoroutineControl, DeclarationKeyword, FunctionControl, LoopControl};
use crate::common::operator::{Arithmetic, BinaryLogical, Logical, UnaryLogical};
use crate::common::types::{BlockType, LiteralValue, Type};
use crate::error::error_code::ErrorCode;
use crate::error::error_context::{ErrorContext, str_pairs_view};
use crate::lexer::lexical_analyzer::tokens_view;
use crate::lexer::token::{Lexeme, Token, TokenKind, TokenView};
use crate::parser::grammar::{
    Acc, CoroDef, FunDef, PErr, PState, Parsed, Program, add_item, all_digits, at_tok, digits_value,
    empty_acc, exponent_ok, fraction_ok, is_digit, is_process, join_doc, leading_digits, misplaced,
    p_add, p_and, p_args_loop, p_arguments, p_assignable, p_check, p_compare, p_condition, p_coro,
    p_coroutine, p_coroutine_control, p_declaration, p_expression, p_function, p_identifier, p_if,
    p_let, p_literal, p_loop, p_loop_control, p_mul, p_next, p_not, p_or, p_params, p_peek,
    p_primary, p_return, p_return_type, p_statement, p_statements, p_stmts_loop, p_unary, p_value,
    p_variable, process_text, push, spec_parse, spec_parse_i32, step, trim_start, unexpected,
};
use crate::parser::node::{
    Block, BlockNode, CoroutineDefinitionNode, FunctionDefinitionNode, ParameterNode, PrivateNode,
    RootNode, Stmt, lemma_nodes_view, node_view, nodes_view, opt_text,
};
use crate::text::{chars_of, concat, owned, string_from_chars};

verus! {

// ------------------------------------------------------------------ models

/// The model of a reported error.
pub open spec fn perr_of(e: ErrorContext) -> PErr {
    PErr { code: e.error_code, row: e.row as int, col: e.col as int, params: e.params_view() }
}

/// The models of a list of reported errors.
pub open spec fn perrs(v: Seq<ErrorContext>) -> Seq<PErr> {
    v.map_values(|e: ErrorContext| perr_of(e))
}

/// The model of a function's parameters.
pub open spec fn params_view(v: Seq<ParameterNode>) -> Seq<(Seq<char>, Type)> {
    v.map_values(|p: ParameterNode| (p.name@, p.variable_type))
}

/// The model of a function definition.
pub open spec fn fun_view(f: FunctionDefinitionNode) -> FunDef {
    FunDef {
        name: f.name@,
        parameters: params_view(f.parameters@),
        return_type: f.return_type,
        block: f.block@,
        doc: opt_text(f.doc),
    }
}

/// The model of a coroutine definition.
pub open spec fn coro_view(c: CoroutineDefinitionNode) -> CoroDef {
    CoroDef { name: c.name@, block: c.block@, doc: opt_text(c.doc) }
}

/// The models of a list of function definitions.
pub open spec fn funs_view(v: Seq<FunctionDefinitionNode>) -> Seq<FunDef> {
    v.map_values(|f: FunctionDefinitionNode| fun_view(f))
}

/// The models of a list of coroutine definitions.
pub open spec fn coros_view(v: Seq<CoroutineDefinitionNode>) -> Seq<CoroDef> {
    v.map_values(|c: CoroutineDefinitionNode| coro_view(c))
}

/// The model of a parsed program.
pub open spec fn program_view(root: RootNode) -> Program {
    Program { functions: funs_view(root.functions@), coroutines: coros_view(root.coroutines@) }
}

spec fn tres(r: Result<Token, ErrorContext>) -> Result<TokenView, PErr> {
    match r {
        Ok(t) => Ok(t@),
        Err(e) => Err(perr_of(e)),
    }
}

spec fn nres(r: Result<PrivateNode, ErrorContext>) -> Result<Stmt, PErr> {
    match r {
        Ok(n) => Ok(n@),
        Err(e) => Err(perr_of(e)),
    }
}

/// What one statement rule builds.
enum Item {
    Statement(PrivateNode),
    Function(FunctionDefinitionNode),
    Coroutine(CoroutineDefinitionNode),
}

spec fn item_view(i: Item) -> Parsed {
    match i {
        Item::Statement(n) => Parsed::Statement(n@),
        Item::Function(f) => Parsed::Function(fun_view(f)),
        Item::Coroutine(c) => Parsed::Coroutine(coro_view(c)),
    }
}

spec fn ires(r: Result<Item, ErrorContext>) -> Result<Parsed, PErr> {
    match r {
        Ok(i) => Ok(item_view(i)),
        Err(e) => Err(perr_of(e)),
    }
}

spec fn acc_view(
    stmts: Seq<PrivateNode>,
    funs: Seq<FunctionDefinitionNode>,
    coros: Seq<CoroutineDefinitionNode>,
) -> Acc {
    Acc { stmts: nodes_view(stmts), funs: funs_view(funs), coros: coros_view(coros) }
}

proof fn lemma_acc_stmt(
    stmts: Seq<PrivateNode>,
    funs: Seq<FunctionDefinitionNode>,
    coros: Seq<CoroutineDefinitionNode>,
    n: PrivateNode,
)
    ensures
        acc_view(stmts.push(n), funs, coros) == add_item(acc_view(stmts, funs, coros), Parsed::Statement(n@)),
{
    lemma_nodes_view_push(stmts, n);
}

proof fn lemma_acc_fun(
    stmts: Seq<PrivateNode>,
    funs: Seq<FunctionDefinitionNode>,
    coros: Seq<CoroutineDefinitionNode>,
    f: FunctionDefinitionNode,
)
    ensures
        acc_view(stmts, funs.push(f), coros) == add_item(acc_view(stmts, funs, coros), Parsed::Function(fun_view(f))),
{
    assert(funs_view(funs.push(f)) =~= funs_view(funs).push(fun_view(f)));
}

proof fn lemma_acc_coro(
    stmts: Seq<PrivateNode>,
    funs: Seq<FunctionDefinitionNode>,
    coros: Seq<CoroutineDefinitionNode>,
    c: CoroutineDefinitionNode,
)
    ensures
        acc_view(stmts, funs, coros.push(c)) == add_item(acc_view(stmts, funs, coros), Parsed::Coroutine(coro_view(c))),
{
    assert(coros_view(coros.push(c)) =~= coros_view(coros).push(coro_view(c)));
}

proof fn lemma_nodes_view_push(v: Seq<PrivateNode>, x: PrivateNode)
    ensures
        nodes_view(v.push(x)) == nodes_view(v).push(node_view(x)),
{
    lemma_nodes_view(v);
    lemma_nodes_view(v.push(x));
    assert(nodes_view(v.push(x)) =~= nodes_view(v).push(node_view(x)));
}

// ------------------------------------------------------------------ tokens

fn copy_kind(k: &TokenKind) -> (r: TokenKind)
    ensures
        r@ == k@,
{
    match k {
        TokenKind::Identifier(s) => TokenKind::Identifier(s.clone()),
        TokenKind::StringLiteral(s) => TokenKind::StringLiteral(s.clone()),
        TokenKind::NumberLiteral(s) => TokenKind::NumberLiteral(s.clone()),
        TokenKind::BoolLiteral(b) => TokenKind::BoolLiteral(*b),
        TokenKind::ArithmeticOperator(o) => TokenKind::ArithmeticOperator(*o),
        TokenKind::CompareOperator(o) => TokenKind::CompareOperator(*o),
        TokenKind::LogicalOperator(o) => TokenKind::LogicalOperator(*o),
        TokenKind::LParen => TokenKind::LParen,
        TokenKind::RParen => TokenKind::RParen,
        TokenKind::LBrace => TokenKind::LBrace,
        TokenKind::RBrace => TokenKind::RBrace,
        TokenKind::Equal => TokenKind::Equal,
        TokenKind::Colon => TokenKind::Colon,
        TokenKind::Semicolon => TokenKind::Semicolon,
        TokenKind::Comma => TokenKind::Comma,
        TokenKind::Dot => TokenKind::Dot,
        TokenKind::RArrow => TokenKind::RArrow,
        TokenKind::ControlKeyword(k) => TokenKind::ControlKeyword(*k),
        TokenKind::DeclarationKeyword(k) => TokenKind::DeclarationKeyword(*k),
        TokenKind::TypeName(k) => TokenKind::TypeName(*k),
        TokenKind::LoopControl(k) => TokenKind::LoopControl(*k),
        TokenKind::FunctionControl(k) => TokenKind::FunctionControl(*k),
        TokenKind::CoroutineControl(k) => TokenKind::CoroutineControl(*k),
        TokenKind::EOF => TokenKind::EOF,
        TokenKind::DocComment(s) => TokenKind::DocComment(s.clone()),
        TokenKind::Comment => TokenKind::Comment,
    }
}

fn copy_token(t: &Token) -> (r: Token)
    ensures
        r@ == t@,
{
    Token { kind: copy_kind(&t.kind), row: t.row, col: t.col }
}

/// The punctuation the parser checks for.
#[derive(Clone, Copy)]
enum Punct {
    LParen,
    RParen,
    LBrace,
    RBrace,
    Semicolon,
    Colon,
    Equal,
}

impl Punct {
    spec fn lexeme(self) -> Lexeme {
        match self {
            Punct::LParen => Lexeme::LParen,
            Punct::RParen => Lexeme::RParen,
            Punct::LBrace => Lexeme::LBrace,
            Punct::RBrace => Lexeme::RBrace,
            Punct::Semicolon => Lexeme::Semicolon,
            Punct::Colon => Lexeme::Colon,
            Punct::Equal => Lexeme::Equal,
        }
    }

    fn text(self) -> (r: &'static str)
        ensures
            r@ == self.lexeme().text(),
    {
        match self {
            Punct::LParen => "(",
            Punct::RParen => ")",
            Punct::LBrace => "{",
            Punct::RBrace => "}",
            Punct::Semicolon => ";",
            Punct::Colon => ":",
            Punct::Equal => "=",
        }
    }

    fn is(self, k: &TokenKind) -> (r: bool)
        ensures
            r == (k@ == self.lexeme()),
    {
        match (self, k) {
            (Punct::LParen, TokenKind::LParen) => true,
            (Punct::RParen, TokenKind::RParen) => true,
            (Punct::LBrace, TokenKind::LBrace) => true,
            (Punct::RBrace, TokenKind::RBrace) => true,
            (Punct::Semicolon, TokenKind::Semicolon) => true,
            (Punct::Colon, TokenKind::Colon) => true,
            (Punct::Equal, TokenKind::Equal) => true,
            _ => false,
        }
    }
}

// ------------------------------------------------------------------ errors

fn one_param<'a>(k: &'a str, v: &'a str) -> (r: Vec<(&'a str, &'a str)>)
    ensures
        str_pairs_view(r@) == seq![(k@, v@)],
{
    let mut r: Vec<(&'a str, &'a str)> = Vec::new();
    r.push((k, v));
    assert(str_pairs_view(r@) =~= seq![(k@, v@)]);
    r
}

fn two_params<'a>(k1: &'a str, v1: &'a str, k2: &'a str, v2: &'a str) -> (r: Vec<(&'a str, &'a str)>)
    ensures
        str_pairs_view(r@) == seq![(k1@, v1@), (k2@, v2@)],
{
    let mut r: Vec<(&'a str, &'a str)> = Vec::new();
    r.push((k1, v1));
    r.push((k2, v2));
    assert(str_pairs_view(r@) =~= seq![(k1@, v1@), (k2@, v2@)]);
    r
}

fn err_plain(code: ErrorCode, row: u32, col: u32) -> (r: ErrorContext)
    ensures
        perr_of(r) == (PErr { code, row: row as int, col: col as int, params: seq![] }),
{
    let v: Vec<(&str, &str)> = Vec::new();
    let r = ErrorContext::new(code, row, col, v);
    assert(r.params_view() =~= seq![]);
    r
}

fn err_param(code: ErrorCode, tk: &Token, k: &str, v: &str) -> (r: ErrorContext)
    ensures
        perr_of(r) == at_tok(code, tk@, seq![(k@, v@)]),
{
    ErrorContext::new(code, tk.row, tk.col, one_param(k, v))
}

fn err_unexpected(tk: &Token) -> (r: ErrorContext)
    ensures
        perr_of(r) == unexpected(tk@),
{
    let text = tk.kind.to_string();
    err_param(ErrorCode::Parse002, tk, "token", text.as_str())
}

fn err_misplaced(tk: &Token, keyword: &str, block: &str) -> (r: ErrorContext)
    ensures
        perr_of(r) == misplaced(tk@, keyword@, block@),
{
    ErrorContext::new(ErrorCode::Parse006, tk.row, tk.col, two_params("statement", keyword, "block", block))
}

// ------------------------------------------------------------------ numbers

fn is_ascii_digit(c: char) -> (r: bool)
    ensures
        r == is_digit(c),
{
    let u = c as u32;
    48 <= u && u <= 57
}

proof fn lemma_digits_nonneg(s: Seq<char>)
    requires
        all_digits(s),
    ensures
        digits_value(s) >= 0,
    decreases s.len(),
{
    if s.len() > 0 {
        assert(is_digit(s[s.len() - 1]));
        lemma_digits_nonneg(s.drop_last());
    }
}

proof fn lemma_digits_prefix(s: Seq<char>, i: int)
    requires
        all_digits(s),
        0 <= i <= s.len(),
    ensures
        digits_value(s.take(i)) <= digits_value(s),
    decreases s.len(),
{
    if i == s.len() {
        assert(s.take(i) =~= s);
    } else {
        assert(is_digit(s[s.len() - 1]));
        lemma_digits_prefix(s.drop_last(), i);
        assert(s.drop_last().take(i) =~= s.take(i));
        lemma_digits_nonneg(s.drop_last());
    }
}

/// Reads a text as an `i32`, as `str::parse::<i32>` does: an optional sign,
/// then one or more decimal digits whose value fits.
pub fn parse_i32(s: &str) -> (r: Option<i32>)
    ensures
        r == spec_parse_i32(s@),
{
    let cs = chars_of(s);
    let signed = cs.len() > 0 && (cs[0] == '+' || cs[0] == '-');
    let neg = signed && cs[0] == '-';
    let start: usize = if signed {
        1
    } else {
        0
    };
    let ghost body = if signed {
        s@.drop_first()
    } else {
        s@
    };
    if cs.len() == start {
        return None;
    }
    let mut acc: i64 = 0;
    let mut i: usize = start;
    while i < cs.len()
        invariant
            cs@ == s@,
            signed == (s@.len() > 0 && (s@[0] == '+' || s@[0] == '-')),
            body == (if signed { s@.drop_first() } else { s@ }),
            start <= i <= cs.len(),
            start == (if signed { 1int } else { 0int }),
            body == cs@.skip(start as int),
            all_digits(body.take(i - start)),
            acc == digits_value(body.take(i - start)),
            0 <= acc <= 2147483648,
        decreases cs.len() - i,
    {
        let c = cs[i];
        if !is_ascii_digit(c) {
            proof {
                assert(body[i - start] == c);
                assert(!is_digit(body[i - start]));
                assert(!all_digits(body));
            }
            return None;
        }
        let d = (c as u32 - 48) as i64;
        assert(d == c as u32 - 48);
        proof {
            let k = i - start;
            assert(body.take(k + 1).drop_last() =~= body.take(k));
            assert(body.take(k + 1).last() == c);
            assert forall|j: int| 0 <= j < k + 1 implies is_digit(#[trigger] body.take(k + 1)[j]) by {
                if j < k {
                    assert(body.take(k + 1)[j] == body.take(k)[j]);
                }
            }
        }
        let next = acc * 10 + d;
        if next > 2147483648 {
            proof {
                let k = i - start;
                assert(digits_value(body.take(k + 1)) == next);
                if all_digits(body) {
                    lemma_digits_prefix(body, k + 1);
                    assert(digits_value(body) > 2147483648);
                }
            }
            return None;
        }
        acc = next;
        i = i + 1;
    }
    proof {
        assert(body.take(i - start) =~= body);
    }
    if neg {
        Some((0 - acc) as i32)
    } else if acc <= 2147483647 {
        Some(acc as i32)
    } else {
        None
    }
}

proof fn lemma_leading_digits(d: Seq<char>, k: int)
    requires
        0 <= k <= d.len(),
        forall|j: int| 0 <= j < k ==> is_digit(#[trigger] d[j]),
        k == d.len() || !is_digit(d[k]),
    ensures
        leading_digits(d) == k,
    decreases k,
{
    if k > 0 {
        assert forall|j: int| 0 <= j < k - 1 implies is_digit(#[trigger] d.drop_first()[j]) by {
            assert(d.drop_first()[j] == d[j + 1]);
        }
        if k - 1 < d.drop_first().len() {
            assert(d.drop_first()[k - 1] == d[k]);
        }
        lemma_leading_digits(d.drop_first(), k - 1);
    } else if d.len() > 0 {
        assert(!is_digit(d[0]));
    }
}

fn digits_from(d: &Vec<char>, from: usize) -> (r: bool)
    requires
        from <= d.len(),
    ensures
        r == all_digits(d@.skip(from as int)),
{
    let mut j: usize = from;
    while j < d.len()
        invariant
            from <= j <= d.len(),
            forall|m: int| from <= m < j ==> is_digit(#[trigger] d@[m]),
        decreases d.len() - j,
    {
        if !is_ascii_digit(d[j]) {
            assert(d@.skip(from as int)[j - from] == d@[j as int]);
            return false;
        }
        j = j + 1;
    }
    assert forall|m: int| 0 <= m < d@.skip(from as int).len() implies is_digit(
        #[trigger] d@.skip(from as int)[m],
    ) by {
        assert(d@.skip(from as int)[m] == d@[m + from]);
    }
    true
}

/// Whether the text after the point of a number reads as the rest of a
/// floating-point number: digits, then an optional exponent.
fn fraction_ok_exec(d: &Vec<char>) -> (r: bool)
    ensures
        r == fraction_ok(d@),
{
    let mut k: usize = 0;
    while k < d.len() && is_ascii_digit(d[k])
        invariant
            k <= d.len(),
            forall|j: int| 0 <= j < k ==> is_digit(#[trigger] d@[j]),
        decreases d.len() - k,
    {
        k = k + 1;
    }
    proof {
        lemma_leading_digits(d@, k as int);
    }
    if k == d.len() {
        return true;
    }
    let ghost e = d@.skip(k as int);
    if d.len() - k < 2 || !(d[k] == 'e' || d[k] == 'E') {
        assert(!exponent_ok(e));
        return false;
    }
    let from: usize = if d[k + 1] == '+' || d[k + 1] == '-' {
        k + 2
    } else {
        k + 1
    };
    proof {
        assert(e[0] == d@[k as int]);
        assert(e[1] == d@[k + 1]);
        assert(e.skip(from - k) =~= d@.skip(from as int));
    }
    from < d.len() && digits_from(d, from)
}

// ------------------------------------------------------------------ texts

proof fn lemma_trim_start(s: Seq<char>, k: int)
    requires
        0 <= k <= s.len(),
        forall|j: int| 0 <= j < k ==> (#[trigger] s[j] == ' ' || s[j] == '\t'),
        k == s.len() || !(s[k] == ' ' || s[k] == '\t'),
    ensures
        trim_start(s) == s.skip(k),
    decreases k,
{
    if k > 0 {
        assert forall|j: int| 0 <= j < k - 1 implies (#[trigger] s.drop_first()[j] == ' ' || s.drop_first()[j] == '\t') by {
            assert(s.drop_first()[j] == s[j + 1]);
        }
        if k - 1 < s.drop_first().len() {
            assert(s.drop_first()[k - 1] == s[k]);
        }
        lemma_trim_start(s.drop_first(), k - 1);
        assert(s.drop_first().skip(k - 1) =~= s.skip(k));
    } else {
        assert(s.skip(0) =~= s);
    }
}

/// The characters of `v` from `from` on, without the blanks that start them.
fn trim_from(v: &Vec<char>, from: usize) -> (r: Vec<char>)
    requires
        from <= v.len(),
    ensures
        r@ == trim_start(v@.skip(from as int)),
{
    let mut k: usize = from;
    while k < v.len() && (v[k] == ' ' || v[k] == '\t')
        invariant
            from <= k <= v.len(),
            forall|j: int| from <= j < k ==> (#[trigger] v@[j] == ' ' || v@[j] == '\t'),
        decreases v.len() - k,
    {
        k = k + 1;
    }
    let ghost s = v@.skip(from as int);
    proof {
        assert forall|j: int| 0 <= j < k - from implies (#[trigger] s[j] == ' ' || s[j] == '\t') by {
            assert(s[j] == v@[j + from]);
        }
        if k < v.len() {
            assert(s[k - from] == v@[k as int]);
        }
        lemma_trim_start(s, k - from);
        assert(s.skip(k - from) =~= v@.skip(k as int));
    }
    let mut out: Vec<char> = Vec::new();
    let mut i: usize = k;
    while i < v.len()
        invariant
            k <= i <= v.len(),
            out@ == v@.subrange(k as int, i as int),
        decreases v.len() - i,
    {
        out.push(v[i]);
        i = i + 1;
        assert(out@ =~= v@.subrange(k as int, i as int));
    }
    assert(out@ =~= v@.skip(k as int));
    out
}

/// A documentation comment: a step of the process, or a line of
/// documentation, without the blanks that start it.
fn read_doc(text: &str) -> (r: (bool, String))
    ensures
        r.0 == is_process(text@),
        r.0 ==> r.1@ == process_text(text@),
        !r.0 ==> r.1@ == trim_start(text@),
{
    let cs = chars_of(text);
    let body = trim_from(&cs, 0);
    proof {
        assert(cs@.skip(0) =~= text@);
    }
    let marker = chars_of("@process");
    proof {
        reveal_strlit("@process");
        assert(marker@.len() == 8);
    }
    let mut is_marked = body.len() >= 8;
    let mut j: usize = 0;
    while is_marked && j < 8
        invariant
            marker@ == "@process"@,
            marker@.len() == 8,
            j <= 8,
            is_marked ==> body.len() >= 8,
            is_marked ==> body@.take(j as int) =~= marker@.take(j as int),
            !is_marked ==> !(body@.len() >= 8 && body@.take(8) == "@process"@),
        decreases 8 - j,
    {
        if body[j] != marker[j] {
            assert(body@.take(8)[j as int] != "@process"@[j as int]);
            is_marked = false;
            j = 8;
        } else {
            assert(body@.take(j + 1) =~= body@.take(j as int).push(body@[j as int]));
            assert(marker@.take(j + 1) =~= marker@.take(j as int).push(marker@[j as int]));
            j = j + 1;
        }
    }
    if is_marked {
        assert(marker@.take(8) =~= marker@);
        let rest = trim_from(&body, 8);
        (true, string_from_chars(&rest))
    } else {
        (false, string_from_chars(&body))
    }
}

fn join_doc_exec(doc: Option<String>, line: String) -> (r: Option<String>)
    ensures
        opt_text(r) == join_doc(opt_text(doc), line@),
{
    match doc {
        None => Some(line),
        Some(d) => {
            let with_break = concat(d.as_str(), "\n");
            Some(concat(with_break.as_str(), line.as_str()))
        },
    }
}

// ------------------------------------------------------------------ parser

struct Parser {
    tokens: Vec<Token>,
    pos: usize,
    block_stack: Vec<BlockType>,
    errors: Vec<ErrorContext>,
}

impl Parser {
    spec fn toks(self) -> Seq<TokenView> {
        tokens_view(self.tokens@)
    }

    spec fn st(self) -> PState {
        PState { pos: self.pos as int, errs: perrs(self.errors@) }
    }

    spec fn wf(self) -> bool {
        self.pos <= self.tokens@.len()
    }

    /// `self` is a later state of the same parse as `o`.
    spec fn follows(self, o: Parser) -> bool {
        &&& self.wf()
        &&& self.tokens@ == o.tokens@
        &&& self.block_stack@ == o.block_stack@
        &&& o.pos <= self.pos
    }

    spec fn done(self, o: Parser, r: Result<PrivateNode, ErrorContext>, out: (Result<Stmt, PErr>, PState)) -> bool {
        &&& self.follows(o)
        &&& nres(r) == out.0
        &&& self.st() == out.1
    }

    spec fn done_item(self, o: Parser, r: Result<Item, ErrorContext>, out: (Result<Parsed, PErr>, PState)) -> bool {
        &&& self.follows(o)
        &&& (r is Ok ==> o.pos < self.pos)
        &&& ires(r) == out.0
        &&& self.st() == out.1
    }

    fn push_error(&mut self, e: ErrorContext)
        requires
            old(self).wf(),
        ensures
            final(self).follows(*old(self)),
            final(self).pos == old(self).pos,
            final(self).st() == push(old(self).st(), perr_of(e)),
    {
        let ghost before = self.errors@;
        self.errors.push(e);
        assert(perrs(self.errors@) =~= perrs(before).push(perr_of(e)));
    }

    fn peek_token(&self) -> (r: Result<Token, ErrorContext>)
        requires
            self.wf(),
        ensures
            tres(r) == p_peek(self.toks(), self.st()),
    {
        if self.pos < self.tokens.len() {
            Ok(copy_token(&self.tokens[self.pos]))
        } else {
            Err(err_plain(ErrorCode::Parse003, 0, 0))
        }
    }

    fn next_token(&mut self) -> (r: Result<Token, ErrorContext>)
        requires
            old(self).wf(),
        ensures
            final(self).follows(*old(self)),
            tres(r) == p_next(old(self).toks(), old(self).st()).0,
            final(self).st() == p_next(old(self).toks(), old(self).st()).1,
    {
        if self.pos < self.tokens.len() {
            let tk = copy_token(&self.tokens[self.pos]);
            self.pos = self.pos + 1;
            match tk.kind {
                TokenKind::EOF => Err(err_plain(ErrorCode::Parse003, tk.row, tk.col)),
                _ => Ok(tk),
            }
        } else {
            Err(err_plain(ErrorCode::Parse003, 0, 0))
        }
    }

    /// Reads the next token if it is `p`; records that `p` was expected
    /// otherwise.
    fn check_next_token(&mut self, p: Punct)
        requires
            old(self).wf(),
        ensures
            final(self).follows(*old(self)),
            final(self).st() == p_check(old(self).toks(), old(self).st(), p.lexeme()),
    {
        if self.pos < self.tokens.len() {
            if p.is(&self.tokens[self.pos].kind) {
                self.pos = self.pos + 1;
            } else {
                let e = err_param(ErrorCode::Parse005, &self.tokens[self.pos], "token", p.text());
                self.push_error(e);
            }
        }
    }

    /// Whether the token at the current position is one of `*` and `/`
    /// (`mul`) or of `+` and `-` (otherwise), and which.
    fn arith_at(&self, mul: bool) -> (r: Option<Arithmetic>)
        requires
            self.wf(),
        ensures
            r is Some <==> (self.pos < self.tokens@.len() && (if mul {
                crate::parser::grammar::is_mul_op(self.toks()[self.pos as int].kind)
            } else {
                crate::parser::grammar::is_add_op(self.toks()[self.pos as int].kind)
            })),
            r matches Some(op) ==> self.toks()[self.pos as int].kind == Lexeme::ArithmeticOperator(op),
    {
        if self.pos < self.tokens.len() {
            match &self.tokens[self.pos].kind {
                TokenKind::ArithmeticOperator(op) => {
                    let op = *op;
                    if mul && (op == Arithmetic::Multiply || op == Arithmetic::Divide) {
                        Some(op)
                    } else if !mul && (op == Arithmetic::Plus || op == Arithmetic::Minus) {
                        Some(op)
                    } else {
                        None
                    }
                },
                _ => None,
            }
        } else {
            None
        }
    }

    /// リテラル型の構文解析（String, Number, Bool）
    fn parse_literal(&mut self) -> (r: Result<PrivateNode, ErrorContext>)
        requires
            old(self).wf(),
        ensures
            final(self).done(*old(self), r, p_literal(old(self).toks(), old(self).st())),
    {
        let token = match self.next_token() {
            Ok(t) => t,
            Err(e) => return Err(e),
        };
        match &token.kind {
            TokenKind::StringLiteral(value) => Ok(PrivateNode::Literal { value: LiteralValue::String(value.clone()) }),
            TokenKind::NumberLiteral(integer) => {
                match parse_i32(integer.as_str()) {
                    None => Err(err_param(ErrorCode::Parse004, &token, "number", integer.as_str())),
                    Some(int_value) => {
                        let next = match self.peek_token() {
                            Ok(t) => t,
                            Err(e) => return Err(e),
                        };
                        match next.kind {
                            TokenKind::Dot => {
                                let _ = self.next_token();
                                let number_string = concat(integer.as_str(), ".");
                                let token = match self.next_token() {
                                    Ok(t) => t,
                                    Err(e) => return Err(e),
                                };
                                match &token.kind {
                                    TokenKind::NumberLiteral(decimal) => {
                                        let text = concat(number_string.as_str(), decimal.as_str());
                                        let ds = chars_of(decimal.as_str());
                                        if fraction_ok_exec(&ds) {
                                            Ok(PrivateNode::Literal { value: LiteralValue::Float(text) })
                                        } else {
                                            Err(err_param(ErrorCode::Parse004, &token, "number", text.as_str()))
                                        }
                                    },
                                    _ => Err(err_param(ErrorCode::Parse004, &token, "number", number_string.as_str())),
                                }
                            },
                            _ => Ok(PrivateNode::Literal { value: LiteralValue::Int(int_value) }),
                        }
                    },
                }
            },
            TokenKind::BoolLiteral(value) => {
                match *value {
                    BoolKeyword::True => Ok(PrivateNode::Literal { value: LiteralValue::Bool(true) }),
                    BoolKeyword::False => Ok(PrivateNode::Literal { value: LiteralValue::Bool(false) }),
                }
            },
            _ => Err(err_unexpected(&token)),
        }
    }

    /// 変数呼び出しの構文解析
    fn parse_variable(&mut self) -> (r: Result<PrivateNode, ErrorContext>)
        requires
            old(self).wf(),
        ensures
            final(self).done(*old(self), r, p_variable(old(self).toks(), old(self).st())),
    {
        let token = match self.next_token() {
            Ok(t) => t,
            Err(e) => return Err(e),
        };
        match &token.kind {
            TokenKind::Identifier(name) => Ok(PrivateNode::Variable { name: name.clone() }),
            _ => Err(err_unexpected(&token)),
        }
    }
    /// 数値、計算式の'()'の構文解析
    fn parse_primary(&mut self) -> (r: Result<PrivateNode, ErrorContext>)
        requires
            old(self).wf(),
        ensures
            final(self).done(*old(self), r, p_primary(old(self).toks(), old(self).st())),
        decreases old(self).tokens@.len() - old(self).pos, 10int,
    {
        let token = match self.peek_token() {
            Ok(t) => t,
            Err(e) => return Err(e),
        };
        match &token.kind {
            TokenKind::NumberLiteral(_) => self.parse_literal(),
            TokenKind::LParen => {
                let _ = self.next_token();
                let expr = self.parse_add_and_sub();
                self.check_next_token(Punct::RParen);
                expr
            },
            TokenKind::Identifier(_) => self.parse_variable(),
            _ => Err(err_unexpected(&token)),
        }
    }

    /// 単項演算子の構文解析
    fn parse_unary(&mut self) -> (r: Result<PrivateNode, ErrorContext>)
        requires
            old(self).wf(),
        ensures
            final(self).done(*old(self), r, p_unary(old(self).toks(), old(self).st())),
        decreases old(self).tokens@.len() - old(self).pos, 20int,
    {
        let token = match self.peek_token() {
            Ok(t) => t,
            Err(e) => return Err(e),
        };
        match &token.kind {
            TokenKind::NumberLiteral(_) | TokenKind::LParen | TokenKind::Identifier(_)
            | TokenKind::ArithmeticOperator(Arithmetic::Plus) => self.parse_primary(),
            TokenKind::ArithmeticOperator(Arithmetic::Minus) => {
                let _ = self.next_token();
                let number = match self.parse_primary() {
                    Ok(n) => n,
                    Err(e) => return Err(e),
                };
                Ok(PrivateNode::Arithmetic { operator: Arithmetic::Minus, left: Box::new(number), right: None })
            },
            _ => Err(err_unexpected(&token)),
        }
    }

    /// 掛け算、割り算の構文解析
    fn parse_mul_and_div(&mut self) -> (r: Result<PrivateNode, ErrorContext>)
        requires
            old(self).wf(),
        ensures
            final(self).done(*old(self), r, p_mul(old(self).toks(), old(self).st())),
        decreases old(self).tokens@.len() - old(self).pos, 30int,
    {
        let mut left = match self.parse_unary() {
            Ok(n) => n,
            Err(e) => return Err(e),
        };
        loop
            invariant
                self.follows(*old(self)),
                crate::parser::grammar::p_mul_rest(old(self).toks(), self.st(), left@) == p_mul(old(self).toks(), old(self).st()),
            decreases self.tokens@.len() - self.pos,
        {
            match self.arith_at(true) {
                None => return Ok(left),
                Some(op) => {
                    let _ = self.next_token();
                    let right = match self.parse_unary() {
                        Ok(n) => n,
                        Err(e) => return Err(e),
                    };
                    left = PrivateNode::Arithmetic { operator: op, left: Box::new(left), right: Some(Box::new(right)) };
                },
            }
        }
    }

    /// 足し算、引き算の構文解析
    fn parse_add_and_sub(&mut self) -> (r: Result<PrivateNode, ErrorContext>)
        requires
            old(self).wf(),
        ensures
            final(self).done(*old(self), r, p_add(old(self).toks(), old(self).st())),
        decreases old(self).tokens@.len() - old(self).pos, 40int,
    {
        let mut left = match self.parse_mul_and_div() {
            Ok(n) => n,
            Err(e) => return Err(e),
        };
        loop
            invariant
                self.follows(*old(self)),
                crate::parser::grammar::p_add_rest(old(self).toks(), self.st(), left@) == p_add(old(self).toks(), old(self).st()),
            decreases self.tokens@.len() - self.pos,
        {
            match self.arith_at(false) {
                None => return Ok(left),
                Some(op) => {
                    let _ = self.next_token();
                    let right = match self.parse_mul_and_div() {
                        Ok(n) => n,
                        Err(e) => return Err(e),
                    };
                    left = PrivateNode::Arithmetic { operator: op, left: Box::new(left), right: Some(Box::new(right)) };
                },
            }
        }
    }

    /// 値の構文解析
    fn parse_value(&mut self) -> (r: Result<PrivateNode, ErrorContext>)
        requires
            old(self).wf(),
        ensures
            final(self).done(*old(self), r, p_value(old(self).toks(), old(self).st())),
        decreases old(self).tokens@.len() - old(self).pos, 50int,
    {
        let token = match self.peek_token() {
            Ok(t) => t,
            Err(e) => return Err(e),
        };
        match &token.kind {
            TokenKind::NumberLiteral(_) | TokenKind::LParen | TokenKind::Identifier(_) => self.parse_add_and_sub(),
            TokenKind::ArithmeticOperator(op) => {
                if *op == Arithmetic::Plus || *op == Arithmetic::Minus {
                    self.parse_add_and_sub()
                } else {
                    Err(err_unexpected(&token))
                }
            },
            TokenKind::StringLiteral(_) => self.parse_literal(),
            _ => Err(err_unexpected(&token)),
        }
    }

    /// 比較式の構文解析
    fn parse_compare(&mut self) -> (r: Result<PrivateNode, ErrorContext>)
        requires
            old(self).wf(),
        ensures
            final(self).done(*old(self), r, p_compare(old(self).toks(), old(self).st())),
        decreases old(self).tokens@.len() - old(self).pos, 60int,
    {
        let left = self.parse_value();
        let token = match self.peek_token() {
            Ok(t) => t,
            Err(e) => return Err(e),
        };
        match &token.kind {
            TokenKind::CompareOperator(op) => {
                let operator = *op;
                let _ = self.next_token();
                let right = match self.parse_value() {
                    Ok(n) => n,
                    Err(e) => return Err(e),
                };
                match left {
                    Err(e) => Err(e),
                    Ok(l) => Ok(PrivateNode::Compare { operator, left: Box::new(l), right: Box::new(right) }),
                }
            },
            _ => left,
        }
    }

    /// NOT演算の構文解析
    fn parse_not_expr(&mut self) -> (r: Result<PrivateNode, ErrorContext>)
        requires
            old(self).wf(),
        ensures
            final(self).done(*old(self), r, p_not(old(self).toks(), old(self).st())),
        decreases old(self).tokens@.len() - old(self).pos, 70int,
    {
        let token = match self.peek_token() {
            Ok(t) => t,
            Err(e) => return Err(e),
        };
        match &token.kind {
            TokenKind::LogicalOperator(Logical::Unary(UnaryLogical::Not)) => {
                let _ = self.next_token();
                let value = match self.parse_expression() {
                    Ok(n) => n,
                    Err(e) => return Err(e),
                };
                Ok(PrivateNode::Logical { operator: Logical::Unary(UnaryLogical::Not), left: Box::new(value), right: None })
            },
            TokenKind::BoolLiteral(_) => self.parse_literal(),
            _ => self.parse_compare(),
        }
    }

    /// AND演算の構文解析
    fn parse_and_expr(&mut self) -> (r: Result<PrivateNode, ErrorContext>)
        requires
            old(self).wf(),
        ensures
            final(self).done(*old(self), r, p_and(old(self).toks(), old(self).st())),
        decreases old(self).tokens@.len() - old(self).pos, 80int,
    {
        let mut left = match self.parse_not_expr() {
            Ok(n) => n,
            Err(e) => return Err(e),
        };
        loop
            invariant
                self.follows(*old(self)),
                crate::parser::grammar::p_and_rest(old(self).toks(), self.st(), left@) == p_and(old(self).toks(), old(self).st()),
            decreases self.tokens@.len() - self.pos,
        {
            let token = match self.peek_token() {
                Ok(t) => t,
                Err(e) => return Err(e),
            };
            let operator = match &token.kind {
                TokenKind::LogicalOperator(Logical::Binary(BinaryLogical::And)) => Logical::Binary(BinaryLogical::And),
                TokenKind::LogicalOperator(Logical::Binary(BinaryLogical::Xor)) => Logical::Binary(BinaryLogical::Xor),
                _ => return Ok(left),
            };
            let _ = self.next_token();
            let right = match self.parse_not_expr() {
                Ok(n) => n,
                Err(e) => return Err(e),
            };
            left = PrivateNode::Logical { operator, left: Box::new(left), right: Some(Box::new(right)) };
        }
    }

    /// OR演算の構文解析
    fn parse_or_expr(&mut self) -> (r: Result<PrivateNode, ErrorContext>)
        requires
            old(self).wf(),
        ensures
            final(self).done(*old(self), r, p_or(old(self).toks(), old(self).st())),
        decreases old(self).tokens@.len() - old(self).pos, 90int,
    {
        let mut left = match self.parse_and_expr() {
            Ok(n) => n,
            Err(e) => return Err(e),
        };
        loop
            invariant
                self.follows(*old(self)),
                crate::parser::grammar::p_or_rest(old(self).toks(), self.st(), left@) == p_or(old(self).toks(), old(self).st()),
            decreases self.tokens@.len() - self.pos,
        {
            let token = match self.peek_token() {
                Ok(t) => t,
                Err(e) => return Err(e),
            };
            match &token.kind {
                TokenKind::LogicalOperator(Logical::Binary(BinaryLogical::Or)) => {},
                _ => return Ok(left),
            }
            let _ = self.next_token();
            let right = match self.parse_and_expr() {
                Ok(n) => n,
                Err(e) => return Err(e),
            };
            left = PrivateNode::Logical {
                operator: Logical::Binary(BinaryLogical::Or),
                left: Box::new(left),
                right: Some(Box::new(right)),
            };
        }
    }

    /// 式の構文解析
    fn parse_expression(&mut self) -> (r: Result<PrivateNode, ErrorContext>)
        requires
            old(self).wf(),
        ensures
            final(self).done(*old(self), r, p_expression(old(self).toks(), old(self).st())),
        decreases old(self).tokens@.len() - old(self).pos, 100int,
    {
        self.parse_or_expr()
    }

    /// 割り当て可能値の構文解析（引数、代入式の右辺）
    #[verifier::rlimit(50)]
    fn parse_assignable(&mut self) -> (r: Result<PrivateNode, ErrorContext>)
        requires
            old(self).wf(),
        ensures
            final(self).done(*old(self), r, p_assignable(old(self).toks(), old(self).st())),
        decreases old(self).tokens@.len() - old(self).pos, 110int,
    {
        let token = match self.peek_token() {
            Ok(t) => t,
            Err(e) => return Err(e),
        };
        match &token.kind {
            TokenKind::StringLiteral(_) | TokenKind::NumberLiteral(_) | TokenKind::BoolLiteral(_)
            | TokenKind::LParen => self.parse_expression(),
            TokenKind::ArithmeticOperator(op) => {
                if *op == Arithmetic::Plus || *op == Arithmetic::Minus {
                    self.parse_expression()
                } else {
                    Err(err_unexpected(&token))
                }
            },
            TokenKind::Identifier(name) => {
                assert(self.pos < self.tokens.len());
                if self.pos + 1 < self.tokens.len() {
                    if Punct::LParen.is(&self.tokens[self.pos + 1].kind) {
                        let name = name.clone();
                        let _ = self.next_token();
                        let _ = self.next_token();
                        let arguments = self.parse_argument();
                        self.check_next_token(Punct::RParen);
                        Ok(PrivateNode::FunctionCall { name, arguments, return_flg: true })
                    } else {
                        self.parse_expression()
                    }
                } else {
                    Err(err_plain(ErrorCode::Parse003, token.row, token.col))
                }
            },
            _ => Err(err_unexpected(&token)),
        }
    }

    /// 引数の構文解析
    #[verifier::rlimit(80)]
    fn parse_argument(&mut self) -> (r: Vec<PrivateNode>)
        requires
            old(self).wf(),
        ensures
            final(self).follows(*old(self)),
            nodes_view(r@) == p_arguments(old(self).toks(), old(self).st()).0,
            final(self).st() == p_arguments(old(self).toks(), old(self).st()).1,
        decreases old(self).tokens@.len() - old(self).pos, 120int,
    {
        let mut arguments: Vec<PrivateNode> = Vec::new();
        assert(nodes_view(arguments@) =~= seq![]);
        loop
            invariant
                self.follows(*old(self)),
                p_args_loop(old(self).toks(), self.st(), nodes_view(arguments@)) == p_arguments(old(self).toks(), old(self).st()),
            decreases self.tokens@.len() - self.pos,
        {
            let token = match self.peek_token() {
                Ok(t) => t,
                Err(e) => {
                    self.push_error(e);
                    proof {
                        lemma_nodes_view_push(arguments@, PrivateNode::Error);
                    }
                    arguments.push(PrivateNode::Error);
                    return arguments;
                },
            };
            if Punct::RParen.is(&token.kind) {
                return arguments;
            }
            let arg = match self.parse_assignable() {
                Ok(n) => n,
                Err(e) => {
                    self.push_error(e);
                    PrivateNode::Error
                },
            };
            proof {
                lemma_nodes_view_push(arguments@, arg);
            }
            arguments.push(arg);
            let token = match self.peek_token() {
                Ok(t) => t,
                Err(e) => {
                    self.push_error(e);
                    return arguments;
                },
            };
            match &token.kind {
                TokenKind::Comma => {
                    let _ = self.next_token();
                },
                TokenKind::RParen => return arguments,
                _ => {
                    let e = err_unexpected(&token);
                    self.push_error(e);
                    return arguments;
                },
            }
        }
    }
    fn stack_has(&self, b: BlockType) -> (r: bool)
        ensures
            r == self.block_stack@.contains(b),
    {
        let mut i: usize = 0;
        while i < self.block_stack.len()
            invariant
                i <= self.block_stack@.len(),
                forall|j: int| 0 <= j < i ==> self.block_stack@[j] != b,
            decreases self.block_stack@.len() - i,
        {
            if self.block_stack[i] == b {
                assert(self.block_stack@[i as int] == b);
                return true;
            }
            i = i + 1;
        }
        false
    }

    fn in_global(&self) -> (r: bool)
        ensures
            r == (self.block_stack@.len() > 0 && self.block_stack@.last() == BlockType::Global),
    {
        let n = self.block_stack.len();
        n > 0 && self.block_stack[n - 1] == BlockType::Global
    }

    /// return文
    fn parse_return(&mut self, token: &Token, k: FunctionControl) -> (r: Result<Item, ErrorContext>)
        requires
            old(self).wf(),
        ensures
            final(self).done_item(
                *old(self),
                r,
                p_return(old(self).toks(), old(self).st(), old(self).block_stack@, token@, k),
            ),
    {
        if !self.stack_has(BlockType::Function) {
            let text = k.to_string();
            let e = err_misplaced(token, text.as_str(), "function");
            self.push_error(e);
        }
        match self.next_token() {
            Ok(_) => {},
            Err(e) => return Err(e),
        }
        let value = match self.parse_assignable() {
            Ok(n) => n,
            Err(e) => {
                self.push_error(e);
                PrivateNode::Error
            },
        };
        self.check_next_token(Punct::Semicolon);
        Ok(Item::Statement(PrivateNode::ReturnStatement { assignalbe: Box::new(value) }))
    }

    /// break文、continue文
    fn parse_loop_control(&mut self, token: &Token, k: LoopControl) -> (r: Result<Item, ErrorContext>)
        requires
            old(self).wf(),
        ensures
            final(self).done_item(
                *old(self),
                r,
                p_loop_control(old(self).toks(), old(self).st(), old(self).block_stack@, token@, k),
            ),
    {
        if !self.stack_has(BlockType::Loop) {
            let text = k.to_string();
            let e = err_misplaced(token, text.as_str(), "loop");
            self.push_error(e);
        }
        match self.next_token() {
            Ok(_) => {},
            Err(e) => return Err(e),
        }
        self.check_next_token(Punct::Semicolon);
        let node = match k {
            LoopControl::Break => PrivateNode::Break,
            LoopControl::Continue => PrivateNode::Continue,
        };
        Ok(Item::Statement(node))
    }

    /// resume文、yield文
    fn parse_coroutine_control(&mut self, token: &Token, k: CoroutineControl) -> (r: Result<Item, ErrorContext>)
        requires
            old(self).wf(),
        ensures
            final(self).done_item(
                *old(self),
                r,
                p_coroutine_control(old(self).toks(), old(self).st(), old(self).block_stack@, token@, k),
            ),
    {
        match self.next_token() {
            Ok(_) => {},
            Err(e) => return Err(e),
        }
        match k {
            CoroutineControl::Resume => {
                let name_token = match self.next_token() {
                    Ok(t) => t,
                    Err(e) => return Err(e),
                };
                match &name_token.kind {
                    TokenKind::Identifier(name) => {
                        let task_name = name.clone();
                        self.check_next_token(Punct::Semicolon);
                        Ok(Item::Statement(PrivateNode::CoroutineResume { task_name }))
                    },
                    _ => Err(err_plain(ErrorCode::Parse005, name_token.row, name_token.col)),
                }
            },
            CoroutineControl::Yield => {
                if !self.stack_has(BlockType::Coroutine) {
                    let text = k.to_string();
                    let e = err_misplaced(token, text.as_str(), "コルーチン");
                    self.push_error(e);
                }
                self.check_next_token(Punct::Semicolon);
                Ok(Item::Statement(PrivateNode::Yield))
            },
        }
    }

    /// 関数呼び出しと変数の再代入
    fn parse_identifier(&mut self, name: String) -> (r: Result<Item, ErrorContext>)
        requires
            old(self).wf(),
        ensures
            final(self).done_item(*old(self), r, p_identifier(old(self).toks(), old(self).st(), name@)),
    {
        match self.next_token() {
            Ok(_) => {},
            Err(e) => return Err(e),
        }
        let token = match self.next_token() {
            Ok(t) => t,
            Err(e) => return Err(e),
        };
        match &token.kind {
            TokenKind::LParen => {
                let arguments = self.parse_argument();
                self.check_next_token(Punct::RParen);
                self.check_next_token(Punct::Semicolon);
                Ok(Item::Statement(PrivateNode::FunctionCall { name, arguments, return_flg: false }))
            },
            TokenKind::Equal => {
                let expression = match self.parse_expression() {
                    Ok(n) => n,
                    Err(e) => return Err(e),
                };
                self.check_next_token(Punct::Semicolon);
                Ok(Item::Statement(PrivateNode::VariableAssignment { name, expression: Box::new(expression) }))
            },
            _ => Err(err_unexpected(&token)),
        }
    }

    /// The condition in parentheses after `if` or `while`, up to the brace
    /// that opens the block.
    fn parse_condition(&mut self) -> (r: PrivateNode)
        requires
            old(self).wf(),
        ensures
            final(self).follows(*old(self)),
            r@ == p_condition(old(self).toks(), old(self).st()).0,
            final(self).st() == p_condition(old(self).toks(), old(self).st()).1,
    {
        self.check_next_token(Punct::LParen);
        let condition = match self.parse_expression() {
            Ok(n) => n,
            Err(e) => {
                self.push_error(e);
                PrivateNode::Error
            },
        };
        self.check_next_token(Punct::RParen);
        self.check_next_token(Punct::LBrace);
        condition
    }

    /// The statements of a block of kind `bt` that opens inside the current
    /// one.
    fn parse_inner_block(&mut self, bt: BlockType) -> (r: Vec<PrivateNode>)
        requires
            old(self).wf(),
        ensures
            final(self).follows(*old(self)),
            nodes_view(r@) == p_statements(old(self).toks(), old(self).st(), old(self).block_stack@.push(bt), bt).0.stmts,
            final(self).st() == p_statements(old(self).toks(), old(self).st(), old(self).block_stack@.push(bt), bt).1,
        decreases old(self).tokens@.len() - old(self).pos, 305int,
    {
        let ghost outer = self.block_stack@;
        self.block_stack.push(bt);
        let (statements, _, _) = self.parse_statements(bt);
        let _ = self.block_stack.pop();
        assert(self.block_stack@ =~= outer);
        statements
    }

    /// A block of kind `bt` holding `statements`, and its model.
    fn make_block(bt: BlockType, statements: Vec<PrivateNode>) -> (r: BlockNode)
        ensures
            r@ == (Block { block_type: bt, statements: nodes_view(statements@) }),
    {
        BlockNode { block_type: bt, statements }
    }

    /// If文
    #[verifier::rlimit(60)]
    fn parse_if_statement(&mut self) -> (r: Result<Item, ErrorContext>)
        requires
            old(self).wf(),
        ensures
            final(self).done_item(*old(self), r, p_if(old(self).toks(), old(self).st(), old(self).block_stack@)),
        decreases old(self).tokens@.len() - old(self).pos, 280int,
    {
        match self.next_token() {
            Ok(_) => {},
            Err(e) => return Err(e),
        }
        let condition = self.parse_condition();
        let then_statements = self.parse_inner_block(BlockType::Conditional);
        self.check_next_token(Punct::RBrace);
        let then_block = Self::make_block(BlockType::Conditional, then_statements);
        let has_else = self.pos < self.tokens.len() && match &self.tokens[self.pos].kind {
            TokenKind::ControlKeyword(ControlKeyword::Else) => true,
            _ => false,
        };
        if has_else {
            let _ = self.next_token();
            self.check_next_token(Punct::LBrace);
            let else_statements = self.parse_inner_block(BlockType::Conditional);
            self.check_next_token(Punct::RBrace);
            let else_block = Self::make_block(BlockType::Conditional, else_statements);
            Ok(
                Item::Statement(
                    PrivateNode::IfStatement {
                        condition_node: Box::new(condition),
                        then_block,
                        else_block: Some(else_block),
                    },
                ),
            )
        } else {
            Ok(
                Item::Statement(
                    PrivateNode::IfStatement { condition_node: Box::new(condition), then_block, else_block: None },
                ),
            )
        }
    }

    /// ループ文
    fn parse_loop_statement(&mut self) -> (r: Result<Item, ErrorContext>)
        requires
            old(self).wf(),
        ensures
            final(self).done_item(*old(self), r, p_loop(old(self).toks(), old(self).st(), old(self).block_stack@)),
        decreases old(self).tokens@.len() - old(self).pos, 280int,
    {
        match self.next_token() {
            Ok(_) => {},
            Err(e) => return Err(e),
        }
        let condition_node = self.parse_condition();
        let statements = self.parse_inner_block(BlockType::Loop);
        self.check_next_token(Punct::RBrace);
        let block = Self::make_block(BlockType::Loop, statements);
        Ok(Item::Statement(PrivateNode::LoopStatement { condition_node: Box::new(condition_node), block }))
    }

    /// The name a definition gives; `None` where the token is no name.
    fn name_or_none(&mut self, name_token: &Token, what: &str, at: &Token) -> (r: String)
        requires
            old(self).wf(),
        ensures
            final(self).follows(*old(self)),
            final(self).pos == old(self).pos,
            (r@, final(self).st()) == crate::parser::grammar::name_or_none(name_token@, old(self).st(), what@, at@),
    {
        match &name_token.kind {
            TokenKind::Identifier(n) => n.clone(),
            _ => {
                let e = err_param(ErrorCode::Parse005, at, "token", what);
                self.push_error(e);
                owned("None")
            },
        }
    }

    /// 変数宣言
    fn parse_let(&mut self, doc: Option<String>) -> (r: Result<Item, ErrorContext>)
        requires
            old(self).wf(),
        ensures
            final(self).done_item(*old(self), r, p_let(old(self).toks(), old(self).st(), opt_text(doc))),
    {
        match self.next_token() {
            Ok(_) => {},
            Err(e) => return Err(e),
        }
        let name_token = match self.next_token() {
            Ok(t) => t,
            Err(e) => return Err(e),
        };
        let name = self.name_or_none(&name_token, "変数名", &name_token);
        self.check_next_token(Punct::Colon);
        let type_token = match self.next_token() {
            Ok(t) => t,
            Err(e) => return Err(e),
        };
        let variable_type = match &type_token.kind {
            TokenKind::TypeName(tname) => Type::from_type_name(*tname),
            _ => {
                let e = err_param(ErrorCode::Parse005, &name_token, "token", "型");
                self.push_error(e);
                Type::Bool
            },
        };
        let next_token = match self.next_token() {
            Ok(t) => t,
            Err(e) => return Err(e),
        };
        let initializer = match &next_token.kind {
            TokenKind::Semicolon => None,
            TokenKind::Equal => {
                let expression = match self.parse_assignable() {
                    Ok(n) => n,
                    Err(e) => return Err(e),
                };
                self.check_next_token(Punct::Semicolon);
                Some(Box::new(expression))
            },
            _ => {
                let e = err_param(ErrorCode::Parse005, &next_token, "token", ";");
                self.push_error(e);
                None
            },
        };
        Ok(Item::Statement(PrivateNode::VariableDeclaration { name, variable_type, initializer, doc }))
    }

    /// コルーチンのインスタンス化
    fn parse_coro(&mut self) -> (r: Result<Item, ErrorContext>)
        requires
            old(self).wf(),
        ensures
            final(self).done_item(*old(self), r, p_coro(old(self).toks(), old(self).st())),
    {
        match self.next_token() {
            Ok(_) => {},
            Err(e) => return Err(e),
        }
        let name_token = match self.next_token() {
            Ok(t) => t,
            Err(e) => return Err(e),
        };
        let task_name = self.name_or_none(&name_token, "インスタンス名", &name_token);
        self.check_next_token(Punct::Equal);
        let token = match self.peek_token() {
            Ok(t) => t,
            Err(e) => return Err(e),
        };
        match &token.kind {
            TokenKind::Identifier(name) => {
                let coroutine_name = name.clone();
                let _ = self.next_token();
                self.check_next_token(Punct::LParen);
                self.check_next_token(Punct::RParen);
                self.check_next_token(Punct::Semicolon);
                Ok(Item::Statement(PrivateNode::CoroutineInstantiation { task_name, coroutine_name }))
            },
            _ => Err(err_param(ErrorCode::Parse005, &token, "token", "コルーチン名")),
        }
    }

    /// 引数定義の構文解析
    fn parse_params(&mut self) -> (r: Result<Vec<ParameterNode>, ErrorContext>)
        requires
            old(self).wf(),
        ensures
            final(self).follows(*old(self)),
            (match r {
                Ok(v) => Ok(params_view(v@)),
                Err(e) => Err(perr_of(e)),
            }) == p_params(old(self).toks(), old(self).st(), seq![]).0,
            final(self).st() == p_params(old(self).toks(), old(self).st(), seq![]).1,
    {
        let mut parameters: Vec<ParameterNode> = Vec::new();
        assert(params_view(parameters@) =~= seq![]);
        loop
            invariant
                self.follows(*old(self)),
                p_params(old(self).toks(), self.st(), params_view(parameters@)) == p_params(
                    old(self).toks(),
                    old(self).st(),
                    seq![],
                ),
            decreases self.tokens@.len() - self.pos,
        {
            let token = match self.peek_token() {
                Ok(t) => t,
                Err(e) => return Err(e),
            };
            if Punct::RParen.is(&token.kind) {
                return Ok(parameters);
            }
            let name_token = match self.next_token() {
                Ok(t) => t,
                Err(e) => return Err(e),
            };
            let name = match &name_token.kind {
                TokenKind::Identifier(n) => n.clone(),
                _ => {
                    let e = err_unexpected(&name_token);
                    self.push_error(e);
                    owned("None")
                },
            };
            self.check_next_token(Punct::Colon);
            let type_token = match self.next_token() {
                Ok(t) => t,
                Err(e) => return Err(e),
            };
            let variable_type = match &type_token.kind {
                TokenKind::TypeName(tname) => Type::from_type_name(*tname),
                _ => {
                    let e = err_unexpected(&type_token);
                    self.push_error(e);
                    Type::Bool
                },
            };
            let ghost before = parameters@;
            parameters.push(ParameterNode { name, variable_type });
            assert(params_view(parameters@) =~= params_view(before).push((name@, variable_type)));
            let separator = match self.peek_token() {
                Ok(t) => t,
                Err(e) => return Err(e),
            };
            match &separator.kind {
                TokenKind::RParen => return Ok(parameters),
                TokenKind::Comma => {
                    let _ = self.next_token();
                },
                _ => {
                    let e = err_unexpected(&separator);
                    self.push_error(e);
                    match self.next_token() {
                        Ok(_) => {},
                        Err(e) => return Err(e),
                    }
                },
            }
        }
    }

    /// 戻り値の型の構文解析
    fn parse_return_type(&mut self) -> (r: Option<Type>)
        requires
            old(self).wf(),
        ensures
            final(self).follows(*old(self)),
            r == p_return_type(old(self).toks(), old(self).st()).0,
            final(self).st() == p_return_type(old(self).toks(), old(self).st()).1,
    {
        let is_arrow = self.pos < self.tokens.len() && match &self.tokens[self.pos].kind {
            TokenKind::RArrow => true,
            _ => false,
        };
        if !is_arrow {
            return None;
        }
        let _ = self.next_token();
        match self.next_token() {
            Err(e) => {
                self.push_error(e);
                None
            },
            Ok(token) => match &token.kind {
                TokenKind::TypeName(tname) => Some(Type::from_type_name(*tname)),
                _ => {
                    let e = err_param(ErrorCode::Parse005, &token, "token", "型");
                    self.push_error(e);
                    None
                },
            },
        }
    }

    /// 関数定義
    fn parse_function_definition(&mut self, doc: Option<String>) -> (r: Result<Item, ErrorContext>)
        requires
            old(self).wf(),
        ensures
            final(self).done_item(
                *old(self),
                r,
                p_function(old(self).toks(), old(self).st(), old(self).block_stack@, opt_text(doc)),
            ),
        decreases old(self).tokens@.len() - old(self).pos, 270int,
    {
        let keyword = match self.next_token() {
            Ok(t) => t,
            Err(e) => return Err(e),
        };
        if !self.in_global() {
            let e = err_misplaced(&keyword, "function", "global_block");
            self.push_error(e);
        }
        let name_token = match self.next_token() {
            Ok(t) => t,
            Err(e) => return Err(e),
        };
        let name = self.name_or_none(&name_token, "関数名", &name_token);
        self.check_next_token(Punct::LParen);
        let parameters = match self.parse_params() {
            Ok(p) => p,
            Err(e) => return Err(e),
        };
        self.check_next_token(Punct::RParen);
        let return_type = self.parse_return_type();
        self.check_next_token(Punct::LBrace);
        let statements = self.parse_inner_block(BlockType::Function);
        self.check_next_token(Punct::RBrace);
        let block = Self::make_block(BlockType::Function, statements);
        Ok(Item::Function(FunctionDefinitionNode { name, parameters, return_type, block, doc }))
    }

    /// コルーチン定義
    fn parse_coroutine_definition(&mut self, doc: Option<String>) -> (r: Result<Item, ErrorContext>)
        requires
            old(self).wf(),
        ensures
            final(self).done_item(
                *old(self),
                r,
                p_coroutine(old(self).toks(), old(self).st(), old(self).block_stack@, opt_text(doc)),
            ),
        decreases old(self).tokens@.len() - old(self).pos, 270int,
    {
        let keyword = match self.next_token() {
            Ok(t) => t,
            Err(e) => return Err(e),
        };
        if !self.in_global() {
            let e = err_misplaced(&keyword, "coroutine", "global_block");
            self.push_error(e);
        }
        let name_token = match self.next_token() {
            Ok(t) => t,
            Err(e) => return Err(e),
        };
        let name = self.name_or_none(&name_token, "コルーチン名", &name_token);
        self.check_next_token(Punct::LParen);
        self.check_next_token(Punct::RParen);
        self.check_next_token(Punct::LBrace);
        let statements = self.parse_inner_block(BlockType::Coroutine);
        self.check_next_token(Punct::RBrace);
        let block = Self::make_block(BlockType::Coroutine, statements);
        Ok(Item::Coroutine(CoroutineDefinitionNode { name, block, doc }))
    }

    /// 宣言の構文解析
    fn parse_declaration_keyword(&mut self, keyword: DeclarationKeyword, doc: Option<String>) -> (r: Result<
        Item,
        ErrorContext,
    >)
        requires
            old(self).wf(),
        ensures
            final(self).done_item(
                *old(self),
                r,
                p_declaration(old(self).toks(), old(self).st(), old(self).block_stack@, keyword, opt_text(doc)),
            ),
        decreases old(self).tokens@.len() - old(self).pos, 280int,
    {
        match keyword {
            DeclarationKeyword::Let => self.parse_let(doc),
            DeclarationKeyword::Function => self.parse_function_definition(doc),
            DeclarationKeyword::Coroutine => self.parse_coroutine_definition(doc),
            DeclarationKeyword::Coro => self.parse_coro(),
        }
    }

    /// 文の構文解析
    #[verifier::rlimit(100)]
    fn parse_statement(&mut self, token: Token, doc: Option<String>) -> (r: Result<Item, ErrorContext>)
        requires
            old(self).wf(),
            old(self).pos < old(self).tokens@.len(),
            token@ == old(self).toks()[old(self).pos as int],
        ensures
            final(self).done_item(
                *old(self),
                r,
                p_statement(old(self).toks(), old(self).st(), old(self).block_stack@, opt_text(doc)),
            ),
        decreases old(self).tokens@.len() - old(self).pos, 290int,
    {
        match &token.kind {
            TokenKind::Identifier(name) => {
                let name = name.clone();
                self.parse_identifier(name)
            },
            TokenKind::ControlKeyword(keyword) => match *keyword {
                ControlKeyword::If => self.parse_if_statement(),
                ControlKeyword::While => self.parse_loop_statement(),
                _ => {
                    let text = keyword.to_string();
                    Err(err_param(ErrorCode::Parse002, &token, "token", text.as_str()))
                },
            },
            TokenKind::DeclarationKeyword(keyword) => self.parse_declaration_keyword(*keyword, doc),
            TokenKind::FunctionControl(keyword) => self.parse_return(&token, *keyword),
            TokenKind::LoopControl(keyword) => self.parse_loop_control(&token, *keyword),
            TokenKind::CoroutineControl(keyword) => self.parse_coroutine_control(&token, *keyword),
            _ => Err(err_unexpected(&token)),
        }
    }

    /// One documentation comment among the statements of a block: a step
    /// of the process becomes a statement, other lines wait for the next
    /// definition.
    fn statements_doc(
        &mut self,
        block_type: BlockType,
        token: Token,
        text: String,
        statements: &mut Vec<PrivateNode>,
        functions: &Vec<FunctionDefinitionNode>,
        coroutines: &Vec<CoroutineDefinitionNode>,
        doc: &mut Option<String>,
    )
        requires
            old(self).wf(),
            old(self).pos < old(self).tokens@.len(),
            token@ == old(self).toks()[old(self).pos as int],
            token@.kind == Lexeme::DocComment(text@),
        ensures
            final(self).follows(*old(self)),
            old(self).pos < final(self).pos,
            p_stmts_loop(
                old(self).toks(),
                old(self).st(),
                old(self).block_stack@,
                block_type,
                acc_view(old(statements)@, functions@, coroutines@),
                opt_text(*old(doc)),
            ) == p_stmts_loop(
                old(self).toks(),
                final(self).st(),
                old(self).block_stack@,
                block_type,
                acc_view(final(statements)@, functions@, coroutines@),
                opt_text(*final(doc)),
            ),
    {
        proof {
            reveal(p_stmts_loop);
        }
        let (is_step, body) = read_doc(text.as_str());
        let _ = self.next_token();
        if is_step {
            let node = PrivateNode::ProcessComment { comment: body };
            proof {
                lemma_acc_stmt(statements@, functions@, coroutines@, node);
            }
            statements.push(node);
        } else {
            let mut pending: Option<String> = None;
            std::mem::swap(&mut pending, doc);
            *doc = join_doc_exec(pending, body);
        }
    }

    /// One statement among the statements of a block; `false` where the
    /// block ends with it.
    #[verifier::rlimit(60)]
    fn statements_one(
        &mut self,
        block_type: BlockType,
        token: Token,
        statements: &mut Vec<PrivateNode>,
        functions: &mut Vec<FunctionDefinitionNode>,
        coroutines: &mut Vec<CoroutineDefinitionNode>,
        doc: Option<String>,
    ) -> (go_on: bool)
        requires
            old(self).wf(),
            old(self).pos < old(self).tokens@.len(),
            token@ == old(self).toks()[old(self).pos as int],
            !(token@.kind is DocComment),
            !((block_type != BlockType::Global && token@.kind is RBrace) || token@.kind is EOF),
        ensures
            final(self).follows(*old(self)),
            go_on ==> old(self).pos < final(self).pos,
            p_stmts_loop(
                old(self).toks(),
                old(self).st(),
                old(self).block_stack@,
                block_type,
                acc_view(old(statements)@, old(functions)@, old(coroutines)@),
                opt_text(doc),
            ) == (if go_on {
                p_stmts_loop(
                    old(self).toks(),
                    final(self).st(),
                    old(self).block_stack@,
                    block_type,
                    acc_view(final(statements)@, final(functions)@, final(coroutines)@),
                    None,
                )
            } else {
                (acc_view(final(statements)@, final(functions)@, final(coroutines)@), final(self).st())
            }),
        decreases old(self).tokens@.len() - old(self).pos, 293int,
    {
        proof {
            reveal(p_stmts_loop);
        }
        match self.parse_statement(token, doc) {
            Ok(Item::Statement(node)) => {
                proof {
                    lemma_acc_stmt(statements@, functions@, coroutines@, node);
                }
                statements.push(node);
                true
            },
            Ok(Item::Function(f)) => {
                proof {
                    lemma_acc_fun(statements@, functions@, coroutines@, f);
                }
                functions.push(f);
                true
            },
            Ok(Item::Coroutine(c)) => {
                proof {
                    lemma_acc_coro(statements@, functions@, coroutines@, c);
                }
                coroutines.push(c);
                true
            },
            Err(e) => {
                self.push_error(e);
                false
            },
        }
    }

    /// 文の並びの構文解析
    fn parse_statements(&mut self, block_type: BlockType) -> (r: (
        Vec<PrivateNode>,
        Vec<FunctionDefinitionNode>,
        Vec<CoroutineDefinitionNode>,
    ))
        requires
            old(self).wf(),
        ensures
            final(self).follows(*old(self)),
            acc_view(r.0@, r.1@, r.2@) == p_statements(
                old(self).toks(),
                old(self).st(),
                old(self).block_stack@,
                block_type,
            ).0,
            final(self).st() == p_statements(
                old(self).toks(),
                old(self).st(),
                old(self).block_stack@,
                block_type,
            ).1,
        decreases old(self).tokens@.len() - old(self).pos, 300int,
    {
        let mut statements: Vec<PrivateNode> = Vec::new();
        let mut functions: Vec<FunctionDefinitionNode> = Vec::new();
        let mut coroutines: Vec<CoroutineDefinitionNode> = Vec::new();
        let mut doc: Option<String> = None;
        proof {
            assert(nodes_view(statements@) =~= seq![]);
            assert(funs_view(functions@) =~= seq![]);
            assert(coros_view(coroutines@) =~= seq![]);
            assert(acc_view(statements@, functions@, coroutines@) == empty_acc());
            assert(opt_text(doc) == None::<Seq<char>>);
            assert(p_statements(self.toks(), self.st(), self.block_stack@, block_type) == p_stmts_loop(
                self.toks(),
                self.st(),
                self.block_stack@,
                block_type,
                empty_acc(),
                None,
            )) by {
                reveal(p_stmts_loop);
            }
        }
        loop
            invariant
                self.follows(*old(self)),
                p_stmts_loop(
                    old(self).toks(),
                    self.st(),
                    old(self).block_stack@,
                    block_type,
                    acc_view(statements@, functions@, coroutines@),
                    opt_text(doc),
                ) == p_statements(old(self).toks(), old(self).st(), old(self).block_stack@, block_type),
            decreases self.tokens@.len() - self.pos,
        {
            let token = match self.peek_token() {
                Ok(t) => t,
                Err(e) => {
                    proof {
                        reveal(p_stmts_loop);
                    }
                    self.push_error(e);
                    return (statements, functions, coroutines);
                },
            };
            let at_end = match &token.kind {
                TokenKind::RBrace => block_type != BlockType::Global,
                TokenKind::EOF => true,
                _ => false,
            };
            if at_end {
                proof {
                    reveal(p_stmts_loop);
                }
                return (statements, functions, coroutines);
            }
            let doc_text: Option<String> = match &token.kind {
                TokenKind::DocComment(text) => Some(text.clone()),
                _ => None,
            };
            match doc_text {
                Some(text) => {
                    self.statements_doc(block_type, token, text, &mut statements, &functions, &coroutines, &mut doc);
                },
                None => {
                    let mut pending: Option<String> = None;
                    std::mem::swap(&mut pending, &mut doc);
                    if !self.statements_one(block_type, token, &mut statements, &mut functions, &mut coroutines, pending) {
                        return (statements, functions, coroutines);
                    }
                },
            }
        }
    }
}

/// 構文解析を行う
///
/// Reads the tokens as a program: the functions and coroutines defined in
/// its global block, and the errors met, in the order met.
pub fn parse(tokens: Vec<Token>) -> (r: (RootNode, Vec<ErrorContext>))
    ensures
        program_view(r.0) == spec_parse(tokens_view(tokens@)).0,
        perrs(r.1@) == spec_parse(tokens_view(tokens@)).1,
{
    let mut parser = Parser { tokens, pos: 0, block_stack: Vec::new(), errors: Vec::new() };
    assert(perrs(parser.errors@) =~= seq![]);
    parser.block_stack.push(BlockType::Global);
    assert(parser.block_stack@ =~= seq![BlockType::Global]);
    let (_, functions, coroutines) = parser.parse_statements(BlockType::Global);
    (RootNode { functions, coroutines }, parser.errors)
}

} // verus!
