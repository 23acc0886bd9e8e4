//! Tokens, and their mathematical model.
use vstd::prelude::*;
use crate::common::keyword::{BoolKeyword, ControlKeyword, CoroutineControl, DeclarationKeyword, FunctionControl, LoopControl, TypeName};
use crate::common::operator::{Arithmetic, Comparison, Logical};
use crate::text::owned;

verus! {

#[derive(Debug, Clone, PartialEq)]
pub enum TokenKind {
    // 識別子やリテラル
    Identifier(String),
    StringLiteral(String),
    NumberLiteral(String),
    BoolLiteral(BoolKeyword),
    // 演算子や記号
    ArithmeticOperator(Arithmetic),
    CompareOperator(Comparison),
    LogicalOperator(Logical),
    LParen,
    RParen,
    LBrace,
    RBrace,
    Equal,
    Colon,
    Semicolon,
    Comma,
    Dot,
    RArrow,
    // キーワード
    ControlKeyword(ControlKeyword),
    DeclarationKeyword(DeclarationKeyword),
    TypeName(TypeName),
    LoopControl(LoopControl),
    FunctionControl(FunctionControl),
    CoroutineControl(CoroutineControl),
    // 終端
    EOF,
    // その他
    DocComment(String),
    Comment,
}

/// The model of a token kind: the same kinds, with texts as sequences of
/// characters.
pub enum Lexeme {
    Identifier(Seq<char>),
    StringLiteral(Seq<char>),
    NumberLiteral(Seq<char>),
    BoolLiteral(BoolKeyword),
    ArithmeticOperator(Arithmetic),
    CompareOperator(Comparison),
    LogicalOperator(Logical),
    LParen,
    RParen,
    LBrace,
    RBrace,
    Equal,
    Colon,
    Semicolon,
    Comma,
    Dot,
    RArrow,
    ControlKeyword(ControlKeyword),
    DeclarationKeyword(DeclarationKeyword),
    TypeName(TypeName),
    LoopControl(LoopControl),
    FunctionControl(FunctionControl),
    CoroutineControl(CoroutineControl),
    EOF,
    DocComment(Seq<char>),
    Comment,
}

impl View for TokenKind {
    type V = Lexeme;

    open spec fn view(&self) -> Lexeme {
        match self {
            TokenKind::Identifier(s) => Lexeme::Identifier(s@),
            TokenKind::StringLiteral(s) => Lexeme::StringLiteral(s@),
            TokenKind::NumberLiteral(s) => Lexeme::NumberLiteral(s@),
            TokenKind::BoolLiteral(k) => Lexeme::BoolLiteral(*k),
            TokenKind::ArithmeticOperator(o) => Lexeme::ArithmeticOperator(*o),
            TokenKind::CompareOperator(o) => Lexeme::CompareOperator(*o),
            TokenKind::LogicalOperator(o) => Lexeme::LogicalOperator(*o),
            TokenKind::LParen => Lexeme::LParen,
            TokenKind::RParen => Lexeme::RParen,
            TokenKind::LBrace => Lexeme::LBrace,
            TokenKind::RBrace => Lexeme::RBrace,
            TokenKind::Equal => Lexeme::Equal,
            TokenKind::Colon => Lexeme::Colon,
            TokenKind::Semicolon => Lexeme::Semicolon,
            TokenKind::Comma => Lexeme::Comma,
            TokenKind::Dot => Lexeme::Dot,
            TokenKind::RArrow => Lexeme::RArrow,
            TokenKind::ControlKeyword(k) => Lexeme::ControlKeyword(*k),
            TokenKind::DeclarationKeyword(k) => Lexeme::DeclarationKeyword(*k),
            TokenKind::TypeName(k) => Lexeme::TypeName(*k),
            TokenKind::LoopControl(k) => Lexeme::LoopControl(*k),
            TokenKind::FunctionControl(k) => Lexeme::FunctionControl(*k),
            TokenKind::CoroutineControl(k) => Lexeme::CoroutineControl(*k),
            TokenKind::EOF => Lexeme::EOF,
            TokenKind::DocComment(s) => Lexeme::DocComment(s@),
            TokenKind::Comment => Lexeme::Comment,
        }
    }
}

impl Lexeme {
    /// How a token is shown in messages.
    pub open spec fn text(self) -> Seq<char> {
        match self {
            Lexeme::Identifier(s) => s,
            Lexeme::BoolLiteral(k) => k.text(),
            Lexeme::NumberLiteral(s) => s,
            Lexeme::StringLiteral(s) => s,
            Lexeme::ArithmeticOperator(o) => o.text(),
            Lexeme::CompareOperator(o) => o.text(),
            Lexeme::LogicalOperator(o) => o.text(),
            Lexeme::Colon => ":"@,
            Lexeme::Comma => ","@,
            Lexeme::LBrace => "{"@,
            Lexeme::LParen => "("@,
            Lexeme::Equal => "="@,
            Lexeme::RBrace => "}"@,
            Lexeme::RParen => ")"@,
            Lexeme::Semicolon => ";"@,
            Lexeme::Dot => "."@,
            Lexeme::RArrow => "->"@,
            Lexeme::ControlKeyword(k) => k.text(),
            Lexeme::TypeName(k) => k.text(),
            Lexeme::DeclarationKeyword(k) => k.text(),
            Lexeme::LoopControl(k) => k.text(),
            Lexeme::FunctionControl(k) => k.text(),
            Lexeme::CoroutineControl(k) => k.text(),
            Lexeme::EOF => "EOF"@,
            Lexeme::Comment => ""@,
            Lexeme::DocComment(_) => ""@,
        }
    }
}

#[derive(Debug, Clone)]
pub struct Token {
    pub kind: TokenKind,
    pub row: u32,
    pub col: u32,
}

/// The model of a token: its kind and where it stands.
pub struct TokenView {
    pub kind: Lexeme,
    pub row: int,
    pub col: int,
}

impl View for Token {
    type V = TokenView;

    open spec fn view(&self) -> TokenView {
        TokenView { kind: self.kind@, row: self.row as int, col: self.col as int }
    }
}

impl TokenKind {
    /// How a token is shown in messages.
    pub fn to_string(&self) -> (r: String)
        ensures
            r@ == self@.text(),
    {
        match self {
            Self::Identifier(string) => string.clone(),
            Self::BoolLiteral(operator) => operator.to_string(),
            Self::NumberLiteral(string) => string.clone(),
            Self::StringLiteral(string) => string.clone(),
            Self::ArithmeticOperator(operator) => operator.to_string(),
            Self::CompareOperator(operator) => operator.to_string(),
            Self::LogicalOperator(operator) => operator.to_string(),
            Self::Colon => owned(":"),
            Self::Comma => owned(","),
            Self::LBrace => owned("{"),
            Self::LParen => owned("("),
            Self::Equal => owned("="),
            Self::RBrace => owned("}"),
            Self::RParen => owned(")"),
            Self::Semicolon => owned(";"),
            Self::Dot => owned("."),
            Self::RArrow => owned("->"),
            Self::ControlKeyword(keyword) => keyword.to_string(),
            Self::TypeName(name) => name.to_string(),
            Self::DeclarationKeyword(keyword) => keyword.to_string(),
            Self::LoopControl(keyword) => keyword.to_string(),
            Self::FunctionControl(keyword) => keyword.to_string(),
            Self::CoroutineControl(keyword) => keyword.to_string(),
            Self::EOF => owned("EOF"),
            Self::Comment => owned(""),
            Self::DocComment(_) => owned(""),
        }
    }
}

} // verus!
