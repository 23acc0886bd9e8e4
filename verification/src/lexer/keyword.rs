//! The flat keyword list with its spellings.
use vstd::prelude::*;
use crate::text::owned;

verus! {

/// Keywords of the language, in one flat list.
#[derive(Debug, Clone, Copy, PartialEq, Eq, Structural)]
pub enum Keyword {
    If,
    Else,
    While,
    For,
    Match,
    Let,
    Function,
    Int,
    Float,
    Bool,
    String,
    Return,
}

impl Keyword {
    /// How the keyword is spelled in source text.
    pub open spec fn text(&self) -> Seq<char> {
        match self {
            Self::If => "if"@,
            Self::Else => "else"@,
            Self::While => "while"@,
            Self::For => "for"@,
            Self::Match => "match"@,
            Self::Let => "let"@,
            Self::Function => "function"@,
            Self::Int => "int"@,
            Self::Float => "float"@,
            Self::Bool => "bool"@,
            Self::String => "string"@,
            Self::Return => "return"@,
        }
    }

    pub fn to_string(&self) -> (r: String)
        ensures
            r@ == self.text(),
    {
        match self {
            Self::If => owned("if"),
            Self::Else => owned("else"),
            Self::While => owned("while"),
            Self::For => owned("for"),
            Self::Match => owned("match"),
            Self::Let => owned("let"),
            Self::Function => owned("function"),
            Self::Int => owned("int"),
            Self::Float => owned("float"),
            Self::Bool => owned("bool"),
            Self::String => owned("string"),
            Self::Return => owned("return"),
        }
    }
}

/// 真偽値のキーワード
#[derive(Debug, Clone, Copy, PartialEq, Eq, Structural)]
pub enum BoolKeyword {
    True,
    False,
}

} // verus!
