//! The flat keyword list of the first lexer.
use vstd::prelude::*;

verus! {

/// Keywords of the language, in one flat list.
#[derive(Debug, Clone, Copy, PartialEq, Eq, Structural)]
pub enum Keyword {
    If,
    Else,
    While,
    For,
    Match,
    Let,
    Function,
    Int,
    Float,
    Bool,
    String,
    Return,
}

/// 真偽値のキーワード
#[derive(Debug, Clone, Copy, PartialEq, Eq, Structural)]
pub enum BoolKeyword {
    True,
    False,
}

} // verus!
