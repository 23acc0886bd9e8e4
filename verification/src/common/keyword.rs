//! Keywords of the Green language and their spellings.
use vstd::prelude::*;
use crate::text::{owned, str_eq};

verus! {

/// 制御構造 (条件分岐やループ) のキーワード
#[derive(Debug, Clone, Copy, PartialEq, Eq, Structural)]
pub enum ControlKeyword {
    If,
    Else,
    While,
    For,
    Match,
}

impl ControlKeyword {
    /// How the keyword is spelled in source text.
    pub open spec fn text(&self) -> Seq<char> {
        match self {
            Self::If => "if"@,
            Self::Else => "else"@,
            Self::While => "while"@,
            Self::For => "for"@,
            Self::Match => "match"@,
        }
    }

    /// The keyword spelled `t`, if any.
    pub open spec fn spec_from_str(t: Seq<char>) -> Option<Self> {
        if t == "if"@ {
            Some(Self::If)
        } else if t == "else"@ {
            Some(Self::Else)
        } else if t == "while"@ {
            Some(Self::While)
        } else if t == "for"@ {
            Some(Self::For)
        } else if t == "match"@ {
            Some(Self::Match)
        } else {
            None
        }
    }

    /// Reads the keyword spelled `str`.
    pub fn from_str(str: &str) -> (r: Option<Self>)
        ensures
            r == Self::spec_from_str(str@),
    {
        if str_eq(str, "if") {
            Some(Self::If)
        } else if str_eq(str, "else") {
            Some(Self::Else)
        } else if str_eq(str, "while") {
            Some(Self::While)
        } else if str_eq(str, "for") {
            Some(Self::For)
        } else if str_eq(str, "match") {
            Some(Self::Match)
        } else {
            None
        }
    }

    /// The spelling of the keyword.
    pub fn to_string(&self) -> (r: String)
        ensures
            r@ == self.text(),
    {
        match self {
            Self::If => owned("if"),
            Self::Else => owned("else"),
            Self::While => owned("while"),
            Self::For => owned("for"),
            Self::Match => owned("match"),
        }
    }

    /// Reading the spelling of a keyword gives the keyword back, and a
    /// spelling that is read as a keyword is that keyword's spelling.
    pub proof fn lemma_spelling_round_trip(k: Self, t: Seq<char>)
        ensures
            Self::spec_from_str(k.text()) == Some(k),
            Self::spec_from_str(t) == Some(k) ==> k.text() == t,
    {
        reveal_strlit("if");
        assert("if"@.len() == 2 && "if"@[0] == 'i');
        reveal_strlit("else");
        assert("else"@.len() == 4 && "else"@[0] == 'e');
        reveal_strlit("while");
        assert("while"@.len() == 5 && "while"@[0] == 'w');
        reveal_strlit("for");
        assert("for"@.len() == 3 && "for"@[0] == 'f');
        reveal_strlit("match");
        assert("match"@.len() == 5 && "match"@[0] == 'm');
    }
}

/// 変数・関数・コルーチンの宣言のキーワード
#[derive(Debug, Clone, Copy, PartialEq, Eq, Structural)]
pub enum DeclarationKeyword {
    Let,
    Function,
    Coroutine,
    Coro,
}

impl DeclarationKeyword {
    /// How the keyword is spelled in source text.
    pub open spec fn text(&self) -> Seq<char> {
        match self {
            Self::Let => "let"@,
            Self::Function => "function"@,
            Self::Coroutine => "coroutine"@,
            Self::Coro => "coro"@,
        }
    }

    /// The keyword spelled `t`, if any.
    pub open spec fn spec_from_str(t: Seq<char>) -> Option<Self> {
        if t == "let"@ {
            Some(Self::Let)
        } else if t == "function"@ {
            Some(Self::Function)
        } else if t == "coroutine"@ {
            Some(Self::Coroutine)
        } else if t == "coro"@ {
            Some(Self::Coro)
        } else {
            None
        }
    }

    /// Reads the keyword spelled `str`.
    pub fn from_str(str: &str) -> (r: Option<Self>)
        ensures
            r == Self::spec_from_str(str@),
    {
        if str_eq(str, "let") {
            Some(Self::Let)
        } else if str_eq(str, "function") {
            Some(Self::Function)
        } else if str_eq(str, "coroutine") {
            Some(Self::Coroutine)
        } else if str_eq(str, "coro") {
            Some(Self::Coro)
        } else {
            None
        }
    }

    /// The spelling of the keyword.
    pub fn to_string(&self) -> (r: String)
        ensures
            r@ == self.text(),
    {
        match self {
            Self::Let => owned("let"),
            Self::Function => owned("function"),
            Self::Coroutine => owned("coroutine"),
            Self::Coro => owned("coro"),
        }
    }

    /// Reading the spelling of a keyword gives the keyword back, and a
    /// spelling that is read as a keyword is that keyword's spelling.
    pub proof fn lemma_spelling_round_trip(k: Self, t: Seq<char>)
        ensures
            Self::spec_from_str(k.text()) == Some(k),
            Self::spec_from_str(t) == Some(k) ==> k.text() == t,
    {
        reveal_strlit("let");
        assert("let"@.len() == 3 && "let"@[0] == 'l');
        reveal_strlit("function");
        assert("function"@.len() == 8 && "function"@[0] == 'f');
        reveal_strlit("coroutine");
        assert("coroutine"@.len() == 9 && "coroutine"@[0] == 'c');
        reveal_strlit("coro");
        assert("coro"@.len() == 4 && "coro"@[0] == 'c');
    }
}

/// 型名のキーワード
#[derive(Debug, Clone, Copy, PartialEq, Eq, Structural)]
pub enum TypeName {
    Int,
    Float,
    Bool,
    String,
}

impl TypeName {
    /// How the keyword is spelled in source text.
    pub open spec fn text(&self) -> Seq<char> {
        match self {
            Self::Int => "int"@,
            Self::Float => "float"@,
            Self::Bool => "bool"@,
            Self::String => "string"@,
        }
    }

    /// The keyword spelled `t`, if any.
    pub open spec fn spec_from_str(t: Seq<char>) -> Option<Self> {
        if t == "int"@ {
            Some(Self::Int)
        } else if t == "float"@ {
            Some(Self::Float)
        } else if t == "bool"@ {
            Some(Self::Bool)
        } else if t == "string"@ {
            Some(Self::String)
        } else {
            None
        }
    }

    /// Reads the keyword spelled `str`.
    pub fn from_str(str: &str) -> (r: Option<Self>)
        ensures
            r == Self::spec_from_str(str@),
    {
        if str_eq(str, "int") {
            Some(Self::Int)
        } else if str_eq(str, "float") {
            Some(Self::Float)
        } else if str_eq(str, "bool") {
            Some(Self::Bool)
        } else if str_eq(str, "string") {
            Some(Self::String)
        } else {
            None
        }
    }

    /// The spelling of the keyword.
    pub fn to_string(&self) -> (r: String)
        ensures
            r@ == self.text(),
    {
        match self {
            Self::Int => owned("int"),
            Self::Float => owned("float"),
            Self::Bool => owned("bool"),
            Self::String => owned("string"),
        }
    }

    /// Reading the spelling of a keyword gives the keyword back, and a
    /// spelling that is read as a keyword is that keyword's spelling.
    pub proof fn lemma_spelling_round_trip(k: Self, t: Seq<char>)
        ensures
            Self::spec_from_str(k.text()) == Some(k),
            Self::spec_from_str(t) == Some(k) ==> k.text() == t,
    {
        reveal_strlit("int");
        assert("int"@.len() == 3 && "int"@[0] == 'i');
        reveal_strlit("float");
        assert("float"@.len() == 5 && "float"@[0] == 'f');
        reveal_strlit("bool");
        assert("bool"@.len() == 4 && "bool"@[0] == 'b');
        reveal_strlit("string");
        assert("string"@.len() == 6 && "string"@[0] == 's');
    }
}

/// ループ内でのみ使えるキーワード
#[derive(Debug, Clone, Copy, PartialEq, Eq, Structural)]
pub enum LoopControl {
    Break,
    Continue,
}

impl LoopControl {
    /// How the keyword is spelled in source text.
    pub open spec fn text(&self) -> Seq<char> {
        match self {
            Self::Break => "break"@,
            Self::Continue => "continue"@,
        }
    }

    /// The keyword spelled `t`, if any.
    pub open spec fn spec_from_str(t: Seq<char>) -> Option<Self> {
        if t == "break"@ {
            Some(Self::Break)
        } else if t == "continue"@ {
            Some(Self::Continue)
        } else {
            None
        }
    }

    /// Reads the keyword spelled `str`.
    pub fn from_str(str: &str) -> (r: Option<Self>)
        ensures
            r == Self::spec_from_str(str@),
    {
        if str_eq(str, "break") {
            Some(Self::Break)
        } else if str_eq(str, "continue") {
            Some(Self::Continue)
        } else {
            None
        }
    }

    /// The spelling of the keyword.
    pub fn to_string(&self) -> (r: String)
        ensures
            r@ == self.text(),
    {
        match self {
            Self::Break => owned("break"),
            Self::Continue => owned("continue"),
        }
    }

    /// Reading the spelling of a keyword gives the keyword back, and a
    /// spelling that is read as a keyword is that keyword's spelling.
    pub proof fn lemma_spelling_round_trip(k: Self, t: Seq<char>)
        ensures
            Self::spec_from_str(k.text()) == Some(k),
            Self::spec_from_str(t) == Some(k) ==> k.text() == t,
    {
        reveal_strlit("break");
        assert("break"@.len() == 5 && "break"@[0] == 'b');
        reveal_strlit("continue");
        assert("continue"@.len() == 8 && "continue"@[0] == 'c');
    }
}

/// 関数内で使うキーワード
#[derive(Debug, Clone, Copy, PartialEq, Eq, Structural)]
pub enum FunctionControl {
    Return,
}

impl FunctionControl {
    /// How the keyword is spelled in source text.
    pub open spec fn text(&self) -> Seq<char> {
        match self {
            Self::Return => "return"@,
        }
    }

    /// The keyword spelled `t`, if any.
    pub open spec fn spec_from_str(t: Seq<char>) -> Option<Self> {
        if t == "return"@ {
            Some(Self::Return)
        } else {
            None
        }
    }

    /// Reads the keyword spelled `str`.
    pub fn from_str(str: &str) -> (r: Option<Self>)
        ensures
            r == Self::spec_from_str(str@),
    {
        if str_eq(str, "return") {
            Some(Self::Return)
        } else {
            None
        }
    }

    /// The spelling of the keyword.
    pub fn to_string(&self) -> (r: String)
        ensures
            r@ == self.text(),
    {
        match self {
            Self::Return => owned("return"),
        }
    }

    /// Reading the spelling of a keyword gives the keyword back, and a
    /// spelling that is read as a keyword is that keyword's spelling.
    pub proof fn lemma_spelling_round_trip(k: Self, t: Seq<char>)
        ensures
            Self::spec_from_str(k.text()) == Some(k),
            Self::spec_from_str(t) == Some(k) ==> k.text() == t,
    {
        reveal_strlit("return");
        assert("return"@.len() == 6 && "return"@[0] == 'r');
    }
}

/// コルーチンの制御のキーワード
#[derive(Debug, Clone, Copy, PartialEq, Eq, Structural)]
pub enum CoroutineControl {
    Resume,
    Yield,
}

impl CoroutineControl {
    /// How the keyword is spelled in source text.
    pub open spec fn text(&self) -> Seq<char> {
        match self {
            Self::Resume => "resume"@,
            Self::Yield => "yield"@,
        }
    }

    /// The keyword spelled `t`, if any.
    pub open spec fn spec_from_str(t: Seq<char>) -> Option<Self> {
        if t == "resume"@ {
            Some(Self::Resume)
        } else if t == "yield"@ {
            Some(Self::Yield)
        } else {
            None
        }
    }

    /// Reads the keyword spelled `str`.
    pub fn from_str(str: &str) -> (r: Option<Self>)
        ensures
            r == Self::spec_from_str(str@),
    {
        if str_eq(str, "resume") {
            Some(Self::Resume)
        } else if str_eq(str, "yield") {
            Some(Self::Yield)
        } else {
            None
        }
    }

    /// The spelling of the keyword.
    pub fn to_string(&self) -> (r: String)
        ensures
            r@ == self.text(),
    {
        match self {
            Self::Resume => owned("resume"),
            Self::Yield => owned("yield"),
        }
    }

    /// Reading the spelling of a keyword gives the keyword back, and a
    /// spelling that is read as a keyword is that keyword's spelling.
    pub proof fn lemma_spelling_round_trip(k: Self, t: Seq<char>)
        ensures
            Self::spec_from_str(k.text()) == Some(k),
            Self::spec_from_str(t) == Some(k) ==> k.text() == t,
    {
        reveal_strlit("resume");
        assert("resume"@.len() == 6 && "resume"@[0] == 'r');
        reveal_strlit("yield");
        assert("yield"@.len() == 5 && "yield"@[0] == 'y');
    }
}

/// 真偽値のキーワード
#[derive(Debug, Clone, Copy, PartialEq, Eq, Structural)]
pub enum BoolKeyword {
    True,
    False,
}

impl BoolKeyword {
    /// How the keyword is spelled in source text.
    pub open spec fn text(&self) -> Seq<char> {
        match self {
            Self::True => "true"@,
            Self::False => "false"@,
        }
    }

    /// The keyword spelled `t`, if any.
    pub open spec fn spec_from_str(t: Seq<char>) -> Option<Self> {
        if t == "true"@ {
            Some(Self::True)
        } else if t == "false"@ {
            Some(Self::False)
        } else {
            None
        }
    }

    /// Reads the keyword spelled `str`.
    pub fn from_str(str: &str) -> (r: Option<Self>)
        ensures
            r == Self::spec_from_str(str@),
    {
        if str_eq(str, "true") {
            Some(Self::True)
        } else if str_eq(str, "false") {
            Some(Self::False)
        } else {
            None
        }
    }

    /// The spelling of the keyword.
    pub fn to_string(&self) -> (r: String)
        ensures
            r@ == self.text(),
    {
        match self {
            Self::True => owned("true"),
            Self::False => owned("false"),
        }
    }

    /// Reading the spelling of a keyword gives the keyword back, and a
    /// spelling that is read as a keyword is that keyword's spelling.
    pub proof fn lemma_spelling_round_trip(k: Self, t: Seq<char>)
        ensures
            Self::spec_from_str(k.text()) == Some(k),
            Self::spec_from_str(t) == Some(k) ==> k.text() == t,
    {
        reveal_strlit("true");
        assert("true"@.len() == 4 && "true"@[0] == 't');
        reveal_strlit("false");
        assert("false"@.len() == 5 && "false"@[0] == 'f');
    }
}

} // verus!
