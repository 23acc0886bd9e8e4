//! Operators of the Green language and how they are written.
use vstd::prelude::*;
use crate::text::{owned, str_eq};

verus! {

/// 論理演算
#[derive(Debug, Clone, Copy, PartialEq, Eq, Structural)]
pub enum Logical {
    Unary(UnaryLogical),
    Binary(BinaryLogical),
}

/// 単項論理演算
#[derive(Debug, Clone, Copy, PartialEq, Eq, Structural)]
pub enum UnaryLogical {
    Not,
}

/// 二項論理演算
#[derive(Debug, Clone, Copy, PartialEq, Eq, Structural)]
pub enum BinaryLogical {
    Or,
    And,
    Xor,
}

impl Logical {
    /// How the operator is written in source text.
    pub open spec fn text(&self) -> Seq<char> {
        match self {
            Self::Binary(BinaryLogical::And) => "and"@,
            Self::Binary(BinaryLogical::Or) => "or"@,
            Self::Binary(BinaryLogical::Xor) => "xor"@,
            Self::Unary(UnaryLogical::Not) => "not"@,
        }
    }

    /// The operator written `t`, if any.
    pub open spec fn spec_from_str(t: Seq<char>) -> Option<Self> {
        if t == "and"@ {
            Some(Self::Binary(BinaryLogical::And))
        } else if t == "or"@ {
            Some(Self::Binary(BinaryLogical::Or))
        } else if t == "xor"@ {
            Some(Self::Binary(BinaryLogical::Xor))
        } else if t == "not"@ {
            Some(Self::Unary(UnaryLogical::Not))
        } else {
            None
        }
    }

    /// Reads the operator written `str`.
    pub fn from_str(str: &str) -> (r: Option<Self>)
        ensures
            r == Self::spec_from_str(str@),
    {
        if str_eq(str, "and") {
            Some(Self::Binary(BinaryLogical::And))
        } else if str_eq(str, "or") {
            Some(Self::Binary(BinaryLogical::Or))
        } else if str_eq(str, "xor") {
            Some(Self::Binary(BinaryLogical::Xor))
        } else if str_eq(str, "not") {
            Some(Self::Unary(UnaryLogical::Not))
        } else {
            None
        }
    }

    /// How the operator is written.
    pub fn to_string(&self) -> (r: String)
        ensures
            r@ == self.text(),
    {
        match self {
            Self::Binary(BinaryLogical::And) => owned("and"),
            Self::Binary(BinaryLogical::Or) => owned("or"),
            Self::Binary(BinaryLogical::Xor) => owned("xor"),
            Self::Unary(UnaryLogical::Not) => owned("not"),
        }
    }

    /// Reading how an operator is written gives the operator back, and a
    /// text that is read as an operator is how that operator is written.
    pub proof fn lemma_spelling_round_trip(k: Self, t: Seq<char>)
        ensures
            Self::spec_from_str(k.text()) == Some(k),
            Self::spec_from_str(t) == Some(k) ==> k.text() == t,
    {
        reveal_strlit("and");
        reveal_strlit("or");
        reveal_strlit("xor");
        reveal_strlit("not");
        assert("and"@.len() == 3 && "and"@[0] == 'a');
        assert("or"@.len() == 2);
        assert("xor"@.len() == 3 && "xor"@[0] == 'x');
        assert("not"@.len() == 3 && "not"@[0] == 'n');
    }
}


/// 四則演算
#[derive(Debug, Clone, Copy, PartialEq, Eq, Structural)]
pub enum Arithmetic {
    Plus,
    Minus,
    Multiply,
    Divide,
}

impl Arithmetic {
    /// How the operator is written in source text.
    pub open spec fn text(&self) -> Seq<char> {
        match self {
            Self::Plus => "+"@,
            Self::Minus => "-"@,
            Self::Multiply => "*"@,
            Self::Divide => "/"@,
        }
    }

    /// The operator written `t`, if any.
    pub open spec fn spec_from_str(t: Seq<char>) -> Option<Self> {
        if t == "+"@ {
            Some(Self::Plus)
        } else if t == "-"@ {
            Some(Self::Minus)
        } else if t == "*"@ {
            Some(Self::Multiply)
        } else if t == "/"@ {
            Some(Self::Divide)
        } else {
            None
        }
    }

    /// Reads the operator written `str`.
    pub fn from_str(str: &str) -> (r: Option<Self>)
        ensures
            r == Self::spec_from_str(str@),
    {
        if str_eq(str, "+") {
            Some(Self::Plus)
        } else if str_eq(str, "-") {
            Some(Self::Minus)
        } else if str_eq(str, "*") {
            Some(Self::Multiply)
        } else if str_eq(str, "/") {
            Some(Self::Divide)
        } else {
            None
        }
    }

    /// How the operator is written.
    pub fn to_string(&self) -> (r: String)
        ensures
            r@ == self.text(),
    {
        match self {
            Self::Plus => owned("+"),
            Self::Minus => owned("-"),
            Self::Multiply => owned("*"),
            Self::Divide => owned("/"),
        }
    }

    /// Reading how an operator is written gives the operator back, and a
    /// text that is read as an operator is how that operator is written.
    pub proof fn lemma_spelling_round_trip(k: Self, t: Seq<char>)
        ensures
            Self::spec_from_str(k.text()) == Some(k),
            Self::spec_from_str(t) == Some(k) ==> k.text() == t,
    {
        reveal_strlit("+");
        assert("+"@.len() == 1 && "+"@[0] == '+');
        reveal_strlit("-");
        assert("-"@.len() == 1 && "-"@[0] == '-');
        reveal_strlit("*");
        assert("*"@.len() == 1 && "*"@[0] == '*');
        reveal_strlit("/");
        assert("/"@.len() == 1 && "/"@[0] == '/');
    }
}

/// 比較演算
#[derive(Debug, Clone, Copy, PartialEq, Eq, Structural)]
pub enum Comparison {
    Equal,
    NotEqual,
    Greater,
    Less,
    GreaterEqual,
    LessEqual,
}

impl Comparison {
    /// How the operator is written in source text.
    pub open spec fn text(&self) -> Seq<char> {
        match self {
            Self::Equal => "=="@,
            Self::NotEqual => "!="@,
            Self::Greater => ">"@,
            Self::Less => "<"@,
            Self::GreaterEqual => ">="@,
            Self::LessEqual => "<="@,
        }
    }

    /// The operator written `t`, if any.
    pub open spec fn spec_from_str(t: Seq<char>) -> Option<Self> {
        if t == "=="@ {
            Some(Self::Equal)
        } else if t == "!="@ {
            Some(Self::NotEqual)
        } else if t == ">"@ {
            Some(Self::Greater)
        } else if t == "<"@ {
            Some(Self::Less)
        } else if t == ">="@ {
            Some(Self::GreaterEqual)
        } else if t == "<="@ {
            Some(Self::LessEqual)
        } else {
            None
        }
    }

    /// Reads the operator written `str`.
    pub fn from_str(str: &str) -> (r: Option<Self>)
        ensures
            r == Self::spec_from_str(str@),
    {
        if str_eq(str, "==") {
            Some(Self::Equal)
        } else if str_eq(str, "!=") {
            Some(Self::NotEqual)
        } else if str_eq(str, ">") {
            Some(Self::Greater)
        } else if str_eq(str, "<") {
            Some(Self::Less)
        } else if str_eq(str, ">=") {
            Some(Self::GreaterEqual)
        } else if str_eq(str, "<=") {
            Some(Self::LessEqual)
        } else {
            None
        }
    }

    /// How the operator is written.
    pub fn to_string(&self) -> (r: String)
        ensures
            r@ == self.text(),
    {
        match self {
            Self::Equal => owned("=="),
            Self::NotEqual => owned("!="),
            Self::Greater => owned(">"),
            Self::Less => owned("<"),
            Self::GreaterEqual => owned(">="),
            Self::LessEqual => owned("<="),
        }
    }

    /// Reading how an operator is written gives the operator back, and a
    /// text that is read as an operator is how that operator is written.
    pub proof fn lemma_spelling_round_trip(k: Self, t: Seq<char>)
        ensures
            Self::spec_from_str(k.text()) == Some(k),
            Self::spec_from_str(t) == Some(k) ==> k.text() == t,
    {
        reveal_strlit("==");
        assert("=="@.len() == 2 && "=="@[0] == '=' && "=="@[1] == '=');
        reveal_strlit("!=");
        assert("!="@.len() == 2 && "!="@[0] == '!' && "!="@[1] == '=');
        reveal_strlit(">");
        assert(">"@.len() == 1 && ">"@[0] == '>');
        reveal_strlit("<");
        assert("<"@.len() == 1 && "<"@[0] == '<');
        reveal_strlit(">=");
        assert(">="@.len() == 2 && ">="@[0] == '>' && ">="@[1] == '=');
        reveal_strlit("<=");
        assert("<="@.len() == 2 && "<="@[0] == '<' && "<="@[1] == '=');
    }
}

} // verus!
