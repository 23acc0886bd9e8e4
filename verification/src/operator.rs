//! Operators of the first parser, with unary and binary arithmetic apart.
use vstd::prelude::*;

verus! {

#[derive(Debug, Clone, Copy, PartialEq, Eq, Structural)]
pub enum Logical {
    Unary(UnaryLogical),
    Binary(BinaryLogical),
}

#[derive(Debug, Clone, Copy, PartialEq, Eq, Structural)]
pub enum UnaryLogical {
    Not,
}

#[derive(Debug, Clone, Copy, PartialEq, Eq, Structural)]
pub enum BinaryLogical {
    Or,
    And,
    Xor,
}

#[derive(Debug, Clone, Copy, PartialEq, Eq, Structural)]
pub enum Arithmetic {
    Unary(UnaryArithmetic),
    Binary(BinaryArithmetic),
}

#[derive(Debug, Clone, Copy, PartialEq, Eq, Structural)]
pub enum UnaryArithmetic {
    /// 正号
    Plus,
    /// 負号
    Minus,
}

#[derive(Debug, Clone, Copy, PartialEq, Eq, Structural)]
pub enum BinaryArithmetic {
    Add,
    Subtract,
    Multiply,
    Divide,
}

#[derive(Debug, Clone, Copy, PartialEq, Eq, Structural)]
pub enum Comparison {
    /// ==
    Equal,
    /// !=
    NotEqual,
    /// >
    Greater,
    /// <
    Less,
    /// >=
    GreaterEqual,
    /// <=
    LessEqual,
}

impl Logical {
    pub open spec fn text(&self) -> Seq<char> {
        match self {
            Self::Binary(BinaryLogical::And) => "and"@,
            Self::Binary(BinaryLogical::Or) => "or"@,
            Self::Binary(BinaryLogical::Xor) => "xor"@,
            Self::Unary(UnaryLogical::Not) => "not"@,
        }
    }

    pub fn as_str(&self) -> (r: &str)
        ensures
            r@ == self.text(),
    {
        match self {
            Self::Binary(binary_logical) => match binary_logical {
                BinaryLogical::And => "and",
                BinaryLogical::Or => "or",
                BinaryLogical::Xor => "xor",
            },
            Self::Unary(unary_logical) => match unary_logical {
                UnaryLogical::Not => "not",
            },
        }
    }
}

impl Arithmetic {
    pub open spec fn text(&self) -> Seq<char> {
        match self {
            Self::Binary(BinaryArithmetic::Add) => "+"@,
            Self::Binary(BinaryArithmetic::Subtract) => "-"@,
            Self::Binary(BinaryArithmetic::Multiply) => "*"@,
            Self::Binary(BinaryArithmetic::Divide) => "/"@,
            Self::Unary(UnaryArithmetic::Plus) => "+"@,
            Self::Unary(UnaryArithmetic::Minus) => "-"@,
        }
    }

    pub fn as_str(&self) -> (r: &str)
        ensures
            r@ == self.text(),
    {
        match self {
            Arithmetic::Binary(binary_arithmetic) => match binary_arithmetic {
                BinaryArithmetic::Add => "+",
                BinaryArithmetic::Subtract => "-",
                BinaryArithmetic::Multiply => "*",
                BinaryArithmetic::Divide => "/",
            },
            Arithmetic::Unary(unary_arithmetic) => match unary_arithmetic {
                UnaryArithmetic::Plus => "+",
                UnaryArithmetic::Minus => "-",
            },
        }
    }
}

impl Comparison {
    pub open spec fn text(&self) -> Seq<char> {
        match self {
            Self::Equal => "=="@,
            Self::NotEqual => "!="@,
            Self::Greater => ">"@,
            Self::Less => "<"@,
            Self::GreaterEqual => ">="@,
            Self::LessEqual => "<="@,
        }
    }

    pub fn as_str(&self) -> (r: &str)
        ensures
            r@ == self.text(),
    {
        match self {
            Self::Equal => "==",
            Self::NotEqual => "!=",
            Self::Greater => ">",
            Self::Less => "<",
            Self::GreaterEqual => ">=",
            Self::LessEqual => "<=",
        }
    }
}

} // verus!
