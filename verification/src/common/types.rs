//! Types and values of the Green language.
use vstd::prelude::*;
use crate::text::{concat, decimal, decimal_string, owned};
use crate::common::keyword::TypeName;

verus! {

/// Green言語の型
#[derive(Debug, Clone, Copy, PartialEq, Eq, Structural)]
pub enum Type {
    Float,
    Int,
    Bool,
    String,
}

impl Type {
    /// The name of the type as the language writes it.
    pub open spec fn text(&self) -> Seq<char> {
        match self {
            Self::Int => "int"@,
            Self::Float => "float"@,
            Self::Bool => "bool"@,
            Self::String => "string"@,
        }
    }

    pub fn to_string(&self) -> (r: String)
        ensures
            r@ == self.text(),
    {
        match self {
            Self::Int => owned("int"),
            Self::Float => owned("float"),
            Self::Bool => owned("bool"),
            Self::String => owned("string"),
        }
    }

    /// The type that a type keyword names.
    pub open spec fn spec_from_type_name(name: TypeName) -> Type {
        match name {
            TypeName::Int => Type::Int,
            TypeName::Float => Type::Float,
            TypeName::Bool => Type::Bool,
            TypeName::String => Type::String,
        }
    }

    /// The type that a type keyword names.
    pub fn from_type_name(name: TypeName) -> (r: Type)
        ensures
            r == Self::spec_from_type_name(name),
            r.text() == name.text(),
    {
        match name {
            TypeName::Int => Type::Int,
            TypeName::Float => Type::Float,
            TypeName::Bool => Type::Bool,
            TypeName::String => Type::String,
        }
    }
}

/// リテラル値
///
/// A floating-point literal is held as the decimal text it was written with
/// (`"12.5"`); what it denotes as a number is left to the code that computes
/// with it.
#[derive(Debug, Clone, PartialEq)]
pub enum LiteralValue {
    Float(String),
    Int(i32),
    Bool(bool),
    String(String),
    Null,
}

impl LiteralValue {
    /// The type of a literal value, `None` for `Null`.
    pub open spec fn type_of(&self) -> Option<Type> {
        match self {
            Self::Float(_) => Some(Type::Float),
            Self::Int(_) => Some(Type::Int),
            Self::Bool(_) => Some(Type::Bool),
            Self::String(_) => Some(Type::String),
            Self::Null => None,
        }
    }
}

/// How an integer is written: its decimal digits, after a `-` where it is
/// negative.
pub open spec fn int_text(i: int) -> Seq<char> {
    if i < 0 {
        "-"@ + decimal((-i) as nat)
    } else {
        decimal(i as nat)
    }
}

impl LiteralValue {
    /// How the value is shown: an integer in decimal, a floating-point
    /// number as its text, a string as itself, `true`, `false` or `Null`.
    pub open spec fn text(&self) -> Seq<char> {
        match self {
            Self::Int(i) => int_text(*i as int),
            Self::Float(f) => f@,
            Self::String(s) => s@,
            Self::Bool(b) => if *b {
                "true"@
            } else {
                "false"@
            },
            Self::Null => "Null"@,
        }
    }

    pub fn to_string(&self) -> (r: String)
        ensures
            r@ == self.text(),
    {
        match self {
            Self::Int(i) => {
                if *i < 0 {
                    let magnitude = (0 - (*i as i64)) as u64;
                    let digits = decimal_string(magnitude);
                    concat("-", digits.as_str())
                } else {
                    decimal_string(*i as u64)
                }
            },
            Self::Float(f) => f.clone(),
            Self::String(s) => s.clone(),
            Self::Bool(b) => if *b {
                owned("true")
            } else {
                owned("false")
            },
            Self::Null => owned("Null"),
        }
    }
}

/// Green言語の値
#[derive(Debug, Clone, PartialEq)]
pub struct GreenValue {
    pub value_type: Type,
    pub value: LiteralValue,
}

impl GreenValue {
    pub fn new(value_type: Type, value: LiteralValue) -> (r: Self)
        ensures
            r == (Self { value_type, value }),
    {
        Self { value_type, value }
    }
}

/// ブロックの種類
#[derive(Debug, Clone, Copy, PartialEq, Eq, Structural)]
pub enum BlockType {
    /// 関数ブロック
    Function,
    /// 条件分岐ブロック
    Conditional,
    /// ループブロック
    Loop,
    /// グローバルブロック
    Global,
    /// コルーチンブロック
    Coroutine,
}

impl BlockType {
    /// The name of the block kind.
    pub open spec fn text(&self) -> Seq<char> {
        match self {
            Self::Conditional => "Conditional"@,
            Self::Function => "Function"@,
            Self::Global => "Global"@,
            Self::Loop => "Loop"@,
            Self::Coroutine => "Coroutine"@,
        }
    }

    pub fn to_string(&self) -> (r: String)
        ensures
            r@ == self.text(),
    {
        match self {
            Self::Conditional => owned("Conditional"),
            Self::Function => owned("Function"),
            Self::Global => owned("Global"),
            Self::Loop => owned("Loop"),
            Self::Coroutine => owned("Coroutine"),
        }
    }
}

} // verus!
