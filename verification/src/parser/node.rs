//! The syntax tree of a Green program.
use vstd::prelude::*;
use crate::common::operator::{Arithmetic, Comparison, Logical};
use crate::common::types::{BlockType, LiteralValue, Type};
use crate::text::owned;

verus! {

/// ルートのノード
#[derive(Debug, PartialEq)]
pub struct RootNode {
    pub functions: Vec<FunctionDefinitionNode>,
    pub coroutines: Vec<CoroutineDefinitionNode>,
}

/// 関数定義ノード（ルートノード直下）
#[derive(Debug, PartialEq)]
pub struct FunctionDefinitionNode {
    pub name: String,
    pub parameters: Vec<ParameterNode>,
    pub return_type: Option<Type>,
    pub block: BlockNode,
    pub doc: Option<String>,
}

/// コルーチン定義ノード（ルートノード直下）
#[derive(Debug, PartialEq)]
pub struct CoroutineDefinitionNode {
    pub name: String,
    pub block: BlockNode,
    pub doc: Option<String>,
}

/// 関数のパラメータ定義ノード
#[derive(Debug, PartialEq)]
pub struct ParameterNode {
    pub name: String,
    pub variable_type: Type,
}

/// 関数、コルーチン、ループ、条件分岐のブロックノード
#[derive(Debug, PartialEq)]
pub struct BlockNode {
    pub block_type: BlockType,
    pub statements: Vec<PrivateNode>,
}

/// 関数内のノード
#[allow(inconsistent_fields)]
#[derive(Debug, PartialEq)]
pub enum PrivateNode {
    /// 関数呼び出し
    FunctionCall { name: String, arguments: Vec<PrivateNode>, return_flg: bool },
    /// コルーチンのインスタンス化
    CoroutineInstantiation { task_name: String, coroutine_name: String },
    /// コルーチンの再開
    CoroutineResume { task_name: String },
    Yield,
    /// 変数宣言
    VariableDeclaration {
        name: String,
        variable_type: Type,
        initializer: Option<Box<PrivateNode>>,
        doc: Option<String>,
    },
    /// 変数代入
    VariableAssignment { name: String, expression: Box<PrivateNode> },
    /// 変数呼び出し
    Variable { name: String },
    /// If文
    IfStatement {
        condition_node: Box<PrivateNode>,
        then_block: BlockNode,
        else_block: Option<BlockNode>,
    },
    /// ループ文
    LoopStatement { condition_node: Box<PrivateNode>, block: BlockNode },
    /// return文
    ReturnStatement { assignalbe: Box<PrivateNode> },
    ProcessComment { comment: String },
    Break,
    Continue,
    Error,
    /// 論理演算
    Logical { operator: Logical, left: Box<PrivateNode>, right: Option<Box<PrivateNode>> },
    /// 比較演算
    Compare { operator: Comparison, left: Box<PrivateNode>, right: Box<PrivateNode> },
    /// 算術演算
    Arithmetic { operator: Arithmetic, left: Box<PrivateNode>, right: Option<Box<PrivateNode>> },
    /// リテラル値
    Literal { value: LiteralValue },
}

/// The model of a literal value.
pub enum Lit {
    Float(Seq<char>),
    Int(i32),
    Bool(bool),
    String(Seq<char>),
    Null,
}

impl View for LiteralValue {
    type V = Lit;

    open spec fn view(&self) -> Lit {
        match self {
            LiteralValue::Float(s) => Lit::Float(s@),
            LiteralValue::Int(i) => Lit::Int(*i),
            LiteralValue::Bool(b) => Lit::Bool(*b),
            LiteralValue::String(s) => Lit::String(s@),
            LiteralValue::Null => Lit::Null,
        }
    }
}

impl Lit {
    /// The type of a literal, `None` for `Null`.
    pub open spec fn type_of(self) -> Option<Type> {
        match self {
            Lit::Float(_) => Some(Type::Float),
            Lit::Int(_) => Some(Type::Int),
            Lit::Bool(_) => Some(Type::Bool),
            Lit::String(_) => Some(Type::String),
            Lit::Null => None,
        }
    }
}

/// The model of a statement or expression: the same tree, with texts as
/// sequences of characters and lists as sequences.
#[allow(inconsistent_fields)]
pub enum Stmt {
    FunctionCall { name: Seq<char>, arguments: Seq<Stmt>, return_flg: bool },
    CoroutineInstantiation { task_name: Seq<char>, coroutine_name: Seq<char> },
    CoroutineResume { task_name: Seq<char> },
    Yield,
    VariableDeclaration {
        name: Seq<char>,
        variable_type: Type,
        initializer: Option<Box<Stmt>>,
        doc: Option<Seq<char>>,
    },
    VariableAssignment { name: Seq<char>, expression: Box<Stmt> },
    Variable { name: Seq<char> },
    IfStatement { condition_node: Box<Stmt>, then_block: Block, else_block: Option<Block> },
    LoopStatement { condition_node: Box<Stmt>, block: Block },
    ReturnStatement { assignalbe: Box<Stmt> },
    ProcessComment { comment: Seq<char> },
    Break,
    Continue,
    Error,
    Logical { operator: Logical, left: Box<Stmt>, right: Option<Box<Stmt>> },
    Compare { operator: Comparison, left: Box<Stmt>, right: Box<Stmt> },
    Arithmetic { operator: Arithmetic, left: Box<Stmt>, right: Option<Box<Stmt>> },
    Literal { value: Lit },
}

/// The model of a block.
pub struct Block {
    pub block_type: BlockType,
    pub statements: Seq<Stmt>,
}

/// The model of an optional text.
pub open spec fn opt_text(o: Option<String>) -> Option<Seq<char>> {
    match o {
        Some(s) => Some(s@),
        None => None,
    }
}

/// The model of a node.
pub open spec fn node_view(n: PrivateNode) -> Stmt
    decreases n,
{
    match n {
        PrivateNode::FunctionCall { name, arguments, return_flg } => {
            proof {
                assert(decreases_to!(arguments => arguments@));
            }
            Stmt::FunctionCall { name: name@, arguments: nodes_view(arguments@), return_flg }
        },
        PrivateNode::CoroutineInstantiation { task_name, coroutine_name } => {
            Stmt::CoroutineInstantiation { task_name: task_name@, coroutine_name: coroutine_name@ }
        },
        PrivateNode::CoroutineResume { task_name } => Stmt::CoroutineResume { task_name: task_name@ },
        PrivateNode::Yield => Stmt::Yield,
        PrivateNode::VariableDeclaration { name, variable_type, initializer, doc } => {
            Stmt::VariableDeclaration {
                name: name@,
                variable_type,
                initializer: match initializer {
                    Some(b) => Some(Box::new(node_view(*b))),
                    None => None,
                },
                doc: opt_text(doc),
            }
        },
        PrivateNode::VariableAssignment { name, expression } => {
            Stmt::VariableAssignment { name: name@, expression: Box::new(node_view(*expression)) }
        },
        PrivateNode::Variable { name } => Stmt::Variable { name: name@ },
        PrivateNode::IfStatement { condition_node, then_block, else_block } => {
            Stmt::IfStatement {
                condition_node: Box::new(node_view(*condition_node)),
                then_block: block_view(then_block),
                else_block: match else_block {
                    Some(b) => Some(block_view(b)),
                    None => None,
                },
            }
        },
        PrivateNode::LoopStatement { condition_node, block } => {
            Stmt::LoopStatement {
                condition_node: Box::new(node_view(*condition_node)),
                block: block_view(block),
            }
        },
        PrivateNode::ReturnStatement { assignalbe } => {
            Stmt::ReturnStatement { assignalbe: Box::new(node_view(*assignalbe)) }
        },
        PrivateNode::ProcessComment { comment } => Stmt::ProcessComment { comment: comment@ },
        PrivateNode::Break => Stmt::Break,
        PrivateNode::Continue => Stmt::Continue,
        PrivateNode::Error => Stmt::Error,
        PrivateNode::Logical { operator, left, right } => {
            Stmt::Logical {
                operator,
                left: Box::new(node_view(*left)),
                right: match right {
                    Some(b) => Some(Box::new(node_view(*b))),
                    None => None,
                },
            }
        },
        PrivateNode::Compare { operator, left, right } => {
            Stmt::Compare {
                operator,
                left: Box::new(node_view(*left)),
                right: Box::new(node_view(*right)),
            }
        },
        PrivateNode::Arithmetic { operator, left, right } => {
            Stmt::Arithmetic {
                operator,
                left: Box::new(node_view(*left)),
                right: match right {
                    Some(b) => Some(Box::new(node_view(*b))),
                    None => None,
                },
            }
        },
        PrivateNode::Literal { value } => Stmt::Literal { value: value@ },
    }
}

/// The models of a list of nodes.
pub open spec fn nodes_view(s: Seq<PrivateNode>) -> Seq<Stmt>
    decreases s,
{
    if s.len() == 0 {
        Seq::empty()
    } else {
        seq![node_view(s[0])] + nodes_view(s.subrange(1, s.len() as int))
    }
}

/// The model of a block.
pub open spec fn block_view(b: BlockNode) -> Block
    decreases b,
{
    proof {
        assert(decreases_to!(b.statements => b.statements@));
    }
    Block { block_type: b.block_type, statements: nodes_view(b.statements@) }
}

/// The models of a list of nodes are the models of its nodes.
pub proof fn lemma_nodes_view(s: Seq<PrivateNode>)
    ensures
        nodes_view(s).len() == s.len(),
        forall|i: int| 0 <= i < s.len() ==> #[trigger] nodes_view(s)[i] == node_view(s[i]),
    decreases s.len(),
{
    if s.len() > 0 {
        lemma_nodes_view(s.subrange(1, s.len() as int));
        assert forall|i: int| 0 <= i < s.len() implies #[trigger] nodes_view(s)[i] == node_view(s[i]) by {
            if i > 0 {
                assert(s.subrange(1, s.len() as int)[i - 1] == s[i]);
            }
        }
    }
}

/// Two lists of nodes with the same node models have the same model.
pub proof fn lemma_nodes_view_ext(a: Seq<PrivateNode>, b: Seq<PrivateNode>)
    requires
        a.len() == b.len(),
        forall|i: int| 0 <= i < a.len() ==> node_view(#[trigger] a[i]) == node_view(b[i]),
    ensures
        nodes_view(a) == nodes_view(b),
{
    lemma_nodes_view(a);
    lemma_nodes_view(b);
    assert(nodes_view(a) =~= nodes_view(b));
}

fn copy_text(s: &String) -> (r: String)
    ensures
        r@ == s@,
{
    owned(s.as_str())
}

fn copy_opt_text(s: &Option<String>) -> (r: Option<String>)
    ensures
        opt_text(r) == opt_text(*s),
{
    match s {
        Some(t) => Some(copy_text(t)),
        None => None,
    }
}

/// A copy of a literal value.
pub fn copy_literal(v: &LiteralValue) -> (r: LiteralValue)
    ensures
        r@ == v@,
{
    match v {
        LiteralValue::Float(s) => LiteralValue::Float(copy_text(s)),
        LiteralValue::Int(i) => LiteralValue::Int(*i),
        LiteralValue::Bool(b) => LiteralValue::Bool(*b),
        LiteralValue::String(s) => LiteralValue::String(copy_text(s)),
        LiteralValue::Null => LiteralValue::Null,
    }
}

/// A copy of a node.
pub fn copy_node(n: &PrivateNode) -> (r: PrivateNode)
    ensures
        r@ == n@,
    decreases n,
{
    match n {
        PrivateNode::FunctionCall { name, arguments, return_flg } => {
            let args = copy_nodes(arguments);
            PrivateNode::FunctionCall { name: copy_text(name), arguments: args, return_flg: *return_flg }
        },
        PrivateNode::CoroutineInstantiation { task_name, coroutine_name } => {
            PrivateNode::CoroutineInstantiation {
                task_name: copy_text(task_name),
                coroutine_name: copy_text(coroutine_name),
            }
        },
        PrivateNode::CoroutineResume { task_name } => PrivateNode::CoroutineResume {
            task_name: copy_text(task_name),
        },
        PrivateNode::Yield => PrivateNode::Yield,
        PrivateNode::VariableDeclaration { name, variable_type, initializer, doc } => {
            let init = match initializer {
                Some(b) => Some(Box::new(copy_node(b))),
                None => None,
            };
            PrivateNode::VariableDeclaration {
                name: copy_text(name),
                variable_type: *variable_type,
                initializer: init,
                doc: copy_opt_text(doc),
            }
        },
        PrivateNode::VariableAssignment { name, expression } => PrivateNode::VariableAssignment {
            name: copy_text(name),
            expression: Box::new(copy_node(expression)),
        },
        PrivateNode::Variable { name } => PrivateNode::Variable { name: copy_text(name) },
        PrivateNode::IfStatement { condition_node, then_block, else_block } => {
            let e = match else_block {
                Some(b) => Some(copy_block(b)),
                None => None,
            };
            PrivateNode::IfStatement {
                condition_node: Box::new(copy_node(condition_node)),
                then_block: copy_block(then_block),
                else_block: e,
            }
        },
        PrivateNode::LoopStatement { condition_node, block } => PrivateNode::LoopStatement {
            condition_node: Box::new(copy_node(condition_node)),
            block: copy_block(block),
        },
        PrivateNode::ReturnStatement { assignalbe } => PrivateNode::ReturnStatement {
            assignalbe: Box::new(copy_node(assignalbe)),
        },
        PrivateNode::ProcessComment { comment } => PrivateNode::ProcessComment {
            comment: copy_text(comment),
        },
        PrivateNode::Break => PrivateNode::Break,
        PrivateNode::Continue => PrivateNode::Continue,
        PrivateNode::Error => PrivateNode::Error,
        PrivateNode::Logical { operator, left, right } => {
            let r = match right {
                Some(b) => Some(Box::new(copy_node(b))),
                None => None,
            };
            PrivateNode::Logical { operator: *operator, left: Box::new(copy_node(left)), right: r }
        },
        PrivateNode::Compare { operator, left, right } => PrivateNode::Compare {
            operator: *operator,
            left: Box::new(copy_node(left)),
            right: Box::new(copy_node(right)),
        },
        PrivateNode::Arithmetic { operator, left, right } => {
            let r = match right {
                Some(b) => Some(Box::new(copy_node(b))),
                None => None,
            };
            PrivateNode::Arithmetic { operator: *operator, left: Box::new(copy_node(left)), right: r }
        },
        PrivateNode::Literal { value } => PrivateNode::Literal { value: copy_literal(value) },
    }
}

/// A copy of a list of nodes.
pub fn copy_nodes(v: &Vec<PrivateNode>) -> (r: Vec<PrivateNode>)
    ensures
        nodes_view(r@) == nodes_view(v@),
        r@.len() == v@.len(),
    decreases v,
{
    let mut out: Vec<PrivateNode> = Vec::new();
    let mut i: usize = 0;
    while i < v.len()
        invariant
            i <= v.len(),
            out@.len() == i,
            forall|j: int| 0 <= j < i ==> node_view(#[trigger] out@[j]) == node_view(v@[j]),
        decreases v.len() - i,
    {
        proof {
            assert(decreases_to!(v => v[i as int]));
        }
        let c = copy_node(&v[i]);
        out.push(c);
        i = i + 1;
    }
    proof {
        lemma_nodes_view_ext(out@, v@);
    }
    out
}

/// A copy of a block.
pub fn copy_block(b: &BlockNode) -> (r: BlockNode)
    ensures
        r@ == b@,
    decreases b,
{
    BlockNode { block_type: b.block_type, statements: copy_nodes(&b.statements) }
}

impl View for PrivateNode {
    type V = Stmt;

    open spec fn view(&self) -> Stmt {
        node_view(*self)
    }
}

impl View for BlockNode {
    type V = Block;

    open spec fn view(&self) -> Block {
        block_view(*self)
    }
}

} // verus!
