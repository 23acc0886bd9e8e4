//! The interpreter as a machine that runs a program step by step.
//!
//! Each call of `Machine::step` takes one step and says what the caller has
//! to do: nothing, print a line, compute a floating-point operation and hand
//! its result back, stop with a panic message, or take the end result. The
//! machine keeps the statement or expression in hand (`Control`) and a stack
//! of what remains to be done with its outcome (`Frame`); `spec_step` states
//! every step over the models of both.
use vstd::prelude::*;
use crate::analyzer::function_table::{FunctionModel, FunctionTable, params_view};
use crate::analyzer::semantic::{Semantic, debug_text, node_debug_text};
use crate::analyzer::task_table::{CoroutineTask, TaskModel, TaskStatus, TaskTable};
use crate::common::operator::{Arithmetic, BinaryLogical, Comparison, Logical};
use crate::common::types::{GreenValue, LiteralValue, Type};
use crate::error::error_code::ErrorCode;
use crate::error::error_context::ErrorContext;
use crate::interpreter::environment::{
    ChangeFailure, Environment, ScopeModel, env_change, env_get, law_change_then_get, law_set_then_get, scope_get,
    scope_set, value_view,
};
use crate::interpreter::execute::{
    EvalFlow, ResumeAction, binary_logical_operations, bind_arguments, binds, bind_scope, bound,
    compare_ints, compare_strings, compare_value, first_mismatch, int_arithmetic, int_negate, int_value,
    logical_value, paired, resume_action, typed_value,
};
use crate::parser::node::{
    Block, BlockNode, Lit, ParameterNode, PrivateNode, Stmt, copy_literal, copy_node, copy_nodes,
    lemma_nodes_view, nodes_view,
};
use crate::text::{concat, owned};

verus! {

// ---------------------------------------------------------------------------
// Models
// ---------------------------------------------------------------------------

/// How a statement ended, by model.
pub enum FlowM {
    Normal,
    Continue,
    Break,
    Return((Type, Lit)),
}

/// A floating-point operation the machine waits for: the normal form of a
/// literal's text, an arithmetic operation, a comparison, or a negation.
/// Its operands are integers or floating-point texts.
pub enum FloatOp {
    Literal(String),
    Arith(Arithmetic, LiteralValue, LiteralValue),
    Compare(Comparison, LiteralValue, LiteralValue),
    Negate(String),
}

pub enum FloatOpM {
    Literal(Seq<char>),
    Arith(Arithmetic, Lit, Lit),
    Compare(Comparison, Lit, Lit),
    Negate(Seq<char>),
}

/// What the machine has in hand.
pub enum Control {
    /// Nothing run yet: `main` is looked up first.
    Start,
    /// A statement to run.
    Stmt(PrivateNode),
    /// An expression to evaluate.
    Expr(PrivateNode),
    /// A value to compute for a variable, an argument, a condition or a
    /// `return`.
    Assignable(PrivateNode),
    /// The value of an expression.
    Value(LiteralValue),
    /// A typed value.
    Typed(GreenValue),
    /// What a call returned.
    Returned(Option<GreenValue>),
    /// How a statement ended.
    Flow(EvalFlow<GreenValue>),
    /// A floating-point operation whose result is awaited.
    AwaitFloat(FloatOp),
    /// The run is over.
    Stopped,
}

pub enum ControlM {
    Start,
    Stmt(Stmt),
    Expr(Stmt),
    Assignable(Stmt),
    Value(Lit),
    Typed((Type, Lit)),
    Returned(Option<(Type, Lit)>),
    Flow(FlowM),
    AwaitFloat(FloatOpM),
    Stopped,
}

/// What remains to be done with the outcome of what is in hand.
pub enum Frame {
    /// The statements of a block, from `next` on.
    Block { stmts: Vec<PrivateNode>, next: usize },
    /// The branches of an `if`, waiting for its condition.
    IfCond { cond: PrivateNode, then_block: BlockNode, else_block: Option<BlockNode> },
    /// A loop, waiting for its condition.
    LoopCond { cond: PrivateNode, body: BlockNode },
    /// A loop, waiting for its body to end.
    LoopBody { cond: PrivateNode, body: BlockNode },
    /// A declaration, waiting for its initial value.
    Declare { name: String, variable_type: Type },
    /// An assignment, waiting for its value.
    Assign { name: String },
    /// A `return`, waiting for its value.
    Return,
    /// A call made as a statement: its value is dropped.
    StmtCall,
    /// A call made for its value.
    ValueCall,
    /// An expression whose value is to be typed.
    Typed,
    /// The arguments of `print`, from `next` on.
    PrintArgs { args: Vec<PrivateNode>, next: usize, values: Vec<GreenValue> },
    /// The arguments of a call of `name`, from `next` on.
    CallArgs {
        name: String,
        params: Vec<ParameterNode>,
        body: BlockNode,
        args: Vec<PrivateNode>,
        next: usize,
        values: Vec<GreenValue>,
    },
    /// The body of a called function.
    CallBody,
    /// A task being resumed, waiting for its statement to end.
    Resume { task_name: String, task: CoroutineTask },
    /// A `not`, waiting for its operand.
    Not { operator: Logical, left: PrivateNode },
    /// A binary logical operation, waiting for its left operand.
    LogicLeft { operator: Logical, op: BinaryLogical, right: Option<PrivateNode> },
    /// A binary logical operation, waiting for its right operand.
    LogicRight { operator: Logical, op: BinaryLogical, left: LiteralValue },
    /// A comparison, waiting for its left operand.
    CompareLeft { op: Comparison, right: PrivateNode },
    /// A comparison, waiting for its right operand.
    CompareRight { op: Comparison, left: LiteralValue },
    /// An arithmetic operation, waiting for its left operand.
    ArithLeft { op: Arithmetic, right: PrivateNode },
    /// An arithmetic operation, waiting for its right operand.
    ArithRight { op: Arithmetic, left: LiteralValue },
    /// A sign (`+` or `-`), waiting for its operand.
    Sign { op: Arithmetic, left: PrivateNode },
}

pub enum FrameM {
    Block { stmts: Seq<Stmt>, next: nat },
    IfCond { cond: Stmt, then_block: Block, else_block: Option<Block> },
    LoopCond { cond: Stmt, body: Block },
    LoopBody { cond: Stmt, body: Block },
    Declare { name: Seq<char>, variable_type: Type },
    Assign { name: Seq<char> },
    Return,
    StmtCall,
    ValueCall,
    Typed,
    PrintArgs { args: Seq<Stmt>, next: nat, values: Seq<(Type, Lit)> },
    CallArgs {
        name: Seq<char>,
        params: Seq<(Seq<char>, Type)>,
        body: Block,
        args: Seq<Stmt>,
        next: nat,
        values: Seq<(Type, Lit)>,
    },
    CallBody,
    Resume { task_name: Seq<char>, task: TaskModel },
    Not { operator: Logical, left: Stmt },
    LogicLeft { operator: Logical, op: BinaryLogical, right: Option<Stmt> },
    LogicRight { operator: Logical, op: BinaryLogical, left: Lit },
    CompareLeft { op: Comparison, right: Stmt },
    CompareRight { op: Comparison, left: Lit },
    ArithLeft { op: Arithmetic, right: Stmt },
    ArithRight { op: Arithmetic, left: Lit },
    Sign { op: Arithmetic, left: Stmt },
}

/// Why a run ends with an error: a report to render from the message
/// table, or a plain text.
pub enum RunError {
    Report(ErrorContext),
    Text(String),
}

pub enum ErrM {
    Report(ErrorCode, Seq<(Seq<char>, Seq<char>)>),
    Text(Seq<char>),
}

/// What the caller of a step does.
pub enum Action {
    /// Nothing: step again.
    Next,
    /// Print this line, then step again.
    Print(String),
    /// Compute this operation and step again with its result.
    Float(FloatOp),
    /// Stop the program with this panic message.
    Panic(String),
    /// The run ended with this result.
    Done(Result<(), RunError>),
    /// The run is over; nothing more happens.
    Stopped,
}

pub enum ActionM {
    Next,
    Print(Seq<char>),
    Float(FloatOpM),
    Panic(Seq<char>),
    Done(Result<(), ErrM>),
    Stopped,
}

/// What the caller hands to a step: nothing, or the result of the awaited
/// floating-point operation.
pub enum Event {
    Next,
    Float(LiteralValue),
}

pub enum EventM {
    Next,
    Float(Lit),
}

/// The model of the machine: the variables, the functions, the tasks, what
/// is in hand and the stack (innermost last).
#[verifier::ext_equal]
pub struct MachineM {
    pub scopes: Seq<ScopeModel>,
    pub funs: spec_fn(Seq<char>) -> Option<FunctionModel>,
    pub tasks: spec_fn(Seq<char>) -> Option<TaskModel>,
    pub control: ControlM,
    pub stack: Seq<FrameM>,
}

pub open spec fn flow_view(f: EvalFlow<GreenValue>) -> FlowM {
    match f {
        EvalFlow::Normal => FlowM::Normal,
        EvalFlow::Continue => FlowM::Continue,
        EvalFlow::Break => FlowM::Break,
        EvalFlow::Return(g) => FlowM::Return(value_view(g)),
    }
}

pub open spec fn opt_value_view(o: Option<GreenValue>) -> Option<(Type, Lit)> {
    match o {
        Some(g) => Some(value_view(g)),
        None => None,
    }
}

pub open spec fn values_view(v: Seq<GreenValue>) -> Seq<(Type, Lit)> {
    v.map_values(|g: GreenValue| value_view(g))
}

impl View for FloatOp {
    type V = FloatOpM;

    open spec fn view(&self) -> FloatOpM {
        match self {
            FloatOp::Literal(t) => FloatOpM::Literal(t@),
            FloatOp::Arith(o, l, r) => FloatOpM::Arith(*o, l@, r@),
            FloatOp::Compare(o, l, r) => FloatOpM::Compare(*o, l@, r@),
            FloatOp::Negate(t) => FloatOpM::Negate(t@),
        }
    }
}

impl View for Control {
    type V = ControlM;

    open spec fn view(&self) -> ControlM {
        match self {
            Control::Start => ControlM::Start,
            Control::Stmt(n) => ControlM::Stmt(n@),
            Control::Expr(n) => ControlM::Expr(n@),
            Control::Assignable(n) => ControlM::Assignable(n@),
            Control::Value(v) => ControlM::Value(v@),
            Control::Typed(g) => ControlM::Typed(value_view(*g)),
            Control::Returned(o) => ControlM::Returned(opt_value_view(*o)),
            Control::Flow(f) => ControlM::Flow(flow_view(*f)),
            Control::AwaitFloat(o) => ControlM::AwaitFloat(o@),
            Control::Stopped => ControlM::Stopped,
        }
    }
}

pub open spec fn opt_block_view(b: Option<BlockNode>) -> Option<Block> {
    match b {
        Some(b) => Some(b@),
        None => None,
    }
}

pub open spec fn opt_node_view(n: Option<PrivateNode>) -> Option<Stmt> {
    match n {
        Some(n) => Some(n@),
        None => None,
    }
}

impl View for Frame {
    type V = FrameM;

    open spec fn view(&self) -> FrameM {
        match self {
            Frame::Block { stmts, next } => FrameM::Block { stmts: nodes_view(stmts@), next: *next as nat },
            Frame::IfCond { cond, then_block, else_block } => FrameM::IfCond {
                cond: cond@,
                then_block: then_block@,
                else_block: opt_block_view(*else_block),
            },
            Frame::LoopCond { cond, body } => FrameM::LoopCond { cond: cond@, body: body@ },
            Frame::LoopBody { cond, body } => FrameM::LoopBody { cond: cond@, body: body@ },
            Frame::Declare { name, variable_type } => FrameM::Declare { name: name@, variable_type: *variable_type },
            Frame::Assign { name } => FrameM::Assign { name: name@ },
            Frame::Return => FrameM::Return,
            Frame::StmtCall => FrameM::StmtCall,
            Frame::ValueCall => FrameM::ValueCall,
            Frame::Typed => FrameM::Typed,
            Frame::PrintArgs { args, next, values } => FrameM::PrintArgs {
                args: nodes_view(args@),
                next: *next as nat,
                values: values_view(values@),
            },
            Frame::CallArgs { name, params, body, args, next, values } => FrameM::CallArgs {
                name: name@,
                params: params_view(params@),
                body: body@,
                args: nodes_view(args@),
                next: *next as nat,
                values: values_view(values@),
            },
            Frame::CallBody => FrameM::CallBody,
            Frame::Resume { task_name, task } => FrameM::Resume { task_name: task_name@, task: task@ },
            Frame::Not { operator, left } => FrameM::Not { operator: *operator, left: left@ },
            Frame::LogicLeft { operator, op, right } => FrameM::LogicLeft {
                operator: *operator,
                op: *op,
                right: opt_node_view(*right),
            },
            Frame::LogicRight { operator, op, left } => FrameM::LogicRight { operator: *operator, op: *op, left: left@ },
            Frame::CompareLeft { op, right } => FrameM::CompareLeft { op: *op, right: right@ },
            Frame::CompareRight { op, left } => FrameM::CompareRight { op: *op, left: left@ },
            Frame::ArithLeft { op, right } => FrameM::ArithLeft { op: *op, right: right@ },
            Frame::ArithRight { op, left } => FrameM::ArithRight { op: *op, left: left@ },
            Frame::Sign { op, left } => FrameM::Sign { op: *op, left: left@ },
        }
    }
}

pub open spec fn frames_view(v: Seq<Frame>) -> Seq<FrameM> {
    v.map_values(|f: Frame| f@)
}

impl View for RunError {
    type V = ErrM;

    open spec fn view(&self) -> ErrM {
        match self {
            RunError::Report(e) => ErrM::Report(e.error_code, e.params_view()),
            RunError::Text(t) => ErrM::Text(t@),
        }
    }
}

impl View for Action {
    type V = ActionM;

    open spec fn view(&self) -> ActionM {
        match self {
            Action::Next => ActionM::Next,
            Action::Print(t) => ActionM::Print(t@),
            Action::Float(o) => ActionM::Float(o@),
            Action::Panic(t) => ActionM::Panic(t@),
            Action::Done(Ok(())) => ActionM::Done(Ok(())),
            Action::Done(Err(e)) => ActionM::Done(Err(e@)),
            Action::Stopped => ActionM::Stopped,
        }
    }
}

impl View for Event {
    type V = EventM;

    open spec fn view(&self) -> EventM {
        match self {
            Event::Next => EventM::Next,
            Event::Float(v) => EventM::Float(v@),
        }
    }
}

// ---------------------------------------------------------------------------
// The steps, by model
// ---------------------------------------------------------------------------

/// How a value is shown: an integer in decimal, a floating-point number as
/// its text, a string as itself, `true`, `false` or `Null`.
pub open spec fn lit_text(l: Lit) -> Seq<char> {
    match l {
        Lit::Int(i) => crate::common::types::int_text(i as int),
        Lit::Float(f) => f,
        Lit::String(s) => s,
        Lit::Bool(b) => if b {
            "true"@
        } else {
            "false"@
        },
        Lit::Null => "Null"@,
    }
}

/// The line `print` writes: the values shown, separated by spaces.
pub open spec fn joined(values: Seq<(Type, Lit)>) -> Seq<char>
    decreases values.len(),
{
    if values.len() == 0 {
        Seq::empty()
    } else if values.len() == 1 {
        lit_text(values[0].1)
    } else {
        joined(values.drop_last()) + " "@ + lit_text(values.last().1)
    }
}

pub open spec fn with(m: MachineM, control: ControlM) -> MachineM {
    MachineM { control, ..m }
}

pub open spec fn push(m: MachineM, f: FrameM) -> MachineM {
    MachineM { stack: m.stack.push(f), ..m }
}

/// Go on with `control` in hand.
pub open spec fn go(m: MachineM, control: ControlM) -> (MachineM, ActionM) {
    (with(m, control), ActionM::Next)
}

/// Stop with an error.
pub open spec fn fail(m: MachineM, e: ErrM) -> (MachineM, ActionM) {
    (with(m, ControlM::Stopped), ActionM::Done(Err(e)))
}

/// Stop with a panic message.
pub open spec fn halt(m: MachineM, message: Seq<char>) -> (MachineM, ActionM) {
    (with(m, ControlM::Stopped), ActionM::Panic(message))
}

/// A state that no run reaches (an outcome that the frame on top does not
/// take).
pub open spec fn stray(m: MachineM) -> (MachineM, ActionM) {
    fail(m, ErrM::Text("不正な実行状態"@))
}

pub open spec fn report(code: ErrorCode, params: Seq<(Seq<char>, Seq<char>)>) -> ErrM {
    ErrM::Report(code, params)
}

/// Enter a block: its first statement comes next.
pub open spec fn enter(m: MachineM, stmts: Seq<Stmt>) -> (MachineM, ActionM) {
    go(push(m, FrameM::Block { stmts, next: 0 }), ControlM::Flow(FlowM::Normal))
}

/// The typing of a value: `Null` has no type.
pub open spec fn typed(m: MachineM, v: Lit) -> (MachineM, ActionM) {
    match v.type_of() {
        Some(t) => go(m, ControlM::Typed((t, v))),
        None => fail(m, ErrM::Text("Null値には未対応"@)),
    }
}

/// The start: `main` is run.
pub open spec fn start_step(m: MachineM) -> (MachineM, ActionM) {
    match (m.funs)("main"@) {
        Some(f) => enter(m, f.process.statements),
        None => fail(m, report(ErrorCode::Runtime002, seq![("function"@, "main"@)])),
    }
}

/// A call of `name` with `args`: `print` evaluates its arguments and prints
/// them; another function opens a scope, evaluates its arguments there and
/// runs its body.
pub open spec fn call_step(m: MachineM, name: Seq<char>, args: Seq<Stmt>) -> (MachineM, ActionM) {
    if name == "print"@ {
        if args.len() == 0 {
            (with(m, ControlM::Returned(None)), ActionM::Print(""@))
        } else {
            go(push(m, FrameM::PrintArgs { args, next: 1, values: seq![] }), ControlM::Assignable(args[0]))
        }
    } else {
        match (m.funs)(name) {
            None => fail(m, report(ErrorCode::Runtime002, seq![("function"@, name)])),
            Some(f) => {
                let m1 = MachineM { scopes: m.scopes.push(Seq::empty()), ..m };
                if args.len() == 0 {
                    call_enter(m1, name, f.parameters, f.process, seq![])
                } else {
                    go(
                        push(
                            m1,
                            FrameM::CallArgs {
                                name,
                                params: f.parameters,
                                body: f.process,
                                args,
                                next: 1,
                                values: seq![],
                            },
                        ),
                        ControlM::Assignable(args[0]),
                    )
                }
            },
        }
    }
}

/// Whether each argument has the type of its parameter, the two lists taken
/// side by side.
pub open spec fn args_bind(params: Seq<(Seq<char>, Type)>, values: Seq<(Type, Lit)>) -> bool {
    forall|i: int| 0 <= i < params.len() && i < values.len() ==> (#[trigger] params[i]).1 == values[i].0
}

/// The first parameter whose argument has another type.
pub open spec fn arg_mismatch(params: Seq<(Seq<char>, Type)>, values: Seq<(Type, Lit)>) -> int {
    choose|i: int|
        0 <= i < params.len() && i < values.len() && params[i].1 != values[i].0 && forall|j: int|
            0 <= j < i ==> (#[trigger] params[j]).1 == values[j].0
}

/// The innermost scope after the first `k` parameters are set.
pub open spec fn args_scope(
    scope: ScopeModel,
    params: Seq<(Seq<char>, Type)>,
    values: Seq<(Type, Lit)>,
    k: int,
) -> ScopeModel
    decreases k,
{
    if k <= 0 {
        scope
    } else {
        scope_set(args_scope(scope, params, values, k - 1), params[k - 1].0, values[k - 1])
    }
}

/// The scopes after the first `k` parameters are set in the innermost one.
pub open spec fn args_bound(
    scopes: Seq<ScopeModel>,
    params: Seq<(Seq<char>, Type)>,
    values: Seq<(Type, Lit)>,
    k: int,
) -> Seq<ScopeModel> {
    if scopes.len() == 0 {
        scopes
    } else {
        scopes.drop_last().push(args_scope(scopes.last(), params, values, k))
    }
}

/// Entering the body of `name` with the arguments `values`: each parameter
/// is set to its argument in the new scope, or `RUNTIME013` names the first
/// argument of another type.
pub open spec fn call_enter(
    m: MachineM,
    name: Seq<char>,
    params: Seq<(Seq<char>, Type)>,
    body: Block,
    values: Seq<(Type, Lit)>,
) -> (MachineM, ActionM) {
    if args_bind(params, values) {
        let k = if params.len() < values.len() {
            params.len() as int
        } else {
            values.len() as int
        };
        let m1 = MachineM { scopes: args_bound(m.scopes, params, values, k), ..m };
        enter(push(m1, FrameM::CallBody), body.statements)
    } else {
        let i = arg_mismatch(params, values);
        fail(
            MachineM { scopes: args_bound(m.scopes, params, values, i), ..m },
            report(
                ErrorCode::Runtime013,
                seq![
                    ("parameter"@, params[i].1.text()),
                    ("argument"@, values[i].0.text()),
                    ("function_name"@, name),
                    ("param_name"@, params[i].0),
                ],
            ),
        )
    }
}

/// The task after it ran one statement.
pub open spec fn task_stepped(t: TaskModel) -> TaskModel {
    TaskModel {
        current_position: t.current_position + 1,
        status: if t.current_position + 1 >= t.process.len() {
            TaskStatus::Completed
        } else {
            t.status
        },
        ..t
    }
}

pub open spec fn set_task(m: MachineM, name: Seq<char>, t: TaskModel) -> MachineM {
    MachineM {
        tasks: |n: Seq<char>|
            if n == name {
                Some(t)
            } else {
                (m.tasks)(n)
            },
        ..m
    }
}

/// What a running task does next: past its end (or completed) it is stored
/// and the `resume` ends; at a `yield` it steps past it, pauses and is
/// stored; otherwise it runs the statement it stands at.
pub open spec fn resume_next(m: MachineM, name: Seq<char>, t: TaskModel) -> (MachineM, ActionM) {
    if t.status == TaskStatus::Completed || t.current_position >= t.process.len() {
        go(set_task(m, name, t), ControlM::Flow(FlowM::Normal))
    } else if t.process[t.current_position as int] is Yield {
        go(
            set_task(m, name, TaskModel { status: TaskStatus::Paused, ..task_stepped(t) }),
            ControlM::Flow(FlowM::Normal),
        )
    } else {
        go(
            push(m, FrameM::Resume { task_name: name, task: t }),
            ControlM::Stmt(t.process[t.current_position as int]),
        )
    }
}

/// `resume name`: the task must exist and not be running; a completed task
/// cannot be resumed (`RUNTIME020`); otherwise it runs.
pub open spec fn resume_step(m: MachineM, name: Seq<char>) -> (MachineM, ActionM) {
    match (m.tasks)(name) {
        None => halt(m, "見つからない"@),
        Some(t) => if t.status == TaskStatus::Running {
            halt(m, "今のところ存在しないエラー"@)
        } else if t.status == TaskStatus::Completed {
            fail(m, report(ErrorCode::Runtime020, seq![("coroutine_name"@, name)]))
        } else {
            resume_next(m, name, TaskModel { status: TaskStatus::Running, ..t })
        },
    }
}

/// Running a statement.
pub open spec fn stmt_step(m: MachineM, n: Stmt) -> (MachineM, ActionM) {
    match n {
        Stmt::FunctionCall { name, arguments, return_flg: _ } => call_step(push(m, FrameM::StmtCall), name, arguments),
        Stmt::VariableDeclaration { name, variable_type, initializer, doc: _ } => match initializer {
            None => go(
                MachineM {
                    scopes: if m.scopes.len() == 0 {
                        m.scopes
                    } else {
                        m.scopes.drop_last().push(scope_set(m.scopes.last(), name, (variable_type, Lit::Null)))
                    },
                    ..m
                },
                ControlM::Flow(FlowM::Normal),
            ),
            Some(e) => go(push(m, FrameM::Declare { name, variable_type }), ControlM::Assignable(*e)),
        },
        Stmt::VariableAssignment { name, expression } => go(
            push(m, FrameM::Assign { name }),
            ControlM::Assignable(*expression),
        ),
        Stmt::IfStatement { condition_node, then_block, else_block } => go(
            push(m, FrameM::IfCond { cond: *condition_node, then_block, else_block }),
            ControlM::Assignable(*condition_node),
        ),
        Stmt::LoopStatement { condition_node, block } => go(
            push(m, FrameM::LoopCond { cond: *condition_node, body: block }),
            ControlM::Assignable(*condition_node),
        ),
        Stmt::ReturnStatement { assignalbe } => go(push(m, FrameM::Return), ControlM::Assignable(*assignalbe)),
        Stmt::Yield => go(m, ControlM::Flow(FlowM::Normal)),
        Stmt::CoroutineInstantiation { .. } => go(m, ControlM::Flow(FlowM::Normal)),
        Stmt::ProcessComment { .. } => go(m, ControlM::Flow(FlowM::Normal)),
        Stmt::CoroutineResume { task_name } => resume_step(m, task_name),
        Stmt::Break => go(m, ControlM::Flow(FlowM::Break)),
        Stmt::Continue => go(m, ControlM::Flow(FlowM::Continue)),
        _ => fail(m, report(ErrorCode::Runtime003, seq![("node"@, debug_text(n))])),
    }
}

/// Computing a value: operations, variables and literals are evaluated and
/// typed; a call gives its returned value; anything else is `RUNTIME005`.
pub open spec fn assignable_step(m: MachineM, n: Stmt) -> (MachineM, ActionM) {
    match n {
        Stmt::Compare { .. } => go(push(m, FrameM::Typed), ControlM::Expr(n)),
        Stmt::Arithmetic { .. } => go(push(m, FrameM::Typed), ControlM::Expr(n)),
        Stmt::Variable { .. } => go(push(m, FrameM::Typed), ControlM::Expr(n)),
        Stmt::Logical { .. } => go(push(m, FrameM::Typed), ControlM::Expr(n)),
        Stmt::Literal { .. } => go(push(m, FrameM::Typed), ControlM::Expr(n)),
        Stmt::FunctionCall { name, arguments, return_flg: _ } => call_step(push(m, FrameM::ValueCall), name, arguments),
        _ => fail(m, report(ErrorCode::Runtime005, seq![("node"@, debug_text(n))])),
    }
}

/// Evaluating an expression.
pub open spec fn expr_step(m: MachineM, n: Stmt) -> (MachineM, ActionM) {
    match n {
        Stmt::Logical { operator, left, right } => match operator {
            Logical::Unary(_) => go(push(m, FrameM::Not { operator, left: *left }), ControlM::Expr(*left)),
            Logical::Binary(op) => go(
                push(
                    m,
                    FrameM::LogicLeft {
                        operator,
                        op,
                        right: match right {
                            Some(r) => Some(*r),
                            None => None,
                        },
                    },
                ),
                ControlM::Expr(*left),
            ),
        },
        Stmt::Compare { operator, left, right } => go(
            push(m, FrameM::CompareLeft { op: operator, right: *right }),
            ControlM::Expr(*left),
        ),
        Stmt::Arithmetic { operator, left, right } => match right {
            Some(r) => go(push(m, FrameM::ArithLeft { op: operator, right: *r }), ControlM::Expr(*left)),
            None => if operator == Arithmetic::Plus || operator == Arithmetic::Minus {
                go(push(m, FrameM::Sign { op: operator, left: *left }), ControlM::Expr(*left))
            } else {
                fail(m, report(ErrorCode::Runtime009, seq![]))
            },
        },
        Stmt::Variable { name } => match env_get(m.scopes, name) {
            Some(v) => go(m, ControlM::Value(v.1)),
            None => fail(m, report(ErrorCode::Runtime007, seq![("variable"@, name)])),
        },
        Stmt::Literal { value } => match value {
            Lit::Float(t) => (
                with(m, ControlM::AwaitFloat(FloatOpM::Literal(t))),
                ActionM::Float(FloatOpM::Literal(t)),
            ),
            _ => go(m, ControlM::Value(value)),
        },
        _ => fail(m, report(ErrorCode::Runtime003, seq![("node"@, debug_text(n))])),
    }
}

/// Wait for a floating-point operation.
pub open spec fn await_float(m: MachineM, op: FloatOpM) -> (MachineM, ActionM) {
    (with(m, ControlM::AwaitFloat(op)), ActionM::Float(op))
}

pub open spec fn is_number(l: Lit) -> bool {
    l is Int || l is Float
}

/// A value taken by the frame `f`.
pub open spec fn value_step(m: MachineM, f: FrameM, v: Lit) -> (MachineM, ActionM) {
    match f {
        FrameM::Typed => typed(m, v),
        FrameM::Not { operator, left } => match v {
            Lit::Bool(b) => go(m, ControlM::Value(Lit::Bool(!b))),
            _ => fail(
                m,
                report(ErrorCode::Runtime008, seq![("operator"@, operator.text()), ("node"@, debug_text(left))]),
            ),
        },
        FrameM::LogicLeft { operator, op, right } => match right {
            None => fail(m, report(ErrorCode::Runtime009, seq![])),
            Some(r) => go(push(m, FrameM::LogicRight { operator, op, left: v }), ControlM::Expr(r)),
        },
        FrameM::LogicRight { operator, op, left } => match (left, v) {
            (Lit::Bool(a), Lit::Bool(b)) => go(m, ControlM::Value(Lit::Bool(logical_value(op, a, b)))),
            _ => fail(
                m,
                report(
                    ErrorCode::Runtime015,
                    seq![("left"@, lit_text(left)), ("operator"@, operator.text()), ("right"@, lit_text(v))],
                ),
            ),
        },
        FrameM::CompareLeft { op, right } => go(push(m, FrameM::CompareRight { op, left: v }), ControlM::Expr(right)),
        FrameM::CompareRight { op, left } => match (left, v) {
            (Lit::Int(a), Lit::Int(b)) => go(m, ControlM::Value(Lit::Bool(compare_value(op, a as int, b as int)))),
            (Lit::String(a), Lit::String(b)) => if op == Comparison::Equal {
                go(m, ControlM::Value(Lit::Bool(a == b)))
            } else if op == Comparison::NotEqual {
                go(m, ControlM::Value(Lit::Bool(a != b)))
            } else {
                fail(m, report(ErrorCode::Runtime006, seq![("operator"@, op.text())]))
            },
            _ => if is_number(left) && is_number(v) {
                await_float(m, FloatOpM::Compare(op, left, v))
            } else {
                fail(
                    m,
                    report(
                        ErrorCode::Runtime016,
                        seq![("left"@, lit_text(left)), ("operator"@, op.text()), ("right"@, lit_text(v))],
                    ),
                )
            },
        },
        FrameM::ArithLeft { op, right } => go(push(m, FrameM::ArithRight { op, left: v }), ControlM::Expr(right)),
        FrameM::ArithRight { op, left } => match (left, v) {
            (Lit::Int(a), Lit::Int(b)) => if op == Arithmetic::Divide && b == 0 {
                halt(m, "attempt to divide by zero"@)
            } else if i32::MIN <= int_value(op, a as int, b as int) <= i32::MAX {
                go(m, ControlM::Value(Lit::Int(int_value(op, a as int, b as int) as i32)))
            } else {
                halt(m, "attempt to compute with overflow"@)
            },
            _ => if is_number(left) && is_number(v) {
                await_float(m, FloatOpM::Arith(op, left, v))
            } else {
                fail(
                    m,
                    report(
                        ErrorCode::Runtime015,
                        seq![("left"@, lit_text(left)), ("operator"@, op.text()), ("right"@, lit_text(v))],
                    ),
                )
            },
        },
        FrameM::Sign { op, left } => match v {
            Lit::Float(t) => if op == Arithmetic::Minus {
                await_float(m, FloatOpM::Negate(t))
            } else {
                await_float(m, FloatOpM::Literal(t))
            },
            Lit::Int(i) => if op == Arithmetic::Minus {
                if i == i32::MIN {
                    halt(m, "attempt to multiply with overflow"@)
                } else {
                    go(m, ControlM::Value(Lit::Int((-i) as i32)))
                }
            } else {
                go(m, ControlM::Value(Lit::Int(i)))
            },
            _ => fail(
                m,
                report(ErrorCode::Runtime008, seq![("operator"@, op.text()), ("node"@, debug_text(left))]),
            ),
        },
        _ => stray(m),
    }
}

/// The arguments of `print` after one more value: the next argument, or
/// the line printed.
pub open spec fn print_args_step(m: MachineM, args: Seq<Stmt>, next: nat, values: Seq<(Type, Lit)>) -> (
    MachineM,
    ActionM,
) {
    if next < args.len() {
        go(push(m, FrameM::PrintArgs { args, next: next + 1, values }), ControlM::Assignable(args[next as int]))
    } else {
        (with(m, ControlM::Returned(None)), ActionM::Print(joined(values)))
    }
}

/// A typed value taken by the frame `f`.
pub open spec fn typed_step(m: MachineM, f: FrameM, g: (Type, Lit)) -> (MachineM, ActionM) {
    match f {
        FrameM::Declare { name, variable_type } => go(
            MachineM {
                scopes: if m.scopes.len() == 0 {
                    m.scopes
                } else {
                    m.scopes.drop_last().push(scope_set(m.scopes.last(), name, (variable_type, g.1)))
                },
                ..m
            },
            ControlM::Flow(FlowM::Normal),
        ),
        FrameM::Assign { name } => match env_change(m.scopes, name, g) {
            Ok(s) => go(MachineM { scopes: s, ..m }, ControlM::Flow(FlowM::Normal)),
            Err(ChangeFailure::Missing) => fail(m, report(ErrorCode::Runtime007, seq![("variable"@, name)])),
            Err(ChangeFailure::Mismatch(t)) => fail(
                m,
                report(
                    ErrorCode::Runtime010,
                    seq![("variable_type"@, t.text()), ("value_type"@, g.0.text()), ("name"@, name)],
                ),
            ),
        },
        FrameM::Return => go(m, ControlM::Flow(FlowM::Return(g))),
        FrameM::IfCond { cond, then_block, else_block } => match g.1 {
            Lit::Bool(true) => enter(m, then_block.statements),
            Lit::Bool(false) => match else_block {
                Some(b) => enter(m, b.statements),
                None => go(m, ControlM::Flow(FlowM::Normal)),
            },
            _ => fail(m, report(ErrorCode::Runtime014, seq![("node"@, debug_text(cond))])),
        },
        FrameM::LoopCond { cond, body } => match g.1 {
            Lit::Bool(true) => enter(push(m, FrameM::LoopBody { cond, body }), body.statements),
            Lit::Bool(false) => go(m, ControlM::Flow(FlowM::Normal)),
            _ => fail(m, report(ErrorCode::Runtime017, seq![("node"@, debug_text(cond))])),
        },
        FrameM::PrintArgs { args, next, values } => print_args_step(m, args, next, values.push(g)),
        FrameM::CallArgs { name, params, body, args, next, values } => if next < args.len() {
            go(
                push(m, FrameM::CallArgs { name, params, body, args, next: next + 1, values: values.push(g) }),
                ControlM::Assignable(args[next as int]),
            )
        } else {
            call_enter(m, name, params, body, values.push(g))
        },
        _ => stray(m),
    }
}

/// What a call returned, taken by the frame `f`.
pub open spec fn returned_step(m: MachineM, f: FrameM, r: Option<(Type, Lit)>) -> (MachineM, ActionM) {
    match f {
        FrameM::StmtCall => go(m, ControlM::Flow(FlowM::Normal)),
        FrameM::ValueCall => match r {
            None => fail(m, ErrM::Text("err"@)),
            Some(g) => typed(m, g.1),
        },
        _ => stray(m),
    }
}

/// How a statement ended, taken by the frame `f`.
pub open spec fn flow_step(m: MachineM, f: FrameM, fl: FlowM) -> (MachineM, ActionM) {
    match f {
        FrameM::Block { stmts, next } => if fl is Normal {
            if next < stmts.len() {
                go(push(m, FrameM::Block { stmts, next: next + 1 }), ControlM::Stmt(stmts[next as int]))
            } else {
                go(m, ControlM::Flow(FlowM::Normal))
            }
        } else {
            go(m, ControlM::Flow(fl))
        },
        FrameM::LoopBody { cond, body } => match fl {
            FlowM::Normal => go(push(m, FrameM::LoopCond { cond, body }), ControlM::Assignable(cond)),
            FlowM::Continue => go(push(m, FrameM::LoopCond { cond, body }), ControlM::Assignable(cond)),
            FlowM::Break => go(m, ControlM::Flow(FlowM::Normal)),
            FlowM::Return(g) => go(m, ControlM::Flow(FlowM::Return(g))),
        },
        FrameM::CallBody => match fl {
            FlowM::Return(g) => go(MachineM { scopes: pop_scope(m.scopes), ..m }, ControlM::Returned(Some(g))),
            FlowM::Normal => go(MachineM { scopes: pop_scope(m.scopes), ..m }, ControlM::Returned(None)),
            FlowM::Break => fail(m, report(ErrorCode::Runtime018, seq![("node"@, "Break"@)])),
            FlowM::Continue => fail(m, report(ErrorCode::Runtime018, seq![("node"@, "Continue"@)])),
        },
        FrameM::Resume { task_name, task } => resume_next(m, task_name, task_stepped(task)),
        _ => stray(m),
    }
}

pub open spec fn pop_scope(scopes: Seq<ScopeModel>) -> Seq<ScopeModel> {
    if scopes.len() == 0 {
        scopes
    } else {
        scopes.drop_last()
    }
}

pub open spec fn pop(m: MachineM) -> MachineM {
    MachineM { stack: m.stack.drop_last(), ..m }
}

/// The machine with nothing in hand.
pub open spec fn base(m: MachineM) -> MachineM {
    with(m, ControlM::Stopped)
}

/// One step of the machine, given the event `ev`.
pub open spec fn spec_step(m: MachineM, ev: EventM) -> (MachineM, ActionM) {
    match m.control {
        ControlM::Start => start_step(base(m)),
        ControlM::Stmt(n) => stmt_step(base(m), n),
        ControlM::Expr(n) => expr_step(base(m), n),
        ControlM::Assignable(n) => assignable_step(base(m), n),
        ControlM::AwaitFloat(op) => match ev {
            EventM::Float(v) => go(m, ControlM::Value(v)),
            EventM::Next => await_float(m, op),
        },
        ControlM::Stopped => (m, ActionM::Stopped),
        ControlM::Value(v) => if m.stack.len() == 0 {
            stray(m)
        } else {
            value_step(pop(base(m)), m.stack.last(), v)
        },
        ControlM::Typed(g) => if m.stack.len() == 0 {
            stray(m)
        } else {
            typed_step(pop(base(m)), m.stack.last(), g)
        },
        ControlM::Returned(r) => if m.stack.len() == 0 {
            stray(m)
        } else {
            returned_step(pop(base(m)), m.stack.last(), r)
        },
        ControlM::Flow(fl) => if m.stack.len() == 0 {
            (with(m, ControlM::Stopped), ActionM::Done(Ok(())))
        } else {
            flow_step(pop(base(m)), m.stack.last(), fl)
        },
    }
}


// ---------------------------------------------------------------------------
// Laws of the steps
// ---------------------------------------------------------------------------

/// The machine after `k` steps, each given no event.
pub open spec fn run(m: MachineM, k: nat) -> MachineM
    decreases k,
{
    if k == 0 {
        m
    } else {
        run(spec_step(m, EventM::Next).0, (k - 1) as nat)
    }
}

/// A `while` whose condition is `true` runs its body: the body's first
/// statement comes next, and the loop waits for the body to end.
pub proof fn law_while_true_runs_body(m: MachineM, rest: Seq<FrameM>, cond: Stmt, body: Block, ev: EventM)
    requires
        m.control == ControlM::Typed((Type::Bool, Lit::Bool(true))),
        m.stack == rest.push(FrameM::LoopCond { cond, body }),
    ensures
        spec_step(m, ev).0.stack == rest.push(FrameM::LoopBody { cond, body }).push(
            FrameM::Block { stmts: body.statements, next: 0 },
        ),
        spec_step(m, ev).0.control == ControlM::Flow(FlowM::Normal),
        spec_step(m, ev).0.scopes == m.scopes,
        spec_step(m, ev).1 == ActionM::Next,
{
    assert(m.stack.drop_last() == rest);
}

/// A `while` whose condition is `false` ends normally.
pub proof fn law_while_false_ends(m: MachineM, rest: Seq<FrameM>, cond: Stmt, body: Block, ev: EventM)
    requires
        m.control == ControlM::Typed((Type::Bool, Lit::Bool(false))),
        m.stack == rest.push(FrameM::LoopCond { cond, body }),
    ensures
        spec_step(m, ev).0.stack == rest,
        spec_step(m, ev).0.control == ControlM::Flow(FlowM::Normal),
        spec_step(m, ev).1 == ActionM::Next,
{
    assert(m.stack.drop_last() == rest);
}

/// When the body of a `while` ends normally or by `continue`, the condition
/// is evaluated again; by `break`, the loop ends normally; by `return`, the
/// `return` goes on outwards.
pub proof fn law_while_repeats(m: MachineM, rest: Seq<FrameM>, cond: Stmt, body: Block, fl: FlowM, ev: EventM)
    requires
        m.control == ControlM::Flow(fl),
        m.stack == rest.push(FrameM::LoopBody { cond, body }),
    ensures
        (fl is Normal || fl is Continue) ==> spec_step(m, ev).0.stack == rest.push(FrameM::LoopCond { cond, body })
            && spec_step(m, ev).0.control == ControlM::Assignable(cond),
        fl is Break ==> spec_step(m, ev).0.stack == rest && spec_step(m, ev).0.control == ControlM::Flow(
            FlowM::Normal,
        ),
        fl is Return ==> spec_step(m, ev).0.stack == rest && spec_step(m, ev).0.control == ControlM::Flow(fl),
        spec_step(m, ev).1 == ActionM::Next,
{
    assert(m.stack.drop_last() == rest);
}

/// Integer arithmetic computes the operator on the left operand and the
/// right operand, in that order: `a + b`, `a - b`, `a * b` and the quotient
/// of `a` by `b` rounded toward zero; division by zero and a result outside
/// 32 bits stop the program.
pub proof fn law_int_arithmetic(m: MachineM, rest: Seq<FrameM>, op: Arithmetic, a: i32, b: i32, ev: EventM)
    requires
        m.control == ControlM::Value(Lit::Int(b)),
        m.stack == rest.push(FrameM::ArithRight { op, left: Lit::Int(a) }),
    ensures
        ({
            let r = if op == Arithmetic::Plus {
                a + b
            } else if op == Arithmetic::Minus {
                a - b
            } else if op == Arithmetic::Multiply {
                a * b
            } else if b != 0 && (a >= 0) == (b > 0) {
                abs_int(a as int) / abs_int(b as int)
            } else {
                -(abs_int(a as int) / abs_int(b as int))
            };
            let next = spec_step(m, ev);
            &&& op == Arithmetic::Divide && b == 0 ==> next.1 == ActionM::Panic("attempt to divide by zero"@)
            &&& !(op == Arithmetic::Divide && b == 0) && i32::MIN <= r <= i32::MAX ==> {
                &&& next.0.control == ControlM::Value(Lit::Int(r as i32))
                &&& next.0.stack == rest
                &&& next.0.scopes == m.scopes
                &&& next.1 == ActionM::Next
            }
            &&& !(op == Arithmetic::Divide && b == 0) && !(i32::MIN <= r <= i32::MAX) ==> next.1 == ActionM::Panic(
                "attempt to compute with overflow"@,
            )
        }),
{
    assert(m.stack.drop_last() == rest);
    assert(m.stack.last() == FrameM::ArithRight { op, left: Lit::Int(a) });
}

pub open spec fn abs_int(x: int) -> int {
    if x < 0 {
        -x
    } else {
        x
    }
}

/// A statement of a block that ends other than normally (by `break`,
/// `continue` or `return`) ends the block: no further statement of it runs,
/// and the same ending goes on outwards. A statement that ends normally is
/// followed by the next one, and the block ends normally after its last.
pub proof fn law_block_passes_flow(
    m: MachineM,
    rest: Seq<FrameM>,
    stmts: Seq<Stmt>,
    next: nat,
    fl: FlowM,
    ev: EventM,
)
    requires
        m.control == ControlM::Flow(fl),
        m.stack == rest.push(FrameM::Block { stmts, next }),
    ensures
        !(fl is Normal) ==> spec_step(m, ev).0.control == ControlM::Flow(fl) && spec_step(m, ev).0.stack == rest,
        fl is Normal && next < stmts.len() ==> spec_step(m, ev).0.control == ControlM::Stmt(stmts[next as int])
            && spec_step(m, ev).0.stack == rest.push(FrameM::Block { stmts, next: next + 1 }),
        fl is Normal && next >= stmts.len() ==> spec_step(m, ev).0.control == ControlM::Flow(FlowM::Normal)
            && spec_step(m, ev).0.stack == rest,
        spec_step(m, ev).0.scopes == m.scopes,
        spec_step(m, ev).1 == ActionM::Next,
{
    assert(m.stack.drop_last() == rest);
}

/// Comparing integers compares the left operand with the right one, in
/// that order; strings compare by equality of their characters.
pub proof fn law_comparisons(m: MachineM, rest: Seq<FrameM>, op: Comparison, left: Lit, right: Lit, ev: EventM)
    requires
        m.control == ControlM::Value(right),
        m.stack == rest.push(FrameM::CompareRight { op, left }),
    ensures
        ({
            let next = spec_step(m, ev);
            &&& left is Int && right is Int ==> {
                let a = left->Int_0;
                let b = right->Int_0;
                let r = if op == Comparison::Equal {
                    a == b
                } else if op == Comparison::NotEqual {
                    a != b
                } else if op == Comparison::Less {
                    a < b
                } else if op == Comparison::LessEqual {
                    a <= b
                } else if op == Comparison::Greater {
                    a > b
                } else {
                    a >= b
                };
                &&& next.0.control == ControlM::Value(Lit::Bool(r))
                &&& next.0.stack == rest
            }
            &&& left is String && right is String && op == Comparison::Equal ==> next.0.control == ControlM::Value(
                Lit::Bool(left->String_0 == right->String_0),
            )
            &&& left is String && right is String && op == Comparison::NotEqual ==> next.0.control
                == ControlM::Value(Lit::Bool(left->String_0 != right->String_0))
            &&& (left is Float && (right is Float || right is Int)) || (left is Int && right is Float) ==> {
                &&& next.1 == ActionM::Float(FloatOpM::Compare(op, left, right))
                &&& next.0.control == ControlM::AwaitFloat(FloatOpM::Compare(op, left, right))
            }
        }),
{
    assert(m.stack.drop_last() == rest);
}

/// Logical operators on booleans: `not` negates, `and` and `or` are the
/// conjunction and disjunction of the left and right operands, `xor` holds
/// when they differ.
pub proof fn law_logical_operations(
    m: MachineM,
    rest: Seq<FrameM>,
    f: FrameM,
    b: bool,
    ev: EventM,
)
    requires
        m.control == ControlM::Value(Lit::Bool(b)),
        m.stack == rest.push(f),
    ensures
        f is Not ==> spec_step(m, ev).0.control == ControlM::Value(Lit::Bool(!b)),
        f is LogicRight && f->LogicRight_left is Bool ==> spec_step(m, ev).0.control == ControlM::Value(
            Lit::Bool(
                if f->LogicRight_op == BinaryLogical::And {
                    f->LogicRight_left->Bool_0 && b
                } else if f->LogicRight_op == BinaryLogical::Or {
                    f->LogicRight_left->Bool_0 || b
                } else {
                    f->LogicRight_left->Bool_0 != b
                },
            ),
        ),
        (f is Not || (f is LogicRight && f->LogicRight_left is Bool)) ==> spec_step(m, ev).0.stack == rest,
{
    assert(m.stack.drop_last() == rest);
}

/// Floating-point arithmetic is handed out with its operands in order:
/// the left operand first.
pub proof fn law_float_arithmetic_in_order(m: MachineM, rest: Seq<FrameM>, op: Arithmetic, left: Lit, right: Lit, ev: EventM)
    requires
        m.control == ControlM::Value(right),
        m.stack == rest.push(FrameM::ArithRight { op, left }),
        (left is Float && (right is Float || right is Int)) || (left is Int && right is Float),
    ensures
        spec_step(m, ev).1 == ActionM::Float(FloatOpM::Arith(op, left, right)),
        spec_step(m, ev).0.control == ControlM::AwaitFloat(FloatOpM::Arith(op, left, right)),
        spec_step(m, ev).0.stack == rest,
{
    assert(m.stack.drop_last() == rest);
}

/// An `if` runs its `then` block when the condition is `true`, its `else`
/// block (if any) when it is `false`, and nothing else.
pub proof fn law_if_selects_branch(
    m: MachineM,
    rest: Seq<FrameM>,
    cond: Stmt,
    then_block: Block,
    else_block: Option<Block>,
    b: bool,
    ev: EventM,
)
    requires
        m.control == ControlM::Typed((Type::Bool, Lit::Bool(b))),
        m.stack == rest.push(FrameM::IfCond { cond, then_block, else_block }),
    ensures
        b ==> spec_step(m, ev).0.stack == rest.push(FrameM::Block { stmts: then_block.statements, next: 0 }),
        !b && else_block is Some ==> spec_step(m, ev).0.stack == rest.push(
            FrameM::Block { stmts: else_block->0.statements, next: 0 },
        ),
        !b && else_block is None ==> spec_step(m, ev).0.stack == rest,
        spec_step(m, ev).0.control == ControlM::Flow(FlowM::Normal),
        spec_step(m, ev).0.scopes == m.scopes,
{
    assert(m.stack.drop_last() == rest);
}

/// The line `print` writes shows each value, in order, separated by one
/// space.
pub proof fn law_print_line(values: Seq<(Type, Lit)>, v: (Type, Lit))
    ensures
        joined(seq![v]) == lit_text(v.1),
        values.len() > 0 ==> joined(values.push(v)) == joined(values) + " "@ + lit_text(v.1),
        joined(Seq::<(Type, Lit)>::empty()) == Seq::<char>::empty(),
{
    assert(values.push(v).drop_last() =~= values);
}

proof fn lemma_change_found(scopes: Seq<ScopeModel>, name: Seq<char>, v: (Type, Lit))
    requires
        env_get(scopes, name) is Some,
        env_get(scopes, name).unwrap().0 == v.0,
    ensures
        env_change(scopes, name, v) is Ok,
    decreases scopes.len(),
{
    if scopes.len() > 0 && scope_get(scopes.last(), name) is None {
        lemma_change_found(scopes.drop_last(), name, v);
    }
}

/// Variables read back what was written: a declaration sets the variable in
/// the innermost scope to the initial value with the declared type (other
/// names read as before); an assignment to a variable of the value's type
/// makes it read back the value; a variable no scope has cannot be assigned
/// (`RUNTIME007`).
pub proof fn law_variables_read_back(m: MachineM, rest: Seq<FrameM>, f: FrameM, g: (Type, Lit), other: Seq<char>, ev: EventM)
    requires
        m.control == ControlM::Typed(g),
        m.stack == rest.push(f),
        m.scopes.len() > 0,
    ensures
        f is Declare ==> env_get(spec_step(m, ev).0.scopes, f->Declare_name) == Some((f->Declare_variable_type, g.1)),
        f is Declare && other != f->Declare_name ==> env_get(spec_step(m, ev).0.scopes, other) == env_get(m.scopes, other),
        f is Assign && env_get(m.scopes, f->Assign_name) is Some && env_get(m.scopes, f->Assign_name).unwrap().0 == g.0
            ==> env_get(spec_step(m, ev).0.scopes, f->Assign_name) == Some(g) && spec_step(m, ev).1 == ActionM::Next,
        f is Assign && env_get(m.scopes, f->Assign_name) is None ==> spec_step(m, ev).1 == ActionM::Done(
            Err(ErrM::Report(ErrorCode::Runtime007, seq![("variable"@, f->Assign_name)])),
        ),
{
    assert(m.stack.drop_last() == rest);
    match f {
        FrameM::Declare { name, variable_type } => {
            law_set_then_get(m.scopes, name, other, (variable_type, g.1));
        },
        FrameM::Assign { name } => {
            if env_get(m.scopes, name) is Some && env_get(m.scopes, name).unwrap().0 == g.0 {
                lemma_change_found(m.scopes, name, g);
                law_change_then_get(m.scopes, name, g);
            }
            if env_get(m.scopes, name) is None {
                lemma_change_missing(m.scopes, name, g);
            }
        },
        _ => {},
    }
}

proof fn lemma_change_missing(scopes: Seq<ScopeModel>, name: Seq<char>, v: (Type, Lit))
    requires
        env_get(scopes, name) is None,
    ensures
        env_change(scopes, name, v) == Err::<Seq<ScopeModel>, ChangeFailure>(ChangeFailure::Missing),
    decreases scopes.len(),
{
    if scopes.len() > 0 {
        lemma_change_missing(scopes.drop_last(), name, v);
    }
}

/// A variable evaluates to the value the innermost scope that has it holds;
/// one that no scope has is `RUNTIME007`.
pub proof fn law_variable_value(m: MachineM, name: Seq<char>, ev: EventM)
    requires
        m.control == ControlM::Expr(Stmt::Variable { name }),
    ensures
        env_get(m.scopes, name) is Some ==> spec_step(m, ev).0.control == ControlM::Value(env_get(m.scopes, name).unwrap().1),
        env_get(m.scopes, name) is None ==> spec_step(m, ev).1 == ActionM::Done(
            Err(ErrM::Report(ErrorCode::Runtime007, seq![("variable"@, name)])),
        ),
{
}

/// Whether each frame is a block or a loop body: frames that a `return`
/// passes through.
pub open spec fn passes_return(frames: Seq<FrameM>) -> bool {
    forall|i: int| 0 <= i < frames.len() ==> (#[trigger] frames[i] is Block || frames[i] is LoopBody)
}

/// `return` ends the call with its value: through the blocks and loops of
/// the function's body, one step each, the call gives the value and its
/// scope is closed.
pub proof fn law_return_ends_call(m: MachineM, outer: Seq<FrameM>, frames: Seq<FrameM>, g: (Type, Lit))
    requires
        m.control == ControlM::Flow(FlowM::Return(g)),
        m.stack == outer.push(FrameM::CallBody) + frames,
        passes_return(frames),
    ensures
        run(m, frames.len() + 1) == (MachineM {
            scopes: pop_scope(m.scopes),
            control: ControlM::Returned(Some(g)),
            stack: outer,
            ..m
        }),
    decreases frames.len(),
{
    if frames.len() == 0 {
        assert(m.stack == outer.push(FrameM::CallBody));
        assert(m.stack.drop_last() == outer);
        let next = spec_step(m, EventM::Next).0;
        assert(run(next, 0) == next);
        assert(next =~= (MachineM {
            scopes: pop_scope(m.scopes),
            control: ControlM::Returned(Some(g)),
            stack: outer,
            ..m
        }));
    } else {
        let shorter = frames.drop_last();
        assert(m.stack.last() == frames.last());
        assert(frames.last() is Block || frames.last() is LoopBody) by {
            assert(passes_return(frames));
            let i = frames.len() - 1;
            assert(frames[i] is Block || frames[i] is LoopBody);
        }
        assert(m.stack.drop_last() =~= outer.push(FrameM::CallBody) + shorter);
        let next = spec_step(m, EventM::Next).0;
        assert(next.control == ControlM::Flow(FlowM::Return(g)));
        assert(next.stack == outer.push(FrameM::CallBody) + shorter);
        assert(next.scopes == m.scopes);
        assert(passes_return(shorter)) by {
            assert forall|i: int| 0 <= i < shorter.len() implies (#[trigger] shorter[i] is Block
                || shorter[i] is LoopBody) by {
                assert(shorter[i] == frames[i]);
            }
        }
        law_return_ends_call(next, outer, shorter, g);
        assert(run(m, frames.len() + 1) == run(next, shorter.len() + 1));
        assert(next =~= (MachineM { control: ControlM::Flow(FlowM::Return(g)), stack: outer.push(FrameM::CallBody) + shorter, ..m }));
    }
}

/// A resumed task runs its statements up to its next `yield`: when one of
/// its statements ends, the task steps on; at a `yield` it steps past it,
/// pauses and is stored, and the `resume` ends; past its last statement it
/// is stored completed and the `resume` ends; otherwise it runs the
/// statement it now stands at.
pub proof fn law_resume_runs_to_yield(
    m: MachineM,
    rest: Seq<FrameM>,
    name: Seq<char>,
    t: TaskModel,
    fl: FlowM,
    ev: EventM,
)
    requires
        m.control == ControlM::Flow(fl),
        m.stack == rest.push(FrameM::Resume { task_name: name, task: t }),
        t.status == TaskStatus::Running,
        t.current_position < t.process.len(),
    ensures
        ({
            let s = task_stepped(t);
            let next = spec_step(m, ev).0;
            &&& s.current_position >= t.process.len() ==> {
                &&& (next.tasks)(name) == Some(TaskModel { status: TaskStatus::Completed, ..s })
                &&& next.control == ControlM::Flow(FlowM::Normal)
                &&& next.stack == rest
            }
            &&& s.current_position < t.process.len() && t.process[s.current_position as int] is Yield ==> {
                &&& (next.tasks)(name) == Some(
                    TaskModel {
                        status: TaskStatus::Paused,
                        current_position: s.current_position + 1,
                        ..t
                    },
                )
                &&& next.control == ControlM::Flow(FlowM::Normal)
                &&& next.stack == rest
            }
            &&& s.current_position < t.process.len() && !(t.process[s.current_position as int] is Yield) ==> {
                &&& next.control == ControlM::Stmt(t.process[s.current_position as int])
                &&& next.stack == rest.push(FrameM::Resume { task_name: name, task: s })
                &&& next.tasks == m.tasks
            }
        }),
        spec_step(m, ev).1 == ActionM::Next,
{
    assert(m.stack.drop_last() == rest);
}

// ---------------------------------------------------------------------------
// Binding arguments, by model
// ---------------------------------------------------------------------------

proof fn lemma_first_mismatch_exists(params: Seq<(Seq<char>, Type)>, values: Seq<(Type, Lit)>, k: int)
    requires
        0 <= k,
        forall|j: int| 0 <= j < k ==> (#[trigger] params[j]).1 == values[j].0,
        exists|i: int| k <= i < params.len() && i < values.len() && params[i].1 != values[i].0,
    ensures
        exists|i: int|
            0 <= i < params.len() && i < values.len() && params[i].1 != values[i].0 && forall|j: int|
                0 <= j < i ==> (#[trigger] params[j]).1 == values[j].0,
    decreases params.len() - k,
{
    if params[k].1 != values[k].0 {
        assert(0 <= k < params.len() && k < values.len() && params[k].1 != values[k].0 && forall|j: int|
            0 <= j < k ==> (#[trigger] params[j]).1 == values[j].0);
    } else {
        lemma_first_mismatch_exists(params, values, k + 1);
    }
}

/// `bind_arguments` states the binding over the parameter and value nodes;
/// over their models it is `args_bind`, `args_bound` and `arg_mismatch`.
proof fn lemma_bind_views(p: Seq<ParameterNode>, v: Seq<GreenValue>, scopes: Seq<ScopeModel>)
    ensures
        binds(p, v) == args_bind(params_view(p), values_view(v)),
        paired(p, v) == (if params_view(p).len() < values_view(v).len() {
            params_view(p).len() as int
        } else {
            values_view(v).len() as int
        }),
        binds(p, v) ==> bound(scopes, p, v, paired(p, v)) == args_bound(
            scopes,
            params_view(p),
            values_view(v),
            paired(p, v),
        ),
        !binds(p, v) ==> ({
            let i = first_mismatch(p, v);
            &&& i == arg_mismatch(params_view(p), values_view(v))
            &&& 0 <= i < p.len() && i < v.len()
            &&& bound(scopes, p, v, i) == args_bound(scopes, params_view(p), values_view(v), i)
        }),
{
    let pv = params_view(p);
    let vv = values_view(v);
    assert(binds(p, v) == args_bind(pv, vv)) by {
        if binds(p, v) {
            assert forall|i: int| 0 <= i < pv.len() && i < vv.len() implies (#[trigger] pv[i]).1 == vv[i].0 by {
                assert(p[i].variable_type == v[i].value_type);
            }
        }
        if args_bind(pv, vv) {
            assert forall|i: int| 0 <= i < p.len() && i < v.len() implies (#[trigger] p[i]).variable_type
                == v[i].value_type by {
                assert(pv[i].1 == vv[i].0);
            }
        }
    }
    assert forall|k: int| 0 <= k <= p.len() && k <= v.len() implies bind_scope(
        scopes.last(),
        p,
        v,
        k,
    ) == args_scope(scopes.last(), pv, vv, k) by {
        lemma_bind_scope_views(scopes.last(), p, v, k);
    }
    if !binds(p, v) {
        let w = choose|i: int| 0 <= i < p.len() && i < v.len() && p[i].variable_type != v[i].value_type;
        assert(pv[w].1 != vv[w].0);
        lemma_first_mismatch_exists(pv, vv, 0);
        let a = arg_mismatch(pv, vv);
        let b = first_mismatch(p, v);
        assert(0 <= b < p.len() && b < v.len() && p[b].variable_type != v[b].value_type && forall|j: int|
            0 <= j < b ==> (#[trigger] p[j]).variable_type == v[j].value_type) by {
            assert(0 <= a < p.len() && a < v.len() && p[a].variable_type != v[a].value_type);
            assert forall|j: int| 0 <= j < a implies (#[trigger] p[j]).variable_type == v[j].value_type by {
                assert(pv[j].1 == vv[j].0);
            }
        }
        if a < b {
            assert(p[a].variable_type == v[a].value_type);
        }
        if b < a {
            assert(pv[b].1 == vv[b].0);
        }
    }
}

proof fn lemma_bind_scope_views(s: ScopeModel, p: Seq<ParameterNode>, v: Seq<GreenValue>, k: int)
    requires
        0 <= k <= p.len(),
        k <= v.len(),
    ensures
        bind_scope(s, p, v, k) == args_scope(s, params_view(p), values_view(v), k),
    decreases k,
{
    if k > 0 {
        lemma_bind_scope_views(s, p, v, k - 1);
    }
}

// ---------------------------------------------------------------------------
// The machine
// ---------------------------------------------------------------------------

/// What the machine relies on of a frame: a resumed task stands at one of
/// its statements.
pub open spec fn frame_ok(f: Frame) -> bool {
    match f {
        Frame::Resume { task_name: _, task } => task.current_position < task.process@.len(),
        _ => true,
    }
}

/// The interpreter of an analysed program.
pub struct Machine {
    env: Environment,
    functions: FunctionTable,
    tasks: TaskTable,
    control: Control,
    stack: Vec<Frame>,
}

fn report0(code: ErrorCode) -> (e: ErrorContext)
    ensures
        e.error_code == code,
        e.params_view() == Seq::<(Seq<char>, Seq<char>)>::empty(),
{
    let e = ErrorContext::new(code, 0, 0, Vec::new());
    assert(e.params_view() =~= Seq::<(Seq<char>, Seq<char>)>::empty());
    e
}

fn report1(code: ErrorCode, k: &str, v: &str) -> (e: ErrorContext)
    ensures
        e.error_code == code,
        e.params_view() == seq![(k@, v@)],
{
    let mut params: Vec<(&str, &str)> = Vec::new();
    params.push((k, v));
    let e = ErrorContext::new(code, 0, 0, params);
    assert(e.params_view() =~= seq![(k@, v@)]);
    e
}

fn report2(code: ErrorCode, k1: &str, v1: &str, k2: &str, v2: &str) -> (e: ErrorContext)
    ensures
        e.error_code == code,
        e.params_view() == seq![(k1@, v1@), (k2@, v2@)],
{
    let mut params: Vec<(&str, &str)> = Vec::new();
    params.push((k1, v1));
    params.push((k2, v2));
    let e = ErrorContext::new(code, 0, 0, params);
    assert(e.params_view() =~= seq![(k1@, v1@), (k2@, v2@)]);
    e
}

fn report3(code: ErrorCode, k1: &str, v1: &str, k2: &str, v2: &str, k3: &str, v3: &str) -> (e: ErrorContext)
    ensures
        e.error_code == code,
        e.params_view() == seq![(k1@, v1@), (k2@, v2@), (k3@, v3@)],
{
    let mut params: Vec<(&str, &str)> = Vec::new();
    params.push((k1, v1));
    params.push((k2, v2));
    params.push((k3, v3));
    let e = ErrorContext::new(code, 0, 0, params);
    assert(e.params_view() =~= seq![(k1@, v1@), (k2@, v2@), (k3@, v3@)]);
    e
}

fn copy_op(o: &FloatOp) -> (r: FloatOp)
    ensures
        r@ == o@,
{
    match o {
        FloatOp::Literal(t) => FloatOp::Literal(owned(t.as_str())),
        FloatOp::Arith(op, l, r) => FloatOp::Arith(*op, copy_literal(l), copy_literal(r)),
        FloatOp::Compare(op, l, r) => FloatOp::Compare(*op, copy_literal(l), copy_literal(r)),
        FloatOp::Negate(t) => FloatOp::Negate(owned(t.as_str())),
    }
}

fn number(v: &LiteralValue) -> (r: bool)
    ensures
        r == is_number(v@),
{
    match v {
        LiteralValue::Int(_) => true,
        LiteralValue::Float(_) => true,
        _ => false,
    }
}

fn value_text(v: &LiteralValue) -> (r: String)
    ensures
        r@ == lit_text(v@),
{
    v.to_string()
}

/// The line `print` writes for `values`.
fn join(values: &Vec<GreenValue>) -> (r: String)
    ensures
        r@ == joined(values_view(values@)),
{
    let ghost vv = values_view(values@);
    let mut line = owned("");
    proof {
        reveal_strlit("");
    }
    let mut i: usize = 0;
    assert(vv.take(0) =~= Seq::<(Type, Lit)>::empty());
    while i < values.len()
        invariant
            i <= values@.len(),
            vv == values_view(values@),
            line@ == joined(vv.take(i as int)),
        decreases values@.len() - i,
    {
        let text = value_text(&values[i].value);
        assert(vv.take(i + 1).drop_last() =~= vv.take(i as int));
        assert(vv[i as int] == value_view(values@[i as int]));
        if i == 0 {
            line = text;
        } else {
            let spaced = concat(line.as_str(), " ");
            line = concat(spaced.as_str(), text.as_str());
        }
        i = i + 1;
    }
    assert(vv.take(values@.len() as int) =~= vv);
    line
}

impl Machine {
    /// The tables are well formed and each frame is one the machine can
    /// take on.
    pub closed spec fn wf(&self) -> bool {
        &&& self.functions.wf()
        &&& self.tasks.wf()
        &&& forall|i: int| 0 <= i < self.stack@.len() ==> frame_ok(#[trigger] self.stack@[i])
    }

    /// The model of the machine.
    pub closed spec fn model(&self) -> MachineM {
        MachineM {
            scopes: self.env.scopes(),
            funs: |n: Seq<char>| self.functions.lookup(n),
            tasks: |n: Seq<char>| self.tasks.lookup(n),
            control: self.control@,
            stack: frames_view(self.stack@),
        }
    }

    /// A machine about to run the `main` function of an analysed program,
    /// with one empty scope.
    pub fn new(semantic: Semantic) -> (r: Self)
        requires
            semantic.inv(),
        ensures
            r.wf(),
            r.model() == (MachineM {
                scopes: seq![Seq::<(Seq<char>, (Type, Lit))>::empty()],
                funs: |n: Seq<char>| semantic.function_entry(n),
                tasks: |n: Seq<char>| semantic.task(n),
                control: ControlM::Start,
                stack: Seq::empty(),
            }),
    {
        let (functions, tasks) = semantic.into_tables();
        let r = Machine { env: Environment::new(), functions, tasks, control: Control::Start, stack: Vec::new() };
        assert(frames_view(r.stack@) =~= Seq::<FrameM>::empty());
        assert(r.model().funs =~= (|n: Seq<char>| semantic.function_entry(n)));
        assert(r.model().tasks =~= (|n: Seq<char>| semantic.task(n)));
        r
    }

    fn go(&mut self, c: Control) -> (a: Action)
        ensures
            final(self).wf() == old(self).wf(),
            (final(self).model(), a@) == go(old(self).model(), c@),
    {
        self.control = c;
        Action::Next
    }

    fn fail_report(&mut self, e: ErrorContext) -> (a: Action)
        ensures
            final(self).wf() == old(self).wf(),
            (final(self).model(), a@) == fail(old(self).model(), ErrM::Report(e.error_code, e.params_view())),
    {
        self.control = Control::Stopped;
        Action::Done(Err(RunError::Report(e)))
    }

    fn fail_text(&mut self, t: String) -> (a: Action)
        ensures
            final(self).wf() == old(self).wf(),
            (final(self).model(), a@) == fail(old(self).model(), ErrM::Text(t@)),
    {
        self.control = Control::Stopped;
        Action::Done(Err(RunError::Text(t)))
    }

    fn halt(&mut self, t: &str) -> (a: Action)
        ensures
            final(self).wf() == old(self).wf(),
            (final(self).model(), a@) == halt(old(self).model(), t@),
    {
        self.control = Control::Stopped;
        Action::Panic(owned(t))
    }

    fn stray(&mut self) -> (a: Action)
        ensures
            final(self).wf() == old(self).wf(),
            (final(self).model(), a@) == stray(old(self).model()),
    {
        self.fail_text(owned("不正な実行状態"))
    }

    fn push_frame(&mut self, f: Frame)
        requires
            old(self).wf(),
            frame_ok(f),
        ensures
            final(self).wf(),
            final(self).model() == push(old(self).model(), f@),
    {
        let ghost before = self.stack@;
        self.stack.push(f);
        assert(frames_view(self.stack@) =~= frames_view(before).push(f@));
    }

    fn pop_frame(&mut self) -> (r: Option<Frame>)
        requires
            old(self).wf(),
        ensures
            final(self).wf(),
            old(self).stack@.len() == 0 ==> r is None && final(self).model() == old(self).model(),
            old(self).stack@.len() > 0 ==> (r matches Some(f) && f@ == old(self).model().stack.last()
                && frame_ok(f) && final(self).model() == pop(old(self).model())),
    {
        let ghost before = self.stack@;
        let r = self.stack.pop();
        proof {
            if before.len() > 0 {
                assert(frames_view(self.stack@) =~= frames_view(before).drop_last());
                assert(frame_ok(before[before.len() - 1]));
            }
        }
        r
    }

    fn enter(&mut self, stmts: Vec<PrivateNode>) -> (a: Action)
        requires
            old(self).wf(),
        ensures
            final(self).wf(),
            (final(self).model(), a@) == enter(old(self).model(), nodes_view(stmts@)),
    {
        self.push_frame(Frame::Block { stmts, next: 0 });
        self.go(Control::Flow(EvalFlow::Normal))
    }

    fn typed(&mut self, v: LiteralValue) -> (a: Action)
        requires
            old(self).wf(),
        ensures
            final(self).wf(),
            (final(self).model(), a@) == typed(old(self).model(), v@),
    {
        match typed_value(v) {
            Ok(g) => self.go(Control::Typed(g)),
            Err(m) => self.fail_text(m),
        }
    }

    fn start(&mut self) -> (a: Action)
        requires
            old(self).wf(),
        ensures
            final(self).wf(),
            (final(self).model(), a@) == start_step(old(self).model()),
    {
        match self.functions.get_function_info("main") {
            Some(info) => self.enter(info.process.statements),
            None => {
                let e = report1(ErrorCode::Runtime002, "function", "main");
                self.fail_report(e)
            },
        }
    }

    #[verifier::rlimit(100)]
    #[verifier::spinoff_prover]
    fn call_enter(
        &mut self,
        name: String,
        params: Vec<ParameterNode>,
        body: BlockNode,
        values: Vec<GreenValue>,
    ) -> (a: Action)
        requires
            old(self).wf(),
        ensures
            final(self).wf(),
            (final(self).model(), a@) == call_enter(
                old(self).model(),
                name@,
                params_view(params@),
                body@,
                values_view(values@),
            ),
    {
        proof {
            lemma_bind_views(params@, values@, self.env.scopes());
        }
        match bind_arguments(&mut self.env, &params, &values, name.as_str()) {
            Ok(()) => {
                self.push_frame(Frame::CallBody);
                self.enter(body.statements)
            },
            Err(e) => {
                proof {
                    let i = first_mismatch(params@, values@);
                    assert(params_view(params@)[i] == (params@[i].name@, params@[i].variable_type));
                    assert(values_view(values@)[i] == value_view(values@[i]));
                }
                self.fail_report(e)
            },
        }
    }

    fn call(&mut self, name: String, args: Vec<PrivateNode>) -> (a: Action)
        requires
            old(self).wf(),
        ensures
            final(self).wf(),
            (final(self).model(), a@) == call_step(old(self).model(), name@, nodes_view(args@)),
    {
        if crate::text::str_eq(name.as_str(), "print") {
            self.call_print(args)
        } else {
            self.call_function(name, args)
        }
    }

    fn call_print(&mut self, args: Vec<PrivateNode>) -> (a: Action)
        requires
            old(self).wf(),
        ensures
            final(self).wf(),
            (final(self).model(), a@) == call_step(old(self).model(), "print"@, nodes_view(args@)),
    {
        proof {
            lemma_nodes_view(args@);
        }
        if args.len() == 0 {
            self.control = Control::Returned(None);
            Action::Print(owned(""))
        } else {
            let first = copy_node(&args[0]);
            self.push_frame(Frame::PrintArgs { args, next: 1, values: Vec::new() });
            proof {
                assert(values_view(Seq::<GreenValue>::empty()) =~= Seq::<(Type, Lit)>::empty());
            }
            self.go(Control::Assignable(first))
        }
    }

    fn call_function(&mut self, name: String, args: Vec<PrivateNode>) -> (a: Action)
        requires
            old(self).wf(),
            name@ != "print"@,
        ensures
            final(self).wf(),
            (final(self).model(), a@) == call_step(old(self).model(), name@, nodes_view(args@)),
    {
        proof {
            lemma_nodes_view(args@);
        }
        match self.functions.get_function_info(name.as_str()) {
            None => {
                let e = report1(ErrorCode::Runtime002, "function", name.as_str());
                self.fail_report(e)
            },
            Some(info) => {
                self.env.push_scope();
                proof {
                    assert(values_view(Seq::<GreenValue>::empty()) =~= Seq::<(Type, Lit)>::empty());
                }
                if args.len() == 0 {
                    self.call_enter(name, info.parameters, info.process, Vec::new())
                } else {
                    let first = copy_node(&args[0]);
                    self.push_frame(
                        Frame::CallArgs {
                            name,
                            params: info.parameters,
                            body: info.process,
                            args,
                            next: 1,
                            values: Vec::new(),
                        },
                    );
                    self.go(Control::Assignable(first))
                }
            },
        }
    }
}


impl Machine {
    fn set_task(&mut self, name: &str, t: CoroutineTask)
        requires
            old(self).wf(),
        ensures
            final(self).wf(),
            final(self).model() == set_task(old(self).model(), name@, t@),
    {
        let ghost before = self.model();
        let ghost tv = t@;
        self.tasks.set_task(name, t);
        assert(self.model().tasks =~= set_task(before, name@, tv).tasks);
    }

    fn resume_next(&mut self, name: String, t: CoroutineTask) -> (a: Action)
        requires
            old(self).wf(),
        ensures
            final(self).wf(),
            (final(self).model(), a@) == resume_next(old(self).model(), name@, t@),
    {
        let mut t = t;
        proof {
            lemma_nodes_view(t.process@);
        }
        match resume_action(&t) {
            ResumeAction::Finish => {
                self.set_task(name.as_str(), t);
                self.go(Control::Flow(EvalFlow::Normal))
            },
            ResumeAction::Pause => {
                assert(t.current_position < t.process@.len());
                assert(t.process@.len() == t.process.len());
                t.step();
                t.status = TaskStatus::Paused;
                self.set_task(name.as_str(), t);
                self.go(Control::Flow(EvalFlow::Normal))
            },
            ResumeAction::Run(i) => {
                let node = copy_node(&t.process[i]);
                self.push_frame(Frame::Resume { task_name: name, task: t });
                self.go(Control::Stmt(node))
            },
        }
    }

    fn resume(&mut self, name: String) -> (a: Action)
        requires
            old(self).wf(),
        ensures
            final(self).wf(),
            (final(self).model(), a@) == resume_step(old(self).model(), name@),
    {
        match self.tasks.get_task(name.as_str()) {
            None => self.halt("見つからない"),
            Some(t) => {
                let mut t = t;
                if t.status == TaskStatus::Running {
                    self.halt("今のところ存在しないエラー")
                } else {
                    match crate::interpreter::execute::resume_status(name.as_str(), t.status) {
                        Err(e) => self.fail_report(e),
                        Ok(st) => {
                            t.status = st;
                            self.resume_next(name, t)
                        },
                    }
                }
            },
        }
    }

    fn declare(&mut self, name: String, variable_type: Type, value: LiteralValue)
        ensures
            final(self).wf() == old(self).wf(),
            final(self).model() == (MachineM {
                scopes: if old(self).model().scopes.len() == 0 {
                    old(self).model().scopes
                } else {
                    old(self).model().scopes.drop_last().push(
                        scope_set(old(self).model().scopes.last(), name@, (variable_type, value@)),
                    )
                },
                ..old(self).model()
            }),
    {
        let v = GreenValue::new(variable_type, value);
        self.env.set_variable(&name, &v);
    }

    #[verifier::rlimit(100)]
    #[verifier::spinoff_prover]
    fn run_stmt(&mut self, n: PrivateNode) -> (a: Action)
        requires
            old(self).wf(),
        ensures
            final(self).wf(),
            (final(self).model(), a@) == stmt_step(old(self).model(), n@),
    {
        match n {
            PrivateNode::FunctionCall { name, arguments, return_flg: _ } => {
                self.push_frame(Frame::StmtCall);
                self.call(name, arguments)
            },
            PrivateNode::VariableDeclaration { name, variable_type, initializer, doc: _ } => match initializer {
                None => {
                    self.declare(name, variable_type, LiteralValue::Null);
                    self.go(Control::Flow(EvalFlow::Normal))
                },
                Some(e) => {
                    self.push_frame(Frame::Declare { name, variable_type });
                    self.go(Control::Assignable(*e))
                },
            },
            PrivateNode::VariableAssignment { name, expression } => {
                self.push_frame(Frame::Assign { name });
                self.go(Control::Assignable(*expression))
            },
            PrivateNode::IfStatement { condition_node, then_block, else_block } => {
                let cond = copy_node(&condition_node);
                self.push_frame(Frame::IfCond { cond: *condition_node, then_block, else_block });
                self.go(Control::Assignable(cond))
            },
            PrivateNode::LoopStatement { condition_node, block } => {
                let cond = copy_node(&condition_node);
                self.push_frame(Frame::LoopCond { cond: *condition_node, body: block });
                self.go(Control::Assignable(cond))
            },
            PrivateNode::ReturnStatement { assignalbe } => {
                self.push_frame(Frame::Return);
                self.go(Control::Assignable(*assignalbe))
            },
            PrivateNode::Yield => self.go(Control::Flow(EvalFlow::Normal)),
            PrivateNode::CoroutineInstantiation { .. } => self.go(Control::Flow(EvalFlow::Normal)),
            PrivateNode::ProcessComment { .. } => self.go(Control::Flow(EvalFlow::Normal)),
            PrivateNode::CoroutineResume { task_name } => self.resume(task_name),
            PrivateNode::Break => self.go(Control::Flow(EvalFlow::Break)),
            PrivateNode::Continue => self.go(Control::Flow(EvalFlow::Continue)),
            other => {
                let text = node_debug_text(&other);
                let e = report1(ErrorCode::Runtime003, "node", text.as_str());
                self.fail_report(e)
            },
        }
    }

    fn eval_assignable(&mut self, n: PrivateNode) -> (a: Action)
        requires
            old(self).wf(),
        ensures
            final(self).wf(),
            (final(self).model(), a@) == assignable_step(old(self).model(), n@),
    {
        match n {
            PrivateNode::FunctionCall { name, arguments, return_flg: _ } => {
                self.push_frame(Frame::ValueCall);
                self.call(name, arguments)
            },
            PrivateNode::Compare { .. } | PrivateNode::Arithmetic { .. } | PrivateNode::Variable { .. }
            | PrivateNode::Logical { .. } | PrivateNode::Literal { .. } => {
                self.push_frame(Frame::Typed);
                self.go(Control::Expr(n))
            },
            other => {
                let text = node_debug_text(&other);
                let e = report1(ErrorCode::Runtime005, "node", text.as_str());
                self.fail_report(e)
            },
        }
    }

    #[verifier::rlimit(100)]
    #[verifier::spinoff_prover]
    fn eval_expr(&mut self, n: PrivateNode) -> (a: Action)
        requires
            old(self).wf(),
        ensures
            final(self).wf(),
            (final(self).model(), a@) == expr_step(old(self).model(), n@),
    {
        match n {
            PrivateNode::Logical { operator, left, right } => match operator {
                Logical::Unary(_) => {
                    let l = copy_node(&left);
                    self.push_frame(Frame::Not { operator, left: *left });
                    self.go(Control::Expr(l))
                },
                Logical::Binary(op) => {
                    let r = match right {
                        Some(r) => Some(*r),
                        None => None,
                    };
                    self.push_frame(Frame::LogicLeft { operator, op, right: r });
                    self.go(Control::Expr(*left))
                },
            },
            PrivateNode::Compare { operator, left, right } => {
                self.push_frame(Frame::CompareLeft { op: operator, right: *right });
                self.go(Control::Expr(*left))
            },
            PrivateNode::Arithmetic { operator, left, right } => match right {
                Some(r) => {
                    self.push_frame(Frame::ArithLeft { op: operator, right: *r });
                    self.go(Control::Expr(*left))
                },
                None => if operator == Arithmetic::Plus || operator == Arithmetic::Minus {
                    let l = copy_node(&left);
                    self.push_frame(Frame::Sign { op: operator, left: *left });
                    self.go(Control::Expr(l))
                } else {
                    let e = report0(ErrorCode::Runtime009);
                    self.fail_report(e)
                },
            },
            PrivateNode::Variable { name } => match self.env.get_variable(name.as_str()) {
                Ok(v) => self.go(Control::Value(v)),
                Err(e) => self.fail_report(e),
            },
            PrivateNode::Literal { value } => match value {
                LiteralValue::Float(t) => {
                    let c = owned(t.as_str());
                    self.control = Control::AwaitFloat(FloatOp::Literal(t));
                    Action::Float(FloatOp::Literal(c))
                },
                other => self.go(Control::Value(other)),
            },
            other => {
                let text = node_debug_text(&other);
                let e = report1(ErrorCode::Runtime003, "node", text.as_str());
                self.fail_report(e)
            },
        }
    }

    fn await_float(&mut self, op: FloatOp) -> (a: Action)
        ensures
            final(self).wf() == old(self).wf(),
            (final(self).model(), a@) == await_float(old(self).model(), op@),
    {
        let c = copy_op(&op);
        self.control = Control::AwaitFloat(op);
        Action::Float(c)
    }

    #[verifier::rlimit(100)]
    #[verifier::spinoff_prover]
    fn on_value(&mut self, f: Frame, v: LiteralValue) -> (a: Action)
        requires
            old(self).wf(),
        ensures
            final(self).wf(),
            (final(self).model(), a@) == value_step(old(self).model(), f@, v@),
    {
        match f {
            Frame::Typed => self.typed(v),
            Frame::Not { operator, left } => match v {
                LiteralValue::Bool(b) => self.go(Control::Value(LiteralValue::Bool(!b))),
                _ => {
                    let o = operator.to_string();
                    let t = node_debug_text(&left);
                    let e = report2(ErrorCode::Runtime008, "operator", o.as_str(), "node", t.as_str());
                    self.fail_report(e)
                },
            },
            Frame::LogicLeft { operator, op, right } => match right {
                None => {
                    let e = report0(ErrorCode::Runtime009);
                    self.fail_report(e)
                },
                Some(r) => {
                    self.push_frame(Frame::LogicRight { operator, op, left: v });
                    self.go(Control::Expr(r))
                },
            },
            Frame::LogicRight { operator, op, left } => match (&left, &v) {
                (LiteralValue::Bool(a), LiteralValue::Bool(b)) => {
                    let r = binary_logical_operations(&op, *a, *b);
                    self.go(Control::Value(LiteralValue::Bool(r)))
                },
                _ => {
                    let l = value_text(&left);
                    let o = operator.to_string();
                    let r = value_text(&v);
                    let e = report3(ErrorCode::Runtime015, "left", l.as_str(), "operator", o.as_str(), "right", r.as_str());
                    self.fail_report(e)
                },
            },
            Frame::CompareLeft { op, right } => {
                self.push_frame(Frame::CompareRight { op, left: v });
                self.go(Control::Expr(right))
            },
            Frame::CompareRight { op, left } => self.compare(op, left, v),
            Frame::ArithLeft { op, right } => {
                self.push_frame(Frame::ArithRight { op, left: v });
                self.go(Control::Expr(right))
            },
            Frame::ArithRight { op, left } => self.arith(op, left, v),
            Frame::Sign { op, left } => match v {
                LiteralValue::Float(t) => if op == Arithmetic::Minus {
                    self.await_float(FloatOp::Negate(t))
                } else {
                    self.await_float(FloatOp::Literal(t))
                },
                LiteralValue::Int(i) => if op == Arithmetic::Minus {
                    match int_negate(i) {
                        Some(x) => self.go(Control::Value(LiteralValue::Int(x))),
                        None => self.halt("attempt to multiply with overflow"),
                    }
                } else {
                    self.go(Control::Value(LiteralValue::Int(i)))
                },
                _ => {
                    let o = op.to_string();
                    let t = node_debug_text(&left);
                    let e = report2(ErrorCode::Runtime008, "operator", o.as_str(), "node", t.as_str());
                    self.fail_report(e)
                },
            },
            _ => self.stray(),
        }
    }

    fn compare(&mut self, op: Comparison, left: LiteralValue, v: LiteralValue) -> (a: Action)
        requires
            old(self).wf(),
        ensures
            final(self).wf(),
            (final(self).model(), a@) == value_step(old(self).model(), FrameM::CompareRight { op, left: left@ }, v@),
    {
        match (&left, &v) {
            (LiteralValue::Int(a), LiteralValue::Int(b)) => {
                let r = compare_ints(&op, *a, *b);
                self.go(Control::Value(LiteralValue::Bool(r)))
            },
            (LiteralValue::String(a), LiteralValue::String(b)) => match compare_strings(&op, a.as_str(), b.as_str()) {
                Ok(r) => self.go(Control::Value(LiteralValue::Bool(r))),
                Err(e) => self.fail_report(e),
            },
            _ => if number(&left) && number(&v) {
                self.await_float(FloatOp::Compare(op, left, v))
            } else {
                let l = value_text(&left);
                let o = op.to_string();
                let r = value_text(&v);
                let e = report3(ErrorCode::Runtime016, "left", l.as_str(), "operator", o.as_str(), "right", r.as_str());
                self.fail_report(e)
            },
        }
    }

    fn arith(&mut self, op: Arithmetic, left: LiteralValue, v: LiteralValue) -> (a: Action)
        requires
            old(self).wf(),
        ensures
            final(self).wf(),
            (final(self).model(), a@) == value_step(old(self).model(), FrameM::ArithRight { op, left: left@ }, v@),
    {
        match (&left, &v) {
            (LiteralValue::Int(a), LiteralValue::Int(b)) => match int_arithmetic(op, *a, *b) {
                Some(x) => self.go(Control::Value(LiteralValue::Int(x))),
                None => if op == Arithmetic::Divide && *b == 0 {
                    self.halt("attempt to divide by zero")
                } else {
                    self.halt("attempt to compute with overflow")
                },
            },
            _ => if number(&left) && number(&v) {
                self.await_float(FloatOp::Arith(op, left, v))
            } else {
                let l = value_text(&left);
                let o = op.to_string();
                let r = value_text(&v);
                let e = report3(ErrorCode::Runtime015, "left", l.as_str(), "operator", o.as_str(), "right", r.as_str());
                self.fail_report(e)
            },
        }
    }
}


impl Machine {
    #[verifier::rlimit(100)]
    #[verifier::spinoff_prover]
    fn on_typed(&mut self, f: Frame, g: GreenValue) -> (a: Action)
        requires
            old(self).wf(),
        ensures
            final(self).wf(),
            (final(self).model(), a@) == typed_step(old(self).model(), f@, value_view(g)),
    {
        match f {
            Frame::Declare { name, variable_type } => {
                self.declare(name, variable_type, g.value);
                self.go(Control::Flow(EvalFlow::Normal))
            },
            Frame::Assign { name } => match self.env.change_variable(name, g) {
                Ok(()) => self.go(Control::Flow(EvalFlow::Normal)),
                Err(e) => self.fail_report(e),
            },
            Frame::Return => self.go(Control::Flow(EvalFlow::Return(g))),
            Frame::IfCond { cond, then_block, else_block } => match crate::interpreter::execute::condition_branch(&g.value) {
                Some(true) => self.enter(then_block.statements),
                Some(false) => match else_block {
                    Some(b) => self.enter(b.statements),
                    None => self.go(Control::Flow(EvalFlow::Normal)),
                },
                None => {
                    let t = node_debug_text(&cond);
                    let e = report1(ErrorCode::Runtime014, "node", t.as_str());
                    self.fail_report(e)
                },
            },
            Frame::LoopCond { cond, body } => match crate::interpreter::execute::condition_branch(&g.value) {
                Some(true) => {
                    let stmts = copy_nodes(&body.statements);
                    self.push_frame(Frame::LoopBody { cond, body });
                    self.enter(stmts)
                },
                Some(false) => self.go(Control::Flow(EvalFlow::Normal)),
                None => {
                    let t = node_debug_text(&cond);
                    let e = report1(ErrorCode::Runtime017, "node", t.as_str());
                    self.fail_report(e)
                },
            },
            Frame::PrintArgs { args, next, values } => {
                let mut values = values;
                let ghost before = values@;
                let ghost gv = value_view(g);
                values.push(g);
                proof {
                    assert(values_view(values@) =~= values_view(before).push(gv));
                    lemma_nodes_view(args@);
                }
                if next < args.len() {
                    let a = copy_node(&args[next]);
                    self.push_frame(Frame::PrintArgs { args, next: next + 1, values });
                    self.go(Control::Assignable(a))
                } else {
                    let line = join(&values);
                    self.control = Control::Returned(None);
                    Action::Print(line)
                }
            },
            Frame::CallArgs { name, params, body, args, next, values } => {
                let mut values = values;
                let ghost before = values@;
                let ghost gv = value_view(g);
                values.push(g);
                proof {
                    assert(values_view(values@) =~= values_view(before).push(gv));
                    lemma_nodes_view(args@);
                }
                if next < args.len() {
                    let a = copy_node(&args[next]);
                    self.push_frame(Frame::CallArgs { name, params, body, args, next: next + 1, values });
                    self.go(Control::Assignable(a))
                } else {
                    self.call_enter(name, params, body, values)
                }
            },
            _ => self.stray(),
        }
    }

    fn on_returned(&mut self, f: Frame, r: Option<GreenValue>) -> (a: Action)
        requires
            old(self).wf(),
        ensures
            final(self).wf(),
            (final(self).model(), a@) == returned_step(old(self).model(), f@, opt_value_view(r)),
    {
        match f {
            Frame::StmtCall => self.go(Control::Flow(EvalFlow::Normal)),
            Frame::ValueCall => match r {
                None => self.fail_text(owned("err")),
                Some(g) => self.typed(g.value),
            },
            _ => self.stray(),
        }
    }

    #[verifier::rlimit(100)]
    #[verifier::spinoff_prover]
    fn on_flow(&mut self, f: Frame, fl: EvalFlow<GreenValue>) -> (a: Action)
        requires
            old(self).wf(),
            frame_ok(f),
        ensures
            final(self).wf(),
            (final(self).model(), a@) == flow_step(old(self).model(), f@, flow_view(fl)),
    {
        match f {
            Frame::Block { stmts, next } => match fl {
                EvalFlow::Normal => {
                    proof {
                        lemma_nodes_view(stmts@);
                    }
                    if next < stmts.len() {
                        let s = copy_node(&stmts[next]);
                        self.push_frame(Frame::Block { stmts, next: next + 1 });
                        self.go(Control::Stmt(s))
                    } else {
                        self.go(Control::Flow(EvalFlow::Normal))
                    }
                },
                other => self.go(Control::Flow(other)),
            },
            Frame::LoopBody { cond, body } => match crate::interpreter::execute::after_loop_body(fl) {
                None => {
                    let c = copy_node(&cond);
                    self.push_frame(Frame::LoopCond { cond, body });
                    self.go(Control::Assignable(c))
                },
                Some(end) => self.go(Control::Flow(end)),
            },
            Frame::CallBody => match crate::interpreter::execute::call_outcome(fl) {
                Ok(r) => {
                    self.env.pop_scope();
                    self.go(Control::Returned(r))
                },
                Err(EvalFlow::Break) => {
                    let e = report1(ErrorCode::Runtime018, "node", "Break");
                    self.fail_report(e)
                },
                Err(_) => {
                    let e = report1(ErrorCode::Runtime018, "node", "Continue");
                    self.fail_report(e)
                },
            },
            Frame::Resume { task_name, task } => {
                let mut task = task;
                proof {
                    lemma_nodes_view(task.process@);
                }
                assert(task.process@.len() == task.process.len());
                task.step();
                self.resume_next(task_name, task)
            },
            _ => self.stray(),
        }
    }

    /// One step of the run, given `event`: what the machine does is
    /// `spec_step`, and the returned action says what the caller does next.
    pub fn step(&mut self, event: Event) -> (a: Action)
        requires
            old(self).wf(),
        ensures
            final(self).wf(),
            (final(self).model(), a@) == spec_step(old(self).model(), event@),
    {
        let ghost m = self.model();
        let mut control = Control::Stopped;
        std::mem::swap(&mut control, &mut self.control);
        assert(self.model() == base(m));
        match control {
            Control::Start => self.start(),
            Control::Stmt(n) => self.run_stmt(n),
            Control::Expr(n) => self.eval_expr(n),
            Control::Assignable(n) => self.eval_assignable(n),
            Control::AwaitFloat(op) => match event {
                Event::Float(v) => self.go(Control::Value(v)),
                Event::Next => self.await_float(op),
            },
            Control::Stopped => Action::Stopped,
            Control::Value(v) => match self.pop_frame() {
                None => {
                    self.control = Control::Value(v);
                    self.stray()
                },
                Some(f) => self.on_value(f, v),
            },
            Control::Typed(g) => match self.pop_frame() {
                None => {
                    self.control = Control::Typed(g);
                    self.stray()
                },
                Some(f) => self.on_typed(f, g),
            },
            Control::Returned(r) => match self.pop_frame() {
                None => {
                    self.control = Control::Returned(r);
                    self.stray()
                },
                Some(f) => self.on_returned(f, r),
            },
            Control::Flow(fl) => match self.pop_frame() {
                None => {
                    self.control = Control::Stopped;
                    Action::Done(Ok(()))
                },
                Some(f) => self.on_flow(f, fl),
            },
        }
    }

    /// Whether the run is over.
    pub fn stopped(&self) -> (r: bool)
        ensures
            r == (self.model().control is Stopped),
    {
        match self.control {
            Control::Stopped => true,
            _ => false,
        }
    }
}

} // verus!
