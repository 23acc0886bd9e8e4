//! The decisions of the interpreter that compute on plain values: the
//! logical, integer and string operators, the typing of values, the binding
//! of arguments to parameters and the resumption of a task.
use vstd::prelude::*;
use crate::analyzer::task_table::{CoroutineTask, TaskStatus};
use crate::common::operator::{Arithmetic, BinaryLogical, Comparison, UnaryLogical};
use crate::common::types::{GreenValue, LiteralValue, Type};
use crate::error::error_code::ErrorCode;
use crate::error::error_context::ErrorContext;
use crate::interpreter::environment::{Environment, ScopeModel, scope_set, value_view};
use crate::parser::node::ParameterNode;
use crate::text::{owned, str_eq};

verus! {

/// How a block, a loop body or a function body ended.
#[derive(Debug)]
pub enum EvalFlow<T> {
    Normal,
    Continue,
    Break,
    Return(T),
}

/// The branch that the value of an `if` or loop condition selects: its
/// `bool`, or `None` for a value that is no `bool` (`RUNTIME014`,
/// `RUNTIME017`).
pub fn condition_branch(value: &LiteralValue) -> (r: Option<bool>)
    ensures
        r == (match value {
            LiteralValue::Bool(b) => Some(*b),
            _ => None,
        }),
{
    match value {
        LiteralValue::Bool(b) => Some(*b),
        _ => None,
    }
}

/// Where a loop goes after its body ended with `flow`: round again (`None`),
/// or out of the loop with what the loop statement ends with: normally after
/// `break`, with the value after `return`.
pub fn after_loop_body<T>(flow: EvalFlow<T>) -> (r: Option<EvalFlow<T>>)
    ensures
        match flow {
            EvalFlow::Normal => r is None,
            EvalFlow::Continue => r is None,
            EvalFlow::Break => r matches Some(EvalFlow::Normal),
            EvalFlow::Return(v) => r matches Some(EvalFlow::Return(w)) && w == v,
        },
{
    match flow {
        EvalFlow::Normal => None,
        EvalFlow::Continue => None,
        EvalFlow::Break => Some(EvalFlow::Normal),
        EvalFlow::Return(v) => Some(EvalFlow::Return(v)),
    }
}

/// What a call gives after the function body ended with `flow`: its value
/// after `return`, nothing at the end of the body, and `Err` with the flow
/// for a `break` or `continue` that left the body (`RUNTIME018`).
pub fn call_outcome<T>(flow: EvalFlow<T>) -> (r: Result<Option<T>, EvalFlow<T>>)
    ensures
        match flow {
            EvalFlow::Return(v) => r matches Ok(Some(w)) && w == v,
            EvalFlow::Normal => r matches Ok(None),
            EvalFlow::Break => r matches Err(EvalFlow::Break),
            EvalFlow::Continue => r matches Err(EvalFlow::Continue),
        },
{
    match flow {
        EvalFlow::Return(v) => Ok(Some(v)),
        EvalFlow::Normal => Ok(None),
        EvalFlow::Break => Err(EvalFlow::Break),
        EvalFlow::Continue => Err(EvalFlow::Continue),
    }
}

/// 単項論理演算
pub fn unary_logical_operations(operator: &UnaryLogical, operand: bool) -> (r: bool)
    ensures
        r == !operand,
{
    match operator {
        UnaryLogical::Not => !operand,
    }
}

/// What a binary logical operator gives.
pub open spec fn logical_value(operator: BinaryLogical, left: bool, right: bool) -> bool {
    match operator {
        BinaryLogical::Or => left || right,
        BinaryLogical::And => left && right,
        BinaryLogical::Xor => left != right,
    }
}

/// 二項論理演算子
pub fn binary_logical_operations(operator: &BinaryLogical, left: bool, right: bool) -> (r: bool)
    ensures
        r == logical_value(*operator, left, right),
{
    match operator {
        BinaryLogical::Or => left || right,
        BinaryLogical::And => left && right,
        BinaryLogical::Xor => left && !right || !left && right,
    }
}

/// Integer division rounding toward zero.
pub open spec fn trunc_div(x: int, d: int) -> int {
    if x == 0 {
        0
    } else if x > 0 && d > 0 {
        x / d
    } else if x < 0 && d < 0 {
        (-x) / (-d)
    } else if x < 0 {
        -((-x) / d)
    } else {
        -(x / (-d))
    }
}

/// What an arithmetic operator gives on two integers, as a mathematical
/// integer.
pub open spec fn int_value(operator: Arithmetic, left: int, right: int) -> int {
    match operator {
        Arithmetic::Plus => left + right,
        Arithmetic::Minus => left - right,
        Arithmetic::Multiply => left * right,
        Arithmetic::Divide => trunc_div(left, right),
    }
}

/// An arithmetic operator on two `int` values of the language: the result,
/// or `None` where it does not fit in 32 bits or divides by zero, where the
/// operation on `i32` does not give a value.
pub fn int_arithmetic(operator: Arithmetic, left: i32, right: i32) -> (r: Option<i32>)
    ensures
        r matches Some(v) ==> v == int_value(operator, left as int, right as int),
        r is None <==> ((operator == Arithmetic::Divide && right == 0) || !(i32::MIN <= int_value(
            operator,
            left as int,
            right as int,
        ) <= i32::MAX)),
{
    match operator {
        Arithmetic::Plus => left.checked_add(right),
        Arithmetic::Minus => left.checked_sub(right),
        Arithmetic::Multiply => left.checked_mul(right),
        Arithmetic::Divide => left.checked_div(right),
    }
}

/// The negation of an `int` value, or `None` where it does not fit.
pub fn int_negate(value: i32) -> (r: Option<i32>)
    ensures
        r matches Some(v) ==> v == -value,
        r is None <==> value == i32::MIN,
{
    if value == i32::MIN {
        None
    } else {
        Some(-value)
    }
}

/// What a comparison gives on two numbers.
pub open spec fn compare_value(operator: Comparison, left: int, right: int) -> bool {
    match operator {
        Comparison::Equal => left == right,
        Comparison::NotEqual => left != right,
        Comparison::GreaterEqual => left >= right,
        Comparison::Greater => left > right,
        Comparison::LessEqual => left <= right,
        Comparison::Less => left < right,
    }
}

/// 比較処理: a comparison of two `int` values.
pub fn compare_ints(operator: &Comparison, left: i32, right: i32) -> (r: bool)
    ensures
        r == compare_value(*operator, left as int, right as int),
{
    match operator {
        Comparison::Equal => left == right,
        Comparison::NotEqual => left != right,
        Comparison::GreaterEqual => left >= right,
        Comparison::Greater => left > right,
        Comparison::LessEqual => left <= right,
        Comparison::Less => left < right,
    }
}

/// A comparison of two strings: only `==` and `!=` compare strings.
pub fn compare_strings(operator: &Comparison, left: &str, right: &str) -> (r: Result<bool, ErrorContext>)
    ensures
        (*operator == Comparison::Equal || *operator == Comparison::NotEqual) <==> r is Ok,
        r matches Ok(b) ==> b == (if *operator == Comparison::Equal {
            left@ == right@
        } else {
            left@ != right@
        }),
        r matches Err(e) ==> e.error_code == ErrorCode::Runtime006 && e.params_view() == seq![
            ("operator"@, operator.text()),
        ],
{
    match operator {
        Comparison::Equal => Ok(str_eq(left, right)),
        Comparison::NotEqual => Ok(!str_eq(left, right)),
        _ => {
            let text = operator.to_string();
            let mut params: Vec<(&str, &str)> = Vec::new();
            params.push(("operator", text.as_str()));
            let e = ErrorContext::new(ErrorCode::Runtime006, 0, 0, params);
            assert(e.params_view() =~= seq![("operator"@, operator.text())]);
            Err(e)
        },
    }
}

/// The value of a literal, typed by what it holds; the null literal has no
/// type and is refused.
pub fn typed_value(literal_value: LiteralValue) -> (r: Result<GreenValue, String>)
    ensures
        r matches Ok(v) ==> Some(v.value_type) == literal_value.type_of() && v.value == literal_value,
        r is Err <==> literal_value.type_of() is None,
        r matches Err(m) ==> m@ == "Null値には未対応"@,
{
    match literal_value {
        LiteralValue::Bool(_) => Ok(GreenValue::new(Type::Bool, literal_value)),
        LiteralValue::Float(_) => Ok(GreenValue::new(Type::Float, literal_value)),
        LiteralValue::Int(_) => Ok(GreenValue::new(Type::Int, literal_value)),
        LiteralValue::String(_) => Ok(GreenValue::new(Type::String, literal_value)),
        LiteralValue::Null => {
            let m = owned("Null値には未対応");
            Err(m)
        },
    }
}

/// Whether the arguments bind to the parameters: each argument has the type
/// of its parameter, the two lists taken side by side as far as both go.
pub open spec fn binds(parameters: Seq<ParameterNode>, values: Seq<GreenValue>) -> bool {
    forall|i: int|
        0 <= i < parameters.len() && i < values.len() ==> (#[trigger] parameters[i]).variable_type
            == values[i].value_type
}

/// The first parameter whose argument has another type.
pub open spec fn first_mismatch(parameters: Seq<ParameterNode>, values: Seq<GreenValue>) -> int {
    choose|i: int|
        0 <= i < parameters.len() && i < values.len() && parameters[i].variable_type != values[i].value_type
            && forall|j: int| 0 <= j < i ==> (#[trigger] parameters[j]).variable_type == values[j].value_type
}

/// The scope after the first `k` parameters are set to their arguments, in
/// order.
pub open spec fn bind_scope(scope: ScopeModel, parameters: Seq<ParameterNode>, values: Seq<GreenValue>, k: int) -> ScopeModel
    decreases k,
{
    if k <= 0 {
        scope
    } else {
        scope_set(
            bind_scope(scope, parameters, values, k - 1),
            parameters[k - 1].name@,
            value_view(values[k - 1]),
        )
    }
}

/// The scopes after the first `k` parameters are set to their arguments in
/// the innermost scope (nothing is set where there is no scope).
pub open spec fn bound(scopes: Seq<ScopeModel>, parameters: Seq<ParameterNode>, values: Seq<GreenValue>, k: int) -> Seq<
    ScopeModel,
> {
    if scopes.len() == 0 {
        scopes
    } else {
        scopes.drop_last().push(bind_scope(scopes.last(), parameters, values, k))
    }
}

/// How many parameters have an argument: the lists taken side by side.
pub open spec fn paired(parameters: Seq<ParameterNode>, values: Seq<GreenValue>) -> int {
    if parameters.len() < values.len() {
        parameters.len() as int
    } else {
        values.len() as int
    }
}

/// Sets each parameter to its argument in the innermost scope, the lists
/// taken side by side as far as both go; stops at the first argument whose
/// type is not its parameter's, with `Runtime013`.
pub fn bind_arguments(
    env: &mut Environment,
    parameters: &Vec<ParameterNode>,
    values: &Vec<GreenValue>,
    function_name: &str,
) -> (r: Result<(), ErrorContext>)
    ensures
        r is Ok <==> binds(parameters@, values@),
        r is Ok ==> final(env).scopes() == bound(old(env).scopes(), parameters@, values@, paired(parameters@, values@)),
        r is Err ==> final(env).scopes() == bound(
            old(env).scopes(),
            parameters@,
            values@,
            first_mismatch(parameters@, values@),
        ),
        r matches Err(e) ==> e.error_code == ErrorCode::Runtime013 && {
            let i = first_mismatch(parameters@, values@);
            e.params_view() == seq![
                ("parameter"@, parameters@[i].variable_type.text()),
                ("argument"@, values@[i].value_type.text()),
                ("function_name"@, function_name@),
                ("param_name"@, parameters@[i].name@),
            ]
        },
{
    let mut i: usize = 0;
    while i < parameters.len() && i < values.len()
        invariant
            i <= parameters@.len(),
            i <= values@.len(),
            forall|j: int| 0 <= j < i ==> (#[trigger] parameters@[j]).variable_type == values@[j].value_type,
            env.scopes() == bound(old(env).scopes(), parameters@, values@, i as int),
        decreases parameters@.len() - i,
    {
        let param = &parameters[i];
        let value = &values[i];
        if param.variable_type == value.value_type {
            let ghost before = env.scopes();
            env.set_variable(&param.name, value);
            proof {
                if before.len() > 0 {
                    assert(before.drop_last() =~= old(env).scopes().drop_last());
                    assert(before.last() == bind_scope(old(env).scopes().last(), parameters@, values@, i as int));
                }
            }
        } else {
            let pt = param.variable_type.to_string();
            let at = value.value_type.to_string();
            let mut params: Vec<(&str, &str)> = Vec::new();
            params.push(("parameter", pt.as_str()));
            params.push(("argument", at.as_str()));
            params.push(("function_name", function_name));
            params.push(("param_name", param.name.as_str()));
            let e = ErrorContext::new(ErrorCode::Runtime013, 0, 0, params);
            proof {
                let k = first_mismatch(parameters@, values@);
                assert(parameters@[i as int].variable_type != values@[i as int].value_type);
                assert(0 <= k < parameters@.len() && k < values@.len() && parameters@[k].variable_type
                    != values@[k].value_type && forall|j: int|
                    0 <= j < k ==> (#[trigger] parameters@[j]).variable_type == values@[j].value_type);
                if k < i {
                    assert(parameters@[k].variable_type == values@[k].value_type);
                }
                if k > i {
                    assert(parameters@[i as int].variable_type == values@[i as int].value_type);
                }
                assert(k == i);
                assert(e.params_view() =~= seq![
                    ("parameter"@, parameters@[k].variable_type.text()),
                    ("argument"@, values@[k].value_type.text()),
                    ("function_name"@, function_name@),
                    ("param_name"@, parameters@[k].name@),
                ]);
            }
            return Err(e);
        }
        i = i + 1;
    }
    proof {
        assert(i as int == paired(parameters@, values@));
    }
    Ok(())
}

/// What resuming a task does first: a completed task cannot be resumed
/// (`Runtime020`); a ready or paused one runs.
pub fn resume_status(task_name: &str, status: TaskStatus) -> (r: Result<TaskStatus, ErrorContext>)
    requires
        status != TaskStatus::Running,
    ensures
        r is Ok <==> status != TaskStatus::Completed,
        r matches Ok(s) ==> s == TaskStatus::Running,
        r matches Err(e) ==> e.error_code == ErrorCode::Runtime020 && e.params_view() == seq![
            ("coroutine_name"@, task_name@),
        ],
{
    match status {
        TaskStatus::Completed => {
            let mut params: Vec<(&str, &str)> = Vec::new();
            params.push(("coroutine_name", task_name));
            let e = ErrorContext::new(ErrorCode::Runtime020, 0, 0, params);
            assert(e.params_view() =~= seq![("coroutine_name"@, task_name@)]);
            Err(e)
        },
        _ => Ok(TaskStatus::Running),
    }
}

/// What a running task does next.
pub enum ResumeAction {
    /// It has run all its statements: it is stored and the resumption ends.
    Finish,
    /// It stands at a `yield`: it steps past it, pauses and is stored.
    Pause,
    /// It runs the statement at this position, then steps.
    Run(usize),
}

/// The next thing a running task does.
pub fn resume_action(task: &CoroutineTask) -> (r: ResumeAction)
    ensures
        task.status == TaskStatus::Completed ==> r is Finish,
        task.status != TaskStatus::Completed ==> (task.current_position < task.process@.len() ==> match r {
            ResumeAction::Pause => task.process@[task.current_position as int] is Yield,
            ResumeAction::Run(i) => i == task.current_position && !(task.process@[i as int] is Yield),
            ResumeAction::Finish => false,
        }),
        task.status != TaskStatus::Completed && task.current_position >= task.process@.len() ==> r is Finish,
{
    if task.status == TaskStatus::Completed || task.current_position >= task.process.len() {
        return ResumeAction::Finish;
    }
    match &task.process[task.current_position] {
        crate::parser::node::PrivateNode::Yield => ResumeAction::Pause,
        _ => ResumeAction::Run(task.current_position),
    }
}

} // verus!
