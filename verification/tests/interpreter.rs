use green::analyzer::semantic::semantic;
use green::interpreter::machine::{Action, Event, FloatOp, Machine, RunError};
use green::analyzer::task_table::{CoroutineTask as AnalysedTask, TaskStatus};
use green::common::operator::{Arithmetic, BinaryLogical, Comparison, UnaryLogical};
use green::common::types::{BlockType, GreenValue, LiteralValue, Type};
use green::error::error_code::ErrorCode;
use green::interpreter::coroutine::{CoroutineManager, CoroutineStatus, CoroutineTask};
use green::interpreter::environment::Environment;
use green::interpreter::execute::{
    EvalFlow, ResumeAction, after_loop_body, call_outcome, condition_branch, binary_logical_operations, bind_arguments, compare_ints, compare_strings, int_arithmetic,
    int_negate, resume_action, resume_status, typed_value, unary_logical_operations,
};
use green::interpreter::function::FunctionManager;
use green::parser::node::{BlockNode, ParameterNode, PrivateNode};

fn value(t: Type, v: LiteralValue) -> GreenValue {
    GreenValue::new(t, v)
}

fn params(e: &green::error::error_context::ErrorContext) -> Vec<(&str, &str)> {
    e.params.iter().map(|(k, v)| (k.as_str(), v.as_str())).collect()
}

#[test]
fn environment_set_then_get() {
    let mut env = Environment::new();
    env.set_variable(&"a".to_string(), &value(Type::Int, LiteralValue::Int(1)));
    assert_eq!(env.get_variable("a"), Ok(LiteralValue::Int(1)));
    env.set_variable(&"a".to_string(), &value(Type::Int, LiteralValue::Int(2)));
    assert_eq!(env.get_variable("a"), Ok(LiteralValue::Int(2)));
}

#[test]
fn environment_scopes_shadow_and_close() {
    let mut env = Environment::new();
    env.set_variable(&"a".to_string(), &value(Type::Int, LiteralValue::Int(1)));
    env.push_scope();
    assert_eq!(env.get_variable("a"), Ok(LiteralValue::Int(1)));
    env.set_variable(&"a".to_string(), &value(Type::String, LiteralValue::String("inner".to_string())));
    assert_eq!(env.get_variable("a"), Ok(LiteralValue::String("inner".to_string())));
    env.pop_scope();
    assert_eq!(env.get_variable("a"), Ok(LiteralValue::Int(1)));
}

#[test]
fn environment_missing_variable() {
    let mut env = Environment::new();
    let e = env.get_variable("nothing").unwrap_err();
    assert_eq!(e.error_code, ErrorCode::Runtime007);
    assert_eq!(params(&e), vec![("variable", "nothing")]);
    let e = env.change_variable("nothing".to_string(), value(Type::Int, LiteralValue::Int(0))).unwrap_err();
    assert_eq!(e.error_code, ErrorCode::Runtime007);
}

#[test]
fn environment_change_keeps_type() {
    let mut env = Environment::new();
    env.set_variable(&"a".to_string(), &value(Type::Int, LiteralValue::Int(1)));
    env.push_scope();
    assert_eq!(env.change_variable("a".to_string(), value(Type::Int, LiteralValue::Int(5))), Ok(()));
    env.pop_scope();
    assert_eq!(env.get_variable("a"), Ok(LiteralValue::Int(5)));
    let e = env.change_variable("a".to_string(), value(Type::Bool, LiteralValue::Bool(true))).unwrap_err();
    assert_eq!(e.error_code, ErrorCode::Runtime010);
    assert_eq!(params(&e), vec![("variable_type", "int"), ("value_type", "bool"), ("name", "a")]);
    assert_eq!(env.get_variable("a"), Ok(LiteralValue::Int(5)));
}

#[test]
fn function_manager_add_then_get() {
    let mut manager = FunctionManager::new();
    assert!(manager.get_function("f").is_none());
    manager.add_def("f", vec![("x".to_string(), Type::Int)], &PrivateNode::Break);
    manager.add_def("f", vec![], &PrivateNode::Continue);
    let def = manager.get_function("f").expect("defined");
    assert_eq!(def.name, "f");
    assert!(def.parameters.is_empty());
    assert_eq!(def.process, PrivateNode::Continue);
    assert_eq!(manager.function_defs.len(), 1);
}

#[test]
fn coroutine_task_runs_to_completion() {
    let body = BlockNode { block_type: BlockType::Coroutine, statements: vec![PrivateNode::Yield, PrivateNode::Break] };
    let mut task = CoroutineTask::new("t", &body);
    assert_eq!(task.status, CoroutineStatus::Ready);
    task.step();
    assert_eq!((task.current_position, task.status), (1, CoroutineStatus::Ready));
    task.step();
    assert_eq!((task.current_position, task.status), (2, CoroutineStatus::Completed));
}

#[test]
fn coroutine_manager_tasks() {
    let mut manager = CoroutineManager::new();
    let e = manager.add_task("t", "c").unwrap_err();
    assert_eq!(e.error_code, ErrorCode::Runtime019);
    assert_eq!(params(&e), vec![("coroutine", "c")]);
    let body = BlockNode { block_type: BlockType::Coroutine, statements: vec![PrivateNode::Yield] };
    manager.add_def("c", &body);
    assert_eq!(manager.add_task("t", "c"), Ok(()));
    let mut task = manager.get_task("t").expect("the task exists");
    assert_eq!(task.task_name, "t");
    assert_eq!(task.process, vec![PrivateNode::Yield]);
    task.step();
    manager.set_task("t", task);
    assert_eq!(manager.get_task("t").unwrap().status, CoroutineStatus::Completed);
    let e = manager.get_task("u").unwrap_err();
    assert_eq!(params(&e), vec![("coroutine", "u")]);
}

#[test]
fn logical_operators() {
    assert!(!unary_logical_operations(&UnaryLogical::Not, true));
    for (l, r) in [(false, false), (false, true), (true, false), (true, true)] {
        assert_eq!(binary_logical_operations(&BinaryLogical::And, l, r), l && r);
        assert_eq!(binary_logical_operations(&BinaryLogical::Or, l, r), l || r);
        assert_eq!(binary_logical_operations(&BinaryLogical::Xor, l, r), l != r);
    }
}

#[test]
fn integer_arithmetic() {
    assert_eq!(int_arithmetic(Arithmetic::Plus, 2, 3), Some(5));
    assert_eq!(int_arithmetic(Arithmetic::Minus, 2, 3), Some(-1));
    assert_eq!(int_arithmetic(Arithmetic::Multiply, -4, 3), Some(-12));
    assert_eq!(int_arithmetic(Arithmetic::Divide, 7, 2), Some(3));
    assert_eq!(int_arithmetic(Arithmetic::Divide, -7, 2), Some(-3));
    assert_eq!(int_arithmetic(Arithmetic::Divide, 1, 0), None);
    assert_eq!(int_arithmetic(Arithmetic::Plus, i32::MAX, 1), None);
    assert_eq!(int_arithmetic(Arithmetic::Divide, i32::MIN, -1), None);
    assert_eq!(int_negate(5), Some(-5));
    assert_eq!(int_negate(i32::MIN), None);
}

#[test]
fn comparisons() {
    assert!(compare_ints(&Comparison::Less, 1, 2));
    assert!(!compare_ints(&Comparison::GreaterEqual, 1, 2));
    assert!(compare_ints(&Comparison::NotEqual, 1, 2));
    assert_eq!(compare_strings(&Comparison::Equal, "a", "a"), Ok(true));
    assert_eq!(compare_strings(&Comparison::NotEqual, "a", "a"), Ok(false));
    let e = compare_strings(&Comparison::Less, "a", "b").unwrap_err();
    assert_eq!(e.error_code, ErrorCode::Runtime006);
    assert_eq!(params(&e), vec![("operator", "<")]);
}

#[test]
fn literal_values_are_typed() {
    assert_eq!(typed_value(LiteralValue::Int(3)), Ok(value(Type::Int, LiteralValue::Int(3))));
    assert_eq!(
        typed_value(LiteralValue::Float("1.5".to_string())),
        Ok(value(Type::Float, LiteralValue::Float("1.5".to_string())))
    );
    assert!(typed_value(LiteralValue::Null).is_err());
    assert_eq!(LiteralValue::Int(-42).to_string(), "-42");
    assert_eq!(LiteralValue::Bool(false).to_string(), "false");
    assert_eq!(LiteralValue::Null.to_string(), "Null");
}

#[test]
fn arguments_bind_to_parameters() {
    let parameters = vec![
        ParameterNode { name: "x".to_string(), variable_type: Type::Int },
        ParameterNode { name: "y".to_string(), variable_type: Type::Bool },
    ];
    let mut env = Environment::new();
    let ok = vec![value(Type::Int, LiteralValue::Int(1)), value(Type::Bool, LiteralValue::Bool(true))];
    assert_eq!(bind_arguments(&mut env, &parameters, &ok, "f"), Ok(()));
    assert_eq!(env.get_variable("y"), Ok(LiteralValue::Bool(true)));
    let wrong = vec![value(Type::Int, LiteralValue::Int(1)), value(Type::Int, LiteralValue::Int(2))];
    let e = bind_arguments(&mut env, &parameters, &wrong, "f").unwrap_err();
    assert_eq!(e.error_code, ErrorCode::Runtime013);
    assert_eq!(params(&e), vec![("parameter", "bool"), ("argument", "int"), ("function_name", "f"), ("param_name", "y")]);
}

#[test]
fn resuming_tasks() {
    let e = resume_status("t", TaskStatus::Completed).unwrap_err();
    assert_eq!(e.error_code, ErrorCode::Runtime020);
    assert_eq!(params(&e), vec![("coroutine_name", "t")]);
    assert_eq!(resume_status("t", TaskStatus::Paused).ok(), Some(TaskStatus::Running));
    let body = BlockNode { block_type: BlockType::Coroutine, statements: vec![PrivateNode::Break, PrivateNode::Yield] };
    let mut task = AnalysedTask::new("t", "c", &body);
    assert!(matches!(resume_action(&task), ResumeAction::Run(0)));
    task.step();
    assert!(matches!(resume_action(&task), ResumeAction::Pause));
    task.step();
    assert!(matches!(resume_action(&task), ResumeAction::Finish));
}

#[test]
fn condition_selects_by_bool() {
    assert_eq!(condition_branch(&LiteralValue::Bool(true)), Some(true));
    assert_eq!(condition_branch(&LiteralValue::Bool(false)), Some(false));
    assert_eq!(condition_branch(&LiteralValue::Int(1)), None);
    assert_eq!(condition_branch(&LiteralValue::String("true".to_string())), None);
}

#[test]
fn loop_body_flow() {
    assert!(after_loop_body::<i32>(EvalFlow::Normal).is_none());
    assert!(after_loop_body::<i32>(EvalFlow::Continue).is_none());
    assert!(matches!(after_loop_body::<i32>(EvalFlow::Break), Some(EvalFlow::Normal)));
    assert!(matches!(after_loop_body(EvalFlow::Return(7)), Some(EvalFlow::Return(7))));
}

#[test]
fn call_flow() {
    assert!(matches!(call_outcome(EvalFlow::Return(3)), Ok(Some(3))));
    assert!(matches!(call_outcome::<i32>(EvalFlow::Normal), Ok(None)));
    assert!(matches!(call_outcome::<i32>(EvalFlow::Break), Err(EvalFlow::Break)));
    assert!(matches!(call_outcome::<i32>(EvalFlow::Continue), Err(EvalFlow::Continue)));
}

fn run_program(text: &str) -> (Vec<String>, Result<(), String>) {
    let (tokens, errors) = green::lexer::lexical_analyzer::lex(text);
    assert!(errors.is_empty(), "{:?}", errors);
    let (root, errors) = green::parser::ast::parse(tokens);
    assert!(errors.is_empty(), "{:?}", errors);
    let analysed = semantic(&root).expect("the program is valid");
    let mut machine = Machine::new(analysed);
    let mut lines = Vec::new();
    let mut event = Event::Next;
    loop {
        match machine.step(event) {
            Action::Next => event = Event::Next,
            Action::Print(line) => {
                lines.push(line);
                event = Event::Next;
            },
            Action::Float(op) => {
                let num = |v: &LiteralValue| match v {
                    LiteralValue::Int(i) => *i as f64,
                    LiteralValue::Float(t) => t.parse::<f64>().unwrap(),
                    _ => f64::NAN,
                };
                let result = match op {
                    FloatOp::Literal(t) => LiteralValue::Float(format!("{}", t.parse::<f64>().unwrap())),
                    FloatOp::Negate(t) => LiteralValue::Float(format!("{}", -t.parse::<f64>().unwrap())),
                    FloatOp::Arith(Arithmetic::Plus, l, r) => LiteralValue::Float(format!("{}", num(&l) + num(&r))),
                    FloatOp::Arith(Arithmetic::Minus, l, r) => LiteralValue::Float(format!("{}", num(&l) - num(&r))),
                    FloatOp::Arith(Arithmetic::Multiply, l, r) => LiteralValue::Float(format!("{}", num(&l) * num(&r))),
                    FloatOp::Arith(Arithmetic::Divide, l, r) => LiteralValue::Float(format!("{}", num(&l) / num(&r))),
                    FloatOp::Compare(Comparison::Less, l, r) => LiteralValue::Bool(num(&l) < num(&r)),
                    FloatOp::Compare(_, l, r) => LiteralValue::Bool(num(&l) == num(&r)),
                };
                event = Event::Float(result);
            },
            Action::Panic(message) => return (lines, Err(format!("panic: {}", message))),
            Action::Done(Ok(())) | Action::Stopped => return (lines, Ok(())),
            Action::Done(Err(RunError::Report(e))) => return (lines, Err(format!("{:?}", e.error_code))),
            Action::Done(Err(RunError::Text(t))) => return (lines, Err(t)),
        }
    }
}

#[test]
fn machine_prints_its_arguments() {
    let (lines, r) = run_program("function main() {\n print(1, \"a\", true);\n print();\n}\n");
    assert_eq!(r, Ok(()));
    assert_eq!(lines, vec!["1 a true".to_string(), "".to_string()]);
}

#[test]
fn machine_while_repeats_while_true() {
    let (lines, r) = run_program(
        "function main() {\n let i: int = 0;\n while (i < 3) { print(i); i = i + 1; }\n print(\"end\");\n}\n",
    );
    assert_eq!(r, Ok(()));
    assert_eq!(lines, vec!["0", "1", "2", "end"]);
}

#[test]
fn machine_if_else() {
    let (lines, r) = run_program(
        "function main() {\n let i: int = 5;\n if (i >= 10) { print(\"big\"); } else { print(\"small\"); }\n}\n",
    );
    assert_eq!(r, Ok(()));
    assert_eq!(lines, vec!["small"]);
}

#[test]
fn machine_return_ends_the_call() {
    let (lines, r) = run_program(
        "function f(a: int) -> int {\n while (true) { if (a > 1) { return a * 10; } print(\"no\"); return 0; }\n print(\"never\");\n return 1;\n}\nfunction main() {\n let x: int = f(2);\n print(x);\n print(f(0));\n}\n",
    );
    assert_eq!(r, Ok(()));
    assert_eq!(lines, vec!["20", "no", "0"]);
}

#[test]
fn machine_resume_runs_to_the_next_yield() {
    let (lines, r) = run_program(
        "coroutine c() { print(\"A\"); yield; print(\"B\"); yield; print(\"C\"); }\nfunction main() {\n coro t = c();\n resume t;\n print(\"1\");\n resume t;\n print(\"2\");\n resume t;\n print(\"3\");\n}\n",
    );
    assert_eq!(r, Ok(()));
    assert_eq!(lines, vec!["A", "1", "B", "2", "C", "3"]);
}

#[test]
fn machine_resume_of_a_completed_task_fails() {
    let (lines, r) = run_program(
        "coroutine c() { print(\"A\"); }\nfunction main() {\n coro t = c();\n resume t;\n resume t;\n}\n",
    );
    assert_eq!(lines, vec!["A"]);
    assert_eq!(r, Err("Runtime020".to_string()));
}

#[test]
fn machine_asks_for_floating_point_operations() {
    let (lines, r) = run_program(
        "function main() {\n let f: float = 1.50 + 2.25;\n print(f);\n print(-f);\n print(1.50);\n print(f < 4.0);\n}\n",
    );
    assert_eq!(r, Ok(()));
    assert_eq!(lines, vec!["3.75", "-3.75", "1.5", "true"]);
}

#[test]
fn machine_reports_an_ordering_of_strings() {
    let (lines, r) = run_program("function main() {\n print(\"a\" == \"a\");\n print(\"a\" < \"b\");\n}\n");
    assert_eq!(lines, vec!["true"]);
    assert_eq!(r, Err("Runtime006".to_string()));
}

#[test]
fn machine_panics_on_division_by_zero() {
    let (_, r) = run_program("function main() {\n let a: int = 0;\n print(1 / a);\n}\n");
    assert_eq!(r, Err("panic: attempt to divide by zero".to_string()));
}
