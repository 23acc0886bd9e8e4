use green::analyzer::semantic::semantic;
use green::analyzer::task_table::{CoroutineTask, TaskStatus, TaskTable};
use green::analyzer::variable_table::VariableTable;
use green::common::types::{BlockType, Type};
use green::error::error_code::ErrorCode;
use green::lexer::lexical_analyzer::lex;
use green::parser::ast::parse;
use green::parser::node::{BlockNode, PrivateNode, RootNode};

fn program(text: &str) -> RootNode {
    let (tokens, errors) = lex(text);
    assert!(errors.is_empty(), "{:?}", errors);
    let (root, errors) = parse(tokens);
    assert!(errors.is_empty(), "{:?}", errors);
    root
}

#[test]
fn semantic_accepts_a_valid_program() {
    let root = program(
        "function sum(first: int, second: int) -> int {\n return first + second;\n}\ncoroutine c() { print(\"A\"); yield; }\nfunction main() {\n let a: int = sum(1, 2);\n coro t = c();\n resume t;\n print(a);\n}\n",
    );
    let analysed = semantic(&root).expect("the program is valid");
    let names: Vec<&str> = analysed.function_infos().iter().map(|f| f.name.as_str()).collect();
    assert!(names.contains(&"print"));
    assert!(names.contains(&"sum"));
    assert!(names.contains(&"main"));
    assert_eq!(analysed.tasks().len(), 1);
    assert_eq!(analysed.tasks()[0].task_name, "t");
    assert_eq!(analysed.tasks()[0].coroutine_name, "c");
    assert_eq!(analysed.tasks()[0].status, TaskStatus::Ready);
}

#[test]
fn semantic_reports_a_value_of_the_wrong_type() {
    let root = program("function main() {\n let a: int = \"x\";\n}\n");
    let errors = semantic(&root).err().expect("the program is wrong");
    assert_eq!(errors.len(), 1);
    assert_eq!(errors[0].error_code, ErrorCode::Semantic006);
    let params: Vec<(&str, &str)> = errors[0].params.iter().map(|(k, v)| (k.as_str(), v.as_str())).collect();
    assert_eq!(params, vec![("variable_name", "a"), ("variable_type", "int"), ("value_type", "string")]);
}

#[test]
fn semantic_reports_unknown_names() {
    let root = program("function main() {\n x = 1;\n nothing(1);\n coro t = none();\n}\n");
    let errors = semantic(&root).err().expect("the program is wrong");
    let codes: Vec<ErrorCode> = errors.iter().map(|e| e.error_code).collect();
    assert_eq!(codes, vec![ErrorCode::Semantic007, ErrorCode::Semantic004, ErrorCode::Semantic004]);
}

#[test]
fn semantic_reports_a_wrong_number_of_arguments() {
    let root = program("function f(a: int) { print(a); }\nfunction main() { f(1, 2); }\n");
    let errors = semantic(&root).err().expect("the program is wrong");
    assert_eq!(errors[0].error_code, ErrorCode::Semantic008);
    let params: Vec<(&str, &str)> = errors[0].params.iter().map(|(k, v)| (k.as_str(), v.as_str())).collect();
    assert_eq!(params, vec![("parameter", "1"), ("argument", "2"), ("name", "f")]);
}

#[test]
fn variable_table_declare_then_lookup() {
    let mut table = VariableTable::new();
    assert_eq!(table.get_type("a"), None);
    table.variable_declare("a", &Type::Int);
    assert_eq!(table.get_type("a"), Some(Type::Int));
    table.push_scope(Some(0));
    assert_eq!(table.get_type("a"), Some(Type::Int));
    table.variable_declare("b", &Type::Bool);
    assert_eq!(table.get_type("b"), Some(Type::Bool));
    table.pop_scope();
    assert_eq!(table.get_type("b"), None);
    assert_eq!(table.get_type("a"), Some(Type::Int));
}

#[test]
fn variable_table_first_declaration_wins() {
    let mut table = VariableTable::new();
    table.variable_declare("a", &Type::Int);
    table.variable_declare("a", &Type::String);
    assert_eq!(table.get_type("a"), Some(Type::Int));
}

#[test]
fn task_table_add_then_get() {
    let mut table = TaskTable::new();
    assert!(table.get_task("t").is_none());
    let body = BlockNode { block_type: BlockType::Coroutine, statements: vec![PrivateNode::Yield] };
    table.add_task("t", "c", &body);
    let task = table.get_task("t").expect("the task was added");
    assert_eq!(task.coroutine_name, "c");
    assert_eq!(task.status, TaskStatus::Ready);
    assert_eq!(task.current_position, 0);
    assert_eq!(task.process, vec![PrivateNode::Yield]);
}

#[test]
fn semantic_reports_an_operand_without_type() {
    let root = program("function main() {\n let a: int = -x;\n}\n");
    let errors = semantic(&root).err().expect("the program is wrong");
    let untyped = errors
        .iter()
        .find(|e| e.error_code == ErrorCode::Semantic003)
        .expect("the operand has no type");
    let shown = format!("{:?}", PrivateNode::Variable { name: "x".to_string() });
    assert_eq!(untyped.params, vec![("node".to_string(), shown)]);
    assert_eq!(errors[0].error_code, ErrorCode::Semantic007);
}

#[test]
fn semantic_errors_come_in_statement_order() {
    let root = program(
        "function main() {\n let a: int = 1;\n let b: int = \"x\";\n let c: int = a;\n y = 2;\n}\n",
    );
    let errors = semantic(&root).err().expect("the program is wrong");
    let codes: Vec<ErrorCode> = errors.iter().map(|e| e.error_code).collect();
    assert_eq!(codes, vec![ErrorCode::Semantic006, ErrorCode::Semantic007]);
}

#[test]
fn task_table_set_under_another_name() {
    let mut table = TaskTable::new();
    let body = BlockNode { block_type: BlockType::Coroutine, statements: vec![PrivateNode::Yield] };
    let mut task = CoroutineTask::new("t", "c", &body);
    task.step();
    table.set_task("alias", task);
    assert!(table.get_task("t").is_none());
    let stored = table.get_task("alias").expect("the task was stored");
    assert_eq!(stored.task_name, "t");
    assert_eq!(stored.current_position, 1);
    assert_eq!(stored.status, TaskStatus::Completed);
}

#[test]
fn semantic_keeps_the_variables_of_each_definition() {
    let root = program(
        "function f() { let a: int = 1; }\ncoroutine f() { let b: bool = true; yield; }\ncoroutine c() { let s: string = \"x\"; yield; }\nfunction main() { f(); }\n",
    );
    let analysed = semantic(&root).expect("the program is valid");
    let f = analysed.function_table.get_function_info("f").expect("f is a function");
    assert_eq!(f.local_variables.get_type("a"), Some(Type::Int));
    assert_eq!(f.local_variables.get_type("b"), Some(Type::Bool));
    let cf = analysed.coroutine_table.get_function_info("f").expect("f is a coroutine");
    assert_eq!(cf.local_variables.get_type("b"), None);
    let c = analysed.coroutine_table.get_function_info("c").expect("c is a coroutine");
    assert_eq!(c.local_variables.get_type("s"), Some(Type::String));
}
