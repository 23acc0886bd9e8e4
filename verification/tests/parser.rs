use green::common::operator::{Arithmetic, Logical, UnaryLogical};
use green::common::types::{BlockType, LiteralValue, Type};
use green::error::error_code::ErrorCode;
use green::error::error_context::ErrorContext;
use green::lexer::lexical_analyzer::lex;
use green::parser::ast::{parse, parse_i32};
use green::parser::node::{BlockNode, PrivateNode, RootNode};

fn parse_text(text: &str) -> (RootNode, Vec<ErrorContext>) {
    let (tokens, errors) = lex(text);
    assert!(errors.is_empty(), "lexer errors: {:?}", errors);
    parse(tokens)
}

fn lit_int(i: i32) -> Box<PrivateNode> {
    Box::new(PrivateNode::Literal { value: LiteralValue::Int(i) })
}

fn var(name: &str) -> Box<PrivateNode> {
    Box::new(PrivateNode::Variable { name: name.to_string() })
}

fn params(e: &ErrorContext) -> Vec<(&str, &str)> {
    e.params.iter().map(|(k, v)| (k.as_str(), v.as_str())).collect()
}

#[test]
fn parse_function_with_return_type_and_doc() {
    let (root, errors) = parse_text(
        "/// 足し算\nfunction sum(first: int, second: int) -> int {\n  return first + second;\n}\n",
    );
    assert!(errors.is_empty(), "{:?}", errors);
    assert_eq!(root.functions.len(), 1);
    let f = &root.functions[0];
    assert_eq!(f.name, "sum");
    assert_eq!(f.doc, Some("足し算".to_string()));
    assert_eq!(f.return_type, Some(Type::Int));
    assert_eq!(f.parameters.len(), 2);
    assert_eq!(f.parameters[0].name, "first");
    assert_eq!(f.parameters[1].variable_type, Type::Int);
    assert_eq!(
        f.block,
        BlockNode {
            block_type: BlockType::Function,
            statements: vec![PrivateNode::ReturnStatement {
                assignalbe: Box::new(PrivateNode::Arithmetic {
                    operator: Arithmetic::Plus,
                    left: var("first"),
                    right: Some(var("second")),
                }),
            }],
        }
    );
}

#[test]
fn parse_function_without_return_type() {
    let (root, errors) = parse_text("function print_sum(first: int, second: int) {\n  print(first + second);\n}\n");
    assert!(errors.is_empty(), "{:?}", errors);
    let f = &root.functions[0];
    assert_eq!(f.return_type, None);
    assert_eq!(f.doc, None);
    assert_eq!(
        f.block.statements,
        vec![PrivateNode::FunctionCall {
            name: "print".to_string(),
            arguments: vec![PrivateNode::Arithmetic {
                operator: Arithmetic::Plus,
                left: var("first"),
                right: Some(var("second")),
            }],
            return_flg: false,
        }]
    );
}

#[test]
fn parse_declarations_calls_and_assignments() {
    let (root, errors) = parse_text(
        "function main() {\n  let a: int = sum(1, 2);\n  a = a * 3;\n  let s: string;\n}\n",
    );
    assert!(errors.is_empty(), "{:?}", errors);
    assert_eq!(
        root.functions[0].block.statements,
        vec![
            PrivateNode::VariableDeclaration {
                name: "a".to_string(),
                variable_type: Type::Int,
                initializer: Some(Box::new(PrivateNode::FunctionCall {
                    name: "sum".to_string(),
                    arguments: vec![*lit_int(1), *lit_int(2)],
                    return_flg: true,
                })),
                doc: None,
            },
            PrivateNode::VariableAssignment {
                name: "a".to_string(),
                expression: Box::new(PrivateNode::Arithmetic {
                    operator: Arithmetic::Multiply,
                    left: var("a"),
                    right: Some(lit_int(3)),
                }),
            },
            PrivateNode::VariableDeclaration {
                name: "s".to_string(),
                variable_type: Type::String,
                initializer: None,
                doc: None,
            },
        ]
    );
}

#[test]
fn parse_if_else_and_while() {
    let (root, errors) = parse_text(
        "function main() {\n let i: int = 0;\n while (i < 10) { i = i + 1; }\n if (i >= 10 and i < 20) { print(\"OK\"); } else { print(\"NG\"); }\n}\n",
    );
    assert!(errors.is_empty(), "{:?}", errors);
    let statements = &root.functions[0].block.statements;
    assert_eq!(statements.len(), 3);
    match &statements[1] {
        PrivateNode::LoopStatement { block, .. } => {
            assert_eq!(block.block_type, BlockType::Loop);
            assert_eq!(block.statements.len(), 1);
        },
        other => panic!("not a loop: {:?}", other),
    }
    match &statements[2] {
        PrivateNode::IfStatement { then_block, else_block, .. } => {
            assert_eq!(then_block.block_type, BlockType::Conditional);
            assert_eq!(else_block.as_ref().map(|b| b.statements.len()), Some(1));
        },
        other => panic!("not an if: {:?}", other),
    }
}

#[test]
fn parse_coroutine_task_and_resume() {
    let (root, errors) = parse_text(
        "coroutine print_alpha() {\n  print(\"A\");\n  yield;\n  print(\"B\");\n}\nfunction main() {\n  coro task = print_alpha();\n  resume task;\n}\n",
    );
    assert!(errors.is_empty(), "{:?}", errors);
    assert_eq!(root.coroutines.len(), 1);
    assert_eq!(root.coroutines[0].name, "print_alpha");
    assert_eq!(root.coroutines[0].block.block_type, BlockType::Coroutine);
    assert_eq!(root.coroutines[0].block.statements[1], PrivateNode::Yield);
    assert_eq!(
        root.functions[0].block.statements,
        vec![
            PrivateNode::CoroutineInstantiation {
                task_name: "task".to_string(),
                coroutine_name: "print_alpha".to_string(),
            },
            PrivateNode::CoroutineResume { task_name: "task".to_string() },
        ]
    );
}

#[test]
fn parse_process_comment_and_variable_doc() {
    let (root, errors) = parse_text(
        "function main() {\n  /// @process 10回ループ\n  /// カウント用の変数\n  let count: int = 0;\n}\n",
    );
    assert!(errors.is_empty(), "{:?}", errors);
    assert_eq!(
        root.functions[0].block.statements,
        vec![
            PrivateNode::ProcessComment { comment: "10回ループ".to_string() },
            PrivateNode::VariableDeclaration {
                name: "count".to_string(),
                variable_type: Type::Int,
                initializer: Some(lit_int(0)),
                doc: Some("カウント用の変数".to_string()),
            },
        ]
    );
}

#[test]
fn parse_doc_lines_join() {
    let (root, errors) = parse_text("/// first\n/// second\ncoroutine c() { yield; }\n");
    assert!(errors.is_empty(), "{:?}", errors);
    assert_eq!(root.coroutines[0].doc, Some("first\nsecond".to_string()));
}

#[test]
fn parse_literals() {
    let (root, errors) = parse_text(
        "function main() {\n let f: float = 1.5;\n let b: bool = false;\n let n: int = -7;\n let s: string = \"x\";\n}\n",
    );
    assert!(errors.is_empty(), "{:?}", errors);
    let initializers: Vec<PrivateNode> = root.functions[0]
        .block
        .statements
        .iter()
        .map(|s| match s {
            PrivateNode::VariableDeclaration { initializer: Some(i), .. } => (**i).clone_for_test(),
            other => panic!("not a declaration: {:?}", other),
        })
        .collect();
    assert_eq!(initializers[0], PrivateNode::Literal { value: LiteralValue::Float("1.5".to_string()) });
    assert_eq!(initializers[1], PrivateNode::Literal { value: LiteralValue::Bool(false) });
    assert_eq!(initializers[2], PrivateNode::Arithmetic { operator: Arithmetic::Minus, left: lit_int(7), right: None });
    assert_eq!(initializers[3], PrivateNode::Literal { value: LiteralValue::String("x".to_string()) });
}

#[test]
fn parse_not_in_a_condition() {
    let (root, errors) = parse_text("function main() {\n if (not true) { print(1); }\n}\n");
    assert!(errors.is_empty(), "{:?}", errors);
    match &root.functions[0].block.statements[0] {
        PrivateNode::IfStatement { condition_node, else_block, .. } => {
            assert_eq!(
                **condition_node,
                PrivateNode::Logical {
                    operator: Logical::Unary(UnaryLogical::Not),
                    left: Box::new(PrivateNode::Literal { value: LiteralValue::Bool(true) }),
                    right: None,
                }
            );
            assert!(else_block.is_none());
        },
        other => panic!("not an if: {:?}", other),
    }
}

#[test]
fn parse_not_cannot_start_a_value() {
    let (_, errors) = parse_text("function main() { let b: bool = not true; }");
    assert_eq!(errors[0].error_code, ErrorCode::Parse002);
    assert_eq!(params(&errors[0]), vec![("token", "not")]);
}

trait CloneForTest {
    fn clone_for_test(&self) -> Self;
}

impl CloneForTest for PrivateNode {
    fn clone_for_test(&self) -> Self {
        green::parser::node::copy_node(self)
    }
}

#[test]
fn parse_error_number_too_large() {
    let (_, errors) = parse_text("function main() { let a: int = 99999999999; }");
    assert_eq!(errors[0].error_code, ErrorCode::Parse004);
    assert_eq!(params(&errors[0]), vec![("number", "99999999999")]);
}

#[test]
fn parse_error_missing_semicolon() {
    let (root, errors) = parse_text("function main() {\n  let a: int = 1\n}\n");
    assert_eq!(errors.len(), 1);
    assert_eq!(errors[0].error_code, ErrorCode::Parse005);
    assert_eq!(params(&errors[0]), vec![("token", ";")]);
    assert_eq!((errors[0].row, errors[0].col), (3, 1));
    assert_eq!(root.functions.len(), 1);
}

#[test]
fn parse_error_misplaced_statements() {
    let (root, errors) = parse_text("function main() {\n  break;\n  function inner() {}\n}\n");
    let codes: Vec<ErrorCode> = errors.iter().map(|e| e.error_code).collect();
    assert_eq!(codes, vec![ErrorCode::Parse006, ErrorCode::Parse006]);
    assert_eq!(params(&errors[0]), vec![("statement", "break"), ("block", "loop")]);
    assert_eq!(params(&errors[1]), vec![("statement", "function"), ("block", "global_block")]);
    assert_eq!(root.functions.len(), 1);
    assert_eq!(root.functions[0].block.statements, vec![PrivateNode::Break]);
}

#[test]
fn parse_error_unexpected_token() {
    let (_, errors) = parse_text("function main() { ; }");
    assert_eq!(errors[0].error_code, ErrorCode::Parse002);
    assert_eq!(params(&errors[0]), vec![("token", ";")]);
}

#[test]
fn parse_error_running_out_of_tokens() {
    let (_, errors) = parse(Vec::new());
    assert_eq!(errors.len(), 1);
    assert_eq!(errors[0].error_code, ErrorCode::Parse003);
    let (_, errors) = parse_text("function main(");
    assert!(errors.iter().any(|e| e.error_code == ErrorCode::Parse003));
}

#[test]
fn parse_empty_program() {
    let (root, errors) = parse_text("");
    assert!(errors.is_empty());
    assert!(root.functions.is_empty() && root.coroutines.is_empty());
}

#[test]
fn parse_i32_reads_like_std() {
    assert_eq!(parse_i32("0"), Some(0));
    assert_eq!(parse_i32("2147483647"), Some(i32::MAX));
    assert_eq!(parse_i32("2147483648"), None);
    assert_eq!(parse_i32("-2147483648"), Some(i32::MIN));
    assert_eq!(parse_i32("+12"), Some(12));
    assert_eq!(parse_i32(""), None);
    assert_eq!(parse_i32("-"), None);
    assert_eq!(parse_i32("1a"), None);
    for text in ["7", "-31", "0042", "+0", "12x", "99999999999999"] {
        assert_eq!(parse_i32(text), text.parse::<i32>().ok(), "{}", text);
    }
}
