use green::analyzer::semantic::semantic;
use green::cli_arg_parse::{Config, RunMode};
use green::common::keyword::{ControlKeyword, CoroutineControl, DeclarationKeyword, TypeName};
use green::common::operator::{Arithmetic, Comparison, Logical};
use green::common::types::{BlockType, Type};
use green::error::error_code::ErrorCode;
use green::error::error_context::ErrorContext;
use green::error::error_message::{ErrorMessage, with_location};
use green::lexer::lexical_analyzer::lex;
use green::parser::ast::parse;
use green::utils::ast_to_json::JsonData;
use green::utils::{get_error_message, get_error_message_with_location};

const TABLE: &str = r#"{
  "CMD001": "不明なオプション: {option}",
  "CMD002": "引数の数が正しくありません",
  "PARSE005": "{row}行{col}列: '{token}' が必要です",
  "SEMANTIC006": "{variable_name}: {variable_type} に {value_type} は代入できません"
}"#;

#[test]
fn error_message_fills_parameters() {
    assert_eq!(
        get_error_message(TABLE, "CMD001", &[("option", "-x")]),
        Ok("不明なオプション: -x".to_string())
    );
    assert_eq!(get_error_message(TABLE, "CMD002", &[]), Ok("引数の数が正しくありません".to_string()));
}

#[test]
fn error_message_unknown_code() {
    assert_eq!(get_error_message(TABLE, "NOPE", &[]), Err("不正なエラーコード: NOPE".to_string()));
}

#[test]
fn error_message_bad_json() {
    let r = get_error_message("{ not json", "CMD001", &[]);
    assert!(r.unwrap_err().starts_with("JSONパースエラー: "));
}

#[test]
fn error_message_with_location() {
    assert_eq!(
        get_error_message_with_location(TABLE, "PARSE005", 3, 14, &[("token", ";")]),
        Ok("3行14列: ';' が必要です".to_string())
    );
    assert_eq!(with_location("no place", 1, 2), "no place");
    assert_eq!(with_location("{row}:{col}:{row}", 10, 0), "10:0:10");
}

#[test]
fn error_message_table_renders_contexts() {
    let table = ErrorMessage::from_json(TABLE).expect("valid JSON");
    let error = ErrorContext::new(
        ErrorCode::Semantic006,
        0,
        0,
        vec![("variable_name", "a"), ("variable_type", "int"), ("value_type", "string")],
    );
    assert_eq!(table.get_error_message(&error), Ok("a: int に string は代入できません".to_string()));
    let located = ErrorContext::new(ErrorCode::Parse005, 2, 7, vec![("token", "}")]);
    assert_eq!(table.get_error_message_with_location(located), Ok("2行7列: '}' が必要です".to_string()));
    let unknown = ErrorContext::new(ErrorCode::Io001, 0, 0, vec![]);
    assert_eq!(table.get_error_message(&unknown), Err("不正なエラーコード: IO001".to_string()));
    assert!(ErrorMessage::from_json("[").is_err());
}

#[test]
fn command_line_arguments() {
    let args = |v: &[&str]| v.iter().map(|s| s.to_string()).collect::<Vec<String>>();
    let c = Config::new(&args(&["green"]), TABLE).ok().unwrap();
    assert!(c.option == RunMode::Execute && c.file_path == "main.grn");
    let c = Config::new(&args(&["green", "a.grn"]), TABLE).ok().unwrap();
    assert!(c.option == RunMode::Execute && c.file_path == "a.grn");
    let c = Config::new(&args(&["green", "-ana", "b.grn"]), TABLE).ok().unwrap();
    assert!(c.option == RunMode::Analysis && c.file_path == "b.grn");
    assert_eq!(Config::new(&args(&["green", "-x", "b.grn"]), TABLE).err(), Some("不明なオプション: -x".to_string()));
    assert_eq!(Config::new(&args(&["green", "a", "b", "c"]), TABLE).err(), Some("引数の数が正しくありません".to_string()));
    assert!(RunMode::from_str("-exe", TABLE).ok() == Some(RunMode::Execute));
}

#[test]
fn structure_of_a_program() {
    let text = "/// 足す\nfunction add(a: int) -> int {\n  /// @process 計算\n  return a + 1;\n}\ncoroutine c() {\n  yield;\n}\nfunction main() {\n  let x: int = add(1);\n  coro t = c();\n  resume t;\n  print(x);\n}\n";
    let (tokens, errors) = lex(text);
    assert!(errors.is_empty());
    let (root, errors) = parse(tokens);
    assert!(errors.is_empty(), "{:?}", errors);
    let analysed = semantic(&root).expect("valid");
    let data = JsonData::new(&analysed);
    let definitions: Vec<(String, String, String, String)> = data
        .definitions
        .iter()
        .map(|d| (d.name.clone(), d.kind.clone(), d.doc.clone(), d.reference.clone()))
        .collect();
    assert!(definitions.contains(&("add".to_string(), "function".to_string(), "足す".to_string(), String::new())));
    assert!(definitions.contains(&("t".to_string(), "coroutine".to_string(), String::new(), "c".to_string())));
    assert!(!definitions.iter().any(|d| d.0 == "print"));
    let find = |name: &str| {
        data.structures
            .iter()
            .find(|(n, _)| n == name)
            .map(|(_, v)| v.iter().map(|d| (d.kind.clone(), d.key.clone(), d.value.clone())).collect::<Vec<_>>())
            .unwrap()
    };
    assert_eq!(find("add"), vec![("doc".to_string(), "string".to_string(), "計算".to_string())]);
    assert_eq!(
        find("main"),
        vec![
            ("function_call".to_string(), "target".to_string(), "add".to_string()),
            ("task_resume".to_string(), "target".to_string(), "t".to_string()),
        ]
    );
    assert_eq!(find("t"), vec![("yield".to_string(), "target".to_string(), "main".to_string())]);
}

#[test]
fn keywords_and_operators_spell_back() {
    for k in [ControlKeyword::If, ControlKeyword::Else, ControlKeyword::While] {
        assert_eq!(ControlKeyword::from_str(&k.to_string()), Some(k));
    }
    assert_eq!(DeclarationKeyword::from_str("coro"), Some(DeclarationKeyword::Coro));
    assert_eq!(TypeName::from_str("string"), Some(TypeName::String));
    assert_eq!(CoroutineControl::from_str("yield"), Some(CoroutineControl::Yield));
    assert_eq!(TypeName::from_str("str"), None);
    assert_eq!(Arithmetic::from_str("*"), Some(Arithmetic::Multiply));
    assert_eq!(Comparison::from_str("<="), Some(Comparison::LessEqual));
    assert_eq!(Logical::from_str("xor").map(|l| l.to_string()), Some("xor".to_string()));
    assert_eq!(Type::Float.to_string(), "float");
    assert_eq!(BlockType::Coroutine.to_string(), "Coroutine");
    assert_eq!(ErrorCode::Parse005.to_string(), "PARSE005");
}

#[test]
fn located_message_follows_the_plain_one() {
    let plain = get_error_message(TABLE, "PARSE005", &[("token", ";")]).unwrap();
    let located = get_error_message_with_location(TABLE, "PARSE005", 4, 9, &[("token", ";")]).unwrap();
    assert_eq!(located, plain.replace("{row}", "4").replace("{col}", "9"));
    assert_eq!(located, "4行9列: ';' が必要です");
    assert_eq!(
        get_error_message_with_location("{ not json", "PARSE005", 1, 1, &[]),
        get_error_message("{ not json", "PARSE005", &[])
    );
    assert_eq!(
        get_error_message_with_location(TABLE, "NOPE", 1, 1, &[]),
        get_error_message(TABLE, "NOPE", &[])
    );
}
