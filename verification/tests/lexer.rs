use green::common::keyword::{BoolKeyword, DeclarationKeyword, TypeName};
use green::common::operator::{Arithmetic, Comparison};
use green::error::error_code::ErrorCode;
use green::lexer::lexical_analyzer::lex;
use green::lexer::token::TokenKind;

fn kinds(text: &str) -> Vec<TokenKind> {
    let (tokens, errors) = lex(text);
    assert!(errors.is_empty(), "unexpected errors: {:?}", errors);
    tokens.into_iter().map(|t| t.kind).collect()
}

#[test]
fn lex_variable_definition() {
    assert_eq!(
        kinds("let a: int = 10;"),
        vec![
            TokenKind::DeclarationKeyword(DeclarationKeyword::Let),
            TokenKind::Identifier("a".to_string()),
            TokenKind::Colon,
            TokenKind::TypeName(TypeName::Int),
            TokenKind::Equal,
            TokenKind::NumberLiteral("10".to_string()),
            TokenKind::Semicolon,
            TokenKind::EOF,
        ]
    );
}

#[test]
fn lex_positions_count_rows_and_columns() {
    let (tokens, errors) = lex("a = 1;\n  b = 2;");
    assert!(errors.is_empty());
    assert_eq!((tokens[0].row, tokens[0].col), (1, 1));
    assert_eq!((tokens[4].row, tokens[4].col), (2, 3));
    let last = tokens.last().unwrap();
    assert_eq!(last.kind, TokenKind::EOF);
}

#[test]
fn lex_operators_and_literals() {
    assert_eq!(
        kinds("x >= 1 and y != 2 or z == true;"),
        vec![
            TokenKind::Identifier("x".to_string()),
            TokenKind::CompareOperator(Comparison::GreaterEqual),
            TokenKind::NumberLiteral("1".to_string()),
            TokenKind::LogicalOperator(green::common::operator::Logical::Binary(
                green::common::operator::BinaryLogical::And
            )),
            TokenKind::Identifier("y".to_string()),
            TokenKind::CompareOperator(Comparison::NotEqual),
            TokenKind::NumberLiteral("2".to_string()),
            TokenKind::LogicalOperator(green::common::operator::Logical::Binary(
                green::common::operator::BinaryLogical::Or
            )),
            TokenKind::Identifier("z".to_string()),
            TokenKind::CompareOperator(Comparison::Equal),
            TokenKind::BoolLiteral(BoolKeyword::True),
            TokenKind::Semicolon,
            TokenKind::EOF,
        ]
    );
}

#[test]
fn lex_arrow_and_arithmetic() {
    assert_eq!(
        kinds(") -> int { a - b * c / d; }"),
        vec![
            TokenKind::RParen,
            TokenKind::RArrow,
            TokenKind::TypeName(TypeName::Int),
            TokenKind::LBrace,
            TokenKind::Identifier("a".to_string()),
            TokenKind::ArithmeticOperator(Arithmetic::Minus),
            TokenKind::Identifier("b".to_string()),
            TokenKind::ArithmeticOperator(Arithmetic::Multiply),
            TokenKind::Identifier("c".to_string()),
            TokenKind::ArithmeticOperator(Arithmetic::Divide),
            TokenKind::Identifier("d".to_string()),
            TokenKind::Semicolon,
            TokenKind::RBrace,
            TokenKind::EOF,
        ]
    );
}

#[test]
fn lex_comments_and_doc_comments() {
    assert_eq!(
        kinds("// note\n/* block\n comment */ /// カウント用の変数\r\nlet x;"),
        vec![
            TokenKind::DocComment(" カウント用の変数".to_string()),
            TokenKind::DeclarationKeyword(DeclarationKeyword::Let),
            TokenKind::Identifier("x".to_string()),
            TokenKind::Semicolon,
            TokenKind::EOF,
        ]
    );
}

#[test]
fn lex_string_literal() {
    assert_eq!(
        kinds("print(\"Hello\");"),
        vec![
            TokenKind::Identifier("print".to_string()),
            TokenKind::LParen,
            TokenKind::StringLiteral("Hello".to_string()),
            TokenKind::RParen,
            TokenKind::Semicolon,
            TokenKind::EOF,
        ]
    );
}

#[test]
fn lex_non_ascii_identifier() {
    assert_eq!(
        kinds("変数 = 1;"),
        vec![
            TokenKind::Identifier("変数".to_string()),
            TokenKind::Equal,
            TokenKind::NumberLiteral("1".to_string()),
            TokenKind::Semicolon,
            TokenKind::EOF,
        ]
    );
}

#[test]
fn lex_empty_text_is_end_marker() {
    assert_eq!(kinds(""), vec![TokenKind::EOF]);
    assert_eq!(kinds("  \n\t"), vec![TokenKind::EOF]);
}

#[test]
fn lex_error_invalid_character() {
    let (tokens, errors) = lex("a = @;");
    assert_eq!(errors.len(), 1);
    assert_eq!(errors[0].error_code, ErrorCode::Lex002);
    assert_eq!(errors[0].params, vec![("char".to_string(), "@".to_string())]);
    assert_eq!((errors[0].row, errors[0].col), (1, 5));
    assert_eq!(tokens.len(), 2);
}

#[test]
fn lex_error_string_broken_by_newline() {
    let (_, errors) = lex("\"abc\ndef\"");
    assert_eq!(errors.len(), 1);
    assert_eq!(errors[0].error_code, ErrorCode::Lex003);
}

#[test]
fn lex_error_text_ends_inside_a_word() {
    let (_, errors) = lex("let abc");
    assert_eq!(errors.len(), 1);
    assert_eq!(errors[0].error_code, ErrorCode::Lex004);
}

#[test]
fn lex_error_unterminated_block_comment() {
    let (_, errors) = lex("/* never closed");
    assert_eq!(errors.len(), 1);
    assert_eq!(errors[0].error_code, ErrorCode::Lex004);
}

#[test]
fn lex_error_unknown_operator() {
    let (_, errors) = lex("a <== b;");
    assert_eq!(errors.len(), 1);
    assert_eq!(errors[0].error_code, ErrorCode::Lex005);
    assert_eq!(errors[0].params, vec![("operator".to_string(), "<==".to_string())]);
    let (_, errors) = lex("!a;");
    assert_eq!(errors[0].error_code, ErrorCode::Lex005);
    assert_eq!(errors[0].params, vec![("operator".to_string(), "!".to_string())]);
}

#[test]
fn lex_tokens_end_with_eof_when_no_error() {
    for text in ["function main() { print(1); }", "coro t = c();", "x", "", "a;b;c;"] {
        let (tokens, errors) = lex(text);
        if errors.is_empty() {
            assert_eq!(tokens.last().map(|t| t.kind.clone()), Some(TokenKind::EOF));
        }
    }
}

#[test]
fn token_kind_to_string_shows_the_token() {
    assert_eq!(TokenKind::RArrow.to_string(), "->");
    assert_eq!(TokenKind::Identifier("abc".to_string()).to_string(), "abc");
    assert_eq!(TokenKind::TypeName(TypeName::Float).to_string(), "float");
    assert_eq!(TokenKind::EOF.to_string(), "EOF");
}
