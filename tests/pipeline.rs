use collage::binder::{Binder, BoundExpression, BoundType};
use collage::compilation::Compilation;
use collage::diagnostic::{DiagnosticHolder, Unit};
use collage::lexer::{Lexer, Token, Type};
use collage::parser::{Expression, Parser};
use collage::runtime::{Evaluator, Operator, Value};
use collage::utils::to_string;

fn read_number(s: String) -> f64 {
    s.parse::<f64>().unwrap()
}

fn negate(a: f64) -> f64 {
    -a
}

fn apply(op: Operator, a: f64, b: f64) -> f64 {
    match op {
        Operator::Add => a + b,
        Operator::Subtract => a - b,
        Operator::Multiply => a * b,
        Operator::Divide => a / b,
        Operator::Remainder => a % b,
    }
}

fn show(a: f64) -> String {
    a.to_string()
}

fn messages(holder: &DiagnosticHolder) -> Vec<String> {
    holder
        .diagonistic_units
        .iter()
        .map(|u| match u {
            Unit::Error(m) => m.clone(),
            Unit::Warning(m) => m.clone(),
        })
        .collect()
}

fn eval_test(source_code: &str, expected_result: &str) {
    let mut diagnostic_holder = DiagnosticHolder::new();
    let mut lexer = Lexer::new(source_code.trim().to_string());
    let tokens = lexer.lex(&mut diagnostic_holder);
    assert!(diagnostic_holder.success());

    let mut parser = Parser::new(tokens);
    let tree = parser.parse(&mut diagnostic_holder);
    assert!(diagnostic_holder.success());

    let binder = Binder::new();
    let bound_expression = binder.bind_expression(tree.root_expression, &mut diagnostic_holder);
    assert!(diagnostic_holder.success());

    let evaluator = Evaluator::new(bound_expression.unwrap());
    let result = evaluator.eval(&diagnostic_holder, &read_number, &negate, &apply, &show);
    assert!(diagnostic_holder.success());

    assert_eq!(to_string(&result, &show), expected_result);
}

fn parsing_error_test(source_code: &str, expected_messages: &[&str]) {
    let mut diagnostic_holder = DiagnosticHolder::new();
    let mut lexer = Lexer::new(source_code.trim().to_string());
    let tokens = lexer.lex(&mut diagnostic_holder);
    assert!(diagnostic_holder.success());

    let mut parser = Parser::new(tokens);
    let tree = parser.parse(&mut diagnostic_holder);

    let binder = Binder::new();
    std::mem::drop(binder.bind_expression(tree.root_expression, &mut diagnostic_holder));

    assert!(!diagnostic_holder.success());
    assert_eq!(messages(&diagnostic_holder), expected_messages);
}

fn run(source: &str) -> (Value<f64>, Vec<String>) {
    let mut compilation = Compilation::new(source.to_string());
    let value = compilation.eval(&read_number, &negate, &apply, &show);
    let rendered = compilation.holder.diagonistic_units.iter().map(|u| u.to_string()).collect();
    (value, rendered)
}

#[test]
fn string_literal_test() {
    eval_test("\"Hi\"", "Hi");
}

#[test]
fn bool_literal_test() {
    eval_test("true", "true");
    eval_test("false", "false");
}

#[test]
fn integer_literal_expression() {
    eval_test("1", "1");
}

#[test]
fn float_literal_expression_a() {
    eval_test("1.", "1");
}

#[test]
fn float_literal_expression_b() {
    eval_test("1.0", "1");
}

#[test]
fn addition_expression() {
    eval_test("1 + 2 + 3", "6");
}

#[test]
fn subtraction_expression() {
    eval_test("1 - 2 - 3", "-4");
}

#[test]
fn multiplication_expression() {
    eval_test("1 * 2 * 3", "6");
}

#[test]
fn division_expression() {
    eval_test("10 / 2 / 5", "1");
}

#[test]
fn remainder_expression() {
    eval_test("10 % 4 % 2", "0");
}

#[test]
fn parenthesis_expression() {
    eval_test("(20 + 1) * 5", "105");
}

#[test]
fn precedence_test() {
    eval_test("10 + 1 * 5", "15");
}

#[test]
fn positive_expression_test() {
    eval_test("+1 + 1", "2");
}

#[test]
fn negative_expression_test() {
    eval_test("-1 + 1", "0");
}

#[test]
fn not_expression_test() {
    eval_test("!true", "false");
}

#[test]
fn or_expression_test() {
    eval_test("true || false", "true");
}

#[test]
fn and_expression_test() {
    eval_test("true && true", "true");
}

#[test]
fn equal_expression_test() {
    eval_test("1 == 1", "true");
}

#[test]
fn not_equal_expression_test() {
    eval_test("1 != 1", "false");
}

#[test]
fn type_check_test_a() {
    parsing_error_test("1 || true", &["Cannot apply logical OR on type \"number\" and \"bool\""]);
}

#[test]
fn type_check_and_reversed_operands() {
    parsing_error_test("true && 2", &["Cannot apply logical AND on type \"bool\" and \"number\""]);
}

#[test]
fn unary_type_errors() {
    parsing_error_test("+true", &["Cannot apply positive on type \"bool\""]);
    parsing_error_test("-\"a\"", &["Cannot apply negative on type \"string\""]);
    parsing_error_test("!1", &["Cannot apply logical NOT on type \"number\""]);
}

#[test]
fn arithmetic_type_errors() {
    parsing_error_test("1 + true", &["Cannot apply addition on type \"number\" and \"bool\""]);
    parsing_error_test("\"a\" - 1", &["Cannot apply subtraction on type \"string\" and \"number\""]);
    parsing_error_test("x * 1", &["Cannot apply multiplication on type \"unidentified\" and \"number\""]);
    parsing_error_test("1 / false", &["Cannot apply division on type \"number\" and \"bool\""]);
    parsing_error_test("true % 1", &["Cannot apply remainder on type \"bool\" and \"number\""]);
}

#[test]
fn comparison_type_errors() {
    parsing_error_test("x == 1", &["Cannot apply equality on type \"unidentified\" and \"number\""]);
    parsing_error_test("1 != y", &["Cannot apply inequality on type \"number\" and \"unidentified\""]);
}

#[test]
fn independent_type_errors_are_all_reported() {
    parsing_error_test(
        "(1 + true ) * \"a\"",
        &[
            "Cannot apply addition on type \"number\" and \"bool\"",
            "Cannot apply multiplication on type \"number\" and \"string\"",
        ],
    );
}

#[test]
fn missing_operand_is_unidentified() {
    parsing_error_test("1 +", &["Cannot apply addition on type \"number\" and \"unidentified\""]);
    parsing_error_test("-", &["Cannot apply negative on type \"unidentified\""]);
}

#[test]
fn unknown_token_in_primary_position() {
    let (value, rendered) = run(")");
    assert_eq!(value, Value::Error);
    assert_eq!(rendered, vec!["Error: Unknown expression: )".to_string()]);
}

#[test]
fn second_dot_in_number_is_reported() {
    let mut holder = DiagnosticHolder::new();
    let mut lexer = Lexer::new("1.2.3".to_string());
    let tokens = lexer.lex(&mut holder);
    assert_eq!(tokens, vec![Token::new("1.2.3", Type::Number)]);
    assert_eq!(
        messages(&holder),
        vec!["Unknown number scheme, only one dot is allowed for float numbers.".to_string()]
    );
    let mut holder = DiagnosticHolder::new();
    let mut lexer = Lexer::new("1...".to_string());
    let _ = lexer.lex(&mut holder);
    assert_eq!(holder.diagonistic_units.len(), 2);
}

#[test]
fn lexer_punctuation() {
    let mut holder = DiagnosticHolder::new();
    let mut lexer = Lexer::new("-> :: : ~ | || && == != ( ) * / %".to_string());
    let tokens = lexer.lex(&mut holder);
    let kinds: Vec<Type> = tokens.iter().map(|t| t.token_type).collect();
    assert_eq!(
        kinds,
        vec![
            Type::Arrow,
            Type::DoubleColon,
            Type::Tilde,
            Type::VerticalBar,
            Type::DoublePipe,
            Type::DoubleAmpersand,
            Type::DoubleEqual,
            Type::BangEqual,
            Type::OpenParenthesis,
            Type::CloseParenthesis,
            Type::Star,
            Type::Slash,
            Type::Percent,
        ]
    );
    assert!(holder.success());
}

#[test]
fn lexer_words_and_strings() {
    let mut holder = DiagnosticHolder::new();
    let mut lexer = Lexer::new("ab+c \"x y\" \"open".to_string());
    let tokens = lexer.lex(&mut holder);
    assert_eq!(
        tokens,
        vec![
            Token::new("ab+c", Type::Identifier),
            Token::new("x y", Type::Literal),
            Token::new("open", Type::Literal),
        ]
    );
}

#[test]
fn lexer_counts_grapheme_clusters() {
    let mut holder = DiagnosticHolder::new();
    let mut lexer = Lexer::new("e\u{301}9 x\r\ny".to_string());
    let tokens = lexer.lex(&mut holder);
    assert_eq!(
        tokens,
        vec![Token::new("e\u{301}9", Type::Identifier), Token::new("x", Type::Identifier), Token::new("y", Type::Identifier)]
    );
    let mut lexer = Lexer::new("9.5".to_string());
    let tokens = lexer.lex(&mut holder);
    assert_eq!(tokens, vec![Token::new("9.5", Type::Number)]);
}

#[test]
fn lex_segments_takes_segmentation() {
    let mut holder = DiagnosticHolder::new();
    let mut lexer = Lexer::new(String::new());
    let segments = vec!["-".to_string(), ">".to_string(), "1".to_string()];
    let tokens = lexer.lex_segments(&segments, &mut holder);
    assert_eq!(tokens, vec![Token::new("->", Type::Arrow), Token::new("1", Type::Number)]);
}

#[test]
fn parser_builds_left_associative_tree() {
    let tokens = vec![
        Token::new("1", Type::Number),
        Token::new("-", Type::Minus),
        Token::new("2", Type::Number),
        Token::new("-", Type::Minus),
        Token::new("3", Type::Number),
    ];
    let mut holder = DiagnosticHolder::new();
    let tree = Parser::new(tokens).parse(&mut holder);
    let leaf = |s: &str| Box::new(Some(Expression::Number(Box::new(Token::new(s, Type::Number)))));
    assert_eq!(
        tree.root_expression,
        Some(Expression::Subtraction(
            Box::new(Some(Expression::Subtraction(leaf("1"), leaf("2")))),
            leaf("3")
        ))
    );
}

#[test]
fn unclosed_parenthesis_is_tolerated() {
    let (value, rendered) = run("(1 + 2");
    assert_eq!(value, Value::Number(3.0));
    assert!(rendered.is_empty());
}

#[test]
fn equality_binds_below_logical() {
    let (value, rendered) = run("true && false == false");
    assert_eq!(value, Value::Bool(true));
    assert!(rendered.is_empty());
}

#[test]
fn equality_compares_display_strings() {
    let (value, _) = run("\"1\" == 1");
    assert_eq!(value, Value::Bool(true));
    let (value, _) = run("\"true\" != true");
    assert_eq!(value, Value::Bool(false));
}

#[test]
fn division_by_zero_gives_infinity() {
    let (value, rendered) = run("1 / 0");
    assert!(rendered.is_empty());
    assert_eq!(value, Value::Number(f64::INFINITY));
}

#[test]
fn evaluator_yields_sentinel_after_diagnostics() {
    let mut holder = DiagnosticHolder::new();
    holder.error("earlier failure");
    let evaluator = Evaluator::new(BoundExpression::Number("1".to_string()));
    let result = evaluator.eval(&holder, &read_number, &negate, &apply, &show);
    assert_eq!(result, Value::Error);
    assert_eq!(to_string(&result, &show), "<Error>");
}

#[test]
fn failed_binding_yields_sentinel() {
    let (value, rendered) = run("1 || true");
    assert_eq!(value, Value::Error);
    assert_eq!(
        rendered,
        vec!["Error: Cannot apply logical OR on type \"number\" and \"bool\"".to_string()]
    );
}

#[test]
fn binder_refuses_after_earlier_diagnostics() {
    let mut holder = DiagnosticHolder::new();
    holder.warning("w");
    let bound = Binder::new().bind_expression(
        Some(Expression::Number(Box::new(Token::new("1", Type::Number)))),
        &mut holder,
    );
    assert_eq!(bound, None);
    assert_eq!(holder.diagonistic_units.len(), 1);
}

#[test]
fn bare_identifier_and_empty_input_give_error_value() {
    let (value, rendered) = run("x");
    assert_eq!(value, Value::Error);
    assert!(rendered.is_empty());
    let (value, rendered) = run("");
    assert_eq!(value, Value::Error);
    assert!(rendered.is_empty());
}

#[test]
fn fresh_runs_agree() {
    for source in ["(20 + 1) * 5", "1 || true", "1.2.3 + 1", "!x"] {
        assert_eq!(run(source), run(source));
    }
}

#[test]
fn stages_through_compilation() {
    let mut compilation = Compilation::new("2 * -3".to_string());
    let tree = compilation.lex_parse();
    let bound = compilation.bind_tree(tree);
    assert_eq!(bound.as_ref().map(|b| b.get_type()), Some(BoundType::Number));
    let value = compilation.eval_expression(bound, &read_number, &negate, &apply, &show);
    assert_eq!(value, Value::Number(-6.0));
}

#[test]
fn diagnostics_render_with_their_kind() {
    assert_eq!(Unit::Warning("w".to_string()).to_string(), "Warning: w");
    assert_eq!(Unit::Error("e".to_string()).to_string(), "Error: e");
}

#[test]
fn bound_type_names() {
    assert_eq!(BoundType::Unidentified.to_string(), "unidentified");
    assert_eq!(BoundType::String.to_string(), "string");
    assert_eq!(BoundType::Bool.to_string(), "bool");
    assert_eq!(BoundType::Number.to_string(), "number");
}

#[test]
fn precedences() {
    assert_eq!(Type::Bang.unary_precedence(), 5);
    assert_eq!(Type::Star.unary_precedence(), 0);
    assert_eq!(Type::Percent.binary_precedence(), 4);
    assert_eq!(Type::Minus.binary_precedence(), 3);
    assert_eq!(Type::DoublePipe.binary_precedence(), 2);
    assert_eq!(Type::BangEqual.binary_precedence(), 1);
    assert_eq!(Type::Tilde.binary_precedence(), 0);
}
