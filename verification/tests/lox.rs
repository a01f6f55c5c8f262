use rslox::expr::Value;
use rslox::lox::{run, LoxError, RuntimeError};
use rslox::number::Operation;
use rslox::scanner::init;

fn to_number(text: &str) -> Option<u64> {
    text.parse::<f64>().ok().map(f64::to_bits)
}

fn arithmetic(operation: Operation, a: u64, b: u64) -> u64 {
    let (a, b) = (f64::from_bits(a), f64::from_bits(b));
    let c = match operation {
        Operation::Add => a + b,
        Operation::Subtract => a - b,
        Operation::Multiply => a * b,
        Operation::Divide => a / b,
    };
    c.to_bits()
}

fn value(source: &str) -> Result<Value, LoxError> {
    run(String::from(source), &init(), &to_number, &arithmetic)
}

#[test]
fn a_text_has_the_value_of_its_expression() {
    assert_eq!(value("(1 + 2) * 3").unwrap(), Value::Number(9f64.to_bits()));
    assert_eq!(value("\"a\" + \"b\" // joined").unwrap(), Value::String("ab".to_string()));
    assert_eq!(value("1 + 2 * 3 == 7").unwrap(), Value::True);
    assert_eq!(value("!(1 < 2)\n").unwrap(), Value::False);
}

#[test]
fn a_lexical_error_carries_its_line() {
    match value("1 +\n\"abc") {
        Err(LoxError::Lex(error)) => {
            assert_eq!(error.message, "Unterminated string.");
            assert_eq!(error.line, 2);
        }
        other => panic!("{other:?}"),
    }
    match value("1 + $") {
        Err(LoxError::Lex(error)) => {
            assert_eq!(error.message, "Unexpected character.");
            assert_eq!(error.line, 1);
        }
        other => panic!("{other:?}"),
    }
}

#[test]
fn the_scanner_fails_before_the_parser() {
    assert!(matches!(value(") $"), Err(LoxError::Lex(_))));
}

#[test]
fn a_grammar_error_is_a_parse_failure() {
    match value("(1 + 2") {
        Err(LoxError::Parse(error)) => assert_eq!(error.message, "Expected ')' after expression."),
        other => panic!("{other:?}"),
    }
    match value("") {
        Err(LoxError::Parse(error)) => assert_eq!(error.message, "Expected expression."),
        other => panic!("{other:?}"),
    }
}

#[test]
fn a_type_error_is_a_runtime_failure() {
    match value("1 + \"a\"") {
        Err(LoxError::Runtime(error)) => assert_eq!(error.message, "Invalid operation"),
        other => panic!("{other:?}"),
    }
    match value("-nil") {
        Err(LoxError::Runtime(error)) => assert_eq!(error.message, "Not a number"),
        other => panic!("{other:?}"),
    }
}

#[test]
fn what_follows_the_expression_is_not_looked_at() {
    assert_eq!(value("1 2 +").unwrap(), Value::Number(1f64.to_bits()));
}

#[test]
fn runtime_error_new_keeps_the_message() {
    assert_eq!(RuntimeError::new("Not a number").message, "Not a number");
}

#[test]
fn errors_are_shown_with_their_message() {
    match value("\n\n\n\n\n\n\n\n\n\n\n@") {
        Err(error) => assert_eq!(error.to_string(), "[line 12] Error: Unexpected character."),
        other => panic!("{other:?}"),
    }
    match value("(1") {
        Err(error) => assert_eq!(error.to_string(), "Parse error: Expected ')' after expression."),
        other => panic!("{other:?}"),
    }
    match value("-\"a\"") {
        Err(error) => assert_eq!(error.to_string(), "Runtime error: Not a number"),
        other => panic!("{other:?}"),
    }
}
