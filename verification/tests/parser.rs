use rslox::expr::{Expr, Value};
use rslox::parser::{ParseError, Parser};
use rslox::scanner::{init, Scanner};
use rslox::token::Token;
use rslox::token_type::TokenType;

fn to_number(text: &str) -> Option<u64> {
    text.parse::<f64>().ok().map(f64::to_bits)
}

fn tokens_of(source: &str) -> Vec<Token> {
    let keywords = init();
    let mut scanner = Scanner::new(String::from(source), &keywords);
    scanner.scan_tokens(&to_number).unwrap().clone()
}

fn show(expr: &Expr) -> String {
    match expr {
        Expr::Binary(left, operator, right) => {
            format!("({} {} {})", operator.lexeme, show(left), show(right))
        }
        Expr::Unary(operator, operand) => format!("({} {})", operator.lexeme, show(operand)),
        Expr::Grouping(inner) => format!("(group {})", show(inner)),
        Expr::Literal(Value::Number(bits)) => format!("{}", f64::from_bits(*bits)),
        Expr::Literal(Value::String(text)) => format!("{:?}", text),
        Expr::Literal(Value::True) => "true".to_string(),
        Expr::Literal(Value::False) => "false".to_string(),
        Expr::Literal(Value::Nil) => "nil".to_string(),
    }
}

fn parse(source: &str) -> Result<String, String> {
    let tokens = tokens_of(source);
    let mut parser = Parser::new(&tokens);
    match parser.parse() {
        Ok(expr) => Ok(show(&expr)),
        Err(error) => Err(error.message),
    }
}

#[test]
fn multiplication_binds_tighter_than_addition() {
    let tokens = tokens_of("1 + 2 * 3");
    let mut parser = Parser::new(&tokens);
    let expr = parser.parse().unwrap();
    match &expr {
        Expr::Binary(left, operator, right) => {
            assert!(matches!(operator.type_, TokenType::Plus));
            assert!(matches!(**left, Expr::Literal(Value::Number(bits)) if f64::from_bits(bits) == 1.0));
            match &**right {
                Expr::Binary(two, times, three) => {
                    assert!(matches!(times.type_, TokenType::Star));
                    assert!(matches!(**two, Expr::Literal(Value::Number(bits)) if f64::from_bits(bits) == 2.0));
                    assert!(matches!(**three, Expr::Literal(Value::Number(bits)) if f64::from_bits(bits) == 3.0));
                }
                _ => panic!("the right operand is no product"),
            }
        }
        _ => panic!("not a sum"),
    }
    assert!(parser.is_at_end());
}

#[test]
fn a_missing_closing_parenthesis_is_an_error() {
    assert_eq!(parse("(1 + 2"), Err("Expected ')' after expression.".to_string()));
    assert_eq!(parse("(1 + 2 3"), Err("Expected ')' after expression.".to_string()));
    assert_eq!(parse("((1)"), Err("Expected ')' after expression.".to_string()));
}

#[test]
fn binary_operators_associate_to_the_left() {
    assert_eq!(parse("1 - 2 - 3"), Ok("(- (- 1 2) 3)".to_string()));
    assert_eq!(parse("8 / 4 / 2 * 3"), Ok("(* (/ (/ 8 4) 2) 3)".to_string()));
    assert_eq!(parse("1 < 2 <= 3 > 4 >= 5"), Ok("(>= (> (<= (< 1 2) 3) 4) 5)".to_string()));
    assert_eq!(parse("1 == 2 != 3"), Ok("(!= (== 1 2) 3)".to_string()));
}

#[test]
fn each_level_binds_tighter_than_the_one_before() {
    assert_eq!(
        parse("1 == 2 < 3 + 4 * -5"),
        Ok("(== 1 (< 2 (+ 3 (* 4 (- 5)))))".to_string())
    );
    assert_eq!(
        parse("-1 * 2 + 3 > 4 != true"),
        Ok("(!= (> (+ (* (- 1) 2) 3) 4) true)".to_string())
    );
}

#[test]
fn prefix_operators_nest() {
    assert_eq!(parse("!!true"), Ok("(! (! true))".to_string()));
    assert_eq!(parse("---1"), Ok("(- (- (- 1)))".to_string()));
    assert_eq!(parse("-!-nil"), Ok("(- (! (- nil)))".to_string()));
    assert_eq!(parse("1 - -2"), Ok("(- 1 (- 2))".to_string()));
}

#[test]
fn parentheses_group() {
    assert_eq!(parse("(1 + 2) * 3"), Ok("(* (group (+ 1 2)) 3)".to_string()));
    assert_eq!(parse("((\"a\"))"), Ok("(group (group \"a\"))".to_string()));
}

#[test]
fn literals_are_leaves() {
    assert_eq!(parse("12.5"), Ok("12.5".to_string()));
    assert_eq!(parse("\"text\""), Ok("\"text\"".to_string()));
    assert_eq!(parse("true"), Ok("true".to_string()));
    assert_eq!(parse("false"), Ok("false".to_string()));
    assert_eq!(parse("nil"), Ok("nil".to_string()));
}

#[test]
fn the_operator_token_is_kept_in_the_tree() {
    let tokens = tokens_of("1\n+ 2");
    let mut parser = Parser::new(&tokens);
    match parser.parse().unwrap() {
        Expr::Binary(_, operator, _) => {
            assert_eq!(operator.lexeme, "+");
            assert_eq!(operator.line, 2);
        }
        _ => panic!("not a sum"),
    }
}

#[test]
fn what_starts_no_expression_is_an_error() {
    assert_eq!(parse(""), Err("Expected expression.".to_string()));
    assert_eq!(parse(")"), Err("Expected expression.".to_string()));
    assert_eq!(parse("+ 1"), Err("Expected expression.".to_string()));
    assert_eq!(parse("1 +"), Err("Expected expression.".to_string()));
    assert_eq!(parse("x"), Err("Expected expression.".to_string()));
    assert_eq!(parse("()"), Err("Expected expression.".to_string()));
    assert_eq!(parse("-"), Err("Expected expression.".to_string()));
    assert_eq!(parse("1 * (2 + )"), Err("Expected expression.".to_string()));
}

#[test]
fn parsing_stops_behind_the_expression() {
    let tokens = tokens_of("1 2");
    let mut parser = Parser::new(&tokens);
    assert_eq!(show(&parser.parse().unwrap()), "1");
    assert!(!parser.is_at_end());
    assert_eq!(show(&parser.parse().unwrap()), "2");
    assert!(parser.is_at_end());
    assert!(parser.parse().is_err());
}

#[test]
fn a_valid_expression_is_read_to_its_end() {
    for source in ["1", "(1)", "1 + 2", "!(1 == 2) != (3 < 4)", "-(-1 * (2 - 3)) / 4"] {
        let tokens = tokens_of(source);
        let mut parser = Parser::new(&tokens);
        assert!(parser.parse().is_ok(), "{source}");
        assert!(parser.is_at_end(), "{source}");
    }
}

#[test]
fn an_error_leaves_the_parser_at_the_offending_token() {
    let tokens = tokens_of("1 + ; 7");
    let mut parser = Parser::new(&tokens);
    assert!(parser.parse().is_err());
    parser.synchronize();
    assert_eq!(show(&parser.parse().unwrap()), "7");
    assert!(parser.is_at_end());
}

#[test]
fn synchronize_skips_to_behind_a_semicolon() {
    let tokens = tokens_of("+ 1 2 ; 3 4");
    let mut parser = Parser::new(&tokens);
    assert!(parser.parse().is_err());
    parser.synchronize();
    assert_eq!(show(&parser.parse().unwrap()), "3");
}

#[test]
fn synchronize_stops_in_front_of_a_statement() {
    for keyword in ["class", "fun", "var", "for", "if", "while", "print", "return"] {
        let tokens = tokens_of(&format!("* 1 2 {keyword} 5"));
        let mut parser = Parser::new(&tokens);
        assert!(parser.parse().is_err());
        parser.synchronize();
        assert!(!parser.is_at_end());
        assert!(parser.parse().is_err());
        parser.synchronize();
        assert!(parser.is_at_end());
    }
}

#[test]
fn synchronize_skips_the_offending_token_even_if_it_opens_a_statement() {
    let tokens = tokens_of("print 1");
    let mut parser = Parser::new(&tokens);
    assert!(parser.parse().is_err());
    parser.synchronize();
    assert!(parser.is_at_end());
}

#[test]
fn synchronize_at_the_end_does_nothing() {
    let tokens = tokens_of("1 +");
    let mut parser = Parser::new(&tokens);
    assert!(parser.parse().is_err());
    assert!(parser.is_at_end());
    parser.synchronize();
    assert!(parser.is_at_end());
}

#[test]
fn several_errors_can_be_collected() {
    let tokens = tokens_of("+ 1 ; ( 2 ; 3 ; )");
    let mut parser = Parser::new(&tokens);
    let mut errors: Vec<String> = Vec::new();
    let mut values: Vec<String> = Vec::new();
    while !parser.is_at_end() {
        match parser.parse() {
            Ok(expr) => values.push(show(&expr)),
            Err(error) => {
                errors.push(error.message);
                parser.synchronize();
            }
        }
    }
    assert_eq!(errors, vec![
        "Expected expression.",
        "Expected ')' after expression.",
        "Expected expression.",
        "Expected expression.",
    ]);
    assert_eq!(values, vec!["3"]);
}

#[test]
fn parse_error_new_keeps_the_message() {
    let error = ParseError::new("Expected expression.");
    assert_eq!(error.message, "Expected expression.");
}

#[test]
fn a_parse_error_is_shown_with_its_message() {
    assert_eq!(ParseError::new("Expected expression.").to_string(), "Parse error: Expected expression.");
}
