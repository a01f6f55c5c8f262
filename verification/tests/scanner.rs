use rslox::error::Error;
use rslox::scanner::{init, Keywords, Scanner};
use rslox::token::Token;
use rslox::token_type::TokenType;

fn to_number(text: &str) -> Option<u64> {
    text.parse::<f64>().ok().map(f64::to_bits)
}

fn scan(source: &str) -> Result<Vec<Token>, Error> {
    let keywords: Keywords = init();
    let mut scanner = Scanner::new(String::from(source), &keywords);
    scanner.scan_tokens(&to_number).map(|tokens| tokens.clone())
}

fn kinds(source: &str) -> Vec<String> {
    scan(source).unwrap().iter().map(|token| format!("{:?}", token.type_)).collect()
}

#[test]
fn test_init_keywords_lookup() {
    let keywords = init();
    assert!(keywords.get(&String::from("while")).is_some());
}

#[test]
fn test_keyword() -> Result<(), Error> {
    let keywords = init();
    let mut scanner = Scanner::new(String::from("while"), &keywords);
    scanner.scan_kw_or_identifier()?;
    assert_eq!(scanner.tokens.len(), 1);
    assert!(matches!(scanner.tokens[0].type_, TokenType::While));

    Ok(())
}

#[test]
fn every_keyword_is_in_the_table() {
    let keywords = init();
    let words = [
        "and", "class", "else", "false", "for", "fun", "if", "nil", "or", "print", "return",
        "super", "this", "true", "var", "while",
    ];
    let expected = [
        "And", "Class", "Else", "False", "For", "Fun", "If", "Nil", "Or", "Print", "Return",
        "Super", "This", "True", "Var", "While",
    ];
    for (word, name) in words.iter().zip(expected.iter()) {
        let found = keywords.get(&String::from(*word));
        assert_eq!(format!("{:?}", found.unwrap()), *name);
    }
    assert!(keywords.get(&String::from("whilex")).is_none());
    assert!(keywords.get(&String::from("While")).is_none());
    assert!(keywords.get(&String::from("")).is_none());
}

#[test]
fn scanning_a_keyword_gives_the_keyword() {
    let tokens = scan("while").unwrap();
    assert_eq!(tokens.len(), 1);
    assert!(matches!(tokens[0].type_, TokenType::While));
    assert_eq!(tokens[0].lexeme, "while");
    assert_eq!(tokens[0].line, 1);
}

#[test]
fn a_longer_word_is_an_identifier() {
    let tokens = scan("whilex").unwrap();
    assert_eq!(tokens.len(), 1);
    assert!(matches!(tokens[0].type_, TokenType::Identifier));
    assert_eq!(tokens[0].lexeme, "whilex");
}

#[test]
fn a_number_with_a_fraction_is_one_token() {
    let tokens = scan("123.456").unwrap();
    assert_eq!(tokens.len(), 1);
    match tokens[0].type_ {
        TokenType::Number(bits) => assert_eq!(f64::from_bits(bits), 123.456),
        _ => panic!("not a number"),
    }
    assert_eq!(tokens[0].lexeme, "123.456");
}

#[test]
fn a_trailing_point_is_a_token_of_its_own() {
    let tokens = scan("123.").unwrap();
    assert_eq!(tokens.len(), 2);
    match tokens[0].type_ {
        TokenType::Number(bits) => assert_eq!(f64::from_bits(bits), 123.0),
        _ => panic!("not a number"),
    }
    assert_eq!(tokens[0].lexeme, "123");
    assert!(matches!(tokens[1].type_, TokenType::Dot));
    assert_eq!(tokens[1].lexeme, ".");
}

#[test]
fn a_second_point_ends_the_numeral() {
    assert_eq!(kinds("1.5.25"), vec![
        format!("Number({})", 1.5f64.to_bits()),
        "Dot".to_string(),
        format!("Number({})", 25f64.to_bits()),
    ]);
}

#[test]
fn an_unterminated_string_fails_on_its_line() {
    let error = scan("\"abc").unwrap_err();
    assert_eq!(error.message, "Unterminated string.");
    assert_eq!(error.line, 1);

    let error = scan("1\n2\n\"abc").unwrap_err();
    assert_eq!(error.message, "Unterminated string.");
    assert_eq!(error.line, 3);
}

#[test]
fn an_unterminated_string_over_lines_fails_on_the_last_line() {
    let error = scan("\"abc\ndef\n").unwrap_err();
    assert_eq!(error.message, "Unterminated string.");
    assert_eq!(error.line, 3);
}

#[test]
fn a_string_carries_the_text_between_its_quotes() {
    let tokens = scan("\"a\\n b\"").unwrap();
    assert_eq!(tokens.len(), 1);
    match &tokens[0].type_ {
        TokenType::String(text) => assert_eq!(text, "a\\n b"),
        _ => panic!("not a string"),
    }
    assert_eq!(tokens[0].lexeme, "\"a\\n b\"");
}

#[test]
fn an_empty_string_is_a_token() {
    let tokens = scan("\"\"").unwrap();
    assert_eq!(tokens.len(), 1);
    match &tokens[0].type_ {
        TokenType::String(text) => assert_eq!(text, ""),
        _ => panic!("not a string"),
    }
}

#[test]
fn a_string_over_lines_is_on_the_line_of_its_closing_quote() {
    let tokens = scan("\"a\nb\"\n+").unwrap();
    assert_eq!(tokens.len(), 2);
    assert_eq!(tokens[0].line, 2);
    match &tokens[0].type_ {
        TokenType::String(text) => assert_eq!(text, "a\nb"),
        _ => panic!("not a string"),
    }
    assert!(matches!(tokens[1].type_, TokenType::Plus));
    assert_eq!(tokens[1].line, 3);
}

#[test]
fn punctuation_is_scanned_char_by_char() {
    assert_eq!(kinds("(){},.-+;*/"), vec![
        "LeftParen", "RightParen", "LeftBrace", "RightBrace", "Comma", "Dot", "Minus", "Plus",
        "Semicolon", "Star", "Slash",
    ]);
}

#[test]
fn operators_take_a_following_equal_sign() {
    assert_eq!(kinds("! != = == < <= > >="), vec![
        "Bang", "BangEqual", "Equal", "EqualEqual", "Less", "LessEqual", "Greater",
        "GreaterEqual",
    ]);
    assert_eq!(kinds("==="), vec!["EqualEqual", "Equal"]);
    assert_eq!(kinds("!=="), vec!["BangEqual", "Equal"]);
    assert_eq!(kinds("<=>"), vec!["LessEqual", "Greater"]);
}

#[test]
fn lexemes_are_the_text_consumed() {
    let tokens = scan("a1 >= 20.5 // rest\n!b").unwrap();
    let lexemes: Vec<&str> = tokens.iter().map(|token| token.lexeme.as_str()).collect();
    assert_eq!(lexemes, vec!["a1", ">=", "20.5", "!", "b"]);
    let lines: Vec<u32> = tokens.iter().map(|token| token.line).collect();
    assert_eq!(lines, vec![1, 1, 1, 2, 2]);
}

#[test]
fn a_comment_runs_to_the_end_of_the_line() {
    assert_eq!(kinds("// nothing here"), Vec::<String>::new());
    assert_eq!(kinds("1 // one\n+"), vec![format!("Number({})", 1f64.to_bits()), "Plus".to_string()]);
    assert_eq!(kinds("/ /"), vec!["Slash", "Slash"]);
}

#[test]
fn white_space_is_skipped_and_lines_are_counted() {
    let tokens = scan(" \t\r\n\n  nil").unwrap();
    assert_eq!(tokens.len(), 1);
    assert!(matches!(tokens[0].type_, TokenType::Nil));
    assert_eq!(tokens[0].line, 3);
}

#[test]
fn an_empty_source_has_no_tokens() {
    assert_eq!(scan("").unwrap().len(), 0);
}

#[test]
fn an_unknown_character_is_an_error_on_its_line() {
    let error = scan("1 +\n @").unwrap_err();
    assert_eq!(error.message, "Unexpected character.");
    assert_eq!(error.line, 2);

    let error = scan("_").unwrap_err();
    assert_eq!(error.message, "Unexpected character.");
    assert_eq!(error.line, 1);
}

#[test]
fn the_tokens_before_an_error_are_kept() {
    let keywords = init();
    let mut scanner = Scanner::new(String::from("1 + #"), &keywords);
    assert!(scanner.scan_tokens(&to_number).is_err());
    assert_eq!(scanner.tokens.len(), 2);
}

#[test]
fn a_numeral_that_is_not_read_is_an_error() {
    let keywords = init();
    let mut scanner = Scanner::new(String::from("\n12"), &keywords);
    let error = scanner.scan_tokens(&|_text: &str| None).unwrap_err();
    assert_eq!(error.message, "Invalid number.");
    assert_eq!(error.line, 2);
}

#[test]
fn the_numeral_is_handed_over_as_written() {
    let keywords = init();
    let mut scanner = Scanner::new(String::from("007.50"), &keywords);
    let tokens = scanner
        .scan_tokens(&|text: &str| Some(text.len() as u64))
        .unwrap();
    assert_eq!(tokens.len(), 1);
    assert!(matches!(tokens[0].type_, TokenType::Number(6)));
}

#[test]
fn words_may_hold_digits_and_letters_of_any_script() {
    let tokens = scan("x1 größe 1x").unwrap();
    let lexemes: Vec<&str> = tokens.iter().map(|token| token.lexeme.as_str()).collect();
    assert_eq!(lexemes, vec!["x1", "größe", "1", "x"]);
    assert!(matches!(tokens[1].type_, TokenType::Identifier));
    assert!(matches!(tokens[2].type_, TokenType::Number(_)));
}

#[test]
fn error_new_keeps_message_and_line() {
    let error = Error::new("Unexpected character.", 7);
    assert_eq!(error.message, "Unexpected character.");
    assert_eq!(error.line, 7);
}

#[test]
fn an_error_is_shown_with_its_line() {
    assert_eq!(Error::new("Unterminated string.", 1).to_string(), "[line 1] Error: Unterminated string.");
    assert_eq!(Error::new("x", 0).to_string(), "[line 0] Error: x");
    assert_eq!(Error::new("x", 10).to_string(), "[line 10] Error: x");
    assert_eq!(Error::new("x", 907).to_string(), "[line 907] Error: x");
    assert_eq!(Error::new("x", 4294967295).to_string(), "[line 4294967295] Error: x");
}

#[test]
fn numbers_are_written_in_decimal() {
    for n in [0u32, 1, 9, 10, 11, 99, 100, 101, 12345, 1000000, 4294967295] {
        let mut text = String::from("n=");
        rslox::text::push_decimal(&mut text, n);
        assert_eq!(text, format!("n={n}"));
    }
}

#[test]
fn text_goes_to_characters_and_back() {
    let chars = rslox::text::chars_of("aß€😀b");
    assert_eq!(chars, vec!['a', 'ß', '€', '😀', 'b']);
    assert_eq!(rslox::text::substring(&chars, 1, 4), "ß€😀");
    assert_eq!(rslox::text::substring(&chars, 2, 2), "");
    assert!(rslox::text::is_decimal_digit('0'));
    assert!(rslox::text::is_decimal_digit('9'));
    assert!(!rslox::text::is_decimal_digit('a'));
    assert!(!rslox::text::is_decimal_digit('٣'));
}
