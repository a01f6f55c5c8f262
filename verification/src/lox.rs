//! The language as a whole: from source text to a value, and the errors on
//! the way.

use vstd::prelude::*;
use vstd::string::StringExecFns;
use crate::error::{Error, ErrorView};
use crate::expr::{ExprView, Value, ValueView};
use crate::grammar::{
    derives, lemma_derivation_unique, lemma_parse_complete, parse_expression, Parsed,
};
use crate::interpreter::{computes_as, computes_everything, value_of, Interpreter};
use crate::lexical::scan;
use crate::number::Operation;
use crate::parser::{ParseError, Parser};
use crate::scanner::{reads_as, reads_every_text, Keywords, Scanner};
use crate::text::decimal;
use crate::token::TokenView;

verus! {

/// A failure while evaluating an expression: an operand of the wrong kind,
/// or an operator that cannot be applied.
#[derive(Debug)]
pub struct RuntimeError {
    pub message: String,
}

impl View for RuntimeError {
    type V = Seq<char>;

    /// The message.
    open spec fn view(&self) -> Seq<char> {
        self.message@
    }
}

impl RuntimeError {
    /// An error with this message.
    pub fn new(message: &str) -> (e: Self)
        ensures
            e@ == message@,
    {
        Self { message: message.to_owned() }
    }

    /// The error as it is shown.
    pub fn to_string(&self) -> (shown: String)
        ensures
            shown@ == "Runtime error: "@ + self.message@,
    {
        let mut shown = "Runtime error: ".to_owned();
        shown.append(self.message.as_str());
        shown
    }
}

/// Why a source text has no value, by the stage that found it out.
#[derive(Debug)]
pub enum LoxError {
    /// The text is not made of tokens.
    Lex(Error),
    /// The tokens do not begin with an expression.
    Parse(ParseError),
    /// The expression cannot be evaluated.
    Runtime(RuntimeError),
}

impl LoxError {
    /// The error as it is shown: as the error of the stage is shown.
    pub fn to_string(&self) -> (shown: String)
        ensures
            shown@ == match self@ {
                LoxErrorView::Lex(error) => "[line "@ + decimal(error.line as nat)
                    + "] Error: "@ + error.message,
                LoxErrorView::Parse(message) => "Parse error: "@ + message,
                LoxErrorView::Runtime(message) => "Runtime error: "@ + message,
            },
    {
        match self {
            LoxError::Lex(error) => error.to_string(),
            LoxError::Parse(error) => error.to_string(),
            LoxError::Runtime(error) => error.to_string(),
        }
    }
}

/// The mathematical content of a [`LoxError`].
pub enum LoxErrorView {
    Lex(ErrorView),
    Parse(Seq<char>),
    Runtime(Seq<char>),
}

impl View for LoxError {
    type V = LoxErrorView;

    open spec fn view(&self) -> LoxErrorView {
        match self {
            LoxError::Lex(error) => LoxErrorView::Lex(error@),
            LoxError::Parse(error) => LoxErrorView::Parse(error@),
            LoxError::Runtime(error) => LoxErrorView::Runtime(error@),
        }
    }
}

/// The value of a source text: the value of the expression that the tokens
/// of the text begin with, or the first failure. `reading` says how numerals
/// are read and `arithmetic` what the operations that round yield.
pub open spec fn interpret(
    source: Seq<char>,
    reading: spec_fn(Seq<char>) -> Option<u64>,
    arithmetic: spec_fn(Operation, u64, u64) -> u64,
) -> Result<ValueView, LoxErrorView> {
    let scanned = scan(source, reading);
    match scanned.error {
        Some(error) => Err(LoxErrorView::Lex(error)),
        None => match parse_expression(scanned.tokens, 0).result {
            Err(message) => Err(LoxErrorView::Parse(message)),
            Ok(expr) => match value_of(expr, arithmetic) {
                Err(message) => Err(LoxErrorView::Runtime(message)),
                Ok(value) => Ok(value),
            },
        },
    }
}

/// The mathematical content of what a run returned.
pub open spec fn outcome(r: Result<Value, LoxError>) -> Result<ValueView, LoxErrorView> {
    match r {
        Ok(value) => Ok(value@),
        Err(failure) => Err(failure@),
    }
}

/// Scans, parses and evaluates `source`. Numerals are read by `to_number`,
/// and the operations that round are computed by `arithmetic`.
pub fn run<F: Fn(&str) -> Option<u64>, A: Fn(Operation, u64, u64) -> u64>(
    source: String,
    keywords: &Keywords,
    to_number: &F,
    arithmetic: &A,
) -> (r: Result<Value, LoxError>)
    requires
        source@.len() < u32::MAX,
        reads_every_text(to_number),
        computes_everything(arithmetic),
    ensures
        forall|
            reading: spec_fn(Seq<char>) -> Option<u64>,
            model: spec_fn(Operation, u64, u64) -> u64,
        |
            reads_as(to_number, reading) && computes_as(arithmetic, model) ==> outcome(r)
                == #[trigger] interpret(source@, reading, model),
{
    let mut scanner = Scanner::new(source, keywords);
    let scanned = scanner.scan_tokens(to_number);
    let ghost mut read: Seq<TokenView> = Seq::empty();
    let r = match scanned {
        Ok(tokens) => {
            proof {
                read = tokens.deep_view();
            }
            let mut parser = Parser::new(tokens);
            match parser.parse() {
                Ok(expr) => match Interpreter::evaluate(&expr, arithmetic) {
                    Ok(value) => Ok(value),
                    Err(error) => Err(LoxError::Runtime(error)),
                },
                Err(error) => Err(LoxError::Parse(error)),
            }
        },
        Err(error) => Err(LoxError::Lex(error)),
    };
    assert forall|
        reading: spec_fn(Seq<char>) -> Option<u64>,
        model: spec_fn(Operation, u64, u64) -> u64,
    |
        reads_as(to_number, reading) && computes_as(arithmetic, model) implies outcome(r)
        == #[trigger] interpret(source@, reading, model) by {
        let scan = scan(source@, reading);
        if scan.error is None {
            assert(read =~= scan.tokens);
            let parsed = parse_expression(scan.tokens, 0).result;
            if let Ok(expr) = parsed {
                assert(r is Ok ==> outcome(r) == Ok::<ValueView, LoxErrorView>(
                    value_of(expr, model)->Ok_0,
                ));
            }
        }
    }
    r
}

/// A text that is an expression has exactly one syntax tree and nothing
/// left over: where scanning `source` succeeds and gives tokens that the
/// grammar derives as an expression, parsing them succeeds, gives the tree
/// of the derivation, and reads every token; and the grammar derives the
/// tokens with no other tree.
pub proof fn lemma_expression_text_parses(
    source: Seq<char>,
    reading: spec_fn(Seq<char>) -> Option<u64>,
    expr: ExprView,
)
    requires
        scan(source, reading).error is None,
        derives(scan(source, reading).tokens, expr),
    ensures
        parse_expression(scan(source, reading).tokens, 0) == (Parsed {
            result: Ok(expr),
            next: scan(source, reading).tokens.len() as int,
        }),
        forall|other: ExprView| #[trigger]
            derives(scan(source, reading).tokens, other) ==> other == expr,
{
    let tokens = scan(source, reading).tokens;
    lemma_parse_complete(tokens, expr);
    assert forall|other: ExprView| #[trigger] derives(tokens, other) implies other == expr by {
        lemma_derivation_unique(tokens, other, expr);
    }
}

} // verus!
