//! The parser: from tokens to a syntax tree, by recursive descent.

use vstd::prelude::*;
use vstd::string::StringExecFns;
use crate::expr::{Expr, ExprView, Value};
use crate::grammar::{
    binary_level, next_boundary, parse_expression, parse_level, parse_primary, parse_rest,
    parse_unary, resume_point, Parsed,
};
use crate::token::{Token, TokenView};
use crate::token_type::TokenType;

verus! {

/// A violation of the grammar.
#[derive(Debug)]
pub struct ParseError {
    pub message: String,
}

impl View for ParseError {
    type V = Seq<char>;

    /// The message.
    open spec fn view(&self) -> Seq<char> {
        self.message@
    }
}

impl ParseError {
    /// An error with this message.
    pub fn new(message: &str) -> (e: Self)
        ensures
            e@ == message@,
    {
        Self { message: message.to_owned() }
    }

    /// The error as it is shown.
    pub fn to_string(&self) -> (shown: String)
        ensures
            shown@ == "Parse error: "@ + self.message@,
    {
        let mut shown = "Parse error: ".to_owned();
        shown.append(self.message.as_str());
        shown
    }
}

/// What a parse returns: the syntax tree, or the first violation of the
/// grammar.
pub type ParseResult = Result<Expr, ParseError>;

/// The mathematical content of what a parse returned.
pub open spec fn outcome(r: ParseResult) -> Result<ExprView, Seq<char>> {
    match r {
        Ok(expr) => Ok(expr@),
        Err(error) => Err(error@),
    }
}

/// The level of the binary rule that a token of this category is an
/// operator of.
fn level_of(type_: &TokenType) -> (level: Option<u8>)
    ensures
        match level {
            Some(l) => binary_level(type_@) == Some(l as int),
            None => binary_level(type_@) is None,
        },
{
    match type_ {
        TokenType::BangEqual | TokenType::EqualEqual => Some(0),
        TokenType::Greater
        | TokenType::GreaterEqual
        | TokenType::Less
        | TokenType::LessEqual => Some(1),
        TokenType::Plus | TokenType::Minus => Some(2),
        TokenType::Slash | TokenType::Star => Some(3),
        _ => None,
    }
}

/// A parser over a sequence of tokens, which it reads from left to right.
pub struct Parser<'a> {
    tokens: &'a Vec<Token>,
    current: usize,
}

impl<'a> Parser<'a> {
    /// The tokens that the parser reads.
    pub closed spec fn tokens(&self) -> Seq<TokenView> {
        self.tokens.deep_view()
    }

    /// How many tokens have been read.
    pub closed spec fn position(&self) -> int {
        self.current as int
    }

    /// What holds of a parser between any two calls: it has not read past
    /// the end of its tokens.
    pub closed spec fn wf(&self) -> bool {
        self.current <= self.tokens.len()
    }

    /// Whether the parser, which was `before`, has returned `r` and stands
    /// where `parsed` says.
    spec fn has_parsed(&self, before: &Self, r: ParseResult, parsed: Parsed) -> bool {
        &&& self.wf()
        &&& self.tokens == before.tokens
        &&& outcome(r) == parsed.result
        &&& self.current == parsed.next
        &&& before.current <= self.current
        &&& r is Ok ==> before.current < self.current
    }

    /// A parser in front of the first of `tokens`.
    pub fn new(tokens: &'a Vec<Token>) -> (parser: Self)
        ensures
            parser.wf(),
            parser.tokens() == tokens.deep_view(),
            parser.position() == 0,
    {
        Self { tokens, current: 0 }
    }

    /// Parses one expression from where the parser stands. It reads as many
    /// tokens as belong to the expression and stops at the first violation
    /// of the grammar, in front of the token that cannot stand there.
    ///
    /// The parser descends once through the rules for every prefix operator
    /// and every opening parenthesis, so the call stack grows with the depth
    /// to which the expression nests; nothing bounds it but the number of
    /// tokens.
    pub fn parse(&mut self) -> (r: ParseResult)
        requires
            old(self).wf(),
        ensures
            final(self).wf(),
            final(self).tokens() == old(self).tokens(),
            outcome(r) == parse_expression(old(self).tokens(), old(self).position()).result,
            final(self).position() == parse_expression(
                old(self).tokens(),
                old(self).position(),
            ).next,
    {
        self.expression()
    }

    /// `expression := equality`
    fn expression(&mut self) -> (r: ParseResult)
        requires
            old(self).wf(),
        ensures
            final(self).has_parsed(
                old(self),
                r,
                parse_level(old(self).tokens(), old(self).position(), 0),
            ),
        decreases old(self).tokens.len() - old(self).current, 12int,
    {
        self.equality()
    }

    /// `equality := comparison (("!=" | "==") comparison)*`
    fn equality(&mut self) -> (r: ParseResult)
        requires
            old(self).wf(),
        ensures
            final(self).has_parsed(
                old(self),
                r,
                parse_level(old(self).tokens(), old(self).position(), 0),
            ),
        decreases old(self).tokens.len() - old(self).current, 10int,
    {
        let mut expr = match self.comparison() {
            Ok(expr) => expr,
            Err(error) => {
                return Err(error);
            },
        };
        while self.at_operator(0)
            invariant
                self.wf(),
                self.tokens == old(self).tokens,
                old(self).current < self.current,
                parse_level(old(self).tokens(), old(self).position(), 0) == parse_rest(
                    self.tokens(),
                    self.position(),
                    0,
                    expr@,
                ),
            decreases self.tokens.len() - self.current,
        {
            let token = self.advance().clone();
            let right = match self.comparison() {
                Ok(right) => right,
                Err(error) => {
                    return Err(error);
                },
            };
            expr = Expr::binary(expr, token, right);
        }
        Ok(expr)
    }

    /// `comparison := term (("<" | ">" | "<=" | ">=") term)*`
    fn comparison(&mut self) -> (r: ParseResult)
        requires
            old(self).wf(),
        ensures
            final(self).has_parsed(
                old(self),
                r,
                parse_level(old(self).tokens(), old(self).position(), 1),
            ),
        decreases old(self).tokens.len() - old(self).current, 8int,
    {
        let mut expr = match self.term() {
            Ok(expr) => expr,
            Err(error) => {
                return Err(error);
            },
        };
        while self.at_operator(1)
            invariant
                self.wf(),
                self.tokens == old(self).tokens,
                old(self).current < self.current,
                parse_level(old(self).tokens(), old(self).position(), 1) == parse_rest(
                    self.tokens(),
                    self.position(),
                    1,
                    expr@,
                ),
            decreases self.tokens.len() - self.current,
        {
            let token = self.advance().clone();
            let right = match self.term() {
                Ok(right) => right,
                Err(error) => {
                    return Err(error);
                },
            };
            expr = Expr::binary(expr, token, right);
        }
        Ok(expr)
    }

    /// `term := factor (("+" | "-") factor)*`
    fn term(&mut self) -> (r: ParseResult)
        requires
            old(self).wf(),
        ensures
            final(self).has_parsed(
                old(self),
                r,
                parse_level(old(self).tokens(), old(self).position(), 2),
            ),
        decreases old(self).tokens.len() - old(self).current, 6int,
    {
        let mut expr = match self.factor() {
            Ok(expr) => expr,
            Err(error) => {
                return Err(error);
            },
        };
        while self.at_operator(2)
            invariant
                self.wf(),
                self.tokens == old(self).tokens,
                old(self).current < self.current,
                parse_level(old(self).tokens(), old(self).position(), 2) == parse_rest(
                    self.tokens(),
                    self.position(),
                    2,
                    expr@,
                ),
            decreases self.tokens.len() - self.current,
        {
            let token = self.advance().clone();
            let right = match self.factor() {
                Ok(right) => right,
                Err(error) => {
                    return Err(error);
                },
            };
            expr = Expr::binary(expr, token, right);
        }
        Ok(expr)
    }

    /// `factor := unary (("*" | "/") unary)*`
    fn factor(&mut self) -> (r: ParseResult)
        requires
            old(self).wf(),
        ensures
            final(self).has_parsed(
                old(self),
                r,
                parse_level(old(self).tokens(), old(self).position(), 3),
            ),
        decreases old(self).tokens.len() - old(self).current, 4int,
    {
        assert(parse_level(self.tokens(), self.position(), 4) == parse_unary(
            self.tokens(),
            self.position(),
        ));
        let mut expr = match self.unary() {
            Ok(expr) => expr,
            Err(error) => {
                return Err(error);
            },
        };
        while self.at_operator(3)
            invariant
                self.wf(),
                self.tokens == old(self).tokens,
                old(self).current < self.current,
                parse_level(old(self).tokens(), old(self).position(), 3) == parse_rest(
                    self.tokens(),
                    self.position(),
                    3,
                    expr@,
                ),
            decreases self.tokens.len() - self.current,
        {
            let token = self.advance().clone();
            assert(parse_level(self.tokens(), self.position(), 4) == parse_unary(
                self.tokens(),
                self.position(),
            ));
            let right = match self.unary() {
                Ok(right) => right,
                Err(error) => {
                    return Err(error);
                },
            };
            expr = Expr::binary(expr, token, right);
        }
        Ok(expr)
    }

    /// `unary := ("!" | "-") unary | primary`
    fn unary(&mut self) -> (r: ParseResult)
        requires
            old(self).wf(),
        ensures
            final(self).has_parsed(
                old(self),
                r,
                parse_unary(old(self).tokens(), old(self).position()),
            ),
        decreases old(self).tokens.len() - old(self).current, 1int,
    {
        match self.peek() {
            Some(next) => {
                if matches!(next.type_, TokenType::Bang | TokenType::Minus) {
                    let token = self.advance().clone();
                    let expr = match self.unary() {
                        Ok(expr) => expr,
                        Err(error) => {
                            return Err(error);
                        },
                    };
                    return Ok(Expr::unary(token, expr));
                }
            },
            None => {},
        }
        self.primary()
    }

    /// `primary := NUMBER | STRING | "true" | "false" | "nil" | "(" expression ")"`
    fn primary(&mut self) -> (r: ParseResult)
        requires
            old(self).wf(),
        ensures
            final(self).has_parsed(
                old(self),
                r,
                parse_primary(old(self).tokens(), old(self).position()),
            ),
        decreases old(self).tokens.len() - old(self).current, 0int,
    {
        let token = match self.peek() {
            Some(token) => token,
            None => {
                return Err(ParseError::new("Expected expression."));
            },
        };
        let expr = match &token.type_ {
            TokenType::Number(num) => Expr::literal_num(*num),
            TokenType::String(string) => Expr::literal_str(string.clone()),
            TokenType::True => Expr::Literal(Value::True),
            TokenType::False => Expr::Literal(Value::False),
            TokenType::Nil => Expr::Literal(Value::Nil),
            TokenType::LeftParen => {
                self.advance();
                let expr = match self.expression() {
                    Ok(expr) => expr,
                    Err(error) => {
                        return Err(error);
                    },
                };
                match self.peek() {
                    Some(closing) => {
                        if !matches!(closing.type_, TokenType::RightParen) {
                            return Err(ParseError::new("Expected ')' after expression."));
                        }
                    },
                    None => {
                        return Err(ParseError::new("Expected ')' after expression."));
                    },
                }
                self.advance();
                return Ok(Expr::grouping(expr));
            },
            _ => {
                return Err(ParseError::new("Expected expression."));
            },
        };
        self.advance();
        Ok(expr)
    }

    /// Whether the next token is an operator of the binary rule `level`.
    fn at_operator(&self, level: u8) -> (r: bool)
        requires
            self.wf(),
        ensures
            r == (self.current < self.tokens.len() && binary_level(
                self.tokens()[self.current as int].type_,
            ) == Some(level as int)),
    {
        match self.peek() {
            Some(next) => match level_of(&next.type_) {
                Some(found) => found == level,
                None => false,
            },
            None => false,
        }
    }

    /// The next token, if there is one.
    fn peek(&self) -> (next: Option<&'a Token>)
        ensures
            match next {
                Some(token) => self.current < self.tokens.len() && *token
                    == self.tokens[self.current as int],
                None => self.current >= self.tokens.len(),
            },
    {
        if self.current < self.tokens.len() {
            Some(&self.tokens[self.current])
        } else {
            None
        }
    }

    /// Whether every token has been read.
    pub fn is_at_end(&self) -> (r: bool)
        ensures
            r == (self.position() >= self.tokens().len()),
    {
        self.peek().is_none()
    }

    /// Reads the next token.
    fn advance(&mut self) -> (token: &'a Token)
        requires
            old(self).current < old(self).tokens.len(),
        ensures
            *token == old(self).tokens[old(self).current as int],
            final(self).tokens == old(self).tokens,
            final(self).current == old(self).current + 1,
    {
        let token = &self.tokens[self.current];
        self.current += 1;
        token
    }

    /// Skips to where parsing can start again after an error: past the
    /// token that the parser stands at, and on to the next boundary. A
    /// boundary is the end of the tokens, the place behind a semicolon, and
    /// the place in front of a keyword that opens a statement.
    pub fn synchronize(&mut self)
        requires
            old(self).wf(),
        ensures
            final(self).wf(),
            final(self).tokens() == old(self).tokens(),
            final(self).position() == resume_point(old(self).tokens(), old(self).position()),
    {
        if self.is_at_end() {
            return ;
        }
        let mut previous = self.advance();
        while !self.is_at_end()
            invariant
                self.wf(),
                self.tokens == old(self).tokens,
                0 < self.current,
                *previous == self.tokens[self.current - 1],
                next_boundary(self.tokens(), self.position()) == resume_point(
                    old(self).tokens(),
                    old(self).position(),
                ),
            decreases self.tokens.len() - self.current,
        {
            if matches!(previous.type_, TokenType::Semicolon) {
                return ;
            }
            match self.tokens[self.current].type_ {
                TokenType::Class
                | TokenType::Fun
                | TokenType::Var
                | TokenType::For
                | TokenType::If
                | TokenType::While
                | TokenType::Print
                | TokenType::Return => {
                    return ;
                },
                _ => {},
            }
            previous = self.advance();
        }
    }
}

} // verus!
