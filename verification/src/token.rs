//! Tokens: classified pieces of source text.

use vstd::prelude::*;
use crate::token_type::{TokenType, TokenTypeView};

verus! {

/// A token: its category, the exact piece of source text it was made from,
/// and the line (counted from 1) on which that piece ends.
#[derive(Debug)]
pub struct Token {
    pub type_: TokenType,
    pub lexeme: String,
    pub line: u32,
}

/// The mathematical content of a [`Token`].
pub struct TokenView {
    pub type_: TokenTypeView,
    pub lexeme: Seq<char>,
    pub line: int,
}

impl View for Token {
    type V = TokenView;

    open spec fn view(&self) -> TokenView {
        TokenView { type_: self.type_@, lexeme: self.lexeme@, line: self.line as int }
    }
}

impl DeepView for Token {
    type V = TokenView;

    open spec fn deep_view(&self) -> TokenView {
        self@
    }
}

impl Clone for Token {
    fn clone(&self) -> (r: Self)
        ensures
            r == *self,
    {
        Token { type_: self.type_.clone(), lexeme: self.lexeme.clone(), line: self.line }
    }
}

} // verus!
