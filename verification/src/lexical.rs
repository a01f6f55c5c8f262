//! The lexical grammar: which tokens a source text is made of.
//!
//! Everything here is mathematics. The scanner is verified against it.

use vstd::prelude::*;
use crate::error::ErrorView;
use crate::token::TokenView;
use crate::token_type::TokenTypeView;

verus! {

/// Whether `c` is one of the ten decimal digits.
pub open spec fn is_digit(c: char) -> bool {
    '0' <= c && c <= '9'
}

/// What `char::is_alphanumeric` answers for `c`: whether Unicode classes the
/// character as alphabetic or numeric.
pub uninterp spec fn alphanumeric(c: char) -> bool;

/// `char::is_alphanumeric` of the standard library. Its answer depends on the
/// character alone and follows the Unicode tables, so it is only given a
/// name here.
pub assume_specification[ char::is_alphanumeric ](c: char) -> (r: bool)
    ensures
        r == alphanumeric(c),
;

/// The sets of characters that a lexeme can be a run of.
pub enum CharClass {
    /// Decimal digits.
    Digit,
    /// Letters and digits.
    Alphanumeric,
    /// Everything but the line feed: the body of a comment.
    WithinLine,
    /// Everything but the double quote: the body of a string literal.
    WithinString,
}

impl CharClass {
    /// Whether `c` belongs to the class.
    pub open spec fn holds(self, c: char) -> bool {
        match self {
            CharClass::Digit => is_digit(c),
            CharClass::Alphanumeric => alphanumeric(c),
            CharClass::WithinLine => c != '\n',
            CharClass::WithinString => c != '"',
        }
    }
}

/// The index just past the longest run of characters of `class` that starts
/// at `from`; `from` itself when no such character stands there.
pub open spec fn run_end(src: Seq<char>, from: int, class: CharClass) -> int
    decreases src.len() - from,
{
    if 0 <= from < src.len() && class.holds(src[from]) {
        run_end(src, from + 1, class)
    } else {
        from
    }
}

/// The number of line feeds among `src[from..to]`.
pub open spec fn newlines(src: Seq<char>, from: int, to: int) -> int
    decreases to - from,
{
    if from >= to {
        0
    } else {
        newlines(src, from, to - 1) + if src[to - 1] == '\n' {
            1int
        } else {
            0int
        }
    }
}

/// Whether the character after the one at `pos` is `c`.
pub open spec fn followed_by(src: Seq<char>, pos: int, c: char) -> bool {
    pos + 1 < src.len() && src[pos + 1] == c
}

/// The index just past the numeral that starts at `from`: a run of digits,
/// and then a point and a second run only where a digit follows the point.
pub open spec fn numeral_end(src: Seq<char>, from: int) -> int {
    let whole = run_end(src, from, CharClass::Digit);
    if whole + 1 < src.len() && src[whole] == '.' && is_digit(src[whole + 1]) {
        run_end(src, whole + 1, CharClass::Digit)
    } else {
        whole
    }
}

/// The category of a token that is a single character whatever follows it.
pub open spec fn punctuation(c: char) -> Option<TokenTypeView> {
    if c == '(' {
        Some(TokenTypeView::LeftParen)
    } else if c == ')' {
        Some(TokenTypeView::RightParen)
    } else if c == '{' {
        Some(TokenTypeView::LeftBrace)
    } else if c == '}' {
        Some(TokenTypeView::RightBrace)
    } else if c == ',' {
        Some(TokenTypeView::Comma)
    } else if c == '.' {
        Some(TokenTypeView::Dot)
    } else if c == '-' {
        Some(TokenTypeView::Minus)
    } else if c == '+' {
        Some(TokenTypeView::Plus)
    } else if c == ';' {
        Some(TokenTypeView::Semicolon)
    } else if c == '*' {
        Some(TokenTypeView::Star)
    } else {
        None
    }
}

/// Whether `c` starts an operator that an `=` directly behind it extends.
pub open spec fn starts_operator(c: char) -> bool {
    c == '!' || c == '=' || c == '<' || c == '>'
}

/// The category of the operator that starts with `c`, bare or extended by `=`.
pub open spec fn operator(c: char, extended: bool) -> TokenTypeView
    recommends
        starts_operator(c),
{
    if c == '!' {
        if extended {
            TokenTypeView::BangEqual
        } else {
            TokenTypeView::Bang
        }
    } else if c == '=' {
        if extended {
            TokenTypeView::EqualEqual
        } else {
            TokenTypeView::Equal
        }
    } else if c == '<' {
        if extended {
            TokenTypeView::LessEqual
        } else {
            TokenTypeView::Less
        }
    } else {
        if extended {
            TokenTypeView::GreaterEqual
        } else {
            TokenTypeView::Greater
        }
    }
}

/// The keyword that `text` spells, if it spells one exactly.
pub open spec fn keyword(text: Seq<char>) -> Option<TokenTypeView> {
    if text == "and"@ {
        Some(TokenTypeView::And)
    } else if text == "class"@ {
        Some(TokenTypeView::Class)
    } else if text == "else"@ {
        Some(TokenTypeView::Else)
    } else if text == "false"@ {
        Some(TokenTypeView::False)
    } else if text == "for"@ {
        Some(TokenTypeView::For)
    } else if text == "fun"@ {
        Some(TokenTypeView::Fun)
    } else if text == "if"@ {
        Some(TokenTypeView::If)
    } else if text == "nil"@ {
        Some(TokenTypeView::Nil)
    } else if text == "or"@ {
        Some(TokenTypeView::Or)
    } else if text == "print"@ {
        Some(TokenTypeView::Print)
    } else if text == "return"@ {
        Some(TokenTypeView::Return)
    } else if text == "super"@ {
        Some(TokenTypeView::Super)
    } else if text == "this"@ {
        Some(TokenTypeView::This)
    } else if text == "true"@ {
        Some(TokenTypeView::True)
    } else if text == "var"@ {
        Some(TokenTypeView::Var)
    } else if text == "while"@ {
        Some(TokenTypeView::While)
    } else {
        None
    }
}

/// The category of a run of letters and digits: its keyword, or else an
/// identifier.
pub open spec fn word_type(text: Seq<char>) -> TokenTypeView {
    match keyword(text) {
        Some(type_) => type_,
        None => TokenTypeView::Identifier,
    }
}

/// What stands at a position of the source.
pub enum Lexeme {
    /// A token of category `type_` that ends before `end`, on line `line`.
    Token { type_: TokenTypeView, end: int, line: int },
    /// White space or a comment, up to `end`; the line is `line` after it.
    Blank { end: int, line: int },
    /// Nothing that the language knows. Finding that out has taken the
    /// scanner to `end`, on line `line`.
    Invalid { error: ErrorView, end: int, line: int },
}

/// The string literal whose opening quote stands at `pos`. It runs to the
/// next double quote. Line feeds inside it count, and the token is on the
/// line of its closing quote. Without a closing quote the text is read to
/// its end and the error names the line reached there.
pub open spec fn string_lexeme(src: Seq<char>, pos: int, line: int) -> Lexeme {
    let close = run_end(src, pos + 1, CharClass::WithinString);
    let reached = line + newlines(src, pos + 1, close);
    if close >= src.len() {
        Lexeme::Invalid {
            error: ErrorView { message: "Unterminated string."@, line: reached },
            end: close,
            line: reached,
        }
    } else {
        Lexeme::Token {
            type_: TokenTypeView::String(src.subrange(pos + 1, close)),
            end: close + 1,
            line: reached,
        }
    }
}

/// The numeral that starts at `pos`, read as `to_number` reads its text.
pub open spec fn number_lexeme(
    src: Seq<char>,
    pos: int,
    line: int,
    to_number: spec_fn(Seq<char>) -> Option<u64>,
) -> Lexeme {
    let end = numeral_end(src, pos);
    match to_number(src.subrange(pos, end)) {
        Some(bits) => Lexeme::Token { type_: TokenTypeView::Number(bits), end, line },
        None => Lexeme::Invalid {
            error: ErrorView { message: "Invalid number."@, line },
            end,
            line,
        },
    }
}

/// The keyword or identifier that starts at `pos`.
pub open spec fn word_lexeme(src: Seq<char>, pos: int, line: int) -> Lexeme {
    let end = run_end(src, pos, CharClass::Alphanumeric);
    Lexeme::Token { type_: word_type(src.subrange(pos, end)), end, line }
}

/// What stands at `pos`, decided by the character there: punctuation; an
/// operator, extended by a following `=`; a comment up to the end of the
/// line, or a slash; white space; a string; a number; a word. `line` is the
/// line that `pos` is on.
pub open spec fn next_lexeme(
    src: Seq<char>,
    pos: int,
    line: int,
    to_number: spec_fn(Seq<char>) -> Option<u64>,
) -> Lexeme
    recommends
        0 <= pos < src.len(),
{
    let c = src[pos];
    if punctuation(c) is Some {
        Lexeme::Token { type_: punctuation(c)->0, end: pos + 1, line }
    } else if starts_operator(c) {
        if followed_by(src, pos, '=') {
            Lexeme::Token { type_: operator(c, true), end: pos + 2, line }
        } else {
            Lexeme::Token { type_: operator(c, false), end: pos + 1, line }
        }
    } else if c == '/' {
        if followed_by(src, pos, '/') {
            Lexeme::Blank { end: run_end(src, pos + 2, CharClass::WithinLine), line }
        } else {
            Lexeme::Token { type_: TokenTypeView::Slash, end: pos + 1, line }
        }
    } else if c == ' ' || c == '\r' || c == '\t' {
        Lexeme::Blank { end: pos + 1, line }
    } else if c == '\n' {
        Lexeme::Blank { end: pos + 1, line: line + 1 }
    } else if c == '"' {
        string_lexeme(src, pos, line)
    } else if is_digit(c) {
        number_lexeme(src, pos, line, to_number)
    } else if alphanumeric(c) {
        word_lexeme(src, pos, line)
    } else {
        Lexeme::Invalid {
            error: ErrorView { message: "Unexpected character."@, line },
            end: pos + 1,
            line,
        }
    }
}

/// The outcome of scanning: the tokens found, in order; the error that
/// stopped the scan, if one did; and where the scan ended, on which line.
pub struct Scan {
    pub tokens: Seq<TokenView>,
    pub error: Option<ErrorView>,
    pub end: int,
    pub line: int,
}

impl Scan {
    /// This outcome with `token` in front of its tokens.
    pub open spec fn after(self, token: TokenView) -> Scan {
        Scan { tokens: seq![token] + self.tokens, ..self }
    }
}

/// The tokens of `src` from `pos` on, where `pos` is on line `line`. The scan
/// stops at the first thing that is no lexeme.
pub open spec fn scan_from(
    src: Seq<char>,
    pos: int,
    line: int,
    to_number: spec_fn(Seq<char>) -> Option<u64>,
) -> Scan
    decreases src.len() - pos,
{
    if pos < 0 || pos >= src.len() {
        Scan { tokens: Seq::empty(), error: None, end: pos, line }
    } else {
        proof {
            lemma_lexeme_advances(src, pos, line, to_number);
        }
        match next_lexeme(src, pos, line, to_number) {
            Lexeme::Token { type_, end, line: reached } => scan_from(
                src,
                end,
                reached,
                to_number,
            ).after(TokenView { type_, lexeme: src.subrange(pos, end), line: reached }),
            Lexeme::Blank { end, line: reached } => scan_from(src, end, reached, to_number),
            Lexeme::Invalid { error, end, line: reached } => Scan {
                tokens: Seq::empty(),
                error: Some(error),
                end,
                line: reached,
            },
        }
    }
}

/// The tokens of a whole source text, whose first line is line 1.
pub open spec fn scan(src: Seq<char>, to_number: spec_fn(Seq<char>) -> Option<u64>) -> Scan {
    scan_from(src, 0, 1, to_number)
}

/// A run ends inside the text, holds only characters of its class, and
/// cannot be extended.
pub proof fn lemma_run_end(src: Seq<char>, from: int, class: CharClass)
    requires
        0 <= from <= src.len(),
    ensures
        from <= run_end(src, from, class) <= src.len(),
        forall|i: int| from <= i < run_end(src, from, class) ==> class.holds(#[trigger] src[i]),
        run_end(src, from, class) < src.len() ==> !class.holds(src[run_end(src, from, class)]),
    decreases src.len() - from,
{
    if from < src.len() && class.holds(src[from]) {
        lemma_run_end(src, from + 1, class);
    }
}

/// A run ends where every later start within it ends.
pub proof fn lemma_run_end_within(src: Seq<char>, from: int, mid: int, class: CharClass)
    requires
        0 <= from <= mid <= run_end(src, from, class),
    ensures
        run_end(src, mid, class) == run_end(src, from, class),
    decreases mid - from,
{
    if from < mid {
        lemma_run_end_within(src, from + 1, mid, class);
    }
}

/// A numeral ends inside the text, at or after its start.
pub proof fn lemma_numeral_end(src: Seq<char>, from: int)
    requires
        0 <= from <= src.len(),
    ensures
        from <= numeral_end(src, from) <= src.len(),
        0 <= from < src.len() && is_digit(src[from]) ==> from < numeral_end(src, from),
{
    lemma_run_end(src, from, CharClass::Digit);
    let whole = run_end(src, from, CharClass::Digit);
    if whole + 1 < src.len() {
        lemma_run_end(src, whole + 1, CharClass::Digit);
    }
}

/// There are no more line feeds than characters.
pub proof fn lemma_newlines_bound(src: Seq<char>, from: int, to: int)
    ensures
        0 <= newlines(src, from, to),
        from <= to ==> newlines(src, from, to) <= to - from,
    decreases to - from,
{
    if from < to {
        lemma_newlines_bound(src, from, to - 1);
    }
}

/// A string literal that is never closed is an error: where a double quote
/// stands at `pos` and none stands behind it, the scan from `pos` finds no
/// token and fails on the line that the end of the text is on.
pub proof fn lemma_unterminated_string(
    src: Seq<char>,
    pos: int,
    line: int,
    to_number: spec_fn(Seq<char>) -> Option<u64>,
)
    requires
        0 <= pos < src.len(),
        src[pos] == '"',
        forall|i: int| pos < i < src.len() ==> src[i] != '"',
    ensures
        scan_from(src, pos, line, to_number) == (Scan {
            tokens: Seq::empty(),
            error: Some(
                ErrorView {
                    message: "Unterminated string."@,
                    line: line + newlines(src, pos + 1, src.len() as int),
                },
            ),
            end: src.len() as int,
            line: line + newlines(src, pos + 1, src.len() as int),
        }),
{
    lemma_run_end(src, pos + 1, CharClass::WithinString);
}

/// Every token and every stretch of blank consumes at least one character
/// and ends inside the text.
pub proof fn lemma_lexeme_advances(
    src: Seq<char>,
    pos: int,
    line: int,
    to_number: spec_fn(Seq<char>) -> Option<u64>,
)
    requires
        0 <= pos < src.len(),
    ensures
        match next_lexeme(src, pos, line, to_number) {
            Lexeme::Token { end, line: reached, .. } => pos < end <= src.len() && line <= reached
                <= line + (end - pos),
            Lexeme::Blank { end, line: reached } => pos < end <= src.len() && line <= reached
                <= line + (end - pos),
            Lexeme::Invalid { error, end, line: reached } => pos < end <= src.len() && line
                <= reached <= line + (end - pos) && error.line == reached,
        },
{
    if followed_by(src, pos, '/') {
        lemma_run_end(src, pos + 2, CharClass::WithinLine);
    }
    lemma_run_end(src, pos + 1, CharClass::WithinString);
    lemma_newlines_bound(src, pos + 1, run_end(src, pos + 1, CharClass::WithinString));
    lemma_numeral_end(src, pos);
    lemma_run_end(src, pos, CharClass::Alphanumeric);
}

/// Whether `token` can have been scanned from `src` at or behind `pos`,
/// which is on line `line`: its lexeme is a stretch of the text there, one
/// character long at least, and its line is one that the stretch can be on.
pub open spec fn scanned_within(src: Seq<char>, pos: int, line: int, token: TokenView) -> bool {
    exists|from: int, to: int|
        pos <= from < to <= src.len() && token.lexeme == #[trigger] src.subrange(from, to) && line
            <= token.line <= line + (to - pos)
}

/// The lexeme of every token is the very piece of source text that the token
/// was made from. The scan ends inside the text, on a line that the text
/// has: at the end of the text where it met no error, and else on the line
/// that the error names.
pub proof fn lemma_lexemes_are_source_text(
    src: Seq<char>,
    pos: int,
    line: int,
    to_number: spec_fn(Seq<char>) -> Option<u64>,
)
    requires
        0 <= pos <= src.len(),
    ensures
        forall|i: int|
            0 <= i < scan_from(src, pos, line, to_number).tokens.len() ==> scanned_within(
                src,
                pos,
                line,
                #[trigger] scan_from(src, pos, line, to_number).tokens[i],
            ),
        pos <= scan_from(src, pos, line, to_number).end <= src.len(),
        line <= scan_from(src, pos, line, to_number).line <= line + (scan_from(
            src,
            pos,
            line,
            to_number,
        ).end - pos),
        match scan_from(src, pos, line, to_number).error {
            Some(error) => error.line == scan_from(src, pos, line, to_number).line,
            None => scan_from(src, pos, line, to_number).end == src.len(),
        },
    decreases src.len() - pos,
{
    if pos < src.len() {
        lemma_lexeme_advances(src, pos, line, to_number);
        let all = scan_from(src, pos, line, to_number);
        match next_lexeme(src, pos, line, to_number) {
            Lexeme::Token { end, line: reached, .. } => {
                lemma_lexemes_are_source_text(src, end, reached, to_number);
                let rest = scan_from(src, end, reached, to_number);
                assert forall|i: int| 0 <= i < all.tokens.len() implies scanned_within(
                    src,
                    pos,
                    line,
                    #[trigger] all.tokens[i],
                ) by {
                    if i == 0 {
                        assert(all.tokens[0].lexeme == src.subrange(pos, end));
                    } else {
                        lemma_scanned_earlier(src, pos, line, end, reached, rest.tokens[i - 1]);
                    }
                }
            },
            Lexeme::Blank { end, line: reached } => {
                lemma_lexemes_are_source_text(src, end, reached, to_number);
                assert forall|i: int| 0 <= i < all.tokens.len() implies scanned_within(
                    src,
                    pos,
                    line,
                    #[trigger] all.tokens[i],
                ) by {
                    lemma_scanned_earlier(src, pos, line, end, reached, all.tokens[i]);
                }
            },
            Lexeme::Invalid { .. } => {},
        }
    }
}

/// What can have been scanned behind a later position, on a line reached by
/// then, can have been scanned behind an earlier one.
proof fn lemma_scanned_earlier(
    src: Seq<char>,
    pos: int,
    line: int,
    later: int,
    reached: int,
    token: TokenView,
)
    requires
        pos <= later,
        line <= reached <= line + (later - pos),
        scanned_within(src, later, reached, token),
    ensures
        scanned_within(src, pos, line, token),
{
    let (from, to) = choose|from: int, to: int|
        later <= from < to <= src.len() && token.lexeme == #[trigger] src.subrange(from, to)
            && reached <= token.line <= reached + (to - later);
    assert(pos <= from < to <= src.len() && token.lexeme == src.subrange(from, to) && line
        <= token.line <= line + (to - pos));
}

} // verus!
