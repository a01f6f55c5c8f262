//! The scanner: from source text to tokens.

use vstd::prelude::*;
use crate::error::{Error, ErrorView};
use crate::lexical::{
    is_digit, keyword, lemma_numeral_end, lemma_run_end, lemma_run_end_within, newlines,
    next_lexeme, numeral_end, run_end, scan_from, word_type, CharClass, Lexeme,
};
use crate::text::{chars_of, is_decimal_digit, substring};
use crate::token::{Token, TokenView};
use crate::token_type::{TokenType, TokenTypeView};

verus! {

/// The keywords and their categories, in the order in which they are looked up.
pub open spec fn keyword_table() -> Seq<(Seq<char>, TokenTypeView)> {
    seq![
        ("and"@, TokenTypeView::And),
        ("class"@, TokenTypeView::Class),
        ("else"@, TokenTypeView::Else),
        ("false"@, TokenTypeView::False),
        ("for"@, TokenTypeView::For),
        ("fun"@, TokenTypeView::Fun),
        ("if"@, TokenTypeView::If),
        ("nil"@, TokenTypeView::Nil),
        ("or"@, TokenTypeView::Or),
        ("print"@, TokenTypeView::Print),
        ("return"@, TokenTypeView::Return),
        ("super"@, TokenTypeView::Super),
        ("this"@, TokenTypeView::This),
        ("true"@, TokenTypeView::True),
        ("var"@, TokenTypeView::Var),
        ("while"@, TokenTypeView::While),
    ]
}

/// The table of keywords. It is built once, by [`init`], and handed to every
/// scanner; nothing can change it afterwards.
#[derive(Debug)]
pub struct Keywords {
    entries: Vec<(String, TokenType)>,
}

impl View for Keywords {
    type V = Seq<(Seq<char>, TokenTypeView)>;

    /// The words of the table and their categories, in order.
    closed spec fn view(&self) -> Seq<(Seq<char>, TokenTypeView)> {
        Seq::new(self.entries.len() as nat, |i: int| (self.entries[i].0@, self.entries[i].1@))
    }
}

impl Keywords {
    #[verifier::type_invariant]
    spec fn holds_the_keywords(&self) -> bool {
        &&& self.entries.len() == keyword_table().len()
        &&& forall|i: int|
            0 <= i < self.entries.len() ==> (#[trigger] self.entries[i]).0@ == keyword_table()[i].0
                && self.entries[i].1@ == keyword_table()[i].1
    }

    /// The category of the keyword that `text` spells, if it spells one.
    pub fn get(&self, text: &String) -> (found: Option<TokenType>)
        ensures
            self@ == keyword_table(),
            match found {
                Some(type_) => keyword(text@) == Some(type_@),
                None => keyword(text@) is None,
            },
    {
        proof {
            use_type_invariant(self);
            assert(self@ =~= keyword_table());
        }
        let mut i: usize = 0;
        while i < self.entries.len()
            invariant
                i <= self.entries.len() == keyword_table().len(),
                forall|j: int|
                    0 <= j < self.entries.len() ==> (#[trigger] self.entries[j]).0@
                        == keyword_table()[j].0 && self.entries[j].1@ == keyword_table()[j].1,
                forall|j: int| 0 <= j < i ==> (#[trigger] keyword_table()[j]).0 != text@,
            decreases self.entries.len() - i,
        {
            if self.entries[i].0 == *text {
                proof {
                    lemma_keyword_found(text@, i as int);
                }
                return Some(self.entries[i].1.clone());
            }
            i += 1;
        }
        proof {
            lemma_keyword_found(text@, i as int);
        }
        None
    }
}

/// Looking a word up in the table entry by entry finds its keyword.
proof fn lemma_keyword_found(text: Seq<char>, i: int)
    requires
        0 <= i <= keyword_table().len(),
        forall|j: int| 0 <= j < i ==> (#[trigger] keyword_table()[j]).0 != text,
        i < keyword_table().len() ==> keyword_table()[i].0 == text,
    ensures
        i < keyword_table().len() ==> keyword(text) == Some(keyword_table()[i].1),
        i == keyword_table().len() ==> keyword(text) is None,
{
    let table = keyword_table();
    assert(table.len() == 16);
    assert(forall|j: int| 0 <= j < i ==> table[j].0 != text);
    assert(i > 0 ==> table[0].0 != text);
    assert(i > 1 ==> table[1].0 != text);
    assert(i > 2 ==> table[2].0 != text);
    assert(i > 3 ==> table[3].0 != text);
    assert(i > 4 ==> table[4].0 != text);
    assert(i > 5 ==> table[5].0 != text);
    assert(i > 6 ==> table[6].0 != text);
    assert(i > 7 ==> table[7].0 != text);
    assert(i > 8 ==> table[8].0 != text);
    assert(i > 9 ==> table[9].0 != text);
    assert(i > 10 ==> table[10].0 != text);
    assert(i > 11 ==> table[11].0 != text);
    assert(i > 12 ==> table[12].0 != text);
    assert(i > 13 ==> table[13].0 != text);
    assert(i > 14 ==> table[14].0 != text);
    assert(i > 15 ==> table[15].0 != text);
}

/// Builds the table of keywords.
pub fn init() -> (keywords: Keywords)
    ensures
        keywords@ == keyword_table(),
{
    let mut entries: Vec<(String, TokenType)> = Vec::new();
    entries.push(("and".to_owned(), TokenType::And));
    entries.push(("class".to_owned(), TokenType::Class));
    entries.push(("else".to_owned(), TokenType::Else));
    entries.push(("false".to_owned(), TokenType::False));
    entries.push(("for".to_owned(), TokenType::For));
    entries.push(("fun".to_owned(), TokenType::Fun));
    entries.push(("if".to_owned(), TokenType::If));
    entries.push(("nil".to_owned(), TokenType::Nil));
    entries.push(("or".to_owned(), TokenType::Or));
    entries.push(("print".to_owned(), TokenType::Print));
    entries.push(("return".to_owned(), TokenType::Return));
    entries.push(("super".to_owned(), TokenType::Super));
    entries.push(("this".to_owned(), TokenType::This));
    entries.push(("true".to_owned(), TokenType::True));
    entries.push(("var".to_owned(), TokenType::Var));
    entries.push(("while".to_owned(), TokenType::While));
    let keywords = Keywords { entries };
    assert(keywords@ =~= keyword_table());
    keywords
}

/// Whether `to_number` can be called on every text.
pub open spec fn reads_every_text<F: Fn(&str) -> Option<u64>>(to_number: &F) -> bool {
    forall|text: &str| #[trigger] to_number.requires((text,))
}

/// Whether `to_number` reads numerals as the function `reading` does.
pub open spec fn reads_as<F: Fn(&str) -> Option<u64>>(
    to_number: &F,
    reading: spec_fn(Seq<char>) -> Option<u64>,
) -> bool {
    forall|text: &str, bits: Option<u64>| #[trigger]
        to_number.ensures((text,), bits) ==> bits == reading(text@)
}

/// A scanner over one source text. It keeps the tokens found so far, where
/// the lexeme at hand starts, how far it has read, and the line it is on.
#[derive(Debug)]
pub struct Scanner<'a> {
    pub source: String,
    pub tokens: Vec<Token>,
    start: usize,
    current: usize,
    line: u32,
    source_chars: Vec<char>,
    keywords: &'a Keywords,
}

impl<'a> Scanner<'a> {
    /// The characters of the source text.
    pub closed spec fn chars(&self) -> Seq<char> {
        self.source_chars@
    }

    /// Where the lexeme at hand starts.
    pub closed spec fn lexeme_start(&self) -> int {
        self.start as int
    }

    /// How many characters have been read.
    pub closed spec fn position(&self) -> int {
        self.current as int
    }

    /// The line that the scanner is on, counted from 1.
    pub closed spec fn line(&self) -> int {
        self.line as int
    }

    /// The tokens found so far.
    pub closed spec fn scanned(&self) -> Seq<TokenView> {
        self.tokens.deep_view()
    }

    /// What holds of a scanner between any two calls: it reads inside its
    /// text, and no line number that it can still reach overflows.
    pub closed spec fn wf(&self) -> bool {
        &&& self.source_chars@ == self.source@
        &&& self.start <= self.current <= self.source_chars.len()
        &&& 1 <= self.line
        &&& self.line + (self.source_chars.len() - self.current) <= u32::MAX
    }

    /// Whether `other` reads the same text with the same keywords.
    pub closed spec fn same_text(&self, other: &Self) -> bool {
        &&& self.source == other.source
        &&& self.source_chars == other.source_chars
        &&& self.keywords == other.keywords
    }

    /// A scanner at the start of `source`, on line 1, with no token yet.
    pub fn new(source: String, keywords: &'a Keywords) -> (scanner: Self)
        requires
            source@.len() < u32::MAX,
        ensures
            scanner.wf(),
            scanner.chars() == source@,
            scanner.lexeme_start() == 0,
            scanner.position() == 0,
            scanner.line() == 1,
            scanner.scanned() == Seq::<TokenView>::empty(),
    {
        let source_chars = chars_of(source.as_str());
        let scanner = Self {
            source,
            tokens: Vec::<Token>::new(),
            start: 0,
            current: 0,
            line: 1,
            source_chars,
            keywords,
        };
        assert(scanner.tokens.deep_view() =~= Seq::<TokenView>::empty());
        scanner
    }

    /// Scans the rest of the text, token after token, and stops at the first
    /// error. The tokens found are added to those the scanner holds, also
    /// when an error ends the scan.
    pub fn scan_tokens<F: Fn(&str) -> Option<u64>>(&mut self, to_number: &F) -> (r: Result<
        &Vec<Token>,
        Error,
    >)
        requires
            old(self).wf(),
            reads_every_text(to_number),
        ensures
            final(self).wf(),
            final(self).chars() == old(self).chars(),
            forall|reading: spec_fn(Seq<char>) -> Option<u64>| #[trigger]
                reads_as(to_number, reading) ==> {
                    let scan = scan_from(
                        old(self).chars(),
                        old(self).position(),
                        old(self).line(),
                        reading,
                    );
                    &&& final(self).scanned() == old(self).scanned() + scan.tokens
                    &&& final(self).position() == scan.end
                    &&& final(self).line() == scan.line
                    &&& match r {
                        Ok(tokens) => {
                            &&& scan.error is None
                            &&& tokens.deep_view() == final(self).scanned()
                            &&& final(self).position() == final(self).chars().len()
                        },
                        Err(error) => scan.error == Some(error@),
                    }
                },
    {
        while !self.is_at_end()
            invariant
                self.wf(),
                self.same_text(old(self)),
                reads_every_text(to_number),
                forall|reading: spec_fn(Seq<char>) -> Option<u64>| #[trigger]
                    reads_as(to_number, reading) ==> self.continues(old(self), reading),
            decreases self.source_chars.len() - self.current,
        {
            self.start = self.current;
            let ghost before = *self;
            let scanned = self.scan_token(to_number);
            assert forall|reading: spec_fn(Seq<char>) -> Option<u64>| #[trigger]
                reads_as(to_number, reading) implies self.continues(old(self), reading)
                || scanned is Err by {
                let rest = scan_from(self.chars(), self.position(), self.line(), reading);
                match next_lexeme(before.chars(), before.position(), before.line(), reading) {
                    Lexeme::Token { type_, end, line } => {
                        let token = TokenView {
                            type_,
                            lexeme: before.chars().subrange(before.position(), end),
                            line,
                        };
                        assert(before.scanned() + (seq![token] + rest.tokens)
                            =~= before.scanned().push(token) + rest.tokens);
                    },
                    _ => {},
                }
            }
            if let Err(error) = scanned {
                assert forall|reading: spec_fn(Seq<char>) -> Option<u64>| #[trigger]
                    reads_as(to_number, reading) implies self.stopped(
                    old(self),
                    reading,
                    Some(error@),
                ) by {
                    assert(before.continues(old(self), reading));
                    assert(self.scanned() + Seq::<TokenView>::empty() =~= self.scanned());
                }
                return Err(error);
            }
        }
        assert forall|reading: spec_fn(Seq<char>) -> Option<u64>| #[trigger]
            reads_as(to_number, reading) implies self.stopped(old(self), reading, None) by {
            assert(self.continues(old(self), reading));
            assert(self.scanned() + Seq::<TokenView>::empty() =~= self.scanned());
        }
        Ok(&self.tokens)
    }

    /// Whether the scan that `before` began goes on from where this scanner
    /// stands: what is still to be found, added to what has been found,
    /// is the outcome of the whole scan.
    spec fn continues(&self, before: &Self, reading: spec_fn(Seq<char>) -> Option<u64>) -> bool {
        let whole = scan_from(before.chars(), before.position(), before.line(), reading);
        let rest = scan_from(self.chars(), self.position(), self.line(), reading);
        &&& before.scanned() + whole.tokens == self.scanned() + rest.tokens
        &&& whole.error == rest.error
        &&& whole.end == rest.end
        &&& whole.line == rest.line
    }

    /// Whether the scan that `before` began has ended where this scanner
    /// stands, with `error`.
    spec fn stopped(
        &self,
        before: &Self,
        reading: spec_fn(Seq<char>) -> Option<u64>,
        error: Option<ErrorView>,
    ) -> bool {
        let whole = scan_from(before.chars(), before.position(), before.line(), reading);
        &&& self.scanned() == before.scanned() + whole.tokens
        &&& self.position() == whole.end
        &&& self.line() == whole.line
        &&& whole.error == error
    }

    /// Whether the whole text has been read.
    fn is_at_end(&self) -> (r: bool)
        ensures
            r == (self.current >= self.source_chars.len()),
    {
        self.current >= self.source_chars.len()
    }

    /// Reads the next character.
    fn advance(&mut self) -> (c: char)
        requires
            old(self).current < old(self).source_chars.len(),
        ensures
            c == old(self).source_chars[old(self).current as int],
            *final(self) == (Scanner { current: (old(self).current + 1) as usize, ..*old(self) }),
    {
        let next = self.source_chars[self.current];
        self.current += 1;
        next
    }

    /// The next character, or NUL at the end of the text.
    fn peek(&self) -> (c: char)
        ensures
            c == if self.current < self.source_chars.len() {
                self.source_chars[self.current as int]
            } else {
                '\0'
            },
    {
        if self.current < self.source_chars.len() {
            self.source_chars[self.current]
        } else {
            '\0'
        }
    }

    /// The character `lookahead` places behind the next one, or NUL where
    /// the text ends before it.
    fn peek_next(&self, lookahead: usize) -> (c: char)
        requires
            self.current <= self.source_chars.len(),
        ensures
            c == if self.current + lookahead < self.source_chars.len() {
                self.source_chars[self.current + lookahead]
            } else {
                '\0'
            },
    {
        if lookahead >= self.source_chars.len() - self.current {
            '\0'
        } else {
            self.source_chars[self.current + lookahead]
        }
    }

    /// Reads the next character if it is `expected`, and tells whether it was.
    fn match_next(&mut self, expected: char) -> (is_a_match: bool)
        ensures
            is_a_match == (old(self).current < old(self).source_chars.len() && old(
                self,
            ).source_chars[old(self).current as int] == expected),
            is_a_match ==> *final(self) == (Scanner {
                current: (old(self).current + 1) as usize,
                ..*old(self)
            }),
            !is_a_match ==> *final(self) == *old(self),
    {
        let is_a_match = !self.is_at_end() && self.source_chars[self.current] == expected;
        if is_a_match {
            self.current += 1;
        }
        is_a_match
    }

    /// Scans the one lexeme that starts where the scanner stands: adds its
    /// token, or skips it where it is blank, or fails where it is none.
    pub fn scan_token<F: Fn(&str) -> Option<u64>>(&mut self, to_number: &F) -> (r: Result<
        (),
        Error,
    >)
        requires
            old(self).wf(),
            old(self).lexeme_start() == old(self).position(),
            old(self).position() < old(self).chars().len(),
            reads_every_text(to_number),
        ensures
            final(self).wf(),
            final(self).same_text(old(self)),
            final(self).chars() == old(self).chars(),
            final(self).lexeme_start() == old(self).lexeme_start(),
            r is Ok ==> old(self).position() < final(self).position(),
            forall|reading: spec_fn(Seq<char>) -> Option<u64>| #[trigger]
                reads_as(to_number, reading) ==> match next_lexeme(
                    old(self).chars(),
                    old(self).position(),
                    old(self).line(),
                    reading,
                ) {
                    Lexeme::Token { type_, end, line } => {
                        &&& r is Ok
                        &&& final(self).position() == end
                        &&& final(self).line() == line
                        &&& final(self).scanned() == old(self).scanned().push(
                            TokenView {
                                type_,
                                lexeme: old(self).chars().subrange(old(self).position(), end),
                                line,
                            },
                        )
                    },
                    Lexeme::Blank { end, line } => {
                        &&& r is Ok
                        &&& final(self).position() == end
                        &&& final(self).line() == line
                        &&& final(self).scanned() == old(self).scanned()
                    },
                    Lexeme::Invalid { error, end, line } => {
                        &&& r matches Err(e)
                        &&& e@ == error
                        &&& final(self).position() == end
                        &&& final(self).line() == line
                        &&& final(self).scanned() == old(self).scanned()
                    },
                },
    {
        let ghost src = self.source_chars@;
        let ghost pos = self.current as int;
        let c = self.advance();
        match c {
            '(' => self.add_token(TokenType::LeftParen),
            ')' => self.add_token(TokenType::RightParen),
            '{' => self.add_token(TokenType::LeftBrace),
            '}' => self.add_token(TokenType::RightBrace),
            ',' => self.add_token(TokenType::Comma),
            '.' => self.add_token(TokenType::Dot),
            '-' => self.add_token(TokenType::Minus),
            '+' => self.add_token(TokenType::Plus),
            ';' => self.add_token(TokenType::Semicolon),
            '*' => self.add_token(TokenType::Star),
            '!' => {
                let type_ = if self.match_next('=') {
                    TokenType::BangEqual
                } else {
                    TokenType::Bang
                };
                self.add_token(type_)
            },
            '=' => {
                let type_ = if self.match_next('=') {
                    TokenType::EqualEqual
                } else {
                    TokenType::Equal
                };
                self.add_token(type_)
            },
            '>' => {
                let type_ = if self.match_next('=') {
                    TokenType::GreaterEqual
                } else {
                    TokenType::Greater
                };
                self.add_token(type_)
            },
            '<' => {
                let type_ = if self.match_next('=') {
                    TokenType::LessEqual
                } else {
                    TokenType::Less
                };
                self.add_token(type_)
            },
            '/' => {
                if self.match_next('/') {
                    let ghost target = run_end(src, pos + 2, CharClass::WithinLine);
                    proof {
                        lemma_run_end(src, pos + 2, CharClass::WithinLine);
                    }
                    while !self.is_at_end() && self.peek() != '\n'
                        invariant
                            self.same_text(old(self)),
                            self.source_chars@ == src,
                            self.tokens == old(self).tokens,
                            self.line == old(self).line,
                            self.start == old(self).start,
                            pos + 2 <= self.current <= target <= src.len(),
                            run_end(src, self.current as int, CharClass::WithinLine) == target,
                            old(self).wf(),
                        decreases src.len() - self.current,
                    {
                        proof {
                            lemma_run_end(src, self.current + 1, CharClass::WithinLine);
                        }
                        self.advance();
                    }
                } else {
                    self.add_token(TokenType::Slash)
                }
            },
            ' ' | '\r' | '\t' => {},
            '\n' => {
                self.line += 1;
            },
            '"' => {
                proof {
                    lemma_run_end(src, pos + 1, CharClass::WithinString);
                }
                return self.scan_string();
            },
            _ => {
                if is_decimal_digit(c) {
                    proof {
                        lemma_run_end(src, pos + 1, CharClass::Digit);
                        lemma_numeral_start(src, pos);
                        lemma_numeral_end(src, pos + 1);
                    }
                    return self.scan_number(to_number);
                } else if c.is_alphanumeric() {
                    proof {
                        lemma_run_end(src, pos + 1, CharClass::Alphanumeric);
                        lemma_run_end_within(src, pos, pos + 1, CharClass::Alphanumeric);
                    }
                    return self.scan_kw_or_identifier();
                } else {
                    return Err(Error::new("Unexpected character.", self.line));
                }
            },
        }
        Ok(())
    }

    /// Scans a string literal whose opening quote has just been read: reads
    /// up to the closing quote, counting the lines, and adds the token. The
    /// text between the quotes is taken as it stands.
    pub fn scan_string(&mut self) -> (r: Result<(), Error>)
        requires
            old(self).wf(),
            old(self).lexeme_start() < old(self).position(),
        ensures
            final(self).wf(),
            final(self).chars() == old(self).chars(),
            final(self).lexeme_start() == old(self).lexeme_start(),
            ({
                let src = old(self).chars();
                let close = run_end(src, old(self).position(), CharClass::WithinString);
                let reached = old(self).line() + newlines(src, old(self).position(), close);
                &&& final(self).line() == reached
                &&& if close >= src.len() {
                    &&& r matches Err(e)
                    &&& e@ == (ErrorView { message: "Unterminated string."@, line: reached })
                    &&& final(self).position() == src.len()
                    &&& final(self).scanned() == old(self).scanned()
                } else {
                    &&& r is Ok
                    &&& final(self).position() == close + 1
                    &&& final(self).scanned() == old(self).scanned().push(
                        TokenView {
                            type_: TokenTypeView::String(
                                src.subrange(old(self).lexeme_start() + 1, close),
                            ),
                            lexeme: src.subrange(old(self).lexeme_start(), close + 1),
                            line: reached,
                        },
                    )
                }
            }),
            final(self).same_text(old(self)),
    {
        let ghost src = self.source_chars@;
        let ghost from = self.current as int;
        let ghost close = run_end(src, from, CharClass::WithinString);
        proof {
            lemma_run_end(src, from, CharClass::WithinString);
        }
        while !self.is_at_end() && self.peek() != '"'
            invariant
                self.same_text(old(self)),
                self.source_chars@ == src,
                self.tokens == old(self).tokens,
                self.start == old(self).start,
                from <= self.current <= close <= src.len(),
                run_end(src, self.current as int, CharClass::WithinString) == close,
                self.line == old(self).line + newlines(src, from, self.current as int),
                old(self).line <= self.line,
                self.line + (src.len() - self.current) <= u32::MAX,
                old(self).wf(),
            decreases src.len() - self.current,
        {
            proof {
                lemma_run_end(src, self.current + 1, CharClass::WithinString);
            }
            if self.peek() == '\n' {
                self.line += 1;
            }
            self.advance();
        }
        if self.is_at_end() {
            return Err(Error::new("Unterminated string.", self.line));
        }
        self.advance();
        let value = substring(&self.source_chars, self.start + 1, self.current - 1);
        self.add_token(TokenType::String(value));
        Ok(())
    }

    /// Scans the rest of a numeral: digits, and a fraction where a digit
    /// follows the point. The text from the start of the lexeme on is handed
    /// to `to_number`, and the token carries the number that comes back.
    pub fn scan_number<F: Fn(&str) -> Option<u64>>(&mut self, to_number: &F) -> (r: Result<
        (),
        Error,
    >)
        requires
            old(self).wf(),
            reads_every_text(to_number),
        ensures
            final(self).wf(),
            final(self).chars() == old(self).chars(),
            final(self).lexeme_start() == old(self).lexeme_start(),
            final(self).line() == old(self).line(),
            final(self).position() == numeral_end(old(self).chars(), old(self).position()),
            final(self).same_text(old(self)),
            forall|reading: spec_fn(Seq<char>) -> Option<u64>| #[trigger]
                reads_as(to_number, reading) ==> {
                    let lexeme = final(self).chars().subrange(
                        final(self).lexeme_start(),
                        final(self).position(),
                    );
                    match reading(lexeme) {
                        Some(bits) => {
                            &&& r is Ok
                            &&& final(self).scanned() == old(self).scanned().push(
                                TokenView {
                                    type_: TokenTypeView::Number(bits),
                                    lexeme,
                                    line: final(self).line(),
                                },
                            )
                        },
                        None => {
                            &&& r matches Err(e)
                            &&& e@ == (ErrorView {
                                message: "Invalid number."@,
                                line: final(self).line(),
                            })
                            &&& final(self).scanned() == old(self).scanned()
                        },
                    }
                },
    {
        let ghost src = self.source_chars@;
        let ghost from = self.current as int;
        let ghost whole = run_end(src, from, CharClass::Digit);
        proof {
            lemma_run_end(src, from, CharClass::Digit);
        }
        while is_decimal_digit(self.peek())
            invariant
                self.same_text(old(self)),
                self.source_chars@ == src,
                self.tokens == old(self).tokens,
                self.start == old(self).start,
                self.line == old(self).line,
                from <= self.current <= whole <= src.len(),
                run_end(src, self.current as int, CharClass::Digit) == whole,
                old(self).wf(),
            decreases src.len() - self.current,
        {
            proof {
                lemma_run_end(src, self.current + 1, CharClass::Digit);
            }
            self.advance();
        }
        if self.peek() == '.' && is_decimal_digit(self.peek_next(1)) {
            self.advance();
            let ghost fraction = run_end(src, whole + 1, CharClass::Digit);
            proof {
                lemma_run_end(src, whole + 1, CharClass::Digit);
            }
            while is_decimal_digit(self.peek())
                invariant
                    self.same_text(old(self)),
                    self.source_chars@ == src,
                    self.tokens == old(self).tokens,
                    self.start == old(self).start,
                    self.line == old(self).line,
                    whole + 1 <= self.current <= fraction <= src.len(),
                    run_end(src, self.current as int, CharClass::Digit) == fraction,
                    old(self).wf(),
                decreases src.len() - self.current,
            {
                proof {
                    lemma_run_end(src, self.current + 1, CharClass::Digit);
                }
                self.advance();
            }
        }
        let value = substring(&self.source_chars, self.start, self.current);
        match to_number(value.as_str()) {
            Some(number) => {
                self.add_token(TokenType::Number(number));
                Ok(())
            },
            None => Err(Error::new("Invalid number.", self.line)),
        }
    }

    /// Scans the rest of a word, a run of letters and digits, and adds its
    /// token: the keyword that the lexeme spells, or else an identifier.
    pub fn scan_kw_or_identifier(&mut self) -> (r: Result<(), Error>)
        requires
            old(self).wf(),
        ensures
            final(self).wf(),
            r is Ok,
            final(self).chars() == old(self).chars(),
            final(self).lexeme_start() == old(self).lexeme_start(),
            final(self).line() == old(self).line(),
            final(self).position() == run_end(
                old(self).chars(),
                old(self).position(),
                CharClass::Alphanumeric,
            ),
            ({
                let lexeme = final(self).chars().subrange(
                    final(self).lexeme_start(),
                    final(self).position(),
                );
                final(self).scanned() == old(self).scanned().push(
                    TokenView { type_: word_type(lexeme), lexeme, line: final(self).line() },
                )
            }),
            final(self).same_text(old(self)),
    {
        let ghost src = self.source_chars@;
        let ghost from = self.current as int;
        let ghost end = run_end(src, from, CharClass::Alphanumeric);
        proof {
            lemma_run_end(src, from, CharClass::Alphanumeric);
        }
        while !self.is_at_end() && self.peek().is_alphanumeric()
            invariant
                self.same_text(old(self)),
                self.source_chars@ == src,
                self.tokens == old(self).tokens,
                self.start == old(self).start,
                self.line == old(self).line,
                from <= self.current <= end <= src.len(),
                run_end(src, self.current as int, CharClass::Alphanumeric) == end,
                old(self).wf(),
            decreases src.len() - self.current,
        {
            proof {
                lemma_run_end(src, self.current + 1, CharClass::Alphanumeric);
            }
            self.advance();
        }
        let text = substring(&self.source_chars, self.start, self.current);
        match self.keywords.get(&text) {
            Some(token_type) => self.add_token(token_type),
            None => self.add_token(TokenType::Identifier),
        }
        Ok(())
    }

    /// Adds a token of category `type_` for the lexeme at hand.
    fn add_token(&mut self, type_: TokenType)
        requires
            old(self).start <= old(self).current <= old(self).source_chars.len(),
        ensures
            final(self).same_text(old(self)),
            final(self).start == old(self).start,
            final(self).current == old(self).current,
            final(self).line == old(self).line,
            final(self).scanned() == old(self).scanned().push(
                TokenView {
                    type_: type_@,
                    lexeme: old(self).chars().subrange(
                        old(self).lexeme_start(),
                        old(self).position(),
                    ),
                    line: old(self).line(),
                },
            ),
    {
        let token = Token {
            type_,
            lexeme: substring(&self.source_chars, self.start, self.current),
            line: self.line,
        };
        self.tokens.push(token);
        assert(self.tokens.deep_view() =~= old(self).tokens.deep_view().push(token@));
    }
}

/// A numeral ends where the numeral without its first digit ends.
proof fn lemma_numeral_start(src: Seq<char>, pos: int)
    requires
        0 <= pos < src.len(),
        is_digit(src[pos]),
    ensures
        numeral_end(src, pos + 1) == numeral_end(src, pos),
{
}

} // verus!
