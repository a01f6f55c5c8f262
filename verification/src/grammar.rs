//! The grammar of expressions, as mathematics: what the parser computes on a
//! sequence of tokens, and which sequences the grammar derives.
//!
//! ```text
//! expression := equality
//! equality   := comparison (("!=" | "==") comparison)*
//! comparison := term (("<" | ">" | "<=" | ">=") term)*
//! term       := factor (("+" | "-") factor)*
//! factor     := unary (("*" | "/") unary)*
//! unary      := ("!" | "-") unary | primary
//! primary    := NUMBER | STRING | "true" | "false" | "nil" | "(" expression ")"
//! ```
//!
//! The rules are numbered by how tightly they bind: equality is level 0,
//! comparison 1, term 2, factor 3, unary 4 and primary 5.

use vstd::prelude::*;
use crate::expr::{ExprView, ValueView};
use crate::token::TokenView;
use crate::token_type::TokenTypeView;

verus! {

/// The level of the rule that a binary operator belongs to.
pub open spec fn binary_level(type_: TokenTypeView) -> Option<int> {
    match type_ {
        TokenTypeView::BangEqual | TokenTypeView::EqualEqual => Some(0),
        TokenTypeView::Greater
        | TokenTypeView::GreaterEqual
        | TokenTypeView::Less
        | TokenTypeView::LessEqual => Some(1),
        TokenTypeView::Plus | TokenTypeView::Minus => Some(2),
        TokenTypeView::Slash | TokenTypeView::Star => Some(3),
        _ => None,
    }
}

/// Whether a token of this category can stand in front of a `unary`.
pub open spec fn is_prefix_operator(type_: TokenTypeView) -> bool {
    type_ is Bang || type_ is Minus
}

/// The value that a token of this category denotes, if it is a literal.
pub open spec fn literal(type_: TokenTypeView) -> Option<ValueView> {
    match type_ {
        TokenTypeView::Number(bits) => Some(ValueView::Number(bits)),
        TokenTypeView::String(text) => Some(ValueView::String(text)),
        TokenTypeView::True => Some(ValueView::True),
        TokenTypeView::False => Some(ValueView::False),
        TokenTypeView::Nil => Some(ValueView::Nil),
        _ => None,
    }
}

/// The outcome of parsing from some position: the tree or the error, and
/// the position reached. After a success that is the first token that is
/// not part of the expression; after an error it is the token that cannot
/// stand where it stands, or the end of the tokens.
pub struct Parsed {
    pub result: Result<ExprView, Seq<char>>,
    pub next: int,
}

/// The outcome of a `primary` at `pos`: a literal, or an expression in
/// parentheses.
pub open spec fn parse_primary(tokens: Seq<TokenView>, pos: int) -> Parsed
    decreases tokens.len() - pos, 0int,
{
    if pos < 0 || pos >= tokens.len() {
        Parsed { result: Err("Expected expression."@), next: pos }
    } else if literal(tokens[pos].type_) is Some {
        Parsed { result: Ok(ExprView::Literal(literal(tokens[pos].type_)->0)), next: pos + 1 }
    } else if tokens[pos].type_ is LeftParen {
        let inner = parse_level(tokens, pos + 1, 0);
        match inner.result {
            Ok(expr) => if 0 <= inner.next < tokens.len() && tokens[inner.next].type_
                is RightParen {
                Parsed { result: Ok(ExprView::Grouping(Box::new(expr))), next: inner.next + 1 }
            } else {
                Parsed { result: Err("Expected ')' after expression."@), next: inner.next }
            },
            Err(_) => inner,
        }
    } else {
        Parsed { result: Err("Expected expression."@), next: pos }
    }
}

/// The outcome of a `unary` at `pos`: prefix operators, innermost last, and
/// then a `primary`.
pub open spec fn parse_unary(tokens: Seq<TokenView>, pos: int) -> Parsed
    decreases tokens.len() - pos, 1int,
{
    if 0 <= pos < tokens.len() && is_prefix_operator(tokens[pos].type_) {
        let operand = parse_unary(tokens, pos + 1);
        match operand.result {
            Ok(expr) => Parsed {
                result: Ok(ExprView::Unary(tokens[pos], Box::new(expr))),
                next: operand.next,
            },
            Err(_) => operand,
        }
    } else {
        parse_primary(tokens, pos)
    }
}

/// The outcome of the rule of level `level` at `pos`: for a binary rule, a
/// first operand of the next tighter rule and then the rest of the rule.
/// Level 4 and above is `unary`.
pub open spec fn parse_level(tokens: Seq<TokenView>, pos: int, level: int) -> Parsed
    decreases tokens.len() - pos,
        if 0 <= level < 4 {
            2 * (4 - level) + 3
        } else {
            2int
        },
{
    if 0 <= level < 4 {
        let first = parse_level(tokens, pos, level + 1);
        match first.result {
            // A parse never ends before it started, so the rest is always read.
            Ok(left) => if pos <= first.next <= tokens.len() {
                parse_rest(tokens, first.next, level, left)
            } else {
                first
            },
            Err(_) => first,
        }
    } else {
        parse_unary(tokens, pos)
    }
}

/// The outcome of the rest of a binary rule, when `left` has been read and
/// `pos` is reached: as long as an operator of the rule follows, it and its
/// right operand are read and folded into the left operand.
pub open spec fn parse_rest(tokens: Seq<TokenView>, pos: int, level: int, left: ExprView) -> Parsed
    decreases tokens.len() - pos,
        if 0 <= level < 4 {
            2 * (4 - level) + 2
        } else {
            0int
        },
{
    if 0 <= level < 4 && 0 <= pos < tokens.len() && binary_level(tokens[pos].type_) == Some(
        level,
    ) {
        let right = parse_level(tokens, pos + 1, level + 1);
        match right.result {
            // An operand holds at least one token, so the fold always goes on.
            Ok(operand) => if pos < right.next <= tokens.len() {
                parse_rest(
                    tokens,
                    right.next,
                    level,
                    ExprView::Binary(Box::new(left), tokens[pos], Box::new(operand)),
                )
            } else {
                right
            },
            Err(_) => right,
        }
    } else {
        Parsed { result: Ok(left), next: pos }
    }
}

/// The outcome of an `expression` at `pos`.
pub open spec fn parse_expression(tokens: Seq<TokenView>, pos: int) -> Parsed {
    parse_level(tokens, pos, 0)
}

/// Whether a token of this category opens a statement.
pub open spec fn opens_statement(type_: TokenTypeView) -> bool {
    type_ is Class || type_ is Fun || type_ is Var || type_ is For || type_ is If || type_ is While
        || type_ is Print || type_ is Return
}

/// Whether parsing can start again at `pos`: at the end of the tokens,
/// behind a semicolon, and in front of a keyword that opens a statement.
pub open spec fn is_boundary(tokens: Seq<TokenView>, pos: int) -> bool {
    ||| pos >= tokens.len()
    ||| (0 < pos && tokens[pos - 1].type_ is Semicolon)
    ||| (0 <= pos && opens_statement(tokens[pos].type_))
}

/// The first boundary at or after `pos`.
pub open spec fn next_boundary(tokens: Seq<TokenView>, pos: int) -> int
    decreases tokens.len() - pos,
{
    if pos < 0 || is_boundary(tokens, pos) {
        pos
    } else {
        next_boundary(tokens, pos + 1)
    }
}

/// Where parsing starts again after an error at `pos`: at the first
/// boundary behind the token at `pos`.
pub open spec fn resume_point(tokens: Seq<TokenView>, pos: int) -> int {
    if 0 <= pos < tokens.len() {
        next_boundary(tokens, pos + 1)
    } else {
        pos
    }
}

/// The number of tokens that an expression is written with.
pub open spec fn token_count(expr: ExprView) -> int
    decreases expr,
{
    match expr {
        ExprView::Literal(_) => 1,
        ExprView::Grouping(inner) => token_count(*inner) + 2,
        ExprView::Unary(_, operand) => token_count(*operand) + 1,
        ExprView::Binary(left, _, right) => token_count(*left) + 1 + token_count(*right),
    }
}

/// Whether the rule of level `level` derives `tokens[from..to]`, with `expr`
/// as the syntax tree. A binary rule is left-associative: its left operand
/// is of the same rule, its right operand of the next tighter one, and the
/// operator stands behind the tokens of the left operand. A rule also
/// derives what a tighter rule derives.
pub open spec fn derives_at(
    level: int,
    tokens: Seq<TokenView>,
    from: int,
    to: int,
    expr: ExprView,
) -> bool
    decreases expr,
{
    &&& 0 <= from < to <= tokens.len()
    &&& match expr {
        ExprView::Literal(value) => to == from + 1 && literal(tokens[from].type_) == Some(value),
        ExprView::Grouping(inner) => {
            &&& tokens[from].type_ is LeftParen
            &&& tokens[to - 1].type_ is RightParen
            &&& derives_at(0, tokens, from + 1, to - 1, *inner)
        },
        ExprView::Unary(operator, operand) => {
            &&& level <= 4
            &&& is_prefix_operator(operator.type_)
            &&& tokens[from] == operator
            &&& derives_at(4, tokens, from + 1, to, *operand)
        },
        ExprView::Binary(left, operator, right) => match binary_level(operator.type_) {
            Some(own) => {
                let at = from + token_count(*left);
                &&& level <= own
                &&& at < to
                &&& tokens[at] == operator
                &&& derives_at(own, tokens, from, at, *left)
                &&& derives_at(own + 1, tokens, at + 1, to, *right)
            },
            None => false,
        },
    }
}

/// Whether the grammar derives the whole of `tokens` as an expression with
/// `expr` as the syntax tree.
pub open spec fn derives(tokens: Seq<TokenView>, expr: ExprView) -> bool {
    derives_at(0, tokens, 0, tokens.len() as int, expr)
}

/// Whether no binary rule of level `level` or tighter can go on at `pos`:
/// the tokens end there, or the token there is no operator of such a rule.
pub open spec fn stops(tokens: Seq<TokenView>, pos: int, level: int) -> bool {
    pos < 0 || pos >= tokens.len() || match binary_level(tokens[pos].type_) {
        Some(own) => own < level,
        None => true,
    }
}

/// What a rule derives, every looser rule derives too.
pub proof fn lemma_derives_looser(
    level: int,
    looser: int,
    tokens: Seq<TokenView>,
    from: int,
    to: int,
    expr: ExprView,
)
    requires
        looser <= level,
        derives_at(level, tokens, from, to, expr),
    ensures
        derives_at(looser, tokens, from, to, expr),
{
}

/// A derivation spans as many tokens as its tree is written with.
pub proof fn lemma_derives_count(
    level: int,
    tokens: Seq<TokenView>,
    from: int,
    to: int,
    expr: ExprView,
)
    requires
        derives_at(level, tokens, from, to, expr),
    ensures
        token_count(expr) == to - from,
    decreases expr,
{
    match expr {
        ExprView::Literal(_) => {},
        ExprView::Grouping(inner) => {
            lemma_derives_count(0, tokens, from + 1, to - 1, *inner);
        },
        ExprView::Unary(_, operand) => {
            lemma_derives_count(4, tokens, from + 1, to, *operand);
        },
        ExprView::Binary(left, operator, right) => {
            let own = binary_level(operator.type_)->0;
            let at = from + token_count(*left);
            lemma_derives_count(own, tokens, from, at, *left);
            lemma_derives_count(own + 1, tokens, at + 1, to, *right);
        },
    }
}

/// What holds of the outcome of a rule that started at `from` and has come
/// to `parsed`: it stands between `from` and the end of the tokens, and a
/// tree that it built is derived by the rule of level `level` from exactly
/// the tokens read.
pub open spec fn sound(tokens: Seq<TokenView>, from: int, level: int, parsed: Parsed) -> bool {
    &&& from <= parsed.next <= tokens.len()
    &&& match parsed.result {
        Ok(expr) => derives_at(level, tokens, from, parsed.next, expr),
        Err(_) => true,
    }
}

/// A `primary` reads only what the grammar derives.
pub proof fn lemma_parse_primary_sound(tokens: Seq<TokenView>, pos: int)
    requires
        0 <= pos <= tokens.len(),
    ensures
        sound(tokens, pos, 4, parse_primary(tokens, pos)),
    decreases tokens.len() - pos, 0int,
{
    if pos < tokens.len() && literal(tokens[pos].type_) is None && tokens[pos].type_
        is LeftParen {
        lemma_parse_level_sound(tokens, pos + 1, 0);
    }
}

/// A `unary` reads only what the grammar derives.
pub proof fn lemma_parse_unary_sound(tokens: Seq<TokenView>, pos: int)
    requires
        0 <= pos <= tokens.len(),
    ensures
        sound(tokens, pos, 4, parse_unary(tokens, pos)),
    decreases tokens.len() - pos, 1int,
{
    if pos < tokens.len() && is_prefix_operator(tokens[pos].type_) {
        lemma_parse_unary_sound(tokens, pos + 1);
    } else {
        lemma_parse_primary_sound(tokens, pos);
    }
}

/// Every rule reads only what the grammar derives.
pub proof fn lemma_parse_level_sound(tokens: Seq<TokenView>, pos: int, level: int)
    requires
        0 <= pos <= tokens.len(),
        0 <= level <= 4,
    ensures
        sound(tokens, pos, level, parse_level(tokens, pos, level)),
    decreases tokens.len() - pos, 2 * (4 - level) + 3,
{
    if level < 4 {
        lemma_parse_level_sound(tokens, pos, level + 1);
        let first = parse_level(tokens, pos, level + 1);
        if let Ok(left) = first.result {
            lemma_derives_looser(level + 1, level, tokens, pos, first.next, left);
            lemma_parse_rest_sound(tokens, pos, first.next, level, left);
        }
    } else {
        lemma_parse_unary_sound(tokens, pos);
    }
}

/// The rest of a binary rule, begun with a left operand that the rule
/// derives from `tokens[from..pos]`, reads only what the grammar derives.
pub proof fn lemma_parse_rest_sound(
    tokens: Seq<TokenView>,
    from: int,
    pos: int,
    level: int,
    left: ExprView,
)
    requires
        0 <= level <= 3,
        derives_at(level, tokens, from, pos, left),
    ensures
        sound(tokens, from, level, parse_rest(tokens, pos, level, left)),
    decreases tokens.len() - pos, 2 * (4 - level) + 2,
{
    if pos < tokens.len() && binary_level(tokens[pos].type_) == Some(level) {
        lemma_parse_level_sound(tokens, pos + 1, level + 1);
        let right = parse_level(tokens, pos + 1, level + 1);
        if let Ok(operand) = right.result {
            lemma_derives_count(level, tokens, from, pos, left);
            let folded = ExprView::Binary(Box::new(left), tokens[pos], Box::new(operand));
            assert(derives_at(level, tokens, from, right.next, folded));
            lemma_parse_rest_sound(tokens, from, right.next, level, folded);
        }
    }
}

/// The parser accepts only what the grammar derives: whatever the tokens,
/// the parser stops between where it started and their end, and a tree
/// that it returns is derived by the grammar, as an expression, from
/// exactly the tokens read.
pub proof fn lemma_parse_sound(tokens: Seq<TokenView>, pos: int)
    requires
        0 <= pos <= tokens.len(),
    ensures
        sound(tokens, pos, 0, parse_expression(tokens, pos)),
{
    lemma_parse_level_sound(tokens, pos, 0);
}

/// Where a rule derives a stretch of tokens and no tighter rule can go on
/// behind it, the parser of that rule reads the stretch, has its tree in
/// hand, and goes on with the rest of the rule.
pub proof fn lemma_parse_derived(
    level: int,
    tokens: Seq<TokenView>,
    from: int,
    to: int,
    expr: ExprView,
)
    requires
        0 <= level <= 4,
        derives_at(level, tokens, from, to, expr),
        stops(tokens, to, level + 1),
    ensures
        parse_level(tokens, from, level) == parse_rest(tokens, to, level, expr),
    decreases expr, 4 - level,
{
    let tighter = match expr {
        ExprView::Binary(_, operator, _) => level < binary_level(operator.type_)->0,
        _ => level < 4,
    };
    if tighter {
        lemma_parse_derived(level + 1, tokens, from, to, expr);
        assert(parse_rest(tokens, to, level + 1, expr) == Parsed { result: Ok(expr), next: to });
    } else {
        match expr {
            ExprView::Literal(_) => {
                assert(parse_unary(tokens, from) == parse_primary(tokens, from));
            },
            ExprView::Grouping(inner) => {
                lemma_parse_derived(0, tokens, from + 1, to - 1, *inner);
                assert(parse_rest(tokens, to - 1, 0, *inner) == Parsed {
                    result: Ok(*inner),
                    next: to - 1,
                });
                assert(parse_unary(tokens, from) == parse_primary(tokens, from));
            },
            ExprView::Unary(_, operand) => {
                lemma_parse_derived(4, tokens, from + 1, to, *operand);
                assert(parse_level(tokens, from + 1, 4) == parse_unary(tokens, from + 1));
            },
            ExprView::Binary(left, _, right) => {
                let at = from + token_count(*left);
                lemma_parse_derived(level, tokens, from, at, *left);
                lemma_parse_derived(level + 1, tokens, at + 1, to, *right);
                assert(parse_rest(tokens, to, level + 1, *right) == Parsed {
                    result: Ok(*right),
                    next: to,
                });
            },
        }
    }
}

/// The parser accepts what the grammar derives: a sequence of tokens that
/// the grammar derives as an expression is parsed without error, to the
/// very tree it was derived with, and to its last token.
pub proof fn lemma_parse_complete(tokens: Seq<TokenView>, expr: ExprView)
    requires
        derives(tokens, expr),
    ensures
        parse_expression(tokens, 0) == (Parsed { result: Ok(expr), next: tokens.len() as int }),
{
    lemma_parse_derived(0, tokens, 0, tokens.len() as int, expr);
}

/// The grammar is unambiguous: it derives a sequence of tokens with one
/// syntax tree at most.
pub proof fn lemma_derivation_unique(tokens: Seq<TokenView>, first: ExprView, second: ExprView)
    requires
        derives(tokens, first),
        derives(tokens, second),
    ensures
        first == second,
{
    lemma_parse_complete(tokens, first);
    lemma_parse_complete(tokens, second);
}

} // verus!
